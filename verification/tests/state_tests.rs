use ingwe::error::AppError;
use ingwe::navigation::{service_url_from_parse, open_service, parse_service_url, reset_service};
use ingwe::state::{
    close_service, media_key_target, select_service, show_titlebar_overlay,
    toggle_fullscreen_layout, AppState, ViewFrame, SIDEBAR_WIDTH, TITLEBAR_HEIGHT,
};

fn with_view() -> AppState<u32> {
    let mut s = AppState::new();
    s.attach_service_view(7);
    s
}

#[test]
fn new_state_is_empty_and_windowed() {
    let s: AppState<u32> = AppState::new();
    assert!(s.service_view.is_none());
    assert!(s.active_service_id.is_none());
    assert!(!s.is_fullscreen && !s.overlay_titlebar && !s.overlay_sidebar);
    assert!(matches!(s.service_view_frame(), ViewFrame::Windowed { top: 32 }));
}

#[test]
fn valid_service_url_parses() {
    assert!(parse_service_url("https://music.youtube.com/").is_ok());
}

#[test]
fn invalid_service_url_gives_reason() {
    match parse_service_url("not a url") {
        Err(AppError::InvalidUrl(m)) => assert_eq!(m, "relative URL without a base"),
        other => panic!("unexpected {:?}", other.map(|u| u.to_string())),
    }
    match parse_service_url("https://exa mple.com") {
        Err(AppError::InvalidUrl(m)) => assert_eq!(m, "invalid international domain name"),
        other => panic!("unexpected {:?}", other.map(|u| u.to_string())),
    }
}

#[test]
fn opening_without_a_view_fails_but_selects() {
    let mut s: AppState<u32> = AppState::new();
    let url = parse_service_url("https://www.netflix.com/").unwrap();
    match open_service(&mut s, "netflix".to_string(), url) {
        Err(AppError::Tauri(m)) => assert_eq!(m, "service webview not initialized"),
        _ => panic!("expected an error"),
    }
    assert_eq!(s.active_service_id.as_deref(), Some("netflix"));
}

#[test]
fn opening_a_new_service_navigates_and_reopening_does_not() {
    let mut s = with_view();
    let url = parse_service_url("https://open.spotify.com/").unwrap();
    let first = open_service(&mut s, "spotify".to_string(), url.clone()).unwrap();
    assert_eq!(first.map(|u| u.to_string()), Some("https://open.spotify.com/".to_string()));
    let second = open_service(&mut s, "spotify".to_string(), url.clone()).unwrap();
    assert!(second.is_none());
    let third = open_service(&mut s, "netflix".to_string(), url).unwrap();
    assert!(third.is_some());
    assert_eq!(s.active_service_id.as_deref(), Some("netflix"));
}

#[test]
fn opening_hides_the_sidebar_overlay() {
    let mut s = with_view();
    toggle_fullscreen_layout(&mut s);
    s.overlay_sidebar = true;
    let url = parse_service_url("https://www.disneyplus.com/").unwrap();
    let _ = open_service(&mut s, "disney".to_string(), url);
    assert!(!s.overlay_sidebar);
    assert!(s.is_fullscreen);
}

#[test]
fn reset_always_navigates() {
    let mut s = with_view();
    let url = parse_service_url("https://open.spotify.com/").unwrap();
    assert!(select_service(&mut s, "spotify".to_string()) == false);
    let r = reset_service(&mut s, "spotify".to_string(), url).unwrap();
    assert_eq!(r.as_str(), "https://open.spotify.com/");
    let mut empty: AppState<u32> = AppState::new();
    let url = parse_service_url("https://open.spotify.com/").unwrap();
    assert!(matches!(reset_service(&mut empty, "spotify".to_string(), url), Err(AppError::Tauri(_))));
}

#[test]
fn select_reports_same_service() {
    let mut s = with_view();
    assert!(!select_service(&mut s, "a".to_string()));
    assert!(select_service(&mut s, "a".to_string()));
    assert!(!select_service(&mut s, "b".to_string()));
}

#[test]
fn closing_clears_the_active_service() {
    let mut s = with_view();
    select_service(&mut s, "a".to_string());
    assert!(close_service(&mut s));
    assert!(s.active_service_id.is_none());
    let mut empty: AppState<u32> = AppState::new();
    assert!(!close_service(&mut empty));
}

#[test]
fn toggling_fullscreen_twice_restores_the_layout() {
    let mut s = with_view();
    assert!(toggle_fullscreen_layout(&mut s));
    assert!(show_titlebar_overlay(&mut s, true));
    assert!(s.overlay_titlebar);
    assert!(!toggle_fullscreen_layout(&mut s));
    assert!(!s.is_fullscreen && !s.overlay_titlebar && !s.overlay_sidebar);
    assert!(toggle_fullscreen_layout(&mut s));
    assert!(!s.overlay_titlebar);
}

#[test]
fn titlebar_overlay_only_in_fullscreen() {
    let mut s = with_view();
    assert!(!show_titlebar_overlay(&mut s, true));
    assert!(!s.overlay_titlebar);
    toggle_fullscreen_layout(&mut s);
    assert!(show_titlebar_overlay(&mut s, true));
    assert!(s.overlay_titlebar);
    assert!(show_titlebar_overlay(&mut s, false));
    assert!(!s.overlay_titlebar);
}

#[test]
fn frames_follow_layout() {
    let mut s = with_view();
    assert!(matches!(s.service_view_frame(), ViewFrame::Windowed { top } if top == TITLEBAR_HEIGHT));
    toggle_fullscreen_layout(&mut s);
    assert!(matches!(s.service_view_frame(), ViewFrame::Fullscreen { left: 0, top: 0 }));
    show_titlebar_overlay(&mut s, true);
    assert!(matches!(s.service_view_frame(), ViewFrame::Fullscreen { left: 0, top: 32 }));
    s.overlay_sidebar = true;
    assert!(matches!(s.service_view_frame(), ViewFrame::Fullscreen { left, top: 32 } if left == SIDEBAR_WIDTH));
    assert_eq!(SIDEBAR_WIDTH, 208);
}

#[test]
fn media_keys_go_to_the_active_service_only() {
    let mut s = with_view();
    assert!(media_key_target(&s).is_none());
    select_service(&mut s, "spotify".to_string());
    assert_eq!(media_key_target(&s), Some(&7));
    close_service(&mut s);
    assert!(media_key_target(&s).is_none());
    let mut no_view: AppState<u32> = AppState::new();
    select_service(&mut no_view, "spotify".to_string());
    assert!(media_key_target(&no_view).is_none());
}

#[test]
fn parse_outcome_becomes_service_url_or_error() {
    let url = parse_service_url("https://www.youtube.com/").unwrap();
    assert_eq!(service_url_from_parse(Ok(url)).unwrap().as_str(), "https://www.youtube.com/");
    match service_url_from_parse(Err("empty host".to_string())) {
        Err(AppError::InvalidUrl(m)) => assert_eq!(m, "empty host"),
        _ => panic!("expected InvalidUrl"),
    }
}

#[test]
fn parsed_service_url_is_the_text_given() {
    let u = parse_service_url("https://music.youtube.com/watch?v=1").unwrap();
    assert_eq!(u.as_str(), "https://music.youtube.com/watch?v=1");
    let u = parse_service_url("HTTPS://Example.COM").unwrap();
    assert_eq!(u.as_str(), "https://example.com/");
}

#[test]
fn layout_settles_twice_after_start() {
    assert_eq!(ingwe::state::settle_resize_delays_ms(), vec![200, 600]);
}
