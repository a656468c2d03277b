use ingwe::debounce::{MediaKeyDebouncer, DEBOUNCE_WINDOW_NANOS};
use ingwe::error::{AppError, WorkArea};
use ingwe::media::{dispatch_media_key, fullscreen_shortcut, media_key_script, media_shortcuts};
use ingwe::page::{
    bridge_injection_script, fullscreen_sync_script, is_internal_page, page_load_plan,
    PageLoadStage,
};
use ingwe::protocol::{ctrl_action, ctrl_uri, handle_ctrl_protocol, handle_notify_protocol, CtrlCommand};
use ingwe::state::{select_service, AppState};
use ingwe::tray::{tray_menu_command, TrayCommand};

#[test]
fn ctrl_requests_in_fullscreen() {
    let cases = [
        ("top-enter", CtrlCommand::EdgeEnter),
        ("1", CtrlCommand::EdgeEnter),
        ("top-leave", CtrlCommand::EdgeLeave),
        ("0", CtrlCommand::EdgeLeave),
        ("left-enter", CtrlCommand::EdgeLeftEnter),
        ("left-leave", CtrlCommand::EdgeLeftLeave),
        ("escape", CtrlCommand::ToggleFullscreen),
        ("script-ready", CtrlCommand::ScriptReady),
        ("dance", CtrlCommand::Ignore),
    ];
    for (action, expected) in cases {
        let uri = format!("ingwe-ctrl://?a={}", action);
        assert_eq!(handle_ctrl_protocol(&uri, true), expected, "{}", action);
    }
}

#[test]
fn ctrl_requests_outside_fullscreen_are_ignored() {
    assert_eq!(handle_ctrl_protocol("ingwe-ctrl://?a=escape", false), CtrlCommand::Ignore);
    assert_eq!(handle_ctrl_protocol("ingwe-ctrl://?a=top-enter", false), CtrlCommand::Ignore);
}

#[test]
fn ctrl_request_without_action_is_ignored() {
    assert_eq!(handle_ctrl_protocol("ingwe-ctrl://", true), CtrlCommand::Ignore);
    assert_eq!(handle_ctrl_protocol("ingwe-ctrl://?b=escape", true), CtrlCommand::Ignore);
}

#[test]
fn ctrl_action_is_decoded() {
    assert_eq!(handle_ctrl_protocol("ingwe-ctrl://?a=top%2Denter", true), CtrlCommand::EdgeEnter);
}

#[test]
fn ctrl_ipc_mirrors_the_scheme() {
    assert_eq!(ctrl_uri("escape"), "ingwe-ctrl://?a=escape");
    assert_eq!(ctrl_action("escape", true), CtrlCommand::ToggleFullscreen);
    assert_eq!(ctrl_action("left-leave", true), CtrlCommand::EdgeLeftLeave);
    assert_eq!(ctrl_action("escape", false), CtrlCommand::Ignore);
    assert_eq!(ctrl_action("x&a=escape", true), CtrlCommand::Ignore);
}

#[test]
fn ctrl_event_names() {
    assert_eq!(CtrlCommand::EdgeEnter.event_name(), Some("edge-enter"));
    assert_eq!(CtrlCommand::EdgeLeave.event_name(), Some("edge-leave"));
    assert_eq!(CtrlCommand::EdgeLeftEnter.event_name(), Some("edge-left-enter"));
    assert_eq!(CtrlCommand::EdgeLeftLeave.event_name(), Some("edge-left-leave"));
    assert_eq!(CtrlCommand::ToggleFullscreen.event_name(), None);
    assert_eq!(CtrlCommand::ScriptReady.event_name(), None);
}

#[test]
fn notification_with_title_and_body() {
    let n = handle_notify_protocol("ingwe-notify://?title=New%20episode&body=Season+2%21").unwrap();
    assert_eq!(n.title, "New episode");
    assert_eq!(n.body, "Season 2!");
}

#[test]
fn notification_without_body() {
    let n = handle_notify_protocol("ingwe-notify://?title=Hi").unwrap();
    assert_eq!(n.title, "Hi");
    assert_eq!(n.body, "");
}

#[test]
fn notification_without_title_is_dropped() {
    assert!(handle_notify_protocol("ingwe-notify://?body=x").is_none());
    assert!(handle_notify_protocol("ingwe-notify://?title=&body=x").is_none());
    assert!(handle_notify_protocol("ingwe-notify://").is_none());
}

#[test]
fn media_script_names_the_action() {
    assert_eq!(media_key_script("play"), "if(window.__ingweMedia)window.__ingweMedia('play');");
}

#[test]
fn media_dispatch_needs_an_active_service() {
    let mut s: AppState<u32> = AppState::new();
    s.attach_service_view(3);
    assert!(dispatch_media_key(&s, "next").is_none());
    select_service(&mut s, "spotify".to_string());
    let (view, js) = dispatch_media_key(&s, "next").unwrap();
    assert_eq!(*view, 3);
    assert_eq!(js, "if(window.__ingweMedia)window.__ingweMedia('next');");
}

#[test]
fn shortcut_table() {
    let t = media_shortcuts();
    let pairs: Vec<(String, String)> = t.into_iter().map(|m| (m.key, m.action)).collect();
    assert_eq!(
        pairs,
        vec![
            ("MediaPlayPause".to_string(), "play".to_string()),
            ("MediaTrackNext".to_string(), "next".to_string()),
            ("MediaTrackPrevious".to_string(), "prev".to_string()),
            ("MediaStop".to_string(), "stop".to_string()),
        ]
    );
    assert_eq!(fullscreen_shortcut(), "F11");
}

#[test]
fn debounce_drops_repeats_within_the_window() {
    let mut d = MediaKeyDebouncer::new();
    assert!(d.press("play", 1_000));
    assert!(!d.press("play", 1_000 + DEBOUNCE_WINDOW_NANOS - 1));
    assert!(d.press("play", 1_000 + DEBOUNCE_WINDOW_NANOS));
    assert_eq!(DEBOUNCE_WINDOW_NANOS, 300_000_000);
}

#[test]
fn debounce_keeps_actions_apart() {
    let mut d = MediaKeyDebouncer::new();
    assert!(d.press("play", 0));
    assert!(d.press("next", 10));
    assert!(!d.press("next", 20));
    assert!(!d.press("play", 20));
}

#[test]
fn dropped_press_does_not_restart_the_window() {
    let mut d = MediaKeyDebouncer::new();
    assert!(d.press("next", 0));
    assert!(!d.press("next", 200_000_000));
    assert!(d.press("next", 350_000_000));
}

#[test]
fn clock_going_back_counts_as_no_time() {
    let mut d = MediaKeyDebouncer::new();
    assert!(d.press("prev", 5_000_000_000));
    assert!(!d.press("prev", 1_000));
}

#[test]
fn internal_pages() {
    assert!(is_internal_page("about:blank"));
    assert!(is_internal_page("data:text/html,hi"));
    assert!(!is_internal_page("https://www.netflix.com/"));
    assert!(!is_internal_page("abou"));
    assert!(!is_internal_page("About:blank"));
}

#[test]
fn page_load_plans() {
    let p = page_load_plan("https://x.com/", PageLoadStage::Started, true);
    assert!(p.announce_start && !p.inject_bridge && !p.sync_fullscreen && !p.announce_finish);
    let p = page_load_plan("https://x.com/", PageLoadStage::Finished, true);
    assert!(!p.announce_start && p.inject_bridge && p.sync_fullscreen && p.announce_finish);
    let p = page_load_plan("https://x.com/", PageLoadStage::Finished, false);
    assert!(p.inject_bridge && !p.sync_fullscreen && p.announce_finish);
    let p = page_load_plan("about:blank", PageLoadStage::Finished, true);
    assert!(!p.announce_start && !p.inject_bridge && !p.sync_fullscreen && !p.announce_finish);
    let p = page_load_plan("about:blank", PageLoadStage::Started, true);
    assert!(!p.announce_start);
}

#[test]
fn page_scripts() {
    assert_eq!(
        fullscreen_sync_script(true),
        "if(window.__ingweSetFullscreen)window.__ingweSetFullscreen(1);"
    );
    assert_eq!(
        fullscreen_sync_script(false),
        "if(window.__ingweSetFullscreen)window.__ingweSetFullscreen(0);"
    );
    assert_eq!(
        bridge_injection_script("init();"),
        "if(!window.__ingweMediaInjected){window.__ingweMediaInjected=true;init();}"
    );
}

#[test]
fn tray_entries() {
    assert!(matches!(tray_menu_command("show"), TrayCommand::ShowWindow));
    assert!(matches!(tray_menu_command("quit"), TrayCommand::Quit));
    assert!(matches!(tray_menu_command("play"), TrayCommand::Media(a) if a == "play"));
    assert!(matches!(tray_menu_command("prev"), TrayCommand::Media(a) if a == "prev"));
    assert!(matches!(tray_menu_command("next"), TrayCommand::Media(a) if a == "next"));
    assert!(matches!(tray_menu_command("stop"), TrayCommand::Ignore));
    assert!(matches!(tray_menu_command(""), TrayCommand::Ignore));
}

#[test]
fn error_messages() {
    assert_eq!(AppError::StatePoisoned.message(), "State lock poisoned");
    assert_eq!(AppError::Tauri("boom".to_string()).message(), "Tauri error: boom");
    assert_eq!(AppError::InvalidUrl("bad".to_string()).message(), "Invalid URL: bad");
    assert_eq!(AppError::Http("404".to_string()).message(), "HTTP error: 404");
}

#[test]
fn work_area_from_edges() {
    let w = WorkArea::from_edges(-1920, 0, 0, 1040);
    assert_eq!((w.x, w.y, w.width, w.height), (-1920, 0, 1920, 1040));
    let r = WorkArea::from_edges(10, 10, 0, 5);
    assert_eq!((r.width, r.height), (u32::MAX - 9, u32::MAX - 4));
}

#[test]
fn notification_survives_escaping_of_delimiters() {
    let n = handle_notify_protocol("ingwe-notify://?title=Rock%20%26%20Roll%3F&body=1%2B1%3D2").unwrap();
    assert_eq!(n.title, "Rock & Roll?");
    assert_eq!(n.body, "1+1=2");
}
