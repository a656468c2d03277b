//! Media keys: which keys are bound, and what a press makes the service page do.
use vstd::prelude::*;

use crate::state::{media_key_target, AppState};

verus! {

/// The script that hands the media action `action` to the bridge in the service page.
pub open spec fn media_key_script_text(action: Seq<char>) -> Seq<char> {
    "if(window.__ingweMedia)window.__ingweMedia('"@ + action + "');"@
}

/// The script that hands the media action `action` to the bridge in the service page.
pub fn media_key_script(action: &str) -> (r: String)
    ensures
        r@ == media_key_script_text(action@),
{
    let mut js = "if(window.__ingweMedia)window.__ingweMedia('".to_owned();
    js.append(action);
    js.append("');");
    js
}

/// Where a media key press goes and what it runs there: the script for `action` in the service
/// view, while a service is active; nothing otherwise.
pub fn dispatch_media_key<'a, V>(state: &'a AppState<V>, action: &str) -> (r: Option<(&'a V, String)>)
    ensures
        r is Some <==> state.media_target() is Some,
        r matches Some(d) ==> *d.0 == state.media_target()->0 && d.1@ == media_key_script_text(
            action@,
        ),
{
    match media_key_target(state) {
        Some(view) => Some((view, media_key_script(action))),
        None => None,
    }
}

/// A global shortcut and the media action it stands for.
#[derive(Debug, Clone)]
pub struct MediaShortcut {
    /// The key, as the shortcut registry names it.
    pub key: String,
    /// The action handed to the service page.
    pub action: String,
}

/// The media keys that the shell registers, with their actions.
pub open spec fn media_shortcut_table() -> Seq<(Seq<char>, Seq<char>)> {
    seq![
        ("MediaPlayPause"@, "play"@),
        ("MediaTrackNext"@, "next"@),
        ("MediaTrackPrevious"@, "prev"@),
        ("MediaStop"@, "stop"@),
    ]
}

/// The key that switches fullscreen on and off.
pub open spec fn fullscreen_shortcut_text() -> Seq<char> {
    "F11"@
}

fn shortcut(key: &str, action: &str) -> (r: MediaShortcut)
    ensures
        r.key@ == key@,
        r.action@ == action@,
{
    MediaShortcut { key: key.to_owned(), action: action.to_owned() }
}

/// The media keys that the shell registers, in order, with their actions.
pub fn media_shortcuts() -> (r: Vec<MediaShortcut>)
    ensures
        r@.len() == media_shortcut_table().len(),
        forall|i: int|
            0 <= i < r@.len() ==> (#[trigger] r@[i]).key@ == media_shortcut_table()[i].0
                && r@[i].action@ == media_shortcut_table()[i].1,
{
    let mut v: Vec<MediaShortcut> = Vec::new();
    v.push(shortcut("MediaPlayPause", "play"));
    v.push(shortcut("MediaTrackNext", "next"));
    v.push(shortcut("MediaTrackPrevious", "prev"));
    v.push(shortcut("MediaStop", "stop"));
    v
}

/// The key that switches fullscreen on and off.
pub fn fullscreen_shortcut() -> (r: &'static str)
    ensures
        r@ == fullscreen_shortcut_text(),
{
    "F11"
}

/// The media key script is a fixed text around the action, which stands in it unchanged; so
/// different actions give different scripts.
pub proof fn lemma_media_key_script_embeds_action(action: Seq<char>, other: Seq<char>)
    ensures
        ({
            let call = "if(window.__ingweMedia)window.__ingweMedia('"@;
            let t = media_key_script_text(action);
            &&& t.len() == call.len() + action.len() + 3
            &&& t.take(call.len() as int) == call
            &&& t.subrange(call.len() as int, (call.len() + action.len()) as int) == action
            &&& t.skip((call.len() + action.len()) as int) == "');"@
        }),
        media_key_script_text(action) == media_key_script_text(other) ==> action == other,
{
    reveal_strlit("');");
    let call = "if(window.__ingweMedia)window.__ingweMedia('"@;
    let t = media_key_script_text(action);
    assert(t.take(call.len() as int) =~= call);
    assert(t.subrange(call.len() as int, (call.len() + action.len()) as int) =~= action);
    assert(t.skip((call.len() + action.len()) as int) =~= "');"@);
    if media_key_script_text(action) == media_key_script_text(other) {
        let u = media_key_script_text(other);
        assert(action.len() == other.len());
        assert(u.subrange(call.len() as int, (call.len() + other.len()) as int) =~= other);
    }
}

} // verus!
