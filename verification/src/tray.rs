//! The entries of the tray menu.
use vstd::prelude::*;

use crate::protocol::is_text;

verus! {

/// What a tray menu entry asks of the shell.
#[derive(Debug, Clone)]
pub enum TrayCommand {
    /// Bring the main window back and focus it.
    ShowWindow,
    /// Hand this media action to the active service.
    Media(String),
    /// Quit the shell.
    Quit,
    /// Not an entry of the menu.
    Ignore,
}

/// Whether `id` is one of the media entries of the tray menu.
pub open spec fn is_media_entry(id: Seq<char>) -> bool {
    id == "play"@ || id == "prev"@ || id == "next"@
}

/// What the tray menu entry with id `id` asks of the shell. The media entries (`play`, `prev`,
/// `next`) hand on their id as the action.
pub fn tray_menu_command(id: &str) -> (r: TrayCommand)
    ensures
        id@ == "show"@ ==> r is ShowWindow,
        id@ == "quit"@ ==> r is Quit,
        is_media_entry(id@) ==> (r matches TrayCommand::Media(a) && a@ == id@),
        id@ != "show"@ && id@ != "quit"@ && !is_media_entry(id@) ==> r is Ignore,
{
    proof {
        reveal_strlit("show");
        reveal_strlit("quit");
        reveal_strlit("play");
        reveal_strlit("prev");
        reveal_strlit("next");
        assert("quit"@ != "show"@) by {
            assert("quit"@[0] != "show"@[0]);
        }
        assert(!is_media_entry("show"@)) by {
            assert("show"@[0] != "play"@[0]);
            assert("show"@[0] != "prev"@[0]);
            assert("show"@[0] != "next"@[0]);
        }
        assert(!is_media_entry("quit"@)) by {
            assert("quit"@[0] != "play"@[0]);
            assert("quit"@[0] != "prev"@[0]);
            assert("quit"@[0] != "next"@[0]);
        }
    }
    let id_text = id.to_owned();
    if is_text(&id_text, "show") {
        TrayCommand::ShowWindow
    } else if is_text(&id_text, "quit") {
        TrayCommand::Quit
    } else if is_text(&id_text, "play") || is_text(&id_text, "prev") || is_text(&id_text, "next") {
        TrayCommand::Media(id_text)
    } else {
        TrayCommand::Ignore
    }
}

} // verus!
