//! Requests that the page shown in the service view sends to the shell through its own URI
//! schemes (`ingwe-ctrl://` and `ingwe-notify://`).
use vstd::prelude::*;

use vstd::utf8::{char_u32_cast, encode_utf8, is_ascii_chars, is_ascii_chars_encode_utf8};

use crate::query::{
    bytes_as_chars, encode_selected, extract_query_param, hex_digit_value,
    lemma_decode_undoes_escaping, lemma_encode_selected_avoids, lemma_encode_utf8_avoids_ascii, lemma_encode_utf8_concat,
    lemma_find_byte_at, pair_value, percent_decode, query_param, query_section, AMPERSAND,
    EQUALS_SIGN, PERCENT, PLUS, QUESTION_MARK,
};

verus! {

/// What a control request asks of the shell.
#[derive(Debug, Clone, Copy, PartialEq, Eq, Structural)]
pub enum CtrlCommand {
    /// The pointer entered the top edge of a fullscreen service.
    EdgeEnter,
    /// The pointer left the top edge.
    EdgeLeave,
    /// The pointer entered the left edge.
    EdgeLeftEnter,
    /// The pointer left the left edge.
    EdgeLeftLeave,
    /// Leave or enter fullscreen (the page's exit button, or Escape).
    ToggleFullscreen,
    /// The script injected into the page has loaded.
    ScriptReady,
    /// Nothing to do.
    Ignore,
}

/// The command that a control action names.
pub open spec fn ctrl_command_for(action: Seq<char>) -> CtrlCommand {
    if action == "top-enter"@ || action == "1"@ {
        CtrlCommand::EdgeEnter
    } else if action == "top-leave"@ || action == "0"@ {
        CtrlCommand::EdgeLeave
    } else if action == "left-enter"@ {
        CtrlCommand::EdgeLeftEnter
    } else if action == "left-leave"@ {
        CtrlCommand::EdgeLeftLeave
    } else if action == "escape"@ {
        CtrlCommand::ToggleFullscreen
    } else if action == "script-ready"@ {
        CtrlCommand::ScriptReady
    } else {
        CtrlCommand::Ignore
    }
}

/// The command of a control request: that of its parameter `a`, and only in fullscreen.
pub open spec fn ctrl_request_command(uri: Seq<char>, is_fullscreen: bool) -> CtrlCommand {
    match query_param(uri, "a"@) {
        Some(action) => if is_fullscreen {
            ctrl_command_for(action)
        } else {
            CtrlCommand::Ignore
        },
        None => CtrlCommand::Ignore,
    }
}

/// The text of the control request that carries `action` as it stands.
pub open spec fn ctrl_uri_text(action: Seq<char>) -> Seq<char> {
    "ingwe-ctrl://?a="@ + action
}

impl CtrlCommand {
    /// The name of the event that the window's front end gets for this command, if any.
    pub fn event_name(&self) -> (r: Option<&'static str>)
        ensures
            *self == CtrlCommand::EdgeEnter ==> r is Some && r->0@ == "edge-enter"@,
            *self == CtrlCommand::EdgeLeave ==> r is Some && r->0@ == "edge-leave"@,
            *self == CtrlCommand::EdgeLeftEnter ==> r is Some && r->0@ == "edge-left-enter"@,
            *self == CtrlCommand::EdgeLeftLeave ==> r is Some && r->0@ == "edge-left-leave"@,
            *self == CtrlCommand::ToggleFullscreen || *self == CtrlCommand::ScriptReady || *self
                == CtrlCommand::Ignore ==> r is None,
    {
        match self {
            CtrlCommand::EdgeEnter => Some("edge-enter"),
            CtrlCommand::EdgeLeave => Some("edge-leave"),
            CtrlCommand::EdgeLeftEnter => Some("edge-left-enter"),
            CtrlCommand::EdgeLeftLeave => Some("edge-left-leave"),
            _ => None,
        }
    }
}

/// Whether `s` is the text `lit`.
pub(crate) fn is_text(s: &String, lit: &str) -> (r: bool)
    ensures
        r == (s@ == lit@),
{
    *s == lit.to_owned()
}

fn ctrl_command_of(action: &String) -> (r: CtrlCommand)
    ensures
        r == ctrl_command_for(action@),
{
    if is_text(action, "top-enter") || is_text(action, "1") {
        CtrlCommand::EdgeEnter
    } else if is_text(action, "top-leave") || is_text(action, "0") {
        CtrlCommand::EdgeLeave
    } else if is_text(action, "left-enter") {
        CtrlCommand::EdgeLeftEnter
    } else if is_text(action, "left-leave") {
        CtrlCommand::EdgeLeftLeave
    } else if is_text(action, "escape") {
        CtrlCommand::ToggleFullscreen
    } else if is_text(action, "script-ready") {
        CtrlCommand::ScriptReady
    } else {
        CtrlCommand::Ignore
    }
}

/// The command of a control request `uri` (`ingwe-ctrl://?a=<action>`). Requests count only while
/// the layout is fullscreen; outside it, and without an `a` parameter, they are ignored.
pub fn handle_ctrl_protocol(uri: &str, is_fullscreen: bool) -> (r: CtrlCommand)
    ensures
        r == ctrl_request_command(uri@, is_fullscreen),
{
    let action = match extract_query_param(uri, "a") {
        Some(a) => a,
        None => return CtrlCommand::Ignore,
    };
    if !is_fullscreen {
        return CtrlCommand::Ignore;
    }
    ctrl_command_of(&action)
}

/// The control request that carries `action` as it stands, without escaping.
pub fn ctrl_uri(action: &str) -> (r: String)
    ensures
        r@ == ctrl_uri_text(action@),
{
    let mut uri = "ingwe-ctrl://?a=".to_owned();
    uri.append(action);
    uri
}

/// The command of a control action that reaches the shell as an IPC call rather than a request
/// to the `ingwe-ctrl` scheme: the same as that of the request carrying the action.
pub fn ctrl_action(action: &str, is_fullscreen: bool) -> (r: CtrlCommand)
    ensures
        r == ctrl_request_command(ctrl_uri_text(action@), is_fullscreen),
{
    let uri = ctrl_uri(action);
    handle_ctrl_protocol(uri.as_str(), is_fullscreen)
}

/// A notification that the page asks the shell to show.
#[derive(Debug, Clone)]
pub struct NotificationRequest {
    pub title: String,
    pub body: String,
}

/// The decoded query parameter `key` of `uri`, or the empty text.
pub open spec fn param_or_empty(uri: Seq<char>, key: Seq<char>) -> Seq<char> {
    match query_param(uri, key) {
        Some(v) => v,
        None => Seq::empty(),
    }
}

fn param_or_empty_of(uri: &str, key: &str) -> (r: String)
    ensures
        r@ == param_or_empty(uri@, key@),
{
    match extract_query_param(uri, key) {
        Some(v) => v,
        None => String::new(),
    }
}

/// The notification of a request `uri` (`ingwe-notify://?title=..&body=..`): none when the
/// title is missing or empty; a missing body is empty.
pub fn handle_notify_protocol(uri: &str) -> (r: Option<NotificationRequest>)
    ensures
        r is Some <==> param_or_empty(uri@, "title"@).len() > 0,
        r matches Some(n) ==> n.title@ == param_or_empty(uri@, "title"@) && n.body@
            == param_or_empty(uri@, "body"@),
{
    let title = param_or_empty_of(uri, "title");
    let body = param_or_empty_of(uri, "body");
    if title.as_str().is_empty() {
        return None;
    }
    Some(NotificationRequest { title, body })
}

/// An action sent over IPC is read back whole from the control request that carries it, as
/// long as it holds no `?` or `&`, which would end the parameter; so it names the same command
/// as the decoded action does in a request of the page's own.
pub proof fn lemma_ctrl_action_carries_action(action: Seq<char>, is_fullscreen: bool)
    requires
        forall|i: int| 0 <= i < action.len() ==> action[i] != '?' && action[i] != '&',
    ensures
        query_param(ctrl_uri_text(action), "a"@) == Some(percent_decode(encode_utf8(action))),
        ctrl_request_command(ctrl_uri_text(action), is_fullscreen) == if is_fullscreen {
            ctrl_command_for(percent_decode(encode_utf8(action)))
        } else {
            CtrlCommand::Ignore
        },
{
    reveal_strlit("ingwe-ctrl://?a=");
    reveal_strlit("a");
    let prefix = "ingwe-ctrl://?a="@;
    let key = "a"@;
    assert(is_ascii_chars(prefix));
    assert(is_ascii_chars(key));
    is_ascii_chars_encode_utf8(prefix);
    is_ascii_chars_encode_utf8(key);
    lemma_encode_utf8_concat(prefix, action);
    assert forall|i: int| 0 <= i < action.len() implies (action[i] as u32) != (
    QUESTION_MARK as u32) && (action[i] as u32) != (AMPERSAND as u32) by {
        assert(('?' as u32) == (QUESTION_MARK as u32));
        assert(('&' as u32) == (AMPERSAND as u32));
        char_u32_cast(action[i], action[i] as u32);
        char_u32_cast('?', '?' as u32);
        char_u32_cast('&', '&' as u32);
    }
    lemma_encode_utf8_avoids_ascii(action, QUESTION_MARK);
    lemma_encode_utf8_avoids_ascii(action, AMPERSAND);
    let p = encode_utf8(prefix);
    let a = encode_utf8(action);
    let u = p + a;
    assert(u == encode_utf8(ctrl_uri_text(action)));
    assert(p.len() == 16);
    assert forall|j: int| 0 <= j < 13 implies u[j] != QUESTION_MARK by {
        assert(u[j] == prefix[j] as u8);
    }
    assert(u[13] == prefix[13] as u8);
    lemma_find_byte_at(u, QUESTION_MARK, 13);
    let rest = u.skip(14);
    assert(rest[0] == prefix[14] as u8);
    assert(rest[1] == prefix[15] as u8);
    assert forall|j: int| 0 <= j < rest.len() implies rest[j] != QUESTION_MARK && rest[j]
        != AMPERSAND by {
        if j >= 2 {
            assert(rest[j] == a[j - 2]);
        }
    }
    lemma_find_byte_at(rest, QUESTION_MARK, rest.len() as int);
    assert(rest.take(rest.len() as int) =~= rest);
    assert(query_section(u) == Some(rest));
    lemma_find_byte_at(rest, AMPERSAND, rest.len() as int);
    assert(rest[0] != EQUALS_SIGN);
    lemma_find_byte_at(rest, EQUALS_SIGN, 1);
    assert(rest.take(1) =~= encode_utf8(key));
    assert(rest.skip(2) =~= a);
    assert(pair_value(rest, encode_utf8(key)) == Some(a));
}

/// Whether `escape` selects every `%`, `+`, `&` and `?` of `bytes` for percent-escaping, as
/// `encodeURIComponent` does.
pub open spec fn escapes_delimiters(bytes: Seq<u8>, escape: Seq<bool>) -> bool {
    &&& escape.len() == bytes.len()
    &&& forall|i: int|
        0 <= i < bytes.len() && !escape[i] ==> bytes[i] != PERCENT && bytes[i] != PLUS && bytes[i]
            != AMPERSAND && bytes[i] != QUESTION_MARK
}

/// The bytes of the request by which the page asks for a notification: title and body, each
/// percent-escaped as `escape_title` and `escape_body` select.
pub open spec fn notify_request_bytes(
    title: Seq<u8>,
    escape_title: Seq<bool>,
    body: Seq<u8>,
    escape_body: Seq<bool>,
) -> Seq<u8> {
    encode_utf8("ingwe-notify://?title="@) + encode_selected(title, escape_title) + encode_utf8(
        "&body="@,
    ) + encode_selected(body, escape_body)
}

/// A notification request that the page builds from a title and a body, escaping at least
/// their `%`, `+`, `&` and `?`, yields that title and body again, each byte as the character
/// with the same code.
pub proof fn lemma_notification_request_round_trip(
    uri: Seq<char>,
    title: Seq<u8>,
    escape_title: Seq<bool>,
    body: Seq<u8>,
    escape_body: Seq<bool>,
)
    requires
        escapes_delimiters(title, escape_title),
        escapes_delimiters(body, escape_body),
        encode_utf8(uri) == notify_request_bytes(title, escape_title, body, escape_body),
    ensures
        param_or_empty(uri, "title"@) == bytes_as_chars(title),
        param_or_empty(uri, "body"@) == bytes_as_chars(body),
{
    reveal_strlit("ingwe-notify://?title=");
    reveal_strlit("&body=");
    reveal_strlit("title");
    reveal_strlit("body");
    let head_text = "ingwe-notify://?title="@;
    let mid_text = "&body="@;
    assert(is_ascii_chars(head_text));
    assert(is_ascii_chars(mid_text));
    assert(is_ascii_chars("title"@));
    assert(is_ascii_chars("body"@));
    is_ascii_chars_encode_utf8(head_text);
    is_ascii_chars_encode_utf8(mid_text);
    is_ascii_chars_encode_utf8("title"@);
    is_ascii_chars_encode_utf8("body"@);
    let head = encode_utf8(head_text);
    let mid = encode_utf8(mid_text);
    let t = encode_selected(title, escape_title);
    let b = encode_selected(body, escape_body);
    assert(hex_digit_value(AMPERSAND) is None);
    assert(hex_digit_value(QUESTION_MARK) is None);
    lemma_encode_selected_avoids(title, escape_title, AMPERSAND);
    lemma_encode_selected_avoids(title, escape_title, QUESTION_MARK);
    lemma_encode_selected_avoids(body, escape_body, AMPERSAND);
    lemma_encode_selected_avoids(body, escape_body, QUESTION_MARK);
    lemma_decode_undoes_escaping(title, escape_title);
    lemma_decode_undoes_escaping(body, escape_body);
    let u = head + t + mid + b;
    assert(u == encode_utf8(uri));
    assert(head.len() == 22);
    assert(mid.len() == 6);
    assert forall|j: int| 0 <= j < 15 implies u[j] != QUESTION_MARK by {
        assert(u[j] == head_text[j] as u8);
    }
    assert(u[15] == head_text[15] as u8);
    lemma_find_byte_at(u, QUESTION_MARK, 15);
    let rest = u.skip(16);
    assert(rest =~= encode_utf8("title="@) + t + mid + b) by {
        reveal_strlit("title=");
        assert(is_ascii_chars("title="@));
        is_ascii_chars_encode_utf8("title="@);
    }
    assert forall|j: int| 0 <= j < rest.len() implies rest[j] != QUESTION_MARK by {
        if j < 6 {
            assert(rest[j] == head_text[j + 16] as u8);
        } else if j < 6 + t.len() {
            assert(rest[j] == t[j - 6]);
        } else if j < 6 + t.len() + 6 {
            assert(rest[j] == mid_text[j - 6 - t.len()] as u8);
        } else {
            assert(rest[j] == b[j - 12 - t.len()]);
        }
    }
    lemma_find_byte_at(rest, QUESTION_MARK, rest.len() as int);
    assert(rest.take(rest.len() as int) =~= rest);
    assert(query_section(u) == Some(rest));
    // The first pair: `title=` and the escaped title, up to the `&` of `&body=`.
    let first_end: int = 6 + t.len() as int;
    assert forall|j: int| 0 <= j < first_end implies rest[j] != AMPERSAND by {
        if j < 6 {
            assert(rest[j] == head_text[j + 16] as u8);
        } else {
            assert(rest[j] == t[j - 6]);
        }
    }
    assert(rest[first_end] == mid_text[0] as u8);
    lemma_find_byte_at(rest, AMPERSAND, first_end);
    let first = rest.take(first_end);
    assert forall|j: int| 0 <= j < 5 implies first[j] != EQUALS_SIGN by {
        assert(first[j] == head_text[j + 16] as u8);
    }
    assert(first[5] == head_text[21] as u8);
    lemma_find_byte_at(first, EQUALS_SIGN, 5);
    assert(first.take(5) =~= encode_utf8("title"@));
    assert(first.skip(6) =~= t);
    assert(pair_value(rest, encode_utf8("title"@)) == Some(t));
    // The second pair: `body=` and the escaped body, to the end.
    assert(first.take(5) != encode_utf8("body"@));
    let second = rest.skip(first_end + 1);
    assert(second =~= encode_utf8("body="@) + b) by {
        reveal_strlit("body=");
        assert(is_ascii_chars("body="@));
        is_ascii_chars_encode_utf8("body="@);
        assert forall|j: int| 0 <= j < 5 implies second[j] == mid_text[j + 1] as u8 by {}
    }
    assert forall|j: int| 0 <= j < second.len() implies second[j] != AMPERSAND by {
        if j < 5 {
            assert(second[j] == mid_text[j + 1] as u8);
        } else {
            assert(second[j] == b[j - 5]);
        }
    }
    lemma_find_byte_at(second, AMPERSAND, second.len() as int);
    assert(second.take(second.len() as int) =~= second);
    assert forall|j: int| 0 <= j < 4 implies second[j] != EQUALS_SIGN by {
        assert(second[j] == mid_text[j + 1] as u8);
    }
    assert(second[4] == mid_text[5] as u8);
    lemma_find_byte_at(second, EQUALS_SIGN, 4);
    assert(second.take(4) =~= encode_utf8("body"@));
    assert(second.skip(5) =~= b);
    assert(pair_value(second, encode_utf8("body"@)) == Some(b));
    assert(pair_value(rest, encode_utf8("body"@)) == Some(b));
}

/// Each control action names its own command, and every other text is ignored: `top-enter` and
/// `1` enter the top edge, `top-leave` and `0` leave it, `left-enter` and `left-leave` do the
/// same for the left edge, `escape` switches fullscreen, and `script-ready` reports the script.
pub proof fn lemma_ctrl_commands(a: Seq<char>)
    ensures
        ctrl_command_for(a) == CtrlCommand::EdgeEnter <==> (a == "top-enter"@ || a == "1"@),
        ctrl_command_for(a) == CtrlCommand::EdgeLeave <==> (a == "top-leave"@ || a == "0"@),
        ctrl_command_for(a) == CtrlCommand::EdgeLeftEnter <==> a == "left-enter"@,
        ctrl_command_for(a) == CtrlCommand::EdgeLeftLeave <==> a == "left-leave"@,
        ctrl_command_for(a) == CtrlCommand::ToggleFullscreen <==> a == "escape"@,
        ctrl_command_for(a) == CtrlCommand::ScriptReady <==> a == "script-ready"@,
        ctrl_command_for(a) == CtrlCommand::Ignore <==> !(a == "top-enter"@ || a == "1"@ || a
            == "top-leave"@ || a == "0"@ || a == "left-enter"@ || a == "left-leave"@ || a
            == "escape"@ || a == "script-ready"@),
{
    reveal_strlit("top-enter");
    reveal_strlit("1");
    reveal_strlit("top-leave");
    reveal_strlit("0");
    reveal_strlit("left-enter");
    reveal_strlit("left-leave");
    reveal_strlit("escape");
    reveal_strlit("script-ready");
    assert("top-enter"@ != "top-leave"@) by {
        assert("top-enter"@[4] != "top-leave"@[4]);
    }
    assert("1"@ != "0"@) by {
        assert("1"@[0] != "0"@[0]);
    }
    assert("left-enter"@ != "left-leave"@) by {
        assert("left-enter"@[5] != "left-leave"@[5]);
    }
    assert("top-enter"@ != "1"@) by {
        assert("top-enter"@.len() != "1"@.len());
    }
    assert("top-enter"@ != "0"@) by {
        assert("top-enter"@.len() != "0"@.len());
    }
    assert("top-enter"@ != "left-enter"@) by {
        assert("top-enter"@.len() != "left-enter"@.len());
    }
    assert("top-enter"@ != "left-leave"@) by {
        assert("top-enter"@.len() != "left-leave"@.len());
    }
    assert("top-enter"@ != "escape"@) by {
        assert("top-enter"@.len() != "escape"@.len());
    }
    assert("top-enter"@ != "script-ready"@) by {
        assert("top-enter"@.len() != "script-ready"@.len());
    }
    assert("1"@ != "top-leave"@) by {
        assert("1"@.len() != "top-leave"@.len());
    }
    assert("1"@ != "left-enter"@) by {
        assert("1"@.len() != "left-enter"@.len());
    }
    assert("1"@ != "left-leave"@) by {
        assert("1"@.len() != "left-leave"@.len());
    }
    assert("1"@ != "escape"@) by {
        assert("1"@.len() != "escape"@.len());
    }
    assert("1"@ != "script-ready"@) by {
        assert("1"@.len() != "script-ready"@.len());
    }
    assert("top-leave"@ != "0"@) by {
        assert("top-leave"@.len() != "0"@.len());
    }
    assert("top-leave"@ != "left-enter"@) by {
        assert("top-leave"@.len() != "left-enter"@.len());
    }
    assert("top-leave"@ != "left-leave"@) by {
        assert("top-leave"@.len() != "left-leave"@.len());
    }
    assert("top-leave"@ != "escape"@) by {
        assert("top-leave"@.len() != "escape"@.len());
    }
    assert("top-leave"@ != "script-ready"@) by {
        assert("top-leave"@.len() != "script-ready"@.len());
    }
    assert("0"@ != "left-enter"@) by {
        assert("0"@.len() != "left-enter"@.len());
    }
    assert("0"@ != "left-leave"@) by {
        assert("0"@.len() != "left-leave"@.len());
    }
    assert("0"@ != "escape"@) by {
        assert("0"@.len() != "escape"@.len());
    }
    assert("0"@ != "script-ready"@) by {
        assert("0"@.len() != "script-ready"@.len());
    }
    assert("left-enter"@ != "escape"@) by {
        assert("left-enter"@.len() != "escape"@.len());
    }
    assert("left-enter"@ != "script-ready"@) by {
        assert("left-enter"@.len() != "script-ready"@.len());
    }
    assert("left-leave"@ != "escape"@) by {
        assert("left-leave"@.len() != "escape"@.len());
    }
    assert("left-leave"@ != "script-ready"@) by {
        assert("left-leave"@.len() != "script-ready"@.len());
    }
    assert("escape"@ != "script-ready"@) by {
        assert("escape"@.len() != "script-ready"@.len());
    }
}

} // verus!
