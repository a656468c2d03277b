//! What the shell does to the page in the service view as it loads, and the scripts it runs there.
use vstd::prelude::*;
use vstd::utf8::{encode_utf8, is_ascii_chars, is_ascii_chars_encode_utf8};

verus! {

/// Whether the bytes `s` begin with the bytes `prefix`.
pub open spec fn starts_with_bytes(s: Seq<u8>, prefix: Seq<u8>) -> bool {
    prefix.len() <= s.len() && s.take(prefix.len() as int) == prefix
}

/// Whether `url` is one of the shell's own pages (`about:` or `data:`) rather than a service's.
pub open spec fn internal_page(url: Seq<char>) -> bool {
    starts_with_bytes(encode_utf8(url), encode_utf8("about:"@)) || starts_with_bytes(
        encode_utf8(url),
        encode_utf8("data:"@),
    )
}

/// Whether `s` begins with `prefix`, byte for byte.
fn has_prefix(s: &str, prefix: &str) -> (r: bool)
    ensures
        r == starts_with_bytes(encode_utf8(s@), encode_utf8(prefix@)),
{
    let b = s.as_bytes();
    let p = prefix.as_bytes();
    if p.len() > b.len() {
        return false;
    }
    let mut i: usize = 0;
    while i < p.len()
        invariant
            b@ == encode_utf8(s@),
            p@ == encode_utf8(prefix@),
            p@.len() <= b@.len(),
            0 <= i <= p@.len(),
            forall|j: int| 0 <= j < i ==> b@[j] == p@[j],
        decreases p@.len() - i,
    {
        if b[i] != p[i] {
            proof {
                let t = b@.take(p@.len() as int);
                assert(t[i as int] == b@[i as int]);
                assert(t[i as int] != p@[i as int]);
                assert(t != p@);
            }
            return false;
        }
        i = i + 1;
    }
    assert(b@.take(p@.len() as int) =~= p@);
    true
}

/// Whether `url` is one of the shell's own pages (`about:` or `data:`) rather than a service's.
pub fn is_internal_page(url: &str) -> (r: bool)
    ensures
        r == internal_page(url@),
{
    has_prefix(url, "about:") || has_prefix(url, "data:")
}

/// The two moments of a page load that the shell reacts to.
#[derive(Debug, Clone, Copy, PartialEq, Eq, Structural)]
pub enum PageLoadStage {
    Started,
    Finished,
}

/// What the shell does at a moment of a page load.
#[derive(Debug, Clone, Copy)]
pub struct PageLoadPlan {
    /// Tell the front end that a service page started loading.
    pub announce_start: bool,
    /// Run the bridge script (guarded against running twice) in the page.
    pub inject_bridge: bool,
    /// Tell the page that the layout is fullscreen, so that it shows its exit button.
    pub sync_fullscreen: bool,
    /// Tell the front end that a service page finished loading.
    pub announce_finish: bool,
}

/// What the shell does when a page at `url` reaches `stage`: nothing for its own pages; for a
/// service page, announce the start, or on finishing inject the bridge, tell the page about
/// fullscreen if the layout is fullscreen, and announce the finish.
pub fn page_load_plan(url: &str, stage: PageLoadStage, is_fullscreen: bool) -> (r: PageLoadPlan)
    ensures
        r.announce_start == (stage == PageLoadStage::Started && !internal_page(url@)),
        r.inject_bridge == (stage == PageLoadStage::Finished && !internal_page(url@)),
        r.sync_fullscreen == (stage == PageLoadStage::Finished && !internal_page(url@)
            && is_fullscreen),
        r.announce_finish == (stage == PageLoadStage::Finished && !internal_page(url@)),
{
    let service_page = !is_internal_page(url);
    match stage {
        PageLoadStage::Started => PageLoadPlan {
            announce_start: service_page,
            inject_bridge: false,
            sync_fullscreen: false,
            announce_finish: false,
        },
        PageLoadStage::Finished => PageLoadPlan {
            announce_start: false,
            inject_bridge: service_page,
            sync_fullscreen: service_page && is_fullscreen,
            announce_finish: service_page,
        },
    }
}

/// The script that tells the page whether the layout is fullscreen (`1` or `0`).
pub open spec fn fullscreen_sync_text(fullscreen: bool) -> Seq<char> {
    "if(window.__ingweSetFullscreen)window.__ingweSetFullscreen("@ + (if fullscreen {
        "1"@
    } else {
        "0"@
    }) + ");"@
}

/// The script that tells the page whether the layout is fullscreen.
pub fn fullscreen_sync_script(fullscreen: bool) -> (r: String)
    ensures
        r@ == fullscreen_sync_text(fullscreen),
{
    let mut js = "if(window.__ingweSetFullscreen)window.__ingweSetFullscreen(".to_owned();
    if fullscreen {
        js.append("1");
    } else {
        js.append("0");
    }
    js.append(");");
    js
}

/// `init` wrapped so that it runs at most once per page, however often it is injected.
pub open spec fn bridge_injection_text(init: Seq<char>) -> Seq<char> {
    "if(!window.__ingweMediaInjected){window.__ingweMediaInjected=true;"@ + init + "}"@
}

/// `init` wrapped so that it runs at most once per page, however often it is injected.
pub fn bridge_injection_script(init: &str) -> (r: String)
    ensures
        r@ == bridge_injection_text(init@),
{
    let mut js = "if(!window.__ingweMediaInjected){window.__ingweMediaInjected=true;".to_owned();
    js.append(init);
    js.append("}");
    js
}

/// A page is the shell's own exactly when the UTF-8 bytes of its URL begin with `about:` or with
/// `data:`; so a page served over `http` or `https` never is.
pub proof fn lemma_internal_pages(url: Seq<char>)
    ensures
        internal_page(url) <==> {
            let b = encode_utf8(url);
            ||| b.len() >= 6 && b.take(6) == seq![0x61u8, 0x62u8, 0x6fu8, 0x75u8, 0x74u8, 0x3au8]
            ||| b.len() >= 5 && b.take(5) == seq![0x64u8, 0x61u8, 0x74u8, 0x61u8, 0x3au8]
        },
        encode_utf8(url).len() >= 4 && encode_utf8(url).take(4) == seq![
            0x68u8,
            0x74u8,
            0x74u8,
            0x70u8,
        ] ==> !internal_page(url),
{
    reveal_strlit("about:");
    reveal_strlit("data:");
    assert(is_ascii_chars("about:"@));
    assert(is_ascii_chars("data:"@));
    is_ascii_chars_encode_utf8("about:"@);
    is_ascii_chars_encode_utf8("data:"@);
    assert(encode_utf8("about:"@) =~= seq![0x61u8, 0x62u8, 0x6fu8, 0x75u8, 0x74u8, 0x3au8]);
    assert(encode_utf8("data:"@) =~= seq![0x64u8, 0x61u8, 0x74u8, 0x61u8, 0x3au8]);
    let b = encode_utf8(url);
    if b.len() >= 4 && b.take(4) == seq![0x68u8, 0x74u8, 0x74u8, 0x70u8] {
        assert(b[0] == b.take(4)[0]);
        if b.len() >= 6 {
            assert(b.take(6)[0] == b[0]);
        }
        if b.len() >= 5 {
            assert(b.take(5)[0] == b[0]);
        }
    }
}

/// The guarded bridge script is a fixed guard, then `init` unchanged, then `}`: the guard does not
/// depend on `init`, and different scripts give different results.
pub proof fn lemma_bridge_injection_wraps_init(init: Seq<char>, other: Seq<char>)
    ensures
        ({
            let guard = "if(!window.__ingweMediaInjected){window.__ingweMediaInjected=true;"@;
            let t = bridge_injection_text(init);
            &&& t.len() == guard.len() + init.len() + 1
            &&& t.take(guard.len() as int) == guard
            &&& t.subrange(guard.len() as int, (guard.len() + init.len()) as int) == init
            &&& t.last() == '}'
        }),
        bridge_injection_text(init) == bridge_injection_text(other) ==> init == other,
{
    reveal_strlit("}");
    let guard = "if(!window.__ingweMediaInjected){window.__ingweMediaInjected=true;"@;
    let t = bridge_injection_text(init);
    assert(t.take(guard.len() as int) =~= guard);
    assert(t.subrange(guard.len() as int, (guard.len() + init.len()) as int) =~= init);
    if bridge_injection_text(init) == bridge_injection_text(other) {
        let u = bridge_injection_text(other);
        assert("}"@.len() == 1);
        assert(u.len() == guard.len() + other.len() + 1);
        assert(t.len() == guard.len() + init.len() + 1);
        assert(init.len() == other.len());
        assert(u.subrange(guard.len() as int, (guard.len() + other.len()) as int) =~= other);
    }
}

/// The fullscreen sync scripts for the two layouts differ exactly in the flag they pass: `1` for
/// fullscreen and `0` otherwise.
pub proof fn lemma_fullscreen_sync_flag(fullscreen: bool)
    ensures
        ({
            let call = "if(window.__ingweSetFullscreen)window.__ingweSetFullscreen("@;
            let t = fullscreen_sync_text(fullscreen);
            &&& t.len() == call.len() + 3
            &&& t.take(call.len() as int) == call
            &&& t[call.len() as int] == if fullscreen {
                '1'
            } else {
                '0'
            }
            &&& t.skip((call.len() + 1) as int) == ");"@
        }),
        fullscreen_sync_text(true) != fullscreen_sync_text(false),
{
    reveal_strlit("1");
    reveal_strlit("0");
    reveal_strlit(");");
    let call = "if(window.__ingweSetFullscreen)window.__ingweSetFullscreen("@;
    let t = fullscreen_sync_text(fullscreen);
    assert(t.take(call.len() as int) =~= call);
    assert(t.skip((call.len() + 1) as int) =~= ");"@);
    assert(fullscreen_sync_text(true)[call.len() as int] != fullscreen_sync_text(false)[call.len() as int]);
}

} // verus!
