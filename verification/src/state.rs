//! The shared state of the shell: which service is shown, and how the window is laid out.
use vstd::prelude::*;

verus! {

/// Height of the title bar, in logical pixels.
pub const TITLEBAR_HEIGHT: u32 = 32;

/// Width of the sidebar, in logical pixels.
pub const SIDEBAR_WIDTH: u32 = 208;

/// Shared state of the shell. `V` is the handle of the child webview that shows the services.
pub struct AppState<V> {
    /// The child webview that shows the active service, once it has been created.
    pub service_view: Option<V>,
    /// The id of the service that is shown, if any.
    pub active_service_id: Option<String>,
    /// Whether the window fills the screen.
    pub is_fullscreen: bool,
    /// Whether the title bar is shown over the service in fullscreen.
    pub overlay_titlebar: bool,
    /// Whether the sidebar is shown over the service in fullscreen.
    pub overlay_sidebar: bool,
}

/// Where the service view sits in the window, in logical pixels from the top left corner.
#[derive(Debug, Clone, Copy)]
pub enum ViewFrame {
    /// Below the title bar, as wide as the window.
    Windowed { top: u32 },
    /// Right of `left` and below `top`, filling the rest of the screen.
    Fullscreen { left: u32, top: u32 },
}

/// Whether `active` is a service with the same id as `id`.
pub open spec fn same_service(active: Option<String>, id: Seq<char>) -> bool {
    match active {
        Some(a) => a@ == id,
        None => false,
    }
}

impl<V> AppState<V> {
    /// Overlays are shown only over a fullscreen layout.
    pub open spec fn wf(&self) -> bool {
        !self.is_fullscreen ==> !self.overlay_titlebar && !self.overlay_sidebar
    }

    /// The state after `id` has been made the active service.
    pub open spec fn selecting(self, id: String) -> Self {
        AppState { active_service_id: Some(id), overlay_sidebar: false, ..self }
    }

    /// The state after the active service has been closed.
    pub open spec fn closing(self) -> Self {
        AppState { active_service_id: None, ..self }
    }

    /// The state after fullscreen has been switched on or off.
    pub open spec fn toggling_fullscreen(self) -> Self {
        AppState {
            is_fullscreen: !self.is_fullscreen,
            overlay_titlebar: false,
            overlay_sidebar: false,
            ..self
        }
    }

    /// The state after the title bar overlay has been asked to be `visible`: granted only in
    /// fullscreen.
    pub open spec fn requesting_titlebar(self, visible: bool) -> Self {
        if self.is_fullscreen {
            AppState { overlay_titlebar: visible, ..self }
        } else {
            self
        }
    }

    /// The view that media keys go to: the service view, while a service is active.
    pub open spec fn media_target(self) -> Option<V> {
        if self.active_service_id is Some {
            self.service_view
        } else {
            None
        }
    }

    /// Where the service view sits for this state.
    pub open spec fn frame(self) -> ViewFrame {
        if self.is_fullscreen {
            ViewFrame::Fullscreen {
                left: if self.overlay_sidebar {
                    SIDEBAR_WIDTH
                } else {
                    0
                },
                top: if self.overlay_titlebar {
                    TITLEBAR_HEIGHT
                } else {
                    0
                },
            }
        } else {
            ViewFrame::Windowed { top: TITLEBAR_HEIGHT }
        }
    }

    /// A state with no service view, no active service, and a windowed layout.
    pub fn new() -> (s: Self)
        ensures
            s.service_view is None,
            s.active_service_id is None,
            !s.is_fullscreen,
            !s.overlay_titlebar,
            !s.overlay_sidebar,
            s.wf(),
    {
        AppState {
            service_view: None,
            active_service_id: None,
            is_fullscreen: false,
            overlay_titlebar: false,
            overlay_sidebar: false,
        }
    }

    /// Records the service view once it has been created.
    pub fn attach_service_view(&mut self, view: V)
        ensures
            *final(self) == (AppState { service_view: Some(view), ..*old(self) }),
    {
        self.service_view = Some(view);
    }

    /// Where the service view sits in the window.
    pub fn service_view_frame(&self) -> (r: ViewFrame)
        ensures
            r == self.frame(),
    {
        if self.is_fullscreen {
            let left = if self.overlay_sidebar {
                SIDEBAR_WIDTH
            } else {
                0
            };
            let top = if self.overlay_titlebar {
                TITLEBAR_HEIGHT
            } else {
                0
            };
            ViewFrame::Fullscreen { left, top }
        } else {
            ViewFrame::Windowed { top: TITLEBAR_HEIGHT }
        }
    }
}

/// Makes `service_id` the active service (hiding the sidebar overlay). Returns whether it was
/// already the active one.
pub fn select_service<V>(state: &mut AppState<V>, service_id: String) -> (same: bool)
    ensures
        same == same_service(old(state).active_service_id, service_id@),
        *final(state) == old(state).selecting(service_id),
        old(state).wf() ==> final(state).wf(),
{
    let same = match &state.active_service_id {
        Some(a) => *a == service_id,
        None => false,
    };
    state.active_service_id = Some(service_id);
    state.overlay_sidebar = false;
    same
}

/// Closes the active service. Returns whether there is a service view to hide.
pub fn close_service<V>(state: &mut AppState<V>) -> (has_view: bool)
    ensures
        has_view == old(state).service_view is Some,
        *final(state) == old(state).closing(),
        old(state).wf() ==> final(state).wf(),
{
    state.active_service_id = None;
    state.service_view.is_some()
}

/// Switches fullscreen on or off, hiding both overlays. Returns whether the layout is now
/// fullscreen.
pub fn toggle_fullscreen_layout<V>(state: &mut AppState<V>) -> (fullscreen: bool)
    ensures
        *final(state) == old(state).toggling_fullscreen(),
        fullscreen == final(state).is_fullscreen,
        fullscreen == !old(state).is_fullscreen,
        final(state).wf(),
{
    state.is_fullscreen = !state.is_fullscreen;
    state.overlay_titlebar = false;
    state.overlay_sidebar = false;
    state.is_fullscreen
}

/// Shows or hides the title bar over a fullscreen service. Outside fullscreen nothing changes.
/// Returns whether the request was applied.
pub fn show_titlebar_overlay<V>(state: &mut AppState<V>, visible: bool) -> (applied: bool)
    ensures
        applied == old(state).is_fullscreen,
        *final(state) == old(state).requesting_titlebar(visible),
        old(state).wf() ==> final(state).wf(),
{
    if !state.is_fullscreen {
        return false;
    }
    state.overlay_titlebar = visible;
    true
}

/// The view that a media key goes to: the service view, while a service is active.
pub fn media_key_target<V>(state: &AppState<V>) -> (r: Option<&V>)
    ensures
        r is Some <==> state.media_target() is Some,
        r is Some ==> *r->0 == state.media_target()->0,
{
    if state.active_service_id.is_some() {
        state.service_view.as_ref()
    } else {
        None
    }
}

/// Delays, in milliseconds after start-up, at which the service view is laid out again, so that
/// a window size that is restored late is taken into account.
pub fn settle_resize_delays_ms() -> (r: Vec<u64>)
    ensures
        r@ == seq![200u64, 600u64],
{
    let mut v: Vec<u64> = Vec::new();
    v.push(200);
    v.push(600);
    v
}

/// Switching fullscreen twice gives the same fullscreen flag back with both overlays hidden;
/// from a state without overlays, it gives the same state back.
pub proof fn lemma_toggle_twice<V>(s: AppState<V>)
    ensures
        s.toggling_fullscreen().toggling_fullscreen().is_fullscreen == s.is_fullscreen,
        !s.toggling_fullscreen().toggling_fullscreen().overlay_titlebar,
        !s.toggling_fullscreen().toggling_fullscreen().overlay_sidebar,
        !s.overlay_titlebar && !s.overlay_sidebar ==> s.toggling_fullscreen().toggling_fullscreen()
            == s,
{
}

/// Every change of the state keeps overlays to the fullscreen layout.
pub proof fn lemma_transitions_keep_overlays_in_fullscreen<V>(
    s: AppState<V>,
    id: String,
    visible: bool,
)
    requires
        s.wf(),
    ensures
        s.selecting(id).wf(),
        s.closing().wf(),
        s.toggling_fullscreen().wf(),
        s.requesting_titlebar(visible).wf(),
{
}

/// Opening the active service again finds it already shown, and opening another one does not.
pub proof fn lemma_reopen_finds_service<V>(s: AppState<V>, id: String, other: String)
    ensures
        same_service(s.selecting(id).active_service_id, other@) <==> other@ == id@,
{
}

/// After the active service is closed, media keys go nowhere until a service is opened again;
/// once one is open, they go to the service view.
pub proof fn lemma_media_keys_follow_active_service<V>(s: AppState<V>, id: String)
    ensures
        s.closing().media_target() is None,
        s.selecting(id).media_target() == s.service_view,
{
}

/// Outside fullscreen the service view sits below the title bar; in fullscreen it is inset only
/// by the overlays that are shown.
pub proof fn lemma_frame_follows_overlays<V>(s: AppState<V>)
    requires
        s.wf(),
    ensures
        !s.is_fullscreen ==> s.frame() == (ViewFrame::Windowed { top: TITLEBAR_HEIGHT }),
        s.is_fullscreen && !s.overlay_titlebar && !s.overlay_sidebar ==> s.frame() == (
        ViewFrame::Fullscreen { left: 0, top: 0 }),
        s.toggling_fullscreen().is_fullscreen ==> s.toggling_fullscreen().frame() == (
        ViewFrame::Fullscreen { left: 0, top: 0 }),
{
}

} // verus!
