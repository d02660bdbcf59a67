//! What a window manager reports: the active window, the window list, the focused output.

pub mod focus;
pub mod foreign_toplevel;
pub mod hyprland;
pub mod json;
pub mod niri;
pub mod sway;

use vstd::prelude::*;

use crate::region::Rect;
use crate::wm::foreign_toplevel::{probe, ForeignToplevel};
use crate::wm::hyprland::Hyprland;
use crate::wm::niri::Niri;
use crate::wm::sway::Sway;

verus! {

/// The rectangle of a window, when both its position and its size are known.
pub open spec fn rect_of(at: Option<(i32, i32)>, size: Option<(u32, u32)>) -> Option<Rect> {
    match (at, size) {
        (Some(p), Some(s)) => Some(Rect { x: p.0, y: p.1, w: s.0, h: s.1 }),
        _ => None,
    }
}

/// A snapshot of the currently focused window.
#[derive(Debug, Clone)]
pub struct ActiveWindow {
    pub title: String,
    pub class: String,
    /// Position and size, when the backend can report them.
    pub at: Option<(i32, i32)>,
    pub size: Option<(u32, u32)>,
    /// Output identifier. Backends that only know a number give it in decimal.
    pub monitor: String,
}

/// The contents of an [`ActiveWindow`].
#[verifier::ext_equal]
pub struct ActiveWindowView {
    pub title: Seq<char>,
    pub class: Seq<char>,
    pub at: Option<(i32, i32)>,
    pub size: Option<(u32, u32)>,
    pub monitor: Seq<char>,
}

impl View for ActiveWindow {
    type V = ActiveWindowView;

    open spec fn view(&self) -> ActiveWindowView {
        ActiveWindowView {
            title: self.title@,
            class: self.class@,
            at: self.at,
            size: self.size,
            monitor: self.monitor@,
        }
    }
}

impl ActiveWindow {
    /// The window's capture rectangle, or `None` if its geometry is unknown.
    pub fn rect(&self) -> (res: Option<Rect>)
        ensures
            res == rect_of(self.at, self.size),
    {
        let (x, y) = self.at?;
        let (w, h) = self.size?;
        Some(Rect { x, y, w, h })
    }
}

/// One window of a backend's window list.
#[derive(Debug, Clone)]
pub struct WmWindow {
    /// Opaque identifier, unique to the window.
    pub id: String,
    pub title: String,
    pub class: String,
    /// Position and size, when the backend can report them.
    pub at: Option<(i32, i32)>,
    pub size: Option<(u32, u32)>,
    pub monitor: String,
    pub workspace_id: i64,
    pub mapped: bool,
    pub hidden: bool,
}

/// The contents of a [`WmWindow`].
#[verifier::ext_equal]
pub struct WmWindowView {
    pub id: Seq<char>,
    pub title: Seq<char>,
    pub class: Seq<char>,
    pub at: Option<(i32, i32)>,
    pub size: Option<(u32, u32)>,
    pub monitor: Seq<char>,
    pub workspace_id: i64,
    pub mapped: bool,
    pub hidden: bool,
}

impl View for WmWindow {
    type V = WmWindowView;

    open spec fn view(&self) -> WmWindowView {
        WmWindowView {
            id: self.id@,
            title: self.title@,
            class: self.class@,
            at: self.at,
            size: self.size,
            monitor: self.monitor@,
            workspace_id: self.workspace_id,
            mapped: self.mapped,
            hidden: self.hidden,
        }
    }
}

impl WmWindow {
    /// The point `(x, y)` picks this window: it is on screen and its rectangle covers the point.
    pub open spec fn is_hit(self, x: int, y: int) -> bool {
        self.mapped && !self.hidden && (match rect_of(self.at, self.size) {
            Some(r) => r.covers(x, y),
            None => false,
        })
    }

    /// The window's rectangle, or `None` if its geometry is unknown.
    pub fn rect(&self) -> (res: Option<Rect>)
        ensures
            res == rect_of(self.at, self.size),
    {
        let (x, y) = self.at?;
        let (w, h) = self.size?;
        Some(Rect { x, y, w, h })
    }
}

/// Topmost mapped, visible window whose rectangle contains the logical point `(x, y)`.
///
/// `clients` is taken to be in front-to-back order. A window of unknown geometry never matches.
pub fn window_at(clients: &[WmWindow], x: i32, y: i32) -> (res: Option<&WmWindow>)
    ensures
        match res {
            Some(w) => exists|i: int|
                #![trigger clients@[i]]
                {
                    &&& 0 <= i < clients@.len()
                    &&& clients@[i] == *w
                    &&& w.is_hit(x as int, y as int)
                    &&& forall|j: int|
                        0 <= j < i ==> !(#[trigger] clients@[j]).is_hit(x as int, y as int)
                },
            None => forall|i: int|
                0 <= i < clients@.len() ==> !(#[trigger] clients@[i]).is_hit(x as int, y as int),
        },
{
    let mut i: usize = 0;
    while i < clients.len()
        invariant
            i <= clients@.len(),
            forall|j: int| 0 <= j < i ==> !(#[trigger] clients@[j]).is_hit(x as int, y as int),
        decreases clients@.len() - i,
    {
        let c = &clients[i];
        let inside = match c.rect() {
            Some(r) => r.contains(x, y),
            None => false,
        };
        if c.mapped && !c.hidden && inside {
            return Some(c);
        }
        i += 1;
    }
    None
}

/// A window of unknown position or size is never picked.
pub proof fn unknown_geometry_is_never_hit(w: WmWindow, x: int, y: int)
    requires
        w.at is None || w.size is None,
    ensures
        !w.is_hit(x, y),
{
}

// ---- backends ------------------------------------------------------------------------------
/// The backends, one per way of asking a compositor.
#[derive(Clone, Copy, Debug, PartialEq, Eq, Structural)]
pub enum BackendKind {
    Hyprland,
    Sway,
    Niri,
    ForeignToplevel,
}

impl BackendKind {
    pub open spec fn text(self) -> Seq<char> {
        match self {
            BackendKind::Hyprland => "Hyprland"@,
            BackendKind::Sway => "Sway"@,
            BackendKind::Niri => "Niri"@,
            BackendKind::ForeignToplevel => "wlr-foreign-toplevel"@,
        }
    }

    /// The backend's name, for logs and reports.
    pub fn name(&self) -> (res: &'static str)
        ensures
            res@ == self.text(),
    {
        match self {
            BackendKind::Hyprland => Hyprland.name(),
            BackendKind::Sway => Sway.name(),
            BackendKind::Niri => Niri.name(),
            BackendKind::ForeignToplevel => ForeignToplevel.name(),
        }
    }
}

/// What the environment says about the backend.
#[derive(Clone, Copy, Debug, PartialEq, Eq, Structural)]
pub enum Detection {
    /// The compositor announced itself.
    Backend(BackendKind),
    /// It did not: ask over Wayland, and see [`probed`].
    Probe,
}

/// The backend that the variables of compositors stand for.
pub open spec fn detected(signature_set: bool, swaysock_set: bool, niri_socket_set: bool) ->
    Detection {
    if signature_set {
        Detection::Backend(BackendKind::Hyprland)
    } else if swaysock_set {
        Detection::Backend(BackendKind::Sway)
    } else if niri_socket_set {
        Detection::Backend(BackendKind::Niri)
    } else {
        Detection::Probe
    }
}

/// Picks the backend by the variables that compositors set: `$HYPRLAND_INSTANCE_SIGNATURE`, then
/// `$SWAYSOCK`, then `$NIRI_SOCKET`. With none of them set, the compositor has to be asked.
pub fn detect(signature_set: bool, swaysock_set: bool, niri_socket_set: bool) -> (res: Detection)
    ensures
        res == detected(signature_set, swaysock_set, niri_socket_set),
{
    if signature_set {
        Detection::Backend(BackendKind::Hyprland)
    } else if swaysock_set {
        Detection::Backend(BackendKind::Sway)
    } else if niri_socket_set {
        Detection::Backend(BackendKind::Niri)
    } else {
        Detection::Probe
    }
}

/// The backend after asking the compositor whether it speaks the foreign toplevel protocol.
pub fn probed(advertised: bool) -> (res: Option<BackendKind>)
    ensures
        res == if advertised {
            Some(BackendKind::ForeignToplevel)
        } else {
            None
        },
{
    match probe(advertised) {
        Some(_) => Some(BackendKind::ForeignToplevel),
        None => None,
    }
}

/// A compositor that announces itself is the one that is asked. Where several do, Hyprland comes
/// first, then Sway, then Niri; where none does, the protocol that they share is tried.
pub proof fn a_compositor_is_asked_as_itself(hyprland: bool, sway: bool, niri: bool)
    ensures
        detected(hyprland, sway, niri) == Detection::Backend(BackendKind::Hyprland) <==> hyprland,
        detected(hyprland, sway, niri) == Detection::Backend(BackendKind::Sway) <==> sway
            && !hyprland,
        detected(hyprland, sway, niri) == Detection::Backend(BackendKind::Niri) <==> niri && !sway
            && !hyprland,
        detected(hyprland, sway, niri) == Detection::Probe <==> !hyprland && !sway && !niri,
{
}

/// A window is picked by the points inside its rectangle, while it is on screen: it is mapped,
/// it is not hidden, and both its place and its size are known.
pub proof fn a_window_is_picked_inside_its_rectangle(w: WmWindow, x: int, y: int)
    ensures
        w.is_hit(x, y) <==> w.mapped && !w.hidden && w.at is Some && w.size is Some && (w.at->0).0
            <= x < (w.at->0).0 + (w.size->0).0 && (w.at->0).1 <= y < (w.at->0).1 + (w.size->0).1,
        rect_of(w.at, w.size) is Some <==> w.at is Some && w.size is Some,
        rect_of(w.at, w.size) matches Some(r) ==> w.at == Some((r.x, r.y)) && w.size == Some(
            (r.w, r.h),
        ),
{
}

} // verus!
