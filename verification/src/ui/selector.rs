//! The selector: what the pointer, the keys and the toolbars do to the selection, how it is
//! committed or cancelled, and what each monitor shows meanwhile.
//!
//! All monitors share one selection. `N` is a coordinate inside a monitor's window and `S` a
//! color channel or a font size of the toolbars.

use vstd::prelude::*;

use crate::region::Rect;
use crate::strings::{parse_u64, same_optional_text};
use crate::ui::countdown::{tick, whole_secs};
use crate::ui::keys::{Key, KEY_ESCAPE};
use crate::ui::toolbar::{
    selector_modes, ModeKind, Toolbar, ToolbarAction, ToolbarSpec, ToolbarSpecView, ToolbarView,
    ShortcutAction, DELAY_MAX,
};
use crate::wm::{window_at, ActiveWindow, ActiveWindowView, WmWindow};

verus! {

use crate::strings::{a_number_is_read_back, digits_of, text_of, unsigned_of};
use crate::ui::countdown::{after_a_second, counted_secs};
use crate::ui::keys::{KEY_KP_ENTER, KEY_RETURN};
use crate::ui::toolbar::{button_of_mode, clamped, is_mode_table, shown};
use crate::wm::rect_of;

/// How long the compositor gets to take the selector's windows down before a capture, in
/// milliseconds, when nothing else is configured.
pub const POST_DISMISS_GRACE_MS: u64 = 30;

/// How long blank windows are shown before they are destroyed, in milliseconds.
pub const BLANK_FRAME_MS: u64 = 50;

/// The user has dismissed the selector.
#[derive(Clone, Copy, Debug)]
pub struct Cancelled;

impl Cancelled {
    /// The error as text.
    pub fn message(&self) -> (res: &'static str)
        ensures
            res@ == "cancelled by user"@,
    {
        "cancelled by user"
    }
}

/// What is to be captured.
#[derive(Debug, Clone)]
pub enum Selection {
    /// Every output, as one picture.
    Full,
    /// A rectangle in the compositor's logical coordinates.
    Region(Rect),
    /// One output, by its name.
    Output(String),
    /// The focused window.
    Window,
}

/// The contents of a [`Selection`].
pub enum SelectionView {
    Full,
    Region(Rect),
    Output(Seq<char>),
    Window,
}

impl View for Selection {
    type V = SelectionView;

    open spec fn view(&self) -> SelectionView {
        match *self {
            Selection::Full => SelectionView::Full,
            Selection::Region(rect) => SelectionView::Region(rect),
            Selection::Output(name) => SelectionView::Output(name@),
            Selection::Window => SelectionView::Window,
        }
    }
}

impl Selection {
    /// An equal selection.
    pub fn copied(&self) -> (res: Selection)
        ensures
            res@ == self@,
    {
        match self {
            Selection::Full => Selection::Full,
            Selection::Region(rect) => Selection::Region(*rect),
            Selection::Output(name) => Selection::Output(name.clone()),
            Selection::Window => Selection::Window,
        }
    }
}

/// What a session of the selector came to.
#[derive(Debug, Clone)]
pub struct SelectorOutcome {
    pub selection: Selection,
    /// The cursor is captured too.
    pub cursor: bool,
    /// The seconds still to wait. The selector has counted the delay down already, so none.
    pub delay_secs: u64,
    /// The picture is to be annotated.
    pub edit: bool,
}

/// The contents of a [`SelectorOutcome`].
pub struct SelectorOutcomeView {
    pub selection: SelectionView,
    pub cursor: bool,
    pub delay_secs: u64,
    pub edit: bool,
}

impl View for SelectorOutcome {
    type V = SelectorOutcomeView;

    open spec fn view(&self) -> SelectorOutcomeView {
        SelectorOutcomeView {
            selection: self.selection@,
            cursor: self.cursor,
            delay_secs: self.delay_secs,
            edit: self.edit,
        }
    }
}

impl SelectorOutcome {
    /// An equal outcome.
    pub fn copied(&self) -> (res: SelectorOutcome)
        ensures
            res@ == self@,
    {
        SelectorOutcome {
            selection: self.selection.copied(),
            cursor: self.cursor,
            delay_secs: self.delay_secs,
            edit: self.edit,
        }
    }
}

/// A monitor, by its place in the display's list and by the name of its connector.
#[derive(Debug)]
pub struct MonitorInfo {
    pub index: usize,
    pub connector: Option<String>,
}

/// A window that was picked in Window mode.
#[derive(Debug)]
pub struct PickedWindow {
    pub rect: Rect,
    pub title: String,
    pub class: String,
}

/// The contents of a [`PickedWindow`].
pub struct PickedWindowView {
    pub rect: Rect,
    pub title: Seq<char>,
    pub class: Seq<char>,
}

impl View for PickedWindow {
    type V = PickedWindowView;

    open spec fn view(&self) -> PickedWindowView {
        PickedWindowView { rect: self.rect, title: self.title@, class: self.class@ }
    }
}

pub open spec fn picked_view(picked: Option<PickedWindow>) -> Option<PickedWindowView> {
    match picked {
        Some(window) => Some(window@),
        None => None,
    }
}

/// The pick of a window of the list. A window of unknown geometry cannot be picked.
pub open spec fn pick_of(window: WmWindow) -> Option<PickedWindowView> {
    match rect_of(window.at, window.size) {
        Some(rect) => Some(
            PickedWindowView { rect, title: window.title@, class: window.class@ },
        ),
        None => None,
    }
}

/// The pick of the focused window.
pub open spec fn pick_of_active(window: ActiveWindowView) -> Option<PickedWindowView> {
    match rect_of(window.at, window.size) {
        Some(rect) => Some(PickedWindowView { rect, title: window.title, class: window.class }),
        None => None,
    }
}

impl PickedWindow {
    /// The pick of a window of the list.
    pub fn from_window(window: &WmWindow) -> (res: Option<PickedWindow>)
        ensures
            picked_view(res) == pick_of(*window),
    {
        match window.rect() {
            Some(rect) => Some(
                PickedWindow { rect, title: window.title.clone(), class: window.class.clone() },
            ),
            None => None,
        }
    }

    /// The pick of the focused window.
    pub fn from_active(window: &ActiveWindow) -> (res: Option<PickedWindow>)
        ensures
            picked_view(res) == pick_of_active(window@),
    {
        match window.rect() {
            Some(rect) => Some(
                PickedWindow { rect, title: window.title.clone(), class: window.class.clone() },
            ),
            None => None,
        }
    }
}

/// The pick at a point: the first window of the list, from `from` on, that the point hits.
pub open spec fn pick_at(clients: Seq<WmWindow>, x: int, y: int, from: int) -> Option<
    PickedWindowView,
>
    decreases clients.len() - from,
{
    if from < 0 || from >= clients.len() {
        None
    } else if clients[from].is_hit(x, y) {
        pick_of(clients[from])
    } else {
        pick_at(clients, x, y, from + 1)
    }
}

/// The pick at a point that may be unknown.
pub open spec fn pick_under(clients: Seq<WmWindow>, at: Option<(i32, i32)>) -> Option<
    PickedWindowView,
> {
    match at {
        Some(p) => pick_at(clients, p.0 as int, p.1 as int, 0),
        None => None,
    }
}

proof fn lemma_pick_at(clients: Seq<WmWindow>, x: int, y: int, i: int, from: int)
    requires
        0 <= from <= i <= clients.len(),
        forall|j: int| 0 <= j < i ==> !(#[trigger] clients[j]).is_hit(x, y),
        i < clients.len() ==> clients[i].is_hit(x, y),
    ensures
        pick_at(clients, x, y, from) == (if i < clients.len() {
            pick_of(clients[i])
        } else {
            None
        }),
    decreases i - from,
{
    if from < i {
        lemma_pick_at(clients, x, y, i, from + 1);
    }
}

fn pick(clients: &Vec<WmWindow>, at: Option<(i32, i32)>) -> (res: Option<PickedWindow>)
    ensures
        picked_view(res) == pick_under(clients@, at),
{
    match at {
        None => None,
        Some((x, y)) => match window_at(clients.as_slice(), x, y) {
            Some(window) => {
                proof {
                    let i = choose|i: int|
                        #![trigger clients@[i]]
                        {
                            &&& 0 <= i < clients@.len()
                            &&& clients@[i] == *window
                            &&& window.is_hit(x as int, y as int)
                            &&& forall|j: int|
                                0 <= j < i ==> !(#[trigger] clients@[j]).is_hit(
                                    x as int,
                                    y as int,
                                )
                        };
                    lemma_pick_at(clients@, x as int, y as int, i, 0);
                }
                PickedWindow::from_window(window)
            },
            None => {
                proof {
                    lemma_pick_at(clients@, x as int, y as int, clients@.len() as int, 0);
                }
                None
            },
        },
    }
}

// ---- the shared selection ------------------------------------------------------------------
/// The selection that all monitors share.
#[derive(Debug)]
pub struct SharedSelection<N> {
    /// The monitor on which the rectangle was dragged.
    pub owner: Option<usize>,
    /// Where the drag began and where it is now, inside the owner's window.
    pub start: Option<(N, N)>,
    pub current: Option<(N, N)>,
    pub mode: ModeKind,
    pub cursor: bool,
    /// The whole seconds to wait before the capture.
    pub delay_secs: u64,
    /// The monitor under the pointer, in Screen mode.
    pub hover_monitor: Option<usize>,
    /// The monitor that was clicked.
    pub selected_monitor: Option<usize>,
    /// The window under the pointer, in Window mode.
    pub hover_window: Option<PickedWindow>,
    /// The window that was clicked.
    pub selected_window: Option<PickedWindow>,
}

/// The contents of a [`SharedSelection`].
pub struct SharedSelectionView<N> {
    pub owner: Option<usize>,
    pub start: Option<(N, N)>,
    pub current: Option<(N, N)>,
    pub mode: ModeKind,
    pub cursor: bool,
    pub delay_secs: u64,
    pub hover_monitor: Option<usize>,
    pub selected_monitor: Option<usize>,
    pub hover_window: Option<PickedWindowView>,
    pub selected_window: Option<PickedWindowView>,
}

impl<N> View for SharedSelection<N> {
    type V = SharedSelectionView<N>;

    open spec fn view(&self) -> SharedSelectionView<N> {
        SharedSelectionView {
            owner: self.owner,
            start: self.start,
            current: self.current,
            mode: self.mode,
            cursor: self.cursor,
            delay_secs: self.delay_secs,
            hover_monitor: self.hover_monitor,
            selected_monitor: self.selected_monitor,
            hover_window: picked_view(self.hover_window),
            selected_window: picked_view(self.selected_window),
        }
    }
}

impl<N> SharedSelectionView<N> {
    /// Another mode has been chosen. Outside Region mode the dragged rectangle goes; what was
    /// picked in the other modes stays; the window under the pointer is not known any more.
    pub open spec fn in_mode(self, mode: ModeKind) -> SharedSelectionView<N> {
        let keep = mode == ModeKind::Region;
        SharedSelectionView {
            mode,
            owner: if keep {
                self.owner
            } else {
                None
            },
            start: if keep {
                self.start
            } else {
                None
            },
            current: if keep {
                self.current
            } else {
                None
            },
            hover_window: None,
            ..self
        }
    }

    /// A drag has begun on a monitor.
    pub open spec fn drag_begun(self, monitor: usize, at: (N, N)) -> SharedSelectionView<N> {
        if self.mode == ModeKind::Region {
            SharedSelectionView {
                owner: Some(monitor),
                start: Some(at),
                current: Some(at),
                ..self
            }
        } else {
            self
        }
    }

    /// The drag on a monitor has moved. Only the monitor that owns the rectangle moves it.
    pub open spec fn dragged(self, monitor: usize, at: Option<(N, N)>) -> SharedSelectionView<N> {
        if self.mode == ModeKind::Region && at is Some && self.owner == Some(monitor) {
            SharedSelectionView { current: at, ..self }
        } else {
            self
        }
    }

    /// The pointer has come to a monitor.
    pub open spec fn entered(self, monitor: usize) -> SharedSelectionView<N> {
        if self.mode == ModeKind::Screen {
            SharedSelectionView { hover_monitor: Some(monitor), ..self }
        } else {
            self
        }
    }

    /// The pointer has left a monitor.
    pub open spec fn left(self, monitor: usize) -> SharedSelectionView<N> {
        SharedSelectionView {
            hover_monitor: if self.hover_monitor == Some(monitor) {
                None
            } else {
                self.hover_monitor
            },
            hover_window: None,
            ..self
        }
    }

    /// Two picks that would be outlined in the same place.
    pub open spec fn same_place(a: Option<PickedWindowView>, b: Option<PickedWindowView>) -> bool {
        match (a, b) {
            (Some(p), Some(q)) => p.rect == q.rect,
            (None, None) => true,
            _ => false,
        }
    }

    /// The pointer has moved to a point, in logical coordinates. The window under it is
    /// remembered as long as the outline stays in place.
    pub open spec fn hovered(
        self,
        clients: Seq<WmWindow>,
        at: Option<(i32, i32)>,
    ) -> SharedSelectionView<N> {
        let next = pick_under(clients, at);
        if self.mode != ModeKind::Window || at is None || Self::same_place(
            self.hover_window,
            next,
        ) {
            self
        } else {
            SharedSelectionView { hover_window: next, ..self }
        }
    }

    /// A monitor has been clicked at a point, in logical coordinates. In Window mode a click
    /// that hits no window keeps what was picked before.
    pub open spec fn clicked(
        self,
        monitor: usize,
        clients: Seq<WmWindow>,
        at: Option<(i32, i32)>,
    ) -> SharedSelectionView<N> {
        match self.mode {
            ModeKind::Screen => SharedSelectionView { selected_monitor: Some(monitor), ..self },
            ModeKind::Window => match pick_under(clients, at) {
                Some(window) => SharedSelectionView { selected_window: Some(window), ..self },
                None => self,
            },
            ModeKind::Full | ModeKind::Region => self,
        }
    }
}

impl<N: Copy> SharedSelection<N> {
    /// Chooses another mode.
    pub fn set_mode(&mut self, mode: ModeKind)
        ensures
            final(self)@ == old(self)@.in_mode(mode),
    {
        self.mode = mode;
        if mode != ModeKind::Region {
            self.owner = None;
            self.start = None;
            self.current = None;
        }
        self.hover_window = None;
    }

    /// A drag begins on a monitor. `false` when the mode has no use for it.
    pub fn drag_begin(&mut self, monitor: usize, at: (N, N)) -> (res: bool)
        ensures
            res == (old(self)@.mode == ModeKind::Region),
            final(self)@ == old(self)@.drag_begun(monitor, at),
    {
        if self.mode != ModeKind::Region {
            return false;
        }
        self.owner = Some(monitor);
        self.start = Some(at);
        self.current = Some(at);
        true
    }

    /// A drag moves or ends on a monitor, at a point when it is known. `true` when the
    /// rectangle has moved.
    pub fn drag_to(&mut self, monitor: usize, at: Option<(N, N)>) -> (res: bool)
        ensures
            res == (old(self)@.mode == ModeKind::Region && at is Some && old(self)@.owner == Some(
                monitor,
            )),
            final(self)@ == old(self)@.dragged(monitor, at),
    {
        if self.mode != ModeKind::Region || at.is_none() {
            return false;
        }
        match self.owner {
            Some(owner) => {
                if owner == monitor {
                    self.current = at;
                    return true;
                }
                false
            },
            None => false,
        }
    }

    /// The pointer comes to a monitor. `true` when that is to be shown.
    pub fn enter(&mut self, monitor: usize) -> (res: bool)
        ensures
            res == (old(self)@.mode == ModeKind::Screen && old(self)@.hover_monitor != Some(
                monitor,
            )),
            final(self)@ == old(self)@.entered(monitor),
    {
        let here: bool = match self.hover_monitor {
            Some(m) => m == monitor,
            None => false,
        };
        if self.mode == ModeKind::Screen && !here {
            self.hover_monitor = Some(monitor);
            return true;
        }
        false
    }

    /// The pointer leaves a monitor. `true` when that is to be shown.
    pub fn leave(&mut self, monitor: usize) -> (res: bool)
        ensures
            res == (old(self)@.hover_monitor == Some(monitor) || old(self)@.hover_window is Some),
            final(self)@ == old(self)@.left(monitor),
    {
        let mut changed: bool = false;
        if let Some(m) = self.hover_monitor {
            if m == monitor {
                self.hover_monitor = None;
                changed = true;
            }
        }
        if self.hover_window.is_some() {
            self.hover_window = None;
            changed = true;
        }
        changed
    }

    /// The pointer moves to a point. `true` when that is to be shown.
    pub fn motion(&mut self, clients: &Vec<WmWindow>, at: Option<(i32, i32)>) -> (res: bool)
        ensures
            res == (old(self)@.mode == ModeKind::Window && at is Some && !SharedSelectionView::<
                N,
            >::same_place(old(self)@.hover_window, pick_under(clients@, at))),
            final(self)@ == old(self)@.hovered(clients@, at),
    {
        if self.mode != ModeKind::Window || at.is_none() {
            return false;
        }
        let next = pick(clients, at);
        let changed: bool = match (&self.hover_window, &next) {
            (Some(a), Some(b)) => a.rect != b.rect,
            (None, None) => false,
            _ => true,
        };
        if changed {
            self.hover_window = next;
        }
        changed
    }

    /// A monitor is clicked at a point. `true` when that is to be shown.
    pub fn click(&mut self, monitor: usize, clients: &Vec<WmWindow>, at: Option<(i32, i32)>) -> (res:
        bool)
        ensures
            res == (old(self)@.mode != ModeKind::Region),
            final(self)@ == old(self)@.clicked(monitor, clients@, at),
    {
        match self.mode {
            ModeKind::Region => {
                return false;
            },
            ModeKind::Screen => {
                self.selected_monitor = Some(monitor);
            },
            ModeKind::Window => {
                let picked = pick(clients, at);
                if picked.is_some() {
                    self.selected_window = picked;
                }
            },
            ModeKind::Full => {},
        }
        true
    }
}

// ---- coordinates ---------------------------------------------------------------------------
pub open spec fn fits_i32(v: int) -> bool {
    i32::MIN <= v <= i32::MAX
}

/// The point inside a monitor's window can be written down in logical coordinates.
pub open spec fn point_fits(origin: Option<(i32, i32)>, at: (i32, i32)) -> bool {
    origin matches Some(o) ==> fits_i32(o.0 + at.0) && fits_i32(o.1 + at.1)
}

/// A point inside a monitor's window, in logical coordinates.
pub open spec fn logical_point(origin: Option<(i32, i32)>, at: (i32, i32)) -> Option<(i32, i32)> {
    match origin {
        Some(o) => Some(((o.0 + at.0) as i32, (o.1 + at.1) as i32)),
        None => None,
    }
}

/// A point inside a monitor's window, in logical coordinates. `None` when the monitor is gone.
pub fn local_to_logical(origin: Option<(i32, i32)>, at: (i32, i32)) -> (res: Option<(i32, i32)>)
    requires
        point_fits(origin, at),
    ensures
        res == logical_point(origin, at),
{
    match origin {
        Some((x, y)) => Some((x + at.0, y + at.1)),
        None => None,
    }
}

/// A rectangle in logical coordinates can be written down in those of a monitor's window.
pub open spec fn rect_fits(origin: Option<(i32, i32)>, rect: Rect) -> bool {
    origin matches Some(o) ==> fits_i32(rect.x - o.0) && fits_i32(rect.y - o.1)
}

/// The window under the pointer and the picked one can be written down in the coordinates of a
/// monitor's window.
pub open spec fn windows_fit<N>(state: SharedSelectionView<N>, origin: Option<(i32, i32)>) -> bool {
    &&& state.hover_window matches Some(p) ==> rect_fits(origin, p.rect)
    &&& state.selected_window matches Some(p) ==> rect_fits(origin, p.rect)
}

/// A rectangle in the coordinates of a monitor's window.
pub open spec fn local_rect(origin: Option<(i32, i32)>, rect: Rect) -> Option<Rect> {
    match origin {
        Some(o) => Some(
            Rect { x: (rect.x - o.0) as i32, y: (rect.y - o.1) as i32, w: rect.w, h: rect.h },
        ),
        None => None,
    }
}

/// A rectangle in logical coordinates, inside a monitor's window. It may lie outside the
/// window. `None` when the monitor is gone.
pub fn logical_to_local(origin: Option<(i32, i32)>, rect: &Rect) -> (res: Option<Rect>)
    requires
        rect_fits(origin, *rect),
    ensures
        res == local_rect(origin, *rect),
{
    match origin {
        Some((x, y)) => Some(Rect { x: rect.x - x, y: rect.y - y, w: rect.w, h: rect.h }),
        None => None,
    }
}

/// The milliseconds to wait for the windows to be gone: as configured, or the usual ones where
/// that is no number.
pub open spec fn grace_of(configured: Option<Seq<char>>) -> u64 {
    match configured {
        Some(text) => match unsigned_of(text) {
            Some(ms) => ms,
            None => POST_DISMISS_GRACE_MS,
        },
        None => POST_DISMISS_GRACE_MS,
    }
}

/// How long to wait after the selector is gone, in milliseconds: what the environment says, if
/// it is a number.
pub fn post_dismiss_grace(configured: Option<&str>) -> (res: u64)
    ensures
        res == grace_of(match configured {
            Some(text) => Some(text@),
            None => None,
        }),
{
    match configured {
        Some(text) => match parse_u64(text) {
            Some(ms) => ms,
            None => POST_DISMISS_GRACE_MS,
        },
        None => POST_DISMISS_GRACE_MS,
    }
}

// ---- what is selected ----------------------------------------------------------------------
/// The contents of a [`MonitorInfo`].
pub struct MonitorInfoView {
    pub index: usize,
    pub connector: Option<Seq<char>>,
}

impl View for MonitorInfo {
    type V = MonitorInfoView;

    open spec fn view(&self) -> MonitorInfoView {
        MonitorInfoView { index: self.index, connector: text_of(self.connector) }
    }
}

/// The contents of a list of monitors.
pub open spec fn infos(monitors: Seq<MonitorInfo>) -> Seq<MonitorInfoView> {
    monitors.map_values(|m: MonitorInfo| m@)
}

/// The rectangle that was dragged on a monitor can be written down in logical coordinates.
pub open spec fn drag_fits(dragged: Option<Rect>, origin: Option<(i32, i32)>) -> bool {
    match (dragged, origin) {
        (Some(r), Some(o)) => fits_i32(o.0 + r.x) && fits_i32(o.1 + r.y),
        _ => true,
    }
}

/// The first monitor, from `from` on, that has the index.
pub open spec fn monitor_with(
    monitors: Seq<MonitorInfoView>,
    index: usize,
    from: int,
) -> Option<MonitorInfoView>
    decreases monitors.len() - from,
{
    if from < 0 || from >= monitors.len() {
        None
    } else if monitors[from].index == index {
        Some(monitors[from])
    } else {
        monitor_with(monitors, index, from + 1)
    }
}

fn find_monitor(monitors: &Vec<MonitorInfo>, index: usize) -> (res: Option<&MonitorInfo>)
    ensures
        info_view(res) == monitor_with(infos(monitors@), index, 0),
{
    for i in 0..monitors.len()
        invariant
            monitor_with(infos(monitors@), index, 0) == monitor_with(
                infos(monitors@),
                index,
                i as int,
            ),
    {
        assert(infos(monitors@)[i as int] == monitors@[i as int]@);
        if monitors[i].index == index {
            return Some(&monitors[i]);
        }
    }
    None
}

/// The monitor that Screen mode captures: the one that was clicked, or selected from the start.
/// Where there is none with that index, it is the one on which the capture was asked for.
pub open spec fn screen_of(
    selected: Option<usize>,
    local: Option<MonitorInfoView>,
    monitors: Seq<MonitorInfoView>,
) -> Option<MonitorInfoView> {
    match selected {
        Some(index) => match monitor_with(monitors, index, 0) {
            Some(clicked) => Some(clicked),
            None => local,
        },
        None => local,
    }
}

/// What is selected. `dragged` is the dragged rectangle inside its monitor's window, when it is
/// at least a pixel wide and high; `origin` is where that monitor lies.
pub open spec fn resolved<N>(
    state: SharedSelectionView<N>,
    dragged: Option<Rect>,
    origin: Option<(i32, i32)>,
    local: Option<MonitorInfoView>,
    monitors: Seq<MonitorInfoView>,
) -> Option<SelectionView> {
    match state.mode {
        ModeKind::Region => match (state.owner, dragged, origin) {
            (Some(_), Some(r), Some(o)) => Some(
                SelectionView::Region(
                    Rect { x: (o.0 + r.x) as i32, y: (o.1 + r.y) as i32, w: r.w, h: r.h },
                ),
            ),
            _ => None,
        },
        ModeKind::Screen => match screen_of(state.selected_monitor, local, monitors) {
            Some(info) => match info.connector {
                Some(name) => Some(SelectionView::Output(name)),
                None => None,
            },
            None => None,
        },
        ModeKind::Window => match state.selected_window {
            Some(picked) => Some(SelectionView::Region(picked.rect)),
            None => Some(SelectionView::Window),
        },
        ModeKind::Full => Some(SelectionView::Full),
    }
}

pub open spec fn info_view(info: Option<&MonitorInfo>) -> Option<MonitorInfoView> {
    match info {
        Some(m) => Some(m@),
        None => None,
    }
}

pub open spec fn selection_view(selection: Option<Selection>) -> Option<SelectionView> {
    match selection {
        Some(s) => Some(s@),
        None => None,
    }
}

/// Resolves the shared state into a selection, by its mode. `None` when there is nothing to
/// capture yet.
pub fn resolve_selection<N>(
    state: &SharedSelection<N>,
    dragged: Option<Rect>,
    origin: Option<(i32, i32)>,
    local_info: Option<&MonitorInfo>,
    monitors: &Vec<MonitorInfo>,
) -> (res: Option<Selection>)
    requires
        drag_fits(dragged, origin),
    ensures
        selection_view(res) == resolved(
            state@,
            dragged,
            origin,
            info_view(local_info),
            infos(monitors@),
        ),
{
    match state.mode {
        ModeKind::Region => {
            if state.owner.is_none() {
                return None;
            }
            match (dragged, origin) {
                (Some(r), Some((x, y))) => Some(
                    Selection::Region(Rect { x: x + r.x, y: y + r.y, w: r.w, h: r.h }),
                ),
                _ => None,
            }
        },
        ModeKind::Screen => {
            let mut info: Option<&MonitorInfo> = local_info;
            if let Some(index) = state.selected_monitor {
                if let Some(clicked) = find_monitor(monitors, index) {
                    info = Some(clicked);
                }
            }
            match info {
                Some(m) => match &m.connector {
                    Some(name) => Some(Selection::Output(name.clone())),
                    None => None,
                },
                None => None,
            }
        },
        ModeKind::Window => match &state.selected_window {
            Some(picked) => Some(Selection::Region(picked.rect)),
            None => Some(Selection::Window),
        },
        ModeKind::Full => Some(Selection::Full),
    }
}

/// What a key of the selector's window does.
#[derive(Clone, Copy, Debug, PartialEq, Eq, Structural)]
pub enum SelectorKey {
    Cancel,
    /// Commits the selection, to be annotated or not.
    Commit(bool),
    /// The key is left to others.
    Proceed,
}

/// What a key of the selector's window means.
pub open spec fn key_meaning(key: Key, shift: bool, allow_annotate: bool) -> SelectorKey {
    if key.code == KEY_ESCAPE {
        SelectorKey::Cancel
    } else if key.is_enter_key() {
        SelectorKey::Commit(allow_annotate && shift)
    } else {
        SelectorKey::Proceed
    }
}

/// What a key of the selector's window does: Escape cancels and Enter commits. Shift+Enter asks
/// for an annotation, where the selector may.
pub fn key_action(key: Key, shift: bool, allow_annotate: bool) -> (res: SelectorKey)
    ensures
        res == key_meaning(key, shift, allow_annotate),
{
    if key.code == KEY_ESCAPE {
        SelectorKey::Cancel
    } else if key.is_enter() {
        SelectorKey::Commit(allow_annotate && shift)
    } else {
        SelectorKey::Proceed
    }
}

/// The index of the first monitor, from `from` on, that has the name.
pub open spec fn index_named(monitors: Seq<MonitorInfoView>, name: Seq<char>, from: int) -> Option<
    usize,
>
    decreases monitors.len() - from,
{
    if from < 0 || from >= monitors.len() {
        None
    } else if monitors[from].connector == Some(name) {
        Some(monitors[from].index)
    } else {
        index_named(monitors, name, from + 1)
    }
}

/// The index of the monitor that is picked from the start: the focused one.
pub open spec fn preselected(
    monitors: Seq<MonitorInfoView>,
    focused: Option<Seq<char>>,
) -> Option<usize> {
    match focused {
        Some(name) => index_named(monitors, name, 0),
        None => None,
    }
}

fn preselect(monitors: &Vec<MonitorInfo>, focused: &Option<String>) -> (res: Option<usize>)
    ensures
        res == preselected(infos(monitors@), text_of(*focused)),
{
    if focused.is_none() {
        return None;
    }
    let ghost name = text_of(*focused)->0;
    for i in 0..monitors.len()
        invariant
            text_of(*focused) == Some(name),
            index_named(infos(monitors@), name, 0) == index_named(
                infos(monitors@),
                name,
                i as int,
            ),
    {
        if same_optional_text(&monitors[i].connector, focused) {
            return Some(monitors[i].index);
        }
    }
    None
}

// ---- a session -----------------------------------------------------------------------------
/// How far a session has come.
#[derive(Debug)]
pub enum Phase {
    /// The user picks.
    Picking,
    /// The selection is committed and so many seconds are left to count down.
    Counting(u32, SelectorOutcome),
    /// The session is over.
    Done,
}

/// The contents of a [`Phase`].
pub enum PhaseView {
    Picking,
    Counting(u32, SelectorOutcomeView),
    Done,
}

impl View for Phase {
    type V = PhaseView;

    open spec fn view(&self) -> PhaseView {
        match *self {
            Phase::Picking => PhaseView::Picking,
            Phase::Counting(secs, outcome) => PhaseView::Counting(secs, outcome@),
            Phase::Done => PhaseView::Done,
        }
    }
}

/// What the windows have to do next.
#[derive(Debug)]
pub enum Step {
    /// Nothing.
    Nothing,
    /// Draw the monitors again.
    Redraw,
    /// Commit the selection, to be annotated or not.
    Commit(bool),
    /// Hide the toolbars and show the seconds.
    Count(u32),
    /// Blank the windows, destroy them, and answer with the outcome.
    Dismiss(SelectorOutcome),
}

/// The contents of a [`Step`].
pub enum StepView {
    Nothing,
    Redraw,
    Commit(bool),
    Count(u32),
    Dismiss(SelectorOutcomeView),
}

impl View for Step {
    type V = StepView;

    open spec fn view(&self) -> StepView {
        match *self {
            Step::Nothing => StepView::Nothing,
            Step::Redraw => StepView::Redraw,
            Step::Commit(edit) => StepView::Commit(edit),
            Step::Count(secs) => StepView::Count(secs),
            Step::Dismiss(outcome) => StepView::Dismiss(outcome@),
        }
    }
}

/// A session of the selector: the shared selection, a toolbar per monitor, and how far it has
/// come.
#[derive(Debug)]
pub struct Selector<N, S> {
    pub selection: SharedSelection<N>,
    pub phase: Phase,
    pub toolbars: Vec<Toolbar<S>>,
    pub monitors: Vec<MonitorInfo>,
    pub clients: Vec<WmWindow>,
    pub allow_annotate: bool,
}

/// The contents of a [`Selector`].
pub struct SelectorView<N, S> {
    pub selection: SharedSelectionView<N>,
    pub phase: PhaseView,
    pub toolbars: Seq<ToolbarView<S>>,
    pub monitors: Seq<MonitorInfoView>,
    pub clients: Seq<WmWindow>,
    pub allow_annotate: bool,
}

/// The contents of a list of toolbars.
pub open spec fn toolbar_views<S>(toolbars: Seq<Toolbar<S>>) -> Seq<ToolbarView<S>> {
    toolbars.map_values(|t: Toolbar<S>| t@)
}

impl<N, S> View for Selector<N, S> {
    type V = SelectorView<N, S>;

    open spec fn view(&self) -> SelectorView<N, S> {
        SelectorView {
            selection: self.selection@,
            phase: self.phase@,
            toolbars: toolbar_views(self.toolbars@),
            monitors: infos(self.monitors@),
            clients: self.clients@,
            allow_annotate: self.allow_annotate,
        }
    }
}

/// The toolbar of the selector: the modes, the cursor toggle, the delay and the capture button.
pub open spec fn is_selector_spec(
    s: ToolbarSpecView,
    cursor: bool,
    delay_secs: u64,
    allow_annotate: bool,
) -> bool {
    is_mode_table(s.modes) && s == (ToolbarSpecView {
        modes: s.modes,
        show_cursor_toggle: true,
        show_delay_spinner: true,
        show_capture: true,
        capture_shift_annotates: allow_annotate,
        initial_mode: Some(ModeKind::Screen),
        initial_cursor: cursor,
        initial_delay_secs: counted_secs(delay_secs),
        ..ToolbarSpecView::nothing()
    })
}

/// A toolbar as a session starts with it, with someone listening to it.
pub open spec fn is_opening_toolbar<S>(
    toolbar: ToolbarView<S>,
    cursor: bool,
    delay_secs: u64,
    allow_annotate: bool,
    color: [S; 4],
    font_size: S,
) -> bool {
    exists|s: ToolbarSpecView|
        #![trigger is_selector_spec(s, cursor, delay_secs, allow_annotate)]
        is_selector_spec(s, cursor, delay_secs, allow_annotate) && toolbar == (ToolbarView {
            connected: true,
            ..ToolbarView::built(s, color, font_size)
        })
}

/// The toolbar of the selector.
pub fn toolbar_spec(cursor: bool, delay_secs: u64, allow_annotate: bool) -> (res: ToolbarSpec)
    ensures
        is_selector_spec(res@, cursor, delay_secs, allow_annotate),
{
    let empty = ToolbarSpec::empty();
    ToolbarSpec {
        modes: selector_modes(),
        show_cursor_toggle: true,
        show_delay_spinner: true,
        show_capture: true,
        capture_shift_annotates: allow_annotate,
        initial_mode: Some(ModeKind::Screen),
        initial_cursor: cursor,
        initial_delay_secs: whole_secs(delay_secs),
        ..empty
    }
}

impl<N> SharedSelectionView<N> {
    /// The selection with which a session starts: Screen mode, with the focused monitor and the
    /// focused window picked.
    pub open spec fn initial(
        cursor: bool,
        delay_secs: u64,
        selected_monitor: Option<usize>,
        selected_window: Option<PickedWindowView>,
    ) -> SharedSelectionView<N> {
        SharedSelectionView {
            owner: None,
            start: None,
            current: None,
            mode: ModeKind::Screen,
            cursor,
            delay_secs,
            hover_monitor: None,
            selected_monitor,
            hover_window: None,
            selected_window,
        }
    }
}

/// The toolbar shows what is selected.
pub open spec fn shows<N, S>(toolbar: ToolbarView<S>, selection: SharedSelectionView<N>) -> bool {
    &&& is_mode_table(toolbar.modes)
    &&& toolbar.active_mode == button_of_mode(toolbar.modes, selection.mode)
    &&& toolbar.cursor == Some(selection.cursor)
    &&& toolbar.delay == Some(
        clamped(counted_secs(selection.delay_secs) as int, 0, DELAY_MAX as int) as u32,
    )
}

impl<N, S> SelectorView<N, S> {
    /// Every toolbar shows what is selected.
    pub open spec fn in_step(self) -> bool {
        forall|i: int|
            0 <= i < self.toolbars.len() ==> shows(#[trigger] self.toolbars[i], self.selection)
    }

    /// The session has been committed or cancelled.
    pub open spec fn finalised(self) -> bool {
        self.phase !is Picking
    }

    /// The session after an action of one of the toolbars. All of them show it.
    pub open spec fn acted(self, action: ToolbarAction<S>) -> SelectorView<N, S> {
        match action {
            ToolbarAction::ModeSelected(mode) => SelectorView {
                selection: self.selection.in_mode(mode),
                toolbars: self.toolbars.map_values(
                    |t: ToolbarView<S>|
                        ToolbarView { active_mode: button_of_mode(t.modes, mode), ..t },
                ),
                ..self
            },
            ToolbarAction::CursorToggled(on) => SelectorView {
                selection: SharedSelectionView { cursor: on, ..self.selection },
                toolbars: self.toolbars.map_values(
                    |t: ToolbarView<S>|
                        ToolbarView { cursor: shown(t.cursor is Some, on), ..t },
                ),
                ..self
            },
            ToolbarAction::DelayChanged(secs) => SelectorView {
                selection: SharedSelectionView { delay_secs: secs as u64, ..self.selection },
                toolbars: self.toolbars.map_values(
                    |t: ToolbarView<S>|
                        ToolbarView {
                            delay: shown(
                                t.delay is Some,
                                clamped(secs as int, 0, DELAY_MAX as int) as u32,
                            ),
                            ..t
                        },
                ),
                ..self
            },
            _ => self,
        }
    }

    /// What an action of a toolbar asks of the windows.
    pub open spec fn step_of(action: ToolbarAction<S>) -> StepView {
        match action {
            ToolbarAction::ModeSelected(_) => StepView::Redraw,
            ToolbarAction::Capture => StepView::Commit(false),
            ToolbarAction::Annotate => StepView::Commit(true),
            _ => StepView::Nothing,
        }
    }

    /// The session after a commit, and what is to be done. A session that is finalised, or has
    /// nothing to capture, stays as it is; one with a delay counts it down first.
    pub open spec fn committed(
        self,
        dragged: Option<Rect>,
        origin: Option<(i32, i32)>,
        local: Option<MonitorInfoView>,
        edit: bool,
    ) -> (PhaseView, StepView) {
        if self.finalised() {
            (self.phase, StepView::Nothing)
        } else {
            match resolved(self.selection, dragged, origin, local, self.monitors) {
                Some(selection) => {
                    let outcome = SelectorOutcomeView {
                        selection,
                        cursor: self.selection.cursor,
                        delay_secs: 0,
                        edit,
                    };
                    let secs = counted_secs(self.selection.delay_secs);
                    if secs == 0 {
                        (PhaseView::Done, StepView::Dismiss(outcome))
                    } else {
                        (PhaseView::Counting(secs, outcome), StepView::Count(secs))
                    }
                },
                None => (self.phase, StepView::Nothing),
            }
        }
    }
}

/// The phase after one second, and what is to be done.
pub open spec fn ticked(phase: PhaseView) -> (PhaseView, StepView) {
    match phase {
        PhaseView::Counting(secs, outcome) => {
            let next = after_a_second(secs);
            if next == 0 {
                (PhaseView::Done, StepView::Dismiss(outcome))
            } else {
                (PhaseView::Counting(next, outcome), StepView::Count(next))
            }
        },
        _ => (phase, StepView::Nothing),
    }
}

/// A session after it was cancelled, and whether there was anything to cancel.
pub open spec fn cancelled(phase: PhaseView) -> (PhaseView, bool) {
    (PhaseView::Done, phase !is Done)
}

impl<N: Copy, S: Copy> Selector<N, S> {
    /// Opens a session. The focused monitor and the focused window are picked from the start.
    /// The color and the font size are those that the toolbars would start with.
    pub fn new(
        initial_cursor: bool,
        initial_delay_secs: u64,
        monitors: Vec<MonitorInfo>,
        clients: Vec<WmWindow>,
        focused_monitor: &Option<String>,
        focused_window: &Option<ActiveWindow>,
        allow_annotate: bool,
        color: [S; 4],
        font_size: S,
    ) -> (res: Selector<N, S>)
        ensures
            res@.selection == SharedSelectionView::<N>::initial(
                initial_cursor,
                initial_delay_secs,
                preselected(infos(monitors@), text_of(*focused_monitor)),
                match *focused_window {
                    Some(w) => pick_of_active(w@),
                    None => None,
                },
            ),
            res@.phase == PhaseView::Picking,
            res@.monitors == infos(monitors@),
            res@.clients == clients@,
            res@.allow_annotate == allow_annotate,
            res@.toolbars.len() == monitors@.len(),
            forall|i: int|
                0 <= i < monitors@.len() ==> is_opening_toolbar(
                    #[trigger] res@.toolbars[i],
                    initial_cursor,
                    initial_delay_secs,
                    allow_annotate,
                    color,
                    font_size,
                ),
            res@.in_step(),
    {
        let selected_monitor = preselect(&monitors, focused_monitor);
        let selected_window = match focused_window {
            Some(window) => PickedWindow::from_active(window),
            None => None,
        };
        let selection = SharedSelection {
            owner: None,
            start: None,
            current: None,
            mode: ModeKind::Screen,
            cursor: initial_cursor,
            delay_secs: initial_delay_secs,
            hover_monitor: None,
            selected_monitor,
            hover_window: None,
            selected_window,
        };
        let mut toolbars: Vec<Toolbar<S>> = Vec::new();
        for i in 0..monitors.len()
            invariant
                toolbars@.len() == i,
                forall|k: int|
                    #![trigger toolbars@[k]]
                    0 <= k < i ==> shows(toolbars@[k]@, selection@) && is_opening_toolbar(
                        toolbars@[k]@,
                        initial_cursor,
                        initial_delay_secs,
                        allow_annotate,
                        color,
                        font_size,
                    ),
                selection@.mode == ModeKind::Screen,
                selection@.cursor == initial_cursor,
                selection@.delay_secs == initial_delay_secs,
        {
            let spec = toolbar_spec(initial_cursor, initial_delay_secs, allow_annotate);
            let ghost s = spec@;
            let mut toolbar = Toolbar::new(spec, color, font_size);
            toolbar.connect();
            assert(shows(toolbar@, selection@));
            assert(is_selector_spec(s, initial_cursor, initial_delay_secs, allow_annotate));
            toolbars.push(toolbar);
        }
        Selector {
            selection,
            phase: Phase::Picking,
            toolbars,
            monitors,
            clients,
            allow_annotate,
        }
    }

    /// A toolbar sends an action. Mode, cursor and delay are shown by every toolbar.
    pub fn apply_action(&mut self, action: ToolbarAction<S>) -> (res: Step)
        ensures
            final(self)@ == old(self)@.acted(action),
            res@ == SelectorView::<N, S>::step_of(action),
    {
        match action {
            ToolbarAction::ModeSelected(mode) => {
                self.selection.set_mode(mode);
                let ghost before = self.toolbars@;
                let count: usize = self.toolbars.len();
                for i in 0..count
                    invariant
                        count == self.toolbars@.len() == before.len(),
                        forall|k: int|
                            0 <= k < i ==> (#[trigger] self.toolbars@[k])@ == (ToolbarView {
                                active_mode: button_of_mode(before[k]@.modes, mode),
                                ..before[k]@
                            }),
                        forall|k: int| i <= k < count ==> self.toolbars@[k] == before[k],
                        self.selection@ == old(self)@.selection.in_mode(mode),
                        self.phase == old(self).phase,
                        self.monitors == old(self).monitors,
                        self.clients == old(self).clients,
                        self.allow_annotate == old(self).allow_annotate,
                {
                    self.toolbars[i].set_mode(mode);
                }
                assert(self@.toolbars =~= old(self)@.acted(action).toolbars);
                Step::Redraw
            },
            ToolbarAction::CursorToggled(on) => {
                self.selection.cursor = on;
                let ghost before = self.toolbars@;
                let count: usize = self.toolbars.len();
                for i in 0..count
                    invariant
                        count == self.toolbars@.len() == before.len(),
                        forall|k: int|
                            0 <= k < i ==> (#[trigger] self.toolbars@[k])@ == (ToolbarView {
                                cursor: shown(before[k]@.cursor is Some, on),
                                ..before[k]@
                            }),
                        forall|k: int| i <= k < count ==> self.toolbars@[k] == before[k],
                        self.selection == (SharedSelection { cursor: on, ..old(self).selection }),
                        self.phase == old(self).phase,
                        self.monitors == old(self).monitors,
                        self.clients == old(self).clients,
                        self.allow_annotate == old(self).allow_annotate,
                {
                    self.toolbars[i].set_cursor(on);
                }
                assert(self@.toolbars =~= old(self)@.acted(action).toolbars);
                Step::Nothing
            },
            ToolbarAction::DelayChanged(secs) => {
                self.selection.delay_secs = secs as u64;
                let ghost before = self.toolbars@;
                let count: usize = self.toolbars.len();
                for i in 0..count
                    invariant
                        count == self.toolbars@.len() == before.len(),
                        forall|k: int|
                            0 <= k < i ==> (#[trigger] self.toolbars@[k])@ == (ToolbarView {
                                delay: shown(
                                    before[k]@.delay is Some,
                                    clamped(secs as int, 0, DELAY_MAX as int) as u32,
                                ),
                                ..before[k]@
                            }),
                        forall|k: int| i <= k < count ==> self.toolbars@[k] == before[k],
                        self.selection == (SharedSelection {
                            delay_secs: secs as u64,
                            ..old(self).selection
                        }),
                        self.phase == old(self).phase,
                        self.monitors == old(self).monitors,
                        self.clients == old(self).clients,
                        self.allow_annotate == old(self).allow_annotate,
                {
                    self.toolbars[i].set_delay(secs);
                }
                assert(self@.toolbars =~= old(self)@.acted(action).toolbars);
                Step::Nothing
            },
            ToolbarAction::Capture => Step::Commit(false),
            ToolbarAction::Annotate => Step::Commit(true),
            _ => Step::Nothing,
        }
    }

    /// Commits the selection, on behalf of a monitor.
    pub fn commit(
        &mut self,
        dragged: Option<Rect>,
        origin: Option<(i32, i32)>,
        local_info: Option<&MonitorInfo>,
        edit: bool,
    ) -> (res: Step)
        requires
            drag_fits(dragged, origin),
        ensures
            (final(self)@.phase, res@) == old(self)@.committed(
                dragged,
                origin,
                info_view(local_info),
                edit,
            ),
            final(self)@ == (SelectorView { phase: final(self)@.phase, ..old(self)@ }),
    {
        match self.phase {
            Phase::Picking => {},
            _ => {
                return Step::Nothing;
            },
        }
        let selection = match resolve_selection(
            &self.selection,
            dragged,
            origin,
            local_info,
            &self.monitors,
        ) {
            Some(selection) => selection,
            None => {
                return Step::Nothing;
            },
        };
        let outcome = SelectorOutcome {
            selection,
            cursor: self.selection.cursor,
            delay_secs: 0,
            edit,
        };
        let secs: u32 = whole_secs(self.selection.delay_secs);
        if secs == 0 {
            self.phase = Phase::Done;
            Step::Dismiss(outcome)
        } else {
            self.phase = Phase::Counting(secs, outcome);
            Step::Count(secs)
        }
    }

    /// A second of the countdown has passed.
    pub fn tick(&mut self) -> (res: Step)
        ensures
            (final(self)@.phase, res@) == ticked(old(self)@.phase),
            final(self)@ == (SelectorView { phase: final(self)@.phase, ..old(self)@ }),
    {
        match &self.phase {
            Phase::Counting(secs, outcome) => match tick(*secs) {
                Some(next) => {
                    let kept = outcome.copied();
                    self.phase = Phase::Counting(next, kept);
                    Step::Count(next)
                },
                None => {
                    let kept = outcome.copied();
                    self.phase = Phase::Done;
                    Step::Dismiss(kept)
                },
            },
            _ => Step::Nothing,
        }
    }

    /// Cancels the session, even while it counts down. `false` when it is over already.
    pub fn cancel(&mut self) -> (res: bool)
        ensures
            (final(self)@.phase, res) == cancelled(old(self)@.phase),
            final(self)@ == (SelectorView { phase: final(self)@.phase, ..old(self)@ }),
    {
        let running: bool = match self.phase {
            Phase::Done => false,
            _ => true,
        };
        self.phase = Phase::Done;
        running
    }
}

// ---- what a monitor shows ------------------------------------------------------------------
/// How much a veil dims what lies under it.
#[derive(Clone, Copy, Debug, PartialEq, Eq, Structural)]
pub enum Shade {
    /// Not at all: the window is cleared.
    Clear,
    Strong,
    Full,
    Light,
}

/// What an outline runs around.
#[derive(Clone, Copy, Debug, PartialEq, Eq, Structural)]
pub enum Outlined {
    /// The dragged rectangle.
    Dragged,
    /// The whole monitor.
    Monitor,
    /// A window, inside the monitor's window.
    Window(Rect),
}

/// What the user can do next, or what was picked.
#[derive(Debug)]
pub enum Hint {
    RegionEmpty,
    Full,
    ScreenSelected,
    ScreenPick,
    WindowClassTitle(String, String),
    WindowClass(String),
    WindowTitle(String),
    WindowSelected,
    WindowPick,
}

/// The contents of a [`Hint`].
pub enum HintView {
    RegionEmpty,
    Full,
    ScreenSelected,
    ScreenPick,
    WindowClassTitle(Seq<char>, Seq<char>),
    WindowClass(Seq<char>),
    WindowTitle(Seq<char>),
    WindowSelected,
    WindowPick,
}

impl View for Hint {
    type V = HintView;

    open spec fn view(&self) -> HintView {
        match *self {
            Hint::RegionEmpty => HintView::RegionEmpty,
            Hint::Full => HintView::Full,
            Hint::ScreenSelected => HintView::ScreenSelected,
            Hint::ScreenPick => HintView::ScreenPick,
            Hint::WindowClassTitle(class, title) => HintView::WindowClassTitle(class@, title@),
            Hint::WindowClass(class) => HintView::WindowClass(class@),
            Hint::WindowTitle(title) => HintView::WindowTitle(title@),
            Hint::WindowSelected => HintView::WindowSelected,
            Hint::WindowPick => HintView::WindowPick,
        }
    }
}

impl Hint {
    /// The identifier of the hint's message.
    pub fn message_id(&self) -> (res: &'static str)
        ensures
            res@ == (match self@ {
                HintView::RegionEmpty => "selector-hint-region-empty"@,
                HintView::Full => "selector-hint-full"@,
                HintView::ScreenSelected => "selector-hint-screen-selected"@,
                HintView::ScreenPick => "selector-hint-screen-pick"@,
                HintView::WindowClassTitle(_, _) => "selector-hint-window-class-title"@,
                HintView::WindowClass(_) => "selector-hint-window-class"@,
                HintView::WindowTitle(_) => "selector-hint-window-title"@,
                HintView::WindowSelected => "selector-hint-window-selected"@,
                HintView::WindowPick => "selector-hint-window-pick"@,
            }),
    {
        match self {
            Hint::RegionEmpty => "selector-hint-region-empty",
            Hint::Full => "selector-hint-full",
            Hint::ScreenSelected => "selector-hint-screen-selected",
            Hint::ScreenPick => "selector-hint-screen-pick",
            Hint::WindowClassTitle(_, _) => "selector-hint-window-class-title",
            Hint::WindowClass(_) => "selector-hint-window-class",
            Hint::WindowTitle(_) => "selector-hint-window-title",
            Hint::WindowSelected => "selector-hint-window-selected",
            Hint::WindowPick => "selector-hint-window-pick",
        }
    }
}

/// Something painted on a monitor.
#[derive(Debug)]
pub enum Chrome {
    /// The whole monitor in one shade.
    Fill(Shade),
    /// Four strips of the strong shade around the dragged rectangle.
    Around,
    /// An outline, with its width in tenths of a pixel.
    Outline(Outlined, u32),
    /// A hint near the top.
    Hint(Hint),
    /// The size of the dragged rectangle, in its lower left corner.
    Size(i32, i32),
    /// The seconds left before the capture, in the middle.
    Countdown(u32),
}

/// The contents of a [`Chrome`].
pub enum ChromeView {
    Fill(Shade),
    Around,
    Outline(Outlined, u32),
    Hint(HintView),
    Size(i32, i32),
    Countdown(u32),
}

impl View for Chrome {
    type V = ChromeView;

    open spec fn view(&self) -> ChromeView {
        match *self {
            Chrome::Fill(shade) => ChromeView::Fill(shade),
            Chrome::Around => ChromeView::Around,
            Chrome::Outline(around, width) => ChromeView::Outline(around, width),
            Chrome::Hint(hint) => ChromeView::Hint(hint@),
            Chrome::Size(w, h) => ChromeView::Size(w, h),
            Chrome::Countdown(secs) => ChromeView::Countdown(secs),
        }
    }
}

pub open spec fn chrome_views(list: Seq<Chrome>) -> Seq<ChromeView> {
    list.map_values(|c: Chrome| c@)
}

/// Region mode: the rectangle on the monitor that owns it, and a veil with a hint on the
/// others.
pub open spec fn region_chrome<N>(
    state: SharedSelectionView<N>,
    monitor: usize,
    dragged: Option<(i32, i32)>,
) -> Seq<ChromeView> {
    match dragged {
        Some(size) => if state.owner == Some(monitor) {
            seq![
                ChromeView::Around,
                ChromeView::Outline(Outlined::Dragged, 15),
                ChromeView::Size(size.0, size.1),
            ]
        } else {
            seq![ChromeView::Fill(Shade::Full), ChromeView::Hint(HintView::RegionEmpty)]
        },
        None => seq![ChromeView::Fill(Shade::Full), ChromeView::Hint(HintView::RegionEmpty)],
    }
}

/// Screen mode: the monitor that was clicked and the one under the pointer are lit and
/// outlined, the first more boldly.
pub open spec fn screen_chrome<N>(state: SharedSelectionView<N>, monitor: usize) -> Seq<
    ChromeView,
> {
    let selected = state.selected_monitor == Some(monitor);
    let hint = ChromeView::Hint(
        if state.selected_monitor is Some {
            HintView::ScreenSelected
        } else {
            HintView::ScreenPick
        },
    );
    if selected {
        seq![
            ChromeView::Fill(Shade::Light),
            ChromeView::Outline(Outlined::Monitor, 40),
            hint,
        ]
    } else if state.hover_monitor == Some(monitor) {
        seq![
            ChromeView::Fill(Shade::Light),
            ChromeView::Outline(Outlined::Monitor, 20),
            hint,
        ]
    } else {
        seq![ChromeView::Fill(Shade::Strong), hint]
    }
}

/// What Window mode says of the window that was clicked.
pub open spec fn window_hint(selected: Option<PickedWindowView>) -> HintView {
    match selected {
        Some(p) => if p.class.len() > 0 && p.title.len() > 0 {
            HintView::WindowClassTitle(p.class, p.title)
        } else if p.class.len() > 0 {
            HintView::WindowClass(p.class)
        } else if p.title.len() > 0 {
            HintView::WindowTitle(p.title)
        } else {
            HintView::WindowSelected
        },
        None => HintView::WindowPick,
    }
}

/// The outline of a window, when the monitor is there to show it.
pub open spec fn window_outline(
    picked: Option<PickedWindowView>,
    origin: Option<(i32, i32)>,
    width: u32,
) -> Seq<ChromeView> {
    match picked {
        Some(p) => match local_rect(origin, p.rect) {
            Some(rect) => seq![ChromeView::Outline(Outlined::Window(rect), width)],
            None => Seq::empty(),
        },
        None => Seq::empty(),
    }
}

/// The window under the pointer, unless the window that was clicked is outlined there.
pub open spec fn hover_to_outline<N>(state: SharedSelectionView<N>) -> Option<PickedWindowView> {
    match (state.hover_window, state.selected_window) {
        (Some(h), Some(s)) => if h.rect == s.rect {
            None
        } else {
            Some(h)
        },
        (hover, _) => hover,
    }
}

/// Window mode: the window under the pointer thinly outlined, and the one that was clicked
/// more boldly.
pub open spec fn window_chrome<N>(
    state: SharedSelectionView<N>,
    origin: Option<(i32, i32)>,
) -> Seq<ChromeView> {
    seq![ChromeView::Fill(Shade::Strong)] + window_outline(hover_to_outline(state), origin, 20)
        + window_outline(state.selected_window, origin, 30) + seq![
        ChromeView::Hint(window_hint(state.selected_window)),
    ]
}

/// What the mode shows on a monitor.
pub open spec fn mode_chrome<N>(
    state: SharedSelectionView<N>,
    monitor: usize,
    origin: Option<(i32, i32)>,
    dragged: Option<(i32, i32)>,
) -> Seq<ChromeView> {
    match state.mode {
        ModeKind::Region => region_chrome(state, monitor, dragged),
        ModeKind::Full => seq![ChromeView::Fill(Shade::Light), ChromeView::Hint(HintView::Full)],
        ModeKind::Screen => screen_chrome(state, monitor),
        ModeKind::Window => window_chrome(state, origin),
    }
}

/// The overlay of one monitor.
#[derive(Clone, Copy, Debug, PartialEq, Eq, Structural)]
pub struct SelectorOverlay {
    pub monitor_index: usize,
    /// The seconds left before the capture, while they are counted.
    pub countdown: Option<u32>,
    /// Nothing is painted any more.
    pub blanked: bool,
}

impl Default for SelectorOverlay {
    fn default() -> (res: SelectorOverlay)
        ensures
            res == (SelectorOverlay { monitor_index: 0, countdown: None, blanked: false }),
    {
        SelectorOverlay { monitor_index: 0, countdown: None, blanked: false }
    }
}

impl SelectorOverlay {
    /// The overlay of a monitor.
    pub fn new(monitor_index: usize) -> (res: SelectorOverlay)
        ensures
            res == (SelectorOverlay { monitor_index, countdown: None, blanked: false }),
    {
        SelectorOverlay { monitor_index, countdown: None, blanked: false }
    }

    /// Shows seconds, or shows none any more.
    pub fn set_countdown(&mut self, value: Option<u32>)
        ensures
            *final(self) == (SelectorOverlay { countdown: value, ..*old(self) }),
    {
        self.countdown = value;
    }

    /// Stops painting.
    pub fn blank(&mut self)
        ensures
            *final(self) == (SelectorOverlay { blanked: true, ..*old(self) }),
    {
        self.blanked = true;
    }

    /// What the overlay shows. A blank overlay is cleared; otherwise the mode is shown, and the
    /// countdown above it.
    pub open spec fn shown_on<N>(
        self,
        size: (i32, i32),
        state: SharedSelectionView<N>,
        origin: Option<(i32, i32)>,
        dragged: Option<(i32, i32)>,
    ) -> Seq<ChromeView> {
        if size.0 <= 0 || size.1 <= 0 {
            Seq::empty()
        } else if self.blanked {
            seq![ChromeView::Fill(Shade::Clear)]
        } else {
            mode_chrome(state, self.monitor_index, origin, dragged) + (match self.countdown {
                Some(secs) => seq![ChromeView::Countdown(secs)],
                None => Seq::empty(),
            })
        }
    }

    /// What the overlay shows, in an area of a size. `origin` is where the monitor lies, and
    /// `dragged` the size of the dragged rectangle, when it is at least a pixel wide and high.
    pub fn snapshot<N>(
        &self,
        size: (i32, i32),
        state: &SharedSelection<N>,
        origin: Option<(i32, i32)>,
        dragged: Option<(i32, i32)>,
    ) -> (res: Vec<Chrome>)
        requires
            size.0 > 0 && size.1 > 0 && !self.blanked && state@.mode == ModeKind::Window
                ==> windows_fit(state@, origin),
        ensures
            chrome_views(res@) == self.shown_on(size, state@, origin, dragged),
    {
        let mut list: Vec<Chrome> = Vec::new();
        assert(chrome_views(list@) =~= Seq::empty());
        if size.0 <= 0 || size.1 <= 0 {
            return list;
        }
        if self.blanked {
            push_chrome(&mut list, Chrome::Fill(Shade::Clear));
            assert(chrome_views(list@) =~= seq![ChromeView::Fill(Shade::Clear)]);
            return list;
        }
        match state.mode {
            ModeKind::Region => {
                push_region(&mut list, state, self.monitor_index, dragged);
            },
            ModeKind::Full => {
                push_chrome(&mut list, Chrome::Fill(Shade::Light));
                push_chrome(&mut list, Chrome::Hint(Hint::Full));
            },
            ModeKind::Screen => {
                push_screen(&mut list, state, self.monitor_index);
            },
            ModeKind::Window => {
                push_window(&mut list, state, origin);
            },
        }
        assert(chrome_views(list@) =~= mode_chrome(state@, self.monitor_index, origin, dragged));
        if let Some(secs) = self.countdown {
            push_chrome(&mut list, Chrome::Countdown(secs));
        }
        assert(chrome_views(list@) =~= self.shown_on(size, state@, origin, dragged));
        list
    }
}

fn push_chrome(list: &mut Vec<Chrome>, chrome: Chrome)
    ensures
        chrome_views(final(list)@) == chrome_views(old(list)@).push(chrome@),
{
    list.push(chrome);
    assert(chrome_views(list@) =~= chrome_views(old(list)@).push(chrome@));
}

fn push_region<N>(
    list: &mut Vec<Chrome>,
    state: &SharedSelection<N>,
    monitor: usize,
    dragged: Option<(i32, i32)>,
)
    ensures
        chrome_views(final(list)@) == chrome_views(old(list)@) + region_chrome(
            state@,
            monitor,
            dragged,
        ),
{
    let here: bool = match state.owner {
        Some(owner) => owner == monitor,
        None => false,
    };
    let shown_here: Option<(i32, i32)> = if here {
        dragged
    } else {
        None
    };
    match shown_here {
        Some((w, h)) => {
            push_chrome(list, Chrome::Around);
            push_chrome(list, Chrome::Outline(Outlined::Dragged, 15));
            push_chrome(list, Chrome::Size(w, h));
        },
        None => {
            push_chrome(list, Chrome::Fill(Shade::Full));
            push_chrome(list, Chrome::Hint(Hint::RegionEmpty));
        },
    }
    assert(chrome_views(list@) =~= chrome_views(old(list)@) + region_chrome(
        state@,
        monitor,
        dragged,
    ));
}

fn push_screen<N>(list: &mut Vec<Chrome>, state: &SharedSelection<N>, monitor: usize)
    ensures
        chrome_views(final(list)@) == chrome_views(old(list)@) + screen_chrome(state@, monitor),
{
    let selected: bool = match state.selected_monitor {
        Some(m) => m == monitor,
        None => false,
    };
    let hovered: bool = match state.hover_monitor {
        Some(m) => m == monitor,
        None => false,
    };
    push_chrome(
        list,
        Chrome::Fill(
            if selected || hovered {
                Shade::Light
            } else {
                Shade::Strong
            },
        ),
    );
    if selected || hovered {
        let width: u32 = if selected {
            40
        } else {
            20
        };
        push_chrome(list, Chrome::Outline(Outlined::Monitor, width));
    }
    push_chrome(
        list,
        Chrome::Hint(
            if state.selected_monitor.is_some() {
                Hint::ScreenSelected
            } else {
                Hint::ScreenPick
            },
        ),
    );
    assert(chrome_views(list@) =~= chrome_views(old(list)@) + screen_chrome(state@, monitor));
}

fn hint_for(selected: &Option<PickedWindow>) -> (res: Hint)
    ensures
        res@ == window_hint(picked_view(*selected)),
{
    match selected {
        Some(p) => {
            let has_class: bool = !p.class.as_str().is_empty();
            let has_title: bool = !p.title.as_str().is_empty();
            if has_class && has_title {
                Hint::WindowClassTitle(p.class.clone(), p.title.clone())
            } else if has_class {
                Hint::WindowClass(p.class.clone())
            } else if has_title {
                Hint::WindowTitle(p.title.clone())
            } else {
                Hint::WindowSelected
            }
        },
        None => Hint::WindowPick,
    }
}

fn push_window_outline(
    list: &mut Vec<Chrome>,
    picked: &Option<PickedWindow>,
    origin: Option<(i32, i32)>,
    width: u32,
)
    requires
        picked_view(*picked) matches Some(p) ==> rect_fits(origin, p.rect),
    ensures
        chrome_views(final(list)@) == chrome_views(old(list)@) + window_outline(
            picked_view(*picked),
            origin,
            width,
        ),
{
    if let Some(p) = picked {
        if let Some(rect) = logical_to_local(origin, &p.rect) {
            push_chrome(list, Chrome::Outline(Outlined::Window(rect), width));
        }
    }
    assert(chrome_views(list@) =~= chrome_views(old(list)@) + window_outline(
        picked_view(*picked),
        origin,
        width,
    ));
}

fn push_window<N>(
    list: &mut Vec<Chrome>,
    state: &SharedSelection<N>,
    origin: Option<(i32, i32)>,
)
    requires
        windows_fit(state@, origin),
    ensures
        chrome_views(final(list)@) == chrome_views(old(list)@) + window_chrome(state@, origin),
{
    push_chrome(list, Chrome::Fill(Shade::Strong));
    let covered: bool = match (&state.hover_window, &state.selected_window) {
        (Some(h), Some(s)) => h.rect == s.rect,
        _ => false,
    };
    if !covered {
        push_window_outline(list, &state.hover_window, origin, 20);
    }
    push_window_outline(list, &state.selected_window, origin, 30);
    push_chrome(list, Chrome::Hint(hint_for(&state.selected_window)));
    assert(chrome_views(list@) =~= chrome_views(old(list)@) + window_chrome(state@, origin));
}

/// Where a text starts that is centered, and no further left than `least`, in half pixels.
pub fn centered(extent: i32, content: i32, least: i32) -> (res: i32)
    requires
        0 <= extent,
        0 <= content,
        0 <= least <= 0x3fff_ffff,
    ensures
        res == (if extent - content < 2 * least {
            2 * least
        } else {
            extent - content
        }),
{
    let half: i32 = extent - content;
    if half < 2 * least {
        2 * least
    } else {
        half
    }
}

// ---- laws ----------------------------------------------------------------------------------
/// What was picked in a mode is still picked after other modes have been tried, and a dragged
/// rectangle is not.
pub proof fn picks_outlive_other_modes<N>(
    state: SharedSelectionView<N>,
    through: ModeKind,
    back: ModeKind,
)
    ensures
        ({
            let after = state.in_mode(through).in_mode(back);
            &&& after.selected_monitor == state.selected_monitor
            &&& after.selected_window == state.selected_window
            &&& after.cursor == state.cursor
            &&& after.delay_secs == state.delay_secs
            &&& through != ModeKind::Region ==> after.owner is None && after.start is None
                && after.current is None
        }),
{
}

/// A drag that begins on a monitor takes the rectangle over from any other monitor, whose own
/// drag has no effect any more.
pub proof fn a_new_drag_takes_over<N>(
    state: SharedSelectionView<N>,
    before: usize,
    now: usize,
    at_before: (N, N),
    at: (N, N),
    late: Option<(N, N)>,
)
    requires
        state.mode == ModeKind::Region,
        before != now,
    ensures
        state.drag_begun(before, at_before).drag_begun(now, at).dragged(before, late)
            == state.drag_begun(now, at),
        state.drag_begun(now, at).owner == Some(now),
{
}

/// Neither the pointer nor a drag changes what a mode other than its own selects.
pub proof fn each_mode_has_its_own_gesture<N>(
    state: SharedSelectionView<N>,
    monitor: usize,
    clients: Seq<WmWindow>,
    at: Option<(i32, i32)>,
    drag: (N, N),
)
    ensures
        state.mode != ModeKind::Region ==> state.drag_begun(monitor, drag) == state
            && state.dragged(monitor, Some(drag)) == state,
        state.mode == ModeKind::Region ==> state.clicked(monitor, clients, at) == state,
        state.mode != ModeKind::Window ==> state.hovered(clients, at) == state && state.clicked(
            monitor,
            clients,
            at,
        ).selected_window == state.selected_window,
        state.mode != ModeKind::Screen ==> state.clicked(monitor, clients, at).selected_monitor
            == state.selected_monitor,
{
}

/// A point of a monitor's window keeps its place when it is taken to logical coordinates and
/// back.
pub proof fn coordinates_go_there_and_back(origin: (i32, i32), at: (i32, i32), w: u32, h: u32)
    requires
        point_fits(Some(origin), at),
    ensures
        ({
            let there = Rect {
                x: (origin.0 + at.0) as i32,
                y: (origin.1 + at.1) as i32,
                w,
                h,
            };
            local_rect(Some(origin), there) == Some(Rect { x: at.0, y: at.1, w, h })
        }),
{
}

/// A press of a mode button, of the cursor toggle or of the delay on one toolbar is shown by
/// every toolbar.
pub proof fn a_press_shows_on_every_toolbar<N, S>(
    session: SelectorView<N, S>,
    k: int,
    pressed: ToolbarView<S>,
    action: ToolbarAction<S>,
)
    requires
        session.in_step(),
        0 <= k < session.toolbars.len(),
        ({
            let toolbar = session.toolbars[k];
            ||| exists|i: usize|
                i < toolbar.modes.len() && #[trigger] toolbar.mode_pressed(i) == (
                    pressed,
                    Some(action),
                )
            ||| toolbar.dispatched(ShortcutAction::Cursor) == Some((pressed, Some(action)))
            ||| exists|secs: u32|
                secs <= DELAY_MAX && action == ToolbarAction::<S>::DelayChanged(secs) && pressed
                    == #[trigger] delayed(toolbar, secs)
        }),
    ensures
        (SelectorView { toolbars: session.toolbars.update(k, pressed), ..session }).acted(
            action,
        ).in_step(),
{
    let after = (SelectorView { toolbars: session.toolbars.update(k, pressed), ..session }).acted(
        action,
    );
    assert forall|i: int| 0 <= i < after.toolbars.len() implies shows(
        #[trigger] after.toolbars[i],
        after.selection,
    ) by {
        assert(shows(session.toolbars[i], session.selection));
        assert(shows(session.toolbars[k], session.selection));
    }
}

/// A toolbar that shows another delay.
pub open spec fn delayed<S>(toolbar: ToolbarView<S>, secs: u32) -> ToolbarView<S> {
    ToolbarView { delay: Some(secs), ..toolbar }
}

/// A session that is over stays over: nothing is committed, counted or cancelled any more.
pub proof fn a_finished_session_stays_finished<N, S>(
    session: SelectorView<N, S>,
    dragged: Option<Rect>,
    origin: Option<(i32, i32)>,
    local: Option<MonitorInfoView>,
    edit: bool,
)
    requires
        session.phase == PhaseView::Done,
    ensures
        session.committed(dragged, origin, local, edit) == (PhaseView::Done, StepView::Nothing),
        ticked(session.phase) == (PhaseView::Done, StepView::Nothing),
{
}

/// A session is committed at most once: while it counts down, a second commit does nothing.
pub proof fn a_session_is_committed_once<N, S>(
    session: SelectorView<N, S>,
    dragged: Option<Rect>,
    origin: Option<(i32, i32)>,
    local: Option<MonitorInfoView>,
    edit: bool,
    again: bool,
)
    ensures
        ({
            let (phase, step) = session.committed(dragged, origin, local, edit);
            let after = SelectorView { phase, ..session };
            step != StepView::Nothing ==> after.committed(dragged, origin, local, again) == (
                phase,
                StepView::Nothing,
            )
        }),
{
}

/// The phase after so many seconds.
pub open spec fn after_ticks(phase: PhaseView, seconds: nat) -> PhaseView
    decreases seconds,
{
    if seconds == 0 {
        phase
    } else {
        ticked(after_ticks(phase, (seconds - 1) as nat)).0
    }
}

/// A countdown takes as many seconds as it started with. In the last of them the session is
/// dismissed, with the outcome that was committed.
pub proof fn a_delay_is_counted_to_its_end(secs: u32, outcome: SelectorOutcomeView, elapsed: nat)
    requires
        secs > 0,
    ensures
        after_ticks(PhaseView::Counting(secs, outcome), elapsed) == (if elapsed < secs {
            PhaseView::Counting((secs - elapsed) as u32, outcome)
        } else {
            PhaseView::Done
        }),
        elapsed + 1 == secs ==> ticked(
            after_ticks(PhaseView::Counting(secs, outcome), elapsed),
        ).1 == StepView::Dismiss(outcome),
    decreases elapsed,
{
    if elapsed > 0 {
        a_delay_is_counted_to_its_end(secs, outcome, (elapsed - 1) as nat);
    }
}

/// The outcome that is answered with leaves nothing to wait for, and holds what was selected.
pub proof fn the_outcome_is_what_was_selected<N, S>(
    session: SelectorView<N, S>,
    dragged: Option<Rect>,
    origin: Option<(i32, i32)>,
    local: Option<MonitorInfoView>,
    edit: bool,
    outcome: SelectorOutcomeView,
)
    requires
        ({
            let (phase, step) = session.committed(dragged, origin, local, edit);
            ||| step == StepView::Dismiss(outcome)
            ||| session.phase is Picking && phase is Counting && phase->Counting_1 == outcome
        }),
    ensures
        outcome.delay_secs == 0,
        outcome.edit == edit,
        outcome.cursor == session.selection.cursor,
        Some(outcome.selection) == resolved(
            session.selection,
            dragged,
            origin,
            local,
            session.monitors,
        ),
{
}

// ---- what is picked ------------------------------------------------------------------------
/// A dragged region is captured where it was dragged: a point of the monitor's window lies in the
/// dragged rectangle exactly when the logical point that it stands for lies in the region, and
/// seen from the monitor the region is the dragged rectangle. Without a rectangle, or without the
/// monitor, there is nothing to capture.
pub proof fn a_region_is_where_it_was_dragged<N>(
    state: SharedSelectionView<N>,
    r: Rect,
    o: (i32, i32),
    local: Option<MonitorInfoView>,
    monitors: Seq<MonitorInfoView>,
    p: (i32, i32),
)
    requires
        state.mode == ModeKind::Region,
        drag_fits(Some(r), Some(o)),
        point_fits(Some(o), p),
    ensures
        match resolved(state, Some(r), Some(o), local, monitors) {
            Some(SelectionView::Region(region)) => {
                &&& state.owner is Some
                &&& local_rect(Some(o), region) == Some(r)
                &&& logical_point(Some(o), p) matches Some(q) && (region.covers(
                    q.0 as int,
                    q.1 as int,
                ) <==> r.covers(p.0 as int, p.1 as int))
            },
            Some(_) => false,
            None => state.owner is None,
        },
        resolved(state, None, Some(o), local, monitors) is None,
        resolved(state, Some(r), None, local, monitors) is None,
{
}

/// A point of a monitor's window lies as far from the monitor's corner as it lies in the window,
/// and a rectangle comes back from the window's coordinates with the size that it has.
pub proof fn windows_and_monitors_agree_on_points(
    origin: Option<(i32, i32)>,
    at: (i32, i32),
    rect: Rect,
)
    requires
        point_fits(origin, at),
        rect_fits(origin, rect),
    ensures
        match origin {
            Some(o) => {
                &&& logical_point(origin, at) matches Some(q) && q.0 - o.0 == at.0 && q.1 - o.1
                    == at.1
                &&& local_rect(origin, rect) matches Some(l) && l.x + o.0 == rect.x && l.y + o.1
                    == rect.y && l.w == rect.w && l.h == rect.h
            },
            None => logical_point(origin, at) is None && local_rect(origin, rect) is None,
        },
{
}

proof fn lemma_monitor_with(monitors: Seq<MonitorInfoView>, index: usize, from: int)
    requires
        0 <= from <= monitors.len(),
    ensures
        match monitor_with(monitors, index, from) {
            Some(m) => m.index == index && exists|i: int|
                from <= i < monitors.len() && #[trigger] monitors[i] == m && forall|j: int|
                    from <= j < i ==> (#[trigger] monitors[j]).index != index,
            None => forall|j: int|
                from <= j < monitors.len() ==> (#[trigger] monitors[j]).index != index,
        },
    decreases monitors.len() - from,
{
    if from < monitors.len() && monitors[from].index != index {
        lemma_monitor_with(monitors, index, from + 1);
    }
}

/// In Screen mode the output that is captured is that of the monitor with the selected index.
/// Only where no monitor has it, or none is selected, is it the monitor at which the capture was
/// asked for. A monitor without a name cannot be captured.
pub proof fn a_screen_is_the_one_selected<N>(
    state: SharedSelectionView<N>,
    dragged: Option<Rect>,
    origin: Option<(i32, i32)>,
    local: Option<MonitorInfoView>,
    monitors: Seq<MonitorInfoView>,
)
    requires
        state.mode == ModeKind::Screen,
    ensures
        ({
            let captured = resolved(state, dragged, origin, local, monitors);
            let known = state.selected_monitor is Some && exists|i: int|
                0 <= i < monitors.len() && (#[trigger] monitors[i]).index
                    == state.selected_monitor->0;
            &&& known ==> exists|i: int|
                0 <= i < monitors.len() && (#[trigger] monitors[i]).index
                    == state.selected_monitor->0 && match captured {
                    Some(SelectionView::Output(name)) => monitors[i].connector == Some(name),
                    Some(_) => false,
                    None => monitors[i].connector is None,
                }
            &&& !known ==> match captured {
                Some(SelectionView::Output(name)) => local is Some && local->0.connector == Some(
                    name,
                ),
                Some(_) => false,
                None => local is None || local->0.connector is None,
            }
        }),
{
    if let Some(index) = state.selected_monitor {
        lemma_monitor_with(monitors, index, 0);
    }
}

/// In Window mode the picked window is captured where it is, and without a pick the focused one.
/// In Full mode everything is. Neither depends on a drag or on a monitor.
pub proof fn a_window_is_the_one_picked<N>(
    state: SharedSelectionView<N>,
    dragged: Option<Rect>,
    origin: Option<(i32, i32)>,
    local: Option<MonitorInfoView>,
    monitors: Seq<MonitorInfoView>,
)
    ensures
        state.mode == ModeKind::Window ==> match state.selected_window {
            Some(w) => resolved(state, dragged, origin, local, monitors) == Some(
                SelectionView::Region(w.rect),
            ),
            None => resolved(state, dragged, origin, local, monitors) == Some(
                SelectionView::Window,
            ),
        },
        state.mode == ModeKind::Full ==> resolved(state, dragged, origin, local, monitors) == Some(
            SelectionView::Full,
        ),
{
}

/// The window under a point is the first one of the list, the frontmost, that is on screen and
/// whose rectangle holds the point. There is none exactly where no window is there.
pub proof fn the_frontmost_window_is_picked(clients: Seq<WmWindow>, x: int, y: int, from: int)
    requires
        0 <= from <= clients.len(),
    ensures
        match pick_at(clients, x, y, from) {
            Some(p) => exists|i: int|
                #![trigger clients[i]]
                from <= i < clients.len() && clients[i].mapped && !clients[i].hidden && clients[i].at
                    == Some((p.rect.x, p.rect.y)) && clients[i].size == Some((p.rect.w, p.rect.h))
                    && p.title == clients[i].title@ && p.class == clients[i].class@ && p.rect.x <= x
                    < p.rect.x + p.rect.w && p.rect.y <= y < p.rect.y + p.rect.h && forall|j: int|
                    from <= j < i ==> !(#[trigger] clients[j]).is_hit(x, y),
            None => forall|j: int|
                from <= j < clients.len() ==> !(#[trigger] clients[j]).is_hit(x, y),
        },
    decreases clients.len() - from,
{
    if from < clients.len() && !clients[from].is_hit(x, y) {
        the_frontmost_window_is_picked(clients, x, y, from + 1);
    }
}

/// A click picks what its mode is about: in Screen mode the monitor that was clicked, in Window
/// mode the frontmost window under the pointer. A click beside all windows leaves the pick.
pub proof fn a_click_picks_what_the_mode_is_about<N>(
    state: SharedSelectionView<N>,
    monitor: usize,
    clients: Seq<WmWindow>,
    at: Option<(i32, i32)>,
)
    ensures
        ({
            let after = state.clicked(monitor, clients, at);
            &&& state.mode == ModeKind::Screen ==> after == (SharedSelectionView {
                selected_monitor: Some(monitor),
                ..state
            })
            &&& state.mode == ModeKind::Window ==> {
                let hit = match at {
                    Some(p) => pick_at(clients, p.0 as int, p.1 as int, 0),
                    None => None,
                };
                &&& hit is Some ==> after == (SharedSelectionView { selected_window: hit, ..state })
                &&& hit is None ==> after == state
            }
            &&& state.mode == ModeKind::Full || state.mode == ModeKind::Region ==> after == state
        }),
{
}

/// The pointer lights up what a click would pick: the monitor that it is on, or the window that
/// it is over. Leaving a monitor puts both out, and nothing that is picked changes.
pub proof fn the_pointer_lights_up_what_a_click_would_pick<N>(
    state: SharedSelectionView<N>,
    monitor: usize,
    clients: Seq<WmWindow>,
    at: (i32, i32),
)
    ensures
        state.mode == ModeKind::Screen ==> state.entered(monitor).hover_monitor
            == state.entered(monitor).clicked(monitor, clients, Some(at)).selected_monitor,
        state.mode == ModeKind::Screen ==> state.entered(monitor).hover_monitor == Some(monitor),
        state.mode == ModeKind::Window ==> ({
            let hovered = state.hovered(clients, Some(at)).hover_window;
            let clicked = state.clicked(monitor, clients, Some(at));
            match pick_at(clients, at.0 as int, at.1 as int, 0) {
                Some(p) => hovered is Some && hovered->0.rect == p.rect && clicked.selected_window
                    == Some(p),
                None => hovered is None && clicked.selected_window == state.selected_window,
            }
        }),
        state.entered(monitor).left(monitor).hover_monitor != Some(monitor),
        state.left(monitor).hover_window is None,
        state.left(monitor).selected_window == state.selected_window && state.left(
            monitor,
        ).selected_monitor == state.selected_monitor && state.left(monitor).mode == state.mode,
        state.hovered(clients, Some(at)).selected_window == state.selected_window,
        state.entered(monitor).selected_monitor == state.selected_monitor,
{
}

/// A drag in Region mode is that of the monitor on which it began, from where it began to where
/// the pointer is, and only that monitor moves it.
pub proof fn a_drag_spans_from_its_start_to_the_pointer<N>(
    state: SharedSelectionView<N>,
    monitor: usize,
    other: usize,
    at: (N, N),
    to: (N, N),
)
    requires
        state.mode == ModeKind::Region,
    ensures
        ({
            let after = state.drag_begun(monitor, at).dragged(monitor, Some(to));
            &&& after.owner == Some(monitor) && after.start == Some(at) && after.current == Some(to)
            &&& after == (SharedSelectionView {
                owner: after.owner,
                start: after.start,
                current: after.current,
                ..state
            })
            &&& state.drag_begun(monitor, at).current == Some(at)
            &&& other != monitor ==> after.dragged(other, Some(at)) == after
        }),
{
}

/// The mode that is chosen is the mode. A dragged rectangle lasts only in Region mode, and what
/// was picked, the cursor and the delay stay.
pub proof fn a_chosen_mode_is_the_mode<N>(state: SharedSelectionView<N>, mode: ModeKind)
    ensures
        ({
            let after = state.in_mode(mode);
            &&& after.mode == mode && after.hover_window is None
            &&& after.selected_monitor == state.selected_monitor && after.selected_window
                == state.selected_window
            &&& after.cursor == state.cursor && after.delay_secs == state.delay_secs
            &&& mode == ModeKind::Region ==> after.owner == state.owner && after.start
                == state.start && after.current == state.current
            &&& mode != ModeKind::Region ==> after.owner is None && after.start is None
                && after.current is None
        }),
{
}

/// The toolbar's mode, cursor and delay are those of the session, and each changes nothing else.
/// Capture commits, and Annotate commits for annotating.
pub proof fn the_session_does_what_the_toolbar_asks<N, S>(
    session: SelectorView<N, S>,
    mode: ModeKind,
    on: bool,
    secs: u32,
)
    ensures
        session.acted(ToolbarAction::ModeSelected(mode)).selection == session.selection.in_mode(
            mode,
        ),
        session.acted(ToolbarAction::CursorToggled(on)).selection == (SharedSelectionView {
            cursor: on,
            ..session.selection
        }),
        session.acted(ToolbarAction::DelayChanged(secs)).selection.delay_secs == secs,
        session.acted(ToolbarAction::DelayChanged(secs)).selection == (SharedSelectionView {
            delay_secs: secs as u64,
            ..session.selection
        }),
        session.acted(ToolbarAction::Capture) == session,
        session.acted(ToolbarAction::Annotate) == session,
        SelectorView::<N, S>::step_of(ToolbarAction::Capture) == StepView::Commit(false),
        SelectorView::<N, S>::step_of(ToolbarAction::Annotate) == StepView::Commit(true),
        SelectorView::<N, S>::step_of(ToolbarAction::ModeSelected(mode)) == StepView::Redraw,
        SelectorView::<N, S>::step_of(ToolbarAction::CursorToggled(on)) == StepView::Nothing,
{
}

/// A commit without anything selected does nothing. One with a selection is answered at once
/// where there is no delay, and otherwise counts the seconds of the delay first.
pub proof fn a_commit_waits_for_the_delay<N, S>(
    session: SelectorView<N, S>,
    dragged: Option<Rect>,
    origin: Option<(i32, i32)>,
    local: Option<MonitorInfoView>,
    edit: bool,
)
    requires
        session.phase is Picking,
    ensures
        ({
            let (phase, step) = session.committed(dragged, origin, local, edit);
            let selected = resolved(
                session.selection,
                dragged,
                origin,
                local,
                session.monitors,
            ) is Some;
            let delay = session.selection.delay_secs;
            &&& !selected ==> phase is Picking && step is Nothing
            &&& selected && delay == 0 ==> phase is Done && step is Dismiss
            &&& selected && 0 < delay <= u32::MAX ==> (phase matches PhaseView::Counting(secs, _)
                && secs == delay && step == StepView::Count(secs))
        }),
{
}

/// Escape cancels, also while the delay is counted, and then nothing is captured any more. Enter
/// commits, with Shift for annotating where that is allowed. Other keys are left alone.
pub proof fn escape_cancels_and_enter_commits(
    key: Key,
    shift: bool,
    allow_annotate: bool,
    phase: PhaseView,
)
    ensures
        key_meaning(key, shift, allow_annotate) is Cancel <==> key.code == KEY_ESCAPE,
        key_meaning(key, shift, allow_annotate) is Commit <==> key.code == KEY_RETURN || key.code
            == KEY_KP_ENTER,
        key_meaning(key, shift, allow_annotate) matches SelectorKey::Commit(edit) ==> (edit <==> shift
            && allow_annotate),
        cancelled(phase).0 is Done,
        cancelled(phase).1 <==> !(phase is Done),
        ticked(cancelled(phase).0).1 is Nothing,
        !cancelled(cancelled(phase).0).1,
{
}

proof fn lemma_index_named(monitors: Seq<MonitorInfoView>, name: Seq<char>, from: int)
    requires
        0 <= from <= monitors.len(),
    ensures
        match index_named(monitors, name, from) {
            Some(index) => exists|i: int|
                from <= i < monitors.len() && #[trigger] monitors[i].connector == Some(name)
                    && monitors[i].index == index,
            None => forall|i: int|
                from <= i < monitors.len() ==> #[trigger] monitors[i].connector != Some(name),
        },
    decreases monitors.len() - from,
{
    if from < monitors.len() && monitors[from].connector != Some(name) {
        lemma_index_named(monitors, name, from + 1);
    }
}

/// A session begins in Screen mode with the focused monitor and the focused window selected, so
/// that it can be committed at once: it then captures the focused monitor.
pub proof fn a_session_begins_with_what_is_focused<N>(
    monitors: Seq<MonitorInfoView>,
    focused: Option<Seq<char>>,
    window: ActiveWindowView,
    cursor: bool,
    delay_secs: u64,
)
    ensures
        match preselected(monitors, focused) {
            Some(index) => focused is Some && exists|i: int|
                0 <= i < monitors.len() && #[trigger] monitors[i].connector == focused
                    && monitors[i].index == index,
            None => focused is Some ==> forall|i: int|
                0 <= i < monitors.len() ==> #[trigger] monitors[i].connector != focused,
        },
        match pick_of_active(window) {
            Some(p) => window.at == Some((p.rect.x, p.rect.y)) && window.size == Some(
                (p.rect.w, p.rect.h),
            ) && p.title == window.title && p.class == window.class,
            None => window.at is None || window.size is None,
        },
        ({
            let state = SharedSelectionView::<N>::initial(
                cursor,
                delay_secs,
                preselected(monitors, focused),
                pick_of_active(window),
            );
            &&& state.mode == ModeKind::Screen && state.cursor == cursor && state.delay_secs
                == delay_secs
            &&& state.selected_monitor == preselected(monitors, focused) && state.selected_window
                == pick_of_active(window)
            &&& state.owner is None && state.hover_window is None && state.hover_monitor is None
        }),
{
    if let Some(name) = focused {
        lemma_index_named(monitors, name, 0);
    }
}

/// What a monitor shows tells what is selected on it. A dragged rectangle is left bright and
/// outlined on its own monitor only; in Screen mode the selected monitor, and the one under the
/// pointer, are bright and outlined, the selected one more boldly.
pub proof fn a_monitor_shows_what_is_selected<N>(
    state: SharedSelectionView<N>,
    monitor: usize,
    origin: Option<(i32, i32)>,
    dragged: Option<(i32, i32)>,
)
    ensures
        ({
            let shown = mode_chrome(state, monitor, origin, dragged);
            &&& shown.len() >= 2
            &&& state.mode == ModeKind::Region && state.owner == Some(monitor) && dragged is Some
                ==> {
                &&& shown[0] is Around
                &&& shown[1] matches ChromeView::Outline(Outlined::Dragged, _)
                &&& shown.last() == ChromeView::Size((dragged->0).0, (dragged->0).1)
            }
            &&& state.mode == ModeKind::Region && (state.owner != Some(monitor) || dragged is None)
                ==> shown[0] == ChromeView::Fill(Shade::Full) && shown.last() == ChromeView::Hint(
                HintView::RegionEmpty,
            ) && shown.len() == 2
            &&& state.mode == ModeKind::Full ==> shown[0] == ChromeView::Fill(Shade::Light)
                && shown.last() == ChromeView::Hint(HintView::Full)
            &&& state.mode == ModeKind::Screen ==> {
                let lit = state.selected_monitor == Some(monitor) || state.hover_monitor == Some(
                    monitor,
                );
                &&& shown[0] == ChromeView::Fill(
                    if lit {
                        Shade::Light
                    } else {
                        Shade::Strong
                    },
                )
                &&& lit <==> shown.len() == 3
                &&& lit ==> (shown[1] matches ChromeView::Outline(Outlined::Monitor, width) && (width
                    > 30 <==> state.selected_monitor == Some(monitor)))
                &&& shown.last() == ChromeView::Hint(
                    if state.selected_monitor is Some {
                        HintView::ScreenSelected
                    } else {
                        HintView::ScreenPick
                    },
                )
            }
        }),
{
}

/// In Window mode the picked window is outlined where it is on the monitor, boldly, and the one
/// under the pointer more finely, but no window twice. The hint names the picked window.
pub proof fn a_picked_window_is_outlined_where_it_is<N>(
    state: SharedSelectionView<N>,
    monitor: usize,
    o: (i32, i32),
    dragged: Option<(i32, i32)>,
)
    requires
        state.mode == ModeKind::Window,
        windows_fit(state, Some(o)),
    ensures
        ({
            let shown = mode_chrome(state, monitor, Some(o), dragged);
            let n = shown.len() as int;
            let (hover, pick) = (state.hover_window, state.selected_window);
            let both = hover is Some && pick is Some && hover->0.rect != pick->0.rect;
            &&& shown[0] == ChromeView::Fill(Shade::Strong)
            &&& n == (if both {
                4int
            } else if hover is Some || pick is Some {
                3
            } else {
                2
            })
            &&& pick matches Some(p) ==> (shown[n - 2] matches ChromeView::Outline(
                Outlined::Window(r),
                width,
            ) && r.x + o.0 == p.rect.x && r.y + o.1 == p.rect.y && r.w == p.rect.w && r.h == p.rect.h
                && width == 30)
            &&& both || (hover is Some && pick is None) ==> (shown[1] matches ChromeView::Outline(
                Outlined::Window(r),
                width,
            ) && r.x + o.0 == hover->0.rect.x && r.y + o.1 == hover->0.rect.y && r.w
                == hover->0.rect.w && r.h == hover->0.rect.h && width == 20)
            &&& shown.last() matches ChromeView::Hint(hint) && match hint {
                HintView::WindowClassTitle(class, title) => pick is Some && pick->0.class == class
                    && pick->0.title == title && class.len() > 0 && title.len() > 0,
                HintView::WindowClass(class) => pick is Some && pick->0.class == class
                    && pick->0.title.len() == 0,
                HintView::WindowTitle(title) => pick is Some && pick->0.title == title
                    && pick->0.class.len() == 0,
                HintView::WindowSelected => pick is Some,
                HintView::WindowPick => pick is None,
                _ => false,
            }
        }),
{
}

/// The seconds that are left are shown on every monitor, over all the rest. A monitor that was
/// blanked shows nothing of the selector any more, so that nothing of it is captured.
pub proof fn a_blanked_monitor_shows_nothing<N>(
    overlay: SelectorOverlay,
    size: (i32, i32),
    state: SharedSelectionView<N>,
    origin: Option<(i32, i32)>,
    dragged: Option<(i32, i32)>,
)
    requires
        size.0 > 0 && size.1 > 0,
    ensures
        ({
            let shown = overlay.shown_on(size, state, origin, dragged);
            &&& overlay.blanked ==> shown.len() == 1 && shown[0] == ChromeView::Fill(Shade::Clear)
            &&& !overlay.blanked ==> {
                let chrome = mode_chrome(state, overlay.monitor_index, origin, dragged);
                &&& forall|i: int| 0 <= i < chrome.len() ==> shown[i] == chrome[i]
                &&& match overlay.countdown {
                    Some(secs) => shown.len() == chrome.len() + 1 && shown.last()
                        == ChromeView::Countdown(secs),
                    None => shown.len() == chrome.len(),
                }
            }
        }),
{
}

/// What is said of a picked window names its class and its title, as far as it has them.
pub proof fn a_hint_names_the_picked_window(p: PickedWindowView)
    ensures
        window_hint(None) is WindowPick,
        match window_hint(Some(p)) {
            HintView::WindowClassTitle(class, title) => class == p.class && title == p.title
                && class.len() > 0 && title.len() > 0,
            HintView::WindowClass(class) => class == p.class && class.len() > 0 && p.title.len()
                == 0,
            HintView::WindowTitle(title) => title == p.title && title.len() > 0 && p.class.len()
                == 0,
            HintView::WindowSelected => p.class.len() == 0 && p.title.len() == 0,
            _ => false,
        },
{
}

/// The selector's toolbar offers every mode, the cursor, the delay and the capture, starts with
/// Screen, and shows the cursor and the delay that were asked for.
pub proof fn the_selector_offers_every_mode(
    s: ToolbarSpecView,
    cursor: bool,
    delay_secs: u64,
    allow_annotate: bool,
    kind: ModeKind,
)
    requires
        is_selector_spec(s, cursor, delay_secs, allow_annotate),
    ensures
        exists|i: int| 0 <= i < s.modes.len() && (#[trigger] s.modes[i]).kind == kind,
        s.show_capture && s.show_cursor_toggle && s.show_delay_spinner,
        s.initial_mode == Some(ModeKind::Screen) && s.initial_cursor == cursor,
        delay_secs <= u32::MAX ==> s.initial_delay_secs == delay_secs,
        s.capture_shift_annotates == allow_annotate,
        s.tools.len() == 0 && !s.show_undo && !s.show_save && !s.show_clear,
{
    let i: int = match kind {
        ModeKind::Full => 0,
        ModeKind::Screen => 1,
        ModeKind::Window => 2,
        ModeKind::Region => 3,
    };
    assert(s.modes[i].kind == kind);
}

/// The wait after the windows are gone is the configured number of milliseconds, where it is a
/// number.
pub proof fn a_configured_wait_is_waited(ms: u64, text: Seq<char>)
    ensures
        grace_of(Some(digits_of(ms as nat))) == ms,
        unsigned_of(text) is None ==> grace_of(Some(text)) == grace_of(None),
        0 < grace_of(None) < 1000,
{
    a_number_is_read_back(ms);
}

/// A session starts with a toolbar that is listened to, and that shows the cursor and Screen.
pub proof fn a_session_starts_with_a_toolbar_that_is_heard<S>(
    toolbar: ToolbarView<S>,
    cursor: bool,
    delay_secs: u64,
    allow_annotate: bool,
    color: [S; 4],
    font_size: S,
)
    requires
        is_opening_toolbar(toolbar, cursor, delay_secs, allow_annotate, color, font_size),
    ensures
        toolbar.connected,
        is_mode_table(toolbar.modes),
        toolbar.cursor == Some(cursor),
        toolbar.delay is Some,
{
}

/// A monitor without an area shows nothing at all.
pub proof fn nothing_is_shown_without_an_area<N>(
    overlay: SelectorOverlay,
    size: (i32, i32),
    state: SharedSelectionView<N>,
    origin: Option<(i32, i32)>,
    dragged: Option<(i32, i32)>,
)
    requires
        size.0 <= 0 || size.1 <= 0,
    ensures
        overlay.shown_on(size, state, origin, dragged).len() == 0,
{
}

} // verus!
