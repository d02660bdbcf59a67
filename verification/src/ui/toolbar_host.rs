//! Which monitor has the toolbar. One toolbar serves all monitors: it follows the focus from
//! window to window.

use crate::strings::same_text;
use vstd::prelude::*;

verus! {

use crate::strings::text_of;

/// A window that the toolbar can be on.
#[derive(Debug)]
pub struct HostWindow {
    /// The index of the window's monitor.
    pub index: usize,
    /// The name of the window's monitor.
    pub connector: Option<String>,
}

/// The contents of a [`HostWindow`].
pub struct HostWindowView {
    pub index: usize,
    pub connector: Option<Seq<char>>,
}

impl View for HostWindow {
    type V = HostWindowView;

    open spec fn view(&self) -> HostWindowView {
        HostWindowView { index: self.index, connector: text_of(self.connector) }
    }
}

/// The windows, and the one that has the toolbar.
#[derive(Debug)]
pub struct ToolbarHost {
    pub windows: Vec<HostWindow>,
    /// The place among the windows.
    pub current: Option<usize>,
}

/// The contents of a [`ToolbarHost`].
#[verifier::ext_equal]
pub struct ToolbarHostView {
    pub windows: Seq<HostWindowView>,
    pub current: Option<usize>,
}

pub open spec fn window_views(windows: Seq<HostWindow>) -> Seq<HostWindowView> {
    windows.map_values(|w: HostWindow| w@)
}

impl View for ToolbarHost {
    type V = ToolbarHostView;

    open spec fn view(&self) -> ToolbarHostView {
        ToolbarHostView { windows: window_views(self.windows@), current: self.current }
    }
}

/// The place of the first window, from `from` on, whose monitor has the name.
pub open spec fn place_named(windows: Seq<HostWindowView>, name: Seq<char>, from: int) -> Option<
    usize,
>
    decreases windows.len() - from,
{
    if from < 0 || from >= windows.len() {
        None
    } else if windows[from].connector == Some(name) {
        Some(from as usize)
    } else {
        place_named(windows, name, from + 1)
    }
}

/// The name of a focused monitor.
pub open spec fn focus_name(focused: Option<&str>) -> Option<Seq<char>> {
    match focused {
        Some(name) => Some(name@),
        None => None,
    }
}

impl ToolbarHostView {
    /// The toolbar is nowhere, or on one of the windows.
    pub open spec fn wf(self) -> bool {
        self.current matches Some(i) ==> i < self.windows.len()
    }

    /// The index of the monitor that the toolbar is on.
    pub open spec fn hosting(self) -> Option<usize> {
        match self.current {
            Some(i) => Some(self.windows[i as int].index),
            None => None,
        }
    }

    /// The window of the focused monitor, if the focus is known and there is such a window.
    pub open spec fn focused(self, focused: Option<Seq<char>>) -> Option<usize> {
        match focused {
            Some(name) => place_named(self.windows, name, 0),
            None => None,
        }
    }

    /// The toolbar starts on the focused monitor, or else on the first one.
    pub open spec fn placed(self, focused: Option<Seq<char>>) -> ToolbarHostView {
        ToolbarHostView {
            current: match self.focused(focused) {
                Some(i) => Some(i),
                None => if self.windows.len() > 0 {
                    Some(0)
                } else {
                    None
                },
            },
            ..self
        }
    }

    /// The toolbar goes to the focused monitor, and stays where it is when the focus is unknown
    /// or on a monitor without a window.
    pub open spec fn moved(self, focused: Option<Seq<char>>) -> ToolbarHostView {
        ToolbarHostView {
            current: match self.focused(focused) {
                Some(i) => Some(i),
                None => self.current,
            },
            ..self
        }
    }
}

impl ToolbarHost {
    /// A toolbar without any window.
    pub fn new() -> (res: ToolbarHost)
        ensures
            res@ == (ToolbarHostView { windows: Seq::empty(), current: None }),
            res@.wf(),
    {
        let res = ToolbarHost { windows: Vec::new(), current: None };
        assert(res@.windows =~= Seq::empty());
        res
    }

    /// Adds the window of a monitor.
    pub fn register(&mut self, index: usize, connector: Option<String>)
        requires
            old(self)@.wf(),
        ensures
            final(self)@.wf(),
            final(self)@ == (ToolbarHostView {
                windows: old(self)@.windows.push(
                    HostWindowView { index, connector: text_of(connector) },
                ),
                ..old(self)@
            }),
    {
        self.windows.push(HostWindow { index, connector });
        assert(self@.windows =~= old(self)@.windows.push(
            HostWindowView { index, connector: text_of(connector) },
        ));
    }

    fn find(&self, focused: Option<&str>) -> (res: Option<usize>)
        ensures
            res == self@.focused(focus_name(focused)),
            res matches Some(i) ==> i < self@.windows.len(),
    {
        let name = match focused {
            Some(name) => name,
            None => {
                return None;
            },
        };
        for i in 0..self.windows.len()
            invariant
                focused == Some(name),
                place_named(self@.windows, name@, 0) == place_named(
                    self@.windows,
                    name@,
                    i as int,
                ),
        {
            assert(self@.windows[i as int] == self.windows@[i as int]@);
            if let Some(connector) = &self.windows[i].connector {
                if same_text(connector.as_str(), name) {
                    return Some(i);
                }
            }
        }
        None
    }

    /// Puts the toolbar on its first window.
    pub fn place_initial(&mut self, focused: Option<&str>)
        requires
            old(self)@.wf(),
        ensures
            final(self)@.wf(),
            final(self)@ == old(self)@.placed(focus_name(focused)),
    {
        let place = self.find(focused);
        self.current = match place {
            Some(i) => Some(i),
            None => if self.windows.len() > 0 {
                Some(0)
            } else {
                None
            },
        };
    }

    /// The focus has gone to a monitor. `true` when the toolbar has to move there.
    pub fn move_to_connector(&mut self, focused: Option<&str>) -> (res: bool)
        requires
            old(self)@.wf(),
        ensures
            final(self)@.wf(),
            final(self)@ == old(self)@.moved(focus_name(focused)),
            res == (final(self)@.current != old(self)@.current),
    {
        match self.find(focused) {
            Some(i) => {
                let stays: bool = match self.current {
                    Some(at) => at == i,
                    None => false,
                };
                self.current = Some(i);
                !stays
            },
            None => false,
        }
    }

    /// The index of the monitor that has the toolbar.
    pub fn current_index(&self) -> (res: Option<usize>)
        requires
            self@.wf(),
        ensures
            res == self@.hosting(),
    {
        match self.current {
            Some(i) => {
                assert(self@.windows[i as int] == self.windows@[i as int]@);
                Some(self.windows[i].index)
            },
            None => None,
        }
    }
}

// ---- laws ----------------------------------------------------------------------------------
/// Once it is placed, the toolbar is on some window whatever the focus does, as long as there
/// is a window at all.
pub proof fn a_placed_toolbar_stays_somewhere(
    host: ToolbarHostView,
    first: Option<Seq<char>>,
    then: Option<Seq<char>>,
)
    requires
        host.windows.len() > 0,
    ensures
        host.placed(first).current is Some,
        host.placed(first).moved(then).current is Some,
{
}

/// Only the last known focus matters: coming back to a monitor brings the toolbar back.
pub proof fn the_toolbar_comes_back_with_the_focus(
    host: ToolbarHostView,
    here: Option<Seq<char>>,
    there: Option<Seq<char>>,
)
    requires
        host.focused(here) is Some,
    ensures
        host.moved(here).moved(there).moved(here) == host.moved(here),
{
}

/// The toolbar goes to the first window on the focused monitor. Where no window is on it, a
/// toolbar that is placed goes to the first window, and one that is already shown stays.
pub proof fn the_toolbar_goes_to_the_focused_monitor(host: ToolbarHostView, name: Seq<char>, i: int)
    requires
        0 <= i < host.windows.len() <= usize::MAX,
        forall|j: int|
            0 <= j < i ==> (#[trigger] host.windows[j]).connector != Some(name),
    ensures
        host.windows[i].connector == Some(name) ==> host.placed(Some(name)).current == Some(
            i as usize,
        ) && host.moved(Some(name)).current == Some(i as usize) && host.moved(Some(name)).hosting()
            == Some(host.windows[i].index),
        i == host.windows.len() - 1 && host.windows[i].connector != Some(name) ==> host.placed(
            Some(name),
        ).current == Some(0usize) && host.moved(Some(name)) == host,
        host.placed(None).current == Some(0usize) && host.moved(None) == host,
        host.placed(Some(name)).windows == host.windows && host.moved(Some(name)).windows
            == host.windows,
{
    lemma_place_named(host.windows, name, 0, i);
}

proof fn lemma_place_named(windows: Seq<HostWindowView>, name: Seq<char>, from: int, i: int)
    requires
        0 <= from <= i < windows.len() <= usize::MAX,
        forall|j: int| 0 <= j < i ==> (#[trigger] windows[j]).connector != Some(name),
    ensures
        windows[i].connector == Some(name) ==> place_named(windows, name, from) == Some(i as usize),
        windows[i].connector != Some(name) ==> place_named(windows, name, from) == place_named(
            windows,
            name,
            i + 1,
        ),
    decreases i - from,
{
    if from < i {
        lemma_place_named(windows, name, from + 1, i);
    }
}

} // verus!
