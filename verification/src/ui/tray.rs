//! The tray menu.

use vstd::prelude::*;

verus! {

/// The title of the tray item.
pub const TITLE: &'static str = "HyprSnap";

/// What the user asks for in the tray menu.
#[derive(Clone, Copy, Debug, PartialEq, Eq, Structural)]
pub enum TrayAction {
    /// A screenshot to the configured sinks, to be annotated first or not.
    Screenshot { edit: bool },
    /// Drawing on the screen.
    OpenDraw,
    /// The end of the daemon.
    Quit,
}

/// A line of the tray menu.
#[derive(Clone, Copy, Debug)]
pub enum TrayItem {
    Entry { label: &'static str, icon_name: &'static str, action: TrayAction },
    Separator,
}

/// An entry with that label, that icon and that action.
pub open spec fn is_entry(
    item: TrayItem,
    label: Seq<char>,
    icon_name: Seq<char>,
    action: TrayAction,
) -> bool {
    match item {
        TrayItem::Entry { label: l, icon_name: i, action: a } => l@ == label && i@ == icon_name
            && a == action,
        TrayItem::Separator => false,
    }
}

/// The lines of the tray menu, from top to bottom.
pub open spec fn is_menu(items: Seq<TrayItem>) -> bool {
    &&& items.len() == 5
    &&& is_entry(
        items[0],
        "Screenshot (full)"@,
        "camera-photo"@,
        TrayAction::Screenshot { edit: false },
    )
    &&& is_entry(
        items[1],
        "Annotate region…"@,
        "edit-cut"@,
        TrayAction::Screenshot { edit: true },
    )
    &&& is_entry(items[2], "Draw on screen"@, "draw-freehand"@, TrayAction::OpenDraw)
    &&& items[3] is Separator
    &&& is_entry(items[4], "Quit"@, "application-exit"@, TrayAction::Quit)
}

/// The tray menu, from top to bottom.
pub fn menu() -> (res: Vec<TrayItem>)
    ensures
        is_menu(res@),
{
    let mut items: Vec<TrayItem> = Vec::new();
    items.push(
        TrayItem::Entry {
            label: "Screenshot (full)",
            icon_name: "camera-photo",
            action: TrayAction::Screenshot { edit: false },
        },
    );
    items.push(
        TrayItem::Entry {
            label: "Annotate region…",
            icon_name: "edit-cut",
            action: TrayAction::Screenshot { edit: true },
        },
    );
    items.push(
        TrayItem::Entry {
            label: "Draw on screen",
            icon_name: "draw-freehand",
            action: TrayAction::OpenDraw,
        },
    );
    items.push(TrayItem::Separator);
    items.push(
        TrayItem::Entry {
            label: "Quit",
            icon_name: "application-exit",
            action: TrayAction::Quit,
        },
    );
    items
}

/// Each action stands in the menu exactly once. The end of the daemon is the last line, apart
/// from the others.
pub proof fn every_action_is_in_the_menu(items: Seq<TrayItem>, action: TrayAction)
    requires
        is_menu(items),
    ensures
        exists|i: int|
            0 <= i < items.len() && (#[trigger] items[i] matches TrayItem::Entry { action: a, .. }
                && a == action),
        forall|i: int, j: int|
            0 <= i < j < items.len() && #[trigger] items[i] is Entry && #[trigger] items[j] is Entry
                ==> items[i]->action != items[j]->action,
        items.last() matches TrayItem::Entry { action: a, .. } && a == TrayAction::Quit,
        items[items.len() - 2] is Separator,
{
    let i: int = match action {
        TrayAction::Screenshot { edit: false } => 0,
        TrayAction::Screenshot { edit: true } => 1,
        TrayAction::OpenDraw => 2,
        TrayAction::Quit => 4,
    };
    assert(items[i] is Entry && items[i]->action == action);
}

} // verus!
