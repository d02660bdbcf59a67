//! The toolbar shared by the selector, the editor and the drawing overlay: which controls it
//! shows and in what order, which keys drive them, and which actions they send.
//!
//! The toolbar owns no annotation: it keeps the state of its own controls and hands actions to
//! its listener. `S` is a color channel or a font size.

use vstd::prelude::*;

use crate::strings::{char_eq_ignoring_case, same_text};
use crate::ui::keys::{
    Key, Modifiers, KEY_KP_ENTER, KEY_RETURN, KEY_SHIFT_L, KEY_SHIFT_R,
};
use crate::ui::tools::{FontSize, StrokeStyle, ToolKind};

verus! {

use crate::strings::{same_char_ignoring_case, text_of};

/// The longest delay before a capture, in seconds.
pub const DELAY_MAX: u32 = 60;

/// What a click with the primary button, or one notch of the wheel, adds to the delay.
pub const DELAY_STEP_PRIMARY: i32 = 1;

/// What a click with the secondary button adds to the delay.
pub const DELAY_STEP_SECONDARY: i32 = 5;

/// The font size that the spinner shows at first, in points.
pub const FONT_SIZE_INITIAL: u32 = 18;

/// The smallest font size of the spinner, in points.
pub const FONT_SIZE_MIN: u32 = 6;

/// The largest font size of the spinner, in points.
pub const FONT_SIZE_MAX: u32 = 200;

/// How often the window of the color dialog is looked for again.
pub const COLOR_DIALOG_TRIES: u32 = 3;

/// The side of a square in the checkerboard behind the color swatch, in pixels.
pub const SWATCH_CELL: u32 = 4;

/// What the selector picks.
#[derive(Clone, Copy, Debug, PartialEq, Eq, Hash, Structural)]
pub enum ModeKind {
    Full,
    Screen,
    Window,
    Region,
}

impl Default for ModeKind {
    fn default() -> (res: ModeKind)
        ensures
            res == ModeKind::Screen,
    {
        ModeKind::Screen
    }
}

/// The configured mode in which the selector opens.
#[derive(Clone, Copy, Debug, PartialEq, Eq, Structural)]
pub enum InitialMode {
    Full,
    Screen,
    Window,
    Region,
}

impl Default for InitialMode {
    fn default() -> (res: InitialMode)
        ensures
            res == InitialMode::Screen,
    {
        InitialMode::Screen
    }
}

impl From<InitialMode> for ModeKind {
    fn from(value: InitialMode) -> (res: ModeKind) {
        match value {
            InitialMode::Full => ModeKind::Full,
            InitialMode::Screen => ModeKind::Screen,
            InitialMode::Window => ModeKind::Window,
            InitialMode::Region => ModeKind::Region,
        }
    }
}

impl vstd::std_specs::convert::FromSpecImpl<InitialMode> for ModeKind {
    open spec fn obeys_from_spec() -> bool {
        true
    }

    open spec fn from_spec(value: InitialMode) -> ModeKind {
        match value {
            InitialMode::Full => ModeKind::Full,
            InitialMode::Screen => ModeKind::Screen,
            InitialMode::Window => ModeKind::Window,
            InitialMode::Region => ModeKind::Region,
        }
    }
}

/// A tool button.
#[derive(Clone, Copy, Debug)]
pub struct ToolEntry {
    pub kind: ToolKind,
    pub label: &'static str,
    pub key: Key,
    pub icon: &'static str,
}

/// A mode button.
#[derive(Clone, Copy, Debug)]
pub struct ModeEntry {
    pub kind: ModeKind,
    pub label: &'static str,
    pub key: Key,
    pub icon: &'static str,
}

/// The tool of a button, its label, its key and its icon.
pub open spec fn tool_row(
    entry: ToolEntry,
    kind: ToolKind,
    label: Seq<char>,
    key: char,
    icon: Seq<char>,
) -> bool {
    entry.kind == kind && entry.label@ == label && entry.key == Key::of_char(key) && entry.icon@
        == icon
}

/// The mode of a button, its label, its key and its icon.
pub open spec fn mode_row(
    entry: ModeEntry,
    kind: ModeKind,
    label: Seq<char>,
    key: char,
    icon: Seq<char>,
) -> bool {
    entry.kind == kind && entry.label@ == label && entry.key == Key::of_char(key) && entry.icon@
        == icon
}

/// The first buttons of a table are those of the drawing tools that need no captured picture.
pub open spec fn starts_with_drawing_tools(table: Seq<ToolEntry>) -> bool {
    &&& table.len() >= 10
    &&& tool_row(table[0], ToolKind::Rect, "Rectangle"@, 'r', "draw-rectangle-symbolic"@)
    &&& tool_row(table[1], ToolKind::Ellipse, "Ellipse"@, 'o', "draw-oval2-symbolic"@)
    &&& tool_row(table[2], ToolKind::Arrow, "Arrow"@, 'a', "arrow1-top-right-symbolic"@)
    &&& tool_row(table[3], ToolKind::Line, "Line"@, 'l', "draw-line-symbolic"@)
    &&& tool_row(table[4], ToolKind::Highlight, "Highlight"@, 'h', "marker-symbolic"@)
    &&& tool_row(table[5], ToolKind::Freehand, "Freehand"@, 'f', "document-edit-symbolic"@)
    &&& tool_row(table[6], ToolKind::Number, "Number"@, 'n', "lang-define-symbolic"@)
    &&& tool_row(table[7], ToolKind::Text, "Text"@, 't', "text-insert-symbolic"@)
    &&& tool_row(table[8], ToolKind::Blur, "Blur"@, 'b', "blend-tool-symbolic"@)
    &&& tool_row(table[9], ToolKind::Redact, "Redact"@, 'x', "screen-privacy7-symbolic"@)
}

/// The buttons of the drawing overlay.
pub open spec fn is_overlay_table(table: Seq<ToolEntry>) -> bool {
    table.len() == 10 && starts_with_drawing_tools(table)
}

/// The buttons of the editor: those of the overlay, and Crop.
pub open spec fn is_editor_table(table: Seq<ToolEntry>) -> bool {
    &&& table.len() == 11
    &&& starts_with_drawing_tools(table)
    &&& tool_row(table[10], ToolKind::Crop, "Crop"@, 'c', "ui-crop-to-selection-symbolic"@)
}

/// The buttons of the selector.
pub open spec fn is_mode_table(table: Seq<ModeEntry>) -> bool {
    &&& table.len() == 4
    &&& mode_row(table[0], ModeKind::Full, "Full"@, '1', "view-fullscreen-symbolic"@)
    &&& mode_row(table[1], ModeKind::Screen, "Screen"@, '2', "video-display-symbolic"@)
    &&& mode_row(table[2], ModeKind::Window, "Window"@, '3', "overlapping-windows-symbolic"@)
    &&& mode_row(table[3], ModeKind::Region, "Region"@, '4', "tool-select-rectangle-symbolic"@)
}

fn tool_entry(kind: ToolKind, label: &'static str, key: char, icon: &'static str) -> (res:
    ToolEntry)
    requires
        key as u32 <= 0x7f,
    ensures
        tool_row(res, kind, label@, key, icon@),
{
    ToolEntry { kind, label, key: Key::from_char(key), icon }
}

fn mode_entry(kind: ModeKind, label: &'static str, key: char, icon: &'static str) -> (res:
    ModeEntry)
    requires
        key as u32 <= 0x7f,
    ensures
        mode_row(res, kind, label@, key, icon@),
{
    ModeEntry { kind, label, key: Key::from_char(key), icon }
}

/// The tools of the drawing overlay. Crop is none of them: there is no captured picture to
/// crop.
pub fn overlay_tools() -> (res: Vec<ToolEntry>)
    ensures
        is_overlay_table(res@),
{
    let mut table: Vec<ToolEntry> = Vec::new();
    table.push(tool_entry(ToolKind::Rect, "Rectangle", 'r', "draw-rectangle-symbolic"));
    table.push(tool_entry(ToolKind::Ellipse, "Ellipse", 'o', "draw-oval2-symbolic"));
    table.push(tool_entry(ToolKind::Arrow, "Arrow", 'a', "arrow1-top-right-symbolic"));
    table.push(tool_entry(ToolKind::Line, "Line", 'l', "draw-line-symbolic"));
    table.push(tool_entry(ToolKind::Highlight, "Highlight", 'h', "marker-symbolic"));
    table.push(tool_entry(ToolKind::Freehand, "Freehand", 'f', "document-edit-symbolic"));
    table.push(tool_entry(ToolKind::Number, "Number", 'n', "lang-define-symbolic"));
    table.push(tool_entry(ToolKind::Text, "Text", 't', "text-insert-symbolic"));
    table.push(tool_entry(ToolKind::Blur, "Blur", 'b', "blend-tool-symbolic"));
    table.push(tool_entry(ToolKind::Redact, "Redact", 'x', "screen-privacy7-symbolic"));
    table
}

/// The tools of the editor: those of the overlay, and Crop.
pub fn editor_tools() -> (res: Vec<ToolEntry>)
    ensures
        is_editor_table(res@),
{
    let mut table: Vec<ToolEntry> = overlay_tools();
    table.push(tool_entry(ToolKind::Crop, "Crop", 'c', "ui-crop-to-selection-symbolic"));
    table
}

/// The modes of the selector.
pub fn selector_modes() -> (res: Vec<ModeEntry>)
    ensures
        is_mode_table(res@),
{
    let mut table: Vec<ModeEntry> = Vec::new();
    table.push(mode_entry(ModeKind::Full, "Full", '1', "view-fullscreen-symbolic"));
    table.push(mode_entry(ModeKind::Screen, "Screen", '2', "video-display-symbolic"));
    table.push(mode_entry(ModeKind::Window, "Window", '3', "overlapping-windows-symbolic"));
    table.push(mode_entry(ModeKind::Region, "Region", '4', "tool-select-rectangle-symbolic"));
    table
}

/// The identifier of the message that names a tool. Selecting has no button, and no name.
pub open spec fn tool_message(kind: ToolKind) -> Option<Seq<char>> {
    match kind {
        ToolKind::Rect => Some("toolbar-tool-rect"@),
        ToolKind::Ellipse => Some("toolbar-tool-ellipse"@),
        ToolKind::Arrow => Some("toolbar-tool-arrow"@),
        ToolKind::Line => Some("toolbar-tool-line"@),
        ToolKind::Highlight => Some("toolbar-tool-highlight"@),
        ToolKind::Freehand => Some("toolbar-tool-freehand"@),
        ToolKind::Number => Some("toolbar-tool-number"@),
        ToolKind::Text => Some("toolbar-tool-text"@),
        ToolKind::Blur => Some("toolbar-tool-blur"@),
        ToolKind::Redact => Some("toolbar-tool-redact"@),
        ToolKind::Crop => Some("toolbar-tool-crop"@),
        ToolKind::Select => None,
    }
}

/// The identifier of the message shown as the tooltip of a tool.
pub fn tool_label(kind: ToolKind) -> (res: Option<&'static str>)
    ensures
        match res {
            Some(id) => tool_message(kind) == Some(id@),
            None => tool_message(kind) is None,
        },
{
    match kind {
        ToolKind::Rect => Some("toolbar-tool-rect"),
        ToolKind::Ellipse => Some("toolbar-tool-ellipse"),
        ToolKind::Arrow => Some("toolbar-tool-arrow"),
        ToolKind::Line => Some("toolbar-tool-line"),
        ToolKind::Highlight => Some("toolbar-tool-highlight"),
        ToolKind::Freehand => Some("toolbar-tool-freehand"),
        ToolKind::Number => Some("toolbar-tool-number"),
        ToolKind::Text => Some("toolbar-tool-text"),
        ToolKind::Blur => Some("toolbar-tool-blur"),
        ToolKind::Redact => Some("toolbar-tool-redact"),
        ToolKind::Crop => Some("toolbar-tool-crop"),
        ToolKind::Select => None,
    }
}

/// The identifier of the message that names a mode.
pub open spec fn mode_message(kind: ModeKind) -> Seq<char> {
    match kind {
        ModeKind::Full => "toolbar-mode-full"@,
        ModeKind::Screen => "toolbar-mode-screen"@,
        ModeKind::Window => "toolbar-mode-window"@,
        ModeKind::Region => "toolbar-mode-region"@,
    }
}

/// The identifier of the message shown as the tooltip of a mode.
pub fn mode_label(kind: ModeKind) -> (res: &'static str)
    ensures
        res@ == mode_message(kind),
{
    match kind {
        ModeKind::Full => "toolbar-mode-full",
        ModeKind::Screen => "toolbar-mode-screen",
        ModeKind::Window => "toolbar-mode-window",
        ModeKind::Region => "toolbar-mode-region",
    }
}

// ---- what a toolbar shows ------------------------------------------------------------------
/// What a toolbar offers. The controls appear in this order: modes, tools, the pickers of
/// color, stroke style and font size, and after a spacer the actions.
#[derive(Debug)]
pub struct ToolbarSpec {
    pub tools: Vec<ToolEntry>,
    pub modes: Vec<ModeEntry>,
    pub show_undo: bool,
    pub show_clear: bool,
    pub show_save: bool,
    pub show_capture: bool,
    /// Shift turns a capture into an annotation.
    pub capture_shift_annotates: bool,
    pub show_cursor_toggle: bool,
    pub show_passthrough_toggle: bool,
    pub show_delay_spinner: bool,
    pub show_color_picker: bool,
    pub show_style_picker: bool,
    pub show_font_size_picker: bool,
    pub initial_tool: Option<ToolKind>,
    pub initial_mode: Option<ModeKind>,
    pub initial_cursor: bool,
    pub initial_passthrough: bool,
    pub initial_delay_secs: u32,
}

/// A `ToolbarSpec` with its tables as sequences.
pub struct ToolbarSpecView {
    pub tools: Seq<ToolEntry>,
    pub modes: Seq<ModeEntry>,
    pub show_undo: bool,
    pub show_clear: bool,
    pub show_save: bool,
    pub show_capture: bool,
    pub capture_shift_annotates: bool,
    pub show_cursor_toggle: bool,
    pub show_passthrough_toggle: bool,
    pub show_delay_spinner: bool,
    pub show_color_picker: bool,
    pub show_style_picker: bool,
    pub show_font_size_picker: bool,
    pub initial_tool: Option<ToolKind>,
    pub initial_mode: Option<ModeKind>,
    pub initial_cursor: bool,
    pub initial_passthrough: bool,
    pub initial_delay_secs: u32,
}

impl View for ToolbarSpec {
    type V = ToolbarSpecView;

    open spec fn view(&self) -> ToolbarSpecView {
        ToolbarSpecView {
            tools: self.tools@,
            modes: self.modes@,
            show_undo: self.show_undo,
            show_clear: self.show_clear,
            show_save: self.show_save,
            show_capture: self.show_capture,
            capture_shift_annotates: self.capture_shift_annotates,
            show_cursor_toggle: self.show_cursor_toggle,
            show_passthrough_toggle: self.show_passthrough_toggle,
            show_delay_spinner: self.show_delay_spinner,
            show_color_picker: self.show_color_picker,
            show_style_picker: self.show_style_picker,
            show_font_size_picker: self.show_font_size_picker,
            initial_tool: self.initial_tool,
            initial_mode: self.initial_mode,
            initial_cursor: self.initial_cursor,
            initial_passthrough: self.initial_passthrough,
            initial_delay_secs: self.initial_delay_secs,
        }
    }
}

impl ToolbarSpecView {
    /// A toolbar with no control. Shift annotates as soon as there is a capture button.
    pub open spec fn nothing() -> ToolbarSpecView {
        ToolbarSpecView {
            tools: Seq::empty(),
            modes: Seq::empty(),
            show_undo: false,
            show_clear: false,
            show_save: false,
            show_capture: false,
            capture_shift_annotates: true,
            show_cursor_toggle: false,
            show_passthrough_toggle: false,
            show_delay_spinner: false,
            show_color_picker: false,
            show_style_picker: false,
            show_font_size_picker: false,
            initial_tool: None,
            initial_mode: None,
            initial_cursor: false,
            initial_passthrough: false,
            initial_delay_secs: 0,
        }
    }

    /// Some control follows the spacer.
    pub open spec fn has_actions(self) -> bool {
        self.show_undo || self.show_clear || self.show_save || self.show_capture
            || self.show_cursor_toggle || self.show_passthrough_toggle || self.show_delay_spinner
    }
}

impl ToolbarSpec {
    /// A toolbar with no control.
    pub fn empty() -> (res: ToolbarSpec)
        ensures
            res@ == ToolbarSpecView::nothing(),
    {
        let res = ToolbarSpec {
            tools: Vec::new(),
            modes: Vec::new(),
            show_undo: false,
            show_clear: false,
            show_save: false,
            show_capture: false,
            capture_shift_annotates: true,
            show_cursor_toggle: false,
            show_passthrough_toggle: false,
            show_delay_spinner: false,
            show_color_picker: false,
            show_style_picker: false,
            show_font_size_picker: false,
            initial_tool: None,
            initial_mode: None,
            initial_cursor: false,
            initial_passthrough: false,
            initial_delay_secs: 0,
        };
        assert(res@.tools =~= Seq::empty());
        assert(res@.modes =~= Seq::empty());
        res
    }
}

impl Default for ToolbarSpec {
    fn default() -> (res: ToolbarSpec)
        ensures
            res@ == ToolbarSpecView::nothing(),
    {
        ToolbarSpec::empty()
    }
}

/// A control of the toolbar, or what stands between two of them. Modes and tools are given by
/// their place in the tables.
#[derive(Clone, Copy, Debug, PartialEq, Eq, Structural)]
pub enum ToolbarItem {
    Mode(usize),
    Separator,
    Tool(usize),
    ColorPicker,
    StylePicker,
    FontSizePicker,
    Spacer,
    Undo,
    Clear,
    CursorToggle,
    Delay,
    PassthroughToggle,
    Save,
    Capture,
}

/// What a shortcut does.
#[derive(Clone, Copy, Debug, PartialEq, Eq, Structural)]
pub enum ShortcutAction {
    Tool(ToolKind),
    Mode(ModeKind),
    Cursor,
    Passthrough,
    Undo,
    Clear,
    Save,
    Capture,
    Annotate,
}

/// A key, the modifiers that must be held with it, and what it does.
#[derive(Clone, Copy, Debug, PartialEq, Eq, Structural)]
pub struct Shortcut {
    pub key: Key,
    pub modifiers: Modifiers,
    pub action: ShortcutAction,
}

pub open spec fn only_if<A>(shown: bool, item: A) -> Seq<A> {
    if shown {
        seq![item]
    } else {
        Seq::empty()
    }
}

/// One button per mode.
pub open spec fn mode_items(count: nat) -> Seq<ToolbarItem> {
    Seq::new(count, |i: int| ToolbarItem::Mode(i as usize))
}

/// One button per tool.
pub open spec fn tool_items(count: nat) -> Seq<ToolbarItem> {
    Seq::new(count, |i: int| ToolbarItem::Tool(i as usize))
}

/// The pickers. A separator stands before the first of them when there are tools.
pub open spec fn picker_items(s: ToolbarSpecView) -> Seq<ToolbarItem> {
    let some = s.show_color_picker || s.show_style_picker || s.show_font_size_picker;
    only_if(some && s.tools.len() > 0, ToolbarItem::Separator) + only_if(
        s.show_color_picker,
        ToolbarItem::ColorPicker,
    ) + only_if(s.show_style_picker, ToolbarItem::StylePicker) + only_if(
        s.show_font_size_picker,
        ToolbarItem::FontSizePicker,
    )
}

/// The actions.
pub open spec fn action_items(s: ToolbarSpecView) -> Seq<ToolbarItem> {
    only_if(s.show_undo, ToolbarItem::Undo) + only_if(s.show_clear, ToolbarItem::Clear) + only_if(
        s.show_cursor_toggle,
        ToolbarItem::CursorToggle,
    ) + only_if(s.show_delay_spinner, ToolbarItem::Delay) + only_if(
        s.show_passthrough_toggle,
        ToolbarItem::PassthroughToggle,
    ) + only_if(s.show_save, ToolbarItem::Save) + only_if(s.show_capture, ToolbarItem::Capture)
}

/// Everything the toolbar shows, from left to right.
pub open spec fn toolbar_items(s: ToolbarSpecView) -> Seq<ToolbarItem> {
    mode_items(s.modes.len()) + only_if(
        s.modes.len() > 0 && s.tools.len() > 0,
        ToolbarItem::Separator,
    ) + tool_items(s.tools.len()) + picker_items(s) + only_if(
        s.has_actions() && (s.modes.len() > 0 || s.tools.len() > 0),
        ToolbarItem::Spacer,
    ) + action_items(s)
}

pub open spec fn with_control() -> Modifiers {
    Modifiers { control: true, ..Modifiers::no_modifiers() }
}

pub open spec fn with_shift() -> Modifiers {
    Modifiers { shift: true, ..Modifiers::no_modifiers() }
}

pub open spec fn plain_key(code: u32) -> Key {
    Key { code, unicode: None }
}

/// The two Enter keys, with the same modifiers, for the same action.
pub open spec fn enter_shortcuts(modifiers: Modifiers, action: ShortcutAction) -> Seq<Shortcut> {
    seq![
        Shortcut { key: plain_key(KEY_RETURN), modifiers, action },
        Shortcut { key: plain_key(KEY_KP_ENTER), modifiers, action },
    ]
}

/// The key of each mode, without modifiers.
pub open spec fn mode_shortcuts(modes: Seq<ModeEntry>) -> Seq<Shortcut> {
    modes.map_values(
        |e: ModeEntry|
            Shortcut {
                key: e.key,
                modifiers: Modifiers::no_modifiers(),
                action: ShortcutAction::Mode(e.kind),
            },
    )
}

/// The key of each tool, without modifiers.
pub open spec fn tool_shortcuts(tools: Seq<ToolEntry>) -> Seq<Shortcut> {
    tools.map_values(
        |e: ToolEntry|
            Shortcut {
                key: e.key,
                modifiers: Modifiers::no_modifiers(),
                action: ShortcutAction::Tool(e.kind),
            },
    )
}

/// The keys of the actions: Ctrl+Z undoes, Ctrl+L clears, P toggles passthrough, Ctrl+S and
/// Enter save, Enter captures, and Shift+Enter annotates where Shift may.
pub open spec fn action_shortcuts(s: ToolbarSpecView) -> Seq<Shortcut> {
    let none = Modifiers::no_modifiers();
    let undo = Shortcut {
        key: Key::of_char('z'),
        modifiers: with_control(),
        action: ShortcutAction::Undo,
    };
    let clear = Shortcut {
        key: Key::of_char('l'),
        modifiers: with_control(),
        action: ShortcutAction::Clear,
    };
    let passthrough = Shortcut {
        key: Key::of_char('p'),
        modifiers: none,
        action: ShortcutAction::Passthrough,
    };
    let save = Shortcut {
        key: Key::of_char('s'),
        modifiers: with_control(),
        action: ShortcutAction::Save,
    };
    only_if(s.show_undo, undo) + only_if(s.show_clear, clear) + only_if(
        s.show_passthrough_toggle,
        passthrough,
    ) + (if s.show_save {
        seq![save] + enter_shortcuts(none, ShortcutAction::Save)
    } else {
        Seq::empty()
    }) + (if s.show_capture {
        enter_shortcuts(none, ShortcutAction::Capture) + (if s.capture_shift_annotates {
            enter_shortcuts(with_shift(), ShortcutAction::Annotate)
        } else {
            Seq::empty()
        })
    } else {
        Seq::empty()
    })
}

/// All shortcuts, in the order in which they are tried.
pub open spec fn toolbar_shortcuts(s: ToolbarSpecView) -> Seq<Shortcut> {
    mode_shortcuts(s.modes) + tool_shortcuts(s.tools) + action_shortcuts(s)
}

/// The place of the last tool of a kind among the first `n`.
pub open spec fn last_tool(tools: Seq<ToolEntry>, kind: ToolKind, n: nat) -> Option<usize>
    decreases n,
{
    if n == 0 {
        None
    } else if tools[n - 1].kind == kind {
        Some((n - 1) as usize)
    } else {
        last_tool(tools, kind, (n - 1) as nat)
    }
}

/// The place of the last mode of a kind among the first `n`.
pub open spec fn last_mode(modes: Seq<ModeEntry>, kind: ModeKind, n: nat) -> Option<usize>
    decreases n,
{
    if n == 0 {
        None
    } else if modes[n - 1].kind == kind {
        Some((n - 1) as usize)
    } else {
        last_mode(modes, kind, (n - 1) as nat)
    }
}

/// The button that is down when a tool has been set: of equal ones the last.
pub open spec fn button_of_tool(tools: Seq<ToolEntry>, kind: ToolKind) -> Option<usize> {
    last_tool(tools, kind, tools.len())
}

/// The button that is down when a mode has been set: of equal ones the last.
pub open spec fn button_of_mode(modes: Seq<ModeEntry>, kind: ModeKind) -> Option<usize> {
    last_mode(modes, kind, modes.len())
}

fn find_tool(tools: &Vec<ToolEntry>, kind: ToolKind) -> (res: Option<usize>)
    ensures
        res == button_of_tool(tools@, kind),
        res matches Some(i) ==> i < tools@.len(),
{
    let mut found: Option<usize> = None;
    for i in 0..tools.len()
        invariant
            found == last_tool(tools@, kind, i as nat),
            found matches Some(j) ==> j < i,
    {
        if tools[i].kind == kind {
            found = Some(i);
        }
    }
    found
}

fn find_mode(modes: &Vec<ModeEntry>, kind: ModeKind) -> (res: Option<usize>)
    ensures
        res == button_of_mode(modes@, kind),
        res matches Some(i) ==> i < modes@.len(),
{
    let mut found: Option<usize> = None;
    for i in 0..modes.len()
        invariant
            found == last_mode(modes@, kind, i as nat),
            found matches Some(j) ==> j < i,
    {
        if modes[i].kind == kind {
            found = Some(i);
        }
    }
    found
}

fn push_if<A>(list: &mut Vec<A>, shown: bool, item: A)
    ensures
        final(list)@ == old(list)@ + only_if(shown, item),
{
    if shown {
        list.push(item);
        assert(list@ =~= old(list)@ + seq![item]);
    } else {
        assert(list@ =~= old(list)@ + Seq::<A>::empty());
    }
}

fn picker_list(s: &ToolbarSpec) -> (res: Vec<ToolbarItem>)
    ensures
        res@ == picker_items(s@),
{
    let color: bool = s.show_color_picker;
    let style: bool = s.show_style_picker;
    let font: bool = s.show_font_size_picker;
    let separated: bool = (color || style || font) && s.tools.len() > 0;
    let mut items: Vec<ToolbarItem> = Vec::new();
    push_if(&mut items, separated, ToolbarItem::Separator);
    assert(items@ =~= only_if(separated, ToolbarItem::Separator));
    push_if(&mut items, color, ToolbarItem::ColorPicker);
    push_if(&mut items, style, ToolbarItem::StylePicker);
    push_if(&mut items, font, ToolbarItem::FontSizePicker);
    items
}

fn action_list(s: &ToolbarSpec) -> (res: Vec<ToolbarItem>)
    ensures
        res@ == action_items(s@),
{
    let mut items: Vec<ToolbarItem> = Vec::new();
    push_if(&mut items, s.show_undo, ToolbarItem::Undo);
    assert(items@ =~= only_if(s.show_undo, ToolbarItem::Undo));
    push_if(&mut items, s.show_clear, ToolbarItem::Clear);
    push_if(&mut items, s.show_cursor_toggle, ToolbarItem::CursorToggle);
    push_if(&mut items, s.show_delay_spinner, ToolbarItem::Delay);
    push_if(&mut items, s.show_passthrough_toggle, ToolbarItem::PassthroughToggle);
    push_if(&mut items, s.show_save, ToolbarItem::Save);
    push_if(&mut items, s.show_capture, ToolbarItem::Capture);
    items
}

/// The controls of a toolbar.
fn layout(s: &ToolbarSpec) -> (res: Vec<ToolbarItem>)
    ensures
        res@ == toolbar_items(s@),
{
    let modes: usize = s.modes.len();
    let tools: usize = s.tools.len();
    let mut items: Vec<ToolbarItem> = Vec::new();
    for i in 0..modes
        invariant
            items@ == mode_items(i as nat),
    {
        items.push(ToolbarItem::Mode(i));
        assert(items@ =~= mode_items(i as nat + 1));
    }
    push_if(&mut items, modes > 0 && tools > 0, ToolbarItem::Separator);
    let ghost before = items@;
    for i in 0..tools
        invariant
            items@ == before + tool_items(i as nat),
    {
        items.push(ToolbarItem::Tool(i));
        assert(items@ =~= before + tool_items(i as nat + 1));
    }
    let mut pickers: Vec<ToolbarItem> = picker_list(s);
    items.append(&mut pickers);
    let actions: bool = s.show_undo || s.show_clear || s.show_save || s.show_capture
        || s.show_cursor_toggle || s.show_passthrough_toggle || s.show_delay_spinner;
    push_if(&mut items, actions && (modes > 0 || tools > 0), ToolbarItem::Spacer);
    let mut trailing: Vec<ToolbarItem> = action_list(s);
    items.append(&mut trailing);
    items
}

fn enter_list(modifiers: Modifiers, action: ShortcutAction) -> (res: Vec<Shortcut>)
    ensures
        res@ == enter_shortcuts(modifiers, action),
{
    let mut list: Vec<Shortcut> = Vec::new();
    list.push(Shortcut { key: Key::named(KEY_RETURN), modifiers, action });
    list.push(Shortcut { key: Key::named(KEY_KP_ENTER), modifiers, action });
    assert(list@ =~= enter_shortcuts(modifiers, action));
    list
}

fn mode_keys(modes: &Vec<ModeEntry>) -> (res: Vec<Shortcut>)
    ensures
        res@ == mode_shortcuts(modes@),
{
    let mut list: Vec<Shortcut> = Vec::new();
    for i in 0..modes.len()
        invariant
            list@ == mode_shortcuts(modes@.take(i as int)),
    {
        let entry: &ModeEntry = &modes[i];
        list.push(
            Shortcut {
                key: entry.key,
                modifiers: Modifiers::none(),
                action: ShortcutAction::Mode(entry.kind),
            },
        );
        assert(list@ =~= mode_shortcuts(modes@.take(i + 1)));
    }
    assert(modes@.take(modes@.len() as int) =~= modes@);
    list
}

fn tool_keys(tools: &Vec<ToolEntry>) -> (res: Vec<Shortcut>)
    ensures
        res@ == tool_shortcuts(tools@),
{
    let mut list: Vec<Shortcut> = Vec::new();
    for i in 0..tools.len()
        invariant
            list@ == tool_shortcuts(tools@.take(i as int)),
    {
        let entry: &ToolEntry = &tools[i];
        list.push(
            Shortcut {
                key: entry.key,
                modifiers: Modifiers::none(),
                action: ShortcutAction::Tool(entry.kind),
            },
        );
        assert(list@ =~= tool_shortcuts(tools@.take(i + 1)));
    }
    assert(tools@.take(tools@.len() as int) =~= tools@);
    list
}

fn action_keys(s: &ToolbarSpec) -> (res: Vec<Shortcut>)
    ensures
        res@ == action_shortcuts(s@),
{
    let none = Modifiers::none();
    let control = Modifiers { control: true, shift: false, alt: false, super_key: false };
    let shift = Modifiers { control: false, shift: true, alt: false, super_key: false };
    let undo = Shortcut {
        key: Key::from_char('z'),
        modifiers: control,
        action: ShortcutAction::Undo,
    };
    let clear = Shortcut {
        key: Key::from_char('l'),
        modifiers: control,
        action: ShortcutAction::Clear,
    };
    let passthrough = Shortcut {
        key: Key::from_char('p'),
        modifiers: none,
        action: ShortcutAction::Passthrough,
    };
    let save = Shortcut {
        key: Key::from_char('s'),
        modifiers: control,
        action: ShortcutAction::Save,
    };
    let mut list: Vec<Shortcut> = Vec::new();
    push_if(&mut list, s.show_undo, undo);
    assert(list@ =~= only_if(s.show_undo, undo));
    push_if(&mut list, s.show_clear, clear);
    push_if(&mut list, s.show_passthrough_toggle, passthrough);
    let mut saving: Vec<Shortcut> = Vec::new();
    if s.show_save {
        saving.push(save);
        assert(saving@ =~= seq![save]);
        let mut enter: Vec<Shortcut> = enter_list(none, ShortcutAction::Save);
        saving.append(&mut enter);
    }
    list.append(&mut saving);
    let mut capturing: Vec<Shortcut> = Vec::new();
    if s.show_capture {
        capturing = enter_list(none, ShortcutAction::Capture);
        let mut annotating: Vec<Shortcut> = Vec::new();
        if s.capture_shift_annotates {
            annotating = enter_list(shift, ShortcutAction::Annotate);
        }
        capturing.append(&mut annotating);
    }
    list.append(&mut capturing);
    list
}

/// The shortcuts of a toolbar.
fn key_table(s: &ToolbarSpec) -> (res: Vec<Shortcut>)
    ensures
        res@ == toolbar_shortcuts(s@),
{
    let mut list: Vec<Shortcut> = mode_keys(&s.modes);
    let mut tools: Vec<Shortcut> = tool_keys(&s.tools);
    let mut actions: Vec<Shortcut> = action_keys(s);
    list.append(&mut tools);
    list.append(&mut actions);
    list
}

// ---- the toolbar ---------------------------------------------------------------------------
/// What the toolbar asks of its listener.
#[derive(Clone, Copy, Debug, PartialEq)]
pub enum ToolbarAction<S> {
    ToolSelected(ToolKind),
    ModeSelected(ModeKind),
    CursorToggled(bool),
    PassthroughToggled(bool),
    /// The delay before a capture, in whole seconds.
    DelayChanged(u32),
    Undo,
    Clear,
    Save,
    Capture,
    /// A capture that is to be annotated.
    Annotate,
    ColorChanged([S; 4]),
    StrokeStyleChanged(StrokeStyle),
    FontSizeChanged(FontSize<S>),
}

/// The face of the capture button.
#[derive(Clone, Copy, Debug, PartialEq, Eq, Structural)]
pub enum CaptureFace {
    /// A click captures, and nothing else.
    Plain,
    /// A click captures; with Shift it would annotate.
    Capture,
    /// A click annotates.
    Annotate,
}

/// The state of a toolbar's controls. A control that is not shown has no state.
#[derive(Debug)]
pub struct Toolbar<S> {
    pub tools: Vec<ToolEntry>,
    pub modes: Vec<ModeEntry>,
    pub items: Vec<ToolbarItem>,
    pub shortcuts: Vec<Shortcut>,
    /// The tool button that is down.
    pub active_tool: Option<usize>,
    /// The mode button that is down.
    pub active_mode: Option<usize>,
    pub cursor: Option<bool>,
    pub passthrough: Option<bool>,
    pub delay: Option<u32>,
    pub capture: Option<CaptureFace>,
    pub color: Option<[S; 4]>,
    pub color_sensitive: bool,
    pub style: Option<StrokeStyle>,
    pub style_sensitive: bool,
    pub font_size: Option<S>,
    pub font_size_sensitive: bool,
    /// Someone listens to the actions.
    pub connected: bool,
}

/// The state of a toolbar, with its tables as sequences.
pub struct ToolbarView<S> {
    pub tools: Seq<ToolEntry>,
    pub modes: Seq<ModeEntry>,
    pub items: Seq<ToolbarItem>,
    pub shortcuts: Seq<Shortcut>,
    pub active_tool: Option<usize>,
    pub active_mode: Option<usize>,
    pub cursor: Option<bool>,
    pub passthrough: Option<bool>,
    pub delay: Option<u32>,
    pub capture: Option<CaptureFace>,
    pub color: Option<[S; 4]>,
    pub color_sensitive: bool,
    pub style: Option<StrokeStyle>,
    pub style_sensitive: bool,
    pub font_size: Option<S>,
    pub font_size_sensitive: bool,
    pub connected: bool,
}

impl<S> View for Toolbar<S> {
    type V = ToolbarView<S>;

    open spec fn view(&self) -> ToolbarView<S> {
        ToolbarView {
            tools: self.tools@,
            modes: self.modes@,
            items: self.items@,
            shortcuts: self.shortcuts@,
            active_tool: self.active_tool,
            active_mode: self.active_mode,
            cursor: self.cursor,
            passthrough: self.passthrough,
            delay: self.delay,
            capture: self.capture,
            color: self.color,
            color_sensitive: self.color_sensitive,
            style: self.style,
            style_sensitive: self.style_sensitive,
            font_size: self.font_size,
            font_size_sensitive: self.font_size_sensitive,
            connected: self.connected,
        }
    }
}

pub open spec fn shown<A>(present: bool, value: A) -> Option<A> {
    if present {
        Some(value)
    } else {
        None
    }
}

pub open spec fn clamped(value: int, low: int, high: int) -> int {
    if value < low {
        low
    } else if value > high {
        high
    } else {
        value
    }
}

/// The place of the first tool of a kind, from `from` on.
pub open spec fn first_tool(tools: Seq<ToolEntry>, kind: ToolKind, from: int) -> Option<usize>
    decreases tools.len() - from,
{
    if from < 0 || from >= tools.len() {
        None
    } else if tools[from].kind == kind {
        Some(from as usize)
    } else {
        first_tool(tools, kind, from + 1)
    }
}

/// The place of the first mode of a kind, from `from` on.
pub open spec fn first_mode(modes: Seq<ModeEntry>, kind: ModeKind, from: int) -> Option<usize>
    decreases modes.len() - from,
{
    if from < 0 || from >= modes.len() {
        None
    } else if modes[from].kind == kind {
        Some(from as usize)
    } else {
        first_mode(modes, kind, from + 1)
    }
}

/// The two keys are the same, apart from the case of an ASCII letter. Return stands for both
/// Enter keys.
pub open spec fn keys_match(expected: Key, actual: Key) -> bool {
    ||| expected.code == actual.code
    ||| expected.code == KEY_RETURN && actual.code == KEY_KP_ENTER
    ||| match (expected.unicode, actual.unicode) {
        (Some(a), Some(b)) => same_char_ignoring_case(a, b),
        _ => false,
    }
}

/// Control, Shift and Alt are held as asked for, no more and no less. Other modifiers, such as
/// the locks, do not count.
pub open spec fn modifiers_match(expected: Modifiers, held: Modifiers) -> bool {
    expected.control == held.control && expected.shift == held.shift && expected.alt == held.alt
}

/// The key press is that of the shortcut.
pub open spec fn is_pressed(shortcut: Shortcut, key: Key, held: Modifiers) -> bool {
    keys_match(shortcut.key, key) && modifiers_match(shortcut.modifiers, held)
}

impl<S> ToolbarView<S> {
    /// A click on a button that only asks.
    pub open spec fn button_clicked(self, item: ToolbarItem) -> Option<ToolbarAction<S>> {
        match item {
            ToolbarItem::Undo => self.heard(ToolbarAction::Undo),
            ToolbarItem::Clear => self.heard(ToolbarAction::Clear),
            ToolbarItem::Save => self.heard(ToolbarAction::Save),
            _ => None,
        }
    }

    /// The delay is changed by so many seconds.
    pub open spec fn delay_stepped(self, delta: int) -> (ToolbarView<S>, Option<ToolbarAction<S>>) {
        match self.delay {
            Some(now) => {
                let next = clamped(now + delta, 0, DELAY_MAX as int) as u32;
                (
                    ToolbarView { delay: Some(next), ..self },
                    if next == now {
                        None
                    } else {
                        self.heard(ToolbarAction::DelayChanged(next))
                    },
                )
            },
            None => (self, None),
        }
    }

    /// A stroke style is picked.
    pub open spec fn style_picked(self, style: StrokeStyle) -> (
        ToolbarView<S>,
        Option<ToolbarAction<S>>,
    ) {
        match self.style {
            Some(now) => (
                ToolbarView { style: Some(style), ..self },
                if style == now {
                    None
                } else {
                    self.heard(ToolbarAction::StrokeStyleChanged(style))
                },
            ),
            None => (self, None),
        }
    }

    /// A color is picked, or none after all.
    pub open spec fn color_picked(self, picked: Option<[S; 4]>) -> (
        ToolbarView<S>,
        Option<ToolbarAction<S>>,
    ) {
        match (self.color, picked) {
            (Some(_), Some(color)) => (
                ToolbarView { color: Some(color), ..self },
                self.heard(ToolbarAction::ColorChanged(color)),
            ),
            _ => (self, None),
        }
    }

    /// A font size is picked.
    pub open spec fn font_size_picked(self, size: FontSize<S>) -> (
        ToolbarView<S>,
        Option<ToolbarAction<S>>,
    ) {
        match self.font_size {
            Some(_) => (
                ToolbarView { font_size: Some(size.asked), ..self },
                self.heard(ToolbarAction::FontSizeChanged(size)),
            ),
            None => (self, None),
        }
    }

    /// The toolbar that a spec asks for.
    pub open spec fn built(s: ToolbarSpecView, color: [S; 4], font_size: S) -> ToolbarView<S> {
        ToolbarView {
            tools: s.tools,
            modes: s.modes,
            items: toolbar_items(s),
            shortcuts: toolbar_shortcuts(s),
            active_tool: match s.initial_tool {
                Some(kind) => button_of_tool(s.tools, kind),
                None => None,
            },
            active_mode: match s.initial_mode {
                Some(kind) => button_of_mode(s.modes, kind),
                None => None,
            },
            cursor: shown(s.show_cursor_toggle, s.initial_cursor),
            passthrough: shown(s.show_passthrough_toggle, s.initial_passthrough),
            delay: shown(
                s.show_delay_spinner,
                clamped(s.initial_delay_secs as int, 0, DELAY_MAX as int) as u32,
            ),
            capture: shown(
                s.show_capture,
                if s.capture_shift_annotates {
                    CaptureFace::Capture
                } else {
                    CaptureFace::Plain
                },
            ),
            color: shown(s.show_color_picker, color),
            color_sensitive: true,
            style: shown(s.show_style_picker, StrokeStyle::Solid),
            style_sensitive: true,
            font_size: shown(s.show_font_size_picker, font_size),
            font_size_sensitive: true,
            connected: false,
        }
    }

    /// The buttons that are down exist, and the delay is within its range.
    pub open spec fn wf(self) -> bool {
        &&& self.active_tool matches Some(i) ==> i < self.tools.len()
        &&& self.active_mode matches Some(i) ==> i < self.modes.len()
        &&& self.delay matches Some(d) ==> d <= DELAY_MAX
    }

    /// What the listener hears: nothing, when there is none.
    pub open spec fn heard(self, action: ToolbarAction<S>) -> Option<ToolbarAction<S>> {
        if self.connected {
            Some(action)
        } else {
            None
        }
    }

    /// The toolbar with the capture button's face for Shift held or not.
    pub open spec fn with_shift_held(self, shift: bool) -> ToolbarView<S> {
        ToolbarView {
            capture: match self.capture {
                None => None,
                Some(CaptureFace::Plain) => Some(CaptureFace::Plain),
                Some(_) => Some(
                    if shift {
                        CaptureFace::Annotate
                    } else {
                        CaptureFace::Capture
                    },
                ),
            },
            ..self
        }
    }

    /// What the listener hears of a click on the capture button. Shift counts where it may
    /// annotate, whether the toolbar or the keyboard has seen it.
    pub open spec fn capture_clicked(self, keyboard_shift: bool) -> Option<ToolbarAction<S>> {
        self.heard(
            if self.capture == Some(CaptureFace::Annotate) || (self.capture == Some(
                CaptureFace::Capture,
            ) && keyboard_shift) {
                ToolbarAction::Annotate
            } else {
                ToolbarAction::Capture
            },
        )
    }

    /// The toolbar after a tool button has been pressed, and what its listener hears: nothing
    /// when the button was down already.
    pub open spec fn tool_pressed(self, i: usize) -> (ToolbarView<S>, Option<ToolbarAction<S>>) {
        (
            ToolbarView { active_tool: Some(i), ..self },
            if self.active_tool == Some(i) {
                None
            } else {
                self.heard(ToolbarAction::ToolSelected(self.tools[i as int].kind))
            },
        )
    }

    /// The toolbar after a mode button has been pressed, and what its listener hears: nothing
    /// when the button was down already.
    pub open spec fn mode_pressed(self, i: usize) -> (ToolbarView<S>, Option<ToolbarAction<S>>) {
        (
            ToolbarView { active_mode: Some(i), ..self },
            if self.active_mode == Some(i) {
                None
            } else {
                self.heard(ToolbarAction::ModeSelected(self.modes[i as int].kind))
            },
        )
    }

    /// The toolbar after a shortcut's action, and what its listener hears. `None` when the
    /// action has no control to act on, or no listener to hear it.
    pub open spec fn dispatched(self, action: ShortcutAction) -> Option<
        (ToolbarView<S>, Option<ToolbarAction<S>>),
    > {
        match action {
            ShortcutAction::Tool(kind) => match first_tool(self.tools, kind, 0) {
                Some(i) => Some(self.tool_pressed(i)),
                None => None,
            },
            ShortcutAction::Mode(kind) => match first_mode(self.modes, kind, 0) {
                Some(i) => Some(self.mode_pressed(i)),
                None => None,
            },
            ShortcutAction::Cursor => match self.cursor {
                Some(on) => Some(
                    (
                        ToolbarView { cursor: Some(!on), ..self },
                        self.heard(ToolbarAction::CursorToggled(!on)),
                    ),
                ),
                None => None,
            },
            ShortcutAction::Passthrough => match self.passthrough {
                Some(on) => Some(
                    (
                        ToolbarView { passthrough: Some(!on), ..self },
                        self.heard(ToolbarAction::PassthroughToggled(!on)),
                    ),
                ),
                None => None,
            },
            ShortcutAction::Undo => self.spoken(ToolbarAction::Undo),
            ShortcutAction::Clear => self.spoken(ToolbarAction::Clear),
            ShortcutAction::Save => self.spoken(ToolbarAction::Save),
            ShortcutAction::Capture => self.spoken(ToolbarAction::Capture),
            ShortcutAction::Annotate => self.spoken(ToolbarAction::Annotate),
        }
    }

    /// An action that only counts when someone hears it.
    pub open spec fn spoken(self, action: ToolbarAction<S>) -> Option<
        (ToolbarView<S>, Option<ToolbarAction<S>>),
    > {
        if self.connected {
            Some((self, Some(action)))
        } else {
            None
        }
    }

    /// What the first shortcut from `from` on does that is pressed and does something.
    pub open spec fn answered(self, key: Key, held: Modifiers, from: int) -> Option<
        (ToolbarView<S>, Option<ToolbarAction<S>>),
    >
        decreases self.shortcuts.len() - from,
    {
        if from < 0 || from >= self.shortcuts.len() {
            None
        } else if is_pressed(self.shortcuts[from], key, held) && self.dispatched(
            self.shortcuts[from].action,
        ) is Some {
            self.dispatched(self.shortcuts[from].action)
        } else {
            self.answered(key, held, from + 1)
        }
    }
}

/// Tells whether a key press is that of a shortcut's key.
pub fn key_matches(expected: Key, actual: Key) -> (res: bool)
    ensures
        res == keys_match(expected, actual),
{
    if expected.code == actual.code {
        return true;
    }
    if expected.code == KEY_RETURN && actual.code == KEY_KP_ENTER {
        return true;
    }
    match (expected.unicode, actual.unicode) {
        (Some(a), Some(b)) => char_eq_ignoring_case(a, b),
        _ => false,
    }
}

/// What a key press came to: whether the toolbar took it, and what the listener hears.
#[derive(Clone, Copy, Debug, PartialEq)]
pub struct KeyOutcome<S> {
    pub taken: bool,
    pub action: Option<ToolbarAction<S>>,
}

impl<S: Copy> Toolbar<S> {
    /// The toolbar for a spec, with a first color and a first font size for the pickers.
    pub fn new(spec: ToolbarSpec, color: [S; 4], font_size: S) -> (res: Toolbar<S>)
        ensures
            res@ == ToolbarView::built(spec@, color, font_size),
            res@.wf(),
    {
        let items = layout(&spec);
        let shortcuts = key_table(&spec);
        let active_tool = match spec.initial_tool {
            Some(kind) => find_tool(&spec.tools, kind),
            None => None,
        };
        let active_mode = match spec.initial_mode {
            Some(kind) => find_mode(&spec.modes, kind),
            None => None,
        };
        let delay: u32 = if spec.initial_delay_secs > DELAY_MAX {
            DELAY_MAX
        } else {
            spec.initial_delay_secs
        };
        let face = if spec.capture_shift_annotates {
            CaptureFace::Capture
        } else {
            CaptureFace::Plain
        };
        Toolbar {
            items,
            shortcuts,
            active_tool,
            active_mode,
            cursor: if spec.show_cursor_toggle {
                Some(spec.initial_cursor)
            } else {
                None
            },
            passthrough: if spec.show_passthrough_toggle {
                Some(spec.initial_passthrough)
            } else {
                None
            },
            delay: if spec.show_delay_spinner {
                Some(delay)
            } else {
                None
            },
            capture: if spec.show_capture {
                Some(face)
            } else {
                None
            },
            color: if spec.show_color_picker {
                Some(color)
            } else {
                None
            },
            color_sensitive: true,
            style: if spec.show_style_picker {
                Some(StrokeStyle::Solid)
            } else {
                None
            },
            style_sensitive: true,
            font_size: if spec.show_font_size_picker {
                Some(font_size)
            } else {
                None
            },
            font_size_sensitive: true,
            connected: false,
            tools: spec.tools,
            modes: spec.modes,
        }
    }

    /// From now on someone listens.
    pub fn connect(&mut self)
        ensures
            final(self)@ == (ToolbarView { connected: true, ..old(self)@ }),
    {
        self.connected = true;
    }

    /// Shows a tool as the active one, without an action. A tool without a button leaves no
    /// button down.
    pub fn set_tool(&mut self, kind: ToolKind)
        ensures
            final(self)@ == (ToolbarView {
                active_tool: button_of_tool(old(self)@.tools, kind),
                ..old(self)@
            }),
            old(self)@.wf() ==> final(self)@.wf(),
    {
        self.active_tool = find_tool(&self.tools, kind);
    }

    /// Shows a mode as the active one, without an action.
    pub fn set_mode(&mut self, kind: ModeKind)
        ensures
            final(self)@ == (ToolbarView {
                active_mode: button_of_mode(old(self)@.modes, kind),
                ..old(self)@
            }),
            old(self)@.wf() ==> final(self)@.wf(),
    {
        self.active_mode = find_mode(&self.modes, kind);
    }

    /// Shows the cursor toggle on or off, without an action.
    pub fn set_cursor(&mut self, on: bool)
        ensures
            final(self)@ == (ToolbarView {
                cursor: shown(old(self)@.cursor is Some, on),
                ..old(self)@
            }),
    {
        if self.cursor.is_some() {
            self.cursor = Some(on);
        }
    }

    /// Shows a delay, at most the longest, without an action.
    pub fn set_delay(&mut self, secs: u32)
        ensures
            final(self)@ == (ToolbarView {
                delay: shown(
                    old(self)@.delay is Some,
                    clamped(secs as int, 0, DELAY_MAX as int) as u32,
                ),
                ..old(self)@
            }),
            old(self)@.wf() ==> final(self)@.wf(),
    {
        if self.delay.is_some() {
            self.delay = Some(
                if secs > DELAY_MAX {
                    DELAY_MAX
                } else {
                    secs
                },
            );
        }
    }

    /// Shows the passthrough toggle on or off, without an action.
    pub fn set_passthrough(&mut self, on: bool)
        ensures
            final(self)@ == (ToolbarView {
                passthrough: shown(old(self)@.passthrough is Some, on),
                ..old(self)@
            }),
    {
        if self.passthrough.is_some() {
            self.passthrough = Some(on);
        }
    }

    /// Shows a color, without an action.
    pub fn set_color(&mut self, color: [S; 4])
        ensures
            final(self)@ == (ToolbarView {
                color: shown(old(self)@.color is Some, color),
                ..old(self)@
            }),
    {
        if self.color.is_some() {
            self.color = Some(color);
        }
    }

    /// Enables or disables the color picker, where there is one.
    pub fn set_color_picker_sensitive(&mut self, sensitive: bool)
        ensures
            final(self)@ == (ToolbarView {
                color_sensitive: if old(self)@.color is Some {
                    sensitive
                } else {
                    old(self)@.color_sensitive
                },
                ..old(self)@
            }),
    {
        if self.color.is_some() {
            self.color_sensitive = sensitive;
        }
    }

    /// Shows a stroke style, without an action.
    pub fn set_stroke_style(&mut self, style: StrokeStyle)
        ensures
            final(self)@ == (ToolbarView {
                style: shown(old(self)@.style is Some, style),
                ..old(self)@
            }),
    {
        if self.style.is_some() {
            self.style = Some(style);
        }
    }

    /// Enables or disables the style picker, where there is one.
    pub fn set_style_picker_sensitive(&mut self, sensitive: bool)
        ensures
            final(self)@ == (ToolbarView {
                style_sensitive: if old(self)@.style is Some {
                    sensitive
                } else {
                    old(self)@.style_sensitive
                },
                ..old(self)@
            }),
    {
        if self.style.is_some() {
            self.style_sensitive = sensitive;
        }
    }

    /// Shows a font size, without an action.
    pub fn set_font_size(&mut self, size: S)
        ensures
            final(self)@ == (ToolbarView {
                font_size: shown(old(self)@.font_size is Some, size),
                ..old(self)@
            }),
    {
        if self.font_size.is_some() {
            self.font_size = Some(size);
        }
    }

    /// Enables or disables the font-size picker, where there is one.
    pub fn set_font_size_picker_sensitive(&mut self, sensitive: bool)
        ensures
            final(self)@ == (ToolbarView {
                font_size_sensitive: if old(self)@.font_size is Some {
                    sensitive
                } else {
                    old(self)@.font_size_sensitive
                },
                ..old(self)@
            }),
    {
        if self.font_size.is_some() {
            self.font_size_sensitive = sensitive;
        }
    }

    fn emit(&self, action: ToolbarAction<S>) -> (res: Option<ToolbarAction<S>>)
        ensures
            res == self@.heard(action),
    {
        if self.connected {
            Some(action)
        } else {
            None
        }
    }

    /// The button of a tool is pressed.
    pub fn press_tool(&mut self, i: usize) -> (res: Option<ToolbarAction<S>>)
        requires
            i < old(self)@.tools.len(),
        ensures
            (final(self)@, res) == old(self)@.tool_pressed(i),
            old(self)@.wf() ==> final(self)@.wf(),
    {
        let down: bool = match self.active_tool {
            Some(j) => i == j,
            None => false,
        };
        self.active_tool = Some(i);
        if down {
            None
        } else {
            self.emit(ToolbarAction::ToolSelected(self.tools[i].kind))
        }
    }

    /// The button of a mode is pressed.
    pub fn press_mode(&mut self, i: usize) -> (res: Option<ToolbarAction<S>>)
        requires
            i < old(self)@.modes.len(),
        ensures
            (final(self)@, res) == old(self)@.mode_pressed(i),
            old(self)@.wf() ==> final(self)@.wf(),
    {
        let down: bool = match self.active_mode {
            Some(j) => i == j,
            None => false,
        };
        self.active_mode = Some(i);
        if down {
            None
        } else {
            self.emit(ToolbarAction::ModeSelected(self.modes[i].kind))
        }
    }

    fn first_tool_button(&self, kind: ToolKind) -> (res: Option<usize>)
        ensures
            res == first_tool(self@.tools, kind, 0),
            res matches Some(i) ==> i < self@.tools.len(),
    {
        for i in 0..self.tools.len()
            invariant
                first_tool(self@.tools, kind, 0) == first_tool(self@.tools, kind, i as int),
        {
            if self.tools[i].kind == kind {
                return Some(i);
            }
        }
        None
    }

    fn first_mode_button(&self, kind: ModeKind) -> (res: Option<usize>)
        ensures
            res == first_mode(self@.modes, kind, 0),
            res matches Some(i) ==> i < self@.modes.len(),
    {
        for i in 0..self.modes.len()
            invariant
                first_mode(self@.modes, kind, 0) == first_mode(self@.modes, kind, i as int),
        {
            if self.modes[i].kind == kind {
                return Some(i);
            }
        }
        None
    }

    /// Does what a shortcut asks for. `None` when there is no control to act on, or no listener.
    fn dispatch_shortcut(&mut self, action: ShortcutAction) -> (res: Option<
        Option<ToolbarAction<S>>,
    >)
        ensures
            match old(self)@.dispatched(action) {
                Some(done) => res == Some(done.1) && final(self)@ == done.0,
                None => res is None && final(self)@ == old(self)@,
            },
            old(self)@.wf() ==> final(self)@.wf(),
    {
        match action {
            ShortcutAction::Tool(kind) => match self.first_tool_button(kind) {
                Some(i) => Some(self.press_tool(i)),
                None => None,
            },
            ShortcutAction::Mode(kind) => match self.first_mode_button(kind) {
                Some(i) => Some(self.press_mode(i)),
                None => None,
            },
            ShortcutAction::Cursor => match self.cursor {
                Some(on) => {
                    self.cursor = Some(!on);
                    Some(self.emit(ToolbarAction::CursorToggled(!on)))
                },
                None => None,
            },
            ShortcutAction::Passthrough => match self.passthrough {
                Some(on) => {
                    self.passthrough = Some(!on);
                    Some(self.emit(ToolbarAction::PassthroughToggled(!on)))
                },
                None => None,
            },
            ShortcutAction::Undo => self.speak(ToolbarAction::Undo),
            ShortcutAction::Clear => self.speak(ToolbarAction::Clear),
            ShortcutAction::Save => self.speak(ToolbarAction::Save),
            ShortcutAction::Capture => self.speak(ToolbarAction::Capture),
            ShortcutAction::Annotate => self.speak(ToolbarAction::Annotate),
        }
    }

    fn speak(&self, action: ToolbarAction<S>) -> (res: Option<Option<ToolbarAction<S>>>)
        ensures
            match self@.spoken(action) {
                Some(done) => res == Some(done.1) && done.0 == self@,
                None => res is None,
            },
    {
        if self.connected {
            Some(Some(action))
        } else {
            None
        }
    }

    /// Turns the face of the capture button, where Shift makes a difference to it. `true` when
    /// the face has changed.
    pub fn apply_shift(&mut self, shift: bool) -> (res: bool)
        ensures
            final(self)@ == old(self)@.with_shift_held(shift),
            res == (final(self)@.capture != old(self)@.capture),
    {
        let face = if shift {
            CaptureFace::Annotate
        } else {
            CaptureFace::Capture
        };
        match self.capture {
            None | Some(CaptureFace::Plain) => false,
            Some(shown_face) => {
                self.capture = Some(face);
                shown_face != face
            },
        }
    }

    /// A key is pressed on the toolbar's window. The capture button shows whether Shift is
    /// held; then the first shortcut that matches and does something takes the key.
    pub fn press_key(&mut self, key: Key, held: Modifiers) -> (res: KeyOutcome<S>)
        ensures
            match old(self)@.with_shift_held(held.shift).answered(key, held, 0) {
                Some(done) => res.taken && res.action == done.1 && final(self)@ == done.0,
                None => !res.taken && res.action is None && final(self)@ == old(self)@.with_shift_held(held.shift),
            },
            old(self)@.wf() ==> final(self)@.wf(),
    {
        self.apply_shift(held.shift);
        let ghost shifted = self@;
        let mut i: usize = 0;
        while i < self.shortcuts.len()
            invariant
                self@ == shifted,
                old(self)@.wf() ==> shifted.wf(),
                shifted == old(self)@.with_shift_held(held.shift),
                shifted.answered(key, held, 0) == shifted.answered(key, held, i as int),
            decreases self.shortcuts.len() - i,
        {
            let shortcut: Shortcut = self.shortcuts[i];
            let wanted: Modifiers = shortcut.modifiers;
            if key_matches(shortcut.key, key) && wanted.control == held.control && wanted.shift
                == held.shift && wanted.alt == held.alt {
                if let Some(action) = self.dispatch_shortcut(shortcut.action) {
                    return KeyOutcome { taken: true, action };
                }
            }
            i = i + 1;
        }
        KeyOutcome { taken: false, action: None }
    }

    /// A key is released on the toolbar's window. A released Shift key turns the capture button
    /// back.
    pub fn release_key(&mut self, key: Key)
        ensures
            final(self)@ == (if key.code == KEY_SHIFT_L || key.code == KEY_SHIFT_R {
                old(self)@.with_shift_held(false)
            } else {
                old(self)@
            }),
    {
        if key.code == KEY_SHIFT_L || key.code == KEY_SHIFT_R {
            self.apply_shift(false);
        }
    }

    /// The capture button is clicked. `keyboard_shift` tells whether the keyboard reports Shift
    /// as held.
    pub fn click_capture(&self, keyboard_shift: bool) -> (res: Option<ToolbarAction<S>>)
        ensures
            res == self@.capture_clicked(keyboard_shift),
    {
        let annotate: bool = match self.capture {
            Some(CaptureFace::Annotate) => true,
            Some(CaptureFace::Capture) => keyboard_shift,
            _ => false,
        };
        self.emit(
            if annotate {
                ToolbarAction::Annotate
            } else {
                ToolbarAction::Capture
            },
        )
    }

    /// Undo, Clear or Save is clicked.
    pub fn click_button(&self, item: ToolbarItem) -> (res: Option<ToolbarAction<S>>)
        ensures
            res == self@.button_clicked(item),
    {
        match item {
            ToolbarItem::Undo => self.emit(ToolbarAction::Undo),
            ToolbarItem::Clear => self.emit(ToolbarAction::Clear),
            ToolbarItem::Save => self.emit(ToolbarAction::Save),
            _ => None,
        }
    }

    /// The cursor toggle is clicked.
    pub fn toggle_cursor(&mut self) -> (res: Option<ToolbarAction<S>>)
        ensures
            match old(self)@.dispatched(ShortcutAction::Cursor) {
                Some(done) => (final(self)@, res) == done,
                None => res is None && final(self)@ == old(self)@,
            },
    {
        match self.dispatch_shortcut(ShortcutAction::Cursor) {
            Some(action) => action,
            None => None,
        }
    }

    /// The passthrough toggle is clicked.
    pub fn toggle_passthrough(&mut self) -> (res: Option<ToolbarAction<S>>)
        ensures
            match old(self)@.dispatched(ShortcutAction::Passthrough) {
                Some(done) => (final(self)@, res) == done,
                None => res is None && final(self)@ == old(self)@,
            },
    {
        match self.dispatch_shortcut(ShortcutAction::Passthrough) {
            Some(action) => action,
            None => None,
        }
    }

    /// The delay is stepped. The listener hears of it when it has changed.
    pub fn step_delay(&mut self, delta: i32) -> (res: Option<ToolbarAction<S>>)
        ensures
            (final(self)@, res) == old(self)@.delay_stepped(delta as int),
            old(self)@.wf() ==> final(self)@.wf(),
    {
        match self.delay {
            Some(now) => {
                let sum: i64 = now as i64 + delta as i64;
                let next: u32 = if sum < 0 {
                    0
                } else if sum > DELAY_MAX as i64 {
                    DELAY_MAX
                } else {
                    sum as u32
                };
                self.delay = Some(next);
                if next == now {
                    None
                } else {
                    self.emit(ToolbarAction::DelayChanged(next))
                }
            },
            None => None,
        }
    }

    /// A stroke style is clicked. The style that is shown already sends nothing.
    pub fn pick_style(&mut self, style: StrokeStyle) -> (res: Option<ToolbarAction<S>>)
        ensures
            (final(self)@, res) == old(self)@.style_picked(style),
    {
        match self.style {
            Some(now) => {
                self.style = Some(style);
                if style == now {
                    None
                } else {
                    self.emit(ToolbarAction::StrokeStyleChanged(style))
                }
            },
            None => None,
        }
    }

    /// The color dialog has closed, with a color or without one.
    pub fn pick_color(&mut self, picked: Option<[S; 4]>) -> (res: Option<ToolbarAction<S>>)
        ensures
            (final(self)@, res) == old(self)@.color_picked(picked),
    {
        match picked {
            Some(color) => {
                if self.color.is_some() {
                    self.color = Some(color);
                    return self.emit(ToolbarAction::ColorChanged(color));
                }
                None
            },
            None => None,
        }
    }

    /// The font-size spinner has another value.
    pub fn pick_font_size(&mut self, size: FontSize<S>) -> (res: Option<ToolbarAction<S>>)
        ensures
            (final(self)@, res) == old(self)@.font_size_picked(size),
    {
        if self.font_size.is_some() {
            self.font_size = Some(size.asked);
            return self.emit(ToolbarAction::FontSizeChanged(size));
        }
        None
    }
}

// ---- faces of the controls -----------------------------------------------------------------
/// The icon of the capture button.
pub open spec fn capture_icon_name(face: CaptureFace) -> Seq<char> {
    match face {
        CaptureFace::Annotate => "document-edit-symbolic"@,
        _ => "camera-photo-symbolic"@,
    }
}

/// The icon of the capture button.
pub fn capture_icon(face: CaptureFace) -> (res: &'static str)
    ensures
        res@ == capture_icon_name(face),
{
    match face {
        CaptureFace::Annotate => "document-edit-symbolic",
        _ => "camera-photo-symbolic",
    }
}

/// The identifier of the message shown as the tooltip of the capture button.
pub open spec fn capture_message(face: CaptureFace) -> Seq<char> {
    match face {
        CaptureFace::Plain => "toolbar-capture-tooltip-plain"@,
        CaptureFace::Capture => "toolbar-capture-tooltip-shift"@,
        CaptureFace::Annotate => "toolbar-annotate-tooltip"@,
    }
}

/// The identifier of the message shown as the tooltip of the capture button.
pub fn capture_tooltip(face: CaptureFace) -> (res: &'static str)
    ensures
        res@ == capture_message(face),
{
    match face {
        CaptureFace::Plain => "toolbar-capture-tooltip-plain",
        CaptureFace::Capture => "toolbar-capture-tooltip-shift",
        CaptureFace::Annotate => "toolbar-annotate-tooltip",
    }
}

/// The icon and the tooltip's message of a button that always looks the same.
pub open spec fn fixed_face(item: ToolbarItem) -> Option<(Seq<char>, Seq<char>)> {
    match item {
        ToolbarItem::Undo => Some(("edit-undo-symbolic"@, "toolbar-undo-tooltip"@)),
        ToolbarItem::Clear => Some(("edit-clear-all-symbolic"@, "toolbar-clear-tooltip"@)),
        ToolbarItem::CursorToggle => Some(
            ("pointer-primary-click-symbolic"@, "toolbar-cursor-tooltip"@),
        ),
        ToolbarItem::PassthroughToggle => Some(
            ("mouse-click-symbolic"@, "toolbar-passthrough-tooltip"@),
        ),
        ToolbarItem::Save => Some(("document-save-symbolic"@, "toolbar-save-tooltip"@)),
        _ => None,
    }
}

/// The icon and the tooltip's message of a button that always looks the same.
pub fn button_face(item: ToolbarItem) -> (res: Option<(&'static str, &'static str)>)
    ensures
        match res {
            Some(face) => fixed_face(item) == Some((face.0@, face.1@)),
            None => fixed_face(item) is None,
        },
{
    match item {
        ToolbarItem::Undo => Some(("edit-undo-symbolic", "toolbar-undo-tooltip")),
        ToolbarItem::Clear => Some(("edit-clear-all-symbolic", "toolbar-clear-tooltip")),
        ToolbarItem::CursorToggle => Some(
            ("pointer-primary-click-symbolic", "toolbar-cursor-tooltip"),
        ),
        ToolbarItem::PassthroughToggle => Some(
            ("mouse-click-symbolic", "toolbar-passthrough-tooltip"),
        ),
        ToolbarItem::Save => Some(("document-save-symbolic", "toolbar-save-tooltip")),
        _ => None,
    }
}

/// The seconds by which a click on the delay's plus or minus changes it.
pub open spec fn delay_change(plus: bool, secondary: bool) -> int {
    let step = if secondary {
        DELAY_STEP_SECONDARY as int
    } else {
        DELAY_STEP_PRIMARY as int
    };
    if plus {
        step
    } else {
        -step
    }
}

/// What a click on the `+` or the `-` of the delay adds to it: one second, and five with the
/// secondary button.
pub fn delay_click(plus: bool, secondary: bool) -> (res: i32)
    ensures
        res == delay_change(plus, secondary),
{
    let step: i32 = if secondary {
        DELAY_STEP_SECONDARY
    } else {
        DELAY_STEP_PRIMARY
    };
    if plus {
        step
    } else {
        -step
    }
}

/// The direction in which the wheel was turned.
#[derive(Clone, Copy, Debug, PartialEq, Eq, Structural)]
pub enum Scroll {
    Up,
    Still,
    Down,
}

/// What a turn of the wheel adds to the delay.
pub fn delay_scroll(scroll: Scroll) -> (res: i32)
    ensures
        res == (match scroll {
            Scroll::Up => DELAY_STEP_PRIMARY as int,
            Scroll::Still => 0,
            Scroll::Down => -DELAY_STEP_PRIMARY,
        }),
{
    match scroll {
        Scroll::Up => DELAY_STEP_PRIMARY,
        Scroll::Still => 0,
        Scroll::Down => -DELAY_STEP_PRIMARY,
    }
}

/// A digit of a hexadecimal number, in lower case.
pub open spec fn hex_digit_char(d: int) -> char {
    if d < 10 {
        ('0' as u32 + d) as u32 as char
    } else {
        ('a' as u32 + d - 10) as u32 as char
    }
}

/// A byte as two hexadecimal digits.
pub open spec fn hex_pair(byte: u8) -> Seq<char> {
    seq![hex_digit_char(byte as int / 16), hex_digit_char(byte as int % 16)]
}

/// A color as `#rrggbb`, or as `#rrggbbaa` when it is not opaque.
pub open spec fn hex_color(rgba: [u8; 4]) -> Seq<char> {
    seq!['#'] + hex_pair(rgba@[0]) + hex_pair(rgba@[1]) + hex_pair(rgba@[2]) + (if rgba@[3]
        == 255 {
        Seq::empty()
    } else {
        hex_pair(rgba@[3])
    })
}

fn hex_digit(d: u8) -> (res: char)
    requires
        d < 16,
    ensures
        res == hex_digit_char(d as int),
{
    match d {
        0 => '0',
        1 => '1',
        2 => '2',
        3 => '3',
        4 => '4',
        5 => '5',
        6 => '6',
        7 => '7',
        8 => '8',
        9 => '9',
        10 => 'a',
        11 => 'b',
        12 => 'c',
        13 => 'd',
        14 => 'e',
        _ => 'f',
    }
}

fn push_hex(out: &mut String, byte: u8)
    ensures
        final(out)@ == old(out)@ + hex_pair(byte),
{
    out.push(hex_digit(byte / 16));
    out.push(hex_digit(byte % 16));
    assert(out@ =~= old(out)@ + hex_pair(byte));
}

/// A color, given by its channels as bytes, as text.
pub fn rgba_to_hex(rgba: &[u8; 4]) -> (res: String)
    ensures
        res@ == hex_color(*rgba),
{
    let mut out = String::new();
    out.push('#');
    assert(out@ =~= seq!['#']);
    push_hex(&mut out, rgba[0]);
    push_hex(&mut out, rgba[1]);
    push_hex(&mut out, rgba[2]);
    if rgba[3] != 255 {
        push_hex(&mut out, rgba[3]);
    }
    assert(out@ =~= hex_color(*rgba));
    out
}

/// How many squares of the checkerboard lie along a side of so many pixels.
pub fn swatch_cells(extent: u32) -> (res: u32)
    ensures
        res * SWATCH_CELL >= extent,
        res > 0 ==> (res - 1) * SWATCH_CELL < extent,
{
    extent / SWATCH_CELL + if extent % SWATCH_CELL > 0 {
        1
    } else {
        0
    }
}

/// The squares of the checkerboard are dark and light in turn, and the first is dark.
pub fn cell_is_dark(column: u32, row: u32) -> (res: bool)
    ensures
        res == ((column + row) % 2 == 0),
{
    column % 2 == row % 2
}

/// What is done about the window of the color dialog.
#[derive(Clone, Copy, Debug, PartialEq, Eq, Structural)]
pub enum RefitStep {
    /// It is there: make it fit its content.
    Refit,
    /// Look again after 50 milliseconds, with so many tries left.
    Retry(u32),
    /// It did not turn up.
    GiveUp,
}

/// The next step, when the window has been looked for.
pub fn refit_step(found: bool, remaining: u32) -> (res: RefitStep)
    ensures
        res == (if found {
            RefitStep::Refit
        } else if remaining > 0 {
            RefitStep::Retry((remaining - 1) as u32)
        } else {
            RefitStep::GiveUp
        }),
{
    if found {
        RefitStep::Refit
    } else if remaining > 0 {
        RefitStep::Retry(remaining - 1)
    } else {
        RefitStep::GiveUp
    }
}

/// The first window that has exactly the title.
pub fn find_titled(titles: &Vec<Option<String>>, title: &str) -> (res: Option<usize>)
    ensures
        match res {
            Some(i) => {
                &&& i < titles@.len()
                &&& text_of(titles@[i as int]) == Some(title@)
                &&& forall|j: int| 0 <= j < i ==> text_of(#[trigger] titles@[j]) != Some(title@)
            },
            None => forall|j: int|
                0 <= j < titles@.len() ==> text_of(#[trigger] titles@[j]) != Some(title@),
        },
{
    for i in 0..titles.len()
        invariant
            forall|j: int| 0 <= j < i ==> text_of(#[trigger] titles@[j]) != Some(title@),
    {
        if let Some(text) = &titles[i] {
            if same_text(text.as_str(), title) {
                return Some(i);
            }
        }
    }
    None
}

// ---- laws ----------------------------------------------------------------------------------
/// Upper and lower case of an ASCII letter drive the same shortcuts.
pub proof fn the_case_of_a_letter_does_not_matter(shortcut: char, a: char, b: char)
    requires
        shortcut as u32 <= 0x7f,
        a as u32 <= 0x7f,
        b as u32 <= 0x7f,
        same_char_ignoring_case(a, b),
    ensures
        keys_match(Key::of_char(shortcut), Key::of_char(a)) == keys_match(
            Key::of_char(shortcut),
            Key::of_char(b),
        ),
{
}

/// Modifiers other than Control, Shift and Alt make no difference to what a key press does.
pub proof fn other_modifiers_do_not_matter<S>(
    toolbar: ToolbarView<S>,
    key: Key,
    held: Modifiers,
    also_held: Modifiers,
)
    requires
        modifiers_match(held, also_held),
    ensures
        toolbar.answered(key, held, 0) == toolbar.answered(key, also_held, 0),
{
    lemma_same_answer(toolbar, key, held, also_held, 0);
}

proof fn lemma_same_answer<S>(
    toolbar: ToolbarView<S>,
    key: Key,
    held: Modifiers,
    also_held: Modifiers,
    from: int,
)
    requires
        modifiers_match(held, also_held),
        0 <= from,
    ensures
        toolbar.answered(key, held, from) == toolbar.answered(key, also_held, from),
    decreases toolbar.shortcuts.len() - from,
{
    if from < toolbar.shortcuts.len() {
        lemma_same_answer(toolbar, key, held, also_held, from + 1);
    }
}

/// A toolbar on which Shift does not annotate never asks for an annotation, whatever is clicked,
/// pressed or held.
pub proof fn annotating_can_be_switched_off<S>(
    toolbar: ToolbarView<S>,
    s: ToolbarSpecView,
    key: Key,
    held: Modifiers,
    keyboard_shift: bool,
)
    requires
        !s.capture_shift_annotates,
        toolbar.shortcuts == toolbar_shortcuts(s),
        toolbar.capture == shown(s.show_capture, CaptureFace::Plain),
    ensures
        toolbar.with_shift_held(held.shift).capture == toolbar.capture,
        toolbar.capture_clicked(keyboard_shift) != Some(ToolbarAction::<S>::Annotate),
        toolbar.with_shift_held(held.shift).answered(key, held, 0) matches Some(done)
            ==> done.1 != Some(ToolbarAction::<S>::Annotate),
{
    let shifted = toolbar.with_shift_held(held.shift);
    assert forall|j: int| 0 <= j < shifted.shortcuts.len() implies (
    #[trigger] shifted.shortcuts[j]).action != ShortcutAction::Annotate by {
        let before = s.modes.len() + s.tools.len();
        if j >= before {
            assert(shifted.shortcuts[j] == action_shortcuts(s)[j - before]);
        }
    }
    lemma_never_annotates(shifted, key, held, 0);
}

proof fn lemma_never_annotates<S>(toolbar: ToolbarView<S>, key: Key, held: Modifiers, from: int)
    requires
        0 <= from,
        forall|j: int|
            0 <= j < toolbar.shortcuts.len() ==> (#[trigger] toolbar.shortcuts[j]).action
                != ShortcutAction::Annotate,
    ensures
        toolbar.answered(key, held, from) matches Some(done) ==> done.1 != Some(
            ToolbarAction::<S>::Annotate,
        ),
    decreases toolbar.shortcuts.len() - from,
{
    if from < toolbar.shortcuts.len() {
        lemma_never_annotates(toolbar, key, held, from + 1);
    }
}

/// The key of a tool does what a press of its button does, as long as no earlier shortcut has
/// the same key and no earlier button the same tool.
pub proof fn a_tool_key_presses_its_button<S>(toolbar: ToolbarView<S>, s: ToolbarSpecView, i: int)
    requires
        toolbar.tools == s.tools,
        toolbar.shortcuts == toolbar_shortcuts(s),
        0 <= i < s.tools.len() <= usize::MAX,
        forall|j: int| 0 <= j < i ==> (#[trigger] s.tools[j]).kind != s.tools[i].kind,
        forall|j: int|
            0 <= j < s.modes.len() + i ==> !is_pressed(
                #[trigger] toolbar.shortcuts[j],
                s.tools[i].key,
                Modifiers::no_modifiers(),
            ),
    ensures
        toolbar.answered(s.tools[i].key, Modifiers::no_modifiers(), 0) == Some(
            toolbar.tool_pressed(i as usize),
        ),
{
    let none = Modifiers::no_modifiers();
    let at = s.modes.len() + i;
    assert(toolbar.shortcuts[at] == Shortcut {
        key: s.tools[i].key,
        modifiers: none,
        action: ShortcutAction::Tool(s.tools[i].kind),
    });
    lemma_first_tool(s.tools, i, 0);
    lemma_answered_at(toolbar, s.tools[i].key, none, at, 0);
}

proof fn lemma_first_tool(tools: Seq<ToolEntry>, i: int, from: int)
    requires
        0 <= from <= i < tools.len(),
        forall|j: int| 0 <= j < i ==> (#[trigger] tools[j]).kind != tools[i].kind,
    ensures
        first_tool(tools, tools[i].kind, from) == Some(i as usize),
    decreases i - from,
{
    if from < i {
        lemma_first_tool(tools, i, from + 1);
    }
}

proof fn lemma_answered_at<S>(
    toolbar: ToolbarView<S>,
    key: Key,
    held: Modifiers,
    at: int,
    from: int,
)
    requires
        0 <= from <= at < toolbar.shortcuts.len(),
        is_pressed(toolbar.shortcuts[at], key, held),
        toolbar.dispatched(toolbar.shortcuts[at].action) is Some,
        forall|j: int|
            0 <= j < at ==> !is_pressed(#[trigger] toolbar.shortcuts[j], key, held),
    ensures
        toolbar.answered(key, held, from) == toolbar.dispatched(toolbar.shortcuts[at].action),
    decreases at - from,
{
    if from < at {
        lemma_answered_at(toolbar, key, held, at, from + 1);
    }
}

/// A button that is down already sends nothing when it is pressed again.
pub proof fn a_second_press_is_silent<S>(toolbar: ToolbarView<S>, i: usize)
    ensures
        toolbar.tool_pressed(i).0.tool_pressed(i) == (toolbar.tool_pressed(i).0, None::<
            ToolbarAction<S>,
        >),
        toolbar.mode_pressed(i).0.mode_pressed(i) == (toolbar.mode_pressed(i).0, None::<
            ToolbarAction<S>,
        >),
{
}

// ---- what the toolbar asks for -------------------------------------------------------------
proof fn lemma_only_answer<S>(
    toolbar: ToolbarView<S>,
    key: Key,
    held: Modifiers,
    action: ShortcutAction,
    from: int,
)
    requires
        0 <= from <= toolbar.shortcuts.len(),
        forall|j: int|
            from <= j < toolbar.shortcuts.len() && is_pressed(
                #[trigger] toolbar.shortcuts[j],
                key,
                held,
            ) ==> toolbar.shortcuts[j].action == action,
        exists|j: int|
            from <= j < toolbar.shortcuts.len() && is_pressed(
                #[trigger] toolbar.shortcuts[j],
                key,
                held,
            ),
        toolbar.dispatched(action) is Some,
    ensures
        toolbar.answered(key, held, from) == toolbar.dispatched(action),
    decreases toolbar.shortcuts.len() - from,
{
    if !is_pressed(toolbar.shortcuts[from], key, held) {
        lemma_only_answer(toolbar, key, held, action, from + 1);
    }
}

/// The key of a tool.
pub open spec fn tool_letter(kind: ToolKind) -> Option<char> {
    match kind {
        ToolKind::Rect => Some('r'),
        ToolKind::Ellipse => Some('o'),
        ToolKind::Arrow => Some('a'),
        ToolKind::Line => Some('l'),
        ToolKind::Highlight => Some('h'),
        ToolKind::Freehand => Some('f'),
        ToolKind::Number => Some('n'),
        ToolKind::Text => Some('t'),
        ToolKind::Blur => Some('b'),
        ToolKind::Redact => Some('x'),
        ToolKind::Crop => Some('c'),
        ToolKind::Select => None,
    }
}

/// On a toolbar with the drawing tools, the letter of a tool puts that tool to use: R the
/// rectangle, O the ellipse, A the arrow, L the line, H the highlight, F the freehand stroke, N
/// the number, T the text, B the blur and X the redaction. C crops, in the editor.
pub proof fn a_letter_puts_its_tool_to_use<S>(
    toolbar: ToolbarView<S>,
    s: ToolbarSpecView,
    kind: ToolKind,
)
    requires
        is_editor_table(s.tools) || (is_overlay_table(s.tools) && kind != ToolKind::Crop),
        s.modes.len() == 0,
        toolbar.tools == s.tools,
        toolbar.shortcuts == toolbar_shortcuts(s),
        toolbar.connected,
        toolbar.active_tool is None,
        kind != ToolKind::Select,
    ensures
        ({
            let pressed = toolbar.answered(
                Key { code: tool_letter(kind)->0 as u32, unicode: tool_letter(kind) },
                Modifiers { control: false, shift: false, alt: false, super_key: false },
                0,
            );
            &&& pressed is Some
            &&& (pressed->0).1 == Some(ToolbarAction::<S>::ToolSelected(kind))
            &&& (pressed->0).0.active_tool matches Some(i) && i < toolbar.tools.len()
                && toolbar.tools[i as int].kind == kind
        }),
{
    let i = match kind {
        ToolKind::Rect => 0int,
        ToolKind::Ellipse => 1,
        ToolKind::Arrow => 2,
        ToolKind::Line => 3,
        ToolKind::Highlight => 4,
        ToolKind::Freehand => 5,
        ToolKind::Number => 6,
        ToolKind::Text => 7,
        ToolKind::Blur => 8,
        ToolKind::Redact => 9,
        ToolKind::Crop => 10,
        ToolKind::Select => 0,
    };
    assert(s.tools[i].kind == kind && s.tools[i].key == Key::of_char(tool_letter(kind)->0));
    assert forall|j: int| 0 <= j < i implies !is_pressed(
        #[trigger] toolbar.shortcuts[j],
        s.tools[i].key,
        Modifiers::no_modifiers(),
    ) by {
        assert(toolbar.shortcuts[j].key == s.tools[j].key);
    }
    assert forall|j: int| 0 <= j < i implies (#[trigger] s.tools[j]).kind != s.tools[i].kind by {}
    a_tool_key_presses_its_button(toolbar, s, i);
}

proof fn lemma_in_either<A>(a: Seq<A>, b: Seq<A>, x: A)
    ensures
        (a + b).contains(x) <==> a.contains(x) || b.contains(x),
{
    if a.contains(x) {
        let i = choose|i: int| 0 <= i < a.len() && a[i] == x;
        assert((a + b)[i] == x);
    }
    if b.contains(x) {
        let i = choose|i: int| 0 <= i < b.len() && b[i] == x;
        assert((a + b)[a.len() + i] == x);
    }
}

proof fn lemma_only_if<A>(shown: bool, item: A, x: A)
    ensures
        only_if(shown, item).contains(x) <==> shown && x == item,
{
    if shown {
        assert(only_if(shown, item)[0] == item);
    }
}

proof fn lemma_enter_shortcuts(modifiers: Modifiers, action: ShortcutAction, x: Shortcut)
    ensures
        enter_shortcuts(modifiers, action).contains(x) <==> x.modifiers == modifiers && x.action
            == action && (x.key == plain_key(KEY_RETURN) || x.key == plain_key(KEY_KP_ENTER)),
{
    let both = enter_shortcuts(modifiers, action);
    assert(both[0].key == plain_key(KEY_RETURN) && both[1].key == plain_key(KEY_KP_ENTER));
    if both.contains(x) {
        let i = choose|i: int| 0 <= i < both.len() && both[i] == x;
    } else {
        assert(both[0] != x && both[1] != x);
    }
}

/// A shortcut of the buttons of a toolbar.
spec fn is_action_shortcut(s: ToolbarSpecView, x: Shortcut) -> bool {
    let none = Modifiers::no_modifiers();
    let enter = x.key == plain_key(KEY_RETURN) || x.key == plain_key(KEY_KP_ENTER);
    ||| s.show_undo && x == Shortcut {
        key: Key::of_char('z'),
        modifiers: with_control(),
        action: ShortcutAction::Undo,
    }
    ||| s.show_clear && x == Shortcut {
        key: Key::of_char('l'),
        modifiers: with_control(),
        action: ShortcutAction::Clear,
    }
    ||| s.show_passthrough_toggle && x == Shortcut {
        key: Key::of_char('p'),
        modifiers: none,
        action: ShortcutAction::Passthrough,
    }
    ||| s.show_save && x == Shortcut {
        key: Key::of_char('s'),
        modifiers: with_control(),
        action: ShortcutAction::Save,
    }
    ||| s.show_save && enter && x.modifiers == none && x.action == ShortcutAction::Save
    ||| s.show_capture && enter && x.modifiers == none && x.action == ShortcutAction::Capture
    ||| s.show_capture && s.capture_shift_annotates && enter && x.modifiers == with_shift()
        && x.action == ShortcutAction::Annotate
}

proof fn lemma_action_shortcuts(s: ToolbarSpecView, x: Shortcut)
    ensures
        action_shortcuts(s).contains(x) <==> is_action_shortcut(s, x),
{
    let none = Modifiers::no_modifiers();
    let undo = Shortcut {
        key: Key::of_char('z'),
        modifiers: with_control(),
        action: ShortcutAction::Undo,
    };
    let clear = Shortcut {
        key: Key::of_char('l'),
        modifiers: with_control(),
        action: ShortcutAction::Clear,
    };
    let passthrough = Shortcut {
        key: Key::of_char('p'),
        modifiers: none,
        action: ShortcutAction::Passthrough,
    };
    let save = Shortcut {
        key: Key::of_char('s'),
        modifiers: with_control(),
        action: ShortcutAction::Save,
    };
    let a = only_if(s.show_undo, undo);
    let b = only_if(s.show_clear, clear);
    let c = only_if(s.show_passthrough_toggle, passthrough);
    let enters = enter_shortcuts(none, ShortcutAction::Save);
    let d = if s.show_save {
        seq![save] + enters
    } else {
        Seq::empty()
    };
    let captures = enter_shortcuts(none, ShortcutAction::Capture);
    let annotates = if s.capture_shift_annotates {
        enter_shortcuts(with_shift(), ShortcutAction::Annotate)
    } else {
        Seq::empty()
    };
    let e = if s.show_capture {
        captures + annotates
    } else {
        Seq::empty()
    };
    lemma_only_if(s.show_undo, undo, x);
    lemma_only_if(s.show_clear, clear, x);
    lemma_only_if(s.show_passthrough_toggle, passthrough, x);
    lemma_enter_shortcuts(none, ShortcutAction::Save, x);
    lemma_enter_shortcuts(none, ShortcutAction::Capture, x);
    lemma_enter_shortcuts(with_shift(), ShortcutAction::Annotate, x);
    assert(seq![save].contains(x) <==> x == save) by {
        assert(seq![save][0] == save);
    }
    lemma_in_either(seq![save], enters, x);
    lemma_in_either(captures, annotates, x);
    lemma_in_either(a, b, x);
    lemma_in_either(a + b, c, x);
    lemma_in_either(a + b + c, d, x);
    lemma_in_either(a + b + c + d, e, x);
    assert(action_shortcuts(s) == a + b + c + d + e);
}

/// The shortcuts of a toolbar are those of its modes and tools, which need no modifier, and
/// those of its buttons.
proof fn lemma_toolbar_shortcuts(s: ToolbarSpecView, x: Shortcut)
    ensures
        toolbar_shortcuts(s).contains(x) ==> is_action_shortcut(s, x) || (x.modifiers
            == Modifiers::no_modifiers() && (exists|i: int|
            0 <= i < s.tools.len() && x.key == (#[trigger] s.tools[i]).key || exists|i: int|
            0 <= i < s.modes.len() && x.key == (#[trigger] s.modes[i]).key)),
        is_action_shortcut(s, x) ==> toolbar_shortcuts(s).contains(x),
{
    let (m, t, a) = (mode_shortcuts(s.modes), tool_shortcuts(s.tools), action_shortcuts(s));
    lemma_action_shortcuts(s, x);
    lemma_in_either(m, t, x);
    lemma_in_either(m + t, a, x);
    if m.contains(x) {
        let i = choose|i: int| 0 <= i < m.len() && m[i] == x;
        assert(x.key == s.modes[i].key);
    }
    if t.contains(x) {
        let i = choose|i: int| 0 <= i < t.len() && t[i] == x;
        assert(x.key == s.tools[i].key);
    }
}

/// A shortcut that is there answers its key, where no shortcut for anything else has the key.
proof fn lemma_shortcut_answers<S>(
    toolbar: ToolbarView<S>,
    key: Key,
    held: Modifiers,
    x: Shortcut,
)
    requires
        toolbar.shortcuts.contains(x),
        is_pressed(x, key, held),
        toolbar.dispatched(x.action) is Some,
        forall|y: Shortcut| #[trigger]
            toolbar.shortcuts.contains(y) && is_pressed(y, key, held) ==> y.action == x.action,
    ensures
        toolbar.answered(key, held, 0) == toolbar.dispatched(x.action),
{
    let k = choose|k: int| 0 <= k < toolbar.shortcuts.len() && toolbar.shortcuts[k] == x;
    assert(is_pressed(toolbar.shortcuts[k], key, held));
    assert forall|j: int|
        0 <= j < toolbar.shortcuts.len() && is_pressed(
            #[trigger] toolbar.shortcuts[j],
            key,
            held,
        ) implies toolbar.shortcuts[j].action == x.action by {
        assert(toolbar.shortcuts.contains(toolbar.shortcuts[j]));
    }
    lemma_only_answer(toolbar, key, held, x.action, 0);
}

/// On a toolbar that has them, Ctrl+Z undoes, Ctrl+L clears and Ctrl+S saves.
pub proof fn control_keys_do_what_they_are_for<S>(toolbar: ToolbarView<S>, s: ToolbarSpecView)
    requires
        toolbar.shortcuts == toolbar_shortcuts(s),
        toolbar.connected,
    ensures
        ({
            let control = Modifiers {
                control: true,
                shift: false,
                alt: false,
                super_key: false,
            };
            let key = |c: char| Key { code: c as u32, unicode: Some(c) };
            &&& s.show_undo ==> toolbar.answered(key('z'), control, 0) == Some(
                (toolbar, Some(ToolbarAction::<S>::Undo)),
            )
            &&& s.show_clear ==> toolbar.answered(key('l'), control, 0) == Some(
                (toolbar, Some(ToolbarAction::<S>::Clear)),
            )
            &&& s.show_save ==> toolbar.answered(key('s'), control, 0) == Some(
                (toolbar, Some(ToolbarAction::<S>::Save)),
            )
        }),
{
    let control = with_control();
    let none = Modifiers::no_modifiers();
    let undo = Shortcut {
        key: Key::of_char('z'),
        modifiers: control,
        action: ShortcutAction::Undo,
    };
    let clear = Shortcut {
        key: Key::of_char('l'),
        modifiers: control,
        action: ShortcutAction::Clear,
    };
    let save = Shortcut {
        key: Key::of_char('s'),
        modifiers: control,
        action: ShortcutAction::Save,
    };
    lemma_toolbar_shortcuts(s, undo);
    lemma_toolbar_shortcuts(s, clear);
    lemma_toolbar_shortcuts(s, save);
    assert forall|y: Shortcut| #[trigger]
        toolbar.shortcuts.contains(y) implies is_action_shortcut(s, y) || y.modifiers == none by {
        lemma_toolbar_shortcuts(s, y);
    }
    if s.show_undo {
        lemma_shortcut_answers(toolbar, undo.key, control, undo);
    }
    if s.show_clear {
        lemma_shortcut_answers(toolbar, clear.key, control, clear);
    }
    if s.show_save {
        lemma_shortcut_answers(toolbar, save.key, control, save);
    }
}

/// No tool and no mode has a key that is not a character, such as Enter.
pub open spec fn has_letters_only(s: ToolbarSpecView) -> bool {
    &&& forall|i: int|
        0 <= i < s.tools.len() ==> (#[trigger] s.tools[i]).key.code < 0xff00
    &&& forall|i: int|
        0 <= i < s.modes.len() ==> (#[trigger] s.modes[i]).key.code < 0xff00
}

/// Enter saves on a toolbar that saves and captures on one that captures, and there Shift+Enter
/// annotates, where that is allowed. Both Enter keys do.
pub proof fn enter_saves_or_captures<S>(toolbar: ToolbarView<S>, s: ToolbarSpecView, keypad: bool)
    requires
        toolbar.shortcuts == toolbar_shortcuts(s),
        toolbar.connected,
        has_letters_only(s),
        !(s.show_save && s.show_capture),
    ensures
        ({
            let none = Modifiers { control: false, shift: false, alt: false, super_key: false };
            let enter = Key {
                code: if keypad {
                    KEY_KP_ENTER
                } else {
                    KEY_RETURN
                },
                unicode: None,
            };
            let shift = Modifiers { shift: true, ..none };
            &&& s.show_save ==> toolbar.answered(enter, none, 0) == Some(
                (toolbar, Some(ToolbarAction::<S>::Save)),
            )
            &&& s.show_capture ==> toolbar.answered(enter, none, 0) == Some(
                (toolbar, Some(ToolbarAction::<S>::Capture)),
            )
            &&& s.show_capture && s.capture_shift_annotates ==> toolbar.answered(enter, shift, 0)
                == Some((toolbar, Some(ToolbarAction::<S>::Annotate)))
        }),
{
    let none = Modifiers::no_modifiers();
    let shift = with_shift();
    let enter = plain_key(
        if keypad {
            KEY_KP_ENTER
        } else {
            KEY_RETURN
        },
    );
    let save = Shortcut { key: enter, modifiers: none, action: ShortcutAction::Save };
    let capture = Shortcut { key: enter, modifiers: none, action: ShortcutAction::Capture };
    let annotate = Shortcut { key: enter, modifiers: shift, action: ShortcutAction::Annotate };
    lemma_toolbar_shortcuts(s, save);
    lemma_toolbar_shortcuts(s, capture);
    lemma_toolbar_shortcuts(s, annotate);
    assert forall|y: Shortcut| #[trigger]
        toolbar.shortcuts.contains(y) implies is_action_shortcut(s, y) || y.key.code < 0xff00 by {
        lemma_toolbar_shortcuts(s, y);
    }
    if s.show_save {
        lemma_shortcut_answers(toolbar, enter, none, save);
    }
    if s.show_capture {
        lemma_shortcut_answers(toolbar, enter, none, capture);
        if s.capture_shift_annotates {
            lemma_shortcut_answers(toolbar, enter, shift, annotate);
        }
    }
}

/// On a toolbar that has it, P toggles whether clicks go through, where no tool and no mode has
/// that letter.
pub proof fn p_toggles_passthrough<S>(toolbar: ToolbarView<S>, s: ToolbarSpecView, on: bool)
    requires
        toolbar.shortcuts == toolbar_shortcuts(s),
        toolbar.connected,
        s.show_passthrough_toggle,
        toolbar.passthrough == Some(on),
        forall|i: int|
            0 <= i < s.tools.len() ==> !keys_match(
                (#[trigger] s.tools[i]).key,
                Key::of_char('p'),
            ),
        forall|i: int|
            0 <= i < s.modes.len() ==> !keys_match(
                (#[trigger] s.modes[i]).key,
                Key::of_char('p'),
            ),
    ensures
        toolbar.answered(
            Key { code: 'p' as u32, unicode: Some('p') },
            Modifiers { control: false, shift: false, alt: false, super_key: false },
            0,
        ) == Some(
            (
                ToolbarView { passthrough: Some(!on), ..toolbar },
                Some(ToolbarAction::<S>::PassthroughToggled(!on)),
            ),
        ),
{
    let none = Modifiers::no_modifiers();
    let p = Shortcut {
        key: Key::of_char('p'),
        modifiers: none,
        action: ShortcutAction::Passthrough,
    };
    lemma_toolbar_shortcuts(s, p);
    assert forall|y: Shortcut| #[trigger] toolbar.shortcuts.contains(y) && is_pressed(
        y,
        p.key,
        none,
    ) implies y.action == p.action by {
        lemma_toolbar_shortcuts(s, y);
    }
    lemma_shortcut_answers(toolbar, p.key, none, p);
}

/// The keys 1 to 4 choose the modes Full, Screen, Window and Region.
pub proof fn a_digit_chooses_its_mode<S>(toolbar: ToolbarView<S>, s: ToolbarSpecView, mode: ModeKind)
    requires
        is_mode_table(s.modes),
        s.tools.len() == 0,
        toolbar.modes == s.modes,
        toolbar.shortcuts == toolbar_shortcuts(s),
        toolbar.connected,
        toolbar.active_mode is None,
    ensures
        ({
            let digit = match mode {
                ModeKind::Full => '1',
                ModeKind::Screen => '2',
                ModeKind::Window => '3',
                ModeKind::Region => '4',
            };
            let pressed = toolbar.answered(
                Key { code: digit as u32, unicode: Some(digit) },
                Modifiers { control: false, shift: false, alt: false, super_key: false },
                0,
            );
            &&& pressed is Some
            &&& (pressed->0).1 == Some(ToolbarAction::<S>::ModeSelected(mode))
            &&& (pressed->0).0.active_mode matches Some(i) && i < toolbar.modes.len()
                && toolbar.modes[i as int].kind == mode
        }),
{
    let none = Modifiers::no_modifiers();
    let i = match mode {
        ModeKind::Full => 0int,
        ModeKind::Screen => 1,
        ModeKind::Window => 2,
        ModeKind::Region => 3,
    };
    let key = s.modes[i].key;
    assert forall|j: int| 0 <= j < 4 implies #[trigger] toolbar.shortcuts[j] == (Shortcut {
        key: s.modes[j].key,
        modifiers: none,
        action: ShortcutAction::Mode(s.modes[j].kind),
    }) by {
        assert(toolbar.shortcuts[j] == mode_shortcuts(s.modes)[j]);
    }
    reveal_with_fuel(first_mode, 5);
    assert(first_mode(toolbar.modes, mode, 0) == Some(i as usize));
    assert forall|j: int| 0 <= j < i implies !is_pressed(
        #[trigger] toolbar.shortcuts[j],
        key,
        none,
    ) by {
        assert(toolbar.shortcuts[j].key == s.modes[j].key);
    }
    lemma_answered_at(toolbar, key, none, i, 0);
}

/// A button that is pressed is down, and tells its tool or its mode once. Nobody is told where
/// nobody listens.
pub proof fn a_pressed_button_is_down<S>(toolbar: ToolbarView<S>, i: usize)
    ensures
        ({
            let (after, action) = toolbar.tool_pressed(i);
            &&& after == (ToolbarView { active_tool: Some(i), ..toolbar })
            &&& action == (if toolbar.connected && toolbar.active_tool != Some(i) {
                Some(ToolbarAction::<S>::ToolSelected(toolbar.tools[i as int].kind))
            } else {
                None
            })
        }),
        ({
            let (after, action) = toolbar.mode_pressed(i);
            &&& after == (ToolbarView { active_mode: Some(i), ..toolbar })
            &&& action == (if toolbar.connected && toolbar.active_mode != Some(i) {
                Some(ToolbarAction::<S>::ModeSelected(toolbar.modes[i as int].kind))
            } else {
                None
            })
        }),
{
}

/// A toggle turns to the other side and tells which, and a second click turns it back.
pub proof fn a_toggle_turns_to_the_other_side<S>(toolbar: ToolbarView<S>, on: bool)
    requires
        toolbar.connected,
    ensures
        toolbar.cursor == Some(on) ==> {
            let once = toolbar.dispatched(ShortcutAction::Cursor)->0;
            &&& once == (
                ToolbarView { cursor: Some(!on), ..toolbar },
                Some(ToolbarAction::<S>::CursorToggled(!on)),
            )
            &&& (once.0.dispatched(ShortcutAction::Cursor)->0).0 == toolbar
        },
        toolbar.passthrough == Some(on) ==> {
            let once = toolbar.dispatched(ShortcutAction::Passthrough)->0;
            &&& once == (
                ToolbarView { passthrough: Some(!on), ..toolbar },
                Some(ToolbarAction::<S>::PassthroughToggled(!on)),
            )
            &&& (once.0.dispatched(ShortcutAction::Passthrough)->0).0 == toolbar
        },
        toolbar.cursor is None ==> toolbar.dispatched(ShortcutAction::Cursor) is None,
        toolbar.passthrough is None ==> toolbar.dispatched(ShortcutAction::Passthrough) is None,
        toolbar.button_clicked(ToolbarItem::Undo) == Some(ToolbarAction::<S>::Undo),
        toolbar.button_clicked(ToolbarItem::Clear) == Some(ToolbarAction::<S>::Clear),
        toolbar.button_clicked(ToolbarItem::Save) == Some(ToolbarAction::<S>::Save),
{
}

/// A click on the capture button captures, and with Shift held annotates, where that is allowed.
/// The face of the button shows which of the two it will be.
pub proof fn shift_turns_a_capture_into_an_annotation<S>(toolbar: ToolbarView<S>, shift: bool)
    requires
        toolbar.connected,
        toolbar.capture is Some,
    ensures
        ({
            let held = toolbar.with_shift_held(shift);
            let allowed = toolbar.capture != Some(CaptureFace::Plain);
            &&& held.capture_clicked(shift) == Some(
                if shift && allowed {
                    ToolbarAction::<S>::Annotate
                } else {
                    ToolbarAction::Capture
                },
            )
            &&& held.capture == Some(CaptureFace::Annotate) <==> shift && allowed
            &&& held.capture == Some(CaptureFace::Plain) <==> !allowed
            &&& held == (ToolbarView { capture: held.capture, ..toolbar })
        }),
{
}

/// The delay goes up and down by whole seconds, one or five, and stays between none and a minute.
/// It tells its new value when it has one.
pub proof fn the_delay_stays_within_a_minute<S>(toolbar: ToolbarView<S>, delta: int)
    requires
        toolbar.connected,
        toolbar.delay matches Some(now) && now <= 60,
    ensures
        ({
            let now = toolbar.delay->0;
            let (after, action) = toolbar.delay_stepped(delta);
            &&& after.delay matches Some(next) && next <= 60 && (0 <= now + delta <= 60 ==> next
                == now + delta) && (now + delta < 0 ==> next == 0) && (now + delta > 60 ==> next
                == 60) && action == (if next != now {
                Some(ToolbarAction::<S>::DelayChanged(next))
            } else {
                None
            })
            &&& after == (ToolbarView { delay: after.delay, ..toolbar })
        }),
        delay_change(true, false) == 1 && delay_change(false, false) == -1,
        delay_change(true, true) == 5 && delay_change(false, true) == -5,
{
}

/// A picker shows what was picked and tells it. A color that was not picked after all changes
/// nothing.
pub proof fn a_picker_shows_what_was_picked<S>(
    toolbar: ToolbarView<S>,
    color: [S; 4],
    style: StrokeStyle,
    size: FontSize<S>,
)
    requires
        toolbar.connected,
    ensures
        toolbar.color is Some ==> toolbar.color_picked(Some(color)) == (
            ToolbarView { color: Some(color), ..toolbar },
            Some(ToolbarAction::<S>::ColorChanged(color)),
        ),
        toolbar.color_picked(None) == (toolbar, None::<ToolbarAction<S>>),
        toolbar.style is Some ==> toolbar.style_picked(style).0 == (ToolbarView {
            style: Some(style),
            ..toolbar
        }),
        toolbar.style matches Some(now) ==> (now != style ==> toolbar.style_picked(style).1 == Some(
            ToolbarAction::<S>::StrokeStyleChanged(style),
        )),
        toolbar.font_size is Some ==> toolbar.font_size_picked(size) == (
            ToolbarView { font_size: Some(size.asked), ..toolbar },
            Some(ToolbarAction::<S>::FontSizeChanged(size)),
        ),
{
}

proof fn lemma_last_tool(tools: Seq<ToolEntry>, kind: ToolKind, n: nat)
    requires
        n <= tools.len() <= usize::MAX,
    ensures
        match last_tool(tools, kind, n) {
            Some(i) => i < n && tools[i as int].kind == kind,
            None => forall|j: int| 0 <= j < n ==> (#[trigger] tools[j]).kind != kind,
        },
    decreases n,
{
    if n > 0 && tools[n - 1].kind != kind {
        lemma_last_tool(tools, kind, (n - 1) as nat);
    }
}

proof fn lemma_last_mode(modes: Seq<ModeEntry>, kind: ModeKind, n: nat)
    requires
        n <= modes.len() <= usize::MAX,
    ensures
        match last_mode(modes, kind, n) {
            Some(i) => i < n && modes[i as int].kind == kind,
            None => forall|j: int| 0 <= j < n ==> (#[trigger] modes[j]).kind != kind,
        },
    decreases n,
{
    if n > 0 && modes[n - 1].kind != kind {
        lemma_last_mode(modes, kind, (n - 1) as nat);
    }
}

/// The button of a tool is one that stands for the tool, and a tool has none only where no
/// button does. Likewise the button of a mode.
pub proof fn a_button_stands_for_its_tool(
    tools: Seq<ToolEntry>,
    modes: Seq<ModeEntry>,
    kind: ToolKind,
    mode: ModeKind,
)
    requires
        tools.len() <= usize::MAX,
        modes.len() <= usize::MAX,
    ensures
        match button_of_tool(tools, kind) {
            Some(i) => i < tools.len() && tools[i as int].kind == kind,
            None => forall|j: int| 0 <= j < tools.len() ==> (#[trigger] tools[j]).kind != kind,
        },
        match button_of_mode(modes, mode) {
            Some(i) => i < modes.len() && modes[i as int].kind == mode,
            None => forall|j: int| 0 <= j < modes.len() ==> (#[trigger] modes[j]).kind != mode,
        },
{
    lemma_last_tool(tools, kind, tools.len());
    lemma_last_mode(modes, mode, modes.len());
}

/// A toolbar has a control exactly where it is asked to show it, and begins with the values that
/// it is given. The delay is at most a minute.
pub proof fn a_toolbar_shows_what_it_is_asked_to<S>(
    s: ToolbarSpecView,
    color: [S; 4],
    font_size: S,
)
    ensures
        ({
            let t = ToolbarView::<S>::built(s, color, font_size);
            &&& t.tools == s.tools && t.modes == s.modes && !t.connected
            &&& t.cursor == (if s.show_cursor_toggle {
                Some(s.initial_cursor)
            } else {
                None
            })
            &&& t.passthrough == (if s.show_passthrough_toggle {
                Some(s.initial_passthrough)
            } else {
                None
            })
            &&& t.delay is Some <==> s.show_delay_spinner
            &&& t.delay matches Some(d) ==> d <= 60 && (s.initial_delay_secs <= 60 ==> d
                == s.initial_delay_secs)
            &&& t.capture is Some <==> s.show_capture
            &&& t.capture matches Some(face) ==> (face == CaptureFace::Plain
                <==> !s.capture_shift_annotates) && face != CaptureFace::Annotate
            &&& t.color == (if s.show_color_picker {
                Some(color)
            } else {
                None
            })
            &&& t.style == (if s.show_style_picker {
                Some(StrokeStyle::Solid)
            } else {
                None
            })
            &&& t.font_size == (if s.show_font_size_picker {
                Some(font_size)
            } else {
                None
            })
            &&& s.initial_tool is None ==> t.active_tool is None
            &&& s.initial_mode is None ==> t.active_mode is None
            &&& s.initial_tool matches Some(kind) ==> t.active_tool == button_of_tool(s.tools, kind)
            &&& s.initial_mode matches Some(mode) ==> t.active_mode == button_of_mode(s.modes, mode)
        }),
{
}

/// A toolbar shows a button for each tool and each mode, and each control that it is asked for
/// and no other.
pub proof fn every_control_is_shown_where_asked_for(s: ToolbarSpecView, i: usize)
    requires
        s.tools.len() <= usize::MAX,
        s.modes.len() <= usize::MAX,
    ensures
        ({
            let items = toolbar_items(s);
            &&& items.contains(ToolbarItem::Tool(i)) <==> i < s.tools.len()
            &&& items.contains(ToolbarItem::Mode(i)) <==> i < s.modes.len()
            &&& items.contains(ToolbarItem::ColorPicker) <==> s.show_color_picker
            &&& items.contains(ToolbarItem::StylePicker) <==> s.show_style_picker
            &&& items.contains(ToolbarItem::FontSizePicker) <==> s.show_font_size_picker
            &&& items.contains(ToolbarItem::Undo) <==> s.show_undo
            &&& items.contains(ToolbarItem::Clear) <==> s.show_clear
            &&& items.contains(ToolbarItem::CursorToggle) <==> s.show_cursor_toggle
            &&& items.contains(ToolbarItem::Delay) <==> s.show_delay_spinner
            &&& items.contains(ToolbarItem::PassthroughToggle) <==> s.show_passthrough_toggle
            &&& items.contains(ToolbarItem::Save) <==> s.show_save
            &&& items.contains(ToolbarItem::Capture) <==> s.show_capture
        }),
{
    lemma_item(s, ToolbarItem::Tool(i));
    lemma_item(s, ToolbarItem::Mode(i));
    lemma_item(s, ToolbarItem::ColorPicker);
    lemma_item(s, ToolbarItem::StylePicker);
    lemma_item(s, ToolbarItem::FontSizePicker);
    lemma_item(s, ToolbarItem::Undo);
    lemma_item(s, ToolbarItem::Clear);
    lemma_item(s, ToolbarItem::CursorToggle);
    lemma_item(s, ToolbarItem::Delay);
    lemma_item(s, ToolbarItem::PassthroughToggle);
    lemma_item(s, ToolbarItem::Save);
    lemma_item(s, ToolbarItem::Capture);
}

spec fn asked_for(s: ToolbarSpecView, x: ToolbarItem) -> bool {
    match x {
        ToolbarItem::Tool(i) => i < s.tools.len(),
        ToolbarItem::Mode(i) => i < s.modes.len(),
        ToolbarItem::ColorPicker => s.show_color_picker,
        ToolbarItem::StylePicker => s.show_style_picker,
        ToolbarItem::FontSizePicker => s.show_font_size_picker,
        ToolbarItem::Undo => s.show_undo,
        ToolbarItem::Clear => s.show_clear,
        ToolbarItem::CursorToggle => s.show_cursor_toggle,
        ToolbarItem::Delay => s.show_delay_spinner,
        ToolbarItem::PassthroughToggle => s.show_passthrough_toggle,
        ToolbarItem::Save => s.show_save,
        ToolbarItem::Capture => s.show_capture,
        ToolbarItem::Separator | ToolbarItem::Spacer => false,
    }
}

proof fn lemma_item(s: ToolbarSpecView, x: ToolbarItem)
    requires
        s.tools.len() <= usize::MAX,
        s.modes.len() <= usize::MAX,
        !(x is Separator),
        !(x is Spacer),
    ensures
        toolbar_items(s).contains(x) <==> asked_for(s, x),
{
    let between = s.modes.len() > 0 && s.tools.len() > 0;
    let before = s.has_actions() && (s.modes.len() > 0 || s.tools.len() > 0);
    lemma_numbered_items(s.modes.len(), x);
    lemma_numbered_items(s.tools.len(), x);
    lemma_only_if(between, ToolbarItem::Separator, x);
    lemma_only_if(before, ToolbarItem::Spacer, x);
    lemma_picker_items(s, x);
    lemma_action_items(s, x);
    lemma_item_among(
        s,
        x,
        mode_items(s.modes.len()),
        only_if(between, ToolbarItem::Separator),
        tool_items(s.tools.len()),
        picker_items(s),
        only_if(before, ToolbarItem::Spacer),
        action_items(s),
    );
}

proof fn lemma_item_among(
    s: ToolbarSpecView,
    x: ToolbarItem,
    modes: Seq<ToolbarItem>,
    separator: Seq<ToolbarItem>,
    tools: Seq<ToolbarItem>,
    pickers: Seq<ToolbarItem>,
    spacer: Seq<ToolbarItem>,
    actions: Seq<ToolbarItem>,
)
    requires
        modes.contains(x) <==> x is Mode && asked_for(s, x),
        !separator.contains(x),
        tools.contains(x) <==> x is Tool && asked_for(s, x),
        pickers.contains(x) <==> is_picker(x) && asked_for(s, x),
        !spacer.contains(x),
        actions.contains(x) <==> !(x is Mode) && !(x is Tool) && !is_picker(x) && asked_for(s, x),
    ensures
        (modes + separator + tools + pickers + spacer + actions).contains(x) <==> asked_for(s, x),
{
    lemma_in_any(modes, separator, tools, pickers, spacer, actions, x);
}

spec fn is_picker(x: ToolbarItem) -> bool {
    x is ColorPicker || x is StylePicker || x is FontSizePicker
}

proof fn lemma_numbered_items(count: nat, x: ToolbarItem)
    requires
        count <= usize::MAX,
    ensures
        mode_items(count).contains(x) <==> (x matches ToolbarItem::Mode(i) && i < count),
        tool_items(count).contains(x) <==> (x matches ToolbarItem::Tool(i) && i < count),
{
    if let ToolbarItem::Mode(i) = x {
        if i < count {
            assert(mode_items(count)[i as int] == x);
        }
    }
    if let ToolbarItem::Tool(i) = x {
        if i < count {
            assert(tool_items(count)[i as int] == x);
        }
    }
}

proof fn lemma_in_any<A>(a: Seq<A>, b: Seq<A>, c: Seq<A>, d: Seq<A>, e: Seq<A>, f: Seq<A>, x: A)
    ensures
        (a + b + c + d + e + f).contains(x) <==> a.contains(x) || b.contains(x) || c.contains(x)
            || d.contains(x) || e.contains(x) || f.contains(x),
{
    lemma_in_either(a, b, x);
    lemma_in_either(a + b, c, x);
    lemma_in_either(a + b + c, d, x);
    lemma_in_either(a + b + c + d, e, x);
    lemma_in_either(a + b + c + d + e, f, x);
}

proof fn lemma_picker_items(s: ToolbarSpecView, x: ToolbarItem)
    ensures
        !(x is Separator) ==> (picker_items(s).contains(x) <==> is_picker(x) && asked_for(s, x)),
{
    let some = s.show_color_picker || s.show_style_picker || s.show_font_size_picker;
    let separated = some && s.tools.len() > 0;
    lemma_only_if(separated, ToolbarItem::Separator, x);
    lemma_only_if(s.show_color_picker, ToolbarItem::ColorPicker, x);
    lemma_only_if(s.show_style_picker, ToolbarItem::StylePicker, x);
    lemma_only_if(s.show_font_size_picker, ToolbarItem::FontSizePicker, x);
    let a = only_if(separated, ToolbarItem::Separator);
    let b = only_if(s.show_color_picker, ToolbarItem::ColorPicker);
    let c = only_if(s.show_style_picker, ToolbarItem::StylePicker);
    let d = only_if(s.show_font_size_picker, ToolbarItem::FontSizePicker);
    lemma_in_either(a, b, x);
    lemma_in_either(a + b, c, x);
    lemma_in_either(a + b + c, d, x);
}

proof fn lemma_action_items(s: ToolbarSpecView, x: ToolbarItem)
    ensures
        action_items(s).contains(x) <==> !(x is Mode) && !(x is Tool) && !is_picker(x)
            && asked_for(s, x),
{
    lemma_only_if(s.show_undo, ToolbarItem::Undo, x);
    lemma_only_if(s.show_clear, ToolbarItem::Clear, x);
    lemma_only_if(s.show_cursor_toggle, ToolbarItem::CursorToggle, x);
    lemma_only_if(s.show_delay_spinner, ToolbarItem::Delay, x);
    lemma_only_if(s.show_passthrough_toggle, ToolbarItem::PassthroughToggle, x);
    lemma_only_if(s.show_save, ToolbarItem::Save, x);
    lemma_only_if(s.show_capture, ToolbarItem::Capture, x);
    let a = only_if(s.show_undo, ToolbarItem::Undo);
    let b = only_if(s.show_clear, ToolbarItem::Clear);
    let c = only_if(s.show_cursor_toggle, ToolbarItem::CursorToggle);
    let d = only_if(s.show_delay_spinner, ToolbarItem::Delay);
    let e = only_if(s.show_passthrough_toggle, ToolbarItem::PassthroughToggle);
    let f = only_if(s.show_save, ToolbarItem::Save);
    let g = only_if(s.show_capture, ToolbarItem::Capture);
    lemma_in_either(a, b, x);
    lemma_in_either(a + b, c, x);
    lemma_in_either(a + b + c, d, x);
    lemma_in_either(a + b + c + d, e, x);
    lemma_in_either(a + b + c + d + e, f, x);
    lemma_in_either(a + b + c + d + e + f, g, x);
}

/// The value of a hexadecimal digit.
pub open spec fn hex_value(c: char) -> int {
    if '0' <= c && c <= '9' {
        c as int - '0' as int
    } else {
        c as int - 'a' as int + 10
    }
}

/// A color is written as a number sign and then red, green and blue, two digits each, from which
/// they can be read back. Alpha follows in the same way, unless the color is opaque.
pub proof fn a_written_color_reads_back(rgba: [u8; 4], i: int)
    requires
        0 <= i < 4,
    ensures
        ({
            let text = hex_color(rgba);
            let opaque = rgba@[3] == 255;
            &&& text[0] == '#'
            &&& text.len() == (if opaque {
                7int
            } else {
                9
            })
            &&& i < 3 || !opaque ==> 16 * hex_value(text[1 + 2 * i]) + hex_value(text[2 + 2 * i])
                == rgba@[i]
        }),
{
    let text = hex_color(rgba);
    if i < 3 || rgba@[3] != 255 {
        let byte = rgba@[i];
        assert(text[1 + 2 * i] == hex_pair(byte)[0] && text[2 + 2 * i] == hex_pair(byte)[1]);
        lemma_hex_digit(byte as int / 16);
        lemma_hex_digit(byte as int % 16);
    }
}

proof fn lemma_hex_digit(d: int)
    requires
        0 <= d < 16,
    ensures
        hex_value(hex_digit_char(d)) == d,
{
}

} // verus!
