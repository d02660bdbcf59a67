//! The overlay over all monitors: drawing on the live screen, and annotating a captured picture
//! in place. One toolbar serves all monitors; each monitor has a canvas of its own.

use vstd::prelude::*;

use crate::region::Rect;
use crate::ui::canvas::{AnnotateColors, AnnotationCanvas, Effects, Look};
use crate::ui::picture::{
    base_from_rgba, exchange_red_and_blue, slice_pixels, CapturedImage,
};
use crate::ui::keys::{Key, KEY_ESCAPE};
use crate::ui::sinks::{adopt_output_mode, resolve_sinks, OutputMode, SinkSelection, SinkSpec};
use crate::ui::toolbar::{
    editor_tools, overlay_tools, Toolbar, ToolbarAction, ToolbarSpec, ToolbarSpecView, ToolbarView,
};
use crate::ui::tools::{
    kind_has_font_size, kind_is_colorable, kind_is_styleable, Document, DocumentBase, FontSize,
    StrokeStyle, ToolKind,
};

verus! {

use crate::ui::canvas::{fresh_canvas, lookup, CanvasView};
use crate::ui::picture::{
    a_piece_shows_what_the_picture_does, a_pixel_keeps_its_green_and_alpha,
    exchanging_twice_changes_nothing, holds, is_piece, red_and_blue_exchanged,
};
use crate::ui::sinks::{mode_of, resolved_sinks, sink_views, sinks_for, SinkView};
use crate::ui::toolbar::{button_of_tool, is_editor_table, is_overlay_table, shown};
use crate::ui::tools::{colorable, sized, styleable, DocumentView};

/// How the overlay behaves.
#[derive(Debug)]
pub enum OverlayMode {
    /// Drawing on the live screen.
    Draw {
        /// Clicks go through from the start.
        passthrough: bool,
        /// Where a save goes. None stands for the configured sinks.
        sinks: Vec<SinkSpec>,
        /// The cursor is captured too.
        cursor: bool,
    },
    /// Annotating a picture in place.
    Edit {
        base: DocumentBase,
        /// Where the upper left corner of the picture lies, in logical coordinates.
        origin: (i32, i32),
        sinks: Vec<SinkSpec>,
    },
}

/// A command from outside to an open overlay.
#[derive(Clone, Copy, Debug, PartialEq, Eq, Structural)]
pub enum OverlayCommand {
    /// Flips passthrough, as the toolbar's button does.
    TogglePassthrough,
}

/// The picture that is annotated, and where it lies.
#[derive(Debug)]
pub struct EditState {
    pub base: DocumentBase,
    pub origin: (i32, i32),
}

impl EditState {
    /// Where the picture lies.
    pub open spec fn area(self) -> Rect {
        Rect {
            x: self.origin.0,
            y: self.origin.1,
            w: self.base.width,
            h: self.base.height,
        }
    }

    /// The bytes of the picture are all there, and its rows can be counted.
    pub open spec fn wf(self) -> bool {
        &&& 4 * self.base.width <= u32::MAX
        &&& holds(
            self.base.pixels@.len(),
            self.base.width as int,
            self.base.height as int,
            self.base.stride as int,
        )
    }
}

/// The canvas of one monitor.
#[derive(Debug)]
pub struct MonitorCanvas<N, S> {
    /// The place of the monitor in the display's list.
    pub index: usize,
    pub canvas: AnnotationCanvas<N, S>,
    /// The part of the annotated picture that lies on the monitor.
    pub slice: Option<Rect>,
    /// Where the monitor lies.
    pub monitor_rect: Rect,
}

/// The contents of a [`MonitorCanvas`].
pub struct MonitorView<N, S> {
    pub index: usize,
    pub canvas: CanvasView<N, S>,
    pub slice: Option<Rect>,
    pub monitor_rect: Rect,
}

impl<N, S> View for MonitorCanvas<N, S> {
    type V = MonitorView<N, S>;

    open spec fn view(&self) -> MonitorView<N, S> {
        MonitorView {
            index: self.index,
            canvas: self.canvas@,
            slice: self.slice,
            monitor_rect: self.monitor_rect,
        }
    }
}

/// The contents of a list of monitors.
pub open spec fn monitor_views<N, S>(monitors: Seq<MonitorCanvas<N, S>>) -> Seq<
    MonitorView<N, S>,
> {
    monitors.map_values(|m: MonitorCanvas<N, S>| m@)
}

/// Every canvas of the list is well formed.
pub open spec fn all_wf<N, S>(monitors: Seq<MonitorCanvas<N, S>>) -> bool {
    forall|i: int| 0 <= i < monitors.len() ==> (#[trigger] monitors[i]).canvas.wf()
}

/// An open overlay.
#[derive(Debug)]
pub struct Overlay<N, S> {
    pub passthrough: bool,
    pub current_tool: ToolKind,
    pub canvases: Vec<MonitorCanvas<N, S>>,
    pub toolbar: Toolbar<S>,
    /// The picture that is annotated. `None` while drawing on the live screen.
    pub edit: Option<EditState>,
    /// Where saves go.
    pub sinks: SinkSelection,
    /// The cursor is captured too when the drawing is saved.
    pub cursor: bool,
    /// The screen is being captured for blurs to draw from.
    pub blur_capture_in_flight: bool,
}

/// The contents of an [`Overlay`].
pub struct OverlayView<N, S> {
    pub passthrough: bool,
    pub tool: ToolKind,
    pub canvases: Seq<MonitorView<N, S>>,
    pub toolbar: ToolbarView<S>,
    pub edit: Option<EditState>,
    pub sinks: Seq<SinkView>,
    pub output: OutputMode,
    pub cursor: bool,
    pub capturing: bool,
}

impl<N, S> View for Overlay<N, S> {
    type V = OverlayView<N, S>;

    open spec fn view(&self) -> OverlayView<N, S> {
        OverlayView {
            passthrough: self.passthrough,
            tool: self.current_tool,
            canvases: monitor_views(self.canvases@),
            toolbar: self.toolbar@,
            edit: self.edit,
            sinks: sink_views(self.sinks.sinks@),
            output: self.sinks.current,
            cursor: self.cursor,
            capturing: self.blur_capture_in_flight,
        }
    }
}

impl<N, S> Overlay<N, S> {
    pub open spec fn wf(self) -> bool {
        &&& all_wf(self.canvases@)
        &&& self.edit matches Some(edit) ==> edit.wf()
        &&& self@.slices_lie_inside()
    }
}

/// The rectangle lies inside the other one.
pub open spec fn lies_inside(r: Rect, whole: Rect) -> bool {
    &&& whole.x <= r.x && r.right_edge() <= whole.right_edge()
    &&& whole.y <= r.y && r.bottom_edge() <= whole.bottom_edge()
}

impl<N, S> OverlayView<N, S> {
    /// Every part of the picture that lies on a monitor is a part of the picture.
    pub open spec fn slices_lie_inside(self) -> bool {
        forall|i: int|
            #![trigger self.canvases[i]]
            0 <= i < self.canvases.len() ==> match self.canvases[i].slice {
                Some(slice) => self.edit matches Some(edit) && lies_inside(slice, edit.area()),
                None => true,
            }
    }
}

/// The toolbar of the overlay. An editor has all tools; a drawing overlay has no Crop, and can
/// be cleared and clicked through.
pub open spec fn is_overlay_spec(s: ToolbarSpecView, editing: bool, passthrough: bool) -> bool {
    if editing {
        is_editor_table(s.tools) && s == (ToolbarSpecView {
            tools: s.tools,
            show_undo: true,
            show_save: true,
            show_color_picker: true,
            show_style_picker: true,
            show_font_size_picker: true,
            initial_tool: Some(ToolKind::Select),
            ..ToolbarSpecView::nothing()
        })
    } else {
        is_overlay_table(s.tools) && s == (ToolbarSpecView {
            tools: s.tools,
            show_undo: true,
            show_clear: true,
            show_save: true,
            show_passthrough_toggle: true,
            show_color_picker: true,
            show_style_picker: true,
            show_font_size_picker: true,
            initial_tool: Some(ToolKind::Select),
            initial_passthrough: passthrough,
            ..ToolbarSpecView::nothing()
        })
    }
}

/// The toolbar of the overlay.
pub fn toolbar_spec(editing: bool, passthrough: bool) -> (res: ToolbarSpec)
    ensures
        is_overlay_spec(res@, editing, passthrough),
{
    let empty = ToolbarSpec::empty();
    if editing {
        ToolbarSpec {
            tools: editor_tools(),
            show_undo: true,
            show_save: true,
            show_color_picker: true,
            show_style_picker: true,
            show_font_size_picker: true,
            initial_tool: Some(ToolKind::Select),
            ..empty
        }
    } else {
        ToolbarSpec {
            tools: overlay_tools(),
            show_undo: true,
            show_clear: true,
            show_save: true,
            show_passthrough_toggle: true,
            show_color_picker: true,
            show_style_picker: true,
            show_font_size_picker: true,
            initial_tool: Some(ToolKind::Select),
            initial_passthrough: passthrough,
            ..empty
        }
    }
}

/// What the mode asks for.
pub open spec fn asked_sinks(mode: OverlayMode) -> Seq<SinkView> {
    match mode {
        OverlayMode::Draw { passthrough: _, sinks, cursor: _ } => sink_views(sinks@),
        OverlayMode::Edit { base: _, origin: _, sinks } => sink_views(sinks@),
    }
}

pub open spec fn starts_clicked_through(mode: OverlayMode) -> bool {
    match mode {
        OverlayMode::Draw { passthrough, sinks: _, cursor: _ } => passthrough,
        OverlayMode::Edit { base: _, origin: _, sinks: _ } => false,
    }
}

pub open spec fn edit_of(mode: OverlayMode) -> Option<EditState> {
    match mode {
        OverlayMode::Draw { passthrough: _, sinks: _, cursor: _ } => None,
        OverlayMode::Edit { base, origin, sinks: _ } => Some(EditState { base, origin }),
    }
}

pub open spec fn captures_cursor(mode: OverlayMode) -> bool {
    match mode {
        OverlayMode::Draw { passthrough: _, sinks: _, cursor } => cursor,
        OverlayMode::Edit { base: _, origin: _, sinks: _ } => false,
    }
}

/// The rectangle of a monitor. A monitor has at least one pixel.
pub open spec fn monitor_area(x: i32, y: i32, width: i32, height: i32) -> Rect {
    Rect {
        x,
        y,
        w: if width < 1 {
            1
        } else {
            width as u32
        },
        h: if height < 1 {
            1
        } else {
            height as u32
        },
    }
}

/// The rectangle of a monitor.
pub fn monitor_rect(x: i32, y: i32, width: i32, height: i32) -> (res: Rect)
    ensures
        res == monitor_area(x, y, width, height),
{
    Rect {
        x,
        y,
        w: if width < 1 {
            1
        } else {
            width as u32
        },
        h: if height < 1 {
            1
        } else {
            height as u32
        },
    }
}

/// Where a monitor's canvas goes.
#[derive(Clone, Copy, Debug, PartialEq, Eq, Structural)]
pub enum Placement {
    /// Nothing of the picture lies on the monitor: it gets no window.
    Skip,
    /// The canvas fills the monitor.
    Fill,
    /// The canvas has the rectangle, inside the monitor.
    Inside(Rect),
}

/// Where the canvas of a monitor goes: over the part of the picture that lies on it.
pub open spec fn placement_of(edit: Option<EditState>, monitor: Rect) -> Placement {
    match edit {
        None => Placement::Fill,
        Some(edit) => match monitor.overlap(edit.area()) {
            None => Placement::Skip,
            Some(slice) => Placement::Inside(
                Rect {
                    x: (slice.x - monitor.x) as i32,
                    y: (slice.y - monitor.y) as i32,
                    w: slice.w,
                    h: slice.h,
                },
            ),
        },
    }
}

/// The document of a monitor's canvas is empty and as large as the monitor, or the part of the
/// picture that lies on it.
pub open spec fn starts_with<N, S>(
    doc: DocumentView<N, S>,
    edit: Option<EditState>,
    monitor: Rect,
) -> bool {
    match edit {
        None => doc == DocumentView::<N, S>::blank((monitor.w, monitor.h)),
        Some(edit) => monitor.overlap(edit.area()) matches Some(slice) && doc.base matches Some(base)
            && doc == DocumentView::<N, S>::pictured(base) && base.width == slice.w
            && base.height == slice.h && base.stride == 4 * slice.w && is_piece(
            base.pixels@,
            slice,
            edit.base.pixels@,
            edit.base.stride as int,
            edit.origin,
        ),
    }
}

/// `after` is the overlay with one monitor more, or as it was where the picture does not lie on
/// the monitor.
pub open spec fn adds_monitor<N, S>(
    before: OverlayView<N, S>,
    after: OverlayView<N, S>,
    index: usize,
    monitor: Rect,
    look: Look<N, S>,
    colors: AnnotateColors<S>,
) -> bool {
    &&& after == (OverlayView { canvases: after.canvases, ..before })
    &&& match placement_of(before.edit, monitor) {
        Placement::Skip => after.canvases == before.canvases,
        _ => {
            let added = after.canvases.last();
            &&& after.canvases.len() == before.canvases.len() + 1
            &&& after.canvases.drop_last() == before.canvases
            &&& added.index == index
            &&& added.monitor_rect == monitor
            &&& added.slice == (match before.edit {
                Some(edit) => monitor.overlap(edit.area()),
                None => None,
            })
            &&& added.canvas.doc is Some
            &&& starts_with(added.canvas.doc->0, before.edit, monitor)
            &&& added.canvas == (CanvasView {
                doc: added.canvas.doc,
                transparent: true,
                tool: before.tool,
                ..fresh_canvas(look, colors)
            })
        },
    }
}

impl<N: Copy, S: Copy> Overlay<N, S> {
    /// Opens an overlay without any monitor, with no drawing tool in use. `configured` are the
    /// sinks that are used where none were asked for; the color and the font size are what the
    /// pickers show at first.
    pub fn open(
        mode: OverlayMode,
        configured: &Vec<SinkSpec>,
        color: [S; 4],
        font_size: S,
    ) -> (res: Overlay<N, S>)
        requires
            edit_of(mode) matches Some(edit) ==> edit.wf(),
        ensures
            res.wf(),
            res@.passthrough == starts_clicked_through(mode),
            res@.tool == ToolKind::Select,
            res@.canvases.len() == 0,
            exists|s: ToolbarSpecView|
                #![trigger is_overlay_spec(s, edit_of(mode) is Some, starts_clicked_through(mode))]
                is_overlay_spec(s, edit_of(mode) is Some, starts_clicked_through(mode))
                    && res@.toolbar == (ToolbarView {
                    connected: true,
                    ..ToolbarView::built(s, color, font_size)
                }),
            res@.edit == edit_of(mode),
            res@.sinks == resolved_sinks(asked_sinks(mode), sink_views(configured@)),
            res@.output == mode_of(resolved_sinks(asked_sinks(mode), sink_views(configured@))),
            res@.cursor == captures_cursor(mode),
            !res@.capturing,
    {
        let ghost whole = mode;
        let (passthrough, edit, asked, cursor): (bool, Option<EditState>, Vec<SinkSpec>, bool) =
            match mode {
            OverlayMode::Draw { passthrough, sinks, cursor } => (passthrough, None, sinks, cursor),
            OverlayMode::Edit { base, origin, sinks } => (
                false,
                Some(EditState { base, origin }),
                sinks,
                false,
            ),
        };
        let sinks = resolve_sinks(configured, &asked);
        let spec = toolbar_spec(edit.is_some(), passthrough);
        let ghost s = spec@;
        let mut toolbar = Toolbar::new(spec, color, font_size);
        toolbar.connect();
        proof {
            assert(is_overlay_spec(s, edit_of(whole) is Some, starts_clicked_through(whole)));
        }
        Overlay {
            passthrough,
            current_tool: ToolKind::Select,
            canvases: Vec::new(),
            toolbar,
            edit,
            sinks,
            cursor,
            blur_capture_in_flight: false,
        }
    }
}

proof fn lemma_overlap_of_overlap(a: Rect, b: Rect)
    ensures
        a.overlap(b) matches Some(r) ==> {
            &&& r.overlap(b) == Some(r)
            &&& r.w > 0 && r.h > 0
            &&& b.x <= r.x && r.right_edge() <= b.right_edge()
            &&& b.y <= r.y && r.bottom_edge() <= b.bottom_edge()
            &&& a.x <= r.x && r.right_edge() <= a.right_edge()
            &&& a.y <= r.y && r.bottom_edge() <= a.bottom_edge()
        },
{
}

impl<N: Copy, S: Copy> Overlay<N, S> {
    /// Adds a monitor, with a canvas that shows nothing but its part of the picture. A monitor
    /// on which nothing of the picture lies gets none.
    pub fn add_monitor(
        &mut self,
        index: usize,
        monitor: Rect,
        look: Look<N, S>,
        colors: &AnnotateColors<S>,
    ) -> (res: Placement)
        requires
            old(self).wf(),
            monitor.w <= i32::MAX,
            monitor.h <= i32::MAX,
        ensures
            final(self).wf(),
            res == placement_of(old(self)@.edit, monitor),
            adds_monitor(old(self)@, final(self)@, index, monitor, look, *colors),
    {
        let mut canvas = AnnotationCanvas::new(look, colors);
        let slice: Option<Rect> = match &self.edit {
            Some(edit) => {
                let area = Rect {
                    x: edit.origin.0,
                    y: edit.origin.1,
                    w: edit.base.width,
                    h: edit.base.height,
                };
                proof {
                    lemma_overlap_of_overlap(monitor, area);
                }
                match monitor.intersect(&area) {
                    None => {
                        return Placement::Skip;
                    },
                    Some(slice) => {
                        if let Some(piece) = slice_pixels(
                            &edit.base.pixels,
                            edit.base.width,
                            edit.base.height,
                            edit.base.stride,
                            edit.origin,
                            slice,
                        ) {
                            canvas.set_document(
                                Document::with_base(
                                    base_from_rgba(piece.width, piece.height, piece.pixels),
                                ),
                            );
                        }
                        Some(slice)
                    },
                }
            },
            None => {
                canvas.set_empty((monitor.w, monitor.h));
                None
            },
        };
        canvas.set_transparent(true);
        canvas.set_tool(self.current_tool, (0, 0));
        let added = MonitorCanvas { index, canvas, slice, monitor_rect: monitor };
        self.canvases.push(added);
        assert(self@.canvases =~= old(self)@.canvases.push(added@));
        assert(self@.canvases.drop_last() =~= old(self)@.canvases);
        assert(self@ =~= (OverlayView { canvases: self@.canvases, ..old(self)@ }));
        assert(added@.canvas =~= (CanvasView {
            doc: added@.canvas.doc,
            transparent: true,
            tool: old(self)@.tool,
            ..fresh_canvas(look, *colors)
        }));
        match slice {
            Some(r) => Placement::Inside(
                Rect { x: r.x - monitor.x, y: r.y - monitor.y, w: r.w, h: r.h },
            ),
            None => Placement::Fill,
        }
    }
}

// ---- all canvases at once ------------------------------------------------------------------
/// The monitor with another canvas.
pub open spec fn with_canvas<N, S>(m: MonitorView<N, S>, canvas: CanvasView<N, S>) -> MonitorView<
    N,
    S,
> {
    MonitorView { canvas, ..m }
}

/// Every canvas has the tool in use.
pub open spec fn each_with_tool<N, S>(
    monitors: Seq<MonitorView<N, S>>,
    kind: ToolKind,
    measured: Seq<(u32, u32)>,
) -> Seq<MonitorView<N, S>> {
    Seq::new(
        monitors.len(),
        |i: int| with_canvas(monitors[i], monitors[i].canvas.with_tool(kind, measured[i]).canvas),
    )
}

/// A color is offered to what is being worked on, on every canvas.
pub open spec fn each_offered_color<N, S>(
    monitors: Seq<MonitorView<N, S>>,
    color: [S; 4],
) -> Seq<MonitorView<N, S>> {
    Seq::new(
        monitors.len(),
        |i: int| with_canvas(monitors[i], monitors[i].canvas.offered_color(color).canvas),
    )
}

/// Every canvas has the color for a tool.
pub open spec fn each_with_color<N, S>(
    monitors: Seq<MonitorView<N, S>>,
    kind: ToolKind,
    color: [S; 4],
) -> Seq<MonitorView<N, S>> {
    Seq::new(
        monitors.len(),
        |i: int| with_canvas(monitors[i], monitors[i].canvas.with_tool_color(kind, color).canvas),
    )
}

/// A stroke style is offered to what is being worked on, on every canvas.
pub open spec fn each_offered_style<N, S>(
    monitors: Seq<MonitorView<N, S>>,
    style: StrokeStyle,
) -> Seq<MonitorView<N, S>> {
    Seq::new(
        monitors.len(),
        |i: int| with_canvas(monitors[i], monitors[i].canvas.offered_style(style).canvas),
    )
}

/// Every canvas has the stroke style for a tool.
pub open spec fn each_with_style<N, S>(
    monitors: Seq<MonitorView<N, S>>,
    kind: ToolKind,
    style: StrokeStyle,
) -> Seq<MonitorView<N, S>> {
    Seq::new(
        monitors.len(),
        |i: int| with_canvas(monitors[i], monitors[i].canvas.with_tool_style(kind, style)),
    )
}

/// A font size is offered to what is being worked on, on every canvas.
pub open spec fn each_offered_font_size<N, S>(
    monitors: Seq<MonitorView<N, S>>,
    size: FontSize<S>,
    measured: Seq<(u32, u32)>,
) -> Seq<MonitorView<N, S>> {
    Seq::new(
        monitors.len(),
        |i: int|
            with_canvas(
                monitors[i],
                monitors[i].canvas.offered_font_size(size, measured[i]).canvas,
            ),
    )
}

/// Every canvas has the font size for a tool.
pub open spec fn each_with_font_size<N, S>(
    monitors: Seq<MonitorView<N, S>>,
    kind: ToolKind,
    size: FontSize<S>,
) -> Seq<MonitorView<N, S>> {
    Seq::new(
        monitors.len(),
        |i: int|
            with_canvas(monitors[i], monitors[i].canvas.with_tool_font_size(kind, size).canvas),
    )
}

/// Every canvas is cleared.
pub open spec fn each_cleared<N, S>(monitors: Seq<MonitorView<N, S>>) -> Seq<MonitorView<N, S>> {
    Seq::new(
        monitors.len(),
        |i: int| with_canvas(monitors[i], monitors[i].canvas.cleared().canvas),
    )
}

/// Some canvas takes the color.
pub open spec fn color_taken<N, S>(monitors: Seq<MonitorView<N, S>>, color: [S; 4]) -> bool {
    exists|i: int|
        0 <= i < monitors.len() && (#[trigger] monitors[i]).canvas.offered_color(color).taken
}

/// Some canvas takes the stroke style.
pub open spec fn style_taken<N, S>(monitors: Seq<MonitorView<N, S>>, style: StrokeStyle) -> bool {
    exists|i: int|
        0 <= i < monitors.len() && (#[trigger] monitors[i]).canvas.offered_style(style).taken
}

/// Some canvas takes the font size.
pub open spec fn font_size_taken<N, S>(
    monitors: Seq<MonitorView<N, S>>,
    size: FontSize<S>,
    measured: Seq<(u32, u32)>,
) -> bool {
    exists|i: int|
        0 <= i < monitors.len() && (#[trigger] monitors[i]).canvas.offered_font_size(
            size,
            measured[i],
        ).taken
}

fn put_tool<N: Copy, S: Copy>(
    monitors: &mut Vec<MonitorCanvas<N, S>>,
    kind: ToolKind,
    measured: &Vec<(u32, u32)>,
) -> (res: Vec<Effects>)
    requires
        all_wf(old(monitors)@),
        measured@.len() == old(monitors)@.len(),
    ensures
        all_wf(final(monitors)@),
        monitor_views(final(monitors)@) == each_with_tool(
            monitor_views(old(monitors)@),
            kind,
            measured@,
        ),
        res@.len() == old(monitors)@.len(),
        forall|i: int|
            0 <= i < res@.len() ==> #[trigger] res@[i] == monitor_views(
                old(monitors)@,
            )[i].canvas.with_tool(kind, measured@[i]).effects,
{
    let mut effects: Vec<Effects> = Vec::new();
    let ghost before = monitors@;
    let count: usize = monitors.len();
    for i in 0..count
        invariant
            all_wf(before),
            count == monitors@.len() == before.len() == measured@.len(),
            effects@.len() == i,
            forall|k: int| i <= k < count ==> monitors@[k] == before[k],
            forall|k: int|
                #![trigger monitors@[k]]
                0 <= k < i ==> monitors@[k].canvas.wf() && monitors@[k]@ == with_canvas(
                    before[k]@,
                    before[k]@.canvas.with_tool(kind, measured@[k]).canvas,
                ),
            forall|k: int|
                0 <= k < i ==> #[trigger] effects@[k] == before[k]@.canvas.with_tool(
                    kind,
                    measured@[k],
                ).effects,
    {
        let effect = monitors[i].canvas.set_tool(kind, measured[i]);
        effects.push(effect);
    }
    assert(monitor_views(monitors@) =~= each_with_tool(monitor_views(before), kind, measured@));
    effects
}

fn offer_color<N: Copy, S: Copy>(
    monitors: &mut Vec<MonitorCanvas<N, S>>,
    color: [S; 4],
) -> (res: (bool, Vec<Effects>))
    requires
        all_wf(old(monitors)@),
    ensures
        all_wf(final(monitors)@),
        monitor_views(final(monitors)@) == each_offered_color(
            monitor_views(old(monitors)@),
            color,
        ),
        res.0 == color_taken(monitor_views(old(monitors)@), color),
        res.1@.len() == old(monitors)@.len(),
        forall|i: int|
            0 <= i < res.1@.len() ==> #[trigger] res.1@[i] == monitor_views(
                old(monitors)@,
            )[i].canvas.offered_color(color).effects,
{
    let mut effects: Vec<Effects> = Vec::new();
    let mut taken: bool = false;
    let ghost before = monitors@;
    let ghost views = monitor_views(before);
    let count: usize = monitors.len();
    for i in 0..count
        invariant
            all_wf(before),
            views == monitor_views(before),
            count == monitors@.len() == before.len(),
            effects@.len() == i,
            taken == exists|k: int|
                0 <= k < i && (#[trigger] views[k]).canvas.offered_color(color).taken,
            forall|k: int| i <= k < count ==> monitors@[k] == before[k],
            forall|k: int|
                #![trigger monitors@[k]]
                0 <= k < i ==> monitors@[k].canvas.wf() && monitors@[k]@ == with_canvas(
                    before[k]@,
                    before[k]@.canvas.offered_color(color).canvas,
                ),
            forall|k: int|
                0 <= k < i ==> #[trigger] effects@[k] == before[k]@.canvas.offered_color(
                    color,
                ).effects,
    {
        assert(views[i as int] == before[i as int]@);
        let (used, effect) = monitors[i].canvas.apply_color_to_target(color);
        taken = taken || used;
        effects.push(effect);
    }
    assert(monitor_views(monitors@) =~= each_offered_color(views, color));
    (taken, effects)
}

fn put_color<N: Copy, S: Copy>(
    monitors: &mut Vec<MonitorCanvas<N, S>>,
    kind: ToolKind,
    color: [S; 4],
)
    requires
        all_wf(old(monitors)@),
    ensures
        all_wf(final(monitors)@),
        monitor_views(final(monitors)@) == each_with_color(
            monitor_views(old(monitors)@),
            kind,
            color,
        ),
{
    let ghost before = monitors@;
    let count: usize = monitors.len();
    for i in 0..count
        invariant
            all_wf(before),
            count == monitors@.len() == before.len(),
            forall|k: int| i <= k < count ==> monitors@[k] == before[k],
            forall|k: int|
                #![trigger monitors@[k]]
                0 <= k < i ==> monitors@[k].canvas.wf() && monitors@[k]@ == with_canvas(
                    before[k]@,
                    before[k]@.canvas.with_tool_color(kind, color).canvas,
                ),
    {
        monitors[i].canvas.set_tool_color(kind, color);
    }
    assert(monitor_views(monitors@) =~= each_with_color(monitor_views(before), kind, color));
}

fn offer_style<N: Copy, S: Copy>(
    monitors: &mut Vec<MonitorCanvas<N, S>>,
    style: StrokeStyle,
) -> (res: (bool, Vec<Effects>))
    requires
        all_wf(old(monitors)@),
    ensures
        all_wf(final(monitors)@),
        monitor_views(final(monitors)@) == each_offered_style(
            monitor_views(old(monitors)@),
            style,
        ),
        res.0 == style_taken(monitor_views(old(monitors)@), style),
        res.1@.len() == old(monitors)@.len(),
        forall|i: int|
            0 <= i < res.1@.len() ==> #[trigger] res.1@[i] == monitor_views(
                old(monitors)@,
            )[i].canvas.offered_style(style).effects,
{
    let mut effects: Vec<Effects> = Vec::new();
    let mut taken: bool = false;
    let ghost before = monitors@;
    let ghost views = monitor_views(before);
    let count: usize = monitors.len();
    for i in 0..count
        invariant
            all_wf(before),
            views == monitor_views(before),
            count == monitors@.len() == before.len(),
            effects@.len() == i,
            taken == exists|k: int|
                0 <= k < i && (#[trigger] views[k]).canvas.offered_style(style).taken,
            forall|k: int| i <= k < count ==> monitors@[k] == before[k],
            forall|k: int|
                #![trigger monitors@[k]]
                0 <= k < i ==> monitors@[k].canvas.wf() && monitors@[k]@ == with_canvas(
                    before[k]@,
                    before[k]@.canvas.offered_style(style).canvas,
                ),
            forall|k: int|
                0 <= k < i ==> #[trigger] effects@[k] == before[k]@.canvas.offered_style(
                    style,
                ).effects,
    {
        assert(views[i as int] == before[i as int]@);
        let (used, effect) = monitors[i].canvas.apply_style_to_target(style);
        taken = taken || used;
        effects.push(effect);
    }
    assert(monitor_views(monitors@) =~= each_offered_style(views, style));
    (taken, effects)
}

fn put_style<N: Copy, S: Copy>(
    monitors: &mut Vec<MonitorCanvas<N, S>>,
    kind: ToolKind,
    style: StrokeStyle,
)
    requires
        all_wf(old(monitors)@),
    ensures
        all_wf(final(monitors)@),
        monitor_views(final(monitors)@) == each_with_style(
            monitor_views(old(monitors)@),
            kind,
            style,
        ),
{
    let ghost before = monitors@;
    let count: usize = monitors.len();
    for i in 0..count
        invariant
            all_wf(before),
            count == monitors@.len() == before.len(),
            forall|k: int| i <= k < count ==> monitors@[k] == before[k],
            forall|k: int|
                #![trigger monitors@[k]]
                0 <= k < i ==> monitors@[k].canvas.wf() && monitors@[k]@ == with_canvas(
                    before[k]@,
                    before[k]@.canvas.with_tool_style(kind, style),
                ),
    {
        monitors[i].canvas.set_tool_style(kind, style);
    }
    assert(monitor_views(monitors@) =~= each_with_style(monitor_views(before), kind, style));
}

fn offer_font_size<N: Copy, S: Copy>(
    monitors: &mut Vec<MonitorCanvas<N, S>>,
    size: FontSize<S>,
    measured: &Vec<(u32, u32)>,
) -> (res: (bool, Vec<Effects>))
    requires
        all_wf(old(monitors)@),
        measured@.len() == old(monitors)@.len(),
    ensures
        all_wf(final(monitors)@),
        monitor_views(final(monitors)@) == each_offered_font_size(
            monitor_views(old(monitors)@),
            size,
            measured@,
        ),
        res.0 == font_size_taken(monitor_views(old(monitors)@), size, measured@),
        res.1@.len() == old(monitors)@.len(),
        forall|i: int|
            0 <= i < res.1@.len() ==> #[trigger] res.1@[i] == monitor_views(
                old(monitors)@,
            )[i].canvas.offered_font_size(size, measured@[i]).effects,
{
    let mut effects: Vec<Effects> = Vec::new();
    let mut taken: bool = false;
    let ghost before = monitors@;
    let ghost views = monitor_views(before);
    let count: usize = monitors.len();
    for i in 0..count
        invariant
            all_wf(before),
            views == monitor_views(before),
            count == monitors@.len() == before.len() == measured@.len(),
            effects@.len() == i,
            taken == exists|k: int|
                0 <= k < i && (#[trigger] views[k]).canvas.offered_font_size(
                    size,
                    measured@[k],
                ).taken,
            forall|k: int| i <= k < count ==> monitors@[k] == before[k],
            forall|k: int|
                #![trigger monitors@[k]]
                0 <= k < i ==> monitors@[k].canvas.wf() && monitors@[k]@ == with_canvas(
                    before[k]@,
                    before[k]@.canvas.offered_font_size(size, measured@[k]).canvas,
                ),
            forall|k: int|
                0 <= k < i ==> #[trigger] effects@[k] == before[k]@.canvas.offered_font_size(
                    size,
                    measured@[k],
                ).effects,
    {
        assert(views[i as int] == before[i as int]@);
        let (used, effect) = monitors[i].canvas.apply_font_size_to_target(size, measured[i]);
        taken = taken || used;
        effects.push(effect);
    }
    assert(monitor_views(monitors@) =~= each_offered_font_size(views, size, measured@));
    (taken, effects)
}

fn put_font_size<N: Copy, S: Copy>(
    monitors: &mut Vec<MonitorCanvas<N, S>>,
    kind: ToolKind,
    size: FontSize<S>,
)
    requires
        all_wf(old(monitors)@),
    ensures
        all_wf(final(monitors)@),
        monitor_views(final(monitors)@) == each_with_font_size(
            monitor_views(old(monitors)@),
            kind,
            size,
        ),
{
    let ghost before = monitors@;
    let count: usize = monitors.len();
    for i in 0..count
        invariant
            all_wf(before),
            count == monitors@.len() == before.len(),
            forall|k: int| i <= k < count ==> monitors@[k] == before[k],
            forall|k: int|
                #![trigger monitors@[k]]
                0 <= k < i ==> monitors@[k].canvas.wf() && monitors@[k]@ == with_canvas(
                    before[k]@,
                    before[k]@.canvas.with_tool_font_size(kind, size).canvas,
                ),
    {
        monitors[i].canvas.set_tool_font_size(kind, size);
    }
    assert(monitor_views(monitors@) =~= each_with_font_size(monitor_views(before), kind, size));
}

fn clear_each<N: Copy, S: Copy>(monitors: &mut Vec<MonitorCanvas<N, S>>) -> (res: Vec<Effects>)
    requires
        all_wf(old(monitors)@),
    ensures
        all_wf(final(monitors)@),
        monitor_views(final(monitors)@) == each_cleared(monitor_views(old(monitors)@)),
        res@.len() == old(monitors)@.len(),
        forall|i: int|
            0 <= i < res@.len() ==> #[trigger] res@[i] == monitor_views(
                old(monitors)@,
            )[i].canvas.cleared().effects,
{
    let mut effects: Vec<Effects> = Vec::new();
    let ghost before = monitors@;
    let count: usize = monitors.len();
    for i in 0..count
        invariant
            all_wf(before),
            count == monitors@.len() == before.len(),
            effects@.len() == i,
            forall|k: int| i <= k < count ==> monitors@[k] == before[k],
            forall|k: int|
                #![trigger monitors@[k]]
                0 <= k < i ==> monitors@[k].canvas.wf() && monitors@[k]@ == with_canvas(
                    before[k]@,
                    before[k]@.canvas.cleared().canvas,
                ),
            forall|k: int|
                0 <= k < i ==> #[trigger] effects@[k] == before[k]@.canvas.cleared().effects,
    {
        let effect = monitors[i].canvas.clear_layers();
        effects.push(effect);
    }
    assert(monitor_views(monitors@) =~= each_cleared(monitor_views(before)));
    effects
}

// ---- tools and pickers ---------------------------------------------------------------------
/// The toolbar with the pickers of a tool: they show its values, where it has them, and can be
/// used where they mean something for it.
pub open spec fn with_pickers<S>(
    toolbar: ToolbarView<S>,
    kind: ToolKind,
    color: Option<[S; 4]>,
    style: Option<StrokeStyle>,
    size: Option<S>,
) -> ToolbarView<S> {
    ToolbarView {
        color: match color {
            Some(c) => shown(toolbar.color is Some, c),
            None => toolbar.color,
        },
        color_sensitive: if toolbar.color is Some {
            colorable(kind)
        } else {
            toolbar.color_sensitive
        },
        style: match style {
            Some(s) => shown(toolbar.style is Some, s),
            None => toolbar.style,
        },
        style_sensitive: if toolbar.style is Some {
            styleable(kind)
        } else {
            toolbar.style_sensitive
        },
        font_size: match size {
            Some(s) => shown(toolbar.font_size is Some, s),
            None => toolbar.font_size,
        },
        font_size_sensitive: if toolbar.font_size is Some {
            sized(kind)
        } else {
            toolbar.font_size_sensitive
        },
        ..toolbar
    }
}

/// The toolbar with the pickers of a tool, as a canvas has its values.
pub open spec fn with_pickers_of<N, S>(
    toolbar: ToolbarView<S>,
    kind: ToolKind,
    canvas: CanvasView<N, S>,
) -> ToolbarView<S> {
    with_pickers(
        toolbar,
        kind,
        lookup(canvas.colors, kind),
        lookup(canvas.styles, kind),
        lookup(canvas.font_sizes, kind),
    )
}

fn show_pickers<S: Copy>(
    toolbar: &mut Toolbar<S>,
    kind: ToolKind,
    color: Option<[S; 4]>,
    style: Option<StrokeStyle>,
    size: Option<S>,
)
    ensures
        final(toolbar)@ == with_pickers(old(toolbar)@, kind, color, style, size),
{
    if let Some(c) = color {
        toolbar.set_color(c);
    }
    toolbar.set_color_picker_sensitive(kind_is_colorable(kind));
    if let Some(s) = style {
        toolbar.set_stroke_style(s);
    }
    toolbar.set_style_picker_sensitive(kind_is_styleable(kind));
    if let Some(s) = size {
        toolbar.set_font_size(s);
    }
    toolbar.set_font_size_picker_sensitive(kind_has_font_size(kind));
}

/// The kind that the pickers act on: text while a text is edited, the selected layer's in
/// Select mode, and otherwise the tool in use.
pub open spec fn effective_kind<N, S>(tool: ToolKind, canvas: CanvasView<N, S>) -> ToolKind {
    if canvas.text is Some {
        ToolKind::Text
    } else if tool == ToolKind::Select {
        match canvas.selected() {
            Some(layer) => layer.kind_of(),
            None => ToolKind::Select,
        }
    } else {
        tool
    }
}

impl<N, S> OverlayView<N, S> {
    /// A tool is in use: on every canvas and on the toolbar, whose pickers show the values of
    /// the first canvas.
    pub open spec fn with_tool(self, kind: ToolKind, measured: Seq<(u32, u32)>) -> OverlayView<
        N,
        S,
    > {
        let canvases = each_with_tool(self.canvases, kind, measured);
        let pressed = ToolbarView {
            active_tool: button_of_tool(self.toolbar.tools, kind),
            ..self.toolbar
        };
        OverlayView {
            tool: kind,
            canvases,
            toolbar: if canvases.len() > 0 {
                with_pickers_of(pressed, kind, canvases[0].canvas)
            } else {
                with_pickers(pressed, kind, None, None, None)
            },
            ..self
        }
    }

    /// The toolbar's pickers show the values of the first canvas for the tool in use.
    pub open spec fn seeded(self) -> OverlayView<N, S> {
        OverlayView {
            toolbar: if self.canvases.len() > 0 {
                with_pickers_of(self.toolbar, self.tool, self.canvases[0].canvas)
            } else {
                self.toolbar
            },
            ..self
        }
    }

    /// The selection or the text edit of a canvas has changed, and the pickers follow.
    pub open spec fn refreshed(self, i: int) -> OverlayView<N, S> {
        let canvas = self.canvases[i].canvas;
        OverlayView {
            toolbar: with_pickers_of(self.toolbar, effective_kind(self.tool, canvas), canvas),
            ..self
        }
    }

    /// Clicks go through, or do not.
    pub open spec fn clicked_through(self, on: bool) -> OverlayView<N, S> {
        OverlayView {
            passthrough: on,
            toolbar: ToolbarView {
                passthrough: shown(self.toolbar.passthrough is Some, on),
                ..self.toolbar
            },
            ..self
        }
    }
}

impl<N: Copy, S: Copy> Overlay<N, S> {
    /// Puts a tool in use everywhere. `measured` is, for each canvas, the size of a text that is
    /// being edited there.
    pub fn apply_tool(&mut self, kind: ToolKind, measured: &Vec<(u32, u32)>) -> (res: Vec<Effects>)
        requires
            old(self).wf(),
            measured@.len() == old(self).canvases@.len(),
        ensures
            final(self).wf(),
            final(self)@ == old(self)@.with_tool(kind, measured@),
            res@.len() == old(self)@.canvases.len(),
            forall|i: int|
                0 <= i < res@.len() ==> #[trigger] res@[i] == old(self)@.canvases[i].canvas.with_tool(kind, measured@[i]).effects,
    {
        self.current_tool = kind;
        let effects = put_tool(&mut self.canvases, kind, measured);
        self.toolbar.set_tool(kind);
        if self.canvases.len() > 0 {
            assert(self@.canvases[0] == self.canvases@[0]@);
            let canvas = &self.canvases[0].canvas;
            let color = canvas.tool_color(kind);
            let style = canvas.tool_style(kind);
            let size = canvas.tool_font_size(kind);
            show_pickers(&mut self.toolbar, kind, color, style, size);
        } else {
            show_pickers(&mut self.toolbar, kind, None, None, None);
        }
        effects
    }

    /// Shows the first values on the toolbar, once the canvases are there.
    pub fn seed_toolbar(&mut self)
        requires
            old(self).wf(),
        ensures
            final(self).wf(),
            final(self)@ == old(self)@.seeded(),
    {
        if self.canvases.len() > 0 {
            assert(self@.canvases[0] == self.canvases@[0]@);
            let kind = self.current_tool;
            let canvas = &self.canvases[0].canvas;
            let color = canvas.tool_color(kind);
            let style = canvas.tool_style(kind);
            let size = canvas.tool_font_size(kind);
            show_pickers(&mut self.toolbar, kind, color, style, size);
        }
    }

    /// The selection or the text edit of a canvas has changed.
    pub fn refresh_pickers(&mut self, i: usize)
        requires
            old(self).wf(),
            i < old(self).canvases@.len(),
        ensures
            final(self).wf(),
            final(self)@ == old(self)@.refreshed(i as int),
    {
        assert(self@.canvases[i as int] == self.canvases@[i as int]@);
        let canvas = &self.canvases[i].canvas;
        let kind = if canvas.is_editing_text() {
            ToolKind::Text
        } else if self.current_tool == ToolKind::Select {
            match canvas.selected_kind() {
                Some(kind) => kind,
                None => ToolKind::Select,
            }
        } else {
            self.current_tool
        };
        let color = canvas.tool_color(kind);
        let style = canvas.tool_style(kind);
        let size = canvas.tool_font_size(kind);
        show_pickers(&mut self.toolbar, kind, color, style, size);
    }

    /// Lets clicks through, or does not. While they go through, the windows give up the
    /// keyboard.
    pub fn set_passthrough(&mut self, on: bool)
        requires
            old(self).wf(),
        ensures
            final(self).wf(),
            final(self)@ == old(self)@.clicked_through(on),
    {
        self.passthrough = on;
        self.toolbar.set_passthrough(on);
    }

    /// Obeys a command. The result tells whether clicks go through now.
    pub fn command(&mut self, command: OverlayCommand) -> (res: bool)
        requires
            old(self).wf(),
        ensures
            final(self).wf(),
            match command {
                OverlayCommand::TogglePassthrough => res == !old(self)@.passthrough && final(self)@
                    == old(self)@.clicked_through(res),
            },
    {
        match command {
            OverlayCommand::TogglePassthrough => {
                let next: bool = !self.passthrough;
                self.set_passthrough(next);
                next
            },
        }
    }
}

// ---- actions -------------------------------------------------------------------------------
/// What the program around the overlay has to do next.
#[derive(Clone, Copy, Debug, PartialEq, Eq, Structural)]
pub enum Next {
    Nothing,
    /// Capture the screen, for blurs to draw from.
    CaptureForBlur,
    /// Give up the keyboard, or take it again.
    Passthrough(bool),
    /// Compose the annotated picture, save it, and close the overlay.
    SaveEdit,
    /// Let a zone be selected, capture and save it, and stay open.
    SaveDrawing,
}

/// The place of the first canvas, from `from` on, that belongs to a monitor.
pub open spec fn place_of<N, S>(
    monitors: Seq<MonitorView<N, S>>,
    index: usize,
    from: int,
) -> Option<int>
    decreases monitors.len() - from,
{
    if from < 0 || from >= monitors.len() {
        None
    } else if monitors[from].index == index {
        Some(from)
    } else {
        place_of(monitors, index, from + 1)
    }
}

/// The canvas on which Undo works: that of the monitor with the toolbar, or else the first.
pub open spec fn undo_place<N, S>(
    monitors: Seq<MonitorView<N, S>>,
    hosting: Option<usize>,
) -> Option<int> {
    let first: Option<int> = if monitors.len() > 0 {
        Some(0)
    } else {
        None
    };
    match hosting {
        Some(index) => match place_of(monitors, index, 0) {
            Some(i) => Some(i),
            None => first,
        },
        None => first,
    }
}

/// An overlay after an action, what is to be done next, and what each canvas owes.
pub struct Acted<N, S> {
    pub overlay: OverlayView<N, S>,
    pub next: Next,
    pub effects: Seq<Effects>,
}

impl<N, S> OverlayView<N, S> {
    /// Nothing is owed by any canvas.
    pub open spec fn quiet(self) -> Seq<Effects> {
        Seq::new(self.canvases.len(), |i: int| Effects::nothing())
    }

    /// The overlay as it is, with something to be done.
    pub open spec fn kept(self, next: Next) -> Acted<N, S> {
        Acted { overlay: self, next, effects: self.quiet() }
    }

    /// A blur would have nothing to draw from: the screen is drawn on live and has not been
    /// captured, nor is it being captured.
    pub open spec fn needs_capture(self) -> bool {
        self.edit is None && self.canvases.len() > 0 && !self.canvases[0].canvas.has_picture()
            && !self.capturing
    }

    /// A tool has been chosen. The first Blur on the live screen asks for a capture.
    pub open spec fn tool_chosen(self, kind: ToolKind, measured: Seq<(u32, u32)>) -> Acted<N, S> {
        let after = self.with_tool(kind, measured);
        let effects = Seq::new(
            self.canvases.len(),
            |i: int| self.canvases[i].canvas.with_tool(kind, measured[i]).effects,
        );
        if kind == ToolKind::Blur && after.needs_capture() {
            Acted {
                overlay: OverlayView { capturing: true, ..after },
                next: Next::CaptureForBlur,
                effects,
            }
        } else {
            Acted { overlay: after, next: Next::Nothing, effects }
        }
    }

    /// A color has been picked: for what is being worked on, and where nothing is, for the tool
    /// in use.
    pub open spec fn color_picked(self, color: [S; 4]) -> Acted<N, S> {
        let offered = each_offered_color(self.canvases, color);
        Acted {
            overlay: OverlayView {
                canvases: if !color_taken(self.canvases, color) && colorable(self.tool) {
                    each_with_color(offered, self.tool, color)
                } else {
                    offered
                },
                ..self
            },
            next: Next::Nothing,
            effects: Seq::new(
                self.canvases.len(),
                |i: int| self.canvases[i].canvas.offered_color(color).effects,
            ),
        }
    }

    /// A stroke style has been picked: for what is being worked on, and where nothing is, for
    /// the tool in use.
    pub open spec fn style_picked(self, style: StrokeStyle) -> Acted<N, S> {
        let offered = each_offered_style(self.canvases, style);
        Acted {
            overlay: OverlayView {
                canvases: if !style_taken(self.canvases, style) && styleable(self.tool) {
                    each_with_style(offered, self.tool, style)
                } else {
                    offered
                },
                ..self
            },
            next: Next::Nothing,
            effects: Seq::new(
                self.canvases.len(),
                |i: int| self.canvases[i].canvas.offered_style(style).effects,
            ),
        }
    }

    /// A font size has been picked: for what is being worked on, and where nothing is, for the
    /// tool in use.
    pub open spec fn font_size_picked(self, size: FontSize<S>, measured: Seq<(u32, u32)>) -> Acted<
        N,
        S,
    > {
        let offered = each_offered_font_size(self.canvases, size, measured);
        Acted {
            overlay: OverlayView {
                canvases: if !font_size_taken(self.canvases, size, measured) && sized(self.tool) {
                    each_with_font_size(offered, self.tool, size)
                } else {
                    offered
                },
                ..self
            },
            next: Next::Nothing,
            effects: Seq::new(
                self.canvases.len(),
                |i: int| self.canvases[i].canvas.offered_font_size(size, measured[i]).effects,
            ),
        }
    }

    /// The last annotation on the monitor with the toolbar is taken back.
    pub open spec fn undone(self, hosting: Option<usize>) -> Acted<N, S> {
        match undo_place(self.canvases, hosting) {
            Some(i) => {
                let after = self.canvases[i].canvas.undone();
                Acted {
                    overlay: OverlayView {
                        canvases: self.canvases.update(
                            i,
                            with_canvas(self.canvases[i], after.canvas),
                        ),
                        ..self
                    },
                    next: Next::Nothing,
                    effects: self.quiet().update(i, after.effects),
                }
            },
            None => self.kept(Next::Nothing),
        }
    }

    /// All annotations on all monitors are gone.
    pub open spec fn all_cleared(self) -> Acted<N, S> {
        Acted {
            overlay: OverlayView { canvases: each_cleared(self.canvases), ..self },
            next: Next::Nothing,
            effects: Seq::new(
                self.canvases.len(),
                |i: int| self.canvases[i].canvas.cleared().effects,
            ),
        }
    }

    /// The overlay after an action of the toolbar. `hosting` is the monitor with the toolbar.
    pub open spec fn acted(
        self,
        action: ToolbarAction<S>,
        hosting: Option<usize>,
        measured: Seq<(u32, u32)>,
    ) -> Acted<N, S> {
        match action {
            ToolbarAction::ToolSelected(kind) => self.tool_chosen(kind, measured),
            ToolbarAction::ColorChanged(color) => self.color_picked(color),
            ToolbarAction::StrokeStyleChanged(style) => self.style_picked(style),
            ToolbarAction::FontSizeChanged(size) => self.font_size_picked(size, measured),
            ToolbarAction::Undo => self.undone(hosting),
            ToolbarAction::Clear => self.all_cleared(),
            ToolbarAction::PassthroughToggled(on) => self.clicked_through(on).kept(
                Next::Passthrough(on),
            ),
            ToolbarAction::Save => self.kept(
                if self.edit is Some {
                    Next::SaveEdit
                } else {
                    Next::SaveDrawing
                },
            ),
            _ => self.kept(Next::Nothing),
        }
    }
}

fn quiet_effects(count: usize) -> (res: Vec<Effects>)
    ensures
        res@ == Seq::new(count as nat, |i: int| Effects::nothing()),
{
    let mut effects: Vec<Effects> = Vec::new();
    for i in 0..count
        invariant
            effects@.len() == i,
            forall|k: int| 0 <= k < i ==> effects@[k] == Effects::nothing(),
    {
        effects.push(Effects::none());
    }
    assert(effects@ =~= Seq::new(count as nat, |i: int| Effects::nothing()));
    effects
}

fn find_undo_place<N, S>(monitors: &Vec<MonitorCanvas<N, S>>, hosting: Option<usize>) -> (res:
    Option<usize>)
    ensures
        match (res, undo_place(monitor_views(monitors@), hosting)) {
            (Some(i), Some(k)) => i == k && i < monitors@.len(),
            (None, None) => true,
            _ => false,
        },
{
    if let Some(index) = hosting {
        let ghost views = monitor_views(monitors@);
        for i in 0..monitors.len()
            invariant
                hosting == Some(index),
                views == monitor_views(monitors@),
                place_of(views, index, 0) == place_of(views, index, i as int),
        {
            assert(views[i as int] == monitors@[i as int]@);
            if monitors[i].index == index {
                return Some(i);
            }
        }
    }
    if monitors.len() > 0 {
        Some(0)
    } else {
        None
    }
}

impl<N: Copy, S: Copy> Overlay<N, S> {
    fn undo_on(&mut self, hosting: Option<usize>) -> (res: Vec<Effects>)
        requires
            old(self).wf(),
        ensures
            final(self).wf(),
            final(self)@ == old(self)@.undone(hosting).overlay,
            res@ == old(self)@.undone(hosting).effects,
    {
        let mut effects = quiet_effects(self.canvases.len());
        if let Some(i) = find_undo_place(&self.canvases, hosting) {
            let ghost before = self.canvases@;
            assert(self@.canvases[i as int] == before[i as int]@);
            let (_, effect) = self.canvases[i].canvas.undo();
            effects.set(i, effect);
            assert(self@.canvases =~= old(self)@.undone(hosting).overlay.canvases);
            assert forall|k: int| 0 <= k < self.canvases@.len() implies (
            #[trigger] self.canvases@[k]).canvas.wf() by {
                if k != i {
                    assert(self.canvases@[k] == before[k]);
                }
            }
        }
        effects
    }

    fn choose_tool(&mut self, kind: ToolKind, measured: &Vec<(u32, u32)>) -> (res: (Next, Vec<Effects>))
        requires
            old(self).wf(),
            measured@.len() == old(self).canvases@.len(),
        ensures
            final(self).wf(),
            ({
                let after = old(self)@.tool_chosen(kind, measured@);
                final(self)@ == after.overlay && res.0 == after.next && res.1@ == after.effects
            }),
    {
        let ghost after = self@.tool_chosen(kind, measured@);
        let effects = self.apply_tool(kind, measured);
        assert(effects@ =~= after.effects);
        if kind == ToolKind::Blur && self.edit.is_none() && self.canvases.len() > 0
            && !self.blur_capture_in_flight {
            assert(self@.canvases[0] == self.canvases@[0]@);
            if !self.canvases[0].canvas.has_base() {
                self.blur_capture_in_flight = true;
                return (Next::CaptureForBlur, effects);
            }
        }
        (Next::Nothing, effects)
    }

    fn pick_color(&mut self, color: [S; 4]) -> (res: (Next, Vec<Effects>))
        requires
            old(self).wf(),
        ensures
            final(self).wf(),
            ({
                let after = old(self)@.color_picked(color);
                final(self)@ == after.overlay && res.0 == after.next && res.1@ == after.effects
            }),
    {
        let ghost after = self@.color_picked(color);
        let (taken, effects) = offer_color(&mut self.canvases, color);
        assert(effects@ =~= after.effects);
        let kind = self.current_tool;
        if !taken && kind_is_colorable(kind) {
            put_color(&mut self.canvases, kind, color);
        }
        (Next::Nothing, effects)
    }

    fn pick_style(&mut self, style: StrokeStyle) -> (res: (Next, Vec<Effects>))
        requires
            old(self).wf(),
        ensures
            final(self).wf(),
            ({
                let after = old(self)@.style_picked(style);
                final(self)@ == after.overlay && res.0 == after.next && res.1@ == after.effects
            }),
    {
        let ghost after = self@.style_picked(style);
        let (taken, effects) = offer_style(&mut self.canvases, style);
        assert(effects@ =~= after.effects);
        let kind = self.current_tool;
        if !taken && kind_is_styleable(kind) {
            put_style(&mut self.canvases, kind, style);
        }
        (Next::Nothing, effects)
    }

    fn pick_font_size(&mut self, size: FontSize<S>, measured: &Vec<(u32, u32)>) -> (res: (
        Next,
        Vec<Effects>,
    ))
        requires
            old(self).wf(),
            measured@.len() == old(self).canvases@.len(),
        ensures
            final(self).wf(),
            ({
                let after = old(self)@.font_size_picked(size, measured@);
                final(self)@ == after.overlay && res.0 == after.next && res.1@ == after.effects
            }),
    {
        let ghost after = self@.font_size_picked(size, measured@);
        let (taken, effects) = offer_font_size(&mut self.canvases, size, measured);
        assert(effects@ =~= after.effects);
        let kind = self.current_tool;
        if !taken && kind_has_font_size(kind) {
            put_font_size(&mut self.canvases, kind, size);
        }
        (Next::Nothing, effects)
    }

    fn clear_all(&mut self) -> (res: (Next, Vec<Effects>))
        requires
            old(self).wf(),
        ensures
            final(self).wf(),
            ({
                let after = old(self)@.all_cleared();
                final(self)@ == after.overlay && res.0 == after.next && res.1@ == after.effects
            }),
    {
        let ghost after = self@.all_cleared();
        let effects = clear_each(&mut self.canvases);
        assert(effects@ =~= after.effects);
        (Next::Nothing, effects)
    }

    /// The toolbar sends an action. `hosting` is the monitor that has the toolbar, and
    /// `measured`, for each canvas, the size of a text that is being edited or selected there.
    pub fn apply_action(
        &mut self,
        action: ToolbarAction<S>,
        hosting: Option<usize>,
        measured: &Vec<(u32, u32)>,
    ) -> (res: (Next, Vec<Effects>))
        requires
            old(self).wf(),
            measured@.len() == old(self).canvases@.len(),
        ensures
            final(self).wf(),
            ({
                let after = old(self)@.acted(action, hosting, measured@);
                final(self)@ == after.overlay && res.0 == after.next && res.1@ == after.effects
            }),
    {
        match action {
            ToolbarAction::ToolSelected(kind) => self.choose_tool(kind, measured),
            ToolbarAction::ColorChanged(color) => self.pick_color(color),
            ToolbarAction::StrokeStyleChanged(style) => self.pick_style(style),
            ToolbarAction::FontSizeChanged(size) => self.pick_font_size(size, measured),
            ToolbarAction::Undo => (Next::Nothing, self.undo_on(hosting)),
            ToolbarAction::Clear => self.clear_all(),
            ToolbarAction::PassthroughToggled(on) => {
                self.set_passthrough(on);
                (Next::Passthrough(on), quiet_effects(self.canvases.len()))
            },
            ToolbarAction::Save => {
                let next = if self.edit.is_some() {
                    Next::SaveEdit
                } else {
                    Next::SaveDrawing
                };
                (next, quiet_effects(self.canvases.len()))
            },
            _ => (Next::Nothing, quiet_effects(self.canvases.len())),
        }
    }

    /// A canvas has finished a shape: Select takes over everywhere.
    pub fn finish_shape(&mut self, measured: &Vec<(u32, u32)>) -> (res: Vec<Effects>)
        requires
            old(self).wf(),
            measured@.len() == old(self).canvases@.len(),
        ensures
            final(self).wf(),
            final(self)@ == old(self)@.with_tool(ToolKind::Select, measured@),
            res@.len() == old(self)@.canvases.len(),
            forall|i: int|
                0 <= i < res@.len() ==> #[trigger] res@[i] == old(self)@.canvases[i].canvas.with_tool(
                    ToolKind::Select,
                    measured@[i],
                ).effects,
    {
        self.apply_tool(ToolKind::Select, measured)
    }

    /// The user has picked another destination for saves.
    pub fn set_output_mode(&mut self, mode: OutputMode)
        requires
            old(self).wf(),
        ensures
            final(self).wf(),
            final(self)@ == (OverlayView { output: mode, ..old(self)@ }),
    {
        self.sinks.set_mode(mode);
    }
}

// ---- saving --------------------------------------------------------------------------------
/// Where the canvas of a monitor goes in the annotated picture.
#[derive(Clone, Copy, Debug, PartialEq, Eq, Structural)]
pub struct Part {
    /// The place of the canvas among the canvases.
    pub place: usize,
    /// The upper left corner, inside the picture.
    pub left: u32,
    pub top: u32,
}

/// The parts of the first `n` canvases, in order.
pub open spec fn parts_of<N, S>(
    monitors: Seq<MonitorView<N, S>>,
    origin: (i32, i32),
    n: nat,
) -> Seq<Part>
    decreases n,
{
    if n == 0 {
        Seq::empty()
    } else {
        let front = parts_of(monitors, origin, (n - 1) as nat);
        match monitors[n - 1].slice {
            Some(slice) => front.push(
                Part {
                    place: (n - 1) as usize,
                    left: (slice.x - origin.0) as u32,
                    top: (slice.y - origin.1) as u32,
                },
            ),
            None => front,
        }
    }
}

/// What came back from the selector that a save has opened.
#[derive(Clone, Copy, Debug, PartialEq, Eq, Structural)]
pub enum SelectorReply {
    /// A zone was selected, with a destination.
    Picked(OutputMode),
    Cancelled,
    Failed,
}

/// How a save of the drawing goes on.
#[derive(Debug)]
pub enum SaveStep {
    /// Capture the zone, and write it to the sinks.
    Capture(Vec<SinkSpec>),
    /// The save is over; a failure is reported.
    Over { report: bool },
}

/// A save of the drawing that is under way. It remembers whether clicks went through.
#[derive(Clone, Copy, Debug, PartialEq, Eq, Structural)]
pub struct DrawSave {
    pub previous: bool,
}

/// `after` is the overlay after the selector has replied, and `step` what comes next.
pub open spec fn answers<N, S>(
    before: OverlayView<N, S>,
    after: OverlayView<N, S>,
    save: DrawSave,
    reply: SelectorReply,
    step: SaveStep,
) -> bool {
    match reply {
        SelectorReply::Picked(mode) => {
            &&& after == (OverlayView { output: mode, ..before })
            &&& step matches SaveStep::Capture(sinks) && sink_views(sinks@) == sinks_for(
                before.sinks,
                mode,
            )
        },
        SelectorReply::Cancelled => {
            &&& after == before.clicked_through(save.previous)
            &&& step matches SaveStep::Over { report } && !report
        },
        SelectorReply::Failed => {
            &&& after == before.clicked_through(save.previous)
            &&& step matches SaveStep::Over { report } && report
        },
    }
}

impl<N: Copy, S: Copy> Overlay<N, S> {
    /// The canvases that make up the annotated picture, and where each goes.
    pub fn parts(&self) -> (res: Vec<Part>)
        requires
            self.wf(),
        ensures
            match self@.edit {
                Some(edit) => {
                    &&& res@ == parts_of(self@.canvases, edit.origin, self@.canvases.len())
                    &&& forall|i: int|
                        #![trigger res@[i]]
                        0 <= i < res@.len() ==> res@[i].left <= edit.base.width && res@[i].top
                            <= edit.base.height
                },
                None => res@.len() == 0,
            },
    {
        let mut parts: Vec<Part> = Vec::new();
        let edit = match &self.edit {
            Some(edit) => edit,
            None => {
                return parts;
            },
        };
        let ghost views = self@.canvases;
        assert(parts@ =~= parts_of(views, edit.origin, 0));
        for i in 0..self.canvases.len()
            invariant
                views == self@.canvases,
                self@.edit == Some(*edit),
                self@.slices_lie_inside(),
                parts@ == parts_of(views, edit.origin, i as nat),
                forall|k: int|
                    #![trigger parts@[k]]
                    0 <= k < parts@.len() ==> parts@[k].left <= edit.base.width && parts@[k].top
                        <= edit.base.height,
        {
            assert(views[i as int] == self.canvases@[i as int]@);
            if let Some(slice) = self.canvases[i].slice {
                assert(lies_inside(slice, edit.area()));
                let left: u32 = (slice.x as i64 - edit.origin.0 as i64) as u32;
                let top: u32 = (slice.y as i64 - edit.origin.1 as i64) as u32;
                parts.push(Part { place: i, left, top });
            }
        }
        parts
    }

    /// Starts to save the drawing. The toolbar is to be hidden, and clicks go through so that
    /// the selector gets them.
    pub fn begin_save(&mut self) -> (res: DrawSave)
        requires
            old(self).wf(),
        ensures
            final(self).wf(),
            res.previous == old(self)@.passthrough,
            final(self)@ == old(self)@.clicked_through(true),
    {
        let previous: bool = self.passthrough;
        self.set_passthrough(true);
        DrawSave { previous }
    }

    /// The selector is back. A picked zone is captured, for the destination that was picked; in
    /// the other cases the save is over.
    pub fn selector_returned(&mut self, save: DrawSave, reply: SelectorReply) -> (res: SaveStep)
        requires
            old(self).wf(),
        ensures
            final(self).wf(),
            answers(old(self)@, final(self)@, save, reply, res),
    {
        match reply {
            SelectorReply::Picked(mode) => {
                let sinks = adopt_output_mode(&mut self.sinks, mode);
                SaveStep::Capture(sinks)
            },
            SelectorReply::Cancelled => {
                self.set_passthrough(save.previous);
                SaveStep::Over { report: false }
            },
            SelectorReply::Failed => {
                self.set_passthrough(save.previous);
                SaveStep::Over { report: true }
            },
        }
    }

    /// The zone has been written, or could not be. The overlay stays open, and is as it was.
    pub fn end_save(&mut self, save: DrawSave)
        requires
            old(self).wf(),
        ensures
            final(self).wf(),
            final(self)@ == old(self)@.clicked_through(save.previous),
    {
        self.set_passthrough(save.previous);
    }
}

// ---- blurring the live screen --------------------------------------------------------------
/// The least of the coordinates of the first `n` monitors, in one direction.
pub open spec fn least(coordinates: Seq<i32>, n: nat) -> i32
    decreases n,
{
    if n <= 1 {
        coordinates[0]
    } else {
        let front = least(coordinates, (n - 1) as nat);
        if coordinates[n - 1] < front {
            coordinates[n - 1]
        } else {
            front
        }
    }
}

pub open spec fn xs(corners: Seq<(i32, i32)>) -> Seq<i32> {
    corners.map_values(|c: (i32, i32)| c.0)
}

pub open spec fn ys(corners: Seq<(i32, i32)>) -> Seq<i32> {
    corners.map_values(|c: (i32, i32)| c.1)
}

/// Where a capture of monitors with these corners lies.
pub open spec fn stitched_corner(corners: Seq<(i32, i32)>) -> (i32, i32) {
    if corners.len() == 0 {
        (0i32, 0i32)
    } else {
        (least(xs(corners), corners.len()), least(ys(corners), corners.len()))
    }
}

/// Where a capture of all monitors lies: at the least coordinates of their corners, or at zero
/// without any monitor.
pub fn stitched_origin(corners: &Vec<(i32, i32)>) -> (res: (i32, i32))
    ensures
        res == stitched_corner(corners@),
{
    if corners.len() == 0 {
        return (0, 0);
    }
    let (mut x, mut y): (i32, i32) = corners[0];
    let mut i: usize = 1;
    while i < corners.len()
        invariant
            1 <= i <= corners@.len(),
            x == least(xs(corners@), i as nat),
            y == least(ys(corners@), i as nat),
        decreases corners@.len() - i,
    {
        let (a, b): (i32, i32) = corners[i];
        if a < x {
            x = a;
        }
        if b < y {
            y = b;
        }
        i = i + 1;
    }
    (x, y)
}

/// The canvas of a monitor after the screen was captured: the part of the capture that lies on
/// the monitor, turned into RGBA, lies under it unseen.
pub open spec fn has_capture_under<N, S>(
    after: MonitorView<N, S>,
    before: MonitorView<N, S>,
    capture: CapturedImage,
    origin: (i32, i32),
) -> bool {
    let area = Rect { x: origin.0, y: origin.1, w: capture.width, h: capture.height };
    match before.monitor_rect.overlap(area) {
        Some(r) => {
            &&& after.canvas.doc matches Some(d) && d.base matches Some(base) && {
                &&& after == with_canvas(before, before.canvas.with_hidden_base(base))
                &&& base.width == r.w && base.height == r.h && base.stride == 4 * r.w
                &&& is_piece(
                    red_and_blue_exchanged(base.pixels@),
                    r,
                    capture.pixels@,
                    capture.stride as int,
                    origin,
                )
            }
        },
        None => after == before,
    }
}

/// Every canvas has its part of the capture under it.
pub open spec fn have_capture_under<N, S>(
    after: Seq<MonitorView<N, S>>,
    before: Seq<MonitorView<N, S>>,
    capture: CapturedImage,
    origin: (i32, i32),
) -> bool {
    forall|i: int|
        0 <= i < before.len() ==> has_capture_under(#[trigger] after[i], before[i], capture, origin)
}

impl<N: Copy, S: Copy> Overlay<N, S> {
    /// The capture of the screen is there, or has failed. Either way it is no longer under way,
    /// so that the next Blur can ask for another one.
    pub fn finish_capture(&mut self, capture: Option<&CapturedImage>, origin: (i32, i32))
        requires
            old(self).wf(),
            capture matches Some(image) ==> 4 * image.width <= u32::MAX && holds(
                image.pixels@.len(),
                image.width as int,
                image.height as int,
                image.stride as int,
            ),
        ensures
            final(self).wf(),
            !final(self)@.capturing,
            final(self)@ == (OverlayView {
                canvases: final(self)@.canvases,
                capturing: false,
                ..old(self)@
            }),
            final(self)@.canvases.len() == old(self)@.canvases.len(),
            match capture {
                Some(image) => have_capture_under(
                    final(self)@.canvases,
                    old(self)@.canvases,
                    *image,
                    origin,
                ),
                None => final(self)@.canvases == old(self)@.canvases,
            },
    {
        self.blur_capture_in_flight = false;
        let image = match capture {
            Some(image) => image,
            None => {
                return;
            },
        };
        let ghost before = self.canvases@;
        let count: usize = self.canvases.len();
        for i in 0..count
            invariant
                all_wf(before),
                count == self.canvases@.len() == before.len(),
                4 * image.width <= u32::MAX,
                holds(
                    image.pixels@.len(),
                    image.width as int,
                    image.height as int,
                    image.stride as int,
                ),
                self.passthrough == old(self).passthrough,
                self.current_tool == old(self).current_tool,
                self.toolbar == old(self).toolbar,
                self.edit == old(self).edit,
                self.sinks == old(self).sinks,
                self.cursor == old(self).cursor,
                !self.blur_capture_in_flight,
                forall|k: int| i <= k < count ==> self.canvases@[k] == before[k],
                forall|k: int|
                    #![trigger self.canvases@[k]]
                    0 <= k < i ==> self.canvases@[k].canvas.wf() && has_capture_under(
                        self.canvases@[k]@,
                        before[k]@,
                        *image,
                        origin,
                    ),
        {
            assert(self.canvases@[i as int] == before[i as int]);
            assert(before[i as int].canvas.wf());
            let rect: Rect = self.canvases[i].monitor_rect;
            if let Some(piece) = slice_pixels(
                &image.pixels,
                image.width,
                image.height,
                image.stride,
                origin,
                rect,
            ) {
                let mut rgba: Vec<u8> = piece.pixels;
                let ghost bgra = rgba@;
                exchange_red_and_blue(&mut rgba);
                proof {
                    exchanging_twice_changes_nothing(bgra);
                    lemma_overlap_of_overlap(
                        rect,
                        Rect { x: origin.0, y: origin.1, w: image.width, h: image.height },
                    );
                }
                self.canvases[i].canvas.set_hidden_base(
                    base_from_rgba(piece.width, piece.height, rgba),
                );
            }
        }
        assert forall|i: int| 0 <= i < old(self)@.canvases.len() implies has_capture_under(
            #[trigger] self@.canvases[i],
            old(self)@.canvases[i],
            *image,
            origin,
        ) by {
            assert(self@.canvases[i] == self.canvases@[i]@);
            assert(old(self)@.canvases[i] == before[i]@);
        }
        assert forall|i: int| #![trigger self@.canvases[i]] 0 <= i < self@.canvases.len() implies
            self@.canvases[i].slice == old(self)@.canvases[i].slice by {
            assert(has_capture_under(
                self@.canvases[i],
                old(self)@.canvases[i],
                *image,
                origin,
            ));
        }
    }
}

// ---- surfaces ------------------------------------------------------------------------------
/// The part of a window that takes clicks, when the toolbar has those bounds inside it. A
/// toolbar that has no extent, or is in another window, takes none.
pub open spec fn input_region(
    passthrough: bool,
    surface: (i32, i32),
    toolbar: Option<(i32, i32, i32, i32)>,
) -> Option<(i32, i32, i32, i32)> {
    if !passthrough {
        Some((0, 0, surface.0, surface.1))
    } else {
        match toolbar {
            Some(b) => if b.2 <= 0 || b.3 <= 0 {
                None
            } else {
                Some(b)
            },
            None => None,
        }
    }
}

/// The part of a window that takes clicks: all of it, or only the toolbar while clicks go
/// through. `None` stands for an empty region. The toolbar's bounds are rounded outward.
pub fn toolbar_input_region(
    passthrough: bool,
    surface: (i32, i32),
    toolbar: Option<(i32, i32, i32, i32)>,
) -> (res: Option<(i32, i32, i32, i32)>)
    ensures
        res == input_region(passthrough, surface, toolbar),
{
    if !passthrough {
        return Some((0, 0, surface.0, surface.1));
    }
    match toolbar {
        Some((x, y, w, h)) => {
            if w <= 0 || h <= 0 {
                None
            } else {
                Some((x, y, w, h))
            }
        },
        None => None,
    }
}

/// A rectangle whose edges need no limits.
#[derive(Clone, Copy, Debug, PartialEq, Eq, Structural)]
pub struct Strip {
    pub x: i64,
    pub y: i64,
    pub w: i64,
    pub h: i64,
}

impl Strip {
    /// The point lies inside the strip.
    pub open spec fn covers(self, px: int, py: int) -> bool {
        self.x <= px < self.x + self.w && self.y <= py < self.y + self.h
    }
}

pub open spec fn at_least_zero(v: int) -> int {
    if v < 0 {
        0
    } else {
        v
    }
}

/// The strips above, below, left and right of a part of a window.
pub open spec fn strips(size: (i32, i32), offset: (i32, i32), part: (u32, u32)) -> Seq<Strip> {
    let (w, h) = (size.0 as i64, size.1 as i64);
    let (x, y) = (offset.0 as i64, offset.1 as i64);
    let right = offset.0 + part.0;
    let bottom = offset.1 + part.1;
    seq![
        Strip { x: 0, y: 0, w, h: at_least_zero(y as int) as i64 },
        Strip { x: 0, y: bottom as i64, w, h: at_least_zero(h - bottom) as i64 },
        Strip { x: 0, y, w: at_least_zero(x as int) as i64, h: part.1 as i64 },
        Strip { x: right as i64, y, w: at_least_zero(w - right) as i64, h: part.1 as i64 },
    ]
}

/// The veil around the annotated part of a monitor.
#[derive(Clone, Copy, Debug, PartialEq, Eq, Structural)]
pub struct EditVeil {
    pub offset_x: i32,
    pub offset_y: i32,
    pub width: u32,
    pub height: u32,
}

impl EditVeil {
    /// The strips of the veil, in a window of a size. A window without extent has none.
    pub fn snapshot(&self, size: (i32, i32)) -> (res: Vec<Strip>)
        ensures
            res@ == (if size.0 <= 0 || size.1 <= 0 {
                Seq::empty()
            } else {
                strips(size, (self.offset_x, self.offset_y), (self.width, self.height))
            }),
    {
        let mut out: Vec<Strip> = Vec::new();
        if size.0 <= 0 || size.1 <= 0 {
            assert(out@ =~= Seq::empty());
            return out;
        }
        let w: i64 = size.0 as i64;
        let h: i64 = size.1 as i64;
        let x: i64 = self.offset_x as i64;
        let y: i64 = self.offset_y as i64;
        let right: i64 = x + self.width as i64;
        let bottom: i64 = y + self.height as i64;
        out.push(Strip { x: 0, y: 0, w, h: if y < 0 { 0 } else { y } });
        out.push(Strip { x: 0, y: bottom, w, h: if h < bottom { 0 } else { h - bottom } });
        out.push(Strip { x: 0, y, w: if x < 0 { 0 } else { x }, h: self.height as i64 });
        out.push(
            Strip { x: right, y, w: if w < right { 0 } else { w - right }, h: self.height as i64 },
        );
        assert(out@ =~= strips(size, (self.offset_x, self.offset_y), (self.width, self.height)));
        out
    }
}

/// Escape closes the overlay, and no other key does.
pub fn closes_overlay(key: Key) -> (res: bool)
    ensures
        res == (key.code == KEY_ESCAPE),
{
    key.code == KEY_ESCAPE
}

// ---- laws ----------------------------------------------------------------------------------
/// The veil covers each point of the window that lies outside the annotated part once, and no
/// point of the part.
pub proof fn the_veil_leaves_the_part_free(
    size: (i32, i32),
    offset: (i32, i32),
    part: (u32, u32),
    px: int,
    py: int,
)
    requires
        0 <= offset.0 && offset.0 + part.0 <= size.0,
        0 <= offset.1 && offset.1 + part.1 <= size.1,
        0 <= px < size.0 && 0 <= py < size.1,
    ensures
        ({
            let veil = strips(size, offset, part);
            let inside = offset.0 <= px < offset.0 + part.0 && offset.1 <= py < offset.1 + part.1;
            &&& inside <==> forall|i: int| 0 <= i < 4 ==> !(#[trigger] veil[i]).covers(px, py)
            &&& forall|i: int, j: int|
                #![trigger veil[i], veil[j]]
                0 <= i < j < 4 ==> !(veil[i].covers(px, py) && veil[j].covers(px, py))
        }),
{
    let veil = strips(size, offset, part);
    assert(veil[0].covers(px, py) || veil[1].covers(px, py) || veil[2].covers(px, py)
        || veil[3].covers(px, py) || (offset.0 <= px < offset.0 + part.0 && offset.1 <= py
        < offset.1 + part.1));
}

/// The toggle on the toolbar, where there is one, shows whether clicks go through.
pub open spec fn shows_passthrough<N, S>(overlay: OverlayView<N, S>) -> bool {
    overlay.toolbar.passthrough matches Some(on) ==> on == overlay.passthrough
}

/// A save of the drawing leaves the overlay as it was, whether the zone is cancelled, cannot be
/// selected or is written: the drawing, the tool and whether clicks go through stay, and only
/// the destination may be another one.
pub proof fn a_save_leaves_the_overlay_as_it_was<N, S>(overlay: OverlayView<N, S>, mode: OutputMode)
    ensures
        ({
            let saving = overlay.clicked_through(true);
            let cancelled = saving.clicked_through(overlay.passthrough);
            let written = (OverlayView { output: mode, ..saving }).clicked_through(
                overlay.passthrough,
            );
            &&& cancelled == overlay.clicked_through(overlay.passthrough)
            &&& written == (OverlayView { output: mode, ..cancelled })
            &&& shows_passthrough(overlay) ==> cancelled == overlay
            &&& shows_passthrough(cancelled)
        }),
{
}

/// Toggling twice changes nothing.
pub proof fn two_toggles_change_nothing<N, S>(overlay: OverlayView<N, S>)
    requires
        shows_passthrough(overlay),
    ensures
        overlay.clicked_through(!overlay.passthrough).clicked_through(overlay.passthrough)
            == overlay,
{
}

/// The toolbar can be clicked whether or not clicks go through.
pub proof fn the_toolbar_stays_clickable(
    passthrough: bool,
    surface: (i32, i32),
    toolbar: (i32, i32, i32, i32),
)
    requires
        0 <= toolbar.0 && toolbar.0 + toolbar.2 <= surface.0,
        0 <= toolbar.1 && toolbar.1 + toolbar.3 <= surface.1,
        0 < toolbar.2 && 0 < toolbar.3,
    ensures
        input_region(passthrough, surface, Some(toolbar)) matches Some(region) && region.0
            <= toolbar.0 && region.1 <= toolbar.1 && toolbar.0 + toolbar.2 <= region.0 + region.2
            && toolbar.1 + toolbar.3 <= region.1 + region.3,
        passthrough ==> input_region(passthrough, surface, Some(toolbar)) == Some(toolbar),
        passthrough ==> input_region(passthrough, surface, None) is None,
{
}

/// A color that was picked for a tool is its color on every canvas, and shows on the toolbar
/// when the tool is chosen again after another one.
pub proof fn a_tool_comes_back_with_its_color<N, S>(
    overlay: OverlayView<N, S>,
    color: [S; 4],
    other: ToolKind,
    measured: Seq<(u32, u32)>,
    measured_again: Seq<(u32, u32)>,
    i: int,
)
    requires
        colorable(overlay.tool),
        !color_taken(overlay.canvases, color),
        0 <= i < overlay.canvases.len(),
        overlay.toolbar.color is Some,
    ensures
        ({
            let away = overlay.color_picked(color).overlay.tool_chosen(other, measured).overlay;
            let back = away.tool_chosen(overlay.tool, measured_again).overlay;
            &&& back.toolbar.color == Some(color)
            &&& back.toolbar.color_sensitive
            &&& lookup(back.canvases[i].canvas.colors, overlay.tool) == Some(color)
        }),
{
    let picked = overlay.color_picked(color).overlay;
    assert(picked.canvases[0].canvas.colors[overlay.tool] == color);
    assert(picked.canvases[i].canvas.colors[overlay.tool] == color);
}

/// A stroke style that was picked for a tool is its style on every canvas, and shows on the
/// toolbar when the tool is chosen again after another one.
pub proof fn a_tool_comes_back_with_its_style<N, S>(
    overlay: OverlayView<N, S>,
    style: StrokeStyle,
    other: ToolKind,
    measured: Seq<(u32, u32)>,
    measured_again: Seq<(u32, u32)>,
    i: int,
)
    requires
        styleable(overlay.tool),
        !style_taken(overlay.canvases, style),
        0 <= i < overlay.canvases.len(),
        overlay.toolbar.style is Some,
    ensures
        ({
            let away = overlay.style_picked(style).overlay.tool_chosen(other, measured).overlay;
            let back = away.tool_chosen(overlay.tool, measured_again).overlay;
            &&& back.toolbar.style == Some(style)
            &&& back.toolbar.style_sensitive
            &&& lookup(back.canvases[i].canvas.styles, overlay.tool) == Some(style)
        }),
{
    let picked = overlay.style_picked(style).overlay;
    assert(picked.canvases[0].canvas.styles[overlay.tool] == style);
    assert(picked.canvases[i].canvas.styles[overlay.tool] == style);
}

/// The color picker, the style picker and the font-size picker can be used with exactly the
/// tools that they mean something for. Blur, Crop and Redact have no use for any of them.
pub proof fn the_pickers_serve_the_tool_in_use<N, S>(
    overlay: OverlayView<N, S>,
    kind: ToolKind,
    measured: Seq<(u32, u32)>,
)
    ensures
        ({
            let toolbar = overlay.tool_chosen(kind, measured).overlay.toolbar;
            &&& overlay.toolbar.color is Some ==> toolbar.color_sensitive == colorable(kind)
            &&& overlay.toolbar.style is Some ==> toolbar.style_sensitive == styleable(kind)
            &&& overlay.toolbar.font_size is Some ==> toolbar.font_size_sensitive == sized(kind)
        }),
        kind == ToolKind::Blur || kind == ToolKind::Crop || kind == ToolKind::Redact
            ==> !colorable(kind) && !styleable(kind) && !sized(kind),
{
}

/// Undo works on one canvas: that of the monitor with the toolbar, where it has one. The others
/// stay as they are.
pub proof fn undo_works_on_one_canvas<N, S>(
    overlay: OverlayView<N, S>,
    hosting: Option<usize>,
    i: int,
)
    requires
        0 <= i < overlay.canvases.len(),
        undo_place(overlay.canvases, hosting) != Some(i),
    ensures
        overlay.undone(hosting).overlay.canvases[i] == overlay.canvases[i],
{
    if let Some(index) = hosting {
        lemma_place_of(overlay.canvases, index, 0);
    }
}

proof fn lemma_place_of<N, S>(monitors: Seq<MonitorView<N, S>>, index: usize, from: int)
    requires
        0 <= from,
    ensures
        place_of(monitors, index, from) matches Some(k) ==> from <= k < monitors.len(),
    decreases monitors.len() - from,
{
    if from < monitors.len() {
        lemma_place_of(monitors, index, from + 1);
    }
}

/// A tool that is in use is in use on every canvas.
pub proof fn a_tool_is_in_use_everywhere<N, S>(
    overlay: OverlayView<N, S>,
    kind: ToolKind,
    measured: Seq<(u32, u32)>,
    i: int,
)
    requires
        0 <= i < overlay.canvases.len(),
    ensures
        overlay.with_tool(kind, measured).canvases[i].canvas.tool == kind,
        overlay.with_tool(kind, measured).tool == kind,
{
}

/// While a capture for blurs is under way, no other one is asked for; and one that has succeeded
/// is not repeated.
pub proof fn the_screen_is_captured_once<N, S>(
    overlay: OverlayView<N, S>,
    kind: ToolKind,
    measured: Seq<(u32, u32)>,
)
    requires
        overlay.capturing || (overlay.canvases.len() > 0
            && overlay.canvases[0].canvas.has_picture()),
    ensures
        overlay.tool_chosen(kind, measured).next == Next::Nothing,
{
}

/// A color that what is being worked on has taken does not change the color of any tool but
/// Text.
pub proof fn a_taken_color_is_no_default<N, S>(overlay: OverlayView<N, S>, color: [S; 4], i: int)
    requires
        color_taken(overlay.canvases, color),
        0 <= i < overlay.canvases.len(),
    ensures
        ({
            let before = overlay.canvases[i].canvas;
            let after = overlay.color_picked(color).overlay.canvases[i].canvas;
            after.colors == before.colors || before.text is Some && after.colors
                == before.colors.insert(ToolKind::Text, color)
        }),
{
}

// ---- what the overlay does -----------------------------------------------------------------
/// The picture that is annotated lies on a monitor where it was captured: a point of the
/// monitor is on the canvas exactly when it is a point of the picture. A monitor without any
/// such point gets no canvas, and on the live screen the canvas fills the monitor.
pub proof fn a_picture_lies_where_it_was_captured(
    edit: Option<EditState>,
    monitor: Rect,
    px: int,
    py: int,
)
    requires
        monitor.w <= i32::MAX,
        monitor.h <= i32::MAX,
        monitor.covers(px, py),
    ensures
        match placement_of(edit, monitor) {
            Placement::Fill => edit is None,
            Placement::Skip => edit is Some && !(edit->0.origin.0 <= px < edit->0.origin.0
                + edit->0.base.width && edit->0.origin.1 <= py < edit->0.origin.1
                + edit->0.base.height),
            Placement::Inside(r) => edit is Some && 0 <= r.x && 0 <= r.y && r.w > 0 && r.h > 0 && (
            r.covers(px - monitor.x, py - monitor.y) <==> edit->0.origin.0 <= px
                < edit->0.origin.0 + edit->0.base.width && edit->0.origin.1 <= py
                < edit->0.origin.1 + edit->0.base.height),
        },
{
}

/// A monitor is where the display says, and at least one pixel wide and high.
pub proof fn a_monitor_has_an_area(x: i32, y: i32, width: i32, height: i32)
    ensures
        ({
            let r = monitor_area(x, y, width, height);
            &&& r.x == x && r.y == y && r.w >= 1 && r.h >= 1
            &&& width >= 1 ==> r.w == width
            &&& height >= 1 ==> r.h == height
        }),
{
}

/// The overlay's toolbar undoes and saves. Only while drawing on the live screen does it clear
/// and let clicks through, and only over a picture does it crop.
pub proof fn the_toolbar_has_what_its_mode_needs(s: ToolbarSpecView, editing: bool, passthrough: bool)
    requires
        is_overlay_spec(s, editing, passthrough),
    ensures
        s.show_undo && s.show_save && s.show_color_picker && s.show_style_picker
            && s.show_font_size_picker,
        s.show_clear <==> !editing,
        s.show_passthrough_toggle <==> !editing,
        !editing ==> s.initial_passthrough == passthrough,
        (exists|i: int| 0 <= i < s.tools.len() && (#[trigger] s.tools[i]).kind == ToolKind::Crop)
            <==> editing,
        !s.show_capture && !s.show_cursor_toggle && !s.show_delay_spinner && s.modes.len() == 0,
        s.initial_tool == Some(ToolKind::Select),
{
    if editing {
        assert(s.tools[10].kind == ToolKind::Crop);
    } else {
        assert forall|i: int| 0 <= i < s.tools.len() implies (#[trigger] s.tools[i]).kind
            != ToolKind::Crop by {}
    }
}

/// An overlay is opened as its mode says: for drawing with the sinks, the cursor and the
/// passthrough asked for, over a picture with that picture where it was captured.
pub proof fn an_overlay_is_opened_as_asked(mode: OverlayMode)
    ensures
        match mode {
            OverlayMode::Draw { passthrough, sinks, cursor } => edit_of(mode) is None
                && starts_clicked_through(mode) == passthrough && captures_cursor(mode) == cursor
                && asked_sinks(mode) == sink_views(sinks@),
            OverlayMode::Edit { base, origin, sinks } => edit_of(mode) is Some && edit_of(
                mode,
            )->0.base == base && edit_of(mode)->0.origin == origin && !starts_clicked_through(mode)
                && !captures_cursor(mode) && asked_sinks(mode) == sink_views(sinks@),
        },
{
}

/// Letting clicks through, or not, is shown on the toolbar and changes nothing on the canvases.
pub proof fn passthrough_changes_nothing_drawn<N, S>(overlay: OverlayView<N, S>, on: bool)
    ensures
        ({
            let after = overlay.clicked_through(on);
            &&& after.passthrough == on && after.canvases == overlay.canvases && after.tool
                == overlay.tool && after.edit == overlay.edit
            &&& overlay.toolbar.passthrough is Some ==> after.toolbar.passthrough == Some(on)
            &&& after.toolbar.active_tool == overlay.toolbar.active_tool
        }),
{
}

/// The tool that is chosen is down on the toolbar, and the pickers show its color, style and
/// font size, as the first canvas has them.
pub proof fn the_toolbar_shows_the_tool_in_use<N, S>(
    overlay: OverlayView<N, S>,
    kind: ToolKind,
    measured: Seq<(u32, u32)>,
)
    requires
        overlay.canvases.len() > 0,
    ensures
        ({
            let after = overlay.with_tool(kind, measured);
            let canvas = after.canvases[0].canvas;
            &&& after.tool == kind && after.canvases.len() == overlay.canvases.len()
            &&& after.toolbar.active_tool == button_of_tool(overlay.toolbar.tools, kind)
            &&& overlay.toolbar.color is Some && canvas.colors.dom().contains(kind)
                ==> after.toolbar.color == Some(canvas.colors[kind])
            &&& overlay.toolbar.style is Some && canvas.styles.dom().contains(kind)
                ==> after.toolbar.style == Some(canvas.styles[kind])
            &&& overlay.toolbar.font_size is Some && canvas.font_sizes.dom().contains(kind)
                ==> after.toolbar.font_size == Some(canvas.font_sizes[kind])
            &&& after.passthrough == overlay.passthrough && after.edit == overlay.edit
        }),
{
}

/// The pickers serve what is worked on: the text that is being edited, or else the selected
/// layer, or else the tool in use.
pub proof fn the_pickers_serve_what_is_worked_on<N, S>(overlay: OverlayView<N, S>, i: int)
    requires
        0 <= i < overlay.canvases.len(),
    ensures
        ({
            let canvas = overlay.canvases[i].canvas;
            let kind = effective_kind(overlay.tool, canvas);
            let after = overlay.refreshed(i);
            &&& canvas.text is Some ==> kind == ToolKind::Text
            &&& canvas.text is None && overlay.tool != ToolKind::Select ==> kind == overlay.tool
            &&& canvas.text is None && overlay.tool == ToolKind::Select ==> match canvas.selected() {
                Some(layer) => kind == layer.kind_of(),
                None => kind == ToolKind::Select,
            }
            &&& after == (OverlayView { toolbar: after.toolbar, ..overlay })
            &&& overlay.toolbar.color is Some ==> after.toolbar.color_sensitive == colorable(kind)
            &&& overlay.toolbar.style is Some ==> after.toolbar.style_sensitive == styleable(kind)
            &&& overlay.toolbar.font_size is Some ==> after.toolbar.font_size_sensitive == sized(
                kind,
            )
            &&& overlay.toolbar.color is Some && canvas.colors.dom().contains(kind)
                ==> after.toolbar.color == Some(canvas.colors[kind])
            &&& after.toolbar.active_tool == overlay.toolbar.active_tool
        }),
{
}

/// Undo takes back the newest layer on the monitor that has the toolbar, and where that monitor
/// is not known, on the first one.
pub proof fn undo_works_where_the_toolbar_is<N, S>(
    overlay: OverlayView<N, S>,
    hosting: Option<usize>,
    i: int,
)
    requires
        0 <= i < overlay.canvases.len(),
        forall|j: int|
            0 <= j < overlay.canvases.len() && j != i ==> (#[trigger] overlay.canvases[j]).index
                != overlay.canvases[i].index,
        hosting == Some(overlay.canvases[i].index) || (i == 0 && (hosting matches Some(index)
            ==> forall|j: int|
            0 <= j < overlay.canvases.len() ==> (#[trigger] overlay.canvases[j]).index != index)),
    ensures
        ({
            let after = overlay.acted(ToolbarAction::Undo, hosting, Seq::empty());
            &&& after.overlay.canvases.len() == overlay.canvases.len()
            &&& after.overlay.canvases[i].canvas == overlay.canvases[i].canvas.undone().canvas
            &&& forall|j: int|
                0 <= j < overlay.canvases.len() && j != i ==> #[trigger] after.overlay.canvases[j]
                    == overlay.canvases[j]
            &&& after.effects[i] == overlay.canvases[i].canvas.undone().effects
            &&& after.next == Next::Nothing
        }),
{
    if let Some(index) = hosting {
        lemma_place_found(overlay.canvases, index, 0);
    }
}

proof fn lemma_place_found<N, S>(monitors: Seq<MonitorView<N, S>>, index: usize, from: int)
    requires
        0 <= from <= monitors.len(),
    ensures
        match place_of(monitors, index, from) {
            Some(i) => from <= i < monitors.len() && monitors[i].index == index,
            None => forall|j: int|
                from <= j < monitors.len() ==> (#[trigger] monitors[j]).index != index,
        },
    decreases monitors.len() - from,
{
    if from < monitors.len() && monitors[from].index != index {
        lemma_place_found(monitors, index, from + 1);
    }
}

/// Clear empties every canvas. Save composes the picture that is annotated, and on the live
/// screen lets a zone be selected; neither touches a canvas.
pub proof fn actions_do_what_they_are_for<N, S>(
    overlay: OverlayView<N, S>,
    hosting: Option<usize>,
    measured: Seq<(u32, u32)>,
    on: bool,
    i: int,
)
    requires
        0 <= i < overlay.canvases.len(),
        overlay.canvases[i].canvas.doc is Some,
    ensures
        ({
            let cleared = overlay.acted(ToolbarAction::Clear, hosting, measured);
            &&& cleared.overlay.canvases[i].canvas.doc matches Some(d) && d.layers.len() == 0
                && d.base == overlay.canvases[i].canvas.doc->0.base
            &&& cleared.overlay.canvases.len() == overlay.canvases.len()
        }),
        overlay.acted(ToolbarAction::Save, hosting, measured).overlay == overlay,
        overlay.acted(ToolbarAction::Save, hosting, measured).next == (if overlay.edit is Some {
            Next::SaveEdit
        } else {
            Next::SaveDrawing
        }),
        overlay.acted(ToolbarAction::PassthroughToggled(on), hosting, measured).next
            == Next::Passthrough(on),
        overlay.acted(ToolbarAction::PassthroughToggled(on), hosting, measured).overlay
            == overlay.clicked_through(on),
{
}

/// A picked color, style or font size that nothing is worked on with becomes that of the tool in
/// use, on every canvas. A tool that has no such thing is left alone.
pub proof fn a_pick_becomes_the_tools<N, S>(
    overlay: OverlayView<N, S>,
    color: [S; 4],
    style: StrokeStyle,
    i: int,
)
    requires
        0 <= i < overlay.canvases.len(),
        forall|j: int|
            0 <= j < overlay.canvases.len() ==> (#[trigger] overlay.canvases[j]).canvas.text is None
                && overlay.canvases[j].canvas.selection is None,
    ensures
        ({
            let colored = overlay.color_picked(color).overlay.canvases[i].canvas;
            let styled = overlay.style_picked(style).overlay.canvases[i].canvas;
            let before = overlay.canvases[i].canvas;
            &&& colorable(overlay.tool) ==> lookup(colored.colors, overlay.tool) == Some(color)
            &&& !colorable(overlay.tool) ==> colored == before
            &&& styleable(overlay.tool) ==> lookup(styled.styles, overlay.tool) == Some(style)
            &&& !styleable(overlay.tool) ==> styled == before
            &&& colored.doc == before.doc && styled.doc == before.doc
        }),
{
    assert(!color_taken(overlay.canvases, color));
    assert(!style_taken(overlay.canvases, style));
}

/// A blur on the live screen needs a capture of it, which is asked for once: when the Blur tool
/// is chosen and there is none yet. Over a picture none is needed.
pub proof fn a_blur_needs_the_screen<N, S>(
    overlay: OverlayView<N, S>,
    kind: ToolKind,
    measured: Seq<(u32, u32)>,
)
    requires
        overlay.canvases.len() > 0,
        overlay.canvases[0].canvas.text is None,
    ensures
        ({
            let chosen = overlay.tool_chosen(kind, measured);
            let asked = kind == ToolKind::Blur && overlay.edit is None && !overlay.capturing && !(
            overlay.canvases[0].canvas.doc is Some && overlay.canvases[0].canvas.doc->0.base
                is Some);
            &&& chosen.next == Next::CaptureForBlur <==> asked
            &&& chosen.overlay.capturing == (overlay.capturing || asked)
            &&& chosen.overlay.tool == kind
        }),
{
}

/// The parts of the annotated picture are those of the monitors on which it lies, in their
/// order, each where its monitor shows it.
pub proof fn every_slice_is_a_part<N, S>(
    monitors: Seq<MonitorView<N, S>>,
    origin: (i32, i32),
    n: nat,
    i: int,
)
    requires
        n <= monitors.len() <= usize::MAX,
        0 <= i < n,
    ensures
        match monitors[i].slice {
            Some(slice) => slice.x >= origin.0 && slice.y >= origin.1 ==> exists|k: int|
                0 <= k < parts_of(monitors, origin, n).len() && (#[trigger] parts_of(
                    monitors,
                    origin,
                    n,
                )[k]).place == i && parts_of(monitors, origin, n)[k].left == slice.x - origin.0
                    && parts_of(monitors, origin, n)[k].top == slice.y - origin.1,
            None => forall|k: int|
                0 <= k < parts_of(monitors, origin, n).len() ==> (#[trigger] parts_of(
                    monitors,
                    origin,
                    n,
                )[k]).place != i,
        },
        forall|k: int|
            0 <= k < parts_of(monitors, origin, n).len() ==> (#[trigger] parts_of(
                monitors,
                origin,
                n,
            )[k]).place < n,
    decreases n,
{
    let front = parts_of(monitors, origin, (n - 1) as nat);
    let all = parts_of(monitors, origin, n);
    if n > 1 {
        every_slice_is_a_part(
            monitors,
            origin,
            (n - 1) as nat,
            if i < n - 1 {
                i
            } else {
                0
            },
        );
    }
    assert forall|k: int| 0 <= k < front.len() implies #[trigger] all[k] == front[k] by {}
    if let Some(slice) = monitors[i].slice {
        if slice.x >= origin.0 && slice.y >= origin.1 {
            if i == n - 1 {
                assert(all[front.len() as int].place == i);
            } else {
                let k = choose|k: int|
                    0 <= k < front.len() && (#[trigger] front[k]).place == i && front[k].left
                        == slice.x - origin.0 && front[k].top == slice.y - origin.1;
                assert(all[k].place == i);
            }
        }
    }
}

/// The corner of several captures that are put together is the least of their coordinates.
pub proof fn the_corner_is_the_least(coordinates: Seq<i32>, n: nat)
    requires
        0 < n <= coordinates.len(),
    ensures
        forall|i: int| 0 <= i < n ==> least(coordinates, n) <= #[trigger] coordinates[i],
        exists|i: int| 0 <= i < n && least(coordinates, n) == #[trigger] coordinates[i],
    decreases n,
{
    if n > 1 {
        the_corner_is_the_least(coordinates, (n - 1) as nat);
        let i = choose|i: int|
            0 <= i < n - 1 && least(coordinates, (n - 1) as nat) == #[trigger] coordinates[i];
        assert(coordinates[n - 1] == least(coordinates, n) || coordinates[i] == least(
            coordinates,
            n,
        ));
    } else {
        assert(coordinates[0] == least(coordinates, n));
    }
}

/// Captures that are put together lie at a corner that is left of and above all of theirs, or
/// level with them, and no further out.
pub proof fn the_whole_capture_begins_at_the_outermost_corners(corners: Seq<(i32, i32)>, i: int)
    requires
        0 <= i < corners.len(),
    ensures
        stitched_corner(corners).0 <= corners[i].0 && stitched_corner(corners).1 <= corners[i].1,
        exists|j: int| 0 <= j < corners.len() && stitched_corner(corners).0 == (#[trigger] corners[j]).0,
        exists|j: int| 0 <= j < corners.len() && stitched_corner(corners).1 == (#[trigger] corners[j]).1,
{
    let n = corners.len();
    the_corner_is_the_least(xs(corners), n);
    the_corner_is_the_least(ys(corners), n);
    assert(xs(corners)[i] == corners[i].0 && ys(corners)[i] == corners[i].1);
    let j = choose|j: int| 0 <= j < n && least(xs(corners), n) == #[trigger] xs(corners)[j];
    assert(corners[j].0 == stitched_corner(corners).0);
    let k = choose|k: int| 0 <= k < n && least(ys(corners), n) == #[trigger] ys(corners)[k];
    assert(corners[k].1 == stitched_corner(corners).1);
}

/// The canvas of a monitor starts without any layer. Over a picture, each of its pixels is the
/// one that the picture has at that place of the desktop.
pub proof fn a_monitor_starts_with_its_part_of_the_picture<N, S>(
    doc: DocumentView<N, S>,
    edit: Option<EditState>,
    monitor: Rect,
    px: int,
    py: int,
    c: int,
)
    requires
        starts_with(doc, edit, monitor),
        monitor.covers(px, py),
        0 <= c < 4,
    ensures
        doc.layers.len() == 0 && doc.crop is None,
        edit is None ==> doc.base is None && doc.size == (monitor.w, monitor.h),
        edit matches Some(e) ==> {
            let left = if monitor.x > e.origin.0 {
                monitor.x
            } else {
                e.origin.0
            };
            let top = if monitor.y > e.origin.1 {
                monitor.y
            } else {
                e.origin.1
            };
            doc.base is Some && (e.area().covers(px, py) ==> doc.base->0.pixels@[4 * (
            doc.base->0.width * (py - top) + (px - left)) + c] == e.base.pixels@[(py - e.origin.1)
                * e.base.stride + 4 * (px - e.origin.0) + c])
        },
{
    if let Some(e) = edit {
        let slice = monitor.overlap(e.area())->0;
        if e.area().covers(px, py) {
            assert(slice.covers(px, py));
            a_piece_shows_what_the_picture_does(
                doc.base->0.pixels@,
                slice,
                e.base.pixels@,
                e.base.stride as int,
                e.origin,
                px,
                py,
                c,
            );
        }
    }
}

/// A monitor that is added comes last, with the tool in use and nothing drawn on it. The others
/// stay as they are.
pub proof fn an_added_monitor_comes_last<N, S>(
    before: OverlayView<N, S>,
    after: OverlayView<N, S>,
    index: usize,
    monitor: Rect,
    look: Look<N, S>,
    colors: AnnotateColors<S>,
    i: int,
)
    requires
        adds_monitor(before, after, index, monitor, look, colors),
        0 <= i < before.canvases.len(),
    ensures
        after.canvases.len() >= before.canvases.len(),
        after.canvases[i] == before.canvases[i],
        before.edit is None ==> after.canvases.len() == before.canvases.len() + 1,
        after.canvases.len() > before.canvases.len() ==> {
            let added = after.canvases.last();
            &&& added.index == index && added.monitor_rect == monitor
            &&& added.canvas.tool == before.tool && added.canvas.transparent
            &&& added.canvas.text is None && added.canvas.selection is None
            &&& added.canvas.doc is Some && added.canvas.doc->0.layers.len() == 0
            &&& added.slice is Some <==> before.edit is Some
        },
        after.tool == before.tool && after.toolbar == before.toolbar && after.edit == before.edit
            && after.passthrough == before.passthrough,
{
    if after.canvases.len() > before.canvases.len() {
        assert(after.canvases.drop_last()[i] == after.canvases[i]);
    }
}

/// The capture that a blur needs lies under the canvas where it was taken: each of its pixels is
/// the one of the screen at that place, with red and blue exchanged. What was drawn stays.
pub proof fn a_capture_lies_under_its_canvas<N, S>(
    after: MonitorView<N, S>,
    before: MonitorView<N, S>,
    capture: CapturedImage,
    origin: (i32, i32),
    px: int,
    py: int,
)
    requires
        has_capture_under(after, before, capture, origin),
        before.canvas.doc is Some,
        before.monitor_rect.covers(px, py),
        origin.0 <= px < origin.0 + capture.width,
        origin.1 <= py < origin.1 + capture.height,
    ensures
        after.canvas.doc is Some && after.canvas.doc->0.base is Some,
        after.canvas.doc->0.layers == before.canvas.doc->0.layers,
        after.canvas.hidden_base && after.index == before.index,
        ({
            let base = after.canvas.doc->0.base->0;
            let m = before.monitor_rect;
            let left = if m.x > origin.0 {
                m.x
            } else {
                origin.0
            };
            let top = if m.y > origin.1 {
                m.y
            } else {
                origin.1
            };
            let here = 4 * (base.width * (py - top) + (px - left));
            let there = (py - origin.1) * capture.stride + 4 * (px - origin.0);
            &&& base.pixels@[here + 2] == capture.pixels@[there]
            &&& base.pixels@[here + 1] == capture.pixels@[there + 1]
            &&& base.pixels@[here] == capture.pixels@[there + 2]
            &&& base.pixels@[here + 3] == capture.pixels@[there + 3]
        }),
{
    let area = Rect { x: origin.0, y: origin.1, w: capture.width, h: capture.height };
    let r = before.monitor_rect.overlap(area)->0;
    assert(r.covers(px, py));
    let base = after.canvas.doc->0.base->0;
    let turned = red_and_blue_exchanged(base.pixels@);
    let stride = capture.stride as int;
    a_piece_shows_what_the_picture_does(turned, r, capture.pixels@, stride, origin, px, py, 0);
    a_piece_shows_what_the_picture_does(turned, r, capture.pixels@, stride, origin, px, py, 1);
    a_piece_shows_what_the_picture_does(turned, r, capture.pixels@, stride, origin, px, py, 2);
    a_piece_shows_what_the_picture_does(turned, r, capture.pixels@, stride, origin, px, py, 3);
    let (w, x, y) = (r.w as int, px - r.x, py - r.y);
    let h = r.h as int;
    let p = w * y + x;
    assert(0 <= p && 4 * p + 3 < 4 * w * h) by (nonlinear_arith)
        requires
            0 <= x < w,
            0 <= y < h,
            p == w * y + x,
    ;
    a_pixel_keeps_its_green_and_alpha(base.pixels@, p);
}

/// A save is captured for the destination that was picked, to its sinks. A save that was
/// cancelled or has failed lets clicks through as before, and only the failure is reported.
/// Nothing that was drawn is touched.
pub proof fn a_save_goes_where_it_was_sent<N, S>(
    before: OverlayView<N, S>,
    after: OverlayView<N, S>,
    save: DrawSave,
    reply: SelectorReply,
    step: SaveStep,
)
    requires
        answers(before, after, save, reply, step),
    ensures
        after.canvases == before.canvases && after.tool == before.tool && after.edit == before.edit,
        reply is Picked <==> step is Capture,
        reply matches SelectorReply::Picked(mode) ==> after.output == mode && after.passthrough
            == before.passthrough,
        step matches SaveStep::Capture(sinks) ==> sink_views(sinks@) == sinks_for(
            before.sinks,
            after.output,
        ),
        !(reply is Picked) ==> after.passthrough == save.previous && after.output == before.output,
        step matches SaveStep::Over { report } ==> (report <==> reply is Failed),
{
}

/// A picked font size that nothing is worked on with becomes that of the tool in use, on every
/// canvas, where the tool has one.
pub proof fn a_picked_size_becomes_the_tools<N, S>(
    overlay: OverlayView<N, S>,
    size: FontSize<S>,
    measured: Seq<(u32, u32)>,
    i: int,
)
    requires
        0 <= i < overlay.canvases.len(),
        forall|j: int|
            0 <= j < overlay.canvases.len() ==> (#[trigger] overlay.canvases[j]).canvas.text is None
                && overlay.canvases[j].canvas.selection is None,
    ensures
        ({
            let after = overlay.font_size_picked(size, measured).overlay.canvases[i].canvas;
            let before = overlay.canvases[i].canvas;
            &&& sized(overlay.tool) ==> lookup(after.font_sizes, overlay.tool) == Some(
                size.raised(),
            )
            &&& !sized(overlay.tool) ==> after == before
            &&& after.doc == before.doc && after.colors == before.colors
        }),
{
    assert(!font_size_taken(overlay.canvases, size, measured));
}

/// The capture lies under every canvas that it reaches, and leaves the others as they are.
pub proof fn every_canvas_has_the_capture_under_it<N, S>(
    after: Seq<MonitorView<N, S>>,
    before: Seq<MonitorView<N, S>>,
    capture: CapturedImage,
    origin: (i32, i32),
    i: int,
    px: int,
    py: int,
)
    requires
        have_capture_under(after, before, capture, origin),
        0 <= i < before.len(),
        before[i].canvas.doc is Some,
    ensures
        before[i].monitor_rect.covers(px, py) && origin.0 <= px < origin.0 + capture.width
            && origin.1 <= py < origin.1 + capture.height ==> after[i].canvas.doc is Some
            && after[i].canvas.doc->0.base is Some && after[i].canvas.hidden_base,
        before[i].monitor_rect.overlap(
            Rect { x: origin.0, y: origin.1, w: capture.width, h: capture.height },
        ) is None ==> after[i] == before[i],
        after[i].canvas.doc is Some && after[i].canvas.doc->0.layers
            == before[i].canvas.doc->0.layers,
{
    assert(has_capture_under(after[i], before[i], capture, origin));
}

} // verus!
