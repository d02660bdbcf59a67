//! Drags, clicks, keys and pointer moves on the annotation canvas.

use vstd::prelude::*;
use vstd::utf8::*;

use crate::region::Rect;
use crate::strings::same_text;
use crate::ui::canvas::{AnnotationCanvas, Blink, Effects, PendingStroke};
use crate::ui::keys::{Key, Modifiers};
use crate::ui::select::{
    apply_manipulation, apply_shift, grab_at, grab_cursor, grab_geometry, plan_move,
    select_key_action, Grab, Hits, Manipulation, Move, Moved, SelectKeyAction,
};
use crate::ui::text_edit::{apply_text_key, text_key_from, PendingText, TextKeyOutcome};
use crate::ui::tools::{
    ArrowTool, BlurTool, EllipseTool, FreehandTool, HighlightTool, Layer, LineTool, NumberTool,
    RectTool, RedactTool, StrokeStyle, ToolKind,
};

verus! {

use crate::ui::canvas::{lookup_or, CanvasView, StrokeView};
use crate::ui::keys::{
    KEY_BACKSPACE, KEY_DELETE, KEY_DOWN, KEY_ESCAPE, KEY_KP_ENTER, KEY_LEFT, KEY_RETURN, KEY_RIGHT,
    KEY_UP,
};
use crate::ui::caret::{lemma_offset_bounds, lemma_position_is_boundary};
use crate::ui::select::{
    geometry_of, grab_cursor_of, grab_of, manipulated, move_of, select_action_of, shifted,
};
use crate::ui::text_edit::{edit_step, text_key_of, text_key_outcome};
use crate::ui::tools::{DocumentView, TextTool};

// ---- clamping ------------------------------------------------------------------------------
/// The part of a rectangle that lies on a document of that size.
pub open spec fn clamped(r: Rect, size: (u32, u32)) -> Rect {
    let x0 = if r.x < 0 { 0 } else { r.x as int };
    let y0 = if r.y < 0 { 0 } else { r.y as int };
    let right = if r.right_edge() < size.0 { r.right_edge() } else { size.0 as int };
    let bottom = if r.bottom_edge() < size.1 { r.bottom_edge() } else { size.1 as int };
    let x1 = if right < x0 { x0 } else { right };
    let y1 = if bottom < y0 { y0 } else { bottom };
    Rect { x: x0 as i32, y: y0 as i32, w: (x1 - x0) as u32, h: (y1 - y0) as u32 }
}

/// A document size whose far corner has coordinates.
pub open spec fn size_fits(size: (u32, u32)) -> bool {
    size.0 <= i32::MAX && size.1 <= i32::MAX
}

/// The part of a rectangle that lies on a document of that size.
pub fn clamp_to_doc(r: Rect, size: (u32, u32)) -> (res: Rect)
    requires
        r.edges_fit(),
        size_fits(size),
    ensures
        res == clamped(r, size),
{
    let x0: i32 = if r.x < 0 { 0 } else { r.x };
    let y0: i32 = if r.y < 0 { 0 } else { r.y };
    let right: i32 = if r.right() < size.0 as i32 { r.right() } else { size.0 as i32 };
    let bottom: i32 = if r.bottom() < size.1 as i32 { r.bottom() } else { size.1 as i32 };
    let x1: i32 = if right < x0 { x0 } else { right };
    let y1: i32 = if bottom < y0 { y0 } else { bottom };
    Rect { x: x0, y: y0, w: (x1 - x0) as u32, h: (y1 - y0) as u32 }
}

/// Clamping keeps exactly the points of the rectangle that lie on the document.
pub proof fn clamping_keeps_what_is_on_the_document(r: Rect, size: (u32, u32), px: int, py: int)
    requires
        r.edges_fit(),
        size_fits(size),
    ensures
        clamped(r, size).covers(px, py) <==> r.covers(px, py) && 0 <= px < size.0 && 0 <= py
            < size.1,
{
}

/// The smallest extent of a box that a drag leaves behind.
pub open spec fn large_enough(r: Rect) -> bool {
    r.w >= 2 && r.h >= 2
}

fn is_large_enough(r: &Rect) -> (res: bool)
    ensures
        res == large_enough(*r),
{
    r.w >= 2 && r.h >= 2
}

// ---- the Select tool -----------------------------------------------------------------------
/// What the pointer is over on one layer, and the box around the layer.
#[derive(Clone, Copy, Debug)]
pub struct Under {
    pub hits: Hits,
    pub bounds: Rect,
}

/// The topmost layer whose body the pointer is over.
pub open spec fn topmost_body(under: Seq<Under>) -> Option<usize>
    decreases under.len(),
{
    if under.len() == 0 {
        None
    } else if under.last().hits.body {
        Some((under.len() - 1) as usize)
    } else {
        topmost_body(under.drop_last())
    }
}

fn find_topmost_body(under: &[Under]) -> (res: Option<usize>)
    ensures
        res == topmost_body(under@),
        res matches Some(i) ==> i < under@.len(),
{
    let mut n: usize = under.len();
    proof {
        assert(under@.take(n as int) =~= under@);
    }
    while n > 0
        invariant
            n <= under@.len(),
            topmost_body(under@.take(n as int)) == topmost_body(under@),
        decreases n,
    {
        proof {
            assert(under@.take(n as int).drop_last() =~= under@.take(n - 1));
        }
        if under[n - 1].hits.body {
            return Some(n - 1);
        }
        n -= 1;
    }
    None
}

/// The grab on the selected layer, if a press there grabs it.
pub open spec fn selected_grab<N, S>(c: CanvasView<N, S>, under: Seq<Under>) -> Option<Grab> {
    match (c.selection, c.selected()) {
        (Some(i), Some(layer)) => grab_of(layer.kind_of(), under[i as int].hits),
        _ => None,
    }
}

/// A grab of the layer `i`, from a press at `at`.
pub open spec fn grabbed<N, S>(
    c: CanvasView<N, S>,
    i: usize,
    grab: Grab,
    under: Seq<Under>,
    at: (N, N),
) -> Manipulation<N, S> {
    Manipulation {
        layer: i,
        grab,
        origin: geometry_of(
            c.doc->0.layers[i as int],
            under[i as int].bounds,
            (c.look.zero, c.look.zero),
        ),
        start: at,
        last: at,
    }
}

/// The canvas after a press with the Select tool: a handle of the selected layer is grabbed, or
/// else the topmost layer under the pointer is selected and grabbed, or else nothing is selected.
pub open spec fn pressed<N, S>(c: CanvasView<N, S>, under: Seq<Under>, at: (N, N)) -> CanvasView<
    N,
    S,
> {
    if c.doc is None {
        c
    } else {
        match (selected_grab(c, under), topmost_body(under)) {
            (Some(grab), _) => CanvasView {
                manip: Some(grabbed(c, c.selection->0, grab, under, at)),
                ..c
            },
            (None, Some(i)) => CanvasView {
                selection: Some(i),
                manip: Some(grabbed(c, i, Grab::Body, under, at)),
                ..c
            },
            (None, None) => CanvasView { selection: None, ..c },
        }
    }
}

/// What a press with the Select tool owes: the toolbar hears of a changed selection.
pub open spec fn press_effects<N, S>(c: CanvasView<N, S>, under: Seq<Under>) -> Effects {
    if c.doc is None || selected_grab(c, under) is Some || (topmost_body(under) is None
        && c.selection is None) {
        Effects::nothing()
    } else {
        Effects { ui_state: true, ..Effects::drawing() }
    }
}

// ---- drawing tools -------------------------------------------------------------------------
/// The preview color of a tool without a color of its own.
pub open spec fn preview_color<N, S>(c: CanvasView<N, S>, kind: ToolKind) -> [S; 4] {
    match kind {
        ToolKind::Redact => c.look.redact_preview,
        ToolKind::Crop => c.look.crop_preview,
        ToolKind::Blur => c.look.blur_preview,
        _ => c.look.other_preview,
    }
}

impl<N, S> CanvasView<N, S> {
    /// The next badge is on the document, on top, and the one after it is the next.
    pub open spec fn with_badge(self, at: (N, N)) -> CanvasView<N, S> {
        match self.doc {
            Some(d) => CanvasView {
                doc: Some(
                    d.with_layer(
                        Layer::Number(
                            NumberTool {
                                center: at,
                                value: self.next_number,
                                fill: lookup_or(
                                    self.colors,
                                    ToolKind::Number,
                                    self.look.number_fill,
                                ),
                                text_color: self.look.number_text,
                                radius: self.look.number_radius,
                            },
                        ),
                    ),
                ),
                next_number: (self.next_number + 1) as u32,
                ..self
            },
            None => self,
        }
    }
}

/// The stroke that a drag with the tool in use begins.
pub open spec fn begun_stroke<N, S>(c: CanvasView<N, S>, at: (N, N), shift: bool) -> StrokeView<
    N,
    S,
> {
    StrokeView {
        kind: c.tool,
        from: at,
        to: at,
        points: if c.tool == ToolKind::Freehand {
            seq![at]
        } else {
            Seq::empty()
        },
        color: lookup_or(c.colors, c.tool, preview_color(c, c.tool)),
        style: lookup_or(c.styles, c.tool, StrokeStyle::Solid),
        invert: c.tool == ToolKind::Blur && shift,
        constrain: false,
    }
}

/// Shift makes squares and circles of these.
pub open spec fn constrainable(kind: ToolKind) -> bool {
    kind == ToolKind::Rect || kind == ToolKind::Ellipse
}

/// The stroke after the pointer moved to `to`.
pub open spec fn dragged<N, S>(s: StrokeView<N, S>, to: (N, N), shift: bool) -> StrokeView<N, S> {
    StrokeView {
        to,
        points: if s.kind == ToolKind::Freehand {
            s.points.push(to)
        } else {
            s.points
        },
        constrain: if constrainable(s.kind) {
            shift
        } else {
            s.constrain
        },
        ..s
    }
}

/// The geometry of a finished drag from one point to another.
#[derive(Clone, Copy, Debug)]
pub struct DragShape {
    /// The rectangle between the points, and the square that Shift makes of it.
    pub rect: Rect,
    pub square: Rect,
    /// The points are far enough apart for an arrow or a line.
    pub long_enough: bool,
}

/// The layer that a finished drag leaves behind, if any.
pub open spec fn drawn_layer<N, S>(
    c: CanvasView<N, S>,
    s: PendingStroke<N, S>,
    to: (N, N),
    shift: bool,
    shape: DragShape,
    size: (u32, u32),
) -> Option<Layer<N, S>> {
    let bounds = if shift {
        shape.square
    } else {
        shape.rect
    };
    match s.kind {
        ToolKind::Rect => if large_enough(bounds) {
            Some(
                Layer::Rect(
                    RectTool {
                        bounds,
                        stroke: lookup_or(c.colors, ToolKind::Rect, c.look.box_stroke),
                        stroke_width: c.look.box_width,
                        stroke_style: s.style,
                    },
                ),
            )
        } else {
            None
        },
        ToolKind::Ellipse => if large_enough(bounds) {
            Some(
                Layer::Ellipse(
                    EllipseTool {
                        bounds,
                        stroke: lookup_or(c.colors, ToolKind::Ellipse, c.look.box_stroke),
                        stroke_width: c.look.box_width,
                        stroke_style: s.style,
                    },
                ),
            )
        } else {
            None
        },
        ToolKind::Arrow => if shape.long_enough {
            Some(
                Layer::Arrow(
                    ArrowTool {
                        from: s.from,
                        to,
                        stroke: lookup_or(c.colors, ToolKind::Arrow, c.look.line_stroke),
                        stroke_width: c.look.line_width,
                        stroke_style: s.style,
                    },
                ),
            )
        } else {
            None
        },
        ToolKind::Line => if shape.long_enough {
            Some(
                Layer::Line(
                    LineTool {
                        from: s.from,
                        to,
                        stroke: lookup_or(c.colors, ToolKind::Line, c.look.line_stroke),
                        stroke_width: c.look.line_width,
                        stroke_style: s.style,
                    },
                ),
            )
        } else {
            None
        },
        ToolKind::Highlight => if large_enough(shape.rect) {
            Some(
                Layer::Highlight(
                    HighlightTool {
                        bounds: shape.rect,
                        color: lookup_or(c.colors, ToolKind::Highlight, c.look.highlight),
                    },
                ),
            )
        } else {
            None
        },
        ToolKind::Redact => if large_enough(shape.rect) {
            Some(Layer::Redact(RedactTool { bounds: shape.rect }))
        } else {
            None
        },
        ToolKind::Freehand => if s.points@.len() >= 2 {
            Some(
                Layer::Freehand(
                    FreehandTool {
                        points: s.points,
                        stroke: lookup_or(c.colors, ToolKind::Freehand, c.look.line_stroke),
                        stroke_width: c.look.line_width,
                        stroke_style: s.style,
                    },
                ),
            )
        } else {
            None
        },
        ToolKind::Blur => if large_enough(clamped(shape.rect, size)) {
            Some(
                Layer::Blur(
                    BlurTool {
                        bounds: clamped(shape.rect, size),
                        radius: c.look.blur_radius,
                        invert: s.invert,
                    },
                ),
            )
        } else {
            None
        },
        ToolKind::Crop | ToolKind::Number | ToolKind::Text | ToolKind::Select => None,
    }
}

/// The document after a finished drag.
pub open spec fn drawn_document<N, S>(
    c: CanvasView<N, S>,
    s: PendingStroke<N, S>,
    to: (N, N),
    shift: bool,
    shape: DragShape,
) -> DocumentView<N, S> {
    let d = c.doc->0;
    match drawn_layer(c, s, to, shift, shape, d.size) {
        Some(layer) => d.with_layer(layer),
        None => if s.kind == ToolKind::Crop && large_enough(clamped(shape.rect, d.size)) {
            DocumentView { crop: Some(clamped(shape.rect, d.size)), ..d }
        } else {
            d
        },
    }
}

/// What a finished drag owes: a new layer, or a crop that is large enough, whether or not there
/// was one before, ends the drawing action.
pub open spec fn drag_end_effects<N, S>(
    before: DocumentView<N, S>,
    after: DocumentView<N, S>,
    kind: ToolKind,
    shape: DragShape,
) -> Effects {
    Effects {
        resize: kind == ToolKind::Crop,
        commit: after.layers.len() != before.layers.len() || (kind == ToolKind::Crop
            && large_enough(clamped(shape.rect, before.size))),
        ..Effects::drawing()
    }
}

/// The canvas after a press at `at`, and what the press owes.
pub open spec fn drag_begun<N, S>(
    c: CanvasView<N, S>,
    under: Seq<Under>,
    at: (N, N),
    shift: bool,
) -> (CanvasView<N, S>, Effects) {
    match c.tool {
        ToolKind::Select => (pressed(c, under, at), press_effects(c, under)),
        ToolKind::Number | ToolKind::Text => (c, Effects::nothing()),
        _ => (
            CanvasView { pending: Some(begun_stroke(c, at, shift)), ..c },
            Effects::drawing(),
        ),
    }
}

/// The canvas after the pointer was dragged to `to`, and what that owes.
pub open spec fn drag_moved<N, S>(
    c: CanvasView<N, S>,
    to: (N, N),
    shift: bool,
    moved: Moved<N, S>,
) -> (CanvasView<N, S>, Effects) {
    if c.tool == ToolKind::Select {
        match (c.manip, c.doc) {
            (Some(m), Some(d)) => if m.layer < d.layers.len() {
                let layer = manipulated(d.layers[m.layer as int], m, to, moved);
                (
                    CanvasView {
                        doc: Some(
                            DocumentView { layers: d.layers.update(m.layer as int, layer), ..d },
                        ),
                        manip: Some(Manipulation { last: to, ..m }),
                        ..c
                    },
                    Effects::drawing(),
                )
            } else {
                (c, Effects::nothing())
            },
            _ => (c, Effects::nothing()),
        }
    } else {
        match c.pending {
            Some(s) => (
                CanvasView { pending: Some(dragged(s, to, shift)), ..c },
                Effects::drawing(),
            ),
            None => (c, Effects::nothing()),
        }
    }
}

/// The canvas after the drag ended at `to`, and what that owes.
pub open spec fn drag_ended<N, S>(
    c: CanvasView<N, S>,
    pending: Option<PendingStroke<N, S>>,
    to: (N, N),
    shift: bool,
    shape: DragShape,
) -> (CanvasView<N, S>, Effects) {
    if c.tool == ToolKind::Select {
        (CanvasView { manip: None, ..c }, Effects::drawing())
    } else {
        match (pending, c.doc) {
            (Some(s), Some(d)) => {
                let after = drawn_document(c, s, to, shift, shape);
                (
                    CanvasView { doc: Some(after), pending: None, ..c },
                    drag_end_effects(d, after, s.kind, shape),
                )
            },
            _ => (CanvasView { pending: None, ..c }, Effects::nothing()),
        }
    }
}

/// The canvas after the caret blinked once.
pub open spec fn blinked<N, S>(c: CanvasView<N, S>) -> CanvasView<N, S> {
    match c.text {
        Some(pt) => CanvasView {
            text: Some(PendingText { caret_visible: !pt.caret_visible, ..pt }),
            ..c
        },
        None => c,
    }
}

/// `after` is the canvas with a new text at `at`. A text that was being edited is finished.
pub open spec fn starts_text<N, S>(
    before: CanvasView<N, S>,
    after: CanvasView<N, S>,
    at: (N, N),
    measured: (u32, u32),
) -> bool {
    let c = before.text_committed(measured);
    &&& after.text matches Some(pt)
    &&& pt.buffer@.len() == 0
    &&& pt == (PendingText {
        origin: at,
        buffer: pt.buffer,
        caret: 0,
        color: lookup_or(c.colors, ToolKind::Text, c.look.text_color),
        size_pt: lookup_or(c.font_sizes, ToolKind::Text, c.look.font_size),
        wrap_width: None,
        caret_visible: true,
    })
    &&& after == (CanvasView { text: Some(pt), ..c })
}

impl<N: Copy, S: Copy> AnnotationCanvas<N, S> {
    fn color_or(&self, kind: ToolKind, other: [S; 4]) -> (res: [S; 4])
        requires
            self.wf(),
        ensures
            res == lookup_or(self@.colors, kind, other),
    {
        match self.tool_color(kind) {
            Some(color) => color,
            None => other,
        }
    }

    /// A press with the Select tool at `at`. `under` says for each layer what the pointer is over.
    pub fn begin_select(&mut self, at: (N, N), under: &[Under]) -> (res: Effects)
        requires
            old(self).wf(),
            old(self)@.doc matches Some(d) ==> d.layers.len() == under@.len(),
        ensures
            final(self).wf(),
            final(self)@ == pressed(old(self)@, under@, at),
            res == press_effects(old(self)@, under@),
    {
        let zero = (self.look.zero, self.look.zero);
        let doc = match &self.doc {
            Some(doc) => doc,
            None => {
                return Effects::none();
            },
        };
        if let Some(i) = self.selection {
            if let Some(layer) = doc.layer(i) {
                if let Some(grab) = grab_at(layer.kind(), &under[i].hits) {
                    let origin = grab_geometry(layer, under[i].bounds, zero);
                    self.manip = Some(
                        Manipulation { layer: i, grab, origin, start: at, last: at },
                    );
                    return Effects::none();
                }
            }
        }
        let mut effects = Effects::redraw();
        effects.ui_state = true;
        if let Some(i) = find_topmost_body(under) {
            let origin = grab_geometry(&doc.layers[i], under[i].bounds, zero);
            self.selection = Some(i);
            self.manip = Some(
                Manipulation { layer: i, grab: Grab::Body, origin, start: at, last: at },
            );
            return effects;
        }
        if self.selection.is_some() {
            self.selection = None;
            return effects;
        }
        Effects::none()
    }

    /// The begin of a drag at `at`. Select grabs what is under the pointer, Number and Text do
    /// not drag, and every other tool begins a stroke.
    pub fn drag_begin(&mut self, at: (N, N), shift: bool, under: &[Under]) -> (res: Effects)
        requires
            old(self).wf(),
            old(self)@.tool == ToolKind::Select ==> (old(self)@.doc matches Some(d)
                ==> d.layers.len() == under@.len()),
        ensures
            final(self).wf(),
            (final(self)@, res) == drag_begun(old(self)@, under@, at, shift),
    {
        let kind = self.current_tool;
        match kind {
            ToolKind::Select => {
                return self.begin_select(at, under);
            },
            ToolKind::Number | ToolKind::Text => {
                return Effects::none();
            },
            _ => {},
        }
        let mut points: Vec<(N, N)> = Vec::new();
        if kind == ToolKind::Freehand {
            points.push(at);
        }
        let preview = match kind {
            ToolKind::Redact => self.look.redact_preview,
            ToolKind::Crop => self.look.crop_preview,
            ToolKind::Blur => self.look.blur_preview,
            _ => self.look.other_preview,
        };
        let color = self.color_or(kind, preview);
        let style = match self.tool_style(kind) {
            Some(style) => style,
            None => StrokeStyle::Solid,
        };
        let stroke = PendingStroke {
            kind,
            from: at,
            to: at,
            points,
            color,
            style,
            invert: kind == ToolKind::Blur && shift,
            constrain: false,
        };
        proof {
            assert(stroke@ =~= begun_stroke(old(self)@, at, shift));
        }
        self.pending = Some(stroke);
        Effects::redraw()
    }

    /// What a step of a Select drag to `cur` has to compute before [`Self::drag_update`].
    pub fn plan_drag(&self, cur: (N, N)) -> (res: Move<N, S>)
        ensures
            res == match (self@.manip, self@.doc) {
                (Some(m), Some(d)) => if m.layer < d.layers.len() {
                    move_of(m, cur)
                } else {
                    Move::Nothing
                },
                _ => Move::Nothing,
            },
    {
        match (&self.manip, &self.doc) {
            (Some(m), Some(doc)) => {
                if m.layer < doc.layers.len() {
                    plan_move(m, cur)
                } else {
                    Move::Nothing
                }
            },
            _ => Move::Nothing,
        }
    }

    /// A step of a Select drag to `cur`. `moved` is what the arithmetic made of
    /// [`Self::plan_drag`].
    pub fn update_select(&mut self, cur: (N, N), moved: Moved<N, S>) -> (res: Effects)
        requires
            old(self).wf(),
        ensures
            final(self).wf(),
            match (old(self)@.manip, old(self)@.doc) {
                (Some(m), Some(d)) => if m.layer < d.layers.len() {
                    &&& final(self)@ == (CanvasView {
                        doc: Some(
                            DocumentView {
                                layers: d.layers.update(
                                    m.layer as int,
                                    manipulated(d.layers[m.layer as int], m, cur, moved),
                                ),
                                ..d
                            },
                        ),
                        manip: Some(Manipulation { last: cur, ..m }),
                        ..old(self)@
                    })
                    &&& res == Effects::drawing()
                } else {
                    final(self)@ == old(self)@ && res == Effects::nothing()
                },
                _ => final(self)@ == old(self)@ && res == Effects::nothing(),
            },
    {
        if let (Some(m), Some(doc)) = (&mut self.manip, &mut self.doc) {
            let i: usize = m.layer;
            if i < doc.layers.len() {
                let ghost before = doc.layers@;
                let mut layer = doc.layers.remove(i);
                apply_manipulation(&mut layer, m, cur, moved);
                let ghost after = layer;
                doc.layers.insert(i, layer);
                proof {
                    assert(doc.layers@ =~= before.update(i as int, after));
                }
                m.last = cur;
                return Effects::redraw();
            }
        }
        Effects::none()
    }

    /// A step of a drag to `to`. `moved` is what the arithmetic made of [`Self::plan_drag`].
    pub fn drag_update(&mut self, to: (N, N), shift: bool, moved: Moved<N, S>) -> (res: Effects)
        requires
            old(self).wf(),
        ensures
            final(self).wf(),
            (final(self)@, res) == drag_moved(old(self)@, to, shift, moved),
    {
        if self.current_tool == ToolKind::Select {
            return self.update_select(to, moved);
        }
        match &mut self.pending {
            Some(stroke) => {
                stroke.to = to;
                if stroke.kind == ToolKind::Freehand {
                    stroke.points.push(to);
                }
                if stroke.kind == ToolKind::Rect || stroke.kind == ToolKind::Ellipse {
                    stroke.constrain = shift;
                }
                Effects::redraw()
            },
            None => Effects::none(),
        }
    }

    /// The end of a drag at `to`, whose geometry is `shape`. A drag that is too short leaves
    /// nothing behind, and so does one without a document.
    pub fn drag_end(&mut self, to: (N, N), shift: bool, shape: DragShape) -> (res: Effects)
        requires
            old(self).wf(),
            old(self)@.tool != ToolKind::Select ==> match (old(self)@.pending, old(self)@.doc) {
                (Some(s), Some(d)) => s.kind == ToolKind::Crop || s.kind == ToolKind::Blur
                    ==> shape.rect.edges_fit() && size_fits(d.size),
                _ => true,
            },
        ensures
            final(self).wf(),
            (final(self)@, res) == drag_ended(old(self)@, old(self).pending, to, shift, shape),
    {
        if self.current_tool == ToolKind::Select {
            self.manip = None;
            return Effects::redraw();
        }
        let stroke = match self.pending.take() {
            Some(stroke) => stroke,
            None => {
                return Effects::none();
            },
        };
        let size = match &self.doc {
            Some(doc) => doc.size,
            None => {
                return Effects::none();
            },
        };
        let bounds = if shift {
            shape.square
        } else {
            shape.rect
        };
        let kind = stroke.kind;
        let mut crop: Option<Rect> = None;
        let layer: Option<Layer<N, S>> = match kind {
            ToolKind::Rect => {
                if is_large_enough(&bounds) {
                    Some(
                        Layer::Rect(
                            RectTool {
                                bounds,
                                stroke: self.color_or(ToolKind::Rect, self.look.box_stroke),
                                stroke_width: self.look.box_width,
                                stroke_style: stroke.style,
                            },
                        ),
                    )
                } else {
                    None
                }
            },
            ToolKind::Ellipse => {
                if is_large_enough(&bounds) {
                    Some(
                        Layer::Ellipse(
                            EllipseTool {
                                bounds,
                                stroke: self.color_or(ToolKind::Ellipse, self.look.box_stroke),
                                stroke_width: self.look.box_width,
                                stroke_style: stroke.style,
                            },
                        ),
                    )
                } else {
                    None
                }
            },
            ToolKind::Arrow => {
                if shape.long_enough {
                    Some(
                        Layer::Arrow(
                            ArrowTool {
                                from: stroke.from,
                                to,
                                stroke: self.color_or(ToolKind::Arrow, self.look.line_stroke),
                                stroke_width: self.look.line_width,
                                stroke_style: stroke.style,
                            },
                        ),
                    )
                } else {
                    None
                }
            },
            ToolKind::Line => {
                if shape.long_enough {
                    Some(
                        Layer::Line(
                            LineTool {
                                from: stroke.from,
                                to,
                                stroke: self.color_or(ToolKind::Line, self.look.line_stroke),
                                stroke_width: self.look.line_width,
                                stroke_style: stroke.style,
                            },
                        ),
                    )
                } else {
                    None
                }
            },
            ToolKind::Highlight => {
                if is_large_enough(&shape.rect) {
                    Some(
                        Layer::Highlight(
                            HighlightTool {
                                bounds: shape.rect,
                                color: self.color_or(ToolKind::Highlight, self.look.highlight),
                            },
                        ),
                    )
                } else {
                    None
                }
            },
            ToolKind::Redact => {
                if is_large_enough(&shape.rect) {
                    Some(Layer::Redact(RedactTool { bounds: shape.rect }))
                } else {
                    None
                }
            },
            ToolKind::Freehand => {
                if stroke.points.len() >= 2 {
                    Some(
                        Layer::Freehand(
                            FreehandTool {
                                points: stroke.points,
                                stroke: self.color_or(ToolKind::Freehand, self.look.line_stroke),
                                stroke_width: self.look.line_width,
                                stroke_style: stroke.style,
                            },
                        ),
                    )
                } else {
                    None
                }
            },
            ToolKind::Crop => {
                let r = clamp_to_doc(shape.rect, size);
                if is_large_enough(&r) {
                    crop = Some(r);
                }
                None
            },
            ToolKind::Blur => {
                let r = clamp_to_doc(shape.rect, size);
                if is_large_enough(&r) {
                    Some(
                        Layer::Blur(
                            BlurTool {
                                bounds: r,
                                radius: self.look.blur_radius,
                                invert: stroke.invert,
                            },
                        ),
                    )
                } else {
                    None
                }
            },
            ToolKind::Number | ToolKind::Text | ToolKind::Select => None,
        };
        let mut effects = Effects::redraw();
        effects.resize = kind == ToolKind::Crop;
        if let Some(doc) = &mut self.doc {
            if let Some(layer) = layer {
                doc.push_layer(layer);
                effects.commit = true;
            } else if crop.is_some() {
                doc.crop = crop;
                effects.commit = true;
            }
        }
        effects
    }

    // ---- clicks ----------------------------------------------------------------------------
    /// What a click means for the tool in use.
    pub fn click_action(&self, presses: u32) -> (res: ClickAction)
        ensures
            res == click_action_of(self@.tool, presses),
    {
        match self.current_tool {
            ToolKind::Number => if presses == 1 {
                ClickAction::PlaceNumber
            } else {
                ClickAction::Nothing
            },
            ToolKind::Text => if presses == 2 {
                ClickAction::ReeditText
            } else if presses == 1 {
                ClickAction::PlaceText
            } else {
                ClickAction::Nothing
            },
            ToolKind::Select => if presses == 2 {
                ClickAction::ReeditText
            } else {
                ClickAction::Nothing
            },
            _ => ClickAction::Nothing,
        }
    }

    /// Puts a numbered badge at `at`. Badges count up.
    pub fn place_number(&mut self, at: (N, N)) -> (res: Effects)
        requires
            old(self).wf(),
            old(self)@.doc is Some ==> old(self)@.next_number < u32::MAX,
        ensures
            final(self).wf(),
            final(self)@ == old(self)@.with_badge(at),
            res == (if old(self)@.doc is Some {
                Effects { commit: true, ..Effects::drawing() }
            } else {
                Effects::nothing()
            }),
    {
        if self.doc.is_none() {
            return Effects::none();
        }
        let value: u32 = self.next_number;
        self.next_number = value + 1;
        let fill = self.color_or(ToolKind::Number, self.look.number_fill);
        let text_color = self.look.number_text;
        let radius = self.look.number_radius;
        if let Some(doc) = &mut self.doc {
            doc.push_layer(
                Layer::Number(NumberTool { center: at, value, fill, text_color, radius }),
            );
        }
        let mut effects = Effects::redraw();
        effects.commit = true;
        effects
    }

    /// Begins a new text at `at`, after finishing the one being edited, if any, whose text
    /// measures `measured`.
    pub fn start_or_commit_text(&mut self, at: (N, N), measured: (u32, u32)) -> (res: Effects)
        requires
            old(self).wf(),
        ensures
            final(self).wf(),
            starts_text(old(self)@, final(self)@, at, measured),
            res == (Effects {
                ui_state: true,
                focus: true,
                blink: Blink::Start,
                ..Effects::drawing()
            }),
    {
        if self.pending_text.is_some() {
            let _ = self.commit_pending_text(measured);
        }
        let color = self.color_or(ToolKind::Text, self.look.text_color);
        let size_pt = match self.tool_font_size(ToolKind::Text) {
            Some(size) => size,
            None => self.look.font_size,
        };
        let buffer = String::new();
        proof {
            lemma_offset_bounds(buffer@);
            lemma_position_is_boundary(buffer@, 0);
        }
        self.pending_text = Some(
            PendingText {
                origin: at,
                buffer,
                caret: 0,
                color,
                size_pt,
                wrap_width: None,
                caret_visible: true,
            },
        );
        let mut effects = Effects::redraw();
        effects.ui_state = true;
        effects.focus = true;
        effects.blink = Blink::Start;
        effects
    }

    /// Opens the topmost text layer under the pointer for editing. `under` says for each layer
    /// whether the pointer is over it. The layer is taken out and kept for restoring. The caller
    /// finishes a text edit that is going on before it looks what is under the pointer.
    pub fn try_reedit_text(&mut self, under: &[bool]) -> (res: Effects)
        requires
            old(self).wf(),
            old(self)@.text is None,
            old(self)@.doc matches Some(d) ==> d.layers.len() == under@.len(),
        ensures
            final(self).wf(),
            match old(self)@.doc {
                Some(d) => match topmost_text(d.layers, under@) {
                    Some(i) => {
                        &&& final(self)@ == reedited(old(self)@, i as int)
                        &&& res == (Effects {
                            ui_state: true,
                            focus: true,
                            blink: Blink::Start,
                            ..Effects::drawing()
                        })
                    },
                    None => final(self)@ == old(self)@ && res == Effects::nothing(),
                },
                None => final(self)@ == old(self)@ && res == Effects::nothing(),
            },
    {
        let doc = match &mut self.doc {
            Some(doc) => doc,
            None => {
                return Effects::none();
            },
        };
        let index = find_topmost_text(&doc.layers, under);
        let i: usize = match index {
            Some(i) => i,
            None => {
                return Effects::none();
            },
        };
        let removed = doc.layers.remove(i);
        match removed {
            Layer::Text(text) => {
                self.selection = None;
                self.manip = None;
                let buffer = text.text.clone();
                let caret: usize = buffer.as_str().as_bytes().len();
                proof {
                    lemma_offset_bounds(buffer@);
                    lemma_position_is_boundary(buffer@, buffer@.len() as int);
                }
                self.pending_text = Some(
                    PendingText {
                        origin: text.origin,
                        buffer,
                        caret,
                        color: text.color,
                        size_pt: text.size_pt,
                        wrap_width: text.wrap_width,
                        caret_visible: true,
                    },
                );
                self.reedit_restore = Some(text);
                let mut effects = Effects::redraw();
                effects.ui_state = true;
                effects.focus = true;
                effects.blink = Blink::Start;
                effects
            },
            other => {
                doc.layers.push(other);
                Effects::none()
            },
        }
    }
}

/// What a click means.
#[derive(Clone, Copy, Debug, PartialEq, Eq, Structural)]
pub enum ClickAction {
    Nothing,
    PlaceNumber,
    PlaceText,
    ReeditText,
}

/// What the given number of presses in a row means for a tool.
pub open spec fn click_action_of(tool: ToolKind, presses: u32) -> ClickAction {
    match tool {
        ToolKind::Number => if presses == 1 {
            ClickAction::PlaceNumber
        } else {
            ClickAction::Nothing
        },
        ToolKind::Text => if presses == 2 {
            ClickAction::ReeditText
        } else if presses == 1 {
            ClickAction::PlaceText
        } else {
            ClickAction::Nothing
        },
        ToolKind::Select => if presses == 2 {
            ClickAction::ReeditText
        } else {
            ClickAction::Nothing
        },
        _ => ClickAction::Nothing,
    }
}

/// The topmost text layer that the pointer is over.
pub open spec fn topmost_text<N, S>(layers: Seq<Layer<N, S>>, under: Seq<bool>) -> Option<usize>
    decreases layers.len(),
{
    if layers.len() == 0 || layers.len() != under.len() {
        None
    } else if layers.last() is Text && under.last() {
        Some((layers.len() - 1) as usize)
    } else {
        topmost_text(layers.drop_last(), under.drop_last())
    }
}

fn find_topmost_text<N, S>(layers: &Vec<Layer<N, S>>, under: &[bool]) -> (res: Option<usize>)
    requires
        layers@.len() == under@.len(),
    ensures
        res == topmost_text(layers@, under@),
        res matches Some(i) ==> i < layers@.len() && layers@[i as int] is Text,
{
    let mut n: usize = layers.len();
    proof {
        assert(under@.take(n as int) =~= under@);
        assert(layers@.take(n as int) =~= layers@);
    }
    while n > 0
        invariant
            n <= under@.len() == layers@.len(),
            topmost_text(layers@.take(n as int), under@.take(n as int)) == topmost_text(
                layers@,
                under@,
            ),
        decreases n,
    {
        proof {
            assert(under@.take(n as int).drop_last() =~= under@.take(n - 1));
            assert(layers@.take(n as int).drop_last() =~= layers@.take(n - 1));
        }
        if let Layer::Text(_) = &layers[n - 1] {
            if under[n - 1] {
                return Some(n - 1);
            }
        }
        n -= 1;
    }
    None
}

/// The canvas with the text layer `i` opened for editing, the caret at its end.
pub open spec fn reedited<N, S>(c: CanvasView<N, S>, i: int) -> CanvasView<N, S> {
    let d = c.doc->0;
    let t = d.layers[i]->Text_0;
    CanvasView {
        doc: Some(DocumentView { layers: d.layers.remove(i), ..d }),
        selection: None,
        manip: None,
        text: Some(
            PendingText {
                origin: t.origin,
                buffer: t.text,
                caret: encode_utf8(t.text@).len() as usize,
                color: t.color,
                size_pt: t.size_pt,
                wrap_width: t.wrap_width,
                caret_visible: true,
            },
        ),
        reedit: Some(t),
        ..c
    }
}

// ---- keys ----------------------------------------------------------------------------------
/// What a key press came to.
#[derive(Clone, Copy, Debug)]
pub struct KeyResponse {
    /// The key is not passed on.
    pub consumed: bool,
    pub effects: Effects,
    /// Work out the layer so many pixels further to the right and down, and
    /// [`AnnotationCanvas::move_layer`] it there.
    pub nudge: Option<(usize, i32, i32)>,
}

impl KeyResponse {
    pub open spec fn passed() -> KeyResponse {
        KeyResponse { consumed: false, effects: Effects::nothing(), nudge: None }
    }

    pub open spec fn taken(effects: Effects) -> KeyResponse {
        KeyResponse { consumed: true, effects, nudge: None }
    }
}

/// The canvas without the selected layer.
pub open spec fn without_selected<N, S>(c: CanvasView<N, S>) -> CanvasView<N, S> {
    match c.selection {
        Some(i) => CanvasView {
            doc: match c.doc {
                Some(d) => if i < d.layers.len() {
                    Some(DocumentView { layers: d.layers.remove(i as int), ..d })
                } else {
                    Some(d)
                },
                None => None,
            },
            selection: None,
            manip: None,
            ..c
        },
        None => c,
    }
}

/// The canvas after a key for the Select tool.
pub open spec fn after_select_key<N, S>(c: CanvasView<N, S>, key: Key, mods: Modifiers) ->
    CanvasView<N, S> {
    match select_action_of(c.tool, key, mods, c.selection is Some) {
        SelectKeyAction::Delete => without_selected(c),
        SelectKeyAction::Deselect => CanvasView { selection: None, ..c },
        _ => c,
    }
}

/// What a key for the Select tool comes to.
pub open spec fn select_key_response<N, S>(c: CanvasView<N, S>, key: Key, mods: Modifiers) ->
    KeyResponse {
    match select_action_of(c.tool, key, mods, c.selection is Some) {
        SelectKeyAction::Ignore => KeyResponse::passed(),
        SelectKeyAction::Delete | SelectKeyAction::Deselect => KeyResponse::taken(
            Effects { ui_state: true, ..Effects::drawing() },
        ),
        SelectKeyAction::Nudge(dx, dy) => if c.selected() is Some {
            KeyResponse {
                consumed: true,
                effects: Effects::drawing(),
                nudge: Some((c.selection->0, dx, dy)),
            }
        } else {
            KeyResponse::passed()
        },
    }
}

/// What a key for the text editor comes to.
pub open spec fn text_key_response(key: Key, mods: Modifiers) -> KeyResponse {
    match text_key_outcome(text_key_of(key), mods.shift) {
        TextKeyOutcome::Handled => KeyResponse::taken(Effects::drawing()),
        TextKeyOutcome::Unhandled => KeyResponse::passed(),
        TextKeyOutcome::Cancel | TextKeyOutcome::Commit => KeyResponse::taken(
            Effects { commit: true, ui_state: true, blink: Blink::Stop, ..Effects::drawing() },
        ),
    }
}

/// `after` is the canvas after a key for the text editor.
pub open spec fn after_text_key<N, S>(
    before: CanvasView<N, S>,
    after: CanvasView<N, S>,
    key: Key,
    mods: Modifiers,
    measured: (u32, u32),
) -> bool {
    let k = text_key_of(key);
    match text_key_outcome(k, mods.shift) {
        TextKeyOutcome::Handled => {
            &&& before.text is Some && after.text is Some
            &&& after.text->0.edit() == edit_step(before.text->0.edit(), k)
            &&& after.text->0.same_placement(before.text->0)
            &&& after.text->0.caret_visible
            &&& after == (CanvasView { text: after.text, ..before })
        },
        TextKeyOutcome::Unhandled => after == before,
        TextKeyOutcome::Cancel => after == before.text_cancelled(),
        TextKeyOutcome::Commit => after == before.text_committed(measured),
    }
}

/// `after` is the canvas after a key, and `response` what the key comes to.
pub open spec fn after_key<N, S>(
    before: CanvasView<N, S>,
    after: CanvasView<N, S>,
    response: KeyResponse,
    key: Key,
    mods: Modifiers,
    measured: (u32, u32),
) -> bool {
    if before.text is None {
        after == after_select_key(before, key, mods) && response == select_key_response(
            before,
            key,
            mods,
        )
    } else if mods.is_chord_state() {
        after == before && response == KeyResponse::passed()
    } else {
        after_text_key(before, after, key, mods, measured) && response == text_key_response(
            key,
            mods,
        )
    }
}

impl<N: Copy, S: Copy> AnnotationCanvas<N, S> {
    /// Removes the selected layer.
    pub fn delete_selected(&mut self) -> (res: Effects)
        requires
            old(self).wf(),
        ensures
            final(self).wf(),
            final(self)@ == without_selected(old(self)@),
            res == if old(self)@.selection is Some {
                Effects { ui_state: true, ..Effects::drawing() }
            } else {
                Effects::nothing()
            },
    {
        let i: usize = match self.selection {
            Some(i) => i,
            None => {
                return Effects::none();
            },
        };
        if let Some(doc) = &mut self.doc {
            let _ = doc.remove_layer(i);
        }
        self.selection = None;
        self.manip = None;
        let mut effects = Effects::redraw();
        effects.ui_state = true;
        effects
    }

    /// Shifts a layer as far as from `start` to `cur`. `moved` is what the arithmetic made of
    /// [`plan_shift`]. `false` when there is no such layer.
    pub fn move_layer(&mut self, i: usize, start: (N, N), cur: (N, N), moved: Moved<N, S>) -> (res:
        bool)
        requires
            old(self).wf(),
        ensures
            final(self).wf(),
            match old(self)@.doc {
                Some(d) => if i < d.layers.len() {
                    &&& res
                    &&& final(self)@ == (CanvasView {
                        doc: Some(
                            DocumentView {
                                layers: d.layers.update(
                                    i as int,
                                    shifted(d.layers[i as int], start, cur, moved),
                                ),
                                ..d
                            },
                        ),
                        ..old(self)@
                    })
                } else {
                    !res && final(self)@ == old(self)@
                },
                None => !res && final(self)@ == old(self)@,
            },
    {
        if let Some(doc) = &mut self.doc {
            if i < doc.layers.len() {
                let ghost before = doc.layers@;
                let mut layer = doc.layers.remove(i);
                apply_shift(&mut layer, start, cur, moved);
                let ghost after = layer;
                doc.layers.insert(i, layer);
                proof {
                    assert(doc.layers@ =~= before.update(i as int, after));
                }
                return true;
            }
        }
        false
    }

    /// A key while no text is being edited. Keys that mean nothing to the Select tool are passed
    /// on.
    pub fn handle_select_key(&mut self, key: Key, mods: Modifiers) -> (res: KeyResponse)
        requires
            old(self).wf(),
        ensures
            final(self).wf(),
            final(self)@ == after_select_key(old(self)@, key, mods),
            res == select_key_response(old(self)@, key, mods),
    {
        let selection = self.selection;
        match select_key_action(self.current_tool, key, mods, selection.is_some()) {
            SelectKeyAction::Ignore => KeyResponse {
                consumed: false,
                effects: Effects::none(),
                nudge: None,
            },
            SelectKeyAction::Delete => {
                let effects = self.delete_selected();
                KeyResponse { consumed: true, effects, nudge: None }
            },
            SelectKeyAction::Deselect => {
                self.selection = None;
                let mut effects = Effects::redraw();
                effects.ui_state = true;
                KeyResponse { consumed: true, effects, nudge: None }
            },
            SelectKeyAction::Nudge(dx, dy) => match (selection, self.selected_kind()) {
                (Some(i), Some(_)) => KeyResponse {
                    consumed: true,
                    effects: Effects::redraw(),
                    nudge: Some((i, dx, dy)),
                },
                _ => KeyResponse { consumed: false, effects: Effects::none(), nudge: None },
            },
        }
    }

    /// A key while a text is being edited, whose text measures `measured`.
    pub fn handle_text_key(&mut self, key: Key, mods: Modifiers, measured: (u32, u32)) -> (res:
        KeyResponse)
        requires
            old(self).wf(),
            old(self)@.text is Some,
        ensures
            final(self).wf(),
            after_text_key(old(self)@, final(self)@, key, mods, measured),
            res == text_key_response(key, mods),
    {
        let outcome = match &mut self.pending_text {
            Some(pt) => apply_text_key(pt, text_key_from(key), mods.shift),
            None => TextKeyOutcome::Unhandled,
        };
        match outcome {
            TextKeyOutcome::Handled => KeyResponse {
                consumed: true,
                effects: Effects::redraw(),
                nudge: None,
            },
            TextKeyOutcome::Unhandled => KeyResponse {
                consumed: false,
                effects: Effects::none(),
                nudge: None,
            },
            TextKeyOutcome::Cancel => {
                let mut effects = self.cancel_pending_text();
                effects.commit = true;
                KeyResponse { consumed: true, effects, nudge: None }
            },
            TextKeyOutcome::Commit => {
                let mut effects = self.commit_pending_text(measured);
                effects.commit = true;
                KeyResponse { consumed: true, effects, nudge: None }
            },
        }
    }

    /// A key press. While a text is being edited it goes to the text editor, except for
    /// accelerators, which are passed on. Otherwise it goes to the Select tool.
    pub fn key_pressed(&mut self, key: Key, mods: Modifiers, measured: (u32, u32)) -> (res:
        KeyResponse)
        requires
            old(self).wf(),
        ensures
            final(self).wf(),
            after_key(old(self)@, final(self)@, res, key, mods, measured),
    {
        if self.pending_text.is_none() {
            return self.handle_select_key(key, mods);
        }
        if mods.is_chord() {
            return KeyResponse { consumed: false, effects: Effects::none(), nudge: None };
        }
        self.handle_text_key(key, mods, measured)
    }

    /// A tick of the caret timer. `false` when no text is being edited, and the timer is over.
    pub fn blink_caret(&mut self) -> (res: bool)
        requires
            old(self).wf(),
        ensures
            final(self).wf(),
            res == (old(self)@.text is Some),
            final(self)@ == blinked(old(self)@),
    {
        match &mut self.pending_text {
            Some(pt) => {
                pt.caret_visible = !pt.caret_visible;
                true
            },
            None => false,
        }
    }

    // ---- the pointer -----------------------------------------------------------------------
    /// The pointer shape at a place. `under` says for each layer what the pointer is over. Only
    /// the Select tool has shapes of its own.
    pub fn select_cursor_at(&self, under: &[Under]) -> (res: Option<&'static str>)
        requires
            self@.doc matches Some(d) ==> d.layers.len() == under@.len(),
        ensures
            match (res, cursor_of(self@, under@)) {
                (Some(a), Some(b)) => a@ == b,
                (None, None) => true,
                _ => false,
            },
    {
        if self.current_tool != ToolKind::Select {
            return None;
        }
        let doc = match &self.doc {
            Some(doc) => doc,
            None => {
                return None;
            },
        };
        if let Some(i) = self.selection {
            if let Some(layer) = doc.layer(i) {
                if let Some(grab) = grab_at(layer.kind(), &under[i].hits) {
                    return Some(grab_cursor(grab));
                }
            }
        }
        if find_topmost_body(under).is_some() {
            return Some("move");
        }
        None
    }

    /// Remembers the pointer shape. `true` when it is another one than before.
    pub fn set_canvas_cursor(&mut self, name: Option<&'static str>) -> (res: bool)
        requires
            old(self).wf(),
        ensures
            final(self).wf(),
            final(self)@ == (CanvasView {
                hover: crate::ui::canvas::name_view(name),
                ..old(self)@
            }),
            res == (old(self)@.hover != crate::ui::canvas::name_view(name)),
    {
        let same = match (self.hover_cursor, name) {
            (Some(a), Some(b)) => same_text(a, b),
            (None, None) => true,
            _ => false,
        };
        if same {
            return false;
        }
        self.hover_cursor = name;
        true
    }
}

/// The pointer shape at a place: over a handle of the selected layer, or over any layer.
pub open spec fn cursor_of<N, S>(c: CanvasView<N, S>, under: Seq<Under>) -> Option<Seq<char>> {
    if c.tool != ToolKind::Select || c.doc is None {
        None
    } else {
        match selected_grab(c, under) {
            Some(grab) => Some(grab_cursor_of(grab)),
            None => if topmost_body(under) is Some {
                Some("move"@)
            } else {
                None
            },
        }
    }
}

// ---- laws ----------------------------------------------------------------------------------
/// Opening a text layer for editing and giving the edit up leaves the same layers, the text
/// layer on top. So does finishing the edit with an empty text.
pub proof fn an_abandoned_reedit_loses_nothing<N, S>(c: CanvasView<N, S>, i: int, measured: (
    u32,
    u32,
))
    requires
        c.doc is Some,
        0 <= i < c.doc->0.layers.len(),
        c.doc->0.layers[i] is Text,
    ensures
        ({
            let layers = c.doc->0.layers;
            let back = reedited(c, i).text_cancelled();
            &&& back.doc == Some(
                DocumentView { layers: layers.remove(i).push(layers[i]), ..c.doc->0 },
            )
            &&& back.doc->0.layers.to_multiset() == layers.to_multiset()
            &&& back.text is None && back.reedit is None
        }),
        c.doc->0.layers[i]->Text_0.text@.len() == 0 ==> reedited(c, i).text_committed(measured)
            == reedited(c, i).text_cancelled(),
{
    broadcast use vstd::seq_lib::group_to_multiset_ensures;

    let layers = c.doc->0.layers;
    assert(layers.remove(i).push(layers[i]).to_multiset() =~= layers.to_multiset());
}

/// Badges count up: of two that are placed one after the other, the second has the next number.
pub proof fn badges_count_up<N, S>(c: CanvasView<N, S>, first: (N, N), second: (N, N))
    requires
        c.next_number + 1 < u32::MAX,
        c.doc is Some,
    ensures
        ({
            let layers = c.with_badge(first).with_badge(second).doc->0.layers;
            let n = c.doc->0.layers.len() as int;
            &&& layers.len() == n + 2
            &&& layers[n] matches Layer::Number(a) && layers[n + 1] matches Layer::Number(b)
                && a.value == c.next_number && b.value == a.value + 1
        }),
{
}

/// Finishing a re-opened text without changing it gives back the layer, measured anew, on top.
pub proof fn an_unchanged_reedit_gives_the_layer_back<N, S>(
    c: CanvasView<N, S>,
    i: int,
    measured: (u32, u32),
)
    requires
        c.doc is Some,
        0 <= i < c.doc->0.layers.len(),
        c.doc->0.layers[i] is Text,
        c.doc->0.layers[i]->Text_0.text@.len() > 0,
    ensures
        reedited(c, i).text_committed(measured).doc == Some(
            DocumentView {
                layers: c.doc->0.layers.remove(i).push(
                    Layer::Text(
                        TextTool { bounds_cache: measured, ..c.doc->0.layers[i]->Text_0 },
                    ),
                ),
                ..c.doc->0
            },
        ),
{
}

/// Taking back a drag that left a layer gives back the document as it was.
pub proof fn undo_takes_back_a_drag<N, S>(
    c: CanvasView<N, S>,
    s: PendingStroke<N, S>,
    to: (N, N),
    shift: bool,
    shape: DragShape,
)
    requires
        c.doc is Some,
        drawn_layer(c, s, to, shift, shape, c.doc->0.size) is Some,
    ensures
        ({
            let after = drawn_document(c, s, to, shift, shape);
            &&& after.layers.len() > 0
            &&& (DocumentView { layers: after.layers.drop_last(), ..after }) == c.doc->0
        }),
{
    let after = drawn_document(c, s, to, shift, shape);
    assert(after.layers.drop_last() =~= c.doc->0.layers);
}

/// A crop and a blur never reach beyond the document.
pub proof fn crops_and_blurs_stay_on_the_document<N, S>(
    c: CanvasView<N, S>,
    s: PendingStroke<N, S>,
    to: (N, N),
    shift: bool,
    shape: DragShape,
)
    requires
        c.doc is Some,
        shape.rect.edges_fit(),
        size_fits(c.doc->0.size),
        s.kind == ToolKind::Crop || s.kind == ToolKind::Blur,
    ensures
        ({
            let d = c.doc->0;
            let after = drawn_document(c, s, to, shift, shape);
            &&& s.kind == ToolKind::Crop && after.crop != d.crop ==> after.crop is Some
                && 0 <= after.crop->0.x && 0 <= after.crop->0.y && after.crop->0.right_edge()
                <= d.size.0 && after.crop->0.bottom_edge() <= d.size.1
            &&& s.kind == ToolKind::Blur && after.layers != d.layers ==> after.layers.last() is Blur
                && 0 <= after.layers.last()->Blur_0.bounds.x && 0
                <= after.layers.last()->Blur_0.bounds.y
                && after.layers.last()->Blur_0.bounds.right_edge() <= d.size.0
                && after.layers.last()->Blur_0.bounds.bottom_edge() <= d.size.1
        }),
{
}

// ---- what the pointer does -----------------------------------------------------------------
proof fn lemma_topmost_body(under: Seq<Under>)
    requires
        under.len() <= usize::MAX,
    ensures
        match topmost_body(under) {
            Some(i) => i < under.len() && under[i as int].hits.body && forall|j: int|
                i < j < under.len() ==> !(#[trigger] under[j]).hits.body,
            None => forall|j: int| 0 <= j < under.len() ==> !(#[trigger] under[j]).hits.body,
        },
    decreases under.len(),
{
    if under.len() > 0 && !under.last().hits.body {
        lemma_topmost_body(under.drop_last());
        assert forall|j: int| 0 <= j < under.len() - 1 implies #[trigger] under[j]
            == under.drop_last()[j] by {}
    }
}

/// A press with the Select tool that grabs nothing of the selected layer takes the topmost layer
/// under the pointer: the pointer is over its body, and over the body of no layer above it. It
/// grabs that body where it was pressed. Where the pointer is over no body, nothing is selected.
/// The document stays as it is.
pub proof fn a_press_takes_the_topmost_layer<N, S>(
    c: CanvasView<N, S>,
    under: Seq<Under>,
    at: (N, N),
)
    requires
        c.doc is Some,
        c.doc->0.layers.len() == under.len() <= usize::MAX,
        selected_grab(c, under) is None,
    ensures
        ({
            let after = pressed(c, under, at);
            &&& after == (CanvasView { selection: after.selection, manip: after.manip, ..c })
            &&& match after.selection {
                Some(i) => {
                    &&& i < under.len() && under[i as int].hits.body
                    &&& forall|j: int| i < j < under.len() ==> !(#[trigger] under[j]).hits.body
                    &&& after.manip matches Some(m) && m.layer == i && m.grab == Grab::Body
                        && m.start == at && m.last == at
                    &&& press_effects(c, under).redraw && press_effects(c, under).ui_state
                },
                None => {
                    &&& forall|j: int|
                        0 <= j < under.len() ==> !(#[trigger] under[j]).hits.body
                    &&& after.manip == c.manip
                    &&& press_effects(c, under).redraw <==> c.selection is Some
                },
            }
        }),
{
    lemma_topmost_body(under);
}

/// A press on the selected layer, on a handle of it or on its body, grabs that and keeps the
/// selection, whatever lies above.
pub proof fn a_press_on_the_selected_layer_keeps_it<N, S>(
    c: CanvasView<N, S>,
    under: Seq<Under>,
    at: (N, N),
)
    requires
        c.doc is Some,
        c.doc->0.layers.len() == under.len(),
        c.selection matches Some(i) && i < c.doc->0.layers.len() && grab_of(
            c.doc->0.layers[i as int].kind_of(),
            under[i as int].hits,
        ) is Some,
    ensures
        ({
            let (i, after) = (c.selection->0, pressed(c, under, at));
            &&& after.selection == c.selection && after.doc == c.doc
            &&& after.manip matches Some(m) && m.layer == i && m.start == at && m.last == at
                && Some(m.grab) == grab_of(
                c.doc->0.layers[i as int].kind_of(),
                under[i as int].hits,
            )
            &&& press_effects(c, under) == Effects::nothing()
        }),
        // A handle is only ever grabbed on the selected layer.
        pressed(CanvasView { selection: None, manip: None, ..c }, under, at).manip matches Some(m)
            ==> m.grab == Grab::Body,
{
}

/// The cursor shows what a press would grab, and nothing where a press would grab nothing.
pub proof fn the_cursor_shows_what_a_press_would_grab<N, S>(
    c: CanvasView<N, S>,
    under: Seq<Under>,
    at: (N, N),
)
    requires
        c.tool == ToolKind::Select,
        c.doc is Some,
        c.manip is None,
    ensures
        match pressed(c, under, at).manip {
            Some(m) => cursor_of(c, under) == Some(grab_cursor_of(m.grab)),
            None => cursor_of(c, under) is None,
        },
        cursor_of(CanvasView { tool: ToolKind::Rect, ..c }, under) is None,
{
}

/// A drag begins where the pointer is, with the tool in use and its color and style. Shift at
/// the start inverts a blur and nothing else.
pub proof fn a_drag_begins_with_the_tool_in_use<N, S>(c: CanvasView<N, S>, at: (N, N), shift: bool)
    ensures
        ({
            let s = begun_stroke(c, at, shift);
            &&& s.kind == c.tool && s.from == at && s.to == at
            &&& c.colors.dom().contains(c.tool) ==> s.color == c.colors[c.tool]
            &&& c.styles.dom().contains(c.tool) ==> s.style == c.styles[c.tool]
            &&& !c.styles.dom().contains(c.tool) ==> s.style == StrokeStyle::Solid
            &&& s.invert <==> c.tool == ToolKind::Blur && shift
            &&& !s.constrain
            &&& s.points.len() == (if c.tool == ToolKind::Freehand {
                1int
            } else {
                0int
            })
            &&& c.tool == ToolKind::Freehand ==> s.points[0] == at
        }),
{
}

/// A drag follows the pointer and stays where it began. A freehand stroke keeps every point on
/// the way. Shift makes a square of a rectangle or an ellipse for as long as it is held.
pub proof fn a_drag_follows_the_pointer<N, S>(s: StrokeView<N, S>, to: (N, N), shift: bool)
    ensures
        ({
            let after = dragged(s, to, shift);
            &&& after.to == to && after.from == s.from && after.kind == s.kind
            &&& after.color == s.color && after.style == s.style && after.invert == s.invert
            &&& s.kind == ToolKind::Rect || s.kind == ToolKind::Ellipse ==> after.constrain
                == shift
            &&& s.kind != ToolKind::Rect && s.kind != ToolKind::Ellipse ==> after.constrain
                == s.constrain
            &&& s.kind != ToolKind::Freehand ==> after.points == s.points
            &&& s.kind == ToolKind::Freehand ==> {
                &&& after.points.len() == s.points.len() + 1 && after.points.last() == to
                &&& forall|i: int| 0 <= i < s.points.len() ==> after.points[i] == s.points[i]
            }
        }),
{
}

/// A finished drag leaves a layer of the kind of its tool: a box where the rectangle of the drag
/// is (or with Shift the square, for a rectangle or an ellipse), a line from where the drag began
/// to where it ended, a stroke through all of its points. The layer has the color and the style
/// of its tool.
pub proof fn a_drag_draws_with_its_tool<N, S>(
    c: CanvasView<N, S>,
    s: PendingStroke<N, S>,
    to: (N, N),
    shift: bool,
    shape: DragShape,
    size: (u32, u32),
)
    requires
        drawn_layer(c, s, to, shift, shape, size) is Some,
    ensures
        ({
            let layer = drawn_layer(c, s, to, shift, shape, size)->0;
            &&& layer.kind_of() == s.kind
            &&& s.kind == ToolKind::Rect <==> layer is Rect
            &&& s.kind == ToolKind::Ellipse <==> layer is Ellipse
            &&& s.kind == ToolKind::Arrow <==> layer is Arrow
            &&& s.kind == ToolKind::Line <==> layer is Line
            &&& s.kind == ToolKind::Highlight <==> layer is Highlight
            &&& s.kind == ToolKind::Redact <==> layer is Redact
            &&& s.kind == ToolKind::Blur <==> layer is Blur
            &&& s.kind == ToolKind::Freehand <==> layer is Freehand
            &&& layer is Rect || layer is Ellipse ==> layer.box_of() == Some(
                if shift {
                    shape.square
                } else {
                    shape.rect
                },
            )
            &&& layer is Highlight || layer is Redact ==> layer.box_of() == Some(shape.rect)
            &&& layer is Arrow || layer is Line ==> layer.ends_of() == Some((s.from, to))
            &&& layer matches Layer::Freehand(t) ==> t.points == s.points
            &&& layer matches Layer::Blur(t) ==> t.invert == s.invert
            &&& layer.style_of() matches Some(style) ==> style == s.style
            &&& layer.color_of() matches Some(color) ==> (c.colors.dom().contains(s.kind) ==> color
                == c.colors[s.kind])
        }),
{
}

/// A box is left behind where it is at least two pixels wide and high, an arrow or a line where
/// it is long enough, a freehand stroke where it has two points. A shorter drag leaves nothing,
/// and so does a tool that does not draw by dragging.
pub proof fn a_drag_draws_when_it_is_large_enough<N, S>(
    c: CanvasView<N, S>,
    s: PendingStroke<N, S>,
    to: (N, N),
    shift: bool,
    shape: DragShape,
    size: (u32, u32),
)
    ensures
        ({
            let drawn = drawn_layer(c, s, to, shift, shape, size) is Some;
            let (r, q) = (shape.rect, shape.square);
            &&& s.kind == ToolKind::Rect || s.kind == ToolKind::Ellipse ==> (drawn <==> if shift {
                q.w >= 2 && q.h >= 2
            } else {
                r.w >= 2 && r.h >= 2
            })
            &&& s.kind == ToolKind::Highlight || s.kind == ToolKind::Redact ==> (drawn <==> r.w >= 2
                && r.h >= 2)
            &&& s.kind == ToolKind::Arrow || s.kind == ToolKind::Line ==> (drawn
                <==> shape.long_enough)
            &&& s.kind == ToolKind::Freehand ==> (drawn <==> s.points@.len() >= 2)
            &&& s.kind == ToolKind::Crop || s.kind == ToolKind::Number || s.kind == ToolKind::Text
                || s.kind == ToolKind::Select ==> !drawn
        }),
{
}

/// A blur hides exactly the part of its drag that is on the document, and there is one exactly
/// where that part is at least two pixels wide and high.
pub proof fn a_blur_covers_its_drag_on_the_document<N, S>(
    c: CanvasView<N, S>,
    s: PendingStroke<N, S>,
    to: (N, N),
    shift: bool,
    shape: DragShape,
    size: (u32, u32),
    px: int,
    py: int,
)
    requires
        s.kind == ToolKind::Blur,
        shape.rect.edges_fit(),
        size_fits(size),
    ensures
        match drawn_layer(c, s, to, shift, shape, size) {
            Some(layer) => layer.box_of() matches Some(b) && b.w >= 2 && b.h >= 2 && (b.covers(
                px,
                py,
            ) <==> shape.rect.covers(px, py) && 0 <= px < size.0 && 0 <= py < size.1),
            None => !(shape.rect.covers(px, py) && shape.rect.covers(px + 1, py + 1) && 0 <= px
                && px + 1 < size.0 && 0 <= py && py + 1 < size.1),
        },
{
}

/// A crop is set to exactly the part of its drag that is on the document, where that part is at
/// least two pixels wide and high, and no layer changes. No other tool changes the crop.
pub proof fn a_crop_keeps_its_drag_on_the_document<N, S>(
    c: CanvasView<N, S>,
    s: PendingStroke<N, S>,
    to: (N, N),
    shift: bool,
    shape: DragShape,
    px: int,
    py: int,
)
    requires
        c.doc is Some,
        shape.rect.edges_fit(),
        size_fits(c.doc->0.size),
    ensures
        ({
            let (before, after) = (c.doc->0, drawn_document(c, s, to, shift, shape));
            let effects = drag_end_effects(before, after, s.kind, shape);
            let on = |x: int, y: int|
                shape.rect.covers(x, y) && 0 <= x < before.size.0 && 0 <= y < before.size.1;
            &&& after.base == before.base && after.size == before.size
            &&& s.kind != ToolKind::Crop ==> after.crop == before.crop && !effects.resize
            &&& s.kind == ToolKind::Crop ==> after.layers == before.layers
            &&& s.kind == ToolKind::Crop && effects.commit ==> {
                &&& after.crop matches Some(crop)
                &&& crop.w >= 2 && crop.h >= 2
                &&& crop.covers(px, py) <==> on(px, py)
            }
            &&& s.kind == ToolKind::Crop && !effects.commit ==> after.crop == before.crop && !(on(
                px,
                py,
            ) && on(px + 1, py + 1))
        }),
{
}

/// Select takes over after a drag exactly where the drag has left something behind.
pub proof fn a_drag_that_draws_is_committed<N, S>(
    c: CanvasView<N, S>,
    s: PendingStroke<N, S>,
    to: (N, N),
    shift: bool,
    shape: DragShape,
)
    requires
        c.doc is Some,
        s.kind != ToolKind::Crop,
    ensures
        ({
            let (before, after) = (c.doc->0, drawn_document(c, s, to, shift, shape));
            let effects = drag_end_effects(before, after, s.kind, shape);
            &&& effects.redraw
            &&& effects.commit <==> after.layers.len() == before.layers.len() + 1
            &&& !effects.commit ==> after == before
            &&& forall|i: int|
                0 <= i < before.layers.len() ==> after.layers[i] == before.layers[i]
            &&& effects.commit ==> Some(after.layers.last()) == drawn_layer(
                c,
                s,
                to,
                shift,
                shape,
                before.size,
            )
        }),
{
}

/// A badge stands where it was placed, with the next number, in the color of its tool, on top of
/// all other layers.
pub proof fn a_badge_stands_where_it_was_placed<N, S>(c: CanvasView<N, S>, at: (N, N))
    requires
        c.doc is Some,
        c.next_number < u32::MAX,
    ensures
        ({
            let (layers, after) = (c.doc->0.layers, c.with_badge(at));
            let now = after.doc->0.layers;
            &&& after.doc is Some && now.len() == layers.len() + 1
            &&& forall|i: int| 0 <= i < layers.len() ==> now[i] == layers[i]
            &&& now.last() matches Layer::Number(t) && t.center == at && t.value == c.next_number
                && t.radius == c.look.number_radius && t.text_color == c.look.number_text && (
            c.colors.dom().contains(ToolKind::Number) ==> t.fill == c.colors[ToolKind::Number])
            &&& after.next_number == c.next_number + 1
            &&& after.selection == c.selection && after.colors == c.colors && after.tool == c.tool
        }),
{
}

/// One press with the Number tool places a badge and one with the Text tool a text; two presses
/// with the Text or the Select tool edit a text again. Other presses and other tools do nothing.
pub proof fn presses_do_what_the_tool_is_for(tool: ToolKind, presses: u32)
    ensures
        click_action_of(tool, presses) == ClickAction::PlaceNumber <==> tool == ToolKind::Number
            && presses == 1,
        click_action_of(tool, presses) == ClickAction::PlaceText <==> tool == ToolKind::Text
            && presses == 1,
        click_action_of(tool, presses) == ClickAction::ReeditText <==> (tool == ToolKind::Text
            || tool == ToolKind::Select) && presses == 2,
{
}

/// The text that is edited again is the topmost text under the pointer. There is none exactly
/// where the pointer is over no text.
pub proof fn the_topmost_text_is_edited_again<N, S>(layers: Seq<Layer<N, S>>, under: Seq<bool>)
    requires
        layers.len() == under.len() <= usize::MAX,
    ensures
        match topmost_text(layers, under) {
            Some(i) => i < layers.len() && layers[i as int] is Text && under[i as int] && forall|
                j: int,
            |
                i < j < layers.len() && #[trigger] layers[j] is Text ==> !under[j],
            None => forall|j: int|
                0 <= j < layers.len() && #[trigger] layers[j] is Text ==> !under[j],
        },
    decreases layers.len(),
{
    if layers.len() > 0 && !(layers.last() is Text && under.last()) {
        the_topmost_text_is_edited_again(layers.drop_last(), under.drop_last());
        assert forall|j: int| 0 <= j < layers.len() - 1 implies #[trigger] layers[j]
            == layers.drop_last()[j] && under[j] == under.drop_last()[j] by {}
    }
}

/// A text that is edited again leaves the document, and the edit holds it as it was, with the
/// caret behind its last character. All other layers stay, in their order.
pub proof fn a_text_is_edited_as_it_was<N, S>(c: CanvasView<N, S>, i: int)
    requires
        c.doc is Some,
        0 <= i < c.doc->0.layers.len(),
        c.doc->0.layers[i] is Text,
    ensures
        ({
            let (layers, after) = (c.doc->0.layers, reedited(c, i));
            let (t, now) = (layers[i]->Text_0, after.doc->0.layers);
            &&& after.doc is Some && now.len() == layers.len() - 1
            &&& forall|j: int|
                #![trigger now[j]]
                0 <= j < now.len() ==> now[j] == (if j < i {
                    layers[j]
                } else {
                    layers[j + 1]
                })
            &&& after.text matches Some(pt) && pt.buffer == t.text && pt.origin == t.origin
                && pt.color == t.color && pt.size_pt == t.size_pt && pt.wrap_width == t.wrap_width
                && pt.caret_visible
            &&& after.reedit == Some(t)
            &&& after.selection is None && after.manip is None
        }),
{
}

/// Deleting removes the selected layer and no other, and leaves nothing selected.
pub proof fn deleting_removes_the_selected_layer_alone<N, S>(c: CanvasView<N, S>)
    requires
        c.doc is Some,
        c.selection matches Some(i) && i < c.doc->0.layers.len(),
    ensures
        ({
            let (i, layers, after) = (
                c.selection->0 as int,
                c.doc->0.layers,
                without_selected(c),
            );
            let now = after.doc->0.layers;
            &&& after.doc is Some && now.len() == layers.len() - 1
            &&& forall|j: int|
                #![trigger now[j]]
                0 <= j < now.len() ==> now[j] == (if j < i {
                    layers[j]
                } else {
                    layers[j + 1]
                })
            &&& now.insert(i, layers[i]) =~= layers
            &&& after.selection is None && after.manip is None
            &&& after.doc->0.crop == c.doc->0.crop && after.doc->0.base == c.doc->0.base
        }),
{
}

/// With the Select tool and a selected layer, Delete and Backspace delete it, Escape deselects
/// it, and the arrow keys leave it to be moved. No key does anything to the layers otherwise.
pub proof fn keys_work_on_the_selected_layer<N, S>(c: CanvasView<N, S>, key: Key, mods: Modifiers)
    requires
        c.tool == ToolKind::Select,
        c.doc is Some,
        c.selection matches Some(i) && i < c.doc->0.layers.len(),
        !mods.control && !mods.alt && !mods.super_key,
    ensures
        ({
            let (after, response) = (
                after_select_key(c, key, mods),
                select_key_response(c, key, mods),
            );
            let n = c.doc->0.layers.len();
            let deletes = key.code == KEY_DELETE || key.code == KEY_BACKSPACE;
            &&& deletes ==> after.doc->0.layers.len() == n - 1 && after.selection is None
                && response.consumed && response.nudge is None
            &&& !deletes ==> after.doc == c.doc
            &&& key.code == KEY_ESCAPE ==> after.selection is None && response.consumed
            &&& !deletes && key.code != KEY_ESCAPE ==> after == c
            &&& response.nudge matches Some(n) ==> n.0 == c.selection->0 && response.consumed && (
            key.code == KEY_LEFT || key.code == KEY_RIGHT || key.code == KEY_UP || key.code
                == KEY_DOWN)
            &&& response.consumed ==> response.effects.redraw
        }),
{
}

/// Keys that are typed into a text go to the text: Escape gives it up, Enter finishes it, and
/// either way Select takes over. A key that means nothing to the text is passed on.
pub proof fn keys_go_to_the_text<N, S>(
    before: CanvasView<N, S>,
    after: CanvasView<N, S>,
    key: Key,
    mods: Modifiers,
    measured: (u32, u32),
)
    requires
        before.text is Some,
        after_text_key(before, after, key, mods, measured),
    ensures
        ({
            let response = text_key_response(key, mods);
            &&& key.code == KEY_ESCAPE ==> after == before.text_cancelled() && after.text is None
                && response.consumed && response.effects.commit && response.effects.blink
                == Blink::Stop
            &&& (key.code == KEY_RETURN || key.code == KEY_KP_ENTER) && !mods.shift ==> after
                == before.text_committed(measured) && after.text is None && response.consumed
                && response.effects.commit
            &&& (key.code == KEY_RETURN || key.code == KEY_KP_ENTER) && mods.shift ==> after.text
                is Some && after.doc == before.doc && response.consumed
                && !response.effects.commit
            &&& !response.consumed ==> after == before
            &&& response.consumed ==> response.effects.redraw
            &&& response.nudge is None
        }),
{
}

/// A press draws with the drawing tools, selects with Select, and waits for its release with the
/// tools that are placed. It leaves the document as it is.
pub proof fn a_press_begins_what_the_tool_is_for<N, S>(
    c: CanvasView<N, S>,
    under: Seq<Under>,
    at: (N, N),
    shift: bool,
)
    ensures
        ({
            let (after, effects) = drag_begun(c, under, at, shift);
            let draws = c.tool != ToolKind::Select && c.tool != ToolKind::Number && c.tool
                != ToolKind::Text;
            &&& after.doc == c.doc && after.tool == c.tool && after.text == c.text
            &&& draws ==> after.pending is Some && after.pending->0.kind == c.tool
                && after.pending->0.from == at && effects.redraw && after.selection == c.selection
            &&& !draws ==> after.pending == c.pending
            &&& c.tool == ToolKind::Select ==> after == pressed(c, under, at)
            &&& c.tool == ToolKind::Number || c.tool == ToolKind::Text ==> after == c
        }),
{
}

/// While the pointer is dragged, Select changes the grabbed layer alone, and the other tools
/// change no layer at all. Without anything to drag nothing happens.
pub proof fn a_drag_changes_the_grabbed_layer_alone<N, S>(
    c: CanvasView<N, S>,
    to: (N, N),
    shift: bool,
    moved: Moved<N, S>,
    i: int,
)
    requires
        c.doc is Some,
        0 <= i < c.doc->0.layers.len(),
    ensures
        ({
            let (after, effects) = drag_moved(c, to, shift, moved);
            let grabs = c.tool == ToolKind::Select && c.manip is Some && c.manip->0.layer
                < c.doc->0.layers.len();
            &&& after.doc is Some && after.doc->0.layers.len() == c.doc->0.layers.len()
            &&& after.doc->0.base == c.doc->0.base && after.doc->0.size == c.doc->0.size
                && after.doc->0.crop == c.doc->0.crop
            &&& !grabs || i != c.manip->0.layer ==> after.doc->0.layers[i] == c.doc->0.layers[i]
            &&& grabs ==> after.doc->0.layers[c.manip->0.layer as int] == manipulated(
                c.doc->0.layers[c.manip->0.layer as int],
                c.manip->0,
                to,
                moved,
            ) && after.manip is Some && after.manip->0.last == to && after.manip->0.layer
                == c.manip->0.layer
            &&& after.selection == c.selection && after.tool == c.tool
            &&& c.tool != ToolKind::Select && c.pending is Some ==> after.pending is Some
                && after.pending->0.to == to && after.pending->0.from == c.pending->0.from
            &&& effects.redraw <==> grabs || (c.tool != ToolKind::Select && c.pending is Some)
            &&& !effects.redraw ==> after == c
        }),
{
}

/// When a drag ends, nothing is pending or grabbed any more. Select leaves the document as the
/// drag has made it; a drawing tool leaves at most one layer more, of its own kind, on top.
pub proof fn a_finished_drag_leaves_nothing_pending<N, S>(
    c: CanvasView<N, S>,
    s: PendingStroke<N, S>,
    to: (N, N),
    shift: bool,
    shape: DragShape,
)
    requires
        c.doc is Some,
    ensures
        ({
            let (after, effects) = drag_ended(c, Some(s), to, shift, shape);
            let (d, now) = (c.doc->0, after.doc->0);
            &&& c.tool == ToolKind::Select ==> after.manip is None && after.doc == c.doc
                && after.selection == c.selection && !effects.commit
            &&& c.tool != ToolKind::Select ==> {
                &&& after.pending is None && after.doc is Some
                &&& now.base == d.base && now.size == d.size
                &&& now.layers == d.layers || (now.layers.len() == d.layers.len() + 1
                    && now.layers.last().kind_of() == s.kind && now.layers.drop_last() == d.layers)
                &&& now.crop == d.crop || s.kind == ToolKind::Crop
                &&& s.kind != ToolKind::Crop ==> (effects.commit <==> now.layers != d.layers)
                &&& effects.redraw
            }
            &&& after.tool == c.tool && after.text == c.text && after.next_number == c.next_number
        }),
        drag_ended(c, None, to, shift, shape).0.doc == c.doc,
{
    let (after, effects) = drag_ended(c, Some(s), to, shift, shape);
    if c.tool != ToolKind::Select {
        if let Some(layer) = drawn_layer(c, s, to, shift, shape, c.doc->0.size) {
            a_drag_draws_with_its_tool(c, s, to, shift, shape, c.doc->0.size);
            assert(after.doc->0.layers.drop_last() =~= c.doc->0.layers);
        }
    }
}

/// What is drawn has the canvas's width for outlines or for lines, and where its tool has no
/// color, the canvas's color.
pub proof fn a_layer_has_the_look_of_its_canvas<N, S>(
    c: CanvasView<N, S>,
    s: PendingStroke<N, S>,
    to: (N, N),
    shift: bool,
    shape: DragShape,
    size: (u32, u32),
)
    ensures
        match drawn_layer(c, s, to, shift, shape, size) {
            Some(Layer::Rect(t)) => t.stroke_width == c.look.box_width && (t.stroke
                == c.look.box_stroke || c.colors.dom().contains(s.kind)),
            Some(Layer::Ellipse(t)) => t.stroke_width == c.look.box_width && (t.stroke
                == c.look.box_stroke || c.colors.dom().contains(s.kind)),
            Some(Layer::Arrow(t)) => t.stroke_width == c.look.line_width && (t.stroke
                == c.look.line_stroke || c.colors.dom().contains(s.kind)),
            Some(Layer::Line(t)) => t.stroke_width == c.look.line_width && (t.stroke
                == c.look.line_stroke || c.colors.dom().contains(s.kind)),
            Some(Layer::Freehand(t)) => t.stroke_width == c.look.line_width && (t.stroke
                == c.look.line_stroke || c.colors.dom().contains(s.kind)),
            Some(Layer::Highlight(t)) => t.color == c.look.highlight || c.colors.dom().contains(
                s.kind,
            ),
            Some(Layer::Blur(t)) => t.radius == c.look.blur_radius,
            _ => true,
        },
{
}

/// The preview of a tool without a color is in the color that the canvas has for it.
pub proof fn a_preview_has_the_color_of_its_tool<N, S>(c: CanvasView<N, S>, at: (N, N), shift: bool)
    requires
        !c.colors.dom().contains(c.tool),
    ensures
        ({
            let color = begun_stroke(c, at, shift).color;
            &&& c.tool == ToolKind::Redact ==> color == c.look.redact_preview
            &&& c.tool == ToolKind::Crop ==> color == c.look.crop_preview
            &&& c.tool == ToolKind::Blur ==> color == c.look.blur_preview
            &&& c.tool != ToolKind::Redact && c.tool != ToolKind::Crop && c.tool != ToolKind::Blur
                ==> color == c.look.other_preview
        }),
{
}

/// The caret goes off and on: two blinks change nothing, and one changes nothing but the caret.
pub proof fn the_caret_goes_off_and_on<N, S>(c: CanvasView<N, S>)
    ensures
        blinked(blinked(c)) == c,
        c.text is None ==> blinked(c) == c,
        c.text matches Some(pt) ==> blinked(c).text is Some && blinked(c).text->0.caret_visible
            != pt.caret_visible && blinked(c).text->0.edit() == pt.edit() && blinked(
            c,
        ).text->0.same_placement(pt) && blinked(c).doc == c.doc,
{
}

/// A new text is empty and stands where it was begun, in the color and the size of the Text tool.
/// The text that was being edited before is finished first.
pub proof fn a_new_text_is_empty<N, S>(
    before: CanvasView<N, S>,
    after: CanvasView<N, S>,
    at: (N, N),
    measured: (u32, u32),
)
    requires
        starts_text(before, after, at, measured),
    ensures
        after.text is Some && after.text->0.origin == at && after.text->0.buffer@.len() == 0,
        after.text->0.caret_visible && after.text->0.wrap_width is None,
        before.colors.dom().contains(ToolKind::Text) ==> after.text->0.color
            == before.colors[ToolKind::Text],
        before.font_sizes.dom().contains(ToolKind::Text) ==> after.text->0.size_pt
            == before.font_sizes[ToolKind::Text],
        after.doc == before.text_committed(measured).doc,
{
}

/// While a text is edited its keys go to it, and chords go past it. Otherwise keys work on the
/// selection.
pub proof fn a_key_goes_to_the_text_or_the_selection<N, S>(
    before: CanvasView<N, S>,
    after: CanvasView<N, S>,
    response: KeyResponse,
    key: Key,
    mods: Modifiers,
    measured: (u32, u32),
)
    requires
        after_key(before, after, response, key, mods, measured),
    ensures
        before.text is Some && (mods.control || mods.alt || mods.super_key) ==> after == before
            && response == KeyResponse::passed(),
        before.text is Some && !mods.control && !mods.alt && !mods.super_key ==> after_text_key(
            before,
            after,
            key,
            mods,
            measured,
        ) && response == text_key_response(key, mods),
        before.text is None ==> after == after_select_key(before, key, mods),
        before.text is None ==> after.text is None,
{
}

/// Every key that the text editor knows is kept from the rest of the window. Finishing the text
/// and abandoning it end the drawing action and stop the caret; every other key leaves it
/// blinking.
pub proof fn finishing_a_text_ends_the_action(key: Key, mods: Modifiers)
    ensures
        ({
            let k = text_key_of(key);
            let response = text_key_response(key, mods);
            let finishes = k is Enter && !mods.shift;
            &&& k is Other ==> response == KeyResponse::passed()
            &&& !(k is Other) ==> response.consumed && response.effects.redraw
                && response.nudge is None
            &&& response.effects.commit <==> finishes || k is Escape
            &&& finishes || k is Escape ==> response.effects.ui_state && response.effects.blink
                == Blink::Stop
            &&& !(k is Other) && !finishes && !(k is Escape) ==> response.effects.blink
                != Blink::Stop
        }),
{
}

} // verus!
