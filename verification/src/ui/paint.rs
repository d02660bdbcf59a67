//! What the annotation canvas shows, as a list of things to draw, bottom to top.

use vstd::prelude::*;

use crate::region::Rect;
use crate::ui::canvas::{AnnotationCanvas, ComposeError, PendingStroke};
use crate::ui::select::text_handles;
use crate::ui::text_edit::PendingText;
use crate::ui::tools::{BoxHandle, Document, Layer, StrokeStyle, ToolKind};

verus! {

use crate::ui::canvas::CanvasView;
use crate::ui::canvas_events::{drawn_layer, DragShape};
use crate::ui::select::text_handle_order;
use crate::ui::tools::{ArrowTool, BlurTool, RedactTool};

/// A color: one that was chosen, or a fixed one with its channels in hundredths.
#[derive(Clone, Copy, Debug)]
pub enum Ink<S> {
    Given([S; 4]),
    Hundredths(u8, u8, u8, u8),
}

/// A stroke width: one that was chosen, or a fixed one in tenths of a pixel.
#[derive(Clone, Copy, Debug)]
pub enum Width<S> {
    Given(S),
    Tenths(u32),
}

/// Dashes: by style, in proportion to the width, or fixed in tenths of a pixel.
#[derive(Clone, Copy, Debug, PartialEq, Eq, Structural)]
pub enum Dash {
    Style(StrokeStyle),
    OnOff(u32, u32),
}

/// How a line is drawn.
#[derive(Clone, Copy, Debug)]
pub struct Pen<S> {
    pub width: Width<S>,
    pub dash: Dash,
    pub ink: Ink<S>,
}

/// The size of an arrowhead: in proportion to the shaft, or fixed in pixels.
#[derive(Clone, Copy, Debug)]
pub enum Head<S> {
    ForWidth(S),
    Pixels(u32),
}

/// Where a handle is.
#[derive(Debug)]
pub enum HandleAt<N> {
    OnBox(Rect, BoxHandle),
    Point((N, N)),
    /// On a circle, to the right of its center.
    OnCircle { center: (N, N), radius: N },
}

/// One thing to draw.
#[derive(Debug)]
pub enum Paint<'a, N, S> {
    /// The picture under the document.
    Base,
    /// A color over all of the document.
    Backdrop(Ink<S>),
    Fill { rect: Rect, ink: Ink<S> },
    /// A color over all of the document but a rectangle.
    FillAround { size: (u32, u32), rect: Rect, ink: Ink<S> },
    Box { rect: Rect, pen: Pen<S> },
    Ellipse { rect: Rect, pen: Pen<S> },
    Line { from: (N, N), to: (N, N), pen: Pen<S> },
    Arrowhead { from: (N, N), to: (N, N), head: Head<S>, ink: Ink<S> },
    Polyline { points: &'a Vec<(N, N)>, pen: Pen<S> },
    Disc { center: (N, N), radius: N, ink: Ink<S> },
    Circle { center: (N, N), radius: N, pen: Pen<S> },
    /// A number centered in a disc.
    Number { center: (N, N), radius: N, value: u32, ink: Ink<S> },
    Text {
        origin: (N, N),
        text: &'a String,
        size_pt: S,
        wrap_width: Option<N>,
        ink: Ink<S>,
    },
    /// The caret in front of the byte `at` of a text.
    Caret {
        origin: (N, N),
        text: &'a String,
        at: usize,
        size_pt: S,
        wrap_width: Option<N>,
        ink: Ink<S>,
    },
    /// The picture blurred inside the rectangle.
    Blur { rect: Rect, radius: S },
    /// The picture blurred outside the rectangle.
    BlurAround { rect: Rect, radius: S },
    Handle(HandleAt<N>),
}

// ---- layers --------------------------------------------------------------------------------
/// The pen of a committed outline.
pub open spec fn stroke_pen<S>(width: S, style: StrokeStyle, color: [S; 4]) -> Pen<S> {
    Pen { width: Width::Given(width), dash: Dash::Style(style), ink: Ink::Given(color) }
}

fn make_stroke_pen<S: Copy>(width: S, style: StrokeStyle, color: [S; 4]) -> (res: Pen<S>)
    ensures
        res == stroke_pen(width, style, color),
{
    Pen { width: Width::Given(width), dash: Dash::Style(style), ink: Ink::Given(color) }
}

/// What a committed layer looks like. The head of an arrow is never dashed. Without a picture,
/// a blur is a grey rectangle.
pub open spec fn layer_paint<'a, N, S>(layer: &'a Layer<N, S>, has_base: bool) -> Seq<
    Paint<'a, N, S>,
> {
    match layer {
        Layer::Rect(t) => seq![
            Paint::Box {
                rect: t.bounds,
                pen: stroke_pen(t.stroke_width, t.stroke_style, t.stroke),
            },
        ],
        Layer::Ellipse(t) => seq![
            Paint::Ellipse {
                rect: t.bounds,
                pen: stroke_pen(t.stroke_width, t.stroke_style, t.stroke),
            },
        ],
        Layer::Arrow(t) => seq![
            Paint::Line {
                from: t.from,
                to: t.to,
                pen: stroke_pen(t.stroke_width, t.stroke_style, t.stroke),
            },
            Paint::Arrowhead {
                from: t.from,
                to: t.to,
                head: Head::ForWidth(t.stroke_width),
                ink: Ink::Given(t.stroke),
            },
        ],
        Layer::Line(t) => seq![
            Paint::Line {
                from: t.from,
                to: t.to,
                pen: stroke_pen(t.stroke_width, t.stroke_style, t.stroke),
            },
        ],
        Layer::Highlight(t) => seq![Paint::Fill { rect: t.bounds, ink: Ink::Given(t.color) }],
        Layer::Freehand(t) => if t.points@.len() == 0 {
            seq![]
        } else {
            seq![
                Paint::Polyline {
                    points: &t.points,
                    pen: stroke_pen(t.stroke_width, t.stroke_style, t.stroke),
                },
            ]
        },
        Layer::Redact(t) => seq![
            Paint::Fill { rect: t.bounds, ink: Ink::Hundredths(0, 0, 0, 100) },
        ],
        Layer::Number(t) => seq![
            Paint::Disc { center: t.center, radius: t.radius, ink: Ink::Given(t.fill) },
            Paint::Number {
                center: t.center,
                radius: t.radius,
                value: t.value,
                ink: Ink::Given(t.text_color),
            },
        ],
        Layer::Text(t) => seq![
            Paint::Text {
                origin: t.origin,
                text: &t.text,
                size_pt: t.size_pt,
                wrap_width: t.wrap_width,
                ink: Ink::Given(t.color),
            },
        ],
        Layer::Blur(t) => if !has_base {
            seq![
                Paint::Fill {
                    rect: t.bounds,
                    ink: Ink::Hundredths(
                        50,
                        50,
                        50,
                        if t.invert {
                            25
                        } else {
                            45
                        },
                    ),
                },
            ]
        } else if t.invert {
            seq![Paint::BlurAround { rect: t.bounds, radius: t.radius }]
        } else {
            seq![Paint::Blur { rect: t.bounds, radius: t.radius }]
        },
    }
}

/// Draws a committed layer.
pub fn paint_layer<'a, N: Copy, S: Copy>(layer: &'a Layer<N, S>, has_base: bool) -> (res: Vec<
    Paint<'a, N, S>,
>)
    ensures
        res@ == layer_paint(layer, has_base),
{
    match layer {
        Layer::Rect(t) => vec![
            Paint::Box {
                rect: t.bounds,
                pen: make_stroke_pen(t.stroke_width, t.stroke_style, t.stroke),
            },
        ],
        Layer::Ellipse(t) => vec![
            Paint::Ellipse {
                rect: t.bounds,
                pen: make_stroke_pen(t.stroke_width, t.stroke_style, t.stroke),
            },
        ],
        Layer::Arrow(t) => vec![
            Paint::Line {
                from: t.from,
                to: t.to,
                pen: make_stroke_pen(t.stroke_width, t.stroke_style, t.stroke),
            },
            Paint::Arrowhead {
                from: t.from,
                to: t.to,
                head: Head::ForWidth(t.stroke_width),
                ink: Ink::Given(t.stroke),
            },
        ],
        Layer::Line(t) => vec![
            Paint::Line {
                from: t.from,
                to: t.to,
                pen: make_stroke_pen(t.stroke_width, t.stroke_style, t.stroke),
            },
        ],
        Layer::Highlight(t) => vec![Paint::Fill { rect: t.bounds, ink: Ink::Given(t.color) }],
        Layer::Freehand(t) => {
            let mut res: Vec<Paint<'a, N, S>> = Vec::new();
            if t.points.len() > 0 {
                res.push(
                    Paint::Polyline {
                        points: &t.points,
                        pen: make_stroke_pen(t.stroke_width, t.stroke_style, t.stroke),
                    },
                );
            }
            proof {
                assert(res@ =~= layer_paint(layer, has_base));
            }
            res
        },
        Layer::Redact(t) => vec![
            Paint::Fill { rect: t.bounds, ink: Ink::Hundredths(0, 0, 0, 100) },
        ],
        Layer::Number(t) => vec![
            Paint::Disc { center: t.center, radius: t.radius, ink: Ink::Given(t.fill) },
            Paint::Number {
                center: t.center,
                radius: t.radius,
                value: t.value,
                ink: Ink::Given(t.text_color),
            },
        ],
        Layer::Text(t) => vec![
            Paint::Text {
                origin: t.origin,
                text: &t.text,
                size_pt: t.size_pt,
                wrap_width: t.wrap_width,
                ink: Ink::Given(t.color),
            },
        ],
        Layer::Blur(t) => {
            if !has_base {
                let alpha: u8 = if t.invert { 25 } else { 45 };
                vec![Paint::Fill { rect: t.bounds, ink: Ink::Hundredths(50, 50, 50, alpha) }]
            } else if t.invert {
                vec![Paint::BlurAround { rect: t.bounds, radius: t.radius }]
            } else {
                vec![Paint::Blur { rect: t.bounds, radius: t.radius }]
            }
        },
    }
}

// ---- a drag in progress --------------------------------------------------------------------
/// A fixed pen: width and dashes in tenths of a pixel.
pub open spec fn marquee_pen<S>(width: u32, on: u32, off: u32, ink: Ink<S>) -> Pen<S> {
    Pen { width: Width::Tenths(width), dash: Dash::OnOff(on, off), ink }
}

fn make_marquee_pen<S: Copy>(width: u32, on: u32, off: u32, ink: Ink<S>) -> (res: Pen<S>)
    ensures
        res == marquee_pen(width, on, off, ink),
{
    Pen { width: Width::Tenths(width), dash: Dash::OnOff(on, off), ink }
}

/// The pen of a line in progress.
pub open spec fn preview_pen<N, S>(p: PendingStroke<N, S>) -> Pen<S> {
    Pen { width: Width::Tenths(30), dash: Dash::Style(p.style), ink: Ink::Given(p.color) }
}

/// What a drag in progress looks like. Boxes are dashed whatever their style. A blur shows what
/// it will cover, once it covers something.
pub open spec fn pending_paint<'a, N, S>(
    p: &'a PendingStroke<N, S>,
    rect: Rect,
    square: Rect,
    size: (u32, u32),
) -> Seq<Paint<'a, N, S>> {
    let bounds = if p.constrain {
        square
    } else {
        rect
    };
    let ink = Ink::Given(p.color);
    match p.kind {
        ToolKind::Rect => seq![Paint::Box { rect: bounds, pen: marquee_pen(20, 60, 40, ink) }],
        ToolKind::Ellipse => seq![
            Paint::Ellipse { rect: bounds, pen: marquee_pen(20, 60, 40, ink) },
        ],
        ToolKind::Arrow => seq![
            Paint::Line { from: p.from, to: p.to, pen: preview_pen(*p) },
            Paint::Arrowhead { from: p.from, to: p.to, head: Head::Pixels(15), ink },
        ],
        ToolKind::Line => seq![Paint::Line { from: p.from, to: p.to, pen: preview_pen(*p) }],
        ToolKind::Highlight | ToolKind::Redact => seq![Paint::Fill { rect, ink }],
        ToolKind::Freehand => if p.points@.len() == 0 {
            seq![]
        } else {
            seq![Paint::Polyline { points: &p.points, pen: preview_pen(*p) }]
        },
        ToolKind::Crop => seq![Paint::Box { rect, pen: marquee_pen(15, 80, 40, ink) }],
        ToolKind::Blur => if rect.w >= 2 && rect.h >= 2 {
            seq![
                if p.invert {
                    Paint::FillAround { size, rect, ink }
                } else {
                    Paint::Fill { rect, ink }
                },
                Paint::Box {
                    rect,
                    pen: marquee_pen(10, 40, 30, Ink::Hundredths(100, 100, 100, 90)),
                },
            ]
        } else {
            seq![]
        },
        ToolKind::Number | ToolKind::Text | ToolKind::Select => seq![],
    }
}

/// Draws a drag in progress. `rect` and `square` are the boxes between its two points.
pub fn paint_pending<'a, N: Copy, S: Copy>(
    p: &'a PendingStroke<N, S>,
    rect: Rect,
    square: Rect,
    size: (u32, u32),
) -> (res: Vec<Paint<'a, N, S>>)
    ensures
        res@ == pending_paint(p, rect, square, size),
{
    let bounds = if p.constrain {
        square
    } else {
        rect
    };
    let line = Pen {
        width: Width::Tenths(30),
        dash: Dash::Style(p.style),
        ink: Ink::Given(p.color),
    };
    let ink = Ink::Given(p.color);
    let mut res: Vec<Paint<'a, N, S>> = Vec::new();
    match p.kind {
        ToolKind::Rect => {
            res.push(Paint::Box { rect: bounds, pen: make_marquee_pen(20, 60, 40, ink) });
        },
        ToolKind::Ellipse => {
            res.push(Paint::Ellipse { rect: bounds, pen: make_marquee_pen(20, 60, 40, ink) });
        },
        ToolKind::Arrow => {
            res.push(Paint::Line { from: p.from, to: p.to, pen: line });
            res.push(Paint::Arrowhead { from: p.from, to: p.to, head: Head::Pixels(15), ink });
        },
        ToolKind::Line => {
            res.push(Paint::Line { from: p.from, to: p.to, pen: line });
        },
        ToolKind::Highlight | ToolKind::Redact => {
            res.push(Paint::Fill { rect, ink });
        },
        ToolKind::Freehand => {
            if p.points.len() > 0 {
                res.push(Paint::Polyline { points: &p.points, pen: line });
            }
        },
        ToolKind::Crop => {
            res.push(Paint::Box { rect, pen: make_marquee_pen(15, 80, 40, ink) });
        },
        ToolKind::Blur => {
            if rect.w >= 2 && rect.h >= 2 {
                if p.invert {
                    res.push(Paint::FillAround { size, rect, ink });
                } else {
                    res.push(Paint::Fill { rect, ink });
                }
                res.push(
                    Paint::Box {
                        rect,
                        pen: make_marquee_pen(10, 40, 30, Ink::Hundredths(100, 100, 100, 90)),
                    },
                );
            }
        },
        ToolKind::Number | ToolKind::Text | ToolKind::Select => {},
    }
    proof {
        assert(res@ =~= pending_paint(p, rect, square, size));
    }
    res
}

// ---- a text being edited -------------------------------------------------------------------
/// What a text being edited looks like: its text, unless it is empty, and its caret, while that
/// is visible.
pub open spec fn text_paint<'a, N, S>(pt: &'a PendingText<N, S>) -> Seq<Paint<'a, N, S>> {
    let ink = Ink::Given(pt.color);
    let text = Paint::Text {
        origin: pt.origin,
        text: &pt.buffer,
        size_pt: pt.size_pt,
        wrap_width: pt.wrap_width,
        ink,
    };
    let caret = Paint::Caret {
        origin: pt.origin,
        text: &pt.buffer,
        at: pt.caret,
        size_pt: pt.size_pt,
        wrap_width: pt.wrap_width,
        ink,
    };
    (if pt.buffer@.len() > 0 {
        seq![text]
    } else {
        seq![]
    }) + (if pt.caret_visible {
        seq![caret]
    } else {
        seq![]
    })
}

/// Draws a text being edited.
pub fn paint_text<'a, N: Copy, S: Copy>(pt: &'a PendingText<N, S>) -> (res: Vec<Paint<'a, N, S>>)
    ensures
        res@ == text_paint(pt),
{
    let mut res: Vec<Paint<'a, N, S>> = Vec::new();
    if !pt.buffer.as_str().is_empty() {
        res.push(
            Paint::Text {
                origin: pt.origin,
                text: &pt.buffer,
                size_pt: pt.size_pt,
                wrap_width: pt.wrap_width,
                ink: Ink::Given(pt.color),
            },
        );
    }
    if pt.caret_visible {
        res.push(
            Paint::Caret {
                origin: pt.origin,
                text: &pt.buffer,
                at: pt.caret,
                size_pt: pt.size_pt,
                wrap_width: pt.wrap_width,
                ink: Ink::Given(pt.color),
            },
        );
    }
    proof {
        assert(res@ =~= text_paint(pt));
    }
    res
}

// ---- the selection -------------------------------------------------------------------------
/// The color of the selection.
pub open spec fn accent<S>() -> Ink<S> {
    Ink::Hundredths(20, 60, 100, 95)
}

/// The dashed box around a selected layer.
pub open spec fn marquee<'a, N, S>(rect: Rect) -> Paint<'a, N, S> {
    Paint::Box { rect, pen: marquee_pen(10, 40, 30, accent()) }
}

/// The handles of a box, all around it.
pub open spec fn box_handle_order() -> Seq<BoxHandle> {
    seq![
        BoxHandle::NW,
        BoxHandle::N,
        BoxHandle::NE,
        BoxHandle::E,
        BoxHandle::SE,
        BoxHandle::S,
        BoxHandle::SW,
        BoxHandle::W,
    ]
}

/// A marquee with handles.
pub open spec fn framed<'a, N, S>(rect: Rect, handles: Seq<BoxHandle>) -> Seq<Paint<'a, N, S>> {
    seq![marquee(rect)] + Seq::new(
        handles.len(),
        |i: int| Paint::Handle(HandleAt::OnBox(rect, handles[i])),
    )
}

/// What the selection of a layer looks like. Boxes and text have a marquee and handles, arrows
/// and lines a handle at each end, numbers a circle and a grip, freehand strokes a marquee.
pub open spec fn selection_paint<'a, N, S>(layer: &'a Layer<N, S>, bounds: Rect) -> Seq<
    Paint<'a, N, S>,
> {
    match layer {
        Layer::Rect(t) => framed(t.bounds, box_handle_order()),
        Layer::Ellipse(t) => framed(t.bounds, box_handle_order()),
        Layer::Highlight(t) => framed(t.bounds, box_handle_order()),
        Layer::Blur(t) => framed(t.bounds, box_handle_order()),
        Layer::Redact(t) => framed(t.bounds, box_handle_order()),
        Layer::Arrow(t) => seq![
            Paint::Handle(HandleAt::Point(t.from)),
            Paint::Handle(HandleAt::Point(t.to)),
        ],
        Layer::Line(t) => seq![
            Paint::Handle(HandleAt::Point(t.from)),
            Paint::Handle(HandleAt::Point(t.to)),
        ],
        Layer::Number(t) => seq![
            Paint::Circle {
                center: t.center,
                radius: t.radius,
                pen: marquee_pen(10, 40, 30, accent()),
            },
            Paint::Handle(HandleAt::OnCircle { center: t.center, radius: t.radius }),
        ],
        Layer::Text(_) => framed(bounds, text_handle_order()),
        Layer::Freehand(_) => seq![marquee(bounds)],
    }
}

fn make_accent<S>() -> (res: Ink<S>)
    ensures
        res == accent::<S>(),
{
    Ink::Hundredths(20, 60, 100, 95)
}

fn make_frame<'a, N, S: Copy>(rect: Rect, handles: &Vec<BoxHandle>) -> (res: Vec<Paint<'a, N, S>>)
    ensures
        res@ == framed::<N, S>(rect, handles@),
{
    let mut res: Vec<Paint<'a, N, S>> = Vec::new();
    res.push(Paint::Box { rect, pen: make_marquee_pen(10, 40, 30, make_accent()) });
    let ghost all = framed::<N, S>(rect, handles@);
    let mut i: usize = 0;
    while i < handles.len()
        invariant
            i <= handles@.len(),
            all == framed::<N, S>(rect, handles@),
            res@ == all.take(i + 1),
        decreases handles@.len() - i,
    {
        res.push(Paint::Handle(HandleAt::OnBox(rect, handles[i])));
        proof {
            assert(all.take(i + 2) =~= all.take(i + 1).push(all[i + 1]));
        }
        i += 1;
    }
    proof {
        assert(all.take(all.len() as int) =~= all);
    }
    res
}

/// Draws the selection of a layer. `bounds` is the box around it.
pub fn paint_selection<'a, N: Copy, S: Copy>(layer: &'a Layer<N, S>, bounds: Rect) -> (res: Vec<
    Paint<'a, N, S>,
>)
    ensures
        res@ == selection_paint(layer, bounds),
{
    let around = vec![
        BoxHandle::NW,
        BoxHandle::N,
        BoxHandle::NE,
        BoxHandle::E,
        BoxHandle::SE,
        BoxHandle::S,
        BoxHandle::SW,
        BoxHandle::W,
    ];
    proof {
        assert(around@ =~= box_handle_order());
    }
    match layer {
        Layer::Rect(t) => make_frame(t.bounds, &around),
        Layer::Ellipse(t) => make_frame(t.bounds, &around),
        Layer::Highlight(t) => make_frame(t.bounds, &around),
        Layer::Blur(t) => make_frame(t.bounds, &around),
        Layer::Redact(t) => make_frame(t.bounds, &around),
        Layer::Arrow(t) => vec![
            Paint::Handle(HandleAt::Point(t.from)),
            Paint::Handle(HandleAt::Point(t.to)),
        ],
        Layer::Line(t) => vec![
            Paint::Handle(HandleAt::Point(t.from)),
            Paint::Handle(HandleAt::Point(t.to)),
        ],
        Layer::Number(t) => vec![
            Paint::Circle {
                center: t.center,
                radius: t.radius,
                pen: make_marquee_pen(10, 40, 30, make_accent()),
            },
            Paint::Handle(HandleAt::OnCircle { center: t.center, radius: t.radius }),
        ],
        Layer::Text(_) => make_frame(bounds, &text_handles()),
        Layer::Freehand(_) => vec![
            Paint::Box { rect: bounds, pen: make_marquee_pen(10, 40, 30, make_accent()) },
        ],
    }
}

// ---- everything ----------------------------------------------------------------------------
/// The veil over what a crop leaves out, and its border.
pub open spec fn crop_paint<'a, N, S>(size: (u32, u32), crop: Rect) -> Seq<Paint<'a, N, S>> {
    seq![
        Paint::FillAround { size, rect: crop, ink: Ink::Hundredths(0, 0, 0, 35) },
        Paint::Box {
            rect: crop,
            pen: marquee_pen(10, 60, 40, Ink::Hundredths(100, 100, 100, 90)),
        },
    ]
}

/// Draws the veil over what a crop leaves out.
pub fn paint_crop_veil<'a, N, S: Copy>(size: (u32, u32), crop: Rect) -> (res: Vec<Paint<'a, N, S>>)
    ensures
        res@ == crop_paint::<N, S>(size, crop),
{
    vec![
        Paint::FillAround { size, rect: crop, ink: Ink::Hundredths(0, 0, 0, 35) },
        Paint::Box {
            rect: crop,
            pen: make_marquee_pen(10, 60, 40, Ink::Hundredths(100, 100, 100, 90)),
        },
    ]
}

/// The layers of a document, bottom to top.
pub open spec fn layers_paint<'a, N, S>(layers: Seq<Layer<N, S>>, has_base: bool) -> Seq<
    Paint<'a, N, S>,
>
    decreases layers.len(),
{
    if layers.len() == 0 {
        Seq::empty()
    } else {
        layers_paint(layers.drop_last(), has_base) + layer_paint(&layers.last(), has_base)
    }
}

/// What is under the layers: the picture, unless it is hidden; without one a dark color, unless
/// the background is transparent.
pub open spec fn background_paint<'a, N, S>(c: AnnotationCanvas<N, S>) -> Seq<Paint<'a, N, S>> {
    match c.doc {
        Some(doc) => if doc.base is None {
            if c.transparent_background {
                seq![]
            } else {
                seq![Paint::Backdrop(Ink::Hundredths(10, 10, 12, 100))]
            }
        } else if c.hidden_base {
            seq![]
        } else {
            seq![Paint::Base]
        },
        None => seq![],
    }
}

/// The boxes that the canvas's drag in progress, and the box that its selected layer, take up.
#[derive(Clone, Copy, Debug)]
pub struct Extents {
    pub rect: Rect,
    pub square: Rect,
    pub selected: Rect,
}

/// What a canvas shows.
pub open spec fn canvas_paint<'a, N, S>(c: &'a AnnotationCanvas<N, S>, e: Extents) -> Seq<
    Paint<'a, N, S>,
> {
    match c.doc {
        Some(doc) => background_paint(*c) + layers_paint(doc.layers@, doc.base is Some) + (
        match c.pending {
            Some(p) => pending_paint(&p, e.rect, e.square, doc.size),
            None => seq![],
        }) + (match c.pending_text {
            Some(pt) => text_paint(&pt),
            None => seq![],
        }) + (match c.selection {
            Some(i) => if c.current_tool == ToolKind::Select && i < doc.layers@.len() {
                selection_paint(&doc.layers@[i as int], e.selected)
            } else {
                seq![]
            },
            None => seq![],
        }) + (match doc.crop {
            Some(crop) => crop_paint(doc.size, crop),
            None => seq![],
        }),
        None => seq![],
    }
}

fn paint_layers<'a, N: Copy, S: Copy>(doc: &'a Document<N, S>) -> (res: Vec<Paint<'a, N, S>>)
    ensures
        res@ == layers_paint(doc.layers@, doc.base is Some),
{
    let has_base = doc.base.is_some();
    let mut res: Vec<Paint<'a, N, S>> = Vec::new();
    let mut i: usize = 0;
    while i < doc.layers.len()
        invariant
            i <= doc.layers@.len(),
            has_base == (doc.base is Some),
            res@ == layers_paint(doc.layers@.take(i as int), has_base),
        decreases doc.layers@.len() - i,
    {
        proof {
            assert(doc.layers@.take(i + 1).drop_last() =~= doc.layers@.take(i as int));
        }
        let mut more = paint_layer(&doc.layers[i], has_base);
        res.append(&mut more);
        i += 1;
    }
    proof {
        assert(doc.layers@.take(i as int) =~= doc.layers@);
    }
    res
}

/// Draws the canvas: background, layers, the drag and the text in progress, the selection, and
/// the crop.
pub fn snapshot<'a, N: Copy, S: Copy>(c: &'a AnnotationCanvas<N, S>, e: &Extents) -> (res: Vec<
    Paint<'a, N, S>,
>)
    ensures
        res@ == canvas_paint(c, *e),
{
    let mut res: Vec<Paint<'a, N, S>> = Vec::new();
    let doc = match &c.doc {
        Some(doc) => doc,
        None => {
            proof {
                assert(res@ =~= canvas_paint(c, *e));
            }
            return res;
        },
    };
    if doc.base.is_none() {
        if !c.transparent_background {
            res.push(Paint::Backdrop(Ink::Hundredths(10, 10, 12, 100)));
        }
    } else if !c.hidden_base {
        res.push(Paint::Base);
    }
    proof {
        assert(res@ =~= background_paint(*c));
    }
    let mut layers = paint_layers(doc);
    res.append(&mut layers);
    if let Some(p) = &c.pending {
        let mut more = paint_pending(p, e.rect, e.square, doc.size);
        res.append(&mut more);
    }
    if let Some(pt) = &c.pending_text {
        let mut more = paint_text(pt);
        res.append(&mut more);
    }
    if c.current_tool == ToolKind::Select {
        if let Some(i) = c.selection {
            if let Some(layer) = doc.layer(i) {
                let mut more = paint_selection(layer, e.selected);
                res.append(&mut more);
            }
        }
    }
    if let Some(crop) = doc.crop {
        let mut more = paint_crop_veil(doc.size, crop);
        res.append(&mut more);
    }
    proof {
        assert(res@ =~= canvas_paint(c, *e));
    }
    res
}

/// What is exported of a document: the picture, even a hidden one, and the layers.
pub open spec fn export_paint<'a, N, S>(doc: Document<N, S>) -> Seq<Paint<'a, N, S>> {
    (if doc.base is Some {
        seq![Paint::Base]
    } else {
        seq![]
    }) + layers_paint(doc.layers@, doc.base is Some)
}

impl<N: Copy, S: Copy> AnnotationCanvas<N, S> {
    /// What to render for export, and the part of the document to render.
    pub fn compose<'a>(&'a self) -> (res: Result<(Rect, Vec<Paint<'a, N, S>>), ComposeError>)
        ensures
            match self.doc {
                Some(doc) => if doc@.exported().w == 0 || doc@.exported().h == 0 {
                    res matches Err(e) && e == ComposeError::EmptyDocument
                } else if export_paint::<N, S>(doc).len() == 0 {
                    res matches Err(e) && e == ComposeError::NothingToCompose
                } else {
                    res matches Ok(plan) && plan.0 == doc@.exported() && plan.1@ == export_paint(
                        doc,
                    )
                },
                None => res matches Err(e) && e == ComposeError::NoDocument,
            },
    {
        let doc = match &self.doc {
            Some(doc) => doc,
            None => {
                return Err(ComposeError::NoDocument);
            },
        };
        let viewport = doc.bounds();
        if viewport.w == 0 || viewport.h == 0 {
            return Err(ComposeError::EmptyDocument);
        }
        let mut paint: Vec<Paint<'a, N, S>> = Vec::new();
        if doc.base.is_some() {
            paint.push(Paint::Base);
        }
        let mut layers = paint_layers(doc);
        paint.append(&mut layers);
        proof {
            assert(paint@ =~= export_paint(*doc));
        }
        if paint.len() == 0 {
            return Err(ComposeError::NothingToCompose);
        }
        Ok((viewport, paint))
    }
}

/// The stroke style of an arrow shows on its shaft, and its head is the same in every style.
pub proof fn an_arrowhead_stays_solid<N, S>(
    arrow: ArrowTool<N, S>,
    style: StrokeStyle,
    has_base: bool,
)
    ensures
        ({
            let styled = ArrowTool { stroke_style: style, ..arrow };
            let paint = layer_paint(&Layer::Arrow(styled), has_base);
            &&& paint.len() == 2
            &&& paint[0] matches Paint::Line { pen, .. } && pen.dash == Dash::Style(style)
            &&& paint[1] is Arrowhead
            &&& paint[1] == layer_paint(&Layer::Arrow(arrow), has_base)[1]
        }),
{
}

/// What is exported does not depend on the selection, on drags and texts in progress, or on how
/// the background is shown.
pub proof fn exports_ignore_what_is_in_progress<N, S>(
    a: AnnotationCanvas<N, S>,
    b: AnnotationCanvas<N, S>,
)
    requires
        a.doc is Some && b.doc is Some,
        a.doc->0@ == b.doc->0@,
    ensures
        export_paint::<N, S>(a.doc->0) == export_paint::<N, S>(b.doc->0),
        a.doc->0@.exported() == b.doc->0@.exported(),
{
}

// ---- what is seen --------------------------------------------------------------------------
/// An ink that lets nothing show through and is black.
pub open spec fn is_solid_black<S>(ink: Ink<S>) -> bool {
    ink matches Ink::Hundredths(r, g, b, alpha) && r == 0 && g == 0 && b == 0 && alpha == 100
}

/// A redaction is one fill of its bounds, solid and black, with or without a picture: nothing
/// under the bounds shows through.
pub proof fn a_redaction_hides_what_is_under_it<N, S>(t: RedactTool, has_base: bool)
    ensures
        ({
            let paint = layer_paint::<N, S>(&Layer::Redact(t), has_base);
            &&& paint.len() == 1
            &&& paint[0] matches Paint::Fill { rect, ink } && rect == t.bounds && is_solid_black(ink)
        }),
{
}

/// A layer that is given by a box shows in that box and in no other, in its own color where it
/// has one, and with its own width and style where it is an outline. A rectangle is drawn as a
/// box, an ellipse as an ellipse, and a highlight fills its box.
pub proof fn a_boxed_layer_shows_in_its_box<N, S>(layer: Layer<N, S>, has_base: bool)
    requires
        layer.box_of() is Some,
    ensures
        ({
            let paint = layer_paint(&layer, has_base);
            let (bounds, color) = (layer.box_of()->0, layer.color_of());
            &&& paint.len() == 1
            &&& layer is Rect ==> (paint[0] matches Paint::Box { rect, pen } && rect == bounds
                && pen.ink == Ink::Given(color->0) && pen.dash == Dash::Style(layer.style_of()->0)
                && pen.width == Width::Given(layer->Rect_0.stroke_width))
            &&& layer is Ellipse ==> (paint[0] matches Paint::Ellipse { rect, pen } && rect == bounds
                && pen.ink == Ink::Given(color->0) && pen.dash == Dash::Style(layer.style_of()->0)
                && pen.width == Width::Given(layer->Ellipse_0.stroke_width))
            &&& layer is Highlight ==> (paint[0] matches Paint::Fill { rect, ink } && rect == bounds
                && ink == Ink::Given(color->0))
            &&& layer is Redact ==> (paint[0] matches Paint::Fill { rect, ink } && rect == bounds
                && is_solid_black(ink))
            &&& layer is Blur ==> match paint[0] {
                Paint::Blur { rect, .. } => rect == bounds,
                Paint::BlurAround { rect, .. } => rect == bounds,
                Paint::Fill { rect, .. } => rect == bounds,
                _ => false,
            }
        }),
{
}

/// Over a picture a blur blurs its bounds, and an inverted one all but its bounds, with its own
/// radius. Without a picture there is nothing to blur, and a translucent grey stands for it.
pub proof fn a_blur_blurs_the_picture<S, N>(t: BlurTool<S>)
    ensures
        ({
            let paint = layer_paint::<N, S>(&Layer::Blur(t), true);
            &&& paint.len() == 1
            &&& !t.invert ==> (paint[0] matches Paint::Blur { rect, radius } && rect == t.bounds
                && radius == t.radius)
            &&& t.invert ==> (paint[0] matches Paint::BlurAround { rect, radius } && rect == t.bounds
                && radius == t.radius)
        }),
        ({
            let paint = layer_paint::<N, S>(&Layer::Blur(t), false);
            &&& paint.len() == 1
            &&& paint[0] matches Paint::Fill { rect, ink: Ink::Hundredths(r, g, b, alpha) } && rect
                == t.bounds && r == g && g == b && 0 < alpha < 100
        }),
{
}

/// An arrow and a line go from one of their ends to the other, in their own color, width and
/// style. An arrow has a head at its second end, a line has none.
pub proof fn a_line_goes_between_its_ends<N, S>(layer: Layer<N, S>, has_base: bool)
    requires
        layer.ends_of() is Some,
    ensures
        ({
            let paint = layer_paint(&layer, has_base);
            let (ends, color) = (layer.ends_of()->0, layer.color_of()->0);
            &&& paint.len() > 0
            &&& paint[0] matches Paint::Line { from, to, pen } && from == ends.0 && to == ends.1
                && pen.ink == Ink::Given(color) && pen.dash == Dash::Style(layer.style_of()->0)
            &&& paint[0] matches Paint::Line { pen, .. } ==> pen.width == Width::Given(
                if layer is Arrow {
                    layer->Arrow_0.stroke_width
                } else {
                    layer->Line_0.stroke_width
                },
            )
            &&& layer is Line ==> paint.len() == 1
            &&& layer is Arrow ==> paint.len() == 2 && (paint[1] matches Paint::Arrowhead {
                from,
                to,
                ink,
                ..
            } && from == ends.0 && to == ends.1 && ink == Ink::Given(color))
            &&& layer is Arrow ==> (paint[1] matches Paint::Arrowhead { head, .. } && head
                == Head::ForWidth(layer->Arrow_0.stroke_width))
        }),
{
}

/// A freehand stroke goes through all of its points, a badge is a disc with its number, and a
/// text is its text, each in its own place and color.
pub proof fn other_layers_show_what_they_hold<N, S>(layer: Layer<N, S>, has_base: bool)
    ensures
        ({
            let paint = layer_paint(&layer, has_base);
            &&& layer matches Layer::Freehand(t) ==> {
                &&& t.points@.len() == 0 ==> paint.len() == 0
                &&& t.points@.len() > 0 ==> paint.len() == 1 && (paint[0] matches Paint::Polyline {
                    points,
                    pen,
                } && *points == t.points && pen.ink == Ink::Given(t.stroke) && pen.dash
                    == Dash::Style(t.stroke_style) && pen.width == Width::Given(t.stroke_width))
            }
            &&& layer matches Layer::Number(t) ==> {
                &&& paint.len() == 2
                &&& paint[0] matches Paint::Disc { center, radius, ink } && center == t.center
                    && radius == t.radius && ink == Ink::Given(t.fill)
                &&& paint[1] matches Paint::Number { center, radius, value, ink } && center
                    == t.center && radius == t.radius && value == t.value && ink == Ink::Given(
                    t.text_color,
                )
            }
            &&& layer matches Layer::Text(t) ==> {
                &&& paint.len() == 1
                &&& paint[0] matches Paint::Text { origin, text, size_pt, wrap_width, ink }
                    && *text == t.text && origin == t.origin && size_pt == t.size_pt && wrap_width
                    == t.wrap_width && ink == Ink::Given(t.color)
            }
        }),
{
}

/// Layers are painted one over the other: what is below comes first.
pub proof fn layers_are_painted_bottom_to_top<N, S>(
    below: Seq<Layer<N, S>>,
    above: Seq<Layer<N, S>>,
    has_base: bool,
)
    ensures
        layers_paint::<N, S>(below + above, has_base) == layers_paint::<N, S>(below, has_base)
            + layers_paint::<N, S>(above, has_base),
        above.len() == 1 ==> layers_paint::<N, S>(above, has_base) == layer_paint(
            &above[0],
            has_base,
        ),
        above.len() == 0 ==> layers_paint::<N, S>(above, has_base).len() == 0,
    decreases above.len(),
{
    if above.len() == 0 {
        assert(below + above =~= below);
        assert(layers_paint::<N, S>(below, has_base) + layers_paint::<N, S>(above, has_base)
            =~= layers_paint::<N, S>(below, has_base));
    } else {
        layers_are_painted_bottom_to_top(below, above.drop_last(), has_base);
        assert((below + above).drop_last() =~= below + above.drop_last());
        assert(layers_paint::<N, S>(below + above, has_base) =~= layers_paint::<N, S>(
            below,
            has_base,
        ) + layers_paint::<N, S>(above, has_base));
        if above.len() == 1 {
            assert(above.drop_last() =~= Seq::empty());
            assert(layers_paint::<N, S>(above, has_base) =~= layer_paint(&above[0], has_base));
        }
    }
}

/// What is exported is the picture and over it every layer, from the bottom to the top. In the
/// place of a redaction stands one solid black fill of its bounds, over the picture and over all
/// layers beneath it.
pub proof fn an_exported_redaction_covers_all_beneath_it<N, S>(doc: Document<N, S>, i: int)
    requires
        0 <= i < doc.layers@.len(),
        doc.layers@[i] is Redact,
    ensures
        ({
            let (layers, has_base) = (doc.layers@, doc.base is Some);
            let export = export_paint::<N, S>(doc);
            let under = (if has_base {
                seq![Paint::<N, S>::Base]
            } else {
                seq![]
            }) + layers_paint::<N, S>(layers.take(i), has_base);
            let k = under.len() as int;
            &&& k < export.len()
            &&& export.take(k) == under
            &&& export[k] matches Paint::Fill { rect, ink } && rect == layers[i]->Redact_0.bounds
                && is_solid_black(ink)
            &&& export.skip(k + 1) == layers_paint::<N, S>(layers.skip(i + 1), has_base)
        }),
{
    let (layers, has_base) = (doc.layers@, doc.base is Some);
    let one = layers.subrange(i, i + 1);
    let above = layers.skip(i + 1);
    assert(layers =~= layers.take(i) + one + above);
    layers_are_painted_bottom_to_top(layers.take(i) + one, above, has_base);
    layers_are_painted_bottom_to_top(layers.take(i), one, has_base);
    let export = export_paint::<N, S>(doc);
    let under = (if has_base {
        seq![Paint::<N, S>::Base]
    } else {
        seq![]
    }) + layers_paint::<N, S>(layers.take(i), has_base);
    let k = under.len() as int;
    let mine = layers_paint::<N, S>(one, has_base);
    assert(export =~= under + mine + layers_paint::<N, S>(above, has_base));
    assert(export.take(k) =~= under);
    assert(export.skip(k + 1) =~= layers_paint::<N, S>(above, has_base));
}

/// What is exported is what is shown: where nothing is in progress, selected or cropped and the
/// picture is not hidden, the canvas shows the export and nothing more. A hidden picture is
/// exported all the same.
pub proof fn the_export_is_what_is_shown<N, S>(c: AnnotationCanvas<N, S>, e: Extents)
    requires
        c.doc is Some,
        c.doc->0.base is Some,
        c.pending is None && c.pending_text is None && c.selection is None,
        c.doc->0.crop is None,
    ensures
        !c.hidden_base ==> canvas_paint(&c, e) == export_paint::<N, S>(c.doc->0),
        c.hidden_base ==> seq![Paint::<N, S>::Base] + canvas_paint(&c, e) == export_paint::<N, S>(
            c.doc->0,
        ),
        export_paint::<N, S>(c.doc->0).len() > 0 && export_paint::<N, S>(c.doc->0)[0] is Base,
{
    assert(!c.hidden_base ==> canvas_paint(&c, e) =~= export_paint::<N, S>(c.doc->0));
    assert(c.hidden_base ==> seq![Paint::<N, S>::Base] + canvas_paint(&c, e) =~= export_paint::<
        N,
        S,
    >(c.doc->0));
}

/// On screen the layers come over the background and under everything else: what is in progress,
/// the selection and the veil of a crop lie over them, the veil on top.
pub proof fn the_layers_lie_over_the_background<N, S>(c: AnnotationCanvas<N, S>, e: Extents)
    requires
        c.doc is Some,
    ensures
        ({
            let (doc, shown) = (c.doc->0, canvas_paint(&c, e));
            let layers = layers_paint::<N, S>(doc.layers@, doc.base is Some);
            let b = background_paint::<N, S>(c).len() as int;
            &&& b <= 1 && b + layers.len() <= shown.len()
            &&& shown.subrange(b, b + layers.len()) == layers
            &&& b == 1 ==> shown[0] is Base || shown[0] is Backdrop
            &&& b == 1 && shown[0] is Base <==> doc.base is Some && !c.hidden_base
            &&& b == 1 && shown[0] is Backdrop <==> doc.base is None && !c.transparent_background
            &&& doc.crop matches Some(crop) ==> shown.len() >= 2 && (shown[shown.len()
                - 2] matches Paint::FillAround { size, rect, ink: Ink::Hundredths(r, g, bl, alpha) }
                && size == doc.size && rect == crop && r == 0 && g == 0 && bl == 0 && 0 < alpha
                < 100) && (shown.last() matches Paint::Box { rect, .. } && rect == crop)
        }),
{
    let (doc, shown) = (c.doc->0, canvas_paint(&c, e));
    let layers = layers_paint::<N, S>(doc.layers@, doc.base is Some);
    let b = background_paint::<N, S>(c).len() as int;
    assert(shown.subrange(b, b + layers.len()) =~= layers);
}

/// While it is dragged, a shape is shown where it will be drawn: the box of its preview is the
/// box of the layer that the drag leaves if it ends there, and a line goes between the same ends.
pub proof fn a_preview_is_where_the_layer_will_be<N, S>(
    c: CanvasView<N, S>,
    s: PendingStroke<N, S>,
    shape: DragShape,
    size: (u32, u32),
)
    requires
        s.kind == ToolKind::Rect || s.kind == ToolKind::Ellipse || s.constrain == false,
        s.kind != ToolKind::Blur,
        drawn_layer(c, s, s.to, s.constrain, shape, size) is Some,
    ensures
        ({
            let layer = drawn_layer(c, s, s.to, s.constrain, shape, size)->0;
            let paint = pending_paint(&s, shape.rect, shape.square, size);
            &&& paint.len() >= 1
            &&& layer is Rect ==> (paint[0] matches Paint::Box { rect, pen } && Some(rect)
                == layer.box_of() && pen.ink == Ink::Given(s.color))
            &&& layer is Ellipse ==> (paint[0] matches Paint::Ellipse { rect, pen } && Some(rect)
                == layer.box_of() && pen.ink == Ink::Given(s.color))
            &&& layer is Highlight || layer is Redact ==> (paint[0] matches Paint::Fill { rect, ink }
                && Some(rect) == layer.box_of() && ink == Ink::Given(s.color))
            &&& layer is Arrow || layer is Line ==> (paint[0] matches Paint::Line { from, to, pen }
                && Some((from, to)) == layer.ends_of() && pen.ink == Ink::Given(s.color) && pen.dash
                == Dash::Style(s.style))
            &&& layer is Arrow <==> paint.len() == 2
            &&& layer is Arrow ==> (paint[1] matches Paint::Arrowhead { from, to, ink, .. } && Some(
                (from, to),
            ) == layer.ends_of() && ink == Ink::Given(s.color))
            &&& layer matches Layer::Freehand(t) ==> (paint[0] matches Paint::Polyline { points, pen }
                && *points == t.points && pen.ink == Ink::Given(s.color))
        }),
{
}

/// The preview of a blur covers what will be blurred: its rectangle, or with an inverted blur
/// all of the document but that. The preview of a crop is the border of its rectangle.
pub proof fn a_blur_preview_covers_what_will_be_blurred<N, S>(
    s: PendingStroke<N, S>,
    rect: Rect,
    square: Rect,
    size: (u32, u32),
)
    ensures
        s.kind == ToolKind::Blur ==> ({
            let paint = pending_paint(&s, rect, square, size);
            &&& paint.len() > 0 <==> rect.w >= 2 && rect.h >= 2
            &&& paint.len() > 0 && !s.invert ==> (paint[0] matches Paint::Fill { rect: r, ink } && r
                == rect && ink == Ink::Given(s.color))
            &&& paint.len() > 0 && s.invert ==> (paint[0] matches Paint::FillAround {
                size: z,
                rect: r,
                ink,
            } && z == size && r == rect && ink == Ink::Given(s.color))
        }),
        s.kind == ToolKind::Crop ==> ({
            let paint = pending_paint(&s, rect, square, size);
            paint.len() == 1 && (paint[0] matches Paint::Box { rect: r, .. } && r == rect)
        }),
        s.kind == ToolKind::Number || s.kind == ToolKind::Text || s.kind == ToolKind::Select
            ==> pending_paint(&s, rect, square, size).len() == 0,
{
}

/// A text that is being edited shows as it will when it is finished, and the caret in front of
/// the byte where it is, while it is visible.
pub proof fn an_edited_text_shows_with_its_caret<N, S>(pt: PendingText<N, S>)
    ensures
        ({
            let paint = text_paint(&pt);
            let shown = pt.buffer@.len() > 0;
            &&& paint.len() == (if shown {
                1int
            } else {
                0
            }) + (if pt.caret_visible {
                1int
            } else {
                0
            })
            &&& shown ==> (paint[0] matches Paint::Text { origin, text, size_pt, wrap_width, ink }
                && *text == pt.buffer && origin == pt.origin && size_pt == pt.size_pt && wrap_width
                == pt.wrap_width && ink == Ink::Given(pt.color))
            &&& pt.caret_visible ==> (paint.last() matches Paint::Caret {
                origin,
                text,
                at,
                size_pt,
                wrap_width,
                ink,
            } && *text == pt.buffer && at == pt.caret && origin == pt.origin && size_pt == pt.size_pt
                && wrap_width == pt.wrap_width && ink == Ink::Given(pt.color))
        }),
{
}

/// A handle is shown on the selected layer wherever one can be grabbed: all eight on a box, those
/// of a text on a text, one at each end of a line, and a grip on a badge.
pub proof fn handles_are_shown_where_they_can_be_grabbed<N, S>(
    layer: Layer<N, S>,
    bounds: Rect,
    h: BoxHandle,
)
    ensures
        ({
            let paint = selection_paint(&layer, bounds);
            &&& layer.box_of() matches Some(b) ==> {
                &&& paint.len() == 9
                &&& paint[0] matches Paint::Box { rect, .. } && rect == b
                &&& exists|i: int|
                    1 <= i < 9 && #[trigger] paint[i] == Paint::<N, S>::Handle(
                        HandleAt::OnBox(b, h),
                    )
            }
            &&& layer is Text ==> {
                &&& paint.len() == 1 + text_handle_order().len()
                &&& paint[0] matches Paint::Box { rect, .. } && rect == bounds
                &&& forall|i: int|
                    0 <= i < text_handle_order().len() ==> #[trigger] paint[i + 1] == Paint::<
                        N,
                        S,
                    >::Handle(HandleAt::OnBox(bounds, text_handle_order()[i]))
            }
            &&& layer.ends_of() matches Some(ends) ==> paint.len() == 2 && paint[0] == Paint::<
                N,
                S,
            >::Handle(HandleAt::Point(ends.0)) && paint[1] == Paint::<N, S>::Handle(
                HandleAt::Point(ends.1),
            )
            &&& layer matches Layer::Number(t) ==> paint.len() == 2 && (paint[0] matches Paint::Circle {
                center,
                radius,
                ..
            } && center == t.center && radius == t.radius) && paint[1] == Paint::<N, S>::Handle(
                HandleAt::OnCircle { center: t.center, radius: t.radius },
            )
            &&& layer is Freehand ==> paint.len() == 1 && (paint[0] matches Paint::Box { rect, .. }
                && rect == bounds)
        }),
{
    if let Some(b) = layer.box_of() {
        let paint = selection_paint(&layer, bounds);
        let order = box_handle_order();
        let i = match h {
            BoxHandle::NW => 0int,
            BoxHandle::N => 1,
            BoxHandle::NE => 2,
            BoxHandle::E => 3,
            BoxHandle::SE => 4,
            BoxHandle::S => 5,
            BoxHandle::SW => 6,
            BoxHandle::W => 7,
        };
        assert(order[i] == h);
        assert(paint[i + 1] == Paint::<N, S>::Handle(HandleAt::OnBox(b, order[i])));
    }
}

/// A crop veils exactly what it leaves out, lightly enough for that to be seen, and frames what
/// it keeps.
pub proof fn a_crop_veils_what_it_leaves_out<N, S>(size: (u32, u32), crop: Rect)
    ensures
        ({
            let paint = crop_paint::<N, S>(size, crop);
            &&& paint.len() == 2
            &&& paint[0] matches Paint::FillAround {
                size: whole,
                rect,
                ink: Ink::Hundredths(r, g, b, alpha),
            } && whole == size && rect == crop && r == 0 && g == 0 && b == 0 && 0 < alpha < 100
            &&& paint[1] matches Paint::Box { rect, pen } && rect == crop && pen.dash is OnOff
        }),
{
}

/// All eight handles stand around a box, each once.
pub proof fn every_handle_of_a_box_is_shown(handle: BoxHandle)
    ensures
        box_handle_order().contains(handle),
        box_handle_order().len() == 8,
        box_handle_order().no_duplicates(),
{
    let order = box_handle_order();
    let i: int = match handle {
        BoxHandle::NW => 0,
        BoxHandle::N => 1,
        BoxHandle::NE => 2,
        BoxHandle::E => 3,
        BoxHandle::SE => 4,
        BoxHandle::S => 5,
        BoxHandle::SW => 6,
        BoxHandle::W => 7,
    };
    assert(order[i] == handle);
}

} // verus!
