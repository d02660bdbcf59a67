//! The Select tool: what the pointer grabs on a layer, and what a drag of it does.
//!
//! Whether the pointer is over a handle, and where a dragged point ends up, is a matter of real
//! numbers. Here it is decided what has to be computed, and what is done with the result.

use vstd::prelude::*;

use crate::region::Rect;
use crate::ui::keys::{
    Key, Modifiers, KEY_BACKSPACE, KEY_DELETE, KEY_DOWN, KEY_ESCAPE, KEY_LEFT, KEY_RIGHT, KEY_UP,
};
use crate::ui::tools::{set_box_bounds, set_pair, BoxHandle, Endpoint, Layer, ToolKind};

verus! {

use crate::ui::tools::{rebounded, reended, FreehandTool, NumberTool, TextTool};

/// Which part of a layer was grabbed.
#[derive(Clone, Copy, Debug, PartialEq, Eq, Structural)]
pub enum Grab {
    /// The whole layer, to move it.
    Body,
    /// A handle of a box or of a text block.
    BoxHandle(BoxHandle),
    /// An end of an arrow or a line.
    Endpoint(Endpoint),
    /// The radius grip of a number.
    NumberRadius,
}

/// The geometry of a layer at the time it was grabbed.
#[derive(Debug)]
pub enum GrabGeometry<N, S> {
    Box(Rect),
    Pair { from: (N, N), to: (N, N) },
    Center { center: (N, N), radius: N },
    /// A freehand stroke is only moved.
    Origin((N, N)),
    Text { origin: (N, N), size_pt: S, wrap_width: Option<N>, bounds: Rect },
}

impl<N: Copy, S: Copy> Clone for GrabGeometry<N, S> {
    fn clone(&self) -> (res: Self)
        ensures
            res == *self,
    {
        match self {
            GrabGeometry::Box(r) => GrabGeometry::Box(*r),
            GrabGeometry::Pair { from, to } => GrabGeometry::Pair { from: *from, to: *to },
            GrabGeometry::Center { center, radius } => GrabGeometry::Center {
                center: *center,
                radius: *radius,
            },
            GrabGeometry::Origin(p) => GrabGeometry::Origin(*p),
            GrabGeometry::Text { origin, size_pt, wrap_width, bounds } => GrabGeometry::Text {
                origin: *origin,
                size_pt: *size_pt,
                wrap_width: *wrap_width,
                bounds: *bounds,
            },
        }
    }
}

/// A move or resize in progress.
#[derive(Debug)]
pub struct Manipulation<N, S> {
    /// The index of the layer.
    pub layer: usize,
    pub grab: Grab,
    /// The layer's geometry when it was grabbed. Each step starts from it, so that rounding
    /// does not add up.
    pub origin: GrabGeometry<N, S>,
    /// Where the pointer was when the layer was grabbed.
    pub start: (N, N),
    /// Where the pointer was at the last step.
    pub last: (N, N),
}

// ---- grabbing ------------------------------------------------------------------------------
/// The geometry that a grab remembers.
pub open spec fn geometry_of<N, S>(layer: Layer<N, S>, text_bounds: Rect, zero: (N, N)) ->
    GrabGeometry<N, S> {
    match layer {
        Layer::Arrow(t) => GrabGeometry::Pair { from: t.from, to: t.to },
        Layer::Line(t) => GrabGeometry::Pair { from: t.from, to: t.to },
        Layer::Number(t) => GrabGeometry::Center { center: t.center, radius: t.radius },
        Layer::Text(t) => GrabGeometry::Text {
            origin: t.origin,
            size_pt: t.size_pt,
            wrap_width: t.wrap_width,
            bounds: text_bounds,
        },
        Layer::Freehand(t) => GrabGeometry::Origin(
            if t.points@.len() > 0 {
                t.points@[0]
            } else {
                zero
            },
        ),
        Layer::Rect(t) => GrabGeometry::Box(t.bounds),
        Layer::Ellipse(t) => GrabGeometry::Box(t.bounds),
        Layer::Highlight(t) => GrabGeometry::Box(t.bounds),
        Layer::Redact(t) => GrabGeometry::Box(t.bounds),
        Layer::Blur(t) => GrabGeometry::Box(t.bounds),
    }
}

/// Takes down the geometry of a layer. `text_bounds` is the box around it, if it is text, and
/// `zero` stands for the place of a stroke without points.
pub fn grab_geometry<N: Copy, S: Copy>(layer: &Layer<N, S>, text_bounds: Rect, zero: (N, N)) ->
    (res: GrabGeometry<N, S>)
    ensures
        res == geometry_of(*layer, text_bounds, zero),
{
    match layer {
        Layer::Arrow(t) => GrabGeometry::Pair { from: t.from, to: t.to },
        Layer::Line(t) => GrabGeometry::Pair { from: t.from, to: t.to },
        Layer::Number(t) => GrabGeometry::Center { center: t.center, radius: t.radius },
        Layer::Text(t) => GrabGeometry::Text {
            origin: t.origin,
            size_pt: t.size_pt,
            wrap_width: t.wrap_width,
            bounds: text_bounds,
        },
        Layer::Freehand(t) => GrabGeometry::Origin(
            if t.points.len() > 0 {
                t.points[0]
            } else {
                zero
            },
        ),
        Layer::Rect(t) => GrabGeometry::Box(t.bounds),
        Layer::Ellipse(t) => GrabGeometry::Box(t.bounds),
        Layer::Highlight(t) => GrabGeometry::Box(t.bounds),
        Layer::Redact(t) => GrabGeometry::Box(t.bounds),
        Layer::Blur(t) => GrabGeometry::Box(t.bounds),
    }
}

/// The ends of an arrow or a line.
pub fn endpoints<N: Copy, S: Copy>(layer: &Layer<N, S>) -> (res: Option<((N, N), (N, N))>)
    ensures
        res == match *layer {
            Layer::Arrow(t) => Some((t.from, t.to)),
            Layer::Line(t) => Some((t.from, t.to)),
            _ => None,
        },
{
    match layer {
        Layer::Arrow(t) => Some((t.from, t.to)),
        Layer::Line(t) => Some((t.from, t.to)),
        _ => None,
    }
}

/// Where a handle of a box lies, in half pixels.
pub open spec fn handle_point(r: Rect, handle: BoxHandle) -> (int, int) {
    let (left, top) = (2 * r.x, 2 * r.y);
    let (right, bottom) = (2 * r.right_edge(), 2 * r.bottom_edge());
    let (center, middle) = (left + r.w, top + r.h);
    match handle {
        BoxHandle::NW => (left, top),
        BoxHandle::N => (center, top),
        BoxHandle::NE => (right, top),
        BoxHandle::E => (right, middle),
        BoxHandle::SE => (right, bottom),
        BoxHandle::S => (center, bottom),
        BoxHandle::SW => (left, bottom),
        BoxHandle::W => (left, middle),
    }
}

/// Where a handle of a box lies, in half pixels: at a corner, or in the middle of a side.
pub fn box_handle_point(r: Rect, handle: BoxHandle) -> (res: (i64, i64))
    ensures
        (res.0 as int, res.1 as int) == handle_point(r, handle),
{
    let left: i64 = 2 * r.x as i64;
    let top: i64 = 2 * r.y as i64;
    let center: i64 = left + r.w as i64;
    let middle: i64 = top + r.h as i64;
    let right: i64 = center + r.w as i64;
    let bottom: i64 = middle + r.h as i64;
    match handle {
        BoxHandle::NW => (left, top),
        BoxHandle::N => (center, top),
        BoxHandle::NE => (right, top),
        BoxHandle::E => (right, middle),
        BoxHandle::SE => (right, bottom),
        BoxHandle::S => (center, bottom),
        BoxHandle::SW => (left, bottom),
        BoxHandle::W => (left, middle),
    }
}

/// The handles of a text block: the corners, which scale the font, and the sides, which set the
/// wrap width.
pub open spec fn text_handle_order() -> Seq<BoxHandle> {
    seq![
        BoxHandle::NW,
        BoxHandle::NE,
        BoxHandle::SE,
        BoxHandle::SW,
        BoxHandle::E,
        BoxHandle::W,
    ]
}

/// The handles of a text block, in the order in which they are tried.
pub fn text_handles() -> (res: Vec<BoxHandle>)
    ensures
        res@ == text_handle_order(),
{
    vec![
        BoxHandle::NW,
        BoxHandle::NE,
        BoxHandle::SE,
        BoxHandle::SW,
        BoxHandle::E,
        BoxHandle::W,
    ]
}

/// What the pointer is over on one layer.
#[derive(Clone, Copy, Debug)]
pub struct Hits {
    /// The layer itself.
    pub body: bool,
    /// A handle of its box.
    pub box_handle: Option<BoxHandle>,
    /// Its first end, and its second end.
    pub from: bool,
    pub to: bool,
    /// Its radius grip.
    pub radius: bool,
    /// Each of the [`text_handles`].
    pub text: [bool; 6],
}

/// The first text handle from `i` on that the pointer is over.
pub open spec fn text_handle_hit(text: [bool; 6], i: int) -> Option<BoxHandle>
    decreases 6 - i,
{
    if i < 0 || i >= 6 {
        None
    } else if text@[i] {
        Some(text_handle_order()[i])
    } else {
        text_handle_hit(text, i + 1)
    }
}

/// What a press grabs: a handle before the body.
pub open spec fn grab_of(kind: ToolKind, hits: Hits) -> Option<Grab> {
    let body = if hits.body {
        Some(Grab::Body)
    } else {
        None
    };
    match kind {
        ToolKind::Rect
        | ToolKind::Ellipse
        | ToolKind::Highlight
        | ToolKind::Blur
        | ToolKind::Redact => match hits.box_handle {
            Some(h) => Some(Grab::BoxHandle(h)),
            None => body,
        },
        ToolKind::Arrow | ToolKind::Line => if hits.from {
            Some(Grab::Endpoint(Endpoint::From))
        } else if hits.to {
            Some(Grab::Endpoint(Endpoint::To))
        } else {
            body
        },
        ToolKind::Number => if hits.radius {
            Some(Grab::NumberRadius)
        } else {
            body
        },
        ToolKind::Text => match text_handle_hit(hits.text, 0) {
            Some(h) => Some(Grab::BoxHandle(h)),
            None => body,
        },
        ToolKind::Freehand => body,
        ToolKind::Crop | ToolKind::Select => None,
    }
}

/// Decides what a press grabs on a layer of that kind. `None` when it misses the layer.
pub fn grab_at(kind: ToolKind, hits: &Hits) -> (res: Option<Grab>)
    ensures
        res == grab_of(kind, *hits),
{
    let body = if hits.body {
        Some(Grab::Body)
    } else {
        None
    };
    match kind {
        ToolKind::Rect
        | ToolKind::Ellipse
        | ToolKind::Highlight
        | ToolKind::Blur
        | ToolKind::Redact => match hits.box_handle {
            Some(h) => Some(Grab::BoxHandle(h)),
            None => body,
        },
        ToolKind::Arrow | ToolKind::Line => if hits.from {
            Some(Grab::Endpoint(Endpoint::From))
        } else if hits.to {
            Some(Grab::Endpoint(Endpoint::To))
        } else {
            body
        },
        ToolKind::Number => if hits.radius {
            Some(Grab::NumberRadius)
        } else {
            body
        },
        ToolKind::Text => {
            let order = text_handles();
            let mut i: usize = 0;
            while i < 6
                invariant
                    i <= 6,
                    kind == ToolKind::Text,
                    order@ == text_handle_order(),
                    text_handle_hit(hits.text, i as int) == text_handle_hit(hits.text, 0),
                decreases 6 - i,
            {
                if hits.text[i] {
                    return Some(Grab::BoxHandle(order[i]));
                }
                i += 1;
            }
            body
        },
        ToolKind::Freehand => body,
        ToolKind::Crop | ToolKind::Select => None,
    }
}

/// The pointer shape over a handle.
pub open spec fn handle_cursor(h: BoxHandle) -> Seq<char> {
    match h {
        BoxHandle::NW | BoxHandle::SE => "nwse-resize"@,
        BoxHandle::NE | BoxHandle::SW => "nesw-resize"@,
        BoxHandle::N | BoxHandle::S => "ns-resize"@,
        BoxHandle::E | BoxHandle::W => "ew-resize"@,
    }
}

/// The name of the pointer shape over a handle: the axis along which it is dragged.
pub fn box_handle_cursor(h: BoxHandle) -> (res: &'static str)
    ensures
        res@ == handle_cursor(h),
{
    match h {
        BoxHandle::NW | BoxHandle::SE => "nwse-resize",
        BoxHandle::NE | BoxHandle::SW => "nesw-resize",
        BoxHandle::N | BoxHandle::S => "ns-resize",
        BoxHandle::E | BoxHandle::W => "ew-resize",
    }
}

/// The pointer shape over something that can be grabbed.
pub open spec fn grab_cursor_of(grab: Grab) -> Seq<char> {
    match grab {
        Grab::Body => "move"@,
        Grab::NumberRadius => "ew-resize"@,
        Grab::Endpoint(_) => "crosshair"@,
        Grab::BoxHandle(h) => handle_cursor(h),
    }
}

/// The name of the pointer shape over something that can be grabbed.
pub fn grab_cursor(grab: Grab) -> (res: &'static str)
    ensures
        res@ == grab_cursor_of(grab),
{
    match grab {
        Grab::Body => "move",
        Grab::NumberRadius => "ew-resize",
        Grab::Endpoint(_) => "crosshair",
        Grab::BoxHandle(h) => box_handle_cursor(h),
    }
}

// ---- dragging ------------------------------------------------------------------------------
/// A horizontal place: a whole pixel, or where the pointer is.
#[derive(Clone, Copy, Debug)]
pub enum Edge<N> {
    Pixel(i64),
    Pointer(N),
}

/// What a step of a drag has to compute. A shift goes from `start` to `cur`.
#[derive(Debug)]
pub enum Move<N, S> {
    ShiftBox { bounds: Rect, start: (N, N), cur: (N, N) },
    ShiftPair { from: (N, N), to: (N, N), start: (N, N), cur: (N, N) },
    ShiftCenter { center: (N, N), start: (N, N), cur: (N, N) },
    /// Shift the points of a freehand stroke from where they are.
    ShiftPoints { start: (N, N), cur: (N, N) },
    ShiftText { origin: (N, N), start: (N, N), cur: (N, N) },
    /// Drag a handle of a box to `cur`.
    ResizeBox { bounds: Rect, handle: BoxHandle, cur: (N, N) },
    /// Wrap a text block between two edges, at the height it has.
    WrapText { left: Edge<N>, right: Edge<N>, top: N },
    /// Scale a text block by dragging a corner of its box to `cur`.
    ScaleText {
        bounds: Rect,
        handle: BoxHandle,
        size_pt: S,
        wrap_width: Option<N>,
        cur: (N, N),
    },
    /// Nothing to compute: the ends are known.
    SetPair { from: (N, N), to: (N, N) },
    /// Measure from the center to `cur`.
    SetRadius { center: (N, N), cur: (N, N) },
    Nothing,
}

/// What a step of a drag has to compute.
pub open spec fn move_of<N, S>(m: Manipulation<N, S>, cur: (N, N)) -> Move<N, S> {
    match (m.grab, m.origin) {
        (Grab::Body, GrabGeometry::Box(bounds)) => Move::ShiftBox { bounds, start: m.start, cur },
        (Grab::Body, GrabGeometry::Pair { from, to }) => Move::ShiftPair {
            from,
            to,
            start: m.start,
            cur,
        },
        (Grab::Body, GrabGeometry::Center { center, radius }) => Move::ShiftCenter {
            center,
            start: m.start,
            cur,
        },
        (Grab::Body, GrabGeometry::Origin(_)) => Move::ShiftPoints { start: m.last, cur },
        (Grab::Body, GrabGeometry::Text { origin, size_pt, wrap_width, bounds }) =>
            Move::ShiftText { origin, start: m.start, cur },
        (Grab::BoxHandle(handle), GrabGeometry::Box(bounds)) => Move::ResizeBox {
            bounds,
            handle,
            cur,
        },
        (Grab::BoxHandle(handle), GrabGeometry::Text { origin, size_pt, wrap_width, bounds }) =>
            if handle == BoxHandle::W {
                Move::WrapText {
                    left: Edge::Pointer(cur.0),
                    right: Edge::Pixel(bounds.right_edge() as i64),
                    top: origin.1,
                }
            } else if handle == BoxHandle::E {
                Move::WrapText {
                    left: Edge::Pixel(bounds.x as i64),
                    right: Edge::Pointer(cur.0),
                    top: origin.1,
                }
            } else {
                Move::ScaleText { bounds, handle, size_pt, wrap_width, cur }
            },
        (Grab::Endpoint(Endpoint::From), GrabGeometry::Pair { from, to }) => Move::SetPair {
            from: cur,
            to,
        },
        (Grab::Endpoint(Endpoint::To), GrabGeometry::Pair { from, to }) => Move::SetPair {
            from,
            to: cur,
        },
        (Grab::NumberRadius, GrabGeometry::Center { center, radius }) => Move::SetRadius {
            center,
            cur,
        },
        _ => Move::Nothing,
    }
}

/// Decides what a step of a drag to `cur` has to compute.
pub fn plan_move<N: Copy, S: Copy>(m: &Manipulation<N, S>, cur: (N, N)) -> (res: Move<N, S>)
    ensures
        res == move_of(*m, cur),
{
    match (m.grab, &m.origin) {
        (Grab::Body, GrabGeometry::Box(bounds)) => Move::ShiftBox {
            bounds: *bounds,
            start: m.start,
            cur,
        },
        (Grab::Body, GrabGeometry::Pair { from, to }) => Move::ShiftPair {
            from: *from,
            to: *to,
            start: m.start,
            cur,
        },
        (Grab::Body, GrabGeometry::Center { center, radius: _ }) => Move::ShiftCenter {
            center: *center,
            start: m.start,
            cur,
        },
        (Grab::Body, GrabGeometry::Origin(_)) => Move::ShiftPoints { start: m.last, cur },
        (Grab::Body, GrabGeometry::Text { origin, .. }) => Move::ShiftText {
            origin: *origin,
            start: m.start,
            cur,
        },
        (Grab::BoxHandle(handle), GrabGeometry::Box(bounds)) => Move::ResizeBox {
            bounds: *bounds,
            handle,
            cur,
        },
        (Grab::BoxHandle(handle), GrabGeometry::Text { origin, size_pt, wrap_width, bounds }) =>
            match handle {
                BoxHandle::W => Move::WrapText {
                    left: Edge::Pointer(cur.0),
                    right: Edge::Pixel(bounds.x as i64 + bounds.w as i64),
                    top: origin.1,
                },
                BoxHandle::E => Move::WrapText {
                    left: Edge::Pixel(bounds.x as i64),
                    right: Edge::Pointer(cur.0),
                    top: origin.1,
                },
                _ => Move::ScaleText {
                    bounds: *bounds,
                    handle,
                    size_pt: *size_pt,
                    wrap_width: *wrap_width,
                    cur,
                },
            },
        (Grab::Endpoint(Endpoint::From), GrabGeometry::Pair { from: _, to }) => Move::SetPair {
            from: cur,
            to: *to,
        },
        (Grab::Endpoint(Endpoint::To), GrabGeometry::Pair { from, to: _ }) => Move::SetPair {
            from: *from,
            to: cur,
        },
        (Grab::NumberRadius, GrabGeometry::Center { center, radius: _ }) => Move::SetRadius {
            center: *center,
            cur,
        },
        _ => Move::Nothing,
    }
}

/// The outcome of a step of a drag.
#[derive(Debug)]
pub enum Moved<N, S> {
    Bounds(Rect),
    Pair { from: (N, N), to: (N, N) },
    Center((N, N)),
    Points(Vec<(N, N)>),
    Origin((N, N)),
    Wrapped { origin: (N, N), width: N, bounds_cache: (u32, u32) },
    Scaled { origin: (N, N), size_pt: S, wrap_width: Option<N>, bounds_cache: (u32, u32) },
    Radius(N),
    Nothing,
}

/// The layer after a step of a drag. An outcome that does not belong to the layer's kind
/// changes nothing.
pub open spec fn moved_layer<N, S>(layer: Layer<N, S>, moved: Moved<N, S>) -> Layer<N, S> {
    match moved {
        Moved::Bounds(bounds) => rebounded(layer, bounds),
        Moved::Pair { from, to } => reended(layer, from, to),
        Moved::Center(center) => match layer {
            Layer::Number(t) => Layer::Number(NumberTool { center, ..t }),
            _ => layer,
        },
        Moved::Points(points) => match layer {
            Layer::Freehand(t) => Layer::Freehand(FreehandTool { points, ..t }),
            _ => layer,
        },
        Moved::Origin(origin) => match layer {
            Layer::Text(t) => Layer::Text(TextTool { origin, ..t }),
            _ => layer,
        },
        Moved::Wrapped { origin, width, bounds_cache } => match layer {
            Layer::Text(t) => Layer::Text(
                TextTool { origin, wrap_width: Some(width), bounds_cache, ..t },
            ),
            _ => layer,
        },
        Moved::Scaled { origin, size_pt, wrap_width, bounds_cache } => match layer {
            Layer::Text(t) => Layer::Text(
                TextTool { origin, size_pt, wrap_width, bounds_cache, ..t },
            ),
            _ => layer,
        },
        Moved::Radius(radius) => match layer {
            Layer::Number(t) => Layer::Number(NumberTool { radius, ..t }),
            _ => layer,
        },
        Moved::Nothing => layer,
    }
}

/// Writes the outcome of a step of a drag onto the layer.
fn apply_move<N, S>(layer: &mut Layer<N, S>, moved: Moved<N, S>)
    ensures
        *final(layer) == moved_layer(*old(layer), moved),
{
    match moved {
        Moved::Bounds(bounds) => set_box_bounds(layer, bounds),
        Moved::Pair { from, to } => set_pair(layer, from, to),
        Moved::Center(center) => {
            if let Layer::Number(t) = layer {
                t.center = center;
            }
        },
        Moved::Points(points) => {
            if let Layer::Freehand(t) = layer {
                t.points = points;
            }
        },
        Moved::Origin(origin) => {
            if let Layer::Text(t) = layer {
                t.origin = origin;
            }
        },
        Moved::Wrapped { origin, width, bounds_cache } => {
            if let Layer::Text(t) = layer {
                t.origin = origin;
                t.wrap_width = Some(width);
                t.bounds_cache = bounds_cache;
            }
        },
        Moved::Scaled { origin, size_pt, wrap_width, bounds_cache } => {
            if let Layer::Text(t) = layer {
                t.origin = origin;
                t.size_pt = size_pt;
                t.wrap_width = wrap_width;
                t.bounds_cache = bounds_cache;
            }
        },
        Moved::Radius(radius) => {
            if let Layer::Number(t) = layer {
                t.radius = radius;
            }
        },
        Moved::Nothing => {},
    }
}

/// The outcome of a plan: what the plan itself knows is taken from it, and the rest from the
/// arithmetic. An outcome of another kind than the plan asks for comes to nothing.
pub open spec fn settled<N, S>(plan: Move<N, S>, moved: Moved<N, S>) -> Moved<N, S> {
    match (plan, moved) {
        (Move::ShiftBox { bounds, .. }, Moved::Bounds(at)) => Moved::Bounds(
            Rect { x: at.x, y: at.y, ..bounds },
        ),
        (Move::ResizeBox { .. }, Moved::Bounds(_)) => moved,
        (Move::ShiftPair { .. }, Moved::Pair { .. }) => moved,
        (Move::SetPair { from, to }, _) => Moved::Pair { from, to },
        (Move::ShiftCenter { .. }, Moved::Center(_)) => moved,
        (Move::ShiftPoints { .. }, Moved::Points(_)) => moved,
        (Move::ShiftText { .. }, Moved::Origin(_)) => moved,
        (Move::WrapText { top, .. }, Moved::Wrapped { origin, width, bounds_cache }) =>
            Moved::Wrapped { origin: (origin.0, top), width, bounds_cache },
        (
            Move::ScaleText { wrap_width, .. },
            Moved::Scaled { origin, size_pt, wrap_width: _, bounds_cache },
        ) => Moved::Scaled { origin, size_pt, wrap_width, bounds_cache },
        (Move::SetRadius { .. }, Moved::Radius(_)) => moved,
        _ => Moved::Nothing,
    }
}

/// Puts what a plan knows into what the arithmetic made of it.
fn settle<N: Copy, S: Copy>(plan: &Move<N, S>, moved: Moved<N, S>) -> (res: Moved<N, S>)
    ensures
        res == settled(*plan, moved),
{
    match (plan, moved) {
        (Move::ShiftBox { bounds, .. }, Moved::Bounds(at)) => Moved::Bounds(
            Rect { x: at.x, y: at.y, w: bounds.w, h: bounds.h },
        ),
        (Move::ResizeBox { .. }, Moved::Bounds(bounds)) => Moved::Bounds(bounds),
        (Move::ShiftPair { .. }, Moved::Pair { from, to }) => Moved::Pair { from, to },
        (Move::SetPair { from, to }, _) => Moved::Pair { from: *from, to: *to },
        (Move::ShiftCenter { .. }, Moved::Center(center)) => Moved::Center(center),
        (Move::ShiftPoints { .. }, Moved::Points(points)) => Moved::Points(points),
        (Move::ShiftText { .. }, Moved::Origin(origin)) => Moved::Origin(origin),
        (Move::WrapText { top, .. }, Moved::Wrapped { origin, width, bounds_cache }) =>
            Moved::Wrapped { origin: (origin.0, *top), width, bounds_cache },
        (
            Move::ScaleText { wrap_width, .. },
            Moved::Scaled { origin, size_pt, wrap_width: _, bounds_cache },
        ) => Moved::Scaled { origin, size_pt, wrap_width: *wrap_width, bounds_cache },
        (Move::SetRadius { .. }, Moved::Radius(radius)) => Moved::Radius(radius),
        _ => Moved::Nothing,
    }
}

/// The layer after a step of a drag to `cur`, for which the arithmetic comes to `moved`.
pub open spec fn manipulated<N, S>(
    layer: Layer<N, S>,
    m: Manipulation<N, S>,
    cur: (N, N),
    moved: Moved<N, S>,
) -> Layer<N, S> {
    moved_layer(layer, settled(move_of(m, cur), moved))
}

/// A step of a drag to `cur`. `moved` is what the arithmetic made of [`plan_move`].
pub fn apply_manipulation<N: Copy, S: Copy>(
    layer: &mut Layer<N, S>,
    m: &Manipulation<N, S>,
    cur: (N, N),
    moved: Moved<N, S>,
)
    ensures
        *final(layer) == manipulated(*old(layer), *m, cur, moved),
{
    let plan = plan_move(m, cur);
    apply_move(layer, settle(&plan, moved));
}

/// What has to be computed to shift a layer as far as from `start` to `cur`.
pub open spec fn shift_of<N, S>(layer: Layer<N, S>, start: (N, N), cur: (N, N)) -> Move<N, S> {
    match layer {
        Layer::Arrow(t) => Move::ShiftPair { from: t.from, to: t.to, start, cur },
        Layer::Line(t) => Move::ShiftPair { from: t.from, to: t.to, start, cur },
        Layer::Number(t) => Move::ShiftCenter { center: t.center, start, cur },
        Layer::Text(t) => Move::ShiftText { origin: t.origin, start, cur },
        Layer::Freehand(_) => Move::ShiftPoints { start, cur },
        Layer::Rect(t) => Move::ShiftBox { bounds: t.bounds, start, cur },
        Layer::Ellipse(t) => Move::ShiftBox { bounds: t.bounds, start, cur },
        Layer::Highlight(t) => Move::ShiftBox { bounds: t.bounds, start, cur },
        Layer::Redact(t) => Move::ShiftBox { bounds: t.bounds, start, cur },
        Layer::Blur(t) => Move::ShiftBox { bounds: t.bounds, start, cur },
    }
}

/// Decides what has to be computed to shift a layer as far as from `start` to `cur`.
pub fn plan_shift<N: Copy, S: Copy>(layer: &Layer<N, S>, start: (N, N), cur: (N, N)) -> (res: Move<
    N,
    S,
>)
    ensures
        res == shift_of(*layer, start, cur),
{
    match layer {
        Layer::Arrow(t) => Move::ShiftPair { from: t.from, to: t.to, start, cur },
        Layer::Line(t) => Move::ShiftPair { from: t.from, to: t.to, start, cur },
        Layer::Number(t) => Move::ShiftCenter { center: t.center, start, cur },
        Layer::Text(t) => Move::ShiftText { origin: t.origin, start, cur },
        Layer::Freehand(_) => Move::ShiftPoints { start, cur },
        Layer::Rect(t) => Move::ShiftBox { bounds: t.bounds, start, cur },
        Layer::Ellipse(t) => Move::ShiftBox { bounds: t.bounds, start, cur },
        Layer::Highlight(t) => Move::ShiftBox { bounds: t.bounds, start, cur },
        Layer::Redact(t) => Move::ShiftBox { bounds: t.bounds, start, cur },
        Layer::Blur(t) => Move::ShiftBox { bounds: t.bounds, start, cur },
    }
}

/// The layer after a shift as far as from `start` to `cur`, for which the arithmetic comes to
/// `moved`.
pub open spec fn shifted<N, S>(
    layer: Layer<N, S>,
    start: (N, N),
    cur: (N, N),
    moved: Moved<N, S>,
) -> Layer<N, S> {
    moved_layer(layer, settled(shift_of(layer, start, cur), moved))
}

/// Shifts a layer as far as from `start` to `cur`. `moved` is what the arithmetic made of
/// [`plan_shift`].
pub fn apply_shift<N: Copy, S: Copy>(
    layer: &mut Layer<N, S>,
    start: (N, N),
    cur: (N, N),
    moved: Moved<N, S>,
)
    ensures
        *final(layer) == shifted(*old(layer), start, cur, moved),
{
    let plan = plan_shift(layer, start, cur);
    apply_move(layer, settle(&plan, moved));
}

// ---- keys ----------------------------------------------------------------------------------
/// What a key press means to the Select tool.
#[derive(Clone, Copy, Debug, PartialEq, Eq, Structural)]
pub enum SelectKeyAction {
    /// Nothing: let the key propagate.
    Ignore,
    /// Remove the selected layer.
    Delete,
    /// Clear the selection.
    Deselect,
    /// Move the selected layer by so many pixels to the right and down.
    Nudge(i32, i32),
}

pub const NUDGE_STEP: i32 = 1;

pub const NUDGE_STEP_COARSE: i32 = 10;

pub open spec fn nudge_step(mods: Modifiers) -> i32 {
    if mods.shift {
        NUDGE_STEP_COARSE
    } else {
        NUDGE_STEP
    }
}

/// The meaning of a key to the Select tool.
pub open spec fn select_action_of(
    tool: ToolKind,
    key: Key,
    mods: Modifiers,
    has_selection: bool,
) -> SelectKeyAction {
    let step = nudge_step(mods);
    if tool != ToolKind::Select || !has_selection || mods.is_chord_state() {
        SelectKeyAction::Ignore
    } else if key.code == KEY_BACKSPACE || key.code == KEY_DELETE {
        SelectKeyAction::Delete
    } else if key.code == KEY_ESCAPE {
        SelectKeyAction::Deselect
    } else if key.code == KEY_LEFT {
        SelectKeyAction::Nudge((-step) as i32, 0)
    } else if key.code == KEY_RIGHT {
        SelectKeyAction::Nudge(step, 0)
    } else if key.code == KEY_UP {
        SelectKeyAction::Nudge(0, (-step) as i32)
    } else if key.code == KEY_DOWN {
        SelectKeyAction::Nudge(0, step)
    } else {
        SelectKeyAction::Ignore
    }
}

/// Decides what a key does for the Select tool. With nothing selected, and for accelerators,
/// it does nothing. Shift makes a nudge coarse.
pub fn select_key_action(tool: ToolKind, key: Key, mods: Modifiers, has_selection: bool) -> (res:
    SelectKeyAction)
    ensures
        res == select_action_of(tool, key, mods, has_selection),
{
    if tool != ToolKind::Select || !has_selection || mods.is_chord() {
        return SelectKeyAction::Ignore;
    }
    let step: i32 = if mods.shift { NUDGE_STEP_COARSE } else { NUDGE_STEP };
    if key.code == KEY_BACKSPACE || key.code == KEY_DELETE {
        SelectKeyAction::Delete
    } else if key.code == KEY_ESCAPE {
        SelectKeyAction::Deselect
    } else if key.code == KEY_LEFT {
        SelectKeyAction::Nudge(-step, 0)
    } else if key.code == KEY_RIGHT {
        SelectKeyAction::Nudge(step, 0)
    } else if key.code == KEY_UP {
        SelectKeyAction::Nudge(0, -step)
    } else if key.code == KEY_DOWN {
        SelectKeyAction::Nudge(0, step)
    } else {
        SelectKeyAction::Ignore
    }
}

// ---- laws ----------------------------------------------------------------------------------
/// Control, Alt and Super chords are left to accelerators, and so is every key while nothing is
/// selected or another tool is in use.
pub proof fn accelerators_are_never_taken(
    tool: ToolKind,
    key: Key,
    mods: Modifiers,
    has_selection: bool,
)
    requires
        mods.is_chord_state() || !has_selection || tool != ToolKind::Select,
    ensures
        select_action_of(tool, key, mods, has_selection) == SelectKeyAction::Ignore,
{
}

/// What a step computes does not depend on the steps before it, except for a freehand stroke,
/// which is shifted from where it is.
pub proof fn steps_start_from_the_grab<N, S>(m: Manipulation<N, S>, last: (N, N), cur: (N, N))
    requires
        !(m.origin is Origin),
    ensures
        move_of(Manipulation { last, ..m }, cur) == move_of(m, cur),
{
}

/// An outcome is of the kind that a plan asks for.
pub open spec fn answers<N, S>(plan: Move<N, S>, moved: Moved<N, S>) -> bool {
    match plan {
        Move::ShiftBox { .. } | Move::ResizeBox { .. } => moved is Bounds,
        Move::ShiftPair { .. } => moved is Pair,
        Move::ShiftCenter { .. } => moved is Center,
        Move::ShiftPoints { .. } => moved is Points,
        Move::ShiftText { .. } => moved is Origin,
        Move::WrapText { .. } => moved is Wrapped,
        Move::ScaleText { .. } => moved is Scaled,
        Move::SetRadius { .. } => moved is Radius,
        Move::SetPair { .. } | Move::Nothing => true,
    }
}

/// Arithmetic that can work out every plan. What it computes is left open: of a number it is
/// only asked for one.
pub open spec fn is_arithmetic<N, S>(compute: spec_fn(Move<N, S>) -> Moved<N, S>) -> bool {
    forall|plan: Move<N, S>| answers(plan, #[trigger] compute(plan))
}

/// The layer after a step of a drag to `cur`, which some arithmetic works out.
pub open spec fn dragged_to<N, S>(
    layer: Layer<N, S>,
    m: Manipulation<N, S>,
    cur: (N, N),
    compute: spec_fn(Move<N, S>) -> Moved<N, S>,
) -> Layer<N, S> {
    manipulated(layer, m, cur, compute(move_of(m, cur)))
}

/// Whatever the arithmetic, a step of a drag that follows another leaves the layer that it would
/// leave alone: it starts from what the grab remembers, and writes over all that the step before
/// it wrote. A freehand stroke is left out, which is shifted from where it is.
pub proof fn a_step_leaves_no_trace_of_the_one_before<N, S>(
    layer: Layer<N, S>,
    m: Manipulation<N, S>,
    mid: (N, N),
    cur: (N, N),
    compute: spec_fn(Move<N, S>) -> Moved<N, S>,
)
    requires
        !(m.origin is Origin),
        is_arithmetic(compute),
    ensures
        dragged_to(
            dragged_to(layer, m, mid, compute),
            Manipulation { last: mid, ..m },
            cur,
            compute,
        ) == dragged_to(layer, m, cur, compute),
{
    assert(answers(move_of(m, mid), compute(move_of(m, mid))));
    assert(answers(move_of(m, cur), compute(move_of(m, cur))));
}

/// The layer after steps of a drag to each of some points, in their order.
pub open spec fn dragged_through<N, S>(
    layer: Layer<N, S>,
    m: Manipulation<N, S>,
    points: Seq<(N, N)>,
    compute: spec_fn(Move<N, S>) -> Moved<N, S>,
) -> Layer<N, S>
    decreases points.len(),
{
    if points.len() == 0 {
        layer
    } else {
        dragged_to(
            dragged_through(layer, m, points.drop_last(), compute),
            if points.len() == 1 {
                m
            } else {
                Manipulation { last: points[points.len() - 2], ..m }
            },
            points.last(),
            compute,
        )
    }
}

/// Whatever the arithmetic, a drag of any number of steps leaves the layer that its last step
/// alone would leave. Nothing adds up on the way. A freehand stroke is left out, which is
/// shifted from where it is.
pub proof fn a_drag_does_not_drift<N, S>(
    layer: Layer<N, S>,
    m: Manipulation<N, S>,
    points: Seq<(N, N)>,
    compute: spec_fn(Move<N, S>) -> Moved<N, S>,
)
    requires
        !(m.origin is Origin),
        is_arithmetic(compute),
        points.len() > 0,
    ensures
        dragged_through(layer, m, points, compute) == dragged_to(layer, m, points.last(), compute),
    decreases points.len(),
{
    if points.len() == 1 {
        assert(dragged_through(layer, m, points.drop_last(), compute) == layer);
    } else {
        let before = points.drop_last();
        a_drag_does_not_drift(layer, m, before, compute);
        a_step_leaves_no_trace_of_the_one_before(
            layer,
            m,
            before.last(),
            points.last(),
            compute,
        );
    }
}

/// A shift from a place to itself changes no number.
pub open spec fn stays_in_place<N, S>(compute: spec_fn(Move<N, S>) -> Moved<N, S>) -> bool {
    forall|plan: Move<N, S>|
        #![trigger compute(plan)]
        match plan {
            Move::ShiftBox { bounds, start, cur } => start == cur ==> compute(plan)
                == Moved::<N, S>::Bounds(bounds),
            Move::ShiftPair { from, to, start, cur } => start == cur ==> compute(plan) == (
            Moved::<N, S>::Pair { from, to }),
            Move::ShiftCenter { center, start, cur } => start == cur ==> compute(plan)
                == Moved::<N, S>::Center(center),
            Move::ShiftText { origin, start, cur } => start == cur ==> compute(plan)
                == Moved::<N, S>::Origin(origin),
            _ => true,
        }
}

/// A body that is dragged about and at last back to where it was grabbed is the layer as it was
/// grabbed, whatever lay between. The arithmetic has only to leave a number as it is when it
/// shifts it by nothing. A freehand stroke is left out, which is shifted from where it is.
pub proof fn dragging_back_gives_the_layer_back<N, S>(
    layer: Layer<N, S>,
    m: Manipulation<N, S>,
    text_bounds: Rect,
    zero: (N, N),
    points: Seq<(N, N)>,
    compute: spec_fn(Move<N, S>) -> Moved<N, S>,
)
    requires
        m.grab is Body,
        m.origin == geometry_of(layer, text_bounds, zero),
        !(m.origin is Origin),
        is_arithmetic(compute),
        stays_in_place(compute),
    ensures
        dragged_through(layer, m, points.push(m.start), compute) == layer,
{
    a_drag_does_not_drift(layer, m, points.push(m.start), compute);
    assert(points.push(m.start).last() == m.start);
}

/// A box that is dragged by its body keeps its size, and a text all but its place. A text that
/// is scaled wraps as it did when it was grabbed, and one that is wrapped stays at its height.
pub proof fn a_drag_writes_only_what_it_is_for<N, S>(
    layer: Layer<N, S>,
    m: Manipulation<N, S>,
    cur: (N, N),
    moved: Moved<N, S>,
)
    ensures
        match (m.grab, m.origin, settled(move_of(m, cur), moved)) {
            (Grab::Body, GrabGeometry::Box(bounds), Moved::Bounds(after)) => after.w == bounds.w
                && after.h == bounds.h,
            (
                Grab::BoxHandle(_),
                GrabGeometry::Text { wrap_width, .. },
                Moved::Scaled { wrap_width: after, .. },
            ) => after == wrap_width,
            (
                Grab::BoxHandle(_),
                GrabGeometry::Text { origin, .. },
                Moved::Wrapped { origin: after, .. },
            ) => after.1 == origin.1,
            _ => true,
        },
        match (manipulated(layer, m, cur, moved), layer, m.grab) {
            (Layer::Text(after), Layer::Text(t), Grab::Body) => after == (TextTool {
                origin: after.origin,
                ..t
            }),
            _ => true,
        },
{
}

/// A grab that does not fit the remembered geometry computes nothing.
pub proof fn a_mismatched_grab_does_nothing<N, S>(m: Manipulation<N, S>, cur: (N, N))
    requires
        match m.grab {
            Grab::Body => false,
            Grab::BoxHandle(_) => !(m.origin is Box) && !(m.origin is Text),
            Grab::Endpoint(_) => !(m.origin is Pair),
            Grab::NumberRadius => !(m.origin is Center),
        },
    ensures
        move_of(m, cur) == Move::<N, S>::Nothing,
{
}

/// Dragging one end of an arrow or a line leaves the other end where it is.
pub proof fn the_other_end_stays<N, S>(m: Manipulation<N, S>, cur: (N, N))
    requires
        m.origin is Pair,
        m.grab is Endpoint,
    ensures
        match (m.grab, m.origin) {
            (Grab::Endpoint(Endpoint::From), GrabGeometry::Pair { from, to }) => move_of(m, cur)
                == (Move::<N, S>::SetPair { from: cur, to }),
            (Grab::Endpoint(Endpoint::To), GrabGeometry::Pair { from, to }) => move_of(m, cur) == (
            Move::<N, S>::SetPair { from, to: cur }),
            _ => false,
        },
{
}

/// A drag changes where a layer is and how large it is, never what it is.
pub proof fn a_drag_keeps_the_kind<N, S>(layer: Layer<N, S>, moved: Moved<N, S>)
    ensures
        moved_layer(layer, moved).kind_of() == layer.kind_of(),
{
}

/// Handles are tried before the body: whatever handle of its kind the pointer is over, the body
/// is not what is grabbed.
pub proof fn handles_come_before_the_body(kind: ToolKind, hits: Hits)
    requires
        match kind {
            ToolKind::Rect
            | ToolKind::Ellipse
            | ToolKind::Highlight
            | ToolKind::Blur
            | ToolKind::Redact => hits.box_handle is Some,
            ToolKind::Arrow | ToolKind::Line => hits.from || hits.to,
            ToolKind::Number => hits.radius,
            ToolKind::Text => text_handle_hit(hits.text, 0) is Some,
            _ => false,
        },
    ensures
        grab_of(kind, hits) is Some,
        grab_of(kind, hits) != Some(Grab::Body),
{
}

/// The handles of a box lie on its edges.
pub proof fn handles_lie_on_the_box(r: Rect, handle: BoxHandle)
    ensures
        ({
            let (x, y) = handle_point(r, handle);
            &&& 2 * r.x <= x <= 2 * r.right_edge()
            &&& 2 * r.y <= y <= 2 * r.bottom_edge()
            &&& x == 2 * r.x || x == 2 * r.right_edge() || y == 2 * r.y || y == 2 * r.bottom_edge()
        }),
{
}

// ---- what is grabbed and what moves --------------------------------------------------------
proof fn lemma_text_handle_hit(text: [bool; 6], i: int)
    requires
        0 <= i <= 6,
    ensures
        match text_handle_hit(text, i) {
            Some(h) => exists|k: int|
                i <= k < 6 && #[trigger] text@[k] && text_handle_order()[k] == h && forall|j: int|
                    i <= j < k ==> !#[trigger] text@[j],
            None => forall|j: int| i <= j < 6 ==> !#[trigger] text@[j],
        },
    decreases 6 - i,
{
    if i < 6 && !text@[i] {
        lemma_text_handle_hit(text, i + 1);
    }
}

/// What is grabbed is something of the layer that the pointer is over, and nothing is grabbed
/// only where it is over nothing of it. The first end comes before the second, and of the handles
/// of a text the first one in their order is taken.
pub proof fn a_grab_is_under_the_pointer(kind: ToolKind, hits: Hits)
    requires
        kind != ToolKind::Crop && kind != ToolKind::Select,
    ensures
        ({
            let boxed = kind == ToolKind::Rect || kind == ToolKind::Ellipse || kind
                == ToolKind::Highlight || kind == ToolKind::Blur || kind == ToolKind::Redact;
            let line = kind == ToolKind::Arrow || kind == ToolKind::Line;
            match grab_of(kind, hits) {
                Some(Grab::Body) => hits.body,
                Some(Grab::BoxHandle(h)) => {
                    &&& boxed ==> hits.box_handle == Some(h)
                    &&& !boxed ==> kind == ToolKind::Text && exists|k: int|
                        0 <= k < 6 && #[trigger] hits.text@[k] && text_handle_order()[k] == h
                            && forall|j: int| 0 <= j < k ==> !#[trigger] hits.text@[j]
                },
                Some(Grab::Endpoint(Endpoint::From)) => line && hits.from,
                Some(Grab::Endpoint(Endpoint::To)) => line && hits.to && !hits.from,
                Some(Grab::NumberRadius) => kind == ToolKind::Number && hits.radius,
                None => {
                    &&& !hits.body
                    &&& boxed ==> hits.box_handle is None
                    &&& line ==> !hits.from && !hits.to
                    &&& kind == ToolKind::Number ==> !hits.radius
                    &&& kind == ToolKind::Text ==> forall|j: int|
                        0 <= j < 6 ==> !#[trigger] hits.text@[j]
                },
            }
        }),
{
    lemma_text_handle_hit(hits.text, 0);
}

/// The handles stand at the corners of a box and in the middle of its sides: north at the top,
/// south at the bottom, west on the left and east on the right. (In half pixels.)
pub proof fn handles_stand_where_they_are_named_for(r: Rect)
    ensures
        ({
            let at = |h: BoxHandle| handle_point(r, h);
            let (left, top, right, bottom) = (
                2 * r.x,
                2 * r.y,
                2 * (r.x + r.w),
                2 * (r.y + r.h),
            );
            &&& at(BoxHandle::NW).1 == top && at(BoxHandle::N).1 == top && at(BoxHandle::NE).1
                == top
            &&& at(BoxHandle::SW).1 == bottom && at(BoxHandle::S).1 == bottom && at(BoxHandle::SE).1
                == bottom
            &&& at(BoxHandle::NW).0 == left && at(BoxHandle::W).0 == left && at(BoxHandle::SW).0
                == left
            &&& at(BoxHandle::NE).0 == right && at(BoxHandle::E).0 == right && at(BoxHandle::SE).0
                == right
            &&& 2 * at(BoxHandle::N).0 == left + right && 2 * at(BoxHandle::S).0 == left + right
            &&& 2 * at(BoxHandle::W).1 == top + bottom && 2 * at(BoxHandle::E).1 == top + bottom
        }),
{
}

/// A text has handles at its four corners, and one on its left and one on its right side: the
/// corners scale it and the sides wrap it. No handle occurs twice.
pub proof fn a_text_has_corners_and_sides()
    ensures
        text_handle_order().len() == 6,
        forall|h: BoxHandle| #[trigger]
            text_handle_order().contains(h) <==> h != BoxHandle::N && h != BoxHandle::S,
        text_handle_order().no_duplicates(),
{
    let order = text_handle_order();
    assert(order[0] == BoxHandle::NW && order[1] == BoxHandle::NE && order[2] == BoxHandle::SE);
    assert(order[3] == BoxHandle::SW && order[4] == BoxHandle::E && order[5] == BoxHandle::W);
}

/// Opposite handles have the same cursor, and a handle on a side has the one of its direction.
pub proof fn cursors_tell_the_direction(h: BoxHandle)
    ensures
        handle_cursor(BoxHandle::NW) == "nwse-resize"@ && handle_cursor(BoxHandle::SE)
            == "nwse-resize"@,
        handle_cursor(BoxHandle::NE) == "nesw-resize"@ && handle_cursor(BoxHandle::SW)
            == "nesw-resize"@,
        handle_cursor(BoxHandle::N) == "ns-resize"@ && handle_cursor(BoxHandle::S)
            == "ns-resize"@,
        handle_cursor(BoxHandle::E) == "ew-resize"@ && handle_cursor(BoxHandle::W)
            == "ew-resize"@,
        grab_cursor_of(Grab::BoxHandle(h)) == handle_cursor(h),
        grab_cursor_of(Grab::Body) == "move"@,
{
}

/// A grab remembers the geometry of the layer: all that a drag of it may change but the points
/// of a freehand stroke.
pub proof fn a_grab_remembers_the_geometry<N, S>(
    layer: Layer<N, S>,
    text_bounds: Rect,
    zero: (N, N),
)
    ensures
        match geometry_of(layer, text_bounds, zero) {
            GrabGeometry::Box(b) => layer.box_of() == Some(b),
            GrabGeometry::Pair { from, to } => layer.ends_of() == Some((from, to)),
            GrabGeometry::Center { center, radius } => layer matches Layer::Number(t) && t.center
                == center && t.radius == radius,
            GrabGeometry::Text { origin, size_pt, wrap_width, bounds } => layer matches Layer::Text(
                t,
            ) && t.origin == origin && t.size_pt == size_pt && t.wrap_width == wrap_width && bounds
                == text_bounds,
            GrabGeometry::Origin(_) => layer is Freehand,
        },
{
}

/// A drag of a handle works on what was grabbed: the handle that was grabbed goes to the pointer,
/// from the box that the grab remembers. The side of a text goes to the pointer and the other
/// side stays.
pub proof fn a_handle_goes_to_the_pointer<N, S>(m: Manipulation<N, S>, cur: (N, N))
    requires
        m.grab is BoxHandle,
        m.origin matches GrabGeometry::Text { bounds, .. } ==> bounds.edges_fit(),
    ensures
        match (m.grab, m.origin) {
            (Grab::BoxHandle(h), GrabGeometry::Box(b)) => move_of(m, cur) matches Move::ResizeBox {
                bounds,
                handle,
                cur: at,
            } && bounds == b && handle == h && at == cur,
            (Grab::BoxHandle(h), GrabGeometry::Text { origin, size_pt, wrap_width, bounds: b }) => {
                &&& h == BoxHandle::W ==> (move_of(m, cur) matches Move::WrapText {
                    left: Edge::Pointer(l),
                    right: Edge::Pixel(r),
                    top,
                } && l == cur.0 && r == b.x + b.w && top == origin.1)
                &&& h == BoxHandle::E ==> (move_of(m, cur) matches Move::WrapText {
                    left: Edge::Pixel(l),
                    right: Edge::Pointer(r),
                    top,
                } && l == b.x && r == cur.0 && top == origin.1)
                &&& h != BoxHandle::W && h != BoxHandle::E ==> (move_of(
                    m,
                    cur,
                ) matches Move::ScaleText { bounds, handle, size_pt: size, wrap_width: wrap, cur: at }
                    && bounds == b && handle == h && size == size_pt && wrap == wrap_width && at
                    == cur)
            },
            _ => move_of(m, cur) is Nothing,
        },
{
}

/// A drag of a body shifts what the grab remembers as far as the pointer has gone since, and a
/// drag of a badge's grip measures from its center to the pointer.
pub proof fn a_body_goes_with_the_pointer<N, S>(m: Manipulation<N, S>, cur: (N, N))
    ensures
        m.grab is Body ==> match (m.origin, move_of(m, cur)) {
            (GrabGeometry::Box(b), Move::ShiftBox { bounds, start, cur: at }) => bounds == b
                && start == m.start && at == cur,
            (GrabGeometry::Pair { from: a, to: b }, Move::ShiftPair { from, to, start, cur: at }) =>
                from == a && to == b && start == m.start && at == cur,
            (
                GrabGeometry::Center { center: c, .. },
                Move::ShiftCenter { center, start, cur: at },
            ) => center == c && start == m.start && at == cur,
            (GrabGeometry::Text { origin: o, .. }, Move::ShiftText { origin, start, cur: at }) =>
                origin == o && start == m.start && at == cur,
            (GrabGeometry::Origin(_), Move::ShiftPoints { start, cur: at }) => start == m.last && at
                == cur,
            _ => false,
        },
        m.grab is NumberRadius && m.origin is Center ==> (move_of(m, cur) matches Move::SetRadius {
            center,
            cur: at,
        } && center == m.origin->Center_center && at == cur),
{
}

/// A layer is where it was moved to, and is otherwise what it was.
pub proof fn a_moved_layer_is_where_it_was_moved_to<N, S>(
    layer: Layer<N, S>,
    m: Manipulation<N, S>,
    cur: (N, N),
    moved: Moved<N, S>,
    text_bounds: Rect,
    zero: (N, N),
)
    requires
        m.origin == geometry_of(layer, text_bounds, zero),
        answers(move_of(m, cur), moved),
    ensures
        ({
            let after = manipulated(layer, m, cur, moved);
            &&& after.kind_of() == layer.kind_of() && after.color_of() == layer.color_of()
                && after.style_of() == layer.style_of()
            &&& layer.box_of() is Some && m.grab is Body ==> (after.box_of() matches Some(b)
                && moved matches Moved::Bounds(at) && b.x == at.x && b.y == at.y && b.w
                == layer.box_of()->0.w && b.h == layer.box_of()->0.h)
            &&& layer.box_of() is Some && m.grab is BoxHandle ==> (moved matches Moved::Bounds(b)
                && after.box_of() == Some(b))
            &&& layer.ends_of() is Some && m.grab is Body ==> (moved matches Moved::Pair { from, to }
                && after.ends_of() == Some((from, to)))
            &&& layer.ends_of() is Some && m.grab == Grab::Endpoint(Endpoint::From)
                ==> after.ends_of() == Some((cur, (layer.ends_of()->0).1))
            &&& layer.ends_of() is Some && m.grab == Grab::Endpoint(Endpoint::To)
                ==> after.ends_of() == Some(((layer.ends_of()->0).0, cur))
            &&& layer is Number && m.grab is Body ==> (moved matches Moved::Center(at)
                && after->Number_0 == (NumberTool { center: at, ..layer->Number_0 }))
            &&& layer is Number && m.grab is NumberRadius ==> (moved matches Moved::Radius(r)
                && after->Number_0 == (NumberTool { radius: r, ..layer->Number_0 }))
            &&& layer is Freehand && m.grab is Body ==> (moved matches Moved::Points(points)
                && after->Freehand_0 == (FreehandTool { points, ..layer->Freehand_0 }))
            &&& layer is Text && m.grab is Body ==> (moved matches Moved::Origin(at)
                && after->Text_0 == (TextTool { origin: at, ..layer->Text_0 }))
            &&& layer is Text ==> after->Text_0.text == layer->Text_0.text
        }),
{
}

/// A nudge asks for a shift of the layer's own geometry, and moves it and nothing else.
pub proof fn a_nudge_shifts_the_layer<N, S>(
    layer: Layer<N, S>,
    start: (N, N),
    cur: (N, N),
    moved: Moved<N, S>,
)
    requires
        answers(shift_of(layer, start, cur), moved),
    ensures
        match shift_of(layer, start, cur) {
            Move::ShiftBox { bounds, start: a, cur: b } => layer.box_of() == Some(bounds) && a
                == start && b == cur,
            Move::ShiftPair { from, to, start: a, cur: b } => layer.ends_of() == Some((from, to))
                && a == start && b == cur,
            Move::ShiftCenter { center, start: a, cur: b } => layer matches Layer::Number(t)
                && t.center == center && a == start && b == cur,
            Move::ShiftText { origin, start: a, cur: b } => layer matches Layer::Text(t) && t.origin
                == origin && a == start && b == cur,
            Move::ShiftPoints { start: a, cur: b } => layer is Freehand && a == start && b == cur,
            _ => false,
        },
        ({
            let after = shifted(layer, start, cur, moved);
            &&& after.kind_of() == layer.kind_of() && after.color_of() == layer.color_of()
                && after.style_of() == layer.style_of()
            &&& layer.box_of() matches Some(b) ==> (moved matches Moved::Bounds(at)
                && after.box_of() == Some(Rect { x: at.x, y: at.y, w: b.w, h: b.h }))
            &&& layer.ends_of() is Some ==> (moved matches Moved::Pair { from, to }
                && after.ends_of() == Some((from, to)))
        }),
{
}

/// Delete and Backspace delete, Escape deselects. An arrow key moves in its own direction, by
/// one pixel, and with Shift by ten.
pub proof fn arrow_keys_move_in_their_direction(key: Key, mods: Modifiers)
    requires
        !mods.control && !mods.alt && !mods.super_key,
    ensures
        ({
            let action = select_action_of(ToolKind::Select, key, mods, true);
            let step: i32 = if mods.shift {
                10
            } else {
                1
            };
            &&& action == SelectKeyAction::Delete <==> key.code == KEY_BACKSPACE || key.code
                == KEY_DELETE
            &&& action == SelectKeyAction::Deselect <==> key.code == KEY_ESCAPE
            &&& action is Nudge <==> key.code == KEY_LEFT || key.code == KEY_RIGHT || key.code
                == KEY_UP || key.code == KEY_DOWN
            &&& action matches SelectKeyAction::Nudge(dx, dy) ==> {
                &&& key.code == KEY_LEFT ==> dx == -step && dy == 0
                &&& key.code == KEY_RIGHT ==> dx == step && dy == 0
                &&& key.code == KEY_UP ==> dx == 0 && dy == -step
                &&& key.code == KEY_DOWN ==> dx == 0 && dy == step
            }
        }),
{
}

} // verus!
