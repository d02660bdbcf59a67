//! Annotation tools, the layers they leave behind, and the document that holds the layers.
//!
//! `N` is a document coordinate and `S` a color channel, a stroke width or a font size. Both
//! are real numbers to the program around the library, and only passed along here.

use vstd::prelude::*;

use crate::region::Rect;

verus! {

/// The tools of the toolbar.
#[derive(Clone, Copy, Debug, PartialEq, Eq, Hash, Structural)]
pub enum ToolKind {
    Select,
    Rect,
    Ellipse,
    Arrow,
    Line,
    Highlight,
    Freehand,
    Number,
    Text,
    Blur,
    Redact,
    Crop,
}

/// A font size that is asked for. No text is smaller than one point. Only whoever asks can
/// compare sizes, and tells along with the size whether it is below that.
#[derive(Clone, Copy, Debug, PartialEq)]
pub struct FontSize<S> {
    /// The size, in points.
    pub asked: S,
    /// One point.
    pub one: S,
    /// The size is below one point, or no number.
    pub below_one: bool,
}

impl<S: Copy> FontSize<S> {
    /// The size that a text gets.
    pub fn points(&self) -> (res: S)
        ensures
            res == self.raised(),
    {
        if self.below_one {
            self.one
        } else {
            self.asked
        }
    }
}

impl<S> FontSize<S> {
    /// The size, raised to one point where it is smaller.
    pub open spec fn raised(self) -> S {
        if self.below_one {
            self.one
        } else {
            self.asked
        }
    }
}

/// How an outline is dashed.
#[derive(Clone, Copy, Debug, PartialEq, Eq, Structural)]
pub enum StrokeStyle {
    Solid,
    Dashed,
    Dotted,
}

impl Default for StrokeStyle {
    fn default() -> (res: StrokeStyle)
        ensures
            res == StrokeStyle::Solid,
    {
        StrokeStyle::Solid
    }
}

/// The eight handles of a box, by compass direction.
#[derive(Clone, Copy, Debug, PartialEq, Eq, Structural)]
pub enum BoxHandle {
    NW,
    N,
    NE,
    E,
    SE,
    S,
    SW,
    W,
}

/// The two ends of an arrow or a line.
#[derive(Clone, Copy, Debug, PartialEq, Eq, Structural)]
pub enum Endpoint {
    From,
    To,
}

/// An outlined rectangle.
#[derive(Debug)]
pub struct RectTool<S> {
    pub bounds: Rect,
    pub stroke: [S; 4],
    pub stroke_width: S,
    pub stroke_style: StrokeStyle,
}

/// An outlined ellipse.
#[derive(Debug)]
pub struct EllipseTool<S> {
    pub bounds: Rect,
    pub stroke: [S; 4],
    pub stroke_width: S,
    pub stroke_style: StrokeStyle,
}

/// An arrow.
#[derive(Debug)]
pub struct ArrowTool<N, S> {
    pub from: (N, N),
    pub to: (N, N),
    pub stroke: [S; 4],
    pub stroke_width: S,
    pub stroke_style: StrokeStyle,
}

/// A straight line.
#[derive(Debug)]
pub struct LineTool<N, S> {
    pub from: (N, N),
    pub to: (N, N),
    pub stroke: [S; 4],
    pub stroke_width: S,
    pub stroke_style: StrokeStyle,
}

/// A line through many points.
#[derive(Debug)]
pub struct FreehandTool<N, S> {
    pub points: Vec<(N, N)>,
    pub stroke: [S; 4],
    pub stroke_width: S,
    pub stroke_style: StrokeStyle,
}

/// A filled rectangle of translucent color.
#[derive(Debug)]
pub struct HighlightTool<S> {
    pub bounds: Rect,
    pub color: [S; 4],
}

/// A blacked-out rectangle.
#[derive(Debug)]
pub struct RedactTool {
    pub bounds: Rect,
}

/// A numbered badge.
#[derive(Debug)]
pub struct NumberTool<N, S> {
    pub center: (N, N),
    pub value: u32,
    pub fill: [S; 4],
    pub text_color: [S; 4],
    pub radius: N,
}

/// A block of text.
#[derive(Debug)]
pub struct TextTool<N, S> {
    pub origin: (N, N),
    pub text: String,
    pub size_pt: S,
    pub color: [S; 4],
    /// Lines are wrapped at this width, where one is given.
    pub wrap_width: Option<N>,
    /// The measured size of the block.
    pub bounds_cache: (u32, u32),
}

/// A blurred rectangle, or a blur of everything but the rectangle.
#[derive(Debug)]
pub struct BlurTool<S> {
    pub bounds: Rect,
    pub radius: S,
    pub invert: bool,
}

/// A committed annotation.
#[derive(Debug)]
pub enum Layer<N, S> {
    Rect(RectTool<S>),
    Ellipse(EllipseTool<S>),
    Arrow(ArrowTool<N, S>),
    Line(LineTool<N, S>),
    Freehand(FreehandTool<N, S>),
    Highlight(HighlightTool<S>),
    Redact(RedactTool),
    Number(NumberTool<N, S>),
    Text(TextTool<N, S>),
    Blur(BlurTool<S>),
}

impl<N, S> Layer<N, S> {
    pub open spec fn kind_of(self) -> ToolKind {
        match self {
            Layer::Rect(_) => ToolKind::Rect,
            Layer::Ellipse(_) => ToolKind::Ellipse,
            Layer::Arrow(_) => ToolKind::Arrow,
            Layer::Line(_) => ToolKind::Line,
            Layer::Freehand(_) => ToolKind::Freehand,
            Layer::Highlight(_) => ToolKind::Highlight,
            Layer::Redact(_) => ToolKind::Redact,
            Layer::Number(_) => ToolKind::Number,
            Layer::Text(_) => ToolKind::Text,
            Layer::Blur(_) => ToolKind::Blur,
        }
    }

    /// The tool that made the layer.
    pub fn kind(&self) -> (res: ToolKind)
        ensures
            res == self.kind_of(),
    {
        match self {
            Layer::Rect(_) => ToolKind::Rect,
            Layer::Ellipse(_) => ToolKind::Ellipse,
            Layer::Arrow(_) => ToolKind::Arrow,
            Layer::Line(_) => ToolKind::Line,
            Layer::Freehand(_) => ToolKind::Freehand,
            Layer::Highlight(_) => ToolKind::Highlight,
            Layer::Redact(_) => ToolKind::Redact,
            Layer::Number(_) => ToolKind::Number,
            Layer::Text(_) => ToolKind::Text,
            Layer::Blur(_) => ToolKind::Blur,
        }
    }
}

// ---- properties of tools -------------------------------------------------------------------
pub open spec fn colorable(kind: ToolKind) -> bool {
    match kind {
        ToolKind::Rect
        | ToolKind::Ellipse
        | ToolKind::Arrow
        | ToolKind::Line
        | ToolKind::Highlight
        | ToolKind::Freehand
        | ToolKind::Number
        | ToolKind::Text => true,
        ToolKind::Select | ToolKind::Blur | ToolKind::Redact | ToolKind::Crop => false,
    }
}

pub open spec fn styleable(kind: ToolKind) -> bool {
    match kind {
        ToolKind::Rect
        | ToolKind::Ellipse
        | ToolKind::Arrow
        | ToolKind::Line
        | ToolKind::Freehand => true,
        _ => false,
    }
}

pub open spec fn sized(kind: ToolKind) -> bool {
    kind == ToolKind::Text
}

/// Tells whether layers of the tool have a color that the user picks.
pub fn kind_is_colorable(kind: ToolKind) -> (res: bool)
    ensures
        res == colorable(kind),
{
    match kind {
        ToolKind::Rect
        | ToolKind::Ellipse
        | ToolKind::Arrow
        | ToolKind::Line
        | ToolKind::Highlight
        | ToolKind::Freehand
        | ToolKind::Number
        | ToolKind::Text => true,
        ToolKind::Select | ToolKind::Blur | ToolKind::Redact | ToolKind::Crop => false,
    }
}

/// Tells whether layers of the tool have an outline that can be dashed.
pub fn kind_is_styleable(kind: ToolKind) -> (res: bool)
    ensures
        res == styleable(kind),
{
    match kind {
        ToolKind::Rect
        | ToolKind::Ellipse
        | ToolKind::Arrow
        | ToolKind::Line
        | ToolKind::Freehand => true,
        _ => false,
    }
}

/// Tells whether layers of the tool have a font size.
pub fn kind_has_font_size(kind: ToolKind) -> (res: bool)
    ensures
        res == sized(kind),
{
    match kind {
        ToolKind::Text => true,
        _ => false,
    }
}

/// Every tool whose outline can be dashed has a color, and a tool without a color has no font
/// size either.
pub proof fn only_colored_tools_have_other_settings(kind: ToolKind)
    ensures
        styleable(kind) ==> colorable(kind),
        sized(kind) ==> colorable(kind),
{
}

// ---- changing a layer ----------------------------------------------------------------------
/// The layer in another color. A layer without a color of its own stays as it is.
pub open spec fn recolored<N, S>(layer: Layer<N, S>, color: [S; 4]) -> Layer<N, S> {
    match layer {
        Layer::Rect(t) => Layer::Rect(RectTool { stroke: color, ..t }),
        Layer::Ellipse(t) => Layer::Ellipse(EllipseTool { stroke: color, ..t }),
        Layer::Arrow(t) => Layer::Arrow(ArrowTool { stroke: color, ..t }),
        Layer::Line(t) => Layer::Line(LineTool { stroke: color, ..t }),
        Layer::Freehand(t) => Layer::Freehand(FreehandTool { stroke: color, ..t }),
        Layer::Highlight(t) => Layer::Highlight(HighlightTool { color, ..t }),
        Layer::Number(t) => Layer::Number(NumberTool { fill: color, ..t }),
        Layer::Text(t) => Layer::Text(TextTool { color, ..t }),
        Layer::Redact(_) | Layer::Blur(_) => layer,
    }
}

/// Sets the color of a layer. `false` when it has none of its own.
pub fn set_layer_color<N, S>(layer: &mut Layer<N, S>, color: [S; 4]) -> (res: bool)
    ensures
        res == colorable(old(layer).kind_of()),
        *final(layer) == recolored(*old(layer), color),
{
    match layer {
        Layer::Rect(t) => {
            t.stroke = color;
        },
        Layer::Ellipse(t) => {
            t.stroke = color;
        },
        Layer::Arrow(t) => {
            t.stroke = color;
        },
        Layer::Line(t) => {
            t.stroke = color;
        },
        Layer::Freehand(t) => {
            t.stroke = color;
        },
        Layer::Highlight(t) => {
            t.color = color;
        },
        Layer::Number(t) => {
            t.fill = color;
        },
        Layer::Text(t) => {
            t.color = color;
        },
        Layer::Redact(_) | Layer::Blur(_) => {
            return false;
        },
    }
    true
}

/// The layer in another stroke style. A layer without an outline stays as it is.
pub open spec fn restyled<N, S>(layer: Layer<N, S>, style: StrokeStyle) -> Layer<N, S> {
    match layer {
        Layer::Rect(t) => Layer::Rect(RectTool { stroke_style: style, ..t }),
        Layer::Ellipse(t) => Layer::Ellipse(EllipseTool { stroke_style: style, ..t }),
        Layer::Arrow(t) => Layer::Arrow(ArrowTool { stroke_style: style, ..t }),
        Layer::Line(t) => Layer::Line(LineTool { stroke_style: style, ..t }),
        Layer::Freehand(t) => Layer::Freehand(FreehandTool { stroke_style: style, ..t }),
        _ => layer,
    }
}

/// Sets the stroke style of a layer. `false` when it has no outline.
pub fn set_layer_style<N, S>(layer: &mut Layer<N, S>, style: StrokeStyle) -> (res: bool)
    ensures
        res == styleable(old(layer).kind_of()),
        *final(layer) == restyled(*old(layer), style),
{
    match layer {
        Layer::Rect(t) => {
            t.stroke_style = style;
        },
        Layer::Ellipse(t) => {
            t.stroke_style = style;
        },
        Layer::Arrow(t) => {
            t.stroke_style = style;
        },
        Layer::Line(t) => {
            t.stroke_style = style;
        },
        Layer::Freehand(t) => {
            t.stroke_style = style;
        },
        _ => {
            return false;
        },
    }
    true
}

/// The layer with other bounds. A layer that is not given by a box stays as it is.
pub open spec fn rebounded<N, S>(layer: Layer<N, S>, bounds: Rect) -> Layer<N, S> {
    match layer {
        Layer::Rect(t) => Layer::Rect(RectTool { bounds, ..t }),
        Layer::Ellipse(t) => Layer::Ellipse(EllipseTool { bounds, ..t }),
        Layer::Highlight(t) => Layer::Highlight(HighlightTool { bounds, ..t }),
        Layer::Blur(t) => Layer::Blur(BlurTool { bounds, ..t }),
        Layer::Redact(_) => Layer::Redact(RedactTool { bounds }),
        _ => layer,
    }
}

/// Sets the bounds of a layer that is given by a box.
pub fn set_box_bounds<N, S>(layer: &mut Layer<N, S>, bounds: Rect)
    ensures
        *final(layer) == rebounded(*old(layer), bounds),
{
    match layer {
        Layer::Rect(t) => {
            t.bounds = bounds;
        },
        Layer::Ellipse(t) => {
            t.bounds = bounds;
        },
        Layer::Highlight(t) => {
            t.bounds = bounds;
        },
        Layer::Blur(t) => {
            t.bounds = bounds;
        },
        Layer::Redact(t) => {
            t.bounds = bounds;
        },
        _ => {},
    }
}

/// The layer with other ends. A layer that is not given by two ends stays as it is.
pub open spec fn reended<N, S>(layer: Layer<N, S>, from: (N, N), to: (N, N)) -> Layer<N, S> {
    match layer {
        Layer::Arrow(t) => Layer::Arrow(ArrowTool { from, to, ..t }),
        Layer::Line(t) => Layer::Line(LineTool { from, to, ..t }),
        _ => layer,
    }
}

/// Sets both ends of a layer that is given by two ends.
pub fn set_pair<N, S>(layer: &mut Layer<N, S>, from: (N, N), to: (N, N))
    ensures
        *final(layer) == reended(*old(layer), from, to),
{
    match layer {
        Layer::Arrow(t) => {
            t.from = from;
            t.to = to;
        },
        Layer::Line(t) => {
            t.from = from;
            t.to = to;
        },
        _ => {},
    }
}

// ---- the document --------------------------------------------------------------------------
/// The picture under the annotations, in RGBA rows of `stride` bytes.
#[derive(Debug)]
pub struct DocumentBase {
    pub width: u32,
    pub height: u32,
    pub stride: u32,
    pub pixels: Vec<u8>,
}

/// A picture with its annotations, bottom to top.
#[derive(Debug)]
pub struct Document<N, S> {
    pub base: Option<DocumentBase>,
    pub size: (u32, u32),
    pub layers: Vec<Layer<N, S>>,
    /// The part that is exported, if not all of it.
    pub crop: Option<Rect>,
}

/// The contents of a [`Document`].
#[verifier::ext_equal]
pub struct DocumentView<N, S> {
    pub base: Option<DocumentBase>,
    pub size: (u32, u32),
    pub layers: Seq<Layer<N, S>>,
    pub crop: Option<Rect>,
}

impl<N, S> View for Document<N, S> {
    type V = DocumentView<N, S>;

    open spec fn view(&self) -> DocumentView<N, S> {
        DocumentView {
            base: self.base,
            size: self.size,
            layers: self.layers@,
            crop: self.crop,
        }
    }
}

impl<N, S> DocumentView<N, S> {
    /// A document of that size without a picture.
    pub open spec fn blank(size: (u32, u32)) -> DocumentView<N, S> {
        DocumentView { base: None, size, layers: Seq::empty(), crop: None }
    }

    /// A document of just the picture.
    pub open spec fn pictured(base: DocumentBase) -> DocumentView<N, S> {
        DocumentView {
            base: Some(base),
            size: (base.width, base.height),
            layers: Seq::empty(),
            crop: None,
        }
    }

    /// What is exported: the crop, or all of the document.
    pub open spec fn exported(self) -> Rect {
        match self.crop {
            Some(r) => r,
            None => Rect { x: 0, y: 0, w: self.size.0, h: self.size.1 },
        }
    }

    /// One more layer on top.
    pub open spec fn with_layer(self, layer: Layer<N, S>) -> DocumentView<N, S> {
        DocumentView { layers: self.layers.push(layer), ..self }
    }
}

impl<N, S> Document<N, S> {
    /// A document of that size without a picture.
    pub fn empty(size: (u32, u32)) -> (res: Document<N, S>)
        ensures
            res@ == DocumentView::<N, S>::blank(size),
    {
        Document { base: None, size, layers: Vec::new(), crop: None }
    }

    /// A document of just the picture.
    pub fn with_base(base: DocumentBase) -> (res: Document<N, S>)
        ensures
            res@ == DocumentView::<N, S>::pictured(base),
    {
        let size = (base.width, base.height);
        Document { base: Some(base), size, layers: Vec::new(), crop: None }
    }

    /// What is exported: the crop, or all of the document.
    pub fn bounds(&self) -> (res: Rect)
        ensures
            res == self@.exported(),
    {
        match self.crop {
            Some(r) => r,
            None => Rect { x: 0, y: 0, w: self.size.0, h: self.size.1 },
        }
    }

    /// The layer at an index, counted from the bottom.
    pub fn layer(&self, i: usize) -> (res: Option<&Layer<N, S>>)
        ensures
            match res {
                Some(l) => i < self@.layers.len() && *l == self@.layers[i as int],
                None => i >= self@.layers.len(),
            },
    {
        if i < self.layers.len() {
            Some(&self.layers[i])
        } else {
            None
        }
    }

    /// Puts a layer on top.
    pub fn push_layer(&mut self, layer: Layer<N, S>)
        ensures
            final(self)@ == old(self)@.with_layer(layer),
    {
        self.layers.push(layer);
    }

    /// Takes the top layer off. `None` when there is none.
    pub fn pop_layer(&mut self) -> (res: Option<Layer<N, S>>)
        ensures
            old(self)@.layers.len() == 0 ==> res is None && final(self)@ == old(self)@,
            old(self)@.layers.len() > 0 ==> {
                &&& res == Some(old(self)@.layers.last())
                &&& final(self)@ == (DocumentView {
                    layers: old(self)@.layers.drop_last(),
                    ..old(self)@
                })
            },
    {
        self.layers.pop()
    }

    /// Takes the layer at an index out. `None` when there is no such layer.
    pub fn remove_layer(&mut self, i: usize) -> (res: Option<Layer<N, S>>)
        ensures
            i >= old(self)@.layers.len() ==> res is None && final(self)@ == old(self)@,
            i < old(self)@.layers.len() ==> {
                &&& res == Some(old(self)@.layers[i as int])
                &&& final(self)@ == (DocumentView {
                    layers: old(self)@.layers.remove(i as int),
                    ..old(self)@
                })
            },
    {
        if i < self.layers.len() {
            Some(self.layers.remove(i))
        } else {
            None
        }
    }
}

// ---- values kept per tool ------------------------------------------------------------------
/// A value for some of the tools, no tool twice.
#[derive(Debug)]
pub struct ToolTable<V> {
    entries: Vec<(ToolKind, V)>,
}

impl<V> ToolTable<V> {
    /// No tool occurs twice.
    pub closed spec fn wf(self) -> bool {
        no_tool_twice(self.entries@)
    }

    /// The values by tool.
    pub closed spec fn view(&self) -> Map<ToolKind, V> {
        entries_map(self.entries@)
    }

    /// A table without values.
    pub fn new() -> (res: ToolTable<V>)
        ensures
            res.wf(),
            res.view() == Map::<ToolKind, V>::empty(),
    {
        ToolTable { entries: Vec::new() }
    }

    /// The value of a tool.
    pub fn get(&self, kind: ToolKind) -> (res: Option<&V>)
        requires
            self.wf(),
        ensures
            match res {
                Some(v) => self.view().dom().contains(kind) && self.view()[kind] == *v,
                None => !self.view().dom().contains(kind),
            },
    {
        let mut i: usize = 0;
        while i < self.entries.len()
            invariant
                i <= self.entries@.len(),
                self.wf(),
                forall|j: int| 0 <= j < i ==> (#[trigger] self.entries@[j]).0 != kind,
            decreases self.entries@.len() - i,
        {
            if self.entries[i].0 == kind {
                proof {
                    lemma_entry(self.entries@, i as int);
                }
                return Some(&self.entries[i].1);
            }
            i += 1;
        }
        proof {
            lemma_no_entry(self.entries@, kind);
        }
        None
    }

    /// Gives a tool a value, in place of the one it had.
    pub fn insert(&mut self, kind: ToolKind, v: V)
        requires
            old(self).wf(),
        ensures
            final(self).wf(),
            final(self).view() == old(self).view().insert(kind, v),
    {
        let ghost before = self.entries@;
        let mut i: usize = 0;
        while i < self.entries.len()
            invariant
                i <= self.entries@.len(),
                before == self.entries@,
                old(self).entries@ == before,
                old(self).wf(),
                self.wf(),
                forall|j: int| 0 <= j < i ==> (#[trigger] before[j]).0 != kind,
            decreases self.entries@.len() - i,
        {
            if self.entries[i].0 == kind {
                self.entries.set(i, (kind, v));
                proof {
                    lemma_update_entry(before, i as int, v);
                }
                return;
            }
            i += 1;
        }
        self.entries.push((kind, v));
        proof {
            assert(self.entries@.drop_last() =~= before);
        }
    }
}

spec fn entries_map<V>(entries: Seq<(ToolKind, V)>) -> Map<ToolKind, V>
    decreases entries.len(),
{
    if entries.len() == 0 {
        Map::empty()
    } else {
        entries_map(entries.drop_last()).insert(entries.last().0, entries.last().1)
    }
}

spec fn no_tool_twice<V>(entries: Seq<(ToolKind, V)>) -> bool {
    forall|i: int, j: int|
        #![trigger entries[i], entries[j]]
        0 <= i < j < entries.len() ==> entries[i].0 != entries[j].0
}

proof fn lemma_entry<V>(entries: Seq<(ToolKind, V)>, i: int)
    requires
        no_tool_twice(entries),
        0 <= i < entries.len(),
    ensures
        entries_map(entries).dom().contains(entries[i].0),
        entries_map(entries)[entries[i].0] == entries[i].1,
    decreases entries.len(),
{
    if i < entries.len() - 1 {
        assert forall|a: int, b: int|
            #![trigger entries.drop_last()[a], entries.drop_last()[b]]
            0 <= a < b < entries.drop_last().len() implies entries.drop_last()[a].0
            != entries.drop_last()[b].0 by {
            assert(entries[a].0 != entries[b].0);
        }
        lemma_entry(entries.drop_last(), i);
        assert(entries[i].0 != entries[entries.len() - 1].0);
    }
}

proof fn lemma_no_entry<V>(entries: Seq<(ToolKind, V)>, kind: ToolKind)
    requires
        forall|j: int| 0 <= j < entries.len() ==> (#[trigger] entries[j]).0 != kind,
    ensures
        !entries_map(entries).dom().contains(kind),
    decreases entries.len(),
{
    if entries.len() > 0 {
        assert forall|j: int| 0 <= j < entries.drop_last().len() implies (
        #[trigger] entries.drop_last()[j]).0 != kind by {
            assert(entries[j].0 != kind);
        }
        lemma_no_entry(entries.drop_last(), kind);
        assert(entries[entries.len() - 1].0 != kind);
    }
}

proof fn lemma_update_entry<V>(entries: Seq<(ToolKind, V)>, i: int, v: V)
    requires
        no_tool_twice(entries),
        0 <= i < entries.len(),
    ensures
        entries_map(entries.update(i, (entries[i].0, v))) == entries_map(entries).insert(
            entries[i].0,
            v,
        ),
        no_tool_twice(entries.update(i, (entries[i].0, v))),
    decreases entries.len(),
{
    let after = entries.update(i, (entries[i].0, v));
    assert forall|a: int, b: int|
        #![trigger after[a], after[b]]
        0 <= a < b < after.len() implies after[a].0 != after[b].0 by {
        assert(entries[a].0 != entries[b].0);
    }
    let n = entries.len() - 1;
    if i < n {
        let front = entries.drop_last();
        assert forall|a: int, b: int|
            #![trigger front[a], front[b]]
            0 <= a < b < front.len() implies front[a].0 != front[b].0 by {
            assert(entries[a].0 != entries[b].0);
        }
        lemma_update_entry(front, i, v);
        assert(after.drop_last() =~= front.update(i, (front[i].0, v)));
        assert(entries[i].0 != entries[n].0);
        assert(entries_map(after) =~= entries_map(entries).insert(entries[i].0, v));
    } else {
        assert(after.drop_last() =~= entries.drop_last());
        assert(entries_map(after) =~= entries_map(entries).insert(entries[i].0, v));
    }
}

// ---- what a layer is -----------------------------------------------------------------------
impl<N, S> Layer<N, S> {
    /// The box of a layer that is given by one.
    pub open spec fn box_of(self) -> Option<Rect> {
        match self {
            Layer::Rect(t) => Some(t.bounds),
            Layer::Ellipse(t) => Some(t.bounds),
            Layer::Highlight(t) => Some(t.bounds),
            Layer::Redact(t) => Some(t.bounds),
            Layer::Blur(t) => Some(t.bounds),
            _ => None,
        }
    }

    /// The two ends of a layer that is given by them.
    pub open spec fn ends_of(self) -> Option<((N, N), (N, N))> {
        match self {
            Layer::Arrow(t) => Some((t.from, t.to)),
            Layer::Line(t) => Some((t.from, t.to)),
            _ => None,
        }
    }

    /// The color of a layer that has one.
    pub open spec fn color_of(self) -> Option<[S; 4]> {
        match self {
            Layer::Rect(t) => Some(t.stroke),
            Layer::Ellipse(t) => Some(t.stroke),
            Layer::Arrow(t) => Some(t.stroke),
            Layer::Line(t) => Some(t.stroke),
            Layer::Freehand(t) => Some(t.stroke),
            Layer::Highlight(t) => Some(t.color),
            Layer::Number(t) => Some(t.fill),
            Layer::Text(t) => Some(t.color),
            Layer::Redact(_) | Layer::Blur(_) => None,
        }
    }

    /// The stroke style of a layer that has one.
    pub open spec fn style_of(self) -> Option<StrokeStyle> {
        match self {
            Layer::Rect(t) => Some(t.stroke_style),
            Layer::Ellipse(t) => Some(t.stroke_style),
            Layer::Arrow(t) => Some(t.stroke_style),
            Layer::Line(t) => Some(t.stroke_style),
            Layer::Freehand(t) => Some(t.stroke_style),
            _ => None,
        }
    }
}

/// The kind of a layer is the tool that draws such layers.
pub proof fn a_layer_is_of_the_tool_that_draws_it<N, S>(layer: Layer<N, S>)
    ensures
        layer.kind_of() == ToolKind::Rect <==> layer is Rect,
        layer.kind_of() == ToolKind::Ellipse <==> layer is Ellipse,
        layer.kind_of() == ToolKind::Arrow <==> layer is Arrow,
        layer.kind_of() == ToolKind::Line <==> layer is Line,
        layer.kind_of() == ToolKind::Freehand <==> layer is Freehand,
        layer.kind_of() == ToolKind::Highlight <==> layer is Highlight,
        layer.kind_of() == ToolKind::Redact <==> layer is Redact,
        layer.kind_of() == ToolKind::Number <==> layer is Number,
        layer.kind_of() == ToolKind::Text <==> layer is Text,
        layer.kind_of() == ToolKind::Blur <==> layer is Blur,
{
}

/// The tools that have a color are those whose layers show one; Select, Crop, Blur and Redact
/// have none. Likewise the stroke style, and the font size is that of text.
pub proof fn a_tool_offers_what_its_layers_show<N, S>(layer: Layer<N, S>)
    ensures
        colorable(layer.kind_of()) <==> layer.color_of() is Some,
        styleable(layer.kind_of()) <==> layer.style_of() is Some,
        sized(layer.kind_of()) <==> layer is Text,
        !colorable(ToolKind::Select) && !colorable(ToolKind::Crop),
        !styleable(ToolKind::Select) && !styleable(ToolKind::Crop),
        !sized(ToolKind::Select) && !sized(ToolKind::Crop),
{
}

/// A new color shows on every layer that has a color, and changes nothing else: the old color
/// gives the layer back.
pub proof fn a_new_color_changes_the_color_alone<N, S>(layer: Layer<N, S>, color: [S; 4])
    ensures
        match layer.color_of() {
            Some(old_color) => recolored(layer, color).color_of() == Some(color) && recolored(
                recolored(layer, color),
                old_color,
            ) == layer,
            None => recolored(layer, color) == layer,
        },
        recolored(layer, color).box_of() == layer.box_of(),
        recolored(layer, color).ends_of() == layer.ends_of(),
        recolored(layer, color).style_of() == layer.style_of(),
{
}

/// A new stroke style shows on every layer that has one, and changes nothing else.
pub proof fn a_new_style_changes_the_style_alone<N, S>(layer: Layer<N, S>, style: StrokeStyle)
    ensures
        match layer.style_of() {
            Some(old_style) => restyled(layer, style).style_of() == Some(style) && restyled(
                restyled(layer, style),
                old_style,
            ) == layer,
            None => restyled(layer, style) == layer,
        },
        restyled(layer, style).box_of() == layer.box_of(),
        restyled(layer, style).ends_of() == layer.ends_of(),
        restyled(layer, style).color_of() == layer.color_of(),
{
}

/// A layer given by a box takes the new box and keeps all else, and so do two new ends.
pub proof fn new_geometry_changes_the_geometry_alone<N, S>(
    layer: Layer<N, S>,
    bounds: Rect,
    from: (N, N),
    to: (N, N),
)
    ensures
        match layer.box_of() {
            Some(old_box) => rebounded(layer, bounds).box_of() == Some(bounds) && rebounded(
                rebounded(layer, bounds),
                old_box,
            ) == layer,
            None => rebounded(layer, bounds) == layer,
        },
        rebounded(layer, bounds).color_of() == layer.color_of(),
        rebounded(layer, bounds).style_of() == layer.style_of(),
        match layer.ends_of() {
            Some(ends) => reended(layer, from, to).ends_of() == Some((from, to)) && reended(
                reended(layer, from, to),
                ends.0,
                ends.1,
            ) == layer,
            None => reended(layer, from, to) == layer,
        },
        reended(layer, from, to).color_of() == layer.color_of(),
        reended(layer, from, to).style_of() == layer.style_of(),
{
}

/// Without a crop all of the document is exported and nothing beside it, with one exactly the
/// crop. A new document, with or without a picture, has no layers and no crop.
pub proof fn the_crop_decides_what_is_exported<N, S>(d: DocumentView<N, S>, px: int, py: int)
    ensures
        match d.crop {
            Some(crop) => d.exported().covers(px, py) <==> crop.x <= px < crop.x + crop.w && crop.y
                <= py < crop.y + crop.h,
            None => d.exported().covers(px, py) <==> 0 <= px < d.size.0 && 0 <= py < d.size.1,
        },
        ({
            let blank = DocumentView::<N, S>::blank(d.size);
            blank.size == d.size && blank.base is None && blank.layers.len() == 0 && blank.crop
                is None
        }),
        d.base matches Some(base) ==> ({
            let pictured = DocumentView::<N, S>::pictured(base);
            &&& pictured.base == d.base && pictured.layers.len() == 0 && pictured.crop is None
            &&& pictured.size.0 == base.width && pictured.size.1 == base.height
        }),
{
}

/// A new layer lies on top of all the others, which stay as they are.
pub proof fn a_new_layer_lies_on_top<N, S>(d: DocumentView<N, S>, layer: Layer<N, S>)
    ensures
        ({
            let after = d.with_layer(layer);
            &&& after.layers.len() == d.layers.len() + 1
            &&& after.layers.last() == layer
            &&& forall|i: int| 0 <= i < d.layers.len() ==> after.layers[i] == d.layers[i]
            &&& after.base == d.base && after.size == d.size && after.crop == d.crop
        }),
{
}

/// A font size is what was asked for, but never below one point.
pub proof fn a_font_size_is_never_below_a_point<S>(size: FontSize<S>)
    ensures
        size.below_one ==> size.raised() == size.one,
        !size.below_one ==> size.raised() == size.asked,
{
}

} // verus!
