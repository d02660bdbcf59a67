//! The annotation canvas: its document, the tool in use, and what drags, clicks and keys do.
//!
//! The canvas is a state. Each event changes it and returns the [`Effects`] that the widget
//! around it owes: drawing again, telling the toolbar, starting the caret timer. Where an event
//! depends on real-number geometry or on measured text, the widget hands in the result.

use vstd::prelude::*;
use vstd::utf8::*;

use crate::region::Rect;
use crate::ui::select::Manipulation;
use crate::ui::text_edit::PendingText;
use crate::ui::tools::{
    set_layer_color, set_layer_style, Document, DocumentBase, FontSize, Layer, StrokeStyle,
    TextTool, ToolKind, ToolTable,
};

verus! {

use crate::ui::tools::{colorable, recolored, restyled, styleable, DocumentView};

// ---- what the widget owes ------------------------------------------------------------------
/// What the caret timer has to do.
#[derive(Clone, Copy, Debug, PartialEq, Eq, Structural)]
pub enum Blink {
    Keep,
    Start,
    Stop,
}

/// What the widget has to do after an event.
#[derive(Clone, Copy, Debug, PartialEq, Eq, Structural)]
pub struct Effects {
    /// Draw again.
    pub redraw: bool,
    /// Ask for another size.
    pub resize: bool,
    /// Tell that a drawing action is finished, so that Select can take over.
    pub commit: bool,
    /// Tell that the selection or the text edit has changed.
    pub ui_state: bool,
    /// Take the keyboard focus.
    pub focus: bool,
    pub blink: Blink,
}

impl Effects {
    pub open spec fn nothing() -> Effects {
        Effects {
            redraw: false,
            resize: false,
            commit: false,
            ui_state: false,
            focus: false,
            blink: Blink::Keep,
        }
    }

    pub open spec fn drawing() -> Effects {
        Effects { redraw: true, ..Effects::nothing() }
    }

    /// Nothing to do.
    pub fn none() -> (res: Effects)
        ensures
            res == Effects::nothing(),
    {
        Effects {
            redraw: false,
            resize: false,
            commit: false,
            ui_state: false,
            focus: false,
            blink: Blink::Keep,
        }
    }

    /// Draw again, and nothing else.
    pub fn redraw() -> (res: Effects)
        ensures
            res == Effects::drawing(),
    {
        Effects {
            redraw: true,
            resize: false,
            commit: false,
            ui_state: false,
            focus: false,
            blink: Blink::Keep,
        }
    }
}

// ---- state ---------------------------------------------------------------------------------
/// A color per tool that has one.
#[derive(Clone, Copy, Debug)]
pub struct AnnotateColors<S> {
    pub rect: [S; 4],
    pub ellipse: [S; 4],
    pub arrow: [S; 4],
    pub line: [S; 4],
    pub freehand: [S; 4],
    pub highlight: [S; 4],
    pub number: [S; 4],
    pub text: [S; 4],
}

/// How layers look where nothing else was chosen.
#[derive(Clone, Copy, Debug)]
pub struct Look<N, S> {
    /// Outlines of boxes, and of everything that is drawn as a line.
    pub box_stroke: [S; 4],
    pub line_stroke: [S; 4],
    pub box_width: S,
    pub line_width: S,
    pub highlight: [S; 4],
    pub number_fill: [S; 4],
    pub number_text: [S; 4],
    pub number_radius: N,
    pub text_color: [S; 4],
    pub font_size: S,
    pub blur_radius: S,
    /// Previews of tools without a color of their own.
    pub redact_preview: [S; 4],
    pub crop_preview: [S; 4],
    pub blur_preview: [S; 4],
    pub other_preview: [S; 4],
    /// The coordinate zero.
    pub zero: N,
}

/// A drag that is not yet a layer.
#[derive(Debug)]
pub struct PendingStroke<N, S> {
    pub kind: ToolKind,
    pub from: (N, N),
    pub to: (N, N),
    /// The points of a freehand stroke.
    pub points: Vec<(N, N)>,
    pub color: [S; 4],
    pub style: StrokeStyle,
    /// Blur everything but the rectangle. Set when the drag begins.
    pub invert: bool,
    /// Make a square of a rectangle. Follows the Shift key during the drag.
    pub constrain: bool,
}

/// The contents of a [`PendingStroke`].
#[verifier::ext_equal]
pub struct StrokeView<N, S> {
    pub kind: ToolKind,
    pub from: (N, N),
    pub to: (N, N),
    pub points: Seq<(N, N)>,
    pub color: [S; 4],
    pub style: StrokeStyle,
    pub invert: bool,
    pub constrain: bool,
}

impl<N, S> View for PendingStroke<N, S> {
    type V = StrokeView<N, S>;

    open spec fn view(&self) -> StrokeView<N, S> {
        StrokeView {
            kind: self.kind,
            from: self.from,
            to: self.to,
            points: self.points@,
            color: self.color,
            style: self.style,
            invert: self.invert,
            constrain: self.constrain,
        }
    }
}

/// The annotation canvas.
#[derive(Debug)]
pub struct AnnotationCanvas<N, S> {
    pub doc: Option<Document<N, S>>,
    pub current_tool: ToolKind,
    pub pending: Option<PendingStroke<N, S>>,
    pub pending_text: Option<PendingText<N, S>>,
    /// The number of the next badge.
    pub next_number: u32,
    pub transparent_background: bool,
    /// The picture is there to be blurred, not to be shown.
    pub hidden_base: bool,
    pub tool_colors: ToolTable<[S; 4]>,
    pub tool_styles: ToolTable<StrokeStyle>,
    pub tool_font_sizes: ToolTable<S>,
    /// The index of the selected layer. There may be no such layer any more.
    pub selection: Option<usize>,
    pub manip: Option<Manipulation<N, S>>,
    /// The text layer that is being edited again, as it was.
    pub reedit_restore: Option<TextTool<N, S>>,
    pub hover_cursor: Option<&'static str>,
    pub look: Look<N, S>,
}

/// The contents of an [`AnnotationCanvas`].
#[verifier::ext_equal]
pub struct CanvasView<N, S> {
    pub doc: Option<DocumentView<N, S>>,
    pub tool: ToolKind,
    pub pending: Option<StrokeView<N, S>>,
    pub text: Option<PendingText<N, S>>,
    pub next_number: u32,
    pub transparent: bool,
    pub hidden_base: bool,
    pub colors: Map<ToolKind, [S; 4]>,
    pub styles: Map<ToolKind, StrokeStyle>,
    pub font_sizes: Map<ToolKind, S>,
    pub selection: Option<usize>,
    pub manip: Option<Manipulation<N, S>>,
    pub reedit: Option<TextTool<N, S>>,
    pub hover: Option<Seq<char>>,
    pub look: Look<N, S>,
}

pub open spec fn doc_view<N, S>(doc: Option<Document<N, S>>) -> Option<DocumentView<N, S>> {
    match doc {
        Some(d) => Some(d@),
        None => None,
    }
}

pub open spec fn stroke_view<N, S>(p: Option<PendingStroke<N, S>>) -> Option<StrokeView<N, S>> {
    match p {
        Some(s) => Some(s@),
        None => None,
    }
}

pub open spec fn name_view(name: Option<&'static str>) -> Option<Seq<char>> {
    match name {
        Some(n) => Some(n@),
        None => None,
    }
}

impl<N, S> View for AnnotationCanvas<N, S> {
    type V = CanvasView<N, S>;

    open spec fn view(&self) -> CanvasView<N, S> {
        CanvasView {
            doc: doc_view(self.doc),
            tool: self.current_tool,
            pending: stroke_view(self.pending),
            text: self.pending_text,
            next_number: self.next_number,
            transparent: self.transparent_background,
            hidden_base: self.hidden_base,
            colors: self.tool_colors@,
            styles: self.tool_styles@,
            font_sizes: self.tool_font_sizes@,
            selection: self.selection,
            manip: self.manip,
            reedit: self.reedit_restore,
            hover: name_view(self.hover_cursor),
            look: self.look,
        }
    }
}

impl<N, S> AnnotationCanvas<N, S> {
    /// The caret of a text edit lies between two characters, and a layer is kept for restoring
    /// only while a text edit is going on.
    pub open spec fn wf(self) -> bool {
        &&& self.tool_colors.wf()
        &&& self.tool_styles.wf()
        &&& self.tool_font_sizes.wf()
        &&& self.pending_text matches Some(pt) ==> pt.wf()
        &&& self.reedit_restore is Some ==> self.pending_text is Some
    }
}

/// The table with the colors of `colors`.
pub open spec fn with_colors<S>(
    table: Map<ToolKind, [S; 4]>,
    colors: AnnotateColors<S>,
) -> Map<ToolKind, [S; 4]> {
    table.insert(ToolKind::Rect, colors.rect).insert(ToolKind::Ellipse, colors.ellipse).insert(
        ToolKind::Arrow,
        colors.arrow,
    ).insert(ToolKind::Line, colors.line).insert(ToolKind::Freehand, colors.freehand).insert(
        ToolKind::Highlight,
        colors.highlight,
    ).insert(ToolKind::Number, colors.number).insert(ToolKind::Text, colors.text)
}

/// Solid outlines for every tool that has outlines.
pub open spec fn solid_styles() -> Map<ToolKind, StrokeStyle> {
    Map::empty().insert(ToolKind::Rect, StrokeStyle::Solid).insert(
        ToolKind::Ellipse,
        StrokeStyle::Solid,
    ).insert(ToolKind::Arrow, StrokeStyle::Solid).insert(ToolKind::Line, StrokeStyle::Solid).insert(
        ToolKind::Freehand,
        StrokeStyle::Solid,
    )
}

/// A canvas without a document.
pub open spec fn fresh_canvas<N, S>(look: Look<N, S>, colors: AnnotateColors<S>) -> CanvasView<
    N,
    S,
> {
    CanvasView {
        doc: None,
        tool: ToolKind::Rect,
        pending: None,
        text: None,
        next_number: 1,
        transparent: false,
        hidden_base: false,
        colors: with_colors(Map::empty(), colors),
        styles: solid_styles(),
        font_sizes: Map::empty().insert(ToolKind::Text, look.font_size),
        selection: None,
        manip: None,
        reedit: None,
        hover: None,
        look,
    }
}

/// The value of a table, if it has one.
pub open spec fn lookup<V>(table: Map<ToolKind, V>, kind: ToolKind) -> Option<V> {
    if table.dom().contains(kind) {
        Some(table[kind])
    } else {
        None
    }
}

/// The value of a table, or another one.
pub open spec fn lookup_or<V>(table: Map<ToolKind, V>, kind: ToolKind, other: V) -> V {
    if table.dom().contains(kind) {
        table[kind]
    } else {
        other
    }
}

impl<N, S> CanvasView<N, S> {
    /// The selected layer, if there is one.
    pub open spec fn selected(self) -> Option<Layer<N, S>> {
        match (self.selection, self.doc) {
            (Some(i), Some(d)) => if i < d.layers.len() {
                Some(d.layers[i as int])
            } else {
                None
            },
            _ => None,
        }
    }

    /// The canvas with another layer in place of the selected one.
    pub open spec fn with_selected(self, layer: Layer<N, S>) -> CanvasView<N, S> {
        let i = self.selection->0;
        let d = self.doc->0;
        CanvasView {
            doc: Some(DocumentView { layers: d.layers.update(i as int, layer), ..d }),
            ..self
        }
    }

    /// The canvas with a document in place of what it showed.
    pub open spec fn with_document(self, doc: DocumentView<N, S>) -> CanvasView<N, S> {
        CanvasView {
            doc: Some(doc),
            pending: None,
            text: None,
            next_number: 1,
            hidden_base: false,
            selection: None,
            manip: None,
            reedit: None,
            ..self
        }
    }

    /// The document after a text edit is finished. An empty edit leaves no layer, except that a
    /// layer that was edited again comes back as it was.
    pub open spec fn doc_with_text(self, measured: (u32, u32)) -> Option<DocumentView<N, S>> {
        match (self.doc, self.text) {
            (Some(d), Some(pt)) => if pt.buffer@.len() == 0 {
                match self.reedit {
                    Some(orig) => Some(d.with_layer(Layer::Text(orig))),
                    None => Some(d),
                }
            } else {
                Some(
                    d.with_layer(
                        Layer::Text(
                            TextTool {
                                origin: pt.origin,
                                text: pt.buffer,
                                size_pt: pt.size_pt,
                                color: pt.color,
                                wrap_width: pt.wrap_width,
                                bounds_cache: measured,
                            },
                        ),
                    ),
                )
            },
            _ => self.doc,
        }
    }

    /// The canvas after a text edit, if there is one, is finished.
    pub open spec fn text_committed(self, measured: (u32, u32)) -> CanvasView<N, S> {
        match self.text {
            Some(_) => CanvasView {
                doc: self.doc_with_text(measured),
                text: None,
                reedit: None,
                ..self
            },
            None => self,
        }
    }

    /// The canvas after a text edit, if there is one, is given up.
    pub open spec fn text_cancelled(self) -> CanvasView<N, S> {
        match self.text {
            Some(_) => CanvasView {
                doc: match (self.doc, self.reedit) {
                    (Some(d), Some(orig)) => Some(d.with_layer(Layer::Text(orig))),
                    _ => self.doc,
                },
                text: None,
                reedit: None,
                ..self
            },
            None => self,
        }
    }
}

/// A canvas after an event, and what the widget owes.
pub struct Changed<N, S> {
    pub canvas: CanvasView<N, S>,
    pub effects: Effects,
}

/// A canvas after a value was offered to what is being worked on: whether there is such a
/// thing, the canvas, and what the widget owes.
pub struct Offered<N, S> {
    pub taken: bool,
    pub canvas: CanvasView<N, S>,
    pub effects: Effects,
}

impl<N, S> CanvasView<N, S> {
    pub open spec fn untouched(self) -> Changed<N, S> {
        Changed { canvas: self, effects: Effects::nothing() }
    }

    pub open spec fn refused(self) -> Offered<N, S> {
        Offered { taken: false, canvas: self, effects: Effects::nothing() }
    }

    pub open spec fn accepted(self) -> Offered<N, S> {
        Offered { taken: true, canvas: self, effects: Effects::drawing() }
    }

    /// Another tool is in use. Any tool but Text finishes a text edit.
    pub open spec fn with_tool(self, kind: ToolKind, measured: (u32, u32)) -> Changed<N, S> {
        if kind == ToolKind::Text {
            Changed { canvas: CanvasView { tool: kind, ..self }, effects: Effects::nothing() }
        } else {
            Changed {
                canvas: CanvasView { tool: kind, ..self.text_committed(measured) },
                effects: text_done(self.text),
            }
        }
    }

    /// What setting a value of a tool owes: a text being edited is drawn again.
    pub open spec fn live_effects(self, kind: ToolKind) -> Effects {
        if kind == ToolKind::Text && self.text is Some {
            Effects::drawing()
        } else {
            Effects::nothing()
        }
    }

    /// A tool has another color, and so has a text being edited.
    pub open spec fn with_tool_color(self, kind: ToolKind, color: [S; 4]) -> Changed<N, S> {
        Changed {
            canvas: CanvasView {
                colors: self.colors.insert(kind, color),
                text: if kind == ToolKind::Text && self.text is Some {
                    Some(PendingText { color, ..self.text->0 })
                } else {
                    self.text
                },
                ..self
            },
            effects: self.live_effects(kind),
        }
    }

    /// A tool has another stroke style.
    pub open spec fn with_tool_style(self, kind: ToolKind, style: StrokeStyle) -> CanvasView<N, S> {
        CanvasView { styles: self.styles.insert(kind, style), ..self }
    }

    /// A tool has another font size, and so has a text being edited.
    pub open spec fn with_tool_font_size(self, kind: ToolKind, size: FontSize<S>) -> Changed<N, S> {
        Changed {
            canvas: CanvasView {
                font_sizes: self.font_sizes.insert(kind, size.raised()),
                text: if kind == ToolKind::Text && self.text is Some {
                    Some(PendingText { size_pt: size.raised(), ..self.text->0 })
                } else {
                    self.text
                },
                ..self
            },
            effects: self.live_effects(kind),
        }
    }

    /// A font size is offered to the text being edited, or else to a selected text layer, whose
    /// text then measures `measured`.
    pub open spec fn offered_font_size(self, size: FontSize<S>, measured: (u32, u32)) -> Offered<
        N,
        S,
    > {
        match (self.text, self.selected()) {
            (Some(_), _) => self.with_tool_font_size(ToolKind::Text, size).canvas.accepted(),
            (None, Some(Layer::Text(t))) => self.with_selected(
                Layer::Text(TextTool { size_pt: size.raised(), bounds_cache: measured, ..t }),
            ).accepted(),
            _ => self.refused(),
        }
    }

    /// A color is offered to the text being edited, or else to the selected layer.
    pub open spec fn offered_color(self, color: [S; 4]) -> Offered<N, S> {
        match (self.text, self.selected()) {
            (Some(_), _) => self.with_tool_color(ToolKind::Text, color).canvas.accepted(),
            (None, Some(layer)) => if colorable(layer.kind_of()) {
                self.with_selected(recolored(layer, color)).accepted()
            } else {
                self.refused()
            },
            (None, None) => self.refused(),
        }
    }

    /// A stroke style is offered to the selected layer.
    pub open spec fn offered_style(self, style: StrokeStyle) -> Offered<N, S> {
        match self.selected() {
            Some(layer) => if styleable(layer.kind_of()) {
                self.with_selected(restyled(layer, style)).accepted()
            } else {
                self.refused()
            },
            None => self.refused(),
        }
    }

    /// A picture lies under the document without being shown.
    pub open spec fn with_hidden_base(self, base: DocumentBase) -> CanvasView<N, S> {
        CanvasView {
            doc: Some(
                match self.doc {
                    Some(d) => DocumentView { base: Some(base), ..d },
                    None => DocumentView::<N, S>::pictured(base),
                },
            ),
            hidden_base: true,
            ..self
        }
    }

    /// The document has a picture, shown or not.
    pub open spec fn has_picture(self) -> bool {
        self.doc matches Some(d) && d.base is Some
    }

    /// All layers and the crop are gone.
    pub open spec fn cleared(self) -> Changed<N, S> {
        match self.doc {
            Some(d) => Changed {
                canvas: CanvasView {
                    doc: Some(DocumentView { layers: Seq::empty(), crop: None, ..d }),
                    selection: None,
                    manip: None,
                    ..self
                },
                effects: Effects::drawing(),
            },
            None => self.untouched(),
        }
    }

    /// The last layer, or else the crop, is taken back.
    pub open spec fn undone(self) -> Offered<N, S> {
        let deselected = CanvasView { selection: None, manip: None, ..self };
        match self.doc {
            Some(d) => if d.layers.len() > 0 {
                Offered {
                    taken: true,
                    canvas: CanvasView {
                        doc: Some(DocumentView { layers: d.layers.drop_last(), ..d }),
                        ..deselected
                    },
                    effects: Effects::drawing(),
                }
            } else if d.crop is Some {
                Offered {
                    taken: true,
                    canvas: CanvasView {
                        doc: Some(DocumentView { crop: None, ..d }),
                        ..deselected
                    },
                    effects: Effects { resize: true, ..Effects::drawing() },
                }
            } else {
                deselected.refused()
            },
            None => self.refused(),
        }
    }
}

/// What finishing or giving up a text edit owes.
pub open spec fn text_done<N, S>(text: Option<PendingText<N, S>>) -> Effects {
    match text {
        Some(_) => Effects {
            redraw: true,
            ui_state: true,
            blink: Blink::Stop,
            ..Effects::nothing()
        },
        None => Effects::nothing(),
    }
}

fn copied<V: Copy>(v: Option<&V>) -> (res: Option<V>)
    ensures
        match (v, res) {
            (Some(a), Some(b)) => *a == b,
            (None, None) => true,
            _ => false,
        },
{
    match v {
        Some(x) => Some(*x),
        None => None,
    }
}

impl<N: Copy, S: Copy> AnnotationCanvas<N, S> {
    /// A canvas without a document, with Rectangle as its tool.
    pub fn new(look: Look<N, S>, colors: &AnnotateColors<S>) -> (res: AnnotationCanvas<N, S>)
        ensures
            res.wf(),
            res@ == fresh_canvas(look, *colors),
    {
        let mut tool_styles: ToolTable<StrokeStyle> = ToolTable::new();
        tool_styles.insert(ToolKind::Rect, StrokeStyle::Solid);
        tool_styles.insert(ToolKind::Ellipse, StrokeStyle::Solid);
        tool_styles.insert(ToolKind::Arrow, StrokeStyle::Solid);
        tool_styles.insert(ToolKind::Line, StrokeStyle::Solid);
        tool_styles.insert(ToolKind::Freehand, StrokeStyle::Solid);
        let mut tool_font_sizes: ToolTable<S> = ToolTable::new();
        tool_font_sizes.insert(ToolKind::Text, look.font_size);
        let mut res = AnnotationCanvas {
            doc: None,
            current_tool: ToolKind::Rect,
            pending: None,
            pending_text: None,
            next_number: 1,
            transparent_background: false,
            hidden_base: false,
            tool_colors: ToolTable::new(),
            tool_styles,
            tool_font_sizes,
            selection: None,
            manip: None,
            reedit_restore: None,
            hover_cursor: None,
            look,
        };
        res.apply_color_defaults(colors);
        res
    }

    /// Shows another document. A drag, a text edit and the selection are dropped.
    pub fn set_document(&mut self, doc: Document<N, S>) -> (res: Effects)
        requires
            old(self).wf(),
        ensures
            final(self).wf(),
            final(self)@ == old(self)@.with_document(doc@),
            res == (Effects { redraw: true, resize: true, ..Effects::nothing() }),
    {
        self.doc = Some(doc);
        self.pending = None;
        self.hidden_base = false;
        self.pending_text = None;
        self.next_number = 1;
        self.selection = None;
        self.manip = None;
        self.reedit_restore = None;
        let mut effects = Effects::redraw();
        effects.resize = true;
        effects
    }

    /// Shows an empty document of the given size.
    pub fn set_empty(&mut self, size: (u32, u32)) -> (res: Effects)
        requires
            old(self).wf(),
        ensures
            final(self).wf(),
            final(self)@ == old(self)@.with_document(DocumentView::<N, S>::blank(size)),
            res == (Effects { redraw: true, resize: true, ..Effects::nothing() }),
    {
        self.set_document(Document::empty(size))
    }

    /// Puts another tool in use. Any tool but Text finishes a text edit. `measured` is the size
    /// of the text being edited.
    pub fn set_tool(&mut self, kind: ToolKind, measured: (u32, u32)) -> (res: Effects)
        requires
            old(self).wf(),
        ensures
            final(self).wf(),
            final(self)@ == old(self)@.with_tool(kind, measured).canvas,
            res == old(self)@.with_tool(kind, measured).effects,
    {
        let mut effects = Effects::none();
        if kind != ToolKind::Text && self.pending_text.is_some() {
            effects = self.commit_pending_text(measured);
        }
        self.current_tool = kind;
        effects
    }

    /// The tool in use.
    pub fn tool(&self) -> (res: ToolKind)
        ensures
            res == self@.tool,
    {
        self.current_tool
    }

    /// The color of the next layer of that kind. `None` when such layers have no color of their
    /// own.
    pub fn tool_color(&self, kind: ToolKind) -> (res: Option<[S; 4]>)
        requires
            self.wf(),
        ensures
            res == lookup(self@.colors, kind),
    {
        copied(self.tool_colors.get(kind))
    }

    /// Replaces the colors of all tools that have one.
    pub fn apply_color_defaults(&mut self, colors: &AnnotateColors<S>)
        requires
            old(self).wf(),
        ensures
            final(self).wf(),
            final(self)@ == (CanvasView {
                colors: with_colors(old(self)@.colors, *colors),
                ..old(self)@
            }),
    {
        self.tool_colors.insert(ToolKind::Rect, colors.rect);
        self.tool_colors.insert(ToolKind::Ellipse, colors.ellipse);
        self.tool_colors.insert(ToolKind::Arrow, colors.arrow);
        self.tool_colors.insert(ToolKind::Line, colors.line);
        self.tool_colors.insert(ToolKind::Freehand, colors.freehand);
        self.tool_colors.insert(ToolKind::Highlight, colors.highlight);
        self.tool_colors.insert(ToolKind::Number, colors.number);
        self.tool_colors.insert(ToolKind::Text, colors.text);
    }

    /// Sets the color of the next layers of that kind, and of a text being edited. Committed
    /// layers keep theirs.
    pub fn set_tool_color(&mut self, kind: ToolKind, color: [S; 4]) -> (res: Effects)
        requires
            old(self).wf(),
        ensures
            final(self).wf(),
            final(self)@ == old(self)@.with_tool_color(kind, color).canvas,
            res == old(self)@.with_tool_color(kind, color).effects,
    {
        self.tool_colors.insert(kind, color);
        if kind == ToolKind::Text {
            if let Some(pt) = &mut self.pending_text {
                pt.color = color;
                return Effects::redraw();
            }
        }
        Effects::none()
    }

    /// The stroke style of the next layer of that kind. `None` when such layers have no outline.
    pub fn tool_style(&self, kind: ToolKind) -> (res: Option<StrokeStyle>)
        requires
            self.wf(),
        ensures
            res == lookup(self@.styles, kind),
    {
        copied(self.tool_styles.get(kind))
    }

    /// Sets the stroke style of the next layers of that kind.
    pub fn set_tool_style(&mut self, kind: ToolKind, style: StrokeStyle)
        requires
            old(self).wf(),
        ensures
            final(self).wf(),
            final(self)@ == old(self)@.with_tool_style(kind, style),
    {
        self.tool_styles.insert(kind, style);
    }

    /// The font size of the next layer of that kind. `None` when such layers hold no text.
    pub fn tool_font_size(&self, kind: ToolKind) -> (res: Option<S>)
        requires
            self.wf(),
        ensures
            res == lookup(self@.font_sizes, kind),
    {
        copied(self.tool_font_sizes.get(kind))
    }

    /// Sets the font size of the next layers of that kind, and of a text being edited.
    pub fn set_tool_font_size(&mut self, kind: ToolKind, size: FontSize<S>) -> (res: Effects)
        requires
            old(self).wf(),
        ensures
            final(self).wf(),
            final(self)@ == old(self)@.with_tool_font_size(kind, size).canvas,
            res == old(self)@.with_tool_font_size(kind, size).effects,
    {
        let points = size.points();
        self.tool_font_sizes.insert(kind, points);
        if kind == ToolKind::Text {
            if let Some(pt) = &mut self.pending_text {
                pt.size_pt = points;
                return Effects::redraw();
            }
        }
        Effects::none()
    }

    /// Leaves the background empty where there is no picture.
    pub fn set_transparent(&mut self, transparent: bool) -> (res: Effects)
        requires
            old(self).wf(),
        ensures
            final(self).wf(),
            final(self)@ == (CanvasView { transparent, ..old(self)@ }),
            res == Effects::drawing(),
    {
        self.transparent_background = transparent;
        Effects::redraw()
    }

    /// Tells whether a text is being edited.
    pub fn is_editing_text(&self) -> (res: bool)
        ensures
            res == (self@.text is Some),
    {
        self.pending_text.is_some()
    }

    /// The kind of the selected layer.
    pub fn selected_kind(&self) -> (res: Option<ToolKind>)
        ensures
            res == match self@.selected() {
                Some(layer) => Some(layer.kind_of()),
                None => None,
            },
    {
        match (self.selection, &self.doc) {
            (Some(i), Some(doc)) => match doc.layer(i) {
                Some(layer) => Some(layer.kind()),
                None => None,
            },
            _ => None,
        }
    }

    /// Finishes a text edit, if there is one. `measured` is the size of its text.
    pub fn commit_pending_text(&mut self, measured: (u32, u32)) -> (res: Effects)
        requires
            old(self).wf(),
        ensures
            final(self).wf(),
            final(self)@ == old(self)@.text_committed(measured),
            res == text_done(old(self)@.text),
    {
        match self.pending_text.take() {
            None => Effects::none(),
            Some(pt) => {
                let restore = self.reedit_restore.take();
                let empty = pt.buffer.as_str().is_empty();
                if let Some(doc) = &mut self.doc {
                    if empty {
                        if let Some(orig) = restore {
                            doc.push_layer(Layer::Text(orig));
                        }
                    } else {
                        doc.push_layer(
                            Layer::Text(
                                TextTool {
                                    origin: pt.origin,
                                    text: pt.buffer,
                                    size_pt: pt.size_pt,
                                    color: pt.color,
                                    wrap_width: pt.wrap_width,
                                    bounds_cache: measured,
                                },
                            ),
                        );
                    }
                }
                let mut effects = Effects::redraw();
                effects.ui_state = true;
                effects.blink = Blink::Stop;
                effects
            },
        }
    }

    /// Gives up a text edit, if there is one. A layer that was edited again comes back as it was.
    pub fn cancel_pending_text(&mut self) -> (res: Effects)
        requires
            old(self).wf(),
        ensures
            final(self).wf(),
            final(self)@ == old(self)@.text_cancelled(),
            res == text_done(old(self)@.text),
    {
        match self.pending_text.take() {
            None => Effects::none(),
            Some(_) => {
                let restore = self.reedit_restore.take();
                if let Some(doc) = &mut self.doc {
                    if let Some(orig) = restore {
                        doc.push_layer(Layer::Text(orig));
                    }
                }
                let mut effects = Effects::redraw();
                effects.ui_state = true;
                effects.blink = Blink::Stop;
                effects
            },
        }
    }

    /// Applies a font size to what is being worked on: the text being edited, or a selected text
    /// layer, whose text at that size measures `measured`. `false` when there is no such thing.
    pub fn apply_font_size_to_target(&mut self, size: FontSize<S>, measured: (u32, u32)) -> (res: (
        bool,
        Effects,
    ))
        requires
            old(self).wf(),
        ensures
            final(self).wf(),
            ({
                let after = old(self)@.offered_font_size(size, measured);
                final(self)@ == after.canvas && res == (after.taken, after.effects)
            }),
    {
        if self.is_editing_text() {
            let effects = self.set_tool_font_size(ToolKind::Text, size);
            return (true, effects);
        }
        if let Some(i) = self.selection {
            if let Some(doc) = &mut self.doc {
                if i < doc.layers.len() {
                    let ghost before = doc.layers@;
                    let mut layer = doc.layers.remove(i);
                    let mut changed = false;
                    if let Layer::Text(t) = &mut layer {
                        t.size_pt = size.points();
                        t.bounds_cache = measured;
                        changed = true;
                    }
                    let ghost after = layer;
                    doc.layers.insert(i, layer);
                    proof {
                        assert(doc.layers@ =~= before.update(i as int, after));
                        assert(!changed ==> doc.layers@ =~= before);
                    }
                    if changed {
                        return (true, Effects::redraw());
                    }
                }
            }
        }
        (false, Effects::none())
    }

    /// Applies a color to what is being worked on: the text being edited, or the selected layer,
    /// if it has a color. `false` when there is no such thing.
    pub fn apply_color_to_target(&mut self, color: [S; 4]) -> (res: (bool, Effects))
        requires
            old(self).wf(),
        ensures
            final(self).wf(),
            ({
                let after = old(self)@.offered_color(color);
                final(self)@ == after.canvas && res == (after.taken, after.effects)
            }),
    {
        if self.is_editing_text() {
            let effects = self.set_tool_color(ToolKind::Text, color);
            return (true, effects);
        }
        if let Some(i) = self.selection {
            if let Some(doc) = &mut self.doc {
                if i < doc.layers.len() {
                    let ghost before = doc.layers@;
                    let mut layer = doc.layers.remove(i);
                    let changed = set_layer_color(&mut layer, color);
                    let ghost after = layer;
                    doc.layers.insert(i, layer);
                    proof {
                        assert(doc.layers@ =~= before.update(i as int, after));
                        assert(!changed ==> doc.layers@ =~= before);
                    }
                    if changed {
                        return (true, Effects::redraw());
                    }
                }
            }
        }
        (false, Effects::none())
    }

    /// Applies a stroke style to the selected layer, if it has an outline. `false` when there is
    /// no such thing.
    pub fn apply_style_to_target(&mut self, style: StrokeStyle) -> (res: (bool, Effects))
        requires
            old(self).wf(),
        ensures
            final(self).wf(),
            ({
                let after = old(self)@.offered_style(style);
                final(self)@ == after.canvas && res == (after.taken, after.effects)
            }),
    {
        if let Some(i) = self.selection {
            if let Some(doc) = &mut self.doc {
                if i < doc.layers.len() {
                    let ghost before = doc.layers@;
                    let mut layer = doc.layers.remove(i);
                    let changed = set_layer_style(&mut layer, style);
                    let ghost after = layer;
                    doc.layers.insert(i, layer);
                    proof {
                        assert(doc.layers@ =~= before.update(i as int, after));
                        assert(!changed ==> doc.layers@ =~= before);
                    }
                    if changed {
                        return (true, Effects::redraw());
                    }
                }
            }
        }
        (false, Effects::none())
    }

    /// Puts a picture under the document without showing it, for blurs to draw from. Layers and
    /// crop stay.
    pub fn set_hidden_base(&mut self, base: DocumentBase) -> (res: Effects)
        requires
            old(self).wf(),
        ensures
            final(self).wf(),
            final(self)@ == old(self)@.with_hidden_base(base),
            res == Effects::drawing(),
    {
        match &mut self.doc {
            Some(doc) => {
                doc.base = Some(base);
            },
            None => {
                self.doc = Some(Document::with_base(base));
            },
        }
        self.hidden_base = true;
        Effects::redraw()
    }

    /// Tells whether the document has a picture, shown or not.
    pub fn has_base(&self) -> (res: bool)
        ensures
            res == self@.has_picture(),
    {
        match &self.doc {
            Some(doc) => doc.base.is_some(),
            None => false,
        }
    }

    /// Drops all layers and the crop.
    pub fn clear_layers(&mut self) -> (res: Effects)
        requires
            old(self).wf(),
        ensures
            final(self).wf(),
            final(self)@ == old(self)@.cleared().canvas,
            res == old(self)@.cleared().effects,
    {
        if let Some(doc) = &mut self.doc {
            doc.layers.clear();
            doc.crop = None;
        } else {
            return Effects::none();
        }
        self.selection = None;
        self.manip = None;
        Effects::redraw()
    }

    /// Takes back the last layer, or else the crop. `false` when there is neither.
    pub fn undo(&mut self) -> (res: (bool, Effects))
        requires
            old(self).wf(),
        ensures
            final(self).wf(),
            ({
                let after = old(self)@.undone();
                final(self)@ == after.canvas && res == (after.taken, after.effects)
            }),
    {
        if self.doc.is_none() {
            return (false, Effects::none());
        }
        self.selection = None;
        self.manip = None;
        if let Some(doc) = &mut self.doc {
            if doc.pop_layer().is_some() {
                return (true, Effects::redraw());
            }
            if doc.crop.is_some() {
                doc.crop = None;
                let mut effects = Effects::redraw();
                effects.resize = true;
                return (true, effects);
            }
        }
        (false, Effects::none())
    }

    /// The minimum, natural and baseline sizes of the canvas in one direction: the size of the
    /// document, so that it is shown at full scale, or 640 by 480 without one.
    pub fn measure(&self, horizontal: bool) -> (res: (i32, i32, i32, i32))
        ensures
            ({
                let size = match self@.doc {
                    Some(d) => d.size,
                    None => (640u32, 480u32),
                };
                let natural = if horizontal {
                    size.0 as i32
                } else {
                    size.1 as i32
                };
                res == (0i32, natural, (-1int) as i32, (-1int) as i32)
            }),
    {
        let (w, h): (u32, u32) = match &self.doc {
            Some(doc) => doc.size,
            None => (640, 480),
        };
        let natural: i32 = if horizontal {
            #[verifier::truncate]
            (w as i32)
        } else {
            #[verifier::truncate]
            (h as i32)
        };
        (0, natural, -1, -1)
    }
}

/// Why a document is not rendered.
#[derive(Clone, Copy, Debug, PartialEq, Eq, Structural)]
pub enum ComposeError {
    NoDocument,
    EmptyDocument,
    NothingToCompose,
}

impl ComposeError {
    pub open spec fn text(self) -> Seq<char> {
        match self {
            ComposeError::NoDocument => "no document loaded"@,
            ComposeError::EmptyDocument => "cannot compose empty document"@,
            ComposeError::NothingToCompose =>
                "nothing to compose: document has no base and no layers"@,
        }
    }

    /// The error in words.
    pub fn message(&self) -> (res: &'static str)
        ensures
            res@ == self.text(),
    {
        match self {
            ComposeError::NoDocument => "no document loaded",
            ComposeError::EmptyDocument => "cannot compose empty document",
            ComposeError::NothingToCompose =>
                "nothing to compose: document has no base and no layers",
        }
    }
}

// ---- laws ----------------------------------------------------------------------------------
/// A tool keeps its color, its stroke style and its font size while another tool is in use, and
/// while another tool gets other ones.
pub proof fn tools_remember_their_settings<N, S>(
    c: CanvasView<N, S>,
    kind: ToolKind,
    other: ToolKind,
    color: [S; 4],
    style: StrokeStyle,
    size: FontSize<S>,
    measured: (u32, u32),
)
    requires
        kind != other,
    ensures
        c.with_tool(other, measured).canvas.colors == c.colors,
        c.with_tool(other, measured).canvas.styles == c.styles,
        c.with_tool(other, measured).canvas.font_sizes == c.font_sizes,
        lookup(c.with_tool_color(other, color).canvas.colors, kind) == lookup(c.colors, kind),
        lookup(c.with_tool_style(other, style).styles, kind) == lookup(c.styles, kind),
        lookup(c.with_tool_font_size(other, size).canvas.font_sizes, kind) == lookup(
            c.font_sizes,
            kind,
        ),
{
}

// ---- what the canvas keeps -----------------------------------------------------------------
/// A new document puts an end to everything that was going on with the last one. Badges count
/// from one again, and the tool in use and the settings of all tools stay.
pub proof fn a_new_document_starts_afresh<N, S>(c: CanvasView<N, S>, doc: DocumentView<N, S>)
    ensures
        ({
            let after = c.with_document(doc);
            &&& after.doc == Some(doc)
            &&& after.pending is None && after.text is None && after.reedit is None
            &&& after.selection is None && after.manip is None
            &&& after.next_number == 1 && !after.hidden_base
            &&& after.tool == c.tool && after.look == c.look && after.transparent == c.transparent
            &&& after.colors == c.colors && after.styles == c.styles && after.font_sizes
                == c.font_sizes
        }),
{
}

/// A finished text becomes one text layer on top, with the text as it was typed and where it was
/// typed. An empty one leaves no layer, unless it was one before: that one comes back as it was.
/// No other layer is touched.
pub proof fn a_finished_text_becomes_the_top_layer<N, S>(c: CanvasView<N, S>, measured: (u32, u32))
    requires
        c.doc is Some,
        c.text is Some,
    ensures
        ({
            let (pt, layers) = (c.text->0, c.doc->0.layers);
            let after = c.text_committed(measured);
            let now = after.doc->0.layers;
            &&& after.doc is Some && after.text is None && after.reedit is None
            &&& after.doc->0.base == c.doc->0.base && after.doc->0.crop == c.doc->0.crop
            &&& forall|i: int| 0 <= i < layers.len() ==> now[i] == layers[i]
            &&& pt.buffer@.len() > 0 ==> {
                &&& now.len() == layers.len() + 1
                &&& now.last() matches Layer::Text(t) && t.text@ == pt.buffer@ && t.origin
                    == pt.origin && t.size_pt == pt.size_pt && t.color == pt.color && t.wrap_width
                    == pt.wrap_width && t.bounds_cache == measured
            }
            &&& pt.buffer@.len() == 0 && c.reedit is None ==> now.len() == layers.len()
            &&& pt.buffer@.len() == 0 && c.reedit is Some ==> now.len() == layers.len() + 1
                && now.last() == Layer::<N, S>::Text(c.reedit->0)
        }),
{
}

/// A cancelled text leaves nothing of what was typed: the layers are those there were, and a text
/// layer that was edited again is back as it was, on top.
pub proof fn a_cancelled_text_leaves_nothing<N, S>(c: CanvasView<N, S>)
    requires
        c.doc is Some,
        c.text is Some,
    ensures
        ({
            let layers = c.doc->0.layers;
            let after = c.text_cancelled();
            let now = after.doc->0.layers;
            &&& after.doc is Some && after.text is None && after.reedit is None
            &&& after.doc->0.base == c.doc->0.base && after.doc->0.crop == c.doc->0.crop
            &&& forall|i: int| 0 <= i < layers.len() ==> now[i] == layers[i]
            &&& match c.reedit {
                Some(t) => now.len() == layers.len() + 1 && now.last() == Layer::<N, S>::Text(t),
                None => now.len() == layers.len(),
            }
        }),
{
}

/// The tool that is chosen is the tool in use. Only the Text tool leaves a text open; any other
/// tool finishes it as a commit does, and nothing else on the canvas changes.
pub proof fn a_chosen_tool_is_in_use<N, S>(c: CanvasView<N, S>, kind: ToolKind, measured: (u32, u32))
    ensures
        ({
            let after = c.with_tool(kind, measured);
            &&& after.canvas.tool == kind
            &&& kind == ToolKind::Text ==> after.canvas == (CanvasView { tool: kind, ..c })
            &&& kind != ToolKind::Text ==> after.canvas == (CanvasView {
                tool: kind,
                ..c.text_committed(measured)
            }) && after.canvas.text is None
            &&& after.effects.redraw <==> kind != ToolKind::Text && c.text is Some
            &&& !after.effects.commit
        }),
{
}

/// What a tool is set to is what it is set to afterwards, and a text that is being edited shows
/// it at once. The document does not change.
pub proof fn a_setting_is_what_it_was_set_to<N, S>(
    c: CanvasView<N, S>,
    kind: ToolKind,
    color: [S; 4],
    style: StrokeStyle,
    size: FontSize<S>,
)
    ensures
        ({
            let after = c.with_tool_color(kind, color).canvas;
            &&& lookup(after.colors, kind) == Some(color)
            &&& after.doc == c.doc && after.styles == c.styles && after.font_sizes == c.font_sizes
            &&& kind == ToolKind::Text && c.text is Some ==> (after.text matches Some(pt)
                && pt.color == color && pt.buffer == c.text->0.buffer)
            &&& kind != ToolKind::Text ==> after.text == c.text
        }),
        ({
            let after = c.with_tool_style(kind, style);
            &&& lookup(after.styles, kind) == Some(style)
            &&& after == (CanvasView { styles: after.styles, ..c })
        }),
        ({
            let after = c.with_tool_font_size(kind, size).canvas;
            let points = if size.below_one {
                size.one
            } else {
                size.asked
            };
            &&& lookup(after.font_sizes, kind) == Some(points)
            &&& after.doc == c.doc && after.styles == c.styles && after.colors == c.colors
            &&& kind == ToolKind::Text && c.text is Some ==> (after.text matches Some(pt)
                && pt.size_pt == points && pt.buffer == c.text->0.buffer)
            &&& kind != ToolKind::Text ==> after.text == c.text
        }),
{
}

/// A picked color, style or font size goes to the selected layer, if it has such a thing, and
/// to no other layer. It is taken exactly when something shows it. The text being edited comes
/// before the selected layer.
pub proof fn a_pick_goes_to_what_is_worked_on<N, S>(
    c: CanvasView<N, S>,
    color: [S; 4],
    style: StrokeStyle,
    size: FontSize<S>,
    measured: (u32, u32),
)
    requires
        c.text is None,
        c.doc is Some,
        c.selection matches Some(i) && i < c.doc->0.layers.len(),
    ensures
        ({
            let (i, layers) = (c.selection->0 as int, c.doc->0.layers);
            let (colored, styled) = (c.offered_color(color), c.offered_style(style));
            let sized_after = c.offered_font_size(size, measured);
            &&& colored.taken <==> layers[i].color_of() is Some
            &&& styled.taken <==> layers[i].style_of() is Some
            &&& sized_after.taken <==> layers[i] is Text
            &&& colored.canvas.doc is Some && styled.canvas.doc is Some && sized_after.canvas.doc
                is Some
            &&& colored.taken ==> colored.canvas.doc->0.layers[i].color_of() == Some(color)
            &&& styled.taken ==> styled.canvas.doc->0.layers[i].style_of() == Some(style)
            &&& sized_after.taken ==> {
                &&& sized_after.canvas.doc->0.layers[i] matches Layer::Text(t)
                &&& t.size_pt == (if size.below_one {
                    size.one
                } else {
                    size.asked
                })
                &&& t.bounds_cache == measured && t.text == layers[i]->Text_0.text
            }
            &&& colored.canvas.doc->0.layers.len() == layers.len() && styled.canvas.doc->0.layers.len()
                == layers.len() && sized_after.canvas.doc->0.layers.len() == layers.len()
            &&& forall|j: int|
                #![trigger layers[j]]
                0 <= j < layers.len() && j != i ==> colored.canvas.doc->0.layers[j] == layers[j]
                    && styled.canvas.doc->0.layers[j] == layers[j]
                    && sized_after.canvas.doc->0.layers[j] == layers[j]
            &&& colored.canvas.colors == c.colors && styled.canvas.styles == c.styles
                && sized_after.canvas.font_sizes == c.font_sizes
        }),
{
}

/// While a text is being edited, a picked color and a picked font size are its, and no layer
/// changes.
pub proof fn a_pick_goes_to_the_text_first<N, S>(
    c: CanvasView<N, S>,
    color: [S; 4],
    size: FontSize<S>,
    measured: (u32, u32),
)
    requires
        c.text is Some,
    ensures
        ({
            let (colored, sized_after) = (c.offered_color(color), c.offered_font_size(size, measured));
            &&& colored.taken && colored.canvas.doc == c.doc
            &&& colored.canvas.text matches Some(pt) && pt.color == color
            &&& sized_after.taken && sized_after.canvas.doc == c.doc
            &&& sized_after.canvas.text matches Some(pt) && pt.size_pt == (if size.below_one {
                size.one
            } else {
                size.asked
            })
        }),
{
}

/// Where nothing is worked on, a pick is not taken and changes nothing.
pub proof fn a_pick_needs_something_to_work_on<N, S>(
    c: CanvasView<N, S>,
    color: [S; 4],
    style: StrokeStyle,
    size: FontSize<S>,
    measured: (u32, u32),
)
    requires
        c.text is None,
        c.selection is None,
    ensures
        !c.offered_color(color).taken && c.offered_color(color).canvas == c,
        !c.offered_style(style).taken && c.offered_style(style).canvas == c,
        !c.offered_font_size(size, measured).taken && c.offered_font_size(size, measured).canvas
            == c,
{
}

/// Clearing removes every layer and the crop, and leaves the picture.
pub proof fn clearing_leaves_the_picture<N, S>(c: CanvasView<N, S>)
    requires
        c.doc is Some,
    ensures
        ({
            let after = c.cleared().canvas;
            &&& after.doc matches Some(d) && d.layers.len() == 0 && d.crop is None && d.base
                == c.doc->0.base && d.size == c.doc->0.size
            &&& after.selection is None && after.manip is None
            &&& after.tool == c.tool && after.colors == c.colors && after.next_number
                == c.next_number
            &&& c.cleared().effects.redraw
        }),
{
}

/// Undo takes back the newest layer and no other. Only where there is no layer left does it take
/// back the crop, and where there is none either it does nothing.
pub proof fn undo_takes_the_newest_layer<N, S>(c: CanvasView<N, S>)
    requires
        c.doc is Some,
    ensures
        ({
            let (before, after) = (c.doc->0, c.undone());
            let now = after.canvas.doc->0;
            &&& after.canvas.doc is Some
            &&& now.base == before.base && now.size == before.size
            &&& after.taken <==> before.layers.len() > 0 || before.crop is Some
            &&& before.layers.len() > 0 ==> now.layers.len() == before.layers.len() - 1 && now.crop
                == before.crop
            &&& before.layers.len() == 0 ==> now.layers.len() == 0 && now.crop is None
            &&& forall|i: int| 0 <= i < now.layers.len() ==> now.layers[i] == before.layers[i]
            &&& after.canvas.selection is None && after.canvas.manip is None
            &&& after.canvas.text == c.text && after.canvas.next_number == c.next_number
        }),
{
}

/// A layer that is drawn is what the next undo takes back.
pub proof fn undo_reverts_a_new_layer<N, S>(c: CanvasView<N, S>, layer: Layer<N, S>)
    requires
        c.doc is Some,
    ensures
        (CanvasView { doc: Some(c.doc->0.with_layer(layer)), ..c }).undone().canvas.doc == c.doc,
{
    assert(c.doc->0.with_layer(layer).layers.drop_last() =~= c.doc->0.layers);
}

/// A picture that is there only to be blurred is put under the layers, which stay.
pub proof fn a_hidden_picture_keeps_the_layers<N, S>(c: CanvasView<N, S>, base: DocumentBase)
    ensures
        ({
            let after = c.with_hidden_base(base);
            &&& after.has_picture() && after.hidden_base
            &&& after.doc matches Some(d) && d.base == Some(base)
            &&& c.doc matches Some(d) ==> after.doc->0.layers == d.layers && after.doc->0.crop
                == d.crop && after.doc->0.size == d.size
            &&& after.selection == c.selection && after.tool == c.tool && after.text == c.text
        }),
        c.has_picture() <==> c.doc is Some && c.doc->0.base is Some,
{
}

/// A fresh canvas draws with the colors it was given, every tool with its own, and with solid
/// lines.
pub proof fn a_fresh_canvas_has_the_colors_it_was_given<N, S>(
    look: Look<N, S>,
    colors: AnnotateColors<S>,
    kind: ToolKind,
)
    ensures
        ({
            let c = fresh_canvas(look, colors);
            &&& lookup(c.colors, ToolKind::Rect) == Some(colors.rect)
            &&& lookup(c.colors, ToolKind::Ellipse) == Some(colors.ellipse)
            &&& lookup(c.colors, ToolKind::Arrow) == Some(colors.arrow)
            &&& lookup(c.colors, ToolKind::Line) == Some(colors.line)
            &&& lookup(c.colors, ToolKind::Freehand) == Some(colors.freehand)
            &&& lookup(c.colors, ToolKind::Highlight) == Some(colors.highlight)
            &&& lookup(c.colors, ToolKind::Number) == Some(colors.number)
            &&& lookup(c.colors, ToolKind::Text) == Some(colors.text)
            &&& lookup(c.colors, kind) is Some <==> colorable(kind)
            &&& lookup(c.styles, kind) == (if styleable(kind) {
                Some(StrokeStyle::Solid)
            } else {
                None
            })
            &&& lookup(c.font_sizes, kind) == (if kind == ToolKind::Text {
                Some(look.font_size)
            } else {
                None
            })
            &&& c.doc is None && c.text is None && c.selection is None && c.next_number == 1
        }),
{
}

/// What is selected is a layer of the document: the one at the selected place, where there is
/// one.
pub proof fn a_selection_is_a_layer_of_the_document<N, S>(c: CanvasView<N, S>)
    ensures
        match c.selected() {
            Some(layer) => c.selection is Some && c.doc is Some && c.selection->0
                < c.doc->0.layers.len() && layer == c.doc->0.layers[c.selection->0 as int],
            None => c.selection is None || c.doc is None || c.selection->0
                >= c.doc->0.layers.len(),
        },
{
}

} // verus!
