//! The editor window: its toolbar, what the toolbar does, and where a save goes.

use vstd::prelude::*;
use vstd::string::{StrSliceExecFns, StringExecFns};

use crate::strings::join_path;
use crate::ui::canvas::{AnnotateColors, AnnotationCanvas, Effects, Look};
use crate::ui::sinks::SinkSpec;
use crate::ui::toolbar::{
    editor_tools, Toolbar, ToolbarAction, ToolbarSpec, ToolbarSpecView, ToolbarView,
};
use crate::ui::tools::{Document, DocumentBase, ToolKind};

verus! {

use crate::strings::{joined, text_of};
use crate::ui::canvas::{fresh_canvas, CanvasView};
use crate::ui::sinks::{sink_views, SinkView};
use crate::ui::toolbar::is_editor_table;
use crate::ui::tools::DocumentView;

/// The name of an annotated picture of which the source has no name.
pub const FALLBACK_STEM: &'static str = "hyprsnap";

// ---- parts of a path -----------------------------------------------------------------------
/// The last component of a path, without its extension.
pub uninterp spec fn stem_of(path: Seq<char>) -> Option<Seq<char>>;

/// The extension of the last component of a path.
pub uninterp spec fn extension_of(path: Seq<char>) -> Option<Seq<char>>;

/// The path without its last component.
pub uninterp spec fn parent_of(path: Seq<char>) -> Option<Seq<char>>;

/// `std::path::Path::file_stem`. What counts as the last component and as its extension is
/// decided by the characters of the path alone, and is not spelled out here.
#[verifier::external_body]
fn file_stem(path: &str) -> (res: Option<String>)
    ensures
        text_of(res) == stem_of(path@),
{
    std::path::Path::new(path).file_stem().and_then(|s| s.to_str()).map(String::from)
}

/// `std::path::Path::extension`. What counts as the extension is decided by the characters of
/// the path alone, and is not spelled out here.
#[verifier::external_body]
fn extension(path: &str) -> (res: Option<String>)
    ensures
        text_of(res) == extension_of(path@),
{
    std::path::Path::new(path).extension().and_then(|s| s.to_str()).map(String::from)
}

/// `std::path::Path::parent`. What counts as the last component is decided by the characters of
/// the path alone, and is not spelled out here.
#[verifier::external_body]
fn parent(path: &str) -> (res: Option<String>)
    ensures
        text_of(res) == parent_of(path@),
{
    std::path::Path::new(path).parent().and_then(|p| p.to_str()).map(String::from)
}

// ---- where a save goes ---------------------------------------------------------------------
/// Where the annotated picture is written.
#[derive(Debug)]
pub enum SavePath {
    /// At a path.
    At(String),
    /// In the configured directory, under a name from the configured template.
    Configured,
}

/// The first file of the sinks, from `from` on, that has a path.
pub open spec fn explicit_path(sinks: Seq<SinkView>, from: int) -> Option<Seq<char>>
    decreases sinks.len() - from,
{
    if from < 0 || from >= sinks.len() {
        None
    } else {
        match sinks[from] {
            SinkView::File(Some(path)) => Some(path),
            _ => explicit_path(sinks, from + 1),
        }
    }
}

pub open spec fn or_else(text: Option<Seq<char>>, other: Seq<char>) -> Seq<char> {
    match text {
        Some(t) => t,
        None => other,
    }
}

/// The name of the annotated picture of a source with that stem and that extension.
pub open spec fn annotated_name(stem: Option<Seq<char>>, extension: Option<Seq<char>>) -> Seq<char> {
    or_else(stem, "hyprsnap"@) + "-annotated."@ + or_else(extension, "png"@)
}

/// The path next to a source, for its annotated picture.
pub open spec fn annotated_path(
    stem: Option<Seq<char>>,
    extension: Option<Seq<char>>,
    parent: Option<Seq<char>>,
) -> Seq<char> {
    joined(or_else(parent, "."@), annotated_name(stem, extension))
}

/// The path next to a source with that stem, that extension and that parent, for its annotated
/// picture.
pub fn sibling_path(
    stem: &Option<String>,
    extension: &Option<String>,
    parent: &Option<String>,
) -> (res: String)
    ensures
        res@ == annotated_path(text_of(*stem), text_of(*extension), text_of(*parent)),
{
    let mut name = match stem {
        Some(s) => s.clone(),
        None => String::from_str(FALLBACK_STEM),
    };
    name.append("-annotated.");
    match extension {
        Some(e) => {
            name.append(e.as_str());
        },
        None => {
            name.append("png");
        },
    }
    match parent {
        Some(p) => join_path(p.as_str(), name.as_str()),
        None => join_path(".", name.as_str()),
    }
}

/// Where the annotated picture of a source is written: at the first path that was asked for;
/// else, when any sink was asked for, in the configured directory; else next to the source.
pub fn resolve_save_path(sinks: &Vec<SinkSpec>, source: &str) -> (res: SavePath)
    ensures
        match explicit_path(sink_views(sinks@), 0) {
            Some(path) => res matches SavePath::At(p) && p@ == path,
            None => if sinks@.len() > 0 {
                res is Configured
            } else {
                res matches SavePath::At(p) && p@ == annotated_path(
                    stem_of(source@),
                    extension_of(source@),
                    parent_of(source@),
                )
            },
        },
{
    let ghost views = sink_views(sinks@);
    for i in 0..sinks.len()
        invariant
            views == sink_views(sinks@),
            explicit_path(views, 0) == explicit_path(views, i as int),
    {
        assert(views[i as int] == sinks@[i as int]@);
        if let SinkSpec::File(Some(path)) = &sinks[i] {
            return SavePath::At(path.clone());
        }
    }
    if sinks.len() > 0 {
        return SavePath::Configured;
    }
    SavePath::At(sibling_path(&file_stem(source), &extension(source), &parent(source)))
}

/// The directory that a file with that parent needs.
pub open spec fn directory_in(parent: Option<Seq<char>>) -> Option<Seq<char>> {
    match parent {
        Some(directory) => if directory.len() > 0 {
            Some(directory)
        } else {
            None
        },
        None => None,
    }
}

/// The directory that must be there before a file is written. A bare file name needs none.
pub fn directory_for(path: &str) -> (res: Option<String>)
    ensures
        text_of(res) == directory_in(parent_of(path@)),
{
    match parent(path) {
        Some(directory) => {
            if directory.as_str().is_empty() {
                None
            } else {
                Some(directory)
            }
        },
        None => None,
    }
}

/// The title of the editor of a file.
pub fn annotate_title(path: &str) -> (res: String)
    ensures
        res@ == "HyprSnap — annotate ("@ + path@ + ")"@,
{
    let mut title = String::from_str("HyprSnap — annotate (");
    title.append(path);
    title.append(")");
    title
}

// ---- the window ----------------------------------------------------------------------------
/// The toolbar of the editor: all tools, Undo and Save, with Rectangle in use.
pub open spec fn is_editor_spec(s: ToolbarSpecView) -> bool {
    is_editor_table(s.tools) && s == (ToolbarSpecView {
        tools: s.tools,
        show_undo: true,
        show_save: true,
        initial_tool: Some(ToolKind::Rect),
        ..ToolbarSpecView::nothing()
    })
}

/// The toolbar of the editor.
pub fn toolbar_spec() -> (res: ToolbarSpec)
    ensures
        is_editor_spec(res@),
{
    let empty = ToolbarSpec::empty();
    ToolbarSpec {
        tools: editor_tools(),
        show_undo: true,
        show_save: true,
        initial_tool: Some(ToolKind::Rect),
        ..empty
    }
}

/// What an action of the toolbar comes to.
#[derive(Clone, Copy, Debug, PartialEq, Eq, Structural)]
pub enum EditorStep {
    /// The canvas owes the effects.
    Canvas(Effects),
    /// Compose the picture and save it.
    Save,
    Nothing,
}

/// The canvas after an action of the toolbar, and what the action comes to.
pub open spec fn edited<N, S>(
    canvas: CanvasView<N, S>,
    action: ToolbarAction<S>,
    measured: (u32, u32),
) -> (CanvasView<N, S>, EditorStep) {
    match action {
        ToolbarAction::ToolSelected(kind) => {
            let after = canvas.with_tool(kind, measured);
            (after.canvas, EditorStep::Canvas(after.effects))
        },
        ToolbarAction::Undo => {
            let after = canvas.undone();
            (after.canvas, EditorStep::Canvas(after.effects))
        },
        ToolbarAction::Save => (canvas, EditorStep::Save),
        _ => (canvas, EditorStep::Nothing),
    }
}

/// An open editor.
#[derive(Debug)]
pub struct Editor<N, S> {
    pub canvas: AnnotationCanvas<N, S>,
    pub toolbar: Toolbar<S>,
}

impl<N: Copy, S: Copy> Editor<N, S> {
    /// Opens the editor of a picture, with Rectangle in use.
    pub fn open(
        base: DocumentBase,
        look: Look<N, S>,
        colors: &AnnotateColors<S>,
        color: [S; 4],
        font_size: S,
    ) -> (res: Editor<N, S>)
        ensures
            res.canvas.wf(),
            res.canvas@ == (CanvasView {
                doc: Some(DocumentView::<N, S>::pictured(base)),
                ..fresh_canvas(look, *colors)
            }),
            exists|s: ToolbarSpecView|
                #[trigger] is_editor_spec(s) && res.toolbar@ == (ToolbarView {
                    connected: true,
                    ..ToolbarView::built(s, color, font_size)
                }),
    {
        let mut canvas = AnnotationCanvas::new(look, colors);
        canvas.set_document(Document::with_base(base));
        canvas.set_tool(ToolKind::Rect, (0, 0));
        let spec = toolbar_spec();
        let ghost s = spec@;
        let mut toolbar = Toolbar::new(spec, color, font_size);
        toolbar.connect();
        assert(is_editor_spec(s));
        Editor { canvas, toolbar }
    }

    /// The toolbar sends an action. `measured` is the size of a text that is being edited.
    pub fn apply_action(&mut self, action: ToolbarAction<S>, measured: (u32, u32)) -> (res:
        EditorStep)
        requires
            old(self).canvas.wf(),
        ensures
            final(self).canvas.wf(),
            final(self).toolbar == old(self).toolbar,
            (final(self).canvas@, res) == edited(old(self).canvas@, action, measured),
    {
        match action {
            ToolbarAction::ToolSelected(kind) => EditorStep::Canvas(
                self.canvas.set_tool(kind, measured),
            ),
            ToolbarAction::Undo => {
                let (_, effects) = self.canvas.undo();
                EditorStep::Canvas(effects)
            },
            ToolbarAction::Save => EditorStep::Save,
            _ => EditorStep::Nothing,
        }
    }
}

// ---- laws ----------------------------------------------------------------------------------
/// The path that is written to is the first one that was asked for, and there is none exactly
/// when no file was asked for by its path.
pub proof fn the_first_path_asked_for_is_written_to(sinks: Seq<SinkView>, from: int, i: int)
    requires
        0 <= from <= i < sinks.len(),
        forall|j: int|
            from <= j < i ==> !(#[trigger] sinks[j] matches SinkView::File(Some(_))),
    ensures
        match sinks[i] {
            SinkView::File(Some(path)) => explicit_path(sinks, from) == Some(path),
            _ => i == sinks.len() - 1 ==> explicit_path(sinks, from) is None,
        },
    decreases i - from,
{
    if from < i {
        the_first_path_asked_for_is_written_to(sinks, from + 1, i);
    } else {
        assert(explicit_path(sinks, sinks.len() as int) is None);
    }
}

/// An annotated picture lies in the directory of its source, begins with the name of the source
/// and keeps its extension. It is not the source: its path is longer.
pub proof fn an_annotated_picture_lies_next_to_its_source(
    stem: Seq<char>,
    extension: Seq<char>,
    parent: Seq<char>,
)
    requires
        stem.len() > 0,
        stem[0] != '/',
    ensures
        ({
            let path = annotated_path(Some(stem), Some(extension), Some(parent));
            let name = annotated_name(Some(stem), Some(extension));
            let source = joined(parent, stem + seq!['.'] + extension);
            &&& path == joined(parent, name)
            &&& stem.is_prefix_of(name)
            &&& name.skip(name.len() - extension.len()) == extension
            &&& name[name.len() - extension.len() - 1] == '.'
            &&& path != source
            &&& path.len() > source.len()
        }),
{
    reveal_strlit("-annotated.");
    let name = annotated_name(Some(stem), Some(extension));
    assert(name.skip(name.len() - extension.len()) =~= extension);
    assert(name.take(stem.len() as int) =~= stem);
}

/// Without a name, an extension or a directory of its source, a picture is called after the
/// program, is a PNG file and lies in the current directory.
pub proof fn a_nameless_picture_gets_a_name(
    stem: Option<Seq<char>>,
    extension: Option<Seq<char>>,
    parent: Option<Seq<char>>,
)
    ensures
        annotated_path(None, extension, parent) == annotated_path(
            Some("hyprsnap"@),
            extension,
            parent,
        ),
        annotated_path(stem, None, parent) == annotated_path(stem, Some("png"@), parent),
        annotated_path(stem, extension, None) == annotated_path(stem, extension, Some("."@)),
{
}

/// The directory of a file is its parent, where that has a name.
pub proof fn a_file_needs_its_parent(parent: Seq<char>)
    ensures
        parent.len() > 0 ==> directory_in(Some(parent)) == Some(parent),
        parent.len() == 0 ==> directory_in(Some(parent)) is None,
        directory_in(None) is None,
{
}

/// The editor's toolbar offers every tool that leaves something on the picture, Undo and Save,
/// and begins with Rectangle.
pub proof fn the_editor_offers_every_tool(s: ToolbarSpecView, kind: ToolKind)
    requires
        is_editor_spec(s),
    ensures
        (exists|i: int| 0 <= i < s.tools.len() && (#[trigger] s.tools[i]).kind == kind) <==> kind
            != ToolKind::Select,
        s.show_undo && s.show_save && s.initial_tool == Some(ToolKind::Rect),
        !s.show_capture && !s.show_clear && !s.show_passthrough_toggle && s.modes.len() == 0,
{
    let i: int = match kind {
        ToolKind::Select => -1,
        ToolKind::Rect => 0,
        ToolKind::Ellipse => 1,
        ToolKind::Arrow => 2,
        ToolKind::Line => 3,
        ToolKind::Highlight => 4,
        ToolKind::Freehand => 5,
        ToolKind::Number => 6,
        ToolKind::Text => 7,
        ToolKind::Blur => 8,
        ToolKind::Redact => 9,
        ToolKind::Crop => 10,
    };
    if kind != ToolKind::Select {
        assert(s.tools[i].kind == kind);
    }
}

/// Choosing a tool puts it to use, Undo takes back the newest layer, and Save saves the picture
/// as it is. Other actions do nothing in the editor.
pub proof fn actions_do_what_they_are_for<N, S>(
    canvas: CanvasView<N, S>,
    kind: ToolKind,
    measured: (u32, u32),
    other: ToolbarAction<S>,
)
    requires
        !(other is ToolSelected || other is Undo || other is Save),
    ensures
        edited(canvas, ToolbarAction::ToolSelected(kind), measured).0.tool == kind,
        canvas.doc matches Some(d) ==> d.layers.len() > 0 ==> edited(
            canvas,
            ToolbarAction::Undo,
            measured,
        ).0.doc == Some(DocumentView::<N, S> { layers: d.layers.drop_last(), ..d }),
        edited(canvas, ToolbarAction::Save, measured) == (canvas, EditorStep::Save),
        edited(canvas, other, measured) == (canvas, EditorStep::Nothing),
{
}

} // verus!
