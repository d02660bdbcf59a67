use snypr::region::Rect;
use snypr::ui::canvas::{AnnotateColors, AnnotationCanvas, Blink, ComposeError, Look};
use snypr::ui::canvas_events::{ClickAction, DragShape, Under};
use snypr::ui::keys::{Key, Modifiers, KEY_DELETE, KEY_ESCAPE, KEY_RETURN, KEY_RIGHT};
use snypr::ui::paint::{snapshot, Dash, Extents, Paint};
use snypr::ui::picture::base_from_rgba;
use snypr::ui::select::{Hits, Move, Moved};
use snypr::ui::tools::{BoxHandle, Document, FontSize, Layer, StrokeStyle, ToolKind};

const RED: [f32; 4] = [1.0, 0.0, 0.0, 1.0];
const GREEN: [f32; 4] = [0.0, 1.0, 0.0, 1.0];
const WHITE: [f32; 4] = [1.0; 4];

/// A font size.
fn points(asked: f32) -> FontSize<f32> {
    FontSize { asked, one: 1.0, below_one: !(asked >= 1.0) }
}

fn look() -> Look<f64, f32> {
    Look {
        box_stroke: RED,
        line_stroke: RED,
        box_width: 3.0,
        line_width: 4.0,
        highlight: [1.0, 1.0, 0.0, 0.35],
        number_fill: RED,
        number_text: WHITE,
        number_radius: 18.0,
        text_color: RED,
        font_size: 18.0,
        blur_radius: 12.0,
        redact_preview: [0.0, 0.0, 0.0, 0.85],
        crop_preview: [0.0, 0.6, 1.0, 0.25],
        blur_preview: [0.5, 0.5, 0.5, 0.5],
        other_preview: RED,
        zero: 0.0,
    }
}

fn canvas() -> AnnotationCanvas<f64, f32> {
    let colors = AnnotateColors {
        rect: RED,
        ellipse: RED,
        arrow: GREEN,
        line: RED,
        freehand: RED,
        highlight: [1.0, 1.0, 0.0, 0.35],
        number: RED,
        text: GREEN,
    };
    let mut c = AnnotationCanvas::new(look(), &colors);
    c.set_document(Document::empty((100, 80)));
    c
}

fn between(a: (f64, f64), b: (f64, f64)) -> Rect {
    Rect {
        x: a.0.min(b.0).round() as i32,
        y: a.1.min(b.1).round() as i32,
        w: (a.0 - b.0).abs().round() as u32,
        h: (a.1 - b.1).abs().round() as u32,
    }
}

/// Drags with the tool in use. What lies under the pointer does not matter to drawing tools.
fn drag(c: &mut AnnotationCanvas<f64, f32>, from: (f64, f64), to: (f64, f64), shift: bool) -> bool {
    let under = vec![nowhere(); layers(c)];
    c.drag_begin(from, shift, &under);
    c.drag_update(to, shift, Moved::Nothing);
    let rect = between(from, to);
    let side = rect.w.min(rect.h);
    let long = ((from.0 - to.0).powi(2) + (from.1 - to.1).powi(2)).sqrt() >= 2.0;
    let shape = DragShape {
        rect,
        square: Rect { w: side, h: side, ..rect },
        long_enough: long,
    };
    c.drag_end(to, shift, shape).commit
}

fn layers(c: &AnnotationCanvas<f64, f32>) -> usize {
    c.doc.as_ref().map_or(0, |d| d.layers.len())
}

fn layer(c: &AnnotationCanvas<f64, f32>, i: usize) -> &Layer<f64, f32> {
    &c.doc.as_ref().unwrap().layers[i]
}

fn nowhere() -> Under {
    Under {
        hits: Hits {
            body: false,
            box_handle: None,
            from: false,
            to: false,
            radius: false,
            text: [false; 6],
        },
        bounds: Rect { x: 0, y: 0, w: 0, h: 0 },
    }
}

fn on_body(bounds: Rect) -> Under {
    let mut under = nowhere();
    under.hits.body = true;
    under.bounds = bounds;
    under
}

#[test]
fn a_drag_leaves_a_layer_of_its_tool() {
    let mut c = canvas();
    c.set_tool(ToolKind::Arrow, (0, 0));
    assert!(drag(&mut c, (10.0, 10.0), (40.0, 30.0), false));
    match layer(&c, 0) {
        Layer::Arrow(a) => {
            assert_eq!((a.from, a.to), ((10.0, 10.0), (40.0, 30.0)));
            assert_eq!((a.stroke, a.stroke_width), (GREEN, 4.0));
            assert_eq!(a.stroke_style, StrokeStyle::Solid);
        }
        other => panic!("{other:?}"),
    }
}

#[test]
fn a_drag_that_is_too_short_leaves_nothing() {
    let mut c = canvas();
    for kind in [ToolKind::Rect, ToolKind::Arrow, ToolKind::Highlight, ToolKind::Redact] {
        c.set_tool(kind, (0, 0));
        assert!(!drag(&mut c, (10.0, 10.0), (11.0, 10.0), false));
    }
    assert_eq!(layers(&c), 0);
}

#[test]
fn shift_makes_a_square_of_a_rectangle() {
    let mut c = canvas();
    c.set_tool(ToolKind::Rect, (0, 0));
    drag(&mut c, (0.0, 0.0), (40.0, 20.0), true);
    c.set_tool(ToolKind::Highlight, (0, 0));
    drag(&mut c, (0.0, 0.0), (40.0, 20.0), true);
    match (layer(&c, 0), layer(&c, 1)) {
        (Layer::Rect(r), Layer::Highlight(h)) => {
            assert_eq!(r.bounds, Rect { x: 0, y: 0, w: 20, h: 20 });
            assert_eq!(h.bounds, Rect { x: 0, y: 0, w: 40, h: 20 });
        }
        other => panic!("{other:?}"),
    }
}

#[test]
fn a_crop_stays_on_the_document() {
    let mut c = canvas();
    c.set_tool(ToolKind::Crop, (0, 0));
    assert!(drag(&mut c, (-20.0, 10.0), (50.0, 300.0), false));
    assert_eq!(c.doc.as_ref().unwrap().crop, Some(Rect { x: 0, y: 10, w: 50, h: 70 }));
    assert_eq!(c.doc.as_ref().unwrap().bounds(), Rect { x: 0, y: 10, w: 50, h: 70 });
    assert_eq!(layers(&c), 0);
    assert!(!drag(&mut c, (20.0, 20.0), (21.0, 60.0), false), "too narrow for a crop");
    assert_eq!(c.doc.as_ref().unwrap().crop, Some(Rect { x: 0, y: 10, w: 50, h: 70 }));
    assert!(drag(&mut c, (0.0, 0.0), (50.0, 50.0), false), "a crop may replace another one");
    assert_eq!(c.doc.as_ref().unwrap().crop, Some(Rect { x: 0, y: 0, w: 50, h: 50 }));
}

#[test]
fn a_blur_with_shift_blurs_everything_else() {
    let mut c = canvas();
    c.set_tool(ToolKind::Blur, (0, 0));
    drag(&mut c, (10.0, 10.0), (500.0, 20.0), true);
    match layer(&c, 0) {
        Layer::Blur(b) => {
            assert!(b.invert);
            assert_eq!(b.bounds, Rect { x: 10, y: 10, w: 90, h: 10 });
        }
        other => panic!("{other:?}"),
    }
}

#[test]
fn numbers_count_up_and_are_not_used_again() {
    let mut c = canvas();
    c.set_tool(ToolKind::Number, (0, 0));
    assert_eq!(c.click_action(1), ClickAction::PlaceNumber);
    assert!(c.place_number((5.0, 5.0)).commit);
    c.place_number((15.0, 5.0));
    match layer(&c, 1) {
        Layer::Number(n) => assert_eq!((n.value, n.radius), (2, 18.0)),
        other => panic!("{other:?}"),
    }
    let (undone, _) = c.undo();
    assert!(undone);
    assert_eq!((layers(&c), c.next_number), (1, 3));
    c.clear_layers();
    assert_eq!((layers(&c), c.next_number), (0, 3));
    assert!(!c.undo().0, "there is nothing left to undo");
}

#[test]
fn undo_takes_back_a_drag() {
    let mut c = canvas();
    c.set_tool(ToolKind::Line, (0, 0));
    drag(&mut c, (0.0, 0.0), (30.0, 30.0), false);
    assert_eq!(layers(&c), 1);
    assert!(c.undo().0);
    assert_eq!(layers(&c), 0);
}

fn type_text(c: &mut AnnotationCanvas<f64, f32>, text: &str) {
    for ch in text.chars() {
        let response = c.key_pressed(Key::from_char(ch), Modifiers::none(), (0, 0));
        assert!(response.consumed);
    }
}

#[test]
fn a_text_is_typed_and_committed() {
    let mut c = canvas();
    c.set_tool(ToolKind::Text, (0, 0));
    assert_eq!(c.click_action(1), ClickAction::PlaceText);
    let effects = c.start_or_commit_text((10.0, 20.0), (0, 0));
    assert!(effects.focus && effects.ui_state);
    assert_eq!(effects.blink, Blink::Start);
    assert!(c.is_editing_text());
    type_text(&mut c, "hi");
    let done = c.key_pressed(Key::named(KEY_RETURN), Modifiers::none(), (30, 12));
    assert!(done.consumed && done.effects.commit);
    assert_eq!(done.effects.blink, Blink::Stop);
    match layer(&c, 0) {
        Layer::Text(t) => {
            assert_eq!((t.text.as_str(), t.bounds_cache), ("hi", (30, 12)));
            assert_eq!((t.origin, t.color, t.size_pt), ((10.0, 20.0), GREEN, 18.0));
        }
        other => panic!("{other:?}"),
    }
}

#[test]
fn an_empty_text_leaves_no_layer() {
    let mut c = canvas();
    c.set_tool(ToolKind::Text, (0, 0));
    c.start_or_commit_text((10.0, 20.0), (0, 0));
    c.key_pressed(Key::named(KEY_RETURN), Modifiers::none(), (0, 0));
    assert_eq!(layers(&c), 0);
    assert!(!c.is_editing_text());
}

#[test]
fn an_abandoned_reedit_gives_the_text_back() {
    let mut c = canvas();
    c.set_tool(ToolKind::Text, (0, 0));
    c.start_or_commit_text((10.0, 20.0), (0, 0));
    type_text(&mut c, "hi");
    c.commit_pending_text((30, 12));
    let before = format!("{:?}", layer(&c, 0));
    c.try_reedit_text(&[true]);
    assert!(c.is_editing_text());
    assert_eq!(layers(&c), 0, "the text is taken out while it is edited");
    type_text(&mut c, "!");
    c.key_pressed(Key::named(KEY_ESCAPE), Modifiers::none(), (0, 0));
    assert_eq!(format!("{:?}", layer(&c, 0)), before);
}

#[test]
fn accelerators_are_passed_on_while_a_text_is_edited() {
    let mut c = canvas();
    c.set_tool(ToolKind::Text, (0, 0));
    c.start_or_commit_text((0.0, 0.0), (0, 0));
    let control = Modifiers { control: true, ..Modifiers::none() };
    assert!(!c.key_pressed(Key::from_char('s'), control, (0, 0)).consumed);
    assert!(c.is_editing_text());
    assert!(c.blink_caret());
    c.cancel_pending_text();
    assert!(!c.blink_caret());
}

/// A canvas with a rectangle, and Select in use.
fn with_rect() -> AnnotationCanvas<f64, f32> {
    let mut c = canvas();
    c.set_tool(ToolKind::Rect, (0, 0));
    drag(&mut c, (10.0, 10.0), (40.0, 30.0), false);
    c.set_tool(ToolKind::Select, (0, 0));
    c
}

#[test]
fn a_press_on_a_layer_selects_and_moves_it() {
    let mut c = with_rect();
    let bounds = Rect { x: 10, y: 10, w: 30, h: 20 };
    c.drag_begin((20.0, 20.0), false, &[on_body(bounds)]);
    assert_eq!(c.selected_kind(), Some(ToolKind::Rect));
    match c.plan_drag((25.0, 18.0)) {
        Move::ShiftBox { bounds: b, start, cur } => {
            assert_eq!((b, start, cur), (bounds, (20.0, 20.0), (25.0, 18.0)));
        }
        other => panic!("{other:?}"),
    }
    let moved = Rect { x: 15, y: 8, ..bounds };
    c.drag_update((25.0, 18.0), false, Moved::Bounds(moved));
    match layer(&c, 0) {
        Layer::Rect(r) => assert_eq!(r.bounds, moved),
        other => panic!("{other:?}"),
    }
    c.drag_begin((90.0, 70.0), false, &[nowhere()]);
    assert_eq!(c.selected_kind(), None, "a press beside the layers selects none");
}

#[test]
fn the_keyboard_moves_and_deletes_the_selection() {
    let mut c = with_rect();
    c.drag_begin((20.0, 20.0), false, &[on_body(Rect { x: 10, y: 10, w: 30, h: 20 })]);
    let nudge = c.key_pressed(Key::named(KEY_RIGHT), Modifiers::none(), (0, 0));
    assert!(nudge.consumed);
    assert_eq!(nudge.nudge, Some((0, 1, 0)));
    let nudged = Rect { x: 11, y: 10, w: 30, h: 20 };
    let (start, cur) = ((0.0, 0.0), (1.0, 0.0));
    assert!(c.move_layer(0, start, cur, Moved::Bounds(nudged)));
    match layer(&c, 0) {
        Layer::Rect(r) => assert_eq!(r.bounds, nudged),
        other => panic!("{other:?}"),
    }
    assert!(!c.move_layer(1, start, cur, Moved::Bounds(nudged)), "there is no such layer");
    let gone = c.key_pressed(Key::named(KEY_DELETE), Modifiers::none(), (0, 0));
    assert!(gone.consumed && gone.effects.ui_state);
    assert_eq!((layers(&c), c.selected_kind()), (0, None));
    assert!(!c.key_pressed(Key::named(KEY_DELETE), Modifiers::none(), (0, 0)).consumed);
}

#[test]
fn a_color_goes_to_what_is_worked_on() {
    let mut c = with_rect();
    assert!(!c.apply_color_to_target(GREEN).0, "nothing is selected");
    c.drag_begin((20.0, 20.0), false, &[on_body(Rect { x: 10, y: 10, w: 30, h: 20 })]);
    assert!(c.apply_color_to_target(GREEN).0);
    assert!(c.apply_style_to_target(StrokeStyle::Dotted).0);
    assert!(!c.apply_font_size_to_target(points(30.0), (0, 0)).0, "a rectangle has no font");
    match layer(&c, 0) {
        Layer::Rect(r) => assert_eq!((r.stroke, r.stroke_style), (GREEN, StrokeStyle::Dotted)),
        other => panic!("{other:?}"),
    }
    assert_eq!(c.tool_color(ToolKind::Rect), Some(RED), "the tool keeps its color");
}

#[test]
fn tools_have_colors_styles_and_sizes() {
    let mut c = canvas();
    assert_eq!(c.tool(), ToolKind::Rect);
    assert_eq!(c.tool_color(ToolKind::Arrow), Some(GREEN));
    assert_eq!(c.tool_color(ToolKind::Redact), None);
    c.set_tool_color(ToolKind::Line, GREEN);
    c.set_tool_style(ToolKind::Line, StrokeStyle::Dashed);
    c.set_tool_font_size(ToolKind::Text, points(30.0));
    assert_eq!(c.tool_color(ToolKind::Line), Some(GREEN));
    assert_eq!(c.tool_style(ToolKind::Line), Some(StrokeStyle::Dashed));
    assert_eq!(c.tool_font_size(ToolKind::Text), Some(30.0));
}

#[test]
fn no_text_is_smaller_than_a_point() {
    let mut c = canvas();
    for (asked, stored) in [(0.25, 1.0), (-4.0, 1.0), (f32::NAN, 1.0), (1.0, 1.0), (1.5, 1.5)] {
        c.set_tool_font_size(ToolKind::Text, points(asked));
        assert_eq!(c.tool_font_size(ToolKind::Text), Some(stored));
    }
    c.set_tool(ToolKind::Text, (0, 0));
    c.start_or_commit_text((10.0, 20.0), (0, 0));
    assert!(c.apply_font_size_to_target(points(0.5), (0, 0)).0);
    assert_eq!(c.pending_text.as_ref().map(|pt| pt.size_pt), Some(1.0));
}

#[test]
fn a_hidden_picture_is_not_shown() {
    let mut c = canvas();
    assert!(!c.has_base());
    c.set_hidden_base(base_from_rgba(1, 1, vec![1, 2, 3, 4]));
    assert!(c.has_base());
    c.set_transparent(true);
    let e = Extents {
        rect: Rect { x: 0, y: 0, w: 0, h: 0 },
        square: Rect { x: 0, y: 0, w: 0, h: 0 },
        selected: Rect { x: 0, y: 0, w: 0, h: 0 },
    };
    assert!(!snapshot(&c, &e).iter().any(|p| matches!(p, Paint::Base)));
    c.set_document(Document::with_base(base_from_rgba(1, 1, vec![1, 2, 3, 4])));
    assert!(snapshot(&c, &e).iter().any(|p| matches!(p, Paint::Base)));
}

#[test]
fn the_canvas_is_as_large_as_its_document() {
    let mut c = canvas();
    assert_eq!(c.measure(true), (0, 100, -1, -1));
    assert_eq!(c.measure(false), (0, 80, -1, -1));
    c.set_empty((7, 9));
    assert_eq!(c.measure(false), (0, 9, -1, -1));
}

#[test]
fn an_export_holds_the_layers_and_nothing_in_progress() {
    let mut c = with_rect();
    c.drag_begin((20.0, 20.0), false, &[on_body(Rect { x: 10, y: 10, w: 30, h: 20 })]);
    let (viewport, paint) = c.compose().unwrap();
    assert_eq!(viewport, Rect { x: 0, y: 0, w: 100, h: 80 });
    assert_eq!(paint.len(), 1);
    match &paint[0] {
        Paint::Box { rect, .. } => assert_eq!(*rect, Rect { x: 10, y: 10, w: 30, h: 20 }),
        other => panic!("{other:?}"),
    }
}

#[test]
fn a_failed_export_says_why() {
    let mut c = canvas();
    let err = c.compose().unwrap_err();
    assert_eq!(err, ComposeError::NothingToCompose);
    assert_eq!(err.message(), "nothing to compose: document has no base and no layers");
    c.set_empty((0, 5));
    assert_eq!(c.compose().unwrap_err(), ComposeError::EmptyDocument);
    c.doc = None;
    assert_eq!(c.compose().unwrap_err(), ComposeError::NoDocument);
    assert_eq!(ComposeError::NoDocument.message(), "no document loaded");
}

#[test]
fn the_cursor_tells_what_a_press_would_take() {
    let mut c = with_rect();
    let bounds = Rect { x: 10, y: 10, w: 30, h: 20 };
    let mut corner = nowhere();
    corner.bounds = bounds;
    corner.hits.box_handle = Some(BoxHandle::NE);
    assert_eq!(c.select_cursor_at(&[corner]), None, "handles are there for a selection only");
    assert_eq!(c.select_cursor_at(&[on_body(bounds)]), Some("move"));
    c.drag_begin((20.0, 20.0), false, &[on_body(bounds)]);
    assert_eq!(c.select_cursor_at(&[corner]), Some("nesw-resize"));
    assert_eq!(c.select_cursor_at(&[nowhere()]), None);

    assert!(c.set_canvas_cursor(Some("move")));
    assert!(!c.set_canvas_cursor(Some("move")), "it is shown already");
    assert!(c.set_canvas_cursor(None));
}

#[test]
fn an_arrow_has_a_dashed_shaft_and_a_solid_head() {
    let mut c = canvas();
    c.set_tool(ToolKind::Arrow, (0, 0));
    c.set_tool_style(ToolKind::Arrow, StrokeStyle::Dashed);
    assert!(drag(&mut c, (10.0, 10.0), (60.0, 50.0), false));
    let (_, paint) = c.compose().unwrap();
    assert_eq!(paint.len(), 2);
    match (&paint[0], &paint[1]) {
        (Paint::Line { pen, .. }, Paint::Arrowhead { from, to, .. }) => {
            assert!(matches!(pen.dash, Dash::Style(StrokeStyle::Dashed)));
            assert_eq!((*from, *to), ((10.0, 10.0), (60.0, 50.0)));
        }
        other => panic!("{other:?}"),
    }
}
