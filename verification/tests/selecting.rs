use snypr::region::Rect;
use snypr::ui::canvas_events::clamp_to_doc;
use snypr::ui::keys::{
    Key, Modifiers, KEY_BACKSPACE, KEY_DELETE, KEY_DOWN, KEY_ESCAPE, KEY_F1, KEY_LEFT, KEY_RIGHT,
    KEY_TAB, KEY_UP,
};
use snypr::ui::select::{
    apply_manipulation as apply_step, apply_shift, box_handle_cursor, box_handle_point, endpoints,
    grab_at, grab_cursor, grab_geometry, plan_move, plan_shift, select_key_action, text_handles,
    Edge, Grab, GrabGeometry, Hits, Manipulation, Move, Moved, SelectKeyAction, NUDGE_STEP,
    NUDGE_STEP_COARSE,
};
use snypr::ui::tools::{
    kind_has_font_size, kind_is_colorable, kind_is_styleable, set_box_bounds, set_layer_color,
    set_layer_style, set_pair, ArrowTool, BoxHandle, EllipseTool, Endpoint, FreehandTool,
    HighlightTool, Layer, LineTool, NumberTool, RectTool, RedactTool, StrokeStyle, TextTool,
    ToolKind,
};

type Tool = Layer<f64, f32>;

fn rect(x: i32, y: i32, w: u32, h: u32) -> Rect {
    Rect { x, y, w, h }
}

fn rect_tool(bounds: Rect) -> Tool {
    Layer::Rect(RectTool {
        bounds,
        stroke: [1.0, 0.0, 0.0, 1.0],
        stroke_width: 3.0,
        stroke_style: StrokeStyle::Solid,
    })
}

fn ellipse_tool(bounds: Rect) -> Tool {
    Layer::Ellipse(EllipseTool {
        bounds,
        stroke: [1.0, 0.0, 0.0, 1.0],
        stroke_width: 3.0,
        stroke_style: StrokeStyle::Solid,
    })
}

fn highlight_tool(bounds: Rect) -> Tool {
    Layer::Highlight(HighlightTool { bounds, color: [1.0, 1.0, 0.0, 0.35] })
}

fn redact_tool(bounds: Rect) -> Tool {
    Layer::Redact(RedactTool { bounds })
}

fn line_tool(from: (f64, f64), to: (f64, f64)) -> Tool {
    Layer::Line(LineTool {
        from,
        to,
        stroke: [1.0, 0.0, 0.0, 1.0],
        stroke_width: 4.0,
        stroke_style: StrokeStyle::Solid,
    })
}

fn arrow_tool(from: (f64, f64), to: (f64, f64)) -> Tool {
    Layer::Arrow(ArrowTool {
        from,
        to,
        stroke: [1.0, 0.0, 0.0, 1.0],
        stroke_width: 4.0,
        stroke_style: StrokeStyle::Solid,
    })
}

fn number_tool(center: (f64, f64), value: u32) -> Tool {
    Layer::Number(NumberTool {
        center,
        value,
        fill: [1.0; 4],
        text_color: [1.0; 4],
        radius: 18.0,
    })
}

fn freehand_tool(points: Vec<(f64, f64)>) -> Tool {
    Layer::Freehand(FreehandTool {
        points,
        stroke: [1.0; 4],
        stroke_width: 4.0,
        stroke_style: StrokeStyle::Solid,
    })
}

fn text_tool(text: &str) -> Tool {
    Layer::Text(TextTool {
        origin: (10.0, 20.0),
        text: text.to_owned(),
        size_pt: 16.0,
        color: [1.0; 4],
        wrap_width: None,
        bounds_cache: (100, 40),
    })
}

/// The box around a layer that has one.
fn bounds(layer: &Tool) -> Rect {
    match layer {
        Layer::Rect(t) => t.bounds,
        Layer::Ellipse(t) => t.bounds,
        Layer::Highlight(t) => t.bounds,
        Layer::Redact(t) => t.bounds,
        Layer::Blur(t) => t.bounds,
        other => panic!("{other:?} has no box"),
    }
}

fn geometry(layer: &Tool) -> GrabGeometry<f64, f32> {
    let text_bounds = match layer {
        Layer::Text(t) => rect(
            t.origin.0 as i32,
            t.origin.1 as i32,
            t.bounds_cache.0,
            t.bounds_cache.1,
        ),
        Layer::Rect(_) | Layer::Ellipse(_) | Layer::Highlight(_) | Layer::Redact(_) => {
            bounds(layer)
        }
        _ => rect(0, 0, 0, 0),
    };
    grab_geometry(layer, text_bounds, (0.0, 0.0))
}

fn manip(
    grab: Grab,
    origin: GrabGeometry<f64, f32>,
    start: (f64, f64),
) -> Manipulation<f64, f32> {
    Manipulation { layer: 0, grab, origin, start, last: start }
}

fn new_radius(center: (f64, f64), x: f64, y: f64) -> f64 {
    ((x - center.0).powi(2) + (y - center.1).powi(2)).sqrt().max(6.0)
}

fn between(x0: f64, y0: f64, x1: f64, y1: f64) -> Rect {
    Rect {
        x: x0.min(x1).round() as i32,
        y: y0.min(y1).round() as i32,
        w: (x0 - x1).abs().round() as u32,
        h: (y0 - y1).abs().round() as u32,
    }
}

fn resized(b: Rect, handle: BoxHandle, cur: (f64, f64)) -> Rect {
    let (mut left, mut top) = (b.x as f64, b.y as f64);
    let (mut right, mut bottom) = (left + b.w as f64, top + b.h as f64);
    match handle {
        BoxHandle::NW | BoxHandle::W | BoxHandle::SW => left = cur.0,
        BoxHandle::NE | BoxHandle::E | BoxHandle::SE => right = cur.0,
        _ => {}
    }
    match handle {
        BoxHandle::NW | BoxHandle::N | BoxHandle::NE => top = cur.1,
        BoxHandle::SW | BoxHandle::S | BoxHandle::SE => bottom = cur.1,
        _ => {}
    }
    between(left, top, right, bottom)
}

/// Does the arithmetic that a step of a drag asks for. Text cannot be measured here.
fn compute(layer: &Tool, plan: Move<f64, f32>) -> Moved<f64, f32> {
    match plan {
        Move::ShiftBox { bounds, start, cur } => Moved::Bounds(Rect {
            x: bounds.x + (cur.0 - start.0).round() as i32,
            y: bounds.y + (cur.1 - start.1).round() as i32,
            ..bounds
        }),
        Move::ShiftPair { from, to, start, cur } => {
            let (dx, dy) = (cur.0 - start.0, cur.1 - start.1);
            Moved::Pair {
                from: (from.0 + dx, from.1 + dy),
                to: (to.0 + dx, to.1 + dy),
            }
        }
        Move::ShiftCenter { center, start, cur } => {
            Moved::Center((center.0 + cur.0 - start.0, center.1 + cur.1 - start.1))
        }
        Move::ShiftPoints { start, cur } => match layer {
            Layer::Freehand(t) => Moved::Points(
                t.points
                    .iter()
                    .map(|p| (p.0 + cur.0 - start.0, p.1 + cur.1 - start.1))
                    .collect(),
            ),
            _ => Moved::Nothing,
        },
        Move::ShiftText { origin, start, cur } => {
            Moved::Origin((origin.0 + cur.0 - start.0, origin.1 + cur.1 - start.1))
        }
        Move::ResizeBox { bounds, handle, cur } => Moved::Bounds(resized(bounds, handle, cur)),
        Move::SetPair { from, to } => Moved::Pair { from, to },
        Move::SetRadius { center, cur } => Moved::Radius(new_radius(center, cur.0, cur.1)),
        Move::WrapText { .. } | Move::ScaleText { .. } | Move::Nothing => Moved::Nothing,
    }
}

fn apply_manipulation(layer: &mut Tool, m: &Manipulation<f64, f32>, cur: (f64, f64)) {
    let moved = compute(layer, plan_move(m, cur));
    apply_step(layer, m, cur, moved);
}

fn near(a: (f64, f64), x: f64, y: f64) -> bool {
    (a.0 - x).abs() <= 8.0 && (a.1 - y).abs() <= 8.0
}

/// What a pointer at a point is over.
fn hits(layer: &Tool, x: f64, y: f64) -> Hits {
    let mut hits = Hits {
        body: false,
        box_handle: None,
        from: false,
        to: false,
        radius: false,
        text: [false; 6],
    };
    match layer {
        Layer::Line(t) => {
            hits.from = near(t.from, x, y);
            hits.to = near(t.to, x, y);
            let along = ((x - t.from.0) * (t.to.1 - t.from.1))
                - ((y - t.from.1) * (t.to.0 - t.from.0));
            hits.body = along.abs() < 1.0;
        }
        Layer::Number(t) => {
            hits.radius = near((t.center.0 + t.radius, t.center.1), x, y);
            hits.body = new_radius(t.center, x, y) <= t.radius;
        }
        other => {
            let b = bounds(other);
            hits.body = b.contains(x as i32, y as i32);
            for h in [
                BoxHandle::NW,
                BoxHandle::N,
                BoxHandle::NE,
                BoxHandle::E,
                BoxHandle::SE,
                BoxHandle::S,
                BoxHandle::SW,
                BoxHandle::W,
            ] {
                let (px, py) = box_handle_point(b, h);
                if hits.box_handle.is_none() && near((px as f64 / 2.0, py as f64 / 2.0), x, y) {
                    hits.box_handle = Some(h);
                }
            }
        }
    }
    hits
}

#[test]
fn clamp_to_doc_constrains_overflow() {
    let r = Rect { x: -3, y: -1, w: 100, h: 100 };
    let c = clamp_to_doc(r, (20, 10));
    assert_eq!(c.x, 0);
    assert_eq!(c.y, 0);
    assert_eq!(c.w, 20);
    assert_eq!(c.h, 10);
}

#[test]
fn set_layer_color_recolors_colorable_kinds() {
    let mut layer = rect_tool(rect(0, 0, 10, 10));
    assert!(set_layer_color(&mut layer, [0.0, 1.0, 0.0, 1.0]));
    match &layer {
        Layer::Rect(r) => assert_eq!(r.stroke, [0.0, 1.0, 0.0, 1.0]),
        other => panic!("expected Rect, got {other:?}"),
    }

    let mut redact = redact_tool(rect(0, 0, 5, 5));
    assert!(!set_layer_color(&mut redact, [1.0, 1.0, 1.0, 1.0]));
}

#[test]
fn set_layer_style_only_affects_outline_kinds() {
    let mut line = line_tool((0.0, 0.0), (5.0, 5.0));
    assert!(set_layer_style(&mut line, StrokeStyle::Dashed));
    match &line {
        Layer::Line(l) => assert_eq!(l.stroke_style, StrokeStyle::Dashed),
        other => panic!("expected Line, got {other:?}"),
    }

    let mut hl = highlight_tool(rect(0, 0, 5, 5));
    assert!(!set_layer_style(&mut hl, StrokeStyle::Dotted));
}

#[test]
fn arrow_keys_nudge_the_selection() {
    for (key, dx, dy) in [
        (KEY_LEFT, -NUDGE_STEP, 0),
        (KEY_RIGHT, NUDGE_STEP, 0),
        (KEY_UP, 0, -NUDGE_STEP),
        (KEY_DOWN, 0, NUDGE_STEP),
    ] {
        let action = select_key_action(ToolKind::Select, Key::named(key), Modifiers::none(), true);
        assert_eq!(action, SelectKeyAction::Nudge(dx, dy));
    }
    assert_eq!(NUDGE_STEP, 1);
}

#[test]
fn shift_makes_the_nudge_coarse() {
    let shift = Modifiers { shift: true, ..Modifiers::none() };
    for (key, dx, dy) in [(KEY_LEFT, -NUDGE_STEP_COARSE, 0), (KEY_DOWN, 0, NUDGE_STEP_COARSE)] {
        let action = select_key_action(ToolKind::Select, Key::named(key), shift, true);
        assert_eq!(action, SelectKeyAction::Nudge(dx, dy));
    }
    assert_eq!(NUDGE_STEP_COARSE, 10);
}

#[test]
fn select_key_action_maps_the_editing_keys() {
    for (key, expected) in [
        (Key::named(KEY_BACKSPACE), SelectKeyAction::Delete),
        (Key::named(KEY_DELETE), SelectKeyAction::Delete),
        (Key::named(KEY_ESCAPE), SelectKeyAction::Deselect),
        (Key::named(KEY_TAB), SelectKeyAction::Ignore),
        (Key::from_char('a'), SelectKeyAction::Ignore),
        (Key::named(KEY_F1), SelectKeyAction::Ignore),
    ] {
        let action = select_key_action(ToolKind::Select, key, Modifiers::none(), true);
        assert_eq!(action, expected);
    }
}

#[test]
fn chords_are_reserved_for_global_accelerators() {
    let none = Modifiers::none();
    for state in [
        Modifiers { control: true, ..none },
        Modifiers { alt: true, ..none },
        Modifiers { super_key: true, ..none },
        Modifiers { control: true, shift: true, ..none },
    ] {
        for key in [KEY_LEFT, KEY_DELETE, KEY_ESCAPE, KEY_DOWN] {
            assert_eq!(
                select_key_action(ToolKind::Select, Key::named(key), state, true),
                SelectKeyAction::Ignore,
                "{key:?} with {state:?} should propagate"
            );
        }
    }
}

#[test]
fn select_keys_do_nothing_without_a_selection() {
    for key in [KEY_LEFT, KEY_DELETE, KEY_ESCAPE] {
        assert_eq!(
            select_key_action(ToolKind::Select, Key::named(key), Modifiers::none(), false),
            SelectKeyAction::Ignore
        );
    }
}

#[test]
fn select_keys_only_apply_to_the_select_tool() {
    for tool in [ToolKind::Rect, ToolKind::Text, ToolKind::Freehand, ToolKind::Crop] {
        assert_eq!(
            select_key_action(tool, Key::named(KEY_DELETE), Modifiers::none(), true),
            SelectKeyAction::Ignore
        );
    }
}

#[test]
fn box_handle_cursor_names_the_drag_axis() {
    for (handle, expected) in [
        (BoxHandle::NW, "nwse-resize"),
        (BoxHandle::SE, "nwse-resize"),
        (BoxHandle::NE, "nesw-resize"),
        (BoxHandle::SW, "nesw-resize"),
        (BoxHandle::N, "ns-resize"),
        (BoxHandle::S, "ns-resize"),
        (BoxHandle::E, "ew-resize"),
        (BoxHandle::W, "ew-resize"),
    ] {
        assert_eq!(box_handle_cursor(handle), expected);
    }
}

#[test]
fn every_grab_has_a_pointer_shape() {
    assert_eq!(grab_cursor(Grab::Body), "move");
    assert_eq!(grab_cursor(Grab::NumberRadius), "ew-resize");
    assert_eq!(grab_cursor(Grab::Endpoint(Endpoint::To)), "crosshair");
    assert_eq!(grab_cursor(Grab::BoxHandle(BoxHandle::N)), "ns-resize");
}

#[test]
fn grab_geometry_snapshots_a_box_tool_as_its_bounds() {
    let tool = rect_tool(rect(1, 2, 30, 40));
    match geometry(&tool) {
        GrabGeometry::Box(r) => assert_eq!(r, rect(1, 2, 30, 40)),
        other => panic!("expected Box, got {other:?}"),
    }
}

#[test]
fn grab_geometry_snapshots_a_two_point_tool_as_a_pair() {
    let tool = line_tool((1.0, 2.0), (3.0, 4.0));
    match geometry(&tool) {
        GrabGeometry::Pair { from, to } => {
            assert_eq!(from, (1.0, 2.0));
            assert_eq!(to, (3.0, 4.0));
        }
        other => panic!("expected Pair, got {other:?}"),
    }
}

#[test]
fn grab_geometry_snapshots_a_number_as_a_center_and_radius() {
    let tool = number_tool((50.0, 60.0), 1);
    match geometry(&tool) {
        GrabGeometry::Center { center, radius } => {
            assert_eq!(center, (50.0, 60.0));
            assert!(radius > 0.0);
        }
        other => panic!("expected Center, got {other:?}"),
    }
}

#[test]
fn grab_geometry_snapshots_text_with_everything_needed_to_resize() {
    let tool = text_tool("hi");
    match geometry(&tool) {
        GrabGeometry::Text { origin, size_pt, wrap_width, bounds } => {
            assert_eq!(origin, (10.0, 20.0));
            assert_eq!(size_pt, 16.0);
            assert_eq!(wrap_width, None);
            assert_eq!(bounds, rect(10, 20, 100, 40));
        }
        other => panic!("expected Text, got {other:?}"),
    }
}

#[test]
fn grab_geometry_snapshots_freehand_as_its_first_point() {
    let tool = freehand_tool(vec![(7.0, 8.0), (9.0, 10.0)]);
    match geometry(&tool) {
        GrabGeometry::Origin(p) => assert_eq!(p, (7.0, 8.0)),
        other => panic!("expected Origin, got {other:?}"),
    }
}

#[test]
fn grab_geometry_tolerates_an_empty_freehand_stroke() {
    let tool = freehand_tool(vec![]);
    match geometry(&tool) {
        GrabGeometry::Origin(p) => assert_eq!(p, (0.0, 0.0)),
        other => panic!("expected Origin, got {other:?}"),
    }
}

#[test]
fn endpoints_are_reported_for_two_point_tools_only() {
    let line = line_tool((0.0, 0.0), (5.0, 5.0));
    assert_eq!(endpoints(&line), Some(((0.0, 0.0), (5.0, 5.0))));

    let arrow = arrow_tool((1.0, 1.0), (2.0, 2.0));
    assert_eq!(endpoints(&arrow), Some(((1.0, 1.0), (2.0, 2.0))));

    let r = rect_tool(rect(0, 0, 10, 10));
    assert_eq!(endpoints(&r), None);
}

#[test]
fn text_handles_are_the_four_corners_plus_the_two_side_midpoints() {
    let kinds = text_handles();
    assert_eq!(
        kinds,
        vec![
            BoxHandle::NW,
            BoxHandle::NE,
            BoxHandle::SE,
            BoxHandle::SW,
            BoxHandle::E,
            BoxHandle::W,
        ]
    );
    assert!(!kinds.contains(&BoxHandle::N));
    assert!(!kinds.contains(&BoxHandle::S));
}

#[test]
fn text_handle_points_sit_on_the_bounding_box() {
    let r = rect(10, 20, 100, 50);
    for h in text_handles() {
        let (x2, y2) = box_handle_point(r, h);
        let (x, y) = (x2 as f64 / 2.0, y2 as f64 / 2.0);
        assert!(
            (r.x as f64..=r.right() as f64).contains(&x)
                && (r.y as f64..=r.bottom() as f64).contains(&y),
            "{h:?} at ({x}, {y}) is outside {r:?}"
        );
    }
    assert_eq!(box_handle_point(r, BoxHandle::E), (220, 90));
}

#[test]
fn grab_at_prefers_a_resize_handle_over_the_body() {
    let tool = rect_tool(rect(0, 0, 100, 100));
    assert_eq!(
        grab_at(tool.kind(), &hits(&tool, 0.0, 0.0)),
        Some(Grab::BoxHandle(BoxHandle::NW))
    );
    assert_eq!(grab_at(tool.kind(), &hits(&tool, 50.0, 50.0)), Some(Grab::Body));
    assert_eq!(grab_at(tool.kind(), &hits(&tool, 500.0, 500.0)), None);
}

#[test]
fn grab_at_returns_endpoints_for_two_point_tools() {
    let tool = line_tool((0.0, 0.0), (100.0, 100.0));
    assert_eq!(
        grab_at(tool.kind(), &hits(&tool, 0.0, 0.0)),
        Some(Grab::Endpoint(Endpoint::From))
    );
    assert_eq!(
        grab_at(tool.kind(), &hits(&tool, 100.0, 100.0)),
        Some(Grab::Endpoint(Endpoint::To))
    );
    assert_eq!(grab_at(tool.kind(), &hits(&tool, 50.0, 50.0)), Some(Grab::Body));
}

#[test]
fn grab_at_finds_the_number_radius_grip() {
    let tool = number_tool((100.0, 100.0), 1);
    let radius = match &tool {
        Layer::Number(n) => n.radius,
        other => panic!("expected Number, got {other:?}"),
    };
    assert_eq!(
        grab_at(tool.kind(), &hits(&tool, 100.0 + radius, 100.0)),
        Some(Grab::NumberRadius)
    );
    assert_eq!(grab_at(tool.kind(), &hits(&tool, 100.0, 100.0)), Some(Grab::Body));
}

#[test]
fn non_layer_tools_are_never_grabbable() {
    let everything = Hits {
        body: true,
        box_handle: Some(BoxHandle::NW),
        from: true,
        to: true,
        radius: true,
        text: [true; 6],
    };
    for kind in [ToolKind::Crop, ToolKind::Select] {
        assert_eq!(grab_at(kind, &everything), None);
    }
}

#[test]
fn text_is_grabbed_by_its_handles_first() {
    let over = Hits {
        body: true,
        box_handle: None,
        from: false,
        to: false,
        radius: false,
        text: [false, false, false, false, true, true],
    };
    assert_eq!(
        grab_at(ToolKind::Text, &over),
        Some(Grab::BoxHandle(BoxHandle::E))
    );
}

#[test]
fn set_box_bounds_resizes_every_box_backed_kind() {
    let target = rect(5, 6, 70, 80);
    let mut layers = vec![
        rect_tool(rect(0, 0, 10, 10)),
        ellipse_tool(rect(0, 0, 10, 10)),
        highlight_tool(rect(0, 0, 10, 10)),
        redact_tool(rect(0, 0, 10, 10)),
    ];
    for layer in &mut layers {
        set_box_bounds(layer, target);
        assert_eq!(bounds(layer), target, "{:?} was not resized", layer.kind());
    }
}

#[test]
fn set_box_bounds_ignores_kinds_with_no_box() {
    let mut line = line_tool((0.0, 0.0), (10.0, 10.0));
    let before = format!("{line:?}");
    set_box_bounds(&mut line, rect(100, 100, 5, 5));
    assert_eq!(format!("{line:?}"), before);
}

#[test]
fn set_pair_moves_both_endpoints_of_a_two_point_tool() {
    for mut layer in [
        line_tool((0.0, 0.0), (1.0, 1.0)),
        arrow_tool((0.0, 0.0), (1.0, 1.0)),
    ] {
        set_pair(&mut layer, (10.0, 20.0), (30.0, 40.0));
        assert_eq!(
            endpoints(&layer),
            Some(((10.0, 20.0), (30.0, 40.0))),
            "{:?} endpoints were not set",
            layer.kind()
        );
    }
}

#[test]
fn set_pair_ignores_kinds_without_endpoints() {
    let mut r = rect_tool(rect(0, 0, 10, 10));
    let before = bounds(&r);
    set_pair(&mut r, (100.0, 100.0), (200.0, 200.0));
    assert_eq!(bounds(&r), before);
}

#[test]
fn body_drag_translates_a_box_layer_by_the_total_delta() {
    let orig = rect(10, 10, 50, 50);
    let mut layer = rect_tool(orig);
    let m = manip(Grab::Body, GrabGeometry::Box(orig), (0.0, 0.0));
    apply_manipulation(&mut layer, &m, (25.0, -5.0));
    assert_eq!(bounds(&layer), rect(35, 5, 50, 50));
}

#[test]
fn body_drag_recomputes_from_the_snapshot_so_it_never_accumulates_drift() {
    let orig = rect(0, 0, 20, 20);
    let mut layer = rect_tool(orig);
    let m = manip(Grab::Body, GrabGeometry::Box(orig), (0.0, 0.0));
    for cur in [(3.0, 3.0), (17.0, 2.0), (100.0, 100.0), (0.0, 0.0)] {
        apply_manipulation(&mut layer, &m, cur);
    }
    assert_eq!(bounds(&layer), orig);
}

#[test]
fn body_drag_translates_a_two_point_layer() {
    let mut layer = line_tool((0.0, 0.0), (10.0, 10.0));
    let m = manip(
        Grab::Body,
        GrabGeometry::Pair { from: (0.0, 0.0), to: (10.0, 10.0) },
        (0.0, 0.0),
    );
    apply_manipulation(&mut layer, &m, (5.0, 7.0));
    assert_eq!(
        endpoints(&layer),
        Some(((5.0, 7.0), (15.0, 17.0))),
        "both endpoints move together, preserving length and angle"
    );
}

#[test]
fn body_drag_moves_a_number_center_without_changing_its_radius() {
    let mut layer = number_tool((50.0, 50.0), 3);
    let m = manip(
        Grab::Body,
        GrabGeometry::Center { center: (50.0, 50.0), radius: 18.0 },
        (0.0, 0.0),
    );
    apply_manipulation(&mut layer, &m, (10.0, 20.0));
    match &layer {
        Layer::Number(n) => {
            assert_eq!(n.center, (60.0, 70.0));
            assert_eq!(n.radius, 18.0);
        }
        other => panic!("expected Number, got {other:?}"),
    }
}

#[test]
fn freehand_body_drag_translates_incrementally_from_the_last_position() {
    let mut layer = freehand_tool(vec![(0.0, 0.0), (10.0, 0.0)]);
    let mut m = manip(Grab::Body, GrabGeometry::Origin((0.0, 0.0)), (0.0, 0.0));
    m.last = (0.0, 0.0);
    apply_manipulation(&mut layer, &m, (5.0, 5.0));
    m.last = (5.0, 5.0);
    apply_manipulation(&mut layer, &m, (8.0, 5.0));
    match &layer {
        Layer::Freehand(f) => assert_eq!(f.points, vec![(8.0, 5.0), (18.0, 5.0)]),
        other => panic!("expected Freehand, got {other:?}"),
    }
}

#[test]
fn body_drag_moves_a_text_origin() {
    let mut layer = text_tool("hi");
    let m = manip(
        Grab::Body,
        GrabGeometry::Text {
            origin: (10.0, 20.0),
            size_pt: 16.0,
            wrap_width: None,
            bounds: rect(10, 20, 100, 40),
        },
        (0.0, 0.0),
    );
    apply_manipulation(&mut layer, &m, (5.0, 5.0));
    match &layer {
        Layer::Text(t) => assert_eq!(t.origin, (15.0, 25.0)),
        other => panic!("expected Text, got {other:?}"),
    }
}

#[test]
fn box_handle_drag_resizes_against_the_opposite_edge() {
    for (handle, cur, expected) in [
        (BoxHandle::SE, (120.0, 130.0), rect(10, 10, 110, 120)),
        (BoxHandle::NW, (30.0, 40.0), rect(30, 40, 30, 20)),
        (BoxHandle::E, (80.0, 999.0), rect(10, 10, 70, 50)),
        (BoxHandle::N, (999.0, 20.0), rect(10, 20, 50, 40)),
    ] {
        let orig = rect(10, 10, 50, 50);
        let mut layer = rect_tool(orig);
        let m = manip(Grab::BoxHandle(handle), GrabGeometry::Box(orig), (10.0, 10.0));
        apply_manipulation(&mut layer, &m, cur);
        assert_eq!(bounds(&layer), expected);
    }
}

#[test]
fn dragging_a_handle_past_the_opposite_edge_flips_the_box_instead_of_inverting_it() {
    let orig = rect(10, 10, 50, 50);
    let mut layer = rect_tool(orig);
    let m = manip(
        Grab::BoxHandle(BoxHandle::SE),
        GrabGeometry::Box(orig),
        (60.0, 60.0),
    );
    apply_manipulation(&mut layer, &m, (-100.0, -100.0));
    let b = bounds(&layer);
    assert!(b.w > 0, "flipped box collapsed: {b:?}");
    assert!(b.h > 0, "flipped box collapsed: {b:?}");
    assert!(b.x < 10, "box did not flip past the anchor: {b:?}");
}

#[test]
fn endpoint_drag_moves_only_the_grabbed_end() {
    let mut layer = line_tool((0.0, 0.0), (10.0, 10.0));
    let geom = GrabGeometry::Pair { from: (0.0, 0.0), to: (10.0, 10.0) };
    let m = manip(Grab::Endpoint(Endpoint::To), geom.clone(), (10.0, 10.0));
    apply_manipulation(&mut layer, &m, (99.0, 3.0));
    let (from, to) = endpoints(&layer).unwrap();
    assert_eq!(from, (0.0, 0.0), "the anchored end must not move");
    assert_eq!(to, (99.0, 3.0));

    let m = manip(Grab::Endpoint(Endpoint::From), geom, (0.0, 0.0));
    apply_manipulation(&mut layer, &m, (-4.0, -6.0));
    let (from, to) = endpoints(&layer).unwrap();
    assert_eq!(from, (-4.0, -6.0));
    assert_eq!(to, (10.0, 10.0));
}

#[test]
fn number_radius_drag_resizes_the_badge_without_moving_it() {
    let mut layer = number_tool((50.0, 50.0), 1);
    let m = manip(
        Grab::NumberRadius,
        GrabGeometry::Center { center: (50.0, 50.0), radius: 10.0 },
        (60.0, 50.0),
    );
    apply_manipulation(&mut layer, &m, (90.0, 50.0));
    match &layer {
        Layer::Number(n) => {
            assert_eq!(n.center, (50.0, 50.0));
            assert_eq!(n.radius, new_radius((50.0, 50.0), 90.0, 50.0));
        }
        other => panic!("expected Number, got {other:?}"),
    }
}

#[test]
fn text_resize_without_a_pango_context_is_a_no_op() {
    let mut layer = text_tool("hello");
    let before = format!("{layer:?}");
    let m = manip(
        Grab::BoxHandle(BoxHandle::SE),
        GrabGeometry::Text {
            origin: (10.0, 20.0),
            size_pt: 16.0,
            wrap_width: None,
            bounds: rect(10, 20, 100, 40),
        },
        (110.0, 60.0),
    );
    apply_manipulation(&mut layer, &m, (200.0, 200.0));
    assert_eq!(format!("{layer:?}"), before);
}

#[test]
fn a_grab_that_does_not_match_its_geometry_is_ignored() {
    let orig = rect(0, 0, 10, 10);
    let mut layer = rect_tool(orig);
    let m = manip(Grab::NumberRadius, GrabGeometry::Box(orig), (0.0, 0.0));
    apply_manipulation(&mut layer, &m, (100.0, 100.0));
    assert_eq!(bounds(&layer), orig);
}

#[test]
fn the_last_step_of_a_drag_alone_counts() {
    let orig = rect(10, 10, 40, 30);
    let m = manip(Grab::Body, GrabGeometry::Box(orig), (20.0, 20.0));
    let (mut stepwise, mut at_once) = (rect_tool(orig), rect_tool(orig));
    apply_manipulation(&mut stepwise, &m, (500.0, -80.0));
    apply_manipulation(&mut stepwise, &m, (25.0, 27.0));
    apply_manipulation(&mut at_once, &m, (25.0, 27.0));
    assert_eq!(format!("{stepwise:?}"), format!("{at_once:?}"));
    assert_eq!(bounds(&stepwise), rect(15, 17, 40, 30));
}

#[test]
fn dragging_back_to_the_grab_gives_the_layer_back() {
    let mut layer = line_tool((1.5, 2.5), (30.0, 40.0));
    let before = format!("{layer:?}");
    let geometry = grab_geometry(&layer, rect(0, 0, 0, 0), (0.0, 0.0));
    let m = manip(Grab::Body, geometry, (12.25, 15.0));
    apply_manipulation(&mut layer, &m, (90.0, 70.0));
    assert_ne!(format!("{layer:?}"), before);
    apply_manipulation(&mut layer, &m, (12.25, 15.0));
    assert_eq!(format!("{layer:?}"), before);
}

#[test]
fn a_step_takes_from_its_plan_what_the_plan_knows() {
    let mut layer = Layer::Text(TextTool {
        origin: (10.0, 20.0),
        text: "note".into(),
        color: [1.0, 0.0, 0.0, 1.0],
        size_pt: 16.0,
        bounds_cache: (100, 40),
        wrap_width: Some(120.0),
    });
    let geometry = grab_geometry(&layer, rect(10, 20, 100, 40), (0.0, 0.0));
    let corner = manip(Grab::BoxHandle(BoxHandle::SE), geometry, (110.0, 60.0));
    let scaled = |wrap_width| Moved::Scaled {
        origin: (10.0, 20.0),
        size_pt: 32.0,
        wrap_width,
        bounds_cache: (200, 80),
    };
    apply_step(&mut layer, &corner, (210.0, 100.0), scaled(None));
    match &layer {
        Layer::Text(t) => assert_eq!((t.size_pt, t.wrap_width), (32.0, Some(120.0))),
        other => panic!("{other:?}"),
    }
    let before = format!("{layer:?}");
    apply_step(&mut layer, &corner, (0.0, 0.0), Moved::Origin((1.0, 1.0)));
    assert_eq!(format!("{layer:?}"), before, "that answers another plan");
    let orig = rect(10, 10, 40, 30);
    let mut layer = rect_tool(orig);
    let body = manip(Grab::Body, GrabGeometry::Box(orig), (0.0, 0.0));
    apply_step(&mut layer, &body, (3.0, 4.0), Moved::Bounds(rect(13, 14, 1, 1)));
    assert_eq!(bounds(&layer), rect(13, 14, 40, 30));
}

#[test]
fn every_kind_of_layer_can_be_shifted() {
    let (start, cur) = ((0.0, 0.0), (5.0, -2.0));
    let mut boxed = ellipse_tool(rect(10, 10, 40, 30));
    let moved = compute(&boxed, plan_shift(&boxed, start, cur));
    apply_shift(&mut boxed, start, cur, moved);
    assert_eq!(bounds(&boxed), rect(15, 8, 40, 30));
    let mut arrow = arrow_tool((1.0, 2.0), (3.0, 4.0));
    let moved = compute(&arrow, plan_shift(&arrow, start, cur));
    apply_shift(&mut arrow, start, cur, moved);
    assert_eq!(endpoints(&arrow), Some(((6.0, 0.0), (8.0, 2.0))));
    match plan_shift(&number_tool((7.0, 8.0), 12), start, cur) {
        Move::ShiftCenter { center, .. } => assert_eq!(center, (7.0, 8.0)),
        other => panic!("{other:?}"),
    }
}

#[test]
fn the_sides_of_a_text_block_set_its_wrap_width() {
    let geom = GrabGeometry::Text {
        origin: (10.0, 20.0),
        size_pt: 16.0,
        wrap_width: None,
        bounds: rect(10, 20, 100, 40),
    };
    let m: Manipulation<f64, f32> = manip(Grab::BoxHandle(BoxHandle::E), geom, (110.0, 40.0));
    match plan_move(&m, (150.0, 44.0)) {
        Move::WrapText { left: Edge::Pixel(left), right: Edge::Pointer(right), top } => {
            assert_eq!((left, right, top), (10, 150.0, 20.0));
        }
        other => panic!("expected WrapText, got {other:?}"),
    }
}

const ALL_TOOL_KINDS: [ToolKind; 12] = [
    ToolKind::Select,
    ToolKind::Arrow,
    ToolKind::Line,
    ToolKind::Rect,
    ToolKind::Ellipse,
    ToolKind::Text,
    ToolKind::Blur,
    ToolKind::Highlight,
    ToolKind::Freehand,
    ToolKind::Number,
    ToolKind::Redact,
    ToolKind::Crop,
];

#[test]
fn the_tool_kind_list_is_exhaustive() {
    for kind in ALL_TOOL_KINDS {
        match kind {
            ToolKind::Select
            | ToolKind::Arrow
            | ToolKind::Line
            | ToolKind::Rect
            | ToolKind::Ellipse
            | ToolKind::Text
            | ToolKind::Blur
            | ToolKind::Highlight
            | ToolKind::Freehand
            | ToolKind::Number
            | ToolKind::Redact
            | ToolKind::Crop => {}
        }
    }
    let mut seen = ALL_TOOL_KINDS.to_vec();
    seen.dedup();
    assert_eq!(seen.len(), ALL_TOOL_KINDS.len());
}

#[test]
fn colorable_tools_are_exactly_the_ones_that_draw_in_a_user_chosen_colour() {
    let colorable: Vec<ToolKind> = ALL_TOOL_KINDS
        .into_iter()
        .filter(|k| kind_is_colorable(*k))
        .collect();
    assert_eq!(
        colorable,
        vec![
            ToolKind::Arrow,
            ToolKind::Line,
            ToolKind::Rect,
            ToolKind::Ellipse,
            ToolKind::Text,
            ToolKind::Highlight,
            ToolKind::Freehand,
            ToolKind::Number,
        ]
    );
}

#[test]
fn obscuring_and_modal_tools_have_no_colour() {
    for kind in [ToolKind::Blur, ToolKind::Redact, ToolKind::Select, ToolKind::Crop] {
        assert!(!kind_is_colorable(kind), "{kind:?} must not be colorable");
    }
}

#[test]
fn styleable_tools_are_exactly_the_outline_rendering_ones() {
    let styleable: Vec<ToolKind> = ALL_TOOL_KINDS
        .into_iter()
        .filter(|k| kind_is_styleable(*k))
        .collect();
    assert_eq!(
        styleable,
        vec![
            ToolKind::Arrow,
            ToolKind::Line,
            ToolKind::Rect,
            ToolKind::Ellipse,
            ToolKind::Freehand,
        ]
    );
}

#[test]
fn every_styleable_tool_is_also_colorable() {
    for kind in ALL_TOOL_KINDS.into_iter().filter(|k| kind_is_styleable(*k)) {
        assert!(
            kind_is_colorable(kind),
            "{kind:?} is styleable but not colorable"
        );
    }
}

#[test]
fn filled_and_glyph_tools_are_colorable_but_not_styleable() {
    for kind in [ToolKind::Highlight, ToolKind::Number, ToolKind::Text] {
        assert!(kind_is_colorable(kind), "{kind:?} should be colorable");
        assert!(!kind_is_styleable(kind), "{kind:?} should not be styleable");
    }
}

#[test]
fn only_text_exposes_a_font_size() {
    let sized: Vec<ToolKind> = ALL_TOOL_KINDS
        .into_iter()
        .filter(|k| kind_has_font_size(*k))
        .collect();
    assert_eq!(sized, vec![ToolKind::Text]);
    assert!(!kind_has_font_size(ToolKind::Number));
}
