use snypr::region::Rect;
use snypr::ui::canvas::{AnnotateColors, Look};
use snypr::ui::keys::{Key, Modifiers, KEY_ESCAPE, KEY_KP_ENTER, KEY_RETURN, KEY_TAB};
use snypr::ui::overlay::{
    closes_overlay, monitor_rect, stitched_origin, toolbar_input_region,
    toolbar_spec as overlay_spec, EditVeil, Next, Overlay, OverlayCommand, OverlayMode, Part,
    Placement, SaveStep, SelectorReply, Strip,
};
use snypr::ui::picture::{base_from_rgba, CapturedImage};
use snypr::ui::selector::{
    centered, key_action, local_to_logical, logical_to_local, post_dismiss_grace,
    resolve_selection, toolbar_spec as selector_spec, Cancelled, Chrome, Hint, MonitorInfo,
    Outlined, Selection, Selector, SelectorKey, SelectorOverlay, Shade, Step,
};
use snypr::ui::sinks::{OutputMode, SinkSpec};
use snypr::ui::toolbar::{ModeKind, Toolbar, ToolbarAction};
use snypr::ui::toolbar_host::ToolbarHost;
use snypr::ui::tools::{FontSize, StrokeStyle, ToolKind};
use snypr::wm::{ActiveWindow, WmWindow};

const RED: [f32; 4] = [1.0, 0.0, 0.0, 1.0];
const GREEN: [f32; 4] = [0.0, 1.0, 0.0, 1.0];

/// A font size.
fn points(asked: f32) -> FontSize<f32> {
    FontSize { asked, one: 1.0, below_one: !(asked >= 1.0) }
}

// ---- selector ------------------------------------------------------------------------------

fn window(title: &str, class: &str, rect: Rect) -> WmWindow {
    WmWindow {
        id: "1".into(),
        title: title.into(),
        class: class.into(),
        at: Some((rect.x, rect.y)),
        size: Some((rect.w, rect.h)),
        monitor: "DP-1".into(),
        workspace_id: 1,
        mapped: true,
        hidden: false,
    }
}

fn monitor(index: usize, connector: Option<&str>) -> MonitorInfo {
    MonitorInfo { index, connector: connector.map(str::to_owned) }
}

const TERM: Rect = Rect { x: 100, y: 100, w: 50, h: 40 };

/// Two monitors, one window, and the second monitor focused.
fn selector(delay_secs: u64) -> Selector<f64, f32> {
    Selector::new(
        true,
        delay_secs,
        vec![monitor(0, Some("DP-1")), monitor(1, Some("DP-2"))],
        vec![window("term", "kitty", TERM)],
        &Some("DP-2".into()),
        &None,
        true,
        RED,
        18.0,
    )
}

#[test]
fn a_selector_starts_with_the_focused_monitor() {
    let s = selector(3);
    assert_eq!(s.selection.mode, ModeKind::Screen);
    assert_eq!(s.selection.selected_monitor, Some(1));
    assert_eq!(s.toolbars.len(), 2);
    assert_eq!(s.toolbars[1].delay, Some(3));
    assert_eq!(s.toolbars[0].active_mode, Some(1));
    let spec = selector_spec(false, 99, false);
    assert_eq!(spec.initial_delay_secs, 99);
    assert!(spec.tools.is_empty() && spec.show_capture && !spec.capture_shift_annotates);
}

#[test]
fn the_focused_window_is_picked_from_the_start() {
    let focused = ActiveWindow {
        title: "term".into(),
        class: "kitty".into(),
        at: Some((TERM.x, TERM.y)),
        size: Some((TERM.w, TERM.h)),
        monitor: "DP-1".into(),
    };
    let mut s: Selector<f64, f32> =
        Selector::new(true, 0, vec![], vec![], &None, &Some(focused), false, RED, 18.0);
    s.apply_action(ToolbarAction::ModeSelected(ModeKind::Window));
    match s.commit(None, None, None, false) {
        Step::Dismiss(out) => match out.selection {
            Selection::Region(r) => assert_eq!(r, TERM),
            other => panic!("{other:?}"),
        },
        other => panic!("{other:?}"),
    }
}

#[test]
fn a_press_shows_on_every_toolbar() {
    let mut s = selector(0);
    assert!(matches!(s.apply_action(ToolbarAction::ModeSelected(ModeKind::Full)), Step::Redraw));
    s.apply_action(ToolbarAction::CursorToggled(false));
    s.apply_action(ToolbarAction::DelayChanged(7));
    for bar in &s.toolbars {
        assert_eq!((bar.active_mode, bar.cursor, bar.delay), (Some(0), Some(false), Some(7)));
    }
    assert!(matches!(s.apply_action(ToolbarAction::Annotate), Step::Commit(true)));
    assert!(matches!(s.apply_action(ToolbarAction::Capture), Step::Commit(false)));
}

#[test]
fn a_region_is_dragged_on_one_monitor() {
    let mut s = selector(0);
    assert!(!s.selection.drag_begin(0, (1.0, 1.0)), "Screen mode has no use for a drag");
    s.apply_action(ToolbarAction::ModeSelected(ModeKind::Region));
    assert!(s.selection.drag_begin(0, (1.0, 1.0)));
    assert!(s.selection.drag_to(0, Some((5.0, 6.0))));
    assert!(!s.selection.drag_to(1, Some((9.0, 9.0))), "another monitor owns the drag");
    assert_eq!(s.selection.current, Some((5.0, 6.0)));
    assert!(s.selection.drag_begin(1, (2.0, 2.0)), "a new drag takes over");
    assert_eq!((s.selection.owner, s.selection.start), (Some(1), Some((2.0, 2.0))));
    s.apply_action(ToolbarAction::ModeSelected(ModeKind::Screen));
    assert_eq!((s.selection.owner, s.selection.start), (None, None));
}

#[test]
fn a_region_is_committed_in_logical_coordinates() {
    let mut s = selector(0);
    s.apply_action(ToolbarAction::ModeSelected(ModeKind::Region));
    assert!(matches!(s.commit(None, Some((1920, 0)), None, false), Step::Nothing));
    let drag = Rect { x: 10, y: 20, w: 30, h: 40 };
    s.selection.drag_begin(1, (10.0, 20.0));
    match s.commit(Some(drag), Some((1920, 0)), None, true) {
        Step::Dismiss(out) => {
            assert!(out.edit && out.cursor && out.delay_secs == 0);
            match out.selection {
                Selection::Region(r) => assert_eq!(r, Rect { x: 1930, ..drag }),
                other => panic!("{other:?}"),
            }
        }
        other => panic!("{other:?}"),
    }
    assert!(matches!(s.commit(Some(drag), Some((0, 0)), None, false), Step::Nothing));
    assert!(!s.cancel(), "the session is over");
}

#[test]
fn a_delay_is_counted_to_its_end() {
    let mut s = selector(2);
    assert!(matches!(s.commit(None, None, None, false), Step::Count(2)));
    assert!(matches!(s.commit(None, None, None, false), Step::Nothing), "committed already");
    assert!(matches!(s.tick(), Step::Count(1)));
    match s.tick() {
        Step::Dismiss(out) => match out.selection {
            Selection::Output(name) => assert_eq!(name, "DP-2"),
            other => panic!("{other:?}"),
        },
        other => panic!("{other:?}"),
    }
    assert!(matches!(s.tick(), Step::Nothing));
}

#[test]
fn a_countdown_can_be_cancelled() {
    let mut s = selector(2);
    s.commit(None, None, None, false);
    assert!(s.cancel());
    assert!(matches!(s.tick(), Step::Nothing));
    assert!(!Cancelled.message().is_empty());
}

#[test]
fn windows_are_picked_by_a_click() {
    let mut s = selector(0);
    s.apply_action(ToolbarAction::ModeSelected(ModeKind::Window));
    let clients = vec![window("term", "kitty", TERM)];
    assert!(s.selection.motion(&clients, Some((110, 110))));
    assert!(!s.selection.motion(&clients, Some((111, 110))), "it is the same window");
    assert!(s.selection.click(0, &clients, Some((110, 110))));
    assert!(s.selection.click(0, &clients, Some((0, 0))), "a click beside keeps the window");
    assert_eq!(s.selection.selected_window.as_ref().map(|w| w.rect), Some(TERM));
    assert!(s.selection.leave(0));
    assert!(s.selection.hover_window.is_none());
    s.apply_action(ToolbarAction::ModeSelected(ModeKind::Full));
    s.apply_action(ToolbarAction::ModeSelected(ModeKind::Window));
    assert!(s.selection.selected_window.is_some(), "a pick outlives other modes");
}

#[test]
fn monitors_are_picked_by_a_click() {
    let mut s = selector(0);
    assert!(s.selection.enter(0));
    assert!(!s.selection.enter(0));
    assert!(s.selection.click(0, &vec![], None));
    assert_eq!(s.selection.selected_monitor, Some(0));
    assert!(s.selection.leave(0));
    assert!(!s.selection.leave(0));
}

#[test]
fn what_is_selected_depends_on_the_mode() {
    let mut s = selector(0);
    let monitors = vec![monitor(0, Some("DP-1")), monitor(1, None)];
    let resolve = |s: &Selector<f64, f32>, local: Option<&MonitorInfo>| {
        resolve_selection(&s.selection, None, None, local, &monitors)
    };
    s.selection.set_mode(ModeKind::Screen);
    assert!(resolve(&s, None).is_none(), "the picked monitor has no name");
    s.selection.selected_monitor = None;
    match resolve(&s, Some(&monitors[0])) {
        Some(Selection::Output(name)) => assert_eq!(name, "DP-1"),
        other => panic!("{other:?}"),
    }
    s.selection.set_mode(ModeKind::Full);
    assert!(matches!(resolve(&s, None), Some(Selection::Full)));
    s.selection.set_mode(ModeKind::Window);
    assert!(matches!(resolve(&s, None), Some(Selection::Window)), "no window was picked");
}

#[test]
fn the_clicked_monitor_is_found_by_its_index() {
    let mut s = selector(0);
    s.selection.set_mode(ModeKind::Screen);
    let monitors = vec![monitor(0, Some("DP-1")), monitor(2, Some("DP-3"))];
    let resolve = |s: &Selector<f64, f32>| {
        resolve_selection(&s.selection, None, None, Some(&monitors[0]), &monitors)
    };
    assert!(s.selection.click(2, &vec![], None));
    match resolve(&s) {
        Some(Selection::Output(name)) => assert_eq!(name, "DP-3"),
        other => panic!("{other:?}"),
    }
    s.selection.selected_monitor = Some(1);
    match resolve(&s) {
        Some(Selection::Output(name)) => assert_eq!(name, "DP-1", "no monitor has that index"),
        other => panic!("{other:?}"),
    }
}

#[test]
fn coordinates_go_there_and_back() {
    assert_eq!(local_to_logical(Some((1920, -10)), (5, 6)), Some((1925, -4)));
    assert_eq!(local_to_logical(None, (5, 6)), None);
    let rect = Rect { x: 1925, y: -4, w: 3, h: 4 };
    assert_eq!(
        logical_to_local(Some((1920, -10)), &rect),
        Some(Rect { x: 5, y: 6, w: 3, h: 4 })
    );
    assert_eq!(logical_to_local(None, &rect), None);
}

#[test]
fn keys_of_the_selector() {
    assert_eq!(key_action(Key::named(KEY_ESCAPE), true, true), SelectorKey::Cancel);
    assert_eq!(key_action(Key::named(KEY_RETURN), true, true), SelectorKey::Commit(true));
    assert_eq!(key_action(Key::named(KEY_KP_ENTER), true, false), SelectorKey::Commit(false));
    assert_eq!(key_action(Key::named(KEY_TAB), false, true), SelectorKey::Proceed);
}

#[test]
fn the_grace_can_be_configured() {
    assert_eq!(post_dismiss_grace(None), 30);
    assert_eq!(post_dismiss_grace(Some("120")), 120);
    assert_eq!(post_dismiss_grace(Some("soon")), 30);
    assert_eq!((centered(100, 40, 0), centered(10, 40, 8)), (60, 16), "in half pixels");
}

#[test]
fn an_overlay_shows_its_mode_and_the_countdown() {
    let mut s = selector(0);
    let mut overlay = SelectorOverlay::new(1);
    let size = (1920, 1080);
    let shown = overlay.snapshot(size, &s.selection, Some((0, 0)), None);
    assert_eq!(shown.len(), 3);
    assert!(matches!(shown[0], Chrome::Fill(Shade::Light)));
    assert!(matches!(shown[1], Chrome::Outline(Outlined::Monitor, 40)));
    assert!(matches!(shown[2], Chrome::Hint(Hint::ScreenSelected)));
    s.selection.set_mode(ModeKind::Region);
    overlay.set_countdown(Some(3));
    let counting = overlay.snapshot(size, &s.selection, Some((0, 0)), None);
    assert!(matches!(counting[counting.len() - 1], Chrome::Countdown(3)));
    s.selection.drag_begin(1, (0.0, 0.0));
    let dragging = overlay.snapshot(size, &s.selection, Some((0, 0)), Some((30, 40)));
    assert!(matches!(dragging[0], Chrome::Around));
    assert!(matches!(dragging[2], Chrome::Size(30, 40)));
    overlay.blank();
    let blank = overlay.snapshot(size, &s.selection, Some((0, 0)), None);
    assert_eq!(blank.len(), 1);
    assert!(matches!(blank[0], Chrome::Fill(Shade::Clear)));
    assert!(overlay.snapshot((0, 5), &s.selection, None, None).is_empty());
}

#[test]
fn a_window_is_named_by_what_is_known_of_it() {
    let mut s = selector(0);
    s.apply_action(ToolbarAction::ModeSelected(ModeKind::Window));
    let overlay = SelectorOverlay::default();
    for (title, class, id) in [
        ("term", "kitty", "selector-hint-window-class-title"),
        ("", "kitty", "selector-hint-window-class"),
        ("term", "", "selector-hint-window-title"),
        ("", "", "selector-hint-window-selected"),
    ] {
        s.selection.click(0, &vec![window(title, class, TERM)], Some((110, 110)));
        let shown = overlay.snapshot((10, 10), &s.selection, Some((50, 50)), None);
        match &shown[1] {
            Chrome::Outline(Outlined::Window(r), 30) => {
                assert_eq!(*r, Rect { x: 50, y: 50, w: 50, h: 40 });
            }
            other => panic!("{other:?}"),
        }
        match &shown[2] {
            Chrome::Hint(hint) => assert_eq!(hint.message_id(), id),
            other => panic!("{other:?}"),
        }
    }
}

// ---- overlay -------------------------------------------------------------------------------

fn look() -> Look<f64, f32> {
    Look {
        box_stroke: RED,
        line_stroke: RED,
        box_width: 3.0,
        line_width: 4.0,
        highlight: [1.0, 1.0, 0.0, 0.35],
        number_fill: RED,
        number_text: [1.0; 4],
        number_radius: 18.0,
        text_color: RED,
        font_size: 18.0,
        blur_radius: 12.0,
        redact_preview: [0.0, 0.0, 0.0, 0.85],
        crop_preview: [0.0, 0.6, 1.0, 0.25],
        blur_preview: [0.5, 0.5, 0.5, 0.5],
        other_preview: RED,
        zero: 0.0,
    }
}

fn colors() -> AnnotateColors<f32> {
    AnnotateColors {
        rect: RED,
        ellipse: RED,
        arrow: RED,
        line: RED,
        freehand: RED,
        highlight: [1.0, 1.0, 0.0, 0.35],
        number: RED,
        text: RED,
    }
}

/// A drawing overlay on two monitors.
fn drawing() -> Overlay<f64, f32> {
    let mode = OverlayMode::Draw { passthrough: false, sinks: vec![], cursor: true };
    let mut o = Overlay::open(mode, &vec![SinkSpec::File(None)], RED, 18.0);
    assert_eq!(o.add_monitor(0, monitor_rect(0, 0, 4, 2), look(), &colors()), Placement::Fill);
    assert_eq!(o.add_monitor(1, monitor_rect(4, 0, 4, 2), look(), &colors()), Placement::Fill);
    o.seed_toolbar();
    o
}

fn nothing_measured() -> Vec<(u32, u32)> {
    vec![(0, 0), (0, 0)]
}

#[test]
fn a_tool_is_in_use_everywhere() {
    let mut o = drawing();
    assert_eq!(o.current_tool, ToolKind::Select);
    assert!(!o.toolbar.color_sensitive, "Select has no color");
    let (next, effects) =
        o.apply_action(ToolbarAction::ToolSelected(ToolKind::Arrow), Some(0), &nothing_measured());
    assert_eq!((next, effects.len()), (Next::Nothing, 2));
    for m in &o.canvases {
        assert_eq!(m.canvas.tool(), ToolKind::Arrow);
    }
    assert!(o.toolbar.color_sensitive && o.toolbar.style_sensitive);
    assert!(!o.toolbar.font_size_sensitive);
    o.finish_shape(&nothing_measured());
    assert_eq!(o.current_tool, ToolKind::Select);
    assert!(!overlay_spec(false, false).tools.iter().any(|t| t.kind == ToolKind::Crop));
    assert!(overlay_spec(true, false).tools.iter().any(|t| t.kind == ToolKind::Crop));
}

#[test]
fn a_picked_color_becomes_the_tools() {
    let mut o = drawing();
    o.apply_tool(ToolKind::Line, &nothing_measured());
    o.apply_action(ToolbarAction::ColorChanged(GREEN), None, &nothing_measured());
    o.apply_action(
        ToolbarAction::StrokeStyleChanged(StrokeStyle::Dotted),
        None,
        &nothing_measured(),
    );
    for m in &o.canvases {
        assert_eq!(m.canvas.tool_color(ToolKind::Line), Some(GREEN));
        assert_eq!(m.canvas.tool_style(ToolKind::Line), Some(StrokeStyle::Dotted));
        assert_eq!(m.canvas.tool_color(ToolKind::Rect), Some(RED));
    }
    o.apply_tool(ToolKind::Text, &nothing_measured());
    o.apply_action(ToolbarAction::FontSizeChanged(points(40.0)), None, &nothing_measured());
    assert_eq!(o.canvases[1].canvas.tool_font_size(ToolKind::Text), Some(40.0));
    o.refresh_pickers(1);
    assert_eq!(o.toolbar.font_size, Some(40.0));
    o.apply_action(ToolbarAction::FontSizeChanged(points(0.5)), None, &nothing_measured());
    assert_eq!(o.canvases[0].canvas.tool_font_size(ToolKind::Text), Some(1.0));
}

#[test]
fn a_tool_comes_back_with_its_color() {
    let mut o = drawing();
    let none = nothing_measured();
    o.apply_action(ToolbarAction::ToolSelected(ToolKind::Rect), None, &none);
    o.apply_action(ToolbarAction::ColorChanged(GREEN), None, &none);
    o.apply_action(ToolbarAction::StrokeStyleChanged(StrokeStyle::Dashed), None, &none);
    o.apply_action(ToolbarAction::ToolSelected(ToolKind::Line), None, &none);
    assert_eq!(o.toolbar.color, Some(RED));
    assert_eq!(o.toolbar.style, Some(StrokeStyle::Solid));
    o.apply_action(ToolbarAction::ToolSelected(ToolKind::Rect), None, &none);
    assert_eq!(o.toolbar.color, Some(GREEN));
    assert_eq!(o.toolbar.style, Some(StrokeStyle::Dashed));
    for kind in [ToolKind::Redact, ToolKind::Blur, ToolKind::Crop] {
        o.apply_action(ToolbarAction::ToolSelected(kind), None, &none);
        assert!(!o.toolbar.color_sensitive && !o.toolbar.style_sensitive);
        assert!(!o.toolbar.font_size_sensitive);
    }
}

#[test]
fn undo_works_where_the_toolbar_is() {
    let mut o = drawing();
    for m in &mut o.canvases {
        m.canvas.set_tool(ToolKind::Number, (0, 0));
        m.canvas.place_number((1.0, 1.0));
    }
    o.apply_action(ToolbarAction::Undo, Some(1), &nothing_measured());
    let count = |o: &Overlay<f64, f32>, i: usize| {
        o.canvases[i].canvas.doc.as_ref().map_or(0, |d| d.layers.len())
    };
    assert_eq!((count(&o, 0), count(&o, 1)), (1, 0));
    o.apply_action(ToolbarAction::Undo, Some(7), &nothing_measured());
    assert_eq!((count(&o, 0), count(&o, 1)), (0, 0));
    o.canvases[1].canvas.place_number((1.0, 1.0));
    o.apply_action(ToolbarAction::Clear, None, &nothing_measured());
    assert_eq!((count(&o, 0), count(&o, 1)), (0, 0));
}

#[test]
fn two_toggles_change_nothing() {
    let mut o = drawing();
    assert!(o.command(OverlayCommand::TogglePassthrough));
    assert_eq!((o.passthrough, o.toolbar.passthrough), (true, Some(true)));
    assert!(!o.command(OverlayCommand::TogglePassthrough));
    assert_eq!((o.passthrough, o.toolbar.passthrough), (false, Some(false)));
    let (next, _) =
        o.apply_action(ToolbarAction::PassthroughToggled(true), None, &nothing_measured());
    assert_eq!(next, Next::Passthrough(true));
}

#[test]
fn the_screen_is_captured_once() {
    let mut o = drawing();
    let blur = ToolbarAction::ToolSelected(ToolKind::Blur);
    assert_eq!(o.apply_action(blur, None, &nothing_measured()).0, Next::CaptureForBlur);
    assert_eq!(o.apply_action(blur, None, &nothing_measured()).0, Next::Nothing);
    o.finish_capture(None, (0, 0));
    assert_eq!(o.apply_action(blur, None, &nothing_measured()).0, Next::CaptureForBlur);
    let pixels: Vec<u8> = (0..8 * 2 * 4).map(|i| i as u8).collect();
    let capture = CapturedImage { width: 8, height: 2, stride: 32, pixels };
    o.finish_capture(Some(&capture), stitched_origin(&vec![(4, 0), (0, 0)]));
    let base = o.canvases[1].canvas.doc.as_ref().unwrap().base.as_ref().unwrap();
    assert_eq!((base.width, base.height, base.stride), (4, 2, 16));
    assert_eq!(base.pixels[..8], [18, 17, 16, 19, 22, 21, 20, 23]);
    assert_eq!(o.apply_action(blur, None, &nothing_measured()).0, Next::Nothing);
}

#[test]
fn a_save_leaves_the_overlay_as_it_was() {
    let mut o = drawing();
    let (next, _) = o.apply_action(ToolbarAction::Save, None, &nothing_measured());
    assert_eq!(next, Next::SaveDrawing);
    let save = o.begin_save();
    assert!(o.passthrough, "the selector gets the clicks");
    match o.selector_returned(save, SelectorReply::Picked(OutputMode::Clipboard)) {
        SaveStep::Capture(sinks) => assert_eq!(sinks, vec![SinkSpec::Clipboard(None)]),
        other => panic!("{other:?}"),
    }
    o.end_save(save);
    assert!(!o.passthrough);
    assert_eq!(o.sinks.mode(), OutputMode::Clipboard, "the destination sticks");
    for (reply, reported) in [(SelectorReply::Cancelled, false), (SelectorReply::Failed, true)] {
        let save = o.begin_save();
        match o.selector_returned(save, reply) {
            SaveStep::Over { report } => assert_eq!(report, reported),
            other => panic!("{other:?}"),
        }
        assert!(!o.passthrough);
    }
    o.set_output_mode(OutputMode::Both);
    assert_eq!(o.sinks.mode(), OutputMode::Both);
}

#[test]
fn a_picture_is_annotated_where_it_lies() {
    let pixels: Vec<u8> = (0..4 * 2 * 4).map(|i| i as u8).collect();
    let base = base_from_rgba(4, 2, pixels);
    let mode = OverlayMode::Edit { base, origin: (6, 1), sinks: vec![SinkSpec::File(None)] };
    let mut o: Overlay<f64, f32> = Overlay::open(mode, &vec![], RED, 18.0);
    let left = o.add_monitor(0, monitor_rect(0, 0, 8, 8), look(), &colors());
    assert_eq!(left, Placement::Inside(Rect { x: 6, y: 1, w: 2, h: 2 }));
    let right = o.add_monitor(1, monitor_rect(8, 0, 8, 8), look(), &colors());
    assert_eq!(right, Placement::Inside(Rect { x: 0, y: 1, w: 2, h: 2 }));
    let far = o.add_monitor(2, monitor_rect(100, 0, 8, 8), look(), &colors());
    assert_eq!(far, Placement::Skip);
    assert_eq!(
        o.parts(),
        vec![Part { place: 0, left: 0, top: 0 }, Part { place: 1, left: 2, top: 0 }]
    );
    let piece = o.canvases[1].canvas.doc.as_ref().unwrap().base.as_ref().unwrap();
    assert_eq!(piece.pixels, vec![8, 9, 10, 11, 12, 13, 14, 15, 24, 25, 26, 27, 28, 29, 30, 31]);
    let (next, _) = o.apply_action(ToolbarAction::Save, None, &nothing_measured());
    assert_eq!(next, Next::SaveEdit);
    let blur = ToolbarAction::ToolSelected(ToolKind::Blur);
    assert_eq!(o.apply_action(blur, None, &nothing_measured()).0, Next::Nothing);
    assert!(drawing().parts().is_empty());
}

#[test]
fn the_veil_leaves_the_picture_free() {
    let veil = EditVeil { offset_x: 10, offset_y: 20, width: 30, height: 40 };
    assert_eq!(
        veil.snapshot((100, 50)),
        vec![
            Strip { x: 0, y: 0, w: 100, h: 20 },
            Strip { x: 0, y: 60, w: 100, h: 0 },
            Strip { x: 0, y: 20, w: 10, h: 40 },
            Strip { x: 40, y: 20, w: 60, h: 40 },
        ]
    );
    assert!(veil.snapshot((0, 50)).is_empty());
}

#[test]
fn clicks_go_through_except_on_the_toolbar() {
    let bar = Some((5, 6, 70, 30));
    assert_eq!(toolbar_input_region(false, (100, 50), bar), Some((0, 0, 100, 50)));
    assert_eq!(toolbar_input_region(true, (100, 50), bar), bar);
    assert_eq!(toolbar_input_region(true, (100, 50), Some((5, 6, 0, 30))), None);
    assert_eq!(toolbar_input_region(true, (100, 50), None), None);
    assert_eq!(monitor_rect(-5, 0, 0, -3), Rect { x: -5, y: 0, w: 1, h: 1 });
    assert_eq!(stitched_origin(&vec![]), (0, 0));
    assert_eq!(stitched_origin(&vec![(0, 5), (-3, 9)]), (-3, 5));
    assert!(closes_overlay(Key::named(KEY_ESCAPE)) && !closes_overlay(Key::named(KEY_RETURN)));
}

// ---- the place of the toolbar --------------------------------------------------------------

fn three_windows() -> ToolbarHost {
    let mut host = ToolbarHost::new();
    host.register(0, Some("DP-1".to_owned()));
    host.register(2, None);
    host.register(3, Some("HDMI-A-1".to_owned()));
    host
}

#[test]
fn the_toolbar_starts_on_the_focused_monitor() {
    let mut host = three_windows();
    assert_eq!(host.current_index(), None);
    host.place_initial(Some("HDMI-A-1"));
    assert_eq!(host.current, Some(2));
    assert_eq!(host.current_index(), Some(3));
}

#[test]
fn the_toolbar_starts_on_the_first_window_without_a_focus() {
    let mut host = three_windows();
    host.place_initial(None);
    assert_eq!(host.current_index(), Some(0));
    let mut elsewhere = three_windows();
    elsewhere.place_initial(Some("eDP-1"));
    assert_eq!(elsewhere.current_index(), Some(0));
    let mut nowhere = ToolbarHost::new();
    nowhere.place_initial(Some("DP-1"));
    assert_eq!(nowhere.current_index(), None);
}

#[test]
fn the_toolbar_follows_the_focus_and_comes_back() {
    let mut host = three_windows();
    host.place_initial(Some("DP-1"));
    assert!(host.move_to_connector(Some("HDMI-A-1")));
    assert_eq!(host.current_index(), Some(3));
    assert!(!host.move_to_connector(Some("HDMI-A-1")));
    assert!(!host.move_to_connector(Some("eDP-1")));
    assert!(!host.move_to_connector(None));
    assert_eq!(host.current_index(), Some(3));
    assert!(host.move_to_connector(Some("DP-1")));
    assert_eq!(host.current_index(), Some(0));
}

#[test]
fn a_selector_without_annotation_only_captures() {
    let spec = selector_spec(false, 0, false);
    let mut bar = Toolbar::<f32>::new(spec, RED, 18.0);
    bar.connect();
    let shift = Modifiers { shift: true, ..Modifiers::none() };
    assert!(!bar.press_key(Key::named(KEY_RETURN), shift).taken);
    assert!(!bar.apply_shift(true));
    assert_eq!(bar.click_capture(true), Some(ToolbarAction::Capture));
    assert_eq!(key_action(Key::named(KEY_RETURN), true, false), SelectorKey::Commit(false));
}
