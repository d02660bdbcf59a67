use std::collections::HashSet;

use snypr::ui::canvas::{AnnotateColors, Look};
use snypr::ui::countdown::{
    countdown_css, label_markup, numeral_font, numeral_points, show_countdown, tick, whole_secs,
    NUMERAL_MIN, SELECTOR_NUMERAL_MIN,
};
use snypr::ui::editor::{
    annotate_title, directory_for, resolve_save_path, sibling_path, toolbar_spec as editor_spec,
    Editor, EditorStep, SavePath,
};
use snypr::ui::keys::{
    Key, Modifiers, KEY_KP_ENTER, KEY_RETURN, KEY_SHIFT_L, KEY_SHIFT_R,
};
use snypr::ui::picture::{
    argb_from_rgba, base_from_rgba, compose_edit, decode_base, decode_logo, exchange_red_and_blue,
    icon_from_rgba, slice_pixels, CapturedImage, DecodeError, Patch,
};
use snypr::ui::save::{encode_and_write, sinks_save_fn};
use snypr::ui::session::{check_gtk_exit, is_enabled, APP_ID};
use snypr::ui::sinks::{
    adopt_output_mode, resolve_sinks, set_output_mode, ClipboardKind, OutputMode, SinkSelection,
    SinkSpec,
};
use snypr::ui::toolbar::{
    button_face, capture_icon, capture_tooltip, cell_is_dark, delay_click, delay_scroll,
    editor_tools, find_titled, key_matches, mode_label, overlay_tools, refit_step, rgba_to_hex,
    selector_modes, swatch_cells, tool_label, CaptureFace, InitialMode, ModeKind, RefitStep, Scroll,
    Toolbar, ToolbarAction, ToolbarItem, ToolbarSpec, COLOR_DIALOG_TRIES, DELAY_MAX,
};
use snypr::ui::tools::{FontSize, StrokeStyle, ToolKind};
use snypr::ui::tray::{menu, TrayAction, TrayItem, TITLE};
use snypr::region::Rect;

// ---- toolbar -------------------------------------------------------------------------------

#[test]
fn mode_kind_default_is_screen() {
    assert_eq!(ModeKind::default(), ModeKind::Screen);
}

#[test]
fn mode_kind_from_initial_mode_maps_all_variants() {
    assert_eq!(ModeKind::from(InitialMode::Full), ModeKind::Full);
    assert_eq!(ModeKind::from(InitialMode::Screen), ModeKind::Screen);
    assert_eq!(ModeKind::from(InitialMode::Window), ModeKind::Window);
    assert_eq!(ModeKind::from(InitialMode::Region), ModeKind::Region);
    assert_eq!(ModeKind::from(InitialMode::default()), ModeKind::default());
}

#[test]
fn editor_tool_table_covers_every_tool_kind() {
    let kinds: Vec<ToolKind> = editor_tools().iter().map(|e| e.kind).collect();
    for kind in [
        ToolKind::Rect,
        ToolKind::Ellipse,
        ToolKind::Arrow,
        ToolKind::Line,
        ToolKind::Highlight,
        ToolKind::Freehand,
        ToolKind::Number,
        ToolKind::Text,
        ToolKind::Blur,
        ToolKind::Redact,
        ToolKind::Crop,
    ] {
        assert!(kinds.contains(&kind), "the editor's table is missing {kind:?}");
    }
}

#[test]
fn overlay_draw_preset_includes_blur_excludes_crop() {
    let kinds: Vec<ToolKind> = overlay_tools().iter().map(|e| e.kind).collect();
    assert!(kinds.contains(&ToolKind::Blur));
    assert!(!kinds.contains(&ToolKind::Crop));
}

#[test]
fn overlay_draw_preset_includes_line() {
    let kinds: Vec<ToolKind> = overlay_tools().iter().map(|e| e.kind).collect();
    assert!(kinds.contains(&ToolKind::Line));
}

#[test]
fn overlay_edit_preset_uses_full_editor_toolset() {
    let kinds: Vec<ToolKind> = editor_tools().iter().map(|e| e.kind).collect();
    for kind in [ToolKind::Blur, ToolKind::Crop] {
        assert!(kinds.contains(&kind), "the editor's table is missing {kind:?}");
    }
}

fn bytes(rgba: [f32; 4]) -> [u8; 4] {
    rgba.map(|c| (c * 255.0).round() as u8)
}

#[test]
fn rgba_to_hex_drops_alpha_when_opaque() {
    assert_eq!(rgba_to_hex(&bytes([1.0, 0.0, 0.5, 1.0])), "#ff0080");
}

#[test]
fn rgba_to_hex_includes_alpha_when_translucent() {
    assert_eq!(rgba_to_hex(&bytes([0.0, 1.0, 0.0, 0.5])), "#00ff0080");
}

#[test]
fn stroke_style_default_is_solid() {
    assert_eq!(StrokeStyle::default(), StrokeStyle::Solid);
}

#[test]
fn every_button_has_a_key_of_its_own() {
    let keys: HashSet<Option<char>> = editor_tools().iter().map(|e| e.key.unicode).collect();
    assert_eq!(keys.len(), editor_tools().len());
    let modes: Vec<(ModeKind, Option<char>)> =
        selector_modes().iter().map(|e| (e.kind, e.key.unicode)).collect();
    assert_eq!(
        modes,
        vec![
            (ModeKind::Full, Some('1')),
            (ModeKind::Screen, Some('2')),
            (ModeKind::Window, Some('3')),
            (ModeKind::Region, Some('4')),
        ]
    );
    assert_eq!(tool_label(ToolKind::Arrow), Some("toolbar-tool-arrow"));
    assert_eq!(tool_label(ToolKind::Select), None);
    assert_eq!(mode_label(ModeKind::Full), "toolbar-mode-full");
}

const RED: [f32; 4] = [1.0, 0.0, 0.0, 1.0];
const GREEN: [f32; 4] = [0.0, 1.0, 0.0, 1.0];

/// A toolbar with everything on it, and a listener.
fn full_toolbar() -> Toolbar<f32> {
    let mut bar = Toolbar::new(
        ToolbarSpec {
            tools: overlay_tools(),
            modes: selector_modes(),
            show_undo: true,
            show_clear: true,
            show_save: false,
            show_capture: true,
            capture_shift_annotates: true,
            show_cursor_toggle: true,
            show_passthrough_toggle: true,
            show_delay_spinner: true,
            show_color_picker: true,
            show_style_picker: true,
            show_font_size_picker: true,
            initial_tool: Some(ToolKind::Arrow),
            initial_mode: Some(ModeKind::Region),
            initial_cursor: true,
            initial_passthrough: false,
            initial_delay_secs: 99,
        },
        RED,
        18.0,
    );
    bar.connect();
    bar
}

#[test]
fn a_toolbar_starts_as_it_was_asked_to() {
    let bar = full_toolbar();
    assert_eq!(bar.active_tool, Some(2));
    assert_eq!(bar.active_mode, Some(3));
    assert_eq!(bar.delay, Some(DELAY_MAX));
    assert_eq!((bar.cursor, bar.passthrough), (Some(true), Some(false)));
    assert_eq!(bar.capture, Some(CaptureFace::Capture));
    assert_eq!(bar.items.len(), 4 + 1 + 10 + 1 + 3 + 1 + 6);
    assert_eq!(bar.items[4], ToolbarItem::Separator);
    assert_eq!(bar.items[15], ToolbarItem::Separator);
    assert_eq!(bar.items[19], ToolbarItem::Spacer);
    assert_eq!(bar.items[25], ToolbarItem::Capture);
    let bare = Toolbar::<f32>::new(ToolbarSpec::empty(), RED, 18.0);
    assert!(bare.items.is_empty() && bare.shortcuts.is_empty() && bare.delay.is_none());
}

#[test]
fn a_tool_key_presses_its_button_once() {
    let mut bar = full_toolbar();
    let none = Modifiers::none();
    let first = bar.press_key(Key::from_char('R'), none);
    assert!(first.taken);
    assert_eq!(first.action, Some(ToolbarAction::ToolSelected(ToolKind::Rect)));
    assert_eq!(bar.active_tool, Some(0));
    let second = bar.press_key(Key::from_char('r'), none);
    assert!(second.taken);
    assert_eq!(second.action, None, "the button is down already");
    let shifted = bar.press_key(Key::from_char('r'), Modifiers { shift: true, ..none });
    assert!(!shifted.taken);
}

#[test]
fn a_modifier_that_no_shortcut_uses_does_not_matter() {
    let held = Modifiers { super_key: true, ..Modifiers::none() };
    let out = full_toolbar().press_key(Key::from_char('4'), held);
    assert!(out.taken);
    let alt = Modifiers { alt: true, ..Modifiers::none() };
    assert!(!full_toolbar().press_key(Key::from_char('2'), alt).taken);
}

#[test]
fn the_chords_of_the_actions_are_heard() {
    let control = Modifiers { control: true, ..Modifiers::none() };
    let mut bar = full_toolbar();
    assert_eq!(bar.press_key(Key::from_char('z'), control).action, Some(ToolbarAction::Undo));
    assert_eq!(bar.press_key(Key::from_char('l'), control).action, Some(ToolbarAction::Clear));
    assert_eq!(
        bar.press_key(Key::from_char('p'), Modifiers::none()).action,
        Some(ToolbarAction::PassthroughToggled(true))
    );
    assert!(!bar.press_key(Key::from_char('s'), control).taken, "there is no Save button");
    assert_eq!(
        bar.press_key(Key::named(KEY_RETURN), Modifiers::none()).action,
        Some(ToolbarAction::Capture)
    );
}

#[test]
fn shift_turns_the_capture_button() {
    let shift = Modifiers { shift: true, ..Modifiers::none() };
    let mut bar = full_toolbar();
    assert_eq!(
        bar.press_key(Key::named(KEY_KP_ENTER), shift).action,
        Some(ToolbarAction::Annotate)
    );
    assert_eq!(bar.capture, Some(CaptureFace::Annotate));
    assert_eq!(bar.click_capture(false), Some(ToolbarAction::Annotate));
    bar.release_key(Key::named(KEY_SHIFT_L));
    assert_eq!(bar.capture, Some(CaptureFace::Capture));
    assert_eq!(bar.click_capture(false), Some(ToolbarAction::Capture));
    assert_eq!(bar.click_capture(true), Some(ToolbarAction::Annotate));
    assert!(bar.apply_shift(true));
    assert!(!bar.apply_shift(true));
    bar.release_key(Key::named(KEY_SHIFT_R));
    assert_eq!(capture_icon(CaptureFace::Annotate), "document-edit-symbolic");
    assert_eq!(capture_icon(CaptureFace::Plain), "camera-photo-symbolic");
    assert_eq!(capture_tooltip(CaptureFace::Capture), "toolbar-capture-tooltip-shift");
}

#[test]
fn nobody_hears_a_toolbar_without_a_listener() {
    let mut bar = full_toolbar();
    bar.connected = false;
    assert_eq!(bar.press_tool(0), None);
    assert_eq!(bar.active_tool, Some(0));
    assert_eq!(bar.click_button(ToolbarItem::Undo), None);
    assert_eq!(bar.click_capture(false), None);
    let control = Modifiers { control: true, ..Modifiers::none() };
    assert!(!bar.press_key(Key::from_char('z'), control).taken);
}

#[test]
fn the_delay_stays_in_its_range() {
    let mut bar = full_toolbar();
    assert_eq!(bar.step_delay(delay_click(true, false)), None, "it is at its limit already");
    assert_eq!(bar.step_delay(delay_click(false, true)), Some(ToolbarAction::DelayChanged(55)));
    bar.set_delay(3);
    assert_eq!(bar.step_delay(delay_scroll(Scroll::Down)), Some(ToolbarAction::DelayChanged(2)));
    assert_eq!(bar.step_delay(delay_scroll(Scroll::Still)), None);
    assert_eq!(bar.step_delay(-5), Some(ToolbarAction::DelayChanged(0)));
    assert_eq!(delay_scroll(Scroll::Up), 1);
    assert_eq!(delay_click(true, true), 5);
}

#[test]
fn pickers_tell_what_was_picked() {
    let mut bar = full_toolbar();
    assert_eq!(bar.pick_color(None), None);
    assert_eq!(bar.pick_color(Some(GREEN)), Some(ToolbarAction::ColorChanged(GREEN)));
    assert_eq!(bar.color, Some(GREEN));
    assert_eq!(
        bar.pick_style(StrokeStyle::Dashed),
        Some(ToolbarAction::StrokeStyleChanged(StrokeStyle::Dashed))
    );
    let size = FontSize { asked: 24.0, one: 1.0, below_one: false };
    assert_eq!(bar.pick_font_size(size), Some(ToolbarAction::FontSizeChanged(size)));
    assert_eq!(bar.font_size, Some(24.0));
    assert_eq!(bar.toggle_cursor(), Some(ToolbarAction::CursorToggled(false)));
    assert_eq!(bar.toggle_passthrough(), Some(ToolbarAction::PassthroughToggled(true)));
    assert_eq!(bar.press_mode(0), Some(ToolbarAction::ModeSelected(ModeKind::Full)));
    assert_eq!(bar.press_mode(0), None);
}

#[test]
fn the_toolbar_follows_what_it_is_told() {
    let mut bar = full_toolbar();
    bar.set_tool(ToolKind::Text);
    assert_eq!(bar.active_tool, Some(7));
    bar.set_tool(ToolKind::Select);
    assert_eq!(bar.active_tool, None, "Select has no button");
    bar.set_mode(ModeKind::Window);
    assert_eq!(bar.active_mode, Some(2));
    bar.set_cursor(false);
    bar.set_passthrough(true);
    bar.set_color(GREEN);
    bar.set_stroke_style(StrokeStyle::Dotted);
    bar.set_font_size(30.0);
    bar.set_color_picker_sensitive(false);
    bar.set_style_picker_sensitive(false);
    bar.set_font_size_picker_sensitive(false);
    assert_eq!((bar.cursor, bar.passthrough), (Some(false), Some(true)));
    assert_eq!((bar.color, bar.style), (Some(GREEN), Some(StrokeStyle::Dotted)));
    assert_eq!(bar.font_size, Some(30.0));
    assert!(!bar.color_sensitive && !bar.style_sensitive && !bar.font_size_sensitive);
}

#[test]
fn details_of_the_controls() {
    assert!(key_matches(Key::from_char('a'), Key::from_char('A')));
    assert!(!key_matches(Key::from_char('a'), Key::from_char('b')));
    assert_eq!(
        button_face(ToolbarItem::Undo),
        Some(("edit-undo-symbolic", "toolbar-undo-tooltip"))
    );
    assert_eq!(button_face(ToolbarItem::Spacer), None);
    assert_eq!((swatch_cells(0), swatch_cells(16), swatch_cells(17)), (0, 4, 5));
    assert!(cell_is_dark(0, 0) && !cell_is_dark(1, 0) && cell_is_dark(3, 1));
    assert_eq!(refit_step(true, 0), RefitStep::Refit);
    assert_eq!(refit_step(false, 0), RefitStep::GiveUp);
    assert_eq!(refit_step(false, COLOR_DIALOG_TRIES), RefitStep::Retry(2));
    let titles = vec![None, Some("a".to_owned()), Some("b".to_owned()), Some("b".to_owned())];
    assert_eq!(find_titled(&titles, "b"), Some(2));
    assert_eq!(find_titled(&titles, "c"), None);
}

// ---- countdown -----------------------------------------------------------------------------

#[test]
fn set_label_value_renders_the_seconds_at_the_requested_size() {
    for (secs, pt) in [(3, 72), (0, 12), (60, 200)] {
        let markup = label_markup(secs, pt);
        assert_eq!(
            markup,
            format!("<span font_desc=\"Sans Bold {pt}\">{secs}</span>")
        );
    }
    assert_eq!(numeral_font(48), "Sans Bold 48");
}

#[test]
fn the_countdown_style_sheet_holds_both_colors() {
    let css = countdown_css("rgba(0,0,0,0.5)", "rgba(255,255,255,1)");
    assert!(css.contains("background: rgba(0,0,0,0.5);"));
    assert!(css.contains("color: rgba(255,255,255,1);"));
    assert_eq!(css.matches('{').count(), css.matches('}').count());
}

#[test]
fn a_countdown_counts_each_second() {
    assert_eq!(show_countdown(0, 0), None);
    assert_eq!(show_countdown(3, 0), Some(3));
    assert_eq!(show_countdown(0, 1), Some(0));
    assert_eq!(whole_secs(u64::MAX), u32::MAX);
    let mut shown = vec![3];
    while let Some(next) = tick(shown[shown.len() - 1]) {
        shown.push(next);
    }
    assert_eq!(shown, vec![3, 2, 1]);
    assert_eq!(numeral_points(1920, 1080, NUMERAL_MIN), 270);
    assert_eq!(numeral_points(100, 80, SELECTOR_NUMERAL_MIN), 48);
    assert_eq!(numeral_points(-1, 80, NUMERAL_MIN), 96);
}

// ---- session -------------------------------------------------------------------------------

#[test]
fn check_gtk_exit_accepts_a_clean_quit() {
    assert!(check_gtk_exit(0).is_ok());
}

#[test]
fn check_gtk_exit_reports_a_non_zero_status() {
    for code in [1, 139, -1] {
        let err = check_gtk_exit(code).unwrap_err();
        assert!(
            err.message().contains(&code.to_string()),
            "status {code} missing from {err:?}"
        );
    }
    assert_eq!(check_gtk_exit(-1).unwrap_err().message(), "GTK exited with status -1");
    assert_eq!(APP_ID, "noirbizar.re.Snypr");
}

#[test]
fn words_for_off_turn_a_switch_off() {
    for off in ["", "0", " FALSE ", "no", "\tNo\n"] {
        assert!(!is_enabled(Some(off)), "{off:?}");
    }
    for on in ["1", "true", "yes", "00"] {
        assert!(is_enabled(Some(on)), "{on:?}");
    }
    assert!(!is_enabled(None));
}

#[test]
fn the_tray_offers_its_actions() {
    let items = menu();
    assert_eq!(items.len(), 5);
    let actions: Vec<Option<TrayAction>> = items
        .iter()
        .map(|item| match item {
            TrayItem::Entry { action, .. } => Some(*action),
            TrayItem::Separator => None,
        })
        .collect();
    assert_eq!(
        actions,
        vec![
            Some(TrayAction::Screenshot { edit: false }),
            Some(TrayAction::Screenshot { edit: true }),
            Some(TrayAction::OpenDraw),
            None,
            Some(TrayAction::Quit),
        ]
    );
    match items[1] {
        TrayItem::Entry { label, icon_name, .. } => {
            assert_eq!((label, icon_name), ("Annotate region…", "edit-cut"));
        }
        TrayItem::Separator => panic!("expected an entry"),
    }
    assert_eq!(TITLE, "HyprSnap");
}

// ---- sinks ---------------------------------------------------------------------------------

fn sinks(names: &[&str]) -> Vec<SinkSpec> {
    names
        .iter()
        .map(|name| match *name {
            "file" => SinkSpec::File(None),
            "clipboard" => SinkSpec::Clipboard(None),
            other => panic!("{other}"),
        })
        .collect()
}

#[test]
fn an_empty_sink_list_falls_back_to_the_configured_defaults() {
    let cases: [(&[&str], OutputMode); 3] = [
        (&["file"], OutputMode::File),
        (&["clipboard"], OutputMode::Clipboard),
        (&["file", "clipboard"], OutputMode::Both),
    ];
    for (default_sinks, expected) in cases {
        let shared = resolve_sinks(&sinks(default_sinks), &vec![]);
        assert_eq!(shared.mode(), expected);
    }
}

#[test]
fn explicit_sinks_win_over_the_configured_defaults() {
    let shared = resolve_sinks(&sinks(&["clipboard"]), &vec![SinkSpec::File(None)]);
    assert_eq!(shared.mode(), OutputMode::File);
}

#[test]
fn switching_the_destination_redirects_the_next_save() {
    let mut shared = resolve_sinks(&sinks(&["file"]), &vec![SinkSpec::File(None)]);
    set_output_mode(&mut shared, OutputMode::Clipboard);
    assert_eq!(shared.to_sinks(), vec![SinkSpec::Clipboard(None)]);
}

#[test]
fn adopting_a_nested_selector_choice_returns_the_new_sinks() {
    let mut shared = resolve_sinks(
        &sinks(&["file"]),
        &vec![
            SinkSpec::File(Some("/tmp/draw.png".into())),
            SinkSpec::Clipboard(Some(ClipboardKind::Primary)),
        ],
    );
    let adopted = adopt_output_mode(&mut shared, OutputMode::Clipboard);
    assert_eq!(adopted, vec![SinkSpec::Clipboard(Some(ClipboardKind::Primary))]);
    assert_eq!(shared.mode(), OutputMode::Clipboard);
    assert_eq!(
        adopt_output_mode(&mut shared, OutputMode::File),
        vec![SinkSpec::File(Some("/tmp/draw.png".into()))]
    );
}

#[test]
fn the_destination_of_the_asked_sinks_writes_to_them() {
    let asked = vec![SinkSpec::Clipboard(None), SinkSpec::File(Some("/a".into()))];
    let selection = SinkSelection::from_sinks(&asked);
    assert_eq!(selection.mode(), OutputMode::Both);
    assert_eq!(selection.to_sinks(), asked);
}

// ---- saving --------------------------------------------------------------------------------

#[test]
fn a_save_without_sinks_goes_to_the_configured_ones() {
    let save = sinks_save_fn(&sinks(&["file"]), &vec![], "region");
    assert_eq!(save.sinks, vec![SinkSpec::File(None)]);
    let name = save.filename_context(Some("DP-1"));
    assert_eq!(name.output.as_deref(), Some("DP-1"));
    assert_eq!(name.selection.as_deref(), Some("region"));
    assert_eq!(save.filename_context(None).output, None);
    let asked = vec![SinkSpec::File(Some("/tmp/explicit.png".into()))];
    assert_eq!(sinks_save_fn(&sinks(&["clipboard"]), &asked, "full").sinks, asked);
}

#[test]
fn only_written_files_are_recorded() {
    let mut collected = vec!["/a.png".to_owned()];
    let paths = vec!["/b.png".to_owned(), "/c.png".to_owned()];
    let done: Result<Vec<String>, &str> = encode_and_write(Ok(paths.clone()), &mut collected);
    assert_eq!(done, Ok(paths));
    let failed = encode_and_write(Err("disk full"), &mut collected);
    assert_eq!(failed, Err("disk full"));
    assert_eq!(collected, vec!["/a.png", "/b.png", "/c.png"]);
}

// ---- pictures ------------------------------------------------------------------------------

/// Two pixels, (1, 2, 3, 4) and (250, 0, 128, 255).
const TWO_PIXELS: [u8; 74] = [
    137, 80, 78, 71, 13, 10, 26, 10, 0, 0, 0, 13, 73, 72, 68, 82, 0, 0, 0, 2, 0, 0, 0, 1, 8, 6, 0,
    0, 0, 244, 34, 127, 138, 0, 0, 0, 17, 73, 68, 65, 84, 120, 218, 99, 96, 100, 98, 102, 249, 197,
    208, 240, 31, 0, 6, 44, 2, 132, 188, 238, 166, 41, 0, 0, 0, 0, 73, 69, 78, 68, 174, 66, 96, 130,
];

#[test]
fn a_png_becomes_a_document() {
    let base = decode_base(&TWO_PIXELS).unwrap();
    assert_eq!((base.width, base.height, base.stride), (2, 1, 8));
    assert_eq!(base.pixels, vec![1, 2, 3, 4, 250, 0, 128, 255]);
    assert_eq!(decode_base(b"no picture").unwrap_err(), DecodeError::Unreadable);
    let same = base_from_rgba(2, 1, vec![1, 2, 3, 4, 250, 0, 128, 255]);
    assert_eq!(same.pixels, base.pixels);
}

#[test]
fn a_png_becomes_a_tray_icon() {
    let icon = decode_logo(&TWO_PIXELS).unwrap();
    assert_eq!((icon.width, icon.height), (2, 1));
    assert_eq!(icon.data, vec![4, 1, 2, 3, 255, 250, 0, 128]);
    assert_eq!(decode_logo(&TWO_PIXELS[..20]).unwrap_err(), DecodeError::Unreadable);
    assert_eq!(argb_from_rgba(&vec![1, 2, 3, 4, 5]), vec![4, 1, 2, 3]);
    assert_eq!(icon_from_rgba(1, 1, &vec![9, 8, 7, 6]).data, vec![6, 9, 8, 7]);
}

#[test]
fn red_and_blue_change_places_and_back() {
    let mut pixels = vec![1, 2, 3, 4, 5, 6, 7, 8, 9];
    exchange_red_and_blue(&mut pixels);
    assert_eq!(pixels, vec![3, 2, 1, 4, 7, 6, 5, 8, 9]);
    exchange_red_and_blue(&mut pixels);
    assert_eq!(pixels, vec![1, 2, 3, 4, 5, 6, 7, 8, 9]);
}

/// A picture whose pixels are numbered by row and column.
fn numbered(width: u32, height: u32, stride: u32) -> Vec<u8> {
    let mut pixels = vec![0; (stride * height) as usize];
    for y in 0..height {
        for x in 0..width {
            let at = (y * stride + 4 * x) as usize;
            pixels[at..at + 4].fill((10 * y + x) as u8);
        }
    }
    pixels
}

#[test]
fn a_slice_is_what_the_monitor_shows() {
    let pixels = numbered(4, 3, 20);
    let rect = Rect { x: 102, y: 201, w: 10, h: 1 };
    let piece = slice_pixels(&pixels, 4, 3, 20, (100, 200), rect).unwrap();
    assert_eq!((piece.width, piece.height), (2, 1));
    assert_eq!(piece.pixels, vec![12, 12, 12, 12, 13, 13, 13, 13]);
    let elsewhere = Rect { x: 104, y: 200, w: 5, h: 5 };
    assert!(slice_pixels(&pixels, 4, 3, 20, (100, 200), elsewhere).is_none());
}

#[test]
fn patches_cover_the_picture_in_their_order() {
    let base = base_from_rgba(3, 1, numbered(3, 1, 12));
    let patch = |left: u32, value: u8| Patch {
        left,
        top: 0,
        image: CapturedImage { width: 1, height: 1, stride: 4, pixels: vec![value; 4] },
    };
    let out = compose_edit(&base, &vec![patch(1, 50), patch(2, 60), patch(1, 70)]);
    assert_eq!((out.width, out.height, out.stride), (3, 1, 12));
    assert_eq!(out.pixels, vec![0, 0, 0, 0, 70, 70, 70, 70, 60, 60, 60, 60]);
    assert_eq!(compose_edit(&base, &vec![]).pixels, numbered(3, 1, 12));
}

// ---- editor --------------------------------------------------------------------------------

fn saved_at(path: SavePath) -> Option<String> {
    match path {
        SavePath::At(p) => Some(p),
        SavePath::Configured => None,
    }
}

#[test]
fn the_annotated_picture_goes_next_to_its_source() {
    assert_eq!(
        saved_at(resolve_save_path(&vec![], "/home/me/shot.v1.jpg")).as_deref(),
        Some("/home/me/shot.v1-annotated.jpg")
    );
    assert_eq!(
        saved_at(resolve_save_path(&vec![], "/home/me/shot")).as_deref(),
        Some("/home/me/shot-annotated.png")
    );
    assert_eq!(
        saved_at(resolve_save_path(&vec![], "/")).as_deref(),
        Some("./hyprsnap-annotated.png")
    );
    assert_eq!(
        saved_at(resolve_save_path(&vec![], "shot.png")).as_deref(),
        Some("shot-annotated.png")
    );
    assert_eq!(sibling_path(&None, &None, &Some("/x".into())), "/x/hyprsnap-annotated.png");
}

#[test]
fn an_explicit_path_wins_over_the_source() {
    let asked = vec![
        SinkSpec::Clipboard(None),
        SinkSpec::File(None),
        SinkSpec::File(Some("/tmp/a.png".into())),
        SinkSpec::File(Some("/tmp/b.png".into())),
    ];
    let chosen = saved_at(resolve_save_path(&asked, "/home/me/shot.png"));
    assert_eq!(chosen.as_deref(), Some("/tmp/a.png"));
    let plain = vec![SinkSpec::File(None)];
    assert!(matches!(resolve_save_path(&plain, "/home/me/shot.png"), SavePath::Configured));
}

#[test]
fn a_directory_is_made_for_a_path_in_one() {
    assert_eq!(directory_for("/tmp/shots/a.png").as_deref(), Some("/tmp/shots"));
    assert_eq!(directory_for("a.png"), None);
    assert_eq!(directory_for("/"), None);
    assert_eq!(annotate_title("/tmp/a.png"), "HyprSnap — annotate (/tmp/a.png)");
}

fn look() -> Look<f64, f32> {
    Look {
        box_stroke: RED,
        line_stroke: RED,
        box_width: 3.0,
        line_width: 4.0,
        highlight: [1.0, 1.0, 0.0, 0.35],
        number_fill: RED,
        number_text: [1.0; 4],
        number_radius: 18.0,
        text_color: RED,
        font_size: 18.0,
        blur_radius: 12.0,
        redact_preview: [0.0, 0.0, 0.0, 0.85],
        crop_preview: [0.0, 0.6, 1.0, 0.25],
        blur_preview: [0.5, 0.5, 0.5, 0.5],
        other_preview: RED,
        zero: 0.0,
    }
}

fn colors() -> AnnotateColors<f32> {
    AnnotateColors {
        rect: RED,
        ellipse: RED,
        arrow: RED,
        line: RED,
        freehand: RED,
        highlight: [1.0, 1.0, 0.0, 0.35],
        number: RED,
        text: RED,
    }
}

#[test]
fn the_editor_opens_with_the_rectangle_tool() {
    let base = base_from_rgba(3, 1, numbered(3, 1, 12));
    let mut editor = Editor::open(base, look(), &colors(), RED, 18.0);
    assert_eq!(editor.canvas.tool(), ToolKind::Rect);
    assert!(editor.canvas.has_base());
    assert_eq!(editor.toolbar.active_tool, Some(0));
    assert_eq!(editor_spec().tools.len(), 11);
    let step = editor.apply_action(ToolbarAction::ToolSelected(ToolKind::Crop), (0, 0));
    assert!(matches!(step, EditorStep::Canvas(_)));
    assert_eq!(editor.canvas.tool(), ToolKind::Crop);
    assert_eq!(editor.apply_action(ToolbarAction::Save, (0, 0)), EditorStep::Save);
    assert_eq!(editor.apply_action(ToolbarAction::Clear, (0, 0)), EditorStep::Nothing);
}
