use snypr::region::Rect;
use snypr::wm::focus::{
    next_socket_action, SocketAction, SocketBackend, SocketEvent, ToplevelAction, ToplevelOutcome,
    ToplevelPump,
};
use snypr::wm::foreign_toplevel::{
    active_window as toplevel_active_window, clients as toplevel_clients, collect_snapshot,
    current_focused_output, focus_changed, focused_output as toplevel_focused_output,
    handle_event, parse_state_bits, pick_activated, probe, wayland_display_path, DisplayPathError,
    OutputName, ToplevelBuilder, ToplevelEvent, ToplevelSnapshot,
};
use snypr::wm::hyprland::{
    active_window as hyprland_active_window, clients as hyprland_clients, focused_monitor,
    no_active_window, parse_focused_monitor_event, socket_path as hyprland_socket_path,
    socket_path_named, Hyprland, HyprlandError, RawActiveWindow, RawClient, RawMonitor,
};
use snypr::wm::json::{parse_json, Json};
use snypr::wm::niri::{
    active_window as niri_active_window, clients as niri_clients, expect_focused_output,
    expect_focused_window, expect_outputs, expect_windows, expect_workspaces,
    focused_output as niri_focused_output, resolve_rect, response_of,
    socket_path as niri_socket_path, workspace_outputs, LogicalOutputRaw, Niri, NiriError,
    OutputRaw, Request, Response, WindowLayoutRaw, WindowRaw, WorkspaceRaw,
};
use snypr::wm::sway::{
    active_window as sway_active_window, active_window_in, clients as sway_clients, clients_in,
    collect_windows, decode_header, encode_message, find_focused,
    focused_output as sway_focused_output, is_window_node, socket_path as sway_socket_path,
    subscribe_payload, window_fields, Sway, SwayError, GET_OUTPUTS, GET_TREE, HEADER_LEN, SUBSCRIBE,
};
use snypr::wm::{detect, probed, window_at, ActiveWindow, BackendKind, Detection, WmWindow};

// ---- detection -----------------------------------------------------------------------------

/// The backend in use on a machine where no toplevel manager answers.
fn detected(signature: bool, swaysock: bool, niri_socket: bool) -> Option<BackendKind> {
    match detect(signature, swaysock, niri_socket) {
        Detection::Backend(kind) => Some(kind),
        Detection::Probe => probed(false),
    }
}

#[test]
fn detect_picks_hyprland_when_its_signature_is_set() {
    let backend = detected(true, false, false).expect("a backend");
    assert_eq!(backend.name(), "Hyprland");
}

#[test]
fn detect_picks_sway_when_hyprland_is_not_set() {
    let backend = detected(false, true, false).expect("a backend");
    assert_eq!(backend.name(), "Sway");
}

#[test]
fn detect_picks_niri_when_only_its_socket_is_set() {
    let backend = detected(false, false, true).expect("a backend");
    assert_eq!(backend.name(), "Niri");
}

#[test]
fn detect_prefers_hyprland_when_both_are_set() {
    let backend = detected(true, true, false).expect("a backend");
    assert_eq!(backend.name(), "Hyprland");
}

#[test]
fn detect_prefers_hyprland_over_niri() {
    let backend = detected(true, false, true).expect("a backend");
    assert_eq!(backend.name(), "Hyprland");
}

#[test]
fn detect_prefers_sway_over_niri() {
    let backend = detected(false, true, true).expect("a backend");
    assert_eq!(backend.name(), "Sway");
}

#[test]
fn detect_returns_none_on_other_compositors() {
    assert!(detected(false, false, false).is_none());
}

#[test]
fn a_toplevel_manager_is_the_last_resort() {
    assert_eq!(detect(false, false, false), Detection::Probe);
    assert_eq!(probed(true), Some(BackendKind::ForeignToplevel));
    assert_eq!(probe(true).map(|b| b.name()), Some(BackendKind::ForeignToplevel.name()));
    assert!(probe(false).is_none());
}

// ---- foreign toplevels ---------------------------------------------------------------------

fn snap(id: &str, activated: bool, outputs: &[&str]) -> ToplevelSnapshot {
    ToplevelSnapshot {
        id: id.to_owned(),
        title: "t".into(),
        app_id: "c".into(),
        activated,
        minimized: false,
        outputs: outputs.iter().map(|s| s.to_string()).collect(),
    }
}

#[test]
fn pick_activated_returns_none_without_any_activated_toplevel() {
    let snapshot = vec![snap("a", false, &["DP-1"]), snap("b", false, &[])];
    assert!(pick_activated(&snapshot).is_none());
}

#[test]
fn pick_activated_returns_the_sole_activated_toplevel() {
    let snapshot = vec![snap("a", false, &[]), snap("b", true, &["DP-1"])];
    assert_eq!(pick_activated(&snapshot).map(|t| t.id.as_str()), Some("b"));
}

#[test]
fn pick_activated_prefers_the_last_one_when_several_report_activated() {
    let snapshot = vec![snap("a", true, &["DP-1"]), snap("b", true, &["HDMI-A-1"])];
    assert_eq!(pick_activated(&snapshot).map(|t| t.id.as_str()), Some("b"));
}

#[test]
fn parse_state_bits_decodes_the_flags_this_backend_cares_about() {
    let cases: [(&[u32], (bool, bool)); 6] = [
        (&[2], (true, false)),
        (&[1], (false, true)),
        (&[0, 3], (false, false)),
        (&[1, 2], (true, true)),
        (&[2, 1], (true, true)),
        (&[], (false, false)),
    ];
    for (values, expected) in cases {
        let raw: Vec<u8> = values.iter().flat_map(|v| v.to_ne_bytes()).collect();
        assert_eq!(parse_state_bits(&raw), expected);
    }
}

#[test]
fn parse_state_bits_ignores_a_truncated_trailing_chunk() {
    let mut raw: Vec<u8> = 2u32.to_ne_bytes().to_vec();
    raw.push(0xff);
    assert_eq!(parse_state_bits(&raw), (true, false));
}

#[test]
fn parse_state_bits_skips_a_state_it_does_not_know() {
    let raw: Vec<u8> = [2u32 << 8, 0x0100_0000, 99]
        .iter()
        .flat_map(|v| v.to_ne_bytes())
        .collect();
    assert_eq!(parse_state_bits(&raw), (false, false));
}

#[test]
fn wayland_display_path_combines_runtime_dir_and_display() {
    assert_eq!(
        wayland_display_path(Some("/run/user/1000"), Some("wayland-1")).unwrap(),
        "/run/user/1000/wayland-1"
    );
}

#[test]
fn wayland_display_path_requires_xdg_runtime_dir() {
    let err = wayland_display_path(None, Some("wayland-1")).unwrap_err();
    assert_eq!(err, DisplayPathError::NoRuntimeDir);
    assert!(err.message().contains("XDG_RUNTIME_DIR"), "{err:?}");
}

#[test]
fn wayland_display_path_requires_wayland_display() {
    let err = wayland_display_path(Some("/run/user/1000"), None).unwrap_err();
    assert_eq!(err, DisplayPathError::NoDisplay);
    assert!(err.message().contains("WAYLAND_DISPLAY"), "{err:?}");
}

#[test]
fn an_absolute_display_is_its_own_path() {
    assert_eq!(
        wayland_display_path(Some("/run/user/1000"), Some("/tmp/wl")).unwrap(),
        "/tmp/wl"
    );
}

/// Two outputs, and three toplevels of which the last was closed.
fn toplevel_session() -> (Vec<ToplevelBuilder>, Vec<OutputName>) {
    let mut list = vec![
        ToplevelBuilder::new(10, "10".to_owned()),
        ToplevelBuilder::new(20, "20".to_owned()),
        ToplevelBuilder::new(30, "30".to_owned()),
    ];
    let events = vec![
        (10, ToplevelEvent::Title("term".to_owned())),
        (10, ToplevelEvent::AppId("kitty".to_owned())),
        (10, ToplevelEvent::OutputEnter(1)),
        (10, ToplevelEvent::State { activated: true, minimized: false }),
        (10, ToplevelEvent::Done),
        (20, ToplevelEvent::OutputEnter(2)),
        (20, ToplevelEvent::OutputEnter(1)),
        (20, ToplevelEvent::OutputLeave(2)),
        (20, ToplevelEvent::State { activated: false, minimized: true }),
        (20, ToplevelEvent::Other),
        (20, ToplevelEvent::Done),
        (30, ToplevelEvent::Done),
        (30, ToplevelEvent::Closed),
        (99, ToplevelEvent::Closed),
    ];
    for (handle, event) in events {
        handle_event(&mut list, handle, event);
    }
    let names = vec![
        OutputName { output: 1, name: Some("DP-1".to_owned()) },
        OutputName { output: 2, name: None },
    ];
    (list, names)
}

#[test]
fn foreign_toplevel_clients_never_report_geometry() {
    let (list, names) = toplevel_session();
    let snapshot = collect_snapshot(&list, &names);
    let windows = toplevel_clients(&snapshot);
    assert_eq!(windows.len(), 2);
    for w in &windows {
        assert!(w.at.is_none() && w.size.is_none() && w.rect().is_none());
    }
    assert_eq!(windows[0].id, "10");
    assert_eq!(windows[0].monitor, "DP-1");
    assert!(!windows[0].hidden);
    assert!(windows[1].hidden, "a minimized window is hidden");
    assert!(window_at(&windows, 0, 0).is_none());
}

#[test]
fn foreign_toplevel_active_window_has_no_geometry_either() {
    let (list, names) = toplevel_session();
    let snapshot = collect_snapshot(&list, &names);
    let active = toplevel_active_window(&snapshot).unwrap();
    assert_eq!(active.title, "term");
    assert_eq!(active.class, "kitty");
    assert_eq!(active.monitor, "DP-1");
    assert!(active.at.is_none() && active.size.is_none() && active.rect().is_none());
    assert!(toplevel_active_window(&[]).is_none());
}

#[test]
fn foreign_toplevel_focused_output_names_a_real_output() {
    let (list, names) = toplevel_session();
    assert_eq!(current_focused_output(&list, &names), Some("DP-1".to_owned()));
    assert_eq!(toplevel_focused_output(&[snap("a", true, &[])]), None);
}

#[test]
fn a_focus_that_stays_is_no_change() {
    let dp1 = Some("DP-1".to_owned());
    assert!(!focus_changed(&dp1, &Some("DP-1".to_owned())));
    assert!(focus_changed(&dp1, &None));
    assert!(focus_changed(&dp1, &Some("DP-2".to_owned())));
}

// ---- windows -------------------------------------------------------------------------------

fn win(id: &str, x: i32, y: i32, w: u32, h: u32, mapped: bool, hidden: bool) -> WmWindow {
    WmWindow {
        id: id.into(),
        title: "t".into(),
        class: "c".into(),
        at: Some((x, y)),
        size: Some((w, h)),
        monitor: "0".into(),
        workspace_id: 1,
        mapped,
        hidden,
    }
}

#[test]
fn window_at_returns_topmost_match() {
    let clients = vec![
        win("top", 0, 0, 100, 100, true, false),
        win("bottom", 0, 0, 200, 200, true, false),
    ];
    assert_eq!(window_at(&clients, 50, 50).map(|w| w.id.as_str()), Some("top"));
}

#[test]
fn window_at_skips_unmapped_and_hidden() {
    let clients = vec![
        win("unmapped", 0, 0, 100, 100, false, false),
        win("hidden", 0, 0, 100, 100, true, true),
        win("visible", 0, 0, 100, 100, true, false),
    ];
    assert_eq!(window_at(&clients, 10, 10).map(|w| w.id.as_str()), Some("visible"));
}

#[test]
fn window_at_returns_none_when_point_outside() {
    let clients = vec![win("only", 0, 0, 10, 10, true, false)];
    assert_eq!(window_at(&clients, 100, 100).map(|w| w.id.as_str()), None);
}

#[test]
fn window_at_picks_correct_one_for_disjoint_clients() {
    let clients = vec![
        win("left", 0, 0, 100, 100, true, false),
        win("right", 200, 0, 100, 100, true, false),
    ];
    assert_eq!(window_at(&clients, 250, 50).map(|w| w.id.as_str()), Some("right"));
    assert_eq!(window_at(&clients, 50, 50).map(|w| w.id.as_str()), Some("left"));
}

#[test]
fn active_window_rect_maps_position_and_size() {
    let w = ActiveWindow {
        title: "term".into(),
        class: "kitty".into(),
        at: Some((-10, 25)),
        size: Some((800, 600)),
        monitor: "1".into(),
    };
    assert_eq!(w.rect(), Some(Rect { x: -10, y: 25, w: 800, h: 600 }));
}

// ---- Hyprland ------------------------------------------------------------------------------

#[test]
fn parses_focused_monitor_events() {
    for (line, expected) in [
        ("focusedmon>>DP-1,1", Some("DP-1")),
        ("focusedmon>>HDMI-A-1,web", Some("HDMI-A-1")),
        ("focusedmonv2>>HDMI-A-1,2", Some("HDMI-A-1")),
        ("focusedmonv2>>eDP-1,3", Some("eDP-1")),
        ("activewindow>>kitty,bash", None),
        ("workspace>>2", None),
        ("focusedmonfoo>>DP-1,1", None),
        ("focusedmon>>,1", None),
        ("focusedmon>>", None),
    ] {
        assert_eq!(parse_focused_monitor_event(line), expected, "{line}");
    }
}

#[test]
fn socket_path_requires_the_instance_signature() {
    let err = socket_path_named(None, None, ".socket.sock", |_: &str| true).unwrap_err();
    assert!(
        err.message().contains("HYPRLAND_INSTANCE_SIGNATURE"),
        "unexpected error: {err:?}"
    );
}

#[test]
fn socket_path_prefers_the_xdg_runtime_dir() {
    for file in [".socket.sock", ".socket2.sock"] {
        let expected = format!("/run/user/1000/hypr/deadbeef/{file}");
        let path = socket_path_named(Some("deadbeef"), Some("/run/user/1000"), file, |_: &str| true);
        assert_eq!(path.unwrap(), expected);
    }
}

#[test]
fn socket_path_falls_back_to_the_temporary_directory() {
    let path = socket_path_named(
        Some("deadbeef"),
        Some("/run/user/1000"),
        ".socket2.sock",
        |p: &str| p.starts_with("/tmp/"),
    );
    assert_eq!(path.unwrap(), "/tmp/hypr/deadbeef/.socket2.sock");
}

#[test]
fn socket_path_reports_both_candidates_when_neither_exists() {
    let sig = "snypr-test-missing-instance";
    let err = socket_path_named(Some(sig), Some("/run/user/1000"), ".socket.sock", |_: &str| false)
        .unwrap_err();
    let msg = err.message();
    assert!(msg.contains(sig), "unexpected error: {msg}");
    assert!(msg.contains("/tmp/hypr/"), "unexpected error: {msg}");
    assert_eq!(
        msg,
        "Hyprland IPC socket not found under $XDG_RUNTIME_DIR/hypr/snypr-test-missing-instance/\
         .socket.sock or /tmp/hypr/snypr-test-missing-instance/.socket.sock"
    );
}

#[test]
fn hyprland_backend_name_and_socket_path_delegate() {
    assert_eq!(Hyprland.name(), "Hyprland");
    assert_eq!(
        hyprland_socket_path(Some("deadbeef"), Some("/run/user/1"), |_: &str| true).unwrap(),
        "/run/user/1/hypr/deadbeef/.socket.sock"
    );
}

#[test]
fn hyprland_backend_active_window_delegates_to_the_free_function() {
    let win = hyprland_active_window(RawActiveWindow {
        title: "term".into(),
        class: "kitty".into(),
        at: (1, 2),
        size: (3, 4),
        monitor: 0,
    });
    assert_eq!(win.title, "term");
    assert_eq!(win.class, "kitty");
    assert_eq!(win.at, Some((1, 2)));
    assert_eq!(win.size, Some((3, 4)));
    assert_eq!(win.monitor, "0");
}

#[test]
fn hyprland_sizes_are_never_negative() {
    let win = hyprland_active_window(RawActiveWindow {
        title: String::new(),
        class: String::new(),
        at: (0, 0),
        size: (-3, 7),
        monitor: -1,
    });
    assert_eq!(win.size, Some((0, 7)));
    assert_eq!(win.monitor, "-1");
}

#[test]
fn hyprland_backend_clients_delegates_to_the_free_function() {
    let list = hyprland_clients(&[RawClient {
        address: "0x1".into(),
        title: "t".into(),
        class: "c".into(),
        at: (0, 0),
        size: (10, 10),
        monitor: 0,
        workspace_id: 1,
        mapped: true,
        hidden: false,
    }]);
    assert_eq!(list.len(), 1);
    assert_eq!(list[0].id, "0x1");
    assert_eq!(list[0].rect(), Some(Rect { x: 0, y: 0, w: 10, h: 10 }));
    assert_eq!((list[0].workspace_id, list[0].mapped, list[0].hidden), (1, true, false));
}

#[test]
fn hyprland_backend_focused_output_delegates_to_the_free_function() {
    let monitors = [
        RawMonitor { name: "DP-1".into(), focused: false },
        RawMonitor { name: "HDMI-A-1".into(), focused: true },
    ];
    assert_eq!(focused_monitor(&monitors).unwrap(), "HDMI-A-1");
    let err = focused_monitor(&monitors[..1]).unwrap_err();
    assert!(matches!(err, HyprlandError::NoFocusedMonitor));
    assert_eq!(err.message(), "no focused monitor");
}

#[test]
fn an_empty_reply_means_no_active_window() {
    assert!(no_active_window(""));
    assert!(no_active_window(" {}\n"));
    assert!(!no_active_window("{\"title\":\"term\"}"));
    assert_eq!(HyprlandError::NoActiveWindow.message(), "no active window");
}

// ---- niri ----------------------------------------------------------------------------------

fn sample_layout() -> WindowLayoutRaw {
    WindowLayoutRaw {
        tile_size: (800, 600),
        tile_pos_in_workspace_view: Some((10, 20)),
    }
}

fn sample_window() -> WindowRaw {
    WindowRaw {
        id: 7,
        title: Some("term".into()),
        app_id: Some("kitty".into()),
        workspace_id: Some(42),
        layout: sample_layout(),
    }
}

fn sample_workspaces() -> Vec<WorkspaceRaw> {
    vec![WorkspaceRaw { id: 42, output: Some("eDP-1".into()) }]
}

fn sample_outputs() -> Vec<(String, OutputRaw)> {
    vec![(
        "eDP-1".into(),
        OutputRaw { name: "eDP-1".into(), logical: Some(LogicalOutputRaw { x: 1920, y: 0 }) },
    )]
}

fn output_named(name: &str) -> OutputRaw {
    OutputRaw { name: name.into(), logical: Some(LogicalOutputRaw { x: 0, y: 0 }) }
}

#[test]
fn socket_path_requires_niri_socket() {
    let err = niri_socket_path(None).unwrap_err();
    assert!(!err.message().is_empty());
    assert!(matches!(err, NiriError::NotUnderNiri));
}

#[test]
fn resolve_rect_combines_view_position_and_output_offset() {
    let (at, size) = resolve_rect(&sample_layout(), Some("eDP-1"), &sample_outputs());
    assert_eq!(at, Some((1930, 20)));
    assert_eq!(size, Some((800, 600)));
}

#[test]
fn resolve_rect_position_is_none_when_tile_pos_is_unset() {
    let layout = WindowLayoutRaw { tile_size: (800, 600), tile_pos_in_workspace_view: None };
    let (at, size) = resolve_rect(&layout, Some("eDP-1"), &sample_outputs());
    assert_eq!(at, None);
    assert_eq!(size, Some((800, 600)));
}

#[test]
fn resolve_rect_position_is_none_when_output_is_unknown() {
    let (at, size) = resolve_rect(&sample_layout(), Some("eDP-1"), &[]);
    assert_eq!(at, None);
    assert_eq!(size, Some((800, 600)));
}

#[test]
fn workspace_outputs_skips_workspaces_without_an_output() {
    let workspaces = vec![
        WorkspaceRaw { id: 1, output: Some("eDP-1".into()) },
        WorkspaceRaw { id: 2, output: None },
    ];
    let map = workspace_outputs(&workspaces);
    assert_eq!(map.get(&1).map(String::as_str), Some("eDP-1"));
    assert_eq!(map.get(&2), None);
}

#[test]
fn focused_output_parses_focused_output_reply() {
    let response = response_of(Ok(Response::FocusedOutput(Some(output_named("DP-2"))))).unwrap();
    let name = niri_focused_output(expect_focused_output(response, String::new()).unwrap()).unwrap();
    assert_eq!(name, "DP-2");
}

#[test]
fn focused_output_errors_when_nothing_is_focused() {
    let output = expect_focused_output(Response::FocusedOutput(None), String::new()).unwrap();
    let err = niri_focused_output(output).unwrap_err();
    assert!(!err.message().is_empty());
    assert!(matches!(err, NiriError::NoFocusedMonitor));
}

#[test]
fn active_window_resolves_absolute_position_from_workspace_and_output() {
    let unused = String::new;
    let response = Response::FocusedWindow(Some(sample_window()));
    let window = expect_focused_window(response, unused()).unwrap();
    let response = Response::Workspaces(sample_workspaces());
    let workspaces = expect_workspaces(response, unused()).unwrap();
    let outputs = expect_outputs(Response::Outputs(sample_outputs()), unused()).unwrap();
    let win = niri_active_window(window, &workspaces, &outputs).unwrap();
    assert_eq!(win.title, "term");
    assert_eq!(win.class, "kitty");
    assert_eq!(win.monitor, "eDP-1");
    assert_eq!(win.at, Some((1930, 20)));
    assert_eq!(win.size, Some((800, 600)));
}

#[test]
fn clients_lists_windows_with_resolved_geometry_and_marks_unresolved_ones_hidden() {
    let unresolvable = WindowRaw {
        id: 9,
        title: Some("orphan".into()),
        app_id: Some("orphan".into()),
        workspace_id: None,
        layout: WindowLayoutRaw { tile_size: (100, 100), tile_pos_in_workspace_view: None },
    };
    let response = Response::Windows(vec![sample_window(), unresolvable]);
    let windows = expect_windows(response, String::new()).unwrap();
    let list = niri_clients(&windows, &sample_workspaces(), &sample_outputs());
    assert_eq!(list.len(), 2);
    assert_eq!(list[0].id, "7");
    assert_eq!(list[0].at, Some((1930, 20)));
    assert_eq!(list[0].size, Some((800, 600)));
    assert!(!list[0].hidden);
    assert_eq!(list[1].id, "9");
    assert_eq!(list[1].at, None);
    assert_eq!(list[1].size, Some((100, 100)));
    assert!(list[1].hidden);
    assert!(list.iter().all(|w| w.mapped));
}

#[test]
fn niri_backend_name_and_socket_path_delegate() {
    assert_eq!(Niri.name(), "Niri");
    assert_eq!(niri_socket_path(Some("/tmp/niri.sock")).unwrap(), "/tmp/niri.sock");
}

#[test]
fn niri_backend_active_window_delegates_to_the_free_function() {
    let win = niri_active_window(Some(sample_window()), &sample_workspaces(), &sample_outputs());
    assert_eq!(win.unwrap().title, "term");
    let none = niri_active_window(None, &sample_workspaces(), &sample_outputs());
    assert!(matches!(none.unwrap_err(), NiriError::NoActiveWindow));
}

#[test]
fn niri_backend_clients_delegates_to_the_free_function() {
    let list = niri_clients(&[sample_window()], &sample_workspaces(), &sample_outputs());
    assert_eq!(list.len(), 1);
}

#[test]
fn niri_backend_focused_output_delegates_to_the_free_function() {
    assert_eq!(niri_focused_output(Some(output_named("eDP-1"))).unwrap(), "eDP-1");
}

#[test]
fn a_request_is_one_quoted_line() {
    assert_eq!(Request::EventStream.line().trim_end(), "\"EventStream\"");
    assert_eq!(Request::FocusedWindow.line(), "\"FocusedWindow\"\n");
}

#[test]
fn a_far_output_does_not_matter_to_a_window_elsewhere() {
    let mut outputs = sample_outputs();
    outputs.push((
        "DP-9".into(),
        OutputRaw {
            name: "DP-9".into(),
            logical: Some(LogicalOutputRaw { x: i32::MAX, y: i32::MAX }),
        },
    ));
    let (at, _) = resolve_rect(&sample_layout(), Some("eDP-1"), &outputs);
    assert_eq!(at, Some((1930, 20)));
    let list = niri_clients(&[sample_window()], &sample_workspaces(), &outputs);
    assert_eq!(list[0].at, Some((1930, 20)));
}

#[test]
fn an_answer_to_another_request_is_an_error() {
    let printed = |r: &Response| format!("{r:?}");
    let err = expect_focused_output(Response::Handled, printed(&Response::Handled)).unwrap_err();
    assert_eq!(err.message(), "unexpected Niri IPC response to FocusedOutput: Handled");
    match err {
        NiriError::UnexpectedResponse(Request::FocusedOutput, text) => assert_eq!(text, "Handled"),
        other => panic!("{other:?}"),
    }
    let empty = Response::Workspaces(vec![]);
    let text = printed(&empty);
    let err = expect_windows(empty, text).unwrap_err();
    assert_eq!(err.message(), "unexpected Niri IPC response to Windows: Workspaces([])");
    assert!(expect_workspaces(Response::Windows(vec![]), String::new()).is_err());
    assert!(expect_outputs(Response::Handled, String::new()).is_err());
    assert!(expect_focused_window(Response::Handled, String::new()).is_err());
    match response_of(Err("no such request".into())) {
        Err(NiriError::RequestFailed(text)) => assert_eq!(text, "no such request"),
        other => panic!("{other:?}"),
    }
}

// ---- Sway ----------------------------------------------------------------------------------

const SAMPLE_TREE: &str = r#"{
    "type": "root",
    "nodes": [{
        "type": "output",
        "name": "eDP-1",
        "nodes": [{
            "type": "workspace",
            "id": 42,
            "name": "1",
            "nodes": [{
                "type": "con",
                "id": 1,
                "pid": 1234,
                "app_id": "kitty",
                "name": "term",
                "focused": true,
                "visible": true,
                "rect": {"x": 0, "y": 0, "width": 800, "height": 600}
            }],
            "floating_nodes": [{
                "type": "floating_con",
                "id": 2,
                "pid": 5678,
                "app_id": "firefox",
                "name": "Mozilla Firefox",
                "focused": false,
                "visible": true,
                "rect": {"x": 100, "y": 100, "width": 400, "height": 300}
            }]
        }]
    }]
}"#;

fn parsed(text: &str) -> Json {
    parse_json(text.as_bytes()).expect("well-formed JSON")
}

#[test]
fn socket_path_requires_swaysock() {
    let err = sway_socket_path(None).unwrap_err();
    assert!(err.message().contains("SWAYSOCK") || !err.message().is_empty());
    assert_eq!(err, SwayError::NotUnderSway);
    assert_eq!(sway_socket_path(Some("/tmp/sway.sock")).unwrap(), "/tmp/sway.sock");
    assert_eq!(Sway.name(), "Sway");
}

#[test]
fn find_focused_returns_the_focused_leaf_with_output_and_workspace() {
    let tree = parsed(SAMPLE_TREE);
    let found = find_focused(&tree, "", 0).expect("a focused window");
    assert_eq!(found.output, "eDP-1");
    assert_eq!(found.workspace_id, 42);
    let (title, class, at, size) = window_fields(found.node);
    assert_eq!(title, "term");
    assert_eq!(class, "kitty");
    assert_eq!(at, (0, 0));
    assert_eq!(size, (800, 600));
}

#[test]
fn collect_windows_lists_floating_before_tiled() {
    let tree = parsed(SAMPLE_TREE);
    let mut found = Vec::new();
    collect_windows(&tree, "", 0, &mut found);
    assert_eq!(found.len(), 2);
    let (title0, ..) = window_fields(found[0].node);
    let (title1, ..) = window_fields(found[1].node);
    assert_eq!(title0, "Mozilla Firefox");
    assert_eq!(title1, "term");
    assert_eq!(found[0].output, "eDP-1");
    assert_eq!(found[1].workspace_id, 42);
}

#[test]
fn floating_windows_of_any_workspace_come_before_tiled_ones() {
    let tree = parsed(
        r#"{
            "type": "root",
            "nodes": [{
                "type": "output",
                "name": "eDP-1",
                "nodes": [{
                    "type": "workspace",
                    "id": 1,
                    "nodes": [{"type": "con", "id": 10, "pid": 1, "name": "tiled"}]
                }, {
                    "type": "workspace",
                    "id": 2,
                    "floating_nodes": [{
                        "type": "floating_con", "id": 20, "pid": 2, "name": "floating"
                    }]
                }]
            }]
        }"#,
    );
    let mut found = Vec::new();
    collect_windows(&tree, "", 0, &mut found);
    assert_eq!(found.len(), 2);
    assert_eq!(window_fields(found[0].node).0, "floating");
    assert_eq!(found[0].workspace_id, 2);
    assert_eq!(window_fields(found[1].node).0, "tiled");
    assert_eq!(found[1].workspace_id, 1);
    let list = clients_in(&tree);
    assert_eq!((list[0].id.as_str(), list[1].id.as_str()), ("20", "10"));
}

#[test]
fn window_fields_falls_back_to_xwayland_class() {
    let node = parsed(
        r#"{
            "type": "con",
            "pid": 1,
            "name": "xterm",
            "window_properties": {"class": "XTerm"},
            "rect": {"x": 10, "y": -5, "width": 640, "height": 480}
        }"#,
    );
    let (title, class, at, size) = window_fields(&node);
    assert_eq!(title, "xterm");
    assert_eq!(class, "XTerm");
    assert_eq!(at, (10, -5));
    assert_eq!(size, (640, 480));
}

#[test]
fn is_window_node_requires_a_pid() {
    let split = parsed(r#"{"type": "con"}"#);
    let window = parsed(r#"{"type": "con", "pid": 99}"#);
    assert!(!is_window_node(&split));
    assert!(is_window_node(&window));
}

#[test]
fn focused_output_parses_get_outputs_reply() {
    let reply = br#"[
        {"name": "eDP-1", "focused": false},
        {"name": "DP-2", "focused": true}
    ]"#;
    assert_eq!(sway_focused_output(reply).unwrap(), "DP-2");
    assert_eq!(sway_focused_output(b"{").unwrap_err(), SwayError::NotJson);
    assert_eq!(sway_focused_output(b"{}").unwrap_err(), SwayError::NotAnArray);
    assert_eq!(sway_focused_output(b"[]").unwrap_err(), SwayError::NoFocusedMonitor);
}

#[test]
fn active_window_parses_get_tree_reply() {
    let win = sway_active_window(SAMPLE_TREE.as_bytes()).unwrap();
    assert_eq!(win.title, "term");
    assert_eq!(win.class, "kitty");
    assert_eq!(win.monitor, "eDP-1");
    assert_eq!(win.rect(), Some(Rect { x: 0, y: 0, w: 800, h: 600 }));
    assert_eq!(
        active_window_in(&parsed("{}")).unwrap_err(),
        SwayError::NoActiveWindow
    );
    assert_eq!(sway_active_window(b"?").unwrap_err(), SwayError::NotJson);
}

#[test]
fn the_sway_window_list_has_every_window() {
    let list = sway_clients(SAMPLE_TREE.as_bytes()).unwrap();
    assert_eq!(list.len(), 2);
    assert_eq!(list[0].title, "Mozilla Firefox");
    assert_eq!(list[1].id, "1");
    assert_eq!(window_at(&list, 150, 150).map(|w| w.class.as_str()), Some("firefox"));
    assert_eq!(window_at(&list, 50, 50).map(|w| w.class.as_str()), Some("kitty"));
    assert!(clients_in(&parsed("null")).is_empty());
    assert_eq!(sway_clients(b"").unwrap_err(), SwayError::NotJson);
}

#[test]
fn a_message_reads_back() {
    let payload = subscribe_payload();
    assert_eq!(payload, b"[\"workspace\"]");
    let message = encode_message(SUBSCRIBE, &payload);
    assert_eq!(&message[..6], b"i3-ipc");
    let header = decode_header(&message[..HEADER_LEN]).unwrap();
    assert_eq!((header.len, header.msg_type), (payload.len() as u32, SUBSCRIBE));
    assert_eq!(&message[HEADER_LEN..], &payload[..]);
    let head = encode_message(GET_TREE, b"");
    assert_eq!(head, b"i3-ipc\x00\x00\x00\x00\x04\x00\x00\x00");
    assert_eq!((GET_OUTPUTS, GET_TREE), (3, 4));
    let mut bad = head.clone();
    bad[0] = b'j';
    assert_eq!(decode_header(&bad).unwrap_err(), SwayError::BadMagic);
}

#[test]
fn numbers_and_members_are_read_from_json() {
    let doc = parsed(r#"{"a": 1, "b": 1.5, "c": "x", "d": [true, null], "a": 2}"#);
    assert_eq!(doc.get_int("a"), Some(2));
    assert_eq!(doc.get_int("b"), None);
    assert_eq!(doc.get_text("c"), Some("x"));
    assert_eq!(doc.get_list("d").len(), 2);
    assert_eq!(doc.get_bool("c"), None);
    assert!(doc.get("e").is_none());
    assert!(parse_json(b"[1,").is_none());
}

#[test]
fn detect_focused_output_is_none_without_a_detected_backend() {
    assert_eq!(detected(false, false, false), None);
}

#[test]
fn detect_focused_output_returns_the_backends_focused_output() {
    assert_eq!(detected(false, true, false), Some(BackendKind::Sway));
    let reply = br#"[{"name": "DP-1", "focused": true}]"#;
    assert_eq!(sway_focused_output(reply).ok(), Some("DP-1".to_owned()));
}

// ---- subscriptions -------------------------------------------------------------------------

/// The actions of a subscription that meets some events.
fn run(backend: SocketBackend, events: Vec<SocketEvent>) -> SocketAction {
    let mut action = SocketAction::Locate;
    for event in events {
        action = next_socket_action(backend, &action, event);
    }
    action
}

#[test]
fn hyprland_backend_subscribe_focus_publishes_events_from_the_event_socket() {
    let action = run(
        SocketBackend::Hyprland,
        vec![
            SocketEvent::Done,
            SocketEvent::Done,
            SocketEvent::Event("focusedmon>>DP-1,1\n".into()),
        ],
    );
    match action {
        SocketAction::Publish(name) => assert_eq!(name, "DP-1"),
        other => panic!("{other:?}"),
    }
}

#[test]
fn subscribe_focus_publishes_the_focused_output_after_an_event() {
    let mut events = vec![
        SocketEvent::Done,
        SocketEvent::Done,
        SocketEvent::Done,
        SocketEvent::Done,
        SocketEvent::Event("{\"WindowFocusChanged\":{\"id\":1}}\n".into()),
    ];
    assert!(matches!(run(SocketBackend::Niri, vec![]), SocketAction::Locate));
    events.push(SocketEvent::Focused(Some("DP-3".into())));
    match run(SocketBackend::Niri, events) {
        SocketAction::Publish(name) => assert_eq!(name, "DP-3"),
        other => panic!("{other:?}"),
    }
}

#[test]
fn a_closed_socket_ends_the_subscription() {
    let closed = vec![SocketEvent::Done, SocketEvent::Done, SocketEvent::Closed];
    assert!(matches!(run(SocketBackend::Hyprland, closed), SocketAction::Stop));
    let refused = vec![SocketEvent::Done, SocketEvent::Failed, SocketEvent::Done];
    assert!(matches!(run(SocketBackend::Sway, refused), SocketAction::Stop));
    let unheard = next_socket_action(
        SocketBackend::Sway,
        &SocketAction::Publish("DP-1".into()),
        SocketEvent::Failed,
    );
    assert!(matches!(unheard, SocketAction::Stop));
}

#[test]
fn a_failed_query_is_tried_again_at_the_next_event() {
    for event in [SocketEvent::Focused(None), SocketEvent::Failed] {
        let next = next_socket_action(SocketBackend::Sway, &SocketAction::Query, event);
        assert!(matches!(next, SocketAction::ReadEvent));
    }
}

#[test]
fn foreign_toplevel_subscribe_focus_publishes_and_stops_on_shutdown() {
    let mut pump = ToplevelPump::new();
    for outcome in [ToplevelOutcome::Done, ToplevelOutcome::Done, ToplevelOutcome::Done] {
        pump.advance(outcome);
    }
    assert_eq!(pump.action, ToplevelAction::Watch);
    pump.advance(ToplevelOutcome::Dispatched(Some("DP-1".into())));
    assert_eq!(pump.action, ToplevelAction::Publish);
    assert_eq!(pump.last.as_deref(), Some("DP-1"));
    pump.advance(ToplevelOutcome::Done);
    pump.advance(ToplevelOutcome::Done);
    pump.advance(ToplevelOutcome::Pending);
    assert_eq!(pump.action, ToplevelAction::Dispatch);
    pump.advance(ToplevelOutcome::Dispatched(Some("DP-1".into())));
    assert_eq!(pump.action, ToplevelAction::Flush, "the same output is not told twice");
    pump.advance(ToplevelOutcome::Failed);
    pump.advance(ToplevelOutcome::Done);
    assert_eq!(pump.action, ToplevelAction::Stop);
}

#[test]
fn rectangles_overlap_in_a_rectangle() {
    let a = Rect { x: 0, y: 0, w: 10, h: 10 };
    let b = Rect { x: 5, y: -5, w: 10, h: 10 };
    assert_eq!(a.intersect(&b), Some(Rect { x: 5, y: 0, w: 5, h: 5 }));
    assert_eq!(a.intersect(&Rect { x: 10, y: 0, w: 1, h: 1 }), None);
    assert!(a.contains(9, 9) && !a.contains(10, 9));
}
