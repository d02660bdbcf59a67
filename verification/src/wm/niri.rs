//! Niri: its one-line requests and replies, and windows as it reports them.
//!
//! Niri reports no absolute window rectangle, only a tile size and a tile position relative to
//! the view of the window's workspace. The absolute position takes the workspace's output and
//! that output's logical position; where a piece is missing the position is unknown.
//!
//! Tile sizes and positions are whole pixels here: Niri's fractions are rounded before.

use std::collections::HashMap;

use vstd::prelude::*;
use vstd::string::StringExecFns;

use crate::strings::{digits, same_text};
use crate::wm::{ActiveWindow, WmWindow};

verus! {

use crate::strings::{digits_of, text_of};
use crate::wm::{ActiveWindowView, WmWindowView};

/// The Niri backend.
#[derive(Clone, Copy, Debug)]
pub struct Niri;

impl Niri {
    /// The backend's name.
    pub fn name(&self) -> (res: &'static str)
        ensures
            res@ == "Niri"@,
    {
        "Niri"
    }
}

// ---- requests and replies ------------------------------------------------------------------
/// A request to Niri.
#[derive(Clone, Copy, Debug, PartialEq, Eq, Structural)]
pub enum Request {
    FocusedWindow,
    FocusedOutput,
    Windows,
    Outputs,
    Workspaces,
    EventStream,
}

impl Request {
    /// The name under which the protocol knows the request.
    pub open spec fn wire_name(self) -> Seq<char> {
        match self {
            Request::FocusedWindow => "FocusedWindow"@,
            Request::FocusedOutput => "FocusedOutput"@,
            Request::Windows => "Windows"@,
            Request::Outputs => "Outputs"@,
            Request::Workspaces => "Workspaces"@,
            Request::EventStream => "EventStream"@,
        }
    }

    /// The name under which the protocol knows the request.
    pub fn name(&self) -> (res: &'static str)
        ensures
            res@ == self.wire_name(),
    {
        match self {
            Request::FocusedWindow => "FocusedWindow",
            Request::FocusedOutput => "FocusedOutput",
            Request::Windows => "Windows",
            Request::Outputs => "Outputs",
            Request::Workspaces => "Workspaces",
            Request::EventStream => "EventStream",
        }
    }

    /// The request on the wire: its name as a JSON string, on a line of its own.
    pub fn line(&self) -> (res: String)
        ensures
            res@ == "\""@ + self.wire_name() + "\"\n"@,
    {
        let mut res = "\"".to_owned();
        res.append(self.name());
        res.append("\"\n");
        res
    }
}

/// Why a question to Niri has no answer.
#[derive(Debug)]
pub enum NiriError {
    /// `$NIRI_SOCKET` is not set.
    NotUnderNiri,
    /// Niri refused the request, for the given reason.
    RequestFailed(String),
    /// The reply answers another request. The text is the printed reply.
    UnexpectedResponse(Request, String),
    NoActiveWindow,
    NoFocusedMonitor,
}

impl NiriError {
    pub open spec fn text(self) -> Seq<char> {
        match self {
            NiriError::NotUnderNiri => "NIRI_SOCKET is not set; not running under Niri"@,
            NiriError::RequestFailed(message) => "Niri IPC request failed: "@ + message@,
            NiriError::UnexpectedResponse(request, printed) => "unexpected Niri IPC response to "@
                + request.wire_name() + ": "@ + printed@,
            NiriError::NoActiveWindow => "no active window"@,
            NiriError::NoFocusedMonitor => "no focused monitor"@,
        }
    }

    /// The error in words.
    pub fn message(&self) -> (res: String)
        ensures
            res@ == self.text(),
    {
        match self {
            NiriError::NotUnderNiri => "NIRI_SOCKET is not set; not running under Niri".to_owned(),
            NiriError::RequestFailed(message) => {
                let mut res = "Niri IPC request failed: ".to_owned();
                res.append(message.as_str());
                res
            },
            NiriError::UnexpectedResponse(request, printed) => {
                let mut res = "unexpected Niri IPC response to ".to_owned();
                res.append(request.name());
                res.append(": ");
                res.append(printed.as_str());
                res
            },
            NiriError::NoActiveWindow => "no active window".to_owned(),
            NiriError::NoFocusedMonitor => "no focused monitor".to_owned(),
        }
    }
}

/// The path of the socket, from `$NIRI_SOCKET`.
pub fn socket_path(niri_socket: Option<&str>) -> (res: Result<String, NiriError>)
    ensures
        match niri_socket {
            Some(path) => res matches Ok(p) && p@ == path@,
            None => res == Err::<String, _>(NiriError::NotUnderNiri),
        },
{
    match niri_socket {
        Some(path) => Ok(path.to_owned()),
        None => Err(NiriError::NotUnderNiri),
    }
}

/// A window as Niri reports it.
#[derive(Debug)]
pub struct WindowRaw {
    pub id: u64,
    pub title: Option<String>,
    pub app_id: Option<String>,
    pub workspace_id: Option<u64>,
    pub layout: WindowLayoutRaw,
}

/// The place of a window in its workspace, in whole pixels.
#[derive(Clone, Copy, Debug)]
pub struct WindowLayoutRaw {
    pub tile_size: (u32, u32),
    pub tile_pos_in_workspace_view: Option<(i32, i32)>,
}

/// A workspace as Niri reports it.
#[derive(Debug)]
pub struct WorkspaceRaw {
    pub id: u64,
    pub output: Option<String>,
}

/// An output as Niri reports it.
#[derive(Debug)]
pub struct OutputRaw {
    pub name: String,
    pub logical: Option<LogicalOutputRaw>,
}

/// The place of an output in the layout.
#[derive(Clone, Copy, Debug, PartialEq, Eq, Structural)]
pub struct LogicalOutputRaw {
    pub x: i32,
    pub y: i32,
}

/// The answer to a request. Outputs come with the keys of the map they were in.
#[derive(Debug)]
pub enum Response {
    Handled,
    FocusedWindow(Option<WindowRaw>),
    FocusedOutput(Option<OutputRaw>),
    Windows(Vec<WindowRaw>),
    Outputs(Vec<(String, OutputRaw)>),
    Workspaces(Vec<WorkspaceRaw>),
}

/// The answer in a reply, which holds either an answer or the reason for a refusal.
pub fn response_of(reply: Result<Response, String>) -> (res: Result<Response, NiriError>)
    ensures
        match reply {
            Ok(response) => res == Ok::<_, NiriError>(response),
            Err(message) => res == Err::<Response, _>(NiriError::RequestFailed(message)),
        },
{
    match reply {
        Ok(response) => Ok(response),
        Err(message) => Err(NiriError::RequestFailed(message)),
    }
}

/// The focused window in an answer to [`Request::FocusedWindow`], which prints as `printed`.
pub fn expect_focused_window(response: Response, printed: String) -> (res: Result<
    Option<WindowRaw>,
    NiriError,
>)
    ensures
        match response {
            Response::FocusedWindow(answer) => res == Ok::<_, NiriError>(answer),
            _ => res == Err::<Option<WindowRaw>, _>(
                NiriError::UnexpectedResponse(Request::FocusedWindow, printed),
            ),
        },
{
    match response {
        Response::FocusedWindow(answer) => Ok(answer),
        _ => Err(NiriError::UnexpectedResponse(Request::FocusedWindow, printed)),
    }
}

/// The focused output in an answer to [`Request::FocusedOutput`], which prints as `printed`.
pub fn expect_focused_output(response: Response, printed: String) -> (res: Result<
    Option<OutputRaw>,
    NiriError,
>)
    ensures
        match response {
            Response::FocusedOutput(answer) => res == Ok::<_, NiriError>(answer),
            _ => res == Err::<Option<OutputRaw>, _>(
                NiriError::UnexpectedResponse(Request::FocusedOutput, printed),
            ),
        },
{
    match response {
        Response::FocusedOutput(answer) => Ok(answer),
        _ => Err(NiriError::UnexpectedResponse(Request::FocusedOutput, printed)),
    }
}

/// The windows in an answer to [`Request::Windows`], which prints as `printed`.
pub fn expect_windows(response: Response, printed: String) -> (res: Result<
    Vec<WindowRaw>,
    NiriError,
>)
    ensures
        match response {
            Response::Windows(answer) => res == Ok::<_, NiriError>(answer),
            _ => res == Err::<Vec<WindowRaw>, _>(
                NiriError::UnexpectedResponse(Request::Windows, printed),
            ),
        },
{
    match response {
        Response::Windows(answer) => Ok(answer),
        _ => Err(NiriError::UnexpectedResponse(Request::Windows, printed)),
    }
}

/// The workspaces in an answer to [`Request::Workspaces`], which prints as `printed`.
pub fn expect_workspaces(response: Response, printed: String) -> (res: Result<
    Vec<WorkspaceRaw>,
    NiriError,
>)
    ensures
        match response {
            Response::Workspaces(answer) => res == Ok::<_, NiriError>(answer),
            _ => res == Err::<Vec<WorkspaceRaw>, _>(
                NiriError::UnexpectedResponse(Request::Workspaces, printed),
            ),
        },
{
    match response {
        Response::Workspaces(answer) => Ok(answer),
        _ => Err(NiriError::UnexpectedResponse(Request::Workspaces, printed)),
    }
}

/// The outputs in an answer to [`Request::Outputs`], which prints as `printed`.
pub fn expect_outputs(response: Response, printed: String) -> (res: Result<
    Vec<(String, OutputRaw)>,
    NiriError,
>)
    ensures
        match response {
            Response::Outputs(answer) => res == Ok::<_, NiriError>(answer),
            _ => res == Err::<Vec<(String, OutputRaw)>, _>(
                NiriError::UnexpectedResponse(Request::Outputs, printed),
            ),
        },
{
    match response {
        Response::Outputs(answer) => Ok(answer),
        _ => Err(NiriError::UnexpectedResponse(Request::Outputs, printed)),
    }
}

// ---- geometry ------------------------------------------------------------------------------
/// The output of each workspace that has one. The last report of a workspace counts.
pub open spec fn outputs_of(workspaces: Seq<WorkspaceRaw>) -> Map<u64, Seq<char>>
    decreases workspaces.len(),
{
    if workspaces.len() == 0 {
        Map::empty()
    } else {
        let before = outputs_of(workspaces.drop_last());
        match workspaces.last().output {
            Some(output) => before.insert(workspaces.last().id, output@),
            None => before,
        }
    }
}

/// The values of a map as texts.
pub open spec fn map_texts(m: Map<u64, String>) -> Map<u64, Seq<char>> {
    m.map_values(|s: String| s@)
}

/// The output of each workspace that has one.
pub fn workspace_outputs(workspaces: &[WorkspaceRaw]) -> (res: HashMap<u64, String>)
    ensures
        map_texts(res@) == outputs_of(workspaces@),
{
    broadcast use vstd::std_specs::hash::group_hash_axioms;

    let mut res: HashMap<u64, String> = HashMap::new();
    let mut i: usize = 0;
    proof {
        assert(map_texts(res@) =~= outputs_of(workspaces@.take(0)));
    }
    while i < workspaces.len()
        invariant
            i <= workspaces@.len(),
            map_texts(res@) == outputs_of(workspaces@.take(i as int)),
        decreases workspaces@.len() - i,
    {
        proof {
            assert(workspaces@.take(i + 1).drop_last() =~= workspaces@.take(i as int));
        }
        let ghost before = map_texts(res@);
        match &workspaces[i].output {
            Some(output) => {
                res.insert(workspaces[i].id, output.clone());
                proof {
                    assert(map_texts(res@) =~= before.insert(workspaces@[i as int].id, output@));
                }
            },
            None => {},
        }
        i += 1;
    }
    proof {
        assert(workspaces@.take(i as int) =~= workspaces@);
    }
    res
}

/// The output of that name.
pub open spec fn output_named(outputs: Seq<(String, OutputRaw)>, name: Seq<char>) -> Option<
    OutputRaw,
>
    decreases outputs.len(),
{
    if outputs.len() == 0 {
        None
    } else if outputs[0].0@ == name {
        Some(outputs[0].1)
    } else {
        output_named(outputs.skip(1), name)
    }
}

fn find_output<'a>(outputs: &'a [(String, OutputRaw)], name: &str) -> (res: Option<&'a OutputRaw>)
    ensures
        match res {
            Some(o) => output_named(outputs@, name@) == Some(*o),
            None => output_named(outputs@, name@) is None,
        },
{
    let mut i: usize = 0;
    proof {
        assert(outputs@.skip(0) =~= outputs@);
    }
    while i < outputs.len()
        invariant
            i <= outputs@.len(),
            output_named(outputs@.skip(i as int), name@) == output_named(outputs@, name@),
        decreases outputs@.len() - i,
    {
        if same_text(outputs[i].0.as_str(), name) {
            return Some(&outputs[i].1);
        }
        proof {
            assert(outputs@.skip(i as int).skip(1) =~= outputs@.skip(i + 1));
        }
        i += 1;
    }
    None
}

/// A tile position in the view of an output can be written down as an absolute position.
pub open spec fn position_fits(pos: (i32, i32), logical: LogicalOutputRaw) -> bool {
    &&& i32::MIN <= pos.0 + logical.x <= i32::MAX
    &&& i32::MIN <= pos.1 + logical.y <= i32::MAX
}

/// On the output that the tile is on, its position can be written down.
pub open spec fn placeable(
    layout: WindowLayoutRaw,
    output_name: Option<Seq<char>>,
    outputs: Seq<(String, OutputRaw)>,
) -> bool {
    match (layout.tile_pos_in_workspace_view, output_name) {
        (Some(pos), Some(name)) => match output_named(outputs, name) {
            Some(output) => output.logical matches Some(logical) ==> position_fits(pos, logical),
            None => true,
        },
        _ => true,
    }
}

/// On the output of the window's workspace, its position can be written down.
pub open spec fn window_fits(
    window: WindowRaw,
    workspaces: Seq<WorkspaceRaw>,
    outputs: Seq<(String, OutputRaw)>,
) -> bool {
    placeable(window.layout, output_of(window.workspace_id, outputs_of(workspaces)), outputs)
}

/// The absolute position of a tile: its position in the view, on an output whose place is known.
pub open spec fn absolute_position(
    layout: WindowLayoutRaw,
    output_name: Option<Seq<char>>,
    outputs: Seq<(String, OutputRaw)>,
) -> Option<(i32, i32)> {
    match (layout.tile_pos_in_workspace_view, output_name) {
        (Some(pos), Some(name)) => match output_named(outputs, name) {
            Some(output) => match output.logical {
                Some(logical) => Some(
                    ((pos.0 + logical.x) as i32, (pos.1 + logical.y) as i32),
                ),
                None => None,
            },
            None => None,
        },
        _ => None,
    }
}

pub open spec fn name_view(name: Option<&str>) -> Option<Seq<char>> {
    match name {
        Some(s) => Some(s@),
        None => None,
    }
}

/// The position and size of a window. The size is always known.
pub fn resolve_rect(
    layout: &WindowLayoutRaw,
    output_name: Option<&str>,
    outputs: &[(String, OutputRaw)],
) -> (res: (Option<(i32, i32)>, Option<(u32, u32)>))
    requires
        placeable(*layout, name_view(output_name), outputs@),
    ensures
        res.0 == absolute_position(*layout, name_view(output_name), outputs@),
        res.1 == Some(layout.tile_size),
{
    let size = Some(layout.tile_size);
    match (layout.tile_pos_in_workspace_view, output_name) {
        (Some(pos), Some(name)) => match find_output(outputs, name) {
            Some(output) => match &output.logical {
                Some(logical) => (Some((pos.0 + logical.x, pos.1 + logical.y)), size),
                None => (None, size),
            },
            None => (None, size),
        },
        _ => (None, size),
    }
}

/// The output of a workspace.
pub open spec fn output_of(workspace_id: Option<u64>, outputs: Map<u64, Seq<char>>) -> Option<
    Seq<char>,
> {
    match workspace_id {
        Some(id) => if outputs.dom().contains(id) {
            Some(outputs[id])
        } else {
            None
        },
        None => None,
    }
}

fn find_workspace_output(workspace_id: Option<u64>, outputs: &HashMap<u64, String>) -> (res: Option<
    String,
>)
    ensures
        text_of(res) == output_of(workspace_id, map_texts(outputs@)),
{
    broadcast use vstd::std_specs::hash::group_hash_axioms;

    match workspace_id {
        Some(id) => match outputs.get(&id) {
            Some(name) => Some(name.clone()),
            None => None,
        },
        None => None,
    }
}

// ---- windows -------------------------------------------------------------------------------
pub open spec fn text_or_empty(text: Option<Seq<char>>) -> Seq<char> {
    match text {
        Some(s) => s,
        None => Seq::empty(),
    }
}

fn or_empty(text: Option<String>) -> (res: String)
    ensures
        res@ == text_or_empty(text_of(text)),
{
    match text {
        Some(s) => s,
        None => String::new(),
    }
}

/// The focused window as the active window.
pub open spec fn active_window_of(
    window: WindowRaw,
    workspaces: Seq<WorkspaceRaw>,
    outputs: Seq<(String, OutputRaw)>,
) -> ActiveWindowView {
    let output = output_of(window.workspace_id, outputs_of(workspaces));
    ActiveWindowView {
        title: text_or_empty(text_of(window.title)),
        class: text_or_empty(text_of(window.app_id)),
        at: absolute_position(window.layout, output, outputs),
        size: Some(window.layout.tile_size),
        monitor: text_or_empty(output),
    }
}

/// The active window, from the focused window, the workspaces and the outputs.
pub fn active_window(
    window: Option<WindowRaw>,
    workspaces: &[WorkspaceRaw],
    outputs: &[(String, OutputRaw)],
) -> (res: Result<ActiveWindow, NiriError>)
    requires
        window matches Some(w) ==> window_fits(w, workspaces@, outputs@),
    ensures
        match (window, res) {
            (Some(w), Ok(a)) => a@ == active_window_of(w, workspaces@, outputs@),
            (None, Err(e)) => e == NiriError::NoActiveWindow,
            _ => false,
        },
{
    match window {
        Some(w) => {
            let ws_outputs = workspace_outputs(workspaces);
            let output_name = find_workspace_output(w.workspace_id, &ws_outputs);
            let name = match &output_name {
                Some(n) => Some(n.as_str()),
                None => None,
            };
            let (at, size) = resolve_rect(&w.layout, name, outputs);
            Ok(
                ActiveWindow {
                    title: or_empty(w.title),
                    class: or_empty(w.app_id),
                    at,
                    size,
                    monitor: or_empty(output_name),
                },
            )
        },
        None => Err(NiriError::NoActiveWindow),
    }
}

/// A window as an entry of the window list. It is hidden where its position is unknown, so
/// that nothing picks it.
pub open spec fn window_of(
    window: WindowRaw,
    workspaces: Seq<WorkspaceRaw>,
    outputs: Seq<(String, OutputRaw)>,
) -> WmWindowView {
    let output = output_of(window.workspace_id, outputs_of(workspaces));
    let at = absolute_position(window.layout, output, outputs);
    WmWindowView {
        id: digits_of(window.id as nat),
        title: text_or_empty(text_of(window.title)),
        class: text_or_empty(text_of(window.app_id)),
        at,
        size: Some(window.layout.tile_size),
        monitor: text_or_empty(output),
        workspace_id: match window.workspace_id {
            Some(id) => id as i64,
            None => (-1int) as i64,
        },
        mapped: true,
        hidden: at is None,
    }
}

/// The window list, in the order of the report.
pub fn clients(
    windows: &[WindowRaw],
    workspaces: &[WorkspaceRaw],
    outputs: &[(String, OutputRaw)],
) -> (res: Vec<WmWindow>)
    requires
        forall|i: int|
            0 <= i < windows@.len() ==> window_fits(#[trigger] windows@[i], workspaces@, outputs@),
    ensures
        res@.len() == windows@.len(),
        forall|i: int|
            0 <= i < res@.len() ==> (#[trigger] res@[i])@ == window_of(
                windows@[i],
                workspaces@,
                outputs@,
            ),
{
    let ws_outputs = workspace_outputs(workspaces);
    let mut res: Vec<WmWindow> = Vec::new();
    let mut i: usize = 0;
    while i < windows.len()
        invariant
            i <= windows@.len(),
            forall|k: int|
                0 <= k < windows@.len() ==> window_fits(
                    #[trigger] windows@[k],
                    workspaces@,
                    outputs@,
                ),
            map_texts(ws_outputs@) == outputs_of(workspaces@),
            res@.len() == i,
            forall|j: int|
                0 <= j < i ==> (#[trigger] res@[j])@ == window_of(
                    windows@[j],
                    workspaces@,
                    outputs@,
                ),
        decreases windows@.len() - i,
    {
        let w = &windows[i];
        let output_name = find_workspace_output(w.workspace_id, &ws_outputs);
        let name = match &output_name {
            Some(n) => Some(n.as_str()),
            None => None,
        };
        let (at, size) = resolve_rect(&w.layout, name, outputs);
        let workspace_id: i64 = match w.workspace_id {
            Some(id) => #[verifier::truncate]
            (id as i64),
            None => -1,
        };
        res.push(
            WmWindow {
                id: digits(w.id),
                title: or_empty(w.title.clone()),
                class: or_empty(w.app_id.clone()),
                at,
                size,
                monitor: or_empty(output_name),
                workspace_id,
                mapped: true,
                hidden: at.is_none(),
            },
        );
        i += 1;
    }
    res
}

/// The name of the focused output.
pub fn focused_output(output: Option<OutputRaw>) -> (res: Result<String, NiriError>)
    ensures
        match output {
            Some(o) => res == Ok::<_, NiriError>(o.name),
            None => res == Err::<String, _>(NiriError::NoFocusedMonitor),
        },
{
    match output {
        Some(o) => Ok(o.name),
        None => Err(NiriError::NoFocusedMonitor),
    }
}

// ---- what is said of a window --------------------------------------------------------------
/// The output of a workspace is the one that the last entry with its id names, and a workspace
/// without such an entry has none.
pub proof fn a_workspace_is_on_its_output(workspaces: Seq<WorkspaceRaw>, id: u64)
    ensures
        match output_of(Some(id), outputs_of(workspaces)) {
            Some(name) => exists|i: int|
                #![trigger workspaces[i]]
                0 <= i < workspaces.len() && workspaces[i].id == id && workspaces[i].output is Some
                    && workspaces[i].output->0@ == name && forall|j: int|
                    i < j < workspaces.len() && (#[trigger] workspaces[j]).id == id
                        ==> workspaces[j].output is None,
            None => forall|j: int|
                0 <= j < workspaces.len() && (#[trigger] workspaces[j]).id == id
                    ==> workspaces[j].output is None,
        },
        output_of(None, outputs_of(workspaces)) is None,
    decreases workspaces.len(),
{
    if workspaces.len() > 0 {
        let before = workspaces.drop_last();
        a_workspace_is_on_its_output(before, id);
        assert forall|j: int| 0 <= j < before.len() implies #[trigger] workspaces[j]
            == before[j] by {}
        if workspaces.last().id == id && workspaces.last().output is Some {
            assert(workspaces[workspaces.len() - 1].id == id);
        } else if let Some(name) = output_of(Some(id), outputs_of(before)) {
            let i = choose|i: int|
                #![trigger before[i]]
                0 <= i < before.len() && before[i].id == id && before[i].output is Some
                    && before[i].output->0@ == name && forall|j: int|
                    i < j < before.len() && (#[trigger] before[j]).id == id ==> before[j].output
                        is None;
            assert(workspaces[i] == before[i]);
        }
    }
}

/// The output that is looked up is the first one under that name.
pub proof fn an_output_is_found_by_its_name(outputs: Seq<(String, OutputRaw)>, name: Seq<char>)
    ensures
        match output_named(outputs, name) {
            Some(o) => exists|i: int|
                #![trigger outputs[i]]
                0 <= i < outputs.len() && outputs[i].0@ == name && outputs[i].1 == o && forall|j: int|
                    0 <= j < i ==> (#[trigger] outputs[j]).0@ != name,
            None => forall|j: int| 0 <= j < outputs.len() ==> (#[trigger] outputs[j]).0@ != name,
        },
    decreases outputs.len(),
{
    if outputs.len() > 0 && outputs[0].0@ != name {
        let rest = outputs.skip(1);
        an_output_is_found_by_its_name(rest, name);
        assert forall|j: int| 0 < j < outputs.len() implies #[trigger] outputs[j] == rest[j - 1] by {}
        if let Some(o) = output_named(rest, name) {
            let i = choose|i: int|
                #![trigger rest[i]]
                0 <= i < rest.len() && rest[i].0@ == name && rest[i].1 == o && forall|j: int|
                    0 <= j < i ==> (#[trigger] rest[j]).0@ != name;
            assert(outputs[i + 1] == rest[i]);
            assert forall|j: int| 0 <= j < i + 1 implies (#[trigger] outputs[j]).0@ != name by {
                if j > 0 {
                    assert(rest[j - 1].0@ != name);
                }
            }
        } else {
            assert forall|j: int| 0 <= j < outputs.len() implies (#[trigger] outputs[j]).0@
                != name by {
                if j > 0 {
                    assert(rest[j - 1].0@ != name);
                }
            }
        }
    }
}

/// A window lies as far from its output's corner as its tile lies in the view of the workspace.
/// Its place is known exactly where the tile's place, the output and the output's place are.
pub proof fn a_window_lies_on_its_output(
    layout: WindowLayoutRaw,
    output_name: Option<Seq<char>>,
    outputs: Seq<(String, OutputRaw)>,
)
    requires
        placeable(layout, output_name, outputs),
    ensures
        ({
            let output = match output_name {
                Some(name) => output_named(outputs, name),
                None => None,
            };
            let known = layout.tile_pos_in_workspace_view is Some && output is Some
                && output->0.logical is Some;
            let at = absolute_position(layout, output_name, outputs);
            &&& at is Some <==> known
            &&& known ==> (at->0).0 - output->0.logical->0.x == (
            layout.tile_pos_in_workspace_view->0).0 && (at->0).1 - output->0.logical->0.y == (
            layout.tile_pos_in_workspace_view->0).1
        }),
{
}

/// A window of the list and the active window are described alike, from the same reply: title,
/// application id as class, place, size and output. A window whose place is not known is hidden.
pub proof fn the_active_window_is_described_as_in_the_list(
    window: WindowRaw,
    workspaces: Seq<WorkspaceRaw>,
    outputs: Seq<(String, OutputRaw)>,
)
    ensures
        ({
            let listed = window_of(window, workspaces, outputs);
            let active = active_window_of(window, workspaces, outputs);
            let output = output_of(window.workspace_id, outputs_of(workspaces));
            &&& active.title == listed.title && active.class == listed.class && active.at
                == listed.at && active.size == listed.size && active.monitor == listed.monitor
            &&& window.title matches Some(t) ==> listed.title == t@
            &&& window.title is None ==> listed.title.len() == 0
            &&& window.app_id matches Some(t) ==> listed.class == t@
            &&& window.app_id is None ==> listed.class.len() == 0
            &&& output matches Some(name) ==> listed.monitor == name
            &&& output is None ==> listed.monitor.len() == 0
            &&& listed.size == Some(window.layout.tile_size)
            &&& listed.at == absolute_position(window.layout, output, outputs)
            &&& listed.mapped && (listed.hidden <==> listed.at is None)
            &&& listed.id == digits_of(window.id as nat)
            &&& window.workspace_id matches Some(id) ==> (id <= i64::MAX ==> listed.workspace_id
                == id)
            &&& window.workspace_id is None ==> listed.workspace_id == -1
        }),
{
}

} // verus!
