//! Hyprland: its sockets, its focus events, and windows as it reports them.

use vstd::prelude::*;
use vstd::string::{StrSliceExecFns, StringExecFns};

use crate::strings::{
    decimal, eq_ignoring_case, first_field, join_path, same_text, strip_prefix, trim,
};
use crate::wm::{ActiveWindow, WmWindow};

verus! {

use crate::strings::{decimal_of, first_field_of, joined, same_ignoring_case, trimmed};
use crate::wm::{ActiveWindowView, WmWindowView};

/// The Hyprland backend.
#[derive(Clone, Copy, Debug)]
pub struct Hyprland;

impl Hyprland {
    /// The backend's name.
    pub fn name(&self) -> (res: &'static str)
        ensures
            res@ == "Hyprland"@,
    {
        "Hyprland"
    }
}

/// Why a question to Hyprland has no answer.
#[derive(Debug)]
pub enum HyprlandError {
    /// `$HYPRLAND_INSTANCE_SIGNATURE` is not set.
    NotUnderHyprland,
    SocketNotFound { signature: String, file: String },
    NoActiveWindow,
    NoFocusedMonitor,
}

impl HyprlandError {
    pub open spec fn text(self) -> Seq<char> {
        match self {
            HyprlandError::NotUnderHyprland =>
                "HYPRLAND_INSTANCE_SIGNATURE is not set; not running under Hyprland"@,
            HyprlandError::SocketNotFound { signature, file } =>
                "Hyprland IPC socket not found under $XDG_RUNTIME_DIR/hypr/"@ + signature@
                    + "/"@ + file@ + " or "@ + legacy_path(signature@, file@),
            HyprlandError::NoActiveWindow => "no active window"@,
            HyprlandError::NoFocusedMonitor => "no focused monitor"@,
        }
    }

    /// The error in words.
    pub fn message(&self) -> (res: String)
        ensures
            res@ == self.text(),
    {
        match self {
            HyprlandError::NotUnderHyprland =>
                "HYPRLAND_INSTANCE_SIGNATURE is not set; not running under Hyprland".to_owned(),
            HyprlandError::SocketNotFound { signature, file } => {
                let mut res = "Hyprland IPC socket not found under $XDG_RUNTIME_DIR/hypr/".to_owned();
                res.append(signature.as_str());
                res.append("/");
                res.append(file.as_str());
                res.append(" or ");
                res.append(legacy_socket(signature.as_str(), file.as_str()).as_str());
                res
            },
            HyprlandError::NoActiveWindow => "no active window".to_owned(),
            HyprlandError::NoFocusedMonitor => "no focused monitor".to_owned(),
        }
    }
}

// ---- sockets -------------------------------------------------------------------------------
/// The place of a socket below the runtime directory.
pub open spec fn modern_path(runtime_dir: Seq<char>, signature: Seq<char>, file: Seq<char>) -> Seq<
    char,
> {
    joined(joined(joined(runtime_dir, "hypr"@), signature), file)
}

/// The place where older versions put a socket.
pub open spec fn legacy_path(signature: Seq<char>, file: Seq<char>) -> Seq<char> {
    "/tmp/hypr/"@ + signature + "/"@ + file
}

fn legacy_socket(signature: &str, file: &str) -> (res: String)
    ensures
        res@ == legacy_path(signature@, file@),
{
    let mut res = "/tmp/hypr/".to_owned();
    res.append(signature);
    res.append("/");
    res.append(file);
    res
}

/// The test `found` answered `answer` for the path.
pub open spec fn tested<E: Fn(&str) -> bool>(found: E, path: Seq<char>, answer: bool) -> bool {
    exists|p: &str| #![trigger p@] p@ == path && call_ensures(found, (p,), answer)
}

/// What looking for the socket `file` comes to: the first place where `found` says there is one.
pub open spec fn resolves<E: Fn(&str) -> bool>(
    signature: Option<&str>,
    runtime_dir: Option<&str>,
    file: Seq<char>,
    found: E,
    res: Result<String, HyprlandError>,
) -> bool {
    match (signature, res) {
        (None, _) => res == Err::<String, _>(HyprlandError::NotUnderHyprland),
        (Some(sig), Ok(path)) => {
            &&& tested(found, path@, true)
            &&& match runtime_dir {
                Some(dir) => path@ == modern_path(dir@, sig@, file) || path@ == legacy_path(
                    sig@,
                    file,
                ) && tested(found, modern_path(dir@, sig@, file), false),
                None => path@ == legacy_path(sig@, file),
            }
        },
        (Some(sig), Err(e)) => {
            &&& e matches HyprlandError::SocketNotFound { signature: s, file: f } && s@ == sig@
                && f@ == file
            &&& runtime_dir matches Some(dir) ==> tested(
                found,
                modern_path(dir@, sig@, file),
                false,
            )
            &&& tested(found, legacy_path(sig@, file), false)
        },
    }
}

/// The socket `file` of the running instance: the first place where `found` says there is one.
///
/// `signature` and `runtime_dir` are `$HYPRLAND_INSTANCE_SIGNATURE` and `$XDG_RUNTIME_DIR`.
/// The socket is looked for in `$XDG_RUNTIME_DIR/hypr/<signature>/`, where that variable is set,
/// and then in `/tmp/hypr/<signature>/`.
pub fn socket_path_named<E: Fn(&str) -> bool>(
    signature: Option<&str>,
    runtime_dir: Option<&str>,
    file: &str,
    found: E,
) -> (res: Result<String, HyprlandError>)
    requires
        forall|path: &str| call_requires(found, (path,)),
    ensures
        resolves(signature, runtime_dir, file@, found, res),
{
    let sig = match signature {
        Some(sig) => sig,
        None => {
            return Err(HyprlandError::NotUnderHyprland);
        },
    };
    match runtime_dir {
        Some(dir) => {
            let base = join_path(dir, "hypr");
            let instance = join_path(base.as_str(), sig);
            let modern = join_path(instance.as_str(), file);
            let path = modern.as_str();
            if found(path) {
                assert(tested(found, path@, true));
                return Ok(modern);
            }
            assert(tested(found, path@, false));
        },
        None => {},
    }
    let legacy = legacy_socket(sig, file);
    let path = legacy.as_str();
    if found(path) {
        assert(tested(found, path@, true));
        return Ok(legacy);
    }
    assert(tested(found, path@, false));
    Err(HyprlandError::SocketNotFound { signature: sig.to_owned(), file: file.to_owned() })
}

/// The command socket of the running instance.
pub fn socket_path<E: Fn(&str) -> bool>(
    signature: Option<&str>,
    runtime_dir: Option<&str>,
    found: E,
) -> (res: Result<String, HyprlandError>)
    requires
        forall|path: &str| call_requires(found, (path,)),
    ensures
        resolves(signature, runtime_dir, ".socket.sock"@, found, res),
{
    socket_path_named(signature, runtime_dir, ".socket.sock", found)
}

// ---- focus events --------------------------------------------------------------------------
/// The monitor that an event line says is focused now.
pub open spec fn focused_monitor_in(line: Seq<char>) -> Option<Seq<char>> {
    let data = if "focusedmonv2>>"@.is_prefix_of(line) {
        Some(line.skip("focusedmonv2>>"@.len() as int))
    } else if "focusedmon>>"@.is_prefix_of(line) {
        Some(line.skip("focusedmon>>"@.len() as int))
    } else {
        None
    };
    match data {
        Some(d) => {
            let name = trimmed(first_field_of(d, ','));
            if name.len() > 0 {
                Some(name)
            } else {
                None
            }
        },
        None => None,
    }
}

/// Extracts the name of the focused monitor from an event line.
///
/// The events `focusedmon>>MONITOR,WORKSPACE` and `focusedmonv2>>MONITOR,WORKSPACE` name it in
/// their first field. Other events, and lines without a name, give `None`.
pub fn parse_focused_monitor_event(line: &str) -> (res: Option<&str>)
    ensures
        match res {
            Some(name) => focused_monitor_in(line@) == Some(name@),
            None => focused_monitor_in(line@) is None,
        },
{
    let data = match strip_prefix(line, "focusedmonv2>>") {
        Some(rest) => {
            proof {
                lemma_stripped(line@, "focusedmonv2>>"@, rest@);
            }
            rest
        },
        None => match strip_prefix(line, "focusedmon>>") {
            Some(rest) => {
                proof {
                    lemma_stripped(line@, "focusedmon>>"@, rest@);
                }
                rest
            },
            None => {
                return None;
            },
        },
    };
    let name = trim(first_field(data, ','));
    if name.unicode_len() == 0 {
        None
    } else {
        Some(name)
    }
}

proof fn lemma_stripped(line: Seq<char>, prefix: Seq<char>, rest: Seq<char>)
    requires
        line == prefix + rest,
    ensures
        prefix.is_prefix_of(line),
        rest == line.skip(prefix.len() as int),
{
    assert(line.subrange(0, prefix.len() as int) =~= prefix);
    assert(rest =~= line.skip(prefix.len() as int));
}

// ---- replies -------------------------------------------------------------------------------
/// The reply to a request for the active window says that there is none.
pub open spec fn says_no_window(body: Seq<char>) -> bool {
    let t = trimmed(body);
    t.len() == 0 || t == "{}"@ || same_ignoring_case(t, "none"@)
}

/// Tells whether the reply to a request for the active window says that there is none: it is
/// empty, an empty object, or the word `none`.
pub fn no_active_window(body: &str) -> (res: bool)
    ensures
        res == says_no_window(body@),
{
    let t = trim(body);
    t.unicode_len() == 0 || same_text(t, "{}") || eq_ignoring_case(t, "none")
}

/// The active window as Hyprland reports it.
#[derive(Debug)]
pub struct RawActiveWindow {
    pub title: String,
    pub class: String,
    pub at: (i32, i32),
    pub size: (i32, i32),
    pub monitor: i64,
}

/// A size that is not negative.
pub open spec fn extent_of(v: i32) -> u32 {
    if v < 0 {
        0
    } else {
        v as u32
    }
}

fn extent(v: i32) -> (res: u32)
    ensures
        res == extent_of(v),
{
    if v < 0 {
        0
    } else {
        v as u32
    }
}

/// The active window of a reply.
pub open spec fn active_of(raw: RawActiveWindow) -> ActiveWindowView {
    ActiveWindowView {
        title: raw.title@,
        class: raw.class@,
        at: Some(raw.at),
        size: Some((extent_of(raw.size.0), extent_of(raw.size.1))),
        monitor: decimal_of(raw.monitor as int),
    }
}

/// The active window, from Hyprland's report. Negative sizes count as 0.
pub fn active_window(raw: RawActiveWindow) -> (res: ActiveWindow)
    ensures
        res@ == active_of(raw),
{
    ActiveWindow {
        title: raw.title,
        class: raw.class,
        at: Some(raw.at),
        size: Some((extent(raw.size.0), extent(raw.size.1))),
        monitor: decimal(raw.monitor),
    }
}

/// A window of the list as Hyprland reports it.
#[derive(Debug)]
pub struct RawClient {
    pub address: String,
    pub title: String,
    pub class: String,
    pub at: (i32, i32),
    pub size: (i32, i32),
    pub monitor: i64,
    pub workspace_id: i64,
    pub mapped: bool,
    pub hidden: bool,
}

/// A reported window as an entry of the window list.
pub open spec fn window_of(raw: RawClient) -> WmWindowView {
    WmWindowView {
        id: raw.address@,
        title: raw.title@,
        class: raw.class@,
        at: Some(raw.at),
        size: Some((extent_of(raw.size.0), extent_of(raw.size.1))),
        monitor: decimal_of(raw.monitor as int),
        workspace_id: raw.workspace_id,
        mapped: raw.mapped,
        hidden: raw.hidden,
    }
}

/// The window list, in the order of the report, which is front to back.
pub fn clients(raw: &[RawClient]) -> (res: Vec<WmWindow>)
    ensures
        res@.len() == raw@.len(),
        forall|i: int| 0 <= i < res@.len() ==> (#[trigger] res@[i])@ == window_of(raw@[i]),
{
    let mut res: Vec<WmWindow> = Vec::new();
    let mut i: usize = 0;
    while i < raw.len()
        invariant
            i <= raw@.len(),
            res@.len() == i,
            forall|j: int| 0 <= j < i ==> (#[trigger] res@[j])@ == window_of(raw@[j]),
        decreases raw@.len() - i,
    {
        let r = &raw[i];
        res.push(
            WmWindow {
                id: r.address.clone(),
                title: r.title.clone(),
                class: r.class.clone(),
                at: Some(r.at),
                size: Some((extent(r.size.0), extent(r.size.1))),
                monitor: decimal(r.monitor),
                workspace_id: r.workspace_id,
                mapped: r.mapped,
                hidden: r.hidden,
            },
        );
        i += 1;
    }
    res
}

/// A monitor as Hyprland reports it.
#[derive(Debug)]
pub struct RawMonitor {
    pub name: String,
    pub focused: bool,
}

/// The name of the first focused monitor.
pub open spec fn first_focused(monitors: Seq<RawMonitor>) -> Option<Seq<char>>
    decreases monitors.len(),
{
    if monitors.len() == 0 {
        None
    } else if monitors[0].focused {
        Some(monitors[0].name@)
    } else {
        first_focused(monitors.skip(1))
    }
}

/// The name of the focused monitor.
pub fn focused_monitor(monitors: &[RawMonitor]) -> (res: Result<String, HyprlandError>)
    ensures
        match res {
            Ok(name) => first_focused(monitors@) == Some(name@),
            Err(e) => e == HyprlandError::NoFocusedMonitor && first_focused(monitors@) is None,
        },
{
    let mut i: usize = 0;
    proof {
        assert(monitors@.skip(0) =~= monitors@);
    }
    while i < monitors.len()
        invariant
            i <= monitors@.len(),
            first_focused(monitors@.skip(i as int)) == first_focused(monitors@),
        decreases monitors@.len() - i,
    {
        if monitors[i].focused {
            return Ok(monitors[i].name.clone());
        }
        proof {
            assert(monitors@.skip(i as int).skip(1) =~= monitors@.skip(i + 1));
        }
        i += 1;
    }
    Err(HyprlandError::NoFocusedMonitor)
}

// ---- what is said of a window --------------------------------------------------------------
/// A window is described by what the reply holds of it, in the list as when it is the active one.
/// No size is negative.
pub proof fn a_window_is_described_by_its_reply(raw: RawClient, active: RawActiveWindow)
    ensures
        ({
            let w = window_of(raw);
            &&& w.id == raw.address@ && w.title == raw.title@ && w.class == raw.class@
            &&& w.at == Some(raw.at) && w.workspace_id == raw.workspace_id
            &&& w.mapped == raw.mapped && w.hidden == raw.hidden
            &&& w.size is Some
            &&& raw.size.0 >= 0 ==> (w.size->0).0 == raw.size.0
            &&& raw.size.0 < 0 ==> (w.size->0).0 == 0
            &&& raw.size.1 >= 0 ==> (w.size->0).1 == raw.size.1
            &&& raw.size.1 < 0 ==> (w.size->0).1 == 0
        }),
        ({
            let a = active_of(active);
            &&& a.title == active.title@ && a.class == active.class@ && a.at == Some(active.at)
            &&& active.title == raw.title && active.class == raw.class && active.at == raw.at
                && active.size == raw.size && active.monitor == raw.monitor ==> a.size == window_of(
                raw,
            ).size && a.monitor == window_of(raw).monitor
        }),
{
}

/// The focused monitor is the first one that has the focus, and there is none where no monitor
/// has it.
pub proof fn the_focused_monitor_has_the_focus(monitors: Seq<RawMonitor>)
    ensures
        match first_focused(monitors) {
            Some(name) => exists|i: int|
                #![trigger monitors[i]]
                0 <= i < monitors.len() && monitors[i].focused && monitors[i].name@ == name
                    && forall|j: int| 0 <= j < i ==> !(#[trigger] monitors[j]).focused,
            None => forall|j: int| 0 <= j < monitors.len() ==> !(#[trigger] monitors[j]).focused,
        },
    decreases monitors.len(),
{
    if monitors.len() > 0 && !monitors[0].focused {
        let rest = monitors.skip(1);
        the_focused_monitor_has_the_focus(rest);
        assert forall|j: int| 0 < j < monitors.len() implies #[trigger] monitors[j]
            == rest[j - 1] by {}
        if let Some(name) = first_focused(rest) {
            let i = choose|i: int|
                #![trigger rest[i]]
                0 <= i < rest.len() && rest[i].focused && rest[i].name@ == name && forall|j: int|
                    0 <= j < i ==> !(#[trigger] rest[j]).focused;
            assert(monitors[i + 1] == rest[i]);
            assert forall|j: int| 0 <= j < i + 1 implies !(#[trigger] monitors[j]).focused by {
                if j > 0 {
                    assert(!rest[j - 1].focused);
                }
            }
        } else {
            assert forall|j: int| 0 <= j < monitors.len() implies !(#[trigger] monitors[j]).focused by {
                if j > 0 {
                    assert(!rest[j - 1].focused);
                }
            }
        }
    }
}

proof fn lemma_first_field(name: Seq<char>, rest: Seq<char>)
    requires
        forall|i: int| 0 <= i < name.len() ==> #[trigger] name[i] != ',',
    ensures
        first_field_of(name + seq![','] + rest, ',') == name,
    decreases name.len(),
{
    let line = name + seq![','] + rest;
    if name.len() == 0 {
        assert(line[0] == ',');
        assert(first_field_of(line, ',') =~= name);
    } else {
        let tail = name.skip(1);
        assert(line.skip(1) =~= tail + seq![','] + rest);
        assert forall|i: int| 0 <= i < tail.len() implies #[trigger] tail[i] != ',' by {
            assert(tail[i] == name[i + 1]);
        }
        lemma_first_field(tail, rest);
        assert(line[0] == name[0]);
        assert(seq![name[0]] + tail =~= name);
    }
}

/// An event that the focus has gone to a monitor names that monitor, up to the first comma: both
/// forms of the event are read, and no other event.
pub proof fn a_focus_event_names_its_monitor(name: Seq<char>, rest: Seq<char>, line: Seq<char>)
    requires
        name.len() > 0,
        forall|i: int| 0 <= i < name.len() ==> #[trigger] name[i] != ',',
        !crate::strings::is_white_space(name[0]),
        !crate::strings::is_white_space(name.last()),
    ensures
        focused_monitor_in("focusedmon>>"@ + name + seq![','] + rest) == Some(name),
        focused_monitor_in("focusedmonv2>>"@ + name + seq![','] + rest) == Some(name),
        focused_monitor_in(line) is Some ==> "focusedmon>>"@.is_prefix_of(line)
            || "focusedmonv2>>"@.is_prefix_of(line),
{
    reveal_strlit("focusedmon>>");
    reveal_strlit("focusedmonv2>>");
    lemma_first_field(name, rest);
    let plain = "focusedmon>>"@ + name + seq![','] + rest;
    let second = "focusedmonv2>>"@ + name + seq![','] + rest;
    assert(plain[10] == '>' && "focusedmonv2>>"@[10] == 'v');
    assert(!"focusedmonv2>>"@.is_prefix_of(plain));
    assert("focusedmon>>"@.is_prefix_of(plain));
    assert("focusedmonv2>>"@.is_prefix_of(second));
    assert(plain.skip(12) =~= name + seq![','] + rest);
    assert(second.skip(14) =~= name + seq![','] + rest);
    assert(trimmed(name) == name);
}

/// The socket of an instance lies below its signature, in the `hypr` directory of the runtime
/// directory or of `/tmp`.
pub proof fn a_socket_lies_below_its_signature(
    runtime_dir: Seq<char>,
    signature: Seq<char>,
    file: Seq<char>,
)
    requires
        runtime_dir.len() > 0,
        runtime_dir.last() != '/',
        signature.len() > 0,
        signature[0] != '/',
        signature.last() != '/',
        file.len() > 0,
        file[0] != '/',
    ensures
        modern_path(runtime_dir, signature, file) == runtime_dir + "/hypr/"@ + signature + "/"@
            + file,
        modern_path("/tmp"@, signature, file) == legacy_path(signature, file),
{
    reveal_strlit("hypr");
    reveal_strlit("/hypr/");
    reveal_strlit("/");
    reveal_strlit("/tmp");
    reveal_strlit("/tmp/hypr/");
    lemma_modern_path(runtime_dir, signature, file);
    lemma_modern_path("/tmp"@, signature, file);
    assert("/tmp"@ + "/hypr/"@ =~= "/tmp/hypr/"@);
}

proof fn lemma_modern_path(runtime_dir: Seq<char>, signature: Seq<char>, file: Seq<char>)
    requires
        runtime_dir.len() > 0,
        runtime_dir.last() != '/',
        signature.len() > 0,
        signature[0] != '/',
        signature.last() != '/',
        file.len() > 0,
        file[0] != '/',
    ensures
        modern_path(runtime_dir, signature, file) == runtime_dir + "/hypr/"@ + signature + "/"@
            + file,
{
    reveal_strlit("hypr");
    reveal_strlit("/hypr/");
    reveal_strlit("/");
    let first = joined(runtime_dir, "hypr"@);
    assert(first =~= runtime_dir.push('/') + "hypr"@);
    let second = joined(first, signature);
    assert(second =~= first.push('/') + signature);
    assert(second.last() == signature.last());
    assert(joined(second, file) =~= runtime_dir + "/hypr/"@ + signature + "/"@ + file);
}

/// A reply that is blank, an empty object or the word for nothing tells that no window is
/// active, and a reply with anything in its object tells that one is.
pub proof fn an_empty_reply_names_no_window(body: Seq<char>)
    ensures
        trimmed(body).len() == 0 ==> says_no_window(body),
        trimmed(body) == "{}"@ ==> says_no_window(body),
        same_ignoring_case(trimmed(body), "none"@) ==> says_no_window(body),
        trimmed(body).len() > 4 ==> !says_no_window(body),
{
    reveal_strlit("{}");
    reveal_strlit("none");
}

/// The socket that is used is there, and the one of the runtime directory goes first. Without a
/// signature there is none.
pub proof fn the_socket_that_is_there_is_used<E: Fn(&str) -> bool>(
    signature: Option<&str>,
    runtime_dir: Option<&str>,
    file: Seq<char>,
    found: E,
    res: Result<String, HyprlandError>,
)
    requires
        resolves(signature, runtime_dir, file, found, res),
    ensures
        signature is None ==> res == Err::<String, _>(HyprlandError::NotUnderHyprland),
        res matches Ok(path) ==> signature is Some && exists|p: &str|
            #![trigger p@]
            p@ == path@ && call_ensures(found, (p,), true),
        res matches Ok(path) ==> (runtime_dir matches Some(dir) ==> path@ != modern_path(
            dir@,
            signature->0@,
            file,
        ) ==> tested(found, modern_path(dir@, signature->0@, file), false)),
        res matches Ok(path) ==> path@ == legacy_path(signature->0@, file) || (runtime_dir is Some
            && path@ == modern_path(runtime_dir->0@, signature->0@, file)),
        signature is Some && res is Err ==> tested(found, legacy_path(signature->0@, file), false),
{
}

/// A focus event that names a monitor names it by something.
pub proof fn a_blank_name_is_no_monitor(line: Seq<char>)
    ensures
        focused_monitor_in(line) matches Some(name) ==> name.len() > 0 && trimmed(
            first_field_of(
                if "focusedmonv2>>"@.is_prefix_of(line) {
                    line.skip("focusedmonv2>>"@.len() as int)
                } else {
                    line.skip("focusedmon>>"@.len() as int)
                },
                ',',
            ),
        ) == name,
{
}

} // verus!
