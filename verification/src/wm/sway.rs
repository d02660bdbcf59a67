//! Sway: the i3ipc message frames, and windows as its layout tree shows them.
//!
//! A message is a 6-byte magic, a little-endian payload length, a little-endian message type and
//! a JSON payload. Sway has no stacking list: windows live in a tree. The window list puts all
//! floating windows of the tree first, of one parent the topmost one (the last) in front, and all
//! tiled windows behind them in tree order.

use vstd::prelude::*;

use crate::strings::{decimal, same_text};
use crate::wm::json::{parse_json, Json};
use crate::wm::{ActiveWindow, WmWindow};

verus! {

use crate::strings::decimal_of;
use crate::wm::json::{lemma_list_is_smaller, lemma_views, parsed, views, JsonView};
use crate::wm::{ActiveWindowView, WmWindowView};

/// The Sway backend.
#[derive(Clone, Copy, Debug)]
pub struct Sway;

impl Sway {
    /// The backend's name.
    pub fn name(&self) -> (res: &'static str)
        ensures
            res@ == "Sway"@,
    {
        "Sway"
    }
}

/// Why a question to Sway has no answer.
#[derive(Clone, Copy, Debug, PartialEq, Eq, Structural)]
pub enum SwayError {
    /// `$SWAYSOCK` is not set.
    NotUnderSway,
    /// A message does not start with the magic.
    BadMagic,
    /// A reply is not JSON.
    NotJson,
    /// The list of outputs is not an array.
    NotAnArray,
    NoActiveWindow,
    NoFocusedMonitor,
}

impl SwayError {
    pub open spec fn text(self) -> Seq<char> {
        match self {
            SwayError::NotUnderSway => "SWAYSOCK is not set; not running under Sway"@,
            SwayError::BadMagic => "Sway IPC response did not start with the i3-ipc magic"@,
            SwayError::NotJson => "parsing Sway IPC JSON response"@,
            SwayError::NotAnArray => "parsing Sway GET_OUTPUTS response: not an array"@,
            SwayError::NoActiveWindow => "no active window"@,
            SwayError::NoFocusedMonitor => "no focused monitor"@,
        }
    }

    /// The error in words.
    pub fn message(&self) -> (res: &'static str)
        ensures
            res@ == self.text(),
    {
        match self {
            SwayError::NotUnderSway => "SWAYSOCK is not set; not running under Sway",
            SwayError::BadMagic => "Sway IPC response did not start with the i3-ipc magic",
            SwayError::NotJson => "parsing Sway IPC JSON response",
            SwayError::NotAnArray => "parsing Sway GET_OUTPUTS response: not an array",
            SwayError::NoActiveWindow => "no active window",
            SwayError::NoFocusedMonitor => "no focused monitor",
        }
    }
}

/// The path of the socket, from `$SWAYSOCK`.
pub fn socket_path(swaysock: Option<&str>) -> (res: Result<String, SwayError>)
    ensures
        match swaysock {
            Some(path) => res matches Ok(p) && p@ == path@,
            None => res == Err::<String, _>(SwayError::NotUnderSway),
        },
{
    match swaysock {
        Some(path) => Ok(path.to_owned()),
        None => Err(SwayError::NotUnderSway),
    }
}

// ---- frames --------------------------------------------------------------------------------
pub const HEADER_LEN: usize = 14;

pub const SUBSCRIBE: u32 = 2;

pub const GET_OUTPUTS: u32 = 3;

pub const GET_TREE: u32 = 4;

/// The bytes `i3-ipc`.
pub open spec fn magic_bytes() -> Seq<u8> {
    seq![105u8, 51, 45, 105, 112, 99]
}

/// A number in four bytes, the least significant one first.
pub open spec fn le_bytes(v: int) -> Seq<u8> {
    seq![
        (v % 256) as u8,
        (v / 0x100 % 256) as u8,
        (v / 0x1_0000 % 256) as u8,
        (v / 0x100_0000 % 256) as u8,
    ]
}

/// The number in four bytes from `at` on, the least significant one first.
pub open spec fn le_value(b: Seq<u8>, at: int) -> int {
    b[at] + 0x100 * b[at + 1] + 0x1_0000 * b[at + 2] + 0x100_0000 * b[at + 3]
}

/// A message on the wire. The length field holds the payload's length, modulo 2^32.
pub open spec fn frame(msg_type: u32, payload: Seq<u8>) -> Seq<u8> {
    magic_bytes() + le_bytes(payload.len() as int % 0x1_0000_0000) + le_bytes(msg_type as int)
        + payload
}

fn push_le(out: &mut Vec<u8>, v: u32)
    ensures
        final(out)@ == old(out)@ + le_bytes(v as int),
{
    out.push((v % 256) as u8);
    out.push((v / 0x100 % 256) as u8);
    out.push((v / 0x1_0000 % 256) as u8);
    out.push((v / 0x100_0000 % 256) as u8);
    proof {
        assert(out@ =~= old(out)@ + le_bytes(v as int));
    }
}

/// The bytes of one message.
pub fn encode_message(msg_type: u32, payload: &[u8]) -> (res: Vec<u8>)
    ensures
        res@ == frame(msg_type, payload@),
{
    let mut out: Vec<u8> = vec![105, 51, 45, 105, 112, 99];
    proof {
        assert(out@ =~= magic_bytes());
    }
    let len: u32 = (payload.len() as u64 % 0x1_0000_0000) as u32;
    push_le(&mut out, len);
    push_le(&mut out, msg_type);
    out.extend_from_slice(payload);
    proof {
        assert(out@ =~= frame(msg_type, payload@));
    }
    out
}

/// What the head of a message says.
#[derive(Clone, Copy, Debug, PartialEq, Eq, Structural)]
pub struct Header {
    /// The length of the payload that follows.
    pub len: u32,
    pub msg_type: u32,
}

/// Reads the head of a message.
pub fn decode_header(header: &[u8]) -> (res: Result<Header, SwayError>)
    requires
        header@.len() == HEADER_LEN,
    ensures
        res == if header@.take(6) == magic_bytes() {
            Ok(
                (Header {
                    len: le_value(header@, 6) as u32,
                    msg_type: le_value(header@, 10) as u32,
                }),
            )
        } else {
            Err(SwayError::BadMagic)
        },
{
    if header[0] == 105 && header[1] == 51 && header[2] == 45 && header[3] == 105 && header[4]
        == 112 && header[5] == 99 {
        proof {
            assert(header@.take(6) =~= magic_bytes());
        }
        let len: u32 = header[6] as u32 + 0x100 * header[7] as u32 + 0x1_0000 * header[8] as u32
            + 0x100_0000 * header[9] as u32;
        let msg_type: u32 = header[10] as u32 + 0x100 * header[11] as u32 + 0x1_0000
            * header[12] as u32 + 0x100_0000 * header[13] as u32;
        Ok(Header { len, msg_type })
    } else {
        proof {
            if header@.take(6) == magic_bytes() {
                assert forall|i: int| 0 <= i < 6 implies header@[i] == magic_bytes()[i] by {
                    assert(header@.take(6)[i] == header@[i]);
                }
                assert(false);
            }
        }
        Err(SwayError::BadMagic)
    }
}

/// The payload of a subscription to workspace events.
pub fn subscribe_payload() -> (res: Vec<u8>)
    ensures
        res@ == seq![91u8, 34, 119, 111, 114, 107, 115, 112, 97, 99, 101, 34, 93],
{
    vec![91, 34, 119, 111, 114, 107, 115, 112, 97, 99, 101, 34, 93]
}

/// Four bytes hold a 32-bit number.
proof fn lemma_le_value(v: int)
    requires
        0 <= v <= u32::MAX,
    ensures
        v % 256 + 0x100 * (v / 0x100 % 256) + 0x1_0000 * (v / 0x1_0000 % 256) + 0x100_0000 * (v
            / 0x100_0000 % 256) == v,
{
    let a = v / 0x100;
    let b = v / 0x1_0000;
    let c = v / 0x100_0000;
    assert(b == a / 256);
    assert(c == b / 256);
    assert(c < 256);
}

/// The number at a place where its four bytes are.
proof fn lemma_read_le(f: Seq<u8>, at: int, v: int)
    requires
        0 <= at,
        at + 4 <= f.len(),
        0 <= v <= u32::MAX,
        f.subrange(at, at + 4) == le_bytes(v),
    ensures
        le_value(f, at) == v,
{
    let four = f.subrange(at, at + 4);
    assert(four[0] == f[at] && four[1] == f[at + 1] && four[2] == f[at + 2] && four[3] == f[at + 3]);
    lemma_le_value(v);
}

/// Reading the head of a written message gives back its type and the length of its payload, and
/// the payload is what follows the head.
pub proof fn a_frame_reads_back(msg_type: u32, payload: Seq<u8>)
    requires
        payload.len() <= u32::MAX,
    ensures
        frame(msg_type, payload).len() == HEADER_LEN + payload.len(),
        frame(msg_type, payload).take(6) == magic_bytes(),
        le_value(frame(msg_type, payload), 6) == payload.len(),
        le_value(frame(msg_type, payload), 10) == msg_type,
        frame(msg_type, payload).skip(HEADER_LEN as int) == payload,
{
    let f = frame(msg_type, payload);
    let n = payload.len() as int;
    let t = msg_type as int;
    assert(n % 0x1_0000_0000 == n);
    let head = magic_bytes() + le_bytes(n) + le_bytes(t);
    assert(head.len() == 14);
    assert(f == head + payload);
    assert(f.take(6) =~= magic_bytes());
    assert(f.skip(14) =~= payload);
    assert(f.subrange(6, 10) =~= le_bytes(n));
    assert(f.subrange(10, 14) =~= le_bytes(t));
    lemma_read_le(f, 6, n);
    lemma_read_le(f, 10, t);
}

// ---- the tree ------------------------------------------------------------------------------
/// A window found in the tree, with the output and the workspace it is on.
#[derive(Debug)]
pub struct FoundWindow<'a> {
    pub node: &'a Json,
    pub output: String,
    pub workspace_id: i64,
}

/// The contents of a [`FoundWindow`].
#[verifier::ext_equal]
pub struct FoundView {
    pub node: JsonView,
    pub output: Seq<char>,
    pub workspace_id: i64,
}

impl<'a> View for FoundWindow<'a> {
    type V = FoundView;

    open spec fn view(&self) -> FoundView {
        FoundView { node: self.node@, output: self.output@, workspace_id: self.workspace_id }
    }
}

/// The contents of each window of a list.
pub open spec fn found_views(list: Seq<FoundWindow<'_>>) -> Seq<FoundView> {
    Seq::new(list.len(), |i: int| list[i]@)
}

/// The node is a container that holds a window: it is of a container type and has a process.
pub open spec fn is_window(node: JsonView) -> bool {
    &&& node.text_field("type"@) == Some("con"@) || node.text_field("type"@) == Some(
        "floating_con"@,
    )
    &&& node.field("pid"@) is Some && !(node.field("pid"@)->0 is Null)
}

/// Tells whether the node is a container that holds a window.
pub fn is_window_node(node: &Json) -> (res: bool)
    ensures
        res == is_window(node@),
{
    let container = match node.get_text("type") {
        Some(t) => same_text(t, "con") || same_text(t, "floating_con"),
        None => false,
    };
    let has_process = match node.get("pid") {
        Some(Json::Null) => false,
        Some(_) => true,
        None => false,
    };
    container && has_process
}

/// The output for what is below the node: an output node names it, other nodes pass it on.
pub open spec fn output_below(node: JsonView, output: Seq<char>) -> Seq<char> {
    if node.text_field("type"@) == Some("output"@) {
        match node.text_field("name"@) {
            Some(name) => name,
            None => output,
        }
    } else {
        output
    }
}

/// The workspace for what is below the node.
pub open spec fn workspace_below(node: JsonView, workspace_id: i64) -> i64 {
    if node.text_field("type"@) == Some("workspace"@) {
        match node.int_field("id"@) {
            Some(id) => id,
            None => workspace_id,
        }
    } else {
        workspace_id
    }
}

fn has_type(node: &Json, name: &str) -> (res: bool)
    ensures
        res == (node@.text_field("type"@) == Some(name@)),
{
    match node.get_text("type") {
        Some(t) => same_text(t, name),
        None => false,
    }
}

fn next_output(node: &Json, output: &str) -> (res: String)
    ensures
        res@ == output_below(node@, output@),
{
    if has_type(node, "output") {
        match node.get_text("name") {
            Some(name) => name.to_owned(),
            None => output.to_owned(),
        }
    } else {
        output.to_owned()
    }
}

fn next_workspace(node: &Json, workspace_id: i64) -> (res: i64)
    ensures
        res == workspace_below(node@, workspace_id),
{
    if has_type(node, "workspace") {
        match node.get_int("id") {
            Some(id) => id,
            None => workspace_id,
        }
    } else {
        workspace_id
    }
}

/// The windows below a node, front to back: every floating one comes before every tiled one.
pub open spec fn windows_below(node: JsonView, output: Seq<char>, workspace_id: i64) -> Seq<
    FoundView,
>
    decreases node, 2int,
{
    floating_below(node, output, workspace_id) + tiled_below(node, output, workspace_id)
}

/// The floating windows below a node: those of its floating children, the last child first, then
/// those that float below its tiled children, in order.
pub open spec fn floating_below(node: JsonView, output: Seq<char>, workspace_id: i64) -> Seq<
    FoundView,
>
    decreases node, 1int,
{
    let o = output_below(node, output);
    let w = workspace_below(node, workspace_id);
    let floating = node.list_field("floating_nodes"@);
    let tiled = node.list_field("nodes"@);
    proof {
        lemma_list_is_smaller(node, "floating_nodes"@);
        lemma_list_is_smaller(node, "nodes"@);
    }
    (if floating.len() > 0 {
        floating_windows(floating, o, w)
    } else {
        Seq::empty()
    }) + (if tiled.len() > 0 {
        floating_among(tiled, o, w)
    } else {
        Seq::empty()
    })
}

/// The tiled windows below a node, in tree order.
pub open spec fn tiled_below(node: JsonView, output: Seq<char>, workspace_id: i64) -> Seq<FoundView>
    decreases node, 1int,
{
    let o = output_below(node, output);
    let w = workspace_below(node, workspace_id);
    let tiled = node.list_field("nodes"@);
    proof {
        lemma_list_is_smaller(node, "nodes"@);
    }
    if tiled.len() > 0 {
        tiled_windows(tiled, o, w)
    } else {
        Seq::empty()
    }
}

/// What one floating child contributes: itself, if it is a window, or else the windows below it.
pub open spec fn windows_of_child(child: JsonView, output: Seq<char>, workspace_id: i64) -> Seq<
    FoundView,
>
    decreases child, 3int,
{
    if is_window(child) {
        seq![FoundView { node: child, output, workspace_id }]
    } else {
        windows_below(child, output, workspace_id)
    }
}

/// The windows of floating children, the last child first.
pub open spec fn floating_windows(
    children: Seq<JsonView>,
    output: Seq<char>,
    workspace_id: i64,
) -> Seq<FoundView>
    decreases children, 0int,
{
    if children.len() == 0 {
        Seq::empty()
    } else {
        windows_of_child(children.last(), output, workspace_id) + floating_windows(
            children.drop_last(),
            output,
            workspace_id,
        )
    }
}

/// The floating windows below tiled children, in order. Nothing is below a window.
pub open spec fn floating_among(
    children: Seq<JsonView>,
    output: Seq<char>,
    workspace_id: i64,
) -> Seq<FoundView>
    decreases children, 0int,
{
    if children.len() == 0 {
        Seq::empty()
    } else {
        let before = floating_among(children.drop_last(), output, workspace_id);
        if is_window(children.last()) {
            before
        } else {
            before + floating_below(children.last(), output, workspace_id)
        }
    }
}

/// The tiled windows among tiled children and below them, in order.
pub open spec fn tiled_windows(
    children: Seq<JsonView>,
    output: Seq<char>,
    workspace_id: i64,
) -> Seq<FoundView>
    decreases children, 0int,
{
    if children.len() == 0 {
        Seq::empty()
    } else {
        let before = tiled_windows(children.drop_last(), output, workspace_id);
        if is_window(children.last()) {
            before.push(FoundView { node: children.last(), output, workspace_id })
        } else {
            before + tiled_below(children.last(), output, workspace_id)
        }
    }
}

/// What is below a node, said of whole lists.
proof fn lemma_windows_below(node: JsonView, output: Seq<char>, workspace_id: i64)
    ensures
        ({
            let o = output_below(node, output);
            let w = workspace_below(node, workspace_id);
            let floating = node.list_field("floating_nodes"@);
            let tiled = node.list_field("nodes"@);
            &&& floating_below(node, output, workspace_id) == floating_windows(floating, o, w)
                + floating_among(tiled, o, w)
            &&& tiled_below(node, output, workspace_id) == tiled_windows(tiled, o, w)
        }),
{
}

/// Lists the windows below the node, the floating ones and the tiled ones each on their own.
fn split_windows<'a>(
    node: &'a Json,
    output: &str,
    workspace_id: i64,
    floating: &mut Vec<FoundWindow<'a>>,
    tiled: &mut Vec<FoundWindow<'a>>,
)
    ensures
        found_views(final(floating)@) == found_views(old(floating)@) + floating_below(
            node@,
            output@,
            workspace_id,
        ),
        found_views(final(tiled)@) == found_views(old(tiled)@) + tiled_below(
            node@,
            output@,
            workspace_id,
        ),
    decreases node@, 1int,
{
    let o = next_output(node, output);
    let w: i64 = next_workspace(node, workspace_id);
    let ghost start = found_views(floating@);
    let ghost tiled_start = found_views(tiled@);
    let raised = node.get_list("floating_nodes");
    let children = node.get_list("nodes");
    let ghost fs = views(raised@);
    let ghost ts = views(children@);
    proof {
        lemma_views(raised@);
        lemma_views(children@);
        lemma_windows_below(node@, output@, workspace_id);
        lemma_list_is_smaller(node@, "floating_nodes"@);
        lemma_list_is_smaller(node@, "nodes"@);
        assert(fs.take(fs.len() as int) =~= fs);
    }
    let mut i: usize = raised.len();
    while i > 0
        invariant
            i <= raised@.len(),
            fs == views(raised@),
            fs.len() == raised@.len(),
            forall|j: int| 0 <= j < fs.len() ==> #[trigger] fs[j] == raised@[j]@,
            fs.len() > 0 ==> decreases_to!(node@ => fs),
            found_views(floating@) + floating_windows(fs.take(i as int), o@, w) == start
                + floating_windows(fs, o@, w),
        decreases i,
    {
        i -= 1;
        let child = &raised[i];
        let ghost before = found_views(floating@);
        proof {
            assert(child@ == fs[i as int]);
            assert(decreases_to!(fs => fs[i as int]));
            assert(fs.take(i + 1).drop_last() =~= fs.take(i as int));
            assert(fs.take(i + 1).last() == child@);
        }
        if is_window_node(child) {
            floating.push(FoundWindow { node: child, output: o.clone(), workspace_id: w });
            proof {
                assert(found_views(floating@) =~= before + windows_of_child(child@, o@, w));
            }
        } else {
            collect_windows(child, o.as_str(), w, floating);
        }
        proof {
            assert(before + (windows_of_child(child@, o@, w) + floating_windows(
                fs.take(i as int),
                o@,
                w,
            )) =~= found_views(floating@) + floating_windows(fs.take(i as int), o@, w));
        }
    }
    let ghost middle = found_views(floating@);
    proof {
        assert(fs.take(0) =~= Seq::<JsonView>::empty());
        assert(middle + Seq::<FoundView>::empty() =~= middle);
        assert(middle == start + floating_windows(fs, o@, w));
        assert(ts.take(0) =~= Seq::<JsonView>::empty());
        assert(middle + floating_among(ts.take(0), o@, w) =~= middle);
        assert(tiled_start + tiled_windows(ts.take(0), o@, w) =~= tiled_start);
    }
    let mut k: usize = 0;
    while k < children.len()
        invariant
            k <= children@.len(),
            ts == views(children@),
            ts.len() == children@.len(),
            forall|j: int| 0 <= j < ts.len() ==> #[trigger] ts[j] == children@[j]@,
            ts.len() > 0 ==> decreases_to!(node@ => ts),
            found_views(floating@) == middle + floating_among(ts.take(k as int), o@, w),
            found_views(tiled@) == tiled_start + tiled_windows(ts.take(k as int), o@, w),
        decreases children@.len() - k,
    {
        let child = &children[k];
        let ghost floats = floating_among(ts.take(k as int), o@, w);
        let ghost tiles = tiled_windows(ts.take(k as int), o@, w);
        proof {
            assert(child@ == ts[k as int]);
            assert(decreases_to!(ts => ts[k as int]));
            assert(ts.take(k + 1).drop_last() =~= ts.take(k as int));
            assert(ts.take(k + 1).last() == child@);
        }
        if is_window_node(child) {
            let ghost before = found_views(tiled@);
            tiled.push(FoundWindow { node: child, output: o.clone(), workspace_id: w });
            proof {
                let own = FoundView { node: child@, output: o@, workspace_id: w };
                assert(found_views(tiled@) =~= before.push(own));
                assert(before.push(own) =~= tiled_start + tiles.push(own));
            }
        } else {
            split_windows(child, o.as_str(), w, floating, tiled);
            proof {
                let raised_below = floating_below(child@, o@, w);
                let own = tiled_below(child@, o@, w);
                assert(middle + floats + raised_below =~= middle + (floats + raised_below));
                assert(tiled_start + tiles + own =~= tiled_start + (tiles + own));
            }
        }
        k += 1;
    }
    proof {
        assert(ts.take(k as int) =~= ts);
        assert(start + floating_windows(fs, o@, w) + floating_among(ts, o@, w) =~= start + (
        floating_windows(fs, o@, w) + floating_among(ts, o@, w)));
    }
}

/// Lists every window below the node, front to back. `output` and `workspace_id` are those of
/// the nearest enclosing nodes.
pub fn collect_windows<'a>(
    node: &'a Json,
    output: &str,
    workspace_id: i64,
    out: &mut Vec<FoundWindow<'a>>,
)
    ensures
        found_views(final(out)@) == found_views(old(out)@) + windows_below(
            node@,
            output@,
            workspace_id,
        ),
    decreases node@, 2int,
{
    let ghost start = found_views(out@);
    let ghost floats = floating_below(node@, output@, workspace_id);
    let ghost tiles = tiled_below(node@, output@, workspace_id);
    let mut tiled: Vec<FoundWindow<'a>> = Vec::new();
    proof {
        assert(found_views(tiled@) + tiles =~= tiles);
    }
    split_windows(node, output, workspace_id, out, &mut tiled);
    let ghost raised = out@;
    let ghost behind = tiled@;
    out.append(&mut tiled);
    proof {
        assert(found_views(out@) =~= found_views(raised) + found_views(behind));
        assert(start + floats + tiles =~= start + (floats + tiles));
    }
}

/// The focused window at or below the node. A node comes before its children, tiled children
/// before floating ones.
pub open spec fn focused_at(node: JsonView, output: Seq<char>, workspace_id: i64) -> Option<
    FoundView,
>
    decreases node, 1int,
{
    let o = output_below(node, output);
    let w = workspace_below(node, workspace_id);
    let tiled = node.list_field("nodes"@);
    let floating = node.list_field("floating_nodes"@);
    proof {
        lemma_list_is_smaller(node, "floating_nodes"@);
        lemma_list_is_smaller(node, "nodes"@);
    }
    if is_window(node) && node.bool_field("focused"@) == Some(true) {
        Some(FoundView { node, output: o, workspace_id: w })
    } else {
        let first = if tiled.len() > 0 {
            focused_among(tiled, o, w)
        } else {
            None
        };
        match first {
            Some(found) => Some(found),
            None => if floating.len() > 0 {
                focused_among(floating, o, w)
            } else {
                None
            },
        }
    }
}

/// The focused window of the first child that has one.
pub open spec fn focused_among(
    children: Seq<JsonView>,
    output: Seq<char>,
    workspace_id: i64,
) -> Option<FoundView>
    decreases children, 0int,
{
    if children.len() == 0 {
        None
    } else {
        match focused_among(children.drop_last(), output, workspace_id) {
            Some(found) => Some(found),
            None => focused_at(children.last(), output, workspace_id),
        }
    }
}

/// A child that has a focused window gives the answer, if no child before it has one.
proof fn lemma_first_focused(
    children: Seq<JsonView>,
    output: Seq<char>,
    workspace_id: i64,
    i: int,
)
    requires
        0 <= i < children.len(),
        focused_among(children.take(i), output, workspace_id) is None,
        focused_at(children[i], output, workspace_id) is Some,
    ensures
        focused_among(children, output, workspace_id) == focused_at(
            children[i],
            output,
            workspace_id,
        ),
    decreases children.len(),
{
    if i == children.len() - 1 {
        assert(children.drop_last() =~= children.take(i));
    } else {
        assert(children.drop_last().take(i) =~= children.take(i));
        lemma_first_focused(children.drop_last(), output, workspace_id, i);
    }
}

/// Finds the focused window at or below the node.
pub fn find_focused<'a>(node: &'a Json, output: &str, workspace_id: i64) -> (res: Option<
    FoundWindow<'a>,
>)
    ensures
        match res {
            Some(found) => focused_at(node@, output@, workspace_id) == Some(found@),
            None => focused_at(node@, output@, workspace_id) is None,
        },
    decreases node@, 1int,
{
    let o = next_output(node, output);
    let w: i64 = next_workspace(node, workspace_id);
    let focused = match node.get_bool("focused") {
        Some(b) => b,
        None => false,
    };
    if is_window_node(node) && focused {
        return Some(FoundWindow { node, output: o, workspace_id: w });
    }
    let tiled = node.get_list("nodes");
    let floating = node.get_list("floating_nodes");
    proof {
        lemma_list_is_smaller(node@, "floating_nodes"@);
        lemma_list_is_smaller(node@, "nodes"@);
        lemma_views(tiled@);
        lemma_views(floating@);
    }
    let first = if tiled.len() > 0 {
        find_focused_among(tiled, o.as_str(), w)
    } else {
        None
    };
    if first.is_some() {
        return first;
    }
    if floating.len() > 0 {
        find_focused_among(floating, o.as_str(), w)
    } else {
        None
    }
}

fn find_focused_among<'a>(children: &'a [Json], output: &str, workspace_id: i64) -> (res: Option<
    FoundWindow<'a>,
>)
    ensures
        match res {
            Some(found) => focused_among(views(children@), output@, workspace_id) == Some(found@),
            None => focused_among(views(children@), output@, workspace_id) is None,
        },
    decreases views(children@), 0int,
{
    let ghost all = views(children@);
    proof {
        lemma_views(children@);
    }
    let mut i: usize = 0;
    while i < children.len()
        invariant
            i <= children@.len(),
            all == views(children@),
            all.len() == children@.len(),
            forall|j: int| 0 <= j < all.len() ==> #[trigger] all[j] == children@[j]@,
            focused_among(all.take(i as int), output@, workspace_id) is None,
        decreases children@.len() - i,
    {
        proof {
            assert(all[i as int] == children@[i as int]@);
            assert(decreases_to!(all => all[i as int]));
            assert(all.take(i + 1).drop_last() =~= all.take(i as int));
            assert(all.take(i + 1).last() == all[i as int]);
        }
        let found = find_focused(&children[i], output, workspace_id);
        if found.is_some() {
            proof {
                lemma_first_focused(all, output@, workspace_id, i as int);
            }
            return found;
        }
        i += 1;
    }
    proof {
        assert(all.take(i as int) =~= all);
    }
    None
}

// ---- windows -------------------------------------------------------------------------------
/// A text of the node, or no text.
pub open spec fn text_or_empty(text: Option<Seq<char>>) -> Seq<char> {
    match text {
        Some(s) => s,
        None => Seq::empty(),
    }
}

/// The title of a window node.
pub open spec fn title_of(node: JsonView) -> Seq<char> {
    text_or_empty(node.text_field("name"@))
}

/// The class of a window node: its `app_id`, or the class of its X11 properties.
pub open spec fn class_of(node: JsonView) -> Seq<char> {
    match node.text_field("app_id"@) {
        Some(s) => s,
        None => match node.field("window_properties"@) {
            Some(p) => text_or_empty(p.text_field("class"@)),
            None => Seq::empty(),
        },
    }
}

/// A number of the node's `rect`, 0 where there is none.
pub open spec fn rect_number(node: JsonView, key: Seq<char>) -> i64 {
    match node.field("rect"@) {
        Some(rect) => match rect.int_field(key) {
            Some(n) => n,
            None => 0,
        },
        None => 0,
    }
}

/// A size from a number of the node's `rect`, 0 where that is negative.
pub open spec fn rect_size(node: JsonView, key: Seq<char>) -> u32 {
    let n = rect_number(node, key);
    if n < 0 {
        0
    } else {
        n as u32
    }
}

/// The position of a window node.
pub open spec fn at_of(node: JsonView) -> (i32, i32) {
    (rect_number(node, "x"@) as i32, rect_number(node, "y"@) as i32)
}

/// The size of a window node.
pub open spec fn size_of(node: JsonView) -> (u32, u32) {
    (rect_size(node, "width"@), rect_size(node, "height"@))
}

fn rect_int(node: &Json, key: &str) -> (res: i64)
    ensures
        res == rect_number(node@, key@),
{
    match node.get("rect") {
        Some(rect) => match rect.get_int(key) {
            Some(n) => n,
            None => 0,
        },
        None => 0,
    }
}

fn rect_extent(node: &Json, key: &str) -> (res: u32)
    ensures
        res == rect_size(node@, key@),
{
    let n: i64 = rect_int(node, key);
    if n < 0 {
        0
    } else {
        #[verifier::truncate]
        (n as u32)
    }
}

/// The title, class, position and size of a window node. Coordinates keep their low 32 bits.
pub fn window_fields(node: &Json) -> (res: (String, String, (i32, i32), (u32, u32)))
    ensures
        res.0@ == title_of(node@),
        res.1@ == class_of(node@),
        res.2 == at_of(node@),
        res.3 == size_of(node@),
{
    let title = match node.get_text("name") {
        Some(s) => s.to_owned(),
        None => String::new(),
    };
    let class = match node.get_text("app_id") {
        Some(s) => s.to_owned(),
        None => match node.get("window_properties") {
            Some(p) => match p.get_text("class") {
                Some(s) => s.to_owned(),
                None => String::new(),
            },
            None => String::new(),
        },
    };
    let x: i32 = #[verifier::truncate]
    (rect_int(node, "x") as i32);
    let y: i32 = #[verifier::truncate]
    (rect_int(node, "y") as i32);
    let w: u32 = rect_extent(node, "width");
    let h: u32 = rect_extent(node, "height");
    (title, class, (x, y), (w, h))
}

/// The focused window of the tree.
pub open spec fn active_window_of(tree: JsonView) -> Option<ActiveWindowView> {
    match focused_at(tree, ""@, 0) {
        Some(found) => Some(
            ActiveWindowView {
                title: title_of(found.node),
                class: class_of(found.node),
                at: Some(at_of(found.node)),
                size: Some(size_of(found.node)),
                monitor: found.output,
            },
        ),
        None => None,
    }
}

/// The focused window of the tree.
pub fn active_window_in(tree: &Json) -> (res: Result<ActiveWindow, SwayError>)
    ensures
        match res {
            Ok(w) => active_window_of(tree@) == Some(w@),
            Err(e) => e == SwayError::NoActiveWindow && active_window_of(tree@) is None,
        },
{
    match find_focused(tree, "", 0) {
        Some(found) => {
            let (title, class, at, size) = window_fields(found.node);
            Ok(ActiveWindow { title, class, at: Some(at), size: Some(size), monitor: found.output })
        },
        None => Err(SwayError::NoActiveWindow),
    }
}

/// The focused window, from the reply to a request for the tree.
pub fn active_window(reply: &[u8]) -> (res: Result<ActiveWindow, SwayError>)
    ensures
        match (parsed(reply@), res) {
            (None, _) => res == Err::<ActiveWindow, _>(SwayError::NotJson),
            (Some(tree), Ok(w)) => active_window_of(tree) == Some(w@),
            (Some(tree), Err(e)) => e == SwayError::NoActiveWindow && active_window_of(
                tree,
            ) is None,
        },
{
    match parse_json(reply) {
        Some(tree) => active_window_in(&tree),
        None => Err(SwayError::NotJson),
    }
}

/// A found window as an entry of the window list.
pub open spec fn window_of(found: FoundView) -> WmWindowView {
    WmWindowView {
        id: match found.node.int_field("id"@) {
            Some(id) => decimal_of(id as int),
            None => Seq::empty(),
        },
        title: title_of(found.node),
        class: class_of(found.node),
        at: Some(at_of(found.node)),
        size: Some(size_of(found.node)),
        monitor: found.output,
        workspace_id: found.workspace_id,
        mapped: true,
        hidden: found.node.bool_field("visible"@) == Some(false),
    }
}

/// `list` shows the found windows, one for one.
pub open spec fn shows(list: Seq<WmWindow>, found: Seq<FoundView>) -> bool {
    &&& list.len() == found.len()
    &&& forall|i: int| 0 <= i < list.len() ==> (#[trigger] list[i])@ == window_of(found[i])
}

/// The windows of the tree, front to back.
pub fn clients_in(tree: &Json) -> (res: Vec<WmWindow>)
    ensures
        shows(res@, windows_below(tree@, ""@, 0)),
{
    let mut found: Vec<FoundWindow> = Vec::new();
    collect_windows(tree, "", 0, &mut found);
    let ghost all = windows_below(tree@, ""@, 0);
    proof {
        assert(found_views(found@) =~= all);
    }
    let mut res: Vec<WmWindow> = Vec::new();
    let mut i: usize = 0;
    while i < found.len()
        invariant
            i <= found@.len(),
            found_views(found@) == all,
            res@.len() == i,
            forall|j: int| 0 <= j < i ==> (#[trigger] res@[j])@ == window_of(all[j]),
        decreases found@.len() - i,
    {
        let f = &found[i];
        proof {
            assert(all[i as int] == f@);
        }
        let (title, class, at, size) = window_fields(f.node);
        let id = match f.node.get_int("id") {
            Some(id) => decimal(id),
            None => String::new(),
        };
        let visible = match f.node.get_bool("visible") {
            Some(b) => b,
            None => true,
        };
        res.push(
            WmWindow {
                id,
                title,
                class,
                at: Some(at),
                size: Some(size),
                monitor: f.output.clone(),
                workspace_id: f.workspace_id,
                mapped: true,
                hidden: !visible,
            },
        );
        i += 1;
    }
    res
}

/// The window list, from the reply to a request for the tree.
pub fn clients(reply: &[u8]) -> (res: Result<Vec<WmWindow>, SwayError>)
    ensures
        match (parsed(reply@), res) {
            (None, _) => res == Err::<Vec<WmWindow>, _>(SwayError::NotJson),
            (Some(tree), Ok(list)) => shows(list@, windows_below(tree, ""@, 0)),
            (Some(_), Err(_)) => false,
        },
{
    match parse_json(reply) {
        Some(tree) => Ok(clients_in(&tree)),
        None => Err(SwayError::NotJson),
    }
}

/// The first focused entry of a list of outputs.
pub open spec fn first_focused(outputs: Seq<JsonView>) -> Option<JsonView>
    decreases outputs.len(),
{
    if outputs.len() == 0 {
        None
    } else if outputs[0].bool_field("focused"@) == Some(true) {
        Some(outputs[0])
    } else {
        first_focused(outputs.skip(1))
    }
}

/// The name of the focused output: of the first one that is focused, if it has a name.
pub open spec fn focused_output_of(outputs: Seq<JsonView>) -> Option<Seq<char>> {
    match first_focused(outputs) {
        Some(o) => o.text_field("name"@),
        None => None,
    }
}

/// The name of the focused output in a list of outputs.
pub fn focused_output_in(outputs: &Json) -> (res: Result<String, SwayError>)
    ensures
        match outputs@ {
            JsonView::Array(list) => match res {
                Ok(name) => focused_output_of(list) == Some(name@),
                Err(e) => e == SwayError::NoFocusedMonitor && focused_output_of(list) is None,
            },
            _ => res == Err::<String, _>(SwayError::NotAnArray),
        },
{
    match outputs {
        Json::Array(items) => {
            let ghost all = views(items@);
            proof {
                lemma_views(items@);
                assert(all.skip(0) =~= all);
            }
            let mut i: usize = 0;
            while i < items.len()
                invariant
                    i <= items@.len(),
                    outputs@ == JsonView::Array(all),
                    all.len() == items@.len(),
                    forall|j: int| 0 <= j < all.len() ==> #[trigger] all[j] == items@[j]@,
                    first_focused(all.skip(i as int)) == first_focused(all),
                decreases items@.len() - i,
            {
                proof {
                    assert(all[i as int] == items@[i as int]@);
                    assert(all.skip(i as int).skip(1) =~= all.skip(i + 1));
                }
                let focused = match items[i].get_bool("focused") {
                    Some(b) => b,
                    None => false,
                };
                if focused {
                    return match items[i].get_text("name") {
                        Some(name) => Ok(name.to_owned()),
                        None => Err(SwayError::NoFocusedMonitor),
                    };
                }
                i += 1;
            }
            Err(SwayError::NoFocusedMonitor)
        },
        _ => Err(SwayError::NotAnArray),
    }
}

/// The name of the focused output, from the reply to a request for the outputs.
pub fn focused_output(reply: &[u8]) -> (res: Result<String, SwayError>)
    ensures
        match parsed(reply@) {
            None => res == Err::<String, _>(SwayError::NotJson),
            Some(JsonView::Array(list)) => match res {
                Ok(name) => focused_output_of(list) == Some(name@),
                Err(e) => e == SwayError::NoFocusedMonitor && focused_output_of(list) is None,
            },
            Some(_) => res == Err::<String, _>(SwayError::NotAnArray),
        },
{
    match parse_json(reply) {
        Some(outputs) => focused_output_in(&outputs),
        None => Err(SwayError::NotJson),
    }
}

// ---- laws ----------------------------------------------------------------------------------
/// A window is reached from the node through lists of tiled children alone.
pub open spec fn is_tiled_below(node: JsonView, window: JsonView) -> bool
    decreases node,
{
    let tiled = node.list_field("nodes"@);
    proof {
        lemma_list_is_smaller(node, "nodes"@);
    }
    exists|i: int|
        0 <= i < tiled.len() && if is_window(#[trigger] tiled[i]) {
            tiled[i] == window
        } else {
            is_tiled_below(tiled[i], window)
        }
}

/// A window is the child of a list, or below a child that is no window.
pub open spec fn is_below_child(child: JsonView, window: JsonView) -> bool
    decreases child, 1int,
{
    if is_window(child) {
        child == window
    } else {
        is_floating_below(child, window) || is_tiled_below(child, window)
    }
}

/// A window is reached from the node through some list of floating children.
pub open spec fn is_floating_below(node: JsonView, window: JsonView) -> bool
    decreases node, 0int,
{
    let floating = node.list_field("floating_nodes"@);
    let tiled = node.list_field("nodes"@);
    proof {
        lemma_list_is_smaller(node, "floating_nodes"@);
        lemma_list_is_smaller(node, "nodes"@);
    }
    ||| exists|i: int|
        0 <= i < floating.len() && is_below_child(#[trigger] floating[i], window)
    ||| exists|i: int|
        0 <= i < tiled.len() && !is_window(#[trigger] tiled[i]) && is_floating_below(
            tiled[i],
            window,
        )
}

/// In the whole list every floating window stands before every tiled one: there is a place up to
/// which all windows float, and from which on all are tiled.
pub proof fn floating_windows_come_first(node: JsonView, output: Seq<char>, workspace_id: i64)
    ensures
        ({
            let list = windows_below(node, output, workspace_id);
            let n = floating_below(node, output, workspace_id).len();
            &&& n <= list.len()
            &&& forall|i: int| 0 <= i < n ==> is_floating_below(node, (#[trigger] list[i]).node)
            &&& forall|i: int|
                n <= i < list.len() ==> is_tiled_below(node, (#[trigger] list[i]).node)
        }),
{
    let list = windows_below(node, output, workspace_id);
    let floats = floating_below(node, output, workspace_id);
    let n = floats.len();
    assert forall|i: int| 0 <= i < n implies is_floating_below(
        node,
        (#[trigger] list[i]).node,
    ) by {
        lemma_floating_below(node, output, workspace_id, i);
    }
    assert forall|i: int| n <= i < list.len() implies is_tiled_below(
        node,
        (#[trigger] list[i]).node,
    ) by {
        lemma_tiled_below(node, output, workspace_id, i - n);
    }
}

proof fn lemma_tiled_below(node: JsonView, output: Seq<char>, workspace_id: i64, i: int)
    requires
        0 <= i < tiled_below(node, output, workspace_id).len(),
    ensures
        is_window(tiled_below(node, output, workspace_id)[i].node),
        is_tiled_below(node, tiled_below(node, output, workspace_id)[i].node),
    decreases node, 1int,
{
    let o = output_below(node, output);
    let w = workspace_below(node, workspace_id);
    let ts = node.list_field("nodes"@);
    lemma_windows_below(node, output, workspace_id);
    lemma_list_is_smaller(node, "nodes"@);
    lemma_tiled_windows(ts, o, w, i);
}

/// The child that a tiled window comes from.
proof fn lemma_tiled_windows(
    children: Seq<JsonView>,
    output: Seq<char>,
    workspace_id: i64,
    i: int,
) -> (k: int)
    requires
        0 <= i < tiled_windows(children, output, workspace_id).len(),
    ensures
        0 <= k < children.len(),
        is_window(tiled_windows(children, output, workspace_id)[i].node),
        if is_window(children[k]) {
            children[k] == tiled_windows(children, output, workspace_id)[i].node
        } else {
            is_tiled_below(children[k], tiled_windows(children, output, workspace_id)[i].node)
        },
    decreases children, 0int,
{
    let child = children.last();
    let before = tiled_windows(children.drop_last(), output, workspace_id);
    assert(decreases_to!(children => children[children.len() - 1]));
    if i < before.len() {
        lemma_tiled_windows(children.drop_last(), output, workspace_id, i)
    } else {
        if !is_window(child) {
            lemma_tiled_below(child, output, workspace_id, i - before.len());
        }
        children.len() - 1
    }
}

proof fn lemma_floating_below(node: JsonView, output: Seq<char>, workspace_id: i64, i: int)
    requires
        0 <= i < floating_below(node, output, workspace_id).len(),
    ensures
        is_window(floating_below(node, output, workspace_id)[i].node),
        is_floating_below(node, floating_below(node, output, workspace_id)[i].node),
    decreases node, 1int,
{
    let o = output_below(node, output);
    let w = workspace_below(node, workspace_id);
    let fs = node.list_field("floating_nodes"@);
    let ts = node.list_field("nodes"@);
    lemma_windows_below(node, output, workspace_id);
    lemma_list_is_smaller(node, "floating_nodes"@);
    lemma_list_is_smaller(node, "nodes"@);
    let n = floating_windows(fs, o, w).len();
    if i < n {
        lemma_floating_windows(fs, o, w, i);
    } else {
        lemma_floating_among(ts, o, w, i - n);
    }
}

/// The floating child that a window comes from.
proof fn lemma_floating_windows(
    children: Seq<JsonView>,
    output: Seq<char>,
    workspace_id: i64,
    i: int,
) -> (k: int)
    requires
        0 <= i < floating_windows(children, output, workspace_id).len(),
    ensures
        0 <= k < children.len(),
        is_window(floating_windows(children, output, workspace_id)[i].node),
        is_below_child(children[k], floating_windows(children, output, workspace_id)[i].node),
    decreases children, 0int,
{
    let child = children.last();
    let own = windows_of_child(child, output, workspace_id);
    assert(decreases_to!(children => children[children.len() - 1]));
    if i < own.len() {
        if !is_window(child) {
            let n = floating_below(child, output, workspace_id).len();
            if i < n {
                lemma_floating_below(child, output, workspace_id, i);
            } else {
                lemma_tiled_below(child, output, workspace_id, i - n);
            }
        }
        children.len() - 1
    } else {
        lemma_floating_windows(children.drop_last(), output, workspace_id, i - own.len())
    }
}

/// The tiled child that a window floats below.
proof fn lemma_floating_among(
    children: Seq<JsonView>,
    output: Seq<char>,
    workspace_id: i64,
    i: int,
) -> (k: int)
    requires
        0 <= i < floating_among(children, output, workspace_id).len(),
    ensures
        0 <= k < children.len(),
        !is_window(children[k]),
        is_window(floating_among(children, output, workspace_id)[i].node),
        is_floating_below(children[k], floating_among(children, output, workspace_id)[i].node),
    decreases children, 0int,
{
    let child = children.last();
    let before = floating_among(children.drop_last(), output, workspace_id);
    assert(decreases_to!(children => children[children.len() - 1]));
    if i < before.len() {
        lemma_floating_among(children.drop_last(), output, workspace_id, i)
    } else {
        lemma_floating_below(child, output, workspace_id, i - before.len());
        children.len() - 1
    }
}

/// Every listed window is a container that holds a window.
pub proof fn every_listed_window_is_a_window(
    node: JsonView,
    output: Seq<char>,
    workspace_id: i64,
    i: int,
)
    requires
        0 <= i < windows_below(node, output, workspace_id).len(),
    ensures
        is_window(windows_below(node, output, workspace_id)[i].node),
{
    let n = floating_below(node, output, workspace_id).len();
    if i < n {
        lemma_floating_below(node, output, workspace_id, i);
    } else {
        lemma_tiled_below(node, output, workspace_id, i - n);
    }
}

// ---- what is in the tree -------------------------------------------------------------------
/// The node at the end of a path from a node down the tree. Each step of a path takes a child by
/// its place, among the floating children or among the tiled ones.
pub open spec fn node_at(node: JsonView, path: Seq<(bool, int)>) -> Option<JsonView>
    decreases path.len(),
{
    if path.len() == 0 {
        Some(node)
    } else {
        let children = if path[0].0 {
            node.list_field("floating_nodes"@)
        } else {
            node.list_field("nodes"@)
        };
        if 0 <= path[0].1 < children.len() {
            node_at(children[path[0].1], path.skip(1))
        } else {
            None
        }
    }
}

/// The output and the workspace in which a path ends: those of the last output node and of the
/// last workspace node on it.
pub open spec fn place_at(
    node: JsonView,
    path: Seq<(bool, int)>,
    output: Seq<char>,
    workspace_id: i64,
) -> (Seq<char>, i64)
    decreases path.len(),
{
    let o = match (node.text_field("type"@), node.text_field("name"@)) {
        (Some(kind), Some(name)) => if kind == "output"@ {
            name
        } else {
            output
        },
        _ => output,
    };
    let w = match (node.text_field("type"@), node.int_field("id"@)) {
        (Some(kind), Some(id)) => if kind == "workspace"@ {
            id
        } else {
            workspace_id
        },
        _ => workspace_id,
    };
    if path.len() == 0 {
        (o, w)
    } else {
        let children = if path[0].0 {
            node.list_field("floating_nodes"@)
        } else {
            node.list_field("nodes"@)
        };
        place_at(children[path[0].1], path.skip(1), o, w)
    }
}

/// The node is a window that has the focus.
pub open spec fn has_focus(node: JsonView) -> bool {
    &&& node.text_field("type"@) == Some("con"@) || node.text_field("type"@) == Some(
        "floating_con"@,
    )
    &&& node.field("pid"@) is Some && !(node.field("pid"@)->0 is Null)
    &&& node.bool_field("focused"@) == Some(true)
}

proof fn lemma_focused_below(node: JsonView, output: Seq<char>, workspace_id: i64)
    requires
        !has_focus(node),
    ensures
        ({
            let o = output_below(node, output);
            let w = workspace_below(node, workspace_id);
            let first = focused_among(node.list_field("nodes"@), o, w);
            focused_at(node, output, workspace_id) == (if first is Some {
                first
            } else {
                focused_among(node.list_field("floating_nodes"@), o, w)
            })
        }),
{
}

proof fn lemma_none_focused_among(children: Seq<JsonView>, output: Seq<char>, w: i64, i: int)
    requires
        focused_among(children, output, w) is None,
        0 <= i < children.len(),
    ensures
        focused_at(children[i], output, w) is None,
    decreases children.len(),
{
    if i < children.len() - 1 {
        lemma_none_focused_among(children.drop_last(), output, w, i);
    }
}

proof fn lemma_focused_among(children: Seq<JsonView>, output: Seq<char>, w: i64) -> (i: int)
    requires
        focused_among(children, output, w) is Some,
    ensures
        0 <= i < children.len(),
        focused_at(children[i], output, w) == focused_among(children, output, w),
    decreases children.len(),
{
    if focused_among(children.drop_last(), output, w) is Some {
        lemma_focused_among(children.drop_last(), output, w)
    } else {
        children.len() - 1
    }
}

/// Where no focused window is found, there is none: no path down the tree, through tiled or
/// floating children, ends at a window that has the focus.
pub proof fn no_focused_window_is_missed(
    node: JsonView,
    output: Seq<char>,
    workspace_id: i64,
    path: Seq<(bool, int)>,
)
    requires
        focused_at(node, output, workspace_id) is None,
        node_at(node, path) is Some,
    ensures
        !has_focus(node_at(node, path)->0),
    decreases path.len(),
{
    if path.len() > 0 {
        lemma_focused_below(node, output, workspace_id);
        let o = output_below(node, output);
        let w = workspace_below(node, workspace_id);
        let children = if path[0].0 {
            node.list_field("floating_nodes"@)
        } else {
            node.list_field("nodes"@)
        };
        lemma_none_focused_among(children, o, w, path[0].1);
        no_focused_window_is_missed(children[path[0].1], o, w, path.skip(1));
    }
}

/// The focused window that is found is one: some path down the tree ends at it, it is a window
/// and has the focus, and its output and its workspace are those on the path.
pub proof fn the_focused_window_has_the_focus(
    node: JsonView,
    output: Seq<char>,
    workspace_id: i64,
) -> (path: Seq<(bool, int)>)
    requires
        focused_at(node, output, workspace_id) is Some,
    ensures
        ({
            let found = focused_at(node, output, workspace_id)->0;
            &&& node_at(node, path) == Some(found.node)
            &&& has_focus(found.node)
            &&& (found.output, found.workspace_id) == place_at(node, path, output, workspace_id)
        }),
    decreases node,
{
    if has_focus(node) {
        Seq::empty()
    } else {
        lemma_focused_below(node, output, workspace_id);
        lemma_list_is_smaller(node, "floating_nodes"@);
        lemma_list_is_smaller(node, "nodes"@);
        let o = output_below(node, output);
        let w = workspace_below(node, workspace_id);
        let floats = focused_among(node.list_field("nodes"@), o, w) is None;
        let children = if floats {
            node.list_field("floating_nodes"@)
        } else {
            node.list_field("nodes"@)
        };
        let i = lemma_focused_among(children, o, w);
        assert(decreases_to!(children => children[i]));
        let rest = the_focused_window_has_the_focus(children[i], o, w);
        let path = seq![(floats, i)] + rest;
        assert(path.skip(1) =~= rest);
        path
    }
}

/// Asked for the active window, a tree answers exactly when some window in it has the focus.
pub proof fn a_focused_window_is_the_active_one(tree: JsonView, path: Seq<(bool, int)>)
    requires
        node_at(tree, path) is Some,
        has_focus(node_at(tree, path)->0),
    ensures
        active_window_of(tree) is Some,
        exists|p: Seq<(bool, int)>|
            #![trigger node_at(tree, p)]
            node_at(tree, p) is Some && has_focus(node_at(tree, p)->0) && ({
                let (node, window) = (node_at(tree, p)->0, active_window_of(tree)->0);
                &&& window.monitor == place_at(tree, p, ""@, 0).0
                &&& node.text_field("name"@) matches Some(name) ==> window.title == name
                &&& node.text_field("app_id"@) matches Some(id) ==> window.class == id
            }),
{
    if focused_at(tree, ""@, 0) is None {
        no_focused_window_is_missed(tree, ""@, 0, path);
    } else {
        let p = the_focused_window_has_the_focus(tree, ""@, 0);
        assert(node_at(tree, p) is Some);
    }
}

/// No node on the way down a path is a window, the first and the last ones aside.
pub open spec fn passes_no_window(node: JsonView, path: Seq<(bool, int)>) -> bool {
    forall|k: int|
        0 < k < path.len() && (#[trigger] node_at(node, path.take(k))) is Some ==> !is_window(
            node_at(node, path.take(k))->0,
        )
}

/// A list holds a window.
pub open spec fn lists(list: Seq<FoundView>, found: FoundView) -> bool {
    exists|i: int| 0 <= i < list.len() && #[trigger] list[i] == found
}

proof fn lemma_lists_either(a: Seq<FoundView>, b: Seq<FoundView>, found: FoundView)
    ensures
        lists(a + b, found) <==> lists(a, found) || lists(b, found),
{
    if lists(a, found) {
        let i = choose|i: int| 0 <= i < a.len() && #[trigger] a[i] == found;
        assert((a + b)[i] == found);
    }
    if lists(b, found) {
        let i = choose|i: int| 0 <= i < b.len() && #[trigger] b[i] == found;
        assert((a + b)[a.len() + i] == found);
    }
    if lists(a + b, found) {
        let i = choose|i: int| 0 <= i < (a + b).len() && #[trigger] (a + b)[i] == found;
        if i < a.len() {
            assert(a[i] == found);
        } else {
            assert(b[i - a.len()] == found);
        }
    }
}

proof fn lemma_lists_floating(
    children: Seq<JsonView>,
    o: Seq<char>,
    w: i64,
    i: int,
    found: FoundView,
)
    requires
        0 <= i < children.len(),
        lists(windows_of_child(children[i], o, w), found),
    ensures
        lists(floating_windows(children, o, w), found),
    decreases children.len(),
{
    lemma_lists_either(
        windows_of_child(children.last(), o, w),
        floating_windows(children.drop_last(), o, w),
        found,
    );
    if i < children.len() - 1 {
        lemma_lists_floating(children.drop_last(), o, w, i, found);
    }
}

proof fn lemma_lists_floating_among(
    children: Seq<JsonView>,
    o: Seq<char>,
    w: i64,
    i: int,
    found: FoundView,
)
    requires
        0 <= i < children.len(),
        !is_window(children[i]),
        lists(floating_below(children[i], o, w), found),
    ensures
        lists(floating_among(children, o, w), found),
    decreases children.len(),
{
    lemma_lists_either(
        floating_among(children.drop_last(), o, w),
        floating_below(children.last(), o, w),
        found,
    );
    if i < children.len() - 1 {
        lemma_lists_floating_among(children.drop_last(), o, w, i, found);
    }
}

proof fn lemma_lists_tiled(
    children: Seq<JsonView>,
    o: Seq<char>,
    w: i64,
    i: int,
    found: FoundView,
)
    requires
        0 <= i < children.len(),
        is_window(children[i]) ==> found == (FoundView {
            node: children[i],
            output: o,
            workspace_id: w,
        }),
        !is_window(children[i]) ==> lists(tiled_below(children[i], o, w), found),
    ensures
        lists(tiled_windows(children, o, w), found),
    decreases children.len(),
{
    let child = children.last();
    let before = tiled_windows(children.drop_last(), o, w);
    let own = FoundView { node: child, output: o, workspace_id: w };
    if is_window(child) {
        assert(before.push(own) =~= before + seq![own]);
        assert(seq![own][0] == own);
        lemma_lists_either(before, seq![own], found);
    } else {
        lemma_lists_either(before, tiled_below(child, o, w), found);
    }
    if i < children.len() - 1 {
        lemma_lists_tiled(children.drop_last(), o, w, i, found);
    }
}

/// The list of windows misses none: every window at the end of a path that passes no other
/// window is listed, floating or tiled, on its own output and workspace.
pub proof fn every_window_is_listed(
    node: JsonView,
    output: Seq<char>,
    workspace_id: i64,
    path: Seq<(bool, int)>,
)
    requires
        path.len() > 0,
        node_at(node, path) is Some,
        is_window(node_at(node, path)->0),
        passes_no_window(node, path),
    ensures
        ({
            let place = place_at(node, path.drop_last(), output, workspace_id);
            lists(
                windows_below(node, output, workspace_id),
                FoundView { node: node_at(node, path)->0, output: place.0, workspace_id: place.1 },
            )
        }),
    decreases path.len(),
{
    let o = output_below(node, output);
    let w = workspace_below(node, workspace_id);
    let (floats, i) = path[0];
    let children = if floats {
        node.list_field("floating_nodes"@)
    } else {
        node.list_field("nodes"@)
    };
    let child = children[i];
    let rest = path.skip(1);
    let place = place_at(node, path.drop_last(), output, workspace_id);
    let found = FoundView {
        node: node_at(node, path)->0,
        output: place.0,
        workspace_id: place.1,
    };
    lemma_windows_below(node, output, workspace_id);
    if path.len() == 1 {
        assert(node_at(child, rest) == Some(child));
        assert(found == FoundView { node: child, output: o, workspace_id: w });
        assert(windows_of_child(child, o, w)[0] == found);
    } else {
        assert(path.take(1).skip(1) =~= Seq::<(bool, int)>::empty());
        assert(node_at(child, path.take(1).skip(1)) == Some(child));
        assert(node_at(node, path.take(1)) == Some(child));
        assert forall|k: int|
            0 < k < rest.len() && (#[trigger] node_at(child, rest.take(k)))
                is Some implies !is_window(node_at(child, rest.take(k))->0) by {
            assert(path.take(k + 1).skip(1) =~= rest.take(k));
            assert(node_at(node, path.take(k + 1)) == node_at(child, rest.take(k)));
        }
        every_window_is_listed(child, o, w, rest);
        assert(path.drop_last().skip(1) =~= rest.drop_last());
        assert(windows_of_child(child, o, w) == windows_below(child, o, w));
        lemma_lists_either(floating_below(child, o, w), tiled_below(child, o, w), found);
    }
    if floats {
        lemma_lists_floating(children, o, w, i, found);
    } else if path.len() == 1 || lists(tiled_below(child, o, w), found) {
        lemma_lists_tiled(children, o, w, i, found);
    } else {
        lemma_lists_floating_among(children, o, w, i, found);
    }
    lemma_lists_either(
        floating_windows(node.list_field("floating_nodes"@), o, w),
        floating_among(node.list_field("nodes"@), o, w),
        found,
    );
    lemma_lists_either(
        floating_below(node, output, workspace_id),
        tiled_below(node, output, workspace_id),
        found,
    );
}

/// A window is described by its node: its name is the title, its application id the class (and
/// for an X11 window the class that X11 gives it), and its rectangle the place and the size. It
/// is hidden exactly where Sway says that it is not visible.
pub proof fn a_window_is_described_by_its_node(found: FoundView)
    ensures
        ({
            let (node, window) = (found.node, window_of(found));
            &&& window.title == (match node.text_field("name"@) {
                Some(name) => name,
                None => Seq::empty(),
            })
            &&& node.text_field("app_id"@) matches Some(id) ==> window.class == id
            &&& node.text_field("app_id"@) is None && (node.field("window_properties"@) matches Some(
                p,
            ) && p.text_field("class"@) is Some) ==> Some(window.class)
                == node.field("window_properties"@)->0.text_field("class"@)
            &&& node.field("rect"@) matches Some(rect) ==> {
                &&& rect.int_field("x"@) matches Some(x) ==> (i32::MIN <= x <= i32::MAX
                    ==> window.at is Some && (window.at->0).0 == x)
                &&& rect.int_field("y"@) matches Some(y) ==> (i32::MIN <= y <= i32::MAX
                    ==> window.at is Some && (window.at->0).1 == y)
                &&& rect.int_field("width"@) matches Some(n) ==> (0 <= n <= u32::MAX
                    ==> window.size is Some && (window.size->0).0 == n)
                &&& rect.int_field("height"@) matches Some(n) ==> (0 <= n <= u32::MAX
                    ==> window.size is Some && (window.size->0).1 == n)
            }
            &&& window.monitor == found.output && window.workspace_id == found.workspace_id
            &&& window.mapped
            &&& window.hidden <==> node.bool_field("visible"@) == Some(false)
            &&& node.int_field("id"@) matches Some(id) ==> window.id == decimal_of(id as int)
        }),
{
}

/// The active window is described as it is in the list.
pub proof fn the_active_window_is_described_as_in_the_list(tree: JsonView)
    ensures
        match (focused_at(tree, ""@, 0), active_window_of(tree)) {
            (Some(found), Some(active)) => {
                let window = window_of(found);
                &&& active.title == window.title && active.class == window.class
                &&& active.at == window.at && active.size == window.size
                &&& active.monitor == window.monitor
            },
            (None, None) => true,
            _ => false,
        },
{
}

/// The focused output is the name of the first output that has the focus, and there is none
/// where no output has it.
pub proof fn the_focused_output_has_the_focus(outputs: Seq<JsonView>)
    ensures
        match first_focused(outputs) {
            Some(o) => exists|i: int|
                0 <= i < outputs.len() && #[trigger] outputs[i] == o && o.bool_field("focused"@)
                    == Some(true) && forall|j: int|
                    0 <= j < i ==> (#[trigger] outputs[j]).bool_field("focused"@) != Some(true),
            None => forall|j: int|
                0 <= j < outputs.len() ==> (#[trigger] outputs[j]).bool_field("focused"@) != Some(
                    true,
                ),
        },
        focused_output_of(outputs) == (match first_focused(outputs) {
            Some(o) => o.text_field("name"@),
            None => None,
        }),
    decreases outputs.len(),
{
    if outputs.len() > 0 && outputs[0].bool_field("focused"@) != Some(true) {
        let rest = outputs.skip(1);
        the_focused_output_has_the_focus(rest);
        assert forall|j: int| 0 < j < outputs.len() implies #[trigger] outputs[j] == rest[j - 1] by {}
        if let Some(o) = first_focused(rest) {
            let i = choose|i: int|
                0 <= i < rest.len() && #[trigger] rest[i] == o && o.bool_field("focused"@) == Some(
                    true,
                ) && forall|j: int|
                    0 <= j < i ==> (#[trigger] rest[j]).bool_field("focused"@) != Some(true);
            assert(outputs[i + 1] == o);
        } else {
            assert forall|j: int| 0 <= j < outputs.len() implies (#[trigger] outputs[j]).bool_field(
                "focused"@,
            ) != Some(true) by {
                if j > 0 {
                    assert(rest[j - 1].bool_field("focused"@) != Some(true));
                }
            }
        }
    }
}

/// A message begins with the six letters that mark it, then has the number of the bytes that
/// follow the head and its type, each with its least significant byte first.
pub proof fn a_frame_begins_with_its_mark(msg_type: u32, payload: Seq<u8>)
    requires
        payload.len() <= u32::MAX,
    ensures
        ({
            let f = frame(msg_type, payload);
            &&& f[0] as char == 'i' && f[1] as char == '3' && f[2] as char == '-' && f[3] as char
                == 'i' && f[4] as char == 'p' && f[5] as char == 'c'
            &&& f[6] == payload.len() % 256 && f[9] == payload.len() / 0x100_0000
            &&& f[10] == msg_type % 256 && f[13] == msg_type / 0x100_0000
        }),
{
    let n = payload.len() as int;
    assert(n % 0x1_0000_0000 == n);
    assert(n / 0x100_0000 < 256);
}

/// Below an output its name is the output of what is found, and below a workspace its number the
/// workspace. Other nodes hand on what is above them.
pub proof fn outputs_and_workspaces_pass_on_their_names(
    node: JsonView,
    output: Seq<char>,
    workspace_id: i64,
    name: Seq<char>,
    id: i64,
)
    ensures
        node.text_field("type"@) == Some("output"@) && node.text_field("name"@) == Some(name)
            ==> output_below(node, output) == name,
        node.text_field("type"@) != Some("output"@) ==> output_below(node, output) == output,
        node.text_field("type"@) == Some("workspace"@) && node.int_field("id"@) == Some(id)
            ==> workspace_below(node, workspace_id) == id,
        node.text_field("type"@) != Some("workspace"@) ==> workspace_below(node, workspace_id)
            == workspace_id,
{
}

} // verus!
