//! Windows as the `zwlr_foreign_toplevel_manager_v1` protocol reports them.
//!
//! The protocol tells a toplevel's title, application id, coarse state and outputs, and never
//! its position or size. It has no workspaces either: a window's workspace is `-1`.
//!
//! Should several toplevels be activated, the last one wins.

use vstd::endian::{endianness, Endian};
use vstd::prelude::*;
use wayland_protocols_wlr::foreign_toplevel::v1::client::zwlr_foreign_toplevel_handle_v1::State;

use crate::strings::{join_path, same_optional_text};
use crate::wm::{ActiveWindow, WmWindow};

verus! {

/// The backend for compositors without a socket of their own.
#[derive(Clone, Copy, Debug)]
pub struct ForeignToplevel;

impl ForeignToplevel {
    /// The backend's name.
    pub fn name(&self) -> (res: &'static str)
        ensures
            res@ == "wlr-foreign-toplevel"@,
    {
        "wlr-foreign-toplevel"
    }
}

/// The backend, where the compositor advertises the protocol.
pub fn probe(advertised: bool) -> (res: Option<ForeignToplevel>)
    ensures
        res is Some <==> advertised,
{
    if advertised {
        Some(ForeignToplevel)
    } else {
        None
    }
}

// ---- window states -------------------------------------------------------------------------
/// A state that a toplevel can be in.
#[derive(Clone, Copy, Debug, PartialEq, Eq, Structural)]
pub enum ToplevelState {
    Maximized,
    Minimized,
    Activated,
    Fullscreen,
}

/// The state that the protocol gives the number `value`.
pub open spec fn state_of(value: u32) -> Option<ToplevelState> {
    if value == 0 {
        Some(ToplevelState::Maximized)
    } else if value == 1 {
        Some(ToplevelState::Minimized)
    } else if value == 2 {
        Some(ToplevelState::Activated)
    } else if value == 3 {
        Some(ToplevelState::Fullscreen)
    } else {
        None
    }
}

/// `State::try_from` of the protocol bindings: the numbers 0 to 3 are the four states in the
/// order of [`ToplevelState`], and every other number is an error.
#[verifier::external_body]
fn toplevel_state(value: u32) -> (res: Option<ToplevelState>)
    ensures
        res == state_of(value),
{
    match State::try_from(value) {
        Ok(State::Maximized) => Some(ToplevelState::Maximized),
        Ok(State::Minimized) => Some(ToplevelState::Minimized),
        Ok(State::Activated) => Some(ToplevelState::Activated),
        Ok(State::Fullscreen) => Some(ToplevelState::Fullscreen),
        _ => None,
    }
}

/// The number that four bytes stand for on this machine.
pub open spec fn native_word(b: Seq<u8>) -> int {
    match endianness() {
        Endian::Little => b[0] + 0x100 * b[1] + 0x1_0000 * b[2] + 0x100_0000 * b[3],
        Endian::Big => b[3] + 0x100 * b[2] + 0x1_0000 * b[1] + 0x100_0000 * b[0],
    }
}

/// `u32::from_ne_bytes`: the number whose bytes in memory, in this machine's byte order, are
/// the given ones.
#[verifier::external_body]
fn word_from_native_bytes(bytes: [u8; 4]) -> (res: u32)
    ensures
        res == native_word(bytes@),
{
    u32::from_ne_bytes(bytes)
}

/// The `i`-th group of four bytes.
pub open spec fn chunk(raw: Seq<u8>, i: int) -> Seq<u8> {
    raw.subrange(4 * i, 4 * i + 4)
}

/// One of the whole four-byte groups of `raw` stands for `value`.
pub open spec fn holds_word(raw: Seq<u8>, value: int) -> bool {
    exists|i: int| 0 <= i < raw.len() / 4 && native_word(#[trigger] chunk(raw, i)) == value
}

/// What a `state` event says: whether the toplevel is activated, and whether it is minimized.
pub open spec fn states_in(raw: Seq<u8>) -> (bool, bool) {
    (holds_word(raw, 2), holds_word(raw, 1))
}

/// Decodes a `state` event into `(activated, minimized)`.
///
/// The event carries an array of 32-bit words in native byte order, one per state. Bytes that
/// fill no whole word are ignored, as are states of other kinds.
pub fn parse_state_bits(raw: &[u8]) -> (res: (bool, bool))
    ensures
        res == states_in(raw@),
{
    let mut activated = false;
    let mut minimized = false;
    let mut i: usize = 0;
    let len: usize = raw.len();
    let n: usize = len / 4;
    while i < n
        invariant
            i <= n == len / 4,
            len == raw@.len(),
            activated == exists|j: int|
                0 <= j < i && native_word(#[trigger] chunk(raw@, j)) == 2,
            minimized == exists|j: int|
                0 <= j < i && native_word(#[trigger] chunk(raw@, j)) == 1,
        decreases n - i,
    {
        let bytes = [raw[4 * i], raw[4 * i + 1], raw[4 * i + 2], raw[4 * i + 3]];
        proof {
            assert(bytes@ =~= chunk(raw@, i as int));
        }
        let value: u32 = word_from_native_bytes(bytes);
        match toplevel_state(value) {
            Some(ToplevelState::Activated) => {
                activated = true;
            },
            Some(ToplevelState::Minimized) => {
                minimized = true;
            },
            _ => {},
        }
        i += 1;
    }
    (activated, minimized)
}

// ---- toplevels as they are announced -------------------------------------------------------
/// What has been announced of one toplevel so far.
#[derive(Debug)]
pub struct ToplevelBuilder {
    /// The number under which events name the toplevel.
    pub handle: u64,
    pub id: String,
    pub title: String,
    pub app_id: String,
    pub activated: bool,
    pub minimized: bool,
    /// The outputs it is on, by number, in the order it entered them.
    pub outputs: Vec<u64>,
    /// The first batch of events is complete.
    pub done: bool,
    pub closed: bool,
}

/// The contents of a [`ToplevelBuilder`].
#[verifier::ext_equal]
pub struct BuilderView {
    pub handle: u64,
    pub id: Seq<char>,
    pub title: Seq<char>,
    pub app_id: Seq<char>,
    pub activated: bool,
    pub minimized: bool,
    pub outputs: Seq<u64>,
    pub done: bool,
    pub closed: bool,
}

impl View for ToplevelBuilder {
    type V = BuilderView;

    open spec fn view(&self) -> BuilderView {
        BuilderView {
            handle: self.handle,
            id: self.id@,
            title: self.title@,
            app_id: self.app_id@,
            activated: self.activated,
            minimized: self.minimized,
            outputs: self.outputs@,
            done: self.done,
            closed: self.closed,
        }
    }
}

/// A toplevel of which nothing but its handle is known.
pub open spec fn fresh_builder(handle: u64, id: Seq<char>) -> BuilderView {
    BuilderView {
        handle,
        id,
        title: Seq::empty(),
        app_id: Seq::empty(),
        activated: false,
        minimized: false,
        outputs: Seq::empty(),
        done: false,
        closed: false,
    }
}

impl ToplevelBuilder {
    /// A toplevel of which nothing but its handle is known.
    pub fn new(handle: u64, id: String) -> (res: ToplevelBuilder)
        ensures
            res@ == fresh_builder(handle, id@),
    {
        ToplevelBuilder {
            handle,
            id,
            title: String::new(),
            app_id: String::new(),
            activated: false,
            minimized: false,
            outputs: Vec::new(),
            done: false,
            closed: false,
        }
    }
}

/// One event of a toplevel handle.
#[derive(Debug)]
pub enum ToplevelEvent {
    Title(String),
    AppId(String),
    OutputEnter(u64),
    OutputLeave(u64),
    State { activated: bool, minimized: bool },
    Done,
    Closed,
    Other,
}

/// `b` after `event`.
pub open spec fn after_event(b: BuilderView, event: ToplevelEvent) -> BuilderView {
    match event {
        ToplevelEvent::Title(title) => BuilderView { title: title@, ..b },
        ToplevelEvent::AppId(app_id) => BuilderView { app_id: app_id@, ..b },
        ToplevelEvent::OutputEnter(output) => BuilderView { outputs: b.outputs.push(output), ..b },
        ToplevelEvent::OutputLeave(output) => BuilderView {
            outputs: b.outputs.filter(|o: u64| o != output),
            ..b
        },
        ToplevelEvent::State { activated, minimized } => BuilderView { activated, minimized, ..b },
        ToplevelEvent::Done => BuilderView { done: true, ..b },
        ToplevelEvent::Closed => BuilderView { closed: true, ..b },
        ToplevelEvent::Other => b,
    }
}

/// The list without any `output`.
fn without(list: &Vec<u64>, output: u64) -> (res: Vec<u64>)
    ensures
        res@ == list@.filter(|o: u64| o != output),
{
    let mut res: Vec<u64> = Vec::new();
    let mut i: usize = 0;
    proof {
        reveal(Seq::filter);
        assert(list@.take(0) =~= Seq::<u64>::empty());
    }
    while i < list.len()
        invariant
            i <= list@.len(),
            res@ == list@.take(i as int).filter(|o: u64| o != output),
        decreases list@.len() - i,
    {
        proof {
            reveal(Seq::filter);
            assert(list@.take(i + 1).drop_last() =~= list@.take(i as int));
        }
        if list[i] != output {
            res.push(list[i]);
        }
        i += 1;
    }
    proof {
        assert(list@.take(i as int) =~= list@);
    }
    res
}

/// Records one event of a toplevel.
pub fn apply_event(b: ToplevelBuilder, event: ToplevelEvent) -> (res: ToplevelBuilder)
    ensures
        res@ == after_event(b@, event),
{
    let mut b = b;
    match event {
        ToplevelEvent::Title(title) => {
            b.title = title;
        },
        ToplevelEvent::AppId(app_id) => {
            b.app_id = app_id;
        },
        ToplevelEvent::OutputEnter(output) => {
            b.outputs.push(output);
        },
        ToplevelEvent::OutputLeave(output) => {
            b.outputs = without(&b.outputs, output);
        },
        ToplevelEvent::State { activated, minimized } => {
            b.activated = activated;
            b.minimized = minimized;
        },
        ToplevelEvent::Done => {
            b.done = true;
        },
        ToplevelEvent::Closed => {
            b.closed = true;
        },
        ToplevelEvent::Other => {},
    }
    b
}

/// The contents of each toplevel of a list.
pub open spec fn builders(list: Seq<ToplevelBuilder>) -> Seq<BuilderView> {
    Seq::new(list.len(), |i: int| list[i]@)
}

/// The list after an event for the toplevel `handle`: the first toplevel of that handle records
/// it. An event for an unknown handle changes nothing.
pub open spec fn after_toplevel_event(
    list: Seq<BuilderView>,
    handle: u64,
    event: ToplevelEvent,
) -> Seq<BuilderView>
    decreases list.len(),
{
    if list.len() == 0 {
        list
    } else if list[0].handle == handle {
        list.update(0, after_event(list[0], event))
    } else {
        seq![list[0]] + after_toplevel_event(list.skip(1), handle, event)
    }
}

proof fn lemma_event_reaches_first(
    list: Seq<BuilderView>,
    handle: u64,
    event: ToplevelEvent,
    i: int,
)
    requires
        0 <= i <= list.len(),
        forall|j: int| 0 <= j < i ==> (#[trigger] list[j]).handle != handle,
        i < list.len() ==> list[i].handle == handle,
    ensures
        after_toplevel_event(list, handle, event) == if i < list.len() {
            list.update(i, after_event(list[i], event))
        } else {
            list
        },
    decreases list.len(),
{
    if list.len() > 0 && i > 0 {
        assert(list[0].handle != handle);
        assert forall|j: int| 0 <= j < i - 1 implies (#[trigger] list.skip(1)[j]).handle
            != handle by {
            assert(list[j + 1].handle != handle);
        }
        lemma_event_reaches_first(list.skip(1), handle, event, i - 1);
        let tail = after_toplevel_event(list.skip(1), handle, event);
        if i < list.len() {
            assert(seq![list[0]] + tail =~= list.update(i, after_event(list[i], event)));
        } else {
            assert(seq![list[0]] + tail =~= list);
        }
    }
}

/// Records one event of the toplevel `handle` in the list.
pub fn handle_event(list: &mut Vec<ToplevelBuilder>, handle: u64, event: ToplevelEvent)
    ensures
        builders(final(list)@) == after_toplevel_event(builders(old(list)@), handle, event),
{
    let ghost before = builders(list@);
    let mut i: usize = 0;
    while i < list.len()
        invariant
            i <= list@.len(),
            before == builders(list@),
            before == builders(old(list)@),
            forall|j: int| 0 <= j < i ==> (#[trigger] before[j]).handle != handle,
        decreases list@.len() - i,
    {
        if list[i].handle == handle {
            proof {
                lemma_event_reaches_first(before, handle, event, i as int);
            }
            let ghost stop = list@;
            let b = list.remove(i);
            let b = apply_event(b, event);
            list.insert(i, b);
            proof {
                assert(builders(list@) =~= before.update(
                    i as int,
                    after_event(before[i as int], event),
                ));
            }
            return;
        }
        i += 1;
    }
    proof {
        lemma_event_reaches_first(before, handle, event, i as int);
    }
}

// ---- snapshots -----------------------------------------------------------------------------
/// The name of an output, where it is known.
#[derive(Debug)]
pub struct OutputName {
    pub output: u64,
    pub name: Option<String>,
}

/// The name of the output numbered `output`.
pub open spec fn name_of(names: Seq<OutputName>, output: u64) -> Option<Seq<char>>
    decreases names.len(),
{
    if names.len() == 0 {
        None
    } else if names[0].output == output {
        crate::strings::text_of(names[0].name)
    } else {
        name_of(names.skip(1), output)
    }
}

fn find_name(names: &[OutputName], output: u64) -> (res: Option<String>)
    ensures
        crate::strings::text_of(res) == name_of(names@, output),
{
    let mut i: usize = 0;
    proof {
        assert(names@.skip(0) =~= names@);
    }
    while i < names.len()
        invariant
            i <= names@.len(),
            name_of(names@.skip(i as int), output) == name_of(names@, output),
        decreases names@.len() - i,
    {
        if names[i].output == output {
            return names[i].name.clone();
        }
        proof {
            assert(names@.skip(i as int).skip(1) =~= names@.skip(i + 1));
        }
        i += 1;
    }
    None
}

/// The names of the outputs whose name is known, in order.
pub open spec fn names_of(outputs: Seq<u64>, names: Seq<OutputName>) -> Seq<Seq<char>>
    decreases outputs.len(),
{
    if outputs.len() == 0 {
        Seq::empty()
    } else {
        let rest = names_of(outputs.drop_last(), names);
        match name_of(names, outputs.last()) {
            Some(name) => rest.push(name),
            None => rest,
        }
    }
}

/// One toplevel as it stands.
#[derive(Debug)]
pub struct ToplevelSnapshot {
    pub id: String,
    pub title: String,
    pub app_id: String,
    pub activated: bool,
    pub minimized: bool,
    /// The names of the outputs it is on, in the order it entered them.
    pub outputs: Vec<String>,
}

/// The contents of a [`ToplevelSnapshot`].
#[verifier::ext_equal]
pub struct ToplevelView {
    pub id: Seq<char>,
    pub title: Seq<char>,
    pub app_id: Seq<char>,
    pub activated: bool,
    pub minimized: bool,
    pub outputs: Seq<Seq<char>>,
}

impl View for ToplevelSnapshot {
    type V = ToplevelView;

    open spec fn view(&self) -> ToplevelView {
        ToplevelView {
            id: self.id@,
            title: self.title@,
            app_id: self.app_id@,
            activated: self.activated,
            minimized: self.minimized,
            outputs: crate::strings::texts(self.outputs@),
        }
    }
}

/// The contents of each snapshot of a list.
pub open spec fn toplevels(list: Seq<ToplevelSnapshot>) -> Seq<ToplevelView> {
    Seq::new(list.len(), |i: int| list[i]@)
}

/// A toplevel as it stands, with the names of its outputs.
pub open spec fn snapshot_of(b: BuilderView, names: Seq<OutputName>) -> ToplevelView {
    ToplevelView {
        id: b.id,
        title: b.title,
        app_id: b.app_id,
        activated: b.activated,
        minimized: b.minimized,
        outputs: names_of(b.outputs, names),
    }
}

/// The toplevels that are fully announced and still open, in order.
pub open spec fn snapshots_of(list: Seq<BuilderView>, names: Seq<OutputName>) -> Seq<ToplevelView>
    decreases list.len(),
{
    if list.len() == 0 {
        Seq::empty()
    } else {
        let rest = snapshots_of(list.drop_last(), names);
        if list.last().done && !list.last().closed {
            rest.push(snapshot_of(list.last(), names))
        } else {
            rest
        }
    }
}

fn resolve_names(outputs: &Vec<u64>, names: &[OutputName]) -> (res: Vec<String>)
    ensures
        crate::strings::texts(res@) == names_of(outputs@, names@),
{
    let mut res: Vec<String> = Vec::new();
    let mut i: usize = 0;
    proof {
        assert(crate::strings::texts(res@) =~= names_of(outputs@.take(0), names@));
    }
    while i < outputs.len()
        invariant
            i <= outputs@.len(),
            crate::strings::texts(res@) == names_of(outputs@.take(i as int), names@),
        decreases outputs@.len() - i,
    {
        proof {
            assert(outputs@.take(i + 1).drop_last() =~= outputs@.take(i as int));
        }
        let ghost before = crate::strings::texts(res@);
        match find_name(names, outputs[i]) {
            Some(name) => {
                let ghost text = name@;
                res.push(name);
                proof {
                    assert(crate::strings::texts(res@) =~= before.push(text));
                }
            },
            None => {},
        }
        i += 1;
    }
    proof {
        assert(outputs@.take(i as int) =~= outputs@);
    }
    res
}

/// The toplevels that are fully announced and still open, with the names of their outputs.
pub fn collect_snapshot(list: &[ToplevelBuilder], names: &[OutputName]) -> (res: Vec<
    ToplevelSnapshot,
>)
    ensures
        toplevels(res@) == snapshots_of(builders(list@), names@),
{
    let mut res: Vec<ToplevelSnapshot> = Vec::new();
    let mut i: usize = 0;
    let ghost all = builders(list@);
    proof {
        assert(toplevels(res@) =~= snapshots_of(all.take(0), names@));
    }
    while i < list.len()
        invariant
            i <= list@.len(),
            all == builders(list@),
            toplevels(res@) == snapshots_of(all.take(i as int), names@),
        decreases list@.len() - i,
    {
        proof {
            assert(all.take(i + 1).drop_last() =~= all.take(i as int));
        }
        let b = &list[i];
        let ghost before = toplevels(res@);
        if b.done && !b.closed {
            let snapshot = ToplevelSnapshot {
                id: b.id.clone(),
                title: b.title.clone(),
                app_id: b.app_id.clone(),
                activated: b.activated,
                minimized: b.minimized,
                outputs: resolve_names(&b.outputs, names),
            };
            let ghost view = snapshot@;
            res.push(snapshot);
            proof {
                assert(view =~= snapshot_of(all[i as int], names@));
                assert(toplevels(res@) =~= before.push(view));
            }
        }
        i += 1;
    }
    proof {
        assert(all.take(i as int) =~= all);
    }
    res
}

/// The last activated toplevel of the list.
pub open spec fn last_activated(list: Seq<ToplevelView>) -> Option<ToplevelView>
    decreases list.len(),
{
    if list.len() == 0 {
        None
    } else if list.last().activated {
        Some(list.last())
    } else {
        last_activated(list.drop_last())
    }
}

/// The activated toplevel, the last one if there are several.
pub fn pick_activated(snapshot: &[ToplevelSnapshot]) -> (res: Option<&ToplevelSnapshot>)
    ensures
        match res {
            Some(t) => last_activated(toplevels(snapshot@)) == Some(t@),
            None => last_activated(toplevels(snapshot@)) is None,
        },
{
    let ghost all = toplevels(snapshot@);
    let mut n: usize = snapshot.len();
    proof {
        assert(all.take(n as int) =~= all);
    }
    while n > 0
        invariant
            n <= snapshot@.len(),
            all == toplevels(snapshot@),
            last_activated(all.take(n as int)) == last_activated(all),
        decreases n,
    {
        proof {
            assert(all.take(n as int).drop_last() =~= all.take(n - 1));
        }
        if snapshot[n - 1].activated {
            return Some(&snapshot[n - 1]);
        }
        n -= 1;
    }
    None
}

/// The first name of a list, if it has one.
pub open spec fn first_text(names: Seq<Seq<char>>) -> Option<Seq<char>> {
    if names.len() > 0 {
        Some(names[0])
    } else {
        None
    }
}

fn first_name(t: &ToplevelSnapshot) -> (res: Option<String>)
    ensures
        crate::strings::text_of(res) == first_text(t@.outputs),
{
    if t.outputs.len() > 0 {
        Some(t.outputs[0].clone())
    } else {
        None
    }
}

/// The output of the activated toplevel.
pub open spec fn focused_output_of(list: Seq<ToplevelView>) -> Option<Seq<char>> {
    match last_activated(list) {
        Some(t) => first_text(t.outputs),
        None => None,
    }
}

/// The name of the first output of the activated toplevel.
pub fn focused_output(snapshot: &[ToplevelSnapshot]) -> (res: Option<String>)
    ensures
        crate::strings::text_of(res) == focused_output_of(toplevels(snapshot@)),
{
    match pick_activated(snapshot) {
        Some(t) => first_name(t),
        None => None,
    }
}

/// The focused output, from what has been announced so far.
pub fn current_focused_output(list: &[ToplevelBuilder], names: &[OutputName]) -> (res: Option<
    String,
>)
    ensures
        crate::strings::text_of(res) == focused_output_of(snapshots_of(builders(list@), names@)),
{
    let snapshot = collect_snapshot(list, names);
    focused_output(snapshot.as_slice())
}

/// Tells whether the focused output has to be published: only when it is another one than was
/// published last.
pub fn focus_changed(last: &Option<String>, next: &Option<String>) -> (res: bool)
    ensures
        res == (crate::strings::text_of(*last) != crate::strings::text_of(*next)),
{
    !same_optional_text(last, next)
}

/// The first output of a toplevel, or no text.
pub open spec fn monitor_of(t: ToplevelView) -> Seq<char> {
    match first_text(t.outputs) {
        Some(name) => name,
        None => Seq::empty(),
    }
}

fn monitor_name(t: &ToplevelSnapshot) -> (res: String)
    ensures
        res@ == monitor_of(t@),
{
    match first_name(t) {
        Some(name) => name,
        None => String::new(),
    }
}

/// A toplevel as the active window. Its geometry is not known.
pub open spec fn active_of(t: ToplevelView) -> crate::wm::ActiveWindowView {
    crate::wm::ActiveWindowView {
        title: t.title,
        class: t.app_id,
        at: None,
        size: None,
        monitor: monitor_of(t),
    }
}

/// The activated toplevel as the active window. It has no known rectangle.
pub fn active_window(snapshot: &[ToplevelSnapshot]) -> (res: Option<ActiveWindow>)
    ensures
        match (res, last_activated(toplevels(snapshot@))) {
            (Some(w), Some(t)) => w@ == active_of(t),
            (None, None) => true,
            _ => false,
        },
{
    match pick_activated(snapshot) {
        Some(t) => Some(
            ActiveWindow {
                title: t.title.clone(),
                class: t.app_id.clone(),
                at: None,
                size: None,
                monitor: monitor_name(t),
            },
        ),
        None => None,
    }
}

/// A toplevel as an entry of the window list. It has no known rectangle and no workspace.
pub open spec fn window_of(t: ToplevelView) -> crate::wm::WmWindowView {
    crate::wm::WmWindowView {
        id: t.id,
        title: t.title,
        class: t.app_id,
        at: None,
        size: None,
        monitor: monitor_of(t),
        workspace_id: (-1int) as i64,
        mapped: true,
        hidden: t.minimized,
    }
}

/// The toplevels as a window list, in the order they were announced.
pub fn clients(snapshot: &[ToplevelSnapshot]) -> (res: Vec<WmWindow>)
    ensures
        res@.len() == snapshot@.len(),
        forall|i: int| 0 <= i < res@.len() ==> (#[trigger] res@[i])@ == window_of(snapshot@[i]@),
{
    let mut res: Vec<WmWindow> = Vec::new();
    let mut i: usize = 0;
    while i < snapshot.len()
        invariant
            i <= snapshot@.len(),
            res@.len() == i,
            forall|j: int| 0 <= j < i ==> (#[trigger] res@[j])@ == window_of(snapshot@[j]@),
        decreases snapshot@.len() - i,
    {
        let t = &snapshot[i];
        res.push(
            WmWindow {
                id: t.id.clone(),
                title: t.title.clone(),
                class: t.app_id.clone(),
                at: None,
                size: None,
                monitor: monitor_name(t),
                workspace_id: -1,
                mapped: true,
                hidden: t.minimized,
            },
        );
        i += 1;
    }
    res
}

// ---- the display socket --------------------------------------------------------------------
/// Why there is no display socket to report.
#[derive(Clone, Copy, Debug, PartialEq, Eq, Structural)]
pub enum DisplayPathError {
    NoRuntimeDir,
    NoDisplay,
}

impl DisplayPathError {
    pub open spec fn text(self) -> Seq<char> {
        match self {
            DisplayPathError::NoRuntimeDir =>
                "XDG_RUNTIME_DIR is not set; not running in a systemd/XDG-compliant session"@,
            DisplayPathError::NoDisplay =>
                "WAYLAND_DISPLAY is not set; snypr does not appear to be running under Wayland"@,
        }
    }

    /// The error in words.
    pub fn message(&self) -> (res: &'static str)
        ensures
            res@ == self.text(),
    {
        match self {
            DisplayPathError::NoRuntimeDir =>
                "XDG_RUNTIME_DIR is not set; not running in a systemd/XDG-compliant session",
            DisplayPathError::NoDisplay =>
                "WAYLAND_DISPLAY is not set; snypr does not appear to be running under Wayland",
        }
    }
}

/// The path of the Wayland display socket, from `$XDG_RUNTIME_DIR` and `$WAYLAND_DISPLAY`.
pub fn wayland_display_path(runtime_dir: Option<&str>, display: Option<&str>) -> (res: Result<
    String,
    DisplayPathError,
>)
    ensures
        match (runtime_dir, display) {
            (None, _) => res == Err::<String, _>(DisplayPathError::NoRuntimeDir),
            (Some(_), None) => res == Err::<String, _>(DisplayPathError::NoDisplay),
            (Some(dir), Some(name)) => res matches Ok(path) && path@ == crate::strings::joined(
                dir@,
                name@,
            ),
        },
{
    match (runtime_dir, display) {
        (None, _) => Err(DisplayPathError::NoRuntimeDir),
        (Some(_), None) => Err(DisplayPathError::NoDisplay),
        (Some(dir), Some(name)) => Ok(join_path(dir, name)),
    }
}

// ---- laws ----------------------------------------------------------------------------------
/// No point picks a toplevel: the protocol tells neither where it is nor how large.
pub proof fn a_toplevel_is_never_hit(w: WmWindow, t: ToplevelView, x: int, y: int)
    requires
        w@ == window_of(t),
    ensures
        !w.is_hit(x, y),
{
    crate::wm::unknown_geometry_is_never_hit(w, x, y);
}

/// What is announced stays announced, and what is closed stays closed.
pub proof fn a_closed_toplevel_stays_closed(b: BuilderView, event: ToplevelEvent)
    ensures
        b.done ==> after_event(b, event).done,
        b.closed ==> after_event(b, event).closed,
        after_event(b, event).handle == b.handle,
        after_event(b, event).id == b.id,
{
}

/// A toplevel that is closed, or of which the first batch of events is not complete, is as good
/// as not there.
pub proof fn only_open_toplevels_are_reported(
    list: Seq<BuilderView>,
    names: Seq<OutputName>,
    i: int,
)
    requires
        0 <= i < list.len(),
        list[i].closed || !list[i].done,
    ensures
        snapshots_of(list, names) == snapshots_of(list.remove(i), names),
    decreases list.len(),
{
    if i == list.len() - 1 {
        assert(list.remove(i) =~= list.drop_last());
    } else {
        only_open_toplevels_are_reported(list.drop_last(), names, i);
        assert(list.remove(i).drop_last() =~= list.drop_last().remove(i));
        assert(list.remove(i).last() == list.last());
    }
}

/// A toplevel that has left an output is no longer on it, and is still on the others.
pub proof fn a_left_output_is_gone(b: BuilderView, output: u64, other: u64)
    requires
        other != output,
    ensures
        !after_event(b, ToplevelEvent::OutputLeave(output)).outputs.contains(output),
        after_event(b, ToplevelEvent::OutputLeave(output)).outputs.contains(other)
            == b.outputs.contains(other),
{
    let kept = |o: u64| o != output;
    let left = b.outputs.filter(kept);
    if left.contains(other) {
        b.outputs.lemma_filter_contains_rev(kept, other);
    }
    if left.contains(output) {
        let i = choose|i: int| 0 <= i < left.len() && left[i] == output;
        b.outputs.lemma_filter_pred(kept, i);
    }
    if b.outputs.contains(other) {
        let i = choose|i: int| 0 <= i < b.outputs.len() && b.outputs[i] == other;
        b.outputs.lemma_filter_contains(kept, i);
    }
}

// ---- what is announced ---------------------------------------------------------------------
/// A state event says of a toplevel that it is activated, or minimized, exactly when one of its
/// whole words is that state.
pub proof fn a_state_event_says_what_its_words_are(raw: Seq<u8>)
    ensures
        states_in(raw).0 <==> exists|i: int|
            0 <= i && 4 * i + 4 <= raw.len() && state_of(
                native_word(#[trigger] chunk(raw, i)) as u32,
            ) == Some(ToplevelState::Activated),
        states_in(raw).1 <==> exists|i: int|
            0 <= i && 4 * i + 4 <= raw.len() && state_of(
                native_word(#[trigger] chunk(raw, i)) as u32,
            ) == Some(ToplevelState::Minimized),
{
    if states_in(raw).0 {
        let i = choose|i: int| 0 <= i < raw.len() / 4 && native_word(#[trigger] chunk(raw, i)) == 2;
        assert(4 * i + 4 <= raw.len());
    }
    if states_in(raw).1 {
        let i = choose|i: int| 0 <= i < raw.len() / 4 && native_word(#[trigger] chunk(raw, i)) == 1;
        assert(4 * i + 4 <= raw.len());
    }
}

/// Each event changes what it is about and nothing else: a title the title, an application id
/// the class, a state both flags, and an output that is entered is the last of the outputs.
pub proof fn an_event_changes_what_it_is_about(b: BuilderView, text: String, output: u64, on: bool, min: bool)
    ensures
        after_event(b, ToplevelEvent::Title(text)) == (BuilderView { title: text@, ..b }),
        after_event(b, ToplevelEvent::AppId(text)) == (BuilderView { app_id: text@, ..b }),
        after_event(b, ToplevelEvent::State { activated: on, minimized: min }) == (BuilderView {
            activated: on,
            minimized: min,
            ..b
        }),
        ({
            let after = after_event(b, ToplevelEvent::OutputEnter(output));
            &&& after == (BuilderView { outputs: after.outputs, ..b })
            &&& after.outputs.len() == b.outputs.len() + 1 && after.outputs.last() == output
            &&& forall|i: int| 0 <= i < b.outputs.len() ==> after.outputs[i] == b.outputs[i]
        }),
        after_event(b, ToplevelEvent::OutputLeave(output)) == (BuilderView {
            outputs: after_event(b, ToplevelEvent::OutputLeave(output)).outputs,
            ..b
        }),
        after_event(b, ToplevelEvent::Done) == (BuilderView { done: true, ..b }),
        after_event(b, ToplevelEvent::Closed) == (BuilderView { closed: true, ..b }),
        after_event(b, ToplevelEvent::Other) == b,
        ({
            let fresh = fresh_builder(b.handle, b.id);
            &&& fresh.handle == b.handle && fresh.id == b.id && !fresh.done && !fresh.closed
            &&& !fresh.activated && !fresh.minimized && fresh.outputs.len() == 0
            &&& fresh.title.len() == 0 && fresh.app_id.len() == 0
        }),
{
}

/// An event goes to the first toplevel that has its handle, and to no other.
pub proof fn an_event_goes_to_its_toplevel(
    list: Seq<BuilderView>,
    handle: u64,
    event: ToplevelEvent,
)
    ensures
        ({
            let after = after_toplevel_event(list, handle, event);
            &&& after.len() == list.len()
            &&& forall|i: int|
                #![trigger after[i]]
                0 <= i < list.len() ==> after[i] == (if list[i].handle == handle && forall|j: int|
                    0 <= j < i ==> (#[trigger] list[j]).handle != handle {
                    after_event(list[i], event)
                } else {
                    list[i]
                })
        }),
    decreases list.len(),
{
    if list.len() > 0 && list[0].handle != handle {
        let rest = list.skip(1);
        an_event_goes_to_its_toplevel(rest, handle, event);
        let after = after_toplevel_event(list, handle, event);
        let later = after_toplevel_event(rest, handle, event);
        assert(after =~= seq![list[0]] + later);
        assert forall|i: int| #![trigger after[i]] 0 <= i < list.len() implies after[i] == (
        if list[i].handle == handle && forall|j: int|
            0 <= j < i ==> (#[trigger] list[j]).handle != handle {
            after_event(list[i], event)
        } else {
            list[i]
        }) by {
            if i > 0 {
                assert(after[i] == later[i - 1]);
                assert(rest[i - 1] == list[i]);
                if forall|j: int| 0 <= j < i - 1 ==> (#[trigger] rest[j]).handle != handle {
                    assert forall|j: int| 0 <= j < i implies (#[trigger] list[j]).handle
                        != handle by {
                        if j > 0 {
                            assert(rest[j - 1] == list[j]);
                        }
                    }
                } else {
                    let j = choose|j: int| 0 <= j < i - 1 && (#[trigger] rest[j]).handle == handle;
                    assert(list[j + 1] == rest[j]);
                }
            }
        }
    } else if list.len() > 0 {
        let after = after_toplevel_event(list, handle, event);
        assert forall|i: int| #![trigger after[i]] 0 <= i < list.len() implies after[i] == (
        if list[i].handle == handle && forall|j: int|
            0 <= j < i ==> (#[trigger] list[j]).handle != handle {
            after_event(list[i], event)
        } else {
            list[i]
        }) by {
            if i > 0 {
                assert(list[0].handle == handle);
            }
        }
    }
}

/// Every toplevel that is open and complete is reported, as it was announced, after those that
/// were announced before it.
pub proof fn an_open_toplevel_is_reported(list: Seq<BuilderView>, names: Seq<OutputName>)
    requires
        list.len() > 0,
        list.last().done && !list.last().closed,
    ensures
        ({
            let (b, all) = (list.last(), snapshots_of(list, names));
            &&& all.len() > 0 && all.drop_last() == snapshots_of(list.drop_last(), names)
            &&& all.last().id == b.id && all.last().title == b.title && all.last().app_id == b.app_id
            &&& all.last().activated == b.activated && all.last().minimized == b.minimized
            &&& all.last().outputs == names_of(b.outputs, names)
        }),
{
    assert(snapshots_of(list, names).drop_last() =~= snapshots_of(list.drop_last(), names));
}

/// The name of an output is the one under its first entry, and an output without a name is left
/// out of the names of a toplevel's outputs, which keep their order.
pub proof fn outputs_are_named_in_order(outputs: Seq<u64>, output: u64, names: Seq<OutputName>)
    ensures
        names.len() > 0 && names[0].output == output ==> name_of(names, output)
            == crate::strings::text_of(names[0].name),
        names.len() > 0 && names[0].output != output ==> name_of(names, output) == name_of(
            names.skip(1),
            output,
        ),
        names.len() == 0 ==> name_of(names, output) is None,
        names_of(outputs.push(output), names) == (match name_of(names, output) {
            Some(name) => names_of(outputs, names).push(name),
            None => names_of(outputs, names),
        }),
        names_of(Seq::empty(), names).len() == 0,
{
    assert(outputs.push(output).drop_last() =~= outputs);
}

/// The toplevel that has the focus is the last one that says that it is activated. The focused
/// output is the first one that it is on.
pub proof fn the_last_activated_toplevel_has_the_focus(list: Seq<ToplevelView>)
    ensures
        match last_activated(list) {
            Some(t) => exists|i: int|
                0 <= i < list.len() && #[trigger] list[i] == t && t.activated && forall|j: int|
                    i < j < list.len() ==> !(#[trigger] list[j]).activated,
            None => forall|j: int| 0 <= j < list.len() ==> !(#[trigger] list[j]).activated,
        },
        match last_activated(list) {
            Some(t) => {
                &&& focused_output_of(list) == (if t.outputs.len() > 0 {
                    Some(t.outputs[0])
                } else {
                    None
                })
                &&& active_of(t).title == t.title && active_of(t).class == t.app_id
                &&& active_of(t).at is None && active_of(t).size is None
                &&& t.outputs.len() > 0 ==> active_of(t).monitor == t.outputs[0]
                &&& window_of(t).title == t.title && window_of(t).class == t.app_id && window_of(
                    t,
                ).id == t.id && window_of(t).monitor == active_of(t).monitor
                &&& window_of(t).mapped && window_of(t).hidden == t.minimized
            },
            None => focused_output_of(list) is None,
        },
    decreases list.len(),
{
    if list.len() > 0 && !list.last().activated {
        let before = list.drop_last();
        the_last_activated_toplevel_has_the_focus(before);
        assert forall|j: int| 0 <= j < before.len() implies #[trigger] list[j] == before[j] by {}
        if let Some(t) = last_activated(before) {
            let i = choose|i: int|
                0 <= i < before.len() && #[trigger] before[i] == t && t.activated && forall|j: int|
                    i < j < before.len() ==> !(#[trigger] before[j]).activated;
            assert(list[i] == t);
        }
    } else if list.len() > 0 {
        assert(list[list.len() - 1] == list.last());
    }
}

/// The words of a state event follow one another, four bytes each.
pub proof fn words_follow_one_another(raw: Seq<u8>, i: int, j: int)
    requires
        0 <= i,
        4 * i + 4 <= raw.len(),
        0 <= j < 4,
    ensures
        chunk(raw, i).len() == 4,
        chunk(raw, i)[j] == raw[4 * i + j],
{
}

} // verus!
