//! Following the focus: what is done next while the events of a backend are read.
//!
//! The program around the library connects, reads and sends. It reports each outcome and gets
//! back the next thing to do.

use vstd::prelude::*;

use crate::strings::trim_end;
use crate::wm::foreign_toplevel::focus_changed;
use crate::wm::hyprland::parse_focused_monitor_event;

verus! {

use crate::strings::{text_of, trimmed_end};
use crate::wm::hyprland::focused_monitor_in;

// ---- backends with a socket ----------------------------------------------------------------
/// A backend that sends its events over a socket.
#[derive(Clone, Copy, Debug, PartialEq, Eq, Structural)]
pub enum SocketBackend {
    Hyprland,
    Sway,
    Niri,
}

/// How an action of the subscription ended.
#[derive(Debug)]
pub enum SocketEvent {
    /// It succeeded.
    Done,
    /// It failed.
    Failed,
    /// The other side has closed the socket.
    Closed,
    /// An event was read. Where events are not lines of text, the text is empty.
    Event(String),
    /// The focused output was asked for, and this is its name, if it could be had.
    Focused(Option<String>),
}

/// The contents of a [`SocketEvent`].
pub enum SocketEventView {
    Done,
    Failed,
    Closed,
    Event(Seq<char>),
    Focused(Option<Seq<char>>),
}

impl View for SocketEvent {
    type V = SocketEventView;

    open spec fn view(&self) -> SocketEventView {
        match *self {
            SocketEvent::Done => SocketEventView::Done,
            SocketEvent::Failed => SocketEventView::Failed,
            SocketEvent::Closed => SocketEventView::Closed,
            SocketEvent::Event(text) => SocketEventView::Event(text@),
            SocketEvent::Focused(name) => SocketEventView::Focused(text_of(name)),
        }
    }
}

/// What the subscription does next.
#[derive(Debug)]
pub enum SocketAction {
    /// Find out where the socket is.
    Locate,
    Connect,
    /// Ask for events.
    Subscribe,
    /// Read the answer to that.
    ReadAck,
    /// Read the next event.
    ReadEvent,
    /// Ask for the focused output.
    Query,
    /// Tell the receivers the focused output.
    Publish(String),
    Stop,
}

/// The contents of a [`SocketAction`].
pub enum SocketActionView {
    Locate,
    Connect,
    Subscribe,
    ReadAck,
    ReadEvent,
    Query,
    Publish(Seq<char>),
    Stop,
}

impl View for SocketAction {
    type V = SocketActionView;

    open spec fn view(&self) -> SocketActionView {
        match *self {
            SocketAction::Locate => SocketActionView::Locate,
            SocketAction::Connect => SocketActionView::Connect,
            SocketAction::Subscribe => SocketActionView::Subscribe,
            SocketAction::ReadAck => SocketActionView::ReadAck,
            SocketAction::ReadEvent => SocketActionView::ReadEvent,
            SocketAction::Query => SocketActionView::Query,
            SocketAction::Publish(name) => SocketActionView::Publish(name@),
            SocketAction::Stop => SocketActionView::Stop,
        }
    }
}

/// What follows an action of the subscription. Hyprland sends its events unasked, and each
/// names the focused monitor or is of no interest; the other backends are asked for events, and
/// after each of them for the focused output. A failure ends the subscription, except that of a
/// question for the focused output.
pub open spec fn socket_action_after(
    backend: SocketBackend,
    action: SocketActionView,
    event: SocketEventView,
) -> SocketActionView {
    match (action, event) {
        (SocketActionView::Locate, SocketEventView::Done) => SocketActionView::Connect,
        (SocketActionView::Connect, SocketEventView::Done) => if backend == SocketBackend::Hyprland {
            SocketActionView::ReadEvent
        } else {
            SocketActionView::Subscribe
        },
        (SocketActionView::Subscribe, SocketEventView::Done) => SocketActionView::ReadAck,
        (SocketActionView::ReadAck, SocketEventView::Done) => SocketActionView::ReadEvent,
        (SocketActionView::ReadEvent, SocketEventView::Event(text)) => if backend
            == SocketBackend::Hyprland {
            match focused_monitor_in(trimmed_end(text)) {
                Some(name) => SocketActionView::Publish(name),
                None => SocketActionView::ReadEvent,
            }
        } else {
            SocketActionView::Query
        },
        (SocketActionView::Query, SocketEventView::Focused(Some(name))) =>
            SocketActionView::Publish(name),
        (SocketActionView::Query, _) => SocketActionView::ReadEvent,
        (SocketActionView::Publish(_), SocketEventView::Done) => SocketActionView::ReadEvent,
        _ => SocketActionView::Stop,
    }
}

/// What the subscription does next.
pub fn next_socket_action(
    backend: SocketBackend,
    action: &SocketAction,
    event: SocketEvent,
) -> (res: SocketAction)
    ensures
        res@ == socket_action_after(backend, action@, event@),
{
    match (action, event) {
        (SocketAction::Locate, SocketEvent::Done) => SocketAction::Connect,
        (SocketAction::Connect, SocketEvent::Done) => {
            if backend == SocketBackend::Hyprland {
                SocketAction::ReadEvent
            } else {
                SocketAction::Subscribe
            }
        },
        (SocketAction::Subscribe, SocketEvent::Done) => SocketAction::ReadAck,
        (SocketAction::ReadAck, SocketEvent::Done) => SocketAction::ReadEvent,
        (SocketAction::ReadEvent, SocketEvent::Event(text)) => {
            if backend == SocketBackend::Hyprland {
                match parse_focused_monitor_event(trim_end(text.as_str())) {
                    Some(name) => SocketAction::Publish(name.to_owned()),
                    None => SocketAction::ReadEvent,
                }
            } else {
                SocketAction::Query
            }
        },
        (SocketAction::Query, SocketEvent::Focused(Some(name))) => SocketAction::Publish(name),
        (SocketAction::Query, _) => SocketAction::ReadEvent,
        (SocketAction::Publish(_), SocketEvent::Done) => SocketAction::ReadEvent,
        _ => SocketAction::Stop,
    }
}

// ---- the toplevel protocol -----------------------------------------------------------------
/// How an action of the toplevel subscription ended.
#[derive(Debug)]
pub enum ToplevelOutcome {
    /// It succeeded.
    Done,
    /// It failed.
    Failed,
    /// Events are waiting to be dispatched, so nothing can be read now.
    Pending,
    /// The events were dispatched, and this output is focused now.
    Dispatched(Option<String>),
}

/// The contents of a [`ToplevelOutcome`].
pub enum ToplevelOutcomeView {
    Done,
    Failed,
    Pending,
    Dispatched(Option<Seq<char>>),
}

impl View for ToplevelOutcome {
    type V = ToplevelOutcomeView;

    open spec fn view(&self) -> ToplevelOutcomeView {
        match *self {
            ToplevelOutcome::Done => ToplevelOutcomeView::Done,
            ToplevelOutcome::Failed => ToplevelOutcomeView::Failed,
            ToplevelOutcome::Pending => ToplevelOutcomeView::Pending,
            ToplevelOutcome::Dispatched(name) => ToplevelOutcomeView::Dispatched(text_of(name)),
        }
    }
}

/// What the toplevel subscription does next.
#[derive(Clone, Copy, Debug, PartialEq, Eq, Structural)]
pub enum ToplevelAction {
    Connect,
    /// Take in the toplevels that are there already.
    Settle,
    /// Find out which descriptor to wait for.
    FindDescriptor,
    /// Dispatch what is in the way of that.
    DispatchFirst,
    /// Find out which descriptor to wait for, once more.
    FindDescriptorAgain,
    /// Have the descriptor watched, and look up the focused output.
    Watch,
    /// Tell the receivers the focused output.
    Publish,
    Flush,
    /// Prepare to read.
    Prepare,
    /// Wait until the descriptor can be read.
    Wait,
    Read,
    /// Dispatch what was read, and look up the focused output.
    Dispatch,
    Stop,
}

/// The toplevel subscription: what it does, and the focused output that the receivers know.
#[derive(Debug)]
pub struct ToplevelPump {
    pub action: ToplevelAction,
    pub last: Option<String>,
}

/// What follows an action of the toplevel subscription, and the output that the receivers are
/// to know. Only another output than they know is published; a failure ends the subscription.
pub open spec fn toplevel_action_after(
    action: ToplevelAction,
    last: Option<Seq<char>>,
    outcome: ToplevelOutcomeView,
) -> (ToplevelAction, Option<Seq<char>>) {
    match (action, outcome) {
        (ToplevelAction::Connect, ToplevelOutcomeView::Done) => (ToplevelAction::Settle, last),
        (ToplevelAction::Settle, ToplevelOutcomeView::Done) => (
            ToplevelAction::FindDescriptor,
            last,
        ),
        (ToplevelAction::FindDescriptor, ToplevelOutcomeView::Done) => (
            ToplevelAction::Watch,
            last,
        ),
        (ToplevelAction::FindDescriptor, ToplevelOutcomeView::Pending) => (
            ToplevelAction::DispatchFirst,
            last,
        ),
        (ToplevelAction::DispatchFirst, ToplevelOutcomeView::Dispatched(_)) => (
            ToplevelAction::FindDescriptorAgain,
            last,
        ),
        (ToplevelAction::FindDescriptorAgain, ToplevelOutcomeView::Done) => (
            ToplevelAction::Watch,
            last,
        ),
        (ToplevelAction::Watch, ToplevelOutcomeView::Dispatched(focused)) => (
            ToplevelAction::Publish,
            focused,
        ),
        (ToplevelAction::Publish, ToplevelOutcomeView::Done) => (ToplevelAction::Flush, last),
        (ToplevelAction::Flush, ToplevelOutcomeView::Done) => (ToplevelAction::Prepare, last),
        (ToplevelAction::Prepare, ToplevelOutcomeView::Done) => (ToplevelAction::Wait, last),
        (ToplevelAction::Prepare, ToplevelOutcomeView::Pending) => (
            ToplevelAction::Dispatch,
            last,
        ),
        (ToplevelAction::Wait, ToplevelOutcomeView::Done) => (ToplevelAction::Read, last),
        (ToplevelAction::Read, ToplevelOutcomeView::Done) => (ToplevelAction::Dispatch, last),
        (ToplevelAction::Dispatch, ToplevelOutcomeView::Dispatched(focused)) => if focused
            == last {
            (ToplevelAction::Flush, last)
        } else {
            (ToplevelAction::Publish, focused)
        },
        _ => (ToplevelAction::Stop, last),
    }
}

impl ToplevelPump {
    /// The subscription before it has done anything.
    pub fn new() -> (res: ToplevelPump)
        ensures
            res.action == ToplevelAction::Connect,
            res.last is None,
    {
        ToplevelPump { action: ToplevelAction::Connect, last: None }
    }

    /// The action has ended. The next one is what the subscription does now.
    pub fn advance(&mut self, outcome: ToplevelOutcome)
        ensures
            (final(self).action, text_of(final(self).last)) == toplevel_action_after(
                old(self).action,
                text_of(old(self).last),
                outcome@,
            ),
    {
        let next = match (self.action, outcome) {
            (ToplevelAction::Connect, ToplevelOutcome::Done) => ToplevelAction::Settle,
            (ToplevelAction::Settle, ToplevelOutcome::Done) => ToplevelAction::FindDescriptor,
            (ToplevelAction::FindDescriptor, ToplevelOutcome::Done) => ToplevelAction::Watch,
            (ToplevelAction::FindDescriptor, ToplevelOutcome::Pending) =>
                ToplevelAction::DispatchFirst,
            (ToplevelAction::DispatchFirst, ToplevelOutcome::Dispatched(_)) =>
                ToplevelAction::FindDescriptorAgain,
            (ToplevelAction::FindDescriptorAgain, ToplevelOutcome::Done) => ToplevelAction::Watch,
            (ToplevelAction::Watch, ToplevelOutcome::Dispatched(focused)) => {
                self.last = focused;
                ToplevelAction::Publish
            },
            (ToplevelAction::Publish, ToplevelOutcome::Done) => ToplevelAction::Flush,
            (ToplevelAction::Flush, ToplevelOutcome::Done) => ToplevelAction::Prepare,
            (ToplevelAction::Prepare, ToplevelOutcome::Done) => ToplevelAction::Wait,
            (ToplevelAction::Prepare, ToplevelOutcome::Pending) => ToplevelAction::Dispatch,
            (ToplevelAction::Wait, ToplevelOutcome::Done) => ToplevelAction::Read,
            (ToplevelAction::Read, ToplevelOutcome::Done) => ToplevelAction::Dispatch,
            (ToplevelAction::Dispatch, ToplevelOutcome::Dispatched(focused)) => {
                if focus_changed(&self.last, &focused) {
                    self.last = focused;
                    ToplevelAction::Publish
                } else {
                    ToplevelAction::Flush
                }
            },
            _ => ToplevelAction::Stop,
        };
        self.action = next;
    }
}

// ---- laws ----------------------------------------------------------------------------------
/// A subscription that has stopped does nothing any more.
pub proof fn a_stopped_subscription_stays_stopped(
    backend: SocketBackend,
    event: SocketEventView,
    last: Option<Seq<char>>,
    outcome: ToplevelOutcomeView,
)
    ensures
        socket_action_after(backend, SocketActionView::Stop, event) == SocketActionView::Stop,
        toplevel_action_after(ToplevelAction::Stop, last, outcome) == (ToplevelAction::Stop, last),
{
}

/// After the first one, the toplevel subscription publishes only outputs that the receivers do
/// not know yet.
pub proof fn nothing_is_published_twice(
    action: ToplevelAction,
    last: Option<Seq<char>>,
    outcome: ToplevelOutcomeView,
)
    requires
        action != ToplevelAction::Watch,
        toplevel_action_after(action, last, outcome).0 == ToplevelAction::Publish,
    ensures
        toplevel_action_after(action, last, outcome).1 != last,
        outcome == ToplevelOutcomeView::Dispatched(toplevel_action_after(action, last, outcome).1),
{
}

/// Receivers that are gone end every subscription.
pub proof fn no_receivers_end_the_subscription(
    backend: SocketBackend,
    name: Seq<char>,
    last: Option<Seq<char>>,
)
    ensures
        socket_action_after(backend, SocketActionView::Publish(name), SocketEventView::Failed)
            == SocketActionView::Stop,
        toplevel_action_after(ToplevelAction::Publish, last, ToplevelOutcomeView::Failed).0
            == ToplevelAction::Stop,
{
}

// ---- what is published ---------------------------------------------------------------------
/// Only a focused output is published: the one that an event of Hyprland names, or the one that
/// was just asked for.
pub proof fn only_a_focused_output_is_published(
    backend: SocketBackend,
    action: SocketActionView,
    event: SocketEventView,
    name: Seq<char>,
)
    requires
        socket_action_after(backend, action, event) == SocketActionView::Publish(name),
    ensures
        ({
            ||| action is Query && event == SocketEventView::Focused(Some(name))
            ||| backend == SocketBackend::Hyprland && action is ReadEvent && (event matches
                SocketEventView::Event(text) && focused_monitor_in(trimmed_end(text)) == Some(name))
        }),
{
}

/// A subscription locates its socket, connects, and then reads events for as long as it lasts;
/// Sway and Niri have to be asked for events first, and answer that. Every event that may mean
/// another focus leads to a question, or with Hyprland to the name in it, and what is published
/// is followed by the next event. A question that fails is no reason to stop.
pub proof fn a_subscription_goes_on_reading(backend: SocketBackend, text: Seq<char>, name: Seq<char>)
    ensures
        ({
            let next = |action: SocketActionView, event: SocketEventView|
                socket_action_after(backend, action, event);
            let done = SocketEventView::Done;
            let asked = backend != SocketBackend::Hyprland;
            &&& next(SocketActionView::Locate, done) is Connect
            &&& asked ==> next(SocketActionView::Connect, done) is Subscribe
            &&& !asked ==> next(SocketActionView::Connect, done) is ReadEvent
            &&& next(SocketActionView::Subscribe, done) is ReadAck
            &&& next(SocketActionView::ReadAck, done) is ReadEvent
            &&& asked ==> next(
                SocketActionView::ReadEvent,
                SocketEventView::Event(text),
            ) is Query
            &&& !asked ==> match focused_monitor_in(trimmed_end(text)) {
                Some(n) => next(SocketActionView::ReadEvent, SocketEventView::Event(text))
                    == SocketActionView::Publish(n),
                None => next(
                    SocketActionView::ReadEvent,
                    SocketEventView::Event(text),
                ) is ReadEvent,
            }
            &&& next(SocketActionView::Query, SocketEventView::Focused(Some(name)))
                == SocketActionView::Publish(name)
            &&& next(SocketActionView::Query, SocketEventView::Focused(None)) is ReadEvent
            &&& next(SocketActionView::Query, SocketEventView::Failed) is ReadEvent
            &&& next(SocketActionView::Publish(name), done) is ReadEvent
            &&& next(SocketActionView::ReadEvent, SocketEventView::Closed) is Stop
            &&& next(SocketActionView::ReadEvent, SocketEventView::Failed) is Stop
            &&& next(SocketActionView::Connect, SocketEventView::Failed) is Stop
            &&& next(SocketActionView::Locate, SocketEventView::Failed) is Stop
        }),
{
}

/// The pump of toplevels publishes the output that is focused at the start, and then every time
/// that another one is. What it has published last is what it remembers.
pub proof fn the_pump_publishes_every_change(
    last: Option<Seq<char>>,
    focused: Option<Seq<char>>,
    outcome: ToplevelOutcomeView,
    action: ToplevelAction,
)
    ensures
        toplevel_action_after(
            ToplevelAction::Watch,
            last,
            ToplevelOutcomeView::Dispatched(focused),
        ) == (ToplevelAction::Publish, focused),
        toplevel_action_after(
            ToplevelAction::Dispatch,
            last,
            ToplevelOutcomeView::Dispatched(focused),
        ) == (if focused != last {
            (ToplevelAction::Publish, focused)
        } else {
            (ToplevelAction::Flush, last)
        }),
        toplevel_action_after(ToplevelAction::Publish, last, ToplevelOutcomeView::Done).0
            == ToplevelAction::Flush,
        toplevel_action_after(ToplevelAction::Flush, last, ToplevelOutcomeView::Done).0
            == ToplevelAction::Prepare,
        toplevel_action_after(ToplevelAction::Prepare, last, ToplevelOutcomeView::Done).0
            == ToplevelAction::Wait,
        toplevel_action_after(ToplevelAction::Prepare, last, ToplevelOutcomeView::Pending).0
            == ToplevelAction::Dispatch,
        toplevel_action_after(ToplevelAction::Wait, last, ToplevelOutcomeView::Done).0
            == ToplevelAction::Read,
        toplevel_action_after(ToplevelAction::Read, last, ToplevelOutcomeView::Done).0
            == ToplevelAction::Dispatch,
        toplevel_action_after(action, last, outcome).0 != ToplevelAction::Publish
            ==> toplevel_action_after(action, last, outcome).1 == last,
        outcome is Failed ==> toplevel_action_after(action, last, outcome).0 == ToplevelAction::Stop,
{
}

} // verus!
