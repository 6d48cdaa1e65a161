//! Inbound dispatch: what happens to the streams that arrive on one
//! accepted connection.
//!
//! One message is one complete stream. The transport accepts and reads the
//! streams; the rules here say which of them reach the handler and when
//! the accept loop of a connection ends.
//!
//! The policy on failures is deliberate: a stream that cannot be read to
//! its end ends the accept loop of its connection, just as a failure to
//! accept a stream does. The streams of other connections are not
//! affected.

use vstd::prelude::*;

use crate::identity::PublicKey;

verus! {

/// The protocol tag under which tunnels connect and accept.
pub const ALPN: &'static str = "brasonite/tunnel/v1";

/// Receives the messages that arrive on a tunnel.
///
/// `process_incoming_data` is called once for every message that was read
/// to its end, with the address of the peer that sent it. It may be called
/// from several connections at once.
pub trait DataHandler {
    fn process_incoming_data(&self, sender: PublicKey, data: Vec<u8>);
}

/// What the transport reports of the next incoming stream of a connection.
#[derive(Debug, PartialEq, Eq)]
pub enum StreamEvent {
    /// A stream was accepted and read to its end; these are its bytes.
    Message(Vec<u8>),
    /// A stream was accepted, but reading it failed.
    ReadFailed,
    /// No stream could be accepted: the connection is closed or broken.
    AcceptFailed,
}

/// Why the accept loop of a connection ended.
#[derive(Clone, Copy, Debug, PartialEq, Eq, Structural)]
pub enum StopReason {
    /// No further stream could be accepted.
    ConnectionClosed,
    /// A stream could not be read to its end.
    ReadError,
}

/// What is done about one stream event.
#[derive(Clone, Copy, Debug, PartialEq, Eq, Structural)]
pub enum DispatchAction {
    /// The message goes to the handler; the loop goes on.
    Deliver,
    /// No handler is registered: the message is dropped; the loop goes on.
    Discard,
    /// The loop ends.
    Stop(StopReason),
}

/// What is to be done about one stream event, with the values to do it
/// with.
#[derive(Debug, PartialEq, Eq)]
pub enum Dispatch {
    /// Hand `data` to the handler as a message from `sender`.
    Deliver { sender: PublicKey, data: Vec<u8> },
    /// Drop the message.
    Discard,
    /// End the loop.
    Stop(StopReason),
}

/// The outcome of one run of the accept loop.
#[derive(Clone, Copy, Debug, PartialEq, Eq, Structural)]
pub struct AcceptReport {
    /// How many streams were read to their end before the loop ended.
    pub completed: usize,
    /// How many messages were handed to the handler.
    pub delivered: usize,
    /// Why the loop ended, or `None` if the events ran out first.
    pub stop: Option<StopReason>,
}

/// Whether `event` carries a complete message.
pub open spec fn is_message(event: StreamEvent) -> bool {
    event is Message
}

/// The action that `event` calls for, with or without a handler.
pub open spec fn action_for(has_handler: bool, event: StreamEvent) -> DispatchAction {
    match event {
        StreamEvent::Message(_) => if has_handler {
            DispatchAction::Deliver
        } else {
            DispatchAction::Discard
        },
        StreamEvent::ReadFailed => DispatchAction::Stop(StopReason::ReadError),
        StreamEvent::AcceptFailed => DispatchAction::Stop(StopReason::ConnectionClosed),
    }
}

/// What `event`, arriving on the connection to `remote`, calls for: a
/// message goes to the handler whole, as a message from `remote`.
pub open spec fn dispatch_for(has_handler: bool, remote: PublicKey, event: StreamEvent) -> Dispatch {
    match event {
        StreamEvent::Message(data) => if has_handler {
            Dispatch::Deliver { sender: remote, data }
        } else {
            Dispatch::Discard
        },
        StreamEvent::ReadFailed => Dispatch::Stop(StopReason::ReadError),
        StreamEvent::AcceptFailed => Dispatch::Stop(StopReason::ConnectionClosed),
    }
}

/// A dispatch without the values it carries.
pub open spec fn action_of(dispatch: Dispatch) -> DispatchAction {
    match dispatch {
        Dispatch::Deliver { .. } => DispatchAction::Deliver,
        Dispatch::Discard => DispatchAction::Discard,
        Dispatch::Stop(reason) => DispatchAction::Stop(reason),
    }
}

/// Whether `report` is what the accept loop gives on `events`: every
/// stream before the first failure is completed, and delivered if there
/// is a handler; the first failure ends the loop and nothing after it is
/// looked at.
pub open spec fn reports(report: AcceptReport, has_handler: bool, events: Seq<StreamEvent>) -> bool {
    &&& report.completed <= events.len()
    &&& forall|i: int| 0 <= i < report.completed ==> is_message(#[trigger] events[i])
    &&& report.delivered == (if has_handler {
        report.completed
    } else {
        0
    })
    &&& report.completed == events.len() ==> report.stop.is_none()
    &&& report.completed < events.len() ==> action_for(
        has_handler,
        events[report.completed as int],
    ) == DispatchAction::Stop(report.stop.unwrap()) && report.stop.is_some()
}

/// The inbound side of a tunnel: the handler, if one is registered, and
/// the rules by which streams reach it.
pub struct TunnelProtocol<H: DataHandler> {
    pub handler: Option<H>,
}

impl<H: DataHandler> TunnelProtocol<H> {
    /// A protocol without a handler: connections are accepted and their
    /// messages dropped.
    pub fn new() -> (protocol: Self)
        ensures
            protocol.handler.is_none(),
    {
        TunnelProtocol { handler: None }
    }

    /// The same protocol with `handler` registered.
    pub fn with_handler(self, handler: H) -> (protocol: Self)
        ensures
            protocol.handler == Some(handler),
    {
        TunnelProtocol { handler: Some(handler) }
    }

    /// Decides what `event`, arriving on the connection to `remote`,
    /// calls for.
    pub fn plan(&self, remote: PublicKey, event: StreamEvent) -> (dispatch: Dispatch)
        ensures
            dispatch == dispatch_for(self.handler.is_some(), remote, event),
    {
        match event {
            StreamEvent::Message(data) => {
                if self.handler.is_some() {
                    Dispatch::Deliver { sender: remote, data }
                } else {
                    Dispatch::Discard
                }
            },
            StreamEvent::ReadFailed => Dispatch::Stop(StopReason::ReadError),
            StreamEvent::AcceptFailed => Dispatch::Stop(StopReason::ConnectionClosed),
        }
    }

    /// Handles one stream event of the connection to `remote`: where the
    /// plan is to deliver, the handler is called once, with the sender and
    /// the bytes of the plan. Returns what was done.
    pub fn accept_stream(&self, remote: PublicKey, event: StreamEvent) -> (action: DispatchAction)
        ensures
            action == action_for(self.handler.is_some(), event),
            action == action_of(dispatch_for(self.handler.is_some(), remote, event)),
    {
        match self.plan(remote, event) {
            Dispatch::Deliver { sender, data } => {
                match &self.handler {
                    Some(handler) => {
                        handler.process_incoming_data(sender, data);
                    },
                    None => {},
                }
                DispatchAction::Deliver
            },
            Dispatch::Discard => DispatchAction::Discard,
            Dispatch::Stop(reason) => DispatchAction::Stop(reason),
        }
    }

    /// Runs the accept loop of the connection to `remote` over `events`,
    /// in order, up to the first event that ends it.
    pub fn accept(&self, remote: PublicKey, events: Vec<StreamEvent>) -> (report: AcceptReport)
        ensures
            reports(report, self.handler.is_some(), events@),
    {
        let mut delivered: usize = 0;
        let mut i: usize = 0;
        while i < events.len()
            invariant
                i <= events.len(),
                forall|j: int| 0 <= j < i ==> is_message(#[trigger] events@[j]),
                delivered == (if self.handler.is_some() {
                    i
                } else {
                    0
                }),
            decreases events.len() - i,
        {
            let event = match &events[i] {
                StreamEvent::Message(data) => StreamEvent::Message(data.clone()),
                StreamEvent::ReadFailed => StreamEvent::ReadFailed,
                StreamEvent::AcceptFailed => StreamEvent::AcceptFailed,
            };
            match self.accept_stream(remote, event) {
                DispatchAction::Deliver => {
                    delivered = delivered + 1;
                },
                DispatchAction::Discard => {},
                DispatchAction::Stop(reason) => {
                    return AcceptReport { completed: i, delivered, stop: Some(reason) };
                },
            }
            i = i + 1;
        }
        AcceptReport { completed: i, delivered, stop: None }
    }
}

/// The accept loop ends on a failure and on nothing else, and whether a
/// handler is registered changes only what becomes of a message.
pub proof fn lemma_only_failures_stop(has_handler: bool, event: StreamEvent)
    ensures
        is_message(event) <==> !(action_for(has_handler, event) is Stop),
        is_message(event) ==> (action_for(has_handler, event) == DispatchAction::Deliver
            <==> has_handler),
        action_for(has_handler, event) is Stop ==> action_for(has_handler, event) == action_for(
            !has_handler,
            event,
        ),
{
}

/// A stream that was read to its end reaches a registered handler as it
/// came: with the address of the peer of its connection and with its
/// bytes, an empty stream as an empty message.
pub proof fn lemma_message_is_delivered_whole(remote: PublicKey, data: Vec<u8>)
    ensures
        dispatch_for(true, remote, StreamEvent::Message(data)) == (Dispatch::Deliver {
            sender: remote,
            data,
        }),
        dispatch_for(false, remote, StreamEvent::Message(data)) == Dispatch::Discard,
{
}

/// Only one report fits a run of the accept loop.
pub proof fn lemma_report_is_unique(
    first: AcceptReport,
    second: AcceptReport,
    has_handler: bool,
    events: Seq<StreamEvent>,
)
    requires
        reports(first, has_handler, events),
        reports(second, has_handler, events),
    ensures
        first == second,
{
    if first.completed < second.completed {
        assert(is_message(events[first.completed as int]));
    }
    if second.completed < first.completed {
        assert(is_message(events[second.completed as int]));
    }
}

} // verus!
