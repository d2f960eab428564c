//! What passes between the network task and the user interface: the actions
//! a user asks for, the events the task reports, and what the task hands to
//! its socket in between.

use crate::address::SocketAddress;
use crate::connection::{Peer, PeerView, UserMessage};
use crate::message::{Message, MessageError, MessageView};
use vstd::prelude::*;

verus! {

/// The depth of each of the two queues between the user interface and the
/// network task.
pub const CHANNEL_SIZE: usize = 100;

/// The default port of the protocol.
pub const PORT: u16 = 12345;

/// What can go wrong in the network task.
#[derive(Debug, PartialEq, Eq)]
pub enum NetworkError {
    /// The task has ended: its queue is closed.
    TaskClosed,
    /// The task's thread panicked.
    TaskPanic,
    /// The socket could not be bound, for the reason given. The task ends.
    SocketBindError(String),
    /// A socket operation failed, for the reason given.
    SocketError(String),
    /// A datagram is no message.
    MessageError(MessageError),
    /// The primary local address was not found, for the reason given.
    LocalIpNotFound(String),
    /// The network interfaces could not be listed, for the reason given.
    InternetInterfaceError(String),
    /// No interface gives a broadcast address for the primary local address.
    BroadcastAddressNotFound,
    /// A packet from the given peer does not fit the state of its exchange.
    IncorrectMessage(SocketAddress),
}

/// What the task reports to the user interface.
#[derive(Debug, PartialEq, Eq)]
pub enum Event {
    /// Something went wrong.
    Error(NetworkError),
    /// A peer announced itself.
    Connected(Peer),
    /// The peer at the given address left.
    Disconnected(SocketAddress),
    /// The peer at the given address sent the given text.
    Message(SocketAddress, String),
}

/// An event as a mathematical value.
pub enum EventView {
    Error(NetworkError),
    Connected(PeerView),
    Disconnected(SocketAddress),
    Message(SocketAddress, Seq<char>),
}

impl View for Event {
    type V = EventView;

    open spec fn view(&self) -> EventView {
        match self {
            Event::Error(e) => EventView::Error(*e),
            Event::Connected(peer) => EventView::Connected(peer@),
            Event::Disconnected(addr) => EventView::Disconnected(*addr),
            Event::Message(addr, text) => EventView::Message(*addr, text@),
        }
    }
}

/// What a user asks of the task.
#[derive(Debug, PartialEq, Eq)]
pub enum Action {
    /// Announce this host to the network.
    Broadcast,
    /// Announce that this host leaves, and stop.
    Disconnect,
    /// Offer the two messages to the peer at the given address.
    Send(SocketAddress, UserMessage, UserMessage),
}

/// An action as a mathematical value.
pub enum ActionView {
    Broadcast,
    Disconnect,
    Send(SocketAddress, Seq<char>, Seq<char>),
}

impl View for Action {
    type V = ActionView;

    open spec fn view(&self) -> ActionView {
        match self {
            Action::Broadcast => ActionView::Broadcast,
            Action::Disconnect => ActionView::Disconnect,
            Action::Send(addr, m0, m1) => ActionView::Send(*addr, m0@, m1@),
        }
    }
}

/// A message for the socket to send.
#[derive(Debug, PartialEq, Eq)]
pub enum Outgoing {
    /// Send the message to the given address.
    Unicast(Message, SocketAddress),
    /// Send the message to the broadcast address of the local network.
    Broadcast(Message),
}

/// An outgoing message as a mathematical value.
pub enum OutgoingView {
    Unicast(MessageView, SocketAddress),
    Broadcast(MessageView),
}

impl View for Outgoing {
    type V = OutgoingView;

    open spec fn view(&self) -> OutgoingView {
        match self {
            Outgoing::Unicast(message, addr) => OutgoingView::Unicast(message@, *addr),
            Outgoing::Broadcast(message) => OutgoingView::Broadcast(message@),
        }
    }
}

/// What the task does in answer to one packet or one action: first it reports
/// the event, if there is one, then it sends the message, if there is one.
#[derive(Debug, PartialEq, Eq)]
pub struct Reaction {
    pub event: Option<Event>,
    pub outgoing: Option<Outgoing>,
}

/// A reaction as a mathematical value.
pub struct ReactionView {
    pub event: Option<EventView>,
    pub outgoing: Option<OutgoingView>,
}

impl View for Reaction {
    type V = ReactionView;

    open spec fn view(&self) -> ReactionView {
        ReactionView {
            event: match self.event {
                Some(event) => Some(event@),
                None => None,
            },
            outgoing: match self.outgoing {
                Some(outgoing) => Some(outgoing@),
                None => None,
            },
        }
    }
}

impl ReactionView {
    /// Nothing is reported and nothing is sent.
    pub open spec fn nothing() -> ReactionView {
        ReactionView { event: None, outgoing: None }
    }

    /// The event is reported and nothing is sent.
    pub open spec fn report(event: EventView) -> ReactionView {
        ReactionView { event: Some(event), outgoing: None }
    }

    /// Nothing is reported and the message is sent.
    pub open spec fn send(outgoing: OutgoingView) -> ReactionView {
        ReactionView { event: None, outgoing: Some(outgoing) }
    }

    /// The error is reported and nothing is sent.
    pub open spec fn fail(error: NetworkError) -> ReactionView {
        ReactionView { event: Some(EventView::Error(error)), outgoing: None }
    }
}

impl Reaction {
    /// Nothing is reported and nothing is sent.
    pub fn nothing() -> (r: Reaction)
        ensures
            r@ == ReactionView::nothing(),
    {
        Reaction { event: None, outgoing: None }
    }

    /// The event is reported and nothing is sent.
    pub fn report(event: Event) -> (r: Reaction)
        ensures
            r@ == ReactionView::report(event@),
    {
        Reaction { event: Some(event), outgoing: None }
    }

    /// Nothing is reported and the message is sent.
    pub fn send(outgoing: Outgoing) -> (r: Reaction)
        ensures
            r@ == ReactionView::send(outgoing@),
    {
        Reaction { event: None, outgoing: Some(outgoing) }
    }

    /// The error is reported and nothing is sent.
    pub fn fail(error: NetworkError) -> (r: Reaction)
        ensures
            r@ == ReactionView::fail(error),
    {
        Reaction { event: Some(Event::Error(error)), outgoing: None }
    }
}

} // verus!
