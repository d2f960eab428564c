//! The decisions of the network task.
//!
//! The task owns one exchange state per peer address and the local user
//! name. Whoever runs it waits for a datagram or an action, hands it to the
//! task, and carries out the [`Reaction`] that comes back: it reports the
//! event, wakes the user interface, and sends the message.
//!
//! ```text
//! (none) --Greet(A)-->  GreetReceived(k, c)     --Data-->     (none), reports the text
//! (none) --Send-->      GreetSent(a, A, m0, m1) --Response--> (none), sends Data
//! ```

use crate::address::{lemma_key_injective, SocketAddress};
use crate::connection::{Peer, PeerView, Username};
use crate::crypto::{
    greeting_key, greeting_point, greeting_response, MessageState, MessageStateView,
};
use crate::curve::{random_bit, Scalar, SCALAR_LEN};
use crate::event::{
    Action, ActionView, Event, EventView, NetworkError, Outgoing, OutgoingView, Reaction,
    ReactionView,
};
use crate::message::{decode, Message, MessageError, MessageView};
use crate::peers::{lemma_add_is_idempotent, with_peer, Peers};
use std::collections::HashMap;
use vstd::prelude::*;
use vstd::std_specs::hash::*;

verus! {

broadcast use vstd::std_specs::hash::group_hash_axioms;

/// The exchange states of a task: at most one per peer address.
pub type States = Map<SocketAddress, MessageStateView>;

/// What a task makes of a result: the reaction itself, or the report of the
/// error.
pub open spec fn settle(result: Result<ReactionView, NetworkError>) -> ReactionView {
    match result {
        Ok(reaction) => reaction,
        Err(error) => ReactionView::fail(error),
    }
}

/// The mathematical value of the result of a handler.
pub open spec fn result_view(result: Result<Reaction, NetworkError>) -> Result<
    ReactionView,
    NetworkError,
> {
    match result {
        Ok(reaction) => Ok(reaction@),
        Err(error) => Err(error),
    }
}

/// What a task with the states `states` and the name `own` does with the
/// message `message` from `addr`: its states afterwards, and its reaction or
/// the error.
///
/// `local_ip` is the primary local address, or why it was not found; it
/// decides for `BroadcastGreet` and `BroadcastBye` only. `b` and `c` are the
/// scalar and the choice with which a `Greet` is answered.
pub open spec fn packet_step(
    states: States,
    own: Seq<char>,
    message: MessageView,
    addr: SocketAddress,
    local_ip: Result<u32, NetworkError>,
    b: Seq<u8>,
    c: bool,
) -> (States, Result<ReactionView, NetworkError>) {
    match message {
        MessageView::BroadcastGreet(name) => match local_ip {
            Err(error) => (states, Err(error)),
            Ok(ip) => if ip == addr.ip {
                (states, Ok(ReactionView::nothing()))
            } else {
                (
                    states,
                    Ok(
                        ReactionView {
                            event: Some(
                                EventView::Connected(PeerView { address: addr, name: Some(name) }),
                            ),
                            outgoing: Some(
                                OutgoingView::Unicast(MessageView::BroadcastResponse(own), addr),
                            ),
                        },
                    ),
                )
            },
        },
        MessageView::BroadcastResponse(name) => (
            states,
            Ok(
                ReactionView::report(
                    EventView::Connected(PeerView { address: addr, name: Some(name) }),
                ),
            ),
        ),
        MessageView::BroadcastBye => match local_ip {
            Err(error) => (states, Err(error)),
            Ok(ip) => if ip == addr.ip {
                (states, Ok(ReactionView::nothing()))
            } else {
                (states, Ok(ReactionView::report(EventView::Disconnected(addr))))
            },
        },
        MessageView::Greet(point) => (
            states.insert(addr, MessageStateView::GreetReceived(greeting_key(point, b), c)),
            Ok(
                ReactionView::send(
                    OutgoingView::Unicast(
                        MessageView::Response(greeting_response(point, b, c)),
                        addr,
                    ),
                ),
            ),
        ),
        MessageView::Response(point) => if states.contains_key(addr) {
            match states[addr].response(point) {
                Some((c0, c1)) => (
                    states.remove(addr),
                    Ok(ReactionView::send(OutgoingView::Unicast(MessageView::Data(c0, c1), addr))),
                ),
                None => (states, Err(NetworkError::IncorrectMessage(addr))),
            }
        } else {
            (states, Err(NetworkError::IncorrectMessage(addr)))
        },
        MessageView::Data(c0, c1) => if states.contains_key(addr)
            && states[addr] is GreetReceived {
            match states[addr].opened(c0, c1) {
                Some(text) => (
                    states.remove(addr),
                    Ok(ReactionView::report(EventView::Message(addr, text))),
                ),
                None => (states.remove(addr), Err(NetworkError::IncorrectMessage(addr))),
            }
        } else {
            (states, Err(NetworkError::IncorrectMessage(addr)))
        },
    }
}

/// What a task does with the datagram `bytes` from `addr`: what it does with
/// the message that the datagram carries, or the report that it carries none.
pub open spec fn datagram_step(
    states: States,
    own: Seq<char>,
    bytes: Seq<u8>,
    addr: SocketAddress,
    local_ip: Result<u32, NetworkError>,
    b: Seq<u8>,
    c: bool,
) -> (States, ReactionView) {
    match decode(bytes) {
        Ok(message) => {
            let (after, result) = packet_step(states, own, message, addr, local_ip, b, c);
            (after, settle(result))
        },
        Err(error) => (states, ReactionView::fail(NetworkError::MessageError(error))),
    }
}

/// What a task with the states `states` and the name `own` does with the
/// action `action`: its states afterwards, its reaction, and whether it goes
/// on. `a` is the secret scalar with which an exchange is opened.
pub open spec fn action_step(states: States, own: Seq<char>, action: ActionView, a: Seq<u8>) -> (
    States,
    ReactionView,
    bool,
) {
    match action {
        ActionView::Broadcast => (
            states,
            ReactionView::send(OutgoingView::Broadcast(MessageView::BroadcastGreet(own))),
            true,
        ),
        ActionView::Disconnect => (
            states,
            ReactionView::send(OutgoingView::Broadcast(MessageView::BroadcastBye)),
            false,
        ),
        ActionView::Send(addr, m0, m1) => (
            states.insert(addr, MessageStateView::GreetSent(a, greeting_point(a), m0, m1)),
            ReactionView::send(OutgoingView::Unicast(MessageView::Greet(greeting_point(a)), addr)),
            true,
        ),
    }
}

/// The mathematical value of what the queue of actions gives.
pub open spec fn command_view(action: Option<Action>) -> Option<ActionView> {
    match action {
        Some(action) => Some(action@),
        None => None,
    }
}

/// What a task does when its queue of actions gives `action`, or is closed:
/// a closed queue stops the task.
pub open spec fn command_step(
    states: States,
    own: Seq<char>,
    action: Option<ActionView>,
    a: Seq<u8>,
) -> (States, ReactionView, bool) {
    match action {
        Some(action) => action_step(states, own, action, a),
        None => (states, ReactionView::nothing(), false),
    }
}

/// A reaction, and whether the task goes on after it.
#[derive(Debug, PartialEq, Eq)]
pub struct Turn {
    pub reaction: Reaction,
    pub running: bool,
}

/// The state of the network task: the exchange states by peer address and the
/// local user name.
#[derive(Debug)]
pub struct NetworkTask {
    states: HashMap<u64, MessageState>,
    name: Username,
}

impl NetworkTask {
    /// The exchange states, by peer address.
    pub closed spec fn states(self) -> States {
        Map::new(
            |addr: SocketAddress| self.states@.contains_key(addr.key()),
            |addr: SocketAddress| self.states@[addr.key()]@,
        )
    }

    /// The local user name.
    pub closed spec fn own_name(self) -> Seq<char> {
        self.name@
    }

    /// A task without exchanges, for the user `name`.
    pub fn new(name: Username) -> (r: Self)
        ensures
            r.states() == Map::<SocketAddress, MessageStateView>::empty(),
            r.own_name() == name@,
    {
        let r = NetworkTask { states: HashMap::new(), name };
        assert(r.states() =~= Map::<SocketAddress, MessageStateView>::empty());
        r
    }

    /// The local user name.
    pub fn name(&self) -> (r: &Username)
        ensures
            r@ == self.own_name(),
    {
        &self.name
    }

    /// Whether an exchange with `addr` is under way.
    pub fn has_state(&self, addr: SocketAddress) -> (r: bool)
        ensures
            r == self.states().contains_key(addr),
    {
        self.states.contains_key(&addr.table_key())
    }

    fn insert_state(&mut self, addr: SocketAddress, state: MessageState)
        ensures
            final(self).states() == old(self).states().insert(addr, state@),
            final(self).own_name() == old(self).own_name(),
    {
        self.states.insert(addr.table_key(), state);
        proof {
            assert forall|other: SocketAddress| other.key() == addr.key() implies other
                == addr by {
                lemma_key_injective(other, addr);
            }
            assert(self.states() =~= old(self).states().insert(addr, state@));
        }
    }

    fn remove_state(&mut self, addr: SocketAddress) -> (r: Option<MessageState>)
        ensures
            final(self).states() == old(self).states().remove(addr),
            final(self).own_name() == old(self).own_name(),
            match r {
                Some(state) => old(self).states().contains_key(addr) && old(self).states()[addr]
                    == state@,
                None => !old(self).states().contains_key(addr),
            },
    {
        let r = self.states.remove(&addr.table_key());
        proof {
            assert forall|other: SocketAddress| other.key() == addr.key() implies other
                == addr by {
                lemma_key_injective(other, addr);
            }
            assert(self.states() =~= old(self).states().remove(addr));
        }
        r
    }

    /// Whether this host opened the exchange with `addr` that is under way.
    fn is_initiator(&self, addr: SocketAddress) -> (r: bool)
        ensures
            r == (self.states().contains_key(addr) && self.states()[addr] is GreetSent),
    {
        match self.states.get(&addr.table_key()) {
            Some(MessageState::GreetSent(_, _, _, _)) => true,
            _ => false,
        }
    }

    /// Whether this host answered the exchange with `addr` that is under way.
    fn is_responder(&self, addr: SocketAddress) -> (r: bool)
        ensures
            r == (self.states().contains_key(addr) && self.states()[addr] is GreetReceived),
    {
        match self.states.get(&addr.table_key()) {
            Some(MessageState::GreetReceived(_, _)) => true,
            _ => false,
        }
    }

    /// Handles the message `message` from `addr`, answering a `Greet` with
    /// the scalar `b` and the choice `c`.
    ///
    /// `local_ip` is the primary local address, or why it was not found.
    pub fn on_packet_with(
        &mut self,
        message: Message,
        addr: SocketAddress,
        local_ip: Result<u32, NetworkError>,
        b: Scalar,
        c: bool,
    ) -> (r: Result<Reaction, NetworkError>)
        ensures
            final(self).own_name() == old(self).own_name(),
            (final(self).states(), result_view(r)) == packet_step(
                old(self).states(),
                old(self).own_name(),
                message@,
                addr,
                local_ip,
                b@,
                c,
            ),
    {
        match message {
            Message::BroadcastGreet(name) => {
                match local_ip {
                    Err(error) => Err(error),
                    Ok(ip) => {
                        if ip != addr.ip {
                            let peer = Peer::new_with_name(addr, name);
                            let response = Message::BroadcastResponse(self.name.clone());
                            Ok(
                                Reaction {
                                    event: Some(Event::Connected(peer)),
                                    outgoing: Some(Outgoing::Unicast(response, addr)),
                                },
                            )
                        } else {
                            Ok(Reaction::nothing())
                        }
                    },
                }
            },
            Message::BroadcastResponse(name) => {
                let peer = Peer::new_with_name(addr, name);
                Ok(Reaction::report(Event::Connected(peer)))
            },
            Message::BroadcastBye => {
                match local_ip {
                    Err(error) => Err(error),
                    Ok(ip) => {
                        if ip != addr.ip {
                            Ok(Reaction::report(Event::Disconnected(addr)))
                        } else {
                            Ok(Reaction::nothing())
                        }
                    },
                }
            },
            Message::Greet(point) => {
                let (response, state) = MessageState::on_greeting_with(point, b, c);
                self.insert_state(addr, state);
                Ok(Reaction::send(Outgoing::Unicast(Message::Response(response), addr)))
            },
            Message::Response(point) => {
                if !self.is_initiator(addr) {
                    return Err(NetworkError::IncorrectMessage(addr));
                }
                match self.remove_state(addr) {
                    Some(state) => match state.on_response(point) {
                        Ok((c0, c1)) => Ok(
                            Reaction::send(Outgoing::Unicast(Message::Data(c0, c1), addr)),
                        ),
                        Err(_) => Err(NetworkError::IncorrectMessage(addr)),
                    },
                    None => Err(NetworkError::IncorrectMessage(addr)),
                }
            },
            Message::Data(c0, c1) => {
                if !self.is_responder(addr) {
                    return Err(NetworkError::IncorrectMessage(addr));
                }
                match self.remove_state(addr) {
                    Some(state) => match state.on_messages(c0, c1) {
                        Ok(text) => Ok(Reaction::report(Event::Message(addr, text))),
                        Err(_) => Err(NetworkError::IncorrectMessage(addr)),
                    },
                    None => Err(NetworkError::IncorrectMessage(addr)),
                }
            },
        }
    }

    /// Handles the message `message` from `addr`. A `Greet` is answered with
    /// a scalar and a choice drawn at random; nothing is drawn for another
    /// message.
    ///
    /// `local_ip` is the primary local address, or why it was not found.
    pub fn on_packet(
        &mut self,
        message: Message,
        addr: SocketAddress,
        local_ip: Result<u32, NetworkError>,
    ) -> (r: Result<Reaction, NetworkError>)
        ensures
            final(self).own_name() == old(self).own_name(),
            exists|b: Seq<u8>, c: bool|
                b.len() == SCALAR_LEN && (final(self).states(), result_view(r))
                    == #[trigger] packet_step(
                    old(self).states(),
                    old(self).own_name(),
                    message@,
                    addr,
                    local_ip,
                    b,
                    c,
                ),
    {
        let (b, c) = match &message {
            Message::Greet(_) => (Scalar::random(), random_bit()),
            _ => (Scalar::from_bytes([0u8; 32]), false),
        };
        proof {
            b.lemma_len();
        }
        self.on_packet_with(message, addr, local_ip, b, c)
    }

    /// Handles the datagram `datagram` from `addr`: decodes it, handles the
    /// message, and turns an error into its report.
    pub fn on_datagram(
        &mut self,
        datagram: &[u8],
        addr: SocketAddress,
        local_ip: Result<u32, NetworkError>,
    ) -> (r: Reaction)
        ensures
            final(self).own_name() == old(self).own_name(),
            exists|b: Seq<u8>, c: bool|
                b.len() == SCALAR_LEN && (final(self).states(), r@) == #[trigger] datagram_step(
                    old(self).states(),
                    old(self).own_name(),
                    datagram@,
                    addr,
                    local_ip,
                    b,
                    c,
                ),
    {
        match Message::try_from(datagram) {
            Ok(message) => {
                let result = self.on_packet(message, addr, local_ip);
                proof {
                    let (b, c) = choose|b: Seq<u8>, c: bool|
                        b.len() == SCALAR_LEN && (self.states(), result_view(result))
                            == #[trigger] packet_step(
                            old(self).states(),
                            old(self).own_name(),
                            message@,
                            addr,
                            local_ip,
                            b,
                            c,
                        );
                    assert((self.states(), settle(result_view(result))) == datagram_step(
                        old(self).states(),
                        old(self).own_name(),
                        datagram@,
                        addr,
                        local_ip,
                        b,
                        c,
                    ));
                }
                match result {
                    Ok(reaction) => reaction,
                    Err(error) => Reaction::fail(error),
                }
            },
            Err(error) => {
                let r = Reaction::fail(NetworkError::MessageError(error));
                proof {
                    let b = Seq::new(SCALAR_LEN as nat, |i: int| 0u8);
                    assert((self.states(), r@) == datagram_step(
                        old(self).states(),
                        old(self).own_name(),
                        datagram@,
                        addr,
                        local_ip,
                        b,
                        false,
                    ));
                }
                r
            },
        }
    }

    /// Handles the datagram `datagram` from `addr`, answering a `Greet` with
    /// the scalar `b` and the choice `c`.
    pub fn on_datagram_with(
        &mut self,
        datagram: &[u8],
        addr: SocketAddress,
        local_ip: Result<u32, NetworkError>,
        b: Scalar,
        c: bool,
    ) -> (r: Reaction)
        ensures
            final(self).own_name() == old(self).own_name(),
            (final(self).states(), r@) == datagram_step(
                old(self).states(),
                old(self).own_name(),
                datagram@,
                addr,
                local_ip,
                b@,
                c,
            ),
    {
        match Message::try_from(datagram) {
            Ok(message) => match self.on_packet_with(message, addr, local_ip, b, c) {
                Ok(reaction) => reaction,
                Err(error) => Reaction::fail(error),
            },
            Err(error) => Reaction::fail(NetworkError::MessageError(error)),
        }
    }

    /// Handles the action `action`, opening an exchange with the secret
    /// scalar `a`.
    pub fn on_action_with(&mut self, action: Action, a: Scalar) -> (r: Turn)
        ensures
            final(self).own_name() == old(self).own_name(),
            (final(self).states(), r.reaction@, r.running) == action_step(
                old(self).states(),
                old(self).own_name(),
                action@,
                a@,
            ),
    {
        match action {
            Action::Broadcast => {
                let message = Message::BroadcastGreet(self.name.clone());
                Turn { reaction: Reaction::send(Outgoing::Broadcast(message)), running: true }
            },
            Action::Disconnect => Turn {
                reaction: Reaction::send(Outgoing::Broadcast(Message::BroadcastBye)),
                running: false,
            },
            Action::Send(addr, m0, m1) => {
                let (point, state) = MessageState::send_message(m0, m1, Some(a));
                self.insert_state(addr, state);
                Turn {
                    reaction: Reaction::send(Outgoing::Unicast(Message::Greet(point), addr)),
                    running: true,
                }
            },
        }
    }

    /// Handles the action `action`. An exchange is opened with a secret
    /// scalar drawn at random.
    pub fn on_action(&mut self, action: Action) -> (r: Turn)
        ensures
            final(self).own_name() == old(self).own_name(),
            exists|a: Seq<u8>|
                a.len() == SCALAR_LEN && (final(self).states(), r.reaction@, r.running)
                    == #[trigger] action_step(
                    old(self).states(),
                    old(self).own_name(),
                    action@,
                    a,
                ),
    {
        let a = match &action {
            Action::Send(_, _, _) => Scalar::random(),
            _ => Scalar::from_bytes([0u8; 32]),
        };
        proof {
            a.lemma_len();
        }
        self.on_action_with(action, a)
    }

    /// Handles what the queue of actions gives: an action, or `None` once the
    /// queue is closed, which stops the task.
    pub fn on_command(&mut self, action: Option<Action>) -> (r: Turn)
        ensures
            final(self).own_name() == old(self).own_name(),
            exists|a: Seq<u8>|
                a.len() == SCALAR_LEN && (final(self).states(), r.reaction@, r.running)
                    == #[trigger] command_step(
                    old(self).states(),
                    old(self).own_name(),
                    command_view(action),
                    a,
                ),
    {
        match action {
            Some(action) => {
                let r = self.on_action(action);
                proof {
                    let a = choose|a: Seq<u8>|
                        a.len() == SCALAR_LEN && (self.states(), r.reaction@, r.running)
                            == #[trigger] action_step(
                            old(self).states(),
                            old(self).own_name(),
                            action@,
                            a,
                        );
                    assert((self.states(), r.reaction@, r.running) == command_step(
                        old(self).states(),
                        old(self).own_name(),
                        Some(action@),
                        a,
                    ));
                }
                r
            },
            None => {
                let r = Turn { reaction: Reaction::nothing(), running: false };
                proof {
                    let a = Seq::new(SCALAR_LEN as nat, |i: int| 0u8);
                    assert((self.states(), r.reaction@, r.running) == command_step(
                        old(self).states(),
                        old(self).own_name(),
                        None,
                        a,
                    ));
                }
                r
            },
        }
    }
}

/// An announcement or a farewell that comes from the primary local address is
/// this host's own, and is ignored: nothing is reported, nothing is sent and
/// no state changes.
pub proof fn lemma_loopback_suppressed(
    states: States,
    own: Seq<char>,
    name: Seq<char>,
    addr: SocketAddress,
    b: Seq<u8>,
    c: bool,
)
    ensures
        packet_step(states, own, MessageView::BroadcastGreet(name), addr, Ok(addr.ip), b, c) == (
            states,
            Ok::<ReactionView, NetworkError>(ReactionView::nothing()),
        ),
        packet_step(states, own, MessageView::BroadcastBye, addr, Ok(addr.ip), b, c) == (
            states,
            Ok::<ReactionView, NetworkError>(ReactionView::nothing()),
        ),
{
}

/// A `Response` from an address with which this host has
/// not opened an exchange is rejected as `IncorrectMessage`, and no state is
/// added, removed or changed.
pub proof fn lemma_response_without_greet(
    states: States,
    own: Seq<char>,
    point: Seq<u8>,
    addr: SocketAddress,
    local_ip: Result<u32, NetworkError>,
    b: Seq<u8>,
    c: bool,
)
    requires
        !(states.contains_key(addr) && states[addr] is GreetSent),
    ensures
        packet_step(states, own, MessageView::Response(point), addr, local_ip, b, c) == (
            states,
            Err::<ReactionView, NetworkError>(NetworkError::IncorrectMessage(addr)),
        ),
{
}

/// `Data` from an address whose `Greet` this host has not
/// answered is rejected as `IncorrectMessage`, and no state is added, removed
/// or changed.
pub proof fn lemma_data_without_greet(
    states: States,
    own: Seq<char>,
    c0: Seq<u8>,
    c1: Seq<u8>,
    addr: SocketAddress,
    local_ip: Result<u32, NetworkError>,
    b: Seq<u8>,
    c: bool,
)
    requires
        !(states.contains_key(addr) && states[addr] is GreetReceived),
    ensures
        packet_step(states, own, MessageView::Data(c0, c1), addr, local_ip, b, c) == (
            states,
            Err::<ReactionView, NetworkError>(NetworkError::IncorrectMessage(addr)),
        ),
{
}

/// A state is consumed when it produces its output: after a `Response` or a
/// `Data` that fits the state of the exchange, no exchange with that address
/// is under way, and the exchanges with other addresses are as before.
pub proof fn lemma_state_consumed(
    states: States,
    own: Seq<char>,
    message: MessageView,
    addr: SocketAddress,
    local_ip: Result<u32, NetworkError>,
    b: Seq<u8>,
    c: bool,
)
    requires
        states.contains_key(addr),
        (message is Response && states[addr] is GreetSent) || (message is Data
            && states[addr] is GreetReceived),
    ensures
        packet_step(states, own, message, addr, local_ip, b, c).0 == states.remove(addr),
        !packet_step(states, own, message, addr, local_ip, b, c).0.contains_key(addr),
{
}

/// Two announcements from one address are reported as
/// two `Connected` events, and a panel that files both still holds one entry
/// for that address.
pub proof fn lemma_repeated_greet(
    states: States,
    own: Seq<char>,
    first: Seq<char>,
    second: Seq<char>,
    addr: SocketAddress,
    local: u32,
    b: Seq<u8>,
    c: bool,
    peers: Peers,
)
    requires
        local != addr.ip,
    ensures
        ({
            let (between, one) = packet_step(
                states,
                own,
                MessageView::BroadcastGreet(first),
                addr,
                Ok(local),
                b,
                c,
            );
            let (after, two) = packet_step(
                between,
                own,
                MessageView::BroadcastGreet(second),
                addr,
                Ok(local),
                b,
                c,
            );
            let first_peer = PeerView { address: addr, name: Some(first) };
            let second_peer = PeerView { address: addr, name: Some(second) };
            &&& after == states
            &&& one matches Ok(reaction) && reaction.event == Some(EventView::Connected(first_peer))
            &&& two matches Ok(reaction) && reaction.event == Some(EventView::Connected(second_peer))
            &&& with_peer(with_peer(peers, first_peer), second_peer).dom() == peers.dom().insert(addr)
            &&& with_peer(with_peer(peers, first_peer), second_peer).dom() == with_peer(peers, first_peer).dom()
        }),
{
    let first_peer = PeerView { address: addr, name: Some(first) };
    let second_peer = PeerView { address: addr, name: Some(second) };
    lemma_add_is_idempotent(peers, first_peer, second_peer);
    assert(with_peer(peers, first_peer).dom() =~= peers.dom().insert(addr));
}

} // verus!
