//! What the socket adapter decides: where a broadcast goes, whether a
//! datagram went out whole, and how much of a datagram is received.

use crate::address::SocketAddress;
use crate::event::NetworkError;
use crate::message::{decode, MessageError, MessageView};
use vstd::prelude::*;
use vstd::string::*;

verus! {

/// The size of the receive buffer: a longer datagram is cut off there.
pub const RECEIVE_BUFFER_SIZE: usize = 2048;

/// One address of a local network interface: the host address and, where the
/// interface has one, its broadcast address.
#[derive(Clone, Copy, Debug, PartialEq, Eq, Structural)]
pub struct InterfaceAddress {
    pub ip: u32,
    pub broadcast: Option<u32>,
}

/// The first of `addresses` whose host address is `local`, if there is one.
pub open spec fn first_match(addresses: Seq<InterfaceAddress>, local: u32) -> Option<
    InterfaceAddress,
>
    decreases addresses.len(),
{
    if addresses.len() == 0 {
        None
    } else if addresses[0].ip == local {
        Some(addresses[0])
    } else {
        first_match(addresses.drop_first(), local)
    }
}

/// The address to broadcast to: the broadcast address of the first interface
/// address that is the primary local address, with the protocol's port.
pub open spec fn broadcast_target(addresses: Seq<InterfaceAddress>, local: u32, port: u16) -> Result<
    SocketAddress,
    NetworkError,
> {
    match first_match(addresses, local) {
        Some(address) => match address.broadcast {
            Some(ip) => Ok(SocketAddress { ip, port }),
            None => Err(NetworkError::BroadcastAddressNotFound),
        },
        None => Err(NetworkError::BroadcastAddressNotFound),
    }
}

/// The address to broadcast to, among the interface addresses `addresses`, for
/// the primary local address `local`.
pub fn find_broadcast(addresses: &Vec<InterfaceAddress>, local: u32, port: u16) -> (r: Result<
    SocketAddress,
    NetworkError,
>)
    ensures
        r == broadcast_target(addresses@, local, port),
{
    let mut i: usize = 0;
    assert(addresses@.subrange(0, addresses@.len() as int) =~= addresses@);
    while i < addresses.len()
        invariant
            i <= addresses.len(),
            first_match(addresses@, local) == first_match(
                addresses@.subrange(i as int, addresses@.len() as int),
                local,
            ),
        decreases addresses.len() - i,
    {
        let address = addresses[i];
        let ghost rest = addresses@.subrange(i as int, addresses@.len() as int);
        assert(rest[0] == address);
        if address.ip == local {
            return match address.broadcast {
                Some(ip) => Ok(SocketAddress { ip, port }),
                None => Err(NetworkError::BroadcastAddressNotFound),
            };
        }
        assert(rest.drop_first() =~= addresses@.subrange(i + 1, addresses@.len() as int));
        i = i + 1;
    }
    assert(addresses@.subrange(i as int, addresses@.len() as int).len() == 0);
    Err(NetworkError::BroadcastAddressNotFound)
}

/// The address to broadcast to, from what the system says when the broadcast
/// is sent: the primary local address, or why it was not found, and the
/// addresses of the network interfaces, or why they could not be listed. The
/// local address is asked for first, so its failure is the one reported.
pub fn get_broadcast(
    local_ip: Result<u32, NetworkError>,
    interfaces: Result<Vec<InterfaceAddress>, NetworkError>,
    port: u16,
) -> (r: Result<SocketAddress, NetworkError>)
    ensures
        r == match local_ip {
            Err(error) => Err(error),
            Ok(local) => match interfaces {
                Err(error) => Err(error),
                Ok(addresses) => broadcast_target(addresses@, local, port),
            },
        },
{
    match local_ip {
        Err(error) => Err(error),
        Ok(local) => match interfaces {
            Err(error) => Err(error),
            Ok(addresses) => find_broadcast(&addresses, local, port),
        },
    }
}

/// Whether a datagram of `len` bytes went out whole, given that the system
/// reports `sent` bytes sent: a short write is a failure of the socket.
pub fn check_sent(sent: usize, len: usize) -> (r: Result<(), NetworkError>)
    ensures
        sent == len ==> r is Ok,
        sent != len ==> (r matches Err(NetworkError::SocketError(reason)) && reason@
            == "Failed to send all bytes"@),
{
    if sent == len {
        Ok(())
    } else {
        Err(NetworkError::SocketError("Failed to send all bytes".to_owned()))
    }
}

/// What the receive buffer holds of a datagram: all of it, or its first 2048
/// bytes.
pub open spec fn received(datagram: Seq<u8>) -> Seq<u8> {
    if datagram.len() <= RECEIVE_BUFFER_SIZE {
        datagram
    } else {
        datagram.subrange(0, RECEIVE_BUFFER_SIZE as int)
    }
}

/// A frame that does not fit in the receive buffer is never accepted: what is
/// received of it fails, as a rule by its length.
pub proof fn lemma_oversized_rejected(m: MessageView)
    requires
        m.wf(),
        m.conforming(),
        m.encode().len() > RECEIVE_BUFFER_SIZE,
    ensures
        decode(received(m.encode())) == Err::<MessageView, MessageError>(
            MessageError::InvalidMessageLength,
        ),
{
    let full = m.encode();
    let cut = received(full);
    crate::message::lemma_payload_len(m);
    crate::message::lemma_frame_parts(m.type_byte(), m.payload());
    assert(cut.subrange(0, 4) =~= full.subrange(0, 4));
    assert(cut[5] == full[5] && cut[6] == full[6]);
}

} // verus!
