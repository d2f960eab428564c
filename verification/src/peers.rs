//! The peers a host knows, by address.

use crate::address::{lemma_key_injective, SocketAddress};
use crate::connection::{Peer, PeerView};
use std::collections::BTreeMap;
use vstd::prelude::*;
use vstd::std_specs::btree::*;

verus! {

broadcast use vstd::std_specs::btree::group_btree_axioms;

/// The known peers as a mathematical value: at most one per address.
pub type Peers = Map<SocketAddress, PeerView>;

/// The peers after `peer` announced itself: it takes the place of what was
/// known at its address.
pub open spec fn with_peer(peers: Peers, peer: PeerView) -> Peers {
    peers.insert(peer.address, peer)
}

/// The peers that a host has heard of, in the order of their addresses.
#[derive(Debug)]
pub struct PeerPanel {
    peers: BTreeMap<u64, Peer>,
}

impl View for PeerPanel {
    type V = Peers;

    closed spec fn view(&self) -> Peers {
        Map::new(
            |addr: SocketAddress| self.peers@.contains_key(addr.key()),
            |addr: SocketAddress| self.peers@[addr.key()]@,
        )
    }
}

impl Default for PeerPanel {
    fn default() -> (r: Self)
        ensures
            r.wf(),
            r@ == Map::<SocketAddress, PeerView>::empty(),
    {
        PeerPanel::new()
    }
}

impl PeerPanel {
    /// The invariant of the panel: every peer is filed under its own address.
    /// [`PeerPanel::new`] establishes it and every method keeps it.
    pub closed spec fn wf(self) -> bool {
        forall|k: u64| #[trigger]
            self.peers@.contains_key(k) ==> self.peers@[k]@.address.key() == k
    }

    /// A panel without peers.
    pub fn new() -> (r: Self)
        ensures
            r.wf(),
            r@ == Map::<SocketAddress, PeerView>::empty(),
    {
        let r = PeerPanel { peers: BTreeMap::new() };
        assert(r@ =~= Map::<SocketAddress, PeerView>::empty());
        r
    }

    /// Adds a peer, in place of the one known at its address, if any.
    pub fn add_peer(&mut self, peer: Peer)
        requires
            old(self).wf(),
        ensures
            final(self).wf(),
            final(self)@ == with_peer(old(self)@, peer@),
    {
        let addr = peer.address();
        self.peers.insert(addr.table_key(), peer);
        proof {
            assert forall|other: SocketAddress| other.key() == addr.key() implies other
                == addr by {
                lemma_key_injective(other, addr);
            }
            assert(self@ =~= with_peer(old(self)@, peer@));
        }
    }

    /// Removes the peer at `address`, if one is known there.
    pub fn remove_peer(&mut self, address: &SocketAddress)
        requires
            old(self).wf(),
        ensures
            final(self).wf(),
            final(self)@ == old(self)@.remove(*address),
    {
        self.peers.remove(&address.table_key());
        proof {
            assert forall|other: SocketAddress| other.key() == address.key() implies other
                == *address by {
                lemma_key_injective(other, *address);
            }
            assert(self@ =~= old(self)@.remove(*address));
        }
    }

    /// Removes all peers.
    pub fn clear_peers(&mut self)
        ensures
            final(self).wf(),
            final(self)@ == Map::<SocketAddress, PeerView>::empty(),
    {
        self.peers.clear();
        assert(self@ =~= Map::<SocketAddress, PeerView>::empty());
    }

    /// The peer known at `addr`, if any.
    pub fn get_peer(&self, addr: &SocketAddress) -> (r: Option<Peer>)
        ensures
            match r {
                Some(peer) => self@.contains_key(*addr) && self@[*addr] == peer@,
                None => !self@.contains_key(*addr),
            },
    {
        match self.peers.get(&addr.table_key()) {
            Some(peer) => Some(peer.clone()),
            None => None,
        }
    }

    /// The number of known peers.
    pub fn len(&self) -> (r: usize)
        requires
            self.wf(),
        ensures
            self@.dom().finite(),
            r == self@.dom().len(),
    {
        proof {
            let keys = self.peers@.dom();
            let address_of = |k: u64| self.peers@[k]@.address;
            assert(keys.map(address_of) =~= self@.dom()) by {
                assert forall|addr: SocketAddress| self@.dom().contains(addr) implies keys.map(
                    address_of,
                ).contains(addr) by {
                    lemma_key_injective(address_of(addr.key()), addr);
                }
            }
            assert(vstd::relations::injective_on(address_of, keys));
            vstd::set_lib::lemma_map_size(keys, self@.dom(), address_of);
        }
        self.peers.len()
    }
}

/// Adding a peer at an address that is known already leaves the known
/// addresses as they are: the panel keeps one entry per address, whatever the
/// number of announcements.
pub proof fn lemma_add_is_idempotent(peers: Peers, first: PeerView, second: PeerView)
    requires
        first.address == second.address,
    ensures
        with_peer(with_peer(peers, first), second).dom() == with_peer(peers, first).dom(),
        with_peer(with_peer(peers, first), second) == with_peer(peers, second),
        with_peer(peers, first).contains_key(first.address),
{
    assert(with_peer(with_peer(peers, first), second).dom() =~= with_peer(peers, first).dom());
    assert(with_peer(with_peer(peers, first), second) =~= with_peer(peers, second));
}

} // verus!
