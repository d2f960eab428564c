//! Socket addresses as plain values.
//!
//! The protocol runs over IPv4 UDP only, so an address is a 32-bit host
//! address and a 16-bit port.

use vstd::prelude::*;

verus! {

/// An IPv4 socket address.
///
/// `ip` is the host address read as a big-endian integer: `192.168.0.1` is
/// `0xC0A8_0001`.
#[derive(Clone, Copy, Debug, PartialEq, Eq, PartialOrd, Ord, Hash, Structural)]
pub struct SocketAddress {
    pub ip: u32,
    pub port: u16,
}

/// The host address with the given four octets, most significant first.
pub open spec fn ipv4(a: u8, b: u8, c: u8, d: u8) -> int {
    ((a as int * 256 + b as int) * 256 + c as int) * 256 + d as int
}

impl SocketAddress {
    /// The integer under which tables index this address: it is distinct for
    /// distinct addresses.
    pub open spec fn key(self) -> u64 {
        (self.ip as u64 * 65536 + self.port as u64) as u64
    }

    /// The address with the given octets (most significant first) and port.
    pub fn new(octets: [u8; 4], port: u16) -> (r: SocketAddress)
        ensures
            r.ip as int == ipv4(octets[0], octets[1], octets[2], octets[3]),
            r.port == port,
    {
        let a: u32 = octets[0] as u32;
        let b: u32 = octets[1] as u32;
        let c: u32 = octets[2] as u32;
        let d: u32 = octets[3] as u32;
        SocketAddress { ip: ((a * 256 + b) * 256 + c) * 256 + d, port }
    }

    /// The four octets of the host address, most significant first.
    pub fn octets(&self) -> (r: [u8; 4])
        ensures
            self.ip as int == ipv4(r[0], r[1], r[2], r[3]),
    {
        let ip: u32 = self.ip;
        [
            (ip / 16777216) as u8,
            (ip / 65536 % 256) as u8,
            (ip / 256 % 256) as u8,
            (ip % 256) as u8,
        ]
    }

    /// The host address.
    pub fn ip(&self) -> (r: u32)
        ensures
            r == self.ip,
    {
        self.ip
    }

    /// The port.
    pub fn port(&self) -> (r: u16)
        ensures
            r == self.port,
    {
        self.port
    }

    /// The table index of this address.
    pub fn table_key(&self) -> (r: u64)
        ensures
            r == self.key(),
    {
        self.ip as u64 * 65536 + self.port as u64
    }
}

/// Distinct addresses have distinct keys.
pub proof fn lemma_key_injective(a: SocketAddress, b: SocketAddress)
    ensures
        a.key() == b.key() <==> a == b,
{
}

} // verus!
