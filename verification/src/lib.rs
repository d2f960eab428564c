//! Oblivious Transfer Message Protocol (OTMP): the value types, the wire
//! codec, the 1-of-2 oblivious transfer engine over NIST P-256 and the
//! per-peer decisions of the network task of a LAN chat in which a sender
//! offers two messages and the receiver opens exactly one of them.

pub mod address;
pub mod connection;
pub mod crypto;
pub mod curve;
pub mod event;
pub mod message;
pub mod peers;
pub mod protocol;
pub mod socket;
pub mod task;
pub mod text;
