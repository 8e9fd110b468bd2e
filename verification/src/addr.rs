//! Peer addresses: the registry's key.
//!
//! A peer is identified by a network endpoint: an IPv4 or IPv6 host and a
//! port, held as plain integers. Addresses compare by value and key the
//! registry directly.

use vstd::prelude::*;

verus! {

/// A peer's host, in either address family.
#[derive(Clone, Copy, PartialEq, Eq, Structural, Debug)]
pub enum HostAddr {
    /// The four IPv4 octets packed big-endian into one integer.
    V4(u32),
    /// The sixteen IPv6 octets packed big-endian into one integer.
    V6(u128),
}

/// A network endpoint identifier: a host and a port.
#[derive(Clone, Copy, PartialEq, Eq, Structural, Debug)]
pub struct PeerAddr {
    /// The peer's host.
    pub host: HostAddr,
    /// The TCP port.
    pub port: u16,
}

impl PeerAddr {
    /// An IPv4 endpoint.
    pub fn v4(ip: u32, port: u16) -> (r: Self)
        ensures
            r == (PeerAddr { host: HostAddr::V4(ip), port }),
    {
        PeerAddr { host: HostAddr::V4(ip), port }
    }

    /// An IPv6 endpoint.
    pub fn v6(ip: u128, port: u16) -> (r: Self)
        ensures
            r == (PeerAddr { host: HostAddr::V6(ip), port }),
    {
        PeerAddr { host: HostAddr::V6(ip), port }
    }
}

} // verus!
