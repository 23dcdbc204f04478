//! A socket address as plain values, so that routing decisions over
//! addresses can be reasoned about. The shell converts between this form and
//! the operating system's own socket address type at the network edge.

use vstd::prelude::*;

verus! {

/// An IP address and port. IPv4 addresses use the low 32 bits of `ip`.
#[derive(Clone, Copy, Debug, PartialEq, Eq, Hash, Structural)]
pub struct NodeAddr {
    /// The IP address packed into an integer, IPv6-width.
    pub ip: u128,
    /// The UDP/TCP port.
    pub port: u16,
}

impl NodeAddr {
    /// Builds an address from its packed IP and port.
    pub fn new(ip: u128, port: u16) -> (r: NodeAddr)
        ensures
            r.ip == ip,
            r.port == port,
    {
        NodeAddr { ip, port }
    }

    /// Whether two addresses are the same.
    pub fn equals(&self, other: &NodeAddr) -> (r: bool)
        ensures
            r == (*self == *other),
    {
        self.ip == other.ip && self.port == other.port
    }
}

} // verus!
