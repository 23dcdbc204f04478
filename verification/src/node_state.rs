//! Membership records: a peer, its membership state, and the canonical
//! encoding of the record that a section signature covers. A node's age is
//! carried in the final byte of its name; members of at least `MIN_ADULT_AGE`
//! are mature.

use vstd::prelude::*;
use crate::addr::NodeAddr;
use crate::enc::{enc_addr, push_addr, push_bytes};
use crate::xor::{XorName, XOR_NAME_LEN};

verus! {

/// Age from which a member counts as mature.
pub const MIN_ADULT_AGE: u8 = 5;

/// A peer: a name, the address it listens on, and whether it was reached.
#[derive(Clone, Debug, PartialEq, Eq)]
pub struct Peer {
    /// The peer's XOR name.
    pub name: XorName,
    /// The peer's socket address.
    pub addr: NodeAddr,
    /// Whether the peer's address was confirmed reachable.
    pub reachable: bool,
}

impl Peer {
    /// Builds a peer that is not yet known to be reachable.
    pub fn new(name: XorName, addr: NodeAddr) -> (r: Peer)
        ensures
            r.name@ == name@,
            r.addr == addr,
            !r.reachable,
    {
        Peer { name, addr, reachable: false }
    }

    /// The peer's age: the final byte of its name.
    pub fn age(&self) -> (r: u8)
        requires
            self.name.wf(),
        ensures
            r == spec_age(self.name@),
    {
        self.name.age()
    }

    /// A fresh copy of the peer.
    pub fn duplicate(&self) -> (r: Peer)
        ensures
            r.name@ == self.name@,
            r.addr == self.addr,
            r.reachable == self.reachable,
    {
        Peer { name: self.name.duplicate(), addr: self.addr, reachable: self.reachable }
    }
}

/// The age a name carries: its final byte.
pub open spec fn spec_age(name: Seq<u8>) -> u8 {
    name[XOR_NAME_LEN - 1]
}

/// Whether a name's age makes its node mature.
pub open spec fn spec_mature(name: Seq<u8>) -> bool {
    spec_age(name) >= MIN_ADULT_AGE
}

/// A node's membership state within its section.
#[derive(Clone, Debug, PartialEq, Eq)]
pub enum MembershipState {
    /// The node is an active member of the section.
    Joined,
    /// The node went offline.
    Left,
    /// The node was relocated to a different section.
    Relocated(XorName),
}

/// Information about a member of a section.
#[derive(Clone, Debug, PartialEq, Eq)]
pub struct NodeState {
    /// The peer.
    pub peer: Peer,
    /// The peer's current membership state.
    pub state: MembershipState,
    /// A relocated node's original name, recorded against sybil moves.
    pub previous_name: Option<XorName>,
}

/// How membership states rank when two records carry equal-rank signatures:
/// `Joined` is superseded by `Relocated`, which is superseded by `Left`.
pub open spec fn spec_state_rank(s: &MembershipState) -> int {
    match s {
        MembershipState::Joined => 0,
        MembershipState::Relocated(_) => 1,
        MembershipState::Left => 2,
    }
}

/// The canonical encoding of a membership state.
pub open spec fn enc_state(s: &MembershipState) -> Seq<u8> {
    match s {
        MembershipState::Joined => seq![0u8],
        MembershipState::Left => seq![1u8],
        MembershipState::Relocated(n) => seq![2u8] + n@,
    }
}

/// The canonical encoding of an optional previous name.
pub open spec fn enc_prev(o: &Option<XorName>) -> Seq<u8> {
    match o {
        Option::None => seq![0u8],
        Option::Some(n) => seq![1u8] + n@,
    }
}

/// The canonical encoding of a membership record, the bytes a section
/// signature covers.
pub open spec fn spec_encode_node_state(ns: &NodeState) -> Seq<u8> {
    ns.peer.name@ + enc_addr(ns.peer.addr)
        + (if ns.peer.reachable { seq![1u8] } else { seq![0u8] })
        + enc_state(&ns.state) + enc_prev(&ns.previous_name)
}

impl NodeState {
    /// A record that says the peer joined; `previous_name` is set when the
    /// peer joined by relocation.
    pub fn joined(peer: Peer, previous_name: Option<XorName>) -> (r: NodeState)
        ensures
            r.peer == peer,
            r.state == MembershipState::Joined,
            r.previous_name == previous_name,
    {
        NodeState { peer, state: MembershipState::Joined, previous_name }
    }

    /// A record that says the peer left.
    pub fn left(peer: Peer, previous_name: Option<XorName>) -> (r: NodeState)
        ensures
            r.peer == peer,
            r.state == MembershipState::Left,
            r.previous_name == previous_name,
    {
        NodeState { peer, state: MembershipState::Left, previous_name }
    }

    /// A fresh copy of the record.
    pub fn duplicate(&self) -> (r: NodeState)
        ensures
            r.peer.name@ == self.peer.name@,
            r.peer.addr == self.peer.addr,
            r.peer.reachable == self.peer.reachable,
            state_eq(&r.state, &self.state),
            prev_eq(&r.previous_name, &self.previous_name),
            spec_encode_node_state(&r) == spec_encode_node_state(self),
    {
        let state = match &self.state {
            MembershipState::Joined => MembershipState::Joined,
            MembershipState::Left => MembershipState::Left,
            MembershipState::Relocated(n) => MembershipState::Relocated(n.duplicate()),
        };
        let previous_name = match &self.previous_name {
            Option::None => Option::None,
            Option::Some(n) => Option::Some(n.duplicate()),
        };
        NodeState { peer: self.peer.duplicate(), state, previous_name }
    }

    /// The canonical bytes of the record, which a section signature covers.
    pub fn encode(&self) -> (r: Vec<u8>)
        ensures
            r@ == spec_encode_node_state(self),
    {
        let mut out: Vec<u8> = Vec::new();
        push_bytes(&mut out, &self.peer.name.bytes);
        push_addr(&mut out, &self.peer.addr);
        out.push(if self.peer.reachable { 1u8 } else { 0u8 });
        match &self.state {
            MembershipState::Joined => {
                out.push(0u8);
            },
            MembershipState::Left => {
                out.push(1u8);
            },
            MembershipState::Relocated(n) => {
                out.push(2u8);
                push_bytes(&mut out, &n.bytes);
            },
        }
        match &self.previous_name {
            Option::None => {
                out.push(0u8);
            },
            Option::Some(n) => {
                out.push(1u8);
                push_bytes(&mut out, &n.bytes);
            },
        }
        proof {
            assert(out@ =~= spec_encode_node_state(self));
        }
        out
    }
}

/// Whether two membership states agree, comparing relocated names by value.
pub open spec fn state_eq(a: &MembershipState, b: &MembershipState) -> bool {
    match (a, b) {
        (MembershipState::Joined, MembershipState::Joined) => true,
        (MembershipState::Left, MembershipState::Left) => true,
        (MembershipState::Relocated(x), MembershipState::Relocated(y)) => x@ == y@,
        _ => false,
    }
}

/// Whether two optional previous names agree by value.
pub open spec fn prev_eq(a: &Option<XorName>, b: &Option<XorName>) -> bool {
    match (a, b) {
        (Option::None, Option::None) => true,
        (Option::Some(x), Option::Some(y)) => x@ == y@,
        _ => false,
    }
}

} // verus!
