//! Core logic of a peer-to-peer overlay network in which nodes organise
//! themselves into sections, each responsible for a region of a 256-bit
//! XOR name space. Sections elect elders, agree on membership and on
//! section-level BLS keys, split as they grow, and heal stale views of
//! one another through an anti-entropy protocol.

use vstd::prelude::*;

pub mod addr;
pub mod adult;
pub mod chain;
pub mod client;
pub mod comm;
pub mod crypto;
pub mod dkg;
pub mod enc;
pub mod errors;
pub mod joining;
pub mod msg_authority;
pub mod node;
pub mod node_state;
pub mod peers;
pub mod prefix_map;
pub mod sap;
pub mod section;
pub mod service_msg;
pub mod signed;
pub mod system_msg;
pub mod wire;
pub mod xor;

verus! {

/// Maximum number of elders in a section.
pub const ELDER_SIZE: usize = 7;

/// Minimum number of mature members each half must keep for a section split.
pub const RECOMMENDED_SECTION_SIZE: usize = 10;

/// Number of votes that constitute a supermajority among `n` voters.
pub open spec fn spec_supermajority(n: int) -> int {
    n * 2 / 3 + 1
}

/// Returns the least number of votes that is a supermajority among `n` voters.
pub fn supermajority(n: usize) -> (r: usize)
    requires
        n <= usize::MAX / 2,
    ensures
        r == spec_supermajority(n as int),
{
    n * 2 / 3 + 1
}

} // verus!
