//! Where a system message speaks from: a single node, a share of a section's
//! authority, or a full section signature, and what each form lets a
//! receiver conclude.

use vstd::prelude::*;
use crate::addr::NodeAddr;
use crate::crypto::sha3_of;
use crate::errors::RoutingError;
use crate::node_state::Peer;
use crate::signed::KeyedSig;
use crate::wire::{BlsShareAuth, NodeAuth};
use crate::xor::XorName;

verus! {

/// A full section's authority: the source name and the section signature.
#[derive(Clone, Debug, PartialEq, Eq)]
pub struct SectionSigned {
    /// The name the section speaks for.
    pub src_name: XorName,
    /// The section signature.
    pub sig: KeyedSig,
}

/// The authority behind a system message.
#[derive(Clone, Debug, PartialEq, Eq)]
pub enum NodeMsgAuthority {
    /// A single node's signature.
    Node(NodeAuth),
    /// One share of a section signature.
    BlsShare(BlsShareAuth),
    /// A full section signature.
    Section(SectionSigned),
}

/// The source of a message: a single node or a whole section.
#[derive(Clone, Debug, PartialEq, Eq)]
pub enum SrcLocation {
    /// A single node.
    Node {
        /// The node's name.
        name: XorName,
        /// The key of the node's section.
        section_pk: Vec<u8>,
    },
    /// A whole section.
    Section {
        /// The name the section speaks for.
        name: XorName,
        /// The section's key.
        section_pk: Vec<u8>,
    },
}

/// A node's name is the SHA3-256 digest of its Ed25519 public key.
pub open spec fn spec_name_of_key(pk: Seq<u8>) -> Seq<u8> {
    sha3_of(pk)
}

/// Derives a node's name from its Ed25519 public key.
pub fn name_of_key(pk: &Vec<u8>) -> (r: XorName)
    ensures
        r@ == spec_name_of_key(pk@),
        r.wf(),
{
    XorName::from_bytes(crate::crypto::sha3_256(pk))
}

impl NodeMsgAuthority {
    /// The source location the authority stands for: the node's own name and
    /// section key for a node signature, the named section otherwise.
    pub fn src_location(&self) -> (r: SrcLocation)
        ensures
            match self {
                NodeMsgAuthority::Node(a) => r matches SrcLocation::Node { name, section_pk }
                    && name@ == spec_name_of_key(a.public_key@)
                    && section_pk@ == a.section_pk@,
                NodeMsgAuthority::BlsShare(a) => r matches SrcLocation::Section { name, section_pk }
                    && name@ == a.src_name@
                    && section_pk@ == a.section_pk@,
                NodeMsgAuthority::Section(a) => r matches SrcLocation::Section { name, section_pk }
                    && name@ == a.src_name@
                    && section_pk@ == a.sig.public_key@,
            },
    {
        match self {
            NodeMsgAuthority::Node(a) => SrcLocation::Node {
                name: name_of_key(&a.public_key),
                section_pk: crate::xor::clone_bytes(&a.section_pk),
            },
            NodeMsgAuthority::BlsShare(a) => SrcLocation::Section {
                name: a.src_name.duplicate(),
                section_pk: crate::xor::clone_bytes(&a.section_pk),
            },
            NodeMsgAuthority::Section(a) => SrcLocation::Section {
                name: a.src_name.duplicate(),
                section_pk: crate::xor::clone_bytes(&a.sig.public_key),
            },
        }
    }

    /// The name the authority speaks for.
    pub fn name(&self) -> (r: XorName)
        ensures
            match self {
                NodeMsgAuthority::Node(a) => r@ == spec_name_of_key(a.public_key@),
                NodeMsgAuthority::BlsShare(a) => r@ == a.src_name@,
                NodeMsgAuthority::Section(a) => r@ == a.src_name@,
            },
    {
        match self {
            NodeMsgAuthority::Node(a) => name_of_key(&a.public_key),
            NodeMsgAuthority::BlsShare(a) => a.src_name.duplicate(),
            NodeMsgAuthority::Section(a) => a.src_name.duplicate(),
        }
    }

    /// The peer behind a node-signed message; section authorities stand for
    /// no single peer.
    pub fn peer(&self, addr: NodeAddr) -> (r: Result<Peer, RoutingError>)
        ensures
            r is Ok <==> self is Node,
            r matches Ok(p) ==> (self matches NodeMsgAuthority::Node(a)
                && p.name@ == spec_name_of_key(a.public_key@)
                && p.addr == addr),
            r matches Err(e) ==> e == RoutingError::InvalidSrcLocation,
    {
        match self {
            NodeMsgAuthority::Node(a) => Ok(Peer::new(name_of_key(&a.public_key), addr)),
            _ => Err(RoutingError::InvalidSrcLocation),
        }
    }

    /// Whether the authority's section key is one of the known keys. A
    /// single node's signature needs no section key to be trusted.
    pub fn verify_src_section_key_is_known(&self, known_keys: &Vec<Vec<u8>>) -> (r: bool)
        ensures
            self is Node ==> r,
            (self matches NodeMsgAuthority::BlsShare(a)
                ==> r == keys_contain(known_keys@, a.section_pk@)),
            (self matches NodeMsgAuthority::Section(a)
                ==> r == keys_contain(known_keys@, a.sig.public_key@)),
    {
        match self {
            NodeMsgAuthority::Node(_) => true,
            NodeMsgAuthority::BlsShare(a) => key_listed(known_keys, &a.section_pk),
            NodeMsgAuthority::Section(a) => key_listed(known_keys, &a.sig.public_key),
        }
    }
}

/// Whether the list of keys holds `k`.
pub fn key_listed(known_keys: &Vec<Vec<u8>>, k: &Vec<u8>) -> (r: bool)
    ensures
        r == keys_contain(known_keys@, k@),
{
    let mut i: usize = 0;
    while i < known_keys.len()
        invariant
            i <= known_keys@.len(),
            forall|j: int| 0 <= j < i ==> (#[trigger] known_keys@[j])@ != k@,
        decreases known_keys@.len() - i,
    {
        if crate::xor::bytes_eq(&known_keys[i], k) {
            proof {
                assert(key_views(known_keys@)[i as int] == k@);
            }
            return true;
        }
        i = i + 1;
    }
    proof {
        assert(forall|j: int| 0 <= j < key_views(known_keys@).len()
            ==> key_views(known_keys@)[j] != k@);
    }
    false
}

/// The views of a list of keys.
pub open spec fn key_views(ks: Seq<Vec<u8>>) -> Seq<Seq<u8>> {
    ks.map(|i: int, k: Vec<u8>| k@)
}

/// Whether the list of keys holds `k`.
pub open spec fn keys_contain(ks: Seq<Vec<u8>>, k: Seq<u8>) -> bool {
    key_views(ks).contains(k)
}

} // verus!
