//! Signatures that carry their signing key, BLS signature shares, and the
//! pairing of a value with the section signature that vouches for it.

use vstd::prelude::*;
use crate::crypto::{BLS_PK_LEN, BLS_SIG_LEN};
use crate::xor::clone_bytes;

verus! {

/// A BLS signature together with the public key that signed.
#[derive(Clone, Debug, PartialEq, Eq)]
pub struct KeyedSig {
    /// The BLS public key.
    pub public_key: Vec<u8>,
    /// The BLS signature over the payload in question.
    pub signature: Vec<u8>,
}

impl KeyedSig {
    /// Key and signature have the lengths of their scheme.
    pub open spec fn wf(&self) -> bool {
        self.public_key@.len() == BLS_PK_LEN && self.signature@.len() == BLS_SIG_LEN
    }

    /// A fresh copy of the signature.
    pub fn duplicate(&self) -> (r: KeyedSig)
        ensures
            r.public_key@ == self.public_key@,
            r.signature@ == self.signature@,
    {
        KeyedSig {
            public_key: clone_bytes(&self.public_key),
            signature: clone_bytes(&self.signature),
        }
    }
}

/// A single share of a section signature, with the key set it belongs to.
#[derive(Clone, Debug, PartialEq, Eq)]
pub struct SigShare {
    /// The serialized BLS public key set of the section.
    pub public_key_set: Vec<u8>,
    /// Index of the share within the set.
    pub index: usize,
    /// The signature share over the payload in question.
    pub signature_share: Vec<u8>,
}

impl SigShare {
    /// The share signature has the length of its scheme.
    pub open spec fn wf(&self) -> bool {
        self.signature_share@.len() == BLS_SIG_LEN
    }
}

/// A value paired with the section signature over the value's canonical
/// encoding. The signature is checked against a chain before the value is
/// believed.
#[derive(Clone, Debug, PartialEq, Eq)]
pub struct SectionAuth<T> {
    /// The signed value.
    pub value: T,
    /// The section signature over the value's canonical encoding.
    pub sig: KeyedSig,
}

} // verus!
