//! The section authority provider (SAP): the public face of a section at one
//! epoch — its prefix, its elders and its BLS threshold key set. A SAP is
//! only accepted when its elder set is non-empty, no larger than
//! `ELDER_SIZE`, and its key set's threshold is one less than a
//! supermajority of the elder count.

use vstd::prelude::*;
use crate::addr::NodeAddr;
use crate::crypto::{
    bls_pkset_public_key, bls_pkset_threshold, bls_verifies, bls_verify, pkset_public_key,
    pkset_threshold, pkset_valid, BLS_PK_LEN,
};
use crate::enc::{enc_addr, enc_bits, enc_u16, enc_u32, push_addr, push_bits, push_bytes, push_u16, push_u32};
use crate::errors::RoutingError;
use crate::signed::{KeyedSig, SectionAuth};
use crate::xor::{bytes_eq, clone_bytes, Prefix, XorName};
use crate::{spec_supermajority, ELDER_SIZE};

verus! {

/// One elder: a name and the address it listens on.
#[derive(Clone, Debug, PartialEq, Eq)]
pub struct Elder {
    /// The elder's XOR name.
    pub name: XorName,
    /// The elder's socket address.
    pub addr: NodeAddr,
}

impl Elder {
    /// A fresh copy of the elder.
    pub fn duplicate(&self) -> (r: Elder)
        ensures
            r.name@ == self.name@,
            r.addr == self.addr,
    {
        Elder { name: self.name.duplicate(), addr: self.addr }
    }
}

/// The names of a sequence of elders, in order.
pub open spec fn names_of(elders: Seq<Elder>) -> Seq<Seq<u8>> {
    elders.map(|i: int, e: Elder| e.name@)
}

/// Whether the names are pairwise distinct.
pub open spec fn spec_names_unique(names: Seq<Seq<u8>>) -> bool {
    forall|i: int, j: int| 0 <= i < j < names.len()
        ==> #[trigger] names[i] != #[trigger] names[j]
}

/// Whether every name is a well-formed XOR name.
pub open spec fn spec_names_wf(names: Seq<Seq<u8>>) -> bool {
    forall|i: int| 0 <= i < names.len()
        ==> (#[trigger] names[i]).len() == crate::xor::XOR_NAME_LEN
}

/// The canonical encoding of one elder: the name's bytes, then the address.
pub open spec fn enc_elder(e: Elder) -> Seq<u8> {
    e.name@ + enc_addr(e.addr)
}

/// The canonical encoding of a sequence of elders, in order.
pub open spec fn enc_elders(es: Seq<Elder>) -> Seq<u8>
    decreases es.len(),
{
    if es.len() == 0 {
        Seq::empty()
    } else {
        enc_elders(es.drop_last()) + enc_elder(es.last())
    }
}

/// The public face of a section at one epoch.
#[derive(Clone, Debug, PartialEq, Eq)]
pub struct SectionAuthorityProvider {
    /// The section's prefix.
    pub prefix: Prefix,
    /// The section's elders, at most `ELDER_SIZE` of them.
    pub elders: Vec<Elder>,
    /// The section's serialized BLS public key set.
    pub public_key_set: Vec<u8>,
    /// The section key that the key set derives.
    pub public_key: Vec<u8>,
}

/// The canonical encoding of a SAP, the bytes a section signature covers.
pub open spec fn spec_encode_sap(s: &SectionAuthorityProvider) -> Seq<u8> {
    enc_u16(s.prefix@.len() as int) + enc_bits(s.prefix@)
        + enc_u16(s.elders@.len() as int) + enc_elders(s.elders@)
        + enc_u32(s.public_key_set@.len() as int) + s.public_key_set@
}

impl SectionAuthorityProvider {
    /// Well-formedness: the prefix and names are well formed, there are
    /// between one and `ELDER_SIZE` elders with pairwise distinct names, the
    /// key set parses, its threshold is one less than a supermajority of the
    /// elder count, and the section key is the one the key set derives.
    pub open spec fn wf(&self) -> bool {
        &&& self.prefix.wf()
        &&& spec_names_wf(names_of(self.elders@))
        &&& spec_names_unique(names_of(self.elders@))
        &&& 1 <= self.elders@.len() <= ELDER_SIZE
        &&& pkset_valid(self.public_key_set@)
        &&& self.public_key_set@.len() < 0x100000000
        &&& pkset_threshold(self.public_key_set@)
            == spec_supermajority(self.elders@.len() as int) - 1
        &&& self.public_key@ == pkset_public_key(self.public_key_set@)
        &&& self.public_key@.len() == BLS_PK_LEN
    }

    /// The names of the section's elders, in the stored order.
    pub open spec fn spec_names(&self) -> Seq<Seq<u8>> {
        names_of(self.elders@)
    }

    /// Whether `n` is the name of one of the section's elders.
    pub open spec fn spec_contains_elder(&self, n: Seq<u8>) -> bool {
        exists|i: int| 0 <= i < self.elders@.len() && (#[trigger] self.elders@[i]).name@ == n
    }

    /// Builds a SAP from a prefix, elders and a serialized BLS key set.
    /// Rejects an empty elder set, more than `ELDER_SIZE` elders, a repeated
    /// name, a key set that does not parse, and a key set whose threshold is
    /// not one less than a supermajority of the elder count.
    pub fn new(prefix: Prefix, elders: Vec<Elder>, public_key_set: Vec<u8>) -> (r: Result<SectionAuthorityProvider, RoutingError>)
        requires
            prefix.wf(),
            spec_names_wf(names_of(elders@)),
        ensures
            r is Ok <==> (1 <= elders@.len() <= ELDER_SIZE
                && spec_names_unique(names_of(elders@))
                && pkset_valid(public_key_set@)
                && public_key_set@.len() < 0x100000000
                && pkset_threshold(public_key_set@)
                    == spec_supermajority(elders@.len() as int) - 1),
            r matches Ok(s) ==> s.wf()
                && s.prefix@ == prefix@
                && s.elders@ == elders@
                && s.public_key_set@ == public_key_set@
                && s.public_key@ == pkset_public_key(public_key_set@),
    {
        if elders.len() == 0 || elders.len() > ELDER_SIZE {
            return Err(RoutingError::UntrustedSectionAuthProvider);
        }
        if !names_unique(&elders) {
            return Err(RoutingError::UntrustedSectionAuthProvider);
        }
        if (public_key_set.len() as u64) >= 0x100000000u64 {
            return Err(RoutingError::UntrustedSectionAuthProvider);
        }
        let public_key = match bls_pkset_public_key(&public_key_set) {
            Some(k) => k,
            None => {
                return Err(RoutingError::UntrustedSectionAuthProvider);
            },
        };
        let threshold = match bls_pkset_threshold(&public_key_set) {
            Some(t) => t,
            None => {
                return Err(RoutingError::UntrustedSectionAuthProvider);
            },
        };
        let expected = crate::supermajority(elders.len());
        if threshold != expected - 1 {
            return Err(RoutingError::UntrustedSectionAuthProvider);
        }
        Ok(SectionAuthorityProvider { prefix, elders, public_key_set, public_key })
    }

    /// Whether `name` is one of the section's elders.
    pub fn contains_elder(&self, name: &XorName) -> (r: bool)
        ensures
            r == self.spec_contains_elder(name@),
    {
        let mut i: usize = 0;
        while i < self.elders.len()
            invariant
                i <= self.elders@.len(),
                forall|j: int| 0 <= j < i ==> (#[trigger] self.elders@[j]).name@ != name@,
            decreases self.elders@.len() - i,
        {
            if self.elders[i].name.equals(name) {
                return true;
            }
            i = i + 1;
        }
        false
    }

    /// Number of elders.
    pub fn elder_count(&self) -> (r: usize)
        ensures
            r == self.elders@.len(),
    {
        self.elders.len()
    }

    /// A fresh copy of the SAP, equal to it in every view.
    pub fn duplicate(&self) -> (r: SectionAuthorityProvider)
        ensures
            r.prefix@ == self.prefix@,
            elders_eq(r.elders@, self.elders@),
            r.public_key_set@ == self.public_key_set@,
            r.public_key@ == self.public_key@,
            r.wf() <==> self.wf(),
            spec_encode_sap(&r) == spec_encode_sap(self),
            r.spec_names() == self.spec_names(),
    {
        let r = SectionAuthorityProvider {
            prefix: self.prefix.duplicate(),
            elders: clone_elders(&self.elders),
            public_key_set: clone_bytes(&self.public_key_set),
            public_key: clone_bytes(&self.public_key),
        };
        proof {
            lemma_enc_elders_congruent(r.elders@, self.elders@);
            assert(r.spec_names() =~= self.spec_names());
        }
        r
    }

    /// The canonical bytes of the SAP, which its section signature covers.
    pub fn encode(&self) -> (r: Vec<u8>)
        requires
            self.prefix@.len() < 0x10000,
            self.elders@.len() < 0x10000,
            self.public_key_set@.len() < 0x100000000,
        ensures
            r@ == spec_encode_sap(self),
    {
        let mut out: Vec<u8> = Vec::new();
        push_u16(&mut out, self.prefix.bit_count());
        push_bits(&mut out, &self.prefix.bits);
        push_u16(&mut out, self.elders.len());
        let ghost head = out@;
        let mut i: usize = 0;
        while i < self.elders.len()
            invariant
                i <= self.elders@.len(),
                out@ == head + enc_elders(self.elders@.take(i as int)),
            decreases self.elders@.len() - i,
        {
            let e = &self.elders[i];
            push_bytes(&mut out, &e.name.bytes);
            push_addr(&mut out, &e.addr);
            proof {
                let t1 = self.elders@.take(i + 1);
                assert(t1.drop_last() =~= self.elders@.take(i as int));
                assert(t1.last() == self.elders@[i as int]);
                assert(out@ =~= head + enc_elders(t1));
            }
            i = i + 1;
        }
        proof {
            assert(self.elders@.take(self.elders@.len() as int) =~= self.elders@);
        }
        push_u32(&mut out, self.public_key_set.len());
        push_bytes(&mut out, &self.public_key_set);
        proof {
            assert(out@ =~= spec_encode_sap(self));
        }
        out
    }
}

/// Whether two elder sequences agree pointwise in name and address.
pub open spec fn elders_eq(a: Seq<Elder>, b: Seq<Elder>) -> bool {
    a.len() == b.len()
        && forall|i: int| 0 <= i < a.len()
            ==> (#[trigger] a[i]).name@ == b[i].name@ && a[i].addr == b[i].addr
}

/// Pointwise equal elder sequences have the same canonical encoding.
pub proof fn lemma_enc_elders_congruent(a: Seq<Elder>, b: Seq<Elder>)
    requires
        elders_eq(a, b),
    ensures
        enc_elders(a) == enc_elders(b),
    decreases a.len(),
{
    if a.len() > 0 {
        assert(elders_eq(a.drop_last(), b.drop_last()));
        lemma_enc_elders_congruent(a.drop_last(), b.drop_last());
        assert(enc_elder(a.last()) == enc_elder(b.last()));
    }
}

/// Copies a list of elders.
pub fn clone_elders(elders: &Vec<Elder>) -> (r: Vec<Elder>)
    ensures
        elders_eq(r@, elders@),
{
    let mut r: Vec<Elder> = Vec::new();
    let mut i: usize = 0;
    while i < elders.len()
        invariant
            i <= elders@.len(),
            r@.len() == i,
            forall|j: int| 0 <= j < i
                ==> (#[trigger] r@[j]).name@ == elders@[j].name@ && r@[j].addr == elders@[j].addr,
        decreases elders@.len() - i,
    {
        r.push(elders[i].duplicate());
        i = i + 1;
    }
    r
}

/// Whether the elder names are pairwise distinct.
pub fn names_unique(elders: &Vec<Elder>) -> (r: bool)
    ensures
        r == spec_names_unique(names_of(elders@)),
{
    let mut i: usize = 0;
    while i < elders.len()
        invariant
            i <= elders@.len(),
            forall|a: int, b: int| 0 <= a < b < elders@.len() && a < i
                ==> (#[trigger] elders@[a]).name@ != (#[trigger] elders@[b]).name@,
        decreases elders@.len() - i,
    {
        let mut j: usize = i + 1;
        while j < elders.len()
            invariant
                i < j <= elders@.len() || (i + 1 == j && j > elders@.len()),
                i < elders@.len(),
                forall|b: int| i < b < j ==> (#[trigger] elders@[b]).name@ != elders@[i as int].name@,
            decreases elders@.len() - j,
        {
            if elders[i].name.equals(&elders[j].name) {
                proof {
                    assert(names_of(elders@)[i as int] == names_of(elders@)[j as int]);
                }
                return false;
            }
            j = j + 1;
        }
        i = i + 1;
    }
    proof {
        assert forall|a: int, b: int| 0 <= a < b < names_of(elders@).len()
            implies #[trigger] names_of(elders@)[a] != #[trigger] names_of(elders@)[b] by {
            assert(elders@[a].name@ != elders@[b].name@);
        };
    }
    true
}

/// Law: a well-formed SAP has at most `ELDER_SIZE` elders, at least one, and
/// its key set's threshold is one less than a supermajority of its elder
/// count.
pub proof fn lemma_sap_bounds(s: &SectionAuthorityProvider)
    requires
        s.wf(),
    ensures
        1 <= s.elders@.len() <= ELDER_SIZE,
        pkset_threshold(s.public_key_set@) == spec_supermajority(s.elders@.len() as int) - 1,
{
}

/// Whether the section signature on a signed SAP verifies over the SAP's
/// canonical encoding with the signature's own key.
pub fn sap_self_verify(sa: &SectionAuth<SectionAuthorityProvider>) -> (r: bool)
    requires
        sa.value.prefix@.len() < 0x10000,
        sa.value.elders@.len() < 0x10000,
        sa.value.public_key_set@.len() < 0x100000000,
    ensures
        r == (bls_verifies(sa.sig.public_key@, sa.sig.signature@, spec_encode_sap(&sa.value))
            && sa.sig.public_key@ == sa.value.public_key@),
{
    let encoded = sa.value.encode();
    bls_verify(&sa.sig.public_key, &sa.sig.signature, &encoded)
        && bytes_eq(&sa.sig.public_key, &sa.value.public_key)
}

/// The elder candidates one DKG round shall turn into a section authority:
/// the candidate elders and the prefix of the section they will serve.
#[derive(Clone, Debug, PartialEq, Eq)]
pub struct ElderCandidates {
    /// The candidate elders.
    pub elders: Vec<Elder>,
    /// The prefix of the section the candidates will serve.
    pub prefix: Prefix,
}

impl ElderCandidates {
    /// Pairs candidate elders with the prefix they will serve.
    pub fn new(elders: Vec<Elder>, prefix: Prefix) -> (r: ElderCandidates)
        ensures
            r.elders@ == elders@,
            r.prefix@ == prefix@,
    {
        ElderCandidates { elders, prefix }
    }

    /// The position of `name` among the candidates, where there is one.
    pub fn position(&self, name: &XorName) -> (r: Option<usize>)
        ensures
            r matches Some(i) ==> i < self.elders@.len() && self.elders@[i as int].name@ == name@,
            r is None ==> forall|i: int| 0 <= i < self.elders@.len()
                ==> (#[trigger] self.elders@[i]).name@ != name@,
    {
        let mut i: usize = 0;
        while i < self.elders.len()
            invariant
                i <= self.elders@.len(),
                forall|j: int| 0 <= j < i ==> (#[trigger] self.elders@[j]).name@ != name@,
            decreases self.elders@.len() - i,
        {
            if self.elders[i].name.equals(name) {
                return Some(i);
            }
            i = i + 1;
        }
        None
    }
}

} // verus!
