//! The network prefix map: one signed SAP per prefix, the prefixes tiling a
//! part of name space with no prefix an ancestor of another. The map grows
//! monotonically as newer SAPs arrive; an entry is never replaced by one
//! whose key does not stand strictly later on the trusted chain.

use vstd::prelude::*;
use crate::chain::SectionChain;
use crate::crypto::{bls_verifies, BLS_PK_LEN};
use crate::sap::{sap_self_verify, spec_encode_sap, SectionAuthorityProvider};
use crate::signed::SectionAuth;
use crate::xor::{bytes_eq, spec_ancestor, spec_matches, XorName};

verus! {

/// The length of the longest shared lead of `p` and the name `n`: the largest
/// `k` such that the first `k` bits of `p` spell the first `k` bits of `n`.
pub open spec fn spec_agreement(p: Seq<bool>, n: Seq<u8>, i: int) -> int
    decreases p.len() - i when 0 <= i <= p.len()
{
    if i >= p.len() {
        i
    } else if p[i] == crate::xor::spec_bit(n, i) {
        spec_agreement(p, n, i + 1)
    } else {
        i
    }
}

/// Lexicographic order on prefixes, a shorter prefix standing before its
/// extensions.
pub open spec fn spec_bits_lt(a: Seq<bool>, b: Seq<bool>, i: int) -> bool
    decreases a.len() + b.len() - 2 * i when 0 <= i <= a.len() && i <= b.len()
{
    if i >= a.len() && i >= b.len() {
        false
    } else if i >= a.len() {
        true
    } else if i >= b.len() {
        false
    } else if a[i] != b[i] {
        !a[i]
    } else {
        spec_bits_lt(a, b, i + 1)
    }
}

/// Whether the entry with prefix `a` beats the entry with prefix `b` as the
/// section closest to `n`: a longer shared lead with `n`, or an equal lead
/// and the lexicographically smaller prefix.
pub open spec fn spec_pm_better(a: Seq<bool>, b: Seq<bool>, n: Seq<u8>) -> bool {
    spec_agreement(a, n, 0) > spec_agreement(b, n, 0)
        || (spec_agreement(a, n, 0) == spec_agreement(b, n, 0) && spec_bits_lt(a, b, 0))
}

/// The lexicographic order never puts a prefix before itself.
pub proof fn lemma_bits_lt_irrefl(a: Seq<bool>, i: int)
    requires
        0 <= i <= a.len(),
    ensures
        !spec_bits_lt(a, a, i),
    decreases a.len() - i,
{
    if i < a.len() {
        lemma_bits_lt_irrefl(a, i + 1);
    }
}

/// The lexicographic order on prefixes is transitive.
pub proof fn lemma_bits_lt_trans(a: Seq<bool>, b: Seq<bool>, c: Seq<bool>, i: int)
    requires
        0 <= i <= a.len(),
        0 <= i <= b.len(),
        0 <= i <= c.len(),
        spec_bits_lt(a, b, i),
        spec_bits_lt(b, c, i),
    ensures
        spec_bits_lt(a, c, i),
    decreases a.len() + b.len() + c.len() - 3 * i,
{
    if i < a.len() && i < b.len() && i < c.len() && a[i] == b[i] && b[i] == c[i] {
        lemma_bits_lt_trans(a, b, c, i + 1);
    }
}

/// Being the closer, or lexicographically smaller among equally close,
/// prefixes is transitive.
pub proof fn lemma_pm_better_trans(a: Seq<bool>, b: Seq<bool>, c: Seq<bool>, n: Seq<u8>)
    requires
        spec_pm_better(a, b, n),
        spec_pm_better(b, c, n),
    ensures
        spec_pm_better(a, c, n),
{
    if spec_agreement(a, n, 0) == spec_agreement(b, n, 0)
        && spec_agreement(b, n, 0) == spec_agreement(c, n, 0) {
        lemma_bits_lt_trans(a, b, c, 0);
    }
}

/// A prefix never beats itself.
pub proof fn lemma_pm_better_irrefl(a: Seq<bool>, n: Seq<u8>)
    ensures
        !spec_pm_better(a, a, n),
{
    lemma_bits_lt_irrefl(a, 0);
}

/// A signed SAP stored by the prefix map.
pub type SignedSap = SectionAuth<SectionAuthorityProvider>;

/// Whether the signed SAP self-verifies and its key can be trusted: it is
/// the genesis key or stands on the trusted chain.
pub open spec fn spec_sap_trusted(genesis: Seq<u8>, chain: &SectionChain, sap: &SignedSap) -> bool {
    &&& bls_verifies(sap.sig.public_key@, sap.sig.signature@, spec_encode_sap(&sap.value))
    &&& sap.sig.public_key@ == sap.value.public_key@
    &&& (sap.sig.public_key@ == genesis || chain.spec_has_key(sap.sig.public_key@))
}

/// Whether the key `new_k` stands strictly later on the chain than `old_k`:
/// it is on the chain, and `old_k` is not, or ranks strictly earlier.
pub open spec fn spec_strictly_newer(chain: &SectionChain, old_k: Seq<u8>, new_k: Seq<u8>) -> bool {
    chain.spec_has_key(new_k)
        && (!chain.spec_has_key(old_k)
            || chain.spec_rank_of(new_k) > chain.spec_rank_of(old_k))
}

/// A map from prefix to signed SAP, anchored on the genesis key.
#[derive(Clone, Debug, PartialEq, Eq)]
pub struct NetworkPrefixMap {
    /// The network's genesis key.
    pub genesis_key: Vec<u8>,
    /// One signed SAP per prefix.
    pub sections: Vec<SignedSap>,
}

impl NetworkPrefixMap {
    /// Whether the entry at position `i` is internally sound: a well-formed,
    /// self-verified SAP.
    pub open spec fn spec_entry_ok(e: SignedSap) -> bool {
        &&& e.value.wf()
        &&& e.sig.public_key@ == e.value.public_key@
        &&& bls_verifies(e.sig.public_key@, e.sig.signature@, spec_encode_sap(&e.value))
    }

    /// Well-formedness: the genesis key has its scheme's length, every entry
    /// is a well-formed, self-verified SAP, and no two entries' prefixes are
    /// in an ancestor/descendant relation (so no two are equal either).
    pub open spec fn wf(&self) -> bool {
        &&& self.genesis_key@.len() == BLS_PK_LEN
        &&& forall|i: int| 0 <= i < self.sections@.len()
            ==> Self::spec_entry_ok(#[trigger] self.sections@[i])
        &&& forall|i: int, j: int| 0 <= i < self.sections@.len() && 0 <= j < self.sections@.len()
            && i != j
            ==> !spec_ancestor(
                (#[trigger] self.sections@[i]).value.prefix@,
                (#[trigger] self.sections@[j]).value.prefix@,
            )
    }

    /// An empty map anchored on the genesis key.
    pub fn new(genesis_key: Vec<u8>) -> (r: NetworkPrefixMap)
        requires
            genesis_key@.len() == BLS_PK_LEN,
        ensures
            r.wf(),
            r.genesis_key@ == genesis_key@,
            r.sections@.len() == 0,
    {
        NetworkPrefixMap { genesis_key, sections: Vec::new() }
    }

    /// How many sections the map knows.
    pub fn known_sections_count(&self) -> (r: usize)
        ensures
            r == self.sections@.len(),
    {
        self.sections.len()
    }

    /// Whether some entry carries exactly the prefix `p`.
    pub open spec fn spec_has_prefix(&self, p: Seq<bool>) -> bool {
        exists|i: int| 0 <= i < self.sections@.len()
            && (#[trigger] self.sections@[i]).value.prefix@ == p
    }

    /// The position of the entry that carries the prefix `p`.
    pub open spec fn spec_prefix_index(&self, p: Seq<bool>) -> int {
        choose|i: int| 0 <= i < self.sections@.len()
            && (#[trigger] self.sections@[i]).value.prefix@ == p
    }

    /// Whether `insert` accepts the signed SAP: it must be trusted, and
    /// either replace the entry of its own prefix under a strictly newer key,
    /// or bring a new prefix of which no known prefix is an extension.
    pub open spec fn spec_insert_accepts(&self, chain: &SectionChain, sap: &SignedSap) -> bool {
        &&& spec_sap_trusted(self.genesis_key@, chain, sap)
        &&& if self.spec_has_prefix(sap.value.prefix@) {
            spec_strictly_newer(
                chain,
                self.sections@[self.spec_prefix_index(sap.value.prefix@)].sig.public_key@,
                sap.sig.public_key@,
            )
        } else {
            forall|i: int| 0 <= i < self.sections@.len()
                ==> !spec_ancestor(sap.value.prefix@, (#[trigger] self.sections@[i]).value.prefix@)
        }
    }

    /// The position of the entry whose prefix equals `p`, where there is one.
    fn find_prefix(&self, p: &crate::xor::Prefix) -> (r: Option<usize>)
        ensures
            r matches Some(i) ==> i < self.sections@.len()
                && self.sections@[i as int].value.prefix@ == p@,
            r is None ==> forall|i: int| 0 <= i < self.sections@.len()
                ==> (#[trigger] self.sections@[i]).value.prefix@ != p@,
    {
        let mut i: usize = 0;
        while i < self.sections.len()
            invariant
                i <= self.sections@.len(),
                forall|j: int| 0 <= j < i
                    ==> (#[trigger] self.sections@[j]).value.prefix@ != p@,
            decreases self.sections@.len() - i,
        {
            if self.sections[i].value.prefix.equals(p) {
                return Option::Some(i);
            }
            i = i + 1;
        }
        Option::None
    }

    /// Accepts a signed SAP. The SAP must self-verify and its key must be the
    /// genesis key or stand on the trusted chain. A SAP for a known prefix
    /// replaces the old entry exactly when its key stands strictly later on
    /// the chain; inserting the same SAP again is a no-op. A SAP for a new
    /// prefix is rejected while an entry for a strict extension of it exists,
    /// and otherwise replaces all entries for strict ancestors of its prefix.
    /// Returns whether the map changed.
    pub fn insert(&mut self, sap: SignedSap, chain: &SectionChain) -> (r: bool)
        requires
            old(self).wf(),
            sap.value.wf(),
            chain.wf(),
        ensures
            final(self).wf(),
            final(self).genesis_key@ == old(self).genesis_key@,
            r == old(self).spec_insert_accepts(chain, &sap),
            !r ==> *final(self) == *old(self),
            r ==> exists|i: int| 0 <= i < final(self).sections@.len()
                && (#[trigger] final(self).sections@[i]).value.prefix@ == sap.value.prefix@
                && final(self).sections@[i] == sap,
            // an accepted SAP of a known prefix replaces exactly that entry
            (r && old(self).spec_has_prefix(sap.value.prefix@))
                ==> final(self).sections@ == old(self).sections@.update(
                    old(self).spec_prefix_index(sap.value.prefix@), sap),
            // an accepted SAP of a new prefix keeps every entry that is not a
            // strict ancestor of it, and adds nothing else
            (r && !old(self).spec_has_prefix(sap.value.prefix@)) ==> {
                &&& forall|j: int| 0 <= j < old(self).sections@.len()
                    && !spec_ancestor(
                        (#[trigger] old(self).sections@[j]).value.prefix@, sap.value.prefix@)
                    ==> final(self).sections@.contains(old(self).sections@[j])
                &&& forall|t: int| 0 <= t < final(self).sections@.len()
                    ==> old(self).sections@.contains(#[trigger] final(self).sections@[t])
                        || final(self).sections@[t] == sap
            },
            // inserting a SAP the map already holds is a no-op: together with
            // the clauses above, inserting the same SAP twice equals inserting
            // it once
            (exists|i: int| 0 <= i < old(self).sections@.len()
                && #[trigger] old(self).sections@[i] == sap)
                ==> !r && *final(self) == *old(self),
    {
        proof {
            if exists|i: int| 0 <= i < old(self).sections@.len()
                && #[trigger] old(self).sections@[i] == sap {
                let i0 = choose|i: int| 0 <= i < old(self).sections@.len()
                    && #[trigger] old(self).sections@[i] == sap;
                assert(NetworkPrefixMap::spec_entry_ok(old(self).sections@[i0]));
            }
        }
        if !sap_self_verify(&sap) {
            return false;
        }
        if !(bytes_eq(&sap.sig.public_key, &self.genesis_key)
            || chain.has_key(&sap.sig.public_key))
        {
            return false;
        }
        let found = self.find_prefix(&sap.value.prefix);
        match found {
            Option::Some(i) => {
                proof {
                    // the prefixes being unique, the found position is the
                    // prefix's one and only index
                    assert(old(self).spec_has_prefix(sap.value.prefix@));
                    let ci = old(self).spec_prefix_index(sap.value.prefix@);
                    if ci != i as int {
                        let p = old(self).sections@[ci].value.prefix@;
                        assert(p == old(self).sections@[i as int].value.prefix@);
                        assert(p.take(p.len() as int) =~= p);
                        assert(spec_ancestor(
                            old(self).sections@[ci].value.prefix@,
                            old(self).sections@[i as int].value.prefix@,
                        ));
                    }
                    assert(ci == i as int);
                    // an entry equal to `sap` can only sit at that position
                    if exists|t: int| 0 <= t < old(self).sections@.len()
                        && #[trigger] old(self).sections@[t] == sap {
                        let t0 = choose|t: int| 0 <= t < old(self).sections@.len()
                            && #[trigger] old(self).sections@[t] == sap;
                        if t0 != i as int {
                            let p = old(self).sections@[t0].value.prefix@;
                            assert(p == old(self).sections@[i as int].value.prefix@);
                            assert(p.take(p.len() as int) =~= p);
                            assert(spec_ancestor(
                                old(self).sections@[t0].value.prefix@,
                                old(self).sections@[i as int].value.prefix@,
                            ));
                        }
                        assert(old(self).sections@[i as int] == sap);
                    }
                }
                // same prefix: replace only under a strictly newer key
                let old_rank = chain.rank_of(&self.sections[i].sig.public_key);
                let new_rank = chain.rank_of(&sap.sig.public_key);
                let newer = match (old_rank, new_rank) {
                    (Option::None, Option::Some(_)) => true,
                    (Option::Some(ro), Option::Some(rn)) => rn > ro,
                    _ => false,
                };
                proof {
                    assert(newer == spec_strictly_newer(
                        chain,
                        old(self).sections@[i as int].sig.public_key@,
                        sap.sig.public_key@,
                    ));
                }
                if !newer {
                    return false;
                }
                self.sections.set(i, sap);
                proof {
                    assert forall|a: int, b: int| 0 <= a < self.sections@.len()
                        && 0 <= b < self.sections@.len() && a != b
                        implies !spec_ancestor(
                            (#[trigger] self.sections@[a]).value.prefix@,
                            (#[trigger] self.sections@[b]).value.prefix@,
                        ) by {
                        assert(old(self).sections@[i as int].value.prefix@
                            == self.sections@[i as int].value.prefix@);
                        if a != i && b != i {
                            assert(self.sections@[a] == old(self).sections@[a]);
                            assert(self.sections@[b] == old(self).sections@[b]);
                        } else if a == i {
                            assert(self.sections@[b] == old(self).sections@[b]);
                        } else {
                            assert(self.sections@[a] == old(self).sections@[a]);
                        }
                    };
                    assert(self.sections@[i as int] == sap);
                    assert forall|a: int| 0 <= a < self.sections@.len()
                        implies Self::spec_entry_ok(#[trigger] self.sections@[a]) by {
                        if a != i {
                            assert(self.sections@[a] == old(self).sections@[a]);
                        }
                    };
                    assert(self.genesis_key@ == old(self).genesis_key@);
                    assert(self.sections@ =~= old(self).sections@.update(i as int, sap));
                }
                true
            },
            Option::None => {
                // a new prefix: refuse while a strict extension is known
                let mut i: usize = 0;
                while i < self.sections.len()
                    invariant
                        self.wf(),
                        sap.value.wf(),
                        i <= self.sections@.len(),
                        forall|j: int| 0 <= j < i
                            ==> !spec_ancestor(sap.value.prefix@,
                                (#[trigger] self.sections@[j]).value.prefix@),
                        forall|j: int| 0 <= j < old(self).sections@.len()
                            ==> (#[trigger] old(self).sections@[j]).value.prefix@
                                != sap.value.prefix@,
                        *self == *old(self),
                    decreases self.sections@.len() - i,
                {
                    if sap.value.prefix.is_ancestor_of(&self.sections[i].value.prefix) {
                        proof {
                            assert(!old(self).spec_has_prefix(sap.value.prefix@));
                            assert(spec_ancestor(sap.value.prefix@,
                                old(self).sections@[i as int].value.prefix@));
                        }
                        return false;
                    }
                    i = i + 1;
                }
                // drop strict ancestors of the new prefix, keep the rest
                let ghost orig = self.sections@;
                proof {
                    assert(forall|j: int| 0 <= j < orig.len()
                        ==> !spec_ancestor(sap.value.prefix@, (#[trigger] orig[j]).value.prefix@));
                    assert(forall|j1: int, j2: int| 0 <= j1 < orig.len() && 0 <= j2 < orig.len()
                        && j1 != j2
                        ==> !spec_ancestor((#[trigger] orig[j1]).value.prefix@,
                            (#[trigger] orig[j2]).value.prefix@));
                    assert(forall|j: int| 0 <= j < orig.len()
                        ==> Self::spec_entry_ok(#[trigger] orig[j]));
                }
                let mut kept: Vec<SignedSap> = Vec::new();
                let ghost mut k: int = 0;
                while self.sections.len() > 0
                    invariant
                        sap.value.wf(),
                        self.genesis_key@ == old(self).genesis_key@,
                        0 <= k <= orig.len(),
                        self.sections@ =~= orig.skip(k),
                        forall|j: int| 0 <= j < orig.len()
                            ==> !spec_ancestor(sap.value.prefix@, (#[trigger] orig[j]).value.prefix@),
                        forall|j1: int, j2: int| 0 <= j1 < orig.len() && 0 <= j2 < orig.len()
                            && j1 != j2
                            ==> !spec_ancestor((#[trigger] orig[j1]).value.prefix@,
                                (#[trigger] orig[j2]).value.prefix@),
                        forall|j: int| 0 <= j < orig.len()
                            ==> Self::spec_entry_ok(#[trigger] orig[j]),
                        forall|t: int| 0 <= t < kept@.len()
                            ==> exists|j: int| 0 <= j < k && #[trigger] kept@[t] == orig[j],
                        forall|j: int| 0 <= j < k
                            && !spec_ancestor(
                                (#[trigger] orig[j]).value.prefix@, sap.value.prefix@)
                            ==> kept@.contains(orig[j]),
                        forall|t: int| 0 <= t < kept@.len()
                            ==> !spec_ancestor((#[trigger] kept@[t]).value.prefix@, sap.value.prefix@),
                        forall|t1: int, t2: int| 0 <= t1 < t2 < kept@.len()
                            ==> !spec_ancestor(
                                (#[trigger] kept@[t1]).value.prefix@,
                                (#[trigger] kept@[t2]).value.prefix@,
                            ) && !spec_ancestor(kept@[t2].value.prefix@, kept@[t1].value.prefix@),
                    decreases self.sections@.len(),
                {
                    let e = self.sections.remove(0);
                    proof {
                        assert(orig.skip(k)[0] == orig[k]);
                        assert(self.sections@ =~= orig.skip(k + 1));
                    }
                    let ghost old_kept = kept@;
                    let keep = !e.value.prefix.is_ancestor_of(&sap.value.prefix);
                    if keep {
                        kept.push(e);
                        proof {
                            assert(kept@.last() == orig[k]);
                            assert(kept@[kept@.len() - 1] == orig[k]);
                            assert forall|t1: int, t2: int| 0 <= t1 < t2 < kept@.len()
                                implies !spec_ancestor(
                                    (#[trigger] kept@[t1]).value.prefix@,
                                    (#[trigger] kept@[t2]).value.prefix@,
                                ) && !spec_ancestor(kept@[t2].value.prefix@, kept@[t1].value.prefix@) by {
                                if t2 == kept@.len() - 1 {
                                    let j1 = choose|j: int| 0 <= j < k && #[trigger] old_kept[t1] == orig[j];
                                    assert(kept@[t1] == orig[j1]);
                                    assert(kept@[t2] == orig[k]);
                                    assert(j1 != k);
                                }
                            };
                        }
                    }
                    proof {
                        assert forall|j: int| 0 <= j < k + 1
                            && !spec_ancestor(
                                (#[trigger] orig[j]).value.prefix@, sap.value.prefix@)
                            implies kept@.contains(orig[j]) by {
                            if j < k {
                                let t = choose|t: int| 0 <= t < old_kept.len()
                                    && old_kept[t] == orig[j];
                                assert(kept@[t] == orig[j]);
                            } else {
                                assert(kept@[kept@.len() - 1] == orig[k]);
                            }
                        };
                        k = k + 1;
                    }
                }
                self.sections = kept;
                self.sections.push(sap);
                proof {
                    let n = self.sections@.len() - 1;
                    assert(self.sections@[n] == sap);
                    assert forall|a: int, b: int| 0 <= a < self.sections@.len()
                        && 0 <= b < self.sections@.len() && a != b
                        implies !spec_ancestor(
                            (#[trigger] self.sections@[a]).value.prefix@,
                            (#[trigger] self.sections@[b]).value.prefix@,
                        ) by {
                        if a < n && b < n {
                            assert(self.sections@[a] == kept@[a]);
                            assert(self.sections@[b] == kept@[b]);
                        } else if a == n {
                            // the new prefix is no ancestor of any kept entry
                            assert(self.sections@[b] == kept@[b]);
                            let jb = choose|j: int| 0 <= j < orig.len() && #[trigger] kept@[b] == orig[j];
                            assert(!spec_ancestor(sap.value.prefix@, orig[jb].value.prefix@));
                        } else {
                            assert(self.sections@[a] == kept@[a]);
                        }
                    };
                    assert forall|a: int| 0 <= a < self.sections@.len()
                        implies Self::spec_entry_ok(#[trigger] self.sections@[a]) by {
                        if a < n {
                            assert(self.sections@[a] == kept@[a]);
                            let ja = choose|j: int| 0 <= j < orig.len() && #[trigger] kept@[a] == orig[j];
                            assert(Self::spec_entry_ok(orig[ja]));
                        }
                    };
                    // the acceptance condition held, and the effects follow
                    assert(old(self).spec_insert_accepts(chain, &sap));
                    assert forall|j: int| 0 <= j < orig.len()
                        && !spec_ancestor((#[trigger] orig[j]).value.prefix@, sap.value.prefix@)
                        implies self.sections@.contains(orig[j]) by {
                        let t = choose|t: int| 0 <= t < kept@.len() && kept@[t] == orig[j];
                        assert(self.sections@[t] == orig[j]);
                    };
                    assert forall|t: int| 0 <= t < self.sections@.len()
                        implies orig.contains(#[trigger] self.sections@[t])
                            || self.sections@[t] == sap by {
                        if t < n {
                            assert(self.sections@[t] == kept@[t]);
                            let ja = choose|j: int| 0 <= j < orig.len()
                                && #[trigger] kept@[t] == orig[j];
                            assert(orig[ja] == self.sections@[t]);
                        }
                    };
                }
                true
            },
        }
    }

    /// The entry whose prefix matches `name`; when none matches, the entry
    /// whose prefix shares the longest lead with `name`, the lexicographically
    /// smaller prefix breaking ties. Returns nothing only on an empty map.
    pub fn closest_or_opposite(&self, name: &XorName) -> (r: Option<&SignedSap>)
        requires
            self.wf(),
            name.wf(),
        ensures
            r is Some <==> self.sections@.len() > 0,
            r matches Some(e) ==> exists|i: int| 0 <= i < self.sections@.len()
                && *e == #[trigger] self.sections@[i],
            r matches Some(e) ==> (
                (exists|i: int| 0 <= i < self.sections@.len()
                    && spec_matches((#[trigger] self.sections@[i]).value.prefix@, name@))
                    ==> spec_matches(e.value.prefix@, name@)),
            r matches Some(e) ==> forall|i: int| 0 <= i < self.sections@.len()
                ==> !spec_pm_better((#[trigger] self.sections@[i]).value.prefix@,
                    e.value.prefix@, name@)
                    || spec_matches(e.value.prefix@, name@),
    {
        if self.sections.len() == 0 {
            return Option::None;
        }
        // a matching prefix wins outright
        let mut i: usize = 0;
        while i < self.sections.len()
            invariant
                self.wf(),
                name.wf(),
                i <= self.sections@.len(),
                forall|j: int| 0 <= j < i
                    ==> !spec_matches((#[trigger] self.sections@[j]).value.prefix@, name@),
            decreases self.sections@.len() - i,
        {
            if self.sections[i].value.prefix.matches(name) {
                return Option::Some(&self.sections[i]);
            }
            i = i + 1;
        }
        // otherwise scan for the closest prefix
        let mut best: usize = 0;
        proof {
            lemma_pm_better_irrefl(self.sections@[0].value.prefix@, name@);
        }
        let mut j: usize = 1;
        while j < self.sections.len()
            invariant
                self.wf(),
                name.wf(),
                self.sections@.len() > 0,
                best < j,
                j <= self.sections@.len(),
                forall|t: int| 0 <= t < j
                    ==> !spec_pm_better((#[trigger] self.sections@[t]).value.prefix@,
                        self.sections@[best as int].value.prefix@, name@),
            decreases self.sections@.len() - j,
        {
            if pm_better(&self.sections[j].value.prefix, &self.sections[best].value.prefix, name) {
                proof {
                    let pj = self.sections@[j as int].value.prefix@;
                    let pb = self.sections@[best as int].value.prefix@;
                    assert forall|t: int| 0 <= t < j + 1
                        implies !spec_pm_better((#[trigger] self.sections@[t]).value.prefix@,
                            pj, name@) by {
                        let pt = self.sections@[t].value.prefix@;
                        if t < j && spec_pm_better(pt, pj, name@) {
                            lemma_pm_better_trans(pt, pj, pb, name@);
                        }
                        if t == j {
                            lemma_pm_better_irrefl(pj, name@);
                        }
                    };
                }
                best = j;
            }
            j = j + 1;
        }
        Option::Some(&self.sections[best])
    }
}

/// Law: no two prefixes of a well-formed prefix map stand in an
/// ancestor/descendant relation; the known sections tile a part of name
/// space without overlap.
pub proof fn lemma_prefixes_tile(m: &NetworkPrefixMap)
    requires
        m.wf(),
    ensures
        forall|i: int, j: int| 0 <= i < m.sections@.len() && 0 <= j < m.sections@.len() && i != j
            ==> !spec_ancestor(
                (#[trigger] m.sections@[i]).value.prefix@,
                (#[trigger] m.sections@[j]).value.prefix@,
            ),
{
}

/// Whether the prefix `a` beats the prefix `b` as the section closest to the
/// name `n`.
fn pm_better(a: &crate::xor::Prefix, b: &crate::xor::Prefix, n: &XorName) -> (r: bool)
    requires
        a.wf(),
        b.wf(),
        n.wf(),
    ensures
        r == spec_pm_better(a@, b@, n@),
{
    let agree_a = agreement_len(a, n);
    let agree_b = agreement_len(b, n);
    agree_a > agree_b || (agree_a == agree_b && bits_lt(a, b))
}

/// The length of the longest shared lead of the prefix and the name.
fn agreement_len(p: &crate::xor::Prefix, n: &XorName) -> (r: usize)
    requires
        p.wf(),
        n.wf(),
    ensures
        r == spec_agreement(p@, n@, 0),
{
    let mut i: usize = 0;
    while i < p.bits.len()
        invariant
            p.wf(),
            n.wf(),
            i <= p@.len(),
            spec_agreement(p@, n@, 0) == spec_agreement(p@, n@, i as int),
            forall|j: int| 0 <= j < i ==> p@[j] == crate::xor::spec_bit(n@, j),
        decreases p@.len() - i,
    {
        if p.bits[i] != n.bit(i) {
            return i;
        }
        i = i + 1;
    }
    i
}

/// Lexicographic comparison of two prefixes, a shorter one standing before
/// its extensions.
fn bits_lt(a: &crate::xor::Prefix, b: &crate::xor::Prefix) -> (r: bool)
    ensures
        r == spec_bits_lt(a@, b@, 0),
{
    let mut i: usize = 0;
    while i < a.bits.len() && i < b.bits.len()
        invariant
            i <= a@.len(),
            i <= b@.len(),
            spec_bits_lt(a@, b@, 0) == spec_bits_lt(a@, b@, i as int),
            forall|j: int| 0 <= j < i ==> a@[j] == b@[j],
        decreases a@.len() - i,
    {
        if a.bits[i] != b.bits[i] {
            return !a.bits[i];
        }
        i = i + 1;
    }
    i >= a.bits.len() && i < b.bits.len()
}

} // verus!
