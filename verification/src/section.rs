//! A section: its genesis key, its key chain, its signed authority provider
//! and its members. The invariants: the signed SAP's key is the chain's last
//! key and the SAP's own section key, and every member record's signature
//! verifies against a key on the chain.

use vstd::prelude::*;
use vstd::seq_lib::*;
use crate::chain::SectionChain;
use crate::crypto::{
    bls_combine_signatures, bls_keyset_random, bls_share_sign, bls_verifies, BLS_PK_LEN,
};
use crate::errors::RoutingError;
use crate::node_state::{
    spec_encode_node_state, spec_mature, MembershipState, NodeState, Peer, MIN_ADULT_AGE,
};
use crate::peers::{
    name_listed, peer_matches, pfx_view, rank_before, select_elders, spec_is_candidate,
    spec_pool_entry, spec_supersedes, xor_names, SectionPeers,
};
use crate::sap::{
    names_of, sap_self_verify, spec_encode_sap, spec_names_unique, spec_names_wf, Elder,
    ElderCandidates, SectionAuthorityProvider,
};
use crate::signed::{KeyedSig, SectionAuth};
use crate::xor::{
    bytes_eq, clone_bytes, spec_bit, spec_matches, Prefix, XorName, XOR_NAME_BITS, XOR_NAME_LEN,
};
use crate::{spec_supermajority, ELDER_SIZE, RECOMMENDED_SECTION_SIZE};

verus! {

/// Whether a member counts toward the given half of a split: joined, mature,
/// not excluded, and carrying the given bit at the given position.
pub open spec fn split_pred(excluded: Seq<Seq<u8>>, idx: int, bit: bool) -> spec_fn(SectionAuth<NodeState>) -> bool {
    |m: SectionAuth<NodeState>| m.value.state is Joined
        && spec_mature(m.value.peer.name@)
        && !excluded.contains(m.value.peer.name@)
        && spec_bit(m.value.peer.name@, idx) == bit
}

/// How many members count toward the given half of a split.
pub open spec fn spec_split_count(
    ms: Seq<SectionAuth<NodeState>>,
    excluded: Seq<Seq<u8>>,
    idx: int,
    bit: bool,
) -> int {
    ms.filter(split_pred(excluded, idx, bit)).len() as int
}

/// One node's share of its section's BLS key set.
#[derive(Clone, Debug, PartialEq, Eq)]
pub struct SectionKeyShare {
    /// The serialized public key set of the section.
    pub public_key_set: Vec<u8>,
    /// The index of this share within the set.
    pub index: usize,
    /// The secret key share.
    pub secret_key_share: Vec<u8>,
}

/// A section's own view of itself.
#[derive(Clone, Debug, PartialEq, Eq)]
pub struct Section {
    /// The network's genesis key, the root of the chain.
    pub genesis_key: Vec<u8>,
    /// The section's key chain.
    pub chain: SectionChain,
    /// The current SAP with the section signature over it.
    pub section_auth: SectionAuth<SectionAuthorityProvider>,
    /// The section's membership records.
    pub members: SectionPeers,
}

impl Section {
    /// Whether a member record's signature verifies against a chain key.
    pub open spec fn spec_member_verified(&self, m: SectionAuth<NodeState>) -> bool {
        self.chain.spec_has_key(m.sig.public_key@)
            && bls_verifies(m.sig.public_key@, m.sig.signature@, spec_encode_node_state(&m.value))
    }

    /// Well-formedness: the chain is well formed and rooted at the genesis
    /// key; the signed SAP is well formed, self-verified, and its signing key
    /// is both the chain's last key and the SAP's own section key; the member
    /// records are well formed and each one verifies against the chain.
    pub open spec fn wf(&self) -> bool {
        &&& self.chain.wf()
        &&& self.genesis_key@ == self.chain.root@
        &&& self.section_auth.value.wf()
        &&& self.section_auth.sig.public_key@ == self.chain.spec_last_key()
        &&& self.section_auth.sig.public_key@ == self.section_auth.value.public_key@
        &&& bls_verifies(
            self.section_auth.sig.public_key@,
            self.section_auth.sig.signature@,
            spec_encode_sap(&self.section_auth.value),
        )
        &&& self.members.wf()
        &&& forall|i: int| 0 <= i < self.members.members@.len()
            ==> self.spec_member_verified(#[trigger] self.members.members@[i])
    }

    /// Builds a section from a genesis key, a chain and a signed SAP, with no
    /// members yet. Rejects a SAP whose signing key is not the chain's last
    /// key, a genesis key that is not the chain's root, a section signature
    /// that does not verify over the SAP, and a signing key that is not the
    /// SAP's own section key.
    pub fn new(
        genesis_key: Vec<u8>,
        chain: SectionChain,
        section_auth: SectionAuth<SectionAuthorityProvider>,
    ) -> (r: Result<Section, RoutingError>)
        requires
            chain.wf(),
            section_auth.value.wf(),
        ensures
            r is Ok <==> (section_auth.sig.public_key@ == chain.spec_last_key()
                && genesis_key@ == chain.root@
                && bls_verifies(
                    section_auth.sig.public_key@,
                    section_auth.sig.signature@,
                    spec_encode_sap(&section_auth.value),
                )
                && section_auth.sig.public_key@ == section_auth.value.public_key@),
            r matches Ok(s) ==> s.wf()
                && s.genesis_key@ == genesis_key@
                && s.chain == chain
                && s.section_auth == section_auth
                && s.members.members@.len() == 0,
    {
        if !bytes_eq(&section_auth.sig.public_key, &chain.last_key()) {
            return Err(RoutingError::UntrustedSectionAuthProvider);
        }
        if !bytes_eq(&genesis_key, chain.root_key()) {
            return Err(RoutingError::UntrustedProofChain);
        }
        if !sap_self_verify(&section_auth) {
            return Err(RoutingError::UntrustedSectionAuthProvider);
        }
        Ok(Section { genesis_key, chain, section_auth, members: SectionPeers::new() })
    }

    /// The network's genesis key.
    pub fn genesis_key(&self) -> (r: &Vec<u8>)
        ensures
            r@ == self.genesis_key@,
    {
        &self.genesis_key
    }

    /// The section's key chain.
    pub fn chain(&self) -> (r: &SectionChain)
        ensures
            r == &self.chain,
    {
        &self.chain
    }

    /// The current section authority provider.
    pub fn authority_provider(&self) -> (r: &SectionAuthorityProvider)
        ensures
            r == &self.section_auth.value,
    {
        &self.section_auth.value
    }

    /// The current SAP together with the section signature over it.
    pub fn section_signed_authority_provider(&self) -> (r: &SectionAuth<SectionAuthorityProvider>)
        ensures
            r == &self.section_auth,
    {
        &self.section_auth
    }

    /// Whether `name` is one of the section's elders.
    pub fn is_elder(&self, name: &XorName) -> (r: bool)
        ensures
            r == self.section_auth.value.spec_contains_elder(name@),
    {
        self.authority_provider().contains_elder(name)
    }

    /// The section's prefix.
    pub fn prefix(&self) -> (r: &crate::xor::Prefix)
        ensures
            r == &self.section_auth.value.prefix,
    {
        &self.section_auth.value.prefix
    }

    /// The section's membership records.
    pub fn members(&self) -> (r: &SectionPeers)
        ensures
            r == &self.members,
    {
        &self.members
    }

    /// Accepts a member record if its signature verifies against the chain,
    /// and the record strictly supersedes any existing record for the same
    /// name. Returns whether anything changed.
    pub fn update_member(&mut self, node_state: SectionAuth<NodeState>) -> (r: bool)
        requires
            old(self).wf(),
            node_state.value.peer.name@.len() == XOR_NAME_LEN,
        ensures
            final(self).wf(),
            final(self).chain == old(self).chain,
            final(self).section_auth == old(self).section_auth,
            final(self).genesis_key@ == old(self).genesis_key@,
            !old(self).spec_member_verified(node_state) ==> !r && *final(self) == *old(self),
            old(self).spec_member_verified(node_state)
                && !old(self).members.spec_has(node_state.value.peer.name@)
                ==> r && final(self).members.members@ == old(self).members.members@.push(node_state),
            (old(self).spec_member_verified(node_state)
                && old(self).members.spec_has(node_state.value.peer.name@)) ==> {
                let i = old(self).members.spec_index_of(node_state.value.peer.name@);
                &&& r == spec_supersedes(&old(self).chain, &old(self).members.members@[i], &node_state)
                &&& (r ==> final(self).members.members@
                    == old(self).members.members@.update(i, node_state))
                &&& (!r ==> *final(self) == *old(self))
            },
            // names only accrue: every known name survives, and a verified
            // record's name is known afterwards
            forall|k: Seq<u8>| old(self).members.spec_has(k) ==> final(self).members.spec_has(k),
            old(self).spec_member_verified(node_state)
                ==> final(self).members.spec_has(node_state.value.peer.name@),
            // provenance: every record afterwards was there before or is the
            // accepted one
            forall|t: int| 0 <= t < final(self).members.members@.len()
                ==> old(self).members.members@.contains(#[trigger] final(self).members.members@[t])
                    || final(self).members.members@[t] == node_state,
    {
        let encoded = node_state.value.encode();
        if !self.chain.check_sig(&node_state.sig, &encoded) {
            return false;
        }
        let ghost ns = node_state;
        let r = self.members.update(node_state, &self.chain);
        proof {
            assert forall|i: int| 0 <= i < self.members.members@.len()
                implies self.spec_member_verified(#[trigger] self.members.members@[i]) by {
                if old(self).members.spec_has(ns.value.peer.name@) {
                    let j = old(self).members.spec_index_of(ns.value.peer.name@);
                    if r && i != j {
                        assert(self.members.members@[i] == old(self).members.members@[i]);
                    }
                } else {
                    if i < old(self).members.members@.len() {
                        assert(self.members.members@[i] == old(self).members.members@[i]);
                    }
                }
            };
            let ghost j0: int = if old(self).members.spec_has(ns.value.peer.name@) {
                old(self).members.spec_index_of(ns.value.peer.name@)
            } else {
                old(self).members.members@.len() as int
            };
            assert forall|k: Seq<u8>| old(self).members.spec_has(k)
                implies self.members.spec_has(k) by {
                let j = choose|j: int| 0 <= j < old(self).members.members@.len()
                    && old(self).members.spec_names()[j] == k;
                if r && j == j0 {
                    // the record at that name was replaced by one of the
                    // same name
                    assert(self.members.members@[j].value.peer.name@ == k);
                    assert(self.members.spec_names()[j] == k);
                } else {
                    assert(self.members.members@[j] == old(self).members.members@[j]);
                    assert(self.members.spec_names()[j] == k);
                }
            };
            if old(self).spec_member_verified(ns) {
                if old(self).members.spec_has(ns.value.peer.name@) {
                    assert(self.members.members@[j0].value.peer.name@ == ns.value.peer.name@);
                    assert(self.members.spec_names()[j0] == ns.value.peer.name@);
                } else {
                    let n = self.members.members@.len() - 1;
                    assert(self.members.members@[n] == ns);
                    assert(self.members.spec_names()[n] == ns.value.peer.name@);
                }
            }
            assert forall|t: int| 0 <= t < self.members.members@.len()
                implies old(self).members.members@.contains(#[trigger] self.members.members@[t])
                    || self.members.members@[t] == ns by {
                if t < old(self).members.members@.len() && !(r && t == j0) {
                    assert(self.members.members@[t] == old(self).members.members@[t]);
                }
            };
        }
        r
    }

    /// Merges another set of member records into this section's: each record
    /// is accepted under the usual verification and precedence rules, and
    /// afterwards every member whose name does not match the section's prefix
    /// is pruned. Every incoming record that verifies against the chain and
    /// whose name matches the prefix leaves a member under its name (its own
    /// record, or one that outranked it); every final record was a member
    /// before or arrived with the incoming set.
    pub fn merge_members(&mut self, members: Option<SectionPeers>) -> (r: Result<(), RoutingError>)
        requires
            old(self).wf(),
        ensures
            final(self).wf(),
            final(self).chain == old(self).chain,
            final(self).section_auth == old(self).section_auth,
            final(self).genesis_key@ == old(self).genesis_key@,
            r is Ok,
            forall|i: int| 0 <= i < final(self).members.members@.len()
                ==> spec_matches(
                    final(self).section_auth.value.prefix@,
                    (#[trigger] final(self).members.members@[i]).value.peer.name@,
                ),
            (members matches Some(incoming)
                ==> forall|j: int| 0 <= j < incoming.members@.len()
                    && (#[trigger] incoming.members@[j]).value.peer.name@.len() == XOR_NAME_LEN
                    && old(self).spec_member_verified(incoming.members@[j])
                    && spec_matches(
                        old(self).section_auth.value.prefix@,
                        incoming.members@[j].value.peer.name@,
                    )
                    ==> final(self).members.spec_has(incoming.members@[j].value.peer.name@)),
            forall|t: int| 0 <= t < final(self).members.members@.len()
                ==> old(self).members.members@.contains(#[trigger] final(self).members.members@[t])
                    || (members matches Some(incoming)
                        && incoming.members@.contains(final(self).members.members@[t])),
    {
        let ghost incoming0: Seq<SectionAuth<NodeState>> = match &members {
            Option::Some(incoming) => incoming.members@,
            Option::None => Seq::empty(),
        };
        match members {
            Option::Some(incoming) => {
                let mut rest = incoming;
                let ghost mut k: int = 0;
                while rest.members.len() > 0
                    invariant
                        self.wf(),
                        self.chain == old(self).chain,
                        self.section_auth == old(self).section_auth,
                        self.genesis_key@ == old(self).genesis_key@,
                        0 <= k <= incoming0.len(),
                        rest.members@ =~= incoming0.skip(k),
                        forall|j: int| 0 <= j < k
                            && (#[trigger] incoming0[j]).value.peer.name@.len() == XOR_NAME_LEN
                            && old(self).spec_member_verified(incoming0[j])
                            ==> self.members.spec_has(incoming0[j].value.peer.name@),
                        forall|t: int| 0 <= t < self.members.members@.len()
                            ==> old(self).members.members@.contains(
                                #[trigger] self.members.members@[t])
                                || incoming0.contains(self.members.members@[t]),
                    decreases rest.members@.len(),
                {
                    let info = rest.members.remove(0);
                    proof {
                        assert(incoming0.skip(k)[0] == incoming0[k]);
                        assert(rest.members@ =~= incoming0.skip(k + 1));
                        assert(incoming0.contains(incoming0[k]));
                    }
                    let ghost pre = *self;
                    if info.value.peer.name.bytes.len() == XOR_NAME_LEN {
                        let _ = self.update_member(info);
                        proof {
                            assert forall|j: int| 0 <= j < k + 1
                                && (#[trigger] incoming0[j]).value.peer.name@.len() == XOR_NAME_LEN
                                && old(self).spec_member_verified(incoming0[j])
                                implies self.members.spec_has(
                                    incoming0[j].value.peer.name@) by {
                                if j < k {
                                    assert(pre.members.spec_has(incoming0[j].value.peer.name@));
                                } else {
                                    // the record just offered: verification is
                                    // a property of the unchanged chain
                                    assert(pre.spec_member_verified(incoming0[k]));
                                }
                            };
                            assert forall|t: int| 0 <= t < self.members.members@.len()
                                implies old(self).members.members@.contains(
                                    #[trigger] self.members.members@[t])
                                    || incoming0.contains(self.members.members@[t]) by {
                                if pre.members.members@.contains(self.members.members@[t]) {
                                    let u = choose|u: int| 0 <= u < pre.members.members@.len()
                                        && pre.members.members@[u] == self.members.members@[t];
                                }
                            };
                        }
                    }
                    proof {
                        k = k + 1;
                    }
                }
            },
            Option::None => {},
        }
        let prefix = self.section_auth.value.prefix.duplicate();
        let ghost before = *self;
        self.members.prune_not_matching(&prefix);
        proof {
            assert forall|i: int| 0 <= i < self.members.members@.len()
                implies self.spec_member_verified(#[trigger] self.members.members@[i]) by {
                let m = self.members.members@[i];
                assert(before.members.members@.contains(m));
                let j = choose|j: int| 0 <= j < before.members.members@.len()
                    && before.members.members@[j] == m;
                assert(before.spec_member_verified(before.members.members@[j]));
            };
            // a matching name known before the prune is still known after
            assert forall|j: int| 0 <= j < incoming0.len()
                && (#[trigger] incoming0[j]).value.peer.name@.len() == XOR_NAME_LEN
                && old(self).spec_member_verified(incoming0[j])
                && spec_matches(
                    old(self).section_auth.value.prefix@,
                    incoming0[j].value.peer.name@,
                )
                implies self.members.spec_has(incoming0[j].value.peer.name@) by {
                let nm = incoming0[j].value.peer.name@;
                assert(before.members.spec_has(nm));
                let t = choose|t: int| 0 <= t < before.members.members@.len()
                    && before.members.spec_names()[t] == nm;
                assert(before.members.members@[t].value.peer.name@ == nm);
                assert(spec_matches(prefix@, before.members.members@[t].value.peer.name@));
                assert(self.members.members@.contains(before.members.members@[t]));
                let u = choose|u: int| 0 <= u < self.members.members@.len()
                    && self.members.members@[u] == before.members.members@[t];
                assert(self.members.spec_names()[u] == nm);
            };
            assert forall|t: int| 0 <= t < self.members.members@.len()
                implies old(self).members.members@.contains(#[trigger] self.members.members@[t])
                    || incoming0.contains(self.members.members@[t]) by {
                let m = self.members.members@[t];
                assert(before.members.members@.contains(m));
                let j = choose|j: int| 0 <= j < before.members.members@.len()
                    && before.members.members@[j] == m;
            };
        }
        Ok(())
    }

    /// Merges an anti-entropy proof chain into the section's chain. A proof
    /// chain that teaches nothing new is accepted and changes nothing. A
    /// proof chain that extends the known keys is accepted exactly when its
    /// last key is the incoming signed SAP's key and that SAP self-verifies:
    /// the chain keys are merged, the SAP becomes current, and members whose
    /// names do not match the new prefix are pruned. Everything else is
    /// rejected, changing nothing.
    pub fn merge_chain(
        &mut self,
        other: &SectionAuth<SectionAuthorityProvider>,
        proof_chain: &SectionChain,
    ) -> (r: Result<(), RoutingError>)
        requires
            old(self).wf(),
            other.value.wf(),
            proof_chain.wf(),
        ensures
            final(self).wf(),
            final(self).genesis_key@ == old(self).genesis_key@,
            r is Ok <==> (proof_chain.root@ == old(self).chain.root@
                && ((forall|k: Seq<u8>| proof_chain.spec_has_key(k)
                        ==> old(self).chain.spec_has_key(k))
                    || (!old(self).chain.spec_has_key(proof_chain.spec_last_key())
                        && other.sig.public_key@ == proof_chain.spec_last_key()
                        && other.sig.public_key@ == other.value.public_key@
                        && bls_verifies(other.sig.public_key@, other.sig.signature@,
                            spec_encode_sap(&other.value))))),
            r is Err ==> *final(self) == *old(self),
            r is Ok ==> forall|k: Seq<u8>|
                old(self).chain.spec_has_key(k) || proof_chain.spec_has_key(k)
                    ==> final(self).chain.spec_has_key(k),
            (r is Ok && forall|k: Seq<u8>| proof_chain.spec_has_key(k)
                    ==> old(self).chain.spec_has_key(k))
                ==> *final(self) == *old(self),
            (r is Ok && !old(self).chain.spec_has_key(proof_chain.spec_last_key()))
                ==> sap_auth_matches(&final(self).section_auth, other),
    {
        if !bytes_eq(&proof_chain.root, &self.chain.root) {
            return Err(RoutingError::UntrustedProofChain);
        }
        if self.chain.has_all_keys(proof_chain) {
            proof {
                // the proof chain's last key is among its keys
                if proof_chain.entries@.len() == 0 {
                    assert(proof_chain.keys()[0] == proof_chain.spec_last_key());
                } else {
                    assert(proof_chain.keys()[proof_chain.entries@.len() as int]
                        == proof_chain.spec_last_key());
                }
            }
            return Ok(());
        }
        // the proof chain brings new keys: its tip must be the incoming SAP's
        let tip = proof_chain.last_key();
        let tip_known = self.chain.has_key(&tip);
        if tip_known || !bytes_eq(&other.sig.public_key, &tip) || !sap_self_verify(other) {
            proof {
                if tip_known {
                    // some other key of the proof chain is new, so it is not
                    // covered; the tip alone being known is not acceptance
                    assert(!(forall|k: Seq<u8>| proof_chain.spec_has_key(k)
                        ==> old(self).chain.spec_has_key(k)));
                }
            }
            return Err(RoutingError::UntrustedProofChain);
        }
        let res = self.chain.merge(proof_chain);
        proof {
            assert(res is Ok);
            assert(proof_chain.entries@.len() > 0) by {
                if proof_chain.entries@.len() == 0 {
                    assert(proof_chain.spec_last_key() == proof_chain.root@);
                    assert(old(self).chain.keys()[0] == old(self).chain.root@);
                }
            }
            assert(self.chain.spec_last_key() == proof_chain.spec_last_key());
        }
        let ghost mid = *self;
        self.section_auth = SectionAuth {
            value: other.value.duplicate(),
            sig: other.sig.duplicate(),
        };
        let prefix = self.section_auth.value.prefix.duplicate();
        self.members.prune_not_matching(&prefix);
        proof {
            assert forall|i: int| 0 <= i < self.members.members@.len()
                implies self.spec_member_verified(#[trigger] self.members.members@[i]) by {
                let m = self.members.members@[i];
                assert(mid.members.members@.contains(m));
                let j = choose|j: int| 0 <= j < mid.members.members@.len()
                    && mid.members.members@[j] == m;
                assert(old(self).spec_member_verified(mid.members.members@[j]));
            };
            assert(self.wf());
        }
        Ok(())
    }

    /// Creates the section for the first node of the network: a fresh
    /// threshold-0 key set signs a SAP with the empty prefix and the node as
    /// its only elder, and the node joins as the only member. Success rests
    /// on the generated keys: whatever the generator drew, a returned section
    /// is well formed, covers all of name space, and holds one chain key and
    /// one joined member.
    pub fn first_node(peer: Peer) -> (r: Result<(Section, SectionKeyShare), RoutingError>)
        requires
            peer.name.wf(),
        ensures
            r matches Ok((s, share)) ==> s.wf()
                && s.chain.entries@.len() == 0
                && s.genesis_key@ == s.chain.root@
                && s.section_auth.value.prefix@.len() == 0
                && s.section_auth.value.elders@.len() == 1
                && s.section_auth.value.elders@[0].name@ == peer.name@
                && s.members.members@.len() == 1
                && s.members.members@[0].value.peer.name@ == peer.name@
                && s.members.members@[0].value.state is Joined
                && share.index == 0
                && share.public_key_set@ == s.section_auth.value.public_key_set@,
    {
        let generated = bls_keyset_random(0);
        let elder = Elder { name: peer.name.duplicate(), addr: peer.addr };
        let mut elders: Vec<Elder> = Vec::new();
        elders.push(elder);
        let sap = match SectionAuthorityProvider::new(Prefix::empty(), elders, generated.pk_set) {
            Result::Ok(s) => s,
            Result::Err(e) => {
                return Err(e);
            },
        };
        let encoded = sap.encode();
        let sap_sig = match sign_with_share(&generated.secret_key_share, &sap.public_key_set, &encoded) {
            Option::Some(sig) => sig,
            Option::None => {
                return Err(RoutingError::InvalidSignatureShare);
            },
        };
        let chain = SectionChain::new(clone_bytes(&sap.public_key));
        let genesis_key = clone_bytes(&sap.public_key);
        let pk_set_copy = clone_bytes(&sap.public_key_set);
        let section_auth = SectionAuth { value: sap, sig: sap_sig };
        let mut section = match Section::new(genesis_key, chain, section_auth) {
            Result::Ok(s) => s,
            Result::Err(e) => {
                return Err(e);
            },
        };
        // record the first node as the only, joined, member
        let node_state = NodeState::joined(peer, Option::None);
        let ns_encoded = node_state.encode();
        let ns_sig = match sign_with_share(&generated.secret_key_share, &pk_set_copy, &ns_encoded) {
            Option::Some(sig) => sig,
            Option::None => {
                return Err(RoutingError::InvalidSignatureShare);
            },
        };
        let record = SectionAuth { value: node_state, sig: ns_sig };
        if !section.update_member(record) {
            return Err(RoutingError::InvalidSignatureShare);
        }
        let share = SectionKeyShare {
            public_key_set: pk_set_copy,
            index: 0,
            secret_key_share: generated.secret_key_share,
        };
        proof {
            assert(section.members.members@.len() == 1);
        }
        Ok((section, share))
    }

    /// Installs a new section authority after a DKG round: the new key is
    /// appended to the chain under the signature `new_key_sig`, the new SAP
    /// becomes current when its key is the chain's new last key, and members
    /// whose names no longer match are pruned. Returns whether anything was
    /// accepted: the new prefix must equal or extend the current one, the SAP
    /// must self-verify, and the chain insert must succeed.
    pub fn update_elders(
        &mut self,
        new_section_auth: SectionAuth<SectionAuthorityProvider>,
        new_key_sig: KeyedSig,
    ) -> (r: bool)
        requires
            old(self).wf(),
            new_section_auth.value.wf(),
        ensures
            final(self).wf(),
            final(self).genesis_key@ == old(self).genesis_key@,
            r == ((new_section_auth.value.prefix@ == old(self).section_auth.value.prefix@
                    || (old(self).section_auth.value.prefix@.len() < new_section_auth.value.prefix@.len()
                        && old(self).section_auth.value.prefix@
                            == new_section_auth.value.prefix@.take(
                                old(self).section_auth.value.prefix@.len() as int)))
                && bls_verifies(new_section_auth.sig.public_key@, new_section_auth.sig.signature@,
                    spec_encode_sap(&new_section_auth.value))
                && new_section_auth.sig.public_key@ == new_section_auth.value.public_key@
                && old(self).chain.spec_has_key(new_key_sig.public_key@)
                && new_section_auth.sig.public_key@.len() == BLS_PK_LEN
                && new_key_sig.signature@.len() == crate::crypto::BLS_SIG_LEN
                && bls_verifies(new_key_sig.public_key@, new_key_sig.signature@,
                    new_section_auth.sig.public_key@)),
            !r ==> *final(self) == *old(self),
            r ==> final(self).chain.spec_has_key(new_section_auth.sig.public_key@),
            (r && !old(self).chain.spec_has_key(new_section_auth.sig.public_key@))
                ==> final(self).section_auth == new_section_auth,
            // after an accepted elder change, members whose names no longer
            // match the section's prefix are pruned
            r ==> forall|i: int| 0 <= i < final(self).members.members@.len()
                ==> spec_matches(
                    final(self).section_auth.value.prefix@,
                    (#[trigger] final(self).members.members@[i]).value.peer.name@,
                ),
    {
        let prefix_ok = new_section_auth.value.prefix.equals(&self.section_auth.value.prefix)
            || new_section_auth.value.prefix.is_extension_of(&self.section_auth.value.prefix);
        if !prefix_ok {
            return false;
        }
        if !sap_self_verify(&new_section_auth) {
            return false;
        }
        // probe the chain insert without committing to anything else yet
        let new_key = clone_bytes(&new_section_auth.sig.public_key);
        let key_known = self.chain.has_key(&new_key);
        let sig_copy = clone_bytes(&new_key_sig.signature);
        let ghost pre = *self;
        let res = self.chain.insert(&new_key_sig.public_key, new_key, sig_copy);
        match res {
            Result::Err(_) => {
                proof {
                    assert(*self == *old(self));
                }
                false
            },
            Result::Ok(()) => {
                let last = self.chain.last_key();
                if bytes_eq(&new_section_auth.sig.public_key, &last) {
                    self.section_auth = new_section_auth;
                }
                let prefix = self.section_auth.value.prefix.duplicate();
                let ghost mid = *self;
                self.members.prune_not_matching(&prefix);
                proof {
                    assert forall|i: int| 0 <= i < self.members.members@.len()
                        implies self.spec_member_verified(#[trigger] self.members.members@[i]) by {
                        let m = self.members.members@[i];
                        assert(mid.members.members@.contains(m));
                        let j = choose|j: int| 0 <= j < mid.members.members@.len()
                            && mid.members.members@[j] == m;
                        assert(old(self).spec_member_verified(mid.members.members@[j]));
                        assert(old(self).chain.spec_has_key(m.sig.public_key@));
                    };
                    assert(self.wf());
                }
                true
            },
        }
    }

    /// How many members count toward the half of a split given by `bit` at
    /// the bit position just after the section's prefix.
    fn count_split_half(&self, excluded: &Vec<XorName>, idx: usize, bit: bool) -> (r: usize)
        requires
            self.wf(),
            idx < XOR_NAME_BITS,
        ensures
            r == spec_split_count(self.members.members@, xor_names(excluded@), idx as int, bit),
    {
        let ghost pred = split_pred(xor_names(excluded@), idx as int, bit);
        let mut count: usize = 0;
        let mut i: usize = 0;
        while i < self.members.members.len()
            invariant
                self.wf(),
                idx < XOR_NAME_BITS,
                i <= self.members.members@.len(),
                count == self.members.members@.take(i as int).filter(pred).len(),
                count <= i,
                pred == split_pred(xor_names(excluded@), idx as int, bit),
            decreases self.members.members@.len() - i,
        {
            let m = &self.members.members[i];
            proof {
                assert(self.members.spec_names()[i as int] == m.value.peer.name@);
            }
            let joined = match &m.value.state {
                MembershipState::Joined => true,
                _ => false,
            };
            let counted = joined
                && m.value.peer.name.age() >= MIN_ADULT_AGE
                && !name_listed(excluded, &m.value.peer.name)
                && m.value.peer.name.bit(idx) == bit;
            proof {
                reveal(Seq::filter);
                let t1 = self.members.members@.take(i + 1);
                assert(t1.drop_last() =~= self.members.members@.take(i as int));
                assert(t1.last() == self.members.members@[i as int]);
                assert(counted == pred(self.members.members@[i as int]));
            }
            if counted {
                count = count + 1;
            }
            i = i + 1;
        }
        proof {
            assert(self.members.members@.take(self.members.members@.len() as int)
                =~= self.members.members@);
        }
        count
    }

    /// Tries to split the section. Succeeds exactly when the prefix can
    /// still grow and both halves, split by the bit after the prefix, keep
    /// at least `RECOMMENDED_SECTION_SIZE` mature, joined, non-excluded
    /// members; the elder candidates of each half are then the best-ranked
    /// joined members whose names match that half's prefix.
    pub fn try_split(&self, our_name: &XorName, excluded: &Vec<XorName>) -> (r: Option<(ElderCandidates, ElderCandidates)>)
        requires
            self.wf(),
            our_name.wf(),
        ensures
            r is Some <==> (self.section_auth.value.prefix@.len() < XOR_NAME_BITS
                && spec_split_count(self.members.members@, xor_names(excluded@),
                    self.section_auth.value.prefix@.len() as int,
                    spec_bit(our_name@, self.section_auth.value.prefix@.len() as int))
                    >= RECOMMENDED_SECTION_SIZE
                && spec_split_count(self.members.members@, xor_names(excluded@),
                    self.section_auth.value.prefix@.len() as int,
                    !spec_bit(our_name@, self.section_auth.value.prefix@.len() as int))
                    >= RECOMMENDED_SECTION_SIZE),
            r matches Some((a, b)) ==> {
                let bit = spec_bit(our_name@, self.section_auth.value.prefix@.len() as int);
                &&& a.prefix@ == self.section_auth.value.prefix@.push(bit)
                &&& b.prefix@ == self.section_auth.value.prefix@.push(!bit)
                &&& a.elders@.len() <= ELDER_SIZE
                &&& b.elders@.len() <= ELDER_SIZE
                &&& spec_names_unique(names_of(a.elders@))
                &&& spec_names_unique(names_of(b.elders@))
                &&& spec_names_wf(names_of(a.elders@))
                &&& spec_names_wf(names_of(b.elders@))
                &&& (forall|t: int| 0 <= t < a.elders@.len()
                    ==> spec_elder_entry(self.members.members@, xor_names(excluded@),
                        a.prefix@, #[trigger] a.elders@[t]))
                &&& (forall|t: int| 0 <= t < b.elders@.len()
                    ==> spec_elder_entry(self.members.members@, xor_names(excluded@),
                        b.prefix@, #[trigger] b.elders@[t]))
            },
    {
        let prefix = &self.section_auth.value.prefix;
        if prefix.bit_count() >= XOR_NAME_BITS {
            return Option::None;
        }
        let idx = prefix.bit_count();
        let next_bit = our_name.bit(idx);
        let our_new_size = self.count_split_half(excluded, idx, next_bit);
        let sibling_new_size = self.count_split_half(excluded, idx, !next_bit);
        if our_new_size < RECOMMENDED_SECTION_SIZE || sibling_new_size < RECOMMENDED_SECTION_SIZE {
            return Option::None;
        }
        let our_prefix = prefix.pushed(next_bit);
        let other_prefix = prefix.pushed(!next_bit);
        let our_elders = self.elder_candidates_for(excluded, &our_prefix);
        let other_elders = self.elder_candidates_for(excluded, &other_prefix);
        Option::Some((
            ElderCandidates::new(our_elders, our_prefix),
            ElderCandidates::new(other_elders, other_prefix),
        ))
    }

    /// Generates new elder candidate sets from the current members,
    /// excluding the given names. A possible split yields one candidate set
    /// per child prefix. Otherwise the best-ranked candidates for the whole
    /// section are proposed, unless they are the current elders already or
    /// would shrink the elder count below a supermajority of today's.
    pub fn promote_and_demote_elders(&self, our_name: &XorName, excluded: &Vec<XorName>) -> (r: Vec<ElderCandidates>)
        requires
            self.wf(),
            our_name.wf(),
        ensures
            r@.len() <= 2,
            spec_split_possible(self, xor_names(excluded@), our_name@) ==> r@.len() == 2,
            r@.len() == 2 ==> {
                let bit = spec_bit(our_name@, self.section_auth.value.prefix@.len() as int);
                &&& r@[0].prefix@ == self.section_auth.value.prefix@.push(bit)
                &&& r@[1].prefix@ == self.section_auth.value.prefix@.push(!bit)
            },
            r@.len() == 1 ==> {
                &&& r@[0].prefix@ == self.section_auth.value.prefix@
                &&& r@[0].elders@.len() <= ELDER_SIZE
                &&& spec_names_unique(names_of(r@[0].elders@))
                &&& r@[0].elders@.len() >= spec_supermajority(self.section_auth.value.elders@.len() as int)
                &&& !same_name_set(names_of(r@[0].elders@), self.section_auth.value.spec_names())
                &&& spec_candidate_choice(self, xor_names(excluded@), r@[0].elders@)
            },
            // an empty proposal only where nothing is to be proposed: no
            // split is possible, and the deterministic candidate choice
            // either matches the sitting elders or is below a supermajority
            (!spec_split_possible(self, xor_names(excluded@), our_name@) && r@.len() == 0)
                ==> exists|es: Seq<Elder>|
                    #[trigger] spec_candidate_choice(self, xor_names(excluded@), es)
                    && (same_name_set(names_of(es), self.section_auth.value.spec_names())
                        || es.len() < spec_supermajority(
                            self.section_auth.value.elders@.len() as int)),
    {
        let split = self.try_split(our_name, excluded);
        match split {
            Option::Some((ours, others)) => {
                let mut r: Vec<ElderCandidates> = Vec::new();
                r.push(ours);
                r.push(others);
                r
            },
            Option::None => {
                let expected = self.candidate_elders(excluded);
                let same = same_names(&expected, &self.section_auth.value.elders);
                let smaj = crate::supermajority(self.section_auth.value.elders.len());
                if same || expected.len() < smaj {
                    Vec::new()
                } else {
                    let prefix = self.section_auth.value.prefix.duplicate();
                    let mut r: Vec<ElderCandidates> = Vec::new();
                    r.push(ElderCandidates::new(expected, prefix));
                    r
                }
            },
        }
    }

    /// The best-ranked joined, non-excluded members of the whole section, as
    /// elders, at most `ELDER_SIZE` of them: the section's deterministic
    /// elder-candidate choice.
    fn candidate_elders(&self, excluded: &Vec<XorName>) -> (r: Vec<Elder>)
        requires
            self.wf(),
        ensures
            r@.len() <= ELDER_SIZE,
            spec_names_unique(names_of(r@)),
            spec_names_wf(names_of(r@)),
            spec_candidate_choice(self, xor_names(excluded@), r@),
    {
        let pool = self.members.candidate_pool(excluded, Option::None);
        let ghost pool0 = pool@;
        let center = self.section_auth.value.prefix.base_name();
        let chosen = select_elders(pool, ELDER_SIZE, &center);
        let r = elders_of_peers(chosen);
        proof {
            let exc = xor_names(excluded@);
            let ms = self.members.members@;
            let base = crate::xor::spec_base_name(self.section_auth.value.prefix@);
            // every chosen elder mirrors a candidate
            assert forall|t: int| 0 <= t < r@.len()
                implies spec_whole_candidate(self, exc, #[trigger] r@[t]) by {
                let u = choose|u: int| 0 <= u < pool0.len() && pool0[u] == chosen@[t];
                let j = choose|j: int| 0 <= j < ms.len()
                    && spec_is_candidate(#[trigger] ms[j], exc, Option::<Seq<bool>>::None)
                    && peer_matches(pool0[u], ms[j].value.peer);
                assert(spec_is_candidate(ms[j], exc, Option::<Seq<bool>>::None)
                    && r@[t].name@ == ms[j].value.peer.name@
                    && r@[t].addr == ms[j].value.peer.addr);
            };
            // every candidate left unchosen ranks after every chosen elder
            assert forall|t: int, j: int| 0 <= t < r@.len() && 0 <= j < ms.len()
                && spec_is_candidate(#[trigger] ms[j], exc, Option::<Seq<bool>>::None)
                && !names_of(r@).contains(ms[j].value.peer.name@)
                implies crate::peers::spec_rank_before_names(
                    (#[trigger] r@[t]).name@, ms[j].value.peer.name@, base) by {
                let nm = ms[j].value.peer.name@;
                assert(crate::peers::peer_names(pool0).contains(nm));
                let u = choose|u: int| 0 <= u < pool0.len()
                    && crate::peers::peer_names(pool0)[u] == nm;
                assert(pool0[u].name@ == nm);
                assert(!crate::peers::peer_names(chosen@).contains(pool0[u].name@)) by {
                    if crate::peers::peer_names(chosen@).contains(pool0[u].name@) {
                        let t2 = choose|t2: int| 0 <= t2 < chosen@.len()
                            && crate::peers::peer_names(chosen@)[t2] == pool0[u].name@;
                        assert(names_of(r@)[t2] == r@[t2].name@);
                        assert(r@[t2].name@ == chosen@[t2].name@);
                        assert(names_of(r@).contains(nm));
                    }
                }
                assert(crate::peers::spec_rank_before(chosen@[t], pool0[u], center@));
                assert(r@[t].name@ == chosen@[t].name@);
            };
            // a short choice includes every candidate
            if r@.len() < ELDER_SIZE {
                assert forall|j: int| 0 <= j < ms.len()
                    && spec_is_candidate(#[trigger] ms[j], exc, Option::<Seq<bool>>::None)
                    implies names_of(r@).contains(ms[j].value.peer.name@) by {
                    let nm = ms[j].value.peer.name@;
                    assert(crate::peers::peer_names(pool0).contains(nm));
                    let u = choose|u: int| 0 <= u < pool0.len()
                        && crate::peers::peer_names(pool0)[u] == nm;
                    assert(pool0[u].name@ == nm);
                    assert(chosen@.contains(pool0[u]));
                    let t = choose|t: int| 0 <= t < chosen@.len() && chosen@[t] == pool0[u];
                    assert(names_of(r@)[t] == r@[t].name@);
                    assert(r@[t].name@ == chosen@[t].name@);
                };
            }
        }
        r
    }

    /// The best-ranked joined, non-excluded members whose names match the
    /// given prefix, as elders, at most `ELDER_SIZE` of them.
    fn elder_candidates_for(&self, excluded: &Vec<XorName>, pfx: &Prefix) -> (r: Vec<Elder>)
        requires
            self.wf(),
            pfx.wf(),
        ensures
            r@.len() <= ELDER_SIZE,
            spec_names_unique(names_of(r@)),
            spec_names_wf(names_of(r@)),
            forall|t: int| 0 <= t < r@.len()
                ==> spec_elder_entry(self.members.members@, xor_names(excluded@),
                    pfx@, #[trigger] r@[t]),
    {
        let pool = self.members.candidate_pool(excluded, Option::Some(pfx));
        let center = pfx.base_name();
        let chosen = select_elders(pool, ELDER_SIZE, &center);
        peers_to_elders(chosen, Ghost(self.members.members@), Ghost(xor_names(excluded@)), Ghost(pfx@))
    }
}

/// Signs `msg` with a secret key share and combines the single share into a
/// full section signature under the given key set. This is how a section of
/// one member, whose key set has threshold 0, signs on its own.
pub fn sign_with_share(sk_share: &Vec<u8>, pk_set: &Vec<u8>, msg: &Vec<u8>) -> (r: Option<KeyedSig>)
    ensures
        r matches Some(s) ==> s.public_key@ == crate::crypto::pkset_public_key(pk_set@)
            && crate::crypto::pkset_valid(pk_set@)
            && s.public_key@.len() == BLS_PK_LEN
            && s.signature@.len() == crate::crypto::BLS_SIG_LEN,
{
    let share_sig = match bls_share_sign(sk_share, msg) {
        Option::Some(s) => s,
        Option::None => {
            return Option::None;
        },
    };
    let mut shares: Vec<(usize, Vec<u8>)> = Vec::new();
    shares.push((0, share_sig));
    let signature = match bls_combine_signatures(pk_set, &shares) {
        Option::Some(s) => s,
        Option::None => {
            return Option::None;
        },
    };
    let public_key = match crate::crypto::bls_pkset_public_key(pk_set) {
        Option::Some(k) => k,
        Option::None => {
            return Option::None;
        },
    };
    Option::Some(KeyedSig { public_key, signature })
}

/// Which members a view selects: the active members (joined, or still an
/// elder), the adults (mature and not an elder), or the live adults (joined
/// and not an elder).
pub open spec fn spec_view_pred(s: &Section, mode: int, m: SectionAuth<NodeState>) -> bool {
    if mode == 0 {
        m.value.state is Joined
            || s.section_auth.value.spec_contains_elder(m.value.peer.name@)
    } else if mode == 1 {
        m.value.state is Joined
            && spec_mature(m.value.peer.name@)
            && !s.section_auth.value.spec_contains_elder(m.value.peer.name@)
    } else {
        m.value.state is Joined
            && !s.section_auth.value.spec_contains_elder(m.value.peer.name@)
    }
}

/// Whether the peer `p` mirrors a member that the view `mode` selects.
pub open spec fn spec_view_entry(s: &Section, mode: int, p: Peer) -> bool {
    exists|j: int| 0 <= j < s.members.members@.len()
        && spec_view_pred(s, mode, #[trigger] s.members.members@[j])
        && peer_matches(p, s.members.members@[j].value.peer)
}

/// Whether the peer `p` mirrors a selected member among the first `upto`.
pub open spec fn spec_view_entry_upto(s: &Section, mode: int, upto: int, p: Peer) -> bool {
    exists|j: int| 0 <= j < upto
        && spec_view_pred(s, mode, #[trigger] s.members.members@[j])
        && peer_matches(p, s.members.members@[j].value.peer)
}

/// A peer mirrored among the first `a` members is mirrored among the first
/// `b`, for `a <= b`.
proof fn lemma_view_entry_widen(s: &Section, mode: int, a: int, b: int, p: Peer)
    requires
        a <= b,
        spec_view_entry_upto(s, mode, a, p),
    ensures
        spec_view_entry_upto(s, mode, b, p),
{
    let j = choose|j: int| 0 <= j < a
        && spec_view_pred(s, mode, #[trigger] s.members.members@[j])
        && peer_matches(p, s.members.members@[j].value.peer);
    assert(spec_view_pred(s, mode, s.members.members@[j])
        && peer_matches(p, s.members.members@[j].value.peer));
}

impl Section {
    /// The peers a view selects, with both directions pinned: every returned
    /// peer mirrors a selected member, and every selected member is returned.
    fn peers_where(&self, mode: u8) -> (r: Vec<Peer>)
        requires
            self.wf(),
            mode <= 2,
        ensures
            forall|t: int| 0 <= t < r@.len()
                ==> spec_view_entry(self, mode as int, #[trigger] r@[t]),
            forall|j: int| 0 <= j < self.members.members@.len()
                && spec_view_pred(self, mode as int, #[trigger] self.members.members@[j])
                ==> crate::peers::peer_names(r@).contains(
                    self.members.members@[j].value.peer.name@),
            // each selected member appears once: the returned names are
            // pairwise distinct
            forall|t1: int, t2: int| 0 <= t1 < t2 < r@.len()
                ==> (#[trigger] r@[t1]).name@ != (#[trigger] r@[t2]).name@,
    {
        let mut r: Vec<Peer> = Vec::new();
        let mut i: usize = 0;
        while i < self.members.members.len()
            invariant
                self.wf(),
                mode <= 2,
                i <= self.members.members@.len(),
                forall|t: int| 0 <= t < r@.len()
                    ==> spec_view_entry_upto(self, mode as int, i as int, #[trigger] r@[t]),
                forall|j: int| 0 <= j < i
                    && spec_view_pred(self, mode as int, #[trigger] self.members.members@[j])
                    ==> crate::peers::peer_names(r@).contains(
                        self.members.members@[j].value.peer.name@),
                forall|t1: int, t2: int| 0 <= t1 < t2 < r@.len()
                    ==> (#[trigger] r@[t1]).name@ != (#[trigger] r@[t2]).name@,
            decreases self.members.members@.len() - i,
        {
            let m = &self.members.members[i];
            proof {
                assert(self.members.spec_names()[i as int] == m.value.peer.name@);
            }
            let joined = match &m.value.state {
                MembershipState::Joined => true,
                _ => false,
            };
            let elder = self.is_elder(&m.value.peer.name);
            let selected = if mode == 0 {
                joined || elder
            } else if mode == 1 {
                joined && m.value.peer.name.age() >= MIN_ADULT_AGE && !elder
            } else {
                joined && !elder
            };
            let ghost old_r = r@;
            if selected {
                r.push(m.value.peer.duplicate());
                proof {
                    assert(spec_view_pred(self, mode as int, self.members.members@[i as int]));
                    assert(peer_matches(r@.last(), self.members.members@[i as int].value.peer));
                    assert(crate::peers::peer_names(r@)[r@.len() - 1]
                        == self.members.members@[i as int].value.peer.name@);
                    assert forall|j: int| 0 <= j < i + 1
                        && spec_view_pred(self, mode as int, #[trigger] self.members.members@[j])
                        implies crate::peers::peer_names(r@).contains(
                            self.members.members@[j].value.peer.name@) by {
                        if j < i {
                            let t = choose|t: int| 0 <= t < crate::peers::peer_names(old_r).len()
                                && crate::peers::peer_names(old_r)[t]
                                    == self.members.members@[j].value.peer.name@;
                            assert(crate::peers::peer_names(r@)[t]
                                == self.members.members@[j].value.peer.name@);
                        }
                    };
                    assert forall|t1: int, t2: int| 0 <= t1 < t2 < r@.len()
                        implies (#[trigger] r@[t1]).name@ != (#[trigger] r@[t2]).name@ by {
                        if t2 == r@.len() - 1 {
                            let j1 = choose|j: int| 0 <= j < i
                                && spec_view_pred(self, mode as int,
                                    #[trigger] self.members.members@[j])
                                && peer_matches(old_r[t1], self.members.members@[j].value.peer);
                            assert(self.members.spec_names()[j1]
                                == self.members.members@[j1].value.peer.name@);
                            assert(self.members.spec_names()[i as int]
                                == self.members.members@[i as int].value.peer.name@);
                        }
                    };
                }
            }
            proof {
                assert forall|t: int| 0 <= t < r@.len()
                    implies spec_view_entry_upto(self, mode as int, i + 1, #[trigger] r@[t]) by {
                    if t < old_r.len() {
                        lemma_view_entry_widen(self, mode as int, i as int, i + 1, r@[t]);
                    }
                };
            }
            i = i + 1;
        }
        proof {
            assert forall|t: int| 0 <= t < r@.len()
                implies spec_view_entry(self, mode as int, #[trigger] r@[t]) by {
                let j = choose|j: int| 0 <= j < self.members.members@.len()
                    && spec_view_pred(self, mode as int, #[trigger] self.members.members@[j])
                    && peer_matches(r@[t], self.members.members@[j].value.peer);
            };
        }
        r
    }

    /// The peers of members that are joined or are still elders.
    pub fn active_members(&self) -> (r: Vec<Peer>)
        requires
            self.wf(),
        ensures
            forall|t: int| 0 <= t < r@.len() ==> spec_view_entry(self, 0, #[trigger] r@[t]),
            forall|j: int| 0 <= j < self.members.members@.len()
                && spec_view_pred(self, 0, #[trigger] self.members.members@[j])
                ==> crate::peers::peer_names(r@).contains(
                    self.members.members@[j].value.peer.name@),
            forall|t1: int, t2: int| 0 <= t1 < t2 < r@.len()
                ==> (#[trigger] r@[t1]).name@ != (#[trigger] r@[t2]).name@,
    {
        self.peers_where(0)
    }

    /// The peers of mature members that are not elders.
    pub fn adults(&self) -> (r: Vec<Peer>)
        requires
            self.wf(),
        ensures
            forall|t: int| 0 <= t < r@.len() ==> spec_view_entry(self, 1, #[trigger] r@[t]),
            forall|j: int| 0 <= j < self.members.members@.len()
                && spec_view_pred(self, 1, #[trigger] self.members.members@[j])
                ==> crate::peers::peer_names(r@).contains(
                    self.members.members@[j].value.peer.name@),
            forall|t1: int, t2: int| 0 <= t1 < t2 < r@.len()
                ==> (#[trigger] r@[t1]).name@ != (#[trigger] r@[t2]).name@,
    {
        self.peers_where(1)
    }

    /// The peers of joined members that are not elders.
    pub fn live_adults(&self) -> (r: Vec<Peer>)
        requires
            self.wf(),
        ensures
            forall|t: int| 0 <= t < r@.len() ==> spec_view_entry(self, 2, #[trigger] r@[t]),
            forall|j: int| 0 <= j < self.members.members@.len()
                && spec_view_pred(self, 2, #[trigger] self.members.members@[j])
                ==> crate::peers::peer_names(r@).contains(
                    self.members.members@[j].value.peer.name@),
            forall|t1: int, t2: int| 0 <= t1 < t2 < r@.len()
                ==> (#[trigger] r@[t1]).name@ != (#[trigger] r@[t2]).name@,
    {
        self.peers_where(2)
    }

    /// The peer of the joined member listening on `addr`, where there is one.
    pub fn find_joined_member_by_addr(&self, addr: &crate::addr::NodeAddr) -> (r: Option<Peer>)
        requires
            self.wf(),
        ensures
            r matches Some(p) ==> exists|j: int| 0 <= j < self.members.members@.len()
                && (#[trigger] self.members.members@[j]).value.state is Joined
                && self.members.members@[j].value.peer.addr == *addr
                && peer_matches(p, self.members.members@[j].value.peer),
            r is None ==> forall|j: int| 0 <= j < self.members.members@.len()
                ==> !((#[trigger] self.members.members@[j]).value.state is Joined
                    && self.members.members@[j].value.peer.addr == *addr),
    {
        let mut i: usize = 0;
        while i < self.members.members.len()
            invariant
                i <= self.members.members@.len(),
                forall|j: int| 0 <= j < i
                    ==> !((#[trigger] self.members.members@[j]).value.state is Joined
                        && self.members.members@[j].value.peer.addr == *addr),
            decreases self.members.members@.len() - i,
        {
            let m = &self.members.members[i];
            let joined = match &m.value.state {
                MembershipState::Joined => true,
                _ => false,
            };
            if joined && m.value.peer.addr.equals(addr) {
                return Option::Some(m.value.peer.duplicate());
            }
            i = i + 1;
        }
        Option::None
    }
}

/// Whether a split is possible: the prefix can still grow and both halves,
/// split by the bit of `our_name` just after the prefix, keep at least
/// `RECOMMENDED_SECTION_SIZE` mature, joined, non-excluded members.
pub open spec fn spec_split_possible(s: &Section, excluded: Seq<Seq<u8>>, our_name: Seq<u8>) -> bool {
    &&& s.section_auth.value.prefix@.len() < XOR_NAME_BITS
    &&& spec_split_count(s.members.members@, excluded,
        s.section_auth.value.prefix@.len() as int,
        spec_bit(our_name, s.section_auth.value.prefix@.len() as int))
        >= RECOMMENDED_SECTION_SIZE
    &&& spec_split_count(s.members.members@, excluded,
        s.section_auth.value.prefix@.len() as int,
        !spec_bit(our_name, s.section_auth.value.prefix@.len() as int))
        >= RECOMMENDED_SECTION_SIZE
}

/// Whether two name lists hold the same names: equal length, and every name
/// of the first appears in the second.
pub open spec fn same_name_set(a: Seq<Seq<u8>>, b: Seq<Seq<u8>>) -> bool {
    a.len() == b.len() && forall|i: int| 0 <= i < a.len() ==> b.contains(#[trigger] a[i])
}

/// Whether the elder lists hold the same names.
pub fn same_names(a: &Vec<Elder>, b: &Vec<Elder>) -> (r: bool)
    ensures
        r == same_name_set(names_of(a@), names_of(b@)),
{
    if a.len() != b.len() {
        return false;
    }
    let mut i: usize = 0;
    while i < a.len()
        invariant
            a@.len() == b@.len(),
            i <= a@.len(),
            forall|j: int| 0 <= j < i ==> names_of(b@).contains(#[trigger] names_of(a@)[j]),
        decreases a@.len() - i,
    {
        let mut hit = false;
        let mut j: usize = 0;
        while j < b.len() && !hit
            invariant
                j <= b@.len(),
                i < a@.len(),
                !hit ==> forall|t: int| 0 <= t < j
                    ==> (#[trigger] b@[t]).name@ != a@[i as int].name@,
                hit ==> names_of(b@).contains(names_of(a@)[i as int]),
            decreases b@.len() - j, if hit { 0int } else { 1int },
        {
            if b[j].name.equals(&a[i].name) {
                proof {
                    assert(names_of(b@)[j as int] == a@[i as int].name@);
                    assert(names_of(a@)[i as int] == a@[i as int].name@);
                }
                hit = true;
            } else {
                j = j + 1;
            }
        }
        if !hit {
            proof {
                assert forall|t: int| 0 <= t < names_of(b@).len()
                    implies names_of(b@)[t] != names_of(a@)[i as int] by {
                    assert(names_of(b@)[t] == b@[t].name@);
                    assert(names_of(a@)[i as int] == a@[i as int].name@);
                };
                assert(!names_of(b@).contains(names_of(a@)[i as int]));
                assert(!same_name_set(names_of(a@), names_of(b@)));
            }
            return false;
        }
        i = i + 1;
    }
    true
}

/// Turns peers into elders, keeping names and addresses.
fn elders_of_peers(chosen: Vec<Peer>) -> (r: Vec<Elder>)
    requires
        forall|t1: int, t2: int| 0 <= t1 < t2 < chosen@.len()
            ==> (#[trigger] chosen@[t1]).name@ != (#[trigger] chosen@[t2]).name@,
        forall|t: int| 0 <= t < chosen@.len()
            ==> (#[trigger] chosen@[t]).name@.len() == XOR_NAME_LEN,
    ensures
        r@.len() == chosen@.len(),
        spec_names_unique(names_of(r@)),
        spec_names_wf(names_of(r@)),
        forall|t: int| 0 <= t < r@.len()
            ==> (#[trigger] r@[t]).name@ == chosen@[t].name@ && r@[t].addr == chosen@[t].addr,
{
    let mut r: Vec<Elder> = Vec::new();
    let mut t: usize = 0;
    while t < chosen.len()
        invariant
            forall|t1: int, t2: int| 0 <= t1 < t2 < chosen@.len()
                ==> (#[trigger] chosen@[t1]).name@ != (#[trigger] chosen@[t2]).name@,
            forall|t0: int| 0 <= t0 < chosen@.len()
                ==> (#[trigger] chosen@[t0]).name@.len() == XOR_NAME_LEN,
            t <= chosen@.len(),
            r@.len() == t,
            forall|t0: int| 0 <= t0 < t
                ==> (#[trigger] r@[t0]).name@ == chosen@[t0].name@
                    && r@[t0].addr == chosen@[t0].addr,
        decreases chosen@.len() - t,
    {
        let p = &chosen[t];
        r.push(Elder { name: p.name.duplicate(), addr: p.addr });
        t = t + 1;
    }
    proof {
        assert forall|t1: int, t2: int| 0 <= t1 < t2 < names_of(r@).len()
            implies #[trigger] names_of(r@)[t1] != #[trigger] names_of(r@)[t2] by {
            assert(names_of(r@)[t1] == r@[t1].name@);
            assert(names_of(r@)[t2] == r@[t2].name@);
        };
        assert forall|t1: int| 0 <= t1 < names_of(r@).len()
            implies (#[trigger] names_of(r@)[t1]).len() == XOR_NAME_LEN by {
            assert(names_of(r@)[t1] == r@[t1].name@);
        };
    }
    r
}

/// Whether the elder `e` mirrors a joined, non-excluded member of the
/// section.
pub open spec fn spec_whole_candidate(
    s: &Section,
    excluded: Seq<Seq<u8>>,
    e: Elder,
) -> bool {
    exists|j: int| 0 <= j < s.members.members@.len()
        && spec_is_candidate(#[trigger] s.members.members@[j], excluded, Option::None)
        && e.name@ == s.members.members@[j].value.peer.name@
        && e.addr == s.members.members@[j].value.peer.addr
}

/// Whether `es` is the section's deterministic elder-candidate choice:
/// every entry mirrors a joined, non-excluded member, names are unique, at
/// most `ELDER_SIZE` are chosen, every candidate not chosen ranks after
/// every chosen one (by age descending, then XOR distance to the prefix's
/// base name), and fewer than `ELDER_SIZE` are chosen only when every
/// candidate is.
pub open spec fn spec_candidate_choice(
    s: &Section,
    excluded: Seq<Seq<u8>>,
    es: Seq<Elder>,
) -> bool {
    &&& es.len() <= ELDER_SIZE
    &&& spec_names_unique(names_of(es))
    &&& (forall|t: int| 0 <= t < es.len()
        ==> spec_whole_candidate(s, excluded, #[trigger] es[t]))
    &&& (forall|t: int, j: int| 0 <= t < es.len() && 0 <= j < s.members.members@.len()
        && spec_is_candidate(#[trigger] s.members.members@[j], excluded, Option::None)
        && !names_of(es).contains(s.members.members@[j].value.peer.name@)
        ==> crate::peers::spec_rank_before_names(
            (#[trigger] es[t]).name@,
            s.members.members@[j].value.peer.name@,
            crate::xor::spec_base_name(s.section_auth.value.prefix@),
        ))
    &&& (es.len() == ELDER_SIZE
        || (forall|j: int| 0 <= j < s.members.members@.len()
            && spec_is_candidate(#[trigger] s.members.members@[j], excluded, Option::None)
            ==> names_of(es).contains(s.members.members@[j].value.peer.name@)))
}

/// Whether the elder `e` mirrors a joined, non-excluded member whose name
/// matches the prefix.
pub open spec fn spec_elder_entry(
    ms: Seq<SectionAuth<NodeState>>,
    excluded: Seq<Seq<u8>>,
    pfx: Seq<bool>,
    e: Elder,
) -> bool {
    exists|j: int| 0 <= j < ms.len()
        && spec_is_candidate(#[trigger] ms[j], excluded, Option::Some(pfx))
        && e.name@ == ms[j].value.peer.name@
        && e.addr == ms[j].value.peer.addr
}

/// Turns chosen peers into elders, carrying their candidate pedigree along.
fn peers_to_elders(
    chosen: Vec<Peer>,
    Ghost(ms): Ghost<Seq<SectionAuth<NodeState>>>,
    Ghost(excluded): Ghost<Seq<Seq<u8>>>,
    Ghost(pfx): Ghost<Seq<bool>>,
) -> (r: Vec<Elder>)
    requires
        forall|t: int| 0 <= t < chosen@.len()
            ==> spec_pool_entry(ms, ms.len() as int, excluded, Option::Some(pfx),
                #[trigger] chosen@[t])
                || exists|j: int| 0 <= j < ms.len()
                    && spec_is_candidate(#[trigger] ms[j], excluded, Option::Some(pfx))
                    && peer_matches(chosen@[t], ms[j].value.peer),
        forall|t1: int, t2: int| 0 <= t1 < t2 < chosen@.len()
            ==> (#[trigger] chosen@[t1]).name@ != (#[trigger] chosen@[t2]).name@,
        forall|t: int| 0 <= t < chosen@.len()
            ==> (#[trigger] chosen@[t]).name@.len() == XOR_NAME_LEN,
    ensures
        r@.len() == chosen@.len(),
        spec_names_unique(names_of(r@)),
        spec_names_wf(names_of(r@)),
        forall|t: int| 0 <= t < r@.len()
            ==> spec_elder_entry(ms, excluded, pfx, #[trigger] r@[t]),
{
    let mut r: Vec<Elder> = Vec::new();
    let mut t: usize = 0;
    while t < chosen.len()
        invariant
            forall|t0: int| 0 <= t0 < chosen@.len()
                ==> spec_pool_entry(ms, ms.len() as int, excluded, Option::Some(pfx),
                    #[trigger] chosen@[t0])
                    || exists|j: int| 0 <= j < ms.len()
                        && spec_is_candidate(#[trigger] ms[j], excluded, Option::Some(pfx))
                        && peer_matches(chosen@[t0], ms[j].value.peer),
            forall|t1: int, t2: int| 0 <= t1 < t2 < chosen@.len()
                ==> (#[trigger] chosen@[t1]).name@ != (#[trigger] chosen@[t2]).name@,
            forall|t0: int| 0 <= t0 < chosen@.len()
                ==> (#[trigger] chosen@[t0]).name@.len() == XOR_NAME_LEN,
            t <= chosen@.len(),
            r@.len() == t,
            forall|t0: int| 0 <= t0 < t
                ==> (#[trigger] r@[t0]).name@ == chosen@[t0].name@
                    && r@[t0].addr == chosen@[t0].addr,
            forall|t0: int| 0 <= t0 < t
                ==> spec_elder_entry(ms, excluded, pfx, #[trigger] r@[t0]),
        decreases chosen@.len() - t,
    {
        let p = &chosen[t];
        r.push(Elder { name: p.name.duplicate(), addr: p.addr });
        proof {
            let e = r@.last();
            let j0 = choose|j: int| 0 <= j < ms.len()
                && spec_is_candidate(#[trigger] ms[j], excluded, Option::Some(pfx))
                && peer_matches(chosen@[t as int], ms[j].value.peer);
            assert(spec_is_candidate(ms[j0], excluded, Option::Some(pfx))
                && e.name@ == ms[j0].value.peer.name@ && e.addr == ms[j0].value.peer.addr);
        }
        t = t + 1;
    }
    proof {
        assert forall|t1: int, t2: int| 0 <= t1 < t2 < names_of(r@).len()
            implies #[trigger] names_of(r@)[t1] != #[trigger] names_of(r@)[t2] by {
            assert(names_of(r@)[t1] == r@[t1].name@);
            assert(names_of(r@)[t2] == r@[t2].name@);
        };
        assert forall|t1: int| 0 <= t1 < names_of(r@).len()
            implies (#[trigger] names_of(r@)[t1]).len() == XOR_NAME_LEN by {
            assert(names_of(r@)[t1] == r@[t1].name@);
        };
    }
    r
}

/// Law: in a well-formed section, every member record's signature verifies
/// against some key on the section's chain.
pub proof fn lemma_section_members_verified(s: &Section)
    requires
        s.wf(),
    ensures
        forall|i: int| 0 <= i < s.members.members@.len()
            ==> s.chain.spec_has_key((#[trigger] s.members.members@[i]).sig.public_key@)
                && bls_verifies(
                    s.members.members@[i].sig.public_key@,
                    s.members.members@[i].sig.signature@,
                    spec_encode_node_state(&s.members.members@[i].value),
                ),
{
}

/// Whether two signed SAPs agree in every view: prefix, elders, key set,
/// section key and signature.
pub open spec fn sap_auth_matches(
    a: &SectionAuth<SectionAuthorityProvider>,
    b: &SectionAuth<SectionAuthorityProvider>,
) -> bool {
    &&& a.value.prefix@ == b.value.prefix@
    &&& crate::sap::elders_eq(a.value.elders@, b.value.elders@)
    &&& a.value.public_key_set@ == b.value.public_key_set@
    &&& a.value.public_key@ == b.value.public_key@
    &&& a.sig.public_key@ == b.sig.public_key@
    &&& a.sig.signature@ == b.sig.signature@
}

} // verus!
