//! The members of a section: at most one effective record per name, each
//! record carried with the section signature that vouches for it. A record
//! replaces an existing one for the same name only when it strictly
//! supersedes it: its signing key stands later on the chain, or the keys
//! rank equally and its membership state ranks higher.

use vstd::prelude::*;
use crate::addr::NodeAddr;
use crate::chain::SectionChain;
use crate::node_state::{
    spec_age, spec_state_rank, MembershipState, NodeState, Peer,
};
use crate::sap::{spec_names_unique, spec_names_wf};
use crate::signed::SectionAuth;
use crate::xor::{
    closer_to_target, lemma_closer_connex, lemma_closer_irrefl, lemma_closer_trans, spec_closer,
    spec_matches, Prefix, XorName, XOR_NAME_LEN,
};

verus! {

/// The rank of a signing key on a chain; keys not on the chain rank below
/// every key that is.
pub open spec fn spec_rank_or(c: &SectionChain, k: Seq<u8>) -> int {
    if c.spec_has_key(k) {
        c.spec_rank_of(k)
    } else {
        -1
    }
}

/// Whether `newer` strictly supersedes `older` for the same name: its key
/// stands later on the chain, or the keys rank equally and its membership
/// state ranks higher (`Joined` below `Relocated` below `Left`).
pub open spec fn spec_supersedes(
    c: &SectionChain,
    older: &SectionAuth<NodeState>,
    newer: &SectionAuth<NodeState>,
) -> bool {
    spec_rank_or(c, newer.sig.public_key@) > spec_rank_or(c, older.sig.public_key@)
        || (spec_rank_or(c, newer.sig.public_key@) == spec_rank_or(c, older.sig.public_key@)
            && spec_state_rank(&newer.value.state) > spec_state_rank(&older.value.state))
}

/// The rank of a membership state under equal-rank signatures.
pub fn state_rank(s: &MembershipState) -> (r: u8)
    ensures
        r as int == spec_state_rank(s),
{
    match s {
        MembershipState::Joined => 0,
        MembershipState::Relocated(_) => 1,
        MembershipState::Left => 2,
    }
}

/// Whether `newer` strictly supersedes `older`, deciding key rank on `c`.
pub fn supersedes(
    c: &SectionChain,
    older: &SectionAuth<NodeState>,
    newer: &SectionAuth<NodeState>,
) -> (r: bool)
    requires
        c.wf(),
    ensures
        r == spec_supersedes(c, older, newer),
{
    let older_rank = c.rank_of(&older.sig.public_key);
    let newer_rank = c.rank_of(&newer.sig.public_key);
    match (older_rank, newer_rank) {
        (Option::None, Option::None) => state_rank(&newer.value.state) > state_rank(&older.value.state),
        (Option::None, Option::Some(_)) => true,
        (Option::Some(_), Option::None) => false,
        (Option::Some(ro), Option::Some(rn)) => {
            rn > ro || (rn == ro && state_rank(&newer.value.state) > state_rank(&older.value.state))
        },
    }
}

/// Whether the node named `a` ranks before the node named `b` as an elder
/// candidate: by age descending, then by XOR distance of the name to
/// `center`.
pub open spec fn spec_rank_before_names(a: Seq<u8>, b: Seq<u8>, center: Seq<u8>) -> bool {
    spec_age(a) > spec_age(b)
        || (spec_age(a) == spec_age(b) && spec_closer(a, b, center, 0))
}

/// Whether `a` ranks before `b` as an elder candidate.
pub open spec fn spec_rank_before(a: Peer, b: Peer, center: Seq<u8>) -> bool {
    spec_rank_before_names(a.name@, b.name@, center)
}

/// Whether `a` ranks before `b` as an elder candidate.
pub fn rank_before(a: &Peer, b: &Peer, center: &XorName) -> (r: bool)
    requires
        a.name.wf(),
        b.name.wf(),
        center.wf(),
    ensures
        r == spec_rank_before(*a, *b, center@),
{
    let age_a = a.age();
    let age_b = b.age();
    age_a > age_b || (age_a == age_b && closer_to_target(&a.name, &b.name, center))
}

/// Candidate ranking is connected: peers with distinct well-formed names
/// rank one before the other.
pub proof fn lemma_rank_connex(a: Peer, b: Peer, center: Seq<u8>)
    requires
        a.name@.len() == XOR_NAME_LEN,
        b.name@.len() == XOR_NAME_LEN,
        center.len() == XOR_NAME_LEN,
        a.name@ != b.name@,
    ensures
        spec_rank_before(a, b, center) || spec_rank_before(b, a, center),
{
    if spec_age(a.name@) == spec_age(b.name@) {
        lemma_closer_connex(a.name@, b.name@, center, 0);
        if !spec_closer(a.name@, b.name@, center, 0) && !spec_closer(b.name@, a.name@, center, 0) {
            assert(a.name@ =~= b.name@);
        }
    }
}

/// Candidate ranking never puts a peer before itself.
pub proof fn lemma_rank_irrefl(a: Peer, center: Seq<u8>)
    requires
        a.name@.len() == XOR_NAME_LEN,
        center.len() == XOR_NAME_LEN,
    ensures
        !spec_rank_before(a, a, center),
{
    lemma_closer_irrefl(a.name@, center, 0);
}

/// Candidate ranking is transitive.
pub proof fn lemma_rank_trans(a: Peer, b: Peer, c: Peer, center: Seq<u8>)
    requires
        a.name@.len() == XOR_NAME_LEN,
        b.name@.len() == XOR_NAME_LEN,
        c.name@.len() == XOR_NAME_LEN,
        center.len() == XOR_NAME_LEN,
        spec_rank_before(a, b, center),
        spec_rank_before(b, c, center),
    ensures
        spec_rank_before(a, c, center),
{
    if spec_age(a.name@) == spec_age(b.name@) && spec_age(b.name@) == spec_age(c.name@) {
        lemma_closer_trans(a.name@, b.name@, c.name@, center, 0);
    }
}

/// The membership records of one section.
#[derive(Clone, Debug, PartialEq, Eq)]
pub struct SectionPeers {
    /// The records, at most one per name.
    pub members: Vec<SectionAuth<NodeState>>,
}

/// The member names of a record sequence, in order.
pub open spec fn rec_names(ms: Seq<SectionAuth<NodeState>>) -> Seq<Seq<u8>> {
    ms.map(|i: int, m: SectionAuth<NodeState>| m.value.peer.name@)
}

impl SectionPeers {
    /// The member names, in stored order.
    pub open spec fn spec_names(&self) -> Seq<Seq<u8>> {
        rec_names(self.members@)
    }

    /// Well-formedness: names are well formed and pairwise distinct.
    pub open spec fn wf(&self) -> bool {
        spec_names_wf(self.spec_names()) && spec_names_unique(self.spec_names())
    }

    /// Whether some record carries the name `n`.
    pub open spec fn spec_has(&self, n: Seq<u8>) -> bool {
        self.spec_names().contains(n)
    }

    /// The position of the record that carries the name `n`.
    pub open spec fn spec_index_of(&self, n: Seq<u8>) -> int {
        choose|i: int| 0 <= i < self.members@.len() && self.spec_names()[i] == n
    }

    /// Whether the record for `n` says the node is joined.
    pub open spec fn spec_is_joined(&self, n: Seq<u8>) -> bool {
        exists|i: int| 0 <= i < self.members@.len()
            && (#[trigger] self.members@[i]).value.peer.name@ == n
            && self.members@[i].value.state is Joined
    }

    /// An empty member set.
    pub fn new() -> (r: SectionPeers)
        ensures
            r.wf(),
            r.members@.len() == 0,
    {
        SectionPeers { members: Vec::new() }
    }

    /// Number of records.
    pub fn len(&self) -> (r: usize)
        ensures
            r == self.members@.len(),
    {
        self.members.len()
    }

    /// The record at position `i`.
    pub fn get(&self, i: usize) -> (r: &SectionAuth<NodeState>)
        requires
            i < self.members@.len(),
        ensures
            *r == self.members@[i as int],
    {
        &self.members[i]
    }

    /// The position of the record carrying `name`, where there is one.
    pub fn find(&self, name: &XorName) -> (r: Option<usize>)
        requires
            self.wf(),
        ensures
            r is Some <==> self.spec_has(name@),
            r matches Some(i) ==> i < self.members@.len()
                && self.members@[i as int].value.peer.name@ == name@
                && i == self.spec_index_of(name@),
    {
        let mut i: usize = 0;
        while i < self.members.len()
            invariant
                self.wf(),
                i <= self.members@.len(),
                forall|j: int| 0 <= j < i
                    ==> (#[trigger] self.members@[j]).value.peer.name@ != name@,
            decreases self.members@.len() - i,
        {
            if self.members[i].value.peer.name.equals(name) {
                proof {
                    assert(self.spec_names()[i as int] == name@);
                    let c0 = self.spec_index_of(name@);
                    if c0 != i as int {
                        assert(self.spec_names()[c0] == self.spec_names()[i as int]);
                    }
                }
                return Some(i);
            }
            i = i + 1;
        }
        proof {
            assert(forall|j: int| 0 <= j < self.spec_names().len()
                ==> self.spec_names()[j] != name@);
        }
        None
    }

    /// Whether the record for `name` says the node is joined.
    pub fn is_joined(&self, name: &XorName) -> (r: bool)
        requires
            self.wf(),
        ensures
            r == self.spec_is_joined(name@),
    {
        let mut i: usize = 0;
        while i < self.members.len()
            invariant
                i <= self.members@.len(),
                forall|j: int| 0 <= j < i
                    ==> !((#[trigger] self.members@[j]).value.peer.name@ == name@
                        && self.members@[j].value.state is Joined),
            decreases self.members@.len() - i,
        {
            let m = &self.members[i];
            if m.value.peer.name.equals(name) {
                match &m.value.state {
                    MembershipState::Joined => {
                        return true;
                    },
                    _ => {},
                }
            }
            i = i + 1;
        }
        false
    }

    /// Accepts the record `ns` for its name. A record for a new name is
    /// appended; a record for a known name replaces the old one exactly when
    /// it strictly supersedes it. Returns whether anything changed.
    pub fn update(&mut self, ns: SectionAuth<NodeState>, chain: &SectionChain) -> (r: bool)
        requires
            old(self).wf(),
            chain.wf(),
            ns.value.peer.name@.len() == XOR_NAME_LEN,
        ensures
            final(self).wf(),
            !old(self).spec_has(ns.value.peer.name@)
                ==> r && final(self).members@ == old(self).members@.push(ns),
            old(self).spec_has(ns.value.peer.name@) ==> {
                let i = old(self).spec_index_of(ns.value.peer.name@);
                &&& r == spec_supersedes(chain, &old(self).members@[i], &ns)
                &&& (r ==> final(self).members@ == old(self).members@.update(i, ns))
                &&& (!r ==> *final(self) == *old(self))
            },
    {
        let found = self.find(&ns.value.peer.name);
        match found {
            Option::None => {
                let ghost old_names = self.spec_names();
                proof {
                    assert(!old(self).spec_has(ns.value.peer.name@));
                }
                self.members.push(ns);
                proof {
                    assert(self.spec_names() =~= old_names.push(
                        self.members@.last().value.peer.name@,
                    ));
                    assert(forall|j: int| 0 <= j < old_names.len()
                        ==> old_names[j] != self.members@.last().value.peer.name@);
                }
                true
            },
            Option::Some(i) => {
                let replace = supersedes(chain, &self.members[i], &ns);
                if replace {
                    let ghost old_names = self.spec_names();
                    self.members.set(i, ns);
                    proof {
                        assert(self.spec_names() =~= old_names.update(
                            i as int,
                            self.members@[i as int].value.peer.name@,
                        ));
                        assert(self.spec_names() =~= old_names);
                    }
                    true
                } else {
                    false
                }
            },
        }
    }

    /// Drops every record whose name does not match `prefix`, keeping the
    /// rest in order.
    pub fn prune_not_matching(&mut self, prefix: &Prefix)
        requires
            old(self).wf(),
            prefix.wf(),
        ensures
            final(self).wf(),
            forall|i: int| 0 <= i < final(self).members@.len()
                ==> spec_matches(prefix@, (#[trigger] final(self).members@[i]).value.peer.name@)
                    && old(self).members@.contains(final(self).members@[i]),
            forall|j: int| 0 <= j < old(self).members@.len()
                && spec_matches(prefix@, (#[trigger] old(self).members@[j]).value.peer.name@)
                ==> final(self).members@.contains(old(self).members@[j]),
    {
        let ghost orig = self.members@;
        let mut kept: Vec<SectionAuth<NodeState>> = Vec::new();
        let ghost mut k: int = 0;
        while self.members.len() > 0
            invariant
                prefix.wf(),
                spec_names_unique(rec_names(orig)),
                spec_names_wf(rec_names(orig)),
                0 <= k <= orig.len(),
                self.members@ =~= orig.skip(k),
                forall|t: int| 0 <= t < kept@.len()
                    ==> spec_matches(prefix@, (#[trigger] kept@[t]).value.peer.name@),
                forall|t: int| 0 <= t < kept@.len()
                    ==> exists|j: int| 0 <= j < k && #[trigger] kept@[t] == orig[j],
                forall|j: int| 0 <= j < k
                    && spec_matches(prefix@, (#[trigger] orig[j]).value.peer.name@)
                    ==> kept@.contains(orig[j]),
                forall|t1: int, t2: int| 0 <= t1 < t2 < kept@.len()
                    ==> (#[trigger] kept@[t1]).value.peer.name@
                        != (#[trigger] kept@[t2]).value.peer.name@,
            decreases self.members@.len(),
        {
            let ghost old_kept = kept@;
            let m = self.members.remove(0);
            proof {
                assert(orig.skip(k)[0] == orig[k]);
                assert(self.members@ =~= orig.skip(k + 1));
                assert(rec_names(orig)[k] == orig[k].value.peer.name@);
            }
            let keep = prefix.matches(&m.value.peer.name);
            if keep {
                kept.push(m);
                proof {
                    assert(kept@.last() == orig[k]);
                    assert(kept@[kept@.len() - 1] == orig[k]);
                    assert forall|t1: int, t2: int| 0 <= t1 < t2 < kept@.len()
                        implies (#[trigger] kept@[t1]).value.peer.name@
                            != (#[trigger] kept@[t2]).value.peer.name@ by {
                        if t2 == kept@.len() - 1 {
                            let j1 = choose|j: int| 0 <= j < k && #[trigger] old_kept[t1] == orig[j];
                            assert(rec_names(orig)[j1] == orig[j1].value.peer.name@);
                        }
                    };
                }
            }
            proof {
                assert forall|j: int| 0 <= j < k + 1
                    && spec_matches(prefix@, (#[trigger] orig[j]).value.peer.name@)
                    implies kept@.contains(orig[j]) by {
                    if j < k {
                        let t = choose|t: int| 0 <= t < old_kept.len() && old_kept[t] == orig[j];
                        assert(kept@[t] == orig[j]);
                    } else {
                        assert(kept@[kept@.len() - 1] == orig[k]);
                    }
                };
                k = k + 1;
            }
        }
        self.members = kept;
        proof {
            assert forall|a: int, b: int| 0 <= a < b < self.spec_names().len()
                implies #[trigger] self.spec_names()[a] != #[trigger] self.spec_names()[b] by {
                assert(self.spec_names()[a] == self.members@[a].value.peer.name@);
                assert(self.spec_names()[b] == self.members@[b].value.peer.name@);
            };
            assert forall|a: int| 0 <= a < self.spec_names().len()
                implies (#[trigger] self.spec_names()[a]).len() == XOR_NAME_LEN by {
                let ja = choose|j: int| 0 <= j < orig.len() && #[trigger] self.members@[a] == orig[j];
                assert(rec_names(orig)[ja] == orig[ja].value.peer.name@);
            };
        }
    }
    /// The peers of joined members that are not excluded and, when a prefix
    /// is given, whose names match it: the pool elder candidates come from.
    pub fn candidate_pool(&self, excluded: &Vec<XorName>, pfx: Option<&Prefix>) -> (pool: Vec<Peer>)
        requires
            self.wf(),
            pfx matches Some(p) ==> p.wf(),
        ensures
            peer_names_wf(pool@),
            peer_names_unique(pool@),
            forall|t: int| 0 <= t < pool@.len()
                ==> spec_pool_entry(self.members@, self.members@.len() as int,
                    xor_names(excluded@), pfx_view(pfx), #[trigger] pool@[t]),
            forall|j: int| 0 <= j < self.members@.len()
                && spec_is_candidate(#[trigger] self.members@[j], xor_names(excluded@), pfx_view(pfx))
                ==> peer_names(pool@).contains(self.members@[j].value.peer.name@),
    {
        let mut pool: Vec<Peer> = Vec::new();
        let mut i: usize = 0;
        while i < self.members.len()
            invariant
                self.wf(),
                pfx matches Some(p) ==> p.wf(),
                i <= self.members@.len(),
                peer_names_wf(pool@),
                forall|t: int| 0 <= t < pool@.len()
                    ==> spec_pool_entry(self.members@, i as int,
                        xor_names(excluded@), pfx_view(pfx), #[trigger] pool@[t]),
                forall|j: int| 0 <= j < i
                    && spec_is_candidate(#[trigger] self.members@[j], xor_names(excluded@), pfx_view(pfx))
                    ==> peer_names(pool@).contains(self.members@[j].value.peer.name@),
                peer_names_unique(pool@),
            decreases self.members@.len() - i,
        {
            let m = &self.members[i];
            let joined = match &m.value.state {
                MembershipState::Joined => true,
                _ => false,
            };
            proof {
                assert(rec_names(self.members@)[i as int] == m.value.peer.name@);
            }
            let ghost old_pool = pool@;
            let selected = joined && !name_listed(excluded, &m.value.peer.name)
                && (match pfx {
                    Option::Some(p) => p.matches(&m.value.peer.name),
                    Option::None => true,
                });
            if selected {
                pool.push(m.value.peer.duplicate());
                proof {
                    assert(spec_is_candidate(self.members@[i as int], xor_names(excluded@), pfx_view(pfx)));
                    assert(peer_matches(pool@.last(), self.members@[i as int].value.peer));
                    assert forall|t: int| 0 <= t < pool@.len()
                        implies spec_pool_entry(self.members@, i + 1,
                            xor_names(excluded@), pfx_view(pfx), #[trigger] pool@[t]) by {
                        if t < old_pool.len() {
                            assert(pool@[t] == old_pool[t]);
                            lemma_pool_entry_widen(self.members@, i as int, i + 1,
                                xor_names(excluded@), pfx_view(pfx), pool@[t]);
                        } else {
                            assert(spec_is_candidate(self.members@[i as int], xor_names(excluded@), pfx_view(pfx))
                                && peer_matches(pool@[t], self.members@[i as int].value.peer));
                        }
                    };
                    assert(peer_names(pool@).contains(self.members@[i as int].value.peer.name@)) by {
                        assert(peer_names(pool@)[pool@.len() - 1]
                            == self.members@[i as int].value.peer.name@);
                    }
                    assert forall|t: int| 0 <= t < old_pool.len()
                        implies peer_names(pool@).contains(#[trigger] old_pool[t].name@) by {
                        assert(peer_names(pool@)[t] == old_pool[t].name@);
                    };
                    assert forall|t1: int, t2: int| 0 <= t1 < t2 < pool@.len()
                        implies (#[trigger] pool@[t1]).name@ != (#[trigger] pool@[t2]).name@ by {
                        if t2 == pool@.len() - 1 {
                            let j1 = choose|j: int| 0 <= j < i
                                && spec_is_candidate(#[trigger] self.members@[j], xor_names(excluded@), pfx_view(pfx))
                                && peer_matches(old_pool[t1], self.members@[j].value.peer);
                            assert(rec_names(self.members@)[j1]
                                == self.members@[j1].value.peer.name@);
                        }
                    };
                }
            }
            else {
                proof {
                    assert forall|t: int| 0 <= t < pool@.len()
                        implies spec_pool_entry(self.members@, i + 1,
                            xor_names(excluded@), pfx_view(pfx), #[trigger] pool@[t]) by {
                        lemma_pool_entry_widen(self.members@, i as int, i + 1,
                            xor_names(excluded@), pfx_view(pfx), pool@[t]);
                    };
                }
            }
            i = i + 1;
        }
        pool
    }
}

/// A peer that mirrors a candidate among the first `a` records also mirrors
/// one among the first `b`, for `a <= b`.
pub proof fn lemma_pool_entry_widen(
    ms: Seq<SectionAuth<NodeState>>,
    a: int,
    b: int,
    excluded: Seq<Seq<u8>>,
    pfx: Option<Seq<bool>>,
    p: Peer,
)
    requires
        a <= b,
        spec_pool_entry(ms, a, excluded, pfx, p),
    ensures
        spec_pool_entry(ms, b, excluded, pfx, p),
{
    let j = choose|j: int| 0 <= j < a
        && spec_is_candidate(#[trigger] ms[j], excluded, pfx)
        && peer_matches(p, ms[j].value.peer);
    assert(spec_is_candidate(ms[j], excluded, pfx) && peer_matches(p, ms[j].value.peer));
}

/// The name views of a list of names.
pub open spec fn xor_names(ns: Seq<XorName>) -> Seq<Seq<u8>> {
    ns.map(|i: int, x: XorName| x@)
}

/// The name views of a list of peers.
pub open spec fn peer_names(ps: Seq<Peer>) -> Seq<Seq<u8>> {
    ps.map(|i: int, p: Peer| p.name@)
}

/// Whether all peer names are well formed.
pub open spec fn peer_names_wf(ps: Seq<Peer>) -> bool {
    forall|i: int| 0 <= i < ps.len() ==> (#[trigger] ps[i]).name@.len() == XOR_NAME_LEN
}

/// Whether all peer names are pairwise distinct.
pub open spec fn peer_names_unique(ps: Seq<Peer>) -> bool {
    forall|i: int, j: int| 0 <= i < j < ps.len()
        ==> (#[trigger] ps[i]).name@ != (#[trigger] ps[j]).name@
}

/// Whether two peers agree in name, address and reachability.
pub open spec fn peer_matches(a: Peer, b: Peer) -> bool {
    a.name@ == b.name@ && a.addr == b.addr && a.reachable == b.reachable
}

/// The view of an optional prefix.
pub open spec fn pfx_view(pfx: Option<&Prefix>) -> Option<Seq<bool>> {
    match pfx {
        Option::Some(p) => Option::Some(p@),
        Option::None => Option::None,
    }
}

/// Whether the peer `p` mirrors a candidate among the first `upto` records.
pub open spec fn spec_pool_entry(
    ms: Seq<SectionAuth<NodeState>>,
    upto: int,
    excluded: Seq<Seq<u8>>,
    pfx: Option<Seq<bool>>,
    p: Peer,
) -> bool {
    exists|j: int| 0 <= j < upto
        && spec_is_candidate(#[trigger] ms[j], excluded, pfx)
        && peer_matches(p, ms[j].value.peer)
}

/// Whether a record is an elder candidate: joined, not excluded, and
/// matching the prefix when one is given.
pub open spec fn spec_is_candidate(
    m: SectionAuth<NodeState>,
    excluded: Seq<Seq<u8>>,
    pfx: Option<Seq<bool>>,
) -> bool {
    &&& m.value.state is Joined
    &&& !excluded.contains(m.value.peer.name@)
    &&& match pfx {
        Option::Some(p) => spec_matches(p, m.value.peer.name@),
        Option::None => true,
    }
}

/// Whether `n` appears in the list of names.
pub fn name_listed(names: &Vec<XorName>, n: &XorName) -> (r: bool)
    ensures
        r == xor_names(names@).contains(n@),
{
    let mut i: usize = 0;
    while i < names.len()
        invariant
            i <= names@.len(),
            forall|j: int| 0 <= j < i ==> (#[trigger] names@[j])@ != n@,
        decreases names@.len() - i,
    {
        if names[i].equals(n) {
            proof {
                assert(xor_names(names@)[i as int] == n@);
            }
            return true;
        }
        i = i + 1;
    }
    proof {
        assert(forall|j: int| 0 <= j < xor_names(names@).len()
            ==> xor_names(names@)[j] != n@);
    }
    false
}

/// Picks the `size` best-ranked peers of the pool: best by age descending,
/// then by XOR distance of the name to `center`. Every peer left out ranks
/// after every peer chosen.
pub fn select_elders(pool: Vec<Peer>, size: usize, center: &XorName) -> (r: Vec<Peer>)
    requires
        peer_names_wf(pool@),
        peer_names_unique(pool@),
        center.wf(),
    ensures
        r@.len() == if size <= pool@.len() { size as int } else { pool@.len() as int },
        peer_names_wf(r@),
        peer_names_unique(r@),
        forall|t: int| 0 <= t < r@.len() ==> pool@.contains(#[trigger] r@[t]),
        forall|t: int, j: int| 0 <= t < r@.len() && 0 <= j < pool@.len()
            && !peer_names(r@).contains((#[trigger] pool@[j]).name@)
            ==> spec_rank_before(#[trigger] r@[t], pool@[j], center@),
        // a short choice is a full one: fewer than `size` only when every
        // pool entry was chosen
        r@.len() < size ==> forall|j: int| 0 <= j < pool@.len()
            ==> r@.contains(#[trigger] pool@[j]),
    {
        let ghost pool0 = pool@;
        let mut work = pool;
        let mut r: Vec<Peer> = Vec::new();
        proof {
            assert forall|u: int| 0 <= u < work@.len()
                implies pool0.contains(#[trigger] work@[u]) by {
                assert(pool0[u] == work@[u]);
            };
            assert forall|j: int| 0 <= j < pool0.len()
                implies r@.contains(#[trigger] pool0[j]) || work@.contains(pool0[j]) by {
                assert(work@[j] == pool0[j]);
            };
        }
        while r.len() < size && work.len() > 0
            invariant
                center.wf(),
                peer_names_wf(work@),
                peer_names_wf(r@),
                peer_names_unique(work@),
                peer_names_unique(r@),
                r@.len() + work@.len() == pool0.len(),
                r@.len() <= size,
                forall|t: int, u: int| 0 <= t < r@.len() && 0 <= u < work@.len()
                    ==> (#[trigger] r@[t]).name@ != (#[trigger] work@[u]).name@,
                forall|t: int| 0 <= t < r@.len() ==> pool0.contains(#[trigger] r@[t]),
                forall|u: int| 0 <= u < work@.len() ==> pool0.contains(#[trigger] work@[u]),
                forall|j: int| 0 <= j < pool0.len()
                    ==> r@.contains(#[trigger] pool0[j]) || work@.contains(pool0[j]),
                forall|t: int, u: int| 0 <= t < r@.len() && 0 <= u < work@.len()
                    ==> spec_rank_before(#[trigger] r@[t], #[trigger] work@[u], center@),
            decreases size - r@.len(),
        {
            // find the best-ranked remaining peer
            proof {
                lemma_rank_irrefl(work@[0], center@);
            }
            let mut best: usize = 0;
            let mut j: usize = 1;
            while j < work.len()
                invariant
                    center.wf(),
                    peer_names_wf(work@),
                    work@.len() > 0,
                    best < j,
                    j <= work@.len(),
                    forall|t: int| 0 <= t < j
                        ==> !spec_rank_before(#[trigger] work@[t], work@[best as int], center@),
                decreases work@.len() - j,
            {
                if rank_before(&work[j], &work[best], center) {
                    proof {
                        assert forall|t: int| 0 <= t < j + 1
                            implies !spec_rank_before(#[trigger] work@[t], work@[j as int], center@) by {
                            if t < j && spec_rank_before(work@[t], work@[j as int], center@) {
                                lemma_rank_trans(work@[t], work@[j as int], work@[best as int], center@);
                            }
                            if t == j {
                                lemma_rank_irrefl(work@[j as int], center@);
                            }
                        };
                    }
                    best = j;
                }
                j = j + 1;
            }
            proof {
                lemma_rank_irrefl(work@[best as int], center@);
            }
            let ghost old_work = work@;
            let ghost old_r = r@;
            let chosen = work.remove(best);
            r.push(chosen);
            proof {
                let b = best as int;
                assert(r@.last() == old_work[b]);
                assert forall|u: int| 0 <= u < work@.len()
                    implies #[trigger] work@[u] == old_work[if u < b { u } else { u + 1 }] by {
                    assert(work@ == old_work.remove(b));
                };
                // everything still in the working set ranks after the chosen peer
                assert forall|u: int| 0 <= u < work@.len()
                    implies spec_rank_before(r@.last(), #[trigger] work@[u], center@) by {
                    let u0: int = if u < b { u } else { u + 1 };
                    assert(work@[u] == old_work[u0]);
                    lemma_rank_connex(old_work[b], old_work[u0], center@);
                };
                // names stay pairwise distinct within and across the two lists
                assert forall|t1: int, t2: int| 0 <= t1 < t2 < r@.len()
                    implies (#[trigger] r@[t1]).name@ != (#[trigger] r@[t2]).name@ by {
                    if t2 == r@.len() - 1 {
                        assert(old_r[t1].name@ != old_work[b].name@);
                    }
                };
                assert forall|t: int, u: int| 0 <= t < r@.len() && 0 <= u < work@.len()
                    implies (#[trigger] r@[t]).name@ != (#[trigger] work@[u]).name@ by {
                    let u0: int = if u < b { u } else { u + 1 };
                    assert(work@[u] == old_work[u0]);
                    if t == r@.len() - 1 {
                        assert(old_work[b].name@ != old_work[u0].name@);
                    } else {
                        assert(old_r[t].name@ != old_work[u0].name@);
                    }
                };
                // both lists still hold only pool entries
                assert forall|u: int| 0 <= u < work@.len()
                    implies pool0.contains(#[trigger] work@[u]) by {
                    let u0: int = if u < b { u } else { u + 1 };
                    assert(work@[u] == old_work[u0]);
                    assert(pool0.contains(old_work[u0]));
                };
                assert forall|t: int| 0 <= t < r@.len()
                    implies pool0.contains(#[trigger] r@[t]) by {
                    if t == r@.len() - 1 {
                        assert(pool0.contains(old_work[b]));
                    } else {
                        assert(r@[t] == old_r[t]);
                        assert(pool0.contains(old_r[t]));
                    }
                };
                // every pool entry is still accounted for
                assert forall|jj: int| 0 <= jj < pool0.len()
                    implies r@.contains(#[trigger] pool0[jj]) || work@.contains(pool0[jj]) by {
                    if old_r.contains(pool0[jj]) {
                        let t = choose|t: int| 0 <= t < old_r.len() && old_r[t] == pool0[jj];
                        assert(r@[t] == pool0[jj]);
                    } else {
                        let u = choose|u: int| 0 <= u < old_work.len() && old_work[u] == pool0[jj];
                        if u == b {
                            assert(r@[r@.len() - 1] == pool0[jj]);
                        } else if u < b {
                            assert(work@[u] == pool0[jj]);
                        } else {
                            assert(work@[u - 1] == pool0[jj]);
                        }
                    }
                };
            }
        }
        proof {
            assert forall|t: int, j: int| 0 <= t < r@.len() && 0 <= j < pool0.len()
                && !peer_names(r@).contains((#[trigger] pool0[j]).name@)
                implies spec_rank_before(#[trigger] r@[t], pool0[j], center@) by {
                if !r@.contains(pool0[j]) {
                    let u = choose|u: int| 0 <= u < work@.len() && work@[u] == pool0[j];
                    assert(work@[u] == pool0[j]);
                    assert(spec_rank_before(r@[t], work@[u], center@));
                } else {
                    let t2 = choose|t2: int| 0 <= t2 < r@.len() && r@[t2] == pool0[j];
                    assert(peer_names(r@)[t2] == pool0[j].name@);
                }
            };
        }
        r
    }

} // verus!
