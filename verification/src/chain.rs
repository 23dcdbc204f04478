//! The section chain: an append-only history of section BLS keys rooted at
//! the genesis key, in which every non-root key carries a signature by its
//! parent key. The chain is what lets a node decide whether a section key,
//! and anything signed by it, descends from a key it already trusts.

use vstd::prelude::*;
use crate::crypto::{bls_verifies, bls_verify, BLS_PK_LEN, BLS_SIG_LEN};
use crate::errors::RoutingError;
use crate::signed::KeyedSig;
use crate::xor::{bytes_eq, clone_bytes};

verus! {

/// One non-root key of the chain with the signature that introduced it.
#[derive(Clone, Debug, PartialEq, Eq)]
pub struct ChainEntry {
    /// The key this entry introduces.
    pub key: Vec<u8>,
    /// The parent key that signed `key`.
    pub parent: Vec<u8>,
    /// The parent's BLS signature over `key`.
    pub signature: Vec<u8>,
}

impl ChainEntry {
    /// A fresh copy of the entry.
    pub fn duplicate(&self) -> (r: ChainEntry)
        ensures
            r.key@ == self.key@,
            r.parent@ == self.parent@,
            r.signature@ == self.signature@,
    {
        ChainEntry {
            key: clone_bytes(&self.key),
            parent: clone_bytes(&self.parent),
            signature: clone_bytes(&self.signature),
        }
    }
}

/// An append-only chain of section keys rooted at a genesis key.
#[derive(Clone, Debug, PartialEq, Eq)]
pub struct SectionChain {
    /// The root (genesis) key.
    pub root: Vec<u8>,
    /// The non-root keys, each signed by a parent that appears earlier.
    pub entries: Vec<ChainEntry>,
}

impl SectionChain {
    /// All keys on the chain: the root followed by each entry's key.
    pub open spec fn keys(&self) -> Seq<Seq<u8>> {
        seq![self.root@] + self.entries@.map(|i: int, e: ChainEntry| e.key@)
    }

    /// Whether `k` is a key on the chain.
    pub open spec fn spec_has_key(&self, k: Seq<u8>) -> bool {
        self.keys().contains(k)
    }

    /// The most recently appended key; the root if nothing was appended.
    pub open spec fn spec_last_key(&self) -> Seq<u8> {
        if self.entries@.len() == 0 {
            self.root@
        } else {
            self.entries@.last().key@
        }
    }

    /// Well-formedness: keys and signatures have their scheme's lengths,
    /// every entry's signature verifies under its parent key, every parent
    /// appears earlier on the chain, and no key appears twice.
    pub open spec fn wf(&self) -> bool {
        &&& self.root@.len() == BLS_PK_LEN
        &&& forall|i: int| 0 <= i < self.entries@.len()
            ==> (#[trigger] self.entries@[i]).key@.len() == BLS_PK_LEN
                && self.entries@[i].parent@.len() == BLS_PK_LEN
                && self.entries@[i].signature@.len() == BLS_SIG_LEN
        &&& forall|i: int| 0 <= i < self.entries@.len()
            ==> bls_verifies(
                (#[trigger] self.entries@[i]).parent@,
                self.entries@[i].signature@,
                self.entries@[i].key@,
            )
        &&& forall|i: int| 0 <= i < self.entries@.len()
            ==> (#[trigger] self.entries@[i]).parent@ == self.root@
                || exists|j: int| 0 <= j < i && (#[trigger] self.entries@[j]).key@ == self.entries@[i].parent@
        &&& forall|i: int| 0 <= i < self.entries@.len()
            ==> (#[trigger] self.entries@[i]).key@ != self.root@
        &&& forall|i: int, j: int| 0 <= i < j < self.entries@.len()
            ==> (#[trigger] self.entries@[i]).key@ != (#[trigger] self.entries@[j]).key@
    }

    /// A chain holding only its root key.
    pub fn new(root: Vec<u8>) -> (r: SectionChain)
        requires
            root@.len() == BLS_PK_LEN,
        ensures
            r.wf(),
            r.root@ == root@,
            r.entries@.len() == 0,
            r.spec_last_key() == root@,
    {
        let r = SectionChain { root, entries: Vec::new() };
        proof {
            assert(r.keys() =~= seq![r.root@]);
        }
        r
    }

    /// The chain's root key.
    pub fn root_key(&self) -> (r: &Vec<u8>)
        ensures
            r@ == self.root@,
    {
        &self.root
    }

    /// The most recently appended key.
    pub fn last_key(&self) -> (r: Vec<u8>)
        ensures
            r@ == self.spec_last_key(),
    {
        if self.entries.len() == 0 {
            clone_bytes(&self.root)
        } else {
            clone_bytes(&self.entries[self.entries.len() - 1].key)
        }
    }

    /// Number of keys on the chain.
    pub fn key_count(&self) -> (r: usize)
        requires
            self.entries@.len() < usize::MAX,
        ensures
            r == self.keys().len(),
    {
        proof {
            assert(self.keys().len() == 1 + self.entries@.len());
        }
        1 + self.entries.len()
    }

    /// Whether `k` is a key on the chain.
    pub fn has_key(&self, k: &Vec<u8>) -> (r: bool)
        ensures
            r == self.spec_has_key(k@),
    {
        if bytes_eq(&self.root, k) {
            proof {
                assert(self.keys()[0] == k@);
            }
            return true;
        }
        let mut i: usize = 0;
        while i < self.entries.len()
            invariant
                i <= self.entries@.len(),
                self.root@ != k@,
                forall|j: int| 0 <= j < i ==> (#[trigger] self.entries@[j]).key@ != k@,
            decreases self.entries@.len() - i,
        {
            if bytes_eq(&self.entries[i].key, k) {
                proof {
                    assert(self.keys()[i + 1] == k@);
                }
                return true;
            }
            i = i + 1;
        }
        proof {
            assert(forall|j: int| 0 <= j < self.keys().len() ==> self.keys()[j] != k@) by {
                assert(forall|j: int| 1 <= j < self.keys().len()
                    ==> self.keys()[j] == (#[trigger] self.entries@[j - 1]).key@);
            }
        }
        false
    }

    /// The position of `k` on the chain, where it is a key: the root is 0,
    /// each appended key one more.
    pub open spec fn spec_rank_of(&self, k: Seq<u8>) -> int {
        choose|j: int| 0 <= j < self.keys().len() && self.keys()[j] == k
    }

    /// Finds the position of `k` on the chain: present keys have exactly one.
    pub fn rank_of(&self, k: &Vec<u8>) -> (r: Option<usize>)
        requires
            self.wf(),
        ensures
            r is Some <==> self.spec_has_key(k@),
            r matches Some(j) ==> j == self.spec_rank_of(k@)
                && 0 <= j < self.keys().len() && self.keys()[j as int] == k@,
    {
        proof {
            lemma_chain_keys_unique(self);
        }
        if bytes_eq(&self.root, k) {
            proof {
                assert(self.keys()[0] == k@);
                let c0 = self.spec_rank_of(k@);
                if c0 != 0 {
                    assert(self.keys()[c0] == self.keys()[0]);
                }
            }
            return Some(0);
        }
        let mut i: usize = 0;
        while i < self.entries.len()
            invariant
                self.wf(),
                i <= self.entries@.len(),
                self.root@ != k@,
                forall|j: int| 0 <= j < i ==> (#[trigger] self.entries@[j]).key@ != k@,
            decreases self.entries@.len() - i,
        {
            if bytes_eq(&self.entries[i].key, k) {
                proof {
                    lemma_chain_keys_unique(self);
                    assert(self.keys()[i + 1] == k@);
                    let c0 = self.spec_rank_of(k@);
                    if c0 != i + 1 {
                        assert(self.keys()[c0] == self.keys()[i + 1]);
                    }
                }
                return Some(i + 1);
            }
            i = i + 1;
        }
        proof {
            assert(forall|j: int| 0 <= j < self.keys().len() ==> self.keys()[j] != k@) by {
                assert(forall|j: int| 1 <= j < self.keys().len()
                    ==> self.keys()[j] == (#[trigger] self.entries@[j - 1]).key@);
            }
        }
        None
    }

    /// Appends `key`, signed by `parent`, to the chain. Succeeds exactly when
    /// `parent` is already on the chain, the new key and signature have their
    /// scheme's lengths, and the signature verifies; a key that is already on
    /// the chain is left as it is.
    pub fn insert(&mut self, parent: &Vec<u8>, key: Vec<u8>, signature: Vec<u8>) -> (r: Result<(), RoutingError>)
        requires
            old(self).wf(),
        ensures
            final(self).wf(),
            final(self).root@ == old(self).root@,
            r is Ok <==> (old(self).spec_has_key(parent@)
                && key@.len() == BLS_PK_LEN
                && signature@.len() == BLS_SIG_LEN
                && bls_verifies(parent@, signature@, key@)),
            r is Err ==> *final(self) == *old(self),
            (r is Ok && !old(self).spec_has_key(key@))
                ==> final(self).entries@.len() == old(self).entries@.len() + 1
                    && final(self).entries@.last().key@ == key@
                    && final(self).entries@.last().parent@ == parent@
                    && final(self).entries@.last().signature@ == signature@
                    && (forall|j: int| 0 <= j < old(self).entries@.len()
                        ==> final(self).entries@[j] == old(self).entries@[j])
                    && final(self).spec_last_key() == key@,
            (r is Ok && old(self).spec_has_key(key@)) ==> *final(self) == *old(self),
            forall|k: Seq<u8>| final(self).spec_has_key(k)
                <==> (old(self).spec_has_key(k) || (r is Ok && k == key@)),
    {
        if !(key.len() == BLS_PK_LEN && signature.len() == BLS_SIG_LEN
            && self.has_key(parent) && bls_verify(parent, &signature, &key))
        {
            return Err(RoutingError::UntrustedKey);
        }
        if self.has_key(&key) {
            return Ok(());
        }
        let entry = ChainEntry { key, parent: clone_bytes(parent), signature };
        let ghost old_keys = self.keys();
        self.entries.push(entry);
        proof {
            let n = old(self).entries@.len() as int;
            let newk = self.entries@[n].key@;
            assert(forall|j: int| 0 <= j < n ==> self.entries@[j] == old(self).entries@[j]);
            assert(forall|j: int| 0 <= j < old_keys.len() ==> self.keys()[j] == old_keys[j]);
            assert(self.keys().len() == old_keys.len() + 1);
            assert(self.keys()[old_keys.len() as int] == newk);
            assert(forall|j: int| 0 <= j < n
                ==> old_keys[j + 1] == (#[trigger] self.entries@[j]).key@);
            // the new key is on neither the root nor an earlier entry
            assert(forall|j: int| 0 <= j < old_keys.len() ==> old_keys[j] != newk);
            // the parent of the new entry is the root or an earlier key
            if self.entries@[n].parent@ != self.root@ {
                let pi = choose|pi: int|
                    0 <= pi < old_keys.len() && old_keys[pi] == self.entries@[n].parent@;
                assert(old_keys[0] == self.root@);
                assert(self.entries@[pi - 1].key@ == self.entries@[n].parent@);
            }
            assert(self.wf());
            assert forall|k: Seq<u8>|
                self.spec_has_key(k) implies (old(self).spec_has_key(k) || k == newk) by {
                let j = choose|j: int| 0 <= j < self.keys().len() && self.keys()[j] == k;
                if j < old_keys.len() {
                    assert(old(self).keys()[j] == k);
                }
            };
            assert forall|k: Seq<u8>|
                old(self).spec_has_key(k) implies self.spec_has_key(k) by {
                let j = choose|j: int| 0 <= j < old_keys.len() && old_keys[j] == k;
                assert(self.keys()[j] == k);
            };
            assert(self.spec_has_key(newk));
        }
        Ok(())
    }

    /// Merges another chain that shares this chain's root: every key of
    /// `other` ends up on this chain. Fails, changing nothing, exactly when
    /// the roots differ.
    pub fn merge(&mut self, other: &SectionChain) -> (r: Result<(), RoutingError>)
        requires
            old(self).wf(),
            other.wf(),
        ensures
            final(self).wf(),
            final(self).root@ == old(self).root@,
            r is Ok <==> other.root@ == old(self).root@,
            r is Err ==> *final(self) == *old(self),
            r is Ok ==> forall|k: Seq<u8>| final(self).spec_has_key(k)
                <==> (old(self).spec_has_key(k) || other.spec_has_key(k)),
            forall|k: Seq<u8>| old(self).spec_has_key(k) ==> final(self).spec_has_key(k),
            (r is Ok && !old(self).spec_has_key(other.spec_last_key())
                && other.entries@.len() > 0)
                ==> final(self).spec_last_key() == other.spec_last_key(),
    {
        if !bytes_eq(&self.root, &other.root) {
            return Err(RoutingError::UntrustedProofChain);
        }
        let mut i: usize = 0;
        while i < other.entries.len()
            invariant
                self.wf(),
                other.wf(),
                self.root@ == old(self).root@,
                other.root@ == self.root@,
                i <= other.entries@.len(),
                forall|k: Seq<u8>| old(self).spec_has_key(k) ==> self.spec_has_key(k),
                forall|j: int| 0 <= j < i ==> self.spec_has_key((#[trigger] other.entries@[j]).key@),
                forall|k: Seq<u8>| self.spec_has_key(k)
                    ==> (old(self).spec_has_key(k)
                        || exists|j: int| 0 <= j < i && (#[trigger] other.entries@[j]).key@ == k),
                (i == other.entries@.len() && other.entries@.len() > 0
                    && !old(self).spec_has_key(other.spec_last_key()))
                    ==> self.spec_last_key() == other.spec_last_key(),
            decreases other.entries@.len() - i,
        {
            let e = &other.entries[i];
            let present = self.has_key(&e.key);
            let ghost pre = *self;
            if !present {
                proof {
                    // the entry's parent is already on this chain
                    if other.entries@[i as int].parent@ != other.root@ {
                        let j = choose|j: int| 0 <= j < i
                            && (#[trigger] other.entries@[j]).key@ == other.entries@[i as int].parent@;
                        assert(self.spec_has_key(other.entries@[j].key@));
                    } else {
                        assert(self.keys()[0] == self.root@);
                    }
                }
                let res = self.insert(&e.parent, clone_bytes(&e.key), clone_bytes(&e.signature));
                proof {
                    assert(res is Ok);
                }
            }
            proof {
                if i + 1 == other.entries@.len() && !old(self).spec_has_key(other.spec_last_key()) {
                    assert(other.spec_last_key() == other.entries@[i as int].key@);
                    if present {
                        // impossible: the keys of `other` are unique, so this
                        // key cannot have been appended earlier in the merge
                        assert(pre.spec_has_key(other.entries@[i as int].key@));
                        let j = choose|j: int|
                            0 <= j < i && (#[trigger] other.entries@[j]).key@
                                == other.entries@[i as int].key@;
                        assert(false);
                    }
                    assert(self.spec_last_key() == other.spec_last_key());
                }
            }
            i = i + 1;
        }
        proof {
            assert forall|k: Seq<u8>| other.spec_has_key(k) implies self.spec_has_key(k) by {
                let j = choose|j: int| 0 <= j < other.keys().len() && other.keys()[j] == k;
                if j == 0 {
                    assert(k == other.root@);
                    assert(self.keys()[0] == k);
                } else {
                    assert(other.keys()[j] == (#[trigger] other.entries@[j - 1]).key@);
                }
            };
            assert forall|k: Seq<u8>|
                self.spec_has_key(k) && !old(self).spec_has_key(k) implies other.spec_has_key(k) by {
                let j = choose|j: int|
                    0 <= j < other.entries@.len() && (#[trigger] other.entries@[j]).key@ == k;
                assert(other.keys()[j + 1] == k);
            };
        }
        Ok(())
    }

    /// Index of the entry, earlier than `i`, whose key is entry `i`'s parent.
    pub open spec fn parent_index(&self, i: int) -> int {
        choose|j: int| 0 <= j < i && (#[trigger] self.entries@[j]).key@ == self.entries@[i].parent@
    }

    /// The keys on the parent path that starts at entry `i`: the entry's own
    /// key, its parent's, and so on down to the child of the root.
    pub open spec fn spec_ancestors(&self, i: int) -> Seq<Seq<u8>>
        decreases i when 0 <= i < self.entries@.len()
    {
        if self.entries@[i].parent@ == self.root@ {
            seq![self.entries@[i].key@]
        } else if exists|j: int| 0 <= j < i && (#[trigger] self.entries@[j]).key@ == self.entries@[i].parent@ {
            seq![self.entries@[i].key@] + self.spec_ancestors(self.parent_index(i))
        } else {
            seq![self.entries@[i].key@]
        }
    }

    /// Whether `k` lies on the parent path from the last key down to the
    /// root: those are the keys a truncated proof chain can start from.
    pub open spec fn spec_on_main_path(&self, k: Seq<u8>) -> bool {
        k == self.root@
            || (self.entries@.len() > 0 && self.spec_ancestors(self.entries@.len() - 1).contains(k))
    }

    /// The sub-chain from `from_key` up to the chain's last key, used to
    /// truncate anti-entropy proofs. Succeeds exactly when `from_key` lies on
    /// the parent path of the last key.
    #[verifier::rlimit(80)]
    pub fn minimize(&self, from_key: &Vec<u8>) -> (r: Result<SectionChain, RoutingError>)
        requires
            self.wf(),
        ensures
            r is Ok <==> self.spec_on_main_path(from_key@),
            r matches Ok(c) ==> c.wf()
                && c.root@ == from_key@
                && c.spec_last_key() == self.spec_last_key()
                && (forall|k: Seq<u8>| c.spec_has_key(k) ==> self.spec_has_key(k)),
    {
        if bytes_eq(from_key, &self.last_key()) {
            if self.entries.len() > 0 {
                proof {
                    let n = self.entries@.len() - 1;
                    assert(self.spec_ancestors(n)[0] == from_key@);
                }
            }
            let c = SectionChain::new(clone_bytes(from_key));
            proof {
                assert forall|k: Seq<u8>| c.spec_has_key(k) implies self.spec_has_key(k) by {
                    assert(c.keys() =~= seq![from_key@]);
                    assert(k == self.spec_last_key());
                    if self.entries@.len() == 0 {
                        assert(self.keys()[0] == k);
                    } else {
                        assert(self.keys()[self.entries@.len() as int] == k);
                    }
                };
            }
            return Ok(c);
        }
        if self.entries.len() == 0 {
            return Err(RoutingError::UntrustedKey);
        }
        let n = self.entries.len();
        let mut rev: Vec<ChainEntry> = Vec::new();
        rev.push(self.entries[n - 1].duplicate());
        let mut i: usize = n - 1;
        let ghost mut idxs: Seq<int> = seq![(n - 1) as int];
        proof {
            assert(rev@.map(|t: int, e: ChainEntry| e.key@).drop_last()
                + self.spec_ancestors((n - 1) as int) =~= self.spec_ancestors((n - 1) as int));
        }
        loop
            invariant
                self.wf(),
                self.entries@.len() == n,
                0 < n <= usize::MAX,
                i < n,
                rev@.len() == idxs.len(),
                rev@.len() >= 1,
                idxs[0] == n - 1,
                idxs.last() == i as int,
                forall|t: int| 0 <= t < idxs.len() ==> 0 <= #[trigger] idxs[t] < n,
                forall|t: int| 0 <= t < idxs.len() - 1 ==> #[trigger] idxs[t] > idxs[t + 1],
                forall|t: int| 0 <= t < idxs.len()
                    ==> rev@[t].key@ == (#[trigger] self.entries@[idxs[t]]).key@
                        && rev@[t].parent@ == self.entries@[idxs[t]].parent@
                        && rev@[t].signature@ == self.entries@[idxs[t]].signature@,
                forall|t: int| 0 <= t < idxs.len() - 1
                    ==> (#[trigger] self.entries@[idxs[t]]).parent@ == self.entries@[idxs[t + 1]].key@,
                forall|t: int| 0 <= t < rev@.len() ==> (#[trigger] rev@[t]).key@ != from_key@,
                self.spec_ancestors((n - 1) as int)
                    == rev@.map(|t: int, e: ChainEntry| e.key@).drop_last()
                        + self.spec_ancestors(i as int),
            decreases i,
        {
            let parent_is_from = bytes_eq(&self.entries[i].parent, from_key);
            let parent_is_root = bytes_eq(&self.entries[i].parent, &self.root);
            if parent_is_from || parent_is_root {
                proof {
                    let anc = self.spec_ancestors((n - 1) as int);
                    let revk = rev@.map(|t: int, e: ChainEntry| e.key@);
                    if self.entries@[i as int].parent@ == self.root@ {
                        assert(anc =~= revk);
                    }
                }
                if !parent_is_from {
                    // the walk reached the root without passing `from_key`
                    proof {
                        let anc = self.spec_ancestors((n - 1) as int);
                        let revk = rev@.map(|t: int, e: ChainEntry| e.key@);
                        assert forall|t: int| 0 <= t < anc.len() implies anc[t] != from_key@ by {
                            assert(anc[t] == revk[t]);
                        };
                        assert(!anc.contains(from_key@));
                    }
                    return Err(RoutingError::UntrustedKey);
                }
                // the parent is `from_key`: the collected path, reversed, is the answer
                let c = self.path_to_chain(&rev, Ghost(idxs), from_key);
                return Ok(c);
            }
            // find the entry whose key is this entry's parent and step to it
            let mut j: usize = 0;
            while j < i && !bytes_eq(&self.entries[j].key, &self.entries[i].parent)
                invariant
                    self.wf(),
                    self.entries@.len() == n,
                    i < n,
                    j <= i,
                    forall|t: int| 0 <= t < j
                        ==> (#[trigger] self.entries@[t]).key@ != self.entries@[i as int].parent@,
                decreases i - j,
            {
                j = j + 1;
            }
            proof {
                // well-formedness guarantees the parent appears earlier
                assert(self.entries@[i as int].parent@ != self.root@);
                assert(exists|t: int| 0 <= t < i
                    && (#[trigger] self.entries@[t]).key@ == self.entries@[i as int].parent@);
                assert(j < i && self.entries@[j as int].key@ == self.entries@[i as int].parent@);
                // the found index is the parent index, keys being unique
                let pj = self.parent_index(i as int);
                assert(self.entries@[pj].key@ == self.entries@[i as int].parent@);
                assert(pj == j as int) by {
                    if pj != j as int {
                        assert(self.entries@[pj].key@ == self.entries@[j as int].key@);
                    }
                }
            }
            let ghost old_idxs = idxs;
            let ghost old_rev = rev@;
            rev.push(self.entries[j].duplicate());
            proof {
                idxs = idxs.push(j as int);
                assert(self.spec_ancestors(i as int)
                    == seq![self.entries@[i as int].key@] + self.spec_ancestors(j as int));
                assert(rev@.map(|t: int, e: ChainEntry| e.key@).drop_last()
                    =~= old_rev.map(|t: int, e: ChainEntry| e.key@).drop_last()
                        + seq![self.entries@[i as int].key@]);
                assert(self.spec_ancestors((n - 1) as int)
                    =~= rev@.map(|t: int, e: ChainEntry| e.key@).drop_last()
                        + self.spec_ancestors(j as int));
            }
            i = j;
        }
    }

    /// Reverses a walked parent path into a chain rooted at `from_key`.
    #[verifier::rlimit(100)]
    #[verifier::spinoff_prover]
    fn path_to_chain(&self, rev: &Vec<ChainEntry>, Ghost(idxs): Ghost<Seq<int>>, from_key: &Vec<u8>) -> (c: SectionChain)
        requires
            self.wf(),
            self.entries@.len() > 0,
            rev@.len() == idxs.len(),
            rev@.len() >= 1,
            idxs[0] == self.entries@.len() - 1,
            forall|t: int| 0 <= t < idxs.len() ==> 0 <= #[trigger] idxs[t] < self.entries@.len(),
            forall|t: int| 0 <= t < idxs.len() - 1 ==> #[trigger] idxs[t] > idxs[t + 1],
            forall|t: int| 0 <= t < idxs.len()
                ==> rev@[t].key@ == (#[trigger] self.entries@[idxs[t]]).key@
                    && rev@[t].parent@ == self.entries@[idxs[t]].parent@
                    && rev@[t].signature@ == self.entries@[idxs[t]].signature@,
            forall|t: int| 0 <= t < idxs.len() - 1
                ==> (#[trigger] self.entries@[idxs[t]]).parent@ == self.entries@[idxs[t + 1]].key@,
            forall|t: int| 0 <= t < rev@.len() ==> (#[trigger] rev@[t]).key@ != from_key@,
            self.entries@[idxs.last()].parent@ == from_key@,
            self.spec_ancestors((self.entries@.len() - 1) as int)
                == rev@.map(|t: int, e: ChainEntry| e.key@).drop_last()
                    + self.spec_ancestors(idxs.last()),
        ensures
            c.wf(),
            c.root@ == from_key@,
            c.spec_last_key() == self.spec_last_key(),
            forall|k: Seq<u8>| c.spec_has_key(k) ==> self.spec_has_key(k),
            self.spec_on_main_path(from_key@),
    {
        let ghost i = idxs.last();
        let mut entries: Vec<ChainEntry> = Vec::new();
        let mut t: usize = rev.len();
        while t > 0
            invariant
                t <= rev@.len(),
                entries@.len() == rev@.len() - t,
                forall|s: int| 0 <= s < entries@.len()
                    ==> entries@[s].key@ == (#[trigger] rev@[rev@.len() - 1 - s]).key@
                        && entries@[s].parent@ == rev@[rev@.len() - 1 - s].parent@
                        && entries@[s].signature@ == rev@[rev@.len() - 1 - s].signature@,
            decreases t,
        {
            entries.push(rev[t - 1].duplicate());
            t = t - 1;
        }
        let c = SectionChain { root: clone_bytes(from_key), entries };
        proof {
            lemma_path_chain_wf(self, &c, rev@, idxs, from_key@);
            lemma_path_chain_covered(self, &c, rev@, idxs, from_key@);
        }
        c
    }

    /// Whether every key of `other` is already on this chain.
    pub fn has_all_keys(&self, other: &SectionChain) -> (r: bool)
        ensures
            r == forall|k: Seq<u8>| other.spec_has_key(k) ==> self.spec_has_key(k),
    {
        if !self.has_key(&other.root) {
            proof {
                assert(other.spec_has_key(other.root@)) by {
                    assert(other.keys()[0] == other.root@);
                }
            }
            return false;
        }
        let mut i: usize = 0;
        while i < other.entries.len()
            invariant
                i <= other.entries@.len(),
                self.spec_has_key(other.root@),
                forall|j: int| 0 <= j < i
                    ==> self.spec_has_key((#[trigger] other.entries@[j]).key@),
            decreases other.entries@.len() - i,
        {
            if !self.has_key(&other.entries[i].key) {
                proof {
                    assert(other.spec_has_key(other.entries@[i as int].key@)) by {
                        assert(other.keys()[i + 1] == other.entries@[i as int].key@);
                    }
                }
                return false;
            }
            i = i + 1;
        }
        proof {
            assert forall|k: Seq<u8>| other.spec_has_key(k) implies self.spec_has_key(k) by {
                let j = choose|j: int| 0 <= j < other.keys().len() && other.keys()[j] == k;
                if j == 0 {
                    assert(k == other.root@);
                } else {
                    assert(other.keys()[j] == (#[trigger] other.entries@[j - 1]).key@);
                }
            };
        }
        true
    }

    /// Whether `sig`'s key is on the chain and its signature verifies over
    /// `payload`.
    pub fn check_sig(&self, sig: &KeyedSig, payload: &Vec<u8>) -> (r: bool)
        ensures
            r == (self.spec_has_key(sig.public_key@)
                && bls_verifies(sig.public_key@, sig.signature@, payload@)),
    {
        self.has_key(&sig.public_key) && bls_verify(&sig.public_key, &sig.signature, payload)
    }
}

/// The facts a walked parent path establishes, shared by the two lemmas
/// below: `rev` holds entries of `big` at the strictly decreasing indices
/// `idxs`, linked parent-to-child, starting at the last entry and ending at
/// an entry whose parent is `from_key`; `c` is the walked path reversed,
/// rooted at `from_key`.
pub open spec fn path_chain_rel(
    big: &SectionChain,
    c: &SectionChain,
    rev: Seq<ChainEntry>,
    idxs: Seq<int>,
    from_key: Seq<u8>,
) -> bool {
    &&& big.wf()
    &&& big.entries@.len() > 0
    &&& rev.len() == idxs.len()
    &&& rev.len() >= 1
    &&& idxs[0] == big.entries@.len() - 1
    &&& forall|t: int| 0 <= t < idxs.len() ==> 0 <= #[trigger] idxs[t] < big.entries@.len()
    &&& forall|t: int| 0 <= t < idxs.len() - 1 ==> #[trigger] idxs[t] > idxs[t + 1]
    &&& forall|t: int| 0 <= t < idxs.len()
        ==> rev[t].key@ == (#[trigger] big.entries@[idxs[t]]).key@
            && rev[t].parent@ == big.entries@[idxs[t]].parent@
            && rev[t].signature@ == big.entries@[idxs[t]].signature@
    &&& forall|t: int| 0 <= t < idxs.len() - 1
        ==> (#[trigger] big.entries@[idxs[t]]).parent@ == big.entries@[idxs[t + 1]].key@
    &&& forall|t: int| 0 <= t < rev.len() ==> (#[trigger] rev[t]).key@ != from_key
    &&& big.entries@[idxs.last()].parent@ == from_key
    &&& c.root@ == from_key
    &&& c.entries@.len() == rev.len()
    &&& forall|s: int| 0 <= s < c.entries@.len()
        ==> (#[trigger] c.entries@[s]).key@ == rev[rev.len() - 1 - s].key@
            && c.entries@[s].parent@ == rev[rev.len() - 1 - s].parent@
            && c.entries@[s].signature@ == rev[rev.len() - 1 - s].signature@
}

/// A walked parent path, reversed, is a well-formed chain whose last key is
/// the big chain's last key.
#[verifier::spinoff_prover]
proof fn lemma_path_chain_wf(
    big: &SectionChain,
    c: &SectionChain,
    rev: Seq<ChainEntry>,
    idxs: Seq<int>,
    from_key: Seq<u8>,
)
    requires
        path_chain_rel(big, c, rev, idxs, from_key),
    ensures
        c.wf(),
        c.spec_last_key() == big.spec_last_key(),
{
    let m = idxs.len() as int;
    let i = idxs.last();
    assert forall|s: int| 1 <= s < m implies (#[trigger] c.entries@[s]).parent@ == c.entries@[s - 1].key@ by {
        let t1 = m - 1 - s;
        assert(rev[t1].parent@ == big.entries@[idxs[t1]].parent@);
        assert(big.entries@[idxs[t1]].parent@ == big.entries@[idxs[t1 + 1]].key@);
    };
    assert(c.entries@[0].parent@ == from_key);
    assert(from_key.len() == BLS_PK_LEN) by {
        assert(big.entries@[i].parent@.len() == BLS_PK_LEN);
    }
    assert forall|s1: int, s2: int| 0 <= s1 < s2 < m
        implies (#[trigger] c.entries@[s1]).key@ != (#[trigger] c.entries@[s2]).key@ by {
        assert(idxs[m - 1 - s1] != idxs[m - 1 - s2]) by {
            lemma_idxs_decreasing(idxs, m - 1 - s2, m - 1 - s1);
        }
        assert(c.entries@[s1].key@ == big.entries@[idxs[m - 1 - s1]].key@);
        assert(c.entries@[s2].key@ == big.entries@[idxs[m - 1 - s2]].key@);
    };
    assert forall|s: int| 0 <= s < m implies
        (#[trigger] c.entries@[s]).key@.len() == BLS_PK_LEN
        && c.entries@[s].parent@.len() == BLS_PK_LEN
        && c.entries@[s].signature@.len() == BLS_SIG_LEN
        && bls_verifies(c.entries@[s].parent@, c.entries@[s].signature@, c.entries@[s].key@)
        && c.entries@[s].key@ != c.root@ by {
        assert(c.entries@[s].key@ == (#[trigger] big.entries@[idxs[m - 1 - s]]).key@);
    };
    assert(c.entries@[m - 1].key@ == big.entries@[idxs[0]].key@);
    assert(c.spec_last_key() == big.spec_last_key());
}

/// Every key of the walked path's chain is a key of the big chain, and the
/// key the path ends at lies on the big chain's main path.
#[verifier::spinoff_prover]
proof fn lemma_path_chain_covered(
    big: &SectionChain,
    c: &SectionChain,
    rev: Seq<ChainEntry>,
    idxs: Seq<int>,
    from_key: Seq<u8>,
)
    requires
        path_chain_rel(big, c, rev, idxs, from_key),
        big.spec_ancestors((big.entries@.len() - 1) as int)
            == rev.map(|t: int, e: ChainEntry| e.key@).drop_last()
                + big.spec_ancestors(idxs.last()),
    ensures
        forall|k: Seq<u8>| c.spec_has_key(k) ==> big.spec_has_key(k),
        big.spec_on_main_path(from_key),
{
    let m = idxs.len() as int;
    let i = idxs.last();
    let anc = big.spec_ancestors((big.entries@.len() - 1) as int);
    if big.entries@[i].parent@ == big.root@ {
        assert(big.spec_on_main_path(from_key));
    } else {
        let j = big.parent_index(i);
        assert(big.entries@[j].key@ == big.entries@[i].parent@);
        assert(big.spec_ancestors(i)
            == seq![big.entries@[i].key@] + big.spec_ancestors(j));
        assert(big.spec_ancestors(j)[0] == from_key);
        assert(anc[rev.len() as int] == from_key);
        assert(anc.contains(from_key));
    }
    assert forall|k: Seq<u8>| c.spec_has_key(k) implies big.spec_has_key(k) by {
        let s = choose|s: int| 0 <= s < c.keys().len() && c.keys()[s] == k;
        if s == 0 {
            assert(k == from_key);
            if big.entries@[i].parent@ == big.root@ {
                assert(big.keys()[0] == k);
            } else {
                let j = big.parent_index(i);
                assert(big.entries@[j].key@ == k);
                assert(big.keys()[j + 1] == k);
            }
        } else {
            assert(c.keys()[s] == c.entries@[s - 1].key@);
            assert(c.entries@[s - 1].key@ == big.entries@[idxs[m - s]].key@);
            assert(big.keys()[idxs[m - s] + 1] == k);
        }
    };
}

/// In a sequence whose consecutive elements strictly decrease, any earlier
/// element is larger than any later one.
proof fn lemma_idxs_decreasing(s: Seq<int>, a: int, b: int)
    requires
        forall|t: int| 0 <= t < s.len() - 1 ==> #[trigger] s[t] > s[t + 1],
        0 <= a < b < s.len(),
    ensures
        s[a] > s[b],
    decreases b - a,
{
    if a + 1 < b {
        lemma_idxs_decreasing(s, a + 1, b);
    }
}

/// The keys of a well-formed chain are pairwise distinct, so a key has
/// exactly one position on the chain.
pub proof fn lemma_chain_keys_unique(c: &SectionChain)
    requires
        c.wf(),
    ensures
        forall|i: int, j: int| 0 <= i < j < c.keys().len()
            ==> #[trigger] c.keys()[i] != #[trigger] c.keys()[j],
{
    assert forall|i: int, j: int| 0 <= i < j < c.keys().len()
        implies #[trigger] c.keys()[i] != #[trigger] c.keys()[j] by {
        if i == 0 {
            assert(c.keys()[0] == c.root@);
            assert(c.keys()[j] == c.entries@[j - 1].key@);
        } else {
            assert(c.keys()[i] == c.entries@[i - 1].key@);
            assert(c.keys()[j] == c.entries@[j - 1].key@);
        }
    };
}

/// Law: in a well-formed chain, every non-root key was signed by its parent,
/// and that parent stands earlier on the chain.
pub proof fn lemma_chain_parents_signed(c: &SectionChain)
    requires
        c.wf(),
    ensures
        forall|i: int| 0 <= i < c.entries@.len()
            ==> bls_verifies(
                (#[trigger] c.entries@[i]).parent@,
                c.entries@[i].signature@,
                c.entries@[i].key@,
            ),
        forall|i: int| 0 <= i < c.entries@.len()
            ==> (#[trigger] c.entries@[i]).parent@ == c.root@
                || exists|j: int| 0 <= j < i && (#[trigger] c.entries@[j]).key@ == c.entries@[i].parent@,
{
}

} // verus!
