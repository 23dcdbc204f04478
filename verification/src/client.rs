//! The client session's decision core: which elders a query goes to, how
//! responses are judged — a chunk is accepted only when its bytes hash to
//! the queried name — when an error is held back as a fallback, and how the
//! initial contact batches walk the candidate nodes.

use vstd::prelude::*;
use crate::addr::NodeAddr;
use crate::crypto::sha3_of;
use crate::errors::{ClientError, ErrorMessage};
use crate::node_state::Peer;
use crate::prefix_map::NetworkPrefixMap;
use crate::xor::{
    closer_to_target, lemma_closer_irrefl, lemma_closer_trans, spec_closer, XorName, XOR_NAME_LEN,
};

verus! {

/// How many elders a query is sent to.
pub const NUM_OF_ELDERS_SUBSET_FOR_QUERIES: usize = 3;

/// How many bootstrap nodes each startup batch contacts.
pub const NODES_TO_CONTACT_PER_STARTUP_BATCH: usize = 3;

/// A response one elder sent back for a query.
#[derive(Debug, PartialEq, Eq)]
pub enum QueryResponse {
    /// A chunk fetched by name.
    GetChunk(Result<Vec<u8>, ErrorMessage>),
    /// Any other response, already decoded by the caller.
    Other(Result<Vec<u8>, ErrorMessage>),
}

/// What the session does with one incoming response.
#[derive(Debug, PartialEq, Eq)]
pub enum QueryDecision {
    /// The response answers the query: stop waiting.
    Accept(QueryResponse),
    /// The response is invalid or an error: count it, keep the error as a
    /// fallback, and keep waiting.
    Discard(Option<QueryResponse>),
}

/// The state of one running query: how many elders were asked, how many
/// answers were discarded, the queried chunk name when the query fetches a
/// chunk, and the last error held as a fallback.
#[derive(Debug, PartialEq, Eq)]
pub struct QueryState {
    /// How many elders the query went to.
    pub elders_len: usize,
    /// How many responses were discarded as invalid or erring.
    pub discarded: usize,
    /// The queried chunk's name, for chunk queries.
    pub chunk_name: Option<XorName>,
    /// The last error response, returned only when every elder failed.
    pub fallback: Option<QueryResponse>,
}

impl QueryState {
    /// Starts waiting for responses from `elders_len` elders.
    pub fn new(elders_len: usize, chunk_name: Option<XorName>) -> (r: QueryState)
        ensures
            r.elders_len == elders_len,
            r.discarded == 0,
            r.chunk_name == chunk_name,
            r.fallback is None,
    {
        QueryState { elders_len, discarded: 0, chunk_name, fallback: None }
    }

    /// Judges one response. A fetched chunk answers the query exactly when
    /// its bytes hash to the queried name; a chunk whose digest disagrees is
    /// discarded and counted, as is every error, whose value is kept as the
    /// fallback. Responses to non-chunk queries are accepted unless they err.
    pub fn on_response(&mut self, response: QueryResponse) -> (r: QueryDecision)
        requires
            old(self).discarded < usize::MAX,
        ensures
            final(self).elders_len == old(self).elders_len,
            final(self).chunk_name == old(self).chunk_name,
            match (&response, &old(self).chunk_name) {
                (QueryResponse::GetChunk(Result::Ok(data)), Option::Some(name)) => {
                    if sha3_of(data@) == name@ {
                        r == QueryDecision::Accept(response)
                            && *final(self) == *old(self)
                    } else {
                        r == QueryDecision::Discard(None::<QueryResponse>)
                            && final(self).discarded == old(self).discarded + 1
                            && final(self).fallback == old(self).fallback
                    }
                },
                (QueryResponse::GetChunk(Result::Err(_)), _) => {
                    r == QueryDecision::Discard(None::<QueryResponse>)
                        && final(self).discarded == old(self).discarded + 1
                        && final(self).fallback == Some(response)
                },
                (QueryResponse::Other(Result::Err(_)), _) => {
                    r == QueryDecision::Discard(None::<QueryResponse>)
                        && final(self).discarded == old(self).discarded + 1
                        && final(self).fallback == Some(response)
                },
                _ => r == QueryDecision::Accept(response) && *final(self) == *old(self),
            },
    {
        let is_valid_chunk = match (&response, &self.chunk_name) {
            (QueryResponse::GetChunk(Result::Ok(data)), Option::Some(name)) => {
                if crate::adult::chunk_matches_name(data, name) {
                    1
                } else {
                    0
                }
            },
            (QueryResponse::GetChunk(Result::Err(_)), _) => 2,
            (QueryResponse::Other(Result::Err(_)), _) => 2,
            _ => 1,
        };
        if is_valid_chunk == 1 {
            QueryDecision::Accept(response)
        } else if is_valid_chunk == 0 {
            self.discarded = self.discarded + 1;
            QueryDecision::Discard(None)
        } else {
            self.discarded = self.discarded + 1;
            self.fallback = Some(response);
            QueryDecision::Discard(None)
        }
    }

    /// Whether every asked elder has failed: the query then ends with the
    /// fallback error, or `NoResponse` when there is none.
    pub fn exhausted(&self) -> (r: bool)
        ensures
            r == (self.discarded >= self.elders_len),
    {
        self.discarded >= self.elders_len
    }

    /// The query's final outcome once the channel closes or every elder has
    /// been heard from: the held fallback error, or `NoResponse`.
    pub fn conclude(self) -> (r: Result<QueryResponse, ClientError>)
        ensures
            self.fallback matches Some(f) ==> r == Ok::<QueryResponse, ClientError>(f),
            self.fallback is None ==> r == Err::<QueryResponse, ClientError>(ClientError::NoResponse),
    {
        match self.fallback {
            Some(f) => Ok(f),
            None => Err(ClientError::NoResponse),
        }
    }
}

/// Picks the `count` elders closest to `dst` by XOR distance: every peer
/// left out is no closer than any peer chosen.
pub fn closest_elders(pool: Vec<Peer>, count: usize, dst: &XorName) -> (r: Vec<Peer>)
    requires
        dst.wf(),
        forall|i: int| 0 <= i < pool@.len() ==> (#[trigger] pool@[i]).name@.len() == XOR_NAME_LEN,
        forall|i: int, j: int| 0 <= i < j < pool@.len()
            ==> (#[trigger] pool@[i]).name@ != (#[trigger] pool@[j]).name@,
    ensures
        r@.len() == if count <= pool@.len() { count as int } else { pool@.len() as int },
        forall|t: int| 0 <= t < r@.len() ==> pool@.contains(#[trigger] r@[t]),
        forall|t: int, j: int| 0 <= t < r@.len() && 0 <= j < pool@.len()
            && !crate::peers::peer_names(r@).contains((#[trigger] pool@[j]).name@)
            ==> !spec_closer(pool@[j].name@, (#[trigger] r@[t]).name@, dst@, 0),
{
    let ghost pool0 = pool@;
    let mut work = pool;
    let mut r: Vec<Peer> = Vec::new();
    proof {
        assert forall|u: int| 0 <= u < work@.len()
            implies pool0.contains(#[trigger] work@[u]) by {
            assert(pool0[u] == work@[u]);
        };
        assert forall|j: int| 0 <= j < pool0.len()
            implies r@.contains(#[trigger] pool0[j]) || work@.contains(pool0[j]) by {
            assert(work@[j] == pool0[j]);
        };
    }
    while r.len() < count && work.len() > 0
        invariant
            dst.wf(),
            forall|i: int| 0 <= i < work@.len()
                ==> (#[trigger] work@[i]).name@.len() == XOR_NAME_LEN,
            forall|i: int| 0 <= i < r@.len()
                ==> (#[trigger] r@[i]).name@.len() == XOR_NAME_LEN,
            r@.len() + work@.len() == pool0.len(),
            r@.len() <= count,
            forall|t: int, u: int| 0 <= t < r@.len() && 0 <= u < work@.len()
                ==> (#[trigger] r@[t]).name@ != (#[trigger] work@[u]).name@,
            forall|t1: int, t2: int| 0 <= t1 < t2 < r@.len()
                ==> (#[trigger] r@[t1]).name@ != (#[trigger] r@[t2]).name@,
            forall|u1: int, u2: int| 0 <= u1 < u2 < work@.len()
                ==> (#[trigger] work@[u1]).name@ != (#[trigger] work@[u2]).name@,
            forall|t: int| 0 <= t < r@.len() ==> pool0.contains(#[trigger] r@[t]),
            forall|u: int| 0 <= u < work@.len() ==> pool0.contains(#[trigger] work@[u]),
            forall|j: int| 0 <= j < pool0.len()
                ==> r@.contains(#[trigger] pool0[j]) || work@.contains(pool0[j]),
            forall|t: int, u: int| 0 <= t < r@.len() && 0 <= u < work@.len()
                ==> !spec_closer((#[trigger] work@[u]).name@, (#[trigger] r@[t]).name@, dst@, 0),
        decreases count - r@.len(),
    {
        proof {
            lemma_closer_irrefl(work@[0].name@, dst@, 0);
        }
        let mut best: usize = 0;
        let mut j: usize = 1;
        while j < work.len()
            invariant
                dst.wf(),
                forall|i: int| 0 <= i < work@.len()
                    ==> (#[trigger] work@[i]).name@.len() == XOR_NAME_LEN,
                work@.len() > 0,
                best < j,
                j <= work@.len(),
                forall|t: int| 0 <= t < j
                    ==> !spec_closer((#[trigger] work@[t]).name@, work@[best as int].name@, dst@, 0),
            decreases work@.len() - j,
        {
            if closer_to_target(&work[j].name, &work[best].name, dst) {
                proof {
                    assert forall|t: int| 0 <= t < j + 1
                        implies !spec_closer((#[trigger] work@[t]).name@,
                            work@[j as int].name@, dst@, 0) by {
                        if t < j && spec_closer(work@[t].name@, work@[j as int].name@, dst@, 0) {
                            lemma_closer_trans(work@[t].name@, work@[j as int].name@,
                                work@[best as int].name@, dst@, 0);
                        }
                        if t == j {
                            lemma_closer_irrefl(work@[j as int].name@, dst@, 0);
                        }
                    };
                }
                best = j;
            }
            j = j + 1;
        }
        let ghost old_work = work@;
        let ghost old_r = r@;
        let chosen = work.remove(best);
        r.push(chosen);
        proof {
            let b = best as int;
            assert(r@.last() == old_work[b]);
            assert forall|u: int| 0 <= u < work@.len()
                implies #[trigger] work@[u] == old_work[if u < b { u } else { u + 1 }] by {
                assert(work@ == old_work.remove(b));
            };
            assert forall|t1: int, t2: int| 0 <= t1 < t2 < r@.len()
                implies (#[trigger] r@[t1]).name@ != (#[trigger] r@[t2]).name@ by {
                if t2 == r@.len() - 1 {
                    assert(old_r[t1].name@ != old_work[b].name@);
                }
            };
            assert forall|t: int, u: int| 0 <= t < r@.len() && 0 <= u < work@.len()
                implies (#[trigger] r@[t]).name@ != (#[trigger] work@[u]).name@ by {
                let u0: int = if u < b { u } else { u + 1 };
                assert(work@[u] == old_work[u0]);
                if t == r@.len() - 1 {
                    assert(old_work[b].name@ != old_work[u0].name@);
                } else {
                    assert(old_r[t].name@ != old_work[u0].name@);
                }
            };
            assert forall|u: int| 0 <= u < work@.len()
                implies pool0.contains(#[trigger] work@[u]) by {
                let u0: int = if u < b { u } else { u + 1 };
                assert(work@[u] == old_work[u0]);
                assert(pool0.contains(old_work[u0]));
            };
            assert forall|t: int| 0 <= t < r@.len()
                implies pool0.contains(#[trigger] r@[t]) by {
                if t == r@.len() - 1 {
                    assert(pool0.contains(old_work[b]));
                } else {
                    assert(r@[t] == old_r[t]);
                    assert(pool0.contains(old_r[t]));
                }
            };
            assert forall|jj: int| 0 <= jj < pool0.len()
                implies r@.contains(#[trigger] pool0[jj]) || work@.contains(pool0[jj]) by {
                if old_r.contains(pool0[jj]) {
                    let t = choose|t: int| 0 <= t < old_r.len() && old_r[t] == pool0[jj];
                    assert(r@[t] == pool0[jj]);
                } else {
                    let u = choose|u: int| 0 <= u < old_work.len() && old_work[u] == pool0[jj];
                    if u == b {
                        assert(r@[r@.len() - 1] == pool0[jj]);
                    } else if u < b {
                        assert(work@[u] == pool0[jj]);
                    } else {
                        assert(work@[u - 1] == pool0[jj]);
                    }
                }
            };
        }
    }
    proof {
        assert forall|t: int, j: int| 0 <= t < r@.len() && 0 <= j < pool0.len()
            && !crate::peers::peer_names(r@).contains((#[trigger] pool0[j]).name@)
            implies !spec_closer(pool0[j].name@, (#[trigger] r@[t]).name@, dst@, 0) by {
            if !r@.contains(pool0[j]) {
                let u = choose|u: int| 0 <= u < work@.len() && work@[u] == pool0[j];
                assert(work@[u] == pool0[j]);
                assert(!spec_closer(work@[u].name@, r@[t].name@, dst@, 0));
            } else {
                let t2 = choose|t2: int| 0 <= t2 < r@.len() && r@[t2] == pool0[j];
                assert(crate::peers::peer_names(r@)[t2] == pool0[j].name@);
            }
        };
    }
    r
}

/// Whether `e` is the entry the prefix map yields for `dst`: a held entry,
/// the matching one when any matches, and otherwise one no other entry beats
/// as the closest.
pub open spec fn spec_chosen_section(
    map: &NetworkPrefixMap,
    dst: Seq<u8>,
    e: crate::prefix_map::SignedSap,
) -> bool {
    &&& exists|i: int| 0 <= i < map.sections@.len() && e == #[trigger] map.sections@[i]
    &&& ((exists|i: int| 0 <= i < map.sections@.len()
            && crate::xor::spec_matches((#[trigger] map.sections@[i]).value.prefix@, dst))
        ==> crate::xor::spec_matches(e.value.prefix@, dst))
    &&& forall|i: int| 0 <= i < map.sections@.len()
        ==> !crate::prefix_map::spec_pm_better(
                (#[trigger] map.sections@[i]).value.prefix@, e.value.prefix@, dst)
            || crate::xor::spec_matches(e.value.prefix@, dst)
}

/// Plans a command fan-out: the first `targets_count` elders of the section
/// closest to the destination, and that section's key. Fails with
/// `NoNetworkKnowledge` exactly when the map knows no section, and with
/// `InsufficientElderConnections` exactly when the chosen section has fewer
/// elders than the fan-out needs.
pub fn plan_cmd_targets(
    map: &NetworkPrefixMap,
    dst: &XorName,
    targets_count: usize,
) -> (r: Result<(Vec<NodeAddr>, Vec<u8>), ClientError>)
    requires
        map.wf(),
        dst.wf(),
    ensures
        map.sections@.len() == 0 <==> r == Err::<(Vec<NodeAddr>, Vec<u8>), ClientError>(
            ClientError::NoNetworkKnowledge),
        r matches Ok(t) ==> exists|e: crate::prefix_map::SignedSap|
            #[trigger] spec_chosen_section(map, dst@, e)
            && e.value.elders@.len() >= targets_count
            && t.0@.len() == targets_count
            && (forall|i: int| 0 <= i < targets_count
                ==> t.0@[i] == e.value.elders@[i].addr)
            && t.1@ == e.value.public_key@,
        (r is Err && r != Err::<(Vec<NodeAddr>, Vec<u8>), ClientError>(
                ClientError::NoNetworkKnowledge))
            ==> exists|e: crate::prefix_map::SignedSap|
                #[trigger] spec_chosen_section(map, dst@, e)
                && e.value.elders@.len() < targets_count
                && r == Err::<(Vec<NodeAddr>, Vec<u8>), ClientError>(
                    ClientError::InsufficientElderConnections(
                        e.value.elders@.len() as usize, targets_count)),
{
    let sap = match map.closest_or_opposite(dst) {
        Option::Some(s) => s,
        Option::None => {
            return Err(ClientError::NoNetworkKnowledge);
        },
    };
    if sap.value.elders.len() < targets_count {
        proof {
            assert(spec_chosen_section(map, dst@, *sap));
        }
        return Err(ClientError::InsufficientElderConnections(
            sap.value.elders.len(),
            targets_count,
        ));
    }
    let mut addrs: Vec<NodeAddr> = Vec::new();
    let mut i: usize = 0;
    while i < targets_count
        invariant
            targets_count <= sap.value.elders@.len(),
            i <= targets_count,
            addrs@.len() == i,
            forall|j: int| 0 <= j < i ==> addrs@[j] == sap.value.elders@[j].addr,
        decreases targets_count - i,
    {
        addrs.push(sap.value.elders[i].addr);
        i = i + 1;
    }
    proof {
        assert(spec_chosen_section(map, dst@, *sap));
    }
    Ok((addrs, crate::xor::clone_bytes(&sap.value.public_key)))
}

/// Plans a query fan-out from the elders of the destination's section: the
/// `NUM_OF_ELDERS_SUBSET_FOR_QUERIES` closest to the destination. A single
/// elder is asked alone; an empty elder set, and a section of two that
/// cannot carry a three-way query, are rejected as too few.
pub fn plan_query_targets(elders: Vec<Peer>, dst: &XorName) -> (r: Result<Vec<Peer>, ClientError>)
    requires
        dst.wf(),
        forall|i: int| 0 <= i < elders@.len() ==> (#[trigger] elders@[i]).name@.len() == XOR_NAME_LEN,
        forall|i: int, j: int| 0 <= i < j < elders@.len()
            ==> (#[trigger] elders@[i]).name@ != (#[trigger] elders@[j]).name@,
    ensures
        r is Err <==> (elders@.len() == 0
            || 1 < elders@.len() < NUM_OF_ELDERS_SUBSET_FOR_QUERIES),
        r matches Err(err) ==> err == ClientError::InsufficientElderConnections(
            if elders@.len() < NUM_OF_ELDERS_SUBSET_FOR_QUERIES {
                elders@.len() as usize
            } else {
                NUM_OF_ELDERS_SUBSET_FOR_QUERIES as usize
            },
            NUM_OF_ELDERS_SUBSET_FOR_QUERIES,
        ),
        r matches Ok(chosen) ==> chosen@.len() == if elders@.len() < NUM_OF_ELDERS_SUBSET_FOR_QUERIES {
            elders@.len() as int
        } else {
            NUM_OF_ELDERS_SUBSET_FOR_QUERIES as int
        },
        // the chosen targets come from the pool and every elder left out is
        // no closer to the destination than any elder chosen
        r matches Ok(chosen) ==> (forall|t: int| 0 <= t < chosen@.len()
            ==> elders@.contains(#[trigger] chosen@[t]))
            && (forall|t: int, j: int| 0 <= t < chosen@.len() && 0 <= j < elders@.len()
                && !crate::peers::peer_names(chosen@).contains((#[trigger] elders@[j]).name@)
                ==> !spec_closer(elders@[j].name@, (#[trigger] chosen@[t]).name@, dst@, 0)),
{
    let chosen = closest_elders(elders, NUM_OF_ELDERS_SUBSET_FOR_QUERIES, dst);
    if chosen.len() < NUM_OF_ELDERS_SUBSET_FOR_QUERIES && chosen.len() != 1 {
        return Err(ClientError::InsufficientElderConnections(
            chosen.len(),
            NUM_OF_ELDERS_SUBSET_FOR_QUERIES,
        ));
    }
    Ok(chosen)
}

/// The slice of candidate nodes that startup round `round` contacts: batches
/// of `NODES_TO_CONTACT_PER_STARTUP_BATCH`, never past the end, and once the
/// batches are used up, the last full batch again.
pub fn contact_batch_bounds(round: usize, total: usize) -> (r: (usize, usize))
    requires
        round < 10000,
        total < usize::MAX / 2,
    ensures
        r.0 <= r.1 <= total,
        r.1 - r.0 <= NODES_TO_CONTACT_PER_STARTUP_BATCH,
        round * NODES_TO_CONTACT_PER_STARTUP_BATCH + NODES_TO_CONTACT_PER_STARTUP_BATCH <= total
            ==> r.0 == round * NODES_TO_CONTACT_PER_STARTUP_BATCH
                && r.1 == r.0 + NODES_TO_CONTACT_PER_STARTUP_BATCH,
    {
        let start = round * NODES_TO_CONTACT_PER_STARTUP_BATCH;
        if start + NODES_TO_CONTACT_PER_STARTUP_BATCH <= total {
            (start, start + NODES_TO_CONTACT_PER_STARTUP_BATCH)
        } else if start < total {
            (start, total)
        } else {
            (if total > NODES_TO_CONTACT_PER_STARTUP_BATCH {
                total - NODES_TO_CONTACT_PER_STARTUP_BATCH
            } else {
                0
            }, total)
        }
    }

/// Which send outcomes count as successes.
pub open spec fn send_ok(p: (NodeAddr, bool)) -> bool {
    p.1
}

/// Which send outcomes count as failures.
pub open spec fn send_failed(p: (NodeAddr, bool)) -> bool {
    !p.1
}

/// How a command fan-out went: exactly how many sends succeeded out of how
/// many, and exactly the addresses that failed, in order. A fan-out as a
/// whole is reported, never a single peer's failure.
pub fn tally_sends(results: Vec<(NodeAddr, bool)>) -> (r: (usize, usize, Vec<NodeAddr>))
    ensures
        r.1 == results@.len(),
        r.0 == results@.filter(|p: (NodeAddr, bool)| send_ok(p)).len(),
        r.2@ == results@.filter(|p: (NodeAddr, bool)| send_failed(p))
            .map_values(|p: (NodeAddr, bool)| p.0),
        r.2@.len() + r.0 == results@.len(),
{
    let ghost ok_pred = |p: (NodeAddr, bool)| send_ok(p);
    let ghost failed_pred = |p: (NodeAddr, bool)| send_failed(p);
    let mut successes: usize = 0;
    let mut failed: Vec<NodeAddr> = Vec::new();
    let mut i: usize = 0;
    while i < results.len()
        invariant
            i <= results@.len(),
            successes + failed@.len() == i,
            successes == results@.take(i as int).filter(ok_pred).len(),
            failed@ == results@.take(i as int).filter(failed_pred)
                .map_values(|p: (NodeAddr, bool)| p.0),
            ok_pred == (|p: (NodeAddr, bool)| send_ok(p)),
            failed_pred == (|p: (NodeAddr, bool)| send_failed(p)),
        decreases results@.len() - i,
    {
        let (addr, ok) = results[i];
        if ok {
            successes = successes + 1;
        } else {
            failed.push(addr);
        }
        proof {
            reveal(Seq::filter);
            let t1 = results@.take(i + 1);
            assert(t1.drop_last() =~= results@.take(i as int));
            assert(t1.last() == results@[i as int]);
            assert(successes == t1.filter(ok_pred).len());
            assert(failed@ =~= t1.filter(failed_pred)
                .map_values(|p: (NodeAddr, bool)| p.0));
        }
        i = i + 1;
    }
    proof {
        assert(results@.take(results@.len() as int) =~= results@);
    }
    (successes, results.len(), failed)
}

} // verus!
