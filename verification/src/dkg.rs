//! The DKG voter: one distributed key generation session per candidate set
//! and generation. The key generation engine itself is the outside crate's;
//! the voter owns the sessions, buffers messages that arrive before their
//! session exists, replays them in arrival order exactly once, and hands a
//! one-candidate section its trivial threshold-0 outcome at once.

use vstd::prelude::*;
use crate::crypto::bls_keyset_random;
use crate::errors::RoutingError;
use crate::sap::{names_of, spec_names_wf, ElderCandidates, SectionAuthorityProvider};
use crate::section::SectionKeyShare;
use crate::system_msg::{DkgFailureSig, DkgFailureSigSet, DkgSessionId};
use crate::xor::XorName;
use crate::{spec_supermajority, ELDER_SIZE};

verus! {

/// Most messages the backlog holds.
pub const BACKLOG_CAP: usize = 100;

/// The key generation engine of one running session.
#[verifier::external_type_specification]
#[verifier::external_body]
pub struct ExKeyGen(bls_dkg::key_gen::KeyGen);

/// Relies on bls_dkg's `KeyGen::initialize`: a started engine means the node
/// is one of the participants and they are no fewer than the threshold; it
/// comes with the serialized first message to broadcast.
#[verifier::external_body]
fn dkg_initialize(our_name: &XorName, threshold: usize, names: &Vec<XorName>) -> (r: Option<(bls_dkg::key_gen::KeyGen, Vec<u8>)>)
    requires
        our_name@.len() == 32,
        spec_names_wf(crate::peers::xor_names(names@)),
    ensures
        r is Some ==> (crate::peers::xor_names(names@).contains(our_name@)
            && names@.len() >= threshold),
{
    let mut set = std::collections::BTreeSet::new();
    for n in names.iter() {
        let mut arr = [0u8; 32];
        arr.copy_from_slice(&n.bytes);
        set.insert(xor_name::XorName(arr));
    }
    let mut our = [0u8; 32];
    our.copy_from_slice(&our_name.bytes);
    match bls_dkg::key_gen::KeyGen::initialize(xor_name::XorName(our), threshold, set) {
        Ok((key_gen, messages)) => {
            let first = messages.into_iter().next()?;
            Some((key_gen, bincode::serialize(&first.1).ok()?))
        },
        Err(_) => None,
    }
}

/// Relies on bls_dkg's `KeyGen::handle_message`: feeds one serialized
/// message to the engine and returns the serialized messages to broadcast in
/// turn; nothing on a message that does not parse or that the engine
/// rejects. What comes back depends on the engine's state and randomness.
#[verifier::external_body]
fn dkg_handle_message(kg: &mut bls_dkg::key_gen::KeyGen, msg: &Vec<u8>) -> (r: Option<Vec<Vec<u8>>>)
{
    let message: bls_dkg::key_gen::message::Message = bincode::deserialize(msg).ok()?;
    let outgoing = kg.handle_message(&mut rand_core::OsRng, message).ok()?;
    let mut out = Vec::new();
    for (_, m) in outgoing.into_iter() {
        out.push(bincode::serialize(&m).ok()?);
    }
    Some(out)
}

/// Relies on bls_dkg's `KeyGen::timed_phase_transition`: advances the
/// engine's timed phase and returns the serialized messages to broadcast.
#[verifier::external_body]
fn dkg_timed_phase(kg: &mut bls_dkg::key_gen::KeyGen) -> (r: Option<Vec<Vec<u8>>>)
{
    let outgoing = kg.timed_phase_transition(&mut rand_core::OsRng).ok()?;
    let mut out = Vec::new();
    for (_, m) in outgoing.into_iter() {
        out.push(bincode::serialize(&m).ok()?);
    }
    Some(out)
}

/// Relies on bls_dkg's `KeyGen::is_finalized`.
#[verifier::external_body]
fn dkg_is_finalized(kg: &bls_dkg::key_gen::KeyGen) -> (r: bool)
{
    kg.is_finalized()
}

/// Relies on bls_dkg's `KeyGen::generate_keys`: once finalized, the outcome
/// as plain bytes — the serialized public key set and this node's secret key
/// share, which is 32 bytes.
#[verifier::external_body]
fn dkg_generate_keys(kg: &bls_dkg::key_gen::KeyGen) -> (r: Option<(Vec<u8>, Vec<u8>)>)
    ensures
        r matches Some(o) ==> o.1@.len() == 32,
{
    let (_, outcome) = kg.generate_keys()?;
    Some((outcome.public_key_set.to_bytes(), outcome.secret_key_share.to_bytes().to_vec()))
}

/// A command the voter hands back to the node.
pub enum DkgCommand {
    /// The session finished: install this SAP with this key share.
    HandleDkgOutcome {
        /// The agreed authority provider.
        section_auth: SectionAuthorityProvider,
        /// This node's share of the new key set.
        outcome: SectionKeyShare,
    },
    /// Broadcast these serialized DKG messages to the session's candidates.
    SendDkgMessages {
        /// The session the messages belong to.
        session_id: DkgSessionId,
        /// The serialized messages.
        messages: Vec<Vec<u8>>,
    },
}

/// One running session.
pub struct DkgSession {
    /// The session's id.
    pub id: DkgSessionId,
    /// The candidates the session shall make elders.
    pub candidates: ElderCandidates,
    /// The outside key generation engine.
    pub key_gen: bls_dkg::key_gen::KeyGen,
    /// This node's index among the candidates.
    pub participant_index: usize,
    /// The token of the session's timer.
    pub timer_token: u64,
    /// The failure signatures collected for this session.
    pub failures: DkgFailureSigSet,
    /// Whether the outcome was already handed out.
    pub complete: bool,
}

/// The DKG voter: the running sessions and the backlog of messages that
/// arrived before their session existed.
pub struct DkgVoter {
    /// The running sessions, one per session id.
    pub sessions: Vec<DkgSession>,
    /// Messages waiting for their session, in arrival order.
    pub backlog: Vec<(DkgSessionId, Vec<u8>)>,
}

/// Whether a backlog entry belongs to the session `id`.
pub open spec fn entry_for(e: (DkgSessionId, Vec<u8>), id: &DkgSessionId) -> bool {
    e.0.hash@ == id.hash@ && e.0.generation == id.generation
}

impl DkgVoter {
    /// Whether some session runs under `id`.
    pub open spec fn spec_has_session(&self, id: &DkgSessionId) -> bool {
        exists|i: int| 0 <= i < self.sessions@.len()
            && (#[trigger] self.sessions@[i]).id.hash@ == id.hash@
            && self.sessions@[i].id.generation == id.generation
    }

    /// Well-formedness: every session's candidates carry a well-formed
    /// prefix, well-formed names, and no more candidates than a section has
    /// elders.
    pub open spec fn wf(&self) -> bool {
        forall|i: int| 0 <= i < self.sessions@.len()
            ==> (#[trigger] self.sessions@[i]).candidates.prefix.wf()
                && spec_names_wf(names_of(self.sessions@[i].candidates.elders@))
                && self.sessions@[i].candidates.elders@.len() <= ELDER_SIZE
    }

    /// A voter with no sessions and an empty backlog.
    pub fn new() -> (r: DkgVoter)
        ensures
            r.wf(),
            r.sessions@.len() == 0,
            r.backlog@.len() == 0,
    {
        DkgVoter { sessions: Vec::new(), backlog: Vec::new() }
    }

    /// The position of the session under `id`.
    fn find_session(&self, id: &DkgSessionId) -> (r: Option<usize>)
        ensures
            r matches Some(i) ==> i < self.sessions@.len()
                && self.sessions@[i as int].id.hash@ == id.hash@
                && self.sessions@[i as int].id.generation == id.generation,
            r is None ==> !self.spec_has_session(id),
    {
        let mut i: usize = 0;
        while i < self.sessions.len()
            invariant
                i <= self.sessions@.len(),
                forall|j: int| 0 <= j < i
                    ==> !((#[trigger] self.sessions@[j]).id.hash@ == id.hash@
                        && self.sessions@[j].id.generation == id.generation),
            decreases self.sessions@.len() - i,
        {
            if self.sessions[i].id.equals(id) {
                return Option::Some(i);
            }
            i = i + 1;
        }
        Option::None
    }

    /// Takes the backlogged messages of session `id` out of the backlog, in
    /// arrival order: each buffered message is handed out exactly once, the
    /// rest of the backlog stays, in order.
    pub fn take_backlog(&mut self, id: &DkgSessionId) -> (r: Vec<Vec<u8>>)
        ensures
            final(self).sessions == old(self).sessions,
            // what comes out: the messages of `id`, in arrival order
            r@ == old(self).backlog@.filter(|e: (DkgSessionId, Vec<u8>)| entry_for(e, id))
                .map_values(|e: (DkgSessionId, Vec<u8>)| e.1),
            // what stays: everything else, in arrival order
            final(self).backlog@ == old(self).backlog@.filter(
                |e: (DkgSessionId, Vec<u8>)| !entry_for(e, id)),
    {
        let ghost orig = self.backlog@;
        let ghost keep_pred = |e: (DkgSessionId, Vec<u8>)| !entry_for(e, id);
        let ghost take_pred = |e: (DkgSessionId, Vec<u8>)| entry_for(e, id);
        let mut taken: Vec<Vec<u8>> = Vec::new();
        let mut kept: Vec<(DkgSessionId, Vec<u8>)> = Vec::new();
        let ghost mut k: int = 0;
        while self.backlog.len() > 0
            invariant
                0 <= k <= orig.len(),
                self.backlog@ =~= orig.skip(k),
                self.sessions == old(self).sessions,
                taken@ == orig.take(k).filter(take_pred).map_values(
                    |e: (DkgSessionId, Vec<u8>)| e.1),
                kept@ == orig.take(k).filter(keep_pred),
                keep_pred == (|e: (DkgSessionId, Vec<u8>)| !entry_for(e, id)),
                take_pred == (|e: (DkgSessionId, Vec<u8>)| entry_for(e, id)),
            decreases self.backlog@.len(),
        {
            let e = self.backlog.remove(0);
            proof {
                assert(orig.skip(k)[0] == orig[k]);
                assert(self.backlog@ =~= orig.skip(k + 1));
            }
            let ghost old_taken = taken@;
            let ghost old_kept = kept@;
            let matches_id = e.0.equals(id);
            if matches_id {
                taken.push(e.1);
            } else {
                kept.push(e);
            }
            proof {
                let t1 = orig.take(k + 1);
                assert(t1.drop_last() =~= orig.take(k));
                assert(t1.last() == orig[k]);
                reveal(Seq::filter);
                if matches_id {
                    assert(taken@ =~= t1.filter(take_pred).map_values(
                        |e: (DkgSessionId, Vec<u8>)| e.1));
                    assert(kept@ =~= t1.filter(keep_pred));
                } else {
                    assert(taken@ =~= t1.filter(take_pred).map_values(
                        |e: (DkgSessionId, Vec<u8>)| e.1));
                    assert(kept@ =~= t1.filter(keep_pred));
                }
                k = k + 1;
            }
        }
        proof {
            assert(orig.take(orig.len() as int) =~= orig);
        }
        self.backlog = kept;
        taken
    }

    /// Buffers a message that arrived before its session exists. The backlog
    /// is bounded: when full, the oldest buffered message is dropped.
    pub fn push_backlog(&mut self, id: DkgSessionId, msg: Vec<u8>)
        ensures
            final(self).sessions == old(self).sessions,
            old(self).backlog@.len() < BACKLOG_CAP
                ==> final(self).backlog@ == old(self).backlog@.push((id, msg)),
            old(self).backlog@.len() >= BACKLOG_CAP
                ==> final(self).backlog@ == old(self).backlog@.drop_first().push((id, msg)),
    {
        if self.backlog.len() >= BACKLOG_CAP {
            let _ = self.backlog.remove(0);
            proof {
                assert(self.backlog@ =~= old(self).backlog@.drop_first());
            }
        }
        self.backlog.push((id, msg));
    }
}

/// Builds the trivial outcome of a one-candidate session: a fresh
/// threshold-0 key set signs for the singleton section, so the DKG succeeds
/// in one step with this `HandleDkgOutcome`.
pub fn single_candidate_outcome(candidates: ElderCandidates, participant_index: usize) -> (r: Result<DkgCommand, RoutingError>)
    requires
        candidates.prefix.wf(),
        candidates.elders@.len() == 1,
        spec_names_wf(names_of(candidates.elders@)),
    ensures
        r matches Ok(c) ==> (c matches DkgCommand::HandleDkgOutcome { section_auth, outcome }
            && section_auth.wf()
            && section_auth.prefix@ == candidates.prefix@
            && section_auth.elders@.len() == 1
            && section_auth.elders@[0].name@ == candidates.elders@[0].name@
            && outcome.index == participant_index
            && outcome.public_key_set@ == section_auth.public_key_set@),
        r is Ok,
{
    let generated = bls_keyset_random(0);
    let prefix = candidates.prefix.duplicate();
    let section_auth = match SectionAuthorityProvider::new(prefix, candidates.elders, generated.pk_set) {
        Result::Ok(s) => s,
        Result::Err(_) => {
            proof {
                assert(spec_supermajority(1) - 1 == 0);
                assert(false);
            }
            return Err(RoutingError::InvalidPayload);
        },
    };
    let outcome = SectionKeyShare {
        public_key_set: crate::xor::clone_bytes(&section_auth.public_key_set),
        index: participant_index,
        secret_key_share: generated.secret_key_share,
    };
    Ok(DkgCommand::HandleDkgOutcome { section_auth, outcome })
}

impl DkgVoter {
    /// Starts a DKG session. A session already running under the id is left
    /// alone; a node that is no candidate starts nothing. A single candidate
    /// gets its trivial outcome at once. Otherwise the engine is initialized,
    /// its first message is broadcast, the messages buffered for the session
    /// are replayed to it in arrival order exactly once, and sessions of
    /// older generations are dropped.
    pub fn start(&mut self, our_name: &XorName, session_id: DkgSessionId, candidates: ElderCandidates, timer_token: u64) -> (r: Result<Vec<DkgCommand>, RoutingError>)
        requires
            old(self).wf(),
            our_name@.len() == 32,
            candidates.prefix.wf(),
            spec_names_wf(names_of(candidates.elders@)),
            candidates.elders@.len() <= ELDER_SIZE,
        ensures
            final(self).wf(),
            r is Ok,
            // a repeated start for a running session is a no-op and
            // commands nothing
            old(self).spec_has_session(&session_id)
                ==> *final(self) == *old(self)
                    && (r matches Ok(cs) && cs@.len() == 0),
            // a sole candidate succeeds in one step with its outcome, as
            // share 0, and no session is stored
            (!old(self).spec_has_session(&session_id)
                && candidates.elders@.len() == 1
                && candidates.elders@[0].name@ == our_name@)
                ==> (r matches Ok(cs) && cs@.len() == 1
                    && (cs@[0] matches DkgCommand::HandleDkgOutcome { section_auth, outcome }
                        && section_auth.wf()
                        && section_auth.prefix@ == candidates.prefix@
                        && section_auth.elders@.len() == 1
                        && outcome.index == 0)
                    && final(self).sessions == old(self).sessions),
            // once a session was started, nothing of it stays buffered
            (!old(self).spec_has_session(&session_id))
                ==> forall|i: int| 0 <= i < final(self).backlog@.len()
                    ==> !entry_for(#[trigger] final(self).backlog@[i], &session_id),
            // a fresh start that broadcasts stores its session, and every
            // retained session is of its generation or newer
            (!old(self).spec_has_session(&session_id)
                && (r matches Ok(cs) && cs@.len() == 1 && cs@[0] is SendDkgMessages))
                ==> final(self).spec_has_session(&session_id)
                    && (forall|i: int| 0 <= i < final(self).sessions@.len()
                        ==> (#[trigger] final(self).sessions@[i]).id.generation
                            >= session_id.generation),
    {
        match self.find_session(&session_id) {
            Option::Some(_) => {
                proof {
                    assert(old(self).spec_has_session(&session_id));
                }
                return Ok(Vec::new());
            },
            Option::None => {},
        }
        let participant_index = match candidates.position(our_name) {
            Option::Some(i) => i,
            Option::None => {
                let _ = self.take_backlog(&session_id);
                proof {
                    lemma_filter_drops_id(old(self).backlog@, self.backlog@, &session_id);
                }
                return Ok(Vec::new());
            },
        };
        if candidates.elders.len() == 1 {
            let _ = self.take_backlog(&session_id);
            proof {
                lemma_filter_drops_id(old(self).backlog@, self.backlog@, &session_id);
            }
            let cmd = match single_candidate_outcome(candidates, participant_index) {
                Result::Ok(c) => c,
                Result::Err(_) => {
                    return Ok(Vec::new());
                },
            };
            let mut cs: Vec<DkgCommand> = Vec::new();
            cs.push(cmd);
            return Ok(cs);
        }
        // initialize the engine and replay the backlog in arrival order
        let mut names: Vec<XorName> = Vec::new();
        let mut i: usize = 0;
        while i < candidates.elders.len()
            invariant
                spec_names_wf(names_of(candidates.elders@)),
                i <= candidates.elders@.len(),
                names@.len() == i,
                forall|j: int| 0 <= j < i
                    ==> (#[trigger] names@[j])@ == candidates.elders@[j].name@,
            decreases candidates.elders@.len() - i,
        {
            proof {
                assert(names_of(candidates.elders@)[i as int]
                    == candidates.elders@[i as int].name@);
            }
            names.push(candidates.elders[i].name.duplicate());
            i = i + 1;
        }
        proof {
            assert forall|j: int| 0 <= j < names@.len()
                implies (#[trigger] crate::peers::xor_names(names@)[j]).len() == 32 by {
                assert(crate::peers::xor_names(names@)[j] == names@[j]@);
                assert(names_of(candidates.elders@)[j] == candidates.elders@[j].name@);
            };
        }
        let threshold = crate::supermajority(candidates.elders.len()) - 1;
        let init = dkg_initialize(our_name, threshold, &names);
        match init {
            Option::None => {
                let _ = self.take_backlog(&session_id);
                proof {
                    lemma_filter_drops_id(old(self).backlog@, self.backlog@, &session_id);
                }
                Ok(Vec::new())
            },
            Option::Some((key_gen, first_msg)) => {
                let mut session = DkgSession {
                    id: session_id.duplicate(),
                    candidates,
                    key_gen,
                    participant_index,
                    timer_token,
                    failures: DkgFailureSigSet::empty(),
                    complete: false,
                };
                let mut messages: Vec<Vec<u8>> = Vec::new();
                messages.push(first_msg);
                let backlogged = self.take_backlog(&session_id);
                proof {
                    lemma_filter_drops_id(old(self).backlog@, self.backlog@, &session_id);
                }
                let mut b: usize = 0;
                while b < backlogged.len()
                    invariant
                        b <= backlogged@.len(),
                        session.candidates.prefix.wf(),
                        spec_names_wf(names_of(session.candidates.elders@)),
                        session.candidates.elders@.len() <= ELDER_SIZE,
                        session.id.hash@ == session_id.hash@,
                        session.id.generation == session_id.generation,
                        forall|i2: int| 0 <= i2 < self.backlog@.len()
                            ==> !entry_for(#[trigger] self.backlog@[i2], &session_id),
                        self.wf(),
                    decreases backlogged@.len() - b,
                {
                    match dkg_handle_message(&mut session.key_gen, &backlogged[b]) {
                        Option::Some(mut out) => {
                            messages.append(&mut out);
                        },
                        Option::None => {},
                    }
                    b = b + 1;
                }
                // drop superseded sessions, keep the newest generations
                let generation = session.id.generation;
                let ghost new_session_id = session.id;
                let mut kept: Vec<DkgSession> = Vec::new();
                kept.push(session);
                proof {
                    assert(kept@[0].candidates.prefix.wf()
                        && spec_names_wf(names_of(kept@[0].candidates.elders@))
                        && kept@[0].candidates.elders@.len() <= ELDER_SIZE);
                }
                while self.sessions.len() > 0
                    invariant
                        forall|i2: int| 0 <= i2 < self.backlog@.len()
                            ==> !entry_for(#[trigger] self.backlog@[i2], &session_id),
                        forall|i2: int| 0 <= i2 < self.sessions@.len()
                            ==> (#[trigger] self.sessions@[i2]).candidates.prefix.wf()
                                && spec_names_wf(names_of(self.sessions@[i2].candidates.elders@))
                                && self.sessions@[i2].candidates.elders@.len() <= ELDER_SIZE,
                        forall|i2: int| 0 <= i2 < kept@.len()
                            ==> (#[trigger] kept@[i2]).candidates.prefix.wf()
                                && spec_names_wf(names_of(kept@[i2].candidates.elders@))
                                && kept@[i2].candidates.elders@.len() <= ELDER_SIZE,
                        kept@.len() >= 1,
                        kept@[0].id == new_session_id,
                        new_session_id.hash@ == session_id.hash@,
                        new_session_id.generation == session_id.generation,
                        generation == session_id.generation,
                        forall|i2: int| 0 <= i2 < kept@.len()
                            ==> (#[trigger] kept@[i2]).id.generation >= generation,
                    decreases self.sessions@.len(),
                {
                    let ghost pre = self.sessions@;
                    let s = self.sessions.remove(0);
                    proof {
                        assert(forall|i2: int| 0 <= i2 < self.sessions@.len()
                            ==> #[trigger] self.sessions@[i2] == pre[i2 + 1]);
                    }
                    if s.id.generation >= generation {
                        kept.push(s);
                    }
                }
                self.sessions = kept;
                proof {
                    assert(self.sessions@[0].id.hash@ == session_id.hash@
                        && self.sessions@[0].id.generation == session_id.generation);
                    assert(self.spec_has_session(&session_id));
                }
                let mut cs: Vec<DkgCommand> = Vec::new();
                cs.push(DkgCommand::SendDkgMessages { session_id, messages });
                Ok(cs)
            },
        }
    }

    /// Feeds a DKG message to its session; a message whose session does not
    /// exist yet is buffered. A finished engine hands out the outcome.
    pub fn process_message(&mut self, session_id: &DkgSessionId, msg: Vec<u8>) -> (r: Result<Vec<DkgCommand>, RoutingError>)
        requires
            old(self).wf(),
        ensures
            final(self).wf(),
            r is Ok,
            // a message ahead of its session is buffered, commanding nothing
            !old(self).spec_has_session(session_id)
                ==> (r matches Ok(cs) && cs@.len() == 0)
                    && final(self).sessions == old(self).sessions
                    && (old(self).backlog@.len() < BACKLOG_CAP
                        ==> final(self).backlog@.len() == old(self).backlog@.len() + 1
                            && entry_for(final(self).backlog@.last(), session_id)
                            && final(self).backlog@.last().1@ == msg@
                            && (forall|j: int| 0 <= j < old(self).backlog@.len()
                                ==> final(self).backlog@[j] == old(self).backlog@[j])),
    {
        let found = self.find_session(session_id);
        match found {
            Option::None => {
                self.push_backlog(session_id.duplicate(), msg);
                Ok(Vec::new())
            },
            Option::Some(i) => {
                let ghost pre = self.sessions@;
                let mut session = self.sessions.remove(i);
                proof {
                    assert(session == pre[i as int]);
                    assert(session.candidates.prefix.wf()
                        && spec_names_wf(names_of(session.candidates.elders@)));
                    assert forall|i2: int| 0 <= i2 < self.sessions@.len()
                        implies (#[trigger] self.sessions@[i2]).candidates.prefix.wf()
                            && spec_names_wf(names_of(self.sessions@[i2].candidates.elders@))
                            && self.sessions@[i2].candidates.elders@.len() <= ELDER_SIZE by {
                        let j0: int = if i2 < i { i2 } else { i2 + 1 };
                        assert(self.sessions@[i2] == pre[j0]);
                    };
                }
                let mut cs: Vec<DkgCommand> = Vec::new();
                match dkg_handle_message(&mut session.key_gen, &msg) {
                    Option::Some(messages) => {
                        if messages.len() > 0 {
                            cs.push(DkgCommand::SendDkgMessages {
                                session_id: session_id.duplicate(),
                                messages,
                            });
                        }
                    },
                    Option::None => {},
                }
                if !session.complete && dkg_is_finalized(&session.key_gen) {
                    match dkg_generate_keys(&session.key_gen) {
                        Option::Some((pk_set, sk_share)) => {
                            session.complete = true;
                            let prefix = session.candidates.prefix.duplicate();
                            let elders = crate::sap::clone_elders(&session.candidates.elders);
                            proof {
                                assert(names_of(elders@) =~= names_of(session.candidates.elders@));
                            }
                            match SectionAuthorityProvider::new(prefix, elders, pk_set) {
                                Result::Ok(section_auth) => {
                                    let outcome = SectionKeyShare {
                                        public_key_set: crate::xor::clone_bytes(
                                            &section_auth.public_key_set),
                                        index: session.participant_index,
                                        secret_key_share: sk_share,
                                    };
                                    cs.push(DkgCommand::HandleDkgOutcome { section_auth, outcome });
                                },
                                Result::Err(_) => {},
                            }
                        },
                        Option::None => {},
                    }
                }
                let ghost mid = self.sessions@;
                self.sessions.insert(i, session);
                proof {
                    assert forall|i2: int| 0 <= i2 < self.sessions@.len()
                        implies (#[trigger] self.sessions@[i2]).candidates.prefix.wf()
                            && spec_names_wf(names_of(self.sessions@[i2].candidates.elders@))
                            && self.sessions@[i2].candidates.elders@.len() <= ELDER_SIZE by {
                        if i2 < i {
                            assert(self.sessions@[i2] == mid[i2]);
                        } else if i2 == i {
                            assert(self.sessions@[i2] == session);
                        } else {
                            assert(self.sessions@[i2] == mid[i2 - 1]);
                        }
                    };
                }
                Ok(cs)
            },
        }
    }

    /// Advances the timed phase of the session holding the given timer. A
    /// token no session holds is a no-op that commands nothing; otherwise
    /// only the first session holding it is advanced, and no session is
    /// added, dropped or re-identified.
    pub fn handle_timeout(&mut self, timer_token: u64) -> (r: Result<Vec<DkgCommand>, RoutingError>)
        requires
            old(self).wf(),
        ensures
            final(self).wf(),
            r is Ok,
            (forall|i: int| 0 <= i < old(self).sessions@.len()
                ==> (#[trigger] old(self).sessions@[i]).timer_token != timer_token)
                ==> *final(self) == *old(self) && (r matches Ok(cs) && cs@.len() == 0),
            final(self).backlog == old(self).backlog,
            final(self).sessions@.len() == old(self).sessions@.len(),
            forall|i: int| 0 <= i < final(self).sessions@.len()
                ==> session_shell_eq(
                    #[trigger] final(self).sessions@[i], old(self).sessions@[i]),
            forall|i: int| 0 <= i < final(self).sessions@.len()
                && (#[trigger] old(self).sessions@[i]).timer_token != timer_token
                ==> final(self).sessions@[i] == old(self).sessions@[i],
    {
        let mut i: usize = 0;
        while i < self.sessions.len()
            invariant
                self.wf(),
                i <= self.sessions@.len(),
                *self == *old(self),
                forall|j: int| 0 <= j < i
                    ==> (#[trigger] self.sessions@[j]).timer_token != timer_token,
            decreases self.sessions@.len() - i,
        {
            if self.sessions[i].timer_token == timer_token {
                let ghost pre = self.sessions@;
                let mut session = self.sessions.remove(i);
                proof {
                    assert(session == pre[i as int]);
                }
                let ghost shell = session;
                let mut cs: Vec<DkgCommand> = Vec::new();
                match dkg_timed_phase(&mut session.key_gen) {
                    Option::Some(messages) => {
                        if messages.len() > 0 {
                            cs.push(DkgCommand::SendDkgMessages {
                                session_id: session.id.duplicate(),
                                messages,
                            });
                        }
                    },
                    Option::None => {},
                }
                let ghost mid = self.sessions@;
                self.sessions.insert(i, session);
                proof {
                    assert forall|i2: int| 0 <= i2 < self.sessions@.len()
                        implies (#[trigger] self.sessions@[i2]).candidates.prefix.wf()
                            && spec_names_wf(names_of(self.sessions@[i2].candidates.elders@))
                            && self.sessions@[i2].candidates.elders@.len() <= ELDER_SIZE
                            && session_shell_eq(self.sessions@[i2], old(self).sessions@[i2])
                            && (old(self).sessions@[i2].timer_token != timer_token
                                ==> self.sessions@[i2] == old(self).sessions@[i2]) by {
                        if i2 < i {
                            assert(self.sessions@[i2] == mid[i2]);
                            assert(mid[i2] == pre[i2]);
                        } else if i2 == i {
                            assert(self.sessions@[i2] == session);
                            assert(session_shell_eq(session, shell));
                        } else {
                            assert(self.sessions@[i2] == mid[i2 - 1]);
                            assert(mid[i2 - 1] == pre[i2]);
                        }
                    };
                }
                return Ok(cs);
            }
            i = i + 1;
        }
        Ok(Vec::new())
    }

    /// Feeds one participant's failure observation to its session. The
    /// signature is recorded once per key; once at least a supermajority of
    /// the participants have signed the failure, and only then, the
    /// accumulated set is handed out for the elders.
    pub fn process_failure(&mut self, session_id: &DkgSessionId, failed_participants: Vec<XorName>, sig: DkgFailureSig) -> (r: Option<DkgFailureSigSet>)
        requires
            old(self).wf(),
        ensures
            final(self).wf(),
            final(self).backlog == old(self).backlog,
            !old(self).spec_has_session(session_id) ==> *final(self) == *old(self) && r is None,
            r matches Some(set) ==> exists|i: int| 0 <= i < final(self).sessions@.len()
                && set.sigs@.len() >= spec_supermajority(
                    (#[trigger] final(self).sessions@[i]).candidates.elders@.len() as int),
    {
        let found = self.find_session(session_id);
        match found {
            Option::None => Option::None,
            Option::Some(i) => {
                let ghost pre = self.sessions@;
                let mut session = self.sessions.remove(i);
                proof {
                    assert(session == pre[i as int]);
                    assert forall|i2: int| 0 <= i2 < self.sessions@.len()
                        implies (#[trigger] self.sessions@[i2]).candidates.prefix.wf()
                            && spec_names_wf(names_of(self.sessions@[i2].candidates.elders@))
                            && self.sessions@[i2].candidates.elders@.len() <= ELDER_SIZE by {
                        let j0: int = if i2 < i { i2 } else { i2 + 1 };
                        assert(self.sessions@[i2] == pre[j0]);
                    };
                }
                let _ = session.failures.insert(sig);
                session.failures.failed_participants = failed_participants;
                let agreed = session.failures.sigs.len()
                    >= crate::supermajority(session.candidates.elders.len());
                let r = if agreed {
                    Option::Some(session.failures.duplicate())
                } else {
                    Option::None
                };
                let ghost n_candidates = session.candidates.elders@.len();
                let ghost mid = self.sessions@;
                self.sessions.insert(i, session);
                proof {
                    assert forall|i2: int| 0 <= i2 < self.sessions@.len()
                        implies (#[trigger] self.sessions@[i2]).candidates.prefix.wf()
                            && spec_names_wf(names_of(self.sessions@[i2].candidates.elders@))
                            && self.sessions@[i2].candidates.elders@.len() <= ELDER_SIZE by {
                        if i2 < i {
                            assert(self.sessions@[i2] == mid[i2]);
                            assert(mid[i2] == pre[i2]);
                        } else if i2 == i {
                            assert(self.sessions@[i2] == session);
                        } else {
                            assert(self.sessions@[i2] == mid[i2 - 1]);
                            assert(mid[i2 - 1] == pre[i2]);
                        }
                    };
                    if r is Some {
                        assert(self.sessions@[i as int].candidates.elders@.len() == n_candidates);
                    }
                }
                r
            },
        }
    }
}

/// Whether two sessions agree in everything but their engine state.
pub open spec fn session_shell_eq(a: DkgSession, b: DkgSession) -> bool {
    a.id == b.id && a.candidates == b.candidates
        && a.participant_index == b.participant_index
        && a.timer_token == b.timer_token
}


/// After the backlog was filtered of a session's entries, none remain.
proof fn lemma_filter_drops_id(
    orig: Seq<(DkgSessionId, Vec<u8>)>,
    remaining: Seq<(DkgSessionId, Vec<u8>)>,
    id: &DkgSessionId,
)
    requires
        remaining == orig.filter(|e: (DkgSessionId, Vec<u8>)| !entry_for(e, id)),
    ensures
        forall|i: int| 0 <= i < remaining.len() ==> !entry_for(#[trigger] remaining[i], id),
{
    assert forall|i: int| 0 <= i < remaining.len()
        implies !entry_for(#[trigger] remaining[i], id) by {
        orig.lemma_filter_pred(|e: (DkgSessionId, Vec<u8>)| !entry_for(e, id), i);
    };
}

} // verus!
