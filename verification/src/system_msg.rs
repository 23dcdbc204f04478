//! The system messages nodes exchange: anti-entropy healing, relocation,
//! joining, DKG rounds, proposals and node-to-node commands, together with
//! the load report a pressured node sends back.

use vstd::prelude::*;
use crate::chain::SectionChain;
use crate::errors::ErrorMessage;
use crate::peers::SectionPeers;
use crate::sap::{ElderCandidates, SectionAuthorityProvider};
use crate::signed::{KeyedSig, SigShare};
use crate::wire::MessageId;
use crate::xor::XorName;

verus! {

/// An evaluation of measured cpu load during a period.
#[derive(Clone, Copy, Debug, PartialEq, Eq, Structural)]
pub struct CpuLoad {
    /// Well below sustainable levels.
    pub low: bool,
    /// Considered to be fine.
    pub moderate: bool,
    /// Not a sustainable level.
    pub high: bool,
    /// Not a sustainable level.
    pub very_high: bool,
    /// Not a sustainable level.
    pub critical: bool,
}

/// A load report sent over the wire to ask message producers to back off.
#[derive(Clone, Copy, Debug, PartialEq, Eq, Structural)]
pub struct LoadReport {
    /// CPU load over roughly the last minute.
    pub short_term: CpuLoad,
    /// CPU load over roughly the last five minutes.
    pub mid_term: CpuLoad,
    /// CPU load over roughly the last quarter hour.
    pub long_term: CpuLoad,
}

/// The identifier of one DKG session: a digest of the candidate set and the
/// generation the session runs for.
#[derive(Clone, Debug, PartialEq, Eq)]
pub struct DkgSessionId {
    /// Digest of the participant set.
    pub hash: XorName,
    /// The generation: sessions of older generations are superseded.
    pub generation: u64,
}

impl DkgSessionId {
    /// Whether two session ids are the same.
    pub fn equals(&self, other: &DkgSessionId) -> (r: bool)
        ensures
            r == (self.hash@ == other.hash@ && self.generation == other.generation),
    {
        self.hash.equals(&other.hash) && self.generation == other.generation
    }

    /// A fresh copy of the id.
    pub fn duplicate(&self) -> (r: DkgSessionId)
        ensures
            r.hash@ == self.hash@,
            r.generation == self.generation,
    {
        DkgSessionId { hash: self.hash.duplicate(), generation: self.generation }
    }
}

/// One participant's signature over an observed DKG failure.
#[derive(Clone, Debug, PartialEq, Eq)]
pub struct DkgFailureSig {
    /// The participant's BLS public key.
    pub public_key: Vec<u8>,
    /// The participant's signature over the failure observation.
    pub signature: Vec<u8>,
}

/// The failure signatures collected across DKG participants.
#[derive(Clone, Debug, PartialEq, Eq)]
pub struct DkgFailureSigSet {
    /// The collected signatures, at most one per key.
    pub sigs: Vec<DkgFailureSig>,
    /// The participants the observers hold responsible.
    pub failed_participants: Vec<XorName>,
}

impl DkgFailureSigSet {
    /// An empty set.
    pub fn empty() -> (r: DkgFailureSigSet)
        ensures
            r.sigs@.len() == 0,
            r.failed_participants@.len() == 0,
    {
        DkgFailureSigSet { sigs: Vec::new(), failed_participants: Vec::new() }
    }

    /// Records one observer's signature: a key signs at most once. Returns
    /// whether the signature was new.
    pub fn insert(&mut self, sig: DkgFailureSig) -> (r: bool)
        ensures
            r == !(exists|i: int| 0 <= i < old(self).sigs@.len()
                && (#[trigger] old(self).sigs@[i]).public_key@ == sig.public_key@),
            r ==> final(self).sigs@ == old(self).sigs@.push(sig),
            !r ==> *final(self) == *old(self),
            final(self).failed_participants == old(self).failed_participants,
    {
        let mut i: usize = 0;
        while i < self.sigs.len()
            invariant
                i <= self.sigs@.len(),
                forall|j: int| 0 <= j < i
                    ==> (#[trigger] self.sigs@[j]).public_key@ != sig.public_key@,
                *self == *old(self),
            decreases self.sigs@.len() - i,
        {
            if crate::xor::bytes_eq(&self.sigs[i].public_key, &sig.public_key) {
                return false;
            }
            i = i + 1;
        }
        self.sigs.push(sig);
        true
    }

    /// A fresh copy of the set, equal to it in every view.
    pub fn duplicate(&self) -> (r: DkgFailureSigSet)
        ensures
            r.sigs@.len() == self.sigs@.len(),
            forall|i: int| 0 <= i < r.sigs@.len()
                ==> (#[trigger] r.sigs@[i]).public_key@ == self.sigs@[i].public_key@
                    && r.sigs@[i].signature@ == self.sigs@[i].signature@,
            r.failed_participants@.len() == self.failed_participants@.len(),
            forall|i: int| 0 <= i < r.failed_participants@.len()
                ==> (#[trigger] r.failed_participants@[i])@ == self.failed_participants@[i]@,
    {
        let mut sigs: Vec<DkgFailureSig> = Vec::new();
        let mut i: usize = 0;
        while i < self.sigs.len()
            invariant
                i <= self.sigs@.len(),
                sigs@.len() == i,
                forall|j: int| 0 <= j < i
                    ==> (#[trigger] sigs@[j]).public_key@ == self.sigs@[j].public_key@
                        && sigs@[j].signature@ == self.sigs@[j].signature@,
            decreases self.sigs@.len() - i,
        {
            sigs.push(DkgFailureSig {
                public_key: crate::xor::clone_bytes(&self.sigs[i].public_key),
                signature: crate::xor::clone_bytes(&self.sigs[i].signature),
            });
            i = i + 1;
        }
        let mut failed_participants: Vec<XorName> = Vec::new();
        let mut j: usize = 0;
        while j < self.failed_participants.len()
            invariant
                j <= self.failed_participants@.len(),
                failed_participants@.len() == j,
                forall|t: int| 0 <= t < j
                    ==> (#[trigger] failed_participants@[t])@ == self.failed_participants@[t]@,
            decreases self.failed_participants@.len() - j,
        {
            failed_participants.push(self.failed_participants[j].duplicate());
            j = j + 1;
        }
        DkgFailureSigSet { sigs, failed_participants }
    }
}

/// A section-level proposal to be aggregated from signature shares.
#[derive(Clone, Debug, PartialEq, Eq)]
pub enum Proposal {
    /// Propose marking this node state as current.
    Online(crate::node_state::NodeState),
    /// Propose marking this peer as offline.
    Offline(crate::node_state::NodeState),
    /// Propose handing over to the elders of this SAP.
    SectionInfo(SectionAuthorityProvider),
    /// Propose switching to this already-signed SAP.
    NewElders(crate::signed::SectionAuth<SectionAuthorityProvider>),
}

/// Details a section sends to a node it relocates.
#[derive(Clone, Debug, PartialEq, Eq)]
pub struct RelocateDetails {
    /// The name the node shall take on.
    pub destination: XorName,
    /// The destination section's key.
    pub destination_key: Vec<u8>,
    /// The node's age after the move.
    pub age: u8,
}

/// A request to join a section.
#[derive(Clone, Debug, PartialEq, Eq)]
pub struct JoinRequest {
    /// The section key the joiner believes current.
    pub section_key: Vec<u8>,
    /// The solved resource proof, once the joiner has one.
    pub resource_proof_response: Option<ResourceProofResponse>,
}

/// A solved proof-of-resource challenge.
#[derive(Clone, Debug, PartialEq, Eq)]
pub struct ResourceProofResponse {
    /// The challenge's solution.
    pub solution: u64,
    /// The data the solution covers.
    pub data: Vec<u8>,
    /// The nonce the challenge carried.
    pub nonce: Vec<u8>,
    /// The challenge signature handed out with the nonce.
    pub nonce_signature: Vec<u8>,
}

/// A section's answer to a join request.
#[derive(Clone, Debug, PartialEq, Eq)]
pub enum JoinResponse {
    /// The joiner's section knowledge is stale: retry against this SAP.
    Retry(SectionAuthorityProvider),
    /// The joiner asked the wrong section: go to these elders.
    Redirect(SectionAuthorityProvider),
    /// Solve this proof-of-resource challenge first.
    ResourceChallenge {
        /// The data to prove work over.
        data_size: u64,
        /// The difficulty of the challenge.
        difficulty: u8,
        /// The challenge nonce.
        nonce: Vec<u8>,
        /// A signature over the nonce.
        nonce_signature: Vec<u8>,
    },
    /// The joiner was rejected.
    Rejected(JoinRejectionReason),
    /// The joiner is approved: here are its signed record, the section chain
    /// and the signed SAP.
    Approved {
        /// The network's genesis key.
        genesis_key: Vec<u8>,
        /// The signed SAP of the joined section.
        section_auth: crate::signed::SectionAuth<SectionAuthorityProvider>,
        /// The joiner's signed membership record.
        node_state: crate::signed::SectionAuth<crate::node_state::NodeState>,
        /// The section's key chain.
        section_chain: SectionChain,
    },
}

/// Why a join request was turned down.
#[derive(Clone, Debug, PartialEq, Eq)]
pub enum JoinRejectionReason {
    /// The section accepts no new node right now.
    JoinsDisallowed,
    /// The node is not externally reachable at the address it gave.
    NodeNotReachable(crate::addr::NodeAddr),
}

/// A message sent between nodes.
#[derive(Clone, Debug, PartialEq, Eq)]
pub enum SystemMsg {
    /// The receiver's knowledge of the sender's section was stale: here are
    /// the current SAP, its signature, a proof chain, and the bounced
    /// message to resend with up-to-date destination information.
    AntiEntropyRetry {
        /// The sender's current SAP.
        section_auth: SectionAuthorityProvider,
        /// The sender's section signature over the SAP.
        section_signed: KeyedSig,
        /// The sender's chain, truncated from the stale key.
        proof_chain: SectionChain,
        /// The bounced message.
        bounced_msg: Vec<u8>,
    },
    /// The message was for another section: here is a closer section's
    /// signed SAP and the bounced message to resend there.
    AntiEntropyRedirect {
        /// The closer section's SAP.
        section_auth: SectionAuthorityProvider,
        /// The section signature over it.
        section_signed: KeyedSig,
        /// The bounced message.
        bounced_msg: Vec<u8>,
    },
    /// Push of fresher section knowledge to a lagging peer.
    AntiEntropyUpdate {
        /// Our current SAP.
        section_auth: SectionAuthorityProvider,
        /// The section signature over it.
        section_signed: KeyedSig,
        /// Our chain, truncated for the receiver.
        proof_chain: SectionChain,
        /// Our members, when updating our own section's adults.
        members: Option<SectionPeers>,
    },
    /// Probes the network by provoking an anti-entropy flow.
    AntiEntropyProbe(XorName),
    /// Asks message producers to back off proportionally to this load.
    BackPressure(LoadReport),
    /// Tells the receiving node to relocate at once.
    Relocate(RelocateDetails),
    /// A bootstrapping peer asks to join the section.
    JoinRequest(JoinRequest),
    /// The section's answer to a join request.
    JoinResponse(JoinResponse),
    /// Tells the new elder candidates to start a DKG session.
    DkgStart {
        /// The session to start.
        session_id: DkgSessionId,
        /// The participants.
        elder_candidates: ElderCandidates,
    },
    /// One message of a running DKG session, opaque to the codec.
    DkgMessage {
        /// The session the message belongs to.
        session_id: DkgSessionId,
        /// The serialized DKG message.
        message: Vec<u8>,
    },
    /// Broadcast when a participant observes a DKG failure.
    DkgFailureObservation {
        /// The session that failed.
        session_id: DkgSessionId,
        /// The observer's signature over the failure.
        sig: DkgFailureSig,
        /// The participants held responsible.
        failed_participants: Vec<XorName>,
    },
    /// Sent to the elders once a supermajority observed the failure.
    DkgFailureAgreement(DkgFailureSigSet),
    /// One share of a proposal to be aggregated.
    Propose {
        /// The proposal.
        proposal: Proposal,
        /// The sender's signature share over it.
        sig_share: SigShare,
    },
    /// Asks a section to test its connectivity to a node.
    StartConnectivityTest(XorName),
    /// The response to a node query, with the id of the causing message.
    NodeQueryResponse {
        /// The serialized response.
        response: Vec<u8>,
        /// The id of the query this answers.
        correlation_id: MessageId,
    },
    /// An error from handling a message, with the id of the cause.
    NodeMsgError {
        /// The error.
        error: ErrorMessage,
        /// The id of the message that caused it.
        correlation_id: MessageId,
    },
}

} // verus!
