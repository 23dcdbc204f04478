//! The joining stage: the node has picked a target section and waits to be
//! approved. The stage decides what to do with each incoming message and
//! when to resend its join requests; sending itself is the shell's work.

use vstd::prelude::*;
use crate::errors::RoutingError;
use crate::sap::{Elder, SectionAuthorityProvider};
use crate::xor::{spec_matches, XorName};

verus! {

/// Seconds after which an unanswered join attempt is retried.
pub const JOIN_TIMEOUT_SECS: u64 = 60;

/// Whether the node joins fresh or arrives by relocation.
#[derive(Clone, Debug, PartialEq, Eq)]
pub enum JoinType {
    /// Joining the network for the first time.
    First,
    /// Being relocated; carries the destination section's key.
    Relocate(Vec<u8>),
}

/// How the node is connected once the join completes.
#[derive(Clone, Copy, Debug, PartialEq, Eq, Structural)]
pub enum Connected {
    /// Connected as a first-time joiner.
    First,
    /// Connected by relocation.
    Relocate,
}

/// What to do with a message received while joining.
#[derive(Clone, Copy, Debug, PartialEq, Eq, Structural)]
pub enum MessageAction {
    /// Handle the message.
    Handle,
    /// Bounce the message back to its sender.
    Bounce,
    /// Drop the message.
    Discard,
}

/// The payload kinds the joining stage can meet, with what each decision
/// needs of them.
#[derive(Clone, Debug, PartialEq, Eq)]
pub enum Variant {
    /// The section approves the node; carries whether the approval verifies
    /// against the destination key of a relocation.
    NodeApproval {
        /// Whether the approval's signature verifies.
        verified: bool,
    },
    /// A newer view of the section the node is joining.
    BootstrapResponse {
        /// The newer elders.
        elders: SectionAuthorityProvider,
        /// Whether the response's signature verifies.
        verified: bool,
    },
    /// A message bounced back at the node.
    Bounce {
        /// Whether the bounce's signature verifies.
        verified: bool,
    },
    /// Section knowledge for established nodes.
    NeighbourInfo,
    /// A newer genesis knowledge push for established nodes.
    GenesisUpdate,
    /// A bootstrap answer that asks the joiner to bootstrap elsewhere.
    BootstrapRebootstrap,
    /// Another member's knowledge summary.
    MemberKnowledge,
    /// A consensus protocol request for established nodes.
    ConsensusRequest,
    /// A consensus protocol response for established nodes.
    ConsensusResponse,
    /// An application message.
    UserMessage,
    /// A relocation order.
    Relocate,
    /// A detached message signature.
    MessageSignature,
    /// A bootstrap request from another joiner.
    BootstrapRequest,
    /// A join request from another joiner.
    JoinRequest,
    /// A keep-alive.
    Ping,
}

/// A command the joining stage hands back to the shell.
#[derive(Clone, Debug, PartialEq, Eq)]
pub struct JoinRequestSend {
    /// The elder to send to.
    pub recipient: Elder,
    /// The section key the request names.
    pub section_key: Vec<u8>,
}

/// The joining stage.
#[derive(Clone, Debug, PartialEq, Eq)]
pub struct Joining {
    /// The SAP of the section being joined.
    pub elders_info: SectionAuthorityProvider,
    /// Whether this is a first join or a relocation.
    pub join_type: JoinType,
    /// The token of the running join timeout.
    pub timer_token: u64,
    /// The section keys of every view the stage has tracked: a view is
    /// adopted at most once, so the tracked section never regresses.
    pub seen_keys: Vec<Vec<u8>>,
}

impl Joining {
    /// Starts the joining stage toward the given section and returns the
    /// join requests to send: one per elder of the target section.
    pub fn new(elders_info: SectionAuthorityProvider, join_type: JoinType, timer_token: u64) -> (r: (Joining, Vec<JoinRequestSend>))
        requires
            elders_info.wf(),
        ensures
            r.0.elders_info == elders_info,
            r.0.join_type == join_type,
            r.0.timer_token == timer_token,
            r.0.seen_keys@.len() == 1,
            r.0.seen_keys@[0]@ == elders_info.public_key@,
            r.1@.len() == elders_info.elders@.len(),
            forall|i: int| 0 <= i < r.1@.len()
                ==> (#[trigger] r.1@[i]).recipient.name@ == elders_info.elders@[i].name@
                    && r.1@[i].recipient.addr == elders_info.elders@[i].addr
                    && r.1@[i].section_key@ == elders_info.public_key@,
    {
        let mut seen_keys: Vec<Vec<u8>> = Vec::new();
        seen_keys.push(crate::xor::clone_bytes(&elders_info.public_key));
        let stage = Joining { elders_info, join_type, timer_token, seen_keys };
        let sends = stage.send_join_requests();
        (stage, sends)
    }

    /// The join requests to (re)send: one per elder of the target section,
    /// naming the section key the node believes current.
    pub fn send_join_requests(&self) -> (r: Vec<JoinRequestSend>)
        ensures
            r@.len() == self.elders_info.elders@.len(),
            forall|i: int| 0 <= i < r@.len()
                ==> (#[trigger] r@[i]).recipient.name@ == self.elders_info.elders@[i].name@
                    && r@[i].recipient.addr == self.elders_info.elders@[i].addr
                    && r@[i].section_key@ == self.elders_info.public_key@,
    {
        let mut r: Vec<JoinRequestSend> = Vec::new();
        let mut i: usize = 0;
        while i < self.elders_info.elders.len()
            invariant
                i <= self.elders_info.elders@.len(),
                r@.len() == i,
                forall|j: int| 0 <= j < i
                    ==> (#[trigger] r@[j]).recipient.name@ == self.elders_info.elders@[j].name@
                        && r@[j].recipient.addr == self.elders_info.elders@[j].addr
                        && r@[j].section_key@ == self.elders_info.public_key@,
            decreases self.elders_info.elders@.len() - i,
        {
            let e = &self.elders_info.elders[i];
            r.push(JoinRequestSend {
                recipient: e.duplicate(),
                section_key: crate::xor::clone_bytes(&self.elders_info.public_key),
            });
            i = i + 1;
        }
        r
    }

    /// On a timer, resend the join requests when the token is ours, and
    /// remember the new token. Another timer's token changes nothing.
    pub fn handle_timeout(&mut self, token: u64, new_token: u64) -> (r: Vec<JoinRequestSend>)
        ensures
            token == old(self).timer_token ==> final(self).timer_token == new_token
                && r@.len() == old(self).elders_info.elders@.len(),
            token != old(self).timer_token ==> *final(self) == *old(self) && r@.len() == 0,
            final(self).elders_info == old(self).elders_info,
            final(self).join_type == old(self).join_type,
            final(self).seen_keys == old(self).seen_keys,
    {
        if token == self.timer_token {
            self.timer_token = new_token;
            self.send_join_requests()
        } else {
            Vec::new()
        }
    }

    /// What to do with an incoming message: handle approvals (verified, when
    /// relocating), handle verified bootstrap responses and bounces, bounce
    /// what only established nodes can answer, and discard the rest.
    pub fn decide_message_action(&self, variant: &Variant) -> (r: Result<MessageAction, RoutingError>)
        ensures
            match variant {
                Variant::NodeApproval { verified } => {
                    if self.join_type is Relocate {
                        (*verified ==> r == Ok::<MessageAction, RoutingError>(MessageAction::Handle))
                            && (!*verified ==> r == Err::<MessageAction, RoutingError>(RoutingError::InvalidMessage))
                    } else {
                        r == Ok::<MessageAction, RoutingError>(MessageAction::Handle)
                    }
                },
                Variant::BootstrapResponse { verified, .. } => {
                    (*verified ==> r == Ok::<MessageAction, RoutingError>(MessageAction::Handle))
                        && (!*verified ==> r == Err::<MessageAction, RoutingError>(RoutingError::InvalidMessage))
                },
                Variant::Bounce { verified } => {
                    (*verified ==> r == Ok::<MessageAction, RoutingError>(MessageAction::Handle))
                        && (!*verified ==> r == Err::<MessageAction, RoutingError>(RoutingError::InvalidMessage))
                },
                Variant::NeighbourInfo => r == Ok::<MessageAction, RoutingError>(MessageAction::Bounce),
                Variant::GenesisUpdate => r == Ok::<MessageAction, RoutingError>(MessageAction::Bounce),
                Variant::BootstrapRebootstrap => r == Ok::<MessageAction, RoutingError>(MessageAction::Bounce),
                Variant::MemberKnowledge => r == Ok::<MessageAction, RoutingError>(MessageAction::Discard),
                Variant::ConsensusRequest => r == Ok::<MessageAction, RoutingError>(MessageAction::Discard),
                Variant::ConsensusResponse => r == Ok::<MessageAction, RoutingError>(MessageAction::Discard),
                Variant::UserMessage => r == Ok::<MessageAction, RoutingError>(MessageAction::Bounce),
                Variant::Relocate => r == Ok::<MessageAction, RoutingError>(MessageAction::Bounce),
                Variant::MessageSignature => r == Ok::<MessageAction, RoutingError>(MessageAction::Bounce),
                Variant::BootstrapRequest => r == Ok::<MessageAction, RoutingError>(MessageAction::Bounce),
                Variant::JoinRequest => r == Ok::<MessageAction, RoutingError>(MessageAction::Bounce),
                Variant::Ping => r == Ok::<MessageAction, RoutingError>(MessageAction::Discard),
            },
    {
        match variant {
            Variant::NodeApproval { verified } => {
                match &self.join_type {
                    JoinType::Relocate(_) => {
                        if *verified {
                            Ok(MessageAction::Handle)
                        } else {
                            Err(RoutingError::InvalidMessage)
                        }
                    },
                    JoinType::First => Ok(MessageAction::Handle),
                }
            },
            Variant::BootstrapResponse { verified, .. } => {
                if *verified {
                    Ok(MessageAction::Handle)
                } else {
                    Err(RoutingError::InvalidMessage)
                }
            },
            Variant::Bounce { verified } => {
                if *verified {
                    Ok(MessageAction::Handle)
                } else {
                    Err(RoutingError::InvalidMessage)
                }
            },
            Variant::NeighbourInfo => Ok(MessageAction::Bounce),
            Variant::GenesisUpdate => Ok(MessageAction::Bounce),
            Variant::BootstrapRebootstrap => Ok(MessageAction::Bounce),
            Variant::MemberKnowledge => Ok(MessageAction::Discard),
            Variant::ConsensusRequest => Ok(MessageAction::Discard),
            Variant::ConsensusResponse => Ok(MessageAction::Discard),
            Variant::UserMessage => Ok(MessageAction::Bounce),
            Variant::Relocate => Ok(MessageAction::Bounce),
            Variant::MessageSignature => Ok(MessageAction::Bounce),
            Variant::BootstrapRequest => Ok(MessageAction::Bounce),
            Variant::JoinRequest => Ok(MessageAction::Bounce),
            Variant::Ping => Ok(MessageAction::Discard),
        }
    }

    /// Adopts a view of the target section when its key was never tracked
    /// before and its prefix matches our name, and returns the requests to
    /// resend, one per elder of the adopted view. A view under a key the
    /// stage has already tracked, or for a prefix that does not cover us,
    /// changes nothing: the tracked section never regresses to an earlier
    /// view.
    pub fn handle_bootstrap_response(&mut self, our_name: &XorName, new_elders_info: SectionAuthorityProvider) -> (r: Result<Vec<JoinRequestSend>, RoutingError>)
        requires
            new_elders_info.wf(),
            our_name.wf(),
        ensures
            r is Ok,
            crate::msg_authority::keys_contain(
                old(self).seen_keys@, new_elders_info.public_key@)
                ==> *final(self) == *old(self)
                    && (r matches Ok(sends) && sends@.len() == 0),
            (!crate::msg_authority::keys_contain(
                    old(self).seen_keys@, new_elders_info.public_key@)
                && spec_matches(new_elders_info.prefix@, our_name@))
                ==> final(self).elders_info == new_elders_info
                    && final(self).seen_keys@.len() == old(self).seen_keys@.len() + 1
                    && final(self).seen_keys@.last()@ == new_elders_info.public_key@
                    && (forall|i: int| 0 <= i < old(self).seen_keys@.len()
                        ==> final(self).seen_keys@[i] == old(self).seen_keys@[i])
                    && (r matches Ok(sends)
                        && sends@.len() == new_elders_info.elders@.len()
                        && (forall|i: int| 0 <= i < sends@.len()
                            ==> (#[trigger] sends@[i]).recipient.name@
                                == new_elders_info.elders@[i].name@
                                && sends@[i].recipient.addr == new_elders_info.elders@[i].addr
                                && sends@[i].section_key@ == new_elders_info.public_key@)),
            (!crate::msg_authority::keys_contain(
                    old(self).seen_keys@, new_elders_info.public_key@)
                && !spec_matches(new_elders_info.prefix@, our_name@))
                ==> *final(self) == *old(self)
                    && (r matches Ok(sends) && sends@.len() == 0),
            final(self).join_type == old(self).join_type,
            final(self).timer_token == old(self).timer_token,
    {
        if crate::msg_authority::key_listed(&self.seen_keys, &new_elders_info.public_key) {
            return Ok(Vec::new());
        }
        if new_elders_info.prefix.matches(our_name) {
            self.seen_keys.push(crate::xor::clone_bytes(&new_elders_info.public_key));
            self.elders_info = new_elders_info;
            Ok(self.send_join_requests())
        } else {
            Ok(Vec::new())
        }
    }

    /// The SAP of the section being joined.
    pub fn target_section_elders_info(&self) -> (r: &SectionAuthorityProvider)
        ensures
            r == &self.elders_info,
    {
        &self.elders_info
    }

    /// Whether the node connects as a first-time joiner or by relocation.
    pub fn connect_type(&self) -> (r: Connected)
        ensures
            self.join_type is First <==> r == Connected::First,
            self.join_type is Relocate <==> r == Connected::Relocate,
    {
        match &self.join_type {
            JoinType::First => Connected::First,
            JoinType::Relocate(_) => Connected::Relocate,
        }
    }

    /// Wraps a bounced message for the sender.
    pub fn create_bounce(&self, msg_bytes: Vec<u8>) -> (r: BounceSend)
        ensures
            r.message@ == msg_bytes@,
    {
        BounceSend { message: msg_bytes }
    }
}

/// A bounce to send back: the message that could not be handled yet.
#[derive(Clone, Debug, PartialEq, Eq)]
pub struct BounceSend {
    /// The bounced message bytes.
    pub message: Vec<u8>,
}

} // verus!
