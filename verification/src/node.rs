//! The node core's dispatch decisions: when an inbound message is bounced
//! with an anti-entropy retry or redirect, how a receiver deduplicates
//! retried messages by id, and what the shell does with each startup error.

use vstd::prelude::*;
use crate::errors::RoutingError;
use crate::section::Section;
use crate::wire::MessageId;
use crate::xor::{spec_matches, XorName};

verus! {

/// What the dispatch pipeline does with an inbound message.
#[derive(Clone, Copy, Debug, PartialEq, Eq, Structural)]
pub enum AeDecision {
    /// The sender's key is stale: bounce an anti-entropy retry carrying our
    /// SAP and a proof chain from the sender's key.
    Retry,
    /// The destination name is not ours: bounce an anti-entropy redirect
    /// with a closer section's SAP.
    Redirect,
    /// The message is for us under our current key: handle it.
    Handle,
}

/// Classifies an inbound message against our section: a destination key that
/// is an old key of our chain gets a retry; a destination name outside our
/// prefix gets a redirect; everything else is handled. A missing destination
/// key counts as current, and an unknown key is handled by other checks.
pub fn ae_check(section: &Section, dst_name: &XorName, dst_section_pk: Option<&Vec<u8>>) -> (r: AeDecision)
    requires
        section.wf(),
        dst_name.wf(),
    ensures
        (match dst_section_pk {
            Option::Some(pk) => section.chain.spec_has_key(pk@)
                && pk@ != section.chain.spec_last_key(),
            Option::None => false,
        }) ==> r == AeDecision::Retry,
        !(match dst_section_pk {
            Option::Some(pk) => section.chain.spec_has_key(pk@)
                && pk@ != section.chain.spec_last_key(),
            Option::None => false,
        }) ==> {
            if spec_matches(section.section_auth.value.prefix@, dst_name@) {
                r == AeDecision::Handle
            } else {
                r == AeDecision::Redirect
            }
        },
{
    let stale = match dst_section_pk {
        Option::Some(pk) => {
            section.chain.has_key(pk) && !crate::xor::bytes_eq(pk, &section.chain.last_key())
        },
        Option::None => false,
    };
    if stale {
        return AeDecision::Retry;
    }
    if section.section_auth.value.prefix.matches(dst_name) {
        AeDecision::Handle
    } else {
        AeDecision::Redirect
    }
}

/// The ids of the messages a receiver has already processed: retries of a
/// processed message are no-ops.
#[derive(Clone, Debug, PartialEq, Eq)]
pub struct ProcessedIds {
    /// The processed message ids.
    pub ids: Vec<MessageId>,
}

/// The id views of a list of message ids.
pub open spec fn id_views(ids: Seq<MessageId>) -> Seq<Seq<u8>> {
    ids.map(|i: int, m: MessageId| m.bytes@)
}

impl ProcessedIds {
    /// An empty record.
    pub fn new() -> (r: ProcessedIds)
        ensures
            r.ids@.len() == 0,
    {
        ProcessedIds { ids: Vec::new() }
    }

    /// Whether the id was processed before.
    pub fn contains(&self, id: &MessageId) -> (r: bool)
        ensures
            r == id_views(self.ids@).contains(id.bytes@),
    {
        let mut i: usize = 0;
        while i < self.ids.len()
            invariant
                i <= self.ids@.len(),
                forall|j: int| 0 <= j < i ==> (#[trigger] self.ids@[j]).bytes@ != id.bytes@,
            decreases self.ids@.len() - i,
        {
            if self.ids[i].equals(id) {
                proof {
                    assert(id_views(self.ids@)[i as int] == id.bytes@);
                }
                return true;
            }
            i = i + 1;
        }
        proof {
            assert(forall|j: int| 0 <= j < id_views(self.ids@).len()
                ==> id_views(self.ids@)[j] != id.bytes@);
        }
        false
    }

    /// Law: handling a message id a second time is a no-op — a processed id
    /// leaves the record unchanged and reports that nothing is to be done;
    /// a fresh id is recorded and handled once.
    pub fn should_process(&mut self, id: &MessageId) -> (r: bool)
        ensures
            id_views(old(self).ids@).contains(id.bytes@)
                ==> !r && *final(self) == *old(self),
            !id_views(old(self).ids@).contains(id.bytes@)
                ==> r && final(self).ids@.len() == old(self).ids@.len() + 1
                    && final(self).ids@.last().bytes@ == id.bytes@
                    && (forall|j: int| 0 <= j < old(self).ids@.len()
                        ==> final(self).ids@[j] == old(self).ids@[j]),
            id_views(final(self).ids@).contains(id.bytes@),
    {
        if self.contains(id) {
            false
        } else {
            self.ids.push(id.duplicate());
            proof {
                let n = self.ids@.len() - 1;
                assert(self.ids@[n].bytes@ == id.bytes@);
                assert(id_views(self.ids@)[n] == id.bytes@);
            }
            true
        }
    }
}

/// What the shell does with a startup error: surface a connection problem,
/// wait and retry when the network defers joiners or the join timed out,
/// exit when the node is unreachable, and treat the rest as fatal.
#[derive(Clone, Copy, Debug, PartialEq, Eq, Structural)]
pub enum StartupAction {
    /// Explain how to disable port forwarding and stop.
    SuggestPortForwarding,
    /// Wait for the retry period and try again.
    RetryLater,
    /// Report the unreachable address and exit.
    ExitUnreachable,
    /// Report the join timeout, wait, and try again.
    RetryAfterTimeout,
    /// Any other error is fatal.
    Fatal,
}

/// Decides the shell's reaction to a startup error.
pub fn startup_decision(err: &RoutingError) -> (r: StartupAction)
    ensures
        err is CannotConnectEndpoint ==> r == StartupAction::SuggestPortForwarding,
        err is TryJoinLater ==> r == StartupAction::RetryLater,
        err is NodeNotReachable ==> r == StartupAction::ExitUnreachable,
        err is JoinTimeout ==> r == StartupAction::RetryAfterTimeout,
        !(err is CannotConnectEndpoint) && !(err is TryJoinLater)
            && !(err is NodeNotReachable) && !(err is JoinTimeout)
            ==> r == StartupAction::Fatal,
{
    match err {
        RoutingError::CannotConnectEndpoint => StartupAction::SuggestPortForwarding,
        RoutingError::TryJoinLater => StartupAction::RetryLater,
        RoutingError::NodeNotReachable(_) => StartupAction::ExitUnreachable,
        RoutingError::JoinTimeout => StartupAction::RetryAfterTimeout,
        _ => StartupAction::Fatal,
    }
}

} // verus!
