//! The decision core of message delivery: which recipients to try, what to
//! do when a send fails, when the delivery is done, and the bounded cache of
//! connections the shell keeps per peer.

use vstd::prelude::*;
use crate::addr::NodeAddr;
use crate::errors::RoutingError;

verus! {

/// Number of connections the shell keeps cached.
pub const CONNECTIONS_CACHE_SIZE: usize = 1024;

/// A delivery failed to reach enough recipients.
#[derive(Clone, Copy, Debug, PartialEq, Eq, Structural)]
pub struct SendError;

impl SendError {
    /// What the failure means to the routing layer.
    pub fn to_routing_error(&self) -> (r: RoutingError)
        ensures
            r == RoutingError::FailedSend,
    {
        RoutingError::FailedSend
    }
}

/// The state of one fan-out delivery: send to `delivery_group_size` of the
/// recipients, replacing each failed recipient by the next untried one.
#[derive(Clone, Debug, PartialEq, Eq)]
pub struct SendPlan {
    /// All candidate recipients, in order.
    pub recipients: Vec<NodeAddr>,
    /// How many concurrent successes the delivery needs.
    pub delivery_group_size: usize,
    /// Index of the next recipient not yet handed out.
    pub next: usize,
    /// How many sends succeeded so far.
    pub successes: usize,
    /// The recipients whose sends failed.
    pub failed: Vec<NodeAddr>,
}

impl SendPlan {
    /// The plan is consistent with its recipient list.
    pub open spec fn wf(&self) -> bool {
        &&& self.next <= self.recipients@.len()
        &&& self.successes + self.failed@.len() <= self.next
        &&& self.delivery_group_size <= self.recipients@.len()
    }

    /// Starts a delivery: the first `min(delivery_group_size, recipients)`
    /// recipients are handed out at once.
    pub fn new(recipients: Vec<NodeAddr>, delivery_group_size: usize) -> (r: SendPlan)
        ensures
            r.wf(),
            r.recipients@ == recipients@,
            r.delivery_group_size == if delivery_group_size <= recipients@.len() {
                delivery_group_size as int
            } else {
                recipients@.len() as int
            },
            r.next == r.delivery_group_size,
            r.successes == 0,
            r.failed@.len() == 0,
    {
        let group = if delivery_group_size <= recipients.len() {
            delivery_group_size
        } else {
            recipients.len()
        };
        SendPlan {
            recipients,
            delivery_group_size: group,
            next: group,
            successes: 0,
            failed: Vec::new(),
        }
    }

    /// Records one send's outcome. A success is counted; a failure records
    /// the recipient and hands out the next untried recipient, when one is
    /// left.
    pub fn on_result(&mut self, recipient: NodeAddr, ok: bool) -> (r: Option<NodeAddr>)
        requires
            old(self).wf(),
            old(self).successes + old(self).failed@.len() < old(self).next,
        ensures
            final(self).wf(),
            final(self).recipients@ == old(self).recipients@,
            final(self).delivery_group_size == old(self).delivery_group_size,
            ok ==> final(self).successes == old(self).successes + 1
                && final(self).failed@ == old(self).failed@
                && final(self).next == old(self).next
                && r is None,
            !ok ==> final(self).successes == old(self).successes
                && final(self).failed@ == old(self).failed@.push(recipient),
            (!ok && old(self).next < old(self).recipients@.len())
                ==> r == Some(old(self).recipients@[old(self).next as int])
                    && final(self).next == old(self).next + 1,
            (!ok && old(self).next >= old(self).recipients@.len())
                ==> r is None && final(self).next == old(self).next,
    {
        if ok {
            self.successes = self.successes + 1;
            Option::None
        } else {
            self.failed.push(recipient);
            if self.next < self.recipients.len() {
                let addr = self.recipients[self.next];
                self.next = self.next + 1;
                Option::Some(addr)
            } else {
                Option::None
            }
        }
    }

    /// The delivery's verdict once every handed-out send has reported:
    /// success exactly when `delivery_group_size` sends succeeded, and the
    /// failed recipients either way.
    pub fn finish(self) -> (r: (Result<(), SendError>, Vec<NodeAddr>))
        ensures
            r.0 is Ok <==> self.successes == self.delivery_group_size,
            r.1@ == self.failed@,
    {
        if self.successes == self.delivery_group_size {
            (Ok(()), self.failed)
        } else {
            (Err(SendError), self.failed)
        }
    }
}

/// A bounded cache of peers the shell holds connections to, evicting the
/// least recently used entry when full. The shell stores the real connection
/// handles beside it, keyed the same way.
#[derive(Clone, Debug, PartialEq, Eq)]
pub struct ConnCache {
    /// The cached peers, most recently used last.
    pub entries: Vec<NodeAddr>,
    /// The most entries the cache may hold.
    pub capacity: usize,
}

impl ConnCache {
    /// The cache never exceeds its capacity and holds no peer twice.
    pub open spec fn wf(&self) -> bool {
        &&& self.entries@.len() <= self.capacity
        &&& forall|i: int, j: int| 0 <= i < j < self.entries@.len()
            ==> #[trigger] self.entries@[i] != #[trigger] self.entries@[j]
    }

    /// An empty cache of the given capacity.
    pub fn new(capacity: usize) -> (r: ConnCache)
        requires
            capacity >= 1,
        ensures
            r.wf(),
            r.capacity == capacity,
            r.entries@.len() == 0,
    {
        ConnCache { entries: Vec::new(), capacity }
    }

    /// The position of a cached peer.
    fn find(&self, addr: &NodeAddr) -> (r: Option<usize>)
        ensures
            r matches Some(i) ==> i < self.entries@.len() && self.entries@[i as int] == *addr,
            r is None ==> forall|i: int| 0 <= i < self.entries@.len()
                ==> #[trigger] self.entries@[i] != *addr,
    {
        let mut i: usize = 0;
        while i < self.entries.len()
            invariant
                i <= self.entries@.len(),
                forall|j: int| 0 <= j < i ==> #[trigger] self.entries@[j] != *addr,
            decreases self.entries@.len() - i,
        {
            if self.entries[i].equals(addr) {
                return Option::Some(i);
            }
            i = i + 1;
        }
        Option::None
    }

    /// Whether the peer is cached.
    pub fn contains(&self, addr: &NodeAddr) -> (r: bool)
        ensures
            r == self.entries@.contains(*addr),
    {
        let found = self.find(addr);
        proof {
            if found is None {
                assert(forall|i: int| 0 <= i < self.entries@.len()
                    ==> self.entries@[i] != *addr);
            }
        }
        match found {
            Option::Some(i) => {
                proof {
                    assert(self.entries@[i as int] == *addr);
                }
                true
            },
            Option::None => false,
        }
    }

    /// Marks the peer as used: it moves to the most-recent end, evicting the
    /// least recently used entry when a new peer overflows the cache.
    /// Returns the evicted peer, if any.
    pub fn touch(&mut self, addr: NodeAddr) -> (r: Option<NodeAddr>)
        requires
            old(self).wf(),
            old(self).capacity >= 1,
        ensures
            final(self).wf(),
            final(self).capacity == old(self).capacity,
            final(self).entries@.len() >= 1,
            final(self).entries@.last() == addr,
            r matches Some(evicted) ==> old(self).entries@.len() == old(self).capacity
                && !old(self).entries@.contains(addr)
                && evicted == old(self).entries@[0],
            r is None ==> (old(self).entries@.contains(addr)
                || old(self).entries@.len() < old(self).capacity),
    {
        let found = self.find(&addr);
        match found {
            Option::Some(i) => {
                proof {
                    assert(self.entries@.contains(addr)) by {
                        assert(self.entries@[i as int] == addr);
                    }
                }
                let a = self.entries.remove(i);
                self.entries.push(a);
                proof {
                    lemma_remove_push_unique(old(self).entries@, i as int);
                }
                Option::None
            },
            Option::None => {
                if self.entries.len() == self.capacity {
                    let evicted = self.entries.remove(0);
                    self.entries.push(addr);
                    proof {
                        assert forall|x: int, y: int| 0 <= x < y < self.entries@.len()
                            implies #[trigger] self.entries@[x] != #[trigger] self.entries@[y] by {
                            if y < self.entries@.len() - 1 {
                                assert(self.entries@[x] == old(self).entries@[x + 1]);
                                assert(self.entries@[y] == old(self).entries@[y + 1]);
                            } else {
                                assert(self.entries@[x] == old(self).entries@[x + 1]);
                                assert(old(self).entries@[x + 1] != addr);
                            }
                        };
                    }
                    Option::Some(evicted)
                } else {
                    self.entries.push(addr);
                    proof {
                        assert forall|x: int, y: int| 0 <= x < y < self.entries@.len()
                            implies #[trigger] self.entries@[x] != #[trigger] self.entries@[y] by {
                            if y == self.entries@.len() - 1 {
                                assert(old(self).entries@[x] != addr);
                            }
                        };
                    }
                    Option::None
                }
            },
        }
    }

    /// Drops the peer from the cache, as after a failed send.
    pub fn evict(&mut self, addr: &NodeAddr)
        requires
            old(self).wf(),
        ensures
            final(self).wf(),
            final(self).capacity == old(self).capacity,
            !final(self).entries@.contains(*addr),
            forall|a: NodeAddr| final(self).entries@.contains(a)
                ==> old(self).entries@.contains(a),
    {
        let found = self.find(addr);
        match found {
            Option::Some(i) => {
                let _ = self.entries.remove(i);
                proof {
                    assert forall|x: int, y: int| 0 <= x < y < self.entries@.len()
                        implies #[trigger] self.entries@[x] != #[trigger] self.entries@[y] by {
                        let x0: int = if x < i { x } else { x + 1 };
                        let y0: int = if y < i { y } else { y + 1 };
                        assert(self.entries@[x] == old(self).entries@[x0]);
                        assert(self.entries@[y] == old(self).entries@[y0]);
                    };
                    assert forall|j: int| 0 <= j < self.entries@.len()
                        implies #[trigger] self.entries@[j] != *addr by {
                        let j0: int = if j < i { j } else { j + 1 };
                        assert(self.entries@[j] == old(self).entries@[j0]);
                        assert(old(self).entries@[i as int] == *addr);
                    };
                    assert forall|a: NodeAddr| self.entries@.contains(a)
                        implies old(self).entries@.contains(a) by {
                        let j = choose|j: int| 0 <= j < self.entries@.len()
                            && self.entries@[j] == a;
                        let j0: int = if j < i { j } else { j + 1 };
                        assert(old(self).entries@[j0] == a);
                    };
                }
            },
            Option::None => {
                proof {
                    assert forall|a: NodeAddr| self.entries@.contains(a)
                        implies old(self).entries@.contains(a) by {
                    };
                    if self.entries@.contains(*addr) {
                        let j = choose|j: int| 0 <= j < self.entries@.len()
                            && self.entries@[j] == *addr;
                    }
                }
            },
        }
    }
}

/// Removing an element of a duplicate-free list and pushing it at the end
/// keeps the list duplicate-free.
proof fn lemma_remove_push_unique(s: Seq<NodeAddr>, i: int)
    requires
        0 <= i < s.len(),
        forall|x: int, y: int| 0 <= x < y < s.len()
            ==> #[trigger] s[x] != #[trigger] s[y],
    ensures
        forall|x: int, y: int| 0 <= x < y < s.remove(i).push(s[i]).len()
            ==> #[trigger] s.remove(i).push(s[i])[x] != #[trigger] s.remove(i).push(s[i])[y],
{
    let t = s.remove(i).push(s[i]);
    assert forall|x: int, y: int| 0 <= x < y < t.len()
        implies #[trigger] t[x] != #[trigger] t[y] by {
        let x0: int = if x < i { x } else { x + 1 };
        if y < t.len() - 1 {
            let y0: int = if y < i { y } else { y + 1 };
            assert(t[x] == s[x0]);
            assert(t[y] == s[y0]);
        } else {
            assert(t[x] == s[x0]);
            assert(t[y] == s[i]);
        }
    };
}

} // verus!
