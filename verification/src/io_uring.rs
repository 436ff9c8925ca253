//! The ring model: a bounded submission queue, the set of operations in
//! flight, a completion queue drained one record at a time, and the tag arena
//! that owns the metadata attached to each operation.
//!
//! The kernel side (the syscalls that execute submitted operations) stays
//! outside this library; `complete` is the seam through which that collaborator
//! reports one finished operation back into the completion queue.

use vstd::prelude::*;

use crate::events::{spec_is_multishot, Event};
use crate::tags::{arena_full, decode_rest, decode_result, tag_live, tag_slot, TagArena, TagSlot};

verus! {

/// The logical state a connection tag records: which step of the
/// accept/read/write/close protocol the tagged operation belongs to.
#[derive(Clone, Copy, Debug, PartialEq, Eq, Structural)]
pub enum ConnType {
    Accept,
    Read,
    Write,
    Close,
}

/// The connection tag attached to an in-flight operation: the socket it
/// belongs to and its logical state.
#[derive(Clone, Copy, Debug, PartialEq, Eq, Structural)]
pub struct ConnInfo {
    pub fd: i32,
    pub conn_type: ConnType,
}

/// One completion record: the tag handle the operation carried (`0` for an
/// untagged operation) and the result code. A negative result encodes an
/// OS-style error; a non-negative result is operation-specific (bytes
/// transferred, a new socket, ...).
#[derive(Clone, Copy, Debug, PartialEq, Eq, Structural)]
pub struct Completion {
    pub user_data: u64,
    pub res: i32,
}

/// One submission slot: the encoded operation and its tag handle
/// (`0` when untagged).
#[derive(Clone, Copy, Debug, PartialEq, Eq, Structural)]
pub struct SqEntry {
    pub op: Event,
    pub user_data: u64,
}

/// The errors the ring surfaces to its callers. `Busy` is the back-pressure
/// signal: the submission queue (or, in principle, the tag arena) is full and
/// the caller should yield to the next loop iteration and retry.
#[derive(Clone, Copy, Debug, PartialEq, Eq, Structural)]
pub enum RingError {
    Busy,
}

/// The ring: bounded submission queue, in-flight set, completion queue, the
/// tag arena, the pending-submission counter, and the completions handed out
/// by `wait_cqe` but not yet acknowledged.
pub struct IoUring {
    entries: usize,
    sq: Vec<SqEntry>,
    in_flight: Vec<SqEntry>,
    cq: Vec<Completion>,
    tags: TagArena,
    submissions: u64,
    unacked: Vec<Completion>,
}

impl IoUring {
    /// Capacity of the submission queue.
    pub closed spec fn spec_capacity(self) -> usize {
        self.entries
    }

    /// Slots primed but not yet flushed, in priming order.
    pub closed spec fn spec_pending(self) -> Seq<SqEntry> {
        self.sq@
    }

    /// Operations flushed to the kernel collaborator and not yet completed.
    pub closed spec fn spec_in_flight(self) -> Seq<SqEntry> {
        self.in_flight@
    }

    /// Completion records awaiting `wait_cqe`, in arrival order.
    pub closed spec fn spec_cq(self) -> Seq<Completion> {
        self.cq@
    }

    /// The tag arena's slot states.
    pub closed spec fn spec_tags(self) -> Seq<TagSlot> {
        self.tags.view()
    }

    /// The pending-submission counter; reset only by a flush.
    pub closed spec fn spec_submissions(self) -> u64 {
        self.submissions
    }

    /// Completions handed out by `wait_cqe` and not yet acknowledged.
    pub closed spec fn spec_unacked(self) -> Seq<Completion> {
        self.unacked@
    }

    /// Well-formedness: the queue respects its bound, the counter matches the
    /// primed slots, and the arena can still be grown.
    pub closed spec fn wf(self) -> bool {
        &&& self.sq.len() <= self.entries
        &&& self.submissions == self.sq.len()
        &&& self.tags.wf()
    }

    /// A fresh ring with an empty submission queue of capacity `entries`.
    pub fn new(entries: u32) -> (r: IoUring)
        ensures
            r.wf(),
            r.spec_capacity() == entries as usize,
            r.spec_pending() =~= Seq::<SqEntry>::empty(),
            r.spec_in_flight() =~= Seq::<SqEntry>::empty(),
            r.spec_cq() =~= Seq::<Completion>::empty(),
            r.spec_tags() =~= Seq::<TagSlot>::empty(),
            r.spec_unacked() =~= Seq::<Completion>::empty(),
            r.spec_submissions() == 0,
    {
        IoUring {
            entries: entries as usize,
            sq: Vec::new(),
            in_flight: Vec::new(),
            cq: Vec::new(),
            tags: TagArena::new(),
            submissions: 0,
            unacked: Vec::new(),
        }
    }

    /// Number of primed, unflushed submission slots.
    pub fn pending_len(&self) -> (r: usize)
        ensures
            r == self.spec_pending().len(),
    {
        self.sq.len()
    }

    /// Number of operations in flight.
    pub fn in_flight_len(&self) -> (r: usize)
        ensures
            r == self.spec_in_flight().len(),
    {
        self.in_flight.len()
    }

    /// The in-flight operation at position `i`.
    pub fn in_flight_entry(&self, i: usize) -> (r: SqEntry)
        requires
            i < self.spec_in_flight().len(),
        ensures
            r == self.spec_in_flight()[i as int],
    {
        self.in_flight[i]
    }

    /// The primed submission slot at position `i`.
    pub fn pending_entry(&self, i: usize) -> (r: SqEntry)
        requires
            i < self.spec_pending().len(),
        ensures
            r == self.spec_pending()[i as int],
    {
        self.sq[i]
    }

    /// Number of completion records waiting to be reaped.
    pub fn cq_len(&self) -> (r: usize)
        ensures
            r == self.spec_cq().len(),
    {
        self.cq.len()
    }

    /// Number of reaped completions not yet acknowledged.
    pub fn unacked_len(&self) -> (r: usize)
        ensures
            r == self.spec_unacked().len(),
    {
        self.unacked.len()
    }

    /// The submission queue's capacity.
    pub fn capacity(&self) -> (r: usize)
        ensures
            r == self.spec_capacity(),
    {
        self.entries
    }

    /// Acquire a submission slot: primes a fresh no-op slot and returns its
    /// index, or nothing — the `Busy` back-pressure signal — when the queue
    /// is full. The queue only drains on a flush, so a refused caller must
    /// yield and retry later rather than spin.
    pub fn get_sqe(&mut self) -> (r: Option<usize>)
        requires
            old(self).wf(),
        ensures
            final(self).wf(),
            final(self).spec_capacity() == old(self).spec_capacity(),
            final(self).spec_in_flight() == old(self).spec_in_flight(),
            final(self).spec_cq() == old(self).spec_cq(),
            final(self).spec_tags() == old(self).spec_tags(),
            final(self).spec_unacked() == old(self).spec_unacked(),
            if old(self).spec_pending().len() < old(self).spec_capacity() {
                &&& r == Some(old(self).spec_pending().len() as usize)
                &&& final(self).spec_pending() == old(self).spec_pending().push(
                    (SqEntry { op: Event::Nop, user_data: 0 }),
                )
                &&& final(self).spec_submissions() == old(self).spec_submissions() + 1
            } else {
                &&& r is None
                &&& final(self).spec_pending() == old(self).spec_pending()
                &&& final(self).spec_submissions() == old(self).spec_submissions()
            },
    {
        if self.sq.len() < self.entries {
            let idx = self.sq.len();
            self.sq.push(SqEntry { op: Event::Nop, user_data: 0 });
            self.submissions = self.submissions + 1;
            Some(idx)
        } else {
            None
        }
    }

    /// Write one operation's encoding into a primed slot. Pure translation:
    /// nothing changes but the slot's contents; the slot's tag is kept.
    pub fn encode(&mut self, slot: usize, op: Event)
        requires
            old(self).wf(),
            slot < old(self).spec_pending().len(),
        ensures
            final(self).wf(),
            final(self).spec_pending() == old(self).spec_pending().update(
                slot as int,
                (SqEntry { op, user_data: old(self).spec_pending()[slot as int].user_data }),
            ),
            final(self).spec_capacity() == old(self).spec_capacity(),
            final(self).spec_in_flight() == old(self).spec_in_flight(),
            final(self).spec_cq() == old(self).spec_cq(),
            final(self).spec_tags() == old(self).spec_tags(),
            final(self).spec_unacked() == old(self).spec_unacked(),
            final(self).spec_submissions() == old(self).spec_submissions(),
    {
        let tag = self.sq[slot].user_data;
        self.sq[slot] = SqEntry { op, user_data: tag };
    }

    /// Allocate a connection tag and bind it to a primed slot, so the tag is
    /// recoverable from the matching completion. The tag is persistent
    /// exactly when the slot holds a multishot operation. Returns false —
    /// leaving everything unchanged — only if the arena is full.
    pub fn set_sqe_data(&mut self, slot: usize, conn_info: ConnInfo) -> (r: bool)
        requires
            old(self).wf(),
            slot < old(self).spec_pending().len(),
        ensures
            final(self).wf(),
            final(self).spec_capacity() == old(self).spec_capacity(),
            final(self).spec_in_flight() == old(self).spec_in_flight(),
            final(self).spec_cq() == old(self).spec_cq(),
            final(self).spec_unacked() == old(self).spec_unacked(),
            final(self).spec_submissions() == old(self).spec_submissions(),
            if r {
                let h = final(self).spec_pending()[slot as int].user_data;
                &&& h != 0
                &&& !arena_full(old(self).spec_tags())
                &&& !tag_live(old(self).spec_tags(), h)
                &&& tag_slot(final(self).spec_tags(), h) == (TagSlot::Live {
                    info: conn_info,
                    persistent: spec_is_multishot(old(self).spec_pending()[slot as int].op),
                })
                &&& forall|g: u64|
                    g != h ==> tag_slot(final(self).spec_tags(), g) == tag_slot(
                        old(self).spec_tags(),
                        g,
                    )
                &&& final(self).spec_pending() == old(self).spec_pending().update(
                    slot as int,
                    (SqEntry { op: old(self).spec_pending()[slot as int].op, user_data: h }),
                )
            } else {
                &&& arena_full(old(self).spec_tags())
                &&& final(self).spec_tags() == old(self).spec_tags()
                &&& final(self).spec_pending() == old(self).spec_pending()
            },
    {
        let persistent = crate::events::is_multishot(&self.sq[slot].op);
        match self.tags.allocate(conn_info, persistent) {
            Some(h) => {
                let op = self.sq[slot].op;
                self.sq[slot] = SqEntry { op, user_data: h };
                true
            },
            None => false,
        }
    }

    /// Flush all primed slots to the kernel collaborator in one batch,
    /// returning how many were submitted, and reset the pending-submission
    /// counter. With zero pending operations this is a documented no-op
    /// returning `0`, not an error.
    pub fn submit(&mut self) -> (count: usize)
        requires
            old(self).wf(),
        ensures
            final(self).wf(),
            count == old(self).spec_pending().len(),
            final(self).spec_pending() =~= Seq::<SqEntry>::empty(),
            final(self).spec_submissions() == 0,
            final(self).spec_in_flight() == old(self).spec_in_flight() + old(
                self,
            ).spec_pending(),
            final(self).spec_capacity() == old(self).spec_capacity(),
            final(self).spec_cq() == old(self).spec_cq(),
            final(self).spec_tags() == old(self).spec_tags(),
            final(self).spec_unacked() == old(self).spec_unacked(),
    {
        let count = self.sq.len();
        let mut i: usize = 0;
        while i < count
            invariant
                count == self.sq.len(),
                i <= count,
                self.sq@ == old(self).sq@,
                self.in_flight@ == old(self).in_flight@ + self.sq@.subrange(0, i as int),
                self.cq@ == old(self).cq@,
                self.tags == old(self).tags,
                self.unacked@ == old(self).unacked@,
                self.entries == old(self).entries,
                self.submissions == old(self).submissions,
            decreases count - i,
        {
            let e = self.sq[i];
            self.in_flight.push(e);
            i = i + 1;
            proof {
                assert(self.in_flight@ =~= old(self).in_flight@ + self.sq@.subrange(
                    0,
                    i as int,
                ));
            }
        }
        self.sq.clear();
        self.submissions = 0;
        proof {
            assert(old(self).sq@.subrange(0, count as int) =~= old(self).sq@);
        }
        count
    }

    /// The kernel collaborator's report that the in-flight operation at
    /// position `idx` finished with result `res`: a completion carrying that
    /// operation's tag handle joins the completion queue. A one-shot
    /// operation leaves the in-flight set; a multishot operation stays armed
    /// and will complete again. Completions may be reported in any order, so
    /// `idx` is the caller's choice.
    pub fn complete(&mut self, idx: usize, res: i32)
        requires
            old(self).wf(),
            idx < old(self).spec_in_flight().len(),
        ensures
            final(self).wf(),
            final(self).spec_cq() == old(self).spec_cq().push(
                (Completion { user_data: old(self).spec_in_flight()[idx as int].user_data, res }),
            ),
            final(self).spec_in_flight() == if spec_is_multishot(
                old(self).spec_in_flight()[idx as int].op,
            ) {
                old(self).spec_in_flight()
            } else {
                old(self).spec_in_flight().remove(idx as int)
            },
            final(self).spec_pending() == old(self).spec_pending(),
            final(self).spec_capacity() == old(self).spec_capacity(),
            final(self).spec_tags() == old(self).spec_tags(),
            final(self).spec_unacked() == old(self).spec_unacked(),
            final(self).spec_submissions() == old(self).spec_submissions(),
    {
        let entry = self.in_flight[idx];
        self.cq.push(Completion { user_data: entry.user_data, res });
        if !crate::events::is_multishot(&entry.op) {
            self.in_flight.remove(idx);
        }
    }

    /// Reap the oldest completion, if one is available, and record that it
    /// now awaits acknowledgement. Completions are handed out one at a time
    /// in arrival order.
    pub fn wait_cqe(&mut self) -> (r: Option<Completion>)
        requires
            old(self).wf(),
        ensures
            final(self).wf(),
            final(self).spec_pending() == old(self).spec_pending(),
            final(self).spec_in_flight() == old(self).spec_in_flight(),
            final(self).spec_capacity() == old(self).spec_capacity(),
            final(self).spec_tags() == old(self).spec_tags(),
            final(self).spec_submissions() == old(self).spec_submissions(),
            if old(self).spec_cq().len() > 0 {
                &&& r == Some(old(self).spec_cq()[0])
                &&& final(self).spec_cq() == old(self).spec_cq().subrange(
                    1,
                    old(self).spec_cq().len() as int,
                )
                &&& final(self).spec_unacked() == old(self).spec_unacked().push(
                    old(self).spec_cq()[0],
                )
            } else {
                &&& r is None
                &&& final(self).spec_cq() == old(self).spec_cq()
                &&& final(self).spec_unacked() == old(self).spec_unacked()
            },
    {
        if self.cq.len() > 0 {
            let c = self.cq.remove(0);
            self.unacked.push(c);
            proof {
                assert(self.cq@ =~= old(self).cq@.subrange(1, old(self).cq@.len() as int));
            }
            Some(c)
        } else {
            None
        }
    }

    /// Acknowledge the oldest unacknowledged completion, permitting its queue
    /// space to be reused. Each reaped completion must be acknowledged
    /// exactly once; returns false — changing nothing — when no completion
    /// awaits acknowledgement.
    pub fn set_cqe_seen(&mut self) -> (r: bool)
        requires
            old(self).wf(),
        ensures
            final(self).wf(),
            final(self).spec_pending() == old(self).spec_pending(),
            final(self).spec_in_flight() == old(self).spec_in_flight(),
            final(self).spec_cq() == old(self).spec_cq(),
            final(self).spec_capacity() == old(self).spec_capacity(),
            final(self).spec_tags() == old(self).spec_tags(),
            final(self).spec_submissions() == old(self).spec_submissions(),
            r == (old(self).spec_unacked().len() > 0),
            if old(self).spec_unacked().len() > 0 {
                final(self).spec_unacked() == old(self).spec_unacked().subrange(
                    1,
                    old(self).spec_unacked().len() as int,
                )
            } else {
                final(self).spec_unacked() == old(self).spec_unacked()
            },
    {
        if self.unacked.len() > 0 {
            self.unacked.remove(0);
            proof {
                assert(self.unacked@ =~= old(self).unacked@.subrange(
                    1,
                    old(self).unacked@.len() as int,
                ));
            }
            true
        } else {
            false
        }
    }

    /// Discard the most recently primed slot: the event-submission helpers
    /// use this to withdraw a slot whose tag could not be allocated, so a
    /// refused submission leaves the ring exactly as it was.
    pub(crate) fn rollback_slot(&mut self)
        requires
            old(self).wf(),
            old(self).spec_pending().len() > 0,
        ensures
            final(self).wf(),
            final(self).spec_pending() == old(self).spec_pending().drop_last(),
            final(self).spec_submissions() == old(self).spec_submissions() - 1,
            final(self).spec_capacity() == old(self).spec_capacity(),
            final(self).spec_in_flight() == old(self).spec_in_flight(),
            final(self).spec_cq() == old(self).spec_cq(),
            final(self).spec_tags() == old(self).spec_tags(),
            final(self).spec_unacked() == old(self).spec_unacked(),
    {
        self.sq.pop();
        self.submissions = self.submissions - 1;
        proof {
            assert(self.sq@ =~= old(self).sq@.drop_last());
        }
    }

    /// Decode the tag a completion carried: a copy of the tag's contents for
    /// a live handle (freeing a one-shot tag's slot in the same step), and
    /// nothing for the null sentinel or a dead handle.
    pub fn decode_tag(&mut self, user_data: u64) -> (r: Option<ConnInfo>)
        requires
            old(self).wf(),
        ensures
            final(self).wf(),
            r == decode_result(old(self).spec_tags(), user_data),
            final(self).spec_tags() == decode_rest(old(self).spec_tags(), user_data),
            final(self).spec_pending() == old(self).spec_pending(),
            final(self).spec_in_flight() == old(self).spec_in_flight(),
            final(self).spec_cq() == old(self).spec_cq(),
            final(self).spec_capacity() == old(self).spec_capacity(),
            final(self).spec_unacked() == old(self).spec_unacked(),
            final(self).spec_submissions() == old(self).spec_submissions(),
    {
        self.tags.decode(user_data)
    }
}

} // verus!
