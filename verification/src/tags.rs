//! The arena that owns connection tags for in-flight operations.
//!
//! A tag is attached to an operation at submission time and recovered when the
//! matching completion arrives. Instead of a raw heap pointer smuggled through
//! the ring as an integer, the arena keeps every tag in a slot and hands out a
//! stable non-zero integer handle; handle `0` is the null sentinel meaning "no
//! associated connection". Decoding a one-shot tag returns a copy of its
//! contents and frees the slot in the same step, so the allocation behind a
//! handle can neither leak nor be consumed twice. A tag marked persistent
//! belongs to a standing (multishot) operation, whose completions all carry
//! the same handle: decoding it copies the contents and leaves the slot live.

use vstd::prelude::*;

use crate::io_uring::ConnInfo;

verus! {

/// Upper bound on arena slots; keeps handles well inside `u64`.
pub const MAX_TAGS: usize = 0x4000_0000;

/// One arena slot: free, or holding a live tag.
#[derive(Clone, Copy, Debug, PartialEq, Eq, Structural)]
pub enum TagSlot {
    Free,
    Live { info: ConnInfo, persistent: bool },
}

/// The slot a handle refers to; out-of-range handles (including the null
/// sentinel `0`) refer to no slot and read as `Free`.
pub open spec fn tag_slot(s: Seq<TagSlot>, h: u64) -> TagSlot {
    if 1 <= h && h <= s.len() {
        s[h as int - 1]
    } else {
        TagSlot::Free
    }
}

/// Whether `h` names a live tag in `s`.
pub open spec fn tag_live(s: Seq<TagSlot>, h: u64) -> bool {
    tag_slot(s, h) is Live
}

/// Whether `h` names a live tag of a standing (multishot) operation.
pub open spec fn tag_persistent(s: Seq<TagSlot>, h: u64) -> bool {
    tag_slot(s, h) matches TagSlot::Live { persistent: true, .. }
}

/// What decoding handle `h` in state `s` returns: the tag's contents if the
/// handle is live, nothing otherwise.
pub open spec fn decode_result(s: Seq<TagSlot>, h: u64) -> Option<ConnInfo> {
    match tag_slot(s, h) {
        TagSlot::Live { info, .. } => Some(info),
        TagSlot::Free => None,
    }
}

/// The arena state after decoding handle `h`: a live one-shot tag is freed;
/// a persistent tag, a dead handle and the null sentinel leave `s` unchanged.
pub open spec fn decode_rest(s: Seq<TagSlot>, h: u64) -> Seq<TagSlot> {
    if tag_live(s, h) && !tag_persistent(s, h) {
        s.update(h as int - 1, TagSlot::Free)
    } else {
        s
    }
}

/// No slot is free and no slot can be added.
pub open spec fn arena_full(s: Seq<TagSlot>) -> bool {
    s.len() >= MAX_TAGS && (forall|i: int| 0 <= i < s.len() ==> s[i] is Live)
}

/// Law: a live one-shot tag is decoded exactly once and freed exactly once.
/// The first decode yields the tag's contents and frees its slot; a second
/// decode of the same handle yields nothing and frees nothing, and no other
/// handle's slot is touched.
pub proof fn lemma_tag_decoded_exactly_once(s: Seq<TagSlot>, h: u64)
    requires
        tag_live(s, h),
        !tag_persistent(s, h),
    ensures
        decode_result(s, h) is Some,
        decode_result(decode_rest(s, h), h) is None,
        decode_rest(decode_rest(s, h), h) == decode_rest(s, h),
        forall|g: u64| g != h ==> tag_slot(decode_rest(s, h), g) == tag_slot(s, g),
{
}

/// Owns the tag slots. Freed slots are reused by later allocations.
pub struct TagArena {
    slots: Vec<TagSlot>,
}

impl TagArena {
    /// The current slot states, in handle order (`handle == index + 1`).
    pub closed spec fn view(self) -> Seq<TagSlot> {
        self.slots@
    }

    /// The arena never outgrows `MAX_TAGS` slots.
    pub closed spec fn wf(self) -> bool {
        self.slots@.len() <= MAX_TAGS
    }

    /// An empty arena: every handle is dead.
    pub fn new() -> (r: TagArena)
        ensures
            r.wf(),
            r.view() =~= Seq::<TagSlot>::empty(),
    {
        TagArena { slots: Vec::new() }
    }

    /// Allocate a slot for `info`, returning its non-zero handle; reuses a
    /// freed slot when one exists, else grows the arena. Fails only when
    /// every slot is live and the arena is at capacity.
    pub fn allocate(&mut self, info: ConnInfo, persistent: bool) -> (r: Option<u64>)
        requires
            old(self).wf(),
        ensures
            final(self).wf(),
            match r {
                Some(h) => {
                    &&& h != 0
                    &&& !arena_full(old(self).view())
                    &&& !tag_live(old(self).view(), h)
                    &&& tag_slot(final(self).view(), h) == (TagSlot::Live { info, persistent })
                    &&& forall|g: u64|
                        g != h ==> tag_slot(final(self).view(), g) == tag_slot(
                            old(self).view(),
                            g,
                        )
                },
                None => final(self).view() == old(self).view() && arena_full(old(self).view()),
            },
    {
        let n = self.slots.len();
        let mut i: usize = 0;
        while i < n
            invariant
                n == self.slots.len(),
                i <= n,
                old(self).wf(),
                self.slots@ == old(self).slots@,
                forall|j: int| 0 <= j < i ==> self.slots@[j] is Live,
            decreases n - i,
        {
            match self.slots[i] {
                TagSlot::Free => {
                    self.slots[i] = TagSlot::Live { info, persistent };
                    let h: u64 = (i as u64) + 1;
                    return Some(h);
                },
                TagSlot::Live { .. } => {
                    i = i + 1;
                },
            }
        }
        if n < MAX_TAGS {
            self.slots.push(TagSlot::Live { info, persistent });
            let h: u64 = (n as u64) + 1;
            assert(forall|g: u64|
                g != h ==> tag_slot(self.slots@, g) == tag_slot(old(self).view(), g));
            Some(h)
        } else {
            None
        }
    }

    /// Decode handle `h`: return a copy of the tag it names, freeing the slot
    /// unless the tag is persistent. The null sentinel and dead handles
    /// return nothing and change nothing.
    pub fn decode(&mut self, h: u64) -> (r: Option<ConnInfo>)
        ensures
            r == decode_result(old(self).view(), h),
            final(self).view() == decode_rest(old(self).view(), h),
            final(self).wf() == old(self).wf(),
    {
        if h == 0 {
            return None;
        }
        let idx_wide: u64 = h - 1;
        if idx_wide >= self.slots.len() as u64 {
            return None;
        }
        let idx: usize = idx_wide as usize;
        match self.slots[idx] {
            TagSlot::Live { info, persistent } => {
                if !persistent {
                    self.slots[idx] = TagSlot::Free;
                }
                proof {
                    assert(self.slots@ =~= decode_rest(old(self).view(), h));
                }
                Some(info)
            },
            TagSlot::Free => None,
        }
    }
}

} // verus!
