//! The operation descriptors a caller can submit to the ring: accept (one-shot
//! and multishot), read, send, multishot poll, close, and a no-op spacer.
//! Descriptors are plain data; buffers are owned per connection and addressed
//! by socket identifier, so no descriptor carries a raw memory address.

use vstd::prelude::*;

use crate::io_uring::{ConnInfo, ConnType, IoUring, RingError, SqEntry};
use crate::tags::{arena_full, tag_live, tag_slot, TagSlot};

verus! {

/// A standing accept request on a listening socket: once armed it yields one
/// completion per incoming connection without re-submission.
#[derive(Clone, Copy, Debug, PartialEq, Eq, Structural)]
pub struct MultishotAcceptEvent {
    pub listener: i32,
    pub flags: i32,
}

/// Accept a single connection on a listening socket.
#[derive(Clone, Copy, Debug, PartialEq, Eq, Structural)]
pub struct AcceptEvent {
    pub socket: i32,
    pub flags: i32,
}

/// Read up to `length` bytes from a socket into its connection buffer.
#[derive(Clone, Copy, Debug, PartialEq, Eq, Structural)]
pub struct ReadEvent {
    pub socket: i32,
    pub length: usize,
}

/// A standing poll request: one completion per readiness event.
#[derive(Clone, Copy, Debug, PartialEq, Eq, Structural)]
pub struct PollAddEvent {
    pub fd: i32,
    pub events: i16,
}

/// Send the first `length` bytes of a socket's connection buffer.
#[derive(Clone, Copy, Debug, PartialEq, Eq, Structural)]
pub struct SendEvent {
    pub socket: i32,
    pub length: usize,
    pub flags: u32,
}

/// Close a socket.
#[derive(Clone, Copy, Debug, PartialEq, Eq, Structural)]
pub struct CloseEvent {
    pub socket: i32,
}

/// The closed set of operations the ring knows how to carry.
#[derive(Clone, Copy, Debug, PartialEq, Eq, Structural)]
pub enum Event {
    /// Multishot Accept: accept multiple connections from one armed request
    MultishotAccept(MultishotAcceptEvent),
    /// Accept: accept a single connection
    Accept(AcceptEvent),
    /// Read: read data from a socket
    Read(ReadEvent),
    /// Poll Add: watch a file descriptor for readiness, multishot
    PollMultishot(PollAddEvent),
    /// Send: send data to a socket
    Send(SendEvent),
    /// Close: close a socket
    Close(CloseEvent),
    /// Nop: a spacer that completes without doing anything
    Nop,
}

/// A multishot operation stays armed after each completion; a one-shot
/// operation leaves the ring when its single completion is delivered.
pub open spec fn spec_is_multishot(e: Event) -> bool {
    e is MultishotAccept || e is PollMultishot
}

/// Runtime test for the multishot operation modes.
pub fn is_multishot(e: &Event) -> (r: bool)
    ensures
        r == spec_is_multishot(*e),
{
    match e {
        Event::MultishotAccept(_) => true,
        Event::PollMultishot(_) => true,
        _ => false,
    }
}

impl IoUring {
    /// Prime one operation: acquire a slot, encode the event into it, and —
    /// when a connection tag is given — allocate the tag and bind it to the
    /// slot, so the matching completion can be decoded back to `conn_info`.
    /// The operation is only primed; a later flush submits the batch.
    ///
    /// Fails with the `Busy` back-pressure signal exactly when the submission
    /// queue is full, or a tag was asked for and the tag arena is full; a
    /// refused call leaves the ring unchanged.
    pub fn add_event(&mut self, event: Event, conn_info: Option<ConnInfo>) -> (r: Result<
        (),
        RingError,
    >)
        requires
            old(self).wf(),
        ensures
            final(self).wf(),
            final(self).spec_capacity() == old(self).spec_capacity(),
            final(self).spec_in_flight() == old(self).spec_in_flight(),
            final(self).spec_cq() == old(self).spec_cq(),
            final(self).spec_unacked() == old(self).spec_unacked(),
            r is Err <==> (old(self).spec_pending().len() >= old(self).spec_capacity() || (
            conn_info is Some && arena_full(old(self).spec_tags()))),
            match r {
                Ok(_) => ({
                    let h = final(self).spec_pending().last().user_data;
                    &&& final(self).spec_pending() == old(self).spec_pending().push(
                        (SqEntry { op: event, user_data: h }),
                    )
                    &&& final(self).spec_submissions() == old(self).spec_submissions() + 1
                    &&& match conn_info {
                        Some(ci) => {
                            &&& h != 0
                            &&& !tag_live(old(self).spec_tags(), h)
                            &&& tag_slot(final(self).spec_tags(), h) == (TagSlot::Live {
                                info: ci,
                                persistent: spec_is_multishot(event),
                            })
                            &&& forall|g: u64|
                                g != h ==> tag_slot(final(self).spec_tags(), g) == tag_slot(
                                    old(self).spec_tags(),
                                    g,
                                )
                        },
                        None => h == 0 && final(self).spec_tags() == old(self).spec_tags(),
                    }
                }),
                Err(e) => {
                    &&& e == RingError::Busy
                    &&& final(self).spec_pending() == old(self).spec_pending()
                    &&& final(self).spec_tags() == old(self).spec_tags()
                    &&& final(self).spec_submissions() == old(self).spec_submissions()
                },
            },
    {
        let slot = match self.get_sqe() {
            Some(s) => s,
            None => {
                return Err(RingError::Busy);
            },
        };
        self.encode(slot, event);
        match conn_info {
            Some(ci) => {
                if self.set_sqe_data(slot, ci) {
                    proof {
                        assert(self.spec_pending() =~= old(self).spec_pending().push(
                            (SqEntry {
                                op: event,
                                user_data: self.spec_pending().last().user_data,
                            }),
                        ));
                    }
                    Ok(())
                } else {
                    self.rollback_slot();
                    proof {
                        assert(self.spec_pending() =~= old(self).spec_pending());
                    }
                    Err(RingError::Busy)
                }
            },
            None => {
                proof {
                    assert(self.spec_pending() =~= old(self).spec_pending().push(
                        (SqEntry { op: event, user_data: 0 }),
                    ));
                }
                Ok(())
            },
        }
    }

    /// Arm a standing accept on the listening socket and flush the batch at
    /// once, as priming a listener should not wait for other traffic. The
    /// operation carries a persistent tag in state `Accept`, so every
    /// incoming connection's completion decodes to the listener's tag without
    /// re-arming.
    ///
    /// Fails with `Busy` — leaving the ring unchanged — exactly when the
    /// submission queue or the tag arena is full.
    pub fn add_multishot_accept(&mut self, event: MultishotAcceptEvent) -> (r: Result<
        (),
        RingError,
    >)
        requires
            old(self).wf(),
        ensures
            final(self).wf(),
            final(self).spec_capacity() == old(self).spec_capacity(),
            final(self).spec_cq() == old(self).spec_cq(),
            final(self).spec_unacked() == old(self).spec_unacked(),
            r is Err <==> (old(self).spec_pending().len() >= old(self).spec_capacity()
                || arena_full(old(self).spec_tags())),
            match r {
                Ok(_) => ({
                    let entry = final(self).spec_in_flight().last();
                    &&& final(self).spec_pending() =~= Seq::<SqEntry>::empty()
                    &&& final(self).spec_submissions() == 0
                    &&& final(self).spec_in_flight() == old(self).spec_in_flight() + old(
                        self,
                    ).spec_pending() + seq![entry]
                    &&& entry.op == Event::MultishotAccept(event)
                    &&& entry.user_data != 0
                    &&& tag_slot(final(self).spec_tags(), entry.user_data) == (TagSlot::Live {
                        info: (ConnInfo { fd: event.listener, conn_type: ConnType::Accept }),
                        persistent: true,
                    })
                    &&& forall|g: u64|
                        g != entry.user_data ==> tag_slot(final(self).spec_tags(), g) == tag_slot(
                            old(self).spec_tags(),
                            g,
                        )
                }),
                Err(e) => {
                    &&& e == RingError::Busy
                    &&& final(self).spec_pending() == old(self).spec_pending()
                    &&& final(self).spec_in_flight() == old(self).spec_in_flight()
                    &&& final(self).spec_tags() == old(self).spec_tags()
                    &&& final(self).spec_submissions() == old(self).spec_submissions()
                },
            },
    {
        let listener = event.listener;
        match self.add_event(
            Event::MultishotAccept(event),
            Some(ConnInfo { fd: listener, conn_type: ConnType::Accept }),
        ) {
            Ok(_) => {
                self.submit();
                Ok(())
            },
            Err(e) => Err(e),
        }
    }
}

} // verus!
