//! The reactor's decision logic: the per-connection state machine that, given
//! the just-completed operation's tag state and result, decides what to do
//! next, and the loop step that decodes a completion's tag, dispatches, and
//! acknowledges the completion on every path.
//!
//! Transition policy of the echo service, driven by the tag's logical state
//! and the completion result:
//! - `Accept` with a new socket (`result >= 0`): create a connection record
//!   and arm a read on the new socket.
//! - `Accept` with `result < 0`: drop the event; no connection is created.
//! - `Read` with `result > 0` bytes: echo them back with a send of exactly
//!   that length.
//! - `Read` with `result == 0`: the peer shut down — close, never read again.
//! - `Read` or `Write` with `result < 0`: close the connection.
//! - `Write` (a send finished) with `result >= 0`: clear the buffer and arm
//!   the next read.
//! - `Close`: the close completed — remove the connection record.

use vstd::prelude::*;

use crate::events::{CloseEvent, Event, ReadEvent, SendEvent};
use crate::io_uring::{Completion, ConnInfo, ConnType, IoUring, RingError, SqEntry};
use crate::table::{buf_of, has_fd, zero_buf, ConnTable, BUF_CAP};
use crate::tags::{arena_full, decode_rest, decode_result};
use crate::utils;

verus! {

/// What the state machine decides to do about one completion.
#[derive(Clone, Copy, Debug, PartialEq, Eq, Structural)]
pub enum Action {
    /// A new connection: create its record and arm the first read.
    OpenConn { fd: i32 },
    /// A failed accept: drop the event, create nothing.
    DropEvent,
    /// Echo the `len` bytes just read back to the peer.
    Echo { len: usize },
    /// Submit a close for the connection's socket.
    CloseConn,
    /// The send finished: clear the buffer and arm the next read.
    RearmRead,
    /// The close finished: remove the connection record.
    Teardown,
}

/// The transition table. An echo length is clamped to the buffer capacity:
/// payloads beyond it are truncated per read.
pub open spec fn spec_next_action(state: ConnType, res: i32) -> Action {
    match state {
        ConnType::Accept => if res >= 0 {
            Action::OpenConn { fd: res }
        } else {
            Action::DropEvent
        },
        ConnType::Read => if res > 0 {
            Action::Echo {
                len: if res as int > BUF_CAP as int {
                    BUF_CAP
                } else {
                    res as usize
                },
            }
        } else {
            Action::CloseConn
        },
        ConnType::Write => if res >= 0 {
            Action::RearmRead
        } else {
            Action::CloseConn
        },
        ConnType::Close => Action::Teardown,
    }
}

/// The operation that `a` submits for a connection on socket `fd`, if any.
pub open spec fn action_event(a: Action, fd: i32) -> Option<Event> {
    match a {
        Action::OpenConn { fd: nfd } => Some(
            Event::Read((ReadEvent { socket: nfd, length: BUF_CAP })),
        ),
        Action::Echo { len } => Some(Event::Send((SendEvent { socket: fd, length: len, flags: 0 }))),
        Action::RearmRead => Some(Event::Read((ReadEvent { socket: fd, length: BUF_CAP }))),
        Action::CloseConn => Some(Event::Close((CloseEvent { socket: fd }))),
        Action::DropEvent => None,
        Action::Teardown => None,
    }
}

/// The tag attached to the operation that `a` submits, if any: it names the
/// socket the next completion will belong to and the state it arrives in.
pub open spec fn action_tag(a: Action, fd: i32) -> Option<ConnInfo> {
    match a {
        Action::OpenConn { fd: nfd } => Some((ConnInfo { fd: nfd, conn_type: ConnType::Read })),
        Action::Echo { .. } => Some((ConnInfo { fd, conn_type: ConnType::Write })),
        Action::RearmRead => Some((ConnInfo { fd, conn_type: ConnType::Read })),
        Action::CloseConn => Some((ConnInfo { fd, conn_type: ConnType::Close })),
        Action::DropEvent => None,
        Action::Teardown => None,
    }
}

/// Decide the next step for a connection whose operation in state `state`
/// just completed with result `res`.
pub fn next_action(state: ConnType, res: i32) -> (r: Action)
    ensures
        r == spec_next_action(state, res),
{
    match state {
        ConnType::Accept => {
            if res >= 0 {
                Action::OpenConn { fd: res }
            } else {
                Action::DropEvent
            }
        },
        ConnType::Read => {
            if res > 0 {
                let len = res as usize;
                Action::Echo { len: if len > BUF_CAP {
                    BUF_CAP
                } else {
                    len
                } }
            } else {
                Action::CloseConn
            }
        },
        ConnType::Write => {
            if res >= 0 {
                Action::RearmRead
            } else {
                Action::CloseConn
            }
        },
        ConnType::Close => Action::Teardown,
    }
}

/// The effect one handled completion has on the connection table, reading
/// `prev` as the table before and `cur` as the table after: a new
/// connection's record appears zeroed, a re-armed read clears its buffer, a
/// finished close removes its record, and everything else leaves the table
/// alone. In every case, every other socket keeps its record and its bytes.
pub open spec fn table_effect(prev: Seq<crate::table::Connection>, cur: Seq<
    crate::table::Connection,
>, a: Action, fd: i32) -> bool {
    match a {
        Action::OpenConn { fd: nfd } => {
            &&& has_fd(cur, nfd)
            &&& buf_of(cur, nfd) == zero_buf()
            &&& forall|g: i32| g != nfd ==> has_fd(cur, g) == has_fd(prev, g)
            &&& forall|g: i32| g != nfd && has_fd(prev, g) ==> buf_of(cur, g) == buf_of(prev, g)
        },
        Action::RearmRead => {
            &&& forall|g: i32| has_fd(cur, g) == has_fd(prev, g)
            &&& has_fd(prev, fd) ==> buf_of(cur, fd) == zero_buf()
            &&& forall|g: i32| g != fd && has_fd(prev, g) ==> buf_of(cur, g) == buf_of(prev, g)
        },
        Action::Teardown => {
            &&& !has_fd(cur, fd)
            &&& forall|g: i32| g != fd ==> has_fd(cur, g) == has_fd(prev, g)
            &&& forall|g: i32| g != fd && has_fd(prev, g) ==> buf_of(cur, g) == buf_of(prev, g)
        },
        Action::Echo { .. } => cur == prev,
        Action::CloseConn => cur == prev,
        Action::DropEvent => cur == prev,
    }
}

/// Handle one reaped completion: decode its tag (exactly once — the decode
/// itself frees a one-shot tag's slot), run the state machine, prime the
/// resulting operation with a fresh tag, apply the table effect, and
/// acknowledge the completion — on every path, including an undecodable tag
/// and a refused submission, so the completion queue can never stall.
///
/// An untagged or stale completion (`None` from the decode) is acknowledged
/// and ignored, never an error. A `Busy` refusal means the submission queue
/// or the tag arena was full; the completion is still consumed and
/// acknowledged, and — echo correctness needing no stream-level recovery —
/// the connection's next operation is simply not primed.
pub fn handle_completion(ring: &mut IoUring, table: &mut ConnTable, comp: Completion) -> (r: Result<
    Option<Action>,
    RingError,
>)
    requires
        old(ring).wf(),
        old(table).wf(),
    ensures
        final(ring).wf(),
        final(table).wf(),
        final(ring).spec_capacity() == old(ring).spec_capacity(),
        final(ring).spec_in_flight() == old(ring).spec_in_flight(),
        final(ring).spec_cq() == old(ring).spec_cq(),
        final(ring).spec_unacked() == (if old(ring).spec_unacked().len() > 0 {
            old(ring).spec_unacked().subrange(1, old(ring).spec_unacked().len() as int)
        } else {
            old(ring).spec_unacked()
        }),
        ({
            let dec = decode_result(old(ring).spec_tags(), comp.user_data);
            match dec {
                None => {
                    &&& r == Ok::<Option<Action>, RingError>(None)
                    &&& final(ring).spec_pending() == old(ring).spec_pending()
                    &&& final(ring).spec_tags() == old(ring).spec_tags()
                    &&& final(table).view() == old(table).view()
                },
                Some(info) => {
                    let a = spec_next_action(info.conn_type, comp.res);
                    &&& (r is Err <==> (action_event(a, info.fd) is Some && (old(
                        ring,
                    ).spec_pending().len() >= old(ring).spec_capacity() || arena_full(
                        decode_rest(old(ring).spec_tags(), comp.user_data),
                    ))))
                    &&& match r {
                        Ok(ra) => {
                            &&& ra == Some(a)
                            &&& table_effect(old(table).view(), final(table).view(), a, info.fd)
                            &&& match action_event(a, info.fd) {
                                Some(ev) => ({
                                    let h = final(ring).spec_pending().last().user_data;
                                    &&& final(ring).spec_pending() == old(
                                        ring,
                                    ).spec_pending().push((SqEntry { op: ev, user_data: h }))
                                    &&& h != 0
                                    &&& decode_result(final(ring).spec_tags(), h) == action_tag(
                                        a,
                                        info.fd,
                                    )
                                }),
                                None => {
                                    &&& final(ring).spec_pending() == old(ring).spec_pending()
                                    &&& final(ring).spec_tags() == decode_rest(
                                        old(ring).spec_tags(),
                                        comp.user_data,
                                    )
                                },
                            }
                        },
                        Err(e) => {
                            &&& e == RingError::Busy
                            &&& final(ring).spec_pending() == old(ring).spec_pending()
                            &&& final(ring).spec_tags() == decode_rest(
                                old(ring).spec_tags(),
                                comp.user_data,
                            )
                            &&& final(table).view() == old(table).view()
                        },
                    }
                },
            }
        }),
{
    let info = match utils::get_conn_info(ring, comp.user_data) {
        Some(ci) => ci,
        None => {
            ring.set_cqe_seen();
            return Ok(None);
        },
    };
    let action = next_action(info.conn_type, comp.res);
    let result: Result<Option<Action>, RingError> = match action {
        Action::OpenConn { fd } => {
            match ring.add_event(
                Event::Read(ReadEvent { socket: fd, length: BUF_CAP }),
                Some(ConnInfo { fd, conn_type: ConnType::Read }),
            ) {
                Ok(_) => {
                    table.open_conn(fd);
                    Ok(Some(action))
                },
                Err(e) => Err(e),
            }
        },
        Action::Echo { len } => {
            match ring.add_event(
                Event::Send(SendEvent { socket: info.fd, length: len, flags: 0 }),
                Some(ConnInfo { fd: info.fd, conn_type: ConnType::Write }),
            ) {
                Ok(_) => Ok(Some(action)),
                Err(e) => Err(e),
            }
        },
        Action::RearmRead => {
            match ring.add_event(
                Event::Read(ReadEvent { socket: info.fd, length: BUF_CAP }),
                Some(ConnInfo { fd: info.fd, conn_type: ConnType::Read }),
            ) {
                Ok(_) => {
                    table.clear_buf(info.fd);
                    Ok(Some(action))
                },
                Err(e) => Err(e),
            }
        },
        Action::CloseConn => {
            match ring.add_event(
                Event::Close(CloseEvent { socket: info.fd }),
                Some(ConnInfo { fd: info.fd, conn_type: ConnType::Close }),
            ) {
                Ok(_) => Ok(Some(action)),
                Err(e) => Err(e),
            }
        },
        Action::Teardown => {
            table.remove_conn(info.fd);
            Ok(Some(action))
        },
        Action::DropEvent => Ok(Some(action)),
    };
    ring.set_cqe_seen();
    result
}

/// What one reactor step did.
#[derive(Clone, Copy, Debug, PartialEq, Eq, Structural)]
pub enum StepOutcome {
    /// No completion was available; only the pending batch was flushed.
    Idle,
    /// A completion without a decodable tag was acknowledged and ignored.
    Ignored,
    /// A completion was dispatched through the state machine.
    Acted(Action),
}

/// One iteration of the reactor loop: reap the oldest completion, decode its
/// tag and dispatch it through the state machine, acknowledge it, and flush
/// the batch of primed operations. The blocking wait and the execution of
/// the flushed operations belong to the kernel collaborator outside this
/// library; the caller alternates this step with that collaborator's work.
///
/// A `Busy` refusal (queue or arena full while priming the next operation)
/// still consumes and acknowledges the completion and still flushes.
pub fn reactor_step(ring: &mut IoUring, table: &mut ConnTable) -> (r: Result<
    StepOutcome,
    RingError,
>)
    requires
        old(ring).wf(),
        old(table).wf(),
    ensures
        final(ring).wf(),
        final(table).wf(),
        final(ring).spec_capacity() == old(ring).spec_capacity(),
        final(ring).spec_pending() =~= Seq::<SqEntry>::empty(),
        final(ring).spec_submissions() == 0,
        old(ring).spec_cq().len() == 0 ==> {
            &&& r == Ok::<StepOutcome, RingError>(StepOutcome::Idle)
            &&& final(ring).spec_in_flight() == old(ring).spec_in_flight() + old(
                ring,
            ).spec_pending()
            &&& final(ring).spec_cq() == old(ring).spec_cq()
            &&& final(ring).spec_tags() == old(ring).spec_tags()
            &&& final(ring).spec_unacked() == old(ring).spec_unacked()
            &&& final(table).view() == old(table).view()
        },
        old(ring).spec_cq().len() > 0 ==> ({
            let c = old(ring).spec_cq()[0];
            let dec = decode_result(old(ring).spec_tags(), c.user_data);
            &&& final(ring).spec_cq() == old(ring).spec_cq().subrange(
                1,
                old(ring).spec_cq().len() as int,
            )
            &&& final(ring).spec_unacked() == old(ring).spec_unacked().push(c).subrange(
                1,
                old(ring).spec_unacked().len() as int + 1,
            )
            &&& match dec {
                None => {
                    &&& r == Ok::<StepOutcome, RingError>(StepOutcome::Ignored)
                    &&& final(ring).spec_in_flight() == old(ring).spec_in_flight() + old(
                        ring,
                    ).spec_pending()
                    &&& final(ring).spec_tags() == old(ring).spec_tags()
                    &&& final(table).view() == old(table).view()
                },
                Some(info) => {
                    let a = spec_next_action(info.conn_type, c.res);
                    &&& (r is Err <==> (action_event(a, info.fd) is Some && (old(
                        ring,
                    ).spec_pending().len() >= old(ring).spec_capacity() || arena_full(
                        decode_rest(old(ring).spec_tags(), c.user_data),
                    ))))
                    &&& match r {
                        Ok(o) => {
                            &&& o == StepOutcome::Acted(a)
                            &&& table_effect(old(table).view(), final(table).view(), a, info.fd)
                            &&& match action_event(a, info.fd) {
                                Some(ev) => ({
                                    let h = final(ring).spec_in_flight().last().user_data;
                                    &&& final(ring).spec_in_flight() == old(
                                        ring,
                                    ).spec_in_flight() + old(ring).spec_pending() + seq![
                                        (SqEntry { op: ev, user_data: h }),
                                    ]
                                    &&& h != 0
                                    &&& decode_result(final(ring).spec_tags(), h) == action_tag(
                                        a,
                                        info.fd,
                                    )
                                }),
                                None => {
                                    &&& final(ring).spec_in_flight() == old(
                                        ring,
                                    ).spec_in_flight() + old(ring).spec_pending()
                                    &&& final(ring).spec_tags() == decode_rest(
                                        old(ring).spec_tags(),
                                        c.user_data,
                                    )
                                },
                            }
                        },
                        Err(e) => {
                            &&& e == RingError::Busy
                            &&& final(ring).spec_in_flight() == old(ring).spec_in_flight() + old(
                                ring,
                            ).spec_pending()
                            &&& final(ring).spec_tags() == decode_rest(
                                old(ring).spec_tags(),
                                c.user_data,
                            )
                            &&& final(table).view() == old(table).view()
                        },
                    }
                },
            }
        }),
{
    let c = match ring.wait_cqe() {
        Some(c) => c,
        None => {
            ring.submit();
            return Ok(StepOutcome::Idle);
        },
    };
    let hr = handle_completion(ring, table, c);
    ring.submit();
    proof {
        let oif = old(ring).spec_in_flight();
        let op = old(ring).spec_pending();
        assert forall|x: SqEntry| #[trigger] (oif + op.push(x)) =~= oif + op + seq![x] by {}
    }
    match hr {
        Ok(None) => Ok(StepOutcome::Ignored),
        Ok(Some(a)) => Ok(StepOutcome::Acted(a)),
        Err(e) => Err(e),
    }
}

/// Law: a read completion of zero bytes always drives the connection to a
/// close — never to another read, and never to an echo.
pub proof fn lemma_zero_read_closes()
    ensures
        spec_next_action(ConnType::Read, 0) == Action::CloseConn,
{
}

/// Law: a negative result on a read or a write always drives the connection
/// to a close.
pub proof fn lemma_negative_result_closes(state: ConnType, res: i32)
    requires
        res < 0,
        state == ConnType::Read || state == ConnType::Write,
    ensures
        spec_next_action(state, res) == Action::CloseConn,
{
}

/// Law: once a read reports end of stream or an error, the operation the
/// reactor primes for that connection is a close — never another read.
pub proof fn lemma_read_end_primes_close(res: i32, fd: i32)
    requires
        res <= 0,
    ensures
        action_event(spec_next_action(ConnType::Read, res), fd) == Some(
            Event::Close((CloseEvent { socket: fd })),
        ),
{
}

} // verus!
