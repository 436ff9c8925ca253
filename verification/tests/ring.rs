//! Ring mechanics: slot back-pressure, batching, the flush no-op, multishot
//! operations staying armed, and the completion/acknowledgement discipline.

use iogobrrr::events::{Event, MultishotAcceptEvent, ReadEvent};
use iogobrrr::io_uring::{ConnInfo, ConnType, IoUring, RingError};

#[test]
fn back_pressure_capacity_one() {
    let mut ring = IoUring::new(1);
    assert!(ring.add_event(Event::Nop, None).is_ok());
    // Second operation before any flush: the queue of capacity 1 is full.
    assert!(matches!(ring.add_event(Event::Nop, None), Err(RingError::Busy)));
    assert!(ring.get_sqe().is_none());
    // The flush drains the queue; a slot is available again.
    assert_eq!(ring.submit(), 1);
    assert!(ring.get_sqe().is_some());
}

#[test]
fn submit_with_zero_pending_is_a_noop() {
    let mut ring = IoUring::new(4);
    assert_eq!(ring.submit(), 0);
    assert_eq!(ring.pending_len(), 0);
    assert_eq!(ring.in_flight_len(), 0);
    // Same after traffic has passed through.
    ring.add_event(Event::Nop, None).unwrap();
    assert_eq!(ring.submit(), 1);
    assert_eq!(ring.in_flight_len(), 1);
    assert_eq!(ring.submit(), 0);
    assert_eq!(ring.in_flight_len(), 1);
}

#[test]
fn submit_flushes_the_whole_batch_in_order() {
    let mut ring = IoUring::new(4);
    ring.add_event(Event::Nop, None).unwrap();
    ring.add_event(
        Event::Read(ReadEvent { socket: 5, length: 16 }),
        Some(ConnInfo { fd: 5, conn_type: ConnType::Read }),
    )
    .unwrap();
    assert_eq!(ring.pending_len(), 2);
    assert_eq!(ring.submit(), 2);
    assert_eq!(ring.pending_len(), 0);
    assert_eq!(ring.in_flight_len(), 2);
    assert!(matches!(ring.in_flight_entry(0).op, Event::Nop));
    assert!(matches!(ring.in_flight_entry(1).op, Event::Read(_)));
}

#[test]
fn one_shot_operation_leaves_on_completion() {
    let mut ring = IoUring::new(4);
    ring.add_event(
        Event::Read(ReadEvent { socket: 5, length: 16 }),
        Some(ConnInfo { fd: 5, conn_type: ConnType::Read }),
    )
    .unwrap();
    ring.submit();
    ring.complete(0, 3);
    assert_eq!(ring.in_flight_len(), 0);
    assert_eq!(ring.cq_len(), 1);
}

#[test]
fn multishot_accept_stays_armed_across_completions() {
    let mut ring = IoUring::new(4);
    ring.add_multishot_accept(MultishotAcceptEvent { listener: 3, flags: 0 }).unwrap();
    // add_multishot_accept flushes at once.
    assert_eq!(ring.pending_len(), 0);
    assert_eq!(ring.in_flight_len(), 1);
    ring.complete(0, 7);
    ring.complete(0, 9);
    // The standing accept is still in flight; both completions arrived.
    assert_eq!(ring.in_flight_len(), 1);
    assert_eq!(ring.cq_len(), 2);
    let first = ring.wait_cqe().unwrap();
    let second = ring.wait_cqe().unwrap();
    assert_eq!(first.res, 7);
    assert_eq!(second.res, 9);
    // Both carry the same persistent tag handle.
    assert_eq!(first.user_data, second.user_data);
}

#[test]
fn completions_are_reaped_in_arrival_order_and_acked_once() {
    let mut ring = IoUring::new(4);
    ring.add_event(Event::Nop, None).unwrap();
    ring.add_event(Event::Nop, None).unwrap();
    ring.submit();
    // Report the later submission first: arrival order wins.
    ring.complete(1, 11);
    ring.complete(0, 22);
    let c1 = ring.wait_cqe().unwrap();
    assert_eq!(c1.res, 11);
    assert_eq!(ring.unacked_len(), 1);
    assert!(ring.set_cqe_seen());
    assert_eq!(ring.unacked_len(), 0);
    // Nothing outstanding: a second acknowledgement reports failure.
    assert!(!ring.set_cqe_seen());
    let c2 = ring.wait_cqe().unwrap();
    assert_eq!(c2.res, 22);
    assert!(ring.set_cqe_seen());
    assert!(ring.wait_cqe().is_none());
}

#[test]
fn tagless_event_carries_null_handle() {
    let mut ring = IoUring::new(4);
    ring.add_event(Event::Nop, None).unwrap();
    assert_eq!(ring.pending_entry(0).user_data, 0);
}
