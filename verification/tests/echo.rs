//! End-to-end echo scenarios, driving the reactor with an in-test stand-in
//! for the kernel: the test executes in-flight operations by reporting
//! completions and depositing received bytes into connection buffers.

use iogobrrr::events::{Event, MultishotAcceptEvent};
use iogobrrr::io_uring::IoUring;
use iogobrrr::reactor::{reactor_step, Action, StepOutcome};
use iogobrrr::table::{ConnTable, BUF_CAP};

#[test]
fn ping_is_echoed_and_a_later_client_sees_no_residue() {
    let mut ring = IoUring::new(8);
    let mut table = ConnTable::new();
    ring.add_multishot_accept(MultishotAcceptEvent { listener: 3, flags: 0 }).unwrap();

    // A client connects: the standing accept yields socket 7.
    ring.complete(0, 7);
    let step = reactor_step(&mut ring, &mut table).unwrap();
    assert_eq!(step, StepOutcome::Acted(Action::OpenConn { fd: 7 }));
    assert_eq!(table.len(), 1);
    // The reactor armed a read on the new socket.
    assert_eq!(ring.in_flight_len(), 2);
    match ring.in_flight_entry(1).op {
        Event::Read(r) => {
            assert_eq!(r.socket, 7);
            assert_eq!(r.length, BUF_CAP);
        },
        _ => panic!("expected a read on the new socket"),
    }

    // The client sends "ping": the kernel stand-in deposits 4 bytes and
    // reports the read complete.
    let ping = vec![b'p', b'i', b'n', b'g'];
    assert!(table.fill_buf(7, &ping));
    ring.complete(1, 4);
    let step = reactor_step(&mut ring, &mut table).unwrap();
    assert_eq!(step, StepOutcome::Acted(Action::Echo { len: 4 }));
    // The reactor primed a send of exactly those 4 bytes.
    match ring.in_flight_entry(1).op {
        Event::Send(s) => {
            assert_eq!(s.socket, 7);
            assert_eq!(s.length, 4);
        },
        _ => panic!("expected the echoing send"),
    }
    let wire = table.copy_prefix(7, 4).unwrap();
    assert_eq!(wire, ping);

    // The send completes; the reactor clears the buffer and re-arms the read.
    ring.complete(1, 4);
    let step = reactor_step(&mut ring, &mut table).unwrap();
    assert_eq!(step, StepOutcome::Acted(Action::RearmRead));
    let cleared = table.copy_prefix(7, BUF_CAP).unwrap();
    assert!(cleared.iter().all(|&b| b == 0));

    // The client closes its write side: a zero-length read.
    ring.complete(1, 0);
    let step = reactor_step(&mut ring, &mut table).unwrap();
    assert_eq!(step, StepOutcome::Acted(Action::CloseConn));
    match ring.in_flight_entry(1).op {
        Event::Close(c) => assert_eq!(c.socket, 7),
        _ => panic!("expected the close"),
    }

    // The close completes: the record is removed.
    ring.complete(1, 0);
    let step = reactor_step(&mut ring, &mut table).unwrap();
    assert_eq!(step, StepOutcome::Acted(Action::Teardown));
    assert_eq!(table.len(), 0);

    // A second, unrelated client connects afterwards: its buffer holds no
    // residue of the first client's "ping".
    ring.complete(0, 9);
    let step = reactor_step(&mut ring, &mut table).unwrap();
    assert_eq!(step, StepOutcome::Acted(Action::OpenConn { fd: 9 }));
    let fresh = table.copy_prefix(9, BUF_CAP).unwrap();
    assert!(fresh.iter().all(|&b| b == 0));
}

#[test]
fn concurrent_connections_keep_their_buffers_apart() {
    let mut ring = IoUring::new(8);
    let mut table = ConnTable::new();
    ring.add_multishot_accept(MultishotAcceptEvent { listener: 3, flags: 0 }).unwrap();

    // Two clients connect; both get records and armed reads.
    ring.complete(0, 7);
    reactor_step(&mut ring, &mut table).unwrap();
    ring.complete(0, 9);
    reactor_step(&mut ring, &mut table).unwrap();
    assert_eq!(table.len(), 2);

    // Each sends its own payload.
    let first = vec![b'a', b'b', b'c'];
    let second = vec![b'x', b'y'];
    assert!(table.fill_buf(7, &first));
    assert!(table.fill_buf(9, &second));

    // Neither buffer shows the other's bytes.
    assert_eq!(table.copy_prefix(7, 3).unwrap(), first);
    assert_eq!(table.copy_prefix(9, 2).unwrap(), second);
    // And beyond its own payload, each buffer is zero.
    let tail = table.copy_prefix(9, 5).unwrap();
    assert_eq!(tail, vec![b'x', b'y', 0, 0, 0]);
}

#[test]
fn full_capacity_payload_is_echoed_whole() {
    let mut ring = IoUring::new(8);
    let mut table = ConnTable::new();
    ring.add_multishot_accept(MultishotAcceptEvent { listener: 3, flags: 0 }).unwrap();
    ring.complete(0, 7);
    reactor_step(&mut ring, &mut table).unwrap();

    let payload: Vec<u8> = (0..BUF_CAP).map(|i| (i % 251) as u8).collect();
    assert!(table.fill_buf(7, &payload));
    ring.complete(1, BUF_CAP as i32);
    let step = reactor_step(&mut ring, &mut table).unwrap();
    assert_eq!(step, StepOutcome::Acted(Action::Echo { len: BUF_CAP }));
    assert_eq!(table.copy_prefix(7, BUF_CAP).unwrap(), payload);
}

#[test]
fn untagged_completion_is_acknowledged_and_ignored() {
    let mut ring = IoUring::new(4);
    let mut table = ConnTable::new();
    ring.add_event(Event::Nop, None).unwrap();
    ring.submit();
    ring.complete(0, 0);
    let step = reactor_step(&mut ring, &mut table).unwrap();
    assert_eq!(step, StepOutcome::Ignored);
    assert_eq!(ring.unacked_len(), 0);
    assert_eq!(table.len(), 0);
}

#[test]
fn idle_step_reports_idle_and_flushes() {
    let mut ring = IoUring::new(4);
    let mut table = ConnTable::new();
    ring.add_event(Event::Nop, None).unwrap();
    let step = reactor_step(&mut ring, &mut table).unwrap();
    assert_eq!(step, StepOutcome::Idle);
    assert_eq!(ring.pending_len(), 0);
    assert_eq!(ring.in_flight_len(), 1);
}

#[test]
fn failed_accept_creates_no_connection() {
    let mut ring = IoUring::new(8);
    let mut table = ConnTable::new();
    ring.add_multishot_accept(MultishotAcceptEvent { listener: 3, flags: 0 }).unwrap();
    ring.complete(0, -24);
    let step = reactor_step(&mut ring, &mut table).unwrap();
    assert_eq!(step, StepOutcome::Acted(Action::DropEvent));
    assert_eq!(table.len(), 0);
    assert_eq!(ring.in_flight_len(), 1);
}

#[test]
fn refused_submission_surfaces_back_pressure() {
    let mut ring = IoUring::new(1);
    let mut table = ConnTable::new();
    ring.add_multishot_accept(MultishotAcceptEvent { listener: 3, flags: 0 }).unwrap();
    // Fill the single submission slot again before the next completion.
    ring.add_event(Event::Nop, None).unwrap();
    ring.complete(0, 7);
    let step = reactor_step(&mut ring, &mut table);
    assert_eq!(step, Err(iogobrrr::io_uring::RingError::Busy));
    // No record was created, the completion was still acknowledged, and the
    // batch was still flushed.
    assert_eq!(table.len(), 0);
    assert_eq!(ring.unacked_len(), 0);
    assert_eq!(ring.pending_len(), 0);
}

#[test]
fn read_error_closes_the_connection() {
    let mut ring = IoUring::new(8);
    let mut table = ConnTable::new();
    ring.add_multishot_accept(MultishotAcceptEvent { listener: 3, flags: 0 }).unwrap();
    ring.complete(0, 7);
    reactor_step(&mut ring, &mut table).unwrap();
    // The armed read fails with a connection reset.
    ring.complete(1, -104);
    let step = reactor_step(&mut ring, &mut table).unwrap();
    assert_eq!(step, StepOutcome::Acted(Action::CloseConn));
    match ring.in_flight_entry(1).op {
        Event::Close(c) => assert_eq!(c.socket, 7),
        _ => panic!("expected the close"),
    }
}
