//! Tag lifecycle: a one-shot tag is decoded exactly once; the null sentinel
//! is a no-op; a persistent (multishot) tag survives every decode.

use iogobrrr::events::{Event, MultishotAcceptEvent, ReadEvent};
use iogobrrr::io_uring::{Completion, ConnInfo, ConnType, IoUring};
use iogobrrr::utils::{get_conn_info, unwrap_cqe};

#[test]
fn one_shot_tag_is_decoded_exactly_once() {
    let mut ring = IoUring::new(4);
    ring.add_event(
        Event::Read(ReadEvent { socket: 5, length: 16 }),
        Some(ConnInfo { fd: 5, conn_type: ConnType::Read }),
    )
    .unwrap();
    let h = ring.pending_entry(0).user_data;
    assert_ne!(h, 0);
    let first = get_conn_info(&mut ring, h);
    assert_eq!(first, Some(ConnInfo { fd: 5, conn_type: ConnType::Read }));
    // The slot was freed by the first decode: the handle is dead now.
    let second = get_conn_info(&mut ring, h);
    assert_eq!(second, None);
}

#[test]
fn null_sentinel_decodes_to_nothing() {
    let mut ring = IoUring::new(4);
    assert_eq!(get_conn_info(&mut ring, 0), None);
}

#[test]
fn dead_handle_decodes_to_nothing() {
    let mut ring = IoUring::new(4);
    assert_eq!(get_conn_info(&mut ring, 42), None);
}

#[test]
fn persistent_tag_survives_decodes() {
    let mut ring = IoUring::new(4);
    ring.add_multishot_accept(MultishotAcceptEvent { listener: 3, flags: 0 }).unwrap();
    let h = ring.in_flight_entry(0).user_data;
    assert_ne!(h, 0);
    let expected = Some(ConnInfo { fd: 3, conn_type: ConnType::Accept });
    assert_eq!(get_conn_info(&mut ring, h), expected);
    // A standing operation's tag is read, never consumed.
    assert_eq!(get_conn_info(&mut ring, h), expected);
}

#[test]
fn distinct_operations_get_distinct_handles() {
    let mut ring = IoUring::new(4);
    ring.add_event(
        Event::Read(ReadEvent { socket: 5, length: 16 }),
        Some(ConnInfo { fd: 5, conn_type: ConnType::Read }),
    )
    .unwrap();
    ring.add_event(
        Event::Read(ReadEvent { socket: 6, length: 16 }),
        Some(ConnInfo { fd: 6, conn_type: ConnType::Read }),
    )
    .unwrap();
    let h1 = ring.pending_entry(0).user_data;
    let h2 = ring.pending_entry(1).user_data;
    assert_ne!(h1, h2);
    assert_eq!(get_conn_info(&mut ring, h1), Some(ConnInfo { fd: 5, conn_type: ConnType::Read }));
    assert_eq!(get_conn_info(&mut ring, h2), Some(ConnInfo { fd: 6, conn_type: ConnType::Read }));
}

#[test]
fn freed_slot_is_reused() {
    let mut ring = IoUring::new(8);
    ring.add_event(
        Event::Read(ReadEvent { socket: 5, length: 16 }),
        Some(ConnInfo { fd: 5, conn_type: ConnType::Read }),
    )
    .unwrap();
    let h1 = ring.pending_entry(0).user_data;
    get_conn_info(&mut ring, h1).unwrap();
    ring.add_event(
        Event::Read(ReadEvent { socket: 6, length: 16 }),
        Some(ConnInfo { fd: 6, conn_type: ConnType::Read }),
    )
    .unwrap();
    let h2 = ring.pending_entry(1).user_data;
    assert_eq!(h1, h2);
}

#[test]
fn unwrap_cqe_unpacks_both_fields() {
    let c = Completion { user_data: 17, res: -104 };
    let (ud, res) = unwrap_cqe(&c);
    assert_eq!(ud, 17);
    assert_eq!(res, -104);
}
