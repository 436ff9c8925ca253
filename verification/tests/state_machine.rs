//! The transition table, row by row, on concrete values.

use iogobrrr::io_uring::ConnType;
use iogobrrr::reactor::{next_action, Action};
use iogobrrr::table::BUF_CAP;

#[test]
fn accept_with_new_socket_opens_a_connection() {
    assert_eq!(next_action(ConnType::Accept, 7), Action::OpenConn { fd: 7 });
    assert_eq!(next_action(ConnType::Accept, 0), Action::OpenConn { fd: 0 });
}

#[test]
fn failed_accept_is_dropped() {
    assert_eq!(next_action(ConnType::Accept, -11), Action::DropEvent);
}

#[test]
fn read_with_bytes_echoes_that_length() {
    assert_eq!(next_action(ConnType::Read, 4), Action::Echo { len: 4 });
    assert_eq!(next_action(ConnType::Read, 1024), Action::Echo { len: 1024 });
}

#[test]
fn oversized_read_result_is_clamped_to_capacity() {
    assert_eq!(next_action(ConnType::Read, 5000), Action::Echo { len: BUF_CAP });
}

#[test]
fn zero_read_always_closes() {
    // End of stream: close, never another read.
    assert_eq!(next_action(ConnType::Read, 0), Action::CloseConn);
}

#[test]
fn negative_result_on_read_or_write_closes() {
    assert_eq!(next_action(ConnType::Read, -104), Action::CloseConn);
    assert_eq!(next_action(ConnType::Read, -1), Action::CloseConn);
    assert_eq!(next_action(ConnType::Write, -32), Action::CloseConn);
}

#[test]
fn finished_send_rearms_the_read() {
    assert_eq!(next_action(ConnType::Write, 0), Action::RearmRead);
    assert_eq!(next_action(ConnType::Write, 4), Action::RearmRead);
}

#[test]
fn finished_close_tears_the_record_down() {
    assert_eq!(next_action(ConnType::Close, 0), Action::Teardown);
    assert_eq!(next_action(ConnType::Close, -9), Action::Teardown);
    assert_eq!(next_action(ConnType::Close, 1), Action::Teardown);
}
