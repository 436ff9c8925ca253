//! Helpers for the reactor loop: unpacking a completion record and recovering
//! the connection tag it carried.

use vstd::prelude::*;

use crate::io_uring::{Completion, ConnInfo, IoUring};
use crate::tags::{decode_rest, decode_result};

verus! {

/// Unpack a completion record into its tag handle and result code.
pub fn unwrap_cqe(cqe: &Completion) -> (r: (u64, i32))
    ensures
        r.0 == cqe.user_data,
        r.1 == cqe.res,
{
    (cqe.user_data, cqe.res)
}

/// Recover the connection tag behind a completion's handle. The null
/// sentinel `0` means "no associated connection" and yields nothing, as does
/// a handle already consumed; a live one-shot tag is returned by copy and its
/// slot is freed in the same step, so it can never be decoded twice.
pub fn get_conn_info(ring: &mut IoUring, user_data: u64) -> (r: Option<ConnInfo>)
    requires
        old(ring).wf(),
    ensures
        final(ring).wf(),
        r == decode_result(old(ring).spec_tags(), user_data),
        final(ring).spec_tags() == decode_rest(old(ring).spec_tags(), user_data),
        final(ring).spec_pending() == old(ring).spec_pending(),
        final(ring).spec_in_flight() == old(ring).spec_in_flight(),
        final(ring).spec_cq() == old(ring).spec_cq(),
        final(ring).spec_capacity() == old(ring).spec_capacity(),
        final(ring).spec_unacked() == old(ring).spec_unacked(),
        final(ring).spec_submissions() == old(ring).spec_submissions(),
{
    ring.decode_tag(user_data)
}

} // verus!
