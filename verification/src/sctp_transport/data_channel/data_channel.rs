//! Timing decisions of a data channel's DCEP exchange. The channel itself,
//! which reads and writes an SCTP stream, is driven by the caller.
use vstd::prelude::*;

verus! {

/// Whether waiting for a `DATA_CHANNEL_ACK` has gone on for too long: more
/// than `wait_timeout_millis` milliseconds have elapsed, where a timeout of
/// zero means waiting without limit.
pub fn ack_timed_out(elapsed_millis: u128, wait_timeout_millis: u16) -> (r: bool)
    ensures
        r == (elapsed_millis > wait_timeout_millis && wait_timeout_millis > 0),
{
    elapsed_millis > wait_timeout_millis as u128 && wait_timeout_millis > 0
}

/// Whether waiting for a `DATA_CHANNEL_OPEN` has gone on for too long: more
/// than `wait_timeout_millis` milliseconds have elapsed, where a timeout of
/// zero means waiting without limit.
pub fn open_timed_out(elapsed_millis: u128, wait_timeout_millis: u16) -> (r: bool)
    ensures
        r == (elapsed_millis > wait_timeout_millis && wait_timeout_millis > 0),
{
    elapsed_millis > wait_timeout_millis as u128 && wait_timeout_millis > 0
}

} // verus!
