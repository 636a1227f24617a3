//! Store time and what is derived from it: the millisecond scores by which
//! messages become visible, and the limit on the size of a body.

use vstd::prelude::*;
use vstd::utf8::encode_utf8;
use crate::error::RsmqError;
use crate::queue::UNLIMITED;

verus! {

/// Microseconds in a second.
pub const MICROS_PER_SEC: u64 = 1_000_000;

/// Microseconds in a millisecond.
pub const MICROS_PER_MILLI: u64 = 1_000;

/// Milliseconds in a second.
pub const MILLIS_PER_SEC: u64 = 1_000;

/// The store time in microseconds, from the seconds and the microseconds
/// within the second that the store reports.
pub open spec fn micros_of(secs: u64, micros: u64) -> int {
    secs * MICROS_PER_SEC + micros
}

/// A time in microseconds, in milliseconds.
pub open spec fn millis(ts_micros: u64) -> u64 {
    ts_micros / MICROS_PER_MILLI
}

/// A time in microseconds, in whole seconds.
pub open spec fn seconds(ts_micros: u64) -> u64 {
    ts_micros / MICROS_PER_SEC
}

/// The time in milliseconds that lies `secs` seconds after `now_ms`.
pub open spec fn after(now_ms: u64, secs: u64) -> int {
    now_ms + secs * MILLIS_PER_SEC
}

/// Whether a body of `len` bytes is too large for a queue with this
/// `maxsize`.
pub open spec fn exceeds(maxsize: i64, len: nat) -> bool {
    maxsize != UNLIMITED && len > maxsize
}

/// The size of a body in bytes.
pub open spec fn byte_len(body: Seq<char>) -> nat {
    encode_utf8(body).len()
}

/// The store time in microseconds; `TimeOverflow` if 64 bits cannot hold it.
pub fn store_micros(secs: u64, micros: u64) -> (r: Result<u64, RsmqError>)
    ensures
        micros_of(secs, micros) <= u64::MAX ==> r == Ok::<u64, RsmqError>(
            micros_of(secs, micros) as u64,
        ),
        micros_of(secs, micros) > u64::MAX ==> r == Err::<u64, RsmqError>(
            RsmqError::TimeOverflow,
        ),
{
    match secs.checked_mul(MICROS_PER_SEC) {
        Some(whole) => match whole.checked_add(micros) {
            Some(ts) => Ok(ts),
            None => Err(RsmqError::TimeOverflow),
        },
        None => Err(RsmqError::TimeOverflow),
    }
}

/// A time in microseconds, in milliseconds.
pub fn to_millis(ts_micros: u64) -> (ms: u64)
    ensures
        ms == millis(ts_micros),
{
    ts_micros / MICROS_PER_MILLI
}

/// A time in microseconds, in whole seconds.
pub fn to_seconds(ts_micros: u64) -> (secs: u64)
    ensures
        secs == seconds(ts_micros),
{
    ts_micros / MICROS_PER_SEC
}

/// The time in milliseconds `secs` seconds after `now_ms`; `TimeOverflow`
/// if 64 bits cannot hold it.
pub fn visible_at(now_ms: u64, secs: u64) -> (r: Result<u64, RsmqError>)
    ensures
        after(now_ms, secs) <= u64::MAX ==> r == Ok::<u64, RsmqError>(after(now_ms, secs) as u64),
        after(now_ms, secs) > u64::MAX ==> r == Err::<u64, RsmqError>(RsmqError::TimeOverflow),
{
    match secs.checked_mul(MILLIS_PER_SEC) {
        Some(span) => match now_ms.checked_add(span) {
            Some(at) => Ok(at),
            None => Err(RsmqError::TimeOverflow),
        },
        None => Err(RsmqError::TimeOverflow),
    }
}

/// The value given, or the queue's own where none is given.
pub fn or_default(given: Option<u64>, default: u64) -> (v: u64)
    ensures
        v == (match given {
            Some(g) => g,
            None => default,
        }),
{
    match given {
        Some(g) => g,
        None => default,
    }
}

/// Checks a body against the queue's limit: `MessageTooLong` if the queue is
/// limited and the body has more bytes than `maxsize`.
pub fn check_size(maxsize: i64, body: &str) -> (r: Result<(), RsmqError>)
    ensures
        exceeds(maxsize, byte_len(body@)) ==> r == Err::<(), RsmqError>(
            RsmqError::MessageTooLong,
        ),
        !exceeds(maxsize, byte_len(body@)) ==> r is Ok,
{
    let len = body.as_bytes().len();
    if maxsize != UNLIMITED && (maxsize < 0 || len as u64 > maxsize as u64) {
        Err(RsmqError::MessageTooLong)
    } else {
        Ok(())
    }
}

} // verus!
