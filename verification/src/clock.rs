//! The current Unix time, read from the system clock without panicking.

use vstd::prelude::*;

verus! {

#[verifier::external_type_specification]
#[verifier::external_body]
pub struct ExSystemTime(std::time::SystemTime);

/// `std::time::SystemTime::now`: the system clock's reading. Nothing is
/// promised of it.
#[verifier::external_body]
fn system_now() -> std::time::SystemTime {
    std::time::SystemTime::now()
}

/// `SystemTime::duration_since(UNIX_EPOCH)` on `t`: the whole seconds after the
/// Unix epoch (`Ok`), or the whole seconds and the nanoseconds past them by
/// which `t` lies before it (`Err`, from the error's duration). Nothing is
/// promised of the counts: they are what the clock said.
#[verifier::external_body]
fn seconds_from_epoch(t: &std::time::SystemTime) -> Result<u64, (u64, u32)> {
    match t.duration_since(std::time::UNIX_EPOCH) {
        Ok(d) => Ok(d.as_secs()),
        Err(e) => Err((e.duration().as_secs(), e.duration().subsec_nanos())),
    }
}

/// Whole Unix seconds, rounded down, of a time that lies `secs` seconds and
/// `nanos` nanoseconds before the epoch, held at `i64::MIN`.
pub open spec fn seconds_before_epoch(secs: u64, nanos: u32) -> int {
    let t = if nanos == 0 { -(secs as int) } else { -(secs as int) - 1 };
    if t < i64::MIN { i64::MIN as int } else { t }
}

/// Whole Unix seconds of a time `secs` seconds after the epoch, held at
/// `i64::MAX`.
pub open spec fn seconds_after_epoch(secs: u64) -> int {
    if secs > i64::MAX { i64::MAX as int } else { secs as int }
}

/// The Unix time in whole seconds, rounded down, of what the clock reads.
pub fn unix_seconds(reading: Result<u64, (u64, u32)>) -> (t: i64)
    ensures
        t == match reading {
            Ok(s) => seconds_after_epoch(s),
            Err((s, n)) => seconds_before_epoch(s, n),
        },
{
    match reading {
        Ok(s) => if s <= i64::MAX as u64 {
            s as i64
        } else {
            i64::MAX
        },
        Err((s, n)) => if s < i64::MAX as u64 {
            if n == 0 {
                -(s as i64)
            } else {
                -(s as i64) - 1
            }
        } else if s == i64::MAX as u64 && n == 0 {
            -(s as i64)
        } else {
            i64::MIN
        },
    }
}

/// The current Unix time in whole seconds, rounded down: negative for a clock
/// set before 1970, and held at the bounds of `i64` for a clock beyond them.
/// What the clock reads is not stated.
pub fn unix_now() -> i64 {
    unix_seconds(seconds_from_epoch(&system_now()))
}

} // verus!
