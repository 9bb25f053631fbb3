//! From a timeout to a deadline on the kernel's clock.

use vstd::prelude::*;

use crate::abi::TimeClock;

verus! {

/// Nanoseconds in a second.
pub const NANOS_PER_SEC: i64 = 1_000_000_000;

/// How long a wait may last.
#[derive(Clone, Copy, Debug, PartialEq, Eq, Structural)]
pub struct Timeout {
    /// Whole seconds.
    pub secs: u64,
    /// Nanoseconds on top of them.
    pub nanos: u32,
}

/// `n`, or the largest `i64` where `n` is beyond it.
pub open spec fn saturate(n: int) -> i64 {
    if n > i64::MAX {
        i64::MAX
    } else {
        n as i64
    }
}

/// The deadline that no wait reaches.
pub open spec fn never() -> TimeClock {
    TimeClock { tv_sec: i64::MAX, tv_nsec: 999_999_999 }
}

/// Whether a clock call gave a usable time.
pub open spec fn clock_valid(status: i64, now: TimeClock) -> bool {
    status == 0 && now.tv_sec >= 0 && now.tv_nsec >= 0
}

/// The point in time `timeout` after `now`.  At most one second is carried
/// from the nanoseconds, and neither part passes the end of its range.  Without
/// a usable clock the wait is unbounded.
pub open spec fn deadline(status: i64, now: TimeClock, timeout: Timeout) -> TimeClock {
    if !clock_valid(status, now) {
        never()
    } else {
        let nanos = saturate(now.tv_nsec + timeout.nanos);
        if nanos >= NANOS_PER_SEC {
            TimeClock {
                tv_sec: saturate(now.tv_sec + timeout.secs + 1),
                tv_nsec: (nanos - NANOS_PER_SEC) as i64,
            }
        } else {
            TimeClock { tv_sec: saturate(now.tv_sec + timeout.secs), tv_nsec: nanos }
        }
    }
}

/// Adds without passing the end of the range.
fn saturating_sum(a: i64, b: i64) -> (sum: i64)
    requires
        a >= 0,
        b >= 0,
    ensures
        sum == saturate(a + b),
{
    match a.checked_add(b) {
        Some(sum) => sum,
        None => i64::MAX,
    }
}

/// The deadline for `timeout`, given what the monotonic clock answered.
pub fn deadline_after(status: i64, now: TimeClock, timeout: Timeout) -> (res: TimeClock)
    ensures
        res == deadline(status, now, timeout),
{
    if status != 0 || now.tv_sec < 0 || now.tv_nsec < 0 {
        return TimeClock { tv_sec: i64::MAX, tv_nsec: 999_999_999 };
    }
    let timeout_secs: i64 = if timeout.secs > i64::MAX as u64 {
        i64::MAX
    } else {
        timeout.secs as i64
    };
    let timeout_nanos: i64 = timeout.nanos as i64;
    let mut seconds: i64 = saturating_sum(now.tv_sec, timeout_secs);
    let mut nanos: i64 = saturating_sum(now.tv_nsec, timeout_nanos);
    if nanos >= NANOS_PER_SEC {
        seconds = saturating_sum(seconds, 1);
        nanos = nanos - NANOS_PER_SEC;
    }
    TimeClock { tv_sec: seconds, tv_nsec: nanos }
}

} // verus!
