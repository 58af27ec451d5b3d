//! Cooperative cancellation.
//!
//! A long operation asks from time to time whether its caller is still
//! alive. The question is throttled, because asking takes a scheduler
//! lock. When the caller is gone the operation ends with `cancelled`, and
//! its partial output is removed.

use crate::errors::{error, outcome, ErrorView, NativeError};
use vstd::prelude::*;

verus! {

/// Nanoseconds between two questions.
pub const CHECK_INTERVAL_NS: u64 = 100_000_000;

/// Whether enough time has passed since the last time, on a clock that
/// counts nanoseconds. A clock that ran backwards has not moved on.
pub open spec fn interval_passed(last: Option<u64>, now: u64) -> bool {
    match last {
        Some(l) => now - l >= CHECK_INTERVAL_NS,
        None => true,
    }
}

/// Whether enough time has passed since the last time.
pub fn interval_over(last: Option<u64>, now: u64) -> (r: bool)
    ensures
        r == interval_passed(last, now),
{
    match last {
        Some(l) => now >= l && now - l >= CHECK_INTERVAL_NS,
        None => true,
    }
}

/// What an operation ends with when its caller is gone.
pub open spec fn cancelled_error() -> ErrorView {
    error("cancelled"@, "calling process exited before the operation completed"@)
}

/// The error for a caller that is gone.
pub fn cancelled() -> (e: NativeError)
    ensures
        e@ == cancelled_error(),
{
    NativeError::new("cancelled", "calling process exited before the operation completed")
}

/// Go on while the caller is alive.
pub fn require_alive(alive: bool) -> (r: Result<(), NativeError>)
    ensures
        outcome(r) == (if alive {
            Ok(())
        } else {
            Err(cancelled_error())
        }),
{
    if alive {
        Ok(())
    } else {
        Err(cancelled())
    }
}

/// Remembers when the caller was last looked for.
#[derive(Debug)]
pub struct CancelGuard {
    pub last_check: Option<u64>,
}

impl CancelGuard {
    /// A guard that has not looked yet.
    pub fn new() -> (g: Self)
        ensures
            g.last_check is None,
    {
        CancelGuard { last_check: None }
    }

    /// Whether the next check will look for the caller.
    pub fn is_due(&self, now: u64) -> (r: bool)
        ensures
            r == interval_passed(self.last_check, now),
    {
        interval_over(self.last_check, now)
    }

    /// Fail when the caller is gone. Between two looks the answer is
    /// always to go on, whatever `alive` says.
    pub fn check(&mut self, now: u64, alive: bool) -> (r: Result<(), NativeError>)
        ensures
            interval_passed(old(self).last_check, now) ==> {
                &&& final(self).last_check == Some(now)
                &&& outcome(r) == (if alive {
                    Ok(())
                } else {
                    Err(cancelled_error())
                })
            },
            !interval_passed(old(self).last_check, now) ==> {
                &&& *final(self) == *old(self)
                &&& r == Ok::<(), NativeError>(())
            },
    {
        if !interval_over(self.last_check, now) {
            return Ok(());
        }
        self.last_check = Some(now);
        require_alive(alive)
    }
}

/// The times at which a throttled activity runs, out of the times at which
/// it is asked to.
pub open spec fn effective(times: Seq<u64>) -> Seq<u64>
    decreases times.len(),
{
    if times.len() == 0 {
        seq![]
    } else {
        let before = effective(times.drop_last());
        let last = if before.len() > 0 {
            Some(before.last())
        } else {
            None
        };
        if interval_passed(last, times.last()) {
            before.push(times.last())
        } else {
            before
        }
    }
}

/// Two runs of a throttled activity are never closer than the interval.
pub proof fn law_throttle_spacing(times: Seq<u64>, i: int, j: int)
    requires
        0 <= i < j < effective(times).len(),
    ensures
        effective(times)[i] + CHECK_INTERVAL_NS <= effective(times)[j],
    decreases times.len(),
{
    let before = effective(times.drop_last());
    if j < before.len() {
        law_throttle_spacing(times.drop_last(), i, j);
    } else if i < before.len() - 1 {
        law_throttle_spacing(times.drop_last(), i, before.len() - 1);
    }
}

/// The first time is always due; after that, exactly when a tenth of a
/// second has gone by since the last time.
pub proof fn law_due_every_tenth_of_a_second(last: u64, now: u64)
    ensures
        interval_passed(None, now),
        interval_passed(Some(last), now) <==> now >= last + 100_000_000,
{
}

/// A throttled activity runs when it is first asked to, and again when it
/// is asked a tenth of a second or more after it last ran; it runs at no
/// time at which it was not asked.
pub proof fn law_throttle_lets_through(times: Seq<u64>, now: u64)
    ensures
        effective(times).len() == 0 ==> effective(times.push(now)) == seq![now],
        effective(times).len() > 0 && now >= effective(times).last() + 100_000_000 ==> effective(
            times.push(now),
        ) == effective(times).push(now),
        effective(times).len() > 0 && now < effective(times).last() + 100_000_000 ==> effective(
            times.push(now),
        ) == effective(times),
{
    assert(times.push(now).drop_last() =~= times);
    if effective(times).len() == 0 {
        assert(effective(times.push(now)) =~= seq![now]);
    }
}

/// A caller that is gone is told apart by its own category.
pub proof fn law_cancelled_is_its_own_category()
    ensures
        cancelled_error().kind == "cancelled"@,
        cancelled_error().details.dom() == Set::<Seq<char>>::empty(),
{
}

} // verus!
