//! Throttled progress reports.
//!
//! The hot loops tick after every step; at most one report leaves per
//! interval. The closing report always leaves, so a subscriber sees the
//! final counts.

use crate::cancel::{interval_over, interval_passed};
use crate::media::{duration_position, Position};
use vstd::prelude::*;

verus! {

/// One report to the subscriber.
#[derive(Debug)]
pub struct ProgressUpdate {
    /// The running operation.
    pub op: String,
    /// Packets handed to the muxer so far.
    pub packets_written: u64,
    /// Where the output is; the start when unknown.
    pub current: Position,
    /// How long the input is; the start when unknown.
    pub total: Position,
}

/// Decides which reports leave.
#[derive(Debug)]
pub struct ProgressEmitter {
    pub subscribed: bool,
    pub op: String,
    pub total: Position,
    pub last_emit: Option<u64>,
}

/// `u` reports these counts for the emitter `e`.
pub open spec fn reports(
    u: ProgressUpdate,
    e: ProgressEmitter,
    packets_written: u64,
    current: Position,
) -> bool {
    u.op@ == e.op@ && u.packets_written == packets_written && u.current == current && u.total
        == e.total
}

impl ProgressEmitter {
    /// An emitter; without a subscriber it never reports.
    pub fn new(subscribed: bool, op: &str, total: Position) -> (e: Self)
        ensures
            e.subscribed == subscribed,
            e.op@ == op@,
            e.total == total,
            e.last_emit is None,
    {
        ProgressEmitter { subscribed, op: op.to_owned(), total, last_emit: None }
    }

    /// An emitter for an input of this container duration.
    pub fn from_av_duration(subscribed: bool, op: &str, ticks: i64) -> (e: Self)
        ensures
            e.subscribed == subscribed,
            e.op@ == op@,
            e.total == duration_position(ticks),
            e.last_emit is None,
    {
        ProgressEmitter::new(subscribed, op, Position::from_av_duration(ticks))
    }

    fn update(&self, packets_written: u64, current: Position) -> (u: ProgressUpdate)
        ensures
            reports(u, *self, packets_written, current),
    {
        ProgressUpdate { op: self.op.clone(), packets_written, current, total: self.total }
    }

    /// Report unless the last report is too recent.
    pub fn tick(&mut self, now: u64, packets_written: u64, current: Position) -> (r: Option<
        ProgressUpdate,
    >)
        ensures
            final(self).subscribed == old(self).subscribed,
            final(self).op@ == old(self).op@,
            final(self).total == old(self).total,
            r is Some <==> old(self).subscribed && interval_passed(old(self).last_emit, now),
            r is Some ==> final(self).last_emit == Some(now) && reports(
                r->0,
                *old(self),
                packets_written,
                current,
            ),
            r is None ==> final(self).last_emit == old(self).last_emit,
    {
        if !self.subscribed {
            return None;
        }
        if !interval_over(self.last_emit, now) {
            return None;
        }
        self.last_emit = Some(now);
        Some(self.update(packets_written, current))
    }

    /// Report whatever the time.
    pub fn finish(&mut self, now: u64, packets_written: u64, current: Position) -> (r: Option<
        ProgressUpdate,
    >)
        ensures
            final(self).subscribed == old(self).subscribed,
            final(self).op@ == old(self).op@,
            final(self).total == old(self).total,
            r is Some <==> old(self).subscribed,
            r is Some ==> final(self).last_emit == Some(now) && reports(
                r->0,
                *old(self),
                packets_written,
                current,
            ),
            r is None ==> final(self).last_emit == old(self).last_emit,
    {
        if !self.subscribed {
            return None;
        }
        self.last_emit = Some(now);
        Some(self.update(packets_written, current))
    }
}

/// A report carries the operation, the count and the position that it was
/// asked for, and the emitter's own total; reports on different counts
/// differ.
pub proof fn law_reports_carry_the_counts(
    u: ProgressUpdate,
    e: ProgressEmitter,
    packets_written: u64,
    current: Position,
)
    requires
        reports(u, e, packets_written, current),
    ensures
        u.packets_written == packets_written,
        u.current.ticks == current.ticks,
        u.current.num == current.num,
        u.current.den == current.den,
        u.total == e.total,
        u.op@ == e.op@,
{
}

} // verus!
