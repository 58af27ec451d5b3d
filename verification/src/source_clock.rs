//! Where decoded audio frames belong among the output's samples.
//!
//! Input time stamps count in ticks that are often much longer than a
//! sample, so the times of frames that follow each other without a gap are
//! rounded, and jump by a little. A frame is therefore held against the end
//! of the samples before it, as counted from the last time stamp that was
//! trusted: only a frame that starts more than one tick later opens a gap.
//! What is told to the output is the length of the gap, in output samples.

use crate::media::{lemma_product_bound, Rational};
use vstd::prelude::*;

verus! {

/// The ticks and the rates between which times are converted.
#[derive(Debug, Clone, Copy, PartialEq, Eq, Structural)]
pub struct SourceTiming {
    /// The input's time base, in seconds: `num / den`.
    pub num: i32,
    pub den: i32,
    /// Samples per second in the input.
    pub rate_in: i32,
    /// Samples per second in the output.
    pub rate_out: i32,
}

/// The value, or one where it is not positive.
pub open spec fn positive(n: i32) -> i32 {
    if n > 0 {
        n
    } else {
        1
    }
}

fn at_least_one(n: i32) -> (r: i32)
    ensures
        r == positive(n),
{
    if n > 0 {
        n
    } else {
        1
    }
}

/// `a / b` rounded to the nearest integer, halves away from zero.
pub open spec fn nearest(a: int, b: int) -> int {
    if a >= 0 {
        (2 * a + b) / (2 * b)
    } else {
        -((b - 2 * a) / (2 * b))
    }
}

fn div_nearest(a: i128, b: i32) -> (r: i128)
    requires
        -0x2000_0000_0000_0000_0000_0000_0000_0000 <= a
            <= 0x2000_0000_0000_0000_0000_0000_0000_0000,
        b > 0,
    ensures
        r == nearest(a as int, b as int),
        -0x4000_0000_0000_0000_0000_0000_0000_0000 < r
            < 0x4000_0000_0000_0000_0000_0000_0000_0000,
{
    let d: i128 = 2 * (b as i128);
    let x: i128 = if a >= 0 {
        2 * a + b as i128
    } else {
        b as i128 - 2 * a
    };
    let q: i128 = x / d;
    assert(0 <= 2 * q <= x) by (nonlinear_arith)
        requires
            q == x as int / d as int,
            x >= 0,
            d >= 2,
    ;
    if a >= 0 {
        q
    } else {
        -q
    }
}

impl SourceTiming {
    /// All four numbers are positive.
    pub open spec fn valid(self) -> bool {
        &&& self.num > 0
        &&& self.den > 0
        &&& self.rate_in > 0
        &&& self.rate_out > 0
    }

    /// Timing between an input and an output; a number that is not
    /// positive counts as one.
    pub fn new(time_base: Rational, rate_in: i32, rate_out: i32) -> (t: SourceTiming)
        ensures
            t == (SourceTiming {
                num: positive(time_base.num),
                den: positive(time_base.den),
                rate_in: positive(rate_in),
                rate_out: positive(rate_out),
            }),
            t.valid(),
    {
        SourceTiming {
            num: at_least_one(time_base.num),
            den: at_least_one(time_base.den),
            rate_in: at_least_one(rate_in),
            rate_out: at_least_one(rate_out),
        }
    }

    /// An input time in output samples.
    pub open spec fn out_time(self, t: int) -> int {
        nearest(t * self.num * self.rate_out, self.den as int)
    }

    /// A number of input samples in output samples.
    pub open spec fn out_samples(self, n: nat) -> int {
        nearest(n * self.rate_out, self.rate_in as int)
    }

    /// How far an input time is beyond a number of input samples. The unit
    /// divides both a tick and a sample: `den * rate_in` of it are a
    /// second.
    pub open spec fn beyond(self, t: int, n: int) -> int {
        t * (self.num * self.rate_in) - n * self.den
    }

    /// One input tick in the unit of `beyond`.
    pub open spec fn tick(self) -> int {
        self.num * self.rate_in
    }

    fn output_place(&self, t: i64) -> (r: i128)
        requires
            self.valid(),
        ensures
            r == self.out_time(t as int),
            -0x4000_0000_0000_0000_0000_0000_0000_0000 < r
                < 0x4000_0000_0000_0000_0000_0000_0000_0000,
    {
        proof {
            lemma_product_bound(t, self.num, self.rate_out);
        }
        let ticks: i128 = (t as i128) * (self.num as i128);
        div_nearest(ticks * (self.rate_out as i128), self.den)
    }
}

/// What is known of the frames so far.
#[verifier::ext_equal]
pub struct SourceView {
    pub timing: SourceTiming,
    /// The time stamp that the samples are counted from, in input ticks;
    /// none before the first frame.
    pub anchor: Option<i64>,
    /// Input samples since then.
    pub samples: nat,
}

impl SourceView {
    /// Before the first frame.
    pub open spec fn empty(timing: SourceTiming) -> SourceView {
        SourceView { timing, anchor: None, samples: 0 }
    }

    /// Where the next frame belongs in the output if there is no gap.
    pub open spec fn expected(self) -> int {
        self.timing.out_time(self.anchor->0 as int) + self.timing.out_samples(self.samples)
    }

    /// Whether a frame at this time leaves a gap: it is more than one
    /// input tick after the end of the samples before it, and later in the
    /// output too.
    pub open spec fn is_gap(self, t: i64) -> bool {
        &&& self.timing.beyond(t - self.anchor->0, self.samples as int) > self.timing.tick()
        &&& self.timing.out_time(t as int) > self.expected()
    }

    /// Output samples to leave out before a frame with this time stamp:
    /// for the first frame its place in the output, zero when it has no
    /// time stamp; for a later one the length of the gap before it.
    pub open spec fn lead(self, ts: Option<i64>) -> int {
        match ts {
            Some(t) => if self.anchor is None {
                self.timing.out_time(t as int)
            } else if self.is_gap(t) {
                self.timing.out_time(t as int) - self.expected()
            } else {
                0
            },
            None => 0,
        }
    }

    /// After a frame of `n` samples.
    pub open spec fn after(self, ts: Option<i64>, n: nat) -> SourceView {
        match (self.anchor, ts) {
            (None, Some(t)) => SourceView { anchor: Some(t), samples: n, ..self },
            (None, None) => SourceView { anchor: Some(0), samples: n, ..self },
            (Some(_), Some(t)) => if self.is_gap(t) {
                SourceView { anchor: Some(t), samples: n, ..self }
            } else {
                SourceView { samples: self.samples + n, ..self }
            },
            (Some(_), None) => SourceView { samples: self.samples + n, ..self },
        }
    }
}

/// Follows the time stamps of decoded audio frames.
#[derive(Debug)]
pub struct SourceClock {
    timing: SourceTiming,
    anchor: Option<i64>,
    samples: u64,
}

impl View for SourceClock {
    type V = SourceView;

    closed spec fn view(&self) -> SourceView {
        SourceView {
            timing: self.timing,
            anchor: self.anchor,
            samples: self.samples as nat,
        }
    }
}

impl SourceClock {
    /// The timing is valid.
    pub closed spec fn wf(&self) -> bool {
        self.timing.valid()
    }

    /// A clock that has seen no frame.
    pub fn new(timing: SourceTiming) -> (c: Self)
        requires
            timing.valid(),
        ensures
            c.wf(),
            c@ == SourceView::empty(timing),
    {
        SourceClock { timing, anchor: None, samples: 0 }
    }

    /// Whether a frame of `n` samples fits the counter.
    pub fn fits(&self, n: u64) -> (b: bool)
        ensures
            b == (self@.samples + n <= u64::MAX),
    {
        n <= u64::MAX - self.samples
    }

    fn expected(&self, anchor: i64) -> (r: i128)
        requires
            self.wf(),
            self.anchor == Some(anchor),
        ensures
            r == self@.expected(),
            -0x4000_0000_0000_0000_0000_0000_0000_0000 < r
                < 0x5000_0000_0000_0000_0000_0000_0000_0000,
    {
        let n: u64 = self.samples;
        let rate: i32 = self.timing.rate_out;
        assert(0 <= n * rate <= 0x8000_0000_0000_0000_0000_0000) by (nonlinear_arith)
            requires
                0 <= n <= 0xffff_ffff_ffff_ffff,
                0 < rate <= 0x7fff_ffff,
        ;
        let scaled: i128 = (n as i128) * (rate as i128);
        let counted: i128 = div_nearest(scaled, self.timing.rate_in);
        proof {
            lemma_nearest_bound(scaled as int, self.timing.rate_in as int);
        }
        self.timing.output_place(anchor) + counted
    }

    fn leaves_gap(&self, anchor: i64, t: i64) -> (r: Option<i128>)
        requires
            self.wf(),
            self.anchor == Some(anchor),
        ensures
            r is Some <==> self@.is_gap(t),
            r is Some ==> r->0 == self@.timing.out_time(t as int) - self@.expected(),
    {
        let ticks: i128 = t as i128 - anchor as i128;
        proof {
            lemma_beyond_bound(self.timing, ticks as int, self.samples);
        }
        let unit: i128 = self.timing.num as i128 * self.timing.rate_in as i128;
        let beyond: i128 = ticks * unit - (self.samples as i128) * (self.timing.den as i128);
        if beyond <= unit {
            return None;
        }
        let place: i128 = self.timing.output_place(t);
        let expected: i128 = self.expected(anchor);
        if place > expected {
            Some(place - expected)
        } else {
            None
        }
    }

    /// Output samples to leave out before a frame with this time stamp.
    pub fn lead(&self, ts: Option<i64>) -> (r: i128)
        requires
            self.wf(),
        ensures
            r == self@.lead(ts),
    {
        match ts {
            Some(t) => match self.anchor {
                None => self.timing.output_place(t),
                Some(anchor) => match self.leaves_gap(anchor, t) {
                    Some(gap) => gap,
                    None => 0,
                },
            },
            None => 0,
        }
    }

    /// A frame of `n` samples with this time stamp passes.
    pub fn pass(&mut self, ts: Option<i64>, n: u64)
        requires
            old(self).wf(),
            old(self)@.samples + n <= u64::MAX,
        ensures
            final(self).wf(),
            final(self)@ == old(self)@.after(ts, n as nat),
    {
        let ghost before = self@;
        match self.anchor {
            None => {
                let t: i64 = match ts {
                    Some(t) => t,
                    None => 0,
                };
                self.anchor = Some(t);
                self.samples = n;
            },
            Some(anchor) => {
                let gap: bool = match ts {
                    Some(t) => self.leaves_gap(anchor, t).is_some(),
                    None => false,
                };
                if gap {
                    self.anchor = ts;
                    self.samples = n;
                } else {
                    self.samples = self.samples + n;
                }
            },
        }
        assert(self@ =~= before.after(ts, n as nat));
    }
}

proof fn lemma_nearest_bound(a: int, b: int)
    requires
        0 <= a,
        b > 0,
    ensures
        0 <= nearest(a, b) <= a + 1,
{
    let q: int = (2 * a + b) / (2 * b);
    assert(0 <= q <= a + 1) by (nonlinear_arith)
        requires
            q == (2 * a + b) / (2 * b),
            a >= 0,
            b > 0,
    ;
}

proof fn lemma_beyond_bound(timing: SourceTiming, ticks: int, samples: u64)
    requires
        timing.valid(),
        -0x1_0000_0000_0000_0000 < ticks < 0x1_0000_0000_0000_0000,
    ensures
        0 < timing.num * timing.rate_in <= 0x4000_0000_0000_0000,
        -0x4000_0000_0000_0000_0000_0000_0000_0000 <= ticks * (timing.num * timing.rate_in)
            <= 0x4000_0000_0000_0000_0000_0000_0000_0000,
        0 <= samples * timing.den <= 0x8000_0000_0000_0000_0000_0000,
{
    let num: int = timing.num as int;
    let rate: int = timing.rate_in as int;
    assert(0 < num * rate <= 0x4000_0000_0000_0000) by (nonlinear_arith)
        requires
            0 < num <= 0x7fff_ffff,
            0 < rate <= 0x7fff_ffff,
    ;
    let unit: int = num * rate;
    assert(-0x4000_0000_0000_0000_0000_0000_0000_0000 <= ticks * unit
        <= 0x4000_0000_0000_0000_0000_0000_0000_0000) by (nonlinear_arith)
        requires
            -0x1_0000_0000_0000_0000 < ticks < 0x1_0000_0000_0000_0000,
            0 < unit <= 0x4000_0000_0000_0000,
    ;
    let n: int = samples as int;
    let den: int = timing.den as int;
    assert(0 <= n * den <= 0x8000_0000_0000_0000_0000_0000) by (nonlinear_arith)
        requires
            0 <= n <= 0xffff_ffff_ffff_ffff,
            0 < den <= 0x7fff_ffff,
    ;
}

/// The origin of the input's times is the origin of the output's.
pub proof fn law_zero_stays_zero(timing: SourceTiming)
    requires
        timing.valid(),
    ensures
        timing.out_time(0) == 0,
        timing.out_samples(0) == 0,
{
    assert(0 * timing.num * timing.rate_out == 0) by (nonlinear_arith);
    let d: int = timing.den as int;
    let r: int = timing.rate_in as int;
    assert(d / (2 * d) == 0) by (nonlinear_arith)
        requires
            d > 0,
    ;
    assert(r / (2 * r) == 0) by (nonlinear_arith)
        requires
            r > 0,
    ;
}

/// Later frames only ever move the output forward.
pub proof fn law_lead_is_not_negative(v: SourceView, ts: Option<i64>)
    requires
        v.anchor is Some,
    ensures
        v.lead(ts) >= 0,
{
}

/// A frame after a gap goes exactly to its own time, and the samples are
/// counted from there on.
pub proof fn law_gap_leads_to_the_time(v: SourceView, t: i64, n: nat)
    requires
        v.timing.valid(),
        v.anchor is Some,
        v.is_gap(t),
    ensures
        v.lead(Some(t)) > 0,
        v.expected() + v.lead(Some(t)) == v.timing.out_time(t as int),
        v.after(Some(t), n).expected() == v.timing.out_time(t as int) + v.timing.out_samples(n),
{
}

/// The samples in a list of frames, each a time stamp and a sample count.
pub open spec fn frame_samples(frames: Seq<(Option<i64>, nat)>) -> nat
    decreases frames.len(),
{
    if frames.len() == 0 {
        0
    } else {
        frame_samples(frames.drop_last()) + frames.last().1
    }
}

/// What is known after a list of frames.
pub open spec fn after_frames(v: SourceView, frames: Seq<(Option<i64>, nat)>) -> SourceView
    decreases frames.len(),
{
    if frames.len() == 0 {
        v
    } else {
        after_frames(v, frames.drop_last()).after(frames.last().0, frames.last().1)
    }
}

/// The time stamps follow the sample count, which begins at `start`: the
/// difference between the two stays within a span of one tick.
pub open spec fn follows_samples(
    timing: SourceTiming,
    start: int,
    bias: int,
    frames: Seq<(Option<i64>, nat)>,
) -> bool {
    forall|i: int|
        0 <= i < frames.len() && (#[trigger] frames[i]).0 is Some ==> bias <= timing.beyond(
            frames[i].0->0 as int,
            start + frame_samples(frames.take(i)),
        ) <= bias + timing.tick()
}

/// While time stamps follow the sample count, all samples are counted from
/// the first one.
proof fn lemma_counted_from_first(
    timing: SourceTiming,
    start: int,
    bias: int,
    frames: Seq<(Option<i64>, nat)>,
)
    requires
        timing.valid(),
        follows_samples(timing, start, bias, frames),
        frames.len() > 0,
        frames[0].0 is Some,
    ensures
        after_frames(SourceView::empty(timing), frames) == (SourceView {
            timing,
            anchor: frames[0].0,
            samples: frame_samples(frames),
        }),
    decreases frames.len(),
{
    let front = frames.drop_last();
    reveal_with_fuel(after_frames, 2);
    reveal_with_fuel(frame_samples, 2);
    if front.len() == 0 {
        assert(frames.last() == frames[0]);
    } else {
        lemma_prefix_follows(timing, start, bias, frames, front.len() as int);
        assert(front =~= frames.take(front.len() as int));
        lemma_counted_from_first(timing, start, bias, front);
        lemma_no_gap(timing, start, bias, frames, front.len() as int);
    }
}

pub proof fn lemma_prefix_follows(
    timing: SourceTiming,
    start: int,
    bias: int,
    frames: Seq<(Option<i64>, nat)>,
    k: int,
)
    requires
        follows_samples(timing, start, bias, frames),
        0 <= k <= frames.len(),
    ensures
        follows_samples(timing, start, bias, frames.take(k)),
{
    let front = frames.take(k);
    assert forall|i: int| 0 <= i < front.len() && (#[trigger] front[i]).0 is Some implies bias
        <= timing.beyond(front[i].0->0 as int, start + frame_samples(front.take(i))) <= bias
        + timing.tick() by {
        assert(front[i] == frames[i]);
        assert(front.take(i) =~= frames.take(i));
    }
}

proof fn lemma_no_gap(
    timing: SourceTiming,
    start: int,
    bias: int,
    frames: Seq<(Option<i64>, nat)>,
    k: int,
)
    requires
        follows_samples(timing, start, bias, frames),
        0 < k < frames.len(),
        frames[0].0 is Some,
    ensures
        frames[k].0 is Some ==> !(SourceView {
            timing,
            anchor: frames[0].0,
            samples: frame_samples(frames.take(k)),
        }).is_gap(frames[k].0->0),
{
    if frames[k].0 is Some {
        let t: int = frames[k].0->0 as int;
        let a: int = frames[0].0->0 as int;
        let n: int = frame_samples(frames.take(k)) as int;
        let unit: int = timing.num * timing.rate_in;
        let den: int = timing.den as int;
        assert(frames.take(0).len() == 0);
        assert(timing.beyond(t, start + n) <= bias + unit);
        assert(bias <= timing.beyond(a, start));
        assert((t - a) * unit - n * den == (t * unit - (start + n) * den) - (a * unit - start
            * den)) by (nonlinear_arith);
    }
}

/// Frames whose time stamps follow the sample count leave no gap after the
/// first, however coarse the ticks are.
pub proof fn law_no_gap_while_following(
    timing: SourceTiming,
    start: int,
    bias: int,
    frames: Seq<(Option<i64>, nat)>,
    k: int,
)
    requires
        timing.valid(),
        follows_samples(timing, start, bias, frames),
        0 < k < frames.len(),
        frames[0].0 is Some,
    ensures
        after_frames(SourceView::empty(timing), frames.take(k)).lead(frames[k].0) == 0,
{
    lemma_prefix_follows(timing, start, bias, frames, k);
    lemma_counted_from_first(timing, start, bias, frames.take(k));
    lemma_no_gap(timing, start, bias, frames, k);
}

/// How a time is rounded to a tick.
pub enum Rounding {
    Down,
    Nearest,
    Up,
}

/// The time of a sample count, rounded to a tick.
pub open spec fn rounded(timing: SourceTiming, rounding: Rounding, n: int) -> int {
    match rounding {
        Rounding::Down => (n * timing.den) / timing.tick(),
        Rounding::Nearest => nearest(n * timing.den, timing.tick()),
        Rounding::Up => -((-(n * timing.den)) / timing.tick()),
    }
}

/// How far rounding can go down.
pub open spec fn rounding_bias(timing: SourceTiming, rounding: Rounding) -> int {
    match rounding {
        Rounding::Down => -timing.tick(),
        Rounding::Nearest => -(timing.tick() / 2),
        Rounding::Up => 0,
    }
}

proof fn lemma_rounding_bounds(a: int, b: int)
    requires
        b > 0,
    ensures
        -b < (a / b) * b - a <= 0,
        0 <= -((-a) / b) * b - a < b,
        -b <= 2 * (nearest(a, b) * b - a) <= b,
{
    assert(-b < (a / b) * b - a <= 0) by (nonlinear_arith)
        requires
            b > 0,
    ;
    let c: int = -a;
    assert(-b < (c / b) * b - c <= 0) by (nonlinear_arith)
        requires
            b > 0,
    ;
    let u: int = (-a) / b;
    assert((-u) * b == -(u * b)) by (nonlinear_arith);
    let m: int = if a >= 0 {
        2 * a + b
    } else {
        b - 2 * a
    };
    let q: int = m / (2 * b);
    assert(0 <= m - q * (2 * b) < 2 * b) by (nonlinear_arith)
        requires
            q == m / (2 * b),
            b > 0,
    ;
    assert(q * (2 * b) == 2 * (q * b)) by (nonlinear_arith);
    assert((-q) * b == -(q * b)) by (nonlinear_arith);
}

/// Rounding a sample count to a tick follows the sample count.
pub proof fn law_rounding_follows_samples(timing: SourceTiming, rounding: Rounding, n: int)
    requires
        timing.valid(),
    ensures
        rounding_bias(timing, rounding) <= timing.beyond(rounded(timing, rounding, n), n)
            <= rounding_bias(timing, rounding) + timing.tick(),
{
    assert(timing.num * timing.rate_in > 0) by (nonlinear_arith)
        requires
            timing.num > 0,
            timing.rate_in > 0,
    ;
    lemma_rounding_bounds(n * timing.den, timing.tick());
}

/// Frames whose time stamps are the running sample count, rounded to ticks
/// of any length, leave no gap.
pub proof fn law_rounded_times_leave_no_gap(
    timing: SourceTiming,
    rounding: Rounding,
    start: int,
    frames: Seq<(Option<i64>, nat)>,
    k: int,
)
    requires
        timing.valid(),
        forall|i: int|
            0 <= i < frames.len() ==> (#[trigger] frames[i]).0 is Some && frames[i].0->0 == rounded(
                timing,
                rounding,
                start + frame_samples(frames.take(i)),
            ),
        0 < k < frames.len(),
    ensures
        after_frames(SourceView::empty(timing), frames.take(k)).lead(frames[k].0) == 0,
{
    let bias = rounding_bias(timing, rounding);
    assert forall|i: int| 0 <= i < frames.len() && (#[trigger] frames[i]).0 is Some implies bias
        <= timing.beyond(frames[i].0->0 as int, start + frame_samples(frames.take(i))) <= bias
        + timing.tick() by {
        law_rounding_follows_samples(timing, rounding, start + frame_samples(frames.take(i)));
    }
    law_no_gap_while_following(timing, start, bias, frames, k);
}

/// A rounded quotient is never more than half a divisor off, halves go away
/// from zero, and rounding does not depend on the sign.
pub proof fn law_nearest(a: int, b: int)
    requires
        b > 0,
    ensures
        -b <= 2 * (nearest(a, b) * b - a) <= b,
        a >= 0 && 2 * (nearest(a, b) * b - a) != b ==> 2 * (nearest(a, b) * b - a) > -b,
        nearest(-a, b) == -nearest(a, b),
{
    lemma_rounding_bounds(a, b);
    let q: int = (2 * a + b) / (2 * b);
    if a >= 0 {
        assert(2 * a + b - q * (2 * b) < 2 * b) by (nonlinear_arith)
            requires
                q == (2 * a + b) / (2 * b),
                b > 0,
        ;
        assert(q * (2 * b) == 2 * (q * b)) by (nonlinear_arith);
    }
    if a == 0 {
        assert(b / (2 * b) == 0) by (nonlinear_arith)
            requires
                b > 0,
        ;
    }
}

/// An input time and a sample count come out in output samples to within
/// half a sample of what they are in seconds.
pub proof fn law_times_are_converted(timing: SourceTiming, t: int, n: nat)
    requires
        timing.valid(),
    ensures
        -timing.den <= 2 * (timing.out_time(t) * timing.den - t * timing.num * timing.rate_out)
            <= timing.den,
        -timing.rate_in <= 2 * (timing.out_samples(n) * timing.rate_in - n * timing.rate_out)
            <= timing.rate_in,
{
    lemma_rounding_bounds(t * timing.num * timing.rate_out, timing.den as int);
    lemma_rounding_bounds(n * timing.rate_out, timing.rate_in as int);
}

/// A gap is found exactly when a frame starts more than one input tick
/// after the end of the samples counted from the anchor, and later in the
/// output than they end there.
pub proof fn law_what_a_gap_is(v: SourceView, t: i64)
    requires
        v.anchor is Some,
    ensures
        v.is_gap(t) <==> (t - v.anchor->0) * (v.timing.num * v.timing.rate_in) - v.samples
            * v.timing.den > v.timing.num * v.timing.rate_in && v.timing.out_time(t as int)
            > v.timing.out_time(v.anchor->0 as int) + v.timing.out_samples(v.samples),
{
}

/// The samples of a frame are counted from the first time stamp, or from
/// the one behind the last gap; a first frame without one counts from zero.
pub proof fn law_samples_are_counted(v: SourceView, ts: Option<i64>, n: nat)
    ensures
        v.after(ts, n).timing == v.timing,
        v.after(ts, n).anchor is Some,
        v.anchor is None && ts is Some ==> v.after(ts, n).anchor == ts && v.after(ts, n).samples
            == n,
        v.anchor is None && ts is None ==> v.after(ts, n).anchor == Some(0i64) && v.after(
            ts,
            n,
        ).samples == n,
        v.anchor is Some && (ts is None || !v.is_gap(ts->0)) ==> v.after(ts, n).anchor == v.anchor
            && v.after(ts, n).samples == v.samples + n,
        v.anchor is Some && ts is Some && v.is_gap(ts->0) ==> v.after(ts, n).anchor == ts
            && v.after(ts, n).samples == n,
        v.anchor is None ==> (ts matches Some(t) ==> v.lead(ts) == v.timing.out_time(t as int)),
        ts is None ==> v.lead(ts) == 0,
        v.anchor is Some && ts is Some && !v.is_gap(ts->0) ==> v.lead(ts) == 0,
{
}

/// A number that is not positive counts as one; any other is kept.
pub proof fn law_positive(n: i32)
    ensures
        n >= 1 ==> positive(n) == n,
        n < 1 ==> positive(n) == 1,
{
}

} // verus!
