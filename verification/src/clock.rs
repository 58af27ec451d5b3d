//! Time stamps for buffered audio samples.
//!
//! Every sample that enters the buffer gets a time stamp, one tick after
//! the sample before it. A gap in the source moves the running position
//! forward, so it stays a gap. Nothing moves the position back, so time
//! stamps always increase.

use vstd::prelude::*;

verus! {

/// Each value is larger than the ones before it.
pub open spec fn increasing(q: Seq<int>) -> bool {
    forall|i: int, j: int| 0 <= i < j < q.len() ==> #[trigger] q[i] < #[trigger] q[j]
}

/// Every value is before a known end.
pub open spec fn all_before(q: Seq<int>, end: Option<int>) -> bool {
    &&& q.len() == 0 || end is Some
    &&& forall|i: int| 0 <= i < q.len() ==> #[trigger] q[i] < end->0
}

/// The buffered samples' time stamps, in buffer order, and the running
/// position.
#[verifier::ext_equal]
pub struct ClockView {
    /// Time stamps of the samples in the buffer.
    pub queue: Seq<int>,
    /// The time stamp of the next sample; unknown before the first frame.
    pub end: Option<int>,
    /// Samples that ever entered.
    pub pushed: nat,
    /// Samples that left.
    pub popped: nat,
}

impl ClockView {
    /// An empty buffer whose position is not known yet.
    pub open spec fn empty() -> ClockView {
        ClockView { queue: seq![], end: None, pushed: 0, popped: 0 }
    }

    /// A frame is about to enter that leaves this many ticks out. The
    /// first frame sets the position; a later one moves it forward.
    pub open spec fn announce(self, lead: int) -> ClockView {
        let end = match self.end {
            None => lead,
            Some(e) => e + lead,
        };
        ClockView { end: Some(end), ..self }
    }

    /// `n` samples enter, at consecutive time stamps.
    pub open spec fn push(self, n: nat) -> ClockView {
        ClockView {
            queue: self.queue + Seq::new(n, |i: int| self.end->0 + i),
            end: Some(self.end->0 + n),
            pushed: self.pushed + n,
            popped: self.popped,
        }
    }

    /// The first `n` samples leave.
    pub open spec fn pop(self, n: nat) -> ClockView {
        ClockView {
            queue: self.queue.skip(n as int),
            end: self.end,
            pushed: self.pushed,
            popped: self.popped + n,
        }
    }

    /// Time stamps increase, the position is after all of them, and what
    /// entered either left or is still there.
    pub open spec fn inv(self) -> bool {
        &&& increasing(self.queue)
        &&& all_before(self.queue, self.end)
        &&& self.pushed == self.popped + self.queue.len()
    }
}

/// The samples are numbered from `base` without gaps: the position is
/// `base` plus the number of samples that entered, and every buffered
/// sample carries its number.
pub open spec fn counts_from(c: ClockView, base: int) -> bool {
    &&& c.end is None ==> c.pushed == 0
    &&& c.end is Some ==> c.end->0 == base + c.pushed
    &&& forall|i: int| 0 <= i < c.queue.len() ==> #[trigger] c.queue[i] == base + c.popped + i
}

/// Samples from `start` on carry time stamps from `pts` on.
#[derive(Debug, Clone, Copy)]
pub struct Mark {
    pub start: u64,
    pub pts: i64,
}

/// The time stamp of sample `k`: counted from the last mark at or before
/// it.
pub open spec fn sample_pts(marks: Seq<Mark>, k: int) -> int
    decreases marks.len(),
{
    if marks.len() == 0 {
        0
    } else if k >= marks.last().start || marks.len() == 1 {
        marks.last().pts + (k - marks.last().start)
    } else {
        sample_pts(marks.drop_last(), k)
    }
}

/// Assigns a time stamp to every sample that passes through a buffer.
#[derive(Debug)]
pub struct SampleClock {
    marks: Vec<Mark>,
    end: Option<i64>,
    pushed: u64,
    popped: u64,
}

impl View for SampleClock {
    type V = ClockView;

    closed spec fn view(&self) -> ClockView {
        ClockView {
            queue: Seq::new(
                (self.pushed - self.popped) as nat,
                |i: int| sample_pts(self.marks@, self.popped + i),
            ),
            end: match self.end {
                Some(e) => Some(e as int),
                None => None,
            },
            pushed: self.pushed as nat,
            popped: self.popped as nat,
        }
    }
}

/// Dropping the first mark changes nothing for samples at or after the
/// second.
proof fn lemma_drop_first_mark(marks: Seq<Mark>, k: int)
    requires
        marks.len() >= 2,
        k >= marks[1].start,
        forall|i: int, j: int|
            0 <= i < j < marks.len() ==> (#[trigger] marks[i]).start < (#[trigger] marks[j]).start,
    ensures
        sample_pts(marks.drop_first(), k) == sample_pts(marks, k),
    decreases marks.len(),
{
    let rest = marks.drop_first();
    assert(rest.last() == marks.last());
    if k >= marks.last().start {
    } else {
        assert(marks.len() > 2);
        let front = marks.drop_last();
        assert forall|i: int, j: int| 0 <= i < j < front.len() implies (#[trigger] front[i]).start
            < (#[trigger] front[j]).start by {
            assert(marks[i].start < marks[j].start);
        }
        assert(front[1] == marks[1]);
        lemma_drop_first_mark(front, k);
        assert(front.drop_first() =~= rest.drop_last());
    }
}

/// A mark appended after every sample so far changes nothing for samples
/// before it.
proof fn lemma_push_mark(marks: Seq<Mark>, m: Mark, k: int)
    requires
        marks.len() >= 1,
        k < m.start,
    ensures
        sample_pts(marks.push(m), k) == sample_pts(marks, k),
{
    assert(marks.push(m).drop_last() =~= marks);
}

/// Moving the last mark's time stamp changes nothing for samples before
/// it.
proof fn lemma_move_mark(marks: Seq<Mark>, m: Mark, k: int)
    requires
        marks.len() >= 2,
        m.start == marks.last().start,
        k < m.start,
    ensures
        sample_pts(marks.update(marks.len() - 1, m), k) == sample_pts(marks, k),
{
    assert(marks.update(marks.len() - 1, m).drop_last() =~= marks.drop_last());
}

impl SampleClock {
    /// The marks are in order, the first one covers the oldest buffered
    /// sample, none lies beyond the newest, and the position is one tick
    /// after the newest.
    pub closed spec fn wf(&self) -> bool {
        &&& self.popped <= self.pushed
        &&& self.end is None <==> self.marks@.len() == 0
        &&& self.marks@.len() == 0 ==> self.pushed == 0
        &&& self.marks@.len() > 0 ==> {
            &&& self.marks@[0].start <= self.popped
            &&& self.marks@.last().start <= self.pushed
            &&& self.end->0 == sample_pts(self.marks@, self.pushed as int)
        }
        &&& forall|i: int, j: int|
            0 <= i < j < self.marks@.len() ==> (#[trigger] self.marks@[i]).start < (
            #[trigger] self.marks@[j]).start
        &&& self@.inv()
    }

    /// A well-formed clock keeps its order.
    pub proof fn lemma_inv(&self)
        requires
            self.wf(),
        ensures
            self@.inv(),
    {
    }

    /// A clock for an empty buffer.
    pub fn new() -> (c: Self)
        ensures
            c.wf(),
            c@ == ClockView::empty(),
    {
        let c = SampleClock { marks: Vec::new(), end: None, pushed: 0, popped: 0 };
        assert(c@ =~= ClockView::empty());
        c
    }

    /// Samples in the buffer.
    pub fn buffered(&self) -> (n: u64)
        requires
            self.wf(),
        ensures
            n == self@.queue.len(),
    {
        self.pushed - self.popped
    }

    /// Samples that left the buffer.
    pub fn taken(&self) -> (n: u64)
        ensures
            n == self@.popped,
    {
        self.popped
    }

    /// Whether a frame of `n` samples that leaves `lead` ticks out fits
    /// the counters.
    pub fn fits(&self, lead: i64, n: u64) -> (b: bool)
        requires
            self.wf(),
        ensures
            b == (self@.pushed + n <= u64::MAX && self@.announce(lead as int).end->0 + n
                <= i64::MAX),
    {
        let base: i128 = match self.end {
            None => lead as i128,
            Some(e) => e as i128 + lead as i128,
        };
        n <= u64::MAX - self.pushed && base + (n as i128) <= i64::MAX as i128
    }

    /// A frame is about to enter that leaves `lead` ticks out.
    pub fn announce(&mut self, lead: i64)
        requires
            old(self).wf(),
            old(self)@.end is Some ==> lead >= 0,
            old(self)@.announce(lead as int).end->0 <= i64::MAX,
        ensures
            final(self).wf(),
            final(self)@ == old(self)@.announce(lead as int),
    {
        let ghost before = self@;
        let ghost marks0 = self.marks@;
        match self.end {
            None => {
                self.marks.push(Mark { start: self.pushed, pts: lead });
                self.end = Some(lead);
            },
            Some(e) => {
                if lead > 0 {
                    let t: i64 = e + lead;
                    let n: usize = self.marks.len();
                    let last: Mark = self.marks[n - 1];
                    let m = Mark { start: self.pushed, pts: t };
                    if last.start == self.pushed {
                        self.marks.set(n - 1, m);
                        proof {
                            assert(self.marks@ =~= marks0.update(n - 1, m));
                            assert forall|k: int| self.popped <= k < self.pushed implies
                                sample_pts(self.marks@, k) == #[trigger] sample_pts(marks0, k) by {
                                lemma_move_mark(marks0, m, k);
                            }
                        }
                    } else {
                        self.marks.push(m);
                        proof {
                            assert(self.marks@ =~= marks0.push(m));
                            assert forall|k: int| self.popped <= k < self.pushed implies
                                sample_pts(self.marks@, k) == #[trigger] sample_pts(marks0, k) by {
                                lemma_push_mark(marks0, m, k);
                            }
                        }
                    }
                    self.end = Some(t);
                    assert(self@.queue =~= before.queue);
                }
            },
        }
        assert(self@ =~= before.announce(lead as int));
    }

    /// `n` samples enter.
    pub fn push(&mut self, n: u64)
        requires
            old(self).wf(),
            old(self)@.end is Some,
            old(self)@.pushed + n <= u64::MAX,
            old(self)@.end->0 + n <= i64::MAX,
        ensures
            final(self).wf(),
            final(self)@ == old(self)@.push(n as nat),
    {
        let ghost before = self@;
        let e: i64 = self.end.unwrap();
        self.pushed = self.pushed + n;
        self.end = Some((e as i128 + n as i128) as i64);
        proof {
            assert(self@.queue =~= before.push(n as nat).queue);
        }
    }

    /// The first `n` samples leave; returns the time stamp of the first
    /// one, or the running position when the buffer is empty.
    pub fn pop(&mut self, n: u64) -> (pts: i64)
        requires
            old(self).wf(),
            old(self)@.end is Some,
            n <= old(self)@.queue.len(),
        ensures
            final(self).wf(),
            final(self)@ == old(self)@.pop(n as nat),
            pts == (if old(self)@.queue.len() > 0 {
                old(self)@.queue[0]
            } else {
                old(self)@.end->0
            }),
    {
        let ghost before = self@;
        let pts: i64 = self.front();
        self.popped = self.popped + n;
        assert(self@.queue =~= before.pop(n as nat).queue);
        while self.marks.len() >= 2 && self.marks[1].start <= self.popped
            invariant
                self.wf(),
                self@ == before.pop(n as nat),
                self.end is Some,
            decreases self.marks@.len(),
        {
            let ghost marks0 = self.marks@;
            let ghost view0 = self@;
            let _first: Mark = self.marks.remove(0);
            proof {
                assert(self.marks@ =~= marks0.drop_first());
                assert forall|k: int| self.popped <= k <= self.pushed implies sample_pts(
                    self.marks@,
                    k,
                ) == #[trigger] sample_pts(marks0, k) by {
                    lemma_drop_first_mark(marks0, k);
                }
                assert(self@.queue =~= view0.queue);
            }
        }
        pts
    }

    fn front(&self) -> (pts: i64)
        requires
            self.wf(),
            self.end is Some,
        ensures
            pts == (if self@.queue.len() > 0 {
                self@.queue[0]
            } else {
                self@.end->0
            }),
    {
        if self.pushed == self.popped {
            return self.end.unwrap();
        }
        let mut i: usize = self.marks.len() - 1;
        proof {
            assert(self.marks@.take(self.marks@.len() as int) =~= self.marks@);
        }
        while i > 0 && self.marks[i].start > self.popped
            invariant
                i < self.marks@.len(),
                self.wf(),
                self.marks@.len() > 0,
                sample_pts(self.marks@, self.popped as int) == sample_pts(
                    self.marks@.take(i + 1),
                    self.popped as int,
                ),
            decreases i,
        {
            assert(self.marks@.take(i + 1).drop_last() =~= self.marks@.take(i as int));
            i = i - 1;
        }
        let m: Mark = self.marks[i];
        assert(self.marks@.take(i + 1).last() == m);
        proof {
            assert(m.start <= self.popped);
            assert(self@.queue[0] == m.pts + (self.popped - m.start));
            assert(self@.queue[0] < self@.end->0);
        }
        (m.pts as i128 + (self.popped - m.start) as i128) as i64
    }
}

proof fn lemma_pop_keeps_order(v: ClockView, m: nat)
    requires
        v.inv(),
        m <= v.queue.len(),
    ensures
        v.pop(m).inv(),
{
    let q = v.queue.skip(m as int);
    assert(increasing(q)) by {
        assert forall|i: int, j: int| 0 <= i < j < q.len() implies #[trigger] q[i]
            < #[trigger] q[j] by {
            assert(v.queue[i + m] < v.queue[j + m]);
        }
    }
    assert(all_before(q, v.end)) by {
        assert forall|i: int| 0 <= i < q.len() implies #[trigger] q[i] < v.end->0 by {
            assert(v.queue[i + m] < v.end->0);
        }
    }
}

/// Announcing, pushing and popping keep the clock's invariant.
pub proof fn law_clock_keeps_order(v: ClockView, lead: int, n: nat, m: nat)
    requires
        v.inv(),
        v.end is Some ==> lead >= 0,
        m <= v.queue.len(),
    ensures
        v.announce(lead).inv(),
        v.announce(lead).push(n).inv(),
        v.pop(m).inv(),
{
    let a = v.announce(lead);
    let p = a.push(n);
    assert forall|i: int, j: int| 0 <= i < j < p.queue.len() implies #[trigger] p.queue[i]
        < #[trigger] p.queue[j] by {
        if j < a.queue.len() {
            assert(a.queue[i] < a.queue[j]);
        } else if i < a.queue.len() {
            assert(a.queue[i] < a.end->0);
        }
    }
    assert forall|i: int| 0 <= i < p.queue.len() implies #[trigger] p.queue[i] < p.end->0 by {
        if i < a.queue.len() {
            assert(a.queue[i] < a.end->0);
        }
    }
    lemma_pop_keeps_order(v, m);
}

/// What is taken out never overlaps what stays: after `n` samples that
/// start at `p` left, every later sample, in the buffer or still to come,
/// is at `p + n` or after.
pub proof fn law_frames_do_not_overlap(v: ClockView, n: nat)
    requires
        v.inv(),
        0 < n <= v.queue.len(),
    ensures
        forall|i: int|
            0 <= i < v.pop(n).queue.len() ==> #[trigger] v.pop(n).queue[i] >= v.queue[0] + n,
        v.pop(n).end is Some,
        v.pop(n).end->0 >= v.queue[0] + n,
{
    lemma_spacing(v.queue, (n - 1) as nat);
    assert(v.queue[n - 1] < v.end->0);
    assert forall|i: int| 0 <= i < v.pop(n).queue.len() implies #[trigger] v.pop(n).queue[i]
        >= v.queue[0] + n by {
        assert(v.pop(n).queue[i] == v.queue[i + n]);
        assert(v.queue[n - 1] < v.queue[i + n]);
    }
}

proof fn lemma_spacing(q: Seq<int>, k: nat)
    requires
        k < q.len(),
        increasing(q),
    ensures
        q[k as int] >= q[0] + k,
    decreases k,
{
    if k > 0 {
        lemma_spacing(q, (k - 1) as nat);
        assert(q[k - 1] < q[k as int]);
    }
}

/// Without a gap the samples stay numbered one after the other.
pub proof fn law_contiguous_without_gap(v: ClockView, base: int, n: nat, m: nat)
    requires
        v.inv(),
        counts_from(v, base),
        m <= v.queue.len(),
    ensures
        v.end is None ==> counts_from(v.announce(base), base),
        v.end is Some ==> v.announce(0) == v,
        v.end is Some ==> counts_from(v.push(n), base),
        counts_from(v.pop(m), base),
{
    let rest = v.pop(m);
    assert forall|i: int| 0 <= i < rest.queue.len() implies #[trigger] rest.queue[i] == base
        + rest.popped + i by {
        assert(rest.queue[i] == v.queue[i + m]);
    }
    assert(v.end is Some ==> v.announce(0) =~= v);
}

/// A gap moves the next sample by exactly its length; the first frame sets
/// the position.
pub proof fn law_gap_is_kept(v: ClockView, lead: int, n: nat)
    requires
        n > 0,
    ensures
        v.announce(lead).push(n).queue[v.queue.len() as int] == (match v.end {
            Some(e) => e + lead,
            None => lead,
        }),
{
}

/// Samples enter in order behind what is buffered, one tick apart from the
/// running position on, and leave from the front; nothing else changes.
pub proof fn law_samples_enter_and_leave_in_order(v: ClockView, lead: int, n: nat, m: nat, k: int)
    requires
        v.end is Some,
        m <= v.queue.len(),
    ensures
        v.announce(lead).end == Some(v.end->0 + lead),
        v.announce(lead).queue == v.queue,
        v.announce(lead).pushed == v.pushed,
        v.announce(lead).popped == v.popped,
        v.push(n).queue.len() == v.queue.len() + n,
        0 <= k < v.queue.len() ==> v.push(n).queue[k] == v.queue[k],
        v.queue.len() <= k < v.queue.len() + n ==> v.push(n).queue[k] == v.end->0 + (k
            - v.queue.len()),
        v.push(n).end == Some(v.end->0 + n),
        v.push(n).pushed == v.pushed + n,
        v.push(n).popped == v.popped,
        v.pop(m).queue.len() == v.queue.len() - m,
        0 <= k < v.queue.len() - m ==> v.pop(m).queue[k] == v.queue[k + m],
        v.pop(m).end == v.end,
        v.pop(m).pushed == v.pushed,
        v.pop(m).popped == v.popped + m,
        ClockView::empty().end is None,
        ClockView::empty().queue.len() == 0,
        ClockView::empty().pushed == 0,
        ClockView::empty().popped == 0,
{
}

} // verus!
