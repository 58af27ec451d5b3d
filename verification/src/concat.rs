//! Joining inputs without re-encoding.
//!
//! Every input is checked against the first one before the header is
//! written. Then the inputs are copied one after the other: the packets of
//! each move from the input's own start time to the end of what was
//! written before, so that the output starts at zero and has no gap at a
//! join. Decode times never go backwards.

use crate::cancel::{cancelled, cancelled_error};
use crate::concat_layout::{
    assert_layout_matches, count_error, first_mismatch, layouts_match, params_mismatch,
    stream_error, StreamParams,
};
use crate::errors::{error, ErrorView, NativeError};
use crate::media::{
    law_positions_compare_as_seconds, lemma_not_after_is_transitive, Position, Rational,
    AV_NOPTS_VALUE,
};
use vstd::prelude::*;

verus! {

/// Stands for "no packet yet" among the earliest allowed decode times.
pub const NO_FLOOR: i64 = -4611686018427387904;

/// The times of a packet, in the time base of its output stream.
#[derive(Debug, Clone, Copy, PartialEq, Eq, Structural)]
pub struct PacketTimes {
    pub pts: i64,
    pub dts: i64,
}

/// A time stamp moved by an offset; an unknown one stays unknown.
pub open spec fn moved(ts: int, offset: int) -> int {
    if ts == AV_NOPTS_VALUE {
        ts
    } else {
        ts + offset
    }
}

/// How much later a packet has to be so that its decode time reaches the
/// floor.
pub open spec fn deficit(dts: int, floor: int) -> int {
    if dts != AV_NOPTS_VALUE && dts < floor {
        floor - dts
    } else {
        0
    }
}

/// The length of a packet, at least one tick.
pub open spec fn packet_advance(duration: i64) -> int {
    if duration > 0 {
        duration as int
    } else {
        1
    }
}

/// A time stamp that fits and is not taken for unknown.
pub open spec fn is_timestamp(t: int) -> bool {
    AV_NOPTS_VALUE < t <= i64::MAX
}

/// Where each output stream is.
#[verifier::ext_equal]
pub struct TimelineView {
    /// Where the current input starts, per stream.
    pub offsets: Seq<i64>,
    /// The earliest decode time of the next packet, per stream.
    pub floors: Seq<i64>,
}

impl TimelineView {
    pub open spec fn initial(streams: nat) -> TimelineView {
        TimelineView {
            offsets: Seq::new(streams, |i: int| 0i64),
            floors: Seq::new(streams, |i: int| NO_FLOOR),
        }
    }

    pub open spec fn inv(self) -> bool {
        self.offsets.len() == self.floors.len()
    }

    /// By how much a packet of this stream moves: from the input's origin
    /// to the input's place, and further where its decode time would go
    /// backwards.
    pub open spec fn shift(self, i: int, origin: i64, dts: i64) -> int {
        let offset = self.offsets[i] - origin;
        offset + deficit(moved(dts as int, offset), self.floors[i] as int)
    }

    /// The times that a packet gets.
    pub open spec fn placed(self, i: int, origin: i64, t: PacketTimes) -> (int, int) {
        let s = self.shift(i, origin, t.dts);
        (moved(t.pts as int, s), moved(t.dts as int, s))
    }

    /// The numbers of a placement fit.
    pub open spec fn can_place(self, i: int, origin: i64, t: PacketTimes, duration: i64) -> bool {
        let offset = self.offsets[i] - origin;
        &&& i64::MIN <= offset <= i64::MAX
        &&& t.dts != AV_NOPTS_VALUE ==> is_timestamp(t.dts + offset)
        &&& t.pts != AV_NOPTS_VALUE ==> is_timestamp(t.pts + offset)
        &&& t.dts != AV_NOPTS_VALUE ==> {
            &&& deficit(moved(t.dts as int, offset), self.floors[i] as int) <= i64::MAX
            &&& is_timestamp(self.placed(i, origin, t).1)
            &&& is_timestamp(self.placed(i, origin, t).1 + packet_advance(duration))
        }
        &&& t.pts != AV_NOPTS_VALUE ==> is_timestamp(self.placed(i, origin, t).0)
    }

    /// The time line after a packet.
    pub open spec fn after_packet(
        self,
        i: int,
        origin: i64,
        t: PacketTimes,
        duration: i64,
    ) -> TimelineView {
        if t.dts == AV_NOPTS_VALUE {
            self
        } else {
            TimelineView {
                floors: self.floors.update(
                    i,
                    (self.placed(i, origin, t).1 + packet_advance(duration)) as i64,
                ),
                ..self
            }
        }
    }

    /// The time line after an input of known length: every stream moves by
    /// its own number of ticks.
    pub open spec fn after_known(self, increments: Seq<i64>) -> TimelineView {
        TimelineView {
            offsets: Seq::new(
                self.offsets.len(),
                |i: int| (self.offsets[i] + increments[i]) as i64,
            ),
            ..self
        }
    }

    /// The increments fit.
    pub open spec fn can_advance(self, increments: Seq<i64>) -> bool {
        &&& increments.len() == self.offsets.len()
        &&& forall|i: int|
            0 <= i < self.offsets.len() ==> i64::MIN <= #[trigger] self.offsets[i] + increments[i]
                <= i64::MAX
    }

    /// The time line after an input of unknown length: every stream moves
    /// to the end of the segment, never backwards.
    pub open spec fn after_unknown(self, ends: Seq<i64>) -> TimelineView {
        TimelineView {
            offsets: Seq::new(
                self.offsets.len(),
                |i: int|
                    if ends[i] > self.offsets[i] {
                        ends[i]
                    } else {
                        self.offsets[i]
                    },
            ),
            ..self
        }
    }
}

/// The output's time line.
#[derive(Debug)]
pub struct Timeline {
    offsets: Vec<i64>,
    floors: Vec<i64>,
}

impl View for Timeline {
    type V = TimelineView;

    closed spec fn view(&self) -> TimelineView {
        TimelineView { offsets: self.offsets@, floors: self.floors@ }
    }
}

impl Timeline {
    /// A time line that starts at zero.
    pub fn new(streams: usize) -> (t: Self)
        ensures
            t@.inv(),
            t@ == TimelineView::initial(streams as nat),
    {
        let mut offsets: Vec<i64> = Vec::new();
        let mut floors: Vec<i64> = Vec::new();
        for i in 0..streams
            invariant
                offsets@ == Seq::new(i as nat, |j: int| 0i64),
                floors@ == Seq::new(i as nat, |j: int| NO_FLOOR),
        {
            offsets.push(0);
            floors.push(NO_FLOOR);
            assert(offsets@ =~= Seq::new((i + 1) as nat, |j: int| 0i64));
            assert(floors@ =~= Seq::new((i + 1) as nat, |j: int| NO_FLOOR));
        }
        Timeline { offsets, floors }
    }

    /// Number of streams.
    pub fn streams(&self) -> (n: usize)
        ensures
            n == self@.offsets.len(),
    {
        self.offsets.len()
    }

    /// The output time that a stream has reached, once it has a packet.
    pub fn reached(&self, i: usize) -> (r: Option<i64>)
        requires
            self@.inv(),
            i < self@.offsets.len(),
        ensures
            r == (if self@.floors[i as int] > NO_FLOOR {
                Some(self@.floors[i as int])
            } else {
                None
            }),
    {
        let f: i64 = self.floors[i];
        if f > NO_FLOOR {
            Some(f)
        } else {
            None
        }
    }

    /// Whether the numbers of a placement fit.
    pub fn fits(&self, i: usize, origin: i64, t: PacketTimes, duration: i64) -> (b: bool)
        requires
            self@.inv(),
            i < self@.offsets.len(),
        ensures
            b == self@.can_place(i as int, origin, t, duration),
    {
        let lo: i128 = i64::MIN as i128;
        let hi: i128 = i64::MAX as i128;
        let offset: i128 = self.offsets[i] as i128 - origin as i128;
        let dts: i128 = t.dts as i128 + offset;
        let pts: i128 = t.pts as i128 + offset;
        let has_dts = t.dts != AV_NOPTS_VALUE;
        let has_pts = t.pts != AV_NOPTS_VALUE;
        let floor: i128 = self.floors[i] as i128;
        if offset < lo || offset > hi {
            return false;
        }
        if has_dts && !(lo < dts && dts <= hi) {
            return false;
        }
        if has_pts && !(lo < pts && pts <= hi) {
            return false;
        }
        let missing: i128 = if has_dts && dts < floor {
            floor - dts
        } else {
            0
        };
        let advance: i128 = if duration > 0 {
            duration as i128
        } else {
            1
        };
        if has_dts {
            if missing > hi {
                return false;
            }
            if !(lo < dts + missing && dts + missing <= hi) {
                return false;
            }
            if !(lo < dts + missing + advance && dts + missing + advance <= hi) {
                return false;
            }
        }
        !has_pts || (lo < pts + missing && pts + missing <= hi)
    }

    /// Give a packet its output times and move the stream's floor behind
    /// it.
    pub fn place(&mut self, i: usize, origin: i64, t: PacketTimes, duration: i64) -> (r:
        PacketTimes)
        requires
            old(self)@.inv(),
            i < old(self)@.offsets.len(),
            old(self)@.can_place(i as int, origin, t, duration),
        ensures
            final(self)@.inv(),
            final(self)@ == old(self)@.after_packet(i as int, origin, t, duration),
            (r.pts as int, r.dts as int) == old(self)@.placed(i as int, origin, t),
    {
        let ghost before = self@;
        let offset: i64 = self.offsets[i] - origin;
        let mut pts: i64 = t.pts;
        let mut dts: i64 = t.dts;
        if pts != AV_NOPTS_VALUE {
            pts = pts + offset;
        }
        if dts != AV_NOPTS_VALUE {
            dts = dts + offset;
            if dts < self.floors[i] {
                let missing: i64 = self.floors[i] - dts;
                dts = dts + missing;
                if pts != AV_NOPTS_VALUE {
                    pts = pts + missing;
                }
            }
            let advance: i64 = if duration > 0 {
                duration
            } else {
                1
            };
            self.floors.set(i, dts + advance);
        }
        assert(self@ =~= before.after_packet(i as int, origin, t, duration));
        PacketTimes { pts, dts }
    }

    /// Whether the increments of an input of known length fit.
    pub fn fits_increments(&self, increments: &Vec<i64>) -> (b: bool)
        ensures
            b == self@.can_advance(increments@),
    {
        if increments.len() != self.offsets.len() {
            return false;
        }
        for i in 0..self.offsets.len()
            invariant
                increments@.len() == self.offsets@.len(),
                forall|j: int|
                    0 <= j < i ==> i64::MIN <= #[trigger] self@.offsets[j] + increments@[j]
                        <= i64::MAX,
        {
            let sum: i128 = self.offsets[i] as i128 + increments[i] as i128;
            if sum < i64::MIN as i128 || sum > i64::MAX as i128 {
                assert(!(i64::MIN <= self@.offsets[i as int] + increments@[i as int] <= i64::MAX));
                return false;
            }
        }
        true
    }

    /// An input of known length is over.
    pub fn advance_known(&mut self, increments: &Vec<i64>)
        requires
            old(self)@.inv(),
            old(self)@.can_advance(increments@),
        ensures
            final(self)@.inv(),
            final(self)@ == old(self)@.after_known(increments@),
    {
        let ghost before = self@;
        let n: usize = self.offsets.len();
        for i in 0..n
            invariant
                n == self.offsets@.len(),
                before.can_advance(increments@),
                before.offsets.len() == n,
                self.floors@ == before.floors,
                forall|j: int| i <= j < n ==> #[trigger] self.offsets@[j] == before.offsets[j],
                forall|j: int|
                    0 <= j < i ==> #[trigger] self.offsets@[j] == before.offsets[j]
                        + increments@[j],
        {
            let current: i64 = self.offsets[i];
            assert(i64::MIN <= before.offsets[i as int] + increments@[i as int] <= i64::MAX);
            self.offsets.set(i, current + increments[i]);
        }
        assert(self@ =~= before.after_known(increments@));
    }

    /// An input of unknown length is over; `ends` is where the segment
    /// ends, per stream.
    pub fn advance_unknown(&mut self, ends: &Vec<i64>)
        requires
            old(self)@.inv(),
            ends@.len() == old(self)@.offsets.len(),
        ensures
            final(self)@.inv(),
            final(self)@ == old(self)@.after_unknown(ends@),
    {
        let ghost before = self@;
        let n: usize = self.offsets.len();
        for i in 0..n
            invariant
                n == self.offsets@.len(),
                ends@.len() == n,
                before.offsets.len() == n,
                self.floors@ == before.floors,
                forall|j: int| i <= j < n ==> #[trigger] self.offsets@[j] == before.offsets[j],
                forall|j: int|
                    0 <= j < i ==> #[trigger] self.offsets@[j] == before.after_unknown(
                        ends@,
                    ).offsets[j],
        {
            if ends[i] > self.offsets[i] {
                let e: i64 = ends[i];
                self.offsets.set(i, e);
            }
        }
        assert(self@ =~= before.after_unknown(ends@));
    }
}

/// The container start time that an input is moved from; an unknown one
/// counts as zero.
pub fn input_origin(start_time: i64) -> (r: i64)
    ensures
        r == (if start_time == AV_NOPTS_VALUE {
            0
        } else {
            start_time as int
        }),
{
    if start_time == AV_NOPTS_VALUE {
        0
    } else {
        start_time
    }
}

/// Where a stream ends that has reached this output time.
pub open spec fn stream_end(reached: i64, time_base: Rational) -> Position {
    Position { ticks: reached, num: time_base.num, den: time_base.den }
}

/// Stream `i` has a packet, and no stream ends after it.
pub open spec fn ends_last(reached: Seq<Option<i64>>, time_bases: Seq<Rational>, i: int) -> bool {
    &&& 0 <= i < reached.len()
    &&& reached[i] is Some
    &&& forall|j: int|
        0 <= j < reached.len() && (#[trigger] reached[j]) is Some ==> !stream_end(
            reached[j]->0,
            time_bases[j],
        ).is_after(stream_end(reached[i]->0, time_bases[i]))
}

/// Whether a segment's length is known, from the duration that its input
/// states. Where it is, the time line moves by that length; where it is
/// not, to the end of what was written.
pub fn length_is_known(duration: i64) -> (r: bool)
    ensures
        r == (duration > 0),
{
    duration > 0
}

/// The stream that ends last, which is where a segment of unknown length
/// ends for all streams alike, so that they stay in step. None when no
/// stream has a packet.
pub fn segment_leader(reached: &Vec<Option<i64>>, time_bases: &Vec<Rational>) -> (r: Option<usize>)
    requires
        reached@.len() == time_bases@.len(),
        forall|i: int| 0 <= i < time_bases@.len() ==> (#[trigger] time_bases@[i]).den != 0,
    ensures
        match r {
            Some(i) => ends_last(reached@, time_bases@, i as int),
            None => forall|i: int| 0 <= i < reached@.len() ==> (#[trigger] reached@[i]) is None,
        },
{
    let mut leader: Option<usize> = None;
    for i in 0..reached.len()
        invariant
            reached@.len() == time_bases@.len(),
            forall|j: int| 0 <= j < time_bases@.len() ==> (#[trigger] time_bases@[j]).den != 0,
            match leader {
                Some(l) => l < i && ends_last(
                    reached@.take(i as int),
                    time_bases@.take(i as int),
                    l as int,
                ),
                None => forall|j: int| 0 <= j < i ==> (#[trigger] reached@[j]) is None,
            },
    {
        let ghost ends = reached@.take(i + 1);
        let ghost bases = time_bases@.take(i + 1);
        let ghost ends0 = reached@.take(i as int);
        let ghost bases0 = time_bases@.take(i as int);
        if let Some(t) = reached[i] {
            let here = Position { ticks: t, num: time_bases[i].num, den: time_bases[i].den };
            match leader {
                None => {
                    leader = Some(i);
                    proof {
                        assert forall|j: int| 0 <= j < ends.len() && (
                        #[trigger] ends[j]) is Some implies !stream_end(
                            ends[j]->0,
                            bases[j],
                        ).is_after(stream_end(ends[i as int]->0, bases[i as int])) by {
                            assert(j == i);
                        }
                    }
                },
                Some(l) => {
                    let best = Position {
                        ticks: reached[l].unwrap(),
                        num: time_bases[l].num,
                        den: time_bases[l].den,
                    };
                    if here.after(&best) {
                        leader = Some(i);
                        proof {
                            assert forall|j: int| 0 <= j < ends.len() && (
                            #[trigger] ends[j]) is Some implies !stream_end(
                                ends[j]->0,
                                bases[j],
                            ).is_after(stream_end(ends[i as int]->0, bases[i as int])) by {
                                if j < i {
                                    assert(ends0[j] == ends[j]);
                                    assert(time_bases@[j].den != 0);
                                    lemma_not_after_is_transitive(
                                        stream_end(ends[j]->0, bases[j]),
                                        best,
                                        here,
                                    );
                                }
                            }
                        }
                    } else {
                        proof {
                            assert forall|j: int| 0 <= j < ends.len() && (
                            #[trigger] ends[j]) is Some implies !stream_end(
                                ends[j]->0,
                                bases[j],
                            ).is_after(stream_end(ends[l as int]->0, bases[l as int])) by {
                                if j < i {
                                    assert(ends0[j] == ends[j]);
                                }
                            }
                        }
                    }
                },
            }
        } else {
            proof {
                if leader is Some {
                    let l = leader->0;
                    assert forall|j: int| 0 <= j < ends.len() && (
                    #[trigger] ends[j]) is Some implies !stream_end(
                        ends[j]->0,
                        bases[j],
                    ).is_after(stream_end(ends[l as int]->0, bases[l as int])) by {
                        assert(j < i);
                        assert(ends0[j] == ends[j]);
                    }
                }
            }
        }
    }
    proof {
        assert(reached@.take(reached@.len() as int) =~= reached@);
        assert(time_bases@.take(time_bases@.len() as int) =~= time_bases@);
    }
    leader
}

/// Decode times of one stream strictly increase: a placed packet is not
/// before the floor, and the next floor is behind the packet.
pub proof fn law_decode_times_increase(
    v: TimelineView,
    i: int,
    origin: i64,
    t: PacketTimes,
    duration: i64,
)
    requires
        v.inv(),
        0 <= i < v.offsets.len(),
        v.can_place(i, origin, t, duration),
        t.dts != AV_NOPTS_VALUE,
    ensures
        v.floors[i] <= v.placed(i, origin, t).1,
        v.placed(i, origin, t).1 < v.after_packet(i, origin, t, duration).floors[i],
{
}

/// A packet of one stream does not touch the others, and never the
/// offsets.
pub proof fn law_streams_are_placed_independently(
    v: TimelineView,
    i: int,
    j: int,
    origin: i64,
    t: PacketTimes,
    duration: i64,
)
    requires
        v.inv(),
        0 <= i < v.offsets.len(),
        0 <= j < v.offsets.len(),
        i != j,
    ensures
        v.after_packet(i, origin, t, duration).floors[j] == v.floors[j],
        v.after_packet(i, origin, t, duration).offsets == v.offsets,
{
}

/// Presentation and decode time of a packet keep their distance, and an
/// unknown time stays unknown.
pub proof fn law_reordering_delay_is_kept(v: TimelineView, i: int, origin: i64, t: PacketTimes)
    ensures
        (t.pts != AV_NOPTS_VALUE && t.dts != AV_NOPTS_VALUE) ==> v.placed(i, origin, t).0
            - v.placed(i, origin, t).1 == t.pts - t.dts,
        t.pts == AV_NOPTS_VALUE ==> v.placed(i, origin, t).0 == AV_NOPTS_VALUE,
        t.dts == AV_NOPTS_VALUE ==> v.placed(i, origin, t).1 == AV_NOPTS_VALUE,
{
}

/// The output starts at zero: the first packet of the first input, when it
/// sits at the input's start time, gets time zero.
pub proof fn law_output_starts_at_zero(streams: nat, i: int, origin: i64)
    requires
        0 <= i < streams,
        origin != AV_NOPTS_VALUE,
    ensures
        TimelineView::initial(streams).placed(
            i,
            origin,
            PacketTimes { pts: origin, dts: origin },
        ) == (0int, 0int),
{
}

/// There is no gap at a join: after an input of known length, a packet at
/// the next input's start time lands exactly where the length ends, unless
/// the stream already wrote past it.
pub proof fn law_no_gap_at_a_join(v: TimelineView, increments: Seq<i64>, i: int, origin: i64)
    requires
        v.inv(),
        v.can_advance(increments),
        0 <= i < v.offsets.len(),
        origin != AV_NOPTS_VALUE,
        v.floors[i] <= v.offsets[i] + increments[i],
    ensures
        v.after_known(increments).placed(i, origin, PacketTimes { pts: origin, dts: origin }) == (
            v.offsets[i] + increments[i],
            v.offsets[i] + increments[i],
        ),
{
    assert(i64::MIN <= v.offsets[i] + increments[i] <= i64::MAX);
}

/// After an input of unknown length, a packet at the next input's start
/// time lands exactly at the end of the segment, in every stream that the
/// segment moves and that did not write past it.
pub proof fn law_no_gap_after_unknown_length(v: TimelineView, ends: Seq<i64>, i: int, origin: i64)
    requires
        v.inv(),
        ends.len() == v.offsets.len(),
        0 <= i < v.offsets.len(),
        origin != AV_NOPTS_VALUE,
        v.offsets[i] <= ends[i],
        v.floors[i] <= ends[i],
    ensures
        v.after_unknown(ends).placed(i, origin, PacketTimes { pts: origin, dts: origin }) == (
            ends[i] as int,
            ends[i] as int,
        ),
{
}

/// Within one input the spacing of packets is kept: a packet that does not
/// start before the end of the one before it follows at the same distance,
/// however long that is.
pub proof fn law_spacing_is_kept(
    v: TimelineView,
    i: int,
    origin: i64,
    a: PacketTimes,
    duration: i64,
    b: PacketTimes,
)
    requires
        v.inv(),
        0 <= i < v.offsets.len(),
        v.can_place(i, origin, a, duration),
        a.dts != AV_NOPTS_VALUE,
        b.dts != AV_NOPTS_VALUE,
        v.floors[i] <= a.dts + (v.offsets[i] - origin),
        a.dts + packet_advance(duration) <= b.dts,
    ensures
        ({
            let first = v.placed(i, origin, a);
            let second = v.after_packet(i, origin, a, duration).placed(i, origin, b);
            &&& second.1 - first.1 == b.dts - a.dts
            &&& (a.pts != AV_NOPTS_VALUE && b.pts != AV_NOPTS_VALUE) ==> second.0 - first.0
                == b.pts - a.pts
        }),
{
}

/// Offsets never move backwards.
pub proof fn law_offsets_never_go_back(v: TimelineView, increments: Seq<i64>, ends: Seq<i64>, i: int)
    requires
        v.inv(),
        v.can_advance(increments),
        ends.len() == v.offsets.len(),
        0 <= i < v.offsets.len(),
        increments[i] >= 0,
    ensures
        v.after_known(increments).offsets[i] >= v.offsets[i],
        v.after_unknown(ends).offsets[i] >= v.offsets[i],
        v.after_unknown(ends).offsets[i] >= ends[i],
{
    assert(i64::MIN <= v.offsets[i] + increments[i] <= i64::MAX);
}

/// Something that moves the time line.
pub enum TimelineInput {
    Packet { stream: int, origin: i64, times: PacketTimes, duration: i64 },
    Known { increments: Seq<i64> },
    Unknown { ends: Seq<i64> },
}

/// Whether the numbers of an input fit.
pub open spec fn timeline_accepts(v: TimelineView, x: TimelineInput) -> bool {
    match x {
        TimelineInput::Packet { stream, origin, times, duration } => 0 <= stream < v.offsets.len()
            && v.can_place(stream, origin, times, duration),
        TimelineInput::Known { increments } => v.can_advance(increments),
        TimelineInput::Unknown { ends } => ends.len() == v.offsets.len(),
    }
}

/// The time line after one input.
pub open spec fn timeline_after(v: TimelineView, x: TimelineInput) -> TimelineView {
    match x {
        TimelineInput::Packet { stream, origin, times, duration } => v.after_packet(
            stream,
            origin,
            times,
            duration,
        ),
        TimelineInput::Known { increments } => v.after_known(increments),
        TimelineInput::Unknown { ends } => v.after_unknown(ends),
    }
}

/// The time line after a run.
pub open spec fn timeline_run(v: TimelineView, xs: Seq<TimelineInput>) -> TimelineView
    decreases xs.len(),
{
    if xs.len() == 0 {
        v
    } else {
        timeline_after(timeline_run(v, xs.drop_last()), xs.last())
    }
}

/// Whether all numbers of a run fit.
pub open spec fn timeline_legal(v: TimelineView, xs: Seq<TimelineInput>) -> bool
    decreases xs.len(),
{
    xs.len() == 0 || {
        &&& timeline_legal(v, xs.drop_last())
        &&& timeline_accepts(timeline_run(v, xs.drop_last()), xs.last())
    }
}

/// The decode times that a run writes to one stream, in order.
pub open spec fn written_dts(v: TimelineView, xs: Seq<TimelineInput>, s: int) -> Seq<int>
    decreases xs.len(),
{
    if xs.len() == 0 {
        seq![]
    } else {
        let before = written_dts(v, xs.drop_last(), s);
        match xs.last() {
            TimelineInput::Packet { stream, origin, times, .. } => if stream == s && times.dts
                != AV_NOPTS_VALUE {
                before.push(
                    timeline_run(v, xs.drop_last()).placed(stream, origin, times).1,
                )
            } else {
                before
            },
            _ => before,
        }
    }
}

proof fn lemma_timeline_run(v: TimelineView, xs: Seq<TimelineInput>, s: int)
    requires
        v.inv(),
        0 <= s < v.offsets.len(),
        timeline_legal(v, xs),
    ensures
        timeline_run(v, xs).inv(),
        timeline_run(v, xs).offsets.len() == v.offsets.len(),
        forall|i: int|
            0 <= i < written_dts(v, xs, s).len() ==> #[trigger] written_dts(v, xs, s)[i]
                < timeline_run(v, xs).floors[s],
        forall|i: int, j: int|
            0 <= i < j < written_dts(v, xs, s).len() ==> #[trigger] written_dts(v, xs, s)[i]
                < #[trigger] written_dts(v, xs, s)[j],
    decreases xs.len(),
{
    if xs.len() > 0 {
        let front = xs.drop_last();
        lemma_timeline_run(v, front, s);
        let t = timeline_run(v, front);
        let w = written_dts(v, front, s);
        let x = xs.last();
        assert(timeline_accepts(t, x));
        assert(forall|i: int| 0 <= i < w.len() ==> #[trigger] w[i] < t.floors[s]);
        if x is Packet && x->stream == s && x->times.dts != AV_NOPTS_VALUE {
            law_decode_times_increase(t, s, x->origin, x->times, x->duration);
            assert(written_dts(v, xs, s) =~= w.push(t.placed(s, x->origin, x->times).1));
        } else {
            assert(written_dts(v, xs, s) =~= w);
            assert(timeline_after(t, x).floors[s] == t.floors[s]);
        }
    }
}

/// Whatever is joined, the decode times of an output stream strictly
/// increase, across packets and across joins.
pub proof fn law_output_is_monotonic(
    streams: nat,
    xs: Seq<TimelineInput>,
    s: int,
    i: int,
    j: int,
)
    requires
        0 <= s < streams,
        timeline_legal(TimelineView::initial(streams), xs),
        0 <= i < j < written_dts(TimelineView::initial(streams), xs, s).len(),
    ensures
        written_dts(TimelineView::initial(streams), xs, s)[i] < written_dts(
            TimelineView::initial(streams),
            xs,
            s,
        )[j],
{
    lemma_timeline_run(TimelineView::initial(streams), xs, s);
}

/// How far a join is.
#[derive(Debug, Clone, Copy, PartialEq, Eq, Structural)]
pub enum ConcatStage {
    /// The first input is being opened.
    First,
    /// This input is being checked against the first.
    Check { index: usize },
    Header,
    /// This input is being opened for the copy.
    Open { index: usize },
    Read { index: usize },
    Write { index: usize },
    /// The input is over; `known` tells whether its length is.
    Measure { index: usize, known: bool },
    Trailer,
    Finished,
}

/// What came of the last action.
#[derive(Debug)]
pub enum ConcatEvent {
    /// The first input is open and has this many streams.
    FirstOpened { streams: usize },
    /// The input matches the first one.
    Checked { alive: bool },
    HeaderWritten,
    /// The input is open; its start time in the ticks of each stream.
    Opened { origins: Vec<i64> },
    /// A packet, its times in the ticks of its output stream.
    Packet { stream_index: usize, times: PacketTimes, duration: i64, alive: bool },
    /// The input is over; the duration that it states.
    EndOfInput { duration: i64 },
    Written,
    /// The input's length is known; in the ticks of each stream.
    KnownLength { increments: Vec<i64> },
    /// The input's length is not known; where the segment ends, in the
    /// ticks of each stream.
    UnknownLength { ends: Vec<i64> },
    TrailerWritten,
}

/// The reply to the check of one input: its layout against the first
/// one's. When the caller is gone nothing is compared, and the reply says
/// so.
pub fn checked(
    first: &Vec<StreamParams>,
    input: &Vec<StreamParams>,
    layouts_equal: &Vec<bool>,
    path: &str,
    alive: bool,
) -> (r: Result<ConcatEvent, NativeError>)
    requires
        first@.len() == input@.len() ==> layouts_equal@.len() == first@.len(),
    ensures
        alive ==> (r is Ok <==> layouts_match(first@, input@, layouts_equal@)),
        !alive ==> r is Ok,
        r matches Ok(ev) ==> ev == (ConcatEvent::Checked { alive }),
        r matches Err(e) ==> e@.kind == "invalid_request"@,
        r matches Err(e) ==> if first@.len() != input@.len() {
            e@ == count_error(path@, first@.len(), input@.len())
        } else {
            exists|i: int|
                {
                    &&& #[trigger] first_mismatch(first@, input@, layouts_equal@, i)
                    &&& e@ == stream_error(
                        path@,
                        i as nat,
                        params_mismatch(first@[i], input@[i], layouts_equal@[i])->0,
                    )
                }
        },
{
    if alive {
        if let Err(e) = assert_layout_matches(first, input, layouts_equal, path) {
            return Err(e);
        }
    }
    Ok(ConcatEvent::Checked { alive })
}

/// What to do next.
#[derive(Debug, Clone, Copy, PartialEq, Eq, Structural)]
pub enum ConcatAction {
    OpenFirst,
    /// Open this input, check it against the first, close it.
    CheckInput { index: usize },
    WriteHeader,
    /// Open this input for the copy.
    OpenInput { index: usize },
    ReadPacket,
    /// Write the packet with these times.
    WritePacket { stream_index: usize, times: PacketTimes },
    /// Tell how long the current input was.
    Measure { known: bool },
    WriteTrailer,
    Finished,
}

/// The state of a join.
#[verifier::ext_equal]
pub struct ConcatView {
    pub inputs: nat,
    /// Inputs that were opened first or checked.
    pub checked: nat,
    pub streams: nat,
    pub origins: Seq<i64>,
    pub timeline: TimelineView,
    pub packets_written: nat,
    pub stage: ConcatStage,
}

/// The inputs' codec parameters are settled: the header may be written.
pub open spec fn past_checks(stage: ConcatStage) -> bool {
    !(stage is First) && !(stage is Check)
}

impl ConcatView {
    pub open spec fn initial(inputs: nat) -> ConcatView {
        ConcatView {
            inputs,
            checked: 0,
            streams: 0,
            origins: seq![],
            timeline: TimelineView::initial(0),
            packets_written: 0,
            stage: ConcatStage::First,
        }
    }

    pub open spec fn accepts(self, ev: ConcatEvent) -> bool {
        match (self.stage, ev) {
            (ConcatStage::First, ConcatEvent::FirstOpened { .. }) => true,
            (ConcatStage::Check { .. }, ConcatEvent::Checked { .. }) => true,
            (ConcatStage::Header, ConcatEvent::HeaderWritten) => true,
            (ConcatStage::Open { .. }, ConcatEvent::Opened { origins }) => origins@.len()
                == self.streams,
            (
                ConcatStage::Read { .. },
                ConcatEvent::Packet { stream_index, times, duration, .. },
            ) => stream_index < self.streams ==> self.packets_written < u64::MAX
                && self.timeline.can_place(
                stream_index as int,
                self.origins[stream_index as int],
                times,
                duration,
            ),
            (ConcatStage::Read { .. }, ConcatEvent::EndOfInput { .. }) => true,
            (ConcatStage::Write { .. }, ConcatEvent::Written) => true,
            (
                ConcatStage::Measure { known, .. },
                ConcatEvent::KnownLength { increments },
            ) => known && self.timeline.can_advance(increments@),
            (ConcatStage::Measure { known, .. }, ConcatEvent::UnknownLength { ends }) => !known
                && ends@.len() == self.streams,
            (ConcatStage::Trailer, ConcatEvent::TrailerWritten) => true,
            _ => false,
        }
    }

    /// The next input to check, or the header.
    pub open spec fn check_from(self, index: nat) -> (ConcatView, ConcatAction) {
        if index < self.inputs {
            (
                ConcatView {
                    checked: index,
                    stage: ConcatStage::Check { index: index as usize },
                    ..self
                },
                ConcatAction::CheckInput { index: index as usize },
            )
        } else {
            (
                ConcatView { checked: index, stage: ConcatStage::Header, ..self },
                ConcatAction::WriteHeader,
            )
        }
    }

    /// The next input to copy, or the trailer.
    pub open spec fn copy_from(self, index: nat) -> (ConcatView, ConcatAction) {
        if index < self.inputs {
            (
                ConcatView { stage: ConcatStage::Open { index: index as usize }, ..self },
                ConcatAction::OpenInput { index: index as usize },
            )
        } else {
            (
                ConcatView { stage: ConcatStage::Trailer, ..self },
                ConcatAction::WriteTrailer,
            )
        }
    }

    /// The input that the stage is about.
    pub open spec fn current(self) -> nat {
        match self.stage {
            ConcatStage::Check { index } => index as nat,
            ConcatStage::Open { index } => index as nat,
            ConcatStage::Read { index } => index as nat,
            ConcatStage::Write { index } => index as nat,
            ConcatStage::Measure { index, .. } => index as nat,
            _ => 0,
        }
    }

    /// The answer to a reply. A caller that is gone ends the join.
    pub open spec fn step(self, ev: ConcatEvent) -> Result<(ConcatView, ConcatAction), ErrorView> {
        let index = self.current() as usize;
        match ev {
            ConcatEvent::FirstOpened { streams } => Ok(
                (ConcatView {
                    streams: streams as nat,
                    timeline: TimelineView::initial(streams as nat),
                    ..self
                }).check_from(1),
            ),
            ConcatEvent::Checked { alive } => if alive {
                Ok(self.check_from(self.current() + 1))
            } else {
                Err(cancelled_error())
            },
            ConcatEvent::HeaderWritten => Ok(self.copy_from(0)),
            ConcatEvent::Opened { origins } => Ok(
                (
                    ConcatView {
                        origins: origins@,
                        stage: ConcatStage::Read { index },
                        ..self
                    },
                    ConcatAction::ReadPacket,
                ),
            ),
            ConcatEvent::Packet { stream_index, times, duration, alive } => if !alive {
                Err(cancelled_error())
            } else if stream_index >= self.streams {
                Ok((self, ConcatAction::ReadPacket))
            } else {
                let i = stream_index as int;
                let origin = self.origins[i];
                let placed = self.timeline.placed(i, origin, times);
                Ok(
                    (
                        ConcatView {
                            timeline: self.timeline.after_packet(i, origin, times, duration),
                            stage: ConcatStage::Write { index },
                            ..self
                        },
                        ConcatAction::WritePacket {
                            stream_index,
                            times: PacketTimes { pts: placed.0 as i64, dts: placed.1 as i64 },
                        },
                    ),
                )
            },
            ConcatEvent::EndOfInput { duration } => {
                let known = duration > 0;
                Ok(
                    (
                        ConcatView { stage: ConcatStage::Measure { index, known }, ..self },
                        ConcatAction::Measure { known },
                    ),
                )
            },
            ConcatEvent::Written => Ok(
                (
                    ConcatView {
                        packets_written: self.packets_written + 1,
                        stage: ConcatStage::Read { index },
                        ..self
                    },
                    ConcatAction::ReadPacket,
                ),
            ),
            ConcatEvent::KnownLength { increments } => Ok(
                (ConcatView {
                    timeline: self.timeline.after_known(increments@),
                    ..self
                }).copy_from(self.current() + 1),
            ),
            ConcatEvent::UnknownLength { ends } => Ok(
                (ConcatView {
                    timeline: self.timeline.after_unknown(ends@),
                    ..self
                }).copy_from(self.current() + 1),
            ),
            ConcatEvent::TrailerWritten => Ok(
                (ConcatView { stage: ConcatStage::Finished, ..self }, ConcatAction::Finished),
            ),
        }
    }

    pub open spec fn inv(self) -> bool {
        &&& 0 < self.inputs <= usize::MAX
        &&& self.streams <= usize::MAX
        &&& self.timeline.inv()
        &&& self.timeline.offsets.len() == self.streams
        &&& past_checks(self.stage) ==> self.checked == self.inputs
        &&& self.packets_written <= u64::MAX
        &&& match self.stage {
            ConcatStage::Check { index } => 0 < index < self.inputs && self.checked == index,
            ConcatStage::Open { index } => index < self.inputs,
            ConcatStage::Read { index } => index < self.inputs && self.origins.len()
                == self.streams,
            ConcatStage::Write { index } => index < self.inputs && self.origins.len()
                == self.streams && self.packets_written < u64::MAX,
            ConcatStage::Measure { index, .. } => index < self.inputs,
            _ => true,
        }
    }
}

/// What a join of nothing is answered.
pub open spec fn no_inputs_error() -> ErrorView {
    error("invalid_request"@, "concat requires at least one input"@)
}

/// The counts of a finished join.
#[derive(Debug, Clone, Copy, PartialEq, Eq, Structural)]
pub struct ConcatStats {
    pub packets_written: u64,
    pub inputs_joined: u32,
    pub streams_copied: u32,
}

/// A join.
#[derive(Debug)]
pub struct Concat {
    inputs: usize,
    checked: usize,
    streams: usize,
    origins: Vec<i64>,
    timeline: Timeline,
    packets_written: u64,
    stage: ConcatStage,
}

impl View for Concat {
    type V = ConcatView;

    closed spec fn view(&self) -> ConcatView {
        ConcatView {
            inputs: self.inputs as nat,
            checked: self.checked as nat,
            streams: self.streams as nat,
            origins: self.origins@,
            timeline: self.timeline@,
            packets_written: self.packets_written as nat,
            stage: self.stage,
        }
    }
}

impl Concat {
    /// The join is in a state that it can reach.
    pub open spec fn wf(&self) -> bool {
        self@.inv()
    }

    /// Plan a join of this many inputs.
    pub fn new(inputs: usize) -> (r: Result<Self, NativeError>)
        ensures
            match r {
                Ok(c) => inputs > 0 && c.wf() && c@ == ConcatView::initial(inputs as nat),
                Err(e) => inputs == 0 && e@ == no_inputs_error(),
            },
    {
        if inputs == 0 {
            return Err(NativeError::new("invalid_request", "concat requires at least one input"));
        }
        let c = Concat {
            inputs,
            checked: 0,
            streams: 0,
            origins: Vec::new(),
            timeline: Timeline::new(0),
            packets_written: 0,
            stage: ConcatStage::First,
        };
        assert(c@ =~= ConcatView::initial(inputs as nat));
        Ok(c)
    }

    /// How far the join is.
    pub fn stage(&self) -> (r: ConcatStage)
        ensures
            r == self@.stage,
    {
        self.stage
    }

    /// Packets written so far.
    pub fn packets_written(&self) -> (r: u64)
        ensures
            r == self@.packets_written,
    {
        self.packets_written
    }

    /// The output time that a stream has reached, once it has a packet.
    pub fn reached(&self, i: usize) -> (r: Option<i64>)
        requires
            self.wf(),
            i < self@.streams,
        ensures
            r == (if self@.timeline.floors[i as int] > NO_FLOOR {
                Some(self@.timeline.floors[i as int])
            } else {
                None
            }),
    {
        self.timeline.reached(i)
    }

    /// Whether this reply can come now, with numbers that fit.
    pub fn can_step(&self, ev: &ConcatEvent) -> (b: bool)
        requires
            self.wf(),
        ensures
            b == self@.accepts(*ev),
    {
        match (self.stage, ev) {
            (ConcatStage::First, ConcatEvent::FirstOpened { streams: _ }) => true,
            (ConcatStage::Check { index: _ }, ConcatEvent::Checked { alive: _ }) => true,
            (ConcatStage::Header, ConcatEvent::HeaderWritten) => true,
            (ConcatStage::Open { index: _ }, ConcatEvent::Opened { origins }) => origins.len()
                == self.streams,
            (
                ConcatStage::Read { index: _ },
                ConcatEvent::Packet { stream_index, times, duration, alive: _ },
            ) => *stream_index >= self.streams || (self.packets_written < u64::MAX
                && self.timeline.fits(
                *stream_index,
                self.origins[*stream_index],
                *times,
                *duration,
            )),
            (ConcatStage::Read { index: _ }, ConcatEvent::EndOfInput { duration: _ }) => true,
            (ConcatStage::Write { index: _ }, ConcatEvent::Written) => true,
            (
                ConcatStage::Measure { index: _, known },
                ConcatEvent::KnownLength { increments },
            ) => known && self.timeline.fits_increments(increments),
            (
                ConcatStage::Measure { index: _, known },
                ConcatEvent::UnknownLength { ends },
            ) => !known && ends.len() == self.streams,
            (ConcatStage::Trailer, ConcatEvent::TrailerWritten) => true,
            _ => false,
        }
    }

    fn current(&self) -> (r: usize)
        ensures
            r == self@.current(),
    {
        match self.stage {
            ConcatStage::Check { index } => index,
            ConcatStage::Open { index } => index,
            ConcatStage::Read { index } => index,
            ConcatStage::Write { index } => index,
            ConcatStage::Measure { index, known: _ } => index,
            _ => 0,
        }
    }

    fn check_from(&mut self, index: usize) -> (a: ConcatAction)
        ensures
            (final(self)@, a) == old(self)@.check_from(index as nat),
    {
        let ghost before = self@;
        self.checked = index;
        if index < self.inputs {
            self.stage = ConcatStage::Check { index };
            assert(self@ =~= before.check_from(index as nat).0);
            ConcatAction::CheckInput { index }
        } else {
            self.stage = ConcatStage::Header;
            assert(self@ =~= before.check_from(index as nat).0);
            ConcatAction::WriteHeader
        }
    }

    fn copy_from(&mut self, index: usize) -> (a: ConcatAction)
        ensures
            (final(self)@, a) == old(self)@.copy_from(index as nat),
    {
        let ghost before = self@;
        if index < self.inputs {
            self.stage = ConcatStage::Open { index };
            assert(self@ =~= before.copy_from(index as nat).0);
            ConcatAction::OpenInput { index }
        } else {
            self.stage = ConcatStage::Trailer;
            assert(self@ =~= before.copy_from(index as nat).0);
            ConcatAction::WriteTrailer
        }
    }

    /// Take a reply and say what to do next. Fails only when the caller is
    /// gone, and then leaves the state as it was.
    pub fn step(&mut self, ev: ConcatEvent) -> (r: Result<ConcatAction, NativeError>)
        requires
            old(self).wf(),
            old(self)@.accepts(ev),
        ensures
            final(self).wf(),
            match r {
                Ok(a) => old(self)@.step(ev) == Ok::<(ConcatView, ConcatAction), ErrorView>(
                    (final(self)@, a),
                ),
                Err(e) => old(self)@.step(ev) == Err::<(ConcatView, ConcatAction), ErrorView>(e@)
                    && final(self)@ == old(self)@,
            },
    {
        let ghost before = self@;
        let ghost ev0 = ev;
        let index: usize = self.current();
        match ev {
            ConcatEvent::FirstOpened { streams } => {
                self.streams = streams;
                self.timeline = Timeline::new(streams);
                assert(self@ =~= ConcatView {
                    streams: streams as nat,
                    timeline: TimelineView::initial(streams as nat),
                    ..before
                });
                Ok(self.check_from(1))
            },
            ConcatEvent::Checked { alive } => {
                if !alive {
                    return Err(cancelled());
                }
                Ok(self.check_from(index + 1))
            },
            ConcatEvent::HeaderWritten => Ok(self.copy_from(0)),
            ConcatEvent::Opened { origins } => {
                self.origins = origins;
                self.stage = ConcatStage::Read { index };
                assert(self@ =~= before.step(ev0)->Ok_0.0);
                Ok(ConcatAction::ReadPacket)
            },
            ConcatEvent::Packet { stream_index, times, duration, alive } => {
                if !alive {
                    return Err(cancelled());
                }
                if stream_index >= self.streams {
                    return Ok(ConcatAction::ReadPacket);
                }
                let origin: i64 = self.origins[stream_index];
                let placed = self.timeline.place(stream_index, origin, times, duration);
                self.stage = ConcatStage::Write { index };
                assert(self@ =~= before.step(ev0)->Ok_0.0);
                Ok(ConcatAction::WritePacket { stream_index, times: placed })
            },
            ConcatEvent::EndOfInput { duration } => {
                let known = length_is_known(duration);
                self.stage = ConcatStage::Measure { index, known };
                assert(self@ =~= before.step(ev0)->Ok_0.0);
                Ok(ConcatAction::Measure { known })
            },
            ConcatEvent::Written => {
                self.packets_written = self.packets_written + 1;
                self.stage = ConcatStage::Read { index };
                assert(self@ =~= before.step(ev0)->Ok_0.0);
                Ok(ConcatAction::ReadPacket)
            },
            ConcatEvent::KnownLength { increments } => {
                self.timeline.advance_known(&increments);
                assert(self@ =~= ConcatView {
                    timeline: before.timeline.after_known(increments@),
                    ..before
                });
                Ok(self.copy_from(index + 1))
            },
            ConcatEvent::UnknownLength { ends } => {
                self.timeline.advance_unknown(&ends);
                assert(self@ =~= ConcatView {
                    timeline: before.timeline.after_unknown(ends@),
                    ..before
                });
                Ok(self.copy_from(index + 1))
            },
            ConcatEvent::TrailerWritten => {
                self.stage = ConcatStage::Finished;
                assert(self@ =~= before.step(ev0)->Ok_0.0);
                Ok(ConcatAction::Finished)
            },
        }
    }

    /// The counts.
    pub fn stats(&self) -> (r: ConcatStats)
        ensures
            r.packets_written == self@.packets_written,
            r.inputs_joined == self@.inputs as u32,
            r.streams_copied == self@.streams as u32,
    {
        ConcatStats {
            packets_written: self.packets_written,
            inputs_joined: #[verifier::truncate]
            (self.inputs as u32),
            streams_copied: #[verifier::truncate]
            (self.streams as u32),
        }
    }
}

/// Every accepted reply leads from a reachable state to a reachable state.
pub proof fn law_concat_step_keeps_invariant(v: ConcatView, ev: ConcatEvent)
    requires
        v.inv(),
        v.accepts(ev),
        v.step(ev) is Ok,
    ensures
        v.step(ev)->Ok_0.0.inv(),
{
}

/// The header is written, and a packet is written, only after every input
/// was checked against the first one.
pub proof fn law_all_inputs_are_checked_first(v: ConcatView, ev: ConcatEvent)
    requires
        v.inv(),
        v.accepts(ev),
        v.step(ev) is Ok,
    ensures
        v.step(ev)->Ok_0.1 is WriteHeader ==> v.step(ev)->Ok_0.0.checked == v.inputs,
        v.step(ev)->Ok_0.1 is WritePacket ==> v.step(ev)->Ok_0.0.checked == v.inputs,
{
    law_concat_step_keeps_invariant(v, ev);
}

/// The duration that an input states decides how its end moves the time
/// line: a positive one by the input's length, and only so; any other to
/// the end of what was written, and only so.
pub proof fn law_duration_decides_the_advance(v: ConcatView, duration: i64, ev: ConcatEvent)
    requires
        v.inv(),
        v.accepts(ConcatEvent::EndOfInput { duration }),
        v.step(ConcatEvent::EndOfInput { duration })->Ok_0.0.accepts(ev),
    ensures
        ({
            let measured = v.step(ConcatEvent::EndOfInput { duration })->Ok_0.0;
            let next = measured.step(ev)->Ok_0.0.timeline;
            if duration > 0 {
                ev matches ConcatEvent::KnownLength { increments } && next
                    == v.timeline.after_known(increments@)
            } else {
                ev matches ConcatEvent::UnknownLength { ends } && next
                    == v.timeline.after_unknown(ends@)
            }
        }),
{
}

/// The inputs are copied in the given order, each one after the one before
/// it, and the trailer comes after the last.
pub proof fn law_inputs_are_joined_in_order(v: ConcatView, ev: ConcatEvent)
    requires
        v.inv(),
        v.accepts(ev),
        v.step(ev) is Ok,
        v.stage is Measure,
    ensures
        v.current() + 1 < v.inputs ==> v.step(ev)->Ok_0.1 == (ConcatAction::OpenInput {
            index: (v.current() + 1) as usize,
        }),
        v.current() + 1 == v.inputs ==> v.step(ev)->Ok_0.1 is WriteTrailer,
{
}

/// A packet is placed where it belongs: moved from the input's origin to
/// the input's place in the output, and further only as far as its decode
/// time would otherwise come before what was written. Its presentation time
/// moves by as much.
pub proof fn law_packets_are_placed_exactly(
    v: TimelineView,
    i: int,
    origin: i64,
    t: PacketTimes,
    duration: i64,
)
    requires
        v.inv(),
        0 <= i < v.offsets.len(),
        v.can_place(i, origin, t, duration),
    ensures
        ({
            let p = v.placed(i, origin, t);
            let next = v.after_packet(i, origin, t, duration);
            let at = t.dts - origin + v.offsets[i];
            let late = if at < v.floors[i] {
                v.floors[i] - at
            } else {
                0
            };
            &&& t.dts != i64::MIN ==> p.1 == at + late
            &&& t.dts != i64::MIN && t.pts != i64::MIN ==> p.0 == t.pts - origin + v.offsets[i]
                + late
            &&& t.dts == i64::MIN && t.pts != i64::MIN ==> p.0 == t.pts - origin + v.offsets[i]
            &&& t.dts != i64::MIN && duration > 0 ==> next.floors[i] == p.1 + duration
            &&& t.dts != i64::MIN && duration <= 0 ==> next.floors[i] == p.1 + 1
            &&& t.dts == i64::MIN ==> next == v
            &&& next.offsets == v.offsets
        }),
{
}

/// A time line starts at zero in every stream, with no packet written: a
/// packet of the first input is only moved from the input's origin.
pub proof fn law_timeline_starts_free(streams: nat, i: int, origin: i64, t: PacketTimes)
    requires
        0 <= i < streams,
        t.dts != i64::MIN,
        t.dts - origin >= -0x4000_0000_0000_0000,
    ensures
        TimelineView::initial(streams).offsets.len() == streams,
        TimelineView::initial(streams).offsets[i] == 0,
        TimelineView::initial(streams).placed(i, origin, t).1 == t.dts - origin,
        TimelineView::initial(streams).floors[i] <= NO_FLOOR,
{
}

/// After an input of known length every stream starts later by its own
/// ticks; after one of unknown length at the segment's end, or where it
/// was if that is later. What was written stays.
pub proof fn law_joins_move_the_offsets(
    v: TimelineView,
    increments: Seq<i64>,
    ends: Seq<i64>,
    i: int,
)
    requires
        v.inv(),
        v.can_advance(increments),
        ends.len() == v.offsets.len(),
        0 <= i < v.offsets.len(),
    ensures
        v.after_known(increments).offsets[i] == v.offsets[i] + increments[i],
        v.after_known(increments).floors == v.floors,
        v.after_unknown(ends).offsets[i] == v.offsets[i] || v.after_unknown(ends).offsets[i]
            == ends[i],
        v.after_unknown(ends).offsets[i] >= v.offsets[i],
        v.after_unknown(ends).offsets[i] >= ends[i],
        v.after_unknown(ends).floors == v.floors,
        v.after_known(increments).inv(),
        v.after_unknown(ends).inv(),
{
    assert(i64::MIN <= v.offsets[i] + increments[i] <= i64::MAX);
}

/// The stream that ends last has a packet, and in seconds, by cross
/// products, no other stream with a packet ends later.
pub proof fn law_leader_ends_last(
    reached: Seq<Option<i64>>,
    time_bases: Seq<Rational>,
    i: int,
    j: int,
)
    requires
        ends_last(reached, time_bases, i),
        0 <= j < reached.len(),
        reached[j] is Some,
        time_bases[i].den > 0,
        time_bases[j].den > 0,
    ensures
        0 <= i < reached.len(),
        reached[i] is Some,
        (reached[j]->0 * time_bases[j].num) * time_bases[i].den <= (reached[i]->0
            * time_bases[i].num) * time_bases[j].den,
{
    law_positions_compare_as_seconds(
        stream_end(reached[j]->0, time_bases[j]),
        stream_end(reached[i]->0, time_bases[i]),
    );
}

/// While an input is read and the caller is there, a packet of a stream
/// that the output has is written to that same stream, at the placed times;
/// only a packet of a stream that the output does not have is passed over.
pub proof fn law_every_packet_is_written(
    v: ConcatView,
    stream_index: usize,
    times: PacketTimes,
    duration: i64,
)
    requires
        v.inv(),
        v.accepts(ConcatEvent::Packet { stream_index, times, duration, alive: true }),
    ensures
        v.step(ConcatEvent::Packet { stream_index, times, duration, alive: true }) is Ok,
        ({
            let r = v.step(
                ConcatEvent::Packet { stream_index, times, duration, alive: true },
            )->Ok_0;
            let i = stream_index as int;
            let p = v.timeline.placed(i, v.origins[i], times);
            &&& i < v.streams ==> {
                &&& r.1 is WritePacket
                &&& r.1->WritePacket_stream_index == stream_index
                &&& r.1->WritePacket_times.pts == p.0
                &&& r.1->WritePacket_times.dts == p.1
                &&& r.0.stage is Write
                &&& r.0.current() == v.current()
                &&& r.0.timeline == v.timeline.after_packet(i, v.origins[i], times, duration)
            }
            &&& i >= v.streams ==> r.1 is ReadPacket && r.0 == v
            &&& r.0.packets_written == v.packets_written
            &&& r.0.origins == v.origins
            &&& r.0.streams == v.streams
        }),
{
}

/// What is not a packet goes the way of the join: the first input gives the
/// streams, a checked input leads to the next, an opened one gives its
/// origins and is read, and a written packet is counted.
pub proof fn law_join_goes_its_way(v: ConcatView, ev: ConcatEvent)
    requires
        v.inv(),
        v.accepts(ev),
        v.step(ev) is Ok,
    ensures
        ({
            let r = v.step(ev)->Ok_0;
            &&& r.0.inputs == v.inputs
            &&& match ev {
                ConcatEvent::FirstOpened { streams } => r.0.streams == streams
                    && r.0.timeline.offsets.len() == streams && r.0.checked == 1,
                ConcatEvent::Checked { .. } => r.0.checked == v.current() + 1,
                ConcatEvent::HeaderWritten => r.1 == (ConcatAction::OpenInput { index: 0 }),
                ConcatEvent::Opened { origins } => r.0.origins == origins@ && r.1 is ReadPacket
                    && r.0.current() == v.current() && r.0.timeline == v.timeline,
                ConcatEvent::Packet { .. } => true,
                ConcatEvent::EndOfInput { duration } => r.1 == (ConcatAction::Measure {
                    known: duration > 0,
                }) && r.0.timeline == v.timeline && r.0.current() == v.current(),
                ConcatEvent::Written => r.0.packets_written == v.packets_written + 1
                    && r.1 is ReadPacket && r.0.current() == v.current() && r.0.timeline
                    == v.timeline && r.0.origins == v.origins,
                ConcatEvent::KnownLength { .. } => true,
                ConcatEvent::UnknownLength { .. } => true,
                ConcatEvent::TrailerWritten => r.1 is Finished && r.0.stage is Finished,
            }
            &&& !(ev is Written) ==> r.0.packets_written == v.packets_written
            &&& !(ev is FirstOpened) ==> r.0.streams == v.streams
            &&& ev is FirstOpened || ev is Checked ==> {
                &&& r.0.checked < v.inputs ==> r.1 == (ConcatAction::CheckInput {
                    index: r.0.checked as usize,
                })
                &&& r.0.checked >= v.inputs ==> r.1 is WriteHeader
            }
        }),
{
}

/// A reply is taken exactly when the join is there for it, with numbers
/// that fit: an origin, an increment and an end for every stream.
pub proof fn law_join_takes_replies_in_turn(v: ConcatView, ev: ConcatEvent)
    requires
        v.inv(),
    ensures
        v.accepts(ev) <==> match ev {
            ConcatEvent::FirstOpened { .. } => v.stage is First,
            ConcatEvent::Checked { .. } => v.stage is Check,
            ConcatEvent::HeaderWritten => v.stage is Header,
            ConcatEvent::Opened { origins } => v.stage is Open && origins@.len() == v.streams,
            ConcatEvent::Packet { stream_index, times, duration, .. } => v.stage is Read && (
            stream_index >= v.streams || (v.packets_written < u64::MAX && v.timeline.can_place(
                stream_index as int,
                v.origins[stream_index as int],
                times,
                duration,
            ))),
            ConcatEvent::EndOfInput { .. } => v.stage is Read,
            ConcatEvent::Written => v.stage is Write,
            ConcatEvent::KnownLength { increments } => v.stage is Measure && v.stage->known
                && v.timeline.can_advance(increments@),
            ConcatEvent::UnknownLength { ends } => v.stage is Measure && !v.stage->known
                && ends@.len() == v.streams,
            ConcatEvent::TrailerWritten => v.stage is Trailer,
        },
{
}

/// Times that are nowhere near the limits always fit.
pub proof fn law_ordinary_times_fit(
    v: TimelineView,
    i: int,
    origin: i64,
    t: PacketTimes,
    duration: i64,
)
    requires
        v.inv(),
        0 <= i < v.offsets.len(),
        -0x0800_0000_0000_0000 <= v.offsets[i] <= 0x0800_0000_0000_0000,
        v.floors[i] <= 0x0800_0000_0000_0000,
        -0x0800_0000_0000_0000 <= origin <= 0x0800_0000_0000_0000,
        t.dts == i64::MIN || -0x0800_0000_0000_0000 <= t.dts <= 0x0800_0000_0000_0000,
        t.pts == i64::MIN || -0x0800_0000_0000_0000 <= t.pts <= 0x0800_0000_0000_0000,
        duration <= 0x0800_0000_0000_0000,
    ensures
        v.can_place(i, origin, t, duration),
{
}

/// A join fails only for a caller that is gone, as `cancelled`, and joining
/// nothing is a bad request.
pub proof fn law_only_a_gone_caller_ends_the_join(v: ConcatView, ev: ConcatEvent)
    ensures
        v.step(ev) is Err <==> (ev matches ConcatEvent::Packet { alive, .. } && !alive) || (
        ev matches ConcatEvent::Checked { alive } && !alive),
        v.step(ev) is Err ==> v.step(ev)->Err_0.kind == "cancelled"@,
        no_inputs_error().kind == "invalid_request"@,
{
}

/// The state after a list of replies.
pub open spec fn join_run(v: ConcatView, events: Seq<ConcatEvent>) -> ConcatView
    decreases events.len(),
{
    if events.len() == 0 {
        v
    } else {
        join_run(v, events.drop_last()).step(events.last())->Ok_0.0
    }
}

/// Whether every reply can come when it comes, and none ends the join.
pub open spec fn join_legal(v: ConcatView, events: Seq<ConcatEvent>) -> bool
    decreases events.len(),
{
    events.len() == 0 || {
        let before = join_run(v, events.drop_last());
        &&& join_legal(v, events.drop_last())
        &&& before.accepts(events.last())
        &&& before.step(events.last()) is Ok
    }
}

/// The packets among the replies that belong to one of the streams.
pub open spec fn packets_of_streams(events: Seq<ConcatEvent>, streams: nat) -> nat
    decreases events.len(),
{
    if events.len() == 0 {
        0
    } else {
        packets_of_streams(events.drop_last(), streams) + (match events.last() {
            ConcatEvent::Packet { stream_index, .. } => if stream_index < streams {
                1nat
            } else {
                0nat
            },
            _ => 0nat,
        })
    }
}

proof fn lemma_no_packets_before_reading(events: Seq<ConcatEvent>, inputs: nat, a: nat, b: nat)
    requires
        0 < inputs <= usize::MAX,
        join_legal(ConcatView::initial(inputs), events),
        join_run(ConcatView::initial(inputs), events).stage is First,
    ensures
        packets_of_streams(events, a) == packets_of_streams(events, b),
        packets_of_streams(events, a) == 0,
    decreases events.len(),
{
    if events.len() > 0 {
        let front = events.drop_last();
        lemma_join_run_invariant(events, inputs);
        lemma_join_run_invariant(front, inputs);
    }
}

proof fn lemma_join_run_invariant(events: Seq<ConcatEvent>, inputs: nat)
    requires
        0 < inputs <= usize::MAX,
        join_legal(ConcatView::initial(inputs), events),
    ensures
        join_run(ConcatView::initial(inputs), events).inv(),
        events.len() > 0 ==> !(join_run(ConcatView::initial(inputs), events).stage is First),
    decreases events.len(),
{
    if events.len() > 0 {
        lemma_join_run_invariant(events.drop_last(), inputs);
        law_concat_step_keeps_invariant(
            join_run(ConcatView::initial(inputs), events.drop_last()),
            events.last(),
        );
    }
}

/// Over a finished join, every packet that belongs to a stream of the first
/// input was written: as many packets are written as were read of these
/// streams.
pub proof fn law_join_loses_no_packet(inputs: nat, events: Seq<ConcatEvent>)
    requires
        0 < inputs <= usize::MAX,
        join_legal(ConcatView::initial(inputs), events),
    ensures
        ({
            let end = join_run(ConcatView::initial(inputs), events);
            packets_of_streams(events, end.streams) == end.packets_written + (
            if end.stage is Write {
                1nat
            } else {
                0nat
            })
        }),
    decreases events.len(),
{
    if events.len() > 0 {
        let front = events.drop_last();
        let v = join_run(ConcatView::initial(inputs), front);
        let end = join_run(ConcatView::initial(inputs), events);
        law_join_loses_no_packet(inputs, front);
        lemma_join_run_invariant(front, inputs);
        if events.last() is FirstOpened {
            lemma_no_packets_before_reading(front, inputs, v.streams, end.streams);
        }
    }
}

/// The input that a stage is about is the one that it names, and increments
/// that are nowhere near the limits always fit.
pub proof fn law_stages_name_their_input(v: ConcatView, increments: Seq<i64>)
    ensures
        v.stage matches ConcatStage::Check { index } ==> v.current() == index,
        v.stage matches ConcatStage::Open { index } ==> v.current() == index,
        v.stage matches ConcatStage::Read { index } ==> v.current() == index,
        v.stage matches ConcatStage::Write { index } ==> v.current() == index,
        v.stage matches ConcatStage::Measure { index, .. } ==> v.current() == index,
        increments.len() == v.timeline.offsets.len() && (forall|i: int|
            0 <= i < increments.len() ==> -0x4000_0000_0000_0000 <= #[trigger] increments[i]
                <= 0x3fff_ffff_ffff_ffff) && (forall|i: int|
            0 <= i < increments.len() ==> -0x4000_0000_0000_0000
                <= #[trigger] v.timeline.offsets[i] <= 0x3fff_ffff_ffff_ffff)
            ==> v.timeline.can_advance(increments),
{
    if increments.len() == v.timeline.offsets.len() && (forall|i: int|
        0 <= i < increments.len() ==> -0x4000_0000_0000_0000 <= #[trigger] increments[i]
            <= 0x3fff_ffff_ffff_ffff) && (forall|i: int|
        0 <= i < increments.len() ==> -0x4000_0000_0000_0000 <= #[trigger] v.timeline.offsets[i]
            <= 0x3fff_ffff_ffff_ffff) {
        assert forall|i: int| 0 <= i < v.timeline.offsets.len() implies i64::MIN
            <= #[trigger] v.timeline.offsets[i] + increments[i] <= i64::MAX by {
            assert(-0x4000_0000_0000_0000 <= increments[i]);
        }
    }
}

/// A join starts at its first input, with nothing checked or written.
pub proof fn law_join_starts_fresh(inputs: nat)
    ensures
        ConcatView::initial(inputs).inputs == inputs,
        ConcatView::initial(inputs).stage is First,
        ConcatView::initial(inputs).packets_written == 0,
        ConcatView::initial(inputs).checked == 0,
        ConcatView::initial(inputs).streams == 0,
{
}

} // verus!
