//! Stream copy into another container, with an optional time window.
//!
//! Packets before the start of the window are dropped; where no start is
//! set, no packet is too early, also not one with a negative time. Each
//! kept stream ends on its own, when its decode time reaches the end of the
//! window, and the copy stops once every kept stream has ended or the input
//! is over. So a stream that reaches the edge first does not cut the others
//! short.

use crate::cancel::{cancelled, cancelled_error};
use crate::errors::{error, ErrorView, NativeError};
use crate::media::{
    build_stream_map, dropped, kept_count, law_positions_compare_as_seconds,
    law_stream_map_is_injective, lemma_not_after_is_transitive, origin_position, stream_map, Drops,
    Position, AV_NOPTS_VALUE,
};
use vstd::prelude::*;

verus! {

/// Which edges of the window are set.
#[derive(Debug, Clone, Copy, PartialEq, Eq, Structural)]
pub struct Window {
    pub has_start: bool,
    pub has_end: bool,
}

/// The time stamps that place a packet in the window.
#[derive(Debug, Clone, Copy, PartialEq, Eq, Structural)]
pub struct WindowTimes {
    /// Compared with the start: the presentation time, else the decode
    /// time.
    pub start: Option<i64>,
    /// Compared with the end: the decode time, else the presentation time.
    pub end: Option<i64>,
}

/// The first time stamp that is known.
pub open spec fn first_known(a: i64, b: i64) -> Option<i64> {
    if a != AV_NOPTS_VALUE {
        Some(a)
    } else if b != AV_NOPTS_VALUE {
        Some(b)
    } else {
        None
    }
}

/// The time stamps that place a packet in the window. A packet without one
/// of the two is bounded by the other.
pub fn window_times(pts: i64, dts: i64) -> (r: WindowTimes)
    ensures
        r.start == first_known(pts, dts),
        r.end == first_known(dts, pts),
{
    let start: Option<i64> = if pts != AV_NOPTS_VALUE {
        Some(pts)
    } else if dts != AV_NOPTS_VALUE {
        Some(dts)
    } else {
        None
    };
    let end: Option<i64> = if dts != AV_NOPTS_VALUE {
        Some(dts)
    } else if pts != AV_NOPTS_VALUE {
        Some(pts)
    } else {
        None
    };
    WindowTimes { start, end }
}

/// What the copy waits for.
#[derive(Debug, Clone, Copy, PartialEq, Eq, Structural)]
pub enum RemuxWait {
    Header,
    Read,
    Write { position: Option<Position> },
    Trailer,
    Finished,
}

/// A packet that was read.
#[derive(Debug, Clone, Copy, PartialEq, Eq, Structural)]
pub struct RemuxPacket {
    pub stream_index: usize,
    /// Its start time is before the start of the window, if that is set.
    pub before_start: bool,
    /// Its end time is at or past the end of the window, if that is set.
    pub past_end: bool,
    /// Its presentation time, where it is known.
    pub position: Option<Position>,
    /// The caller is still there, as far as is known.
    pub alive: bool,
}

/// What came of the last action.
#[derive(Debug, Clone, Copy)]
pub enum RemuxEvent {
    HeaderWritten,
    Packet { packet: RemuxPacket },
    EndOfInput,
    Written,
    TrailerWritten,
}

/// What to do next.
#[derive(Debug, Clone, Copy, PartialEq, Eq, Structural)]
pub enum RemuxAction {
    WriteHeader,
    ReadPacket,
    /// Rescale the packet and write it to this output stream.
    WritePacket { out_index: u32 },
    WriteTrailer,
    Finished,
}

/// The state of a copy.
#[verifier::ext_equal]
pub struct RemuxView {
    pub window: Window,
    /// Where each input stream goes.
    pub map: Seq<Option<u32>>,
    /// Which input streams have passed the window.
    pub ended: Seq<bool>,
    pub streams_copied: nat,
    pub packets_read: nat,
    pub packets_written: nat,
    pub packets_dropped: nat,
    /// The latest presentation time written.
    pub last_position: Position,
    pub wait: RemuxWait,
}

/// Every kept stream has passed the window.
pub open spec fn all_ended(map: Seq<Option<u32>>, ended: Seq<bool>) -> bool {
    forall|i: int| 0 <= i < map.len() && (#[trigger] map[i]) is Some ==> ended[i]
}

/// The later of two positions, the first when neither is later.
pub open spec fn later_position(last: Position, p: Option<Position>) -> Position {
    match p {
        Some(q) => if q.is_after(last) {
            q
        } else {
            last
        },
        None => last,
    }
}

impl RemuxView {
    /// The state before the header is written.
    pub open spec fn initial(kinds: Seq<i32>, drops: Drops, window: Window) -> RemuxView {
        RemuxView {
            window,
            map: stream_map(kinds, drops),
            ended: Seq::new(kinds.len(), |i: int| false),
            streams_copied: kept_count(kinds, drops),
            packets_read: 0,
            packets_written: 0,
            packets_dropped: 0,
            last_position: origin_position(),
            wait: RemuxWait::Header,
        }
    }

    /// The packet belongs to a kept stream that has not ended, and does
    /// not come before a start that is set.
    pub open spec fn wants(self, p: RemuxPacket) -> bool {
        &&& p.stream_index < self.map.len()
        &&& self.map[p.stream_index as int] is Some
        &&& !self.ended[p.stream_index as int]
        &&& !(self.window.has_start && p.before_start)
    }

    /// The packet is at or past an end that is set.
    pub open spec fn passes_end(self, p: RemuxPacket) -> bool {
        self.window.has_end && p.past_end
    }

    /// The replies that can come now and fit the counters.
    pub open spec fn accepts(self, ev: RemuxEvent) -> bool {
        match (self.wait, ev) {
            (RemuxWait::Header, RemuxEvent::HeaderWritten) => true,
            (RemuxWait::Read, RemuxEvent::Packet { .. }) => self.packets_read < u64::MAX,
            (RemuxWait::Read, RemuxEvent::EndOfInput) => true,
            (RemuxWait::Write { .. }, RemuxEvent::Written) => true,
            (RemuxWait::Trailer, RemuxEvent::TrailerWritten) => true,
            _ => false,
        }
    }

    /// One more packet read and left out.
    pub open spec fn drop_packet(self) -> RemuxView {
        RemuxView {
            packets_read: self.packets_read + 1,
            packets_dropped: self.packets_dropped + 1,
            ..self
        }
    }

    /// The answer to a packet.
    pub open spec fn on_packet(self, p: RemuxPacket) -> (RemuxView, RemuxAction) {
        if !self.wants(p) {
            (self.drop_packet(), RemuxAction::ReadPacket)
        } else if self.passes_end(p) {
            let ended = self.ended.update(p.stream_index as int, true);
            let next = RemuxView { ended, ..self.drop_packet() };
            if all_ended(self.map, ended) {
                (RemuxView { wait: RemuxWait::Trailer, ..next }, RemuxAction::WriteTrailer)
            } else {
                (next, RemuxAction::ReadPacket)
            }
        } else {
            (
                RemuxView {
                    packets_read: self.packets_read + 1,
                    wait: RemuxWait::Write { position: p.position },
                    ..self
                },
                RemuxAction::WritePacket { out_index: self.map[p.stream_index as int]->0 },
            )
        }
    }

    /// The answer to a reply. A caller that is gone ends the copy.
    pub open spec fn step(self, ev: RemuxEvent) -> Result<(RemuxView, RemuxAction), ErrorView> {
        match ev {
            RemuxEvent::HeaderWritten => Ok(
                (RemuxView { wait: RemuxWait::Read, ..self }, RemuxAction::ReadPacket),
            ),
            RemuxEvent::Packet { packet } => if !packet.alive {
                Err(cancelled_error())
            } else {
                Ok(self.on_packet(packet))
            },
            RemuxEvent::EndOfInput => Ok(
                (RemuxView { wait: RemuxWait::Trailer, ..self }, RemuxAction::WriteTrailer),
            ),
            RemuxEvent::Written => Ok(
                (
                    RemuxView {
                        packets_written: self.packets_written + 1,
                        last_position: later_position(
                            self.last_position,
                            self.wait->Write_position,
                        ),
                        wait: RemuxWait::Read,
                        ..self
                    },
                    RemuxAction::ReadPacket,
                ),
            ),
            RemuxEvent::TrailerWritten => Ok(
                (RemuxView { wait: RemuxWait::Finished, ..self }, RemuxAction::Finished),
            ),
        }
    }

    /// What holds in every state: every packet read was written, dropped,
    /// or is being written.
    pub open spec fn inv(self) -> bool {
        &&& self.ended.len() == self.map.len()
        &&& self.packets_read == self.packets_written + self.packets_dropped + (
        if self.wait is Write {
            1nat
        } else {
            0nat
        })
    }
}

/// What a copy that keeps nothing is answered.
pub open spec fn nothing_kept_error() -> ErrorView {
    error("invalid_request"@, "remux dropped every input stream; nothing left to write"@)
}

/// The counts of a finished copy.
#[derive(Debug, Clone, Copy, PartialEq, Eq, Structural)]
pub struct RemuxStats {
    pub packets_written: u64,
    pub packets_dropped: u64,
    pub streams_copied: u32,
}

/// A stream copy.
#[derive(Debug)]
pub struct Remux {
    window: Window,
    map: Vec<Option<u32>>,
    ended: Vec<bool>,
    streams_copied: u32,
    packets_read: u64,
    packets_written: u64,
    packets_dropped: u64,
    last_position: Position,
    wait: RemuxWait,
}

impl View for Remux {
    type V = RemuxView;

    closed spec fn view(&self) -> RemuxView {
        RemuxView {
            window: self.window,
            map: self.map@,
            ended: self.ended@,
            streams_copied: self.streams_copied as nat,
            packets_read: self.packets_read as nat,
            packets_written: self.packets_written as nat,
            packets_dropped: self.packets_dropped as nat,
            last_position: self.last_position,
            wait: self.wait,
        }
    }
}

impl Remux {
    /// The copy is in a state that it can reach.
    pub open spec fn wf(&self) -> bool {
        self@.inv()
    }

    /// Plan a copy of the streams of these kinds.
    pub fn new(kinds: &Vec<i32>, drops: Drops, window: Window) -> (r: Result<Self, NativeError>)
        requires
            kinds@.len() <= u32::MAX,
        ensures
            match r {
                Ok(m) => {
                    &&& kept_count(kinds@, drops) > 0
                    &&& m.wf()
                    &&& m@ == RemuxView::initial(kinds@, drops, window)
                },
                Err(e) => kept_count(kinds@, drops) == 0 && e@ == nothing_kept_error(),
            },
    {
        let (map, streams_copied) = build_stream_map(kinds, drops);
        if streams_copied == 0 {
            return Err(
                NativeError::new(
                    "invalid_request",
                    "remux dropped every input stream; nothing left to write",
                ),
            );
        }
        let mut ended: Vec<bool> = Vec::new();
        for i in 0..kinds.len()
            invariant
                ended@ == Seq::new(i as nat, |j: int| false),
        {
            ended.push(false);
            assert(ended@ =~= Seq::new((i + 1) as nat, |j: int| false));
        }
        let m = Remux {
            window,
            map,
            ended,
            streams_copied,
            packets_read: 0,
            packets_written: 0,
            packets_dropped: 0,
            last_position: Position::origin(),
            wait: RemuxWait::Header,
        };
        assert(m@ =~= RemuxView::initial(kinds@, drops, window));
        Ok(m)
    }

    /// Where each input stream goes.
    pub fn map(&self) -> (r: &Vec<Option<u32>>)
        ensures
            r@ == self@.map,
    {
        &self.map
    }

    /// Packets written so far.
    pub fn packets_written(&self) -> (r: u64)
        ensures
            r == self@.packets_written,
    {
        self.packets_written
    }

    /// The latest presentation time written.
    pub fn last_position(&self) -> (r: Position)
        ensures
            r == self@.last_position,
    {
        self.last_position
    }

    /// Whether this reply can come now.
    pub fn can_step(&self, ev: &RemuxEvent) -> (b: bool)
        ensures
            b == self@.accepts(*ev),
    {
        match (self.wait, *ev) {
            (RemuxWait::Header, RemuxEvent::HeaderWritten) => true,
            (RemuxWait::Read, RemuxEvent::Packet { packet: _ }) => self.packets_read < u64::MAX,
            (RemuxWait::Read, RemuxEvent::EndOfInput) => true,
            (RemuxWait::Write { position: _ }, RemuxEvent::Written) => true,
            (RemuxWait::Trailer, RemuxEvent::TrailerWritten) => true,
            _ => false,
        }
    }

    fn none_left(&self) -> (b: bool)
        requires
            self@.ended.len() == self@.map.len(),
        ensures
            b == all_ended(self@.map, self@.ended),
    {
        for i in 0..self.map.len()
            invariant
                self.ended@.len() == self.map@.len(),
                forall|j: int|
                    0 <= j < i && (#[trigger] self.map@[j]) is Some ==> self.ended@[j],
        {
            if self.map[i].is_some() && !self.ended[i] {
                assert(self.map@[i as int] is Some);
                return false;
            }
        }
        true
    }

    fn on_packet(&mut self, p: RemuxPacket) -> (a: RemuxAction)
        requires
            old(self).wf(),
            old(self)@.wait is Read,
            old(self)@.packets_read < u64::MAX,
        ensures
            final(self).wf(),
            (final(self)@, a) == old(self)@.on_packet(p),
    {
        let ghost before = self@;
        self.packets_read = self.packets_read + 1;
        let idx: usize = p.stream_index;
        if idx < self.map.len() {
            if let Some(out_index) = self.map[idx] {
                if !self.ended[idx] && !(self.window.has_start && p.before_start) {
                    if self.window.has_end && p.past_end {
                        self.ended.set(idx, true);
                        self.packets_dropped = self.packets_dropped + 1;
                        if self.none_left() {
                            self.wait = RemuxWait::Trailer;
                            assert(self@ =~= before.on_packet(p).0);
                            return RemuxAction::WriteTrailer;
                        }
                        assert(self@ =~= before.on_packet(p).0);
                        return RemuxAction::ReadPacket;
                    }
                    self.wait = RemuxWait::Write { position: p.position };
                    assert(self@ =~= before.on_packet(p).0);
                    return RemuxAction::WritePacket { out_index };
                }
            }
        }
        self.packets_dropped = self.packets_dropped + 1;
        assert(self@ =~= before.on_packet(p).0);
        RemuxAction::ReadPacket
    }

    /// Take a reply and say what to do next. Fails only when the caller is
    /// gone, and then leaves the state as it was.
    pub fn step(&mut self, ev: RemuxEvent) -> (r: Result<RemuxAction, NativeError>)
        requires
            old(self).wf(),
            old(self)@.accepts(ev),
        ensures
            final(self).wf(),
            match r {
                Ok(a) => old(self)@.step(ev) == Ok::<(RemuxView, RemuxAction), ErrorView>(
                    (final(self)@, a),
                ),
                Err(e) => old(self)@.step(ev) == Err::<(RemuxView, RemuxAction), ErrorView>(e@)
                    && final(self)@ == old(self)@,
            },
    {
        let ghost before = self@;
        match ev {
            RemuxEvent::HeaderWritten => {
                self.wait = RemuxWait::Read;
                assert(self@ =~= before.step(ev)->Ok_0.0);
                Ok(RemuxAction::ReadPacket)
            },
            RemuxEvent::Packet { packet } => {
                if !packet.alive {
                    return Err(cancelled());
                }
                Ok(self.on_packet(packet))
            },
            RemuxEvent::EndOfInput => {
                self.wait = RemuxWait::Trailer;
                assert(self@ =~= before.step(ev)->Ok_0.0);
                Ok(RemuxAction::WriteTrailer)
            },
            RemuxEvent::Written => {
                if let RemuxWait::Write { position } = self.wait {
                    if let Some(p) = position {
                        if p.after(&self.last_position) {
                            self.last_position = p;
                        }
                    }
                }
                self.packets_written = self.packets_written + 1;
                self.wait = RemuxWait::Read;
                assert(self@ =~= before.step(ev)->Ok_0.0);
                Ok(RemuxAction::ReadPacket)
            },
            RemuxEvent::TrailerWritten => {
                self.wait = RemuxWait::Finished;
                assert(self@ =~= before.step(ev)->Ok_0.0);
                Ok(RemuxAction::Finished)
            },
        }
    }

    /// The counts.
    pub fn stats(&self) -> (r: RemuxStats)
        ensures
            r.packets_written == self@.packets_written,
            r.packets_dropped == self@.packets_dropped,
            r.streams_copied == self@.streams_copied,
    {
        RemuxStats {
            packets_written: self.packets_written,
            packets_dropped: self.packets_dropped,
            streams_copied: self.streams_copied,
        }
    }
}

/// A packet is written exactly when the caller is alive, its stream is
/// kept and has not ended, and it lies inside the window.
pub proof fn law_written_packets_are_in_the_window(v: RemuxView, p: RemuxPacket)
    ensures
        (v.step(RemuxEvent::Packet { packet: p }) is Ok && v.step(
            RemuxEvent::Packet { packet: p },
        )->Ok_0.1 is WritePacket) <==> (p.alive && v.wants(p) && !v.passes_end(p)),
{
}

/// A stream that reaches the end of the window ends alone: the other
/// streams stay as they are, and the copy goes on unless all kept streams
/// have ended.
pub proof fn law_streams_end_individually(v: RemuxView, p: RemuxPacket, i: int)
    requires
        v.inv(),
        0 <= i < v.map.len(),
        i != p.stream_index,
    ensures
        v.on_packet(p).0.ended[i] == v.ended[i],
        v.on_packet(p).1 is WriteTrailer ==> all_ended(v.map, v.on_packet(p).0.ended),
        (v.map[i] is Some && !v.ended[i]) ==> !(v.on_packet(p).1 is WriteTrailer),
{
    if v.wants(p) && v.passes_end(p) {
        assert(v.ended.update(p.stream_index as int, true)[i] == v.ended[i]);
    }
}

/// A stream that has ended stays ended, and nothing of it is written any
/// more.
pub proof fn law_ended_streams_stay_ended(v: RemuxView, ev: RemuxEvent, i: int)
    requires
        v.inv(),
        0 <= i < v.map.len(),
        v.ended[i],
        v.step(ev) is Ok,
    ensures
        v.step(ev)->Ok_0.0.ended[i],
        v.step(ev)->Ok_0.0.map == v.map,
        ev matches RemuxEvent::Packet { packet } ==> (packet.stream_index == i ==> !(v.step(
            ev,
        )->Ok_0.1 is WritePacket)),
{
}

/// When the copy is done, every packet read was either written or dropped.
pub proof fn law_packets_are_accounted_for(v: RemuxView)
    requires
        v.inv(),
        v.wait is Finished,
    ensures
        v.packets_read == v.packets_written + v.packets_dropped,
{
}

/// Where no start is set, a packet's place before it makes no difference.
pub proof fn law_no_packet_is_early_without_a_start(v: RemuxView, p: RemuxPacket)
    requires
        !v.window.has_start,
    ensures
        v.on_packet(p) == v.on_packet(RemuxPacket { before_start: !p.before_start, ..p }),
{
}

/// The state after a list of replies.
pub open spec fn after_events(v: RemuxView, events: Seq<RemuxEvent>) -> RemuxView
    decreases events.len(),
{
    if events.len() == 0 {
        v
    } else {
        after_events(v, events.drop_last()).step(events.last())->Ok_0.0
    }
}

/// Whether every reply can come when it comes, and none ends the copy.
pub open spec fn legal_events(v: RemuxView, events: Seq<RemuxEvent>) -> bool
    decreases events.len(),
{
    events.len() == 0 || {
        let before = after_events(v, events.drop_last());
        &&& legal_events(v, events.drop_last())
        &&& before.accepts(events.last())
        &&& before.step(events.last()) is Ok
    }
}

/// The packets among the replies.
pub open spec fn packet_count(events: Seq<RemuxEvent>) -> nat
    decreases events.len(),
{
    if events.len() == 0 {
        0
    } else {
        packet_count(events.drop_last()) + (if events.last() is Packet {
            1nat
        } else {
            0nat
        })
    }
}

/// A copy that keeps every stream and has no window drops nothing: when it
/// is done, every packet of the input was written, whatever its time is.
pub proof fn law_full_copy_writes_everything(
    kinds: Seq<i32>,
    drops: Drops,
    window: Window,
    events: Seq<RemuxEvent>,
)
    requires
        !window.has_start,
        !window.has_end,
        forall|i: int| 0 <= i < kinds.len() ==> !dropped(#[trigger] kinds[i], drops),
        legal_events(RemuxView::initial(kinds, drops, window), events),
        forall|i: int|
            0 <= i < events.len() ==> ((#[trigger] events[i]) matches RemuxEvent::Packet { packet }
                ==> packet.stream_index < kinds.len()),
    ensures
        ({
            let end = after_events(RemuxView::initial(kinds, drops, window), events);
            &&& end.packets_dropped == 0
            &&& end.wait is Finished ==> end.packets_written == packet_count(events)
        }),
{
    lemma_full_copy(kinds, drops, window, events);
}

proof fn lemma_full_copy(
    kinds: Seq<i32>,
    drops: Drops,
    window: Window,
    events: Seq<RemuxEvent>,
)
    requires
        !window.has_start,
        !window.has_end,
        forall|i: int| 0 <= i < kinds.len() ==> !dropped(#[trigger] kinds[i], drops),
        legal_events(RemuxView::initial(kinds, drops, window), events),
        forall|i: int|
            0 <= i < events.len() ==> ((#[trigger] events[i]) matches RemuxEvent::Packet { packet }
                ==> packet.stream_index < kinds.len()),
    ensures
        ({
            let first = RemuxView::initial(kinds, drops, window);
            let end = after_events(first, events);
            &&& end.inv()
            &&& end.window == window
            &&& end.map == first.map
            &&& end.ended == first.ended
            &&& end.packets_dropped == 0
            &&& end.packets_read == packet_count(events)
        }),
    decreases events.len(),
{
    let first = RemuxView::initial(kinds, drops, window);
    if events.len() > 0 {
        let front = events.drop_last();
        assert forall|i: int| 0 <= i < front.len() implies ((
        #[trigger] front[i]) matches RemuxEvent::Packet { packet } ==> packet.stream_index
            < kinds.len()) by {
            assert(front[i] == events[i]);
        }
        lemma_full_copy(kinds, drops, window, front);
        assert(events.last() == events[events.len() - 1]);
        if let RemuxEvent::Packet { packet } = events.last() {
            let i = packet.stream_index as int;
            assert(!dropped(kinds[i], drops));
            assert(first.map[i] is Some);
        }
    }
}

/// The position that a copy reports after writing packets with these
/// presentation times.
pub open spec fn latest(written: Seq<Option<Position>>) -> Position
    decreases written.len(),
{
    if written.len() == 0 {
        origin_position()
    } else {
        later_position(latest(written.drop_last()), written.last())
    }
}

/// The reported position is that of a packet that was written, or the
/// start, and no packet that was written is after it.
pub proof fn law_last_position_is_latest(written: Seq<Option<Position>>, i: int)
    requires
        forall|j: int|
            0 <= j < written.len() ==> ((#[trigger] written[j]) matches Some(p) ==> p.den != 0),
        0 <= i < written.len(),
    ensures
        latest(written).den != 0,
        latest(written) == origin_position() || written.contains(Some(latest(written))),
        written[i] matches Some(p) ==> !p.is_after(latest(written)),
    decreases written.len(),
{
    let front = written.drop_last();
    assert(written.last() == written[written.len() - 1]);
    assert forall|j: int| 0 <= j < front.len() implies ((#[trigger] front[j]) matches Some(p)
        ==> p.den != 0) by {
        assert(front[j] == written[j]);
    }
    if front.len() > 0 {
        let k: int = if i < front.len() {
            i
        } else {
            0
        };
        law_last_position_is_latest(front, k);
        if front.contains(Some(latest(front))) {
            let j = choose|j: int| 0 <= j < front.len() && front[j] == Some(latest(front));
            assert(written[j] == Some(latest(front)));
        }
        if let Some(p) = written[i] {
            if i < front.len() {
                assert(front[i] == written[i]);
                assert(!latest(front).is_after(latest(written)));
                lemma_not_after_is_transitive(p, latest(front), latest(written));
            }
        }
    } else {
        assert(latest(front) == origin_position());
    }
}

/// A packet is written exactly when the caller is there, its stream is kept
/// and has not ended, and it is neither before a start that is set nor at
/// or past an end that is set. It goes to the output stream that the map
/// gives for its input stream.
pub proof fn law_packets_go_to_their_stream(v: RemuxView, p: RemuxPacket)
    requires
        v.inv(),
    ensures
        ({
            let r = v.step(RemuxEvent::Packet { packet: p });
            let i = p.stream_index as int;
            let written = r is Ok && r->Ok_0.1 is WritePacket;
            &&& written <==> {
                &&& p.alive
                &&& i < v.map.len()
                &&& v.map[i] is Some
                &&& !v.ended[i]
                &&& !(v.window.has_start && p.before_start)
                &&& !(v.window.has_end && p.past_end)
            }
            &&& written ==> Some(r->Ok_0.1->out_index) == v.map[i]
            &&& written ==> r->Ok_0.0.wait == (RemuxWait::Write { position: p.position })
        }),
{
}

/// Packets of different kept streams go to different output streams, in the
/// order of the streams, and every one to a stream that the output has.
pub proof fn law_streams_do_not_mix(
    kinds: Seq<i32>,
    drops: Drops,
    u: RemuxView,
    v: RemuxView,
    p: RemuxPacket,
    q: RemuxPacket,
)
    requires
        kinds.len() <= u32::MAX,
        u.inv(),
        v.inv(),
        u.map == stream_map(kinds, drops),
        v.map == stream_map(kinds, drops),
        u.on_packet(p).1 is WritePacket,
        v.on_packet(q).1 is WritePacket,
        p.stream_index <= q.stream_index,
    ensures
        ({
            let a = u.on_packet(p).1->out_index;
            let b = v.on_packet(q).1->out_index;
            &&& a < kept_count(kinds, drops)
            &&& b < kept_count(kinds, drops)
            &&& p.stream_index == q.stream_index ==> a == b
            &&& p.stream_index < q.stream_index ==> a < b
        }),
{
    law_stream_map_is_injective(kinds, drops, p.stream_index as int, q.stream_index as int);
    law_stream_map_is_injective(kinds, drops, p.stream_index as int, p.stream_index as int);
}

/// A copy starts with every stream mapped, none ended, and nothing counted,
/// and a copy that keeps no stream is a bad request.
pub proof fn law_copy_starts_fresh(kinds: Seq<i32>, drops: Drops, window: Window, i: int)
    requires
        0 <= i < kinds.len(),
    ensures
        ({
            let v = RemuxView::initial(kinds, drops, window);
            &&& v.inv()
            &&& v.window == window
            &&& v.map.len() == kinds.len()
            &&& v.map[i] is Some <==> !dropped(kinds[i], drops)
            &&& !v.ended[i]
            &&& v.streams_copied == kept_count(kinds, drops)
            &&& v.packets_written == 0
            &&& v.packets_dropped == 0
            &&& v.last_position.ticks == 0
            &&& v.wait is Header
        }),
        nothing_kept_error().kind == "invalid_request"@,
{
}

/// Every packet that is read counts once: as dropped, or as about to be
/// written. Nothing else is counted, and only the packet's own stream can
/// end, which it does when it is kept, in the window so far, and now at or
/// past the end.
pub proof fn law_each_packet_counts_once(v: RemuxView, p: RemuxPacket, i: int)
    requires
        v.inv(),
        p.alive,
        0 <= i < v.map.len(),
    ensures
        v.step(RemuxEvent::Packet { packet: p }) is Ok,
        ({
            let r = v.step(RemuxEvent::Packet { packet: p })->Ok_0;
            let ends = {
                &&& i == p.stream_index
                &&& v.map[i] is Some
                &&& !(v.window.has_start && p.before_start)
                &&& v.window.has_end && p.past_end
            };
            &&& r.0.packets_read == v.packets_read + 1
            &&& r.0.packets_written == v.packets_written
            &&& r.1 is WritePacket ==> r.0.packets_dropped == v.packets_dropped
            &&& !(r.1 is WritePacket) ==> r.0.packets_dropped == v.packets_dropped + 1
            &&& r.0.ended[i] <==> v.ended[i] || ends
            &&& r.0.map == v.map
            &&& r.0.window == v.window
            &&& r.0.streams_copied == v.streams_copied
            &&& r.0.last_position == v.last_position
            &&& r.1 is WritePacket || r.1 is ReadPacket || r.1 is WriteTrailer
        }),
{
}

/// The copy stops on a packet exactly when that packet ends its stream and
/// no kept stream is left that has not ended.
pub proof fn law_copy_stops_when_all_ended(v: RemuxView, p: RemuxPacket)
    requires
        v.inv(),
        p.alive,
    ensures
        ({
            let r = v.step(RemuxEvent::Packet { packet: p })->Ok_0;
            let i = p.stream_index as int;
            let ends = {
                &&& i < v.map.len()
                &&& v.map[i] is Some
                &&& !v.ended[i]
                &&& !(v.window.has_start && p.before_start)
                &&& v.window.has_end && p.past_end
            };
            let others = forall|j: int|
                0 <= j < v.map.len() && j != i && (#[trigger] v.map[j]) is Some ==> v.ended[j];
            &&& r.1 is WriteTrailer <==> ends && others
            &&& r.1 is WriteTrailer ==> r.0.wait is Trailer
            &&& r.1 is ReadPacket ==> r.0.wait == v.wait
        }),
{
    let i = p.stream_index as int;
    if v.wants(p) && v.passes_end(p) {
        let ended = v.ended.update(i, true);
        if forall|j: int|
            0 <= j < v.map.len() && j != i && (#[trigger] v.map[j]) is Some ==> v.ended[j] {
            assert forall|j: int| 0 <= j < v.map.len() && (#[trigger] v.map[j]) is Some implies
                ended[j] by {}
        }
        if all_ended(v.map, ended) {
            assert forall|j: int|
                0 <= j < v.map.len() && j != i && (#[trigger] v.map[j]) is Some implies v.ended[j] by {
                assert(ended[j] == v.ended[j]);
            }
        }
    }
}

/// A packet that was written counts as such, and moves the reported
/// position only forward, to the packet's own.
pub proof fn law_written_packet_counts(v: RemuxView)
    requires
        v.inv(),
        v.wait is Write,
    ensures
        v.step(RemuxEvent::Written) is Ok,
        ({
            let r = v.step(RemuxEvent::Written)->Ok_0;
            &&& r.0.packets_written == v.packets_written + 1
            &&& r.0.packets_dropped == v.packets_dropped
            &&& r.0.packets_read == v.packets_read
            &&& r.0.map == v.map && r.0.ended == v.ended && r.0.window == v.window
            &&& r.0.wait is Read
            &&& r.1 is ReadPacket
            &&& match v.wait->Write_position {
                None => r.0.last_position == v.last_position,
                Some(q) => {
                    &&& r.0.last_position == q || r.0.last_position == v.last_position
                    &&& !q.is_after(r.0.last_position)
                    &&& q.is_after(v.last_position) <==> r.0.last_position != v.last_position
                },
            }
        }),
{
    if let Some(q) = v.wait->Write_position {
        law_positions_compare_as_seconds(q, q);
    }
}

/// Packets are read only after the header, the trailer follows the end of
/// the input, and after it the copy is over; none of this changes a count.
pub proof fn law_copy_runs_in_order(v: RemuxView)
    ensures
        v.step(RemuxEvent::HeaderWritten) == Ok::<(RemuxView, RemuxAction), ErrorView>(
            (RemuxView { wait: RemuxWait::Read, ..v }, RemuxAction::ReadPacket),
        ),
        v.step(RemuxEvent::EndOfInput) == Ok::<(RemuxView, RemuxAction), ErrorView>(
            (RemuxView { wait: RemuxWait::Trailer, ..v }, RemuxAction::WriteTrailer),
        ),
        v.step(RemuxEvent::TrailerWritten) == Ok::<(RemuxView, RemuxAction), ErrorView>(
            (RemuxView { wait: RemuxWait::Finished, ..v }, RemuxAction::Finished),
        ),
{
}

/// A reply is taken exactly when the copy waits for it: the header first,
/// packets and the end of the input while it reads, the write of a packet
/// while it writes, and the trailer last.
pub proof fn law_replies_are_taken_in_turn(v: RemuxView, ev: RemuxEvent)
    ensures
        v.accepts(ev) <==> match ev {
            RemuxEvent::HeaderWritten => v.wait is Header,
            RemuxEvent::Packet { .. } => v.wait is Read && v.packets_read < u64::MAX,
            RemuxEvent::EndOfInput => v.wait is Read,
            RemuxEvent::Written => v.wait is Write,
            RemuxEvent::TrailerWritten => v.wait is Trailer,
        },
{
}

/// A copy whose caller is gone is answered with `cancelled`, and only such
/// a copy fails.
pub proof fn law_only_a_gone_caller_ends_the_copy(v: RemuxView, ev: RemuxEvent)
    ensures
        v.step(ev) is Err <==> (ev matches RemuxEvent::Packet { packet } && !packet.alive),
        v.step(ev) is Err ==> v.step(ev)->Err_0.kind == "cancelled"@,
{
}

/// A packet is placed in the window by its presentation time at the start
/// and by its decode time at the end; where one of them is not known, the
/// other stands for it.
pub proof fn law_window_times(pts: i64, dts: i64)
    ensures
        pts != i64::MIN ==> first_known(pts, dts) == Some(pts),
        pts == i64::MIN && dts != i64::MIN ==> first_known(pts, dts) == Some(dts),
        pts == i64::MIN && dts == i64::MIN ==> first_known(pts, dts) is None,
{
}

} // verus!
