//! Re-encoding as a state machine.
//!
//! Every input stream has a track: it is left out, copied, or re-encoded by
//! a pipeline of its own. Packets go to the track of their stream. At the
//! end of the input the pipelines are drained one after the other, and the
//! trailer is written when all are empty.

use crate::audio_flow::{
    law_step_keeps_invariant, AudioAction, AudioEvent, AudioFlow, AudioFlowView, AudioStage,
    AudioWait,
};
use crate::cancel::{cancelled, cancelled_error};
use crate::concat::{is_timestamp, moved, PacketTimes};
use crate::errors::{ErrorView, NativeError};
use crate::media::{duration_position, Position, AV_NOPTS_VALUE};
use crate::source_clock::{law_zero_stays_zero, SourceTiming, SourceView};
use crate::transcode_plan::{
    from_origin, law_role_counts_add_up, role_count, start_shift, StreamPlan, StreamRole,
};
use crate::video_flow::{
    exit_time, law_video_step_keeps_invariant, VideoAction, VideoEvent, VideoFlow, VideoFlowView,
    VideoStage, VideoWait,
};
use vstd::prelude::*;

verus! {

/// The state of one input stream.
#[verifier::ext_equal]
pub enum TrackView {
    Dropped,
    Copy { start: Option<i64> },
    Video { video: VideoFlowView },
    Audio { audio: AudioFlowView },
}

impl TrackView {
    /// The track has a pipeline.
    pub open spec fn is_flow(self) -> bool {
        self is Video || self is Audio
    }

    pub open spec fn role(self) -> StreamRole {
        match self {
            TrackView::Dropped => StreamRole::Drop,
            TrackView::Copy { .. } => StreamRole::Copy,
            TrackView::Video { .. } => StreamRole::Video,
            TrackView::Audio { .. } => StreamRole::Audio,
        }
    }

    pub open spec fn inv(self) -> bool {
        match self {
            TrackView::Video { video } => video.inv(),
            TrackView::Audio { audio } => audio.inv(),
            _ => true,
        }
    }

    /// The pipeline, if any, waits for a packet or the end of the input.
    pub open spec fn idle(self) -> bool {
        match self {
            TrackView::Video { video } => video.wait is Idle,
            TrackView::Audio { audio } => audio.wait is Idle,
            _ => true,
        }
    }

    /// The pipeline, if any, works on a packet.
    pub open spec fn feeding(self) -> bool {
        match self {
            TrackView::Video { video } => video.stage is Feeding,
            TrackView::Audio { audio } => audio.stage is Feeding,
            _ => true,
        }
    }

    /// The pipeline, if any, is empty and closed.
    pub open spec fn done(self) -> bool {
        match self {
            TrackView::Video { video } => video.stage is Done,
            TrackView::Audio { audio } => audio.stage is Done,
            _ => true,
        }
    }

    /// The track when a packet comes for its pipeline.
    pub open spec fn with_packet(self) -> TrackView {
        match self {
            TrackView::Video { video } => TrackView::Video {
                video: VideoFlowView { wait: VideoWait::Send, ..video },
            },
            TrackView::Audio { audio } => TrackView::Audio {
                audio: AudioFlowView { wait: AudioWait::Send, ..audio },
            },
            other => other,
        }
    }

    /// The track when its pipeline is told that the input has ended.
    pub open spec fn with_end(self) -> TrackView {
        match self {
            TrackView::Video { video } => TrackView::Video {
                video: VideoFlowView {
                    stage: VideoStage::Flushing,
                    wait: VideoWait::Send,
                    ..video
                },
            },
            TrackView::Audio { audio } => TrackView::Audio {
                audio: AudioFlowView {
                    stage: AudioStage::Flushing,
                    wait: AudioWait::Send,
                    ..audio
                },
            },
            other => other,
        }
    }
}

/// What happens to each stream.
pub open spec fn track_roles(tracks: Seq<TrackView>) -> Seq<StreamRole> {
    tracks.map_values(|t: TrackView| t.role())
}

/// Tracks that are copied.
pub open spec fn copied_tracks(tracks: Seq<TrackView>) -> nat {
    role_count(track_roles(tracks), StreamRole::Copy)
}

/// Tracks that are re-encoded.
pub open spec fn reencoded_tracks(tracks: Seq<TrackView>) -> nat {
    role_count(track_roles(tracks), StreamRole::Video) + role_count(
        track_roles(tracks),
        StreamRole::Audio,
    )
}

proof fn lemma_same_roles(tracks: Seq<TrackView>, i: int, t: TrackView)
    requires
        0 <= i < tracks.len(),
        t.role() == tracks[i].role(),
    ensures
        track_roles(tracks.update(i, t)) == track_roles(tracks),
{
    assert(track_roles(tracks.update(i, t)) =~= track_roles(tracks));
}

/// The first track with a pipeline, from an index on; the number of tracks
/// when there is none.
pub open spec fn next_flow(tracks: Seq<TrackView>, from: nat) -> nat
    decreases tracks.len() - from,
{
    if from >= tracks.len() {
        tracks.len()
    } else if tracks[from as int].is_flow() {
        from
    } else {
        next_flow(tracks, from + 1)
    }
}

proof fn lemma_next_flow(tracks: Seq<TrackView>, from: nat)
    requires
        from <= tracks.len(),
    ensures
        from <= next_flow(tracks, from) <= tracks.len(),
        next_flow(tracks, from) < tracks.len() ==> tracks[next_flow(
            tracks,
            from,
        ) as int].is_flow(),
        forall|i: int| from <= i < next_flow(tracks, from) ==> !(#[trigger] tracks[i]).is_flow(),
    decreases tracks.len() - from,
{
    if from < tracks.len() && !tracks[from as int].is_flow() {
        lemma_next_flow(tracks, from + 1);
    }
}

/// How far a re-encode is.
#[derive(Debug, Clone, Copy, PartialEq, Eq, Structural)]
pub enum TranscodeStage {
    Header,
    Read,
    /// A copied packet is being written.
    Copy,
    /// The pipeline of this track works on a packet.
    Run { track: usize },
    /// The pipeline of this track is being drained.
    Drain { track: usize },
    Trailer,
    Finished,
}

/// What came of the last action.
#[derive(Debug, Clone, Copy)]
pub enum TranscodeEvent {
    HeaderWritten,
    /// A packet, its times in the ticks of its input stream.
    Packet { stream_index: usize, times: PacketTimes, alive: bool },
    EndOfInput,
    /// The copied packet is in the output.
    Written,
    Video { video: VideoEvent },
    Audio { audio: AudioEvent },
    TrailerWritten,
}

/// What to do next.
#[derive(Debug, Clone, Copy, PartialEq, Eq, Structural)]
pub enum TranscodeAction {
    WriteHeader,
    ReadPacket,
    /// Write the packet of this track with these times, in the ticks of
    /// its input stream.
    WriteCopy { track: usize, times: PacketTimes },
    /// For the pipeline of this track.
    Video { track: usize, video: VideoAction },
    /// For the pipeline of this track.
    Audio { track: usize, audio: AudioAction },
    WriteTrailer,
    Finished,
}

/// The times of a copied packet, counted from the container's start.
pub open spec fn copied_times(start: Option<i64>, t: PacketTimes) -> (int, int) {
    match start {
        Some(s) => (moved(t.pts as int, -s), moved(t.dts as int, -s)),
        None => (t.pts as int, t.dts as int),
    }
}

/// The times of a copied packet fit.
pub open spec fn can_copy(start: Option<i64>, t: PacketTimes) -> bool {
    start is Some ==> {
        &&& t.pts != AV_NOPTS_VALUE ==> is_timestamp(t.pts - start->0)
        &&& t.dts != AV_NOPTS_VALUE ==> is_timestamp(t.dts - start->0)
    }
}

/// The state of a re-encode.
#[verifier::ext_equal]
pub struct TranscodeView {
    pub tracks: Seq<TrackView>,
    pub stage: TranscodeStage,
    pub streams_copied: nat,
    pub streams_reencoded: nat,
    pub packets_written: nat,
}

impl TranscodeView {
    /// The track that the stage is about.
    pub open spec fn current(self) -> usize {
        match self.stage {
            TranscodeStage::Run { track } => track,
            TranscodeStage::Drain { track } => track,
            _ => 0,
        }
    }

    /// A pipeline is at work.
    pub open spec fn running(self) -> bool {
        self.stage is Run || self.stage is Drain
    }

    /// The replies that can come now, with numbers that fit.
    pub open spec fn accepts(self, ev: TranscodeEvent) -> bool {
        match ev {
            TranscodeEvent::HeaderWritten => self.stage is Header,
            TranscodeEvent::Packet { stream_index, times, .. } => {
                &&& self.stage is Read
                &&& stream_index < self.tracks.len() ==> match self.tracks[stream_index as int] {
                    TrackView::Copy { start } => can_copy(start, times) && self.packets_written
                        < u64::MAX,
                    _ => true,
                }
            },
            TranscodeEvent::EndOfInput => self.stage is Read,
            TranscodeEvent::Written => self.stage is Copy,
            TranscodeEvent::Video { video } => {
                &&& self.running()
                &&& video is Packet ==> self.packets_written < u64::MAX
                &&& match self.tracks[self.current() as int] {
                    TrackView::Video { video: v } => v.accepts(video),
                    _ => false,
                }
            },
            TranscodeEvent::Audio { audio } => {
                &&& self.running()
                &&& audio is Packet ==> self.packets_written < u64::MAX
                &&& match self.tracks[self.current() as int] {
                    TrackView::Audio { audio: a } => a.accepts(audio),
                    _ => false,
                }
            },
            TranscodeEvent::TrailerWritten => self.stage is Trailer,
        }
    }

    /// Drain the pipelines from an index on, or write the trailer.
    pub open spec fn drain_from(self, from: nat) -> (TranscodeView, TranscodeAction) {
        let t = next_flow(self.tracks, from);
        if t < self.tracks.len() {
            let track = self.tracks[t as int];
            (
                TranscodeView {
                    tracks: self.tracks.update(t as int, track.with_end()),
                    stage: TranscodeStage::Drain { track: t as usize },
                    ..self
                },
                if track is Video {
                    TranscodeAction::Video { track: t as usize, video: VideoAction::SendEnd }
                } else {
                    TranscodeAction::Audio { track: t as usize, audio: AudioAction::SendEnd }
                },
            )
        } else {
            (
                TranscodeView { stage: TranscodeStage::Trailer, ..self },
                TranscodeAction::WriteTrailer,
            )
        }
    }

    /// The state after a step of the pipeline at work: back to the input
    /// when its packet is used up, on to the next pipeline when it is
    /// empty.
    pub open spec fn after_flow(
        self,
        track: TrackView,
        written: nat,
        idle: bool,
        finished: bool,
        action: TranscodeAction,
    ) -> (TranscodeView, TranscodeAction) {
        let next = TranscodeView {
            tracks: self.tracks.update(self.current() as int, track),
            packets_written: self.packets_written + written,
            ..self
        };
        if idle {
            (TranscodeView { stage: TranscodeStage::Read, ..next }, TranscodeAction::ReadPacket)
        } else if finished {
            next.drain_from(self.current() as nat + 1)
        } else {
            (next, action)
        }
    }

    /// The answer to a reply. A caller that is gone ends the re-encode.
    pub open spec fn step(self, ev: TranscodeEvent) -> Result<
        (TranscodeView, TranscodeAction),
        ErrorView,
    > {
        match ev {
            TranscodeEvent::HeaderWritten => Ok(
                (
                    TranscodeView { stage: TranscodeStage::Read, ..self },
                    TranscodeAction::ReadPacket,
                ),
            ),
            TranscodeEvent::Packet { stream_index, times, alive } => if !alive {
                Err(cancelled_error())
            } else if stream_index >= self.tracks.len() {
                Ok((self, TranscodeAction::ReadPacket))
            } else {
                let i = stream_index as int;
                match self.tracks[i] {
                    TrackView::Dropped => Ok((self, TranscodeAction::ReadPacket)),
                    TrackView::Copy { start } => {
                        let t = copied_times(start, times);
                        Ok(
                            (
                                TranscodeView { stage: TranscodeStage::Copy, ..self },
                                TranscodeAction::WriteCopy {
                                    track: stream_index,
                                    times: PacketTimes { pts: t.0 as i64, dts: t.1 as i64 },
                                },
                            ),
                        )
                    },
                    TrackView::Video { .. } => Ok(
                        (
                            TranscodeView {
                                tracks: self.tracks.update(i, self.tracks[i].with_packet()),
                                stage: TranscodeStage::Run { track: stream_index },
                                ..self
                            },
                            TranscodeAction::Video {
                                track: stream_index,
                                video: VideoAction::SendPacket,
                            },
                        ),
                    ),
                    TrackView::Audio { .. } => Ok(
                        (
                            TranscodeView {
                                tracks: self.tracks.update(i, self.tracks[i].with_packet()),
                                stage: TranscodeStage::Run { track: stream_index },
                                ..self
                            },
                            TranscodeAction::Audio {
                                track: stream_index,
                                audio: AudioAction::SendPacket,
                            },
                        ),
                    ),
                }
            },
            TranscodeEvent::EndOfInput => Ok(self.drain_from(0)),
            TranscodeEvent::Written => Ok(
                (
                    TranscodeView {
                        stage: TranscodeStage::Read,
                        packets_written: self.packets_written + 1,
                        ..self
                    },
                    TranscodeAction::ReadPacket,
                ),
            ),
            TranscodeEvent::Video { video } => match self.tracks[self.current() as int]->video.step(
                video,
            ) {
                Err(e) => Err(e),
                Ok(next) => Ok(
                    self.after_flow(
                        TrackView::Video { video: next.0 },
                        if video is Packet {
                            1
                        } else {
                            0
                        },
                        next.1 is Idle,
                        next.1 is Finished,
                        TranscodeAction::Video { track: self.current(), video: next.1 },
                    ),
                ),
            },
            TranscodeEvent::Audio { audio } => {
                let next = self.tracks[self.current() as int]->audio.step(audio);
                Ok(
                    self.after_flow(
                        TrackView::Audio { audio: next.0 },
                        if audio is Packet {
                            1
                        } else {
                            0
                        },
                        next.1 is Idle,
                        next.1 is Finished,
                        TranscodeAction::Audio { track: self.current(), audio: next.1 },
                    ),
                )
            },
            TranscodeEvent::TrailerWritten => Ok(
                (
                    TranscodeView { stage: TranscodeStage::Finished, ..self },
                    TranscodeAction::Finished,
                ),
            ),
        }
    }

    /// What holds in every state.
    pub open spec fn inv(self) -> bool {
        &&& self.tracks.len() <= usize::MAX
        &&& self.streams_copied == copied_tracks(self.tracks)
        &&& self.streams_reencoded == reencoded_tracks(self.tracks)
        &&& self.packets_written <= u64::MAX
        &&& self.stage is Copy ==> self.packets_written < u64::MAX
        &&& forall|i: int| 0 <= i < self.tracks.len() ==> (#[trigger] self.tracks[i]).inv()
        &&& match self.stage {
            TranscodeStage::Header | TranscodeStage::Read | TranscodeStage::Copy => forall|i: int|
                0 <= i < self.tracks.len() ==> (#[trigger] self.tracks[i]).idle(),
            TranscodeStage::Run { track } => {
                &&& track < self.tracks.len()
                &&& self.tracks[track as int].is_flow()
                &&& self.tracks[track as int].feeding()
                &&& !self.tracks[track as int].idle()
                &&& forall|i: int|
                    0 <= i < self.tracks.len() && i != track ==> (#[trigger] self.tracks[i]).idle()
            },
            TranscodeStage::Drain { track } => {
                &&& track < self.tracks.len()
                &&& self.tracks[track as int].is_flow()
                &&& !self.tracks[track as int].feeding()
                &&& !self.tracks[track as int].done()
                &&& forall|i: int| 0 <= i < track ==> (#[trigger] self.tracks[i]).done()
                &&& forall|i: int|
                    track < i < self.tracks.len() ==> (#[trigger] self.tracks[i]).idle()
            },
            TranscodeStage::Trailer | TranscodeStage::Finished => forall|i: int|
                0 <= i < self.tracks.len() ==> (#[trigger] self.tracks[i]).done(),
        }
    }
}

/// One input stream of a re-encode.
#[derive(Debug)]
pub enum Track {
    Dropped,
    /// The packets are copied; the container start time to subtract, in
    /// the ticks of the input stream.
    Copy { start: Option<i64> },
    Video { video: VideoFlow },
    Audio { audio: AudioFlow },
}

impl View for Track {
    type V = TrackView;

    open spec fn view(&self) -> TrackView {
        match self {
            Track::Dropped => TrackView::Dropped,
            Track::Copy { start } => TrackView::Copy { start: *start },
            Track::Video { video } => TrackView::Video { video: video@ },
            Track::Audio { audio } => TrackView::Audio { audio: audio@ },
        }
    }
}

impl Track {
    /// The pipeline, if any, is in a state that it can reach.
    pub open spec fn wf(&self) -> bool {
        match self {
            Track::Video { video } => video.wf(),
            Track::Audio { audio } => audio.wf(),
            _ => true,
        }
    }
}

/// The counts of a finished re-encode.
#[derive(Debug, Clone, Copy, PartialEq, Eq, Structural)]
pub struct TranscodeStats {
    pub streams_copied: u32,
    pub streams_reencoded: u32,
    pub packets_written: u64,
    pub duration: Position,
}

/// A re-encode.
#[derive(Debug)]
pub struct Transcode {
    tracks: Vec<Track>,
    stage: TranscodeStage,
    streams_copied: u32,
    streams_reencoded: u32,
    packets_written: u64,
}

impl View for Transcode {
    type V = TranscodeView;

    closed spec fn view(&self) -> TranscodeView {
        TranscodeView {
            tracks: self.tracks@.map_values(|t: Track| t@),
            stage: self.stage,
            streams_copied: self.streams_copied as nat,
            streams_reencoded: self.streams_reencoded as nat,
            packets_written: self.packets_written as nat,
        }
    }
}

impl Transcode {
    /// The re-encode is in a state that it can reach.
    pub closed spec fn wf(&self) -> bool {
        &&& forall|i: int| 0 <= i < self.tracks@.len() ==> (#[trigger] self.tracks@[i]).wf()
        &&& self@.inv()
    }

    /// What a reachable state satisfies.
    pub proof fn lemma_inv(&self)
        requires
            self.wf(),
        ensures
            self@.inv(),
    {
    }

    /// A re-encode with a track for every input stream, as planned. The
    /// pipelines have seen nothing yet.
    pub fn new(plan: &StreamPlan, tracks: Vec<Track>) -> (t: Self)
        requires
            plan.counts_roles(),
            tracks@.len() == plan.roles@.len(),
            forall|i: int|
                0 <= i < tracks@.len() ==> (#[trigger] tracks@[i]).wf() && tracks@[i]@.idle()
                    && tracks@[i]@.role() == plan.roles@[i],
        ensures
            t.wf(),
            t@ == (TranscodeView {
                tracks: tracks@.map_values(|t: Track| t@),
                stage: TranscodeStage::Header,
                streams_copied: plan.copied as nat,
                streams_reencoded: plan.reencoded as nat,
                packets_written: 0,
            }),
    {
        assert(tracks.len() <= usize::MAX);
        let ghost views = tracks@.map_values(|t: Track| t@);
        proof {
            assert forall|i: int| 0 <= i < views.len() implies (#[trigger] views[i]).inv()
                && views[i].idle() by {
                assert(tracks@[i].wf());
                if let Track::Audio { audio } = tracks@[i] {
                    audio.lemma_inv();
                }
            }
        }
        let t = Transcode {
            tracks,
            stage: TranscodeStage::Header,
            streams_copied: plan.copied,
            streams_reencoded: plan.reencoded,
            packets_written: 0,
        };
        assert(t@.tracks =~= views);
        assert(track_roles(views) =~= plan.roles@);
        t
    }

    /// How far the re-encode is.
    pub fn stage(&self) -> (r: TranscodeStage)
        ensures
            r == self@.stage,
    {
        self.stage
    }

    /// Packets written so far.
    pub fn packets_written(&self) -> (r: u64)
        ensures
            r == self@.packets_written,
    {
        self.packets_written
    }

    /// Whether this reply can come now, with numbers that fit.
    pub fn can_step(&self, ev: &TranscodeEvent) -> (b: bool)
        requires
            self.wf(),
        ensures
            b == self@.accepts(*ev),
    {
        match *ev {
            TranscodeEvent::HeaderWritten => self.stage == TranscodeStage::Header,
            TranscodeEvent::Packet { stream_index, times, alive: _ } => {
                if self.stage != TranscodeStage::Read {
                    return false;
                }
                if stream_index >= self.tracks.len() {
                    return true;
                }
                match &self.tracks[stream_index] {
                    Track::Copy { start } => fits_copy(*start, times) && self.packets_written
                        < u64::MAX,
                    _ => true,
                }
            },
            TranscodeEvent::EndOfInput => self.stage == TranscodeStage::Read,
            TranscodeEvent::Written => self.stage == TranscodeStage::Copy,
            TranscodeEvent::Video { video } => match self.at_work() {
                Some(i) => {
                    if matches!(video, VideoEvent::Packet) && self.packets_written == u64::MAX {
                        return false;
                    }
                    proof {
                        assert(self.tracks@[i as int].wf());
                    }
                    match &self.tracks[i] {
                        Track::Video { video: flow } => flow.can_step(&video),
                        _ => false,
                    }
                },
                None => false,
            },
            TranscodeEvent::Audio { audio } => match self.at_work() {
                Some(i) => {
                    if matches!(audio, AudioEvent::Packet) && self.packets_written == u64::MAX {
                        return false;
                    }
                    proof {
                        assert(self.tracks@[i as int].wf());
                    }
                    match &self.tracks[i] {
                        Track::Audio { audio: flow } => flow.can_step(&audio),
                        _ => false,
                    }
                },
                None => false,
            },
            TranscodeEvent::TrailerWritten => self.stage == TranscodeStage::Trailer,
        }
    }

    /// The track whose pipeline is at work.
    pub fn at_work(&self) -> (r: Option<usize>)
        requires
            self.wf(),
        ensures
            r is Some == self@.running(),
            r is Some ==> r->0 == self@.current() && r->0 < self@.tracks.len(),
    {
        match self.stage {
            TranscodeStage::Run { track } => Some(track),
            TranscodeStage::Drain { track } => Some(track),
            _ => None,
        }
    }

    fn drain_from(&mut self, from: usize) -> (a: TranscodeAction)
        requires
            from <= old(self).tracks@.len(),
            forall|i: int|
                0 <= i < old(self).tracks@.len() ==> (#[trigger] old(self).tracks@[i]).wf(),
            old(self)@.streams_copied == copied_tracks(old(self)@.tracks),
            old(self)@.streams_reencoded == reencoded_tracks(old(self)@.tracks),
            forall|i: int| 0 <= i < old(self)@.tracks.len() ==> (#[trigger] old(self)@.tracks[i]).inv(),
            forall|i: int| 0 <= i < from ==> (#[trigger] old(self)@.tracks[i]).done(),
            forall|i: int|
                from <= i < old(self)@.tracks.len() ==> (#[trigger] old(self)@.tracks[i]).idle(),
        ensures
            final(self).wf(),
            (final(self)@, a) == old(self)@.drain_from(from as nat),
    {
        let ghost before = self@;
        let ghost tracks0 = self.tracks@;
        let n: usize = self.tracks.len();
        let mut t: usize = from;
        proof {
            lemma_next_flow(before.tracks, from as nat);
        }
        while t < n && !is_flow(&self.tracks[t])
            invariant
                from <= t <= n,
                n == self.tracks@.len(),
                self@ == before,
                self.tracks@ == tracks0,
                before.tracks == tracks0.map_values(|t: Track| t@),
                next_flow(before.tracks, from as nat) == next_flow(before.tracks, t as nat),
            decreases n - t,
        {
            assert(before.tracks[t as int] == self.tracks@[t as int]@);
            t = t + 1;
        }
        if t >= n {
            self.stage = TranscodeStage::Trailer;
            proof {
                assert(next_flow(before.tracks, from as nat) == n);
                assert(self@ =~= before.drain_from(from as nat).0);
            }
            return TranscodeAction::WriteTrailer;
        }
        proof {
            assert(before.tracks[t as int] == self.tracks@[t as int]@);
            assert(next_flow(before.tracks, from as nat) == t);
            assert(tracks0[t as int].wf());
            assert(before.tracks[t as int].idle());
        }
        let mut a = TranscodeAction::WriteTrailer;
        match &mut self.tracks[t] {
            Track::Video { video } => {
                a = TranscodeAction::Video { track: t, video: video.begin_flush() };
            },
            Track::Audio { audio } => {
                a = TranscodeAction::Audio { track: t, audio: audio.begin_flush() };
            },
            _ => {},
        }
        self.stage = TranscodeStage::Drain { track: t };
        proof {
            lemma_same_roles(before.tracks, t as int, before.tracks[t as int].with_end());
            assert(self@ =~= before.drain_from(from as nat).0);
        }
        a
    }

    /// Take a reply and say what to do next. Fails only when the caller is
    /// gone, and then leaves the state as it was.
    pub fn step(&mut self, ev: TranscodeEvent) -> (r: Result<TranscodeAction, NativeError>)
        requires
            old(self).wf(),
            old(self)@.accepts(ev),
        ensures
            final(self).wf(),
            match r {
                Ok(a) => old(self)@.step(ev) == Ok::<(TranscodeView, TranscodeAction), ErrorView>(
                    (final(self)@, a),
                ),
                Err(e) => old(self)@.step(ev) == Err::<
                    (TranscodeView, TranscodeAction),
                    ErrorView,
                >(e@) && final(self)@ == old(self)@,
            },
    {
        match ev {
            TranscodeEvent::HeaderWritten => {
                let ghost before = self@;
                self.stage = TranscodeStage::Read;
                assert(self@ =~= before.step(ev)->Ok_0.0);
                Ok(TranscodeAction::ReadPacket)
            },
            TranscodeEvent::Packet { stream_index, times, alive } => {
                if !alive {
                    return Err(cancelled());
                }
                Ok(self.dispatch(stream_index, times))
            },
            TranscodeEvent::EndOfInput => Ok(self.drain_from(0)),
            TranscodeEvent::Written => {
                let ghost before = self@;
                self.packets_written = self.packets_written + 1;
                self.stage = TranscodeStage::Read;
                assert(self@ =~= before.step(ev)->Ok_0.0);
                Ok(TranscodeAction::ReadPacket)
            },
            TranscodeEvent::Video { video } => self.step_video(video),
            TranscodeEvent::Audio { audio } => Ok(self.step_audio(audio)),
            TranscodeEvent::TrailerWritten => {
                let ghost before = self@;
                self.stage = TranscodeStage::Finished;
                assert(self@ =~= before.step(ev)->Ok_0.0);
                Ok(TranscodeAction::Finished)
            },
        }
    }

    fn dispatch(&mut self, stream_index: usize, times: PacketTimes) -> (a: TranscodeAction)
        requires
            old(self).wf(),
            old(self)@.accepts(TranscodeEvent::Packet { stream_index, times, alive: true }),
        ensures
            final(self).wf(),
            old(self)@.step(TranscodeEvent::Packet { stream_index, times, alive: true }) == Ok::<
                (TranscodeView, TranscodeAction),
                ErrorView,
            >((final(self)@, a)),
    {
        let ghost before = self@;
        let ghost ev = TranscodeEvent::Packet { stream_index, times, alive: true };
        if stream_index >= self.tracks.len() {
            return TranscodeAction::ReadPacket;
        }
        proof {
            assert(before.tracks[stream_index as int] == self.tracks@[stream_index as int]@);
            assert(self.tracks@[stream_index as int].wf());
            assert(before.tracks[stream_index as int].idle());
        }
        let mut a = TranscodeAction::ReadPacket;
        let mut next = self.stage;
        match &mut self.tracks[stream_index] {
            Track::Dropped => {},
            Track::Copy { start } => {
                a =
                TranscodeAction::WriteCopy {
                    track: stream_index,
                    times: shift_copy(*start, times),
                };
                next = TranscodeStage::Copy;
            },
            Track::Video { video } => {
                a =
                TranscodeAction::Video { track: stream_index, video: video.begin_packet() };
                next = TranscodeStage::Run { track: stream_index };
            },
            Track::Audio { audio } => {
                a =
                TranscodeAction::Audio { track: stream_index, audio: audio.begin_packet() };
                next = TranscodeStage::Run { track: stream_index };
            },
        }
        self.stage = next;
        proof {
            lemma_same_roles(
                before.tracks,
                stream_index as int,
                before.tracks[stream_index as int].with_packet(),
            );
            assert(self@ =~= before.step(ev)->Ok_0.0);
            if let Track::Audio { audio } = self.tracks@[stream_index as int] {
                audio.lemma_inv();
            }
        }
        a
    }

    fn step_video(&mut self, video: VideoEvent) -> (r: Result<TranscodeAction, NativeError>)
        requires
            old(self).wf(),
            old(self)@.accepts(TranscodeEvent::Video { video }),
        ensures
            final(self).wf(),
            match r {
                Ok(a) => old(self)@.step(TranscodeEvent::Video { video }) == Ok::<
                    (TranscodeView, TranscodeAction),
                    ErrorView,
                >((final(self)@, a)),
                Err(e) => old(self)@.step(TranscodeEvent::Video { video }) == Err::<
                    (TranscodeView, TranscodeAction),
                    ErrorView,
                >(e@) && final(self)@ == old(self)@,
            },
    {
        let ghost before = self@;
        let ghost tracks0 = self.tracks@;
        let i: usize = match self.stage {
            TranscodeStage::Run { track } => track,
            TranscodeStage::Drain { track } => track,
            _ => 0,
        };
        proof {
            assert(before.tracks[i as int] == self.tracks@[i as int]@);
            assert(self.tracks@[i as int].wf());
        }
        let mut outcome: Result<VideoAction, NativeError> = Ok(VideoAction::Idle);
        match &mut self.tracks[i] {
            Track::Video { video: flow } => {
                outcome = flow.step(video);
            },
            _ => {},
        }
        let action = match outcome {
            Ok(a) => a,
            Err(e) => {
                proof {
                    assert(self@ =~= before);
                }
                return Err(e);
            },
        };
        if matches!(video, VideoEvent::Packet) {
            self.packets_written = self.packets_written + 1;
        }
        let ghost next = before.tracks[i as int]->video.step(video)->Ok_0;
        proof {
            assert(self@.tracks =~= before.tracks.update(i as int, TrackView::Video {
                video: next.0,
            }));
            lemma_same_roles(before.tracks, i as int, TrackView::Video { video: next.0 });
        }
        match action {
            VideoAction::Idle => {
                self.stage = TranscodeStage::Read;
                assert(self@ =~= before.step(TranscodeEvent::Video { video })->Ok_0.0);
                Ok(TranscodeAction::ReadPacket)
            },
            VideoAction::Finished => Ok(self.drain_from(i + 1)),
            other => {
                assert(self@ =~= before.step(TranscodeEvent::Video { video })->Ok_0.0);
                Ok(TranscodeAction::Video { track: i, video: other })
            },
        }
    }

    fn step_audio(&mut self, audio: AudioEvent) -> (a: TranscodeAction)
        requires
            old(self).wf(),
            old(self)@.accepts(TranscodeEvent::Audio { audio }),
        ensures
            final(self).wf(),
            old(self)@.step(TranscodeEvent::Audio { audio }) == Ok::<
                (TranscodeView, TranscodeAction),
                ErrorView,
            >((final(self)@, a)),
    {
        let ghost before = self@;
        let i: usize = match self.stage {
            TranscodeStage::Run { track } => track,
            TranscodeStage::Drain { track } => track,
            _ => 0,
        };
        proof {
            assert(before.tracks[i as int] == self.tracks@[i as int]@);
            assert(self.tracks@[i as int].wf());
        }
        let mut action = AudioAction::Idle;
        match &mut self.tracks[i] {
            Track::Audio { audio: flow } => {
                action = flow.step(audio);
            },
            _ => {},
        }
        if matches!(audio, AudioEvent::Packet) {
            self.packets_written = self.packets_written + 1;
        }
        let ghost next = before.tracks[i as int]->audio.step(audio);
        proof {
            assert(self@.tracks =~= before.tracks.update(i as int, TrackView::Audio {
                audio: next.0,
            }));
            lemma_same_roles(before.tracks, i as int, TrackView::Audio { audio: next.0 });
            if let Track::Audio { audio: flow } = self.tracks@[i as int] {
                flow.lemma_inv();
            }
        }
        match action {
            AudioAction::Idle => {
                self.stage = TranscodeStage::Read;
                assert(self@ =~= before.step(TranscodeEvent::Audio { audio })->Ok_0.0);
                TranscodeAction::ReadPacket
            },
            AudioAction::Finished => self.drain_from(i + 1),
            other => {
                assert(self@ =~= before.step(TranscodeEvent::Audio { audio })->Ok_0.0);
                TranscodeAction::Audio { track: i, audio: other }
            },
        }
    }

    /// The counts. `duration` is the input's, in `AV_TIME_BASE` ticks.
    pub fn stats(&self, duration: i64) -> (r: TranscodeStats)
        requires
            self.wf(),
        ensures
            r.streams_copied == copied_tracks(self@.tracks),
            r.streams_reencoded == reencoded_tracks(self@.tracks),
            r.packets_written == self@.packets_written,
            r.duration == duration_position(duration),
    {
        TranscodeStats {
            streams_copied: self.streams_copied,
            streams_reencoded: self.streams_reencoded,
            packets_written: self.packets_written,
            duration: Position::from_av_duration(duration),
        }
    }
}

/// The times of a copied packet, counted from the container's start.
pub fn shift_copy(start: Option<i64>, t: PacketTimes) -> (r: PacketTimes)
    requires
        can_copy(start, t),
    ensures
        (r.pts as int, r.dts as int) == copied_times(start, t),
{
    match start {
        None => t,
        Some(s) => {
            let pts: i64 = if t.pts == AV_NOPTS_VALUE {
                t.pts
            } else {
                t.pts - s
            };
            let dts: i64 = if t.dts == AV_NOPTS_VALUE {
                t.dts
            } else {
                t.dts - s
            };
            PacketTimes { pts, dts }
        },
    }
}

/// Whether a track has a pipeline.
fn is_flow(t: &Track) -> (r: bool)
    ensures
        r == t@.is_flow(),
{
    match t {
        Track::Video { video: _ } => true,
        Track::Audio { audio: _ } => true,
        _ => false,
    }
}

/// Whether the times of a copied packet fit.
pub fn fits_copy(start: Option<i64>, t: PacketTimes) -> (b: bool)
    ensures
        b == can_copy(start, t),
{
    match start {
        None => true,
        Some(s) => {
            let pts: i128 = t.pts as i128 - s as i128;
            let dts: i128 = t.dts as i128 - s as i128;
            let lo: i128 = AV_NOPTS_VALUE as i128;
            let hi: i128 = i64::MAX as i128;
            (t.pts == AV_NOPTS_VALUE || (lo < pts && pts <= hi)) && (t.dts == AV_NOPTS_VALUE || (lo
                < dts && dts <= hi))
        },
    }
}

proof fn lemma_drain_keeps_invariant(v: TranscodeView, from: nat)
    requires
        v.tracks.len() <= usize::MAX,
        v.packets_written <= u64::MAX,
        v.streams_copied == copied_tracks(v.tracks),
        v.streams_reencoded == reencoded_tracks(v.tracks),
        from <= v.tracks.len(),
        forall|i: int| 0 <= i < v.tracks.len() ==> (#[trigger] v.tracks[i]).inv(),
        forall|i: int| 0 <= i < from ==> (#[trigger] v.tracks[i]).done(),
        forall|i: int| from <= i < v.tracks.len() ==> (#[trigger] v.tracks[i]).idle(),
    ensures
        v.drain_from(from).0.inv(),
{
    lemma_next_flow(v.tracks, from);
    let t = next_flow(v.tracks, from) as int;
    if t < v.tracks.len() {
        lemma_same_roles(v.tracks, t, v.tracks[t].with_end());
    }
}

/// Every accepted reply leads from a reachable state to a reachable state.
pub proof fn law_transcode_step_keeps_invariant(v: TranscodeView, ev: TranscodeEvent)
    requires
        v.inv(),
        v.accepts(ev),
        v.step(ev) is Ok,
    ensures
        v.step(ev)->Ok_0.0.inv(),
{
    match ev {
        TranscodeEvent::Packet { stream_index, .. } => {
            if stream_index < v.tracks.len() {
                let i = stream_index as int;
                lemma_same_roles(v.tracks, i, v.tracks[i].with_packet());
            }
        },
        TranscodeEvent::EndOfInput => {
            lemma_drain_keeps_invariant(v, 0);
        },
        TranscodeEvent::Video { video } => {
            let i = v.current() as int;
            let next = v.tracks[i]->video.step(video)->Ok_0;
            law_video_step_keeps_invariant(v.tracks[i]->video, video);
            lemma_same_roles(v.tracks, i, TrackView::Video { video: next.0 });
            if next.1 is Finished {
                let after = TranscodeView {
                    tracks: v.tracks.update(i, TrackView::Video { video: next.0 }),
                    packets_written: v.packets_written + (if video is Packet {
                        1nat
                    } else {
                        0
                    }),
                    ..v
                };
                lemma_drain_keeps_invariant(after, (i + 1) as nat);
            }
        },
        TranscodeEvent::Audio { audio } => {
            let i = v.current() as int;
            let next = v.tracks[i]->audio.step(audio);
            law_step_keeps_invariant(v.tracks[i]->audio, audio);
            lemma_same_roles(v.tracks, i, TrackView::Audio { audio: next.0 });
            if next.1 is Finished {
                let after = TranscodeView {
                    tracks: v.tracks.update(i, TrackView::Audio { audio: next.0 }),
                    packets_written: v.packets_written + (if audio is Packet {
                        1nat
                    } else {
                        0
                    }),
                    ..v
                };
                lemma_drain_keeps_invariant(after, (i + 1) as nat);
            }
        },
        _ => {},
    }
}

/// The trailer is written only when every pipeline is empty and closed.
pub proof fn law_trailer_comes_last(v: TranscodeView, ev: TranscodeEvent, i: int)
    requires
        v.inv(),
        v.accepts(ev),
        v.step(ev) is Ok,
        v.step(ev)->Ok_0.1 is WriteTrailer,
        0 <= i < v.tracks.len(),
    ensures
        v.step(ev)->Ok_0.0.tracks[i].done(),
{
    law_transcode_step_keeps_invariant(v, ev);
    let next = v.step(ev)->Ok_0.0;
    assert(next.stage is Trailer);
    assert(next.tracks[i].done());
}

/// A packet touches no track but that of its stream.
pub proof fn law_packets_stay_in_their_track(
    v: TranscodeView,
    stream_index: usize,
    times: PacketTimes,
    i: int,
)
    requires
        v.inv(),
        v.accepts(TranscodeEvent::Packet { stream_index, times, alive: true }),
        0 <= i < v.tracks.len(),
        i != stream_index,
    ensures
        v.step(TranscodeEvent::Packet { stream_index, times, alive: true }) is Ok,
        v.step(TranscodeEvent::Packet { stream_index, times, alive: true })->Ok_0.0.tracks[i]
            == v.tracks[i],
{
}

/// A packet of a stream that is left out, or that the plan does not know,
/// changes nothing.
pub proof fn law_dropped_packets_change_nothing(
    v: TranscodeView,
    stream_index: usize,
    times: PacketTimes,
)
    requires
        v.inv(),
        v.accepts(TranscodeEvent::Packet { stream_index, times, alive: true }),
        stream_index < v.tracks.len() ==> v.tracks[stream_index as int] is Dropped,
    ensures
        v.step(TranscodeEvent::Packet { stream_index, times, alive: true }) == Ok::<
            (TranscodeView, TranscodeAction),
            ErrorView,
        >((v, TranscodeAction::ReadPacket)),
{
}

/// All packets of a copied stream move by the same amount: the spacing of
/// packets, and of presentation and decode time, is kept, and an unknown
/// time stays unknown.
pub proof fn law_copied_spacing_is_kept(start: Option<i64>, a: PacketTimes, b: PacketTimes)
    ensures
        (a.pts != AV_NOPTS_VALUE && b.pts != AV_NOPTS_VALUE) ==> copied_times(start, b).0
            - copied_times(start, a).0 == b.pts - a.pts,
        (a.dts != AV_NOPTS_VALUE && b.dts != AV_NOPTS_VALUE) ==> copied_times(start, b).1
            - copied_times(start, a).1 == b.dts - a.dts,
        (a.pts != AV_NOPTS_VALUE && a.dts != AV_NOPTS_VALUE) ==> copied_times(start, a).0
            - copied_times(start, a).1 == a.pts - a.dts,
        a.pts == AV_NOPTS_VALUE ==> copied_times(start, a).0 == AV_NOPTS_VALUE,
        a.dts == AV_NOPTS_VALUE ==> copied_times(start, a).1 == AV_NOPTS_VALUE,
{
}

/// Copied and re-encoded streams share one origin: a packet, a video frame
/// and an audio frame at the container's start time all come out at zero,
/// be that time positive or negative.
pub proof fn law_streams_share_the_origin(start: i64, out_step: i64, timing: SourceTiming)
    requires
        start != AV_NOPTS_VALUE,
        timing.valid(),
    ensures
        copied_times(start_shift(start), PacketTimes { pts: start, dts: start }) == (0int, 0int),
        exit_time(None, out_step, start, Some(start)) == Some(0int),
        from_origin(Some(start), start) == Some(0i64),
        SourceView::empty(timing).lead(from_origin(Some(start), start)) == 0,
{
    law_zero_stays_zero(timing);
}

/// The count goes up by one for every packet that is written, and by
/// nothing else.
pub proof fn law_every_written_packet_counts(v: TranscodeView, ev: TranscodeEvent)
    requires
        v.inv(),
        v.accepts(ev),
        v.step(ev) is Ok,
    ensures
        v.step(ev)->Ok_0.0.packets_written == v.packets_written + (match ev {
            TranscodeEvent::Written => 1nat,
            TranscodeEvent::Video { video } => if video is Packet {
                1
            } else {
                0
            },
            TranscodeEvent::Audio { audio } => if audio is Packet {
                1
            } else {
                0
            },
            _ => 0,
        }),
{
}

/// A gone caller ends the re-encode at the next packet.
pub proof fn law_a_gone_caller_ends_the_transcode(
    v: TranscodeView,
    stream_index: usize,
    times: PacketTimes,
)
    ensures
        v.step(TranscodeEvent::Packet { stream_index, times, alive: false }) == Err::<
            (TranscodeView, TranscodeAction),
            ErrorView,
        >(cancelled_error()),
{
}

/// A packet of a copied stream is written to that stream, with the
/// container's start time taken off every time that is known; a packet of a
/// re-encoded stream is handed to the decoder of its own pipeline.
pub proof fn law_packets_reach_their_track(
    v: TranscodeView,
    stream_index: usize,
    times: PacketTimes,
)
    requires
        v.inv(),
        stream_index < v.tracks.len(),
        v.accepts(TranscodeEvent::Packet { stream_index, times, alive: true }),
    ensures
        v.step(TranscodeEvent::Packet { stream_index, times, alive: true }) is Ok,
        ({
            let r = v.step(TranscodeEvent::Packet { stream_index, times, alive: true })->Ok_0;
            let i = stream_index as int;
            &&& r.0.packets_written == v.packets_written
            &&& match v.tracks[i] {
                TrackView::Dropped => r.1 is ReadPacket && r.0 == v,
                TrackView::Copy { start } => {
                    let s: int = match start {
                        Some(s) => s as int,
                        None => 0,
                    };
                    &&& r.1 is WriteCopy
                    &&& r.1->WriteCopy_track == stream_index
                    &&& times.pts != i64::MIN ==> r.1->times.pts == times.pts - s
                    &&& times.dts != i64::MIN ==> r.1->times.dts == times.dts - s
                    &&& times.pts == i64::MIN ==> r.1->times.pts == i64::MIN
                    &&& times.dts == i64::MIN ==> r.1->times.dts == i64::MIN
                    &&& r.0.stage is Copy
                    &&& r.0.tracks == v.tracks
                },
                TrackView::Video { .. } => {
                    &&& r.1 == (TranscodeAction::Video {
                        track: stream_index,
                        video: VideoAction::SendPacket,
                    })
                    &&& r.0.stage == (TranscodeStage::Run { track: stream_index })
                    &&& r.0.tracks[i] == (TrackView::Video {
                        video: VideoFlowView { wait: VideoWait::Send, ..v.tracks[i]->video },
                    })
                },
                TrackView::Audio { .. } => {
                    &&& r.1 == (TranscodeAction::Audio {
                        track: stream_index,
                        audio: AudioAction::SendPacket,
                    })
                    &&& r.0.stage == (TranscodeStage::Run { track: stream_index })
                    &&& r.0.tracks[i] == (TrackView::Audio {
                        audio: AudioFlowView { wait: AudioWait::Send, ..v.tracks[i]->audio },
                    })
                },
            }
        }),
{
}

/// A reply of a video pipeline moves that pipeline as the pipeline says,
/// and what the pipeline asks for is asked for on its own track. When its
/// packet is used up, the next packet is read.
pub proof fn law_video_pipelines_are_served(v: TranscodeView, video: VideoEvent)
    requires
        v.inv(),
        v.accepts(TranscodeEvent::Video { video }),
    ensures
        ({
            let t = v.current();
            let flow = v.tracks[t as int]->video;
            let r = v.step(TranscodeEvent::Video { video });
            &&& r is Err <==> flow.step(video) is Err
            &&& r is Err ==> r->Err_0 == flow.step(video)->Err_0
            &&& r is Ok ==> {
                let asked = flow.step(video)->Ok_0.1;
                let next = r->Ok_0;
                &&& next.0.tracks[t as int] == (TrackView::Video {
                    video: flow.step(video)->Ok_0.0,
                })
                &&& asked is Idle ==> next.1 is ReadPacket && next.0.stage is Read
                &&& !(asked is Idle) && !(asked is Finished) ==> next.1 == (
                TranscodeAction::Video { track: t, video: asked }) && next.0.stage == v.stage
            }
        }),
{
    let t = v.current() as int;
    if v.step(TranscodeEvent::Video { video }) is Ok {
        let after = v.tracks.update(
            t,
            TrackView::Video { video: v.tracks[t]->video.step(video)->Ok_0.0 },
        );
        lemma_next_flow(after, (t + 1) as nat);
    }
}

/// A reply of an audio pipeline moves that pipeline in the same way.
pub proof fn law_audio_pipelines_are_served(v: TranscodeView, audio: AudioEvent)
    requires
        v.inv(),
        v.accepts(TranscodeEvent::Audio { audio }),
    ensures
        ({
            let t = v.current();
            let flow = v.tracks[t as int]->audio;
            let asked = flow.step(audio).1;
            let r = v.step(TranscodeEvent::Audio { audio });
            &&& r is Ok
            &&& r->Ok_0.0.tracks[t as int] == (TrackView::Audio { audio: flow.step(audio).0 })
            &&& asked is Idle ==> r->Ok_0.1 is ReadPacket && r->Ok_0.0.stage is Read
            &&& !(asked is Idle) && !(asked is Finished) ==> r->Ok_0.1 == (
            TranscodeAction::Audio { track: t, audio: asked }) && r->Ok_0.0.stage == v.stage
        }),
{
    let t = v.current() as int;
    let after = v.tracks.update(
        t,
        TrackView::Audio { audio: v.tracks[t]->audio.step(audio).0 },
    );
    lemma_next_flow(after, (t + 1) as nat);
}

/// The pipelines are drained in the order of their streams, none is left
/// out, and the trailer is written when there is none left: what is asked
/// for is the end of a pipeline that no other undrained one stands before,
/// or the trailer.
pub proof fn law_pipelines_are_drained_in_order(v: TranscodeView, from: nat, i: int)
    requires
        from <= v.tracks.len() <= usize::MAX,
    ensures
        ({
            let r = v.drain_from(from);
            &&& r.1 is WriteTrailer ==> r.0.stage is Trailer && r.0.tracks == v.tracks && (from <= i
                < v.tracks.len() ==> v.tracks[i] is Dropped || v.tracks[i] is Copy)
            &&& !(r.1 is WriteTrailer) ==> {
                let t = r.0.current();
                &&& from <= t < v.tracks.len()
                &&& r.0.stage == (TranscodeStage::Drain { track: t })
                &&& from <= i < t ==> v.tracks[i] is Dropped || v.tracks[i] is Copy
                &&& 0 <= i < v.tracks.len() && i != t ==> r.0.tracks[i] == v.tracks[i]
                &&& v.tracks[t as int] is Video ==> r.1 == (TranscodeAction::Video {
                    track: t,
                    video: VideoAction::SendEnd,
                }) && r.0.tracks[t as int]->video == (VideoFlowView {
                    stage: VideoStage::Flushing,
                    wait: VideoWait::Send,
                    ..v.tracks[t as int]->video
                })
                &&& v.tracks[t as int] is Audio ==> r.1 == (TranscodeAction::Audio {
                    track: t,
                    audio: AudioAction::SendEnd,
                }) && r.0.tracks[t as int]->audio == (AudioFlowView {
                    stage: AudioStage::Flushing,
                    wait: AudioWait::Send,
                    ..v.tracks[t as int]->audio
                })
                &&& v.tracks[t as int] is Video || v.tracks[t as int] is Audio
            }
            &&& r.0.packets_written == v.packets_written
        }),
        v.step(TranscodeEvent::EndOfInput) == Ok::<(TranscodeView, TranscodeAction), ErrorView>(
            v.drain_from(0),
        ),
{
    lemma_next_flow(v.tracks, from);
}

/// A pipeline that is empty is followed by the drain of the ones behind it.
pub proof fn law_a_drained_pipeline_is_left(v: TranscodeView, ev: TranscodeEvent)
    requires
        v.inv(),
        v.accepts(ev),
        v.step(ev) is Ok,
        match ev {
            TranscodeEvent::Video { video } => v.tracks[v.current() as int]->video.step(
                video,
            )->Ok_0.1 is Finished,
            TranscodeEvent::Audio { audio } => v.tracks[v.current() as int]->audio.step(
                audio,
            ).1 is Finished,
            _ => false,
        },
    ensures
        ({
            let r = v.step(ev)->Ok_0;
            &&& r.1 is WriteTrailer || r.0.current() > v.current()
            &&& r.1 is WriteTrailer || r.0.stage is Drain
        }),
{
    let t = v.current() as int;
    let after = match ev {
        TranscodeEvent::Video { video } => v.tracks.update(
            t,
            TrackView::Video { video: v.tracks[t]->video.step(video)->Ok_0.0 },
        ),
        TranscodeEvent::Audio { audio } => v.tracks.update(
            t,
            TrackView::Audio { audio: v.tracks[t]->audio.step(audio).0 },
        ),
        _ => v.tracks,
    };
    lemma_next_flow(after, (t + 1) as nat);
}

/// A reply is taken exactly when the re-encode is there for it: packets
/// while it reads, the write of a copy while it copies, and the replies of
/// a pipeline while that pipeline works and waits for them.
pub proof fn law_transcode_takes_replies_in_turn(v: TranscodeView, ev: TranscodeEvent)
    requires
        v.inv(),
    ensures
        match ev {
            TranscodeEvent::HeaderWritten => v.accepts(ev) <==> v.stage is Header,
            TranscodeEvent::EndOfInput => v.accepts(ev) <==> v.stage is Read,
            TranscodeEvent::Written => v.accepts(ev) <==> v.stage is Copy,
            TranscodeEvent::TrailerWritten => v.accepts(ev) <==> v.stage is Trailer,
            TranscodeEvent::Packet { stream_index, times, .. } => {
                &&& v.accepts(ev) ==> v.stage is Read
                &&& v.stage is Read && (stream_index >= v.tracks.len() || !(
                v.tracks[stream_index as int] is Copy)) ==> v.accepts(ev)
                &&& v.stage is Read && stream_index < v.tracks.len()
                    && v.tracks[stream_index as int] is Copy && v.packets_written < u64::MAX && (
                v.tracks[stream_index as int]->start is None || (times.pts
                    - v.tracks[stream_index as int]->start->0 > i64::MIN && times.pts
                    - v.tracks[stream_index as int]->start->0 <= i64::MAX && times.dts
                    - v.tracks[stream_index as int]->start->0 > i64::MIN && times.dts
                    - v.tracks[stream_index as int]->start->0 <= i64::MAX)) ==> v.accepts(ev)
            },
            TranscodeEvent::Video { video } => {
                let t = v.current() as int;
                v.accepts(ev) <==> (v.stage is Run || v.stage is Drain) && v.tracks[t] is Video
                    && v.tracks[t]->video.accepts(video) && (video is Packet ==> v.packets_written
                    < u64::MAX)
            },
            TranscodeEvent::Audio { audio } => {
                let t = v.current() as int;
                v.accepts(ev) <==> (v.stage is Run || v.stage is Drain) && v.tracks[t] is Audio
                    && v.tracks[t]->audio.accepts(audio) && (audio is Packet ==> v.packets_written
                    < u64::MAX)
            },
        },
        v.stage matches TranscodeStage::Run { track } ==> v.current() == track,
        v.stage matches TranscodeStage::Drain { track } ==> v.current() == track,
{
}

/// The header leads to the first packet, a written copy to the next, and
/// the trailer to the end; none of these touches a track.
pub proof fn law_transcode_runs_in_order(v: TranscodeView)
    ensures
        v.step(TranscodeEvent::HeaderWritten) is Ok,
        v.step(TranscodeEvent::HeaderWritten)->Ok_0.1 is ReadPacket,
        v.step(TranscodeEvent::HeaderWritten)->Ok_0.0.stage is Read,
        v.step(TranscodeEvent::HeaderWritten)->Ok_0.0.tracks == v.tracks,
        v.step(TranscodeEvent::Written) is Ok,
        v.step(TranscodeEvent::Written)->Ok_0.1 is ReadPacket,
        v.step(TranscodeEvent::Written)->Ok_0.0.stage is Read,
        v.step(TranscodeEvent::Written)->Ok_0.0.tracks == v.tracks,
        v.step(TranscodeEvent::TrailerWritten) is Ok,
        v.step(TranscodeEvent::TrailerWritten)->Ok_0.1 is Finished,
        v.step(TranscodeEvent::TrailerWritten)->Ok_0.0.stage is Finished,
        v.step(TranscodeEvent::TrailerWritten)->Ok_0.0.packets_written == v.packets_written,
{
}

/// The streams that are reported as copied and re-encoded are the tracks
/// that copy and that have a pipeline: counts add up over parts, and one
/// track counts once.
pub proof fn law_reported_streams_are_the_tracks(a: Seq<TrackView>, b: Seq<TrackView>, t: TrackView)
    ensures
        copied_tracks(a + b) == copied_tracks(a) + copied_tracks(b),
        reencoded_tracks(a + b) == reencoded_tracks(a) + reencoded_tracks(b),
        t is Copy ==> copied_tracks(seq![t]) == 1 && reencoded_tracks(seq![t]) == 0,
        t is Video || t is Audio ==> copied_tracks(seq![t]) == 0 && reencoded_tracks(seq![t]) == 1,
        t is Dropped ==> copied_tracks(seq![t]) == 0 && reencoded_tracks(seq![t]) == 0,
{
    assert(track_roles(a + b) =~= track_roles(a) + track_roles(b));
    assert(track_roles(seq![t]) =~= seq![t.role()]);
    law_role_counts_add_up(track_roles(a), track_roles(b), StreamRole::Copy);
    law_role_counts_add_up(track_roles(a), track_roles(b), StreamRole::Video);
    law_role_counts_add_up(track_roles(a), track_roles(b), StreamRole::Audio);
}

/// A re-encode whose caller is gone is answered with `cancelled`; apart
/// from that only a video pipeline can end it.
pub proof fn law_transcode_failures(v: TranscodeView, ev: TranscodeEvent)
    ensures
        v.step(ev) is Err ==> (ev matches TranscodeEvent::Packet { alive, .. } && !alive)
            || ev is Video,
        ev matches TranscodeEvent::Packet { alive, .. } ==> (v.step(ev) is Err <==> !alive),
        ev is Packet && v.step(ev) is Err ==> v.step(ev)->Err_0.kind == "cancelled"@,
{
}

} // verus!
