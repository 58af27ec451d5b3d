//! The video re-encode pipeline as a state machine: decoder, filter graph,
//! encoder.
//!
//! The machine says what to do next and is told what came of it. Frames
//! keep the time stamps that the source and the filter graph give them,
//! counted from the output's origin. A frame whose time stamp does not
//! advance is dropped, and a frame without one follows the frame before it
//! by one frame interval. At the end of the input the decoder is flushed
//! first, then the filter graph, then the encoder.

use crate::cancel::{cancelled, cancelled_error};
use crate::errors::{ErrorView, NativeError};
use crate::media::AV_NOPTS_VALUE;
use vstd::prelude::*;

verus! {

/// The time stamp of a decoded frame: its presentation time, else the
/// decoder's best guess.
pub open spec fn decoded_time(pts: i64, best_effort: i64) -> Option<i64> {
    if pts != AV_NOPTS_VALUE {
        Some(pts)
    } else if best_effort != AV_NOPTS_VALUE {
        Some(best_effort)
    } else {
        None
    }
}

/// The time stamp of a decoded frame.
pub fn frame_time(pts: i64, best_effort: i64) -> (r: Option<i64>)
    ensures
        r == decoded_time(pts, best_effort),
{
    if pts != AV_NOPTS_VALUE {
        Some(pts)
    } else if best_effort != AV_NOPTS_VALUE {
        Some(best_effort)
    } else {
        None
    }
}

/// A frame interval in ticks, at least one.
pub fn frame_step(ticks: i64) -> (r: i64)
    ensures
        r >= 1,
        r == (if ticks < 1 {
            1
        } else {
            ticks as int
        }),
{
    if ticks < 1 {
        1
    } else {
        ticks
    }
}

/// Where a frame without a time stamp goes: one interval after the frame
/// before it, the first one to zero.
pub open spec fn next_time(last: Option<i64>, step: i64) -> int {
    match last {
        Some(t) => t + step,
        None => 0,
    }
}

/// The time stamp with which a decoded frame enters the filter graph.
pub open spec fn entry_time(last: Option<i64>, step: i64, ts: Option<i64>) -> int {
    match ts {
        Some(t) => t as int,
        None => next_time(last, step),
    }
}

/// The time stamp with which a filtered frame enters the encoder; none
/// when the frame does not advance.
pub open spec fn exit_time(
    last: Option<i64>,
    step: i64,
    origin: i64,
    ts: Option<i64>,
) -> Option<int> {
    match ts {
        Some(t) => {
            let at = t - origin;
            match last {
                Some(l) => if at > l {
                    Some(at)
                } else {
                    None
                },
                None => Some(at),
            }
        },
        None => Some(next_time(last, step)),
    }
}

/// How far the pipeline is towards its end.
#[derive(Debug, Clone, Copy, PartialEq, Eq, Structural)]
pub enum VideoStage {
    /// Packets are still coming.
    Feeding,
    /// The decoder was told that no more packets come.
    Flushing,
    /// The filter graph was told that no more frames come.
    Draining,
    /// The encoder was told that no more frames come.
    Closing,
    /// Everything is encoded.
    Done,
}

/// What the machine waits for.
#[derive(Debug, Clone, Copy, PartialEq, Eq, Structural)]
pub enum VideoWait {
    /// The next packet, or the end of the input.
    Idle,
    Send,
    Frame,
    Push,
    Pull,
    Encode,
    Packet,
    Finished,
}

/// What came of the last action.
#[derive(Debug, Clone, Copy)]
pub enum VideoEvent {
    /// The decoder took the packet or the end marker.
    Sent,
    /// The decoder gave a frame with this time stamp, in the input's
    /// ticks.
    Frame { timestamp: Option<i64> },
    /// The decoder has no frame now.
    DecoderDry,
    /// The filter graph took the frame or the end marker.
    Pushed,
    /// The filter graph gave a frame with this time stamp, in the
    /// encoder's ticks.
    Filtered { timestamp: Option<i64>, alive: bool },
    /// The filter graph has no frame now.
    GraphDry,
    /// The encoder took the frame or the end marker.
    Encoded,
    /// The encoder gave a packet, and it is in the output.
    Packet,
    /// The encoder has no packet now.
    EncoderDry,
}

/// What to do next.
#[derive(Debug, Clone, Copy, PartialEq, Eq, Structural)]
pub enum VideoAction {
    /// Hand the current packet to the decoder.
    SendPacket,
    /// Tell the decoder that no more packets come.
    SendEnd,
    ReceiveFrame,
    /// Hand the decoded frame to the filter graph at this time stamp.
    PushFrame { pts: i64 },
    /// Tell the filter graph that no more frames come.
    PushEnd,
    /// Take a frame out of the filter graph.
    PullFrame,
    /// Encode the filtered frame at this time stamp.
    Encode { pts: i64 },
    ReceivePacket,
    /// Tell the encoder that no more frames come.
    FlushEncoder,
    /// The packet is used up.
    Idle,
    Finished,
}

/// The state of the pipeline.
#[verifier::ext_equal]
pub struct VideoFlowView {
    /// The output's origin, in the encoder's ticks.
    pub origin: i64,
    /// A frame interval in the input's ticks.
    pub in_step: i64,
    /// A frame interval in the encoder's ticks.
    pub out_step: i64,
    pub stage: VideoStage,
    pub wait: VideoWait,
    pub last_in: Option<i64>,
    pub last_out: Option<i64>,
    /// Frames that the filter graph gave.
    pub filtered: nat,
    pub encoded: nat,
    pub dropped: nat,
    pub packets_written: nat,
}

/// The place of a stage in the flush order.
pub open spec fn video_rank(s: VideoStage) -> nat {
    match s {
        VideoStage::Feeding => 0,
        VideoStage::Flushing => 1,
        VideoStage::Draining => 2,
        VideoStage::Closing => 3,
        VideoStage::Done => 4,
    }
}

impl VideoFlowView {
    /// The state before the first packet.
    pub open spec fn initial(origin: i64, in_step: i64, out_step: i64) -> VideoFlowView {
        VideoFlowView {
            origin,
            in_step,
            out_step,
            stage: VideoStage::Feeding,
            wait: VideoWait::Idle,
            last_in: None,
            last_out: None,
            filtered: 0,
            encoded: 0,
            dropped: 0,
            packets_written: 0,
        }
    }

    /// The replies that the machine can take now, and that fit its
    /// numbers.
    pub open spec fn accepts(self, ev: VideoEvent) -> bool {
        match (self.wait, ev) {
            (VideoWait::Send, VideoEvent::Sent) => true,
            (VideoWait::Frame, VideoEvent::Frame { timestamp }) => entry_time(
                self.last_in,
                self.in_step,
                timestamp,
            ) <= i64::MAX,
            (VideoWait::Frame, VideoEvent::DecoderDry) => true,
            (VideoWait::Push, VideoEvent::Pushed) => true,
            (VideoWait::Pull, VideoEvent::Filtered { timestamp, .. }) => {
                &&& self.filtered < u64::MAX
                &&& match timestamp {
                    Some(t) => AV_NOPTS_VALUE < t - self.origin <= i64::MAX,
                    None => next_time(self.last_out, self.out_step) <= i64::MAX,
                }
            },
            (VideoWait::Pull, VideoEvent::GraphDry) => true,
            (VideoWait::Encode, VideoEvent::Encoded) => true,
            (VideoWait::Packet, VideoEvent::Packet) => self.packets_written < u64::MAX,
            (VideoWait::Packet, VideoEvent::EncoderDry) => true,
            _ => false,
        }
    }

    /// The machine's answer to a reply. A caller that is gone ends the
    /// pipeline.
    pub open spec fn step(self, ev: VideoEvent) -> Result<(VideoFlowView, VideoAction), ErrorView> {
        match ev {
            VideoEvent::Sent => Ok(
                (VideoFlowView { wait: VideoWait::Frame, ..self }, VideoAction::ReceiveFrame),
            ),
            VideoEvent::Frame { timestamp } => {
                let pts = entry_time(self.last_in, self.in_step, timestamp) as i64;
                Ok(
                    (
                        VideoFlowView { wait: VideoWait::Push, last_in: Some(pts), ..self },
                        VideoAction::PushFrame { pts },
                    ),
                )
            },
            VideoEvent::DecoderDry => if self.stage is Feeding {
                Ok((VideoFlowView { wait: VideoWait::Idle, ..self }, VideoAction::Idle))
            } else {
                Ok(
                    (
                        VideoFlowView {
                            stage: VideoStage::Draining,
                            wait: VideoWait::Push,
                            ..self
                        },
                        VideoAction::PushEnd,
                    ),
                )
            },
            VideoEvent::Pushed => Ok(
                (VideoFlowView { wait: VideoWait::Pull, ..self }, VideoAction::PullFrame),
            ),
            VideoEvent::Filtered { timestamp, alive } => if !alive {
                Err(cancelled_error())
            } else {
                match exit_time(self.last_out, self.out_step, self.origin, timestamp) {
                    Some(t) => Ok(
                        (
                            VideoFlowView {
                                wait: VideoWait::Encode,
                                last_out: Some(t as i64),
                                filtered: self.filtered + 1,
                                encoded: self.encoded + 1,
                                ..self
                            },
                            VideoAction::Encode { pts: t as i64 },
                        ),
                    ),
                    None => Ok(
                        (
                            VideoFlowView {
                                filtered: self.filtered + 1,
                                dropped: self.dropped + 1,
                                ..self
                            },
                            VideoAction::PullFrame,
                        ),
                    ),
                }
            },
            VideoEvent::GraphDry => if self.stage is Draining {
                Ok(
                    (
                        VideoFlowView {
                            stage: VideoStage::Closing,
                            wait: VideoWait::Encode,
                            ..self
                        },
                        VideoAction::FlushEncoder,
                    ),
                )
            } else {
                Ok((VideoFlowView { wait: VideoWait::Frame, ..self }, VideoAction::ReceiveFrame))
            },
            VideoEvent::Encoded => Ok(
                (VideoFlowView { wait: VideoWait::Packet, ..self }, VideoAction::ReceivePacket),
            ),
            VideoEvent::Packet => Ok(
                (
                    VideoFlowView { packets_written: self.packets_written + 1, ..self },
                    VideoAction::ReceivePacket,
                ),
            ),
            VideoEvent::EncoderDry => if self.stage is Closing {
                Ok(
                    (
                        VideoFlowView {
                            stage: VideoStage::Done,
                            wait: VideoWait::Finished,
                            ..self
                        },
                        VideoAction::Finished,
                    ),
                )
            } else {
                Ok((VideoFlowView { wait: VideoWait::Pull, ..self }, VideoAction::PullFrame))
            },
        }
    }

    /// What holds in every state.
    pub open spec fn inv(self) -> bool {
        &&& self.in_step >= 1
        &&& self.out_step >= 1
        &&& self.filtered == self.encoded + self.dropped
        &&& self.filtered <= u64::MAX
        &&& self.packets_written <= u64::MAX
        &&& self.encoded > 0 <==> self.last_out is Some
        &&& match self.wait {
            VideoWait::Idle => self.stage is Feeding,
            VideoWait::Send | VideoWait::Frame => self.stage is Feeding || self.stage is Flushing,
            VideoWait::Push | VideoWait::Pull => self.stage is Feeding || self.stage is Flushing
                || self.stage is Draining,
            VideoWait::Encode | VideoWait::Packet => !(self.stage is Done),
            VideoWait::Finished => self.stage is Done,
        }
    }
}

/// The video re-encode pipeline.
#[derive(Debug)]
pub struct VideoFlow {
    origin: i64,
    in_step: i64,
    out_step: i64,
    stage: VideoStage,
    wait: VideoWait,
    last_in: Option<i64>,
    last_out: Option<i64>,
    filtered: u64,
    encoded: u64,
    dropped: u64,
    packets_written: u64,
}

impl View for VideoFlow {
    type V = VideoFlowView;

    closed spec fn view(&self) -> VideoFlowView {
        VideoFlowView {
            origin: self.origin,
            in_step: self.in_step,
            out_step: self.out_step,
            stage: self.stage,
            wait: self.wait,
            last_in: self.last_in,
            last_out: self.last_out,
            filtered: self.filtered as nat,
            encoded: self.encoded as nat,
            dropped: self.dropped as nat,
            packets_written: self.packets_written as nat,
        }
    }
}

impl VideoFlow {
    /// The pipeline is in a state that it can reach.
    pub open spec fn wf(&self) -> bool {
        self@.inv()
    }

    /// A pipeline that has seen nothing yet. The origin and the second
    /// interval count in the encoder's ticks, the first interval in the
    /// input's.
    pub fn new(origin: i64, in_step: i64, out_step: i64) -> (f: Self)
        requires
            in_step >= 1,
            out_step >= 1,
        ensures
            f.wf(),
            f@ == VideoFlowView::initial(origin, in_step, out_step),
    {
        let f = VideoFlow {
            origin,
            in_step,
            out_step,
            stage: VideoStage::Feeding,
            wait: VideoWait::Idle,
            last_in: None,
            last_out: None,
            filtered: 0,
            encoded: 0,
            dropped: 0,
            packets_written: 0,
        };
        assert(f@ =~= VideoFlowView::initial(origin, in_step, out_step));
        f
    }

    /// How far the pipeline is.
    pub fn stage(&self) -> (s: VideoStage)
        ensures
            s == self@.stage,
    {
        self.stage
    }

    /// What the pipeline waits for.
    pub fn wait(&self) -> (w: VideoWait)
        ensures
            w == self@.wait,
    {
        self.wait
    }

    /// Frames that were dropped because they did not advance.
    pub fn dropped(&self) -> (n: u64)
        ensures
            n == self@.dropped,
    {
        self.dropped
    }

    /// Packets that reached the output.
    pub fn packets_written(&self) -> (n: u64)
        ensures
            n == self@.packets_written,
    {
        self.packets_written
    }

    /// A packet is there for the decoder.
    pub fn begin_packet(&mut self) -> (a: VideoAction)
        requires
            old(self).wf(),
            old(self)@.wait is Idle,
        ensures
            final(self).wf(),
            final(self)@ == (VideoFlowView { wait: VideoWait::Send, ..old(self)@ }),
            a == VideoAction::SendPacket,
    {
        let ghost before = self@;
        self.wait = VideoWait::Send;
        assert(self@ =~= VideoFlowView { wait: VideoWait::Send, ..before });
        VideoAction::SendPacket
    }

    /// The input has ended.
    pub fn begin_flush(&mut self) -> (a: VideoAction)
        requires
            old(self).wf(),
            old(self)@.wait is Idle,
        ensures
            final(self).wf(),
            final(self)@ == (VideoFlowView {
                stage: VideoStage::Flushing,
                wait: VideoWait::Send,
                ..old(self)@
            }),
            a == VideoAction::SendEnd,
    {
        let ghost before = self@;
        self.stage = VideoStage::Flushing;
        self.wait = VideoWait::Send;
        assert(self@ =~= VideoFlowView {
            stage: VideoStage::Flushing,
            wait: VideoWait::Send,
            ..before
        });
        VideoAction::SendEnd
    }

    /// Whether the machine can take this reply now.
    pub fn can_step(&self, ev: &VideoEvent) -> (b: bool)
        requires
            self.wf(),
        ensures
            b == self@.accepts(*ev),
    {
        match (self.wait, *ev) {
            (VideoWait::Send, VideoEvent::Sent) => true,
            (VideoWait::Frame, VideoEvent::Frame { timestamp }) => match timestamp {
                Some(_) => true,
                None => match self.last_in {
                    Some(l) => l <= i64::MAX - self.in_step,
                    None => true,
                },
            },
            (VideoWait::Frame, VideoEvent::DecoderDry) => true,
            (VideoWait::Push, VideoEvent::Pushed) => true,
            (VideoWait::Pull, VideoEvent::Filtered { timestamp, alive: _ }) => {
                let fits = match timestamp {
                    Some(t) => {
                        let at: i128 = t as i128 - self.origin as i128;
                        (AV_NOPTS_VALUE as i128) < at && at <= i64::MAX as i128
                    },
                    None => match self.last_out {
                        Some(l) => l <= i64::MAX - self.out_step,
                        None => true,
                    },
                };
                self.filtered < u64::MAX && fits
            },
            (VideoWait::Pull, VideoEvent::GraphDry) => true,
            (VideoWait::Encode, VideoEvent::Encoded) => true,
            (VideoWait::Packet, VideoEvent::Packet) => self.packets_written < u64::MAX,
            (VideoWait::Packet, VideoEvent::EncoderDry) => true,
            _ => false,
        }
    }

    /// Take a reply and say what to do next. Fails only when the caller is
    /// gone, and then leaves the state as it was.
    pub fn step(&mut self, ev: VideoEvent) -> (r: Result<VideoAction, NativeError>)
        requires
            old(self).wf(),
            old(self)@.accepts(ev),
        ensures
            final(self).wf(),
            match r {
                Ok(a) => old(self)@.step(ev) == Ok::<(VideoFlowView, VideoAction), ErrorView>(
                    (final(self)@, a),
                ),
                Err(e) => old(self)@.step(ev) == Err::<(VideoFlowView, VideoAction), ErrorView>(e@)
                    && final(self)@ == old(self)@,
            },
    {
        let ghost before = self@;
        match ev {
            VideoEvent::Sent => {
                self.wait = VideoWait::Frame;
                assert(self@ =~= before.step(ev)->Ok_0.0);
                Ok(VideoAction::ReceiveFrame)
            },
            VideoEvent::Frame { timestamp } => {
                let pts: i64 = match timestamp {
                    Some(t) => t,
                    None => match self.last_in {
                        Some(l) => l + self.in_step,
                        None => 0,
                    },
                };
                self.last_in = Some(pts);
                self.wait = VideoWait::Push;
                assert(self@ =~= before.step(ev)->Ok_0.0);
                Ok(VideoAction::PushFrame { pts })
            },
            VideoEvent::DecoderDry => {
                if self.stage == VideoStage::Feeding {
                    self.wait = VideoWait::Idle;
                    assert(self@ =~= before.step(ev)->Ok_0.0);
                    Ok(VideoAction::Idle)
                } else {
                    self.stage = VideoStage::Draining;
                    self.wait = VideoWait::Push;
                    assert(self@ =~= before.step(ev)->Ok_0.0);
                    Ok(VideoAction::PushEnd)
                }
            },
            VideoEvent::Pushed => {
                self.wait = VideoWait::Pull;
                assert(self@ =~= before.step(ev)->Ok_0.0);
                Ok(VideoAction::PullFrame)
            },
            VideoEvent::Filtered { timestamp, alive } => {
                if !alive {
                    return Err(cancelled());
                }
                let pts: Option<i64> = match timestamp {
                    Some(t) => {
                        let at: i64 = t - self.origin;
                        match self.last_out {
                            Some(l) => if at > l {
                                Some(at)
                            } else {
                                None
                            },
                            None => Some(at),
                        }
                    },
                    None => match self.last_out {
                        Some(l) => Some(l + self.out_step),
                        None => Some(0),
                    },
                };
                self.filtered = self.filtered + 1;
                match pts {
                    Some(t) => {
                        self.last_out = Some(t);
                        self.encoded = self.encoded + 1;
                        self.wait = VideoWait::Encode;
                        assert(self@ =~= before.step(ev)->Ok_0.0);
                        Ok(VideoAction::Encode { pts: t })
                    },
                    None => {
                        self.dropped = self.dropped + 1;
                        assert(self@ =~= before.step(ev)->Ok_0.0);
                        Ok(VideoAction::PullFrame)
                    },
                }
            },
            VideoEvent::GraphDry => {
                if self.stage == VideoStage::Draining {
                    self.stage = VideoStage::Closing;
                    self.wait = VideoWait::Encode;
                    assert(self@ =~= before.step(ev)->Ok_0.0);
                    Ok(VideoAction::FlushEncoder)
                } else {
                    self.wait = VideoWait::Frame;
                    assert(self@ =~= before.step(ev)->Ok_0.0);
                    Ok(VideoAction::ReceiveFrame)
                }
            },
            VideoEvent::Encoded => {
                self.wait = VideoWait::Packet;
                assert(self@ =~= before.step(ev)->Ok_0.0);
                Ok(VideoAction::ReceivePacket)
            },
            VideoEvent::Packet => {
                self.packets_written = self.packets_written + 1;
                assert(self@ =~= before.step(ev)->Ok_0.0);
                Ok(VideoAction::ReceivePacket)
            },
            VideoEvent::EncoderDry => {
                if self.stage == VideoStage::Closing {
                    self.stage = VideoStage::Done;
                    self.wait = VideoWait::Finished;
                    assert(self@ =~= before.step(ev)->Ok_0.0);
                    Ok(VideoAction::Finished)
                } else {
                    self.wait = VideoWait::Pull;
                    assert(self@ =~= before.step(ev)->Ok_0.0);
                    Ok(VideoAction::PullFrame)
                }
            },
        }
    }
}

/// Every accepted reply leads from a reachable state to a reachable state.
pub proof fn law_video_step_keeps_invariant(v: VideoFlowView, ev: VideoEvent)
    requires
        v.inv(),
        v.accepts(ev),
        v.step(ev) is Ok,
    ensures
        v.step(ev)->Ok_0.0.inv(),
{
}

/// The stages are flushed in pipeline order and never revisited: the filter
/// graph ends only after the decoder is empty, and the encoder is flushed
/// only after the filter graph is.
pub proof fn law_video_flush_order(v: VideoFlowView, ev: VideoEvent)
    requires
        v.inv(),
        v.accepts(ev),
        v.step(ev) is Ok,
    ensures
        video_rank(v.stage) <= video_rank(v.step(ev)->Ok_0.0.stage),
        v.step(ev)->Ok_0.1 is PushEnd ==> v.stage is Flushing && ev is DecoderDry,
        v.step(ev)->Ok_0.1 is FlushEncoder ==> v.stage is Draining && ev is GraphDry,
        v.step(ev)->Ok_0.1 is Finished <==> v.step(ev)->Ok_0.0.stage is Done,
{
}

/// A frame that advances keeps its time stamp, counted from the origin.
pub proof fn law_time_stamps_are_kept(v: VideoFlowView, t: i64)
    requires
        v.inv(),
        v.accepts(VideoEvent::Filtered { timestamp: Some(t), alive: true }),
        v.last_out is Some ==> v.last_out->0 < t - v.origin,
    ensures
        v.step(VideoEvent::Filtered { timestamp: Some(t), alive: true }) is Ok,
        v.step(VideoEvent::Filtered { timestamp: Some(t), alive: true })->Ok_0.1
            == (VideoAction::Encode { pts: (t - v.origin) as i64 }),
{
}

/// A frame whose time stamp does not advance is dropped: nothing is
/// encoded, and the next frame is asked for.
pub proof fn law_frames_that_do_not_advance_are_dropped(v: VideoFlowView, t: i64)
    requires
        v.inv(),
        v.accepts(VideoEvent::Filtered { timestamp: Some(t), alive: true }),
        v.last_out is Some,
        t - v.origin <= v.last_out->0,
    ensures
        ({
            let next = v.step(VideoEvent::Filtered { timestamp: Some(t), alive: true });
            &&& next is Ok
            &&& next->Ok_0.1 == VideoAction::PullFrame
            &&& next->Ok_0.0.last_out == v.last_out
            &&& next->Ok_0.0.encoded == v.encoded
        }),
{
}

/// A gone caller stops the pipeline at the next frame out of the filter
/// graph, also while the graph drains.
pub proof fn law_a_gone_caller_stops_the_drain(v: VideoFlowView, timestamp: Option<i64>)
    requires
        v.inv(),
        v.accepts(VideoEvent::Filtered { timestamp, alive: false }),
    ensures
        v.step(VideoEvent::Filtered { timestamp, alive: false }) == Err::<
            (VideoFlowView, VideoAction),
            ErrorView,
        >(cancelled_error()),
{
}

/// Something that moves the pipeline: a packet, the end of the input, or a
/// reply.
pub enum VideoInput {
    Packet,
    End,
    Reply { ev: VideoEvent },
}

/// Whether the input can come in this state and does not end the pipeline.
pub open spec fn video_legal_input(v: VideoFlowView, i: VideoInput) -> bool {
    match i {
        VideoInput::Packet => v.wait is Idle,
        VideoInput::End => v.wait is Idle,
        VideoInput::Reply { ev } => v.accepts(ev) && v.step(ev) is Ok,
    }
}

/// The state after one input.
pub open spec fn video_after(v: VideoFlowView, i: VideoInput) -> VideoFlowView {
    match i {
        VideoInput::Packet => VideoFlowView { wait: VideoWait::Send, ..v },
        VideoInput::End => VideoFlowView {
            stage: VideoStage::Flushing,
            wait: VideoWait::Send,
            ..v
        },
        VideoInput::Reply { ev } => v.step(ev)->Ok_0.0,
    }
}

/// The state after a run.
pub open spec fn video_run(v: VideoFlowView, inputs: Seq<VideoInput>) -> VideoFlowView
    decreases inputs.len(),
{
    if inputs.len() == 0 {
        v
    } else {
        video_after(video_run(v, inputs.drop_last()), inputs.last())
    }
}

/// Whether every input of a run can come when it comes.
pub open spec fn video_legal_run(v: VideoFlowView, inputs: Seq<VideoInput>) -> bool
    decreases inputs.len(),
{
    inputs.len() == 0 || {
        &&& video_legal_run(v, inputs.drop_last())
        &&& video_legal_input(video_run(v, inputs.drop_last()), inputs.last())
    }
}

/// The time stamps that a run hands to the encoder, in order.
pub open spec fn encoded_times(v: VideoFlowView, inputs: Seq<VideoInput>) -> Seq<int>
    decreases inputs.len(),
{
    if inputs.len() == 0 {
        seq![]
    } else {
        let before = encoded_times(v, inputs.drop_last());
        let s = video_run(v, inputs.drop_last());
        match inputs.last() {
            VideoInput::Reply { ev } => match s.step(ev)->Ok_0.1 {
                VideoAction::Encode { pts } => before.push(pts as int),
                _ => before,
            },
            _ => before,
        }
    }
}

proof fn lemma_video_run(v: VideoFlowView, inputs: Seq<VideoInput>)
    requires
        v.inv(),
        v.last_out is None,
        video_legal_run(v, inputs),
    ensures
        video_run(v, inputs).inv(),
        encoded_times(v, inputs).len() == video_run(v, inputs).encoded,
        forall|i: int|
            0 <= i < encoded_times(v, inputs).len() ==> #[trigger] encoded_times(v, inputs)[i]
                <= video_run(v, inputs).last_out->0,
        forall|i: int, j: int|
            0 <= i < j < encoded_times(v, inputs).len() ==> #[trigger] encoded_times(v, inputs)[i]
                < #[trigger] encoded_times(v, inputs)[j],
    decreases inputs.len(),
{
    if inputs.len() > 0 {
        let front = inputs.drop_last();
        lemma_video_run(v, front);
        let s = video_run(v, front);
        let w = encoded_times(v, front);
        assert(video_legal_input(s, inputs.last()));
        if let VideoInput::Reply { ev } = inputs.last() {
            let t = s.step(ev)->Ok_0.0;
            law_video_step_keeps_invariant(s, ev);
            if s.step(ev)->Ok_0.1 is Encode {
                let pts = s.step(ev)->Ok_0.1->Encode_pts;
                assert(t.last_out == Some(pts));
                assert(s.last_out is Some ==> s.last_out->0 < pts);
                assert(encoded_times(v, inputs) =~= w.push(pts as int));
                assert(w.len() > 0 ==> s.last_out is Some);
            } else {
                assert(encoded_times(v, inputs) =~= w);
                assert(t.last_out == s.last_out);
            }
        } else {
            assert(encoded_times(v, inputs) =~= w);
        }
    }
}

/// Over any run the encoder gets strictly increasing time stamps, one for
/// each frame that is counted as encoded.
pub proof fn law_encoded_times_increase(
    origin: i64,
    in_step: i64,
    out_step: i64,
    inputs: Seq<VideoInput>,
    i: int,
    j: int,
)
    requires
        in_step >= 1,
        out_step >= 1,
        video_legal_run(VideoFlowView::initial(origin, in_step, out_step), inputs),
    ensures
        ({
            let v = VideoFlowView::initial(origin, in_step, out_step);
            let times = encoded_times(v, inputs);
            &&& times.len() == video_run(v, inputs).encoded
            &&& 0 <= i < j < times.len() ==> times[i] < times[j]
        }),
{
    lemma_video_run(VideoFlowView::initial(origin, in_step, out_step), inputs);
}

/// Every frame out of the filter graph is either encoded or dropped.
pub proof fn law_filtered_frames_are_accounted_for(v: VideoFlowView)
    requires
        v.inv(),
    ensures
        v.filtered == v.encoded + v.dropped,
{
}

/// A decoded frame is timed by its presentation time, or by the decoder's
/// guess where that is not known.
pub proof fn law_decoded_time(pts: i64, best_effort: i64)
    ensures
        pts != i64::MIN ==> decoded_time(pts, best_effort) == Some(pts),
        pts == i64::MIN && best_effort != i64::MIN ==> decoded_time(pts, best_effort) == Some(
            best_effort,
        ),
        pts == i64::MIN && best_effort == i64::MIN ==> decoded_time(pts, best_effort) is None,
{
}

/// Every decoded frame goes to the filter graph: at its own time, or one
/// frame interval of the input after the frame before it, or at zero where
/// there was none.
pub proof fn law_decoded_frames_reach_the_graph(v: VideoFlowView, timestamp: Option<i64>)
    requires
        v.inv(),
        v.accepts(VideoEvent::Frame { timestamp }),
    ensures
        v.step(VideoEvent::Frame { timestamp }) is Ok,
        ({
            let r = v.step(VideoEvent::Frame { timestamp })->Ok_0;
            &&& r.1 is PushFrame
            &&& timestamp matches Some(t) ==> r.1->PushFrame_pts == t
            &&& timestamp is None && v.last_in is Some ==> r.1->PushFrame_pts == v.last_in->0
                + v.in_step
            &&& timestamp is None && v.last_in is None ==> r.1->PushFrame_pts == 0
            &&& r.0.last_in == Some(r.1->PushFrame_pts)
            &&& r.0.wait is Push
            &&& r.0.stage == v.stage
            &&& r.0.last_out == v.last_out
        }),
{
}

/// A filtered frame without a time is encoded one frame interval of the
/// output after the frame before it, or at zero; one with a time that
/// advances at that time, counted from the origin. What is encoded is
/// counted, and remembered as the last time.
pub proof fn law_filtered_frames_are_encoded(v: VideoFlowView, timestamp: Option<i64>)
    requires
        v.inv(),
        v.accepts(VideoEvent::Filtered { timestamp, alive: true }),
    ensures
        v.step(VideoEvent::Filtered { timestamp, alive: true }) is Ok,
        ({
            let r = v.step(VideoEvent::Filtered { timestamp, alive: true })->Ok_0;
            &&& timestamp is None ==> r.1 is Encode
            &&& timestamp is None && v.last_out is Some ==> r.1->Encode_pts == v.last_out->0
                + v.out_step
            &&& timestamp is None && v.last_out is None ==> r.1->Encode_pts == 0
            &&& timestamp matches Some(t) ==> (r.1 is Encode <==> v.last_out is None
                || v.last_out->0 < t - v.origin)
            &&& timestamp matches Some(t) ==> (r.1 is Encode ==> r.1->Encode_pts == t - v.origin)
            &&& r.1 is Encode ==> {
                &&& r.0.last_out == Some(r.1->Encode_pts)
                &&& r.0.encoded == v.encoded + 1
                &&& r.0.dropped == v.dropped
                &&& r.0.wait is Encode
            }
            &&& !(r.1 is Encode) ==> {
                &&& r.1 is PullFrame
                &&& r.0.dropped == v.dropped + 1
                &&& r.0.encoded == v.encoded
                &&& r.0.wait == v.wait
            }
            &&& r.0.stage == v.stage
            &&& r.0.last_in == v.last_in
        }),
{
}

/// The pipeline goes its way: a packet that was sent is decoded, a frame
/// that was pushed is pulled, a dry graph asks for the next frame or, at
/// the end, flushes the encoder, and a dry encoder pulls the next frame or,
/// at the end, finishes. Only a packet counts as written.
pub proof fn law_video_goes_its_way(v: VideoFlowView, ev: VideoEvent)
    requires
        v.inv(),
        v.accepts(ev),
        v.step(ev) is Ok,
    ensures
        ({
            let r = v.step(ev)->Ok_0;
            &&& r.0.origin == v.origin && r.0.in_step == v.in_step && r.0.out_step == v.out_step
            &&& r.0.packets_written == v.packets_written + (if ev is Packet {
                1nat
            } else {
                0nat
            })
            &&& !(ev is Frame) ==> r.0.last_in == v.last_in
            &&& !(ev is Filtered) ==> r.0.last_out == v.last_out && r.0.encoded == v.encoded
            &&& match ev {
                VideoEvent::Sent => r.1 is ReceiveFrame && r.0.wait is Frame && r.0.stage
                    == v.stage,
                VideoEvent::Frame { .. } => r.1 is PushFrame,
                VideoEvent::DecoderDry => if v.stage is Feeding {
                    r.1 is Idle && r.0.wait is Idle && r.0.stage == v.stage
                } else {
                    r.1 is PushEnd && r.0.wait is Push && r.0.stage is Draining
                },
                VideoEvent::Pushed => r.1 is PullFrame && r.0.wait is Pull && r.0.stage == v.stage,
                VideoEvent::Filtered { .. } => r.1 is Encode || r.1 is PullFrame,
                VideoEvent::GraphDry => if v.stage is Draining {
                    r.1 is FlushEncoder && r.0.wait is Encode && r.0.stage is Closing
                } else {
                    r.1 is ReceiveFrame && r.0.wait is Frame && r.0.stage == v.stage
                },
                VideoEvent::Encoded => r.1 is ReceivePacket && r.0.wait is Packet && r.0.stage
                    == v.stage,
                VideoEvent::Packet => r.1 is ReceivePacket && r.0.wait is Packet && r.0.stage
                    == v.stage,
                VideoEvent::EncoderDry => if v.stage is Closing {
                    r.1 is Finished && r.0.wait is Finished && r.0.stage is Done
                } else {
                    r.1 is PullFrame && r.0.wait is Pull && r.0.stage == v.stage
                },
            }
        }),
{
}

/// A reply is taken exactly when the pipeline waits for it, with a time
/// that fits.
pub proof fn law_video_takes_replies_in_turn(v: VideoFlowView, ev: VideoEvent)
    requires
        v.inv(),
    ensures
        v.accepts(ev) <==> match ev {
            VideoEvent::Sent => v.wait is Send,
            VideoEvent::Frame { timestamp } => v.wait is Frame && (timestamp is None && v.last_in
                is Some ==> v.last_in->0 + v.in_step <= i64::MAX),
            VideoEvent::DecoderDry => v.wait is Frame,
            VideoEvent::Pushed => v.wait is Push,
            VideoEvent::Filtered { timestamp, .. } => {
                &&& v.wait is Pull
                &&& v.filtered < u64::MAX
                &&& timestamp matches Some(t) ==> i64::MIN < t - v.origin <= i64::MAX
                &&& timestamp is None && v.last_out is Some ==> v.last_out->0 + v.out_step
                    <= i64::MAX
            },
            VideoEvent::GraphDry => v.wait is Pull,
            VideoEvent::Encoded => v.wait is Encode,
            VideoEvent::Packet => v.wait is Packet && v.packets_written < u64::MAX,
            VideoEvent::EncoderDry => v.wait is Packet,
        },
{
}

/// A video pipeline starts idle with nothing counted, and fails only for a
/// caller that is gone, as `cancelled`.
pub proof fn law_video_starts_and_fails(
    origin: i64,
    in_step: i64,
    out_step: i64,
    v: VideoFlowView,
    ev: VideoEvent,
)
    ensures
        ({
            let s = VideoFlowView::initial(origin, in_step, out_step);
            &&& s.origin == origin && s.in_step == in_step && s.out_step == out_step
            &&& s.wait is Idle && s.stage is Feeding
            &&& s.last_in is None && s.last_out is None
            &&& s.encoded == 0 && s.dropped == 0 && s.packets_written == 0
        }),
        v.step(ev) is Err <==> (ev matches VideoEvent::Filtered { alive, .. } && !alive),
        v.step(ev) is Err ==> v.step(ev)->Err_0.kind == "cancelled"@,
{
}

} // verus!
