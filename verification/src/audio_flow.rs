//! The audio re-encode pipeline as a state machine: decoder, resampler,
//! sample buffer, encoder.
//!
//! The machine says what to do next and is told what came of it. Encoders
//! with a fixed frame size get exactly that many samples per call; only
//! the very last call may be shorter. At the end of the input the stages
//! are flushed in pipeline order: the decoder first, then the resampler,
//! then the sample buffer, then the encoder, so that nothing that any of
//! them still holds is lost.

use crate::audio::{
    alloc_resample_frame, empty_resample_frame, law_resample_buffer_has_room, resample_capacity,
    AudioBuffer, AudioTarget, DRAIN_CAPACITY,
};
use crate::clock::{
    counts_from, law_clock_keeps_order, law_contiguous_without_gap, law_frames_do_not_overlap,
    ClockView, SampleClock,
};
use crate::source_clock::{
    after_frames, follows_samples, law_gap_leads_to_the_time, law_no_gap_while_following,
    lemma_prefix_follows, SourceClock, SourceTiming, SourceView,
};
use vstd::prelude::*;

verus! {

/// How far the pipeline is towards its end.
#[derive(Debug, Clone, Copy, PartialEq, Eq, Structural)]
pub enum AudioStage {
    /// Packets are still coming.
    Feeding,
    /// The decoder was told that no more packets come.
    Flushing,
    /// The resampler gives back what it holds.
    Tail,
    /// The sample buffer is emptied, with a shorter last frame.
    Rest,
    /// The encoder was told that no more frames come.
    Closing,
    /// Everything is encoded.
    Done,
}

/// What the machine waits for.
#[derive(Debug, Clone, Copy, PartialEq, Eq, Structural)]
pub enum AudioWait {
    /// The next packet, or the end of the input.
    Idle,
    Send,
    Frame,
    Resample,
    Store { nb_samples: i32 },
    Tail,
    TailStore { nb_samples: i32 },
    Read { take: i32 },
    Encode,
    Packet,
    Finished,
}

/// What came of the last action.
#[derive(Debug, Clone, Copy)]
pub enum AudioEvent {
    /// The decoder took the packet or the end marker.
    Sent,
    /// The decoder gave a frame. The time stamp counts in input ticks from
    /// the output's origin.
    Frame { nb_samples: i32, sample_rate: i32, timestamp: Option<i64> },
    /// The decoder has no frame now.
    DecoderDry,
    /// The resampler gave this many samples.
    Resampled { nb_samples: i32 },
    /// The samples are in the sample buffer.
    Stored,
    /// This many samples were read from the sample buffer.
    Read { nb_samples: i32 },
    /// The encoder took the frame or the end marker.
    Encoded,
    /// The encoder gave a packet, and it is in the output.
    Packet,
    /// The encoder has no packet now.
    EncoderDry,
}

/// What to do next.
#[derive(Debug, Clone, Copy, PartialEq, Eq, Structural)]
pub enum AudioAction {
    /// Hand the current packet to the decoder.
    SendPacket,
    /// Tell the decoder that no more packets come.
    SendEnd,
    ReceiveFrame,
    /// Resample the frame into a buffer of this shape.
    Resample { buffer: AudioBuffer },
    /// Append the resampled samples to the sample buffer.
    Store,
    /// Take samples out of the sample buffer into a frame of this shape.
    ReadSamples { buffer: AudioBuffer },
    /// Encode the frame at this time stamp.
    Encode { pts: i64 },
    ReceivePacket,
    /// Take what the resampler still holds, into a buffer of this shape.
    DrainResampler { buffer: AudioBuffer },
    /// Tell the encoder that no more frames come.
    FlushEncoder,
    /// The packet is used up.
    Idle,
    Finished,
}

/// The state of the pipeline.
#[verifier::ext_equal]
pub struct AudioFlowView {
    pub passthrough: bool,
    pub chunk: i32,
    pub target: AudioTarget,
    pub stage: AudioStage,
    pub wait: AudioWait,
    pub source: SourceView,
    pub clock: ClockView,
    pub packets_written: nat,
}

/// The place of a stage in the flush order.
pub open spec fn stage_rank(s: AudioStage) -> nat {
    match s {
        AudioStage::Feeding => 0,
        AudioStage::Flushing => 1,
        AudioStage::Tail => 2,
        AudioStage::Rest => 3,
        AudioStage::Closing => 4,
        AudioStage::Done => 5,
    }
}

pub open spec fn not_negative(n: i32) -> nat {
    if n < 0 {
        0
    } else {
        n as nat
    }
}

pub open spec fn drain_buffer(t: AudioTarget) -> AudioBuffer {
    AudioBuffer {
        nb_samples: DRAIN_CAPACITY,
        sample_rate: t.sample_rate,
        format: t.format,
        channels: t.channels,
    }
}

pub open spec fn read_buffer(t: AudioTarget, take: i32) -> AudioBuffer {
    AudioBuffer {
        nb_samples: take,
        sample_rate: t.sample_rate,
        format: t.format,
        channels: t.channels,
    }
}

impl AudioFlowView {
    /// The state before the first packet.
    pub open spec fn initial(
        passthrough: bool,
        chunk: i32,
        target: AudioTarget,
        timing: SourceTiming,
    ) -> AudioFlowView {
        AudioFlowView {
            passthrough,
            chunk,
            target,
            stage: AudioStage::Feeding,
            wait: AudioWait::Idle,
            source: SourceView::empty(timing),
            clock: ClockView::empty(),
            packets_written: 0,
        }
    }

    /// Samples handed to the encoder so far.
    pub open spec fn samples_written(self) -> nat {
        self.clock.popped
    }

    /// The sample buffer after a change: encode a full chunk while there
    /// is one; at the end also a shorter rest; then go on with the stage.
    pub open spec fn refill(self) -> (AudioFlowView, AudioAction) {
        let available = self.clock.queue.len();
        if available >= self.chunk {
            (
                AudioFlowView { wait: AudioWait::Read { take: self.chunk }, ..self },
                AudioAction::ReadSamples { buffer: read_buffer(self.target, self.chunk) },
            )
        } else if self.stage is Rest && available > 0 {
            (
                AudioFlowView { wait: AudioWait::Read { take: available as i32 }, ..self },
                AudioAction::ReadSamples { buffer: read_buffer(self.target, available as i32) },
            )
        } else if self.stage is Rest {
            (
                AudioFlowView { stage: AudioStage::Closing, wait: AudioWait::Encode, ..self },
                AudioAction::FlushEncoder,
            )
        } else {
            (AudioFlowView { wait: AudioWait::Frame, ..self }, AudioAction::ReceiveFrame)
        }
    }

    /// The replies that the machine can take now, and that fit its
    /// counters.
    pub open spec fn accepts(self, ev: AudioEvent) -> bool {
        match (self.wait, ev) {
            (AudioWait::Send, AudioEvent::Sent) => true,
            (AudioWait::Frame, AudioEvent::Frame { nb_samples, timestamp, .. }) => {
                let lead = self.source.lead(timestamp);
                let n = not_negative(nb_samples);
                let entering = if self.passthrough {
                    n
                } else {
                    0
                };
                &&& self.source.samples + n <= u64::MAX
                &&& i64::MIN <= lead <= i64::MAX
                &&& self.clock.pushed + entering <= u64::MAX
                &&& self.clock.announce(lead).end->0 + entering <= i64::MAX
            },
            (AudioWait::Frame, AudioEvent::DecoderDry) => true,
            (AudioWait::Resample, AudioEvent::Resampled { nb_samples }) => nb_samples >= 0,
            (AudioWait::Store { nb_samples }, AudioEvent::Stored) => {
                &&& self.clock.pushed + nb_samples <= u64::MAX
                &&& self.clock.announce(0).end->0 + nb_samples <= i64::MAX
            },
            (AudioWait::Tail, AudioEvent::Resampled { nb_samples }) => nb_samples >= 0,
            (AudioWait::TailStore { nb_samples }, AudioEvent::Stored) => {
                &&& self.clock.pushed + nb_samples <= u64::MAX
                &&& self.clock.announce(0).end->0 + nb_samples <= i64::MAX
            },
            (AudioWait::Read { take }, AudioEvent::Read { nb_samples }) => 0 <= nb_samples <= take,
            (AudioWait::Encode, AudioEvent::Encoded) => true,
            (AudioWait::Packet, AudioEvent::Packet) => self.packets_written < u64::MAX,
            (AudioWait::Packet, AudioEvent::EncoderDry) => true,
            _ => false,
        }
    }

    /// The machine's answer to a reply.
    pub open spec fn step(self, ev: AudioEvent) -> (AudioFlowView, AudioAction) {
        match ev {
            AudioEvent::Sent => (
                AudioFlowView { wait: AudioWait::Frame, ..self },
                AudioAction::ReceiveFrame,
            ),
            AudioEvent::Frame { nb_samples, sample_rate, timestamp } => {
                let n = not_negative(nb_samples);
                let source = self.source.after(timestamp, n);
                let clock = self.clock.announce(self.source.lead(timestamp));
                if self.passthrough {
                    (
                        AudioFlowView {
                            wait: AudioWait::Encode,
                            source,
                            clock: clock.push(n).pop(n),
                            ..self
                        },
                        AudioAction::Encode { pts: clock.end->0 as i64 },
                    )
                } else {
                    (
                        AudioFlowView { wait: AudioWait::Resample, source, clock, ..self },
                        AudioAction::Resample {
                            buffer: AudioBuffer {
                                nb_samples: resample_capacity(
                                    nb_samples,
                                    sample_rate,
                                    self.target.sample_rate,
                                ) as i32,
                                sample_rate: self.target.sample_rate,
                                format: self.target.format,
                                channels: self.target.channels,
                            },
                        },
                    )
                }
            },
            AudioEvent::DecoderDry => if self.stage is Feeding {
                (AudioFlowView { wait: AudioWait::Idle, ..self }, AudioAction::Idle)
            } else if self.passthrough {
                (
                    AudioFlowView { stage: AudioStage::Closing, wait: AudioWait::Encode, ..self },
                    AudioAction::FlushEncoder,
                )
            } else {
                (
                    AudioFlowView { stage: AudioStage::Tail, wait: AudioWait::Tail, ..self },
                    AudioAction::DrainResampler { buffer: drain_buffer(self.target) },
                )
            },
            AudioEvent::Resampled { nb_samples } => if self.wait is Tail {
                if nb_samples == 0 {
                    (AudioFlowView { stage: AudioStage::Rest, ..self }).refill()
                } else {
                    (
                        AudioFlowView { wait: AudioWait::TailStore { nb_samples }, ..self },
                        AudioAction::Store,
                    )
                }
            } else if nb_samples > 0 {
                (
                    AudioFlowView { wait: AudioWait::Store { nb_samples }, ..self },
                    AudioAction::Store,
                )
            } else {
                self.refill()
            },
            AudioEvent::Stored => match self.wait {
                AudioWait::TailStore { nb_samples } => (
                    AudioFlowView {
                        wait: AudioWait::Tail,
                        clock: self.clock.announce(0).push(nb_samples as nat),
                        ..self
                    },
                    AudioAction::DrainResampler { buffer: drain_buffer(self.target) },
                ),
                AudioWait::Store { nb_samples } => (AudioFlowView {
                    clock: self.clock.announce(0).push(nb_samples as nat),
                    ..self
                }).refill(),
                _ => (self, AudioAction::Idle),
            },
            AudioEvent::Read { nb_samples } => (
                AudioFlowView {
                    wait: AudioWait::Encode,
                    clock: self.clock.pop(nb_samples as nat),
                    ..self
                },
                AudioAction::Encode { pts: self.clock.queue[0] as i64 },
            ),
            AudioEvent::Encoded => (
                AudioFlowView { wait: AudioWait::Packet, ..self },
                AudioAction::ReceivePacket,
            ),
            AudioEvent::Packet => (
                AudioFlowView { packets_written: self.packets_written + 1, ..self },
                AudioAction::ReceivePacket,
            ),
            AudioEvent::EncoderDry => if self.stage is Closing {
                (
                    AudioFlowView { stage: AudioStage::Done, wait: AudioWait::Finished, ..self },
                    AudioAction::Finished,
                )
            } else if self.passthrough {
                (AudioFlowView { wait: AudioWait::Frame, ..self }, AudioAction::ReceiveFrame)
            } else {
                self.refill()
            },
        }
    }

    /// While frames can come, the output has a position once there was a
    /// frame, and not before.
    pub open spec fn starts_with_a_frame(self) -> bool {
        self.stage is Feeding || self.stage is Flushing ==> (self.source.anchor is Some
            <==> self.clock.end is Some)
    }

    /// What holds in every state.
    pub open spec fn inv(self) -> bool {
        &&& self.chunk > 0
        &&& self.source.timing.valid()
        &&& self.clock.inv()
        &&& self.starts_with_a_frame()
        &&& self.passthrough ==> self.clock.queue.len() == 0
        &&& match self.wait {
            AudioWait::Idle => self.stage is Feeding && self.clock.queue.len() < self.chunk,
            AudioWait::Send | AudioWait::Frame => (self.stage is Feeding || self.stage is Flushing)
                && self.clock.queue.len() < self.chunk,
            AudioWait::Resample => (self.stage is Feeding || self.stage is Flushing)
                && !self.passthrough && self.clock.queue.len() < self.chunk && self.clock.end is Some,
            AudioWait::Store { nb_samples } => (self.stage is Feeding || self.stage is Flushing)
                && !self.passthrough && nb_samples > 0 && self.clock.end is Some,
            AudioWait::Tail => self.stage is Tail && !self.passthrough,
            AudioWait::TailStore { nb_samples } => self.stage is Tail && !self.passthrough
                && nb_samples > 0,
            AudioWait::Read { take } => (self.stage is Feeding || self.stage is Flushing
                || self.stage is Rest) && !self.passthrough && 0 < take <= self.chunk && take
                <= self.clock.queue.len() && (take < self.chunk ==> self.stage is Rest && take
                == self.clock.queue.len()),
            AudioWait::Encode | AudioWait::Packet => (self.stage is Feeding || self.stage is Flushing
                || self.stage is Rest || self.stage is Closing) && (self.passthrough
                ==> !(self.stage is Rest)),
            AudioWait::Finished => self.stage is Done,
        }
        &&& (self.stage is Closing || self.stage is Done) ==> self.clock.queue.len() == 0
    }
}

/// The audio re-encode pipeline.
#[derive(Debug)]
pub struct AudioFlow {
    passthrough: bool,
    chunk: i32,
    target: AudioTarget,
    stage: AudioStage,
    wait: AudioWait,
    source: SourceClock,
    clock: SampleClock,
    packets_written: u64,
}

impl View for AudioFlow {
    type V = AudioFlowView;

    closed spec fn view(&self) -> AudioFlowView {
        AudioFlowView {
            passthrough: self.passthrough,
            chunk: self.chunk,
            target: self.target,
            stage: self.stage,
            wait: self.wait,
            source: self.source@,
            clock: self.clock@,
            packets_written: self.packets_written as nat,
        }
    }
}

impl AudioFlow {
    /// The pipeline is in a state that it can reach.
    pub closed spec fn wf(&self) -> bool {
        self.source.wf() && self.clock.wf() && self@.inv()
    }

    /// What a reachable state satisfies.
    pub proof fn lemma_inv(&self)
        requires
            self.wf(),
        ensures
            self@.inv(),
    {
    }

    /// A pipeline that has seen nothing yet. `chunk` is the number of
    /// samples per encoder call.
    pub fn new(
        passthrough: bool,
        chunk: i32,
        target: AudioTarget,
        timing: SourceTiming,
    ) -> (f: Self)
        requires
            chunk > 0,
            timing.valid(),
        ensures
            f.wf(),
            f@ == AudioFlowView::initial(passthrough, chunk, target, timing),
    {
        let f = AudioFlow {
            passthrough,
            chunk,
            target,
            stage: AudioStage::Feeding,
            wait: AudioWait::Idle,
            source: SourceClock::new(timing),
            clock: SampleClock::new(),
            packets_written: 0,
        };
        assert(f@ =~= AudioFlowView::initial(passthrough, chunk, target, timing));
        f
    }

    /// How far the pipeline is.
    pub fn stage(&self) -> (s: AudioStage)
        ensures
            s == self@.stage,
    {
        self.stage
    }

    /// What the pipeline waits for.
    pub fn wait(&self) -> (w: AudioWait)
        ensures
            w == self@.wait,
    {
        self.wait
    }

    /// What the encoder gets.
    pub fn target(&self) -> (t: AudioTarget)
        ensures
            t == self@.target,
    {
        self.target
    }

    /// Samples handed to the encoder.
    pub fn samples_written(&self) -> (n: u64)
        ensures
            n == self@.samples_written(),
    {
        self.clock.taken()
    }

    /// Packets that reached the output.
    pub fn packets_written(&self) -> (n: u64)
        ensures
            n == self@.packets_written,
    {
        self.packets_written
    }

    /// A packet is there for the decoder.
    pub fn begin_packet(&mut self) -> (a: AudioAction)
        requires
            old(self).wf(),
            old(self)@.wait is Idle,
        ensures
            final(self).wf(),
            final(self)@ == (AudioFlowView { wait: AudioWait::Send, ..old(self)@ }),
            a == AudioAction::SendPacket,
    {
        let ghost before = self@;
        self.wait = AudioWait::Send;
        assert(self@ =~= AudioFlowView { wait: AudioWait::Send, ..before });
        AudioAction::SendPacket
    }

    /// The input has ended.
    pub fn begin_flush(&mut self) -> (a: AudioAction)
        requires
            old(self).wf(),
            old(self)@.wait is Idle,
        ensures
            final(self).wf(),
            final(self)@ == (AudioFlowView {
                stage: AudioStage::Flushing,
                wait: AudioWait::Send,
                ..old(self)@
            }),
            a == AudioAction::SendEnd,
    {
        let ghost before = self@;
        self.stage = AudioStage::Flushing;
        self.wait = AudioWait::Send;
        assert(self@ =~= AudioFlowView {
            stage: AudioStage::Flushing,
            wait: AudioWait::Send,
            ..before
        });
        AudioAction::SendEnd
    }

    /// Whether the machine can take this reply now.
    pub fn can_step(&self, ev: &AudioEvent) -> (b: bool)
        requires
            self.wf(),
        ensures
            b == self@.accepts(*ev),
    {
        match (self.wait, *ev) {
            (AudioWait::Send, AudioEvent::Sent) => true,
            (AudioWait::Frame, AudioEvent::Frame { nb_samples, sample_rate: _, timestamp }) => {
                let n: u64 = if nb_samples < 0 {
                    0
                } else {
                    nb_samples as u64
                };
                let entering: u64 = if self.passthrough {
                    n
                } else {
                    0
                };
                let lead: i128 = self.source.lead(timestamp);
                self.source.fits(n) && i64::MIN as i128 <= lead && lead <= i64::MAX as i128
                    && self.clock.fits(lead as i64, entering)
            },
            (AudioWait::Frame, AudioEvent::DecoderDry) => true,
            (AudioWait::Resample, AudioEvent::Resampled { nb_samples }) => nb_samples >= 0,
            (AudioWait::Store { nb_samples }, AudioEvent::Stored) => self.clock.fits(
                0,
                nb_samples as u64,
            ),
            (AudioWait::Tail, AudioEvent::Resampled { nb_samples }) => nb_samples >= 0,
            (AudioWait::TailStore { nb_samples }, AudioEvent::Stored) => self.clock.fits(
                0,
                nb_samples as u64,
            ),
            (AudioWait::Read { take }, AudioEvent::Read { nb_samples }) => 0 <= nb_samples
                && nb_samples <= take,
            (AudioWait::Encode, AudioEvent::Encoded) => true,
            (AudioWait::Packet, AudioEvent::Packet) => self.packets_written < u64::MAX,
            (AudioWait::Packet, AudioEvent::EncoderDry) => true,
            _ => false,
        }
    }

    fn refill(&mut self) -> (a: AudioAction)
        requires
            old(self).source.wf(),
            old(self).clock.wf(),
            old(self)@.chunk > 0,
            old(self)@.source.timing.valid(),
            old(self)@.starts_with_a_frame(),
            !old(self)@.passthrough,
            old(self)@.stage is Feeding || old(self)@.stage is Flushing || old(self)@.stage is Rest,
        ensures
            final(self).wf(),
            (final(self)@, a) == old(self)@.refill(),
    {
        let ghost before = self@;
        proof {
            self.clock.lemma_inv();
        }
        let available: u64 = self.clock.buffered();
        if available >= self.chunk as u64 {
            let take: i32 = self.chunk;
            self.wait = AudioWait::Read { take };
            assert(self@ =~= before.refill().0);
            AudioAction::ReadSamples {
                buffer: AudioBuffer {
                    nb_samples: take,
                    sample_rate: self.target.sample_rate,
                    format: self.target.format,
                    channels: self.target.channels,
                },
            }
        } else if self.stage == AudioStage::Rest && available > 0 {
            let take: i32 = available as i32;
            self.wait = AudioWait::Read { take };
            assert(self@ =~= before.refill().0);
            AudioAction::ReadSamples {
                buffer: AudioBuffer {
                    nb_samples: take,
                    sample_rate: self.target.sample_rate,
                    format: self.target.format,
                    channels: self.target.channels,
                },
            }
        } else if self.stage == AudioStage::Rest {
            self.stage = AudioStage::Closing;
            self.wait = AudioWait::Encode;
            assert(self@ =~= before.refill().0);
            AudioAction::FlushEncoder
        } else {
            self.wait = AudioWait::Frame;
            assert(self@ =~= before.refill().0);
            AudioAction::ReceiveFrame
        }
    }

    /// Take a reply and say what to do next.
    pub fn step(&mut self, ev: AudioEvent) -> (a: AudioAction)
        requires
            old(self).wf(),
            old(self)@.accepts(ev),
        ensures
            final(self).wf(),
            (final(self)@, a) == old(self)@.step(ev),
    {
        let ghost before = self@;
        match ev {
            AudioEvent::Sent => {
                self.wait = AudioWait::Frame;
                assert(self@ =~= before.step(ev).0);
                AudioAction::ReceiveFrame
            },
            AudioEvent::Frame { nb_samples, sample_rate, timestamp } => {
                let n: u64 = if nb_samples < 0 {
                    0
                } else {
                    nb_samples as u64
                };
                let lead: i128 = self.source.lead(timestamp);
                self.source.pass(timestamp, n);
                self.clock.announce(lead as i64);
                if self.passthrough {
                    let ghost announced = self.clock@;
                    self.clock.push(n);
                    let pts: i64 = self.clock.pop(n);
                    self.wait = AudioWait::Encode;
                    proof {
                        assert(announced.push(n as nat).pop(n as nat).queue.len() == 0);
                        assert(self@ =~= before.step(ev).0);
                    }
                    AudioAction::Encode { pts }
                } else {
                    self.wait = AudioWait::Resample;
                    assert(self@ =~= before.step(ev).0);
                    AudioAction::Resample {
                        buffer: alloc_resample_frame(nb_samples, sample_rate, self.target),
                    }
                }
            },
            AudioEvent::DecoderDry => {
                if self.stage == AudioStage::Feeding {
                    self.wait = AudioWait::Idle;
                    assert(self@ =~= before.step(ev).0);
                    AudioAction::Idle
                } else if self.passthrough {
                    self.stage = AudioStage::Closing;
                    self.wait = AudioWait::Encode;
                    assert(self@ =~= before.step(ev).0);
                    AudioAction::FlushEncoder
                } else {
                    self.stage = AudioStage::Tail;
                    self.wait = AudioWait::Tail;
                    assert(self@ =~= before.step(ev).0);
                    AudioAction::DrainResampler { buffer: empty_resample_frame(self.target) }
                }
            },
            AudioEvent::Resampled { nb_samples } => {
                if self.wait == AudioWait::Tail {
                    if nb_samples == 0 {
                        self.stage = AudioStage::Rest;
                        assert(self@ =~= AudioFlowView { stage: AudioStage::Rest, ..before });
                        self.refill()
                    } else {
                        self.wait = AudioWait::TailStore { nb_samples };
                        assert(self@ =~= before.step(ev).0);
                        AudioAction::Store
                    }
                } else if nb_samples > 0 {
                    self.wait = AudioWait::Store { nb_samples };
                    assert(self@ =~= before.step(ev).0);
                    AudioAction::Store
                } else {
                    self.refill()
                }
            },
            AudioEvent::Stored => match self.wait {
                AudioWait::TailStore { nb_samples } => {
                    self.clock.announce(0);
                    self.clock.push(nb_samples as u64);
                    self.wait = AudioWait::Tail;
                    assert(self@ =~= before.step(ev).0);
                    AudioAction::DrainResampler { buffer: empty_resample_frame(self.target) }
                },
                AudioWait::Store { nb_samples } => {
                    self.clock.announce(0);
                    self.clock.push(nb_samples as u64);
                    assert(self@ =~= AudioFlowView {
                        clock: before.clock.announce(0).push(nb_samples as nat),
                        ..before
                    });
                    self.refill()
                },
                _ => AudioAction::Idle,
            },
            AudioEvent::Read { nb_samples } => {
                let pts: i64 = self.clock.pop(nb_samples as u64);
                self.wait = AudioWait::Encode;
                assert(self@ =~= before.step(ev).0);
                AudioAction::Encode { pts }
            },
            AudioEvent::Encoded => {
                self.wait = AudioWait::Packet;
                assert(self@ =~= before.step(ev).0);
                AudioAction::ReceivePacket
            },
            AudioEvent::Packet => {
                self.packets_written = self.packets_written + 1;
                assert(self@ =~= before.step(ev).0);
                AudioAction::ReceivePacket
            },
            AudioEvent::EncoderDry => {
                if self.stage == AudioStage::Closing {
                    self.stage = AudioStage::Done;
                    self.wait = AudioWait::Finished;
                    assert(self@ =~= before.step(ev).0);
                    AudioAction::Finished
                } else if self.passthrough {
                    self.wait = AudioWait::Frame;
                    assert(self@ =~= before.step(ev).0);
                    AudioAction::ReceiveFrame
                } else {
                    self.refill()
                }
            },
        }
    }
}

/// Every accepted reply leads from a reachable state to a reachable state.
pub proof fn law_step_keeps_invariant(v: AudioFlowView, ev: AudioEvent)
    requires
        v.inv(),
        v.accepts(ev),
    ensures
        v.step(ev).0.inv(),
{
    match ev {
        AudioEvent::Frame { nb_samples, timestamp, .. } => {
            let n = not_negative(nb_samples);
            let lead = v.source.lead(timestamp);
            law_clock_keeps_order(v.clock, lead, n, 0);
            let pushed = v.clock.announce(lead).push(n);
            if v.passthrough {
                law_clock_keeps_order(pushed, 0, 0, n);
            }
        },
        AudioEvent::Stored => match v.wait {
            AudioWait::TailStore { nb_samples } => {
                law_clock_keeps_order(v.clock, 0, nb_samples as nat, 0);
            },
            AudioWait::Store { nb_samples } => {
                law_clock_keeps_order(v.clock, 0, nb_samples as nat, 0);
            },
            _ => {},
        },
        AudioEvent::Read { nb_samples } => {
            law_clock_keeps_order(v.clock, 0, 0, nb_samples as nat);
        },
        _ => {},
    }
}

/// The stages are flushed in pipeline order and never revisited. The
/// resampler is drained only after the decoder is empty, the encoder is
/// flushed only when no sample is left in between, and a frame shorter
/// than a chunk is read only at the very end.
pub proof fn law_flush_order(v: AudioFlowView, ev: AudioEvent)
    requires
        v.inv(),
        v.accepts(ev),
    ensures
        stage_rank(v.stage) <= stage_rank(v.step(ev).0.stage),
        v.step(ev).1 is DrainResampler ==> v.step(ev).0.stage is Tail,
        v.step(ev).1 is FlushEncoder ==> v.step(ev).0.stage is Closing
            && v.step(ev).0.clock.queue.len() == 0,
        v.step(ev).1 is ReadSamples ==> v.step(ev).1->ReadSamples_buffer.nb_samples == v.chunk
            || v.step(ev).0.stage is Rest,
        v.step(ev).1 is Finished <==> v.step(ev).0.stage is Done,
{
    law_step_keeps_invariant(v, ev);
}

/// When the pipeline is done, every sample that entered it was encoded.
pub proof fn law_nothing_is_lost(v: AudioFlowView)
    requires
        v.inv(),
        v.stage is Done,
    ensures
        v.samples_written() == v.clock.pushed,
{
}

/// A gap inside the audio stays in line with the other streams: the output
/// goes on at the time of the frame after the gap, less the samples from
/// before it that the resampler still holds back.
pub proof fn law_gap_stays_in_line(v: AudioFlowView, nb_samples: i32, sample_rate: i32, t: i64)
    requires
        v.inv(),
        v.accepts(AudioEvent::Frame { nb_samples, sample_rate, timestamp: Some(t) }),
        v.source.anchor is Some,
        v.source.is_gap(t),
    ensures
        ({
            let held_back = v.source.expected() - v.clock.end->0;
            let step = v.step(AudioEvent::Frame { nb_samples, sample_rate, timestamp: Some(t) });
            let place = v.source.timing.out_time(t as int) - held_back;
            &&& place > v.clock.end->0
            &&& v.passthrough ==> step.1 == (AudioAction::Encode { pts: place as i64 })
            &&& !v.passthrough ==> step.0.clock.end == Some(place)
        }),
{
    law_gap_leads_to_the_time(v.source, t, not_negative(nb_samples));
}

/// Something that moves the pipeline: a packet, the end of the input, or a
/// reply.
pub enum AudioInput {
    Packet,
    End,
    Reply { ev: AudioEvent },
}

/// Whether the input can come in this state.
pub open spec fn legal_input(v: AudioFlowView, i: AudioInput) -> bool {
    match i {
        AudioInput::Packet => v.wait is Idle,
        AudioInput::End => v.wait is Idle,
        AudioInput::Reply { ev } => v.accepts(ev),
    }
}

/// The state after one input.
pub open spec fn after(v: AudioFlowView, i: AudioInput) -> AudioFlowView {
    match i {
        AudioInput::Packet => AudioFlowView { wait: AudioWait::Send, ..v },
        AudioInput::End => AudioFlowView {
            stage: AudioStage::Flushing,
            wait: AudioWait::Send,
            ..v
        },
        AudioInput::Reply { ev } => v.step(ev).0,
    }
}

/// The frame that an input sends to the encoder: its time stamp and its
/// sample count.
pub open spec fn sent_frame(v: AudioFlowView, i: AudioInput) -> Option<(int, nat)> {
    match i {
        AudioInput::Reply { ev } => match ev {
            AudioEvent::Read { nb_samples } => Some((v.clock.queue[0], nb_samples as nat)),
            AudioEvent::Frame { nb_samples, timestamp, .. } => if v.passthrough {
                Some(
                    (
                        v.clock.announce(v.source.lead(timestamp)).end->0,
                        not_negative(nb_samples),
                    ),
                )
            } else {
                None
            },
            _ => None,
        },
        _ => None,
    }
}

/// The state after a run.
pub open spec fn run(v: AudioFlowView, inputs: Seq<AudioInput>) -> AudioFlowView
    decreases inputs.len(),
{
    if inputs.len() == 0 {
        v
    } else {
        after(run(v, inputs.drop_last()), inputs.last())
    }
}

/// Whether every input of a run can come when it comes.
pub open spec fn legal_run(v: AudioFlowView, inputs: Seq<AudioInput>) -> bool
    decreases inputs.len(),
{
    inputs.len() == 0 || {
        &&& legal_run(v, inputs.drop_last())
        &&& legal_input(run(v, inputs.drop_last()), inputs.last())
    }
}

/// The frames that a run sends to the encoder, in order.
pub open spec fn sent_frames(v: AudioFlowView, inputs: Seq<AudioInput>) -> Seq<(int, nat)>
    decreases inputs.len(),
{
    if inputs.len() == 0 {
        seq![]
    } else {
        let before = sent_frames(v, inputs.drop_last());
        match sent_frame(run(v, inputs.drop_last()), inputs.last()) {
            Some(f) => before.push(f),
            None => before,
        }
    }
}

/// The samples in a list of frames.
pub open spec fn total_samples(frames: Seq<(int, nat)>) -> nat
    decreases frames.len(),
{
    if frames.len() == 0 {
        0
    } else {
        total_samples(frames.drop_last()) + frames.last().1
    }
}

/// No later sample can carry a smaller time stamp than this.
spec fn time_floor(c: ClockView) -> int {
    if c.queue.len() > 0 {
        c.queue[0]
    } else {
        c.end->0
    }
}

proof fn lemma_floor_rises(c: ClockView, lead: int, n: nat)
    requires
        c.inv(),
        c.end is Some ==> lead >= 0,
    ensures
        c.end is Some ==> time_floor(c) <= time_floor(c.announce(lead)),
        time_floor(c.announce(lead)) == time_floor(c.announce(lead).push(n)),
{
    let a = c.announce(lead);
    if n > 0 && a.queue.len() == 0 {
        assert(a.push(n).queue[0] == a.end->0);
    }
}

proof fn lemma_run(v: AudioFlowView, inputs: Seq<AudioInput>)
    requires
        v.inv(),
        v.clock == ClockView::empty(),
        legal_run(v, inputs),
    ensures
        run(v, inputs).inv(),
        total_samples(sent_frames(v, inputs)) == run(v, inputs).samples_written(),
        sent_frames(v, inputs).len() > 0 ==> run(v, inputs).clock.end is Some,
        forall|i: int|
            0 <= i < sent_frames(v, inputs).len() ==> (#[trigger] sent_frames(v, inputs)[i]).0
                + sent_frames(v, inputs)[i].1 <= time_floor(run(v, inputs).clock),
        forall|i: int, j: int|
            0 <= i < j < sent_frames(v, inputs).len() ==> (#[trigger] sent_frames(v, inputs)[i]).0
                + sent_frames(v, inputs)[i].1 <= (#[trigger] sent_frames(v, inputs)[j]).0,
    decreases inputs.len(),
{
    if inputs.len() > 0 {
        let front = inputs.drop_last();
        let x = inputs.last();
        lemma_run(v, front);
        let s = run(v, front);
        let t = run(v, inputs);
        let frames = sent_frames(v, front);
        if let AudioInput::Reply { ev } = x {
            law_step_keeps_invariant(s, ev);
            match ev {
                AudioEvent::Frame { nb_samples, timestamp, .. } => {
                    let n = not_negative(nb_samples);
                    let lead = s.source.lead(timestamp);
                    lemma_floor_rises(s.clock, lead, n);
                    let a = s.clock.announce(lead);
                    if s.passthrough {
                        assert(t.clock.queue.len() == 0);
                        assert(t.clock.end->0 == a.end->0 + n);
                        assert(sent_frames(v, inputs).drop_last() =~= frames);
                    }
                },
                AudioEvent::Stored => match s.wait {
                    AudioWait::TailStore { nb_samples } => {
                        lemma_floor_rises(s.clock, 0, nb_samples as nat);
                    },
                    AudioWait::Store { nb_samples } => {
                        lemma_floor_rises(s.clock, 0, nb_samples as nat);
                    },
                    _ => {},
                },
                AudioEvent::Read { nb_samples } => {
                    if nb_samples > 0 {
                        law_frames_do_not_overlap(s.clock, nb_samples as nat);
                        if t.clock.queue.len() > 0 {
                            assert(t.clock.queue[0] >= s.clock.queue[0] + nb_samples);
                        }
                    } else {
                        assert(t.clock.queue =~= s.clock.queue);
                    }
                    assert(sent_frames(v, inputs).drop_last() =~= frames);
                },
                _ => {},
            }
        }
        let all = sent_frames(v, inputs);
        assert forall|i: int| 0 <= i < all.len() implies (#[trigger] all[i]).0 + all[i].1
            <= time_floor(t.clock) by {
            if i < frames.len() {
                assert(all[i] == frames[i]);
            }
        }
        assert forall|i: int, j: int| 0 <= i < j < all.len() implies (#[trigger] all[i]).0
            + all[i].1 <= (#[trigger] all[j]).0 by {
            assert(all[i] == frames[i]);
            if j < frames.len() {
                assert(all[j] == frames[j]);
            }
        }
    }
}

/// Over any run of the pipeline the invariant holds, the encoder gets
/// exactly the samples that are counted as written, and no frame starts
/// before the one before it ends.
pub proof fn law_frames_in_order(
    passthrough: bool,
    chunk: i32,
    target: AudioTarget,
    timing: SourceTiming,
    inputs: Seq<AudioInput>,
    i: int,
    j: int,
)
    requires
        chunk > 0,
        timing.valid(),
        legal_run(AudioFlowView::initial(passthrough, chunk, target, timing), inputs),
    ensures
        ({
            let v = AudioFlowView::initial(passthrough, chunk, target, timing);
            let frames = sent_frames(v, inputs);
            &&& run(v, inputs).inv()
            &&& total_samples(frames) == run(v, inputs).samples_written()
            &&& 0 <= i < j < frames.len() ==> frames[i].0 + frames[i].1 <= frames[j].0
        }),
{
    lemma_run(AudioFlowView::initial(passthrough, chunk, target, timing), inputs);
}

/// A run that ends has encoded every sample that entered the pipeline.
pub proof fn law_finished_run_is_complete(
    passthrough: bool,
    chunk: i32,
    target: AudioTarget,
    timing: SourceTiming,
    inputs: Seq<AudioInput>,
)
    requires
        chunk > 0,
        timing.valid(),
        legal_run(AudioFlowView::initial(passthrough, chunk, target, timing), inputs),
        run(AudioFlowView::initial(passthrough, chunk, target, timing), inputs).stage is Done,
    ensures
        ({
            let v = AudioFlowView::initial(passthrough, chunk, target, timing);
            total_samples(sent_frames(v, inputs)) == run(v, inputs).clock.pushed
        }),
{
    let v = AudioFlowView::initial(passthrough, chunk, target, timing);
    lemma_run(v, inputs);
    law_nothing_is_lost(run(v, inputs));
}

/// The frames that the decoder gives in a run: time stamp and sample count.
pub open spec fn decoded_frames(inputs: Seq<AudioInput>) -> Seq<(Option<i64>, nat)>
    decreases inputs.len(),
{
    if inputs.len() == 0 {
        seq![]
    } else {
        let before = decoded_frames(inputs.drop_last());
        match inputs.last() {
            AudioInput::Reply { ev: AudioEvent::Frame { nb_samples, timestamp, .. } } => before.push(
                (timestamp, not_negative(nb_samples)),
            ),
            _ => before,
        }
    }
}

proof fn lemma_source_follows_run(v: AudioFlowView, inputs: Seq<AudioInput>)
    requires
        v.inv(),
        v.clock == ClockView::empty(),
        legal_run(v, inputs),
    ensures
        run(v, inputs).source == after_frames(v.source, decoded_frames(inputs)),
        run(v, inputs).clock.end is None ==> run(v, inputs).clock.pushed == 0,
    decreases inputs.len(),
{
    if inputs.len() > 0 {
        let front = inputs.drop_last();
        lemma_source_follows_run(v, front);
        lemma_run(v, front);
        match inputs.last() {
            AudioInput::Reply { ev: AudioEvent::Frame { .. } } => {
                assert(decoded_frames(inputs).drop_last() =~= decoded_frames(front));
            },
            _ => {},
        }
    }
}

/// While the decoder's time stamps follow its sample count, the samples in
/// and behind the buffer are numbered from the first frame's place on.
proof fn lemma_run_counts(
    v: AudioFlowView,
    inputs: Seq<AudioInput>,
    start: int,
    bias: int,
)
    requires
        v.inv(),
        v.clock == ClockView::empty(),
        v.source == SourceView::empty(v.source.timing),
        legal_run(v, inputs),
        decoded_frames(inputs).len() > 0,
        decoded_frames(inputs)[0].0 is Some,
        follows_samples(v.source.timing, start, bias, decoded_frames(inputs)),
    ensures
        counts_from(
            run(v, inputs).clock,
            v.source.timing.out_time(decoded_frames(inputs)[0].0->0 as int),
        ),
        run(v, inputs).clock.end is Some,
        forall|k: int|
            0 <= k < sent_frames(v, inputs).len() ==> (#[trigger] sent_frames(v, inputs)[k]).0
                == v.source.timing.out_time(decoded_frames(inputs)[0].0->0 as int) + total_samples(
                sent_frames(v, inputs).take(k),
            ),
    decreases inputs.len(),
{
    let timing = v.source.timing;
    let front = inputs.drop_last();
    let x = inputs.last();
    let s = run(v, front);
    let t = run(v, inputs);
    let decoded = decoded_frames(inputs);
    let earlier = decoded_frames(front);
    let base = timing.out_time(decoded[0].0->0 as int);
    let frames = sent_frames(v, front);
    let all = sent_frames(v, inputs);
    lemma_run(v, front);
    lemma_run(v, inputs);
    lemma_source_follows_run(v, front);
    assert(earlier =~= decoded.take(earlier.len() as int));
    lemma_prefix_follows(timing, start, bias, decoded, earlier.len() as int);
    if earlier.len() > 0 {
        lemma_run_counts(v, front, start, bias);
    }
    match x {
        AudioInput::Reply { ev } => match ev {
            AudioEvent::Frame { nb_samples, timestamp, .. } => {
                let n = not_negative(nb_samples);
                let lead = s.source.lead(timestamp);
                assert(decoded.last() == (timestamp, n));
                if earlier.len() > 0 {
                    law_no_gap_while_following(
                        timing,
                        start,
                        bias,
                        decoded,
                        earlier.len() as int,
                    );
                    assert(lead == 0);
                } else {
                    assert(s.source == SourceView::empty(timing));
                    assert(lead == base);
                }
                law_contiguous_without_gap(s.clock, base, n, 0);
                let a = s.clock.announce(lead);
                assert(counts_from(a, base));
                law_clock_keeps_order(s.clock, lead, n, 0);
                law_contiguous_without_gap(a, base, n, 0);
                law_contiguous_without_gap(a.push(n), base, 0, if s.passthrough {
                    n
                } else {
                    0
                });
            },
            AudioEvent::Stored => match s.wait {
                AudioWait::TailStore { nb_samples } => {
                    law_contiguous_without_gap(s.clock, base, nb_samples as nat, 0);
                },
                AudioWait::Store { nb_samples } => {
                    law_contiguous_without_gap(s.clock, base, nb_samples as nat, 0);
                },
                _ => {},
            },
            AudioEvent::Read { nb_samples } => {
                law_contiguous_without_gap(s.clock, base, 0, nb_samples as nat);
            },
            _ => {},
        },
        _ => {},
    }
    assert forall|k: int| 0 <= k < all.len() implies (#[trigger] all[k]).0 == base + total_samples(
        all.take(k),
    ) by {
        if k < frames.len() {
            assert(all[k] == frames[k]);
            assert(all.take(k) =~= frames.take(k));
        } else {
            assert(all.take(k) =~= frames);
        }
    }
}

/// Gapless audio stays gapless: when the decoder's time stamps follow its
/// sample count, as rounded times of any tick length do, every encoded
/// frame starts where the one before it ends, and the first one at the
/// first decoded frame's time. It does not matter how many samples the
/// resampler holds back, or when.
pub proof fn law_gapless_audio_stays_gapless(
    passthrough: bool,
    chunk: i32,
    target: AudioTarget,
    timing: SourceTiming,
    inputs: Seq<AudioInput>,
    start: int,
    bias: int,
    k: int,
)
    requires
        chunk > 0,
        timing.valid(),
        legal_run(AudioFlowView::initial(passthrough, chunk, target, timing), inputs),
        decoded_frames(inputs).len() > 0,
        decoded_frames(inputs)[0].0 is Some,
        follows_samples(timing, start, bias, decoded_frames(inputs)),
    ensures
        ({
            let frames = sent_frames(
                AudioFlowView::initial(passthrough, chunk, target, timing),
                inputs,
            );
            0 <= k < frames.len() ==> frames[k].0 == timing.out_time(
                decoded_frames(inputs)[0].0->0 as int,
            ) + total_samples(frames.take(k))
        }),
{
    lemma_run_counts(
        AudioFlowView::initial(passthrough, chunk, target, timing),
        inputs,
        start,
        bias,
    );
}

/// A decoded frame goes to the resampler, or straight to the encoder where
/// nothing has to change: then with its own samples, at the running
/// position moved by the gap before it. The buffer for the resampler has
/// the target's shape and room for the frame.
pub proof fn law_decoded_audio_goes_on(
    v: AudioFlowView,
    nb_samples: i32,
    sample_rate: i32,
    timestamp: Option<i64>,
)
    requires
        v.inv(),
        v.accepts(AudioEvent::Frame { nb_samples, sample_rate, timestamp }),
    ensures
        ({
            let r = v.step(AudioEvent::Frame { nb_samples, sample_rate, timestamp });
            let lead = v.source.lead(timestamp);
            let n: int = if nb_samples < 0 {
                0
            } else {
                nb_samples as int
            };
            let at = match v.clock.end {
                Some(e) => e + lead,
                None => lead,
            };
            &&& r.0.source == v.source.after(timestamp, n as nat)
            &&& r.0.stage == v.stage
            &&& r.0.packets_written == v.packets_written
            &&& v.passthrough ==> {
                &&& r.1 is Encode
                &&& i64::MIN <= at ==> r.1->pts == at
                &&& r.0.clock.end == Some(at + n)
                &&& r.0.clock.popped == v.clock.popped + n
                &&& r.0.clock.queue.len() == 0
                &&& r.0.wait is Encode
            }
            &&& !v.passthrough ==> {
                &&& r.1 is Resample
                &&& r.1->Resample_buffer.sample_rate == v.target.sample_rate
                &&& r.1->Resample_buffer.format == v.target.format
                &&& r.1->Resample_buffer.channels == v.target.channels
                &&& r.1->Resample_buffer.nb_samples == resample_capacity(
                    nb_samples,
                    sample_rate,
                    v.target.sample_rate,
                )
                &&& r.0.clock.end == Some(at)
                &&& r.0.clock.queue == v.clock.queue
                &&& r.0.clock.popped == v.clock.popped
                &&& r.0.wait is Resample
            }
        }),
{
    law_resample_buffer_has_room(nb_samples, sample_rate, v.target.sample_rate);
    let n = not_negative(nb_samples);
    let announced = v.clock.announce(v.source.lead(timestamp));
    if v.passthrough {
        assert(announced.push(n).pop(n).queue.len() == 0);
    }
}

/// Resampled samples are stored when there are any; what is stored enters
/// the buffer whole, behind what is there.
pub proof fn law_resampled_audio_is_stored(v: AudioFlowView, nb_samples: i32)
    requires
        v.inv(),
    ensures
        v.accepts(AudioEvent::Resampled { nb_samples }) <==> nb_samples >= 0 && (v.wait is Resample
            || v.wait is Tail),
        v.accepts(AudioEvent::Resampled { nb_samples }) && nb_samples > 0 ==> v.step(
            AudioEvent::Resampled { nb_samples },
        ).1 is Store,
        v.accepts(AudioEvent::Stored) && (v.wait == (AudioWait::Store { nb_samples }) || v.wait == (
        AudioWait::TailStore { nb_samples })) ==> {
            let r = v.step(AudioEvent::Stored).0;
            &&& r.clock.pushed == v.clock.pushed + nb_samples
            &&& r.clock.popped == v.clock.popped
            &&& r.clock.queue.len() == v.clock.queue.len() + nb_samples
            &&& r.clock.queue.take(v.clock.queue.len() as int) == v.clock.queue
            &&& v.clock.end is Some ==> r.clock.end == Some(v.clock.end->0 + nb_samples)
        },
        v.wait is Resample && nb_samples > 0 ==> v.step(AudioEvent::Resampled { nb_samples }).0.wait
            == (AudioWait::Store { nb_samples }),
        v.wait is Tail && nb_samples > 0 ==> v.step(AudioEvent::Resampled { nb_samples }).0.wait
            == (AudioWait::TailStore { nb_samples }),
        v.wait is Tail && nb_samples == 0 ==> v.step(
            AudioEvent::Resampled { nb_samples },
        ).0.stage is Rest || v.step(AudioEvent::Resampled { nb_samples }).0.stage is Closing,
{
    if v.accepts(AudioEvent::Stored) && (v.wait == (AudioWait::Store { nb_samples }) || v.wait == (
    AudioWait::TailStore { nb_samples })) {
        let r = v.step(AudioEvent::Stored).0;
        assert(r.clock.queue.take(v.clock.queue.len() as int) =~= v.clock.queue);
    }
}

/// The encoder gets the oldest samples of the buffer, at the time of the
/// first one, and they leave the buffer.
pub proof fn law_buffered_audio_is_encoded(v: AudioFlowView, nb_samples: i32)
    requires
        v.inv(),
        v.accepts(AudioEvent::Read { nb_samples }),
    ensures
        ({
            let r = v.step(AudioEvent::Read { nb_samples });
            &&& v.clock.queue.len() > 0
            &&& 0 <= nb_samples <= v.chunk
            &&& i64::MIN <= v.clock.queue[0] <= i64::MAX ==> r.1 == (AudioAction::Encode {
                pts: v.clock.queue[0] as i64,
            }) && r.1->pts == v.clock.queue[0]
            &&& r.0.clock.queue == v.clock.queue.skip(nb_samples as int)
            &&& r.0.clock.popped == v.clock.popped + nb_samples
            &&& r.0.clock.end == v.clock.end
            &&& r.0.wait is Encode
            &&& r.0.stage == v.stage
        }),
{
}

/// While packets come, the encoder is called exactly when a full chunk is
/// buffered, and with exactly a chunk; at the end also with what is left.
/// The frame it is read into has the target's shape.
pub proof fn law_chunks_are_full(v: AudioFlowView)
    requires
        v.chunk > 0,
        v.stage is Feeding || v.stage is Flushing || v.stage is Rest,
    ensures
        ({
            let r = v.refill();
            let buffered = v.clock.queue.len();
            &&& r.1 is ReadSamples <==> buffered >= v.chunk || (v.stage is Rest && buffered > 0)
            &&& r.1 is ReadSamples ==> {
                let b = r.1->ReadSamples_buffer;
                &&& buffered >= v.chunk ==> b.nb_samples == v.chunk
                &&& buffered < v.chunk ==> b.nb_samples == buffered
                &&& b.sample_rate == v.target.sample_rate
                &&& b.format == v.target.format
                &&& b.channels == v.target.channels
                &&& r.0.wait == (AudioWait::Read { take: b.nb_samples })
                &&& r.0.stage == v.stage
            }
            &&& buffered == 0 && v.stage is Rest ==> r.1 is FlushEncoder && r.0.stage is Closing
            &&& buffered < v.chunk && !(v.stage is Rest) ==> r.1 is ReceiveFrame && r.0.wait is Frame
                && r.0.stage == v.stage
            &&& r.0.clock == v.clock
            &&& r.0.source == v.source
            &&& r.0.packets_written == v.packets_written
        }),
{
}

/// The pipeline goes its way: a packet that was sent is decoded; a dry
/// decoder asks for the next packet or, at the end, for what the resampler
/// holds, into a buffer of the target's shape; a dry encoder goes on with
/// the buffer or, at the end, finishes. Only a packet counts as written.
pub proof fn law_audio_goes_its_way(v: AudioFlowView, ev: AudioEvent)
    requires
        v.inv(),
        v.accepts(ev),
    ensures
        ({
            let r = v.step(ev);
            &&& r.0.passthrough == v.passthrough && r.0.chunk == v.chunk && r.0.target == v.target
            &&& r.0.packets_written == v.packets_written + (if ev is Packet {
                1nat
            } else {
                0nat
            })
            &&& !(ev is Frame) ==> r.0.source == v.source
            &&& ev is Sent ==> r.1 is ReceiveFrame && r.0.wait is Frame
            &&& ev is Encoded || ev is Packet ==> r.1 is ReceivePacket && r.0.wait is Packet
            &&& ev is DecoderDry && v.stage is Feeding ==> r.1 is Idle && r.0.wait is Idle
            &&& ev is DecoderDry && !(v.stage is Feeding) && v.passthrough ==> r.1 is FlushEncoder
            &&& ev is DecoderDry && !(v.stage is Feeding) && !v.passthrough
                ==> r.1 is DrainResampler && r.0.stage is Tail
            &&& ev is EncoderDry && v.stage is Closing ==> r.1 is Finished && r.0.stage is Done
            &&& ev is EncoderDry && !(v.stage is Closing) && v.passthrough ==> r.1 is ReceiveFrame
            &&& ev is EncoderDry && !(v.stage is Closing) && !v.passthrough ==> r == v.refill()
            &&& r.1 is DrainResampler ==> {
                let b = r.1->DrainResampler_buffer;
                &&& b.nb_samples == 4096
                &&& b.sample_rate == v.target.sample_rate
                &&& b.format == v.target.format
                &&& b.channels == v.target.channels
            }
            &&& !(ev is Frame) && !(ev is Stored) && !(ev is Read) ==> r.0.clock == v.clock
        }),
{
}

/// A reply is taken exactly when the pipeline waits for it, with numbers
/// that fit.
pub proof fn law_audio_takes_replies_in_turn(v: AudioFlowView, ev: AudioEvent)
    requires
        v.inv(),
    ensures
        match ev {
            AudioEvent::Sent => v.accepts(ev) <==> v.wait is Send,
            AudioEvent::Frame { nb_samples, timestamp, .. } => {
                let n: int = if nb_samples < 0 {
                    0
                } else {
                    nb_samples as int
                };
                &&& v.accepts(ev) ==> v.wait is Frame
                &&& v.wait is Frame && v.source.samples + n <= u64::MAX && v.clock.pushed + n
                    <= u64::MAX && i64::MIN <= v.source.lead(timestamp) && (match v.clock.end {
                    Some(e) => e,
                    None => 0,
                }) + v.source.lead(timestamp) + n <= i64::MAX && v.source.lead(timestamp)
                    <= i64::MAX ==> v.accepts(ev)
            },
            AudioEvent::DecoderDry => v.accepts(ev) <==> v.wait is Frame,
            AudioEvent::Resampled { nb_samples } => v.accepts(ev) <==> nb_samples >= 0 && (
            v.wait is Resample || v.wait is Tail),
            AudioEvent::Stored => {
                &&& v.accepts(ev) ==> v.wait is Store || v.wait is TailStore
                &&& (v.wait is Store || v.wait is TailStore) && v.clock.pushed <= u64::MAX
                    - i32::MAX && (match v.clock.end {
                    Some(e) => e,
                    None => 0,
                }) <= i64::MAX - i32::MAX ==> v.accepts(ev)
            },
            AudioEvent::Read { nb_samples } => v.accepts(ev) <==> v.wait is Read && 0 <= nb_samples
                <= v.wait->take,
            AudioEvent::Encoded => v.accepts(ev) <==> v.wait is Encode,
            AudioEvent::Packet => v.accepts(ev) <==> v.wait is Packet && v.packets_written
                < u64::MAX,
            AudioEvent::EncoderDry => v.accepts(ev) <==> v.wait is Packet,
        },
{
}

/// An audio pipeline starts idle, with an empty buffer and no position.
pub proof fn law_audio_starts_fresh(
    passthrough: bool,
    chunk: i32,
    target: AudioTarget,
    timing: SourceTiming,
)
    ensures
        ({
            let v = AudioFlowView::initial(passthrough, chunk, target, timing);
            &&& v.passthrough == passthrough && v.chunk == chunk && v.target == target
            &&& v.source.timing == timing && v.source.anchor is None && v.source.samples == 0
            &&& v.stage is Feeding && v.wait is Idle
            &&& v.clock.queue.len() == 0 && v.clock.end is None
            &&& v.clock.pushed == 0 && v.clock.popped == 0
            &&& v.packets_written == 0
            &&& v.samples_written() == 0
        }),
        forall|v: AudioFlowView| #[trigger] v.samples_written() == v.clock.popped,
{
}

} // verus!
