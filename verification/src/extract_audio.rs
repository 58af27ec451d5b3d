//! Taking the audio out of an input.
//!
//! The best audio stream goes through the audio pipeline into the encoder
//! that belongs to the output's extension. Time stamps count samples from
//! zero, without gaps.

use crate::audio::{
    channel_choice, format_choice, is_first_closest, listed, pick_format, pick_sample_rate,
    rate_accepted, rate_candidate, resolve_channels, AudioTarget,
};
use crate::audio_flow::{
    law_step_keeps_invariant, AudioAction, AudioEvent, AudioFlow, AudioFlowView, AudioStage,
    AudioWait,
};
use crate::cancel::{cancelled, cancelled_error};
use crate::clock::{counts_from, law_contiguous_without_gap};
use crate::errors::{error, ErrorView, NativeError};
use crate::input::{plan_opens, refusal, InputSource, OpenPlan};
use crate::media::{Position, Rational};
use crate::path::{nul_path_error, to_cstring, PathStyle};
use crate::source_clock::SourceTiming;
use crate::text::{contains_nul, same_text};
use crate::transcode_plan::{AudioEncoderParams, AudioSource};
use crate::video::{lower_extension, path_lower_extension};
use vstd::prelude::*;

verus! {

/// What a caller can ask of an extraction.
#[derive(Debug, Clone, Copy)]
pub struct ExtractAudioOpts {
    /// In Hz; the source's when none.
    pub sample_rate: Option<i32>,
    /// One or two; the source's when none.
    pub channels: Option<i32>,
    /// Bits per second.
    pub bitrate: Option<i64>,
}

/// The encoder for an extension in lower case.
pub open spec fn audio_encoder(ext: Option<Seq<char>>) -> Result<Seq<char>, ErrorView> {
    let refused = error(
        "invalid_request"@,
        "unsupported audio output extension; use .wav, .mp3, .m4a/.aac, .opus/.ogg, or .flac"@,
    );
    match ext {
        None => Err(refused.with("extension"@, "<none>"@)),
        Some(e) => if e == "wav"@ {
            Ok("pcm_s16le"@)
        } else if e == "mp3"@ {
            Ok("libmp3lame"@)
        } else if e == "m4a"@ || e == "aac"@ {
            Ok("aac"@)
        } else if e == "opus"@ || e == "ogg"@ {
            Ok("libopus"@)
        } else if e == "flac"@ {
            Ok("flac"@)
        } else {
            Err(refused.with("extension"@, e))
        },
    }
}

/// The name of the encoder for an output path, by its extension in any
/// case.
pub fn pick_encoder(style: PathStyle, output_path: &str) -> (r: Result<
    &'static str,
    NativeError,
>)
    ensures
        match r {
            Ok(name) => audio_encoder(lower_extension(style, output_path@)) == Ok::<
                Seq<char>,
                ErrorView,
            >(name@),
            Err(e) => audio_encoder(lower_extension(style, output_path@)) == Err::<
                Seq<char>,
                ErrorView,
            >(e@),
        },
{
    let ext = match path_lower_extension(style, output_path) {
        Some(e) => e,
        None => {
            return Err(
                NativeError::new(
                    "invalid_request",
                    "unsupported audio output extension; use .wav, .mp3, .m4a/.aac, .opus/.ogg, or .flac",
                ).with_detail("extension", "<none>".to_owned()),
            );
        },
    };
    let e = ext.as_str();
    if same_text(e, "wav") {
        Ok("pcm_s16le")
    } else if same_text(e, "mp3") {
        Ok("libmp3lame")
    } else if same_text(e, "m4a") || same_text(e, "aac") {
        Ok("aac")
    } else if same_text(e, "opus") || same_text(e, "ogg") {
        Ok("libopus")
    } else if same_text(e, "flac") {
        Ok("flac")
    } else {
        Err(
            NativeError::new(
                "invalid_request",
                "unsupported audio output extension; use .wav, .mp3, .m4a/.aac, .opus/.ogg, or .flac",
            ).with_detail("extension", ext.clone()),
        )
    }
}

/// What an extraction is answered when the encoder is not built in.
pub open spec fn missing_encoder_error(name: Seq<char>) -> ErrorView {
    error("unsupported"@, "encoder for this audio extension is not built into FFmpeg"@).with(
        "encoder"@,
        name,
    )
}

/// Judge the look-up of the encoder for the extension.
pub fn require_extension_encoder(found: bool, name: &str) -> (r: Result<(), NativeError>)
    ensures
        match r {
            Ok(()) => found,
            Err(e) => !found && e@ == missing_encoder_error(name@),
        },
{
    if found {
        Ok(())
    } else {
        Err(
            NativeError::new(
                "unsupported",
                "encoder for this audio extension is not built into FFmpeg",
            ).with_detail("encoder", name.to_owned()),
        )
    }
}

/// Why an extraction is refused before anything is read, if it is. The
/// output is judged first, by its extension, its encoder and its path, and
/// then the source: an output that cannot be written is answered whatever
/// the source is.
pub open spec fn extraction_refusal(
    style: PathStyle,
    output_path: Seq<char>,
    encoder_found: bool,
    source: InputSource,
    is_file: bool,
) -> Option<ErrorView> {
    match audio_encoder(lower_extension(style, output_path)) {
        Err(e) => Some(e),
        Ok(name) => if !encoder_found {
            Some(missing_encoder_error(name))
        } else if contains_nul(output_path) {
            Some(nul_path_error(output_path))
        } else {
            refusal(source, is_file)
        },
    }
}

/// Pick the encoder for the output, and then decide how to open the source.
/// `encoder_found` tells whether the encoder that belongs to the extension
/// is there; it means nothing where none does. `is_file` tells whether a
/// source path names a regular file.
pub fn open_for_extraction(
    style: PathStyle,
    output_path: &str,
    encoder_found: bool,
    source: InputSource,
    is_file: bool,
) -> (r: Result<(&'static str, OpenPlan), NativeError>)
    ensures
        match r {
            Ok(p) => {
                &&& extraction_refusal(style, output_path@, encoder_found, source, is_file) is None
                &&& audio_encoder(lower_extension(style, output_path@)) == Ok::<
                    Seq<char>,
                    ErrorView,
                >(p.0@)
                &&& plan_opens(source, p.1)
            },
            Err(e) => extraction_refusal(style, output_path@, encoder_found, source, is_file)
                == Some(e@),
        },
{
    let name = match pick_encoder(style, output_path) {
        Ok(name) => name,
        Err(e) => {
            return Err(e);
        },
    };
    if let Err(e) = require_extension_encoder(encoder_found, name) {
        return Err(e);
    }
    if let Err(e) = to_cstring(output_path) {
        return Err(e);
    }
    match source.open(is_file) {
        Ok(plan) => Ok((name, plan)),
        Err(e) => Err(e),
    }
}

/// An extension that has no encoder is answered exactly that, whatever the
/// source is and whether or not it can be opened.
pub proof fn law_extension_is_judged_before_the_source(
    style: PathStyle,
    output_path: Seq<char>,
    encoder_found: bool,
    source: InputSource,
    is_file: bool,
)
    requires
        audio_encoder(lower_extension(style, output_path)) is Err,
    ensures
        extraction_refusal(style, output_path, encoder_found, source, is_file) == Some(
            audio_encoder(lower_extension(style, output_path))->Err_0,
        ),
{
}

/// Judge the look-up of the best audio stream.
pub fn find_audio_stream(found: Option<usize>) -> (r: Result<usize, NativeError>)
    ensures
        match r {
            Ok(i) => found == Some(i),
            Err(e) => found is None && e@ == error(
                "invalid_request"@,
                "input contains no audio stream"@,
            ),
        },
{
    match found {
        Some(i) => Ok(i),
        None => Err(NativeError::new("invalid_request", "input contains no audio stream")),
    }
}

/// Set up the encoder of an extraction. `formats` and `rates` are what the
/// encoder takes; a rate that it does not take becomes the closest one.
pub fn plan_extraction(
    src: AudioSource,
    opts: &ExtractAudioOpts,
    formats: &Option<Vec<i32>>,
    rates: &Option<Vec<i32>>,
) -> (r: Result<AudioEncoderParams, NativeError>)
    ensures
        match r {
            Ok(p) => {
                let wanted = rate_candidate(opts.sample_rate, src.sample_rate);
                &&& channel_choice(opts.channels, src.channels) == Ok::<i32, ErrorView>(
                    p.target.channels,
                )
                &&& p.target.format == format_choice(listed(*formats), src.format)
                &&& rate_accepted(listed(*rates), wanted) ==> p.target.sample_rate == wanted
                &&& !rate_accepted(listed(*rates), wanted) ==> is_first_closest(
                    listed(*rates)->0,
                    wanted,
                    p.target.sample_rate,
                )
                &&& p.time_base == (Rational { num: 1, den: p.target.sample_rate })
                &&& p.bit_rate == opts.bitrate
                &&& !p.global_header
            },
            Err(e) => channel_choice(opts.channels, src.channels) == Err::<i32, ErrorView>(e@),
        },
{
    let rate: i32 = pick_sample_rate(rates, opts.sample_rate, src.sample_rate);
    let channels: i32 = match resolve_channels(opts.channels, src.channels) {
        Ok(n) => n,
        Err(e) => {
            return Err(e);
        },
    };
    Ok(
        AudioEncoderParams {
            target: AudioTarget {
                sample_rate: rate,
                format: pick_format(formats, src.format),
                channels,
            },
            time_base: Rational { num: 1, den: rate },
            bit_rate: opts.bitrate,
            global_header: false,
        },
    )
}

/// How far an extraction is.
#[derive(Debug, Clone, Copy, PartialEq, Eq, Structural)]
pub enum ExtractStage {
    Header,
    Read,
    /// The pipeline is at work.
    Flow,
    Trailer,
    Finished,
}

/// What came of the last action.
#[derive(Debug, Clone, Copy)]
pub enum ExtractEvent {
    HeaderWritten,
    Packet { stream_index: usize, alive: bool },
    EndOfInput,
    Flow { audio: AudioEvent },
    TrailerWritten,
}

/// What to do next.
#[derive(Debug, Clone, Copy, PartialEq, Eq, Structural)]
pub enum ExtractAction {
    WriteHeader,
    ReadPacket,
    /// For the pipeline.
    Flow { audio: AudioAction },
    WriteTrailer,
    Finished,
}

/// Timing for frames without time stamps, which is never consulted.
pub open spec fn untimed() -> SourceTiming {
    SourceTiming { num: 1, den: 1, rate_in: 1, rate_out: 1 }
}

/// The reply carries no time stamp of its own.
pub open spec fn is_untimed(ev: AudioEvent) -> bool {
    match ev {
        AudioEvent::Frame { timestamp, .. } => timestamp is None,
        _ => true,
    }
}

/// The state of an extraction.
#[verifier::ext_equal]
pub struct ExtractView {
    pub audio_index: usize,
    pub stage: ExtractStage,
    pub flow: AudioFlowView,
}

impl ExtractView {
    pub open spec fn initial(audio_index: usize, flow: AudioFlowView) -> ExtractView {
        ExtractView { audio_index, stage: ExtractStage::Header, flow }
    }

    /// The replies that can come now, with numbers that fit.
    pub open spec fn accepts(self, ev: ExtractEvent) -> bool {
        match ev {
            ExtractEvent::HeaderWritten => self.stage is Header,
            ExtractEvent::Packet { .. } => self.stage is Read,
            ExtractEvent::EndOfInput => self.stage is Read,
            ExtractEvent::Flow { audio } => {
                &&& self.stage is Flow
                &&& is_untimed(audio)
                &&& self.flow.accepts(audio)
            },
            ExtractEvent::TrailerWritten => self.stage is Trailer,
        }
    }

    /// The answer to a reply. A caller that is gone ends the extraction.
    pub open spec fn step(self, ev: ExtractEvent) -> Result<
        (ExtractView, ExtractAction),
        ErrorView,
    > {
        match ev {
            ExtractEvent::HeaderWritten => Ok(
                (ExtractView { stage: ExtractStage::Read, ..self }, ExtractAction::ReadPacket),
            ),
            ExtractEvent::Packet { stream_index, alive } => if !alive {
                Err(cancelled_error())
            } else if stream_index != self.audio_index {
                Ok((self, ExtractAction::ReadPacket))
            } else {
                Ok(
                    (
                        ExtractView {
                            stage: ExtractStage::Flow,
                            flow: AudioFlowView { wait: AudioWait::Send, ..self.flow },
                            ..self
                        },
                        ExtractAction::Flow { audio: AudioAction::SendPacket },
                    ),
                )
            },
            ExtractEvent::EndOfInput => Ok(
                (
                    ExtractView {
                        stage: ExtractStage::Flow,
                        flow: AudioFlowView {
                            stage: AudioStage::Flushing,
                            wait: AudioWait::Send,
                            ..self.flow
                        },
                        ..self
                    },
                    ExtractAction::Flow { audio: AudioAction::SendEnd },
                ),
            ),
            ExtractEvent::Flow { audio } => {
                let next = self.flow.step(audio);
                let after = ExtractView { flow: next.0, ..self };
                if next.1 is Idle {
                    Ok(
                        (
                            ExtractView { stage: ExtractStage::Read, ..after },
                            ExtractAction::ReadPacket,
                        ),
                    )
                } else if next.1 is Finished {
                    Ok(
                        (
                            ExtractView { stage: ExtractStage::Trailer, ..after },
                            ExtractAction::WriteTrailer,
                        ),
                    )
                } else {
                    Ok((after, ExtractAction::Flow { audio: next.1 }))
                }
            },
            ExtractEvent::TrailerWritten => Ok(
                (ExtractView { stage: ExtractStage::Finished, ..self }, ExtractAction::Finished),
            ),
        }
    }

    /// What holds in every state.
    pub open spec fn inv(self) -> bool {
        &&& self.flow.inv()
        &&& counts_from(self.flow.clock, 0)
        &&& self.flow.clock.pushed <= i64::MAX
        &&& match self.stage {
            ExtractStage::Header | ExtractStage::Read => self.flow.wait is Idle,
            ExtractStage::Flow => !(self.flow.wait is Idle) && !(self.flow.wait is Finished),
            ExtractStage::Trailer | ExtractStage::Finished => self.flow.stage is Done,
        }
    }
}

proof fn lemma_untimed_step(v: AudioFlowView, ev: AudioEvent)
    requires
        v.inv(),
        v.accepts(ev),
        is_untimed(ev),
        counts_from(v.clock, 0),
        v.clock.pushed <= i64::MAX,
    ensures
        counts_from(v.step(ev).0.clock, 0),
        v.step(ev).0.clock.pushed <= i64::MAX,
        v.step(ev).1 is Encode ==> v.step(ev).1->pts == v.samples_written(),
{
    let c = v.clock;
    match ev {
        AudioEvent::Frame { nb_samples, .. } => {
            assert(counts_from(c.announce(0), 0));
        },
        AudioEvent::Read { nb_samples } => {
            law_contiguous_without_gap(c, 0, 0, nb_samples as nat);
        },
        _ => {},
    }
}

/// What was extracted.
#[derive(Debug)]
pub struct ExtractAudioStats {
    pub sample_rate: i32,
    pub channels: i32,
    pub samples_written: u64,
    pub duration: Position,
    pub codec: String,
}

/// An extraction.
#[derive(Debug)]
pub struct ExtractAudio {
    audio_index: usize,
    stage: ExtractStage,
    flow: AudioFlow,
}

impl View for ExtractAudio {
    type V = ExtractView;

    closed spec fn view(&self) -> ExtractView {
        ExtractView { audio_index: self.audio_index, stage: self.stage, flow: self.flow@ }
    }
}

impl ExtractAudio {
    /// The extraction is in a state that it can reach.
    pub closed spec fn wf(&self) -> bool {
        self.flow.wf() && self@.inv()
    }

    /// What a reachable state satisfies.
    pub proof fn lemma_inv(&self)
        requires
            self.wf(),
        ensures
            self@.inv(),
    {
    }

    /// Extract one audio stream. `chunk` is the number of samples per
    /// encoder call.
    pub fn new(audio_index: usize, passthrough: bool, chunk: i32, target: AudioTarget) -> (x: Self)
        requires
            chunk > 0,
        ensures
            x.wf(),
            x@ == ExtractView::initial(
                audio_index,
                AudioFlowView::initial(passthrough, chunk, target, untimed()),
            ),
    {
        let timing = SourceTiming::new(Rational { num: 1, den: 1 }, 1, 1);
        let flow = AudioFlow::new(passthrough, chunk, target, timing);
        proof {
            flow.lemma_inv();
        }
        ExtractAudio { audio_index, stage: ExtractStage::Header, flow }
    }

    /// How far the extraction is.
    pub fn stage(&self) -> (r: ExtractStage)
        ensures
            r == self@.stage,
    {
        self.stage
    }

    /// Packets written so far.
    pub fn packets_written(&self) -> (r: u64)
        ensures
            r == self@.flow.packets_written,
    {
        self.flow.packets_written()
    }

    /// Whether this reply can come now, with numbers that fit.
    pub fn can_step(&self, ev: &ExtractEvent) -> (b: bool)
        requires
            self.wf(),
        ensures
            b == self@.accepts(*ev),
    {
        match *ev {
            ExtractEvent::HeaderWritten => self.stage == ExtractStage::Header,
            ExtractEvent::Packet { stream_index: _, alive: _ } => self.stage == ExtractStage::Read,
            ExtractEvent::EndOfInput => self.stage == ExtractStage::Read,
            ExtractEvent::Flow { audio } => {
                let untimed = match audio {
                    AudioEvent::Frame { nb_samples: _, sample_rate: _, timestamp } => match timestamp {
                        Some(_) => false,
                        None => true,
                    },
                    _ => true,
                };
                self.stage == ExtractStage::Flow && untimed && self.flow.can_step(&audio)
            },
            ExtractEvent::TrailerWritten => self.stage == ExtractStage::Trailer,
        }
    }

    /// Take a reply and say what to do next. Fails only when the caller is
    /// gone, and then leaves the state as it was.
    pub fn step(&mut self, ev: ExtractEvent) -> (r: Result<ExtractAction, NativeError>)
        requires
            old(self).wf(),
            old(self)@.accepts(ev),
        ensures
            final(self).wf(),
            match r {
                Ok(a) => old(self)@.step(ev) == Ok::<(ExtractView, ExtractAction), ErrorView>(
                    (final(self)@, a),
                ),
                Err(e) => old(self)@.step(ev) == Err::<(ExtractView, ExtractAction), ErrorView>(e@)
                    && final(self)@ == old(self)@,
            },
    {
        let ghost before = self@;
        match ev {
            ExtractEvent::HeaderWritten => {
                self.stage = ExtractStage::Read;
                assert(self@ =~= before.step(ev)->Ok_0.0);
                Ok(ExtractAction::ReadPacket)
            },
            ExtractEvent::Packet { stream_index, alive } => {
                if !alive {
                    return Err(cancelled());
                }
                if stream_index != self.audio_index {
                    return Ok(ExtractAction::ReadPacket);
                }
                let audio = self.flow.begin_packet();
                self.stage = ExtractStage::Flow;
                proof {
                    self.flow.lemma_inv();
                }
                assert(self@ =~= before.step(ev)->Ok_0.0);
                Ok(ExtractAction::Flow { audio })
            },
            ExtractEvent::EndOfInput => {
                let audio = self.flow.begin_flush();
                self.stage = ExtractStage::Flow;
                proof {
                    self.flow.lemma_inv();
                }
                assert(self@ =~= before.step(ev)->Ok_0.0);
                Ok(ExtractAction::Flow { audio })
            },
            ExtractEvent::Flow { audio } => {
                let action = self.flow.step(audio);
                proof {
                    self.flow.lemma_inv();
                    lemma_untimed_step(before.flow, audio);
                }
                match action {
                    AudioAction::Idle => {
                        self.stage = ExtractStage::Read;
                        assert(self@ =~= before.step(ev)->Ok_0.0);
                        Ok(ExtractAction::ReadPacket)
                    },
                    AudioAction::Finished => {
                        self.stage = ExtractStage::Trailer;
                        assert(self@ =~= before.step(ev)->Ok_0.0);
                        Ok(ExtractAction::WriteTrailer)
                    },
                    other => {
                        assert(self@ =~= before.step(ev)->Ok_0.0);
                        Ok(ExtractAction::Flow { audio: other })
                    },
                }
            },
            ExtractEvent::TrailerWritten => {
                self.stage = ExtractStage::Finished;
                assert(self@ =~= before.step(ev)->Ok_0.0);
                Ok(ExtractAction::Finished)
            },
        }
    }

    /// Where the output is: the samples written so far, one tick each.
    pub fn position(&self) -> (r: Position)
        requires
            self.wf(),
        ensures
            r.ticks == self@.flow.samples_written(),
            r.num == 1,
            r.den == self@.flow.target.sample_rate,
    {
        proof {
            self.flow.lemma_inv();
        }
        Position {
            ticks: self.flow.samples_written() as i64,
            num: 1,
            den: self.flow.target().sample_rate,
        }
    }

    /// Report on the extraction.
    pub fn stats(&self, codec: String) -> (r: ExtractAudioStats)
        requires
            self.wf(),
        ensures
            r.sample_rate == self@.flow.target.sample_rate,
            r.channels == self@.flow.target.channels,
            r.samples_written == self@.flow.samples_written(),
            r.duration == (Position {
                ticks: r.samples_written as i64,
                num: 1,
                den: r.sample_rate,
            }),
            r.codec == codec,
    {
        let target = self.flow.target();
        ExtractAudioStats {
            sample_rate: target.sample_rate,
            channels: target.channels,
            samples_written: self.flow.samples_written(),
            duration: self.position(),
            codec,
        }
    }
}

/// Every accepted reply leads from a reachable state to a reachable state.
pub proof fn law_extract_step_keeps_invariant(v: ExtractView, ev: ExtractEvent)
    requires
        v.inv(),
        v.accepts(ev),
        v.step(ev) is Ok,
    ensures
        v.step(ev)->Ok_0.0.inv(),
{
    if let ExtractEvent::Flow { audio } = ev {
        law_step_keeps_invariant(v.flow, audio);
        lemma_untimed_step(v.flow, audio);
    }
}

/// The time stamp of every encoded frame is the number of samples that
/// were encoded before it: the output starts at zero and has no gap.
pub proof fn law_time_stamps_count_samples(v: ExtractView, audio: AudioEvent, pts: i64)
    requires
        v.inv(),
        v.accepts(ExtractEvent::Flow { audio }),
        v.step(ExtractEvent::Flow { audio })->Ok_0.1 == (ExtractAction::Flow {
            audio: AudioAction::Encode { pts },
        }),
    ensures
        pts == v.flow.samples_written(),
{
    lemma_untimed_step(v.flow, audio);
}

/// Packets of other streams change nothing.
pub proof fn law_other_streams_are_skipped(v: ExtractView, stream_index: usize)
    requires
        stream_index != v.audio_index,
    ensures
        v.step(ExtractEvent::Packet { stream_index, alive: true }) == Ok::<
            (ExtractView, ExtractAction),
            ErrorView,
        >((v, ExtractAction::ReadPacket)),
{
}

/// The trailer is written only when every sample that entered the pipeline
/// was encoded.
pub proof fn law_extraction_is_complete(v: ExtractView, ev: ExtractEvent)
    requires
        v.inv(),
        v.accepts(ev),
        v.step(ev) is Ok,
        v.step(ev)->Ok_0.1 is WriteTrailer,
    ensures
        v.step(ev)->Ok_0.0.flow.samples_written() == v.step(ev)->Ok_0.0.flow.clock.pushed,
{
    law_extract_step_keeps_invariant(v, ev);
}

/// Each encoder belongs to its own extensions and to no other; anything
/// else, and a path without an extension, is a bad request that names what
/// it found.
pub proof fn law_audio_encoders(ext: Option<Seq<char>>)
    ensures
        audio_encoder(ext) == Ok::<Seq<char>, ErrorView>("pcm_s16le"@) <==> ext == Some("wav"@),
        audio_encoder(ext) == Ok::<Seq<char>, ErrorView>("libmp3lame"@) <==> ext == Some("mp3"@),
        audio_encoder(ext) == Ok::<Seq<char>, ErrorView>("aac"@) <==> ext == Some("m4a"@) || ext
            == Some("aac"@),
        audio_encoder(ext) == Ok::<Seq<char>, ErrorView>("libopus"@) <==> ext == Some("opus"@)
            || ext == Some("ogg"@),
        audio_encoder(ext) == Ok::<Seq<char>, ErrorView>("flac"@) <==> ext == Some("flac"@),
        audio_encoder(ext) is Err <==> ext != Some("wav"@) && ext != Some("mp3"@) && ext != Some(
            "m4a"@,
        ) && ext != Some("aac"@) && ext != Some("opus"@) && ext != Some("ogg"@) && ext != Some(
            "flac"@,
        ),
        audio_encoder(ext) matches Err(e) ==> {
            &&& e.kind == "invalid_request"@
            &&& ext matches Some(x) ==> e.details.contains_pair("extension"@, x)
            &&& ext is None ==> e.details.contains_pair("extension"@, "<none>"@)
        },
{
    reveal_strlit("wav");
    reveal_strlit("mp3");
    reveal_strlit("m4a");
    reveal_strlit("aac");
    reveal_strlit("opus");
    reveal_strlit("ogg");
    reveal_strlit("flac");
    reveal_strlit("pcm_s16le");
    reveal_strlit("libmp3lame");
    reveal_strlit("libopus");
    assert("wav"@.len() == 3 && "mp3"@.len() == 3 && "m4a"@.len() == 3 && "aac"@.len() == 3);
    assert("opus"@.len() == 4 && "ogg"@.len() == 3 && "flac"@.len() == 4);
    assert("pcm_s16le"@.len() == 9 && "libmp3lame"@.len() == 10 && "libopus"@.len() == 7);
    assert("wav"@[0] == 'w' && "mp3"@[0] == 'm' && "m4a"@[0] == 'm' && "aac"@[0] == 'a'
        && "ogg"@[0] == 'o' && "mp3"@[1] == 'p' && "m4a"@[1] == '4');
    assert("opus"@[0] == 'o' && "flac"@[0] == 'f');
}

/// With an extension that has an encoder, a missing encoder is answered
/// before the path and the path before the source: a missing encoder is
/// unsupported and named, a path with a NUL is a bad request, and then the
/// source's own refusal counts.
pub proof fn law_extraction_is_judged_in_order(
    style: PathStyle,
    output_path: Seq<char>,
    encoder_found: bool,
    source: InputSource,
    is_file: bool,
)
    requires
        audio_encoder(lower_extension(style, output_path)) is Ok,
    ensures
        ({
            let r = extraction_refusal(style, output_path, encoder_found, source, is_file);
            let name = audio_encoder(lower_extension(style, output_path))->Ok_0;
            &&& !encoder_found ==> r is Some && r->0.kind == "unsupported"@
                && r->0.details.contains_pair("encoder"@, name)
            &&& encoder_found && output_path.contains('\0') ==> r is Some && r->0.kind
                == "invalid_request"@ && r->0.details.contains_pair("path"@, output_path)
            &&& encoder_found && !output_path.contains('\0') ==> r == refusal(source, is_file)
        }),
{
    assert(output_path.contains('\0') <==> contains_nul(output_path));
}

/// With a caller that is there, a packet goes to the pipeline exactly when
/// it belongs to the extracted stream; any other is passed over.
pub proof fn law_only_the_audio_stream_is_extracted(v: ExtractView, stream_index: usize)
    ensures
        v.step(ExtractEvent::Packet { stream_index, alive: true }) is Ok,
        ({
            let r = v.step(ExtractEvent::Packet { stream_index, alive: true })->Ok_0;
            &&& stream_index == v.audio_index ==> {
                &&& r.1 == (ExtractAction::Flow { audio: AudioAction::SendPacket })
                &&& r.0.stage is Flow
                &&& r.0.flow.wait is Send
                &&& r.0.flow.stage == v.flow.stage
                &&& r.0.flow.clock == v.flow.clock
            }
            &&& stream_index != v.audio_index ==> r.1 is ReadPacket && r.0 == v
            &&& r.0.audio_index == v.audio_index
        }),
{
}

/// The extraction goes its way: the header leads to the first packet, the
/// end of the input to the flush, what the pipeline asks for is passed on,
/// its idleness leads to the next packet and its end to the trailer.
pub proof fn law_extraction_goes_its_way(v: ExtractView, ev: ExtractEvent)
    requires
        v.inv(),
        v.accepts(ev),
        v.step(ev) is Ok,
    ensures
        ({
            let r = v.step(ev)->Ok_0;
            &&& r.0.audio_index == v.audio_index
            &&& match ev {
                ExtractEvent::HeaderWritten => r.1 is ReadPacket && r.0.stage is Read && r.0.flow
                    == v.flow,
                ExtractEvent::Packet { .. } => true,
                ExtractEvent::EndOfInput => r.1 == (ExtractAction::Flow {
                    audio: AudioAction::SendEnd,
                }) && r.0.flow.stage is Flushing && r.0.flow.wait is Send && r.0.stage is Flow
                    && r.0.flow.clock == v.flow.clock,
                ExtractEvent::Flow { audio } => {
                    let asked = v.flow.step(audio).1;
                    &&& r.0.flow == v.flow.step(audio).0
                    &&& asked is Idle ==> r.1 is ReadPacket && r.0.stage is Read
                    &&& asked is Finished ==> r.1 is WriteTrailer && r.0.stage is Trailer
                    &&& !(asked is Idle) && !(asked is Finished) ==> r.1 == (ExtractAction::Flow {
                        audio: asked,
                    }) && r.0.stage is Flow
                },
                ExtractEvent::TrailerWritten => r.1 is Finished && r.0.stage is Finished && r.0.flow
                    == v.flow,
            }
        }),
{
}

/// A reply is taken exactly when the extraction is there for it, and from
/// the pipeline only without a time of its own. The extraction fails only
/// for a caller that is gone, as `cancelled`.
pub proof fn law_extraction_takes_replies_in_turn(v: ExtractView, ev: ExtractEvent)
    ensures
        v.accepts(ev) <==> match ev {
            ExtractEvent::HeaderWritten => v.stage is Header,
            ExtractEvent::Packet { .. } => v.stage is Read,
            ExtractEvent::EndOfInput => v.stage is Read,
            ExtractEvent::Flow { audio } => v.stage is Flow && v.flow.accepts(audio) && (
            audio matches AudioEvent::Frame { timestamp, .. } ==> timestamp is None),
            ExtractEvent::TrailerWritten => v.stage is Trailer,
        },
        v.step(ev) is Err <==> (ev matches ExtractEvent::Packet { alive, .. } && !alive),
        v.step(ev) is Err ==> v.step(ev)->Err_0.kind == "cancelled"@,
{
}

/// An extraction starts with the header, for the stream and the pipeline
/// that it is given.
pub proof fn law_extraction_starts_fresh(audio_index: usize, flow: AudioFlowView)
    ensures
        ExtractView::initial(audio_index, flow).audio_index == audio_index,
        ExtractView::initial(audio_index, flow).flow == flow,
        ExtractView::initial(audio_index, flow).stage is Header,
{
}

} // verus!
