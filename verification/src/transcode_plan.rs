//! Decisions that a re-encode takes before the first packet: what happens
//! to each stream, which encoder is asked for, and how the two pipelines
//! are set up.

use crate::audio::{
    channel_choice, format_choice, listed, pick_format, rate_candidate, resolve_channels,
    AudioTarget,
};
use crate::errors::{error, outcome, ErrorView, NativeError};
use crate::media::{
    build_stream_map, dropped, kept_count, lemma_kept_count_bound, should_drop, stream_map, Drops,
    Rational, AVMEDIA_TYPE_AUDIO, AVMEDIA_TYPE_VIDEO, AV_NOPTS_VALUE,
};
use crate::path::text_view;
use crate::text::{before, behind, contains_nul, has_nul, number, same_text};
use crate::video::{
    aspect_choice, build_source_args, build_video_filter_spec, filter_spec, fps_choice,
    law_filter_chain_reads_back, law_own_chain_is_kept, lemma_size_fits, pick_aspect, pick_fps,
    resolve_target_size, source_args, target_size,
};
use vstd::prelude::*;

verus! {

/// What a caller can ask of a re-encode.
#[derive(Debug)]
pub struct TranscodeOpts {
    /// `"copy"` and none keep the packets; anything else names an encoder.
    pub video_codec: Option<String>,
    /// Like `video_codec`.
    pub audio_codec: Option<String>,
    /// Bits per second.
    pub video_bitrate: Option<i64>,
    /// Bits per second.
    pub audio_bitrate: Option<i64>,
    pub width: Option<i32>,
    pub height: Option<i32>,
    /// Frames per second as numerator and denominator; `(0, 0)` keeps the
    /// source's rate.
    pub fps: Option<(i32, i32)>,
    pub sample_rate: Option<i32>,
    pub channels: Option<i32>,
    /// A filter chain of the caller's own. Overrides size and frame rate.
    pub video_filter: Option<String>,
    pub drop_audio: Option<bool>,
    pub drop_video: Option<bool>,
    pub drop_subtitles: Option<bool>,
    /// Container metadata.
    pub tags: Option<Vec<(String, String)>>,
}

/// Whether a codec choice keeps the packets.
pub open spec fn keeps_packets(codec: Option<Seq<char>>) -> bool {
    match codec {
        None => true,
        Some(name) => name == "copy"@,
    }
}

/// Whether a codec choice keeps the packets: none and `"copy"` do. Any other
/// text, an empty one too, names an encoder.
pub fn is_copy(codec: &Option<String>) -> (r: bool)
    ensures
        r == keeps_packets(text_view(*codec)),
{
    match codec {
        None => true,
        Some(name) => same_text(name.as_str(), "copy"),
    }
}

/// Whether a stream of this kind is re-encoded.
pub open spec fn reencodes(codec_type: i32, opts: TranscodeOpts) -> bool {
    ||| codec_type == AVMEDIA_TYPE_VIDEO && !keeps_packets(text_view(opts.video_codec))
    ||| codec_type == AVMEDIA_TYPE_AUDIO && !keeps_packets(text_view(opts.audio_codec))
}

/// Whether a stream of this kind is re-encoded. Only video and audio ever
/// are.
pub fn should_reencode(codec_type: i32, opts: &TranscodeOpts) -> (r: bool)
    ensures
        r == reencodes(codec_type, *opts),
{
    if codec_type == AVMEDIA_TYPE_VIDEO {
        !is_copy(&opts.video_codec)
    } else if codec_type == AVMEDIA_TYPE_AUDIO {
        !is_copy(&opts.audio_codec)
    } else {
        false
    }
}

/// What happens to a stream.
#[derive(Debug, Clone, Copy, PartialEq, Eq, Structural)]
pub enum StreamRole {
    Drop,
    Copy,
    Video,
    Audio,
}

/// What happens to a stream of this kind.
pub open spec fn role_of(codec_type: i32, drops: Drops, opts: TranscodeOpts) -> StreamRole {
    if dropped(codec_type, drops) {
        StreamRole::Drop
    } else if !reencodes(codec_type, opts) {
        StreamRole::Copy
    } else if codec_type == AVMEDIA_TYPE_VIDEO {
        StreamRole::Video
    } else {
        StreamRole::Audio
    }
}

/// What happens to a stream of this kind.
pub fn stream_role(codec_type: i32, drops: Drops, opts: &TranscodeOpts) -> (r: StreamRole)
    ensures
        r == role_of(codec_type, drops, *opts),
{
    if should_drop(codec_type, drops) {
        StreamRole::Drop
    } else if !should_reencode(codec_type, opts) {
        StreamRole::Copy
    } else if codec_type == AVMEDIA_TYPE_VIDEO {
        StreamRole::Video
    } else {
        StreamRole::Audio
    }
}

/// The roles of all streams.
pub open spec fn roles_of(kinds: Seq<i32>, drops: Drops, opts: TranscodeOpts) -> Seq<StreamRole> {
    Seq::new(kinds.len(), |i: int| role_of(kinds[i], drops, opts))
}

/// How many streams have a role.
pub open spec fn role_count(roles: Seq<StreamRole>, role: StreamRole) -> nat
    decreases roles.len(),
{
    if roles.len() == 0 {
        0
    } else {
        role_count(roles.drop_last(), role) + (if roles.last() == role {
            1nat
        } else {
            0
        })
    }
}

/// What happens to every stream of the input.
#[derive(Debug)]
pub struct StreamPlan {
    /// Per input stream.
    pub roles: Vec<StreamRole>,
    /// The output stream of each input stream that is kept.
    pub outputs: Vec<Option<u32>>,
    pub copied: u32,
    pub reencoded: u32,
}

impl StreamPlan {
    /// The counts are those of the roles.
    pub open spec fn counts_roles(&self) -> bool {
        &&& self.copied == role_count(self.roles@, StreamRole::Copy)
        &&& self.reencoded == role_count(self.roles@, StreamRole::Video) + role_count(
            self.roles@,
            StreamRole::Audio,
        )
    }
}

/// What a re-encode of nothing is answered.
pub open spec fn nothing_left_error() -> ErrorView {
    error("invalid_request"@, "transcode dropped every input stream; nothing left to write"@)
}

proof fn lemma_roles_cover(kinds: Seq<i32>, drops: Drops, opts: TranscodeOpts)
    ensures
        ({
            let roles = roles_of(kinds, drops, opts);
            &&& role_count(roles, StreamRole::Copy) + role_count(roles, StreamRole::Video)
                + role_count(roles, StreamRole::Audio) == kept_count(kinds, drops)
            &&& role_count(roles, StreamRole::Drop) + kept_count(kinds, drops) == kinds.len()
        }),
    decreases kinds.len(),
{
    if kinds.len() > 0 {
        lemma_roles_cover(kinds.drop_last(), drops, opts);
        assert(roles_of(kinds, drops, opts).drop_last() =~= roles_of(
            kinds.drop_last(),
            drops,
            opts,
        ));
    }
}

/// Decide what happens to every stream. Fails when no stream is kept.
pub fn plan_streams(kinds: &Vec<i32>, drops: Drops, opts: &TranscodeOpts) -> (r: Result<
    StreamPlan,
    NativeError,
>)
    requires
        kinds@.len() <= u32::MAX,
    ensures
        match r {
            Ok(p) => {
                &&& kept_count(kinds@, drops) > 0
                &&& p.roles@ == roles_of(kinds@, drops, *opts)
                &&& p.outputs@ == stream_map(kinds@, drops)
                &&& p.counts_roles()
            },
            Err(e) => kept_count(kinds@, drops) == 0 && e@ == nothing_left_error(),
        },
{
    let mut roles: Vec<StreamRole> = Vec::new();
    let mut copied: u32 = 0;
    let mut reencoded: u32 = 0;
    for i in 0..kinds.len()
        invariant
            kinds@.len() <= u32::MAX,
            roles@ == roles_of(kinds@.take(i as int), drops, *opts),
            copied == role_count(roles@, StreamRole::Copy),
            reencoded == role_count(roles@, StreamRole::Video) + role_count(
                roles@,
                StreamRole::Audio,
            ),
            copied + reencoded <= i,
    {
        let role = stream_role(kinds[i], drops, opts);
        let ghost before = roles@;
        roles.push(role);
        proof {
            assert(roles@.drop_last() =~= before);
            assert(roles@ =~= roles_of(kinds@.take(i + 1), drops, *opts));
        }
        match role {
            StreamRole::Copy => {
                copied = copied + 1;
            },
            StreamRole::Video => {
                reencoded = reencoded + 1;
            },
            StreamRole::Audio => {
                reencoded = reencoded + 1;
            },
            StreamRole::Drop => {},
        }
    }
    proof {
        assert(kinds@.take(kinds@.len() as int) =~= kinds@);
        lemma_roles_cover(kinds@, drops, *opts);
        lemma_kept_count_bound(kinds@, drops);
    }
    if copied + reencoded == 0 {
        return Err(
            NativeError::new(
                "invalid_request",
                "transcode dropped every input stream; nothing left to write",
            ),
        );
    }
    let (outputs, _kept) = build_stream_map(kinds, drops);
    Ok(StreamPlan { roles, outputs, copied, reencoded })
}

/// Every stream is dropped, copied or re-encoded, and a stream has an
/// output exactly when it is not dropped.
pub proof fn law_every_stream_has_one_role(kinds: Seq<i32>, drops: Drops, opts: TranscodeOpts)
    requires
        kinds.len() <= u32::MAX,
    ensures
        ({
            let roles = roles_of(kinds, drops, opts);
            role_count(roles, StreamRole::Drop) + role_count(roles, StreamRole::Copy) + role_count(
                roles,
                StreamRole::Video,
            ) + role_count(roles, StreamRole::Audio) == kinds.len()
        }),
        forall|i: int|
            0 <= i < kinds.len() ==> (#[trigger] stream_map(kinds, drops)[i] is None <==> roles_of(
                kinds,
                drops,
                opts,
            )[i] is Drop),
{
    lemma_roles_cover(kinds, drops, opts);
}

/// Without a codec choice every kept stream is copied.
pub proof fn law_no_choice_copies(kinds: Seq<i32>, drops: Drops, opts: TranscodeOpts, i: int)
    requires
        0 <= i < kinds.len(),
        keeps_packets(text_view(opts.video_codec)),
        keeps_packets(text_view(opts.audio_codec)),
    ensures
        roles_of(kinds, drops, opts)[i] is Drop || roles_of(kinds, drops, opts)[i] is Copy,
{
}

/// The name of the encoder that a codec choice asks for.
pub open spec fn encoder_name(codec: Option<Seq<char>>, fallback: Seq<char>) -> Seq<char> {
    match codec {
        Some(name) => name,
        None => fallback,
    }
}

/// The name of the video encoder to look for.
pub fn video_encoder_name(opts: &TranscodeOpts) -> (r: String)
    ensures
        r@ == encoder_name(text_view(opts.video_codec), "h264"@),
{
    match &opts.video_codec {
        Some(name) => name.clone(),
        None => "h264".to_owned(),
    }
}

/// The name of the audio encoder to look for.
pub fn audio_encoder_name(opts: &TranscodeOpts) -> (r: String)
    ensures
        r@ == encoder_name(text_view(opts.audio_codec), "aac"@),
{
    match &opts.audio_codec {
        Some(name) => name.clone(),
        None => "aac".to_owned(),
    }
}

/// Whether a codec name can be looked up at all.
pub fn check_codec_name(name: &str) -> (r: Result<(), NativeError>)
    ensures
        match r {
            Ok(()) => !contains_nul(name@),
            Err(e) => contains_nul(name@) && e@ == error(
                "invalid_request"@,
                "codec name contains a NUL byte"@,
            ),
        },
{
    if has_nul(name) {
        Err(NativeError::new("invalid_request", "codec name contains a NUL byte"))
    } else {
        Ok(())
    }
}

/// What the look-up of an encoder by its name comes to.
pub open spec fn encoder_lookup(name: Seq<char>, found: bool) -> Result<(), ErrorView> {
    if contains_nul(name) {
        Err(error("invalid_request"@, "codec name contains a NUL byte"@))
    } else if !found {
        Err(error("unsupported"@, "encoder not available in this FFmpeg build"@).with("name"@, name))
    } else {
        Ok(())
    }
}

/// Judge the look-up of an encoder by its name. A name with a NUL byte
/// cannot be found.
pub fn find_encoder_by_name_owned(name: &str, found: bool) -> (r: Result<(), NativeError>)
    ensures
        outcome(r) == encoder_lookup(name@, found),
{
    check_codec_name(name)?;
    if found {
        Ok(())
    } else {
        Err(
            NativeError::new(
                "unsupported",
                "encoder not available in this FFmpeg build",
            ).with_detail("name", name.to_owned()),
        )
    }
}

/// Judge the look-up of a decoder for a video stream.
pub fn require_video_decoder(found: bool) -> (r: Result<(), NativeError>)
    ensures
        match r {
            Ok(()) => found,
            Err(e) => !found && e@ == error(
                "unsupported"@,
                "no decoder available for input video stream"@,
            ),
        },
{
    if found {
        Ok(())
    } else {
        Err(NativeError::new("unsupported", "no decoder available for input video stream"))
    }
}

/// Judge the look-up of a decoder for an audio stream.
pub fn require_audio_decoder(found: bool) -> (r: Result<(), NativeError>)
    ensures
        match r {
            Ok(()) => found,
            Err(e) => !found && e@ == error(
                "unsupported"@,
                "no decoder available for input audio stream"@,
            ),
        },
{
    if found {
        Ok(())
    } else {
        Err(NativeError::new("unsupported", "no decoder available for input audio stream"))
    }
}

/// What the decoder and the container say of a video stream.
#[derive(Debug, Clone, Copy, PartialEq, Eq, Structural)]
pub struct VideoSource {
    pub width: i32,
    pub height: i32,
    pub format: i32,
    pub time_base: Rational,
    pub decoder_aspect: Rational,
    pub container_aspect: Rational,
    pub decoder_rate: Rational,
    pub container_rate: Rational,
}

/// How the filter graph of a video stream is set up.
#[derive(Debug)]
pub struct VideoPlan {
    /// The frame rate to produce.
    pub fps: (i32, i32),
    /// The source's own frame rate, by which frames without time stamps are
    /// spaced.
    pub source_fps: (i32, i32),
    /// Describes the frames that enter the graph.
    pub source_args: String,
    /// The filter chain.
    pub spec: String,
}

/// The pixel format that the filter graph is pinned to.
pub open spec fn plan_format(supported: Option<Seq<i32>>, src: VideoSource) -> i32 {
    format_choice(supported, src.format)
}

/// The filter chain of a re-encode.
pub open spec fn plan_spec(
    src: VideoSource,
    opts: TranscodeOpts,
    supported: Option<Seq<i32>>,
) -> Seq<char> {
    let size = target_size(src.width, src.height, opts.width, opts.height);
    filter_spec(
        text_view(opts.video_filter),
        size.0 as i32,
        size.1 as i32,
        fps_choice(opts.fps, src.decoder_rate, src.container_rate),
        plan_format(supported, src),
    )
}

/// Set up the filter graph of a video stream. `supported` are the pixel
/// formats that the encoder takes. Fails when the chain cannot be handed
/// to the graph parser.
pub fn plan_video(src: VideoSource, opts: &TranscodeOpts, supported: &Option<Vec<i32>>) -> (r:
    Result<VideoPlan, NativeError>)
    ensures
        match r {
            Ok(p) => {
                &&& !contains_nul(plan_spec(src, *opts, listed(*supported)))
                &&& p.fps == fps_choice(opts.fps, src.decoder_rate, src.container_rate)
                &&& p.source_fps == fps_choice(None, src.decoder_rate, src.container_rate)
                &&& p.source_args@ == source_args(
                    src.width,
                    src.height,
                    src.format,
                    src.time_base,
                    aspect_choice(src.decoder_aspect, src.container_aspect),
                )
                &&& p.spec@ == plan_spec(src, *opts, listed(*supported))
            },
            Err(e) => contains_nul(plan_spec(src, *opts, listed(*supported))) && e@ == error(
                "invalid_request"@,
                "video_filter contains a NUL byte"@,
            ),
        },
{
    let size = resolve_target_size(src.width, src.height, opts.width, opts.height);
    let format: i32 = pick_format(supported, src.format);
    let fps = pick_fps(opts.fps, src.decoder_rate, src.container_rate);
    let spec = build_video_filter_spec(&opts.video_filter, size.0, size.1, fps, format);
    if has_nul(spec.as_str()) {
        return Err(NativeError::new("invalid_request", "video_filter contains a NUL byte"));
    }
    let aspect = pick_aspect(src.decoder_aspect, src.container_aspect);
    let source_args = build_source_args(src.width, src.height, src.format, src.time_base, aspect);
    let source_fps = pick_fps(None, src.decoder_rate, src.container_rate);
    Ok(VideoPlan { fps, source_fps, source_args, spec })
}

/// What the end of the filter graph says once the graph is set up.
#[derive(Debug, Clone, Copy, PartialEq, Eq, Structural)]
pub struct SinkFacts {
    pub width: i32,
    pub height: i32,
    pub format: i32,
    pub time_base: Rational,
    pub frame_rate: Rational,
    pub aspect: Rational,
}

/// How a video encoder is set up.
#[derive(Debug, Clone, Copy, PartialEq, Eq, Structural)]
pub struct VideoEncoderParams {
    pub width: i32,
    pub height: i32,
    pub format: i32,
    pub time_base: Rational,
    pub frame_rate: Rational,
    pub aspect: Rational,
    pub bit_rate: Option<i64>,
    /// The container keeps codec headers out of the packets.
    pub global_header: bool,
}

/// The frame rate of the encoder: the graph's, else the planned one.
pub open spec fn sink_rate(sink: Rational, fps: (i32, i32)) -> Rational {
    if sink.den == 0 || sink.num == 0 {
        Rational { num: fps.0, den: fps.1 }
    } else {
        sink
    }
}

/// Set up the video encoder by what comes out of the filter graph, so that
/// a caller's own chain has the last word on size, format and time.
pub fn video_encoder_params(
    sink: SinkFacts,
    fps: (i32, i32),
    bit_rate: Option<i64>,
    global_header: bool,
) -> (r: VideoEncoderParams)
    ensures
        r == (VideoEncoderParams {
            width: sink.width,
            height: sink.height,
            format: sink.format,
            time_base: sink.time_base,
            frame_rate: sink_rate(sink.frame_rate, fps),
            aspect: sink.aspect,
            bit_rate,
            global_header,
        }),
{
    let frame_rate = if sink.frame_rate.den == 0 || sink.frame_rate.num == 0 {
        Rational { num: fps.0, den: fps.1 }
    } else {
        sink.frame_rate
    };
    VideoEncoderParams {
        width: sink.width,
        height: sink.height,
        format: sink.format,
        time_base: sink.time_base,
        frame_rate,
        aspect: sink.aspect,
        bit_rate,
        global_header,
    }
}

/// What went wrong with a filter graph.
#[derive(Debug)]
pub enum GraphFailure<'a> {
    SourceFilterMissing,
    SinkFilterMissing,
    SourceArgsHaveNul,
    SourceRefused { reason: &'a str },
    SinkNotAllocated,
    SinkRefused { reason: &'a str },
    SpecNotParsed { spec: &'a str, reason: &'a str },
    GraphNotValid { spec: &'a str, reason: &'a str },
    SinkMissing,
    SourceVanished,
    SinkVanished,
}

/// The error that a failure of the filter graph is reported as. Only what
/// the caller's own chain can cause is the caller's fault.
pub open spec fn graph_failure(f: GraphFailure) -> ErrorView {
    match f {
        GraphFailure::SourceFilterMissing => error(
            "runtime_error"@,
            "filter `buffer` missing from build"@,
        ),
        GraphFailure::SinkFilterMissing => error(
            "runtime_error"@,
            "filter `buffersink` missing from build"@,
        ),
        GraphFailure::SourceArgsHaveNul => error(
            "runtime_error"@,
            "buffersrc args could not be encoded as a C string"@,
        ),
        GraphFailure::SourceRefused { reason } => error(
            "runtime_error"@,
            "failed to create buffersrc"@,
        ).with("reason"@, reason@),
        GraphFailure::SinkNotAllocated => error(
            "runtime_error"@,
            "failed to allocate buffersink"@,
        ),
        GraphFailure::SinkRefused { reason } => error(
            "runtime_error"@,
            "failed to init buffersink"@,
        ).with("reason"@, reason@),
        GraphFailure::SpecNotParsed { spec, reason } => error(
            "invalid_request"@,
            "failed to parse video_filter spec"@,
        ).with("spec"@, spec@).with("reason"@, reason@),
        GraphFailure::GraphNotValid { spec, reason } => error(
            "invalid_request"@,
            "video filter graph failed to validate"@,
        ).with("spec"@, spec@).with("reason"@, reason@),
        GraphFailure::SinkMissing => error("runtime_error"@, "buffersink missing after config"@),
        GraphFailure::SourceVanished => error("runtime_error"@, "buffersrc context vanished"@),
        GraphFailure::SinkVanished => error("runtime_error"@, "buffersink context vanished"@),
    }
}

/// Report a failure of the filter graph.
pub fn graph_error(f: GraphFailure) -> (e: NativeError)
    ensures
        e@ == graph_failure(f),
{
    match f {
        GraphFailure::SourceFilterMissing => NativeError::new(
            "runtime_error",
            "filter `buffer` missing from build",
        ),
        GraphFailure::SinkFilterMissing => NativeError::new(
            "runtime_error",
            "filter `buffersink` missing from build",
        ),
        GraphFailure::SourceArgsHaveNul => NativeError::new(
            "runtime_error",
            "buffersrc args could not be encoded as a C string",
        ),
        GraphFailure::SourceRefused { reason } => NativeError::new(
            "runtime_error",
            "failed to create buffersrc",
        ).with_detail("reason", reason.to_owned()),
        GraphFailure::SinkNotAllocated => NativeError::new(
            "runtime_error",
            "failed to allocate buffersink",
        ),
        GraphFailure::SinkRefused { reason } => NativeError::new(
            "runtime_error",
            "failed to init buffersink",
        ).with_detail("reason", reason.to_owned()),
        GraphFailure::SpecNotParsed { spec, reason } => NativeError::new(
            "invalid_request",
            "failed to parse video_filter spec",
        ).with_detail("spec", spec.to_owned()).with_detail("reason", reason.to_owned()),
        GraphFailure::GraphNotValid { spec, reason } => NativeError::new(
            "invalid_request",
            "video filter graph failed to validate",
        ).with_detail("spec", spec.to_owned()).with_detail("reason", reason.to_owned()),
        GraphFailure::SinkMissing => NativeError::new(
            "runtime_error",
            "buffersink missing after config",
        ),
        GraphFailure::SourceVanished => NativeError::new(
            "runtime_error",
            "buffersrc context vanished",
        ),
        GraphFailure::SinkVanished => NativeError::new(
            "runtime_error",
            "buffersink context vanished",
        ),
    }
}

/// What the decoder says of an audio stream.
#[derive(Debug, Clone, Copy, PartialEq, Eq, Structural)]
pub struct AudioSource {
    pub sample_rate: i32,
    pub format: i32,
    pub channels: i32,
}

/// How an audio encoder is set up.
#[derive(Debug, Clone, Copy, PartialEq, Eq, Structural)]
pub struct AudioEncoderParams {
    pub target: AudioTarget,
    pub time_base: Rational,
    pub bit_rate: Option<i64>,
    /// The container keeps codec headers out of the packets.
    pub global_header: bool,
}

/// The set-up of the audio encoder of a re-encode.
pub open spec fn audio_params(
    src: AudioSource,
    opts: TranscodeOpts,
    formats: Option<Seq<i32>>,
    global_header: bool,
) -> Result<AudioEncoderParams, ErrorView> {
    let rate = rate_candidate(opts.sample_rate, src.sample_rate);
    match channel_choice(opts.channels, src.channels) {
        Err(e) => Err(e),
        Ok(channels) => Ok(
            AudioEncoderParams {
                target: AudioTarget {
                    sample_rate: rate,
                    format: format_choice(formats, src.format),
                    channels,
                },
                time_base: Rational { num: 1, den: rate },
                bit_rate: opts.audio_bitrate,
                global_header,
            },
        ),
    }
}

/// Set up the audio encoder of a re-encode: the requested rate or the
/// source's, a tick per sample. A source with more than two channels needs
/// an explicit choice.
pub fn plan_audio(
    src: AudioSource,
    opts: &TranscodeOpts,
    formats: &Option<Vec<i32>>,
    global_header: bool,
) -> (r: Result<AudioEncoderParams, NativeError>)
    ensures
        outcome(r) == audio_params(src, *opts, listed(*formats), global_header),
{
    let wanted: i32 = match opts.sample_rate {
        Some(n) => n,
        None => src.sample_rate,
    };
    let rate: i32 = if wanted < 1 {
        1
    } else {
        wanted
    };
    let channels: i32 = match resolve_channels(opts.channels, src.channels) {
        Ok(n) => n,
        Err(e) => {
            return Err(e);
        },
    };
    Ok(
        AudioEncoderParams {
            target: AudioTarget {
                sample_rate: rate,
                format: pick_format(formats, src.format),
                channels,
            },
            time_base: Rational { num: 1, den: rate },
            bit_rate: opts.audio_bitrate,
            global_header,
        },
    )
}

/// The container start time that every stream is moved from; none when
/// there is nothing to move.
pub open spec fn start_shift(start_time: i64) -> Option<i64> {
    if start_time == AV_NOPTS_VALUE || start_time == 0 {
        None
    } else {
        Some(start_time)
    }
}

/// The container start time to subtract, in `AV_TIME_BASE` ticks. None
/// when the source starts at zero or does not say; a negative start time
/// counts too.
pub fn start_offset(start_time: i64) -> (r: Option<i64>)
    ensures
        r == start_shift(start_time),
{
    if start_time == AV_NOPTS_VALUE || start_time == 0 {
        None
    } else {
        Some(start_time)
    }
}

/// A time stamp counted from the output's origin; none when it is not
/// known or the difference does not fit.
pub open spec fn from_origin(ts: Option<i64>, origin: i64) -> Option<i64> {
    match ts {
        Some(t) => if AV_NOPTS_VALUE < t - origin <= i64::MAX {
            Some((t - origin) as i64)
        } else {
            None
        },
        None => None,
    }
}

/// A time stamp counted from the output's origin.
pub fn since_origin(ts: Option<i64>, origin: i64) -> (r: Option<i64>)
    ensures
        r == from_origin(ts, origin),
{
    match ts {
        Some(t) => {
            let d: i128 = t as i128 - origin as i128;
            if (AV_NOPTS_VALUE as i128) < d && d <= i64::MAX as i128 {
                Some(d as i64)
            } else {
                None
            }
        },
        None => None,
    }
}

/// A codec choice keeps the packets exactly when there is none or it says
/// `copy`; only a video or audio stream whose own choice names an encoder
/// is re-encoded.
pub proof fn law_what_is_reencoded(codec_type: i32, opts: TranscodeOpts)
    ensures
        codec_type == 0 ==> (reencodes(codec_type, opts) <==> opts.video_codec is Some
            && opts.video_codec->0@ != "copy"@),
        codec_type == 1 ==> (reencodes(codec_type, opts) <==> opts.audio_codec is Some
            && opts.audio_codec->0@ != "copy"@),
        codec_type != 0 && codec_type != 1 ==> !reencodes(codec_type, opts),
        keeps_packets(None),
        forall|name: Seq<char>| #[trigger] keeps_packets(Some(name)) <==> name == "copy"@,
{
}

/// A stream is dropped exactly when its kind is left out; a kept stream is
/// re-encoded by the pipeline of its kind exactly when its codec choice
/// says so, and copied otherwise.
pub proof fn law_roles(kinds: Seq<i32>, drops: Drops, opts: TranscodeOpts, i: int)
    requires
        0 <= i < kinds.len(),
    ensures
        ({
            let role = roles_of(kinds, drops, opts)[i];
            let kept = !dropped(kinds[i], drops);
            &&& roles_of(kinds, drops, opts).len() == kinds.len()
            &&& role is Drop <==> !kept
            &&& role is Video <==> kept && kinds[i] == 0 && reencodes(kinds[i], opts)
            &&& role is Audio <==> kept && kinds[i] == 1 && reencodes(kinds[i], opts)
            &&& role is Copy <==> kept && !reencodes(kinds[i], opts)
        }),
{
}

/// The count of a role adds up over parts, and one stream counts once.
pub proof fn law_role_counts_add_up(a: Seq<StreamRole>, b: Seq<StreamRole>, role: StreamRole)
    ensures
        role_count(a + b, role) == role_count(a, role) + role_count(b, role),
        role_count(seq![role], role) == 1,
        forall|other: StreamRole|
            other != role ==> #[trigger] role_count(seq![other], role) == 0,
        role_count(seq![], role) == 0,
    decreases b.len(),
{
    reveal_with_fuel(role_count, 2);
    assert(seq![role].drop_last() =~= Seq::<StreamRole>::empty());
    assert forall|other: StreamRole| other != role implies #[trigger] role_count(
        seq![other],
        role,
    ) == 0 by {
        assert(seq![other].drop_last() =~= Seq::<StreamRole>::empty());
    }
    if b.len() == 0 {
        assert(a + b =~= a);
    } else {
        law_role_counts_add_up(a, b.drop_last(), role);
        assert((a + b).drop_last() =~= a + b.drop_last());
        assert((a + b).last() == b.last());
    }
}

/// A re-encode that drops everything is a bad request. An encoder is looked
/// for under the name that was chosen; one with a NUL is a bad request, one
/// that is not there is unsupported and named, and any other is taken.
pub proof fn law_encoder_names(name: Seq<char>, fallback: Seq<char>, found: bool)
    ensures
        nothing_left_error().kind == "invalid_request"@,
        encoder_name(Some(name), fallback) == name,
        encoder_name(None, fallback) == fallback,
        name.contains('\0') ==> encoder_lookup(name, found) is Err && encoder_lookup(
            name,
            found,
        )->Err_0.kind == "invalid_request"@,
        !name.contains('\0') && !found ==> encoder_lookup(name, found) is Err && encoder_lookup(
            name,
            found,
        )->Err_0.kind == "unsupported"@ && encoder_lookup(
            name,
            found,
        )->Err_0.details.contains_pair("name"@, name),
        !name.contains('\0') && found ==> encoder_lookup(name, found) is Ok,
{
}

/// The chain of a re-encode scales to the size that was asked for, runs at
/// the chosen frame rate and ends in a pixel format that the encoder takes;
/// a chain of the caller's own is kept whole in front of that format.
pub proof fn law_video_chain_is_as_planned(
    src: VideoSource,
    opts: TranscodeOpts,
    supported: Option<Seq<i32>>,
)
    ensures
        opts.video_filter is None ==> {
            let s = plan_spec(src, opts, supported);
            let scale = before(s, ',');
            let rate = before(behind(s, ','), ',');
            let pin = behind(behind(s, ','), ',');
            let size = target_size(src.width, src.height, opts.width, opts.height);
            let fps = fps_choice(opts.fps, src.decoder_rate, src.container_rate);
            &&& number(before(behind(scale, '='), ':')) == size.0
            &&& number(behind(behind(scale, '='), ':')) == size.1
            &&& fps.0 > 0 && fps.1 > 0 ==> number(before(behind(rate, '='), '/')) == fps.0 && number(
                behind(behind(rate, '='), '/'),
            ) == fps.1
            &&& number(behind(pin, '=')) == format_choice(supported, src.format)
        },
        opts.video_filter matches Some(chain) ==> {
            let s = plan_spec(src, opts, supported);
            &&& s.take(chain@.len() as int) == chain@
            &&& number(behind(s.skip(chain@.len() as int + 1), '=')) == format_choice(
                supported,
                src.format,
            )
        },
{
    let size = target_size(src.width, src.height, opts.width, opts.height);
    let fps = fps_choice(opts.fps, src.decoder_rate, src.container_rate);
    let format = plan_format(supported, src);
    lemma_size_fits(src.width, src.height, opts.width, opts.height);
    law_filter_chain_reads_back(size.0 as i32, size.1 as i32, fps, format);
    if let Some(chain) = opts.video_filter {
        law_own_chain_is_kept(chain@, size.0 as i32, size.1 as i32, fps, format);
    }
}

/// The encoder runs at the graph's frame rate, and at the planned one where
/// the graph has none.
pub proof fn law_encoder_rate(sink: Rational, fps: (i32, i32))
    ensures
        sink.num != 0 && sink.den != 0 ==> sink_rate(sink, fps) == sink,
        sink.num == 0 || sink.den == 0 ==> sink_rate(sink, fps).num == fps.0 && sink_rate(
            sink,
            fps,
        ).den == fps.1,
{
}

/// A failure of the filter graph is the caller's fault exactly when the
/// chain cannot be parsed or does not fit together; then it carries the
/// chain and the reason.
pub proof fn law_graph_failures(f: GraphFailure)
    ensures
        graph_failure(f).kind == "invalid_request"@ <==> f is SpecNotParsed || f is GraphNotValid,
        graph_failure(f).kind == "invalid_request"@ || graph_failure(f).kind == "runtime_error"@,
        f matches GraphFailure::SpecNotParsed { spec, reason } ==> graph_failure(
            f,
        ).details.contains_pair("spec"@, spec@) && graph_failure(f).details.contains_pair(
            "reason"@,
            reason@,
        ),
        f matches GraphFailure::GraphNotValid { spec, reason } ==> graph_failure(
            f,
        ).details.contains_pair("spec"@, spec@) && graph_failure(f).details.contains_pair(
            "reason"@,
            reason@,
        ),
{
    reveal_strlit("invalid_request");
    reveal_strlit("runtime_error");
    reveal_strlit("spec");
    reveal_strlit("reason");
    assert("invalid_request"@.len() == 15 && "runtime_error"@.len() == 13);
    assert("spec"@.len() == 4 && "reason"@.len() == 6);
}

/// The audio encoder runs at the requested rate, or the source's, one tick
/// per sample, with the chosen channels, a format that it takes, and the
/// requested bit rate. It is refused exactly when the channels are.
pub proof fn law_audio_is_as_planned(
    src: AudioSource,
    opts: TranscodeOpts,
    formats: Option<Seq<i32>>,
    global_header: bool,
)
    ensures
        ({
            let r = audio_params(src, opts, formats, global_header);
            &&& r is Err <==> channel_choice(opts.channels, src.channels) is Err
            &&& r matches Err(e) ==> channel_choice(opts.channels, src.channels) == Err::<
                i32,
                ErrorView,
            >(e)
            &&& r matches Ok(p) ==> {
                &&& opts.sample_rate matches Some(n) ==> (n >= 1 ==> p.target.sample_rate == n)
                &&& opts.sample_rate is None && src.sample_rate >= 1 ==> p.target.sample_rate
                    == src.sample_rate
                &&& p.target.sample_rate >= 1
                &&& p.time_base.num * p.target.sample_rate == p.time_base.den
                &&& p.time_base.num == 1
                &&& opts.channels matches Some(n) ==> p.target.channels == n
                &&& opts.channels is None ==> p.target.channels == src.channels
                &&& formats is None ==> p.target.format == src.format
                &&& formats matches Some(list) ==> (list.len() > 0 ==> list.contains(
                    p.target.format,
                ))
                &&& formats matches Some(list) ==> (list.contains(src.format) ==> p.target.format
                    == src.format)
                &&& p.bit_rate == opts.audio_bitrate
                &&& p.global_header == global_header
            }
        }),
{
    if let Some(list) = formats {
        if list.len() > 0 {
            assert(list.contains(list[0]));
        }
    }
}

/// Every stream is moved from the container's start time, positive or
/// negative; where it is zero or not known nothing moves.
pub proof fn law_start_is_taken_off(start_time: i64)
    ensures
        start_time != 0 && start_time != i64::MIN ==> start_shift(start_time) == Some(start_time),
        start_time == 0 || start_time == i64::MIN ==> start_shift(start_time) is None,
{
}

/// A time counted from the origin, and the origin, add up to the time; it
/// is left out only where it is not known or too far away.
pub proof fn law_origin_is_taken_off(t: i64, origin: i64)
    ensures
        from_origin(None, origin) is None,
        from_origin(Some(t), origin) matches Some(d) ==> d + origin == t && d != i64::MIN,
        i64::MIN < t - origin <= i64::MAX ==> from_origin(Some(t), origin) is Some,
{
}

/// The counts of a plan are how many of its streams are copied, and how
/// many are re-encoded as video or as audio; with the dropped ones they are
/// all streams.
pub proof fn law_plan_counts_its_streams(p: StreamPlan)
    requires
        p.counts_roles(),
    ensures
        p.copied == role_count(p.roles@, StreamRole::Copy),
        p.reencoded == role_count(p.roles@, StreamRole::Video) + role_count(
            p.roles@,
            StreamRole::Audio,
        ),
        p.copied + p.reencoded + role_count(p.roles@, StreamRole::Drop) == p.roles@.len(),
{
    lemma_counts_cover(p.roles@);
}

proof fn lemma_counts_cover(roles: Seq<StreamRole>)
    ensures
        role_count(roles, StreamRole::Copy) + role_count(roles, StreamRole::Video) + role_count(
            roles,
            StreamRole::Audio,
        ) + role_count(roles, StreamRole::Drop) == roles.len(),
    decreases roles.len(),
{
    if roles.len() > 0 {
        lemma_counts_cover(roles.drop_last());
    }
}

} // verus!
