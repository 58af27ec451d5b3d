//! The report on a container and its streams.

use crate::media::{
    Position, Rational, AVMEDIA_TYPE_ATTACHMENT, AVMEDIA_TYPE_AUDIO, AVMEDIA_TYPE_DATA,
    AVMEDIA_TYPE_SUBTITLE, AVMEDIA_TYPE_VIDEO, AV_NOPTS_VALUE, AV_TIME_BASE,
};
use crate::path::text_view;
use vstd::prelude::*;

verus! {

/// What the demuxer says of a container.
#[derive(Debug)]
pub struct FormatFacts {
    pub name: String,
    /// None when it is not readable text.
    pub long_name: Option<String>,
    pub duration: i64,
    pub start_time: i64,
    pub bit_rate: i64,
    pub nb_streams: u32,
    pub tags: Vec<(String, String)>,
}

/// What the demuxer says of a stream.
#[derive(Debug)]
pub struct StreamFacts {
    pub index: i32,
    pub codec_type: i32,
    /// The decoder for the stream's codec: its name, and its long name if
    /// that is readable text.
    pub decoder: Option<(String, Option<String>)>,
    pub bit_rate: i64,
    pub time_base: Rational,
    pub duration: i64,
    pub nb_frames: i64,
    pub sample_rate: i32,
    pub channels: i32,
    pub sample_format: Option<String>,
    pub width: i32,
    pub height: i32,
    pub pixel_format: Option<String>,
    pub avg_frame_rate: Rational,
}

/// The report on a container.
#[derive(Debug)]
pub struct ProbeFormat {
    pub name: String,
    pub long_name: Option<String>,
    pub duration: Option<Position>,
    /// Bits per second; zero when not known.
    pub bit_rate: i64,
    pub start_time: Option<Position>,
    pub nb_streams: u32,
    pub tags: Vec<(String, String)>,
}

/// The part of a report that only audio streams have.
#[derive(Debug)]
pub struct AudioInfo {
    pub sample_rate: i32,
    pub channels: i32,
    pub sample_format: Option<String>,
}

/// The part of a report that only video streams have.
#[derive(Debug)]
pub struct VideoInfo {
    pub width: i32,
    pub height: i32,
    pub pixel_format: Option<String>,
    /// `(0, 1)` when not known.
    pub frame_rate: (i32, i32),
}

/// The report on a stream.
#[derive(Debug)]
pub struct ProbeStream {
    pub index: u32,
    pub kind: &'static str,
    pub codec: String,
    pub codec_long_name: Option<String>,
    /// Bits per second; zero when not known.
    pub bit_rate: i64,
    pub time_base: (i32, i32),
    pub duration: Option<Position>,
    pub nb_frames: Option<i64>,
    pub audio: Option<AudioInfo>,
    pub video: Option<VideoInfo>,
}

/// The report on an input.
#[derive(Debug)]
pub struct ProbeReport {
    pub format: ProbeFormat,
    pub streams: Vec<ProbeStream>,
}

/// The name of a kind of stream.
pub open spec fn kind_view(codec_type: i32) -> Seq<char> {
    if codec_type == AVMEDIA_TYPE_VIDEO {
        "video"@
    } else if codec_type == AVMEDIA_TYPE_AUDIO {
        "audio"@
    } else if codec_type == AVMEDIA_TYPE_SUBTITLE {
        "subtitle"@
    } else if codec_type == AVMEDIA_TYPE_DATA {
        "data"@
    } else if codec_type == AVMEDIA_TYPE_ATTACHMENT {
        "attachment"@
    } else {
        "unknown"@
    }
}

/// The name of a kind of stream.
pub fn kind_name(codec_type: i32) -> (r: &'static str)
    ensures
        r@ == kind_view(codec_type),
{
    if codec_type == AVMEDIA_TYPE_VIDEO {
        "video"
    } else if codec_type == AVMEDIA_TYPE_AUDIO {
        "audio"
    } else if codec_type == AVMEDIA_TYPE_SUBTITLE {
        "subtitle"
    } else if codec_type == AVMEDIA_TYPE_DATA {
        "data"
    } else if codec_type == AVMEDIA_TYPE_ATTACHMENT {
        "attachment"
    } else {
        "unknown"
    }
}

/// A time in ticks as seconds; none when the time is not known or the time
/// base has no denominator.
pub open spec fn seconds(ticks: i64, time_base: Rational) -> Option<Position> {
    if ticks == AV_NOPTS_VALUE || time_base.den == 0 {
        None
    } else {
        Some(Position { ticks, num: time_base.num, den: time_base.den })
    }
}

/// A time in ticks as seconds.
pub fn ticks_to_seconds(ticks: i64, time_base: Rational) -> (r: Option<Position>)
    ensures
        r == seconds(ticks, time_base),
{
    if ticks == AV_NOPTS_VALUE || time_base.den == 0 {
        None
    } else {
        Some(Position { ticks, num: time_base.num, den: time_base.den })
    }
}

/// A text that says something.
pub open spec fn not_empty(t: Option<Seq<char>>) -> Option<Seq<char>> {
    match t {
        Some(s) => if s.len() == 0 {
            None
        } else {
            Some(s)
        },
        None => None,
    }
}

fn copy_text(t: &Option<String>) -> (r: Option<String>)
    ensures
        text_view(r) == text_view(*t),
{
    match t {
        Some(s) => Some(s.clone()),
        None => None,
    }
}

fn copy_not_empty(t: &Option<String>) -> (r: Option<String>)
    ensures
        text_view(r) == not_empty(text_view(*t)),
{
    match t {
        Some(s) => {
            if s.as_str().unicode_len() == 0 {
                None
            } else {
                Some(s.clone())
            }
        },
        None => None,
    }
}

/// The codec's name and long name, as the decoder has them.
pub open spec fn codec_names(decoder: Option<(String, Option<String>)>) -> (
    Seq<char>,
    Option<Seq<char>>,
) {
    match decoder {
        Some(d) => (d.0@, not_empty(text_view(d.1))),
        None => ("unknown"@, None),
    }
}

/// The codec's name and long name: those of its decoder, `unknown` when
/// there is none. An empty long name counts as none.
pub fn resolve_codec(decoder: &Option<(String, Option<String>)>) -> (r: (String, Option<String>))
    ensures
        (r.0@, text_view(r.1)) == codec_names(*decoder),
{
    match decoder {
        Some(d) => (d.0.clone(), copy_not_empty(&d.1)),
        None => ("unknown".to_owned(), None),
    }
}

/// The report says of the audio what the demuxer says.
pub open spec fn describes_audio(a: AudioInfo, f: StreamFacts) -> bool {
    &&& a.sample_rate == f.sample_rate
    &&& a.channels == f.channels
    &&& text_view(a.sample_format) == text_view(f.sample_format)
}

/// The frame rate of a report.
pub open spec fn reported_rate(r: Rational) -> (i32, i32) {
    if r.den == 0 {
        (0, 1)
    } else {
        (r.num, r.den)
    }
}

/// The report says of the video what the demuxer says.
pub open spec fn describes_video(v: VideoInfo, f: StreamFacts) -> bool {
    &&& v.width == f.width
    &&& v.height == f.height
    &&& text_view(v.pixel_format) == text_view(f.pixel_format)
    &&& v.frame_rate == reported_rate(f.avg_frame_rate)
}

/// The report on a stream says exactly what the demuxer says.
pub open spec fn describes(s: ProbeStream, f: StreamFacts) -> bool {
    &&& s.index == f.index as u32
    &&& s.kind@ == kind_view(f.codec_type)
    &&& (s.codec@, text_view(s.codec_long_name)) == codec_names(f.decoder)
    &&& s.bit_rate == f.bit_rate
    &&& s.time_base == (f.time_base.num, f.time_base.den)
    &&& s.duration == seconds(f.duration, f.time_base)
    &&& s.nb_frames == (if f.nb_frames > 0 {
        Some(f.nb_frames)
    } else {
        None
    })
    &&& s.audio is Some <==> f.codec_type == AVMEDIA_TYPE_AUDIO
    &&& s.audio is Some ==> describes_audio(s.audio->0, f)
    &&& s.video is Some <==> f.codec_type == AVMEDIA_TYPE_VIDEO
    &&& s.video is Some ==> describes_video(s.video->0, f)
}

/// The report on one stream.
pub fn collect_stream(f: &StreamFacts) -> (s: ProbeStream)
    ensures
        describes(s, *f),
{
    let (codec, codec_long_name) = resolve_codec(&f.decoder);
    let nb_frames: Option<i64> = if f.nb_frames > 0 {
        Some(f.nb_frames)
    } else {
        None
    };
    let audio = if f.codec_type == AVMEDIA_TYPE_AUDIO {
        Some(
            AudioInfo {
                sample_rate: f.sample_rate,
                channels: f.channels,
                sample_format: copy_text(&f.sample_format),
            },
        )
    } else {
        None
    };
    let video = if f.codec_type == AVMEDIA_TYPE_VIDEO {
        let frame_rate: (i32, i32) = if f.avg_frame_rate.den == 0 {
            (0, 1)
        } else {
            (f.avg_frame_rate.num, f.avg_frame_rate.den)
        };
        Some(
            VideoInfo {
                width: f.width,
                height: f.height,
                pixel_format: copy_text(&f.pixel_format),
                frame_rate,
            },
        )
    } else {
        None
    };
    ProbeStream {
        index: #[verifier::truncate]
        (f.index as u32),
        kind: kind_name(f.codec_type),
        codec,
        codec_long_name,
        bit_rate: f.bit_rate,
        time_base: (f.time_base.num, f.time_base.den),
        duration: ticks_to_seconds(f.duration, f.time_base),
        nb_frames,
        audio,
        video,
    }
}

/// The report on all streams, in their order.
pub fn collect_streams(facts: &Vec<StreamFacts>) -> (r: Vec<ProbeStream>)
    ensures
        r@.len() == facts@.len(),
        forall|i: int| 0 <= i < r@.len() ==> describes(#[trigger] r@[i], facts@[i]),
{
    let mut r: Vec<ProbeStream> = Vec::new();
    for i in 0..facts.len()
        invariant
            r@.len() == i,
            forall|j: int| 0 <= j < i ==> describes(#[trigger] r@[j], facts@[j]),
    {
        r.push(collect_stream(&facts[i]));
    }
    r
}

/// The report on a container. A container time that is not known is left
/// out.
pub fn collect_format(f: FormatFacts) -> (r: ProbeFormat)
    ensures
        r.name == f.name,
        text_view(r.long_name) == not_empty(text_view(f.long_name)),
        r.duration == seconds(f.duration, Rational { num: 1, den: AV_TIME_BASE }),
        r.start_time == seconds(f.start_time, Rational { num: 1, den: AV_TIME_BASE }),
        r.bit_rate == f.bit_rate,
        r.nb_streams == f.nb_streams,
        r.tags == f.tags,
{
    let time_base = Rational { num: 1, den: AV_TIME_BASE };
    ProbeFormat {
        name: f.name,
        long_name: copy_not_empty(&f.long_name),
        duration: ticks_to_seconds(f.duration, time_base),
        start_time: ticks_to_seconds(f.start_time, time_base),
        bit_rate: f.bit_rate,
        nb_streams: f.nb_streams,
        tags: f.tags,
    }
}

/// The report on an input.
pub fn probe(format: FormatFacts, streams: &Vec<StreamFacts>) -> (r: ProbeReport)
    ensures
        r.format.name == format.name,
        text_view(r.format.long_name) == not_empty(text_view(format.long_name)),
        r.format.duration == seconds(format.duration, Rational { num: 1, den: AV_TIME_BASE }),
        r.format.start_time == seconds(format.start_time, Rational { num: 1, den: AV_TIME_BASE }),
        r.format.bit_rate == format.bit_rate,
        r.format.nb_streams == format.nb_streams,
        r.format.tags == format.tags,
        r.streams@.len() == streams@.len(),
        forall|i: int| 0 <= i < r.streams@.len() ==> describes(#[trigger] r.streams@[i], streams@[i]),
{
    let streams = collect_streams(streams);
    ProbeReport { format: collect_format(format), streams }
}

/// A stream has an audio part exactly when its kind is `audio` and a video
/// part exactly when its kind is `video`, and never both.
pub proof fn law_parts_match_the_kind(s: ProbeStream, f: StreamFacts)
    requires
        describes(s, f),
    ensures
        s.audio is Some <==> s.kind@ == "audio"@,
        s.video is Some <==> s.kind@ == "video"@,
        !(s.audio is Some && s.video is Some),
{
    reveal_strlit("video");
    reveal_strlit("audio");
    reveal_strlit("subtitle");
    reveal_strlit("data");
    reveal_strlit("attachment");
    reveal_strlit("unknown");
    assert("video"@[0] == 'v' && "audio"@[0] == 'a' && "subtitle"@[0] == 's' && "data"@[0] == 'd'
        && "attachment"@[1] == 't' && "audio"@[1] == 'u' && "unknown"@[0] == 'u');
}

/// A duration that is not known is told from one of zero.
pub proof fn law_unknown_is_not_zero(time_base: Rational)
    requires
        time_base.den != 0,
    ensures
        seconds(AV_NOPTS_VALUE, time_base) is None,
        seconds(0, time_base) is Some,
{
}

/// The frame rate that is reported is the demuxer's ratio, and a rate that
/// is not known is reported as zero over one.
pub proof fn law_reported_rate_is_the_demuxers(s: ProbeStream, f: StreamFacts)
    requires
        describes(s, f),
        f.codec_type == 0,
    ensures
        s.video is Some,
        f.avg_frame_rate.den != 0 ==> {
            let rate = s.video->0.frame_rate;
            &&& rate.1 != 0
            &&& rate.0 * f.avg_frame_rate.den == rate.1 * f.avg_frame_rate.num
            &&& rate.1 == f.avg_frame_rate.den
        },
        f.avg_frame_rate.den == 0 ==> s.video->0.frame_rate == (0i32, 1i32),
{
    if f.avg_frame_rate.den != 0 {
        let n: int = f.avg_frame_rate.num as int;
        let d: int = f.avg_frame_rate.den as int;
        assert(n * d == d * n) by (nonlinear_arith);
    }
}

/// Streams at different frame rates are reported with different rates.
pub proof fn law_rates_are_told_apart(r: ProbeStream, s: ProbeStream, f: StreamFacts, g: StreamFacts)
    requires
        describes(r, f),
        describes(s, g),
        f.codec_type == 0,
        g.codec_type == 0,
        f.avg_frame_rate.den != 0,
        g.avg_frame_rate.den != 0,
        r.video->0.frame_rate == s.video->0.frame_rate,
    ensures
        f.avg_frame_rate.num * g.avg_frame_rate.den == g.avg_frame_rate.num
            * f.avg_frame_rate.den,
{
    law_reported_rate_is_the_demuxers(r, f);
    law_reported_rate_is_the_demuxers(s, g);
    let rate = r.video->0.frame_rate;
    assert(rate.0 == f.avg_frame_rate.num) by (nonlinear_arith)
        requires
            rate.0 * f.avg_frame_rate.den == rate.1 * f.avg_frame_rate.num,
            rate.1 == f.avg_frame_rate.den,
            rate.1 != 0,
    ;
    assert(rate.0 == g.avg_frame_rate.num) by (nonlinear_arith)
        requires
            rate.0 * g.avg_frame_rate.den == rate.1 * g.avg_frame_rate.num,
            rate.1 == g.avg_frame_rate.den,
            rate.1 != 0,
    ;
}

/// Each kind of stream has its own name: streams have the same name exactly
/// when they are of the same kind, or of no kind that has one.
pub proof fn law_kinds_have_their_names(codec_type: i32)
    ensures
        kind_view(codec_type) == "video"@ <==> codec_type == 0,
        kind_view(codec_type) == "audio"@ <==> codec_type == 1,
        kind_view(codec_type) == "data"@ <==> codec_type == 2,
        kind_view(codec_type) == "subtitle"@ <==> codec_type == 3,
        kind_view(codec_type) == "attachment"@ <==> codec_type == 4,
        kind_view(codec_type) == "unknown"@ <==> codec_type < 0 || codec_type > 4,
{
    reveal_strlit("video");
    reveal_strlit("audio");
    reveal_strlit("subtitle");
    reveal_strlit("data");
    reveal_strlit("attachment");
    reveal_strlit("unknown");
    assert("video"@[0] == 'v' && "audio"@[0] == 'a' && "subtitle"@[0] == 's' && "data"@[0] == 'd'
        && "attachment"@[0] == 'a' && "attachment"@[1] == 't' && "audio"@[1] == 'u'
        && "unknown"@[0] == 'u');
}

/// A time that is reported is the demuxer's, in seconds: cross-multiplied
/// with the time base it is the same. It is left out exactly when it is not
/// known or the time base has no denominator.
pub proof fn law_seconds_are_the_ticks(ticks: i64, time_base: Rational)
    ensures
        seconds(ticks, time_base) is None <==> ticks == i64::MIN || time_base.den == 0,
        seconds(ticks, time_base) matches Some(p) ==> {
            &&& p.den != 0
            &&& (p.ticks * p.num) * time_base.den == (ticks * time_base.num) * p.den
        },
{
}

/// A container time that is reported counts microseconds.
pub proof fn law_container_times_are_microseconds(ticks: i64)
    ensures
        seconds(ticks, Rational { num: 1, den: AV_TIME_BASE }) is None <==> ticks == i64::MIN,
        seconds(ticks, Rational { num: 1, den: AV_TIME_BASE }) matches Some(p) ==> {
            &&& p.den > 0
            &&& (p.ticks * p.num) * 1_000_000 == ticks * p.den
        },
{
}

/// A report gives back every fact that it is made from: the stream's
/// number, bit rate, time base and length, a frame count that is positive,
/// and for audio and video the facts of their kind.
pub proof fn law_report_keeps_the_facts(s: ProbeStream, f: StreamFacts)
    requires
        describes(s, f),
    ensures
        f.index >= 0 ==> s.index == f.index,
        s.bit_rate == f.bit_rate,
        s.time_base.0 == f.time_base.num,
        s.time_base.1 == f.time_base.den,
        s.duration is Some <==> f.duration != i64::MIN && f.time_base.den != 0,
        s.duration is Some ==> (s.duration->0.ticks * s.duration->0.num) * f.time_base.den == (
        f.duration * f.time_base.num) * s.duration->0.den && s.duration->0.den != 0,
        f.nb_frames > 0 ==> s.nb_frames == Some(f.nb_frames),
        f.nb_frames <= 0 ==> s.nb_frames is None,
        s.audio is Some <==> f.codec_type == 1,
        s.video is Some <==> f.codec_type == 0,
        f.codec_type == 1 ==> s.audio->0.sample_rate == f.sample_rate && s.audio->0.channels
            == f.channels && text_view(s.audio->0.sample_format) == text_view(f.sample_format),
        f.codec_type == 0 ==> s.video->0.width == f.width && s.video->0.height == f.height
            && text_view(s.video->0.pixel_format) == text_view(f.pixel_format),
{
    law_seconds_are_the_ticks(f.duration, f.time_base);
}

/// The codec is named as its decoder is, and `unknown` without one; a long
/// name is given exactly when the decoder has one that is not empty.
pub proof fn law_codec_names(s: ProbeStream, f: StreamFacts)
    requires
        describes(s, f),
    ensures
        f.decoder is None ==> s.codec@ == "unknown"@ && s.codec_long_name is None,
        f.decoder matches Some(d) ==> {
            &&& s.codec@ == d.0@
            &&& s.codec_long_name is Some <==> d.1 is Some && d.1->0@.len() > 0
            &&& s.codec_long_name is Some ==> s.codec_long_name->0@ == d.1->0@
        },
{
}

} // verus!
