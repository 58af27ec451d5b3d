//! Choices for audio re-encoding: channels, sample rate, sample format,
//! buffer sizes and whether decoded samples can be passed on unchanged.

use crate::errors::{error, outcome, ErrorView, NativeError};
use crate::text::{int_text, law_signed_decimal_reads_back, number, signed_decimal};
use vstd::prelude::*;

verus! {

/// The channel count that an audio re-encode produces.
pub open spec fn channel_choice(requested: Option<i32>, src: i32) -> Result<i32, ErrorView> {
    match requested {
        Some(value) => if 1 <= value <= 2 {
            Ok(value)
        } else {
            Err(
                error("invalid_request"@, "channels must be 1 (mono) or 2 (stereo)"@).with(
                    "channels"@,
                    signed_decimal(value as int),
                ),
            )
        },
        None => if 1 <= src <= 2 {
            Ok(src)
        } else {
            Err(
                error(
                    "invalid_request"@,
                    "source has more than 2 channels; pass `:channels` (1 or 2) to choose mono or stereo"@,
                ).with("source_channels"@, signed_decimal(src as int)),
            )
        },
    }
}

/// Resolve the target channel count for an audio re-encode.
///
/// Without a request only mono and stereo sources are carried through. A
/// source with more channels would otherwise be downmixed silently, so the
/// caller has to choose mono or stereo.
pub fn resolve_channels(requested: Option<i32>, src: i32) -> (r: Result<i32, NativeError>)
    ensures
        outcome(r) == channel_choice(requested, src),
{
    let target: i32 = match requested {
        Some(value) => value,
        None => {
            if 1 <= src && src <= 2 {
                src
            } else {
                return Err(
                    NativeError::new(
                        "invalid_request",
                        "source has more than 2 channels; pass `:channels` (1 or 2) to choose mono or stereo",
                    ).with_detail("source_channels", int_text(src as i64)),
                );
            }
        },
    };
    if target < 1 || target > 2 {
        return Err(
            NativeError::new(
                "invalid_request",
                "channels must be 1 (mono) or 2 (stereo)",
            ).with_detail("channels", int_text(target as i64)),
        );
    }
    Ok(target)
}

/// A format out of the ones an encoder lists: the source's own where it is
/// listed, else the first; with no list or an empty one, the source's own.
pub open spec fn format_choice(supported: Option<Seq<i32>>, src: i32) -> i32 {
    match supported {
        Some(fmts) => if fmts.contains(src) || fmts.len() == 0 {
            src
        } else {
            fmts[0]
        },
        None => src,
    }
}

/// The view of an optional list.
pub open spec fn listed(supported: Option<Vec<i32>>) -> Option<Seq<i32>> {
    match supported {
        Some(v) => Some(v@),
        None => None,
    }
}

/// Whether a list holds a value.
pub fn list_contains(list: &Vec<i32>, value: i32) -> (r: bool)
    ensures
        r == list@.contains(value),
{
    for i in 0..list.len()
        invariant
            forall|j: int| 0 <= j < i ==> list@[j] != value,
    {
        if list[i] == value {
            assert(list@[i as int] == value);
            return true;
        }
    }
    false
}

/// Pick a format that the encoder accepts, for sample and pixel formats
/// alike.
pub fn pick_format(supported: &Option<Vec<i32>>, src: i32) -> (r: i32)
    ensures
        r == format_choice(listed(*supported), src),
{
    if let Some(fmts) = supported {
        if list_contains(fmts, src) {
            return src;
        }
        if fmts.len() > 0 {
            return fmts[0];
        }
    }
    src
}

/// The rate that is asked for: the request, else the source's, at least
/// one.
pub open spec fn rate_candidate(requested: Option<i32>, src: i32) -> i32 {
    let rate = match requested {
        Some(r) => r,
        None => src,
    };
    if rate < 1 {
        1
    } else {
        rate
    }
}

pub open spec fn distance(a: int, b: int) -> int {
    if a < b {
        b - a
    } else {
        a - b
    }
}

/// `r` is the first of the rates that are closest to the candidate.
pub open spec fn is_first_closest(rates: Seq<i32>, candidate: i32, r: i32) -> bool {
    exists|k: int|
        {
            &&& 0 <= k < rates.len()
            &&& #[trigger] rates[k] == r
            &&& forall|j: int|
                0 <= j < rates.len() ==> distance(candidate as int, r as int) <= distance(
                    candidate as int,
                    #[trigger] rates[j] as int,
                )
            &&& forall|j: int|
                0 <= j < k ==> distance(candidate as int, r as int) < distance(
                    candidate as int,
                    #[trigger] rates[j] as int,
                )
        }
}

/// Whether the encoder takes the rate as it is.
pub open spec fn rate_accepted(rates: Option<Seq<i32>>, candidate: i32) -> bool {
    match rates {
        Some(list) => list.len() == 0 || list.contains(candidate),
        None => true,
    }
}

fn distance_of(a: i32, b: i32) -> (r: i64)
    ensures
        r == distance(a as int, b as int),
{
    if a < b {
        (b as i64) - (a as i64)
    } else {
        (a as i64) - (b as i64)
    }
}

/// The sample rate to encode at. Where the encoder accepts only a fixed
/// list that lacks the wanted rate, the closest listed rate is taken.
pub fn pick_sample_rate(supported: &Option<Vec<i32>>, requested: Option<i32>, src: i32) -> (r: i32)
    ensures
        rate_accepted(listed(*supported), rate_candidate(requested, src)) ==> r == rate_candidate(
            requested,
            src,
        ),
        !rate_accepted(listed(*supported), rate_candidate(requested, src)) ==> is_first_closest(
            listed(*supported)->0,
            rate_candidate(requested, src),
            r,
        ),
{
    let wanted: i32 = requested.unwrap_or(src);
    let candidate: i32 = if wanted < 1 {
        1
    } else {
        wanted
    };
    if let Some(rates) = supported {
        if rates.len() > 0 && !list_contains(rates, candidate) {
            let mut best: usize = 0;
            for i in 1..rates.len()
                invariant
                    best < i,
                    rates@.len() >= 1,
                    i <= rates@.len(),
                    forall|j: int|
                        0 <= j < i ==> distance(candidate as int, rates@[best as int] as int)
                            <= distance(candidate as int, #[trigger] rates@[j] as int),
                    forall|j: int|
                        0 <= j < best ==> distance(candidate as int, rates@[best as int] as int)
                            < distance(candidate as int, #[trigger] rates@[j] as int),
            {
                if distance_of(candidate, rates[i]) < distance_of(candidate, rates[best]) {
                    best = i;
                }
            }
            assert(is_first_closest(rates@, candidate, rates@[best as int]));
            return rates[best];
        }
    }
    candidate
}

/// Upper limit of a resampled buffer: far past any real audio frame.
pub const MAX_NB_SAMPLES: i64 = 1_048_576;

/// Samples in a buffer that takes what a resampler still holds.
pub const DRAIN_CAPACITY: i32 = 4096;

/// Samples per encoder call where the encoder takes any size.
pub const FREE_CHUNK: i32 = 1024;

pub open spec fn at_least_one(n: i32) -> int {
    if n < 1 {
        1
    } else {
        n as int
    }
}

/// Worst-case sample count after resampling: scaled by the rates, with a
/// margin, and held between one and the upper limit.
pub open spec fn resample_capacity(src_nb_samples: i32, src_rate: i32, dst_rate: i32) -> int {
    if src_nb_samples <= 0 {
        DRAIN_CAPACITY as int
    } else {
        let raw = src_nb_samples * at_least_one(dst_rate) / at_least_one(src_rate) + 256;
        if raw > MAX_NB_SAMPLES {
            MAX_NB_SAMPLES as int
        } else {
            raw
        }
    }
}

/// Worst-case output sample count for a resample step, with a small margin
/// so that the sample buffer never has to grow. A corrupt source rate is
/// treated as one and the result is capped, so the count always fits.
pub fn compute_resample_capacity(src_nb_samples: i32, src_rate: i32, dst_rate: i32) -> (r: i32)
    ensures
        r == resample_capacity(src_nb_samples, src_rate, dst_rate),
        1 <= r <= MAX_NB_SAMPLES,
{
    if src_nb_samples <= 0 {
        return DRAIN_CAPACITY;
    }
    let dst: i64 = if dst_rate < 1 {
        1
    } else {
        dst_rate as i64
    };
    let src: i64 = if src_rate < 1 {
        1
    } else {
        src_rate as i64
    };
    let n: i64 = src_nb_samples as i64;
    assert(0 < n * dst <= 0x7fff_ffff * 0x7fff_ffff) by (nonlinear_arith)
        requires
            0 < n <= 0x7fff_ffff,
            0 < dst <= 0x7fff_ffff,
    ;
    let product: i64 = n * dst;
    assert(0 <= product / src <= product) by (nonlinear_arith)
        requires
            product >= 0,
            src >= 1,
    ;
    let raw: i64 = product / src + 256;
    if raw > MAX_NB_SAMPLES {
        MAX_NB_SAMPLES as i32
    } else {
        raw as i32
    }
}

/// The size, rate, format and channel count of an audio buffer.
#[derive(Debug, Clone, Copy, PartialEq, Eq, Structural)]
pub struct AudioBuffer {
    pub nb_samples: i32,
    pub sample_rate: i32,
    pub format: i32,
    pub channels: i32,
}

/// The target of an audio re-encode.
#[derive(Debug, Clone, Copy, PartialEq, Eq, Structural)]
pub struct AudioTarget {
    pub sample_rate: i32,
    pub format: i32,
    pub channels: i32,
}

/// The buffer that one decoded frame is resampled into.
pub fn alloc_resample_frame(src_nb_samples: i32, src_rate: i32, target: AudioTarget) -> (r:
    AudioBuffer)
    ensures
        r == (AudioBuffer {
            nb_samples: resample_capacity(src_nb_samples, src_rate, target.sample_rate) as i32,
            sample_rate: target.sample_rate,
            format: target.format,
            channels: target.channels,
        }),
        1 <= r.nb_samples <= MAX_NB_SAMPLES,
{
    AudioBuffer {
        nb_samples: compute_resample_capacity(src_nb_samples, src_rate, target.sample_rate),
        sample_rate: target.sample_rate,
        format: target.format,
        channels: target.channels,
    }
}

/// The buffer that the rest of a resampler is drained into.
pub fn empty_resample_frame(target: AudioTarget) -> (r: AudioBuffer)
    ensures
        r == (AudioBuffer {
            nb_samples: DRAIN_CAPACITY,
            sample_rate: target.sample_rate,
            format: target.format,
            channels: target.channels,
        }),
{
    AudioBuffer {
        nb_samples: DRAIN_CAPACITY,
        sample_rate: target.sample_rate,
        format: target.format,
        channels: target.channels,
    }
}

/// Samples per encoder call: the encoder's fixed size, or a default where
/// it takes any size.
pub open spec fn chunk_size(frame_size: i32) -> i32 {
    if frame_size > 0 {
        frame_size
    } else {
        FREE_CHUNK
    }
}

/// Samples per encoder call.
pub fn pick_chunk(frame_size: i32) -> (r: i32)
    ensures
        r == chunk_size(frame_size),
        r > 0,
{
    if frame_size > 0 {
        frame_size
    } else {
        FREE_CHUNK
    }
}

/// What decides whether decoded frames can go to the encoder unchanged.
#[derive(Debug, Clone, Copy, PartialEq, Eq, Structural)]
pub struct PassthroughFacts {
    pub encoder_frame_size: i32,
    pub src_format: i32,
    pub src_rate: i32,
    pub src_channels: i32,
    /// The two channel layouts are semantically the same.
    pub layouts_equal: bool,
    /// The source names no channel order.
    pub src_order_unspecified: bool,
}

/// Decoded frames pass unchanged when the encoder takes any chunk size and
/// format, rate and layout already match. A source without a channel order
/// matches on the count alone.
pub open spec fn passes_through(f: PassthroughFacts, target: AudioTarget) -> bool {
    &&& f.encoder_frame_size == 0
    &&& f.src_format == target.format
    &&& f.src_rate == target.sample_rate
    &&& (f.layouts_equal || f.src_order_unspecified && f.src_channels == target.channels)
}

/// Whether the resampler and the sample buffer can be left out.
pub fn is_passthrough(f: PassthroughFacts, target: AudioTarget) -> (r: bool)
    ensures
        r == passes_through(f, target),
{
    let layout_ok = f.layouts_equal || (f.src_order_unspecified && f.src_channels
        == target.channels);
    f.encoder_frame_size == 0 && f.src_format == target.format && f.src_rate == target.sample_rate
        && layout_ok
}

/// Where the encoder accepts only listed rates, the chosen rate is one of
/// them.
pub proof fn law_chosen_rate_is_listed(rates: Seq<i32>, candidate: i32, r: i32)
    requires
        rates.len() > 0,
        rate_accepted(Some(rates), candidate) ==> r == candidate,
        !rate_accepted(Some(rates), candidate) ==> is_first_closest(rates, candidate, r),
    ensures
        rates.contains(r),
{
}

/// Every successful channel choice is mono or stereo, an explicit valid
/// request is always honoured, and a surround source without a request is
/// never carried through.
pub proof fn law_channels(requested: Option<i32>, src: i32)
    ensures
        channel_choice(requested, src) is Ok ==> 1 <= channel_choice(requested, src)->Ok_0 <= 2,
        (requested is Some && 1 <= requested->0 <= 2) ==> channel_choice(requested, src) == Ok::<
            i32,
            ErrorView,
        >(requested->0),
        (requested is None && src > 2) ==> channel_choice(requested, src) is Err,
{
}

/// Without a request a mono or stereo source keeps its channels and any
/// other is refused; a request for anything but mono or stereo is refused.
/// A refusal is a bad request that names the number.
pub proof fn law_channel_refusals(requested: Option<i32>, src: i32)
    ensures
        requested is None && (src == 1 || src == 2) ==> channel_choice(requested, src) == Ok::<
            i32,
            ErrorView,
        >(src),
        requested is None && src != 1 && src != 2 ==> channel_choice(requested, src) is Err && number(
            channel_choice(requested, src)->Err_0.details["source_channels"@],
        ) == src,
        requested matches Some(n) ==> (n != 1 && n != 2 ==> channel_choice(requested, src) is Err
            && number(channel_choice(requested, src)->Err_0.details["channels"@]) == n),
        channel_choice(requested, src) is Err ==> channel_choice(requested, src)->Err_0.kind
            == "invalid_request"@,
{
    law_signed_decimal_reads_back(src as int);
    if let Some(n) = requested {
        law_signed_decimal_reads_back(n as int);
    }
}

/// The source's format is kept where the encoder lists it, or lists none;
/// otherwise the first listed one is taken.
pub proof fn law_format_choice(fmts: Seq<i32>, src: i32)
    ensures
        format_choice(None, src) == src,
        fmts.len() == 0 ==> format_choice(Some(fmts), src) == src,
        fmts.contains(src) ==> format_choice(Some(fmts), src) == src,
        fmts.len() > 0 && !fmts.contains(src) ==> format_choice(Some(fmts), src) == fmts.first(),
{
}

/// The wanted rate is the request, or the source's without one, and never
/// below one.
pub proof fn law_wanted_rate(requested: Option<i32>, src: i32)
    ensures
        requested matches Some(r) ==> (r >= 1 ==> rate_candidate(requested, src) == r),
        requested is None && src >= 1 ==> rate_candidate(requested, src) == src,
        rate_candidate(requested, src) >= 1,
        requested matches Some(r) ==> (r < 1 ==> rate_candidate(requested, src) == 1),
        requested is None && src < 1 ==> rate_candidate(requested, src) == 1,
{
}

/// A rate is taken as it is exactly when the encoder lists none or lists
/// it. Otherwise the chosen rate is listed, no listed rate is closer to the
/// wanted one, and of two that are equally close it is the one listed
/// first.
pub proof fn law_closest_rate(rates: Seq<i32>, candidate: i32, r: i32, j: int)
    requires
        is_first_closest(rates, candidate, r),
        0 <= j < rates.len(),
    ensures
        rates.contains(r),
        rate_accepted(None, candidate),
        rate_accepted(Some(rates), candidate) <==> rates.contains(candidate),
        rate_accepted(Some(seq![]), candidate),
        r <= candidate && rates[j] <= candidate ==> rates[j] <= r,
        r >= candidate && rates[j] >= candidate ==> rates[j] >= r,
        r <= candidate && rates[j] >= candidate ==> candidate - r <= rates[j] - candidate,
        r >= candidate && rates[j] <= candidate ==> r - candidate <= candidate - rates[j],
        (candidate - r == rates[j] - candidate || rates[j] == r) ==> exists|k: int|
            0 <= k <= j && #[trigger] rates[k] == r,
{
}

/// The buffer for a resampled frame has room for every sample, by the two
/// rates, and 256 more, unless that is past the upper limit; it is never
/// empty and never larger than the limit.
pub proof fn law_resample_buffer_has_room(n: i32, src_rate: i32, dst_rate: i32)
    ensures
        1 <= resample_capacity(n, src_rate, dst_rate) <= 1_048_576,
        n <= 0 ==> resample_capacity(n, src_rate, dst_rate) == 4096,
        n > 0 && src_rate > 0 && dst_rate > 0 && resample_capacity(n, src_rate, dst_rate)
            < 1_048_576 ==> {
            let room = resample_capacity(n, src_rate, dst_rate) - 256;
            room * src_rate <= n * dst_rate < (room + 1) * src_rate
        },
        n > 0 && src_rate > 0 && dst_rate > 0 && resample_capacity(n, src_rate, dst_rate)
            == 1_048_576 ==> n * dst_rate >= (1_048_576 - 256) * src_rate,
        src_rate < 1 ==> resample_capacity(n, src_rate, dst_rate) == resample_capacity(
            n,
            1,
            dst_rate,
        ),
        dst_rate < 1 ==> resample_capacity(n, src_rate, dst_rate) == resample_capacity(
            n,
            src_rate,
            1,
        ),
{
    if n > 0 {
        let s: int = if src_rate < 1 {
            1
        } else {
            src_rate as int
        };
        let d: int = if dst_rate < 1 {
            1
        } else {
            dst_rate as int
        };
        let a: int = n * d;
        assert(a > 0) by (nonlinear_arith)
            requires
                a == n * d,
                n > 0,
                d > 0,
        ;
        let q: int = a / s;
        assert(0 <= q && q * s <= a < (q + 1) * s) by (nonlinear_arith)
            requires
                q == a / s,
                a > 0,
                s > 0,
        ;
        if q + 256 >= 1_048_576 {
            assert((1_048_576 - 256) * s <= q * s) by (nonlinear_arith)
                requires
                    1_048_576 - 256 <= q,
                    s > 0,
            ;
        }
    }
}

/// An encoder with a fixed frame size gets exactly that; one without gets
/// 1024 samples at a time.
pub proof fn law_chunk_size(frame_size: i32)
    ensures
        frame_size > 0 ==> chunk_size(frame_size) == frame_size,
        frame_size <= 0 ==> chunk_size(frame_size) == 1024,
{
}

/// Frames pass unchanged exactly when nothing about them has to change: the
/// encoder has no fixed size, format and rate are the target's, and the
/// layouts are the same, or the source has no order and as many channels.
pub proof fn law_passing_through_changes_nothing(f: PassthroughFacts, target: AudioTarget)
    ensures
        passes_through(f, target) ==> f.src_format == target.format && f.src_rate
            == target.sample_rate && f.encoder_frame_size == 0,
        passes_through(f, target) ==> f.layouts_equal || (f.src_order_unspecified && f.src_channels
            == target.channels),
        f.src_format == target.format && f.src_rate == target.sample_rate && f.encoder_frame_size
            == 0 && f.layouts_equal ==> passes_through(f, target),
        f.src_format == target.format && f.src_rate == target.sample_rate && f.encoder_frame_size
            == 0 && f.src_order_unspecified && f.src_channels == target.channels ==> passes_through(
            f,
            target,
        ),
{
}

/// The view of an optional list is the list that it holds.
pub proof fn law_listed(list: Vec<i32>)
    ensures
        listed(Some(list)) == Some(list@),
        listed(None) is None,
{
}

} // verus!
