//! Whether inputs can be joined without re-encoding.
//!
//! A join writes the first input's codec parameters into the output header
//! and copies the packets of every input behind it. So all inputs need the
//! same number of streams and, stream by stream, the same codec, profile,
//! sample rate, sample format, channel layout, size, pixel format and
//! H.264 or HEVC parameter sets. Only the time base may differ. A
//! parameter that could not be read from one of the two is not compared.

use crate::errors::{error, ErrorView, NativeError};
use crate::media::{AVMEDIA_TYPE_AUDIO, AVMEDIA_TYPE_VIDEO};
use crate::text::{
    decimal, hex_bytes, hex_bytes_text, int_text, law_decimal_reads_back, law_hex_bytes_read_back,
    law_signed_decimal_reads_back, nat_text, number, signed_decimal,
};
use vstd::prelude::*;

verus! {

/// `AV_CODEC_ID_H264`.
pub const AV_CODEC_ID_H264: i32 = 27;

/// `AV_CODEC_ID_HEVC`.
pub const AV_CODEC_ID_HEVC: i32 = 173;

/// `AV_PROFILE_UNKNOWN`.
pub const AV_PROFILE_UNKNOWN: i32 = -99;

/// The codec parameters of one stream.
#[derive(Debug)]
pub struct StreamParams {
    pub codec_id: i32,
    /// The codec's short name, such as `h264`.
    pub codec_name: String,
    pub codec_type: i32,
    pub profile: i32,
    pub sample_rate: i32,
    /// The sample format of an audio stream, the pixel format of a video
    /// stream; negative when unknown.
    pub format: i32,
    /// The format's short name, where it has one.
    pub format_name: Option<String>,
    pub channels: i32,
    /// The channel layout in words.
    pub layout: String,
    pub width: i32,
    pub height: i32,
    /// Out-of-band codec headers.
    pub extradata: Vec<u8>,
}

/// The field in which two streams differ, with both values.
#[derive(Debug)]
pub struct Mismatch {
    pub field: String,
    pub expected: String,
    pub got: String,
}

/// A mismatch as text.
#[verifier::ext_equal]
pub struct MismatchView {
    pub field: Seq<char>,
    pub expected: Seq<char>,
    pub got: Seq<char>,
}

impl View for Mismatch {
    type V = MismatchView;

    open spec fn view(&self) -> MismatchView {
        MismatchView { field: self.field@, expected: self.expected@, got: self.got@ }
    }
}

/// The view of an optional mismatch.
pub open spec fn mismatch_view(m: Option<Mismatch>) -> Option<MismatchView> {
    match m {
        Some(x) => Some(x@),
        None => None,
    }
}

/// The first mismatch of two.
pub open spec fn or_else(a: Option<MismatchView>, b: Option<MismatchView>) -> Option<MismatchView> {
    if a is Some {
        a
    } else {
        b
    }
}

/// Two numbers that differ, both known.
pub open spec fn int_mismatch(
    field: Seq<char>,
    e: i32,
    g: i32,
    known: bool,
) -> Option<MismatchView> {
    if known && e != g {
        Some(
            MismatchView {
                field,
                expected: signed_decimal(e as int),
                got: signed_decimal(g as int),
            },
        )
    } else {
        None
    }
}

/// A format's name, or its number when it has none.
pub open spec fn shown_format(p: StreamParams) -> Seq<char> {
    match p.format_name {
        Some(n) => n@,
        None => signed_decimal(p.format as int),
    }
}

pub open spec fn format_mismatch(
    field: Seq<char>,
    e: StreamParams,
    g: StreamParams,
) -> Option<MismatchView> {
    if e.format >= 0 && g.format >= 0 && e.format != g.format {
        Some(MismatchView { field, expected: shown_format(e), got: shown_format(g) })
    } else {
        None
    }
}

pub open spec fn layout_mismatch(
    e: StreamParams,
    g: StreamParams,
    layouts_equal: bool,
) -> Option<MismatchView> {
    if e.channels > 0 && g.channels > 0 && !layouts_equal {
        Some(
            MismatchView {
                field: "channel_layout"@,
                expected: e.layout@,
                got: g.layout@,
            },
        )
    } else {
        None
    }
}

/// Whether a stream carries avcC or hvcC parameter sets, which start with
/// the version byte one.
pub open spec fn has_parameter_sets(p: StreamParams) -> bool {
    &&& p.codec_id == AV_CODEC_ID_H264 || p.codec_id == AV_CODEC_ID_HEVC
    &&& p.extradata@.len() > 0
    &&& p.extradata@[0] == 1
}

pub open spec fn parameter_set_mismatch(e: StreamParams, g: StreamParams) -> Option<MismatchView> {
    if has_parameter_sets(e) && has_parameter_sets(g) && e.extradata@ != g.extradata@ {
        Some(
            MismatchView {
                field: "parameter_sets"@,
                expected: hex_bytes(e.extradata@),
                got: hex_bytes(g.extradata@),
            },
        )
    } else {
        None
    }
}

/// The first codec parameter in which `g` differs from `e`.
pub open spec fn params_mismatch(
    e: StreamParams,
    g: StreamParams,
    layouts_equal: bool,
) -> Option<MismatchView> {
    if e.codec_id != g.codec_id {
        Some(
            MismatchView {
                field: "codec_id"@,
                expected: e.codec_name@,
                got: g.codec_name@,
            },
        )
    } else {
        or_else(
            int_mismatch(
                "profile"@,
                e.profile,
                g.profile,
                e.profile != AV_PROFILE_UNKNOWN && g.profile != AV_PROFILE_UNKNOWN,
            ),
            if e.codec_type == AVMEDIA_TYPE_AUDIO {
                or_else(
                    int_mismatch(
                        "sample_rate"@,
                        e.sample_rate,
                        g.sample_rate,
                        e.sample_rate > 0 && g.sample_rate > 0,
                    ),
                    or_else(
                        format_mismatch("sample_format"@, e, g),
                        layout_mismatch(e, g, layouts_equal),
                    ),
                )
            } else if e.codec_type == AVMEDIA_TYPE_VIDEO {
                or_else(
                    int_mismatch("width"@, e.width, g.width, e.width > 0 && g.width > 0),
                    or_else(
                        int_mismatch("height"@, e.height, g.height, e.height > 0 && g.height > 0),
                        or_else(
                            format_mismatch("pixel_format"@, e, g),
                            parameter_set_mismatch(e, g),
                        ),
                    ),
                )
            } else {
                None
            },
        )
    }
}

fn check_int(field: &str, e: i32, g: i32, known: bool) -> (r: Option<Mismatch>)
    ensures
        mismatch_view(r) == int_mismatch(field@, e, g, known),
{
    if known && e != g {
        Some(
            Mismatch {
                field: field.to_owned(),
                expected: int_text(e as i64),
                got: int_text(g as i64),
            },
        )
    } else {
        None
    }
}

fn show_format(p: &StreamParams) -> (r: String)
    ensures
        r@ == shown_format(*p),
{
    match &p.format_name {
        Some(n) => n.clone(),
        None => int_text(p.format as i64),
    }
}

fn check_format(field: &str, e: &StreamParams, g: &StreamParams) -> (r: Option<Mismatch>)
    ensures
        mismatch_view(r) == format_mismatch(field@, *e, *g),
{
    if e.format >= 0 && g.format >= 0 && e.format != g.format {
        Some(Mismatch { field: field.to_owned(), expected: show_format(e), got: show_format(g) })
    } else {
        None
    }
}

fn same_bytes(a: &Vec<u8>, b: &Vec<u8>) -> (r: bool)
    ensures
        r == (a@ == b@),
{
    if a.len() != b.len() {
        return false;
    }
    for i in 0..a.len()
        invariant
            a@.len() == b@.len(),
            forall|j: int| 0 <= j < i ==> a@[j] == b@[j],
    {
        if a[i] != b[i] {
            assert(a@[i as int] != b@[i as int]);
            return false;
        }
    }
    assert(a@ =~= b@);
    true
}

fn holds_parameter_sets(p: &StreamParams) -> (r: bool)
    ensures
        r == has_parameter_sets(*p),
{
    (p.codec_id == AV_CODEC_ID_H264 || p.codec_id == AV_CODEC_ID_HEVC) && p.extradata.len() > 0
        && p.extradata[0] == 1
}

/// The first codec parameter in which `got` differs from `expected`.
pub fn codecpar_mismatch(expected: &StreamParams, got: &StreamParams, layouts_equal: bool) -> (r:
    Option<Mismatch>)
    ensures
        mismatch_view(r) == params_mismatch(*expected, *got, layouts_equal),
{
    if expected.codec_id != got.codec_id {
        return Some(
            Mismatch {
                field: "codec_id".to_owned(),
                expected: expected.codec_name.clone(),
                got: got.codec_name.clone(),
            },
        );
    }
    let profile = check_int(
        "profile",
        expected.profile,
        got.profile,
        expected.profile != AV_PROFILE_UNKNOWN && got.profile != AV_PROFILE_UNKNOWN,
    );
    if profile.is_some() {
        return profile;
    }
    if expected.codec_type == AVMEDIA_TYPE_AUDIO {
        let rate = check_int(
            "sample_rate",
            expected.sample_rate,
            got.sample_rate,
            expected.sample_rate > 0 && got.sample_rate > 0,
        );
        if rate.is_some() {
            return rate;
        }
        let format = check_format("sample_format", expected, got);
        if format.is_some() {
            return format;
        }
        if expected.channels > 0 && got.channels > 0 && !layouts_equal {
            return Some(
                Mismatch {
                    field: "channel_layout".to_owned(),
                    expected: expected.layout.clone(),
                    got: got.layout.clone(),
                },
            );
        }
        None
    } else if expected.codec_type == AVMEDIA_TYPE_VIDEO {
        let width = check_int(
            "width",
            expected.width,
            got.width,
            expected.width > 0 && got.width > 0,
        );
        if width.is_some() {
            return width;
        }
        let height = check_int(
            "height",
            expected.height,
            got.height,
            expected.height > 0 && got.height > 0,
        );
        if height.is_some() {
            return height;
        }
        let format = check_format("pixel_format", expected, got);
        if format.is_some() {
            return format;
        }
        if holds_parameter_sets(expected) && holds_parameter_sets(got) && !same_bytes(
            &expected.extradata,
            &got.extradata,
        ) {
            return Some(
                Mismatch {
                    field: "parameter_sets".to_owned(),
                    expected: hex_bytes_text(&expected.extradata),
                    got: hex_bytes_text(&got.extradata),
                },
            );
        }
        None
    } else {
        None
    }
}

/// The answer for inputs with different numbers of streams.
pub open spec fn count_error(path: Seq<char>, expected: nat, got: nat) -> ErrorView {
    error("invalid_request"@, "input stream count does not match the first input"@).with(
        "path"@,
        path,
    ).with("field"@, "stream_count"@).with("expected"@, decimal(expected)).with(
        "got"@,
        decimal(got),
    )
}

/// The answer for a stream that differs.
pub open spec fn stream_error(path: Seq<char>, index: nat, m: MismatchView) -> ErrorView {
    error(
        "invalid_request"@,
        "input stream "@ + m.field + " does not match the first input"@,
    ).with("path"@, path).with("stream"@, decimal(index)).with("field"@, m.field).with(
        "expected"@,
        m.expected,
    ).with("got"@, m.got)
}

/// `i` is the first stream that differs.
pub open spec fn first_mismatch(
    first: Seq<StreamParams>,
    input: Seq<StreamParams>,
    layouts_equal: Seq<bool>,
    i: int,
) -> bool {
    &&& 0 <= i < first.len()
    &&& params_mismatch(first[i], input[i], layouts_equal[i]) is Some
    &&& forall|j: int|
        0 <= j < i ==> params_mismatch(
            #[trigger] first[j],
            input[j],
            layouts_equal[j],
        ) is None
}

/// The inputs can be joined.
pub open spec fn layouts_match(
    first: Seq<StreamParams>,
    input: Seq<StreamParams>,
    layouts_equal: Seq<bool>,
) -> bool {
    &&& first.len() == input.len()
    &&& forall|i: int|
        0 <= i < first.len() ==> params_mismatch(
            #[trigger] first[i],
            input[i],
            layouts_equal[i],
        ) is None
}

/// Check an input against the first one. `layouts_equal` says, stream by
/// stream, whether the two channel layouts are semantically the same.
pub fn assert_layout_matches(
    first: &Vec<StreamParams>,
    input: &Vec<StreamParams>,
    layouts_equal: &Vec<bool>,
    path: &str,
) -> (r: Result<(), NativeError>)
    requires
        first@.len() == input@.len() ==> layouts_equal@.len() == first@.len(),
    ensures
        r is Ok <==> layouts_match(first@, input@, layouts_equal@),
        r matches Err(e) ==> if first@.len() != input@.len() {
            e@ == count_error(path@, first@.len(), input@.len())
        } else {
            exists|i: int|
                {
                    &&& #[trigger] first_mismatch(first@, input@, layouts_equal@, i)
                    &&& e@ == stream_error(
                        path@,
                        i as nat,
                        params_mismatch(first@[i], input@[i], layouts_equal@[i])->0,
                    )
                }
        },
{
    if input.len() != first.len() {
        let e = NativeError::new(
            "invalid_request",
            "input stream count does not match the first input",
        ).with_detail("path", path.to_owned()).with_detail(
            "field",
            "stream_count".to_owned(),
        ).with_detail("expected", nat_text(first.len() as u128)).with_detail(
            "got",
            nat_text(input.len() as u128),
        );
        return Err(e);
    }
    for i in 0..first.len()
        invariant
            first@.len() == input@.len(),
            layouts_equal@.len() == first@.len(),
            forall|j: int|
                0 <= j < i ==> params_mismatch(
                    #[trigger] first@[j],
                    input@[j],
                    layouts_equal@[j],
                ) is None,
    {
        if let Some(m) = codecpar_mismatch(&first[i], &input[i], layouts_equal[i]) {
            proof {
                assert(first_mismatch(first@, input@, layouts_equal@, i as int));
                assert(params_mismatch(
                    first@[i as int],
                    input@[i as int],
                    layouts_equal@[i as int],
                ) is Some);
            }
            let mut message = "input stream ".to_owned();
            message.append(m.field.as_str());
            message.append(" does not match the first input");
            let e = NativeError::new("invalid_request", message.as_str()).with_detail(
                "path",
                path.to_owned(),
            ).with_detail("stream", nat_text(i as u128)).with_detail(
                "field",
                m.field.clone(),
            ).with_detail("expected", m.expected.clone()).with_detail("got", m.got.clone());
            return Err(e);
        }
    }
    Ok(())
}

/// An input always matches itself.
pub proof fn law_input_matches_itself(first: Seq<StreamParams>, layouts_equal: Seq<bool>)
    requires
        layouts_equal.len() == first.len(),
        forall|i: int| 0 <= i < first.len() ==> #[trigger] layouts_equal[i],
    ensures
        layouts_match(first, first, layouts_equal),
{
    assert forall|i: int| 0 <= i < first.len() implies params_mismatch(
        #[trigger] first[i],
        first[i],
        layouts_equal[i],
    ) is None by {
        assert(layouts_equal[i]);
    }
}

/// Whether two streams can be joined does not depend on which comes first.
pub proof fn law_matching_is_symmetric(a: StreamParams, b: StreamParams, layouts_equal: bool)
    requires
        a.codec_type == b.codec_type,
    ensures
        params_mismatch(a, b, layouts_equal) is None <==> params_mismatch(
            b,
            a,
            layouts_equal,
        ) is None,
{
}

/// A parameter that one of the two streams does not carry never stops a
/// join: only a parameter that both carry is reported, and with every
/// optional parameter of one stream unknown, only the codec matters.
pub proof fn law_unknown_parameters_are_not_compared(
    e: StreamParams,
    g: StreamParams,
    layouts_equal: bool,
)
    ensures
        params_mismatch(e, g, layouts_equal) matches Some(m) ==> {
            &&& m.field == "profile"@ ==> e.profile != AV_PROFILE_UNKNOWN && g.profile
                != AV_PROFILE_UNKNOWN
            &&& m.field == "sample_rate"@ ==> e.sample_rate > 0 && g.sample_rate > 0
            &&& m.field == "sample_format"@ ==> e.format >= 0 && g.format >= 0
            &&& m.field == "channel_layout"@ ==> e.channels > 0 && g.channels > 0
            &&& m.field == "width"@ ==> e.width > 0 && g.width > 0
            &&& m.field == "height"@ ==> e.height > 0 && g.height > 0
            &&& m.field == "pixel_format"@ ==> e.format >= 0 && g.format >= 0
            &&& m.field == "parameter_sets"@ ==> has_parameter_sets(e) && has_parameter_sets(g)
        },
        (g.profile == AV_PROFILE_UNKNOWN && g.sample_rate <= 0 && g.format < 0 && g.channels <= 0
            && g.width <= 0 && g.height <= 0 && !has_parameter_sets(g)) ==> (params_mismatch(
            e,
            g,
            layouts_equal,
        ) is None <==> e.codec_id == g.codec_id),
{
    reveal_strlit("codec_id");
    reveal_strlit("profile");
    reveal_strlit("sample_rate");
    reveal_strlit("sample_format");
    reveal_strlit("channel_layout");
    reveal_strlit("width");
    reveal_strlit("height");
    reveal_strlit("pixel_format");
    reveal_strlit("parameter_sets");
    assert("codec_id"@.len() == 8 && "profile"@.len() == 7 && "sample_rate"@.len() == 11);
    assert("sample_format"@.len() == 13 && "width"@.len() == 5 && "height"@.len() == 6);
    assert("pixel_format"@.len() == 12 && "channel_layout"@.len() == 14);
    assert("parameter_sets"@.len() == 14);
    assert("channel_layout"@[0] == 'c' && "parameter_sets"@[0] == 'p');
}

/// Both values are known, and they differ.
pub open spec fn both_known_differ(e: i32, g: i32, e_known: bool, g_known: bool) -> bool {
    e_known && g_known && e != g
}

/// Two streams can be joined exactly when the codecs are the same and no
/// parameter that both carry differs: the profile; for audio the sample
/// rate, the sample format and the channel layout; for video the size, the
/// pixel format and the parameter sets of H.264 and HEVC.
pub proof fn law_streams_join_when_known_parameters_agree(
    e: StreamParams,
    g: StreamParams,
    layouts_equal: bool,
)
    ensures
        params_mismatch(e, g, layouts_equal) is None <==> {
            &&& e.codec_id == g.codec_id
            &&& !both_known_differ(e.profile, g.profile, e.profile != -99, g.profile != -99)
            &&& e.codec_type == 1 ==> {
                &&& !both_known_differ(
                    e.sample_rate,
                    g.sample_rate,
                    e.sample_rate > 0,
                    g.sample_rate > 0,
                )
                &&& !both_known_differ(e.format, g.format, e.format >= 0, g.format >= 0)
                &&& e.channels > 0 && g.channels > 0 ==> layouts_equal
            }
            &&& e.codec_type == 0 ==> {
                &&& !both_known_differ(e.width, g.width, e.width > 0, g.width > 0)
                &&& !both_known_differ(e.height, g.height, e.height > 0, g.height > 0)
                &&& !both_known_differ(e.format, g.format, e.format >= 0, g.format >= 0)
                &&& (e.codec_id == 27 || e.codec_id == 173) && e.extradata@.len() > 0
                    && g.extradata@.len() > 0 && e.extradata@[0] == 1 && g.extradata@[0] == 1
                    ==> e.extradata@ == g.extradata@
            }
        },
{
}

/// What is reported is a real difference, with the values of both streams,
/// the first input's as the expected one.
pub proof fn law_reported_difference_is_real(
    e: StreamParams,
    g: StreamParams,
    layouts_equal: bool,
)
    ensures
        params_mismatch(e, g, layouts_equal) matches Some(m) ==> {
            &&& m.field == "codec_id"@ <==> e.codec_id != g.codec_id
            &&& m.field == "codec_id"@ ==> m.expected == e.codec_name@ && m.got == g.codec_name@
            &&& m.field == "profile"@ ==> e.profile != g.profile && number(m.expected) == e.profile
                && number(m.got) == g.profile
            &&& m.field == "sample_rate"@ ==> e.sample_rate != g.sample_rate && number(m.expected)
                == e.sample_rate && number(m.got) == g.sample_rate
            &&& m.field == "width"@ ==> e.width != g.width && number(m.expected) == e.width
                && number(m.got) == g.width
            &&& m.field == "height"@ ==> e.height != g.height && number(m.expected) == e.height
                && number(m.got) == g.height
            &&& m.field == "sample_format"@ || m.field == "pixel_format"@ ==> {
                &&& e.format != g.format
                &&& e.format_name matches Some(n) ==> m.expected == n@
                &&& g.format_name matches Some(n) ==> m.got == n@
                &&& e.format_name is None ==> number(m.expected) == e.format
                &&& g.format_name is None ==> number(m.got) == g.format
            }
            &&& m.field == "channel_layout"@ ==> !layouts_equal && m.expected == e.layout@ && m.got
                == g.layout@
            &&& m.field == "parameter_sets"@ ==> e.extradata@ != g.extradata@ && m.expected.len()
                == 2 * e.extradata@.len() && m.got.len() == 2 * g.extradata@.len()
            &&& m.field == "codec_id"@ || m.field == "profile"@ || m.field == "sample_rate"@ || m.field
                == "width"@ || m.field == "height"@ || m.field == "sample_format"@ || m.field
                == "pixel_format"@ || m.field == "channel_layout"@ || m.field == "parameter_sets"@
        },
{
    reveal_strlit("codec_id");
    reveal_strlit("profile");
    reveal_strlit("sample_rate");
    reveal_strlit("sample_format");
    reveal_strlit("channel_layout");
    reveal_strlit("width");
    reveal_strlit("height");
    reveal_strlit("pixel_format");
    reveal_strlit("parameter_sets");
    assert("codec_id"@.len() == 8 && "profile"@.len() == 7 && "sample_rate"@.len() == 11);
    assert("sample_format"@.len() == 13 && "width"@.len() == 5 && "height"@.len() == 6);
    assert("pixel_format"@.len() == 12 && "channel_layout"@.len() == 14);
    assert("parameter_sets"@.len() == 14);
    assert("channel_layout"@[0] == 'c' && "parameter_sets"@[0] == 'p');
    law_signed_decimal_reads_back(e.profile as int);
    law_signed_decimal_reads_back(g.profile as int);
    law_signed_decimal_reads_back(e.sample_rate as int);
    law_signed_decimal_reads_back(g.sample_rate as int);
    law_signed_decimal_reads_back(e.width as int);
    law_signed_decimal_reads_back(g.width as int);
    law_signed_decimal_reads_back(e.height as int);
    law_signed_decimal_reads_back(g.height as int);
    law_signed_decimal_reads_back(e.format as int);
    law_signed_decimal_reads_back(g.format as int);
    if e.extradata@.len() > 0 {
        law_hex_bytes_read_back(e.extradata@, 0);
    }
    if g.extradata@.len() > 0 {
        law_hex_bytes_read_back(g.extradata@, 0);
    }
}

/// The answer for a stream that differs is a bad request that names the
/// input, the stream by its number, the field and both values; the answer
/// for a different number of streams gives both numbers.
pub proof fn law_layout_answers(path: Seq<char>, index: nat, m: MismatchView, expected: nat, got: nat)
    ensures
        ({
            let e = stream_error(path, index, m);
            &&& e.kind == "invalid_request"@
            &&& e.details.contains_pair("path"@, path)
            &&& e.details.contains_pair("field"@, m.field)
            &&& e.details.contains_pair("expected"@, m.expected)
            &&& e.details.contains_pair("got"@, m.got)
            &&& e.details.dom().contains("stream"@)
            &&& number(e.details["stream"@]) == index
        }),
        ({
            let e = count_error(path, expected, got);
            &&& e.kind == "invalid_request"@
            &&& e.details.contains_pair("path"@, path)
            &&& e.details.contains_pair("field"@, "stream_count"@)
            &&& number(e.details["expected"@]) == expected
            &&& number(e.details["got"@]) == got
        }),
{
    reveal_strlit("path");
    reveal_strlit("stream");
    reveal_strlit("field");
    reveal_strlit("expected");
    reveal_strlit("got");
    assert("path"@.len() == 4 && "stream"@.len() == 6 && "field"@.len() == 5 && "expected"@.len()
        == 8 && "got"@.len() == 3);
    law_decimal_reads_back(index);
    law_decimal_reads_back(expected);
    law_decimal_reads_back(got);
}

/// Inputs can be joined exactly when they have as many streams and every
/// pair of streams can be joined; what is reported is the first stream that
/// cannot.
pub proof fn law_inputs_join_stream_by_stream(
    first: Seq<StreamParams>,
    input: Seq<StreamParams>,
    layouts_equal: Seq<bool>,
    i: int,
    j: int,
)
    ensures
        first.len() != input.len() ==> !layouts_match(first, input, layouts_equal),
        layouts_match(first, input, layouts_equal) && 0 <= i < first.len() ==> params_mismatch(
            first[i],
            input[i],
            layouts_equal[i],
        ) is None,
        first.len() == input.len() && !layouts_match(first, input, layouts_equal) ==> exists|k: int|
            0 <= k < first.len() && params_mismatch(
                #[trigger] first[k],
                input[k],
                layouts_equal[k],
            ) is Some,
        first_mismatch(first, input, layouts_equal, i) ==> !layouts_match(
            first,
            input,
            layouts_equal,
        ) && 0 <= i < first.len(),
        first_mismatch(first, input, layouts_equal, i) ==> params_mismatch(
            first[i],
            input[i],
            layouts_equal[i],
        ) is Some,
        first_mismatch(first, input, layouts_equal, i) && 0 <= j < i ==> params_mismatch(
            first[j],
            input[j],
            layouts_equal[j],
        ) is None,
{
}

/// The view of an optional mismatch is its three texts.
pub proof fn law_mismatch_view(m: Mismatch)
    ensures
        mismatch_view(Some(m)) is Some,
        mismatch_view(Some(m))->0.field == m.field@,
        mismatch_view(Some(m))->0.expected == m.expected@,
        mismatch_view(Some(m))->0.got == m.got@,
        mismatch_view(None) is None,
{
}

} // verus!
