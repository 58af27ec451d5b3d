//! Choices for video: output size, pixel format, frame rate, sample aspect
//! ratio and the texts that describe a filter graph.

use crate::audio::{format_choice, listed, pick_format};
use crate::errors::{error, outcome, ErrorView, NativeError};
use crate::media::Rational;
use crate::path::{extension, path_extension, text_view, PathStyle};
use crate::text::{
    ascii_lower, before, behind, int_text, law_signed_decimal_reads_back, lemma_cut,
    lemma_number_is_plain, lower, number, same_text, signed_decimal,
};
use vstd::prelude::*;

verus! {

/// The largest even number that is not above `n`, at least two.
pub open spec fn even_size(n: int) -> int {
    if n <= 1 {
        2
    } else {
        n - n % 2
    }
}

/// Round down to an even value. One, zero and negative values become two,
/// the smallest valid video dimension.
pub fn round_even(n: i32) -> (r: i32)
    ensures
        r == even_size(n as int),
{
    if n <= 1 {
        2
    } else {
        assert(n & !1i32 == n - n % 2) by (bit_vector)
            requires
                n > 1,
        ;
        n & !1i32
    }
}

/// Division that rounds towards zero.
pub open spec fn toward_zero(a: int, d: int) -> int {
    if a >= 0 {
        a / d
    } else {
        -((-a) / d)
    }
}

/// The low 32 bits as a signed number.
pub open spec fn wrap32(x: int) -> int {
    let m = x % 0x1_0000_0000;
    if m >= 0x8000_0000 {
        m - 0x1_0000_0000
    } else {
        m
    }
}

/// A length scaled by `num / den`, with a denominator of at least one.
pub open spec fn scaled(n: i32, num: i32, den: i32) -> int {
    wrap32(
        toward_zero(
            n * num,
            if den < 1 {
                1
            } else {
                den as int
            },
        ),
    )
}

/// The output size: what is asked for; a side that is not asked for
/// follows the source's proportion, or is the source's own when neither is.
/// Both sides are even.
pub open spec fn target_size(src_w: i32, src_h: i32, w: Option<i32>, h: Option<i32>) -> (int, int) {
    match (w, h) {
        (Some(w), Some(h)) => (even_size(w as int), even_size(h as int)),
        (Some(w), None) => (even_size(w as int), even_size(scaled(w, src_h, src_w))),
        (None, Some(h)) => (even_size(scaled(h, src_w, src_h)), even_size(h as int)),
        (None, None) => (even_size(src_w as int), even_size(src_h as int)),
    }
}

fn scale_side(n: i32, num: i32, den: i32) -> (r: i32)
    ensures
        r == scaled(n, num, den),
{
    let d: i64 = if den < 1 {
        1
    } else {
        den as i64
    };
    let a: i64 = n as i64;
    let b: i64 = num as i64;
    assert(-0x4000_0000_0000_0000 <= a * b <= 0x4000_0000_0000_0000) by (nonlinear_arith)
        requires
            -0x8000_0000 <= a <= 0x7fff_ffff,
            -0x8000_0000 <= b <= 0x7fff_ffff,
    ;
    let product: i64 = a * b;
    let q: i64 = if product >= 0 {
        assert(0 <= product / d <= product) by (nonlinear_arith)
            requires
                product >= 0,
                d >= 1,
        ;
        product / d
    } else {
        let m: i64 = -product;
        assert(0 <= m / d <= m) by (nonlinear_arith)
            requires
                m >= 0,
                d >= 1,
        ;
        -(m / d)
    };
    let low: i64 = if q >= 0 {
        q % 0x1_0000_0000
    } else {
        let k: i64 = (-q) % 0x1_0000_0000;
        if k == 0 {
            0
        } else {
            0x1_0000_0000 - k
        }
    };
    assert(low == (q as int) % 0x1_0000_0000);
    if low >= 0x8000_0000 {
        (low - 0x1_0000_0000) as i32
    } else {
        low as i32
    }
}

/// The output size for a source and a request.
pub fn resolve_target_size(src_w: i32, src_h: i32, w: Option<i32>, h: Option<i32>) -> (r: (
    i32,
    i32,
))
    ensures
        r.0 == target_size(src_w, src_h, w, h).0,
        r.1 == target_size(src_w, src_h, w, h).1,
        r.0 >= 2 && r.0 % 2 == 0,
        r.1 >= 2 && r.1 % 2 == 0,
{
    match (w, h) {
        (Some(w), Some(h)) => (round_even(w), round_even(h)),
        (Some(w), None) => (round_even(w), round_even(scale_side(w, src_h, src_w))),
        (None, Some(h)) => (round_even(scale_side(h, src_w, src_h)), round_even(h)),
        (None, None) => (round_even(src_w), round_even(src_h)),
    }
}

/// The frame rate when nothing says otherwise.
pub open spec fn default_fps() -> (i32, i32) {
    (25, 1)
}

/// A rate with both parts set.
pub open spec fn known_rate(r: Rational) -> bool {
    r.num != 0 && r.den != 0
}

/// The source's frame rate: the decoder's, else the container's, else the
/// default.
pub open spec fn source_fps(decoder: Rational, container: Rational) -> (i32, i32) {
    if known_rate(decoder) {
        (decoder.num, decoder.den)
    } else if known_rate(container) {
        (container.num, container.den)
    } else {
        default_fps()
    }
}

/// The frame rate to produce: the request; without one, or with `(0, 0)`,
/// the source's.
pub open spec fn fps_choice(
    requested: Option<(i32, i32)>,
    decoder: Rational,
    container: Rational,
) -> (i32, i32) {
    match requested {
        Some(f) => if f.0 == 0 && f.1 == 0 {
            source_fps(decoder, container)
        } else {
            f
        },
        None => source_fps(decoder, container),
    }
}

/// The frame rate to produce.
pub fn pick_fps(requested: Option<(i32, i32)>, decoder: Rational, container: Rational) -> (r: (
    i32,
    i32,
))
    ensures
        r == fps_choice(requested, decoder, container),
{
    if let Some(f) = requested {
        if !(f.0 == 0 && f.1 == 0) {
            return f;
        }
    }
    if decoder.num != 0 && decoder.den != 0 {
        (decoder.num, decoder.den)
    } else if container.num != 0 && container.den != 0 {
        (container.num, container.den)
    } else {
        (25, 1)
    }
}

/// The frame rate of the filter chain: one that is not positive would make
/// the chain invalid and becomes the default.
pub open spec fn filter_fps(fps: (i32, i32)) -> (i32, i32) {
    if fps.0 <= 0 || fps.1 <= 0 {
        default_fps()
    } else {
        fps
    }
}

/// The filter chain: the caller's own, or one that scales and sets the
/// frame rate; either way the pixel format is pinned at the end.
pub open spec fn filter_spec(
    user: Option<Seq<char>>,
    w: i32,
    h: i32,
    fps: (i32, i32),
    format: i32,
) -> Seq<char> {
    let pin = "format="@ + signed_decimal(format as int);
    match user {
        Some(chain) => chain + ","@ + pin,
        None => "scale="@ + signed_decimal(w as int) + ":"@ + signed_decimal(h as int) + ",fps="@
            + signed_decimal(filter_fps(fps).0 as int) + "/"@ + signed_decimal(
            filter_fps(fps).1 as int,
        ) + ","@ + pin,
    }
}

/// Build the filter chain. The caller's own chain takes precedence over
/// the size and the frame rate.
pub fn build_video_filter_spec(
    user: &Option<String>,
    w: i32,
    h: i32,
    fps: (i32, i32),
    format: i32,
) -> (r: String)
    ensures
        r@ == filter_spec(text_view(*user), w, h, fps, format),
{
    let mut pin = "format=".to_owned();
    let number = int_text(format as i64);
    pin.append(number.as_str());
    match user {
        Some(chain) => {
            let mut r = chain.clone();
            r.append(",");
            r.append(pin.as_str());
            r
        },
        None => {
            let (num, den): (i32, i32) = if fps.0 <= 0 || fps.1 <= 0 {
                (25, 1)
            } else {
                fps
            };
            let mut r = "scale=".to_owned();
            let part = int_text(w as i64);
            r.append(part.as_str());
            r.append(":");
            let part = int_text(h as i64);
            r.append(part.as_str());
            r.append(",fps=");
            let part = int_text(num as i64);
            r.append(part.as_str());
            r.append("/");
            let part = int_text(den as i64);
            r.append(part.as_str());
            r.append(",");
            r.append(pin.as_str());
            r
        },
    }
}

/// One in place of zero.
pub open spec fn zero_to_one(n: i32) -> int {
    if n == 0 {
        1
    } else {
        n as int
    }
}

/// The description of the frames that enter the filter graph.
pub open spec fn source_args(
    w: i32,
    h: i32,
    format: i32,
    time_base: Rational,
    aspect: Rational,
) -> Seq<char> {
    "video_size="@ + signed_decimal(w as int) + "x"@ + signed_decimal(h as int) + ":pix_fmt="@
        + signed_decimal(format as int) + ":time_base="@ + signed_decimal(time_base.num as int)
        + "/"@ + signed_decimal(time_base.den as int) + ":pixel_aspect="@ + signed_decimal(
        zero_to_one(aspect.num),
    ) + "/"@ + signed_decimal(zero_to_one(aspect.den))
}

/// Describe the frames that enter the filter graph. An unset part of the
/// aspect ratio counts as one.
pub fn build_source_args(w: i32, h: i32, format: i32, time_base: Rational, aspect: Rational) -> (r:
    String)
    ensures
        r@ == source_args(w, h, format, time_base, aspect),
{
    let sar_num: i32 = if aspect.num == 0 {
        1
    } else {
        aspect.num
    };
    let sar_den: i32 = if aspect.den == 0 {
        1
    } else {
        aspect.den
    };
    let mut r = "video_size=".to_owned();
    let part = int_text(w as i64);
    r.append(part.as_str());
    r.append("x");
    let part = int_text(h as i64);
    r.append(part.as_str());
    r.append(":pix_fmt=");
    let part = int_text(format as i64);
    r.append(part.as_str());
    r.append(":time_base=");
    let part = int_text(time_base.num as i64);
    r.append(part.as_str());
    r.append("/");
    let part = int_text(time_base.den as i64);
    r.append(part.as_str());
    r.append(":pixel_aspect=");
    let part = int_text(sar_num as i64);
    r.append(part.as_str());
    r.append("/");
    let part = int_text(sar_den as i64);
    r.append(part.as_str());
    r
}

/// A sample aspect ratio that says something.
pub open spec fn known_aspect(r: Rational) -> bool {
    r.num > 0 && r.den > 0
}

/// The source's sample aspect ratio: the container's where only the
/// container knows it, else the decoder's as it is.
pub open spec fn aspect_choice(decoder: Rational, container: Rational) -> Rational {
    if !known_aspect(decoder) && known_aspect(container) {
        container
    } else {
        decoder
    }
}

/// The source's sample aspect ratio.
pub fn pick_aspect(decoder: Rational, container: Rational) -> (r: Rational)
    ensures
        r == aspect_choice(decoder, container),
{
    let decoder_knows = decoder.num > 0 && decoder.den > 0;
    if !decoder_knows && container.num > 0 && container.den > 0 {
        container
    } else {
        decoder
    }
}

/// By what to multiply the sample aspect ratio after a resize: two ratios,
/// one per direction.
pub open spec fn resize_factors(src_w: i32, src_h: i32, dst_w: i32, dst_h: i32) -> (
    Rational,
    Rational,
) {
    (Rational { num: dst_h, den: src_h }, Rational { num: src_w, den: dst_w })
}

/// By what to multiply the sample aspect ratio after a resize.
pub fn aspect_factors(src_w: i32, src_h: i32, dst_w: i32, dst_h: i32) -> (r: (Rational, Rational))
    ensures
        r == resize_factors(src_w, src_h, dst_w, dst_h),
{
    (Rational { num: dst_h, den: src_h }, Rational { num: src_w, den: dst_w })
}

/// A resize keeps the display aspect ratio: the sample aspect ratio times
/// the width over the height is the same before and after, written as a
/// cross product.
pub proof fn law_display_aspect_is_kept(
    aspect: Rational,
    src_w: i32,
    src_h: i32,
    dst_w: i32,
    dst_h: i32,
)
    ensures
        ({
            let f = resize_factors(src_w, src_h, dst_w, dst_h);
            let num = aspect.num * f.0.num * f.1.num;
            let den = aspect.den * f.0.den * f.1.den;
            (aspect.num * src_w) * (den * dst_h) == (aspect.den * src_h) * (num * dst_w)
        }),
{
    let n: int = aspect.num as int;
    let d: int = aspect.den as int;
    let sw: int = src_w as int;
    let sh: int = src_h as int;
    let dw: int = dst_w as int;
    let dh: int = dst_h as int;
    assert((n * sw) * ((d * sh * dw) * dh) == (d * sh) * ((n * dh * sw) * dw))
        by (nonlinear_arith);
}

/// The image formats that a frame can be written as.
#[derive(Debug, Clone, Copy, PartialEq, Eq, Structural)]
pub enum ImageCodec {
    Mjpeg,
    Png,
    Bmp,
    Webp,
}

/// The image format for an extension in lower case.
pub open spec fn image_codec(ext: Option<Seq<char>>) -> Result<ImageCodec, ErrorView> {
    match ext {
        Some(e) => if e == "jpg"@ || e == "jpeg"@ {
            Ok(ImageCodec::Mjpeg)
        } else if e == "png"@ {
            Ok(ImageCodec::Png)
        } else if e == "bmp"@ {
            Ok(ImageCodec::Bmp)
        } else if e == "webp"@ {
            Ok(ImageCodec::Webp)
        } else {
            Err(
                error(
                    "invalid_request"@,
                    "unsupported image extension; use .jpg, .png, .bmp or .webp"@,
                ).with("extension"@, e),
            )
        },
        None => Err(
            error(
                "invalid_request"@,
                "output path must have a recognised image extension (.jpg, .png, .bmp, .webp)"@,
            ),
        ),
    }
}

/// The lower-case extension of a path.
pub open spec fn lower_extension(style: PathStyle, p: Seq<char>) -> Option<Seq<char>> {
    match extension(style, p) {
        Some(e) => Some(lower(e)),
        None => None,
    }
}

/// The lower-case extension of a path.
pub fn path_lower_extension(style: PathStyle, p: &str) -> (r: Option<String>)
    ensures
        text_view(r) == lower_extension(style, p@),
{
    match path_extension(style, p) {
        Some(e) => Some(ascii_lower(e.as_str())),
        None => None,
    }
}

/// The image format for an output path, by its extension in any case.
pub fn pick_image_codec(style: PathStyle, output_path: &str) -> (r: Result<
    ImageCodec,
    NativeError,
>)
    ensures
        outcome(r) == image_codec(lower_extension(style, output_path@)),
{
    match path_lower_extension(style, output_path) {
        Some(ext) => {
            let e = ext.as_str();
            if same_text(e, "jpg") || same_text(e, "jpeg") {
                Ok(ImageCodec::Mjpeg)
            } else if same_text(e, "png") {
                Ok(ImageCodec::Png)
            } else if same_text(e, "bmp") {
                Ok(ImageCodec::Bmp)
            } else if same_text(e, "webp") {
                Ok(ImageCodec::Webp)
            } else {
                Err(
                    NativeError::new(
                        "invalid_request",
                        "unsupported image extension; use .jpg, .png, .bmp or .webp",
                    ).with_detail("extension", ext.clone()),
                )
            }
        },
        None => Err(
            NativeError::new(
                "invalid_request",
                "output path must have a recognised image extension (.jpg, .png, .bmp, .webp)",
            ),
        ),
    }
}

/// A decoded picture's size and pixel format.
#[derive(Debug, Clone, Copy, PartialEq, Eq, Structural)]
pub struct Picture {
    pub width: i32,
    pub height: i32,
    pub format: i32,
}

/// Whether a picture has to be converted to become the wanted one.
pub fn needs_scaling(src: Picture, dst: Picture) -> (r: bool)
    ensures
        r == (src != dst),
{
    !(src.format == dst.format && src.width == dst.width && src.height == dst.height)
}

/// The picture that the image encoder gets.
pub open spec fn image_picture(
    src: Picture,
    w: Option<i32>,
    h: Option<i32>,
    supported: Option<Seq<i32>>,
) -> Picture {
    Picture {
        width: target_size(src.width, src.height, w, h).0 as i32,
        height: target_size(src.width, src.height, w, h).1 as i32,
        format: format_choice(supported, src.format),
    }
}

/// The picture that the image encoder gets: resized as asked, in the
/// source's pixel format where the encoder takes it.
pub fn plan_picture(
    src: Picture,
    w: Option<i32>,
    h: Option<i32>,
    supported: &Option<Vec<i32>>,
) -> (r: Picture)
    ensures
        r == image_picture(src, w, h, listed(*supported)),
        r.width >= 2 && r.width % 2 == 0,
        r.height >= 2 && r.height % 2 == 0,
{
    let size = resolve_target_size(src.width, src.height, w, h);
    Picture { width: size.0, height: size.1, format: pick_format(supported, src.format) }
}

/// An even size is even, at least two, and the closest one not above the
/// number that is rounded, where that is at least two.
pub proof fn law_even_size(n: int)
    ensures
        even_size(n) % 2 == 0,
        even_size(n) >= 2,
        n >= 2 ==> even_size(n) <= n < even_size(n) + 2,
        n < 2 ==> even_size(n) == 2,
{
}

/// Dividing towards zero: the quotient times the divisor is never further
/// from zero than what is divided, and less than one divisor short of it.
pub proof fn law_toward_zero(a: int, d: int)
    requires
        d > 0,
    ensures
        a >= 0 ==> toward_zero(a, d) * d <= a < (toward_zero(a, d) + 1) * d,
        a < 0 ==> (toward_zero(a, d) - 1) * d < a <= toward_zero(a, d) * d,
        toward_zero(-a, d) == -toward_zero(a, d),
{
    let b: int = if a >= 0 {
        a
    } else {
        -a
    };
    let q: int = b / d;
    assert(q * d <= b < (q + 1) * d) by (nonlinear_arith)
        requires
            q == b / d,
            d > 0,
    ;
    assert((-q) * d == -(q * d)) by (nonlinear_arith);
    assert((-q - 1) * d == -((q + 1) * d)) by (nonlinear_arith);
    if a == 0 {
        assert(q == 0) by (nonlinear_arith)
            requires
                q == 0int / d,
                d > 0,
        ;
    }
}

/// The low 32 bits differ from the number by a multiple of their range, and
/// a number that fits is kept.
pub proof fn law_wrap32(x: int)
    ensures
        -0x8000_0000 <= wrap32(x) <= 0x7fff_ffff,
        (x - wrap32(x)) % 0x1_0000_0000 == 0,
        -0x8000_0000 <= x <= 0x7fff_ffff ==> wrap32(x) == x,
{
}

/// A side that is asked for is taken, rounded down to even; without a
/// request both sides are the source's, rounded down to even. A size is
/// always even and at least two.
pub proof fn law_size_is_as_asked(src_w: i32, src_h: i32, w: Option<i32>, h: Option<i32>)
    ensures
        ({
            let r = target_size(src_w, src_h, w, h);
            &&& r.0 % 2 == 0 && r.0 >= 2
            &&& r.1 % 2 == 0 && r.1 >= 2
            &&& w is Some && w->0 >= 2 ==> r.0 <= w->0 < r.0 + 2
            &&& w is Some && w->0 < 2 ==> r.0 == 2
            &&& h is Some && h->0 >= 2 ==> r.1 <= h->0 < r.1 + 2
            &&& h is Some && h->0 < 2 ==> r.1 == 2
            &&& w is None && h is None && src_w >= 2 ==> r.0 <= src_w < r.0 + 2
            &&& w is None && h is None && src_h >= 2 ==> r.1 <= src_h < r.1 + 2
            &&& w is None && h is None && src_w < 2 ==> r.0 == 2
            &&& w is None && h is None && src_h < 2 ==> r.1 == 2
        }),
{
}

proof fn lemma_proportion(n: i32, num: i32, den: i32)
    requires
        n > 0,
        num > 0,
        den > 0,
        n * num < 0x8000_0000 * den,
    ensures
        ({
            let side = even_size(scaled(n, num, den));
            &&& n * num < (side + 2) * den
            &&& n * num >= 2 * den ==> side * den <= n * num
            &&& n * num < 2 * den ==> side == 2
        }),
{
    let a: int = n * num;
    let d: int = den as int;
    assert(a > 0) by (nonlinear_arith)
        requires
            a == n * num,
            n > 0,
            num > 0,
    ;
    law_toward_zero(a, d);
    let q: int = toward_zero(a, d);
    assert(0 <= q < 0x8000_0000) by (nonlinear_arith)
        requires
            q * d <= a < (q + 1) * d,
            0 < a < 0x8000_0000 * d,
            d > 0,
    ;
    let side = even_size(scaled(n, num, den));
    assert(a >= 2 * d ==> q >= 2) by (nonlinear_arith)
        requires
            a < (q + 1) * d,
            d > 0,
    ;
    assert(a < 2 * d ==> q < 2) by (nonlinear_arith)
        requires
            q * d <= a,
            d > 0,
    ;
    assert((q + 1) * d <= (side + 2) * d) by (nonlinear_arith)
        requires
            q + 1 <= side + 2,
            d > 0,
    ;
    if a >= 2 * d {
        assert(side * d <= q * d) by (nonlinear_arith)
            requires
                side <= q,
                d > 0,
        ;
    }
}

/// A height that is not asked for follows the width in the source's
/// proportion: it is the largest even height that does not make the picture
/// taller than the source's shape, and at least two.
pub proof fn law_height_keeps_the_proportion(src_w: i32, src_h: i32, w: i32)
    requires
        src_w > 0,
        src_h > 0,
        w > 0,
        w * src_h < 0x8000_0000 * src_w,
    ensures
        ({
            let height = target_size(src_w, src_h, Some(w), None).1;
            &&& w * src_h < (height + 2) * src_w
            &&& w * src_h >= 2 * src_w ==> height * src_w <= w * src_h
            &&& w * src_h < 2 * src_w ==> height == 2
        }),
{
    lemma_proportion(w, src_h, src_w);
}

/// A width that is not asked for follows the height in the source's
/// proportion, in the same way.
pub proof fn law_width_keeps_the_proportion(src_w: i32, src_h: i32, h: i32)
    requires
        src_w > 0,
        src_h > 0,
        h > 0,
        h * src_w < 0x8000_0000 * src_h,
    ensures
        ({
            let width = target_size(src_w, src_h, None, Some(h)).0;
            &&& h * src_w < (width + 2) * src_h
            &&& h * src_w >= 2 * src_h ==> width * src_h <= h * src_w
            &&& h * src_w < 2 * src_h ==> width == 2
        }),
{
    lemma_proportion(h, src_w, src_h);
}

/// A source side that is not positive counts as one, and a side that comes
/// out as nothing or less becomes two.
pub proof fn law_odd_sources_still_have_a_size(src_w: i32, src_h: i32, n: i32)
    ensures
        src_w < 1 ==> target_size(src_w, src_h, Some(n), None) == target_size(
            1,
            src_h,
            Some(n),
            None,
        ),
        src_h < 1 ==> target_size(src_w, src_h, None, Some(n)) == target_size(
            src_w,
            1,
            None,
            Some(n),
        ),
{
}

/// The frame rate is the requested one; without a request, or with `(0, 0)`,
/// it is the decoder's; where the decoder has none, the container's; and 25
/// per second where nobody knows.
pub proof fn law_frame_rate(requested: Option<(i32, i32)>, decoder: Rational, container: Rational)
    ensures
        ({
            let r = fps_choice(requested, decoder, container);
            let asked = requested is Some && requested != Some((0i32, 0i32));
            let decoder_knows = decoder.num != 0 && decoder.den != 0;
            let container_knows = container.num != 0 && container.den != 0;
            &&& asked ==> Some(r) == requested
            &&& !asked && decoder_knows ==> r.0 == decoder.num && r.1 == decoder.den
            &&& !asked && !decoder_knows && container_knows ==> r.0 == container.num && r.1
                == container.den
            &&& !asked && !decoder_knows && !container_knows ==> r.0 == 25 * r.1 && r.1 > 0
        }),
{
}

/// The sample aspect ratio is the decoder's, unless only the container's
/// has two positive parts.
pub proof fn law_aspect(decoder: Rational, container: Rational)
    ensures
        decoder.num > 0 && decoder.den > 0 ==> aspect_choice(decoder, container) == decoder,
        container.num <= 0 || container.den <= 0 ==> aspect_choice(decoder, container) == decoder,
        (decoder.num <= 0 || decoder.den <= 0) && container.num > 0 && container.den > 0
            ==> aspect_choice(decoder, container) == container,
{
}

/// Together the two factors are the change of the height over the change of
/// the width, and for real sizes neither is zero or without a denominator.
pub proof fn law_resize_factors(src_w: i32, src_h: i32, dst_w: i32, dst_h: i32)
    ensures
        ({
            let f = resize_factors(src_w, src_h, dst_w, dst_h);
            &&& (f.0.num * f.1.num) * (src_h * dst_w) == (f.0.den * f.1.den) * (src_w * dst_h)
            &&& src_w > 0 && src_h > 0 && dst_w > 0 && dst_h > 0 ==> f.0.num > 0 && f.0.den > 0
                && f.1.num > 0 && f.1.den > 0
        }),
{
    let sw: int = src_w as int;
    let sh: int = src_h as int;
    let dw: int = dst_w as int;
    let dh: int = dst_h as int;
    assert((dh * sw) * (sh * dw) == (sh * dw) * (sw * dh)) by (nonlinear_arith);
}

/// Two numbers with a character between them can be read back.
proof fn lemma_pair(a: int, c: char, b: int)
    requires
        c != '-',
        !('0' <= c && c <= '9'),
    ensures
        ({
            let s = signed_decimal(a) + seq![c] + signed_decimal(b);
            &&& number(before(s, c)) == a
            &&& number(behind(s, c)) == b
        }),
{
    lemma_number_is_plain(a, c);
    lemma_cut(signed_decimal(a), c, signed_decimal(b));
    law_signed_decimal_reads_back(a);
    law_signed_decimal_reads_back(b);
}

/// The chain that is built for a size, a frame rate and a pixel format says
/// exactly these: cut at its commas it is a scaling, a rate and a format,
/// and the numbers in them can be read back. A rate that is not positive
/// becomes 25 per second.
pub proof fn law_filter_chain_reads_back(w: i32, h: i32, fps: (i32, i32), format: i32)
    ensures
        ({
            let s = filter_spec(None, w, h, fps, format);
            let scale = before(s, ',');
            let rate = before(behind(s, ','), ',');
            let pin = behind(behind(s, ','), ',');
            let num = number(before(behind(rate, '='), '/'));
            let den = number(behind(behind(rate, '='), '/'));
            &&& before(scale, '=') == "scale"@
            &&& number(before(behind(scale, '='), ':')) == w
            &&& number(behind(behind(scale, '='), ':')) == h
            &&& before(rate, '=') == "fps"@
            &&& num > 0 && den > 0
            &&& fps.0 > 0 && fps.1 > 0 ==> num == fps.0 && den == fps.1
            &&& fps.0 <= 0 || fps.1 <= 0 ==> num == 25 * den
            &&& before(pin, '=') == "format"@
            &&& number(behind(pin, '=')) == format
        }),
{
    reveal_strlit("scale=");
    reveal_strlit("scale");
    reveal_strlit(":");
    reveal_strlit(",fps=");
    reveal_strlit("fps");
    reveal_strlit("/");
    reveal_strlit(",");
    reveal_strlit("format=");
    reveal_strlit("format");
    let f = if fps.0 > 0 && fps.1 > 0 {
        fps
    } else {
        (25i32, 1i32)
    };
    let dw = signed_decimal(w as int);
    let dh = signed_decimal(h as int);
    let dn = signed_decimal(f.0 as int);
    let dd = signed_decimal(f.1 as int);
    let df = signed_decimal(format as int);
    let size = dw + seq![':'] + dh;
    let ratio = dn + seq!['/'] + dd;
    let scale = "scale"@ + seq!['='] + size;
    let rate = "fps"@ + seq!['='] + ratio;
    let pin = "format"@ + seq!['='] + df;
    let s = filter_spec(None, w, h, fps, format);
    assert(s =~= scale + seq![','] + (rate + seq![','] + pin));
    lemma_number_is_plain(w as int, ',');
    lemma_number_is_plain(h as int, ',');
    lemma_number_is_plain(f.0 as int, ',');
    lemma_number_is_plain(f.1 as int, ',');
    lemma_cut(scale, ',', rate + seq![','] + pin);
    lemma_cut(rate, ',', pin);
    lemma_cut("scale"@, '=', size);
    lemma_cut("fps"@, '=', ratio);
    lemma_cut("format"@, '=', df);
    lemma_pair(w as int, ':', h as int);
    lemma_pair(f.0 as int, '/', f.1 as int);
    law_signed_decimal_reads_back(format as int);
}

/// Different frame rates never give the same chain.
pub proof fn law_frame_rates_are_told_apart(
    w: i32,
    h: i32,
    f: (i32, i32),
    g: (i32, i32),
    format: i32,
)
    requires
        f.0 > 0,
        f.1 > 0,
        g.0 > 0,
        g.1 > 0,
        filter_spec(None, w, h, f, format) == filter_spec(None, w, h, g, format),
    ensures
        f.0 * g.1 == g.0 * f.1,
{
    law_filter_chain_reads_back(w, h, f, format);
    law_filter_chain_reads_back(w, h, g, format);
}

/// A chain of the caller's own is kept whole, with only the pixel format
/// behind it; size and frame rate play no part.
pub proof fn law_own_chain_is_kept(chain: Seq<char>, w: i32, h: i32, fps: (i32, i32), format: i32)
    ensures
        ({
            let s = filter_spec(Some(chain), w, h, fps, format);
            let pin = s.skip(chain.len() as int + 1);
            &&& s.len() > chain.len()
            &&& s.take(chain.len() as int) == chain
            &&& s[chain.len() as int] == ','
            &&& before(pin, '=') == "format"@
            &&& number(behind(pin, '=')) == format
        }),
{
    reveal_strlit(",");
    reveal_strlit("format=");
    reveal_strlit("format");
    let df = signed_decimal(format as int);
    let s = filter_spec(Some(chain), w, h, fps, format);
    let pin = "format"@ + seq!['='] + df;
    assert(s =~= chain + seq![','] + pin);
    assert(s.take(chain.len() as int) =~= chain);
    assert(s.skip(chain.len() as int + 1) =~= pin);
    lemma_cut("format"@, '=', df);
    law_signed_decimal_reads_back(format as int);
}

/// The description of the frames says exactly their size, pixel format,
/// time base and aspect ratio: cut at its colons it names these four, and
/// the numbers can be read back. A part of the aspect ratio that is zero
/// counts as one.
pub proof fn law_source_args_read_back(
    w: i32,
    h: i32,
    format: i32,
    time_base: Rational,
    aspect: Rational,
)
    ensures
        ({
            let s = source_args(w, h, format, time_base, aspect);
            let size = before(s, ':');
            let s1 = behind(s, ':');
            let pixels = before(s1, ':');
            let s2 = behind(s1, ':');
            let base = before(s2, ':');
            let shape = behind(s2, ':');
            &&& before(size, '=') == "video_size"@
            &&& number(before(behind(size, '='), 'x')) == w
            &&& number(behind(behind(size, '='), 'x')) == h
            &&& before(pixels, '=') == "pix_fmt"@
            &&& number(behind(pixels, '=')) == format
            &&& before(base, '=') == "time_base"@
            &&& number(before(behind(base, '='), '/')) == time_base.num
            &&& number(behind(behind(base, '='), '/')) == time_base.den
            &&& before(shape, '=') == "pixel_aspect"@
            &&& aspect.num != 0 ==> number(before(behind(shape, '='), '/')) == aspect.num
            &&& aspect.num == 0 ==> number(before(behind(shape, '='), '/')) == 1
            &&& aspect.den != 0 ==> number(behind(behind(shape, '='), '/')) == aspect.den
            &&& aspect.den == 0 ==> number(behind(behind(shape, '='), '/')) == 1
        }),
{
    let an: int = zero_to_one(aspect.num);
    let ad: int = zero_to_one(aspect.den);
    let tn: int = time_base.num as int;
    let td: int = time_base.den as int;
    let size = signed_decimal(w as int) + seq!['x'] + signed_decimal(h as int);
    let base = signed_decimal(tn) + seq!['/'] + signed_decimal(td);
    let shape = signed_decimal(an) + seq!['/'] + signed_decimal(ad);
    let df = signed_decimal(format as int);
    lemma_source_args_shape(w, h, format, time_base, aspect);
    lemma_field_names();
    lemma_number_is_plain(w as int, ':');
    lemma_number_is_plain(h as int, ':');
    lemma_number_is_plain(format as int, ':');
    lemma_number_is_plain(tn, ':');
    lemma_number_is_plain(td, ':');
    let rest3 = field("time_base"@, base) + seq![':'] + field("pixel_aspect"@, shape);
    let rest2 = field("pix_fmt"@, df) + seq![':'] + rest3;
    lemma_field("video_size"@, size, ':', rest2);
    lemma_field("pix_fmt"@, df, ':', rest3);
    lemma_field("time_base"@, base, ':', field("pixel_aspect"@, shape));
    lemma_cut("pixel_aspect"@, '=', shape);
    lemma_pair(w as int, 'x', h as int);
    lemma_pair(tn, '/', td);
    lemma_pair(an, '/', ad);
    law_signed_decimal_reads_back(format as int);
}

spec fn field(name: Seq<char>, value: Seq<char>) -> Seq<char> {
    name + seq!['='] + value
}

proof fn lemma_field(name: Seq<char>, value: Seq<char>, end: char, rest: Seq<char>)
    requires
        end != '=',
        forall|i: int| 0 <= i < name.len() ==> #[trigger] name[i] != '=' && name[i] != end,
        forall|i: int| 0 <= i < value.len() ==> #[trigger] value[i] != end,
    ensures
        before(field(name, value) + seq![end] + rest, end) == field(name, value),
        behind(field(name, value) + seq![end] + rest, end) == rest,
        before(field(name, value), '=') == name,
        behind(field(name, value), '=') == value,
{
    lemma_cut(field(name, value), end, rest);
    lemma_cut(name, '=', value);
}

proof fn lemma_field_names()
    ensures
        forall|i: int|
            0 <= i < "video_size"@.len() ==> #[trigger] "video_size"@[i] != '=' && "video_size"@[i]
                != ':',
        forall|i: int|
            0 <= i < "pix_fmt"@.len() ==> #[trigger] "pix_fmt"@[i] != '=' && "pix_fmt"@[i] != ':',
        forall|i: int|
            0 <= i < "time_base"@.len() ==> #[trigger] "time_base"@[i] != '=' && "time_base"@[i]
                != ':',
        forall|i: int|
            0 <= i < "pixel_aspect"@.len() ==> #[trigger] "pixel_aspect"@[i] != '='
                && "pixel_aspect"@[i] != ':',
{
    reveal_strlit("video_size");
    reveal_strlit("pix_fmt");
    reveal_strlit("time_base");
    reveal_strlit("pixel_aspect");
}

proof fn lemma_source_args_shape(
    w: i32,
    h: i32,
    format: i32,
    time_base: Rational,
    aspect: Rational,
)
    ensures
        source_args(w, h, format, time_base, aspect) == field(
            "video_size"@,
            signed_decimal(w as int) + seq!['x'] + signed_decimal(h as int),
        ) + seq![':'] + (field("pix_fmt"@, signed_decimal(format as int)) + seq![':'] + (field(
            "time_base"@,
            signed_decimal(time_base.num as int) + seq!['/'] + signed_decimal(time_base.den as int),
        ) + seq![':'] + field(
            "pixel_aspect"@,
            signed_decimal(zero_to_one(aspect.num)) + seq!['/'] + signed_decimal(
                zero_to_one(aspect.den),
            ),
        ))),
{
    lemma_field_markers();
    let w1 = signed_decimal(w as int);
    let h1 = signed_decimal(h as int);
    let f1 = signed_decimal(format as int);
    let tn = signed_decimal(time_base.num as int);
    let td = signed_decimal(time_base.den as int);
    let an = signed_decimal(zero_to_one(aspect.num));
    let ad = signed_decimal(zero_to_one(aspect.den));
    let shape = an + seq!['/'] + ad;
    let base = tn + seq!['/'] + td;
    let size = w1 + seq!['x'] + h1;
    let front = "video_size="@ + w1 + "x"@ + h1;
    let with_format = front + ":pix_fmt="@ + f1;
    let with_base = with_format + ":time_base="@ + tn + "/"@ + td;
    let whole = with_base + ":pixel_aspect="@ + an + "/"@ + ad;
    assert(source_args(w, h, format, time_base, aspect) == whole);
    let g1 = field("video_size"@, size);
    lemma_pair_field("video_size"@, w1, 'x', h1);
    assert(front == g1);
    lemma_add_field(g1, "pix_fmt"@, f1);
    assert(with_format == g1 + seq![':'] + field("pix_fmt"@, f1));
    lemma_add_pair_field(with_format, "time_base"@, tn, td);
    assert(with_base == with_format + seq![':'] + field("time_base"@, base));
    lemma_add_pair_field(with_base, "pixel_aspect"@, an, ad);
    assert(whole == with_base + seq![':'] + field("pixel_aspect"@, shape));
    lemma_nest(g1, field("pix_fmt"@, f1), field("time_base"@, base), field("pixel_aspect"@, shape));
}

proof fn lemma_pair_field(name: Seq<char>, a: Seq<char>, c: char, b: Seq<char>)
    ensures
        (name + seq!['=']) + a + seq![c] + b == field(name, a + seq![c] + b),
{
    assert((name + seq!['=']) + a + seq![c] + b =~= field(name, a + seq![c] + b));
}

proof fn lemma_add_field(front: Seq<char>, name: Seq<char>, a: Seq<char>)
    ensures
        front + (seq![':'] + name + seq!['=']) + a == front + seq![':'] + field(name, a),
{
    assert(front + (seq![':'] + name + seq!['=']) + a =~= front + seq![':'] + field(name, a));
}

proof fn lemma_add_pair_field(front: Seq<char>, name: Seq<char>, a: Seq<char>, b: Seq<char>)
    ensures
        front + (seq![':'] + name + seq!['=']) + a + seq!['/'] + b == front + seq![':'] + field(
            name,
            a + seq!['/'] + b,
        ),
{
    lemma_add_field(front, name, a);
    let start = front + seq![':'];
    assert(start + field(name, a) + seq!['/'] + b =~= start + field(name, a + seq!['/'] + b));
}

proof fn lemma_nest(a: Seq<char>, b: Seq<char>, c: Seq<char>, d: Seq<char>)
    ensures
        a + seq![':'] + b + seq![':'] + c + seq![':'] + d == a + seq![':'] + (b + seq![':'] + (c
            + seq![':'] + d)),
{
    assert(a + seq![':'] + b + seq![':'] + c + seq![':'] + d =~= a + seq![':'] + (b + seq![':'] + (c
        + seq![':'] + d)));
}

proof fn lemma_field_markers()
    ensures
        "video_size="@ == "video_size"@ + seq!['='],
        "x"@ == seq!['x'],
        ":pix_fmt="@ == seq![':'] + "pix_fmt"@ + seq!['='],
        ":time_base="@ == seq![':'] + "time_base"@ + seq!['='],
        "/"@ == seq!['/'],
        ":pixel_aspect="@ == seq![':'] + "pixel_aspect"@ + seq!['='],
{
    reveal_strlit("video_size=");
    reveal_strlit("video_size");
    reveal_strlit("x");
    reveal_strlit(":pix_fmt=");
    reveal_strlit("pix_fmt");
    reveal_strlit(":time_base=");
    reveal_strlit("time_base");
    reveal_strlit("/");
    reveal_strlit(":pixel_aspect=");
    reveal_strlit("pixel_aspect");
    assert("video_size="@ =~= "video_size"@ + seq!['=']);
    assert("x"@ =~= seq!['x']);
    assert(":pix_fmt="@ =~= seq![':'] + "pix_fmt"@ + seq!['=']);
    assert(":time_base="@ =~= seq![':'] + "time_base"@ + seq!['=']);
    assert("/"@ =~= seq!['/']);
    assert(":pixel_aspect="@ =~= seq![':'] + "pixel_aspect"@ + seq!['=']);
}

/// Each image format belongs to its own extensions and to no other, and
/// anything else is refused as a bad request that names the extension.
pub proof fn law_image_formats(ext: Option<Seq<char>>)
    ensures
        image_codec(ext) == Ok::<ImageCodec, ErrorView>(ImageCodec::Mjpeg) <==> ext == Some("jpg"@)
            || ext == Some("jpeg"@),
        image_codec(ext) == Ok::<ImageCodec, ErrorView>(ImageCodec::Png) <==> ext == Some("png"@),
        image_codec(ext) == Ok::<ImageCodec, ErrorView>(ImageCodec::Bmp) <==> ext == Some("bmp"@),
        image_codec(ext) == Ok::<ImageCodec, ErrorView>(ImageCodec::Webp) <==> ext == Some("webp"@),
        image_codec(ext) is Err ==> image_codec(ext)->Err_0.kind == "invalid_request"@,
        image_codec(ext) is Err && ext is Some ==> image_codec(
            ext,
        )->Err_0.details.contains_pair("extension"@, ext->0),
{
    reveal_strlit("jpg");
    reveal_strlit("jpeg");
    reveal_strlit("png");
    reveal_strlit("bmp");
    reveal_strlit("webp");
    assert("jpg"@.len() == 3 && "jpeg"@.len() == 4 && "png"@.len() == 3 && "bmp"@.len() == 3
        && "webp"@.len() == 4);
    assert("jpg"@[0] == 'j' && "png"@[0] == 'p' && "bmp"@[0] == 'b' && "jpeg"@[0] == 'j'
        && "webp"@[0] == 'w');
}

/// The extension that counts is the path's, without regard to case: it has
/// as many characters, no capital, and paths whose extensions differ only
/// in case give the same.
pub proof fn law_extension_case_does_not_count(style: PathStyle, p: Seq<char>, q: Seq<char>, i: int)
    ensures
        lower_extension(style, p) is Some <==> extension(style, p) is Some,
        extension(style, p) is Some ==> lower_extension(style, p)->0.len() == extension(
            style,
            p,
        )->0.len(),
        extension(style, p) is Some && 0 <= i < extension(style, p)->0.len() ==> {
            let c = extension(style, p)->0[i];
            let l = lower_extension(style, p)->0[i];
            if 'A' <= c && c <= 'Z' {
                l as int == c as int + 32
            } else {
                l == c
            }
        },
        extension(style, p) is Some && extension(style, q) is Some && lower(
            extension(style, p)->0,
        ) == lower(extension(style, q)->0) ==> lower_extension(style, p) == lower_extension(
            style,
            q,
        ),
{
}

/// The picture that is written has the requested sides, rounded down to
/// even, and a pixel format that the encoder lists, where it lists any.
pub proof fn law_picture_is_as_asked(
    src: Picture,
    w: Option<i32>,
    h: Option<i32>,
    supported: Option<Seq<i32>>,
)
    ensures
        ({
            let r = image_picture(src, w, h, supported);
            &&& r.width == target_size(src.width, src.height, w, h).0
            &&& r.height == target_size(src.width, src.height, w, h).1
            &&& w is Some && w->0 >= 2 ==> r.width <= w->0 < r.width + 2
            &&& h is Some && h->0 >= 2 ==> r.height <= h->0 < r.height + 2
            &&& w is None && h is None && src.width >= 2 ==> r.width <= src.width < r.width + 2
            &&& w is None && h is None && src.height >= 2 ==> r.height <= src.height < r.height + 2
            &&& supported is None ==> r.format == src.format
            &&& supported is Some && supported->0.len() > 0 ==> supported->0.contains(r.format)
            &&& supported is Some && supported->0.contains(src.format) ==> r.format == src.format
        }),
{
    law_size_is_as_asked(src.width, src.height, w, h);
    lemma_size_fits(src.width, src.height, w, h);
    if supported is Some && supported->0.len() > 0 {
        assert(supported->0.contains(supported->0[0]));
    }
}

/// A target size fits its type.
pub proof fn lemma_size_fits(src_w: i32, src_h: i32, w: Option<i32>, h: Option<i32>)
    ensures
        2 <= target_size(src_w, src_h, w, h).0 <= i32::MAX,
        2 <= target_size(src_w, src_h, w, h).1 <= i32::MAX,
{
}

} // verus!
