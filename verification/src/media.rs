//! Shared vocabulary: stream kinds, time stamps, positions on a time line
//! and the choice of the streams that an operation keeps.

use vstd::prelude::*;

verus! {

/// `AVMEDIA_TYPE_VIDEO`.
pub const AVMEDIA_TYPE_VIDEO: i32 = 0;

/// `AVMEDIA_TYPE_AUDIO`.
pub const AVMEDIA_TYPE_AUDIO: i32 = 1;

/// `AVMEDIA_TYPE_DATA`.
pub const AVMEDIA_TYPE_DATA: i32 = 2;

/// `AVMEDIA_TYPE_SUBTITLE`.
pub const AVMEDIA_TYPE_SUBTITLE: i32 = 3;

/// `AVMEDIA_TYPE_ATTACHMENT`.
pub const AVMEDIA_TYPE_ATTACHMENT: i32 = 4;

/// `AV_NOPTS_VALUE`: a time stamp that is not known.
pub const AV_NOPTS_VALUE: i64 = i64::MIN;

/// `AV_TIME_BASE`: container ticks per second.
pub const AV_TIME_BASE: i32 = 1_000_000;

/// A ratio of two integers.
#[derive(Debug, Clone, Copy, PartialEq, Eq, Structural)]
pub struct Rational {
    pub num: i32,
    pub den: i32,
}

/// A point on a time line: `ticks * num / den` seconds.
#[derive(Debug, Clone, Copy, PartialEq, Eq, Structural)]
pub struct Position {
    pub ticks: i64,
    pub num: i32,
    pub den: i32,
}

/// The start of the time line.
pub open spec fn origin_position() -> Position {
    Position { ticks: 0, num: 1, den: 1 }
}

impl Position {
    /// The seconds as a ratio whose denominator is not negative. A
    /// denominator of zero stands for an infinite time, before or after
    /// every other by the sign of the numerator, or for no time at all.
    pub open spec fn ratio(self) -> (int, int) {
        if self.den < 0 {
            (-(self.ticks * self.num), -self.den)
        } else {
            (self.ticks * self.num, self.den as int)
        }
    }

    /// Whether this position is more seconds than another.
    pub open spec fn is_after(self, other: Position) -> bool {
        let a = self.ratio();
        let b = other.ratio();
        if a.1 == 0 && b.1 == 0 {
            a.0 > 0 && b.0 < 0
        } else {
            a.0 * b.1 > b.0 * a.1
        }
    }

    /// The start of the time line.
    pub fn origin() -> (r: Position)
        ensures
            r == origin_position(),
    {
        Position { ticks: 0, num: 1, den: 1 }
    }

    /// Whether this position is strictly after another.
    pub fn after(&self, other: &Position) -> (r: bool)
        ensures
            r == self.is_after(*other),
    {
        proof {
            lemma_product_bound(self.ticks, self.num, other.den);
            lemma_product_bound(other.ticks, other.num, self.den);
        }
        let mine: i128 = (self.ticks as i128) * (self.num as i128);
        let others: i128 = (other.ticks as i128) * (other.num as i128);
        if self.den == 0 && other.den == 0 {
            return mine > 0 && others < 0;
        }
        let left: i128 = mine * (other.den as i128);
        let right: i128 = others * (self.den as i128);
        proof {
            let x: int = mine as int;
            let y: int = others as int;
            let p: int = self.den as int;
            let q: int = other.den as int;
            assert((-x) * q == -(x * q)) by (nonlinear_arith);
            assert((-y) * p == -(y * p)) by (nonlinear_arith);
            assert(x * (-q) == -(x * q)) by (nonlinear_arith);
            assert(y * (-p) == -(y * p)) by (nonlinear_arith);
            assert((-x) * (-q) == x * q) by (nonlinear_arith);
            assert((-y) * (-p) == y * p) by (nonlinear_arith);
        }
        if (self.den < 0) == (other.den < 0) {
            left > right
        } else {
            left < right
        }
    }

    /// The position of a container time in `AV_TIME_BASE` ticks; a time
    /// that is not positive is unknown and counts as the start.
    pub fn from_av_duration(ticks: i64) -> (r: Position)
        ensures
            r == duration_position(ticks),
    {
        if ticks > 0 {
            Position { ticks, num: 1, den: AV_TIME_BASE }
        } else {
            Position::origin()
        }
    }

    /// The position of a time stamp in its time base; an unknown time
    /// stamp counts as the start.
    pub fn from_timestamp(ts: i64, time_base: Rational) -> (r: Position)
        ensures
            r == timestamp_position(ts, time_base),
    {
        if ts == AV_NOPTS_VALUE {
            Position::origin()
        } else {
            Position { ticks: ts, num: time_base.num, den: time_base.den }
        }
    }
}

/// The position of a container time in `AV_TIME_BASE` ticks; a time that is
/// not positive counts as the start.
pub open spec fn duration_position(ticks: i64) -> Position {
    if ticks > 0 {
        Position { ticks, num: 1, den: AV_TIME_BASE }
    } else {
        origin_position()
    }
}

/// The position of a time stamp in its time base.
pub open spec fn timestamp_position(ts: i64, time_base: Rational) -> Position {
    if ts == AV_NOPTS_VALUE {
        origin_position()
    } else {
        Position { ticks: ts, num: time_base.num, den: time_base.den }
    }
}

/// The product of a time stamp and two 32-bit numbers, with room to spare
/// in 128 bits.
pub proof fn lemma_product_bound(a: i64, b: i32, c: i32)
    ensures
        i128::MIN <= a * b <= i128::MAX,
        -0x2000_0000_0000_0000_0000_0000_0000_0000 <= a * b * c
            <= 0x2000_0000_0000_0000_0000_0000_0000_0000,
{
    assert(-0x4000_0000_0000_0000_0000_0000 <= a * b <= 0x4000_0000_0000_0000_0000_0000)
        by (nonlinear_arith)
        requires
            -0x8000_0000_0000_0000 <= a <= 0x7fff_ffff_ffff_ffff,
            -0x8000_0000 <= b <= 0x7fff_ffff,
    ;
    let p: int = a * b;
    assert(-0x2000_0000_0000_0000_0000_0000_0000_0000 <= p * c
        <= 0x2000_0000_0000_0000_0000_0000_0000_0000) by (nonlinear_arith)
        requires
            -0x4000_0000_0000_0000_0000_0000 <= p <= 0x4000_0000_0000_0000_0000_0000,
            -0x8000_0000 <= c <= 0x7fff_ffff,
    ;
}

/// A position that is not after a second one is not after any position
/// that the second one is not after.
pub proof fn lemma_not_after_is_transitive(a: Position, b: Position, c: Position)
    requires
        a.den != 0,
        b.den != 0,
        c.den != 0,
        !a.is_after(b),
        !b.is_after(c),
    ensures
        !a.is_after(c),
{
    let (x, p) = a.ratio();
    let (y, q) = b.ratio();
    let (z, r) = c.ratio();
    assert(x * r <= z * p) by (nonlinear_arith)
        requires
            p > 0,
            q > 0,
            r > 0,
            x * q <= y * p,
            y * r <= z * q,
    {
        assert((x * q) * r <= (y * p) * r);
        assert((y * r) * p <= (z * q) * p);
        assert(q * (x * r) <= q * (z * p));
    }
}

/// Which kinds of streams to leave out.
#[derive(Debug, Clone, Copy, PartialEq, Eq, Structural)]
pub struct Drops {
    pub audio: bool,
    pub video: bool,
    pub subtitles: bool,
}

/// Whether streams of this kind are left out.
pub open spec fn dropped(codec_type: i32, drops: Drops) -> bool {
    ||| codec_type == AVMEDIA_TYPE_AUDIO && drops.audio
    ||| codec_type == AVMEDIA_TYPE_VIDEO && drops.video
    ||| codec_type == AVMEDIA_TYPE_SUBTITLE && drops.subtitles
}

/// Whether a stream of this kind is left out. The three switches are
/// independent, and no other kind is ever left out.
pub fn should_drop(codec_type: i32, drops: Drops) -> (r: bool)
    ensures
        r == dropped(codec_type, drops),
{
    if codec_type == AVMEDIA_TYPE_AUDIO {
        drops.audio
    } else if codec_type == AVMEDIA_TYPE_VIDEO {
        drops.video
    } else if codec_type == AVMEDIA_TYPE_SUBTITLE {
        drops.subtitles
    } else {
        false
    }
}

/// The switches of an operation; one that is not given is off.
pub fn drops_of(audio: Option<bool>, video: Option<bool>, subtitles: Option<bool>) -> (r: Drops)
    ensures
        r == (Drops {
            audio: audio == Some(true),
            video: video == Some(true),
            subtitles: subtitles == Some(true),
        }),
{
    Drops {
        audio: audio.unwrap_or(false),
        video: video.unwrap_or(false),
        subtitles: subtitles.unwrap_or(false),
    }
}

/// How many streams are kept.
pub open spec fn kept_count(kinds: Seq<i32>, drops: Drops) -> nat
    decreases kinds.len(),
{
    if kinds.len() == 0 {
        0
    } else {
        kept_count(kinds.drop_last(), drops) + (if dropped(kinds.last(), drops) {
            0nat
        } else {
            1nat
        })
    }
}

/// Where each input stream goes: the kept streams are numbered in input
/// order, the others go nowhere.
pub open spec fn stream_map(kinds: Seq<i32>, drops: Drops) -> Seq<Option<u32>> {
    Seq::new(
        kinds.len(),
        |i: int|
            if dropped(kinds[i], drops) {
                None
            } else {
                Some(kept_count(kinds.take(i), drops) as u32)
            },
    )
}

/// No more streams are kept than there are.
pub proof fn lemma_kept_count_bound(kinds: Seq<i32>, drops: Drops)
    ensures
        kept_count(kinds, drops) <= kinds.len(),
    decreases kinds.len(),
{
    if kinds.len() > 0 {
        lemma_kept_count_bound(kinds.drop_last(), drops);
    }
}

/// Number the kept streams, and count them.
pub fn build_stream_map(kinds: &Vec<i32>, drops: Drops) -> (r: (Vec<Option<u32>>, u32))
    requires
        kinds@.len() <= u32::MAX,
    ensures
        r.0@ == stream_map(kinds@, drops),
        r.1 == kept_count(kinds@, drops),
{
    let mut map: Vec<Option<u32>> = Vec::new();
    let mut next: u32 = 0;
    for i in 0..kinds.len()
        invariant
            kinds@.len() <= u32::MAX,
            map@.len() == i,
            next == kept_count(kinds@.take(i as int), drops),
            next <= i,
            forall|j: int|
                0 <= j < i ==> #[trigger] map@[j] == stream_map(kinds@, drops)[j],
    {
        assert(kinds@.take(i + 1).drop_last() =~= kinds@.take(i as int));
        if should_drop(kinds[i], drops) {
            map.push(None);
        } else {
            map.push(Some(next));
            next = next + 1;
        }
    }
    assert(kinds@.take(kinds@.len() as int) =~= kinds@);
    assert(map@ =~= stream_map(kinds@, drops));
    (map, next)
}

/// The output numbers of the kept streams are consecutive from zero: each
/// is below the count, and no two streams share one.
pub proof fn law_stream_map_is_injective(kinds: Seq<i32>, drops: Drops, i: int, j: int)
    requires
        kinds.len() <= u32::MAX,
        0 <= i <= j < kinds.len(),
        !dropped(kinds[i], drops),
        !dropped(kinds[j], drops),
    ensures
        i < j ==> stream_map(kinds, drops)[i]->0 < stream_map(kinds, drops)[j]->0,
        stream_map(kinds, drops)[j]->0 < kept_count(kinds, drops),
{
    if i < j {
        lemma_kept_count_monotone(kinds, drops, i + 1, j);
    }
    lemma_kept_count_monotone(kinds, drops, j + 1, kinds.len() as int);
    lemma_kept_count_bound(kinds.take(i), drops);
    lemma_kept_count_bound(kinds.take(j), drops);
    assert(kinds.take(i + 1).drop_last() =~= kinds.take(i));
    assert(kinds.take(j + 1).drop_last() =~= kinds.take(j));
    assert(kinds.take(kinds.len() as int) =~= kinds);
}

proof fn lemma_kept_count_monotone(kinds: Seq<i32>, drops: Drops, i: int, j: int)
    requires
        0 <= i <= j <= kinds.len(),
    ensures
        kept_count(kinds.take(i), drops) <= kept_count(kinds.take(j), drops),
    decreases j - i,
{
    if i < j {
        lemma_kept_count_monotone(kinds, drops, i, j - 1);
        assert(kinds.take(j).drop_last() =~= kinds.take(j - 1));
    }
}

/// Video, audio and subtitle streams are left out exactly when their own
/// switch is on; other kinds never are.
pub proof fn law_switches_are_independent(codec_type: i32, drops: Drops)
    ensures
        codec_type == 0 ==> dropped(codec_type, drops) == drops.video,
        codec_type == 1 ==> dropped(codec_type, drops) == drops.audio,
        codec_type == 3 ==> dropped(codec_type, drops) == drops.subtitles,
        codec_type != 0 && codec_type != 1 && codec_type != 3 ==> !dropped(codec_type, drops),
{
}

/// The count of kept streams adds up over the parts of an input, and one
/// stream counts once where it is kept.
pub proof fn law_kept_streams_add_up(a: Seq<i32>, b: Seq<i32>, kind: i32, drops: Drops)
    ensures
        kept_count(a + b, drops) == kept_count(a, drops) + kept_count(b, drops),
        dropped(kind, drops) ==> kept_count(seq![kind], drops) == 0,
        !dropped(kind, drops) ==> kept_count(seq![kind], drops) == 1,
        kept_count(seq![], drops) == 0,
    decreases b.len(),
{
    reveal_with_fuel(kept_count, 2);
    assert(seq![kind].drop_last() =~= Seq::<i32>::empty());
    if b.len() == 0 {
        assert(a + b =~= a);
    } else {
        law_kept_streams_add_up(a, b.drop_last(), kind, drops);
        assert((a + b).drop_last() =~= a + b.drop_last());
        assert((a + b).last() == b.last());
    }
}

/// Every input stream is in the map; it goes nowhere exactly when its kind
/// is left out, and otherwise its number is how many streams before it are
/// kept. Every number below the count belongs to some stream.
pub proof fn law_stream_map_numbers_the_kept(kinds: Seq<i32>, drops: Drops, i: int, n: int)
    requires
        kinds.len() <= u32::MAX,
        0 <= i < kinds.len(),
        0 <= n < kept_count(kinds, drops),
    ensures
        stream_map(kinds, drops).len() == kinds.len(),
        stream_map(kinds, drops)[i] is None <==> dropped(kinds[i], drops),
        stream_map(kinds, drops)[i] is Some ==> stream_map(kinds, drops)[i]->0 == kept_count(
            kinds.take(i),
            drops,
        ),
        exists|j: int|
            0 <= j < kinds.len() && #[trigger] stream_map(kinds, drops)[j] is Some && stream_map(
                kinds,
                drops,
            )[j]->0 == n,
{
    lemma_kept_count_bound(kinds.take(i), drops);
    assert(kinds.take(kinds.len() as int) =~= kinds);
    lemma_number_is_used(kinds, drops, n, kinds.len() as int);
    let j = choose|j: int|
        0 <= j < kinds.len() && !dropped(#[trigger] kinds[j], drops) && kept_count(
            kinds.take(j),
            drops,
        ) == n;
    lemma_kept_count_bound(kinds.take(j), drops);
    assert(stream_map(kinds, drops)[j] is Some);
}

proof fn lemma_number_is_used(kinds: Seq<i32>, drops: Drops, n: int, k: int)
    requires
        0 <= k <= kinds.len(),
        0 <= n < kept_count(kinds.take(k), drops),
    ensures
        exists|j: int|
            0 <= j < k && !dropped(#[trigger] kinds[j], drops) && kept_count(kinds.take(j), drops)
                == n,
    decreases k,
{
    if k > 0 {
        assert(kinds.take(k).drop_last() =~= kinds.take(k - 1));
        if n < kept_count(kinds.take(k - 1), drops) {
            lemma_number_is_used(kinds, drops, n, k - 1);
        } else {
            assert(!dropped(kinds[k - 1], drops));
        }
    }
}

/// Positions compare as seconds: for positive denominators by cross
/// products, and a position does not change when the signs of numerator and
/// denominator do. No position is after itself, and of two at most one is
/// after the other.
pub proof fn law_positions_compare_as_seconds(a: Position, b: Position)
    ensures
        a.den > 0 && b.den > 0 ==> (a.is_after(b) <==> (a.ticks * a.num) * b.den > (b.ticks * b.num)
            * a.den),
        a.den > 0 && b.den < 0 ==> (a.is_after(b) <==> (a.ticks * a.num) * -b.den > -(b.ticks
            * b.num) * a.den),
        !a.is_after(a),
        a.is_after(b) ==> !b.is_after(a),
        a.den != 0 && b.den != 0 && !a.is_after(b) && !b.is_after(a) ==> (a.ticks * a.num) * b.den
            == (b.ticks * b.num) * a.den,
{
    let x: int = a.ticks * a.num;
    let y: int = b.ticks * b.num;
    let p: int = a.den as int;
    let q: int = b.den as int;
    assert((-x) * q == -(x * q)) by (nonlinear_arith);
    assert((-y) * p == -(y * p)) by (nonlinear_arith);
    assert(x * (-q) == -(x * q)) by (nonlinear_arith);
    assert(y * (-p) == -(y * p)) by (nonlinear_arith);
    assert((-x) * (-q) == x * q) by (nonlinear_arith);
    assert((-y) * (-p) == y * p) by (nonlinear_arith);
}

/// A time stamp's position is its ticks in its time base, and the start
/// where it is not known; a container time counts microseconds, and is the
/// start where it is not positive.
pub proof fn law_positions_of_times(ts: i64, time_base: Rational)
    ensures
        ts != i64::MIN ==> {
            let p = timestamp_position(ts, time_base);
            &&& (p.ticks * p.num) * time_base.den == (ts * time_base.num) * p.den
            &&& p.den == time_base.den
        },
        timestamp_position(i64::MIN, time_base).ticks == 0,
        timestamp_position(i64::MIN, time_base).den > 0,
        ts > 0 ==> {
            let p = duration_position(ts);
            &&& p.den > 0
            &&& (p.ticks * p.num) * 1_000_000 == ts * p.den
        },
        ts <= 0 ==> duration_position(ts).ticks == 0 && duration_position(ts).den > 0,
        origin_position().ticks == 0,
        origin_position().den > 0,
{
}

/// A position without a denominator is before or after every real one by
/// its sign, the late one after the early one, and without a sign it is
/// neither.
pub proof fn law_endless_positions(a: Position, b: Position)
    requires
        a.den == 0,
    ensures
        b.den != 0 ==> (a.is_after(b) <==> a.ticks * a.num > 0),
        b.den != 0 ==> (b.is_after(a) <==> a.ticks * a.num < 0),
        b.den == 0 ==> (a.is_after(b) <==> a.ticks * a.num > 0 && b.ticks * b.num < 0),
{
    let x: int = a.ticks * a.num;
    let y: int = b.ticks * b.num;
    let q: int = b.ratio().1;
    let z: int = b.ratio().0;
    assert(z * 0 == 0);
    if b.den != 0 {
        assert(q > 0);
        assert(x > 0 ==> x * q > 0) by (nonlinear_arith)
            requires
                q > 0,
        ;
        assert(x <= 0 ==> x * q <= 0) by (nonlinear_arith)
            requires
                q > 0,
        ;
        assert(x < 0 ==> x * q < 0) by (nonlinear_arith)
            requires
                q > 0,
        ;
        assert(x >= 0 ==> x * q >= 0) by (nonlinear_arith)
            requires
                q > 0,
        ;
    }
}

} // verus!
