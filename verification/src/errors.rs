//! Categorised errors.
//!
//! Every operation ends in a value or in a `NativeError`. `kind` carries
//! the category: `"invalid_request"`, `"io_error"`, `"decode_error"`,
//! `"encode_error"`, `"unsupported"`, `"runtime_error"`, `"cancelled"` or
//! `"nif_panic"`.

use crate::text::{has_prefix, law_prefix, same_text, starts_with};
use vstd::prelude::*;

verus! {

/// What an error says, as mathematical text.
#[verifier::ext_equal]
pub struct ErrorView {
    pub kind: Seq<char>,
    pub message: Seq<char>,
    pub details: Map<Seq<char>, Seq<char>>,
}

impl ErrorView {
    /// The same error with one detail set.
    pub open spec fn with(self, key: Seq<char>, value: Seq<char>) -> ErrorView {
        ErrorView { details: self.details.insert(key, value), ..self }
    }
}

/// An error without details.
pub open spec fn error(kind: Seq<char>, message: Seq<char>) -> ErrorView {
    ErrorView { kind, message, details: Map::empty() }
}

/// A result with its error replaced by what the error says.
pub open spec fn outcome<T>(r: Result<T, NativeError>) -> Result<T, ErrorView> {
    match r {
        Ok(v) => Ok(v),
        Err(e) => Err(e@),
    }
}

/// Key and value pairs as a map; a later pair wins.
pub open spec fn pairs_map(pairs: Seq<(String, String)>) -> Map<Seq<char>, Seq<char>>
    decreases pairs.len(),
{
    if pairs.len() == 0 {
        Map::empty()
    } else {
        pairs_map(pairs.drop_last()).insert(pairs.last().0@, pairs.last().1@)
    }
}

/// No key occurs twice.
pub open spec fn distinct_keys(pairs: Seq<(String, String)>) -> bool {
    forall|i: int, j: int|
        0 <= i < j < pairs.len() ==> (#[trigger] pairs[i]).0@ != (#[trigger] pairs[j]).0@
}

/// A map built from pairs holds exactly the pairs' keys, and with distinct
/// keys each key maps to its own pair's value.
proof fn lemma_pairs_map(pairs: Seq<(String, String)>)
    ensures
        forall|k: Seq<char>|
            #[trigger] pairs_map(pairs).dom().contains(k) <==> exists|i: int|
                0 <= i < pairs.len() && (#[trigger] pairs[i]).0@ == k,
        distinct_keys(pairs) ==> forall|i: int|
            0 <= i < pairs.len() ==> pairs_map(pairs)[(#[trigger] pairs[i]).0@] == pairs[i].1@,
    decreases pairs.len(),
{
    if pairs.len() > 0 {
        let front = pairs.drop_last();
        lemma_pairs_map(front);
        assert forall|k: Seq<char>| #[trigger]
            pairs_map(pairs).dom().contains(k) <==> exists|i: int|
                0 <= i < pairs.len() && (#[trigger] pairs[i]).0@ == k by {
            if pairs_map(front).dom().contains(k) {
                let i = choose|i: int| 0 <= i < front.len() && (#[trigger] front[i]).0@ == k;
                assert(pairs[i].0@ == k);
            }
            if exists|i: int| 0 <= i < pairs.len() && (#[trigger] pairs[i]).0@ == k {
                let i = choose|i: int| 0 <= i < pairs.len() && (#[trigger] pairs[i]).0@ == k;
                if i < front.len() {
                    assert(front[i].0@ == k);
                }
            }
        }
        if distinct_keys(pairs) {
            assert(distinct_keys(front)) by {
                assert forall|i: int, j: int| 0 <= i < j < front.len() implies (
                #[trigger] front[i]).0@ != (#[trigger] front[j]).0@ by {
                    assert(pairs[i].0@ != pairs[j].0@);
                }
            }
            assert forall|i: int| 0 <= i < pairs.len() implies pairs_map(
                pairs,
            )[(#[trigger] pairs[i]).0@] == pairs[i].1@ by {
                if i < front.len() {
                    assert(front[i].0@ == pairs[i].0@);
                    assert(pairs[i].0@ != pairs[pairs.len() - 1].0@);
                }
            }
        }
    }
}

/// Structured error: a stable category, a message that is safe to show,
/// and free-form details (paths, codec names, offsets).
#[derive(Debug)]
pub struct NativeError {
    kind: String,
    message: String,
    details: Vec<(String, String)>,
}

impl View for NativeError {
    type V = ErrorView;

    closed spec fn view(&self) -> ErrorView {
        ErrorView {
            kind: self.kind@,
            message: self.message@,
            details: pairs_map(self.details@),
        }
    }
}

impl NativeError {
    /// No detail key occurs twice.
    #[verifier::type_invariant]
    spec fn wf(self) -> bool {
        distinct_keys(self.details@)
    }

    /// The category.
    pub fn kind(&self) -> (r: &str)
        ensures
            r@ == self@.kind,
    {
        self.kind.as_str()
    }

    /// The message.
    pub fn message(&self) -> (r: &str)
        ensures
            r@ == self@.message,
    {
        self.message.as_str()
    }

    pub fn new(kind: &str, message: &str) -> (e: Self)
        ensures
            e@ == error(kind@, message@),
    {
        let e = NativeError {
            kind: kind.to_owned(),
            message: message.to_owned(),
            details: Vec::new(),
        };
        assert(e@ =~= error(kind@, message@));
        e
    }

    /// Set one detail; an earlier value under the same key is replaced.
    pub fn with_detail(self, key: &str, value: String) -> (e: Self)
        ensures
            e@ == self@.with(key@, value@),
    {
        proof {
            use_type_invariant(&self);
        }
        let ghost start = self@;
        let NativeError { kind, message, details } = self;
        let mut details = details;
        let ghost before = details@;
        proof {
            lemma_pairs_map(before);
        }
        let n: usize = details.len();
        for i in 0..n
            invariant
                n == details@.len(),
                before == details@,
                distinct_keys(before),
                start == self@,
                start == (ErrorView {
                    kind: kind@,
                    message: message@,
                    details: pairs_map(before),
                }),
                forall|j: int| 0 <= j < i ==> (#[trigger] details@[j]).0@ != key@,
                forall|k: Seq<char>|
                    #[trigger] pairs_map(before).dom().contains(k) <==> exists|i: int|
                        0 <= i < before.len() && (#[trigger] before[i]).0@ == k,
                distinct_keys(before) ==> forall|i: int|
                    0 <= i < before.len() ==> pairs_map(before)[(#[trigger] before[i]).0@]
                        == before[i].1@,
        {
            if same_text(details[i].0.as_str(), key) {
                let ghost value_text = value@;
                details.set(i, (key.to_owned(), value));
                proof {
                    let after = details@;
                    assert(after =~= before.update(i as int, after[i as int]));
                    assert(distinct_keys(after)) by {
                        assert forall|a: int, b: int| 0 <= a < b < after.len() implies (
                        #[trigger] after[a]).0@ != (#[trigger] after[b]).0@ by {
                            assert(before[a].0@ != before[b].0@);
                        }
                    }
                    lemma_pairs_map(after);
                    let want = pairs_map(before).insert(key@, value_text);
                    assert forall|k: Seq<char>| #[trigger]
                        pairs_map(after).dom().contains(k) <==> want.dom().contains(k) by {
                        if pairs_map(after).dom().contains(k) {
                            let j = choose|j: int|
                                0 <= j < after.len() && (#[trigger] after[j]).0@ == k;
                            assert(before[j].0@ == k);
                        }
                        if pairs_map(before).dom().contains(k) {
                            let j = choose|j: int|
                                0 <= j < before.len() && (#[trigger] before[j]).0@ == k;
                            assert(after[j].0@ == k);
                        }
                        if k == key@ {
                            assert(after[i as int].0@ == k);
                        }
                    }
                    assert forall|k: Seq<char>| pairs_map(after).dom().contains(k) implies #[trigger]
                        pairs_map(after)[k] == want[k] by {
                        let j = choose|j: int| 0 <= j < after.len() && (#[trigger] after[j]).0@ == k;
                        assert(before[j].0@ == k);
                        if j == i {
                            assert(k == key@);
                        } else {
                            assert(after[j] == before[j]);
                            if k == key@ {
                                assert(before[i as int].0@ == key@);
                                if i < j {
                                    assert(before[i as int].0@ != before[j].0@);
                                } else {
                                    assert(before[j].0@ != before[i as int].0@);
                                }
                            }
                        }
                    }
                    assert(pairs_map(after) =~= want);
                }
                let e = NativeError { kind, message, details };
                assert(e@ =~= start.with(key@, value_text));
                return e;
            }
        }
        let ghost value_text = value@;
        details.push((key.to_owned(), value));
        proof {
            let after = details@;
            assert(after.drop_last() =~= before);
            assert(distinct_keys(after)) by {
                assert forall|a: int, b: int| 0 <= a < b < after.len() implies (
                #[trigger] after[a]).0@ != (#[trigger] after[b]).0@ by {
                    if b < before.len() {
                        assert(before[a].0@ != before[b].0@);
                    } else {
                        assert(before[a].0@ != key@);
                    }
                }
            }
        }
        let e = NativeError { kind, message, details };
        assert(e@ =~= start.with(key@, value_text));
        e
    }

    /// The value of one detail, where the error has it.
    pub fn detail(&self, key: &str) -> (r: Option<String>)
        ensures
            match r {
                Some(v) => self@.details.dom().contains(key@) && self@.details[key@] == v@,
                None => !self@.details.dom().contains(key@),
            },
    {
        proof {
            use_type_invariant(self);
            lemma_pairs_map(self.details@);
        }
        let n: usize = self.details.len();
        for i in 0..n
            invariant
                n == self.details@.len(),
                forall|j: int| 0 <= j < i ==> (#[trigger] self.details@[j]).0@ != key@,
                forall|k: Seq<char>|
                    #[trigger] pairs_map(self.details@).dom().contains(k) <==> exists|i: int|
                        0 <= i < self.details@.len() && (#[trigger] self.details@[i]).0@ == k,
                forall|i: int|
                    0 <= i < self.details@.len() ==> pairs_map(
                        self.details@,
                    )[(#[trigger] self.details@[i]).0@] == self.details@[i].1@,
        {
            if same_text(self.details[i].0.as_str(), key) {
                assert(self.details@[i as int].0@ == key@);
                return Some(self.details[i].1.clone());
            }
        }
        None
    }

    /// All details, each key once.
    pub fn details(&self) -> (r: &Vec<(String, String)>)
        ensures
            distinct_keys(r@),
            pairs_map(r@) == self@.details,
    {
        proof {
            use_type_invariant(self);
        }
        &self.details
    }
}

/// The category for an FFmpeg binding error, by the name of its variant:
/// failures to open or read become `io_error`, decoder failures
/// `decode_error`, encoder failures `encode_error`, and everything else
/// `runtime_error`.
pub open spec fn rsmpeg_category(debug: Seq<char>) -> Seq<char> {
    if starts_with(debug, "OpenInputError"@) || starts_with(debug, "FindStreamInfoError"@)
        || starts_with(debug, "AVError"@) {
        "io_error"@
    } else if starts_with(debug, "SendPacket"@) || starts_with(debug, "ReceiveFrame"@)
        || starts_with(debug, "Decoder"@) {
        "decode_error"@
    } else if starts_with(debug, "SendFrame"@) || starts_with(debug, "ReceivePacket"@)
        || starts_with(debug, "Encoder"@) {
        "encode_error"@
    } else {
        "runtime_error"@
    }
}

/// Classify an FFmpeg binding error by its debug text, which starts with
/// the variant's name.
pub fn classify_rsmpeg_error(debug: &str) -> (r: &'static str)
    ensures
        r@ == rsmpeg_category(debug@),
{
    if has_prefix(debug, "OpenInputError") || has_prefix(debug, "FindStreamInfoError")
        || has_prefix(debug, "AVError") {
        "io_error"
    } else if has_prefix(debug, "SendPacket") || has_prefix(debug, "ReceiveFrame") || has_prefix(
        debug,
        "Decoder",
    ) {
        "decode_error"
    } else if has_prefix(debug, "SendFrame") || has_prefix(debug, "ReceivePacket") || has_prefix(
        debug,
        "Encoder",
    ) {
        "encode_error"
    } else {
        "runtime_error"
    }
}

/// What an FFmpeg binding error becomes.
pub open spec fn rsmpeg_error(debug: Seq<char>, display: Seq<char>) -> ErrorView {
    error(rsmpeg_category(debug), display)
}

/// Turn an FFmpeg binding error, given by its debug and display texts,
/// into a categorised error.
pub fn from_rsmpeg(debug: &str, display: &str) -> (e: NativeError)
    ensures
        e@ == rsmpeg_error(debug@, display@),
{
    NativeError::new(classify_rsmpeg_error(debug), display)
}

/// `AVERROR(EINVAL)`: the muxer refuses the streams it was given.
pub const AVERROR_EINVAL: i32 = -22;

/// `AVERROR_INVALIDDATA`: the codec tag does not fit the container.
pub const AVERROR_INVALIDDATA: i32 = -1094995529;

/// `AVERROR_PATCHWELCOME`: the container side is not implemented.
pub const AVERROR_PATCHWELCOME: i32 = -1163346256;

/// Whether a failed header write means that the container cannot hold the
/// streams, as opposed to a failure of the disk. `enosys` is the platform's
/// `AVERROR(ENOSYS)`: the muxer has no way to store the codec.
pub open spec fn header_refused(code: i32, enosys: i32) -> bool {
    code == AVERROR_EINVAL || code == enosys || code == AVERROR_INVALIDDATA || code
        == AVERROR_PATCHWELCOME
}

/// What a failed header write becomes.
pub open spec fn write_header_error(
    code: Option<i32>,
    enosys: i32,
    debug: Seq<char>,
    display: Seq<char>,
) -> ErrorView {
    if code is Some && header_refused(code->0, enosys) {
        error("unsupported"@, "the output container cannot hold these streams"@).with(
            "reason"@,
            display,
        )
    } else {
        rsmpeg_error(debug, display)
    }
}

/// Classify a failed header write. A codec that the container cannot hold
/// is `unsupported`; any other failure keeps its own category. `enosys` is
/// the platform's `AVERROR(ENOSYS)`.
pub fn classify_write_header_error(
    code: Option<i32>,
    enosys: i32,
    debug: &str,
    display: &str,
) -> (e: NativeError)
    ensures
        e@ == write_header_error(code, enosys, debug@, display@),
{
    if let Some(c) = code {
        if c == AVERROR_EINVAL || c == enosys || c == AVERROR_INVALIDDATA || c
            == AVERROR_PATCHWELCOME {
            return NativeError::new(
                "unsupported",
                "the output container cannot hold these streams",
            ).with_detail("reason", display.to_owned());
        }
    }
    from_rsmpeg(debug, display)
}

/// What an output path without a muxer becomes.
pub open spec fn no_muxer_error(output: Seq<char>) -> ErrorView {
    error("unsupported"@, "no muxer for the output extension"@).with("output"@, output)
}

/// Require that some muxer matches the output extension.
pub fn require_muxer(found: bool, output: &str) -> (r: Result<(), NativeError>)
    ensures
        outcome(r) == (if found {
            Ok(())
        } else {
            Err(no_muxer_error(output@))
        }),
{
    if found {
        Ok(())
    } else {
        Err(
            NativeError::new("unsupported", "no muxer for the output extension").with_detail(
                "output",
                output.to_owned(),
            ),
        )
    }
}

/// The payload of a caught panic, as far as it is text.
pub enum PanicPayload {
    Owned(String),
    Literal(String),
    Other,
}

/// How a protected call ended.
pub enum Protected<T> {
    Returned(Result<T, NativeError>),
    Panicked(PanicPayload),
}

/// What a caught panic says.
pub open spec fn panic_text(payload: PanicPayload) -> Seq<char> {
    match payload {
        PanicPayload::Owned(s) => s@,
        PanicPayload::Literal(s) => s@,
        PanicPayload::Other => "unknown panic"@,
    }
}

/// The answer of a protected call: its own result, or a `nif_panic` error
/// that carries the panic's message.
pub fn run_with_panic_protection<T>(call: Protected<T>) -> (r: Result<T, NativeError>)
    ensures
        match call {
            Protected::Returned(result) => r == result,
            Protected::Panicked(payload) => r is Err && r->Err_0@ == error(
                "nif_panic"@,
                panic_text(payload),
            ),
        },
{
    match call {
        Protected::Returned(result) => result,
        Protected::Panicked(payload) => {
            let e = match payload {
                PanicPayload::Owned(s) => NativeError::new("nif_panic", s.as_str()),
                PanicPayload::Literal(s) => NativeError::new("nif_panic", s.as_str()),
                PanicPayload::Other => NativeError::new("nif_panic", "unknown panic"),
            };
            Err(e)
        },
    }
}

/// An error keeps its category and its message when a detail is set, the
/// detail is there, and every other detail stays as it was.
pub proof fn law_details_are_kept(
    kind: Seq<char>,
    message: Seq<char>,
    e: ErrorView,
    key: Seq<char>,
    value: Seq<char>,
    other: Seq<char>,
)
    ensures
        error(kind, message).kind == kind,
        error(kind, message).message == message,
        !error(kind, message).details.dom().contains(other),
        e.with(key, value).kind == e.kind,
        e.with(key, value).message == e.message,
        e.with(key, value).details.contains_pair(key, value),
        other != key ==> (e.with(key, value).details.dom().contains(other)
            <==> e.details.dom().contains(other)),
        other != key && e.details.dom().contains(other) ==> e.with(key, value).details[other]
            == e.details[other],
{
}

proof fn lemma_prefix_differs(name: Seq<char>, rest: Seq<char>, prefix: Seq<char>, i: int)
    requires
        0 <= i < name.len(),
        i < prefix.len(),
        name[i] != prefix[i],
    ensures
        !starts_with(name + rest, prefix),
{
    let s = name + rest;
    assert(s[i] == name[i]);
    if starts_with(s, prefix) {
        assert(s.subrange(0, prefix.len() as int)[i] == s[i]);
    }
}

/// An FFmpeg error is sorted by the name that its text starts with,
/// whatever follows: what fails to open, to be examined or to be read is an
/// input or output error, what a decoder refuses is a decode error, and
/// what an encoder refuses is an encode error.
pub proof fn law_errors_are_sorted_by_name(rest: Seq<char>)
    ensures
        rsmpeg_category("OpenInputError"@ + rest) == "io_error"@,
        rsmpeg_category("FindStreamInfoError"@ + rest) == "io_error"@,
        rsmpeg_category("AVError"@ + rest) == "io_error"@,
        rsmpeg_category("SendPacket"@ + rest) == "decode_error"@,
        rsmpeg_category("ReceiveFrame"@ + rest) == "decode_error"@,
        rsmpeg_category("Decoder"@ + rest) == "decode_error"@,
        rsmpeg_category("SendFrame"@ + rest) == "encode_error"@,
        rsmpeg_category("ReceivePacket"@ + rest) == "encode_error"@,
        rsmpeg_category("Encoder"@ + rest) == "encode_error"@,
{
    reveal_strlit("OpenInputError");
    reveal_strlit("FindStreamInfoError");
    reveal_strlit("AVError");
    reveal_strlit("SendPacket");
    reveal_strlit("ReceiveFrame");
    reveal_strlit("Decoder");
    reveal_strlit("SendFrame");
    reveal_strlit("ReceivePacket");
    reveal_strlit("Encoder");
    law_prefix("OpenInputError"@, "OpenInputError"@, rest);
    law_prefix("FindStreamInfoError"@, "FindStreamInfoError"@, rest);
    law_prefix("AVError"@, "AVError"@, rest);
    law_prefix("SendPacket"@, "SendPacket"@, rest);
    law_prefix("ReceiveFrame"@, "ReceiveFrame"@, rest);
    law_prefix("Decoder"@, "Decoder"@, rest);
    law_prefix("SendFrame"@, "SendFrame"@, rest);
    law_prefix("ReceivePacket"@, "ReceivePacket"@, rest);
    law_prefix("Encoder"@, "Encoder"@, rest);
    lemma_prefix_differs("SendPacket"@, rest, "OpenInputError"@, 0);
    lemma_prefix_differs("SendPacket"@, rest, "FindStreamInfoError"@, 0);
    lemma_prefix_differs("SendPacket"@, rest, "AVError"@, 0);
    lemma_prefix_differs("ReceiveFrame"@, rest, "OpenInputError"@, 0);
    lemma_prefix_differs("ReceiveFrame"@, rest, "FindStreamInfoError"@, 0);
    lemma_prefix_differs("ReceiveFrame"@, rest, "AVError"@, 0);
    lemma_prefix_differs("Decoder"@, rest, "OpenInputError"@, 0);
    lemma_prefix_differs("Decoder"@, rest, "FindStreamInfoError"@, 0);
    lemma_prefix_differs("Decoder"@, rest, "AVError"@, 0);
    lemma_prefix_differs("SendFrame"@, rest, "OpenInputError"@, 0);
    lemma_prefix_differs("SendFrame"@, rest, "FindStreamInfoError"@, 0);
    lemma_prefix_differs("SendFrame"@, rest, "AVError"@, 0);
    lemma_prefix_differs("SendFrame"@, rest, "SendPacket"@, 4);
    lemma_prefix_differs("SendFrame"@, rest, "ReceiveFrame"@, 0);
    lemma_prefix_differs("SendFrame"@, rest, "Decoder"@, 0);
    lemma_prefix_differs("ReceivePacket"@, rest, "OpenInputError"@, 0);
    lemma_prefix_differs("ReceivePacket"@, rest, "FindStreamInfoError"@, 0);
    lemma_prefix_differs("ReceivePacket"@, rest, "AVError"@, 0);
    lemma_prefix_differs("ReceivePacket"@, rest, "SendPacket"@, 0);
    lemma_prefix_differs("ReceivePacket"@, rest, "ReceiveFrame"@, 7);
    lemma_prefix_differs("ReceivePacket"@, rest, "Decoder"@, 0);
    lemma_prefix_differs("Encoder"@, rest, "OpenInputError"@, 0);
    lemma_prefix_differs("Encoder"@, rest, "FindStreamInfoError"@, 0);
    lemma_prefix_differs("Encoder"@, rest, "AVError"@, 0);
    lemma_prefix_differs("Encoder"@, rest, "SendPacket"@, 0);
    lemma_prefix_differs("Encoder"@, rest, "ReceiveFrame"@, 0);
    lemma_prefix_differs("Encoder"@, rest, "Decoder"@, 0);
}

/// A text that starts with none of the known names is a runtime error, and
/// the error says what FFmpeg says, without details.
pub proof fn law_other_errors_are_runtime_errors(debug: Seq<char>, display: Seq<char>)
    requires
        !starts_with(debug, "OpenInputError"@),
        !starts_with(debug, "FindStreamInfoError"@),
        !starts_with(debug, "AVError"@),
        !starts_with(debug, "SendPacket"@),
        !starts_with(debug, "ReceiveFrame"@),
        !starts_with(debug, "Decoder"@),
        !starts_with(debug, "SendFrame"@),
        !starts_with(debug, "ReceivePacket"@),
        !starts_with(debug, "Encoder"@),
    ensures
        rsmpeg_category(debug) == "runtime_error"@,
        rsmpeg_error(debug, display).kind == "runtime_error"@,
{
}

/// An FFmpeg error keeps its category and says what FFmpeg says.
pub proof fn law_ffmpeg_errors_keep_their_text(debug: Seq<char>, display: Seq<char>)
    ensures
        rsmpeg_error(debug, display).kind == rsmpeg_category(debug),
        rsmpeg_error(debug, display).message == display,
        rsmpeg_error(debug, display).details.dom() == Set::<Seq<char>>::empty(),
{
}

/// A header that the muxer refuses is `unsupported` and carries the reason:
/// for an invalid argument, for what is not implemented on this platform,
/// for invalid data and for what nobody wrote yet. Any other failure is
/// sorted like every FFmpeg error.
pub proof fn law_refused_headers_are_unsupported(
    code: i32,
    enosys: i32,
    debug: Seq<char>,
    display: Seq<char>,
)
    ensures
        code == -22 || code == enosys || code == -1094995529 || code == -1163346256 ==> {
            let e = write_header_error(Some(code), enosys, debug, display);
            &&& e.kind == "unsupported"@
            &&& e.details.contains_pair("reason"@, display)
        },
        code != -22 && code != enosys && code != -1094995529 && code != -1163346256 ==> {
            let e = write_header_error(Some(code), enosys, debug, display);
            &&& e.kind == rsmpeg_category(debug)
            &&& e.message == display
        },
        write_header_error(None, enosys, debug, display).kind == rsmpeg_category(debug),
        write_header_error(None, enosys, debug, display).message == display,
{
}

/// An output without a muxer is `unsupported` and names the output; a panic
/// says what it was given, where that is text.
pub proof fn law_other_answers(output: Seq<char>, text: String)
    ensures
        no_muxer_error(output).kind == "unsupported"@,
        no_muxer_error(output).details.contains_pair("output"@, output),
        panic_text(PanicPayload::Owned(text)) == text@,
        panic_text(PanicPayload::Literal(text)) == text@,
{
}

/// The outcome of a result is its value, or what its error says.
pub proof fn law_outcome<T>(value: T, e: NativeError)
    ensures
        outcome(Ok::<T, NativeError>(value)) == Ok::<T, ErrorView>(value),
        outcome(Err::<T, NativeError>(e)) == Err::<T, ErrorView>(e@),
{
}

/// A map built from pairs with distinct keys holds every pair, and nothing
/// else.
pub proof fn law_pairs_are_kept(pairs: Seq<(String, String)>, i: int, key: Seq<char>)
    requires
        distinct_keys(pairs),
        0 <= i < pairs.len(),
    ensures
        pairs_map(pairs).contains_pair(pairs[i].0@, pairs[i].1@),
        pairs_map(pairs).dom().contains(key) ==> exists|j: int|
            0 <= j < pairs.len() && (#[trigger] pairs[j]).0@ == key,
        forall|j: int| 0 <= j < pairs.len() && j != i ==> (#[trigger] pairs[j]).0@ != pairs[i].0@,
{
    lemma_pairs_map(pairs);
    assert(pairs_map(pairs).dom().contains(pairs[i].0@));
    assert forall|j: int| 0 <= j < pairs.len() && j != i implies (#[trigger] pairs[j]).0@
        != pairs[i].0@ by {
        if j < i {
            assert(pairs[j].0@ != pairs[i].0@);
        } else {
            assert(pairs[i].0@ != pairs[j].0@);
        }
    }
}

} // verus!
