//! Atomic output writes.
//!
//! Every operation that produces a file writes to a sibling
//! `<stem>.partial.<nonce>.<ext>` and the file is renamed onto the
//! destination only after the operation succeeded. On any failure the
//! partial file is removed. The partial file lies in the destination's
//! directory, so the rename stays on one file system, and it keeps the
//! destination's extension, because the muxer is picked by it.

use crate::errors::{error, outcome, ErrorView, NativeError};
use crate::path::{
    extension, extension_of, file_name, is_letter, join, last_component, last_dot,
    lemma_append_extension, lemma_join_parts, lemma_last_component, lemma_last_dot,
    lemma_strip, name_extension, name_start, name_stem, parent, path_file_name, path_join,
    path_parent, stem_of, strip, PathStyle,
};
use crate::text::{
    before, behind, decimal, digit, hex_fixed, hex_text, hex_value, law_decimal_reads_back,
    law_hex_reads_back, lemma_cut, nat_text, number, power_of_16, starts_with,
};
use vstd::prelude::*;

verus! {

/// The token that makes a partial path unique: a random base per process,
/// the process id, a counter and a time.
pub open spec fn nonce_text(base: u64, pid: u32, counter: u64, nanos: u128) -> Seq<char> {
    hex_fixed(base as nat, 16).push('.') + (decimal(pid as nat).push('.') + (decimal(
        counter as nat,
    ).push('.') + decimal(nanos as nat)))
}

/// Hands out tokens; no two are alike until the counter comes round.
#[derive(Debug)]
pub struct NonceSource {
    pub base: u64,
    pub pid: u32,
    pub next: u64,
}

impl NonceSource {
    /// A source for this process.
    pub fn new(base: u64, pid: u32) -> (s: Self)
        ensures
            s == (NonceSource { base, pid, next: 0 }),
    {
        NonceSource { base, pid, next: 0 }
    }

    /// The next token.
    pub fn partial_nonce(&mut self, nanos: u128) -> (r: String)
        ensures
            r@ == nonce_text(old(self).base, old(self).pid, old(self).next, nanos),
            final(self).base == old(self).base,
            final(self).pid == old(self).pid,
            final(self).next == (if old(self).next == u64::MAX {
                0
            } else {
                old(self).next + 1
            }),
    {
        proof {
            reveal_strlit(".");
        }
        let mut r = hex_text(self.base, 16);
        r.append(".");
        let pid = nat_text(self.pid as u128);
        r.append(pid.as_str());
        r.append(".");
        let counter = nat_text(self.next as u128);
        r.append(counter.as_str());
        r.append(".");
        let time = nat_text(nanos);
        r.append(time.as_str());
        assert(r@ =~= nonce_text(self.base, self.pid, self.next, nanos));
        self.next = self.next.wrapping_add(1);
        r
    }
}

/// The partial file's name.
pub open spec fn partial_name(style: PathStyle, final_path: Seq<char>, nonce: Seq<char>) -> Seq<
    char,
> {
    match file_name(style, final_path) {
        Some(n) => match extension_of(n) {
            Some(e) => (stem_of(n) + ".partial."@ + nonce).push('.') + e,
            None => stem_of(n) + ".partial."@ + nonce,
        },
        None => ".partial."@ + nonce,
    }
}

/// The partial file's path: a sibling of the destination.
pub open spec fn partial_path(style: PathStyle, final_path: Seq<char>, nonce: Seq<char>) -> Seq<
    char,
> {
    match parent(style, final_path) {
        Some(d) => join(style, d, partial_name(style, final_path, nonce)),
        None => partial_name(style, final_path, nonce),
    }
}

/// The path that an operation writes to before the rename.
pub fn partial_path_for(style: PathStyle, final_path: &str, nonce: &str) -> (r: String)
    ensures
        r@ == partial_path(style, final_path@, nonce@),
{
    let name: String = match path_file_name(style, final_path) {
        Some(n) => {
            let mut s = name_stem(n.as_str());
            s.append(".partial.");
            s.append(nonce);
            if let Some(e) = name_extension(n.as_str()) {
                proof {
                    reveal_strlit(".");
                }
                let ghost before = s@;
                s.append(".");
                assert(s@ =~= before.push('.'));
                s.append(e.as_str());
            }
            s
        },
        None => {
            let mut s = ".partial.".to_owned();
            s.append(nonce);
            s
        },
    };
    assert(name@ =~= partial_name(style, final_path@, nonce@));
    match path_parent(style, final_path) {
        Some(d) => path_join(style, d.as_str(), name.as_str()),
        None => name,
    }
}

/// A character of a protocol name.
pub open spec fn is_scheme_char(c: char) -> bool {
    is_letter(c) || ('0' <= c && c <= '9') || c == '+' || c == '-' || c == '.'
}

/// The text starts with a protocol name of `n` characters and `://`. One
/// letter is a drive, not a protocol.
pub open spec fn scheme_of_length(p: Seq<char>, n: int) -> bool {
    &&& 2 <= n
    &&& n + 3 <= p.len()
    &&& is_letter(p[0])
    &&& forall|i: int| 0 <= i < n ==> is_scheme_char(#[trigger] p[i])
    &&& p[n] == ':'
    &&& p[n + 1] == '/'
    &&& p[n + 2] == '/'
}

/// Whether a path looks like a protocol URL.
pub open spec fn looks_like_url(p: Seq<char>) -> bool {
    exists|n: int| #[trigger] scheme_of_length(p, n)
}

/// Whether a path looks like a protocol URL, such as `http://host/out.mp4`.
pub fn is_url(p: &str) -> (r: bool)
    ensures
        r == looks_like_url(p@),
{
    let total: usize = p.unicode_len();
    let mut n: usize = 0;
    while n < total
        invariant
            total == p@.len(),
            n <= total,
            n > 0 ==> is_letter(p@[0]),
            forall|i: int| 0 <= i < n ==> is_scheme_char(#[trigger] p@[i]),
            forall|k: int| 0 <= k <= n && k < p@.len() && p@[k] != ':' ==> !(
            #[trigger] scheme_of_length(p@, k)),
            forall|k: int| 0 <= k < n ==> !(#[trigger] scheme_of_length(p@, k)),
        decreases total - n,
    {
        let c = p.get_char(n);
        if c == ':' {
            let found = n >= 2 && total - n >= 3 && p.get_char(n + 1) == '/' && p.get_char(n + 2)
                == '/';
            proof {
                if found {
                    assert(scheme_of_length(p@, n as int));
                } else {
                    assert(!scheme_of_length(p@, n as int));
                    assert forall|k: int| #[trigger] scheme_of_length(p@, k) implies false by {
                        if k > n {
                            assert(is_scheme_char(p@[n as int]));
                        }
                    }
                }
            }
            return found;
        }
        let letter = ('a' <= c && c <= 'z') || ('A' <= c && c <= 'Z');
        let scheme = letter || ('0' <= c && c <= '9') || c == '+' || c == '-' || c == '.';
        if !scheme || (n == 0 && !letter) {
            proof {
                assert forall|k: int| #[trigger] scheme_of_length(p@, k) implies false by {
                    if k > n {
                        assert(is_scheme_char(p@[n as int]));
                    }
                }
            }
            return false;
        }
        n = n + 1;
    }
    false
}

/// What an output path that looks like a URL is answered.
pub open spec fn url_error(output: Seq<char>) -> ErrorView {
    error("invalid_request"@, "output must be a local path, not a URL"@).with("output"@, output)
}

/// Accept local output paths only, before any work is done.
pub fn check_output_path(output: &str) -> (r: Result<(), NativeError>)
    ensures
        outcome(r) == (if looks_like_url(output@) {
            Err(url_error(output@))
        } else {
            Ok(())
        }),
{
    if is_url(output) {
        Err(
            NativeError::new(
                "invalid_request",
                "output must be a local path, not a URL",
            ).with_detail("output", output.to_owned()),
        )
    } else {
        Ok(())
    }
}

/// Stands for the partial file while it must not survive: armed, it asks
/// for the file's removal when the call ends, however it ends.
#[derive(Debug)]
pub struct PartialGuard<'a> {
    pub partial: &'a str,
    pub armed: bool,
}

impl<'a> PartialGuard<'a> {
    /// A guard that asks for removal.
    pub fn new(partial: &'a str) -> (g: Self)
        ensures
            g.partial@ == partial@,
            g.armed,
    {
        PartialGuard { partial, armed: true }
    }

    /// The partial file is gone, by the rename; nothing is left to remove.
    pub fn disarm(&mut self)
        ensures
            final(self).partial@ == old(self).partial@,
            !final(self).armed,
    {
        self.armed = false;
    }

    /// The file to remove when the call ends, if any.
    pub fn removal(&self) -> (r: Option<&'a str>)
        ensures
            r is Some <==> self.armed,
            r is Some ==> r->0@ == self.partial@,
    {
        if self.armed {
            Some(self.partial)
        } else {
            None
        }
    }
}

/// How far a guarded write is.
#[derive(Debug, Clone, Copy, PartialEq, Eq, Structural)]
pub enum WriteStage {
    /// The operation writes the partial file.
    Writing,
    /// The operation succeeded; the rename is next.
    Renaming,
    /// The operation failed, or panicked.
    Failed,
    /// The destination holds the complete file.
    Renamed,
    /// The rename failed.
    RenameFailed,
}

/// What to do after the operation.
#[derive(Debug, Clone, Copy, PartialEq, Eq, Structural)]
pub enum AfterBody {
    /// Rename the partial file onto the destination.
    Rename,
    /// Give up; the partial file is removed.
    Discard,
}

/// One guarded write.
#[derive(Debug)]
pub struct AtomicWrite {
    pub final_path: String,
    pub partial: String,
    pub stage: WriteStage,
}

/// What a failed rename is answered.
pub open spec fn rename_error(from: Seq<char>, to: Seq<char>, cause: Seq<char>) -> ErrorView {
    error("io_error"@, "could not rename partial output onto destination"@).with("from"@, from).with(
        "to"@,
        to,
    ).with("cause"@, cause)
}

/// Where a guarded write is after its operation.
pub open spec fn after_body(succeeded: bool) -> WriteStage {
    if succeeded {
        WriteStage::Renaming
    } else {
        WriteStage::Failed
    }
}

/// Where a guarded write is after its rename.
pub open spec fn after_rename(succeeded: bool) -> WriteStage {
    if succeeded {
        WriteStage::Renamed
    } else {
        WriteStage::RenameFailed
    }
}

/// Whether the partial file is to be removed if the call ends here.
pub open spec fn leaves_partial(stage: WriteStage) -> bool {
    !(stage is Renamed)
}

impl AtomicWrite {
    /// Start a guarded write to a local destination.
    pub fn start(style: PathStyle, final_path: &str, nonce: &str) -> (r: Result<Self, NativeError>)
        ensures
            match r {
                Ok(w) => {
                    &&& !looks_like_url(final_path@)
                    &&& w.final_path@ == final_path@
                    &&& w.partial@ == partial_path(style, final_path@, nonce@)
                    &&& w.stage is Writing
                },
                Err(e) => looks_like_url(final_path@) && e@ == url_error(final_path@),
            },
    {
        match check_output_path(final_path) {
            Err(e) => Err(e),
            Ok(_) => Ok(
                AtomicWrite {
                    final_path: final_path.to_owned(),
                    partial: partial_path_for(style, final_path, nonce),
                    stage: WriteStage::Writing,
                },
            ),
        }
    }

    /// The operation ended.
    pub fn body_done(&mut self, succeeded: bool) -> (r: AfterBody)
        requires
            old(self).stage is Writing,
        ensures
            final(self).final_path@ == old(self).final_path@,
            final(self).partial@ == old(self).partial@,
            final(self).stage == after_body(succeeded),
            r == (if succeeded {
                AfterBody::Rename
            } else {
                AfterBody::Discard
            }),
    {
        if succeeded {
            self.stage = WriteStage::Renaming;
            AfterBody::Rename
        } else {
            self.stage = WriteStage::Failed;
            AfterBody::Discard
        }
    }

    /// The rename ended; `cause` says why it failed, if it did.
    pub fn rename_done(&mut self, cause: Option<&str>) -> (r: Result<(), NativeError>)
        requires
            old(self).stage is Renaming,
        ensures
            final(self).final_path@ == old(self).final_path@,
            final(self).partial@ == old(self).partial@,
            final(self).stage == after_rename(cause is None),
            outcome(r) == (match cause {
                None => Ok(()),
                Some(why) => Err(
                    rename_error(old(self).partial@, old(self).final_path@, why@),
                ),
            }),
    {
        match cause {
            None => {
                self.stage = WriteStage::Renamed;
                Ok(())
            },
            Some(why) => {
                self.stage = WriteStage::RenameFailed;
                Err(
                    NativeError::new(
                        "io_error",
                        "could not rename partial output onto destination",
                    ).with_detail("from", self.partial.clone()).with_detail(
                        "to",
                        self.final_path.clone(),
                    ).with_detail("cause", why.to_owned()),
                )
            },
        }
    }

    /// The file to remove if the call ended now: the partial file, unless
    /// it was renamed.
    pub fn leftover(&self) -> (r: Option<&str>)
        ensures
            r is Some <==> leaves_partial(self.stage),
            r is Some ==> r->0@ == self.partial@,
    {
        let mut guard = PartialGuard::new(self.partial.as_str());
        if self.stage == WriteStage::Renamed {
            guard.disarm();
        }
        guard.removal()
    }
}

/// However a guarded write ends, either the complete file was renamed onto
/// the destination and nothing is left over, or the destination was not
/// touched and the partial file is to be removed. A write that is cut off
/// by a panic, in any stage before the rename succeeded, leaves the partial
/// file to be removed too.
pub proof fn law_all_or_nothing(body_succeeds: bool, rename_succeeds: bool)
    ensures
        leaves_partial(WriteStage::Writing),
        leaves_partial(after_body(body_succeeds)),
        !body_succeeds ==> !(after_body(body_succeeds) is Renaming),
        leaves_partial(after_rename(rename_succeeds)) <==> !rename_succeeds,
        after_rename(rename_succeeds) is Renamed <==> rename_succeeds,
{
}

/// The partial file is a sibling of the destination: it has the same
/// parent, its name starts with the stem and the marker, and it keeps the
/// extension last.
pub proof fn law_partial_is_a_sibling(style: PathStyle, final_path: Seq<char>, nonce: Seq<char>)
    requires
        file_name(style, final_path) is Some,
        forall|i: int| 0 <= i < nonce.len() ==> !style.separates(#[trigger] nonce[i]),
    ensures
        parent(style, partial_path(style, final_path, nonce)) == parent(style, final_path),
        file_name(style, partial_path(style, final_path, nonce)) == Some(
            partial_name(style, final_path, nonce),
        ),
        starts_with(
            partial_name(style, final_path, nonce),
            stem_of(file_name(style, final_path)->0) + ".partial."@,
        ),
        extension(style, final_path) is Some ==> extension(
            style,
            partial_path(style, final_path, nonce),
        ) == extension(style, final_path),
{
    reveal_strlit(".partial.");
    let s = strip(style, style.behind_drive(final_path));
    let n = file_name(style, final_path)->0;
    lemma_last_component(style, s);
    lemma_last_dot(n);
    assert(n == last_component(style, s));
    assert(forall|i: int| 0 <= i < n.len() ==> n[i] == s[i + name_start(style, s)]);
    let name = partial_name(style, final_path, nonce);
    let front = stem_of(n) + ".partial."@;
    assert(forall|i: int| 0 <= i < stem_of(n).len() ==> stem_of(n)[i] == n[i]);
    assert(name.len() > 2);
    assert(name.subrange(0, front.len() as int) =~= front);
    match extension_of(n) {
        Some(e) => {
            let d = last_dot(n)->0;
            assert(forall|i: int| 0 <= i < e.len() ==> e[i] == n[i + d + 1]);
            lemma_append_extension(front + nonce, e);
            assert(name.skip((front + nonce).len() as int + 1) =~= e);
        },
        None => {},
    }
    assert forall|i: int| 0 <= i < name.len() implies !style.separates(#[trigger] name[i]) by {
        if i < stem_of(n).len() {
            assert(name[i] == stem_of(n)[i]);
        } else if i < front.len() {
            assert(name[i] == ".partial."@[i - stem_of(n).len()]);
        } else if i < front.len() + nonce.len() {
            assert(name[i] == nonce[i - front.len()]);
        } else {
            let e = extension_of(n)->0;
            let d = last_dot(n)->0;
            if i > front.len() + nonce.len() {
                assert(name[i] == e[i - front.len() - nonce.len() - 1]);
                assert(e[i - front.len() - nonce.len() - 1] == n[i - front.len() - nonce.len()
                    + d]);
            }
        }
    }
    let dir = parent(style, final_path)->0;
    if dir.len() == 0 {
        // The name is the whole path, and starts as the path does.
        lemma_strip(style, style.behind_drive(final_path));
        lemma_strip(style, s.take(name_start(style, s) as int));
        assert(name_start(style, s) == 0);
        assert(style.drive(final_path) == 0);
        assert(style.behind_drive(final_path) =~= final_path);
        assert(forall|i: int| 0 <= i < n.len() ==> n[i] == final_path[i]);
        if stem_of(n).len() >= 2 {
            assert(name[0] == n[0]);
            assert(name[1] == n[1]);
        } else {
            assert(name[1] == ".partial."@[1 - stem_of(n).len()]);
        }
    }
    lemma_join_parts(style, final_path, name);
}

/// Different tokens give different partial paths for one destination.
pub proof fn law_partial_path_follows_nonce(
    style: PathStyle,
    final_path: Seq<char>,
    a: Seq<char>,
    b: Seq<char>,
)
    requires
        partial_path(style, final_path, a) == partial_path(style, final_path, b),
    ensures
        a == b,
{
    let na = partial_name(style, final_path, a);
    let nb = partial_name(style, final_path, b);
    let pa = partial_path(style, final_path, a);
    let pb = partial_path(style, final_path, b);
    let head = match parent(style, final_path) {
        Some(d) => join(style, d, seq![]),
        None => seq![],
    };
    assert(pa =~= head + na);
    assert(pb =~= head + nb);
    assert(na =~= pa.skip(head.len() as int));
    assert(nb =~= pb.skip(head.len() as int));
    let front = match file_name(style, final_path) {
        Some(n) => stem_of(n) + ".partial."@,
        None => ".partial."@,
    };
    let back = match file_name(style, final_path) {
        Some(n) => match extension_of(n) {
            Some(e) => seq!['.'] + e,
            None => seq![],
        },
        None => seq![],
    };
    assert(na =~= front + a + back);
    assert(nb =~= front + b + back);
    assert(a.len() == b.len());
    assert(a =~= na.subrange(front.len() as int, (front.len() + a.len()) as int));
    assert(b =~= nb.subrange(front.len() as int, (front.len() + b.len()) as int));
}

proof fn lemma_decimal_chars(n: nat)
    ensures
        decimal(n).len() > 0,
        forall|i: int| 0 <= i < decimal(n).len() ==> decimal(n)[i] != '.' && decimal(n)[i] != '/'
            && decimal(n)[i] != '\\',
    decreases n,
{
    if n >= 10 {
        lemma_decimal_chars(n / 10);
    }
}

proof fn lemma_digit_injective(a: nat, b: nat)
    requires
        a < 16,
        b < 16,
        digit(a) == digit(b),
    ensures
        a == b,
{
}

proof fn lemma_decimal_injective(a: nat, b: nat)
    requires
        decimal(a) == decimal(b),
    ensures
        a == b,
    decreases a,
{
    let da = decimal(a);
    let db = decimal(b);
    assert(da.last() == db.last());
    assert(da.drop_last() == db.drop_last());
    if a < 10 && b < 10 {
        lemma_digit_injective(a, b);
    } else if a < 10 {
        lemma_decimal_chars(b / 10);
        assert(db.drop_last() =~= decimal(b / 10));
        assert(da.drop_last().len() == 0);
    } else if b < 10 {
        lemma_decimal_chars(a / 10);
        assert(da.drop_last() =~= decimal(a / 10));
        assert(db.drop_last().len() == 0);
    } else {
        assert(da.drop_last() =~= decimal(a / 10));
        assert(db.drop_last() =~= decimal(b / 10));
        lemma_decimal_injective(a / 10, b / 10);
        lemma_digit_injective(a % 10, b % 10);
    }
}

proof fn lemma_hex_fixed(a: nat, b: nat, width: nat)
    ensures
        hex_fixed(a, width).len() == width,
        forall|i: int| 0 <= i < width ==> hex_fixed(a, width)[i] != '.' && hex_fixed(a, width)[i]
            != '/' && hex_fixed(a, width)[i] != '\\',
        hex_fixed(a, width) == hex_fixed(b, width) ==> a % pow16(width) == b % pow16(width),
    decreases width,
{
    if width > 0 {
        let w = (width - 1) as nat;
        lemma_hex_fixed(a / 16, b / 16, w);
        lemma_hex_fixed(b / 16, a / 16, w);
        if hex_fixed(a, width) == hex_fixed(b, width) {
            assert(hex_fixed(a, width).drop_last() =~= hex_fixed(a / 16, w));
            assert(hex_fixed(b, width).drop_last() =~= hex_fixed(b / 16, w));
            assert(hex_fixed(a, width).last() == hex_fixed(b, width).last());
            lemma_digit_injective(a % 16, b % 16);
            lemma_split_mod(a, w);
            lemma_split_mod(b, w);
        }
    }
}

spec fn pow16(n: nat) -> nat
    decreases n,
{
    if n == 0 {
        1
    } else {
        16 * pow16((n - 1) as nat)
    }
}

proof fn lemma_pow16_positive(n: nat)
    ensures
        pow16(n) > 0,
    decreases n,
{
    if n > 0 {
        lemma_pow16_positive((n - 1) as nat);
    }
}

proof fn lemma_split_mod(a: nat, w: nat)
    ensures
        a % pow16(w + 1) == 16 * ((a / 16) % pow16(w)) + a % 16,
{
    lemma_pow16_positive(w);
    let m = pow16(w);
    let q = a / 16;
    let r = a % 16;
    let qq = q / m;
    let qr = q % m;
    assert(pow16(w + 1) == 16 * m);
    assert(q == m * qq + qr && 0 <= qr < m) by (nonlinear_arith)
        requires
            m > 0,
            qq == q / m,
            qr == q % m,
    ;
    assert(a == (16 * m) * qq + (16 * qr + r)) by (nonlinear_arith)
        requires
            a == 16 * q + r,
            q == m * qq + qr,
    ;
    assert(0 <= 16 * qr + r < 16 * m);
    vstd::arithmetic::div_mod::lemma_fundamental_div_mod_converse(
        a as int,
        (16 * m) as int,
        qq as int,
        (16 * qr + r) as int,
    );
}

proof fn lemma_split_at_dot(a: Seq<char>, x: Seq<char>, b: Seq<char>, y: Seq<char>)
    requires
        a.push('.') + x == b.push('.') + y,
        forall|i: int| 0 <= i < a.len() ==> a[i] != '.',
        forall|i: int| 0 <= i < b.len() ==> b[i] != '.',
    ensures
        a == b,
        x == y,
{
    let s = a.push('.') + x;
    let t = b.push('.') + y;
    assert(s[a.len() as int] == '.');
    assert(t[b.len() as int] == '.');
    if a.len() < b.len() {
        assert(t[a.len() as int] == b[a.len() as int]);
    } else if b.len() < a.len() {
        assert(s[b.len() as int] == a[b.len() as int]);
    }
    assert(a.len() == b.len());
    assert(a =~= s.take(a.len() as int));
    assert(b =~= t.take(b.len() as int));
    assert(x =~= s.skip(a.len() as int + 1));
    assert(y =~= t.skip(b.len() as int + 1));
}

/// Equal tokens come from equal parts: tokens that differ in the base, the
/// process id, the counter or the time are different.
pub proof fn law_nonce_is_unique(
    base1: u64,
    pid1: u32,
    counter1: u64,
    nanos1: u128,
    base2: u64,
    pid2: u32,
    counter2: u64,
    nanos2: u128,
)
    requires
        nonce_text(base1, pid1, counter1, nanos1) == nonce_text(base2, pid2, counter2, nanos2),
    ensures
        base1 == base2,
        pid1 == pid2,
        counter1 == counter2,
        nanos1 == nanos2,
{
    let h1 = hex_fixed(base1 as nat, 16);
    let h2 = hex_fixed(base2 as nat, 16);
    lemma_hex_fixed(base1 as nat, base2 as nat, 16);
    lemma_hex_fixed(base2 as nat, base1 as nat, 16);
    let c1 = decimal(counter1 as nat).push('.') + decimal(nanos1 as nat);
    let c2 = decimal(counter2 as nat).push('.') + decimal(nanos2 as nat);
    lemma_decimal_chars(pid1 as nat);
    lemma_decimal_chars(pid2 as nat);
    lemma_decimal_chars(counter1 as nat);
    lemma_decimal_chars(counter2 as nat);
    lemma_split_at_dot(
        h1,
        decimal(pid1 as nat).push('.') + c1,
        h2,
        decimal(pid2 as nat).push('.') + c2,
    );
    lemma_split_at_dot(decimal(pid1 as nat), c1, decimal(pid2 as nat), c2);
    lemma_split_at_dot(
        decimal(counter1 as nat),
        decimal(nanos1 as nat),
        decimal(counter2 as nat),
        decimal(nanos2 as nat),
    );
    lemma_decimal_injective(pid1 as nat, pid2 as nat);
    lemma_decimal_injective(counter1 as nat, counter2 as nat);
    lemma_decimal_injective(nanos1 as nat, nanos2 as nat);
    reveal_with_fuel(pow16, 17);
    assert(pow16(16) == 0x1_0000_0000_0000_0000);
}

/// Two writes of one process to the same destination never share a partial
/// path, whatever the times.
pub proof fn law_partial_paths_never_collide(
    style: PathStyle,
    final_path: Seq<char>,
    base: u64,
    pid: u32,
    counter1: u64,
    nanos1: u128,
    counter2: u64,
    nanos2: u128,
)
    requires
        counter1 != counter2,
    ensures
        partial_path(style, final_path, nonce_text(base, pid, counter1, nanos1)) != partial_path(
            style,
            final_path,
            nonce_text(base, pid, counter2, nanos2),
        ),
{
    let a = nonce_text(base, pid, counter1, nanos1);
    let b = nonce_text(base, pid, counter2, nanos2);
    if partial_path(style, final_path, a) == partial_path(style, final_path, b) {
        law_partial_path_follows_nonce(style, final_path, a, b);
        law_nonce_is_unique(base, pid, counter1, nanos1, base, pid, counter2, nanos2);
    }
}

/// A token holds no separator, so the partial file is a sibling of the
/// destination for every token.
pub proof fn law_nonce_has_no_separator(
    style: PathStyle,
    base: u64,
    pid: u32,
    counter: u64,
    nanos: u128,
)
    ensures
        forall|i: int|
            0 <= i < nonce_text(base, pid, counter, nanos).len() ==> !style.separates(
                #[trigger] nonce_text(base, pid, counter, nanos)[i],
            ),
{
    lemma_hex_fixed(base as nat, base as nat, 16);
    lemma_decimal_chars(pid as nat);
    lemma_decimal_chars(counter as nat);
    lemma_decimal_chars(nanos as nat);
}

/// The four parts of a token can be read back from it, between its dots:
/// the base in base sixteen, the others in base ten.
pub proof fn law_nonce_reads_back(base: u64, pid: u32, counter: u64, nanos: u128)
    ensures
        ({
            let n = nonce_text(base, pid, counter, nanos);
            let n1 = behind(n, '.');
            let n2 = behind(n1, '.');
            &&& hex_value(before(n, '.')) == base
            &&& before(n, '.').len() == 16
            &&& number(before(n1, '.')) == pid
            &&& number(before(n2, '.')) == counter
            &&& number(behind(n2, '.')) == nanos
        }),
{
    assert(power_of_16(16) == 0x1_0000_0000_0000_0000) by {
        reveal_with_fuel(power_of_16, 17);
    }
    let b = hex_fixed(base as nat, 16);
    let p = decimal(pid as nat);
    let c = decimal(counter as nat);
    let t = decimal(nanos as nat);
    law_hex_reads_back(base as nat, 16);
    lemma_hex_fixed(base as nat, base as nat, 16);
    law_decimal_reads_back(pid as nat);
    law_decimal_reads_back(counter as nat);
    law_decimal_reads_back(nanos as nat);
    assert(nonce_text(base, pid, counter, nanos) =~= b + seq!['.'] + (p + seq!['.'] + (c + seq!['.']
        + t)));
    lemma_cut(b, '.', p + seq!['.'] + (c + seq!['.'] + t));
    lemma_cut(p, '.', c + seq!['.'] + t);
    lemma_cut(c, '.', t);
}

/// A partial file's name is the destination's stem, the marker and the
/// token, and behind them the destination's extension where it has one;
/// without a name the marker and the token alone.
pub proof fn law_partial_name_holds_the_token(
    style: PathStyle,
    final_path: Seq<char>,
    nonce: Seq<char>,
)
    ensures
        ({
            let name = partial_name(style, final_path, nonce);
            let marker = seq!['.', 'p', 'a', 'r', 't', 'i', 'a', 'l', '.'];
            let stem = match file_name(style, final_path) {
                Some(n) => stem_of(n),
                None => seq![],
            };
            let front = stem + marker + nonce;
            &&& name.take(front.len() as int) == front
            &&& extension(style, final_path) matches Some(e) ==> name == front.push('.') + e
            &&& extension(style, final_path) is None ==> name == front
        }),
{
    reveal_strlit(".partial.");
    let marker = seq!['.', 'p', 'a', 'r', 't', 'i', 'a', 'l', '.'];
    assert(".partial."@ =~= marker);
    let name = partial_name(style, final_path, nonce);
    let stem = match file_name(style, final_path) {
        Some(n) => stem_of(n),
        None => seq![],
    };
    let front = stem + marker + nonce;
    match extension(style, final_path) {
        Some(e) => {
            assert(name =~= front.push('.') + e);
        },
        None => {
            assert(name =~= front);
        },
    }
    assert(name.take(front.len() as int) =~= front);
}

/// What starts with a protocol of two characters or more and `://` is a
/// URL, whatever follows; a protocol starts with a letter and holds only
/// letters, digits, `+`, `-` and `.`.
pub proof fn law_protocols_make_urls(scheme: Seq<char>, rest: Seq<char>)
    requires
        scheme.len() >= 2,
        ('a' <= scheme[0] && scheme[0] <= 'z') || ('A' <= scheme[0] && scheme[0] <= 'Z'),
        forall|i: int|
            0 <= i < scheme.len() ==> {
                let c = #[trigger] scheme[i];
                ('a' <= c && c <= 'z') || ('A' <= c && c <= 'Z') || ('0' <= c && c <= '9') || c
                    == '+' || c == '-' || c == '.'
            },
    ensures
        looks_like_url(scheme + seq![':', '/', '/'] + rest),
        url_error(rest).kind == "invalid_request"@,
        url_error(rest).details.contains_pair("output"@, rest),
{
    let p = scheme + seq![':', '/', '/'] + rest;
    assert(scheme_of_length(p, scheme.len() as int)) by {
        assert forall|i: int| 0 <= i < scheme.len() implies is_scheme_char(#[trigger] p[i]) by {
            assert(p[i] == scheme[i]);
        }
        assert(p[0] == scheme[0]);
    }
}

/// A local path is no URL: not one that starts with anything but a letter,
/// nor a drive, nor one whose first colon is not followed by two slashes,
/// nor one without a colon.
pub proof fn law_local_paths_are_no_urls(p: Seq<char>)
    ensures
        p.len() > 0 && !('a' <= p[0] && p[0] <= 'z') && !('A' <= p[0] && p[0] <= 'Z')
            ==> !looks_like_url(p),
        p.len() > 1 && p[1] == ':' ==> !looks_like_url(p),
        !p.contains(':') ==> !looks_like_url(p),
        !before(p, ':').contains('/') || !looks_like_url(p),
        looks_like_url(p) ==> starts_with(behind(p, ':'), seq!['/', '/']),
        p.len() < 5 ==> !looks_like_url(p),
{
    if looks_like_url(p) {
        let n = choose|n: int| #[trigger] scheme_of_length(p, n);
        let scheme = p.take(n);
        assert(p[n] == ':');
        assert forall|i: int| 0 <= i < scheme.len() implies #[trigger] scheme[i] != ':' by {
            assert(is_scheme_char(p[i]));
        }
        let rest = p.skip(n + 1);
        assert(p =~= scheme + seq![':'] + rest);
        lemma_cut(scheme, ':', rest);
        if scheme.contains('/') {
            let k = choose|k: int| 0 <= k < scheme.len() && scheme[k] == '/';
            assert(is_scheme_char(p[k]));
        }
        if p.len() > 1 && p[1] == ':' {
            assert(is_scheme_char(p[1]));
        }
        assert(rest.subrange(0, 2) =~= seq!['/', '/']);
    }
}

/// A write is renamed exactly after its operation succeeded; a rename that
/// fails is an output error that names both paths and the cause.
pub proof fn law_writes_end_as_they_should(
    succeeded: bool,
    from: Seq<char>,
    to: Seq<char>,
    cause: Seq<char>,
)
    ensures
        after_body(succeeded) is Renaming <==> succeeded,
        after_body(succeeded) is Failed <==> !succeeded,
        after_rename(succeeded) is RenameFailed <==> !succeeded,
        !leaves_partial(WriteStage::Renamed),
        leaves_partial(WriteStage::Renaming),
        leaves_partial(WriteStage::Failed),
        leaves_partial(WriteStage::RenameFailed),
        rename_error(from, to, cause).kind == "io_error"@,
        rename_error(from, to, cause).details.contains_pair("from"@, from),
        rename_error(from, to, cause).details.contains_pair("to"@, to),
        rename_error(from, to, cause).details.contains_pair("cause"@, cause),
{
    reveal_strlit("from");
    reveal_strlit("to");
    reveal_strlit("cause");
    assert("from"@.len() == 4 && "to"@.len() == 2 && "cause"@.len() == 5);
}

} // verus!
