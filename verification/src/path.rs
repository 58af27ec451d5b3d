//! Parts of a path: its parent, its file name, and the name's stem and
//! extension.
//!
//! Repeated separators, trailing separators and `.` components after the
//! first carry no meaning, as usual. What separates components, and
//! whether a drive can stand in front of them, is up to the platform.

use crate::errors::{error, ErrorView, NativeError};
use crate::text::{contains_nul, has_nul, same_text};
use vstd::prelude::*;

verus! {

/// How a platform writes paths.
#[derive(Debug, Clone, Copy, PartialEq, Eq, Structural)]
pub enum PathStyle {
    /// Slashes separate.
    Posix,
    /// Slashes and backslashes separate, and a letter and a colon in front
    /// name a drive. A share in front counts as components.
    Windows,
}

/// A letter, in either case.
pub open spec fn is_letter(c: char) -> bool {
    ('a' <= c && c <= 'z') || ('A' <= c && c <= 'Z')
}

impl PathStyle {
    /// Whether a character separates components.
    pub open spec fn separates(self, c: char) -> bool {
        c == '/' || (self is Windows && c == '\\')
    }

    /// The character that is put between components.
    pub open spec fn main_separator(self) -> char {
        match self {
            PathStyle::Posix => '/',
            PathStyle::Windows => '\\',
        }
    }

    /// The length of the drive in front.
    pub open spec fn drive(self, p: Seq<char>) -> nat {
        if self is Windows && p.len() >= 2 && is_letter(p[0]) && p[1] == ':' {
            2
        } else {
            0
        }
    }

    /// The path behind the drive.
    pub open spec fn behind_drive(self, p: Seq<char>) -> Seq<char> {
        p.skip(self.drive(p) as int)
    }

    fn is_separator(self, c: char) -> (r: bool)
        ensures
            r == self.separates(c),
    {
        c == '/' || (self == PathStyle::Windows && c == '\\')
    }

    fn drive_len(self, p: &str) -> (r: usize)
        ensures
            r == self.drive(p@),
            r <= p@.len(),
    {
        if self == PathStyle::Windows && p.unicode_len() >= 2 {
            let c = p.get_char(0);
            let letter = ('a' <= c && c <= 'z') || ('A' <= c && c <= 'Z');
            if letter && p.get_char(1) == ':' {
                return 2;
            }
        }
        0
    }
}

/// The path without trailing separators and trailing `.` components.
pub open spec fn strip(style: PathStyle, p: Seq<char>) -> Seq<char>
    decreases p.len(),
{
    if p.len() > 0 && style.separates(p.last()) {
        strip(style, p.drop_last())
    } else if p.len() >= 2 && p.last() == '.' && style.separates(p[p.len() - 2]) {
        strip(style, p.drop_last())
    } else {
        p
    }
}

/// Where the last component starts: behind the last separator.
pub open spec fn name_start(style: PathStyle, s: Seq<char>) -> nat
    decreases s.len(),
{
    if s.len() == 0 || style.separates(s.last()) {
        s.len()
    } else {
        name_start(style, s.drop_last())
    }
}

/// The last component.
pub open spec fn last_component(style: PathStyle, s: Seq<char>) -> Seq<char> {
    s.skip(name_start(style, s) as int)
}

/// The file name: the last component, unless there is none or it is `.` or
/// `..`.
pub open spec fn file_name(style: PathStyle, p: Seq<char>) -> Option<Seq<char>> {
    let n = last_component(style, strip(style, style.behind_drive(p)));
    if n.len() == 0 || n == seq!['.'] || n == seq!['.', '.'] {
        None
    } else {
        Some(n)
    }
}

/// The path without its last component; a root, a drive and the empty path
/// have none.
pub open spec fn parent(style: PathStyle, p: Seq<char>) -> Option<Seq<char>> {
    let s = strip(style, style.behind_drive(p));
    if s.len() == 0 {
        None
    } else {
        let drive = p.take(style.drive(p) as int);
        let head = s.take(name_start(style, s) as int);
        let t = strip(style, head);
        if t.len() == 0 && head.len() > 0 {
            Some(drive.push(head[0]))
        } else {
            Some(drive + t)
        }
    }
}

/// The place of the last dot.
pub open spec fn last_dot(n: Seq<char>) -> Option<nat>
    decreases n.len(),
{
    if n.len() == 0 {
        None
    } else if n.last() == '.' {
        Some((n.len() - 1) as nat)
    } else {
        last_dot(n.drop_last())
    }
}

/// A name up to its last dot; all of it when the only dot leads it or
/// there is none.
pub open spec fn stem_of(n: Seq<char>) -> Seq<char> {
    match last_dot(n) {
        Some(i) => if i > 0 {
            n.take(i as int)
        } else {
            n
        },
        None => n,
    }
}

/// A name behind its last dot; nothing when the only dot leads it or there
/// is none.
pub open spec fn extension_of(n: Seq<char>) -> Option<Seq<char>> {
    match last_dot(n) {
        Some(i) => if i > 0 {
            Some(n.skip((i + 1) as int))
        } else {
            None
        },
        None => None,
    }
}

/// The extension of a path's file name.
pub open spec fn extension(style: PathStyle, p: Seq<char>) -> Option<Seq<char>> {
    match file_name(style, p) {
        Some(n) => extension_of(n),
        None => None,
    }
}

/// A name inside a directory.
pub open spec fn join(style: PathStyle, dir: Seq<char>, name: Seq<char>) -> Seq<char> {
    if dir.len() == style.drive(dir) || style.separates(dir.last()) {
        dir + name
    } else {
        dir.push(style.main_separator()) + name
    }
}

/// The view of an optional text.
pub open spec fn text_view(t: Option<String>) -> Option<Seq<char>> {
    match t {
        Some(s) => Some(s@),
        None => None,
    }
}

/// The path without trailing separators and trailing `.` components.
fn stripped<'a>(style: PathStyle, p: &'a str) -> (r: &'a str)
    ensures
        r@ == strip(style, p@),
{
    let mut e: usize = p.unicode_len();
    proof {
        assert(p@.take(e as int) =~= p@);
    }
    while e > 0 && (style.is_separator(p.get_char(e - 1)) || (e >= 2 && p.get_char(e - 1) == '.'
        && style.is_separator(p.get_char(e - 2))))
        invariant
            e <= p@.len(),
            strip(style, p@) == strip(style, p@.take(e as int)),
        decreases e,
    {
        proof {
            assert(p@.take(e as int).drop_last() =~= p@.take(e - 1));
        }
        e = e - 1;
    }
    let r = p.substring_char(0, e);
    proof {
        assert(r@ =~= p@.take(e as int));
    }
    r
}

fn name_start_of(style: PathStyle, s: &str) -> (r: usize)
    ensures
        r == name_start(style, s@),
        r <= s@.len(),
{
    let mut e: usize = s.unicode_len();
    proof {
        assert(s@.take(e as int) =~= s@);
    }
    while e > 0 && !style.is_separator(s.get_char(e - 1))
        invariant
            e <= s@.len(),
            name_start(style, s@) == name_start(style, s@.take(e as int)),
        decreases e,
    {
        proof {
            assert(s@.take(e as int).drop_last() =~= s@.take(e - 1));
        }
        e = e - 1;
    }
    e
}

fn body_of<'a>(style: PathStyle, p: &'a str) -> (r: &'a str)
    ensures
        r@ == style.behind_drive(p@),
{
    let r = p.substring_char(style.drive_len(p), p.unicode_len());
    assert(r@ =~= style.behind_drive(p@));
    r
}

/// The file name of a path.
pub fn path_file_name(style: PathStyle, p: &str) -> (r: Option<String>)
    ensures
        text_view(r) == file_name(style, p@),
{
    let s = stripped(style, body_of(style, p));
    let start: usize = name_start_of(style, s);
    let n = s.substring_char(start, s.unicode_len());
    proof {
        assert(n@ =~= last_component(style, s@));
        reveal_strlit(".");
        reveal_strlit("..");
        assert("."@ =~= seq!['.']);
        assert(".."@ =~= seq!['.', '.']);
    }
    if n.is_empty() || same_text(n, ".") || same_text(n, "..") {
        None
    } else {
        Some(n.to_owned())
    }
}

/// The parent of a path.
pub fn path_parent(style: PathStyle, p: &str) -> (r: Option<String>)
    ensures
        text_view(r) == parent(style, p@),
{
    let s = stripped(style, body_of(style, p));
    if s.is_empty() {
        return None;
    }
    let start: usize = name_start_of(style, s);
    let head = s.substring_char(0, start);
    let drive = p.substring_char(0, style.drive_len(p));
    proof {
        assert(head@ =~= s@.take(start as int));
        assert(drive@ =~= p@.take(style.drive(p@) as int));
    }
    let t = stripped(style, head);
    let mut r = drive.to_owned();
    if t.is_empty() && !head.is_empty() {
        let root = head.substring_char(0, 1);
        assert(root@ =~= seq![head@[0]]);
        r.append(root);
        assert(r@ =~= drive@.push(head@[0]));
    } else {
        r.append(t);
    }
    Some(r)
}

fn last_dot_of(n: &str) -> (r: Option<usize>)
    ensures
        match r {
            Some(i) => last_dot(n@) == Some(i as nat) && i < n@.len(),
            None => last_dot(n@) is None,
        },
{
    let mut e: usize = n.unicode_len();
    proof {
        assert(n@.take(e as int) =~= n@);
    }
    while e > 0
        invariant
            e <= n@.len(),
            last_dot(n@) == last_dot(n@.take(e as int)),
        decreases e,
    {
        proof {
            assert(n@.take(e as int).drop_last() =~= n@.take(e - 1));
        }
        if n.get_char(e - 1) == '.' {
            return Some(e - 1);
        }
        e = e - 1;
    }
    None
}

/// The stem of a file name.
pub fn name_stem(n: &str) -> (r: String)
    ensures
        r@ == stem_of(n@),
{
    match last_dot_of(n) {
        Some(i) => {
            if i > 0 {
                let r = n.substring_char(0, i);
                proof {
                    assert(r@ =~= n@.take(i as int));
                }
                r.to_owned()
            } else {
                n.to_owned()
            }
        },
        None => n.to_owned(),
    }
}

/// The extension of a file name.
pub fn name_extension(n: &str) -> (r: Option<String>)
    ensures
        text_view(r) == extension_of(n@),
{
    let total: usize = n.unicode_len();
    match last_dot_of(n) {
        Some(i) => {
            if i > 0 {
                let r = n.substring_char(i + 1, total);
                proof {
                    assert(r@ =~= n@.skip(i + 1));
                }
                Some(r.to_owned())
            } else {
                None
            }
        },
        None => None,
    }
}

/// The extension of a path's file name.
pub fn path_extension(style: PathStyle, p: &str) -> (r: Option<String>)
    ensures
        text_view(r) == extension(style, p@),
{
    match path_file_name(style, p) {
        Some(n) => name_extension(n.as_str()),
        None => None,
    }
}

/// A name inside a directory.
pub fn path_join(style: PathStyle, dir: &str, name: &str) -> (r: String)
    ensures
        r@ == join(style, dir@, name@),
{
    let n: usize = dir.unicode_len();
    let mut r = dir.to_owned();
    if n != style.drive_len(dir) && !style.is_separator(dir.get_char(n - 1)) {
        proof {
            reveal_strlit("/");
            reveal_strlit("\\");
        }
        match style {
            PathStyle::Posix => {
                r.append("/");
            },
            PathStyle::Windows => {
                r.append("\\");
            },
        }
        assert(r@ =~= dir@.push(style.main_separator()));
    }
    r.append(name);
    r
}

/// Stripping twice is stripping once, and what is left is a part of the
/// path, from its start on.
pub proof fn lemma_strip(style: PathStyle, p: Seq<char>)
    ensures
        strip(style, strip(style, p)) == strip(style, p),
        strip(style, p).len() <= p.len(),
        strip(style, p) == p.take(strip(style, p).len() as int),
    decreases p.len(),
{
    if p.len() > 0 && (style.separates(p.last()) || p.len() >= 2 && p.last() == '.'
        && style.separates(p[p.len() - 2])) {
        lemma_strip(style, p.drop_last());
        assert(p.drop_last().take(strip(style, p).len() as int) =~= p.take(
            strip(style, p).len() as int,
        ));
    } else {
        assert(p.take(p.len() as int) =~= p);
    }
}

/// A component without a separator starts where it was appended.
pub proof fn lemma_name_start(style: PathStyle, head: Seq<char>, name: Seq<char>)
    requires
        head.len() == 0 || style.separates(head.last()),
        forall|i: int| 0 <= i < name.len() ==> !style.separates(#[trigger] name[i]),
    ensures
        name_start(style, head + name) == head.len(),
    decreases name.len(),
{
    let s = head + name;
    if name.len() == 0 {
        assert(s =~= head);
    } else {
        assert(s.last() == name.last());
        assert(s.drop_last() =~= head + name.drop_last());
        assert forall|i: int| 0 <= i < name.drop_last().len() implies !style.separates(
            #[trigger] name.drop_last()[i],
        ) by {
            assert(name.drop_last()[i] == name[i]);
        }
        lemma_name_start(style, head, name.drop_last());
    }
}

/// Where a component starts, no separator follows.
pub proof fn lemma_last_component(style: PathStyle, s: Seq<char>)
    ensures
        name_start(style, s) <= s.len(),
        name_start(style, s) > 0 ==> style.separates(s[name_start(style, s) - 1]),
        forall|i: int|
            name_start(style, s) <= i < s.len() ==> !style.separates(#[trigger] s[i]),
    decreases s.len(),
{
    if s.len() > 0 && !style.separates(s.last()) {
        lemma_last_component(style, s.drop_last());
        assert forall|i: int| name_start(style, s) <= i < s.len() implies !style.separates(
            #[trigger] s[i],
        ) by {
            if i < s.len() - 1 {
                assert(s.drop_last()[i] == s[i]);
            }
        }
    }
}

/// Behind the last dot there is no dot, and it is a dot.
pub proof fn lemma_last_dot(n: Seq<char>)
    ensures
        match last_dot(n) {
            Some(i) => {
                &&& i < n.len()
                &&& n[i as int] == '.'
                &&& forall|j: int| i < j < n.len() ==> n[j] != '.'
            },
            None => forall|j: int| 0 <= j < n.len() ==> n[j] != '.',
        },
    decreases n.len(),
{
    if n.len() > 0 && n.last() != '.' {
        lemma_last_dot(n.drop_last());
        match last_dot(n) {
            Some(i) => {
                assert forall|j: int| i < j < n.len() implies n[j] != '.' by {
                    if j < n.len() - 1 {
                        assert(n.drop_last()[j] == n[j]);
                    }
                }
            },
            None => {
                assert forall|j: int| 0 <= j < n.len() implies n[j] != '.' by {
                    if j < n.len() - 1 {
                        assert(n.drop_last()[j] == n[j]);
                    }
                }
            },
        }
    }
}

/// The last dot of a text is where a dot-free ending was appended.
pub proof fn lemma_append_extension(front: Seq<char>, ext: Seq<char>)
    requires
        forall|i: int| 0 <= i < ext.len() ==> ext[i] != '.',
    ensures
        last_dot(front.push('.') + ext) == Some(front.len()),
    decreases ext.len(),
{
    let n = front.push('.') + ext;
    if ext.len() == 0 {
        assert(n =~= front.push('.'));
    } else {
        assert(n.last() == ext.last());
        assert(n.drop_last() =~= front.push('.') + ext.drop_last());
        lemma_append_extension(front, ext.drop_last());
    }
}

/// What is stripped off entirely starts with a separator.
proof fn lemma_stripped_away(style: PathStyle, p: Seq<char>)
    requires
        p.len() > 0,
        strip(style, p).len() == 0,
    ensures
        style.separates(p[0]),
    decreases p.len(),
{
    if p.len() > 1 {
        lemma_stripped_away(style, p.drop_last());
        assert(p.drop_last()[0] == p[0]);
    }
}

/// Behind a directory and its separator, the parent of a name is that
/// directory, and the file name is that name.
proof fn lemma_parts_of_body(style: PathStyle, dir: Seq<char>, head: Seq<char>, name: Seq<char>)
    requires
        name.len() > 0,
        name != seq!['.'],
        name != seq!['.', '.'],
        forall|i: int| 0 <= i < name.len() ==> !style.separates(#[trigger] name[i]),
        head.len() == 0 || style.separates(head.last()),
        strip(style, head) == dir,
    ensures
        strip(style, head + name) == head + name,
        name_start(style, head + name) == head.len(),
        (head + name).take(head.len() as int) == head,
        last_component(style, head + name) == name,
{
    let full = head + name;
    lemma_name_start(style, head, name);
    assert(full.last() == name.last());
    assert(!style.separates(name.last()));
    if full.len() >= 2 && full.last() == '.' && style.separates(full[full.len() - 2]) {
        if name.len() >= 2 {
            assert(full[full.len() - 2] == name[name.len() - 2]);
        } else {
            assert(name =~= seq!['.']);
        }
    }
    assert(full.take(head.len() as int) =~= head);
    assert(full.skip(head.len() as int) =~= name);
}

/// The parent of a name joined to a directory is that directory, and the
/// file name is that name, for a directory that is a parent itself.
pub proof fn lemma_join_parts(style: PathStyle, p: Seq<char>, name: Seq<char>)
    requires
        parent(style, p) is Some,
        name.len() > 0,
        name != seq!['.'],
        name != seq!['.', '.'],
        forall|i: int| 0 <= i < name.len() ==> !style.separates(#[trigger] name[i]),
        parent(style, p)->0.len() == 0 ==> style.drive(name) == 0,
    ensures
        parent(style, join(style, parent(style, p)->0, name)) == parent(style, p),
        file_name(style, join(style, parent(style, p)->0, name)) == Some(name),
{
    let dir = parent(style, p)->0;
    let d = style.drive(p) as int;
    let drive = p.take(d);
    let body = style.behind_drive(p);
    let s = strip(style, body);
    let head0 = s.take(name_start(style, s) as int);
    let t = strip(style, head0);
    lemma_strip(style, body);
    lemma_strip(style, head0);
    lemma_last_component(style, s);
    // The directory behind the drive, and with its separator.
    let sub = if t.len() == 0 && head0.len() > 0 {
        seq![head0[0]]
    } else {
        t
    };
    let head = if sub.len() == 0 || style.separates(sub.last()) {
        sub
    } else {
        sub.push(style.main_separator())
    };
    assert(dir =~= drive + sub);
    let full = join(style, dir, name);
    if t.len() == 0 && head0.len() > 0 {
        lemma_stripped_away(style, head0);
        assert(sub.drop_last() =~= Seq::<char>::empty());
        assert(strip(style, sub) == strip(style, sub.drop_last()));
        assert(strip(style, head) == Seq::<char>::empty());
    } else if t.len() > 0 {
        assert(strip(style, t) == t);
        lemma_strip(style, t.drop_last());
        assert(head.drop_last() =~= t);
        assert(strip(style, head) == t);
    }
    // The drive of the joined path is that of the path.
    assert(sub.len() > 0 ==> sub[0] == body[0]);
    assert(sub.len() > 1 ==> sub[1] == body[1]);
    assert(forall|i: int| 0 <= i < body.len() ==> body[i] == p[i + d]);
    assert(style.drive(dir) == d) by {
        if d == 2 {
            assert(dir[0] == p[0]);
            assert(dir[1] == p[1]);
        }
    }
    assert(full =~= drive + (head + name)) by {
        if sub.len() > 0 {
            assert(dir.last() == sub.last());
        }
    }
    assert(style.drive(full) == d) by {
        if d == 2 {
            assert(full[0] == p[0]);
            assert(full[1] == p[1]);
        } else if sub.len() == 0 {
            assert(full =~= name);
        } else {
            assert(full[0] == sub[0]);
            if sub.len() > 1 {
                assert(full[1] == sub[1]);
            } else if !style.separates(sub[0]) {
                assert(full[1] == style.main_separator());
            }
        }
    }
    assert(style.behind_drive(full) =~= head + name);
    assert(full.take(d) =~= drive);
    lemma_parts_of_body(style, strip(style, head), head, name);
    if sub.len() > 0 && style.separates(sub.last()) {
        assert(sub.len() == 1);
        assert(head[0] == head0[0]);
    }
}

/// What a path that no C string can hold is answered.
pub open spec fn nul_path_error(path: Seq<char>) -> ErrorView {
    error("invalid_request"@, "path contains NUL bytes"@).with("path"@, path)
}

/// Whether a path can be handed to the muxer, which takes C strings.
pub fn to_cstring(path: &str) -> (r: Result<(), NativeError>)
    ensures
        match r {
            Ok(()) => !contains_nul(path@),
            Err(e) => contains_nul(path@) && e@ == nul_path_error(path@),
        },
{
    if has_nul(path) {
        Err(
            NativeError::new("invalid_request", "path contains NUL bytes").with_detail(
                "path",
                path.to_owned(),
            ),
        )
    } else {
        Ok(())
    }
}

/// A slash always separates, a backslash on Windows only, and nothing else
/// does; only Windows has drives, a letter and a colon in front.
pub proof fn law_separators(c: char, p: Seq<char>)
    ensures
        PathStyle::Posix.separates(c) <==> c == '/',
        PathStyle::Windows.separates(c) <==> c == '/' || c == '\\',
        PathStyle::Posix.main_separator() == '/',
        PathStyle::Windows.main_separator() == '\\',
        PathStyle::Posix.drive(p) == 0,
        PathStyle::Windows.drive(p) == 2 <==> p.len() >= 2 && p[1] == ':' && (('a' <= p[0] && p[0]
            <= 'z') || ('A' <= p[0] && p[0] <= 'Z')),
        PathStyle::Windows.drive(p) == 0 || PathStyle::Windows.drive(p) == 2,
{
}

/// The file name is what stands behind the last separator, trailing
/// separators aside.
pub proof fn law_file_name_is_last(head: Seq<char>, name: Seq<char>)
    requires
        head.len() == 0 || head.last() == '/',
        name.len() > 0,
        name != seq!['.'],
        name != seq!['.', '.'],
        !name.contains('/'),
    ensures
        file_name(PathStyle::Posix, head + name) == Some(name),
        file_name(PathStyle::Posix, (head + name).push('/')) == Some(name),
        file_name(PathStyle::Posix, head + seq!['.', '.']) is None,
{
    let style = PathStyle::Posix;
    assert forall|i: int| 0 <= i < name.len() implies !style.separates(#[trigger] name[i]) by {
        assert(name.contains(name[i]));
    }
    let full = head + name;
    lemma_parts_of_body(style, strip(style, head), head, name);
    assert(style.behind_drive(full) =~= full);
    let more = full.push('/');
    assert(style.behind_drive(more) =~= more);
    assert(more.drop_last() =~= full);
    assert(strip(style, more) == strip(style, full));
    let dots = seq!['.', '.'];
    let up = head + dots;
    assert(style.behind_drive(up) =~= up);
    lemma_name_start(style, head, dots);
    assert(up.last() == '.');
    assert(up[up.len() - 2] == '.');
    assert(strip(style, up) == up);
    assert(up.skip(head.len() as int) =~= dots);
}

/// The parent of a name in a directory is that directory, of a name at the
/// root the root, and of a bare name the empty path.
pub proof fn law_parent_is_the_directory(dir: Seq<char>, name: Seq<char>)
    requires
        dir.len() > 0,
        strip(PathStyle::Posix, dir) == dir,
        name.len() > 0,
        name != seq!['.'],
        name != seq!['.', '.'],
        !name.contains('/'),
    ensures
        parent(PathStyle::Posix, dir.push('/') + name) == Some(dir),
        parent(PathStyle::Posix, seq!['/'] + name) == Some(seq!['/']),
        parent(PathStyle::Posix, name) == Some(Seq::<char>::empty()),
        join(PathStyle::Posix, dir, name) == dir.push('/') + name,
        join(PathStyle::Posix, seq!['/'], name) == seq!['/'] + name,
        join(PathStyle::Posix, seq![], name) == name,
{
    let style = PathStyle::Posix;
    assert forall|i: int| 0 <= i < name.len() implies !style.separates(#[trigger] name[i]) by {
        assert(name.contains(name[i]));
    }
    lemma_strip(style, dir.drop_last());
    let head = dir.push('/');
    assert(head.drop_last() =~= dir);
    assert(strip(style, head) == dir);
    lemma_parts_of_body(style, dir, head, name);
    let full = head + name;
    assert(style.behind_drive(full) =~= full);
    assert(full.take(0) + dir =~= dir);
    let root = seq!['/'];
    assert(root.drop_last() =~= Seq::<char>::empty());
    assert(strip(style, root) == strip(style, Seq::<char>::empty()));
    lemma_parts_of_body(style, strip(style, root), root, name);
    let at_root = root + name;
    assert(style.behind_drive(at_root) =~= at_root);
    assert(at_root.take(0).push('/') =~= root);
    let none = Seq::<char>::empty();
    lemma_parts_of_body(style, strip(style, none), none, name);
    assert(none + name =~= name);
    assert(style.behind_drive(name) =~= name);
    assert(name.take(0) + none =~= none);
    assert(seq![] + name =~= name);
}

/// A name is its stem and its extension with a dot between them, or its
/// stem alone; the extension holds no dot, and a dot in front of a name
/// starts none.
pub proof fn law_stem_and_extension(n: Seq<char>)
    ensures
        extension_of(n) matches Some(e) ==> stem_of(n).push('.') + e == n && !e.contains('.')
            && stem_of(n).len() > 0,
        extension_of(n) is None ==> stem_of(n) == n,
        extension_of(n) is None && n.len() > 0 ==> !n.skip(1).contains('.'),
{
    lemma_last_dot(n);
    match last_dot(n) {
        Some(i) => {
            if i > 0 {
                let e = n.skip((i + 1) as int);
                assert(n.take(i as int).push('.') + e =~= n);
                if e.contains('.') {
                    let k = choose|k: int| 0 <= k < e.len() && e[k] == '.';
                    assert(n[k + i + 1] == '.');
                }
            } else if n.skip(1).contains('.') {
                let k = choose|k: int| 0 <= k < n.skip(1).len() && n.skip(1)[k] == '.';
                assert(n[k + 1] == '.');
            }
        },
        None => {
            if n.len() > 0 && n.skip(1).contains('.') {
                let k = choose|k: int| 0 <= k < n.skip(1).len() && n.skip(1)[k] == '.';
                assert(n[k + 1] == '.');
            }
        },
    }
}

/// The extension of a path is that of its file name.
pub proof fn law_extension_of_a_path(style: PathStyle, p: Seq<char>, stem: Seq<char>, ext: Seq<char>)
    requires
        file_name(style, p) == Some(stem.push('.') + ext),
        stem.len() > 0,
        !ext.contains('.'),
    ensures
        extension(style, p) == Some(ext),
        stem_of(stem.push('.') + ext) == stem,
{
    assert forall|i: int| 0 <= i < ext.len() implies ext[i] != '.' by {
        assert(ext.contains(ext[i]));
    }
    lemma_append_extension(stem, ext);
    let n = stem.push('.') + ext;
    assert(n.skip(stem.len() as int + 1) =~= ext);
    assert(n.take(stem.len() as int) =~= stem);
}

/// A path without a file name has no extension, and neither has one whose
/// name has no dot behind its first character.
pub proof fn law_paths_without_extension(style: PathStyle, p: Seq<char>)
    ensures
        file_name(style, p) is None ==> extension(style, p) is None,
        file_name(style, p) matches Some(n) ==> (!n.skip(1).contains('.') ==> extension(
            style,
            p,
        ) is None),
{
    if let Some(n) = file_name(style, p) {
        law_stem_and_extension(n);
        lemma_last_dot(n);
        if let Some(i) = last_dot(n) {
            if i > 0 {
                assert(n.skip(1)[i - 1] == '.');
            }
        }
    }
}

/// A path that no C string can hold is a bad request that names it.
pub proof fn law_nul_paths(path: Seq<char>)
    ensures
        nul_path_error(path).kind == "invalid_request"@,
        nul_path_error(path).details.contains_pair("path"@, path),
{
}

/// The view of an optional text is the text that it holds.
pub proof fn law_text_view(t: String)
    ensures
        text_view(Some(t)) == Some(t@),
        text_view(None) is None,
{
}

} // verus!
