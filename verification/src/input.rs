//! Inputs: a file, bytes in memory, or a loaded buffer that several calls
//! share.
//!
//! Every input is opened with a pinned list of protocols, so that media
//! cannot make the demuxer reach for the network, and media in memory
//! cannot make it reach for a file either.

use crate::errors::{error, ErrorView, NativeError};
use crate::text::{
    before, behind, contains_nul, decimal, has_nul, law_decimal_reads_back, lemma_cut, nat_text,
    number,
};
use std::sync::Arc;
use vstd::prelude::*;

verus! {

/// Protocols that a file input may open. A local playlist may name files
/// next to it.
pub const FILE_PROTOCOL_WHITELIST: &'static str = "file,crypto,data";

/// Protocols that an input in memory may open.
pub const MEMORY_PROTOCOL_WHITELIST: &'static str = "crypto,data";

/// First size of the read buffer of an input in memory.
pub const IO_BUF_LEN: usize = 65536;

/// `AVERROR_EOF`.
pub const AVERROR_EOF: i32 = -541478725;

/// `AVSEEK_SIZE`: asks for the length in place of a move.
pub const AVSEEK_SIZE: i32 = 65536;

/// `AVSEEK_FORCE`: may be set besides any other request.
pub const AVSEEK_FORCE: i32 = 131072;

/// The parts of a text between commas.
pub open spec fn comma_parts(s: Seq<char>) -> Seq<Seq<char>>
    decreases s.len(),
{
    match s.index_of_first(',') {
        Some(k) => if 0 <= k < s.len() {
            seq![s.take(k)] + comma_parts(s.skip(k + 1))
        } else {
            seq![s]
        },
        None => seq![s],
    }
}

/// Whether a list of protocols allows one.
pub open spec fn allows(whitelist: Seq<char>, protocol: Seq<char>) -> bool {
    comma_parts(whitelist).contains(protocol)
}

/// Where an input comes from.
#[derive(Debug)]
pub enum InputSource {
    Path(String),
    Memory(Vec<u8>),
    Buffer(Arc<Vec<u8>>),
}

/// What a caller handed over as an input.
#[derive(Debug)]
pub enum InputTerm {
    Text(String),
    Buffer(Arc<Vec<u8>>),
    /// A tuple of this size; whether its first element is the atom
    /// `memory`, and its second element if that is a binary.
    Tuple { size: usize, tagged_memory: bool, binary: Option<Vec<u8>> },
    Other,
}

/// How to open an input.
#[derive(Debug)]
pub enum OpenPlan {
    File { path: String, whitelist: &'static str },
    Bytes { bytes: Arc<Vec<u8>>, whitelist: &'static str },
}

/// The bytes of an input in memory.
pub open spec fn source_bytes(s: InputSource) -> Option<Seq<u8>> {
    match s {
        InputSource::Path(_) => None,
        InputSource::Memory(bytes) => Some(bytes@),
        InputSource::Buffer(bytes) => Some(bytes@),
    }
}

/// Why an input cannot be opened; none when it can. `is_file` tells
/// whether the path names a regular file.
pub open spec fn refusal(s: InputSource, is_file: bool) -> Option<ErrorView> {
    match s {
        InputSource::Path(path) => if !is_file {
            Some(
                error("invalid_request"@, "input path is not a regular file"@).with(
                    "path"@,
                    path@,
                ),
            )
        } else if contains_nul(path@) {
            Some(
                error("invalid_request"@, "input path contains NUL bytes"@).with("path"@, path@),
            )
        } else {
            None
        },
        InputSource::Memory(bytes) => if bytes@.len() == 0 {
            Some(error("invalid_request"@, "memory input is an empty binary"@))
        } else {
            None
        },
        InputSource::Buffer(bytes) => if bytes@.len() == 0 {
            Some(error("invalid_request"@, "buffer input is empty"@))
        } else {
            None
        },
    }
}

/// The plan opens exactly what the source names, with the protocols that
/// its kind allows.
pub open spec fn plan_opens(s: InputSource, p: OpenPlan) -> bool {
    match p {
        OpenPlan::File { path, whitelist } => {
            &&& s is Path
            &&& path@ == s->Path_0@
            &&& whitelist@ == FILE_PROTOCOL_WHITELIST@
        },
        OpenPlan::Bytes { bytes, whitelist } => {
            &&& source_bytes(s) == Some(bytes@)
            &&& whitelist@ == MEMORY_PROTOCOL_WHITELIST@
        },
    }
}

/// A short label of an input.
pub open spec fn label(s: InputSource) -> Seq<char> {
    match s {
        InputSource::Path(path) => path@,
        InputSource::Memory(bytes) => "<memory:"@ + decimal(bytes@.len()) + " bytes>"@,
        InputSource::Buffer(bytes) => "<buffer:"@ + decimal(bytes@.len()) + " bytes>"@,
    }
}

impl InputSource {
    /// Decide how to open the input. `is_file` tells whether the path
    /// names a regular file; it means nothing for the other kinds.
    pub fn open(self, is_file: bool) -> (r: Result<OpenPlan, NativeError>)
        ensures
            match r {
                Ok(p) => refusal(self, is_file) is None && plan_opens(self, p),
                Err(e) => refusal(self, is_file) == Some(e@),
            },
    {
        match self {
            InputSource::Path(path) => {
                if !is_file {
                    return Err(
                        NativeError::new(
                            "invalid_request",
                            "input path is not a regular file",
                        ).with_detail("path", path.clone()),
                    );
                }
                if has_nul(path.as_str()) {
                    return Err(
                        NativeError::new(
                            "invalid_request",
                            "input path contains NUL bytes",
                        ).with_detail("path", path.clone()),
                    );
                }
                Ok(OpenPlan::File { path, whitelist: FILE_PROTOCOL_WHITELIST })
            },
            InputSource::Memory(bytes) => {
                if bytes.len() == 0 {
                    return Err(
                        NativeError::new("invalid_request", "memory input is an empty binary"),
                    );
                }
                Ok(
                    OpenPlan::Bytes {
                        bytes: Arc::new(bytes),
                        whitelist: MEMORY_PROTOCOL_WHITELIST,
                    },
                )
            },
            InputSource::Buffer(bytes) => {
                if bytes.len() == 0 {
                    return Err(NativeError::new("invalid_request", "buffer input is empty"));
                }
                Ok(OpenPlan::Bytes { bytes, whitelist: MEMORY_PROTOCOL_WHITELIST })
            },
        }
    }

    /// A short label for error messages.
    pub fn describe(&self) -> (r: String)
        ensures
            r@ == label(*self),
    {
        match self {
            InputSource::Path(path) => path.clone(),
            InputSource::Memory(bytes) => {
                let mut r = "<memory:".to_owned();
                let n = nat_text(bytes.len() as u128);
                r.append(n.as_str());
                r.append(" bytes>");
                r
            },
            InputSource::Buffer(bytes) => {
                let mut r = "<buffer:".to_owned();
                let n = nat_text(bytes.len() as u128);
                r.append(n.as_str());
                r.append(" bytes>");
                r
            },
        }
    }

    /// Read an input from what the caller handed over: a text is a path, a
    /// loaded buffer is itself, and a pair of the atom `memory` and a
    /// binary is that binary. Nothing else is an input.
    pub fn decode(term: InputTerm) -> (r: Option<InputSource>)
        ensures
            r == decoded(term),
    {
        match term {
            InputTerm::Text(path) => Some(InputSource::Path(path)),
            InputTerm::Buffer(bytes) => Some(InputSource::Buffer(bytes)),
            InputTerm::Tuple { size, tagged_memory, binary } => {
                if size != 2 || !tagged_memory {
                    return None;
                }
                match binary {
                    Some(bytes) => Some(InputSource::Memory(bytes)),
                    None => None,
                }
            },
            InputTerm::Other => None,
        }
    }
}

/// The input that a caller's term stands for.
pub open spec fn decoded(term: InputTerm) -> Option<InputSource> {
    match term {
        InputTerm::Text(path) => Some(InputSource::Path(path)),
        InputTerm::Buffer(bytes) => Some(InputSource::Buffer(bytes)),
        InputTerm::Tuple { size, tagged_memory, binary } => if size == 2 && tagged_memory
            && binary is Some {
            Some(InputSource::Memory(binary->0))
        } else {
            None
        },
        InputTerm::Other => None,
    }
}

/// Where a seek leads; none when it is refused.
pub open spec fn seek_target(len: int, cursor: int, offset: int, whence: i32) -> Option<int> {
    let request = whence & !AVSEEK_FORCE;
    let to = if request == 0 {
        Some(offset)
    } else if request == 1 {
        Some(cursor + offset)
    } else if request == 2 {
        Some(len + offset)
    } else {
        None
    };
    match to {
        Some(t) => if 0 <= t <= len {
            Some(t)
        } else {
            None
        },
        None => None,
    }
}

/// Whether a seek only asks for the length.
pub open spec fn asks_for_size(whence: i32) -> bool {
    whence & !AVSEEK_FORCE == AVSEEK_SIZE
}

/// Reads bytes in memory as if they were a file.
#[derive(Debug)]
pub struct MemoryReader {
    bytes: Arc<Vec<u8>>,
    cursor: usize,
}

impl MemoryReader {
    /// The bytes.
    pub closed spec fn data(&self) -> Seq<u8> {
        self.bytes@
    }

    /// Where the next read starts.
    pub closed spec fn at(&self) -> int {
        self.cursor as int
    }

    /// The position is within the bytes, and positions fit.
    pub closed spec fn wf(&self) -> bool {
        self.cursor <= self.bytes@.len() <= i64::MAX
    }

    /// A reader at the start.
    pub fn new(bytes: Arc<Vec<u8>>) -> (r: Self)
        requires
            bytes@.len() <= i64::MAX,
        ensures
            r.wf(),
            r.data() == bytes@,
            r.at() == 0,
    {
        MemoryReader { bytes, cursor: 0 }
    }

    /// Fill a buffer from the current position and move behind what was
    /// read. Gives the number of bytes, or `AVERROR_EOF` at the end.
    pub fn read(&mut self, buf: &mut [u8]) -> (r: i32)
        requires
            old(self).wf(),
            old(buf)@.len() <= i32::MAX,
        ensures
            final(self).wf(),
            final(self).data() == old(self).data(),
            final(buf)@.len() == old(buf)@.len(),
            old(self).at() >= old(self).data().len() ==> r == AVERROR_EOF && final(self).at()
                == old(self).at() && final(buf)@ == old(buf)@,
            old(self).at() < old(self).data().len() ==> {
                &&& r == read_count(
                    old(self).data().len() as int,
                    old(self).at(),
                    old(buf)@.len() as int,
                )
                &&& final(self).at() == old(self).at() + r
                &&& final(buf)@.take(r as int) == old(self).data().subrange(
                    old(self).at(),
                    old(self).at() + r,
                )
                &&& final(buf)@.skip(r as int) == old(buf)@.skip(r as int)
            },
    {
        let len: usize = self.bytes.len();
        if self.cursor >= len {
            return AVERROR_EOF;
        }
        let start: usize = self.cursor;
        let remaining: usize = len - start;
        let room: usize = buf.len();
        let n: usize = if remaining < room {
            remaining
        } else {
            room
        };
        let ghost before = buf@;
        for i in 0..n
            invariant
                n <= room,
                room == buf@.len(),
                start + n <= len,
                len == self.bytes@.len(),
                before.len() == buf@.len(),
                forall|j: int| 0 <= j < i ==> #[trigger] buf@[j] == self.bytes@[start + j],
                forall|j: int| i <= j < buf@.len() ==> #[trigger] buf@[j] == before[j],
        {
            buf[i] = self.bytes[start + i];
        }
        self.cursor = start + n;
        proof {
            assert(buf@.take(n as int) =~= self.bytes@.subrange(start as int, start + n));
            assert(buf@.skip(n as int) =~= before.skip(n as int));
        }
        n as i32
    }

    /// Move the position, or tell the length. Gives the new position, the
    /// length, or -1 when the request is not known or leads outside the
    /// bytes.
    pub fn seek(&mut self, offset: i64, whence: i32) -> (r: i64)
        requires
            old(self).wf(),
        ensures
            final(self).wf(),
            final(self).data() == old(self).data(),
            asks_for_size(whence) ==> r == old(self).data().len() && final(self).at() == old(
                self,
            ).at(),
            !asks_for_size(whence) ==> match seek_target(
                old(self).data().len() as int,
                old(self).at(),
                offset as int,
                whence,
            ) {
                Some(t) => r == t && final(self).at() == t,
                None => r == -1 && final(self).at() == old(self).at(),
            },
    {
        let len: i64 = self.bytes.len() as i64;
        let request: i32 = whence & !AVSEEK_FORCE;
        if request == AVSEEK_SIZE {
            return len;
        }
        let to: i128 = if request == 0 {
            offset as i128
        } else if request == 1 {
            self.cursor as i128 + offset as i128
        } else if request == 2 {
            len as i128 + offset as i128
        } else {
            return -1;
        };
        if to < 0 || to > len as i128 {
            return -1;
        }
        self.cursor = to as usize;
        to as i64
    }
}

/// How many bytes a read gives.
pub open spec fn read_count(len: int, at: int, room: int) -> int {
    if len - at < room {
        len - at
    } else {
        room
    }
}

/// What reads with buffers of these sizes give, put together.
pub open spec fn read_through(data: Seq<u8>, at: int, sizes: Seq<nat>) -> Seq<u8>
    decreases sizes.len(),
{
    if sizes.len() == 0 || at >= data.len() {
        seq![]
    } else {
        let n = read_count(data.len() as int, at, sizes[0] as int);
        data.subrange(at, at + n) + read_through(data, at + n, sizes.drop_first())
    }
}

/// The room of all buffers together.
pub open spec fn total_room(sizes: Seq<nat>) -> nat
    decreases sizes.len(),
{
    if sizes.len() == 0 {
        0
    } else {
        sizes[0] + total_room(sizes.drop_first())
    }
}

/// Reads in a row give the bytes back in order, none twice and none left
/// out, however large the buffers are; with enough room, all of them.
pub proof fn law_reads_give_the_bytes_back(data: Seq<u8>, at: int, sizes: Seq<nat>)
    requires
        0 <= at <= data.len(),
    ensures
        read_through(data, at, sizes) == data.subrange(
            at,
            at + read_count(data.len() as int, at, total_room(sizes) as int),
        ),
    decreases sizes.len(),
{
    if sizes.len() == 0 || at >= data.len() {
        assert(read_through(data, at, sizes) =~= data.subrange(
            at,
            at + read_count(data.len() as int, at, total_room(sizes) as int),
        ));
    } else {
        let n = read_count(data.len() as int, at, sizes[0] as int);
        law_reads_give_the_bytes_back(data, at + n, sizes.drop_first());
        assert(read_through(data, at, sizes) =~= data.subrange(
            at,
            at + read_count(data.len() as int, at, total_room(sizes) as int),
        ));
    }
}

/// A seek never leads outside the bytes, and one from the start, from the
/// current position and from the end that name the same place lead to the
/// same place.
pub proof fn law_seeks_agree(len: int, cursor: int, place: int, offset: int, whence: i32)
    requires
        0 <= cursor <= len,
        0 <= place <= len,
    ensures
        seek_target(len, cursor, offset, whence) matches Some(t) ==> 0 <= t <= len,
        seek_target(len, cursor, place, 0) == Some(place),
        seek_target(len, cursor, place - cursor, 1) == Some(place),
        seek_target(len, cursor, place - len, 2) == Some(place),
{
    assert(0i32 & !131072i32 == 0i32) by (bit_vector);
    assert(1i32 & !131072i32 == 1i32) by (bit_vector);
    assert(2i32 & !131072i32 == 2i32) by (bit_vector);
}

proof fn lemma_comma_parts(head: Seq<char>, rest: Seq<char>)
    requires
        !head.contains(','),
    ensures
        comma_parts(head + seq![','] + rest) == seq![head] + comma_parts(rest),
        comma_parts(head) == seq![head],
{
    let s = head + seq![','] + rest;
    s.index_of_first_ensures(',');
    head.index_of_first_ensures(',');
    assert(s[head.len() as int] == ',');
    let k = s.index_of_first(',')->0;
    if k < head.len() {
        assert(s[k] == head[k]);
        assert(head.contains(','));
    }
    assert(k == head.len());
    assert(s.take(k) =~= head);
    assert(s.skip(k + 1) =~= rest);
}

/// Media in memory reaches no file and no network: only `crypto` and
/// `data` are allowed. A file input may besides open files.
pub proof fn law_protocols(protocol: Seq<char>)
    ensures
        allows(MEMORY_PROTOCOL_WHITELIST@, protocol) <==> protocol == "crypto"@ || protocol
            == "data"@,
        allows(FILE_PROTOCOL_WHITELIST@, protocol) <==> protocol == "file"@ || protocol
            == "crypto"@ || protocol == "data"@,
{
    reveal_strlit("file,crypto,data");
    reveal_strlit("crypto,data");
    reveal_strlit("file");
    reveal_strlit("crypto");
    reveal_strlit("data");
    let memory = MEMORY_PROTOCOL_WHITELIST@;
    let file = FILE_PROTOCOL_WHITELIST@;
    assert(memory =~= "crypto"@ + seq![','] + "data"@);
    assert(file =~= "file"@ + seq![','] + memory);
    lemma_comma_parts("data"@, seq![]);
    lemma_comma_parts("crypto"@, "data"@);
    lemma_comma_parts("file"@, memory);
    let m = seq!["crypto"@] + seq!["data"@];
    let f = seq!["file"@] + m;
    assert(comma_parts(memory) == m);
    assert(comma_parts(file) == f);
    assert(m[0] == "crypto"@ && m[1] == "data"@);
    assert(f[0] == "file"@ && f[1] == "crypto"@ && f[2] == "data"@);
}

/// Media in memory is never opened with more than its own protocols.
pub proof fn law_memory_is_confined(s: InputSource, p: OpenPlan, protocol: Seq<char>)
    requires
        plan_opens(s, p),
        !(s is Path),
    ensures
        p is Bytes,
        allows(p->Bytes_whitelist@, protocol) ==> protocol == "crypto"@ || protocol == "data"@,
{
    law_protocols(protocol);
}

/// A read gives as much as there is and as much as fits: it stops only at
/// the end of the bytes or of the buffer.
pub proof fn law_reads_give_all_that_fits(len: int, at: int, room: int)
    requires
        0 <= at <= len,
        room >= 0,
    ensures
        0 <= read_count(len, at, room) <= room,
        at + read_count(len, at, room) <= len,
        read_count(len, at, room) == room || at + read_count(len, at, room) == len,
{
}

/// A seek that may be forced goes where the same seek goes that may not;
/// one that leads outside the bytes, and one that is not known, go nowhere.
/// The length is asked for by its own request, forced or not.
pub proof fn law_seek_requests(len: int, cursor: int, offset: int, whence: i32)
    requires
        0 <= cursor <= len,
    ensures
        seek_target(len, cursor, offset, 131072) == seek_target(len, cursor, offset, 0),
        seek_target(len, cursor, offset, 131073) == seek_target(len, cursor, offset, 1),
        seek_target(len, cursor, offset, 131074) == seek_target(len, cursor, offset, 2),
        offset < 0 || offset > len ==> seek_target(len, cursor, offset, 0) is None,
        cursor + offset < 0 || cursor + offset > len ==> seek_target(
            len,
            cursor,
            offset,
            1,
        ) is None,
        offset > 0 || len + offset < 0 ==> seek_target(len, cursor, offset, 2) is None,
        3 <= whence < 131072 ==> seek_target(len, cursor, offset, whence) is None,
        0 <= whence < 131072 ==> (asks_for_size(whence) <==> whence == 65536),
        asks_for_size(196608),
        !asks_for_size(131072) && !asks_for_size(131073) && !asks_for_size(131074),
{
    assert(131072i32 & !131072i32 == 0i32) by (bit_vector);
    assert(131073i32 & !131072i32 == 1i32) by (bit_vector);
    assert(131074i32 & !131072i32 == 2i32) by (bit_vector);
    assert(196608i32 & !131072i32 == 65536i32) by (bit_vector);
    assert(0i32 & !131072i32 == 0i32) by (bit_vector);
    assert(1i32 & !131072i32 == 1i32) by (bit_vector);
    assert(2i32 & !131072i32 == 2i32) by (bit_vector);
    assert(0 <= whence < 131072 ==> whence & !131072i32 == whence) by (bit_vector);
}

/// An input is refused exactly when it cannot be read: a path that names no
/// regular file or holds a NUL, and bytes of which there are none. Each is
/// a bad request.
pub proof fn law_refusals(path: String, bytes: Vec<u8>, shared: Arc<Vec<u8>>, is_file: bool)
    ensures
        refusal(InputSource::Path(path), is_file) is Some <==> !is_file || path@.contains('\0'),
        refusal(InputSource::Path(path), is_file) matches Some(e) ==> e.kind == "invalid_request"@
            && e.details.contains_pair("path"@, path@),
        refusal(InputSource::Memory(bytes), is_file) is Some <==> bytes@.len() == 0,
        refusal(InputSource::Memory(bytes), is_file) matches Some(e) ==> e.kind
            == "invalid_request"@,
        refusal(InputSource::Buffer(shared), is_file) is Some <==> shared@.len() == 0,
        refusal(InputSource::Buffer(shared), is_file) matches Some(e) ==> e.kind
            == "invalid_request"@,
{
    assert(path@.contains('\0') <==> contains_nul(path@));
}

/// What is opened is what the source is: the path itself, or the bytes
/// themselves, with the protocols of its kind.
pub proof fn law_plan_opens_the_source(s: InputSource, p: OpenPlan)
    requires
        plan_opens(s, p),
    ensures
        s matches InputSource::Path(path) ==> p is File && p->path@ == path@,
        s matches InputSource::Memory(bytes) ==> p is Bytes && p->bytes@ == bytes@,
        s matches InputSource::Buffer(bytes) ==> p is Bytes && p->bytes@ == bytes@,
        p is File ==> allows(p->File_whitelist@, "file"@),
        p is Bytes ==> !allows(p->Bytes_whitelist@, "file"@),
{
    law_protocols("file"@);
    reveal_strlit("file");
    reveal_strlit("crypto");
    reveal_strlit("data");
    assert("file"@.len() == 4 && "crypto"@.len() == 6 && "data"@.len() == 4);
    assert("file"@[0] == 'f' && "data"@[0] == 'd');
}

/// A path is its own label; bytes are labelled with how many there are,
/// which can be read back from the label.
pub proof fn law_labels(path: String, bytes: Vec<u8>, shared: Arc<Vec<u8>>)
    ensures
        label(InputSource::Path(path)) == path@,
        number(before(behind(label(InputSource::Memory(bytes)), ':'), ' ')) == bytes@.len(),
        before(label(InputSource::Memory(bytes)), ':') == "<memory"@,
        number(before(behind(label(InputSource::Buffer(shared)), ':'), ' ')) == shared@.len(),
        before(label(InputSource::Buffer(shared)), ':') == "<buffer"@,
{
    reveal_strlit("<memory:");
    reveal_strlit("<memory");
    reveal_strlit("<buffer:");
    reveal_strlit("<buffer");
    reveal_strlit(" bytes>");
    let rest = seq!['b', 'y', 't', 'e', 's', '>'];
    let m = decimal(bytes@.len());
    let b = decimal(shared@.len());
    law_decimal_reads_back(bytes@.len());
    law_decimal_reads_back(shared@.len());
    assert(label(InputSource::Memory(bytes)) =~= "<memory"@ + seq![':'] + (m + seq![' '] + rest));
    assert(label(InputSource::Buffer(shared)) =~= "<buffer"@ + seq![':'] + (b + seq![' '] + rest));
    lemma_cut("<memory"@, ':', m + seq![' '] + rest);
    lemma_cut("<buffer"@, ':', b + seq![' '] + rest);
    lemma_cut(m, ' ', rest);
    lemma_cut(b, ' ', rest);
}

/// A term is an input exactly when it is a text, a loaded buffer, or a pair
/// of the tag and a binary; and then it is the path, the buffer or the
/// bytes that it holds.
pub proof fn law_terms(text: String, bytes: Arc<Vec<u8>>, size: usize, tagged: bool, binary: Option<Vec<u8>>)
    ensures
        decoded(InputTerm::Text(text)) == Some(InputSource::Path(text)),
        decoded(InputTerm::Buffer(bytes)) == Some(InputSource::Buffer(bytes)),
        decoded(InputTerm::Other) is None,
        decoded(InputTerm::Tuple { size, tagged_memory: tagged, binary }) is Some <==> size == 2
            && tagged && binary is Some,
        decoded(InputTerm::Tuple { size, tagged_memory: tagged, binary }) matches Some(s) ==> s
            is Memory && Some(s->Memory_0) == binary,
{
}

/// The end of the bytes is told by the tag `EOF `, packed one byte after
/// the other and negated, so it is never taken for a count.
pub proof fn law_end_of_file_is_its_tag()
    ensures
        -AVERROR_EOF == 'E' as int + 0x100 * ('O' as int) + 0x1_0000 * ('F' as int) + 0x100_0000 * (
        ' ' as int),
        AVERROR_EOF < 0,
        IO_BUF_LEN > 0,
{
}

} // verus!
