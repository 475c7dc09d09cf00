//! The header block of a login request: where it ends, which lines it holds,
//! and what `content-length` it declares.

use vstd::prelude::*;
use vstd::string::StringSliceAdditionalSpecFns;
use vstd::utf8::*;
use crate::scan::{occurs_at, find_from, find_bytes, lemma_find_from, lemma_ascii_boundaries, lemma_str_bytes, slice_str, utf8_text};
use crate::text::{lowercase, parse_usize, parse_usize_spec, trim_whitespace, trim_ws, unicode_lowercase};

verus! {

broadcast use vstd::string::group_string_axioms, vstd::utf8::group_utf8_lib, vstd::slice::group_slice_axioms;

/// Size of the buffer that the header block is read into.
pub const HEADER_MAX_LENGTH: usize = 16384;

/// Largest body that a login request may declare.
pub const PAYLOAD_MAX_LENGTH: usize = 16384;

/// Offset at which the header lines begin: after the request line and its CRLF.
pub const HEADER_LINES_START: usize = 25;

/// The bytes of the request line `POST /api/auth HTTP/1.1`, which marks a login request.
pub open spec fn auth_request_line() -> Seq<u8> {
    // P O S T ' ' / a p i / a u t h ' ' H T T P / 1 . 1
    seq![
        80u8, 79, 83, 84, 32, 47, 97, 112, 105, 47, 97, 117, 116, 104, 32, 72, 84, 84, 80, 47, 49,
        46, 49,
    ]
}

/// `\r\n`, which ends a header line.
pub open spec fn crlf() -> Seq<u8> {
    seq![13u8, 10]
}

/// `\r\n\r\n`, which ends the header block.
pub open spec fn blank_line() -> Seq<u8> {
    seq![13u8, 10, 13, 10]
}

/// `:`, which parts a header's name from its value.
pub open spec fn colon() -> Seq<u8> {
    seq![58u8]
}

/// The header name that declares the body's length, once lower-cased.
pub open spec fn content_length_name() -> Seq<char> {
    "content-length"@
}

/// Why a header line stops the reading of the header block.
#[derive(PartialEq, Eq, Structural, Clone, Copy, Debug)]
pub enum LineError {
    /// The line does not hold exactly one `:`.
    Malformed,
    /// The line is a `content-length` header whose value is no `usize`.
    BadLength,
}

/// The effect of one header line on the declared body length `cl`: a line must
/// hold exactly one `:`; if its name, trimmed and lower-cased, is
/// `content-length`, its value, trimmed and lower-cased, must read as a `usize`
/// and becomes the declared length; other lines leave `cl` as it was.
pub open spec fn line_effect(line: Seq<u8>, cl: Option<usize>) -> Result<Option<usize>, LineError> {
    match find_from(line, colon(), 0) {
        None => Err(LineError::Malformed),
        Some(c) => {
            if find_from(line, colon(), c + 1) is Some {
                Err(LineError::Malformed)
            } else {
                let name = decode_utf8(line.subrange(0, c));
                let value = decode_utf8(line.subrange(c + 1, line.len() as int));
                if unicode_lowercase(trim_ws(name)) == content_length_name() {
                    match parse_usize_spec(unicode_lowercase(trim_ws(value))) {
                        Some(n) => Ok(Some(n)),
                        None => Err(LineError::BadLength),
                    }
                } else {
                    Ok(cl)
                }
            }
        },
    }
}

/// The header lines of `sec` from offset `pos` on, taken in order, each
/// ended by `\r\n` or by the end of `sec`: the first line that stops the
/// reading decides, else the declared length after the last line.
pub open spec fn scan_from(sec: Seq<u8>, pos: int, cl: Option<usize>) -> Result<Option<usize>, LineError>
    decreases sec.len() + 1 - pos,
{
    if pos < 0 || pos > sec.len() {
        Ok(cl)
    } else {
        match find_from(sec, crlf(), pos) {
            Some(j) => {
                if pos <= j && j + 2 <= sec.len() {
                    match line_effect(sec.subrange(pos, j), cl) {
                        Ok(next) => scan_from(sec, j + 2, next),
                        Err(e) => Err(e),
                    }
                } else {
                    Ok(cl)
                }
            },
            None => line_effect(sec.subrange(pos, sec.len() as int), cl),
        }
    }
}

/// `s` without its trailing zero bytes.
pub open spec fn strip_trailing_nuls(s: Seq<u8>) -> Seq<u8>
    decreases s.len(),
{
    if s.len() > 0 && s.last() == 0 {
        strip_trailing_nuls(s.drop_last())
    } else {
        s
    }
}

/// What the header block read into a buffer decides.
#[derive(PartialEq, Eq, Structural, Clone, Copy, Debug)]
pub enum HeaderOutcome {
    /// The connection is dropped without an answer: the buffer is not UTF-8,
    /// or a `content-length` value is no number.
    Unreadable,
    /// No blank line in a full buffer: answered with 431.
    TooLarge,
    /// No blank line in a buffer that is not full, or a header line without
    /// exactly one `:`: answered with 400.
    Malformed,
    /// No `content-length` header: answered with 411.
    UnknownLength,
    /// A declared length above `PAYLOAD_MAX_LENGTH`: answered with 413.
    PayloadTooLarge,
    /// The body starts at byte `start` of the buffer; its text there, without
    /// trailing zero bytes, ends at byte `end`. When the declared length reaches
    /// past the bytes read so far, `missing` more bytes of it are still to be
    /// read, and the body is then the bytes read from `start` on followed by them.
    Json { start: usize, end: usize, missing: usize },
}

/// Where the bytes of the body read so far end: at the bytes read (`length`,
/// within the buffer), and never before the body's `start`.
pub open spec fn body_read_end(buf_len: int, length: int, start: int) -> int {
    let read = if length < buf_len {
        length
    } else {
        buf_len
    };
    if read < start {
        start
    } else {
        read
    }
}

/// The outcome for a header buffer `buf` of which `length` bytes were read.
pub open spec fn headers_outcome(buf: Seq<u8>, length: usize) -> HeaderOutcome {
    if !valid_utf8(buf) {
        HeaderOutcome::Unreadable
    } else {
        match find_from(buf, blank_line(), 0) {
            None => if length == HEADER_MAX_LENGTH {
                HeaderOutcome::TooLarge
            } else {
                HeaderOutcome::Malformed
            },
            Some(e) => match scan_from(buf.subrange(HEADER_LINES_START as int, e), 0, None) {
                Err(LineError::Malformed) => HeaderOutcome::Malformed,
                Err(LineError::BadLength) => HeaderOutcome::Unreadable,
                Ok(None) => HeaderOutcome::UnknownLength,
                Ok(Some(cl)) => if cl > PAYLOAD_MAX_LENGTH {
                    HeaderOutcome::PayloadTooLarge
                } else {
                    HeaderOutcome::Json {
                        start: (e + 4) as usize,
                        end: (e + 4 + strip_trailing_nuls(
                            buf.subrange(e + 4, buf.len() as int),
                        ).len()) as usize,
                        missing: if cl > body_read_end(buf.len() as int, length as int, e + 4) - (e + 4) {
                            (cl - (body_read_end(buf.len() as int, length as int, e + 4) - (e + 4))) as usize
                        } else {
                            0
                        },
                    }
                },
            },
        }
    }
}

/// The header lines can be cut out of `buf`: if it is UTF-8 and holds a blank
/// line, that line starts at or after the header lines' offset, and that offset
/// starts a character. Cutting them out of any other buffer panics.
pub open spec fn header_lines_cut_ok(buf: Seq<u8>) -> bool {
    valid_utf8(buf) ==> match find_from(buf, blank_line(), 0) {
        Some(e) => HEADER_LINES_START <= e && is_char_boundary(buf, HEADER_LINES_START as int),
        None => true,
    }
}


fn crlf_bytes() -> (r: Vec<u8>)
    ensures
        r@ == crlf(),
{
    let r = vec![13u8, 10];
    assert(r@ =~= crlf());
    r
}

fn blank_line_bytes() -> (r: Vec<u8>)
    ensures
        r@ == blank_line(),
{
    let r = vec![13u8, 10, 13, 10];
    assert(r@ =~= blank_line());
    r
}

fn colon_bytes() -> (r: Vec<u8>)
    ensures
        r@ == colon(),
{
    let r = vec![58u8];
    assert(r@ =~= colon());
    r
}

/// The request line that marks a login request.
pub fn auth_request_start() -> (r: Vec<u8>)
    ensures
        r@ == auth_request_line(),
{
    let r = vec![
        80u8, 79, 83, 84, 32, 47, 97, 112, 105, 47, 97, 117, 116, 104, 32, 72, 84, 84, 80, 47, 49,
        46, 49,
    ];
    assert(r@ =~= auth_request_line());
    r
}

/// True when the bytes peeked at the start of a connection are exactly the
/// login request line.
pub fn is_auth_request(peeked: &[u8]) -> (r: bool)
    ensures
        r == (peeked@ == auth_request_line()),
{
    let line = auth_request_start();
    if peeked.len() != line.len() {
        return false;
    }
    let mut i: usize = 0;
    while i < line.len()
        invariant
            i <= line@.len(),
            peeked@.len() == line@.len(),
            line@ == auth_request_line(),
            forall|k: int| 0 <= k < i ==> peeked@[k] == line@[k],
        decreases line.len() - i,
    {
        if peeked[i] != line[i] {
            return false;
        }
        i = i + 1;
    }
    assert(peeked@ =~= line@);
    true
}

fn line_effect_exec(line: &[u8], line_text: &str, cl: Option<usize>) -> (r: Result<
    Option<usize>,
    LineError,
>)
    requires
        line_text.spec_bytes() == line@,
    ensures
        r == line_effect(line@, cl),
{
    let sep = colon_bytes();
    let line_len = line.len();
    let c = match find_bytes(line, sep.as_slice(), 0) {
        None => return Err(LineError::Malformed),
        Some(c) => c,
    };
    proof {
        lemma_find_from(line@, colon(), 0);
        assert(c + 1 <= line_len);
    }
    if find_bytes(line, sep.as_slice(), c + 1).is_some() {
        return Err(LineError::Malformed);
    }
    proof {
        lemma_str_bytes(line_text);
        assert(line@[c as int] == 58u8) by {
            assert(line@.subrange(c as int, c + 1) == colon());
            assert(line@.subrange(c as int, c + 1)[0] == line@[c as int]);
        }
        lemma_ascii_boundaries(line@, c as int);
        is_char_boundary_start_end_of_seq(line@);
    }
    let name = slice_str(line_text, 0, c);
    let value = slice_str(line_text, c + 1, line_len);
    proof {
        lemma_str_bytes(name);
        lemma_str_bytes(value);
    }
    let name_key = lowercase(trim_whitespace(name));
    let wanted = String::from_str("content-length");
    if name_key == wanted {
        let value_text = lowercase(trim_whitespace(value));
        match parse_usize(value_text.as_str()) {
            Some(n) => Ok(Some(n)),
            None => Err(LineError::BadLength),
        }
    } else {
        Ok(cl)
    }
}


proof fn byte_at_pattern(s: Seq<u8>, pat: Seq<u8>, j: int, k: int)
    requires
        occurs_at(s, pat, j),
        0 <= k < pat.len(),
    ensures
        s[j + k] == pat[k],
{
    assert(s.subrange(j, j + pat.len())[k] == s[j + k]);
}

/// Reads the header lines `sec` (text `sec_text`) one by one.
fn scan_header_lines(sec: &[u8], sec_text: &str) -> (r: Result<Option<usize>, LineError>)
    requires
        sec_text.spec_bytes() == sec@,
    ensures
        r == scan_from(sec@, 0, None),
{
    let crlf_pat = crlf_bytes();
    let n = sec.len();
    let mut pos: usize = 0;
    let mut cl: Option<usize> = None;
    proof {
        lemma_str_bytes(sec_text);
        is_char_boundary_start_end_of_seq(sec@);
    }
    loop
        invariant
            pos <= n,
            n == sec@.len(),
            crlf_pat@ == crlf(),
            sec_text.spec_bytes() == sec@,
            valid_utf8(sec@),
            is_char_boundary(sec@, pos as int),
            is_char_boundary(sec@, n as int),
            scan_from(sec@, 0, None) == scan_from(sec@, pos as int, cl),
        decreases n - pos,
    {
        match find_bytes(sec, crlf_pat.as_slice(), pos) {
            Some(j) => {
                proof {
                    lemma_find_from(sec@, crlf(), pos as int);
                    byte_at_pattern(sec@, crlf(), j as int, 0);
                    byte_at_pattern(sec@, crlf(), j as int, 1);
                    lemma_ascii_boundaries(sec@, j as int);
                    lemma_ascii_boundaries(sec@, j + 1);
                }
                let line = &sec[pos..j];
                let line_text = slice_str(sec_text, pos, j);
                assert(line@ =~= sec@.subrange(pos as int, j as int));
                match line_effect_exec(line, line_text, cl) {
                    Ok(next) => {
                        cl = next;
                        pos = j + 2;
                    },
                    Err(e) => {
                        return Err(e);
                    },
                }
            },
            None => {
                let line = &sec[pos..n];
                let line_text = slice_str(sec_text, pos, n);
                assert(line@ =~= sec@.subrange(pos as int, n as int));
                return line_effect_exec(line, line_text, cl);
            },
        }
    }
}

pub fn strip_nuls_end(buf: &[u8], start: usize) -> (end: usize)
    requires
        start <= buf@.len(),
    ensures
        start <= end <= buf@.len(),
        end - start == strip_trailing_nuls(buf@.subrange(start as int, buf@.len() as int)).len(),
        end == buf@.len() || buf@[end as int] == 0,
{
    let n = buf.len();
    let mut end = n;
    assert(buf@.subrange(start as int, n as int) =~= buf@.subrange(start as int, end as int));
    while end > start && buf[end - 1] == 0
        invariant
            start <= end <= n,
            n == buf@.len(),
            strip_trailing_nuls(buf@.subrange(start as int, n as int)) == strip_trailing_nuls(
                buf@.subrange(start as int, end as int),
            ),
            end == n || buf@[end as int] == 0,
        decreases end,
    {
        assert(buf@.subrange(start as int, end as int).drop_last() =~= buf@.subrange(
            start as int,
            end - 1,
        ));
        end = end - 1;
    }
    end
}

/// True when the header lines can be cut out of `buf` (see `header_lines_cut_ok`).
pub fn header_lines_can_be_cut(buf: &[u8]) -> (r: bool)
    ensures
        r == header_lines_cut_ok(buf@),
{
    let text = match utf8_text(buf) {
        None => return true,
        Some(t) => t,
    };
    let blank = blank_line_bytes();
    match find_bytes(buf, blank.as_slice(), 0) {
        None => true,
        Some(e) => HEADER_LINES_START <= e && text.is_char_boundary(HEADER_LINES_START),
    }
}

/// Decides what the header block in `buf`, of which `length` bytes were read,
/// calls for.
pub fn examine_headers(buf: &[u8], length: usize) -> (r: HeaderOutcome)
    requires
        header_lines_cut_ok(buf@),
    ensures
        r == headers_outcome(buf@, length),
        r matches HeaderOutcome::Json { start, end, .. } ==> start <= end <= buf@.len()
            && body_read_end(buf@.len() as int, length as int, start as int) <= buf@.len(),
{
    let text = match utf8_text(buf) {
        None => return HeaderOutcome::Unreadable,
        Some(t) => t,
    };
    let blank = blank_line_bytes();
    let e = match find_bytes(buf, blank.as_slice(), 0) {
        None => {
            if length == HEADER_MAX_LENGTH {
                return HeaderOutcome::TooLarge;
            } else {
                return HeaderOutcome::Malformed;
            }
        },
        Some(e) => e,
    };
    proof {
        lemma_find_from(buf@, blank_line(), 0);
        byte_at_pattern(buf@, blank_line(), e as int, 0);
        lemma_ascii_boundaries(buf@, e as int);
    }
    let buf_len = buf.len();
    assert(e + 4 <= buf_len);
    let sec = &buf[HEADER_LINES_START..e];
    let sec_text = slice_str(text, HEADER_LINES_START, e);
    assert(sec@ =~= buf@.subrange(HEADER_LINES_START as int, e as int));
    match scan_header_lines(sec, sec_text) {
        Err(LineError::Malformed) => HeaderOutcome::Malformed,
        Err(LineError::BadLength) => HeaderOutcome::Unreadable,
        Ok(None) => HeaderOutcome::UnknownLength,
        Ok(Some(cl)) => {
            if cl > PAYLOAD_MAX_LENGTH {
                HeaderOutcome::PayloadTooLarge
            } else {
                let start = e + 4;
                let end = strip_nuls_end(buf, start);
                let read = if length < buf_len {
                    length
                } else {
                    buf_len
                };
                let available = if read < start {
                    0
                } else {
                    read - start
                };
                let missing = if cl > available {
                    cl - available
                } else {
                    0
                };
                HeaderOutcome::Json { start, end, missing }
            }
        },
    }
}


pub proof fn lemma_strip_trailing_nuls(s: Seq<u8>)
    ensures
        strip_trailing_nuls(s).len() <= s.len(),
        strip_trailing_nuls(s) == s.subrange(0, strip_trailing_nuls(s).len() as int),
        strip_trailing_nuls(s).len() < s.len() ==> s[strip_trailing_nuls(s).len() as int] == 0,
        forall|k: int| strip_trailing_nuls(s).len() <= k < s.len() ==> #[trigger] s[k] == 0,
        strip_trailing_nuls(s).len() > 0 ==> strip_trailing_nuls(s).last() != 0,
    decreases s.len(),
{
    if s.len() > 0 && s.last() == 0 {
        lemma_strip_trailing_nuls(s.drop_last());
        let t = strip_trailing_nuls(s.drop_last());
        assert(s.drop_last().subrange(0, t.len() as int) =~= s.subrange(0, t.len() as int));
        if t.len() < s.len() - 1 {
            assert(s.drop_last()[t.len() as int] == s[t.len() as int]);
        }
        assert forall|k: int| t.len() <= k < s.len() implies #[trigger] s[k] == 0 by {
            if k < s.len() - 1 {
                assert(s[k] == s.drop_last()[k]);
            }
        }
    } else {
        assert(s.subrange(0, s.len() as int) =~= s);
    }
}

/// A body found by the header block starts right after the first blank line;
/// its text ends at the last non-zero byte of the buffer, with only zero bytes
/// after it; the declared length is within `PAYLOAD_MAX_LENGTH`, and when
/// bytes are still missing, they and the bytes read after the blank line make
/// up exactly the declared length.
pub proof fn bodies_follow_the_first_blank_line(buf: Seq<u8>, length: usize)
    requires
        buf.len() <= usize::MAX,
        headers_outcome(buf, length) is Json,
    ensures
        ({
            let o = headers_outcome(buf, length);
            let start = o->Json_start as int;
            let end = o->Json_end as int;
            let missing = o->Json_missing as int;
            let e = start - 4;
            let declared = scan_from(buf.subrange(HEADER_LINES_START as int, e), 0, None);
            &&& 0 <= e && start <= end <= buf.len()
            &&& occurs_at(buf, blank_line(), e)
            &&& forall|k: int| 0 <= k < e ==> !occurs_at(buf, blank_line(), k)
            &&& forall|k: int| end <= k < buf.len() ==> #[trigger] buf[k] == 0
            &&& end > start ==> buf[end - 1] != 0
            &&& declared matches Ok(Some(cl)) && cl <= PAYLOAD_MAX_LENGTH
                && (missing > 0 ==> missing + (body_read_end(buf.len() as int, length as int, start) - start) == cl)
        }),
{
    let e = find_from(buf, blank_line(), 0)->0;
    lemma_find_from(buf, blank_line(), 0);
    assert(find_from(buf, blank_line(), 0) is Some);
    assert(e + 4 <= buf.len());
    assert(headers_outcome(buf, length)->Json_start == (e + 4) as usize);
    let tail = buf.subrange(e + 4, buf.len() as int);
    lemma_strip_trailing_nuls(tail);
    let t = strip_trailing_nuls(tail);
    let end = e + 4 + t.len();
    assert forall|k: int| end <= k < buf.len() implies #[trigger] buf[k] == 0 by {
        assert(buf[k] == tail[k - (e + 4)]);
    }
    if t.len() > 0 {
        assert(buf[end - 1] == t.last());
    }
}

/// The JSON text of a login request whose header block called for it.
pub fn json_text(buf: &[u8], length: usize, start: usize, end: usize, missing: usize) -> (r: String)
    requires
        headers_outcome(buf@, length) == (HeaderOutcome::Json { start, end, missing }),
    ensures
        valid_utf8(buf@.subrange(start as int, end as int)),
        r@ == decode_utf8(buf@.subrange(start as int, end as int)),
{
    let text = match utf8_text(buf) {
        Some(t) => t,
        None => {
            assert(false);
            return String::new();
        },
    };
    let buf_len = buf.len();
    let ghost e = find_from(buf@, blank_line(), 0)->0;
    proof {
        lemma_find_from(buf@, blank_line(), 0);
        assert(e + 4 <= buf_len);
        byte_at_pattern(buf@, blank_line(), e, 3);
        lemma_ascii_boundaries(buf@, e + 3);
        let tail = buf@.subrange(e + 4, buf@.len() as int);
        lemma_strip_trailing_nuls(tail);
        assert(start == e + 4);
        assert(end == e + 4 + strip_trailing_nuls(tail).len());
        if end < buf@.len() {
            assert(buf@[end as int] == tail[end - start]);
            lemma_ascii_boundaries(buf@, end as int);
        } else {
            is_char_boundary_start_end_of_seq(buf@);
        }
    }
    let piece = slice_str(text, start, end);
    proof {
        lemma_str_bytes(piece);
    }
    String::from_str(piece)
}

} // verus!
