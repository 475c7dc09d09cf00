//! Searching byte buffers and cutting UTF-8 text at ASCII delimiters.

use vstd::prelude::*;
use vstd::string::StringSliceAdditionalSpecFns;
use vstd::utf8::*;

verus! {

broadcast use vstd::string::group_string_axioms, vstd::utf8::group_utf8_lib, vstd::slice::group_slice_axioms;

/// True when `pat` occurs in `s` starting at index `i`.
pub open spec fn occurs_at(s: Seq<u8>, pat: Seq<u8>, i: int) -> bool {
    0 <= i && i + pat.len() <= s.len() && s.subrange(i, i + pat.len()) == pat
}

/// The first index at or after `from` where `pat` occurs in `s`, as
/// `str::find` reports it for a pattern of ASCII characters.
pub open spec fn find_from(s: Seq<u8>, pat: Seq<u8>, from: int) -> Option<int>
    decreases s.len() + 1 - from,
{
    if from < 0 || from + pat.len() > s.len() {
        None
    } else if s.subrange(from, from + pat.len()) == pat {
        Some(from)
    } else {
        find_from(s, pat, from + 1)
    }
}

/// Where a found occurrence lies, and that none comes before it.
pub proof fn lemma_find_from(s: Seq<u8>, pat: Seq<u8>, from: int)
    requires
        0 <= from,
    ensures
        find_from(s, pat, from) matches Some(j) ==> from <= j && occurs_at(s, pat, j) && forall|
            k: int,
        |
            from <= k < j ==> !occurs_at(s, pat, k),
        find_from(s, pat, from) is None ==> forall|k: int| from <= k ==> !occurs_at(s, pat, k),
    decreases s.len() + 1 - from,
{
    if from + pat.len() > s.len() {
    } else if s.subrange(from, from + pat.len()) == pat {
    } else {
        lemma_find_from(s, pat, from + 1);
    }
}

/// Finds `pat` in `s` at or after `from`.
pub fn find_bytes(s: &[u8], pat: &[u8], from: usize) -> (r: Option<usize>)
    ensures
        r matches Some(j) ==> find_from(s@, pat@, from as int) == Some(j as int),
        r is None ==> find_from(s@, pat@, from as int) is None,
{
    let n = s.len();
    let m = pat.len();
    let mut i = from;
    while i <= n && m <= n - i
        invariant
            from <= i,
            n == s@.len(),
            m == pat@.len(),
            find_from(s@, pat@, from as int) == find_from(s@, pat@, i as int),
        decreases n - i,
    {
        let mut k: usize = 0;
        let mut same = true;
        assert(s@.subrange(i as int, i as int) =~= pat@.subrange(0, 0));
        while k < m
            invariant
                k <= m,
                i + m <= n,
                n == s@.len(),
                m == pat@.len(),
                same == (s@.subrange(i as int, i + k) == pat@.subrange(0, k as int)),
            decreases m - k,
        {
            let ghost before = same;
            if s[i + k] != pat[k] {
                same = false;
            }
            proof {
                if before {
                    if same {
                        assert(s@.subrange(i as int, i + k + 1) =~= pat@.subrange(0, k + 1));
                    } else {
                        assert(s@.subrange(i as int, i + k + 1)[k as int] != pat@.subrange(
                            0,
                            k + 1,
                        )[k as int]);
                    }
                } else {
                    if s@.subrange(i as int, i + k + 1) == pat@.subrange(0, k + 1) {
                        assert(s@.subrange(i as int, i + k) =~= s@.subrange(i as int, i + k + 1).subrange(0, k as int));
                        assert(pat@.subrange(0, k as int) =~= pat@.subrange(0, k + 1).subrange(0, k as int));
                    }
                }
            }
            k = k + 1;
        }
        assert(pat@.subrange(0, m as int) =~= pat@);
        if same {
            return Some(i);
        }
        assert(m > 0) by {
            if m == 0 {
                assert(s@.subrange(i as int, i as int) =~= pat@.subrange(0, 0));
            }
        }
        i = i + 1;
    }
    None
}

/// `std::str::from_utf8`: the bytes read as text when they are well-formed
/// UTF-8, and nothing otherwise. Its documentation promises exactly this.
#[verifier::external_body]
pub fn utf8_text(bytes: &[u8]) -> (r: Option<&str>)
    ensures
        r is Some <==> valid_utf8(bytes@),
        r matches Some(t) ==> t.spec_bytes() == bytes@,
{
    std::str::from_utf8(bytes).ok()
}

/// A string's bytes are well-formed UTF-8 and decode to its characters.
pub proof fn lemma_str_bytes(s: &str)
    ensures
        valid_utf8(s.spec_bytes()),
        decode_utf8(s.spec_bytes()) == s@,
{
}

proof fn lemma_continuation_follows_non_ascii(bytes: Seq<u8>, j: int)
    requires
        valid_utf8(bytes),
        0 < j < bytes.len(),
        is_continuation_byte(bytes[j]),
    ensures
        bytes[j - 1] >= 0x80,
    decreases bytes.len(),
{
    let k = length_of_first_scalar(bytes);
    let rest = pop_first_scalar(bytes);
    if j < k {
    } else if j == k {
        assert(rest[0] == bytes[j]);
        assert(valid_first_scalar(rest));
    } else {
        assert(rest[j - k] == bytes[j]);
        assert(rest[j - k - 1] == bytes[j - 1]);
        lemma_continuation_follows_non_ascii(rest, j - k);
    }
}

/// In well-formed UTF-8, an ASCII byte starts a character, and so does the
/// byte after it.
pub proof fn lemma_ascii_boundaries(bytes: Seq<u8>, i: int)
    requires
        valid_utf8(bytes),
        0 <= i < bytes.len(),
        bytes[i] < 0x80,
    ensures
        is_char_boundary(bytes, i),
        is_char_boundary(bytes, i + 1),
{
    is_char_boundary_iff_not_is_continuation_byte(bytes, i);
    if i + 1 < bytes.len() {
        if is_continuation_byte(bytes[i + 1]) {
            lemma_continuation_follows_non_ascii(bytes, i + 1);
        }
        is_char_boundary_iff_not_is_continuation_byte(bytes, i + 1);
    } else {
        is_char_boundary_start_end_of_seq(bytes);
    }
}

/// The text between byte offsets `from` and `to` of `s`.
pub fn slice_str<'a>(s: &'a str, from: usize, to: usize) -> (r: &'a str)
    requires
        from <= to <= s.spec_bytes().len(),
        is_char_boundary(s.spec_bytes(), from as int),
        is_char_boundary(s.spec_bytes(), to as int),
    ensures
        r.spec_bytes() == s.spec_bytes().subrange(from as int, to as int),
{
    let (p, _) = s.split_at(to);
    proof {
        let pb = p.spec_bytes();
        assert(valid_utf8(pb));
        if from < to {
            is_char_boundary_iff_not_is_continuation_byte(s.spec_bytes(), from as int);
            is_char_boundary_iff_not_is_continuation_byte(pb, from as int);
        } else {
            is_char_boundary_start_end_of_seq(pb);
        }
    }
    let (_, r) = p.split_at(from);
    assert(r.spec_bytes() =~= s.spec_bytes().subrange(from as int, to as int));
    r
}

} // verus!
