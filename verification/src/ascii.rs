//! Text held in bytes: ASCII words, case folding, searching and trimming.
//!
//! The functions take whole slices; a caller that wants a part of a buffer
//! borrows it with `slice_subrange` first.

use vstd::prelude::*;
use vstd::slice::slice_subrange;
use vstd::string::*;
use vstd::utf8::*;

verus! {

/// Horizontal tab.
pub const HTAB: u8 = 0x09;

/// Line feed.
pub const LF: u8 = 0x0a;

/// Carriage return.
pub const CR: u8 = 0x0d;

/// Space.
pub const SP: u8 = 0x20;

/// Comma.
pub const COMMA: u8 = 0x2c;

/// Colon.
pub const COLON: u8 = 0x3a;

/// The bytes of a text whose characters are all ASCII, one byte for each.
pub open spec fn bytes_of(text: Seq<char>) -> Seq<u8> {
    Seq::new(text.len(), |i: int| text[i] as u8)
}

/// An ASCII capital letter becomes the small one; every other byte stays.
pub open spec fn lower(b: u8) -> u8 {
    if 0x41 <= b <= 0x5a {
        (b + 0x20) as u8
    } else {
        b
    }
}

/// Equality of two byte strings that takes `A`..`Z` for `a`..`z`.
pub open spec fn eq_ignore_case(a: Seq<u8>, b: Seq<u8>) -> bool {
    a.len() == b.len() && forall|i: int| 0 <= i < a.len() ==> lower(#[trigger] a[i]) == lower(b[i])
}

/// The least index at or after `from` at which `s` holds `b`, or the length
/// of `s` where there is none.
pub open spec fn find_byte(s: Seq<u8>, b: u8, from: int) -> int
    decreases s.len() - from,
{
    if from < 0 || from >= s.len() {
        s.len() as int
    } else if s[from] == b {
        from
    } else {
        find_byte(s, b, from + 1)
    }
}

/// The least index at or after `from` at which a CR LF pair begins, or the
/// length of `s` where there is none.
pub open spec fn line_end(s: Seq<u8>, from: int) -> int
    decreases s.len() - from,
{
    if from < 0 || from + 1 >= s.len() {
        s.len() as int
    } else if s[from] == CR && s[from + 1] == LF {
        from
    } else {
        line_end(s, from + 1)
    }
}

/// A decimal digit.
pub open spec fn is_digit(b: u8) -> bool {
    0x30 <= b <= 0x39
}

/// Optional white space of a header: a space or a horizontal tab.
pub open spec fn is_blank(b: u8) -> bool {
    b == SP || b == HTAB
}

/// `s` without the blanks at its front.
pub open spec fn trim_start(s: Seq<u8>) -> Seq<u8>
    decreases s.len(),
{
    if s.len() > 0 && is_blank(s[0]) {
        trim_start(s.drop_first())
    } else {
        s
    }
}

/// `s` without the blanks at its end.
pub open spec fn trim_end(s: Seq<u8>) -> Seq<u8>
    decreases s.len(),
{
    if s.len() > 0 && is_blank(s.last()) {
        trim_end(s.drop_last())
    } else {
        s
    }
}

/// `s` without the blanks at either end.
pub open spec fn trim(s: Seq<u8>) -> Seq<u8> {
    trim_end(trim_start(s))
}

/// What `find_byte` returns lies between `from` and the length of `s`, holds
/// `b` where it is an index, and no index before it from `from` on holds `b`.
pub proof fn lemma_find_byte_bounds(s: Seq<u8>, b: u8, from: int)
    requires
        0 <= from <= s.len(),
    ensures
        from <= find_byte(s, b, from) <= s.len(),
        find_byte(s, b, from) < s.len() ==> s[find_byte(s, b, from)] == b,
        forall|i: int| from <= i < find_byte(s, b, from) ==> s[i] != b,
    decreases s.len() - from,
{
    if from < s.len() && s[from] != b {
        lemma_find_byte_bounds(s, b, from + 1);
    }
}

/// What `line_end` returns lies between `from` and the length of `s`, and
/// where it is an index the two bytes of the line end lie within `s`.
pub proof fn lemma_line_end_bounds(s: Seq<u8>, from: int)
    requires
        0 <= from <= s.len(),
    ensures
        from <= line_end(s, from) <= s.len(),
        line_end(s, from) < s.len() ==> line_end(s, from) + 2 <= s.len(),
    decreases s.len() - from,
{
    if from + 1 < s.len() && !(s[from] == CR && s[from + 1] == LF) {
        lemma_line_end_bounds(s, from + 1);
    }
}

/// The bytes of an ASCII text are the bytes of its UTF-8 encoding.
pub proof fn lemma_ascii_bytes(text: &str)
    requires
        is_ascii_chars(text@),
    ensures
        text.spec_bytes() == bytes_of(text@),
{
    is_ascii_chars_encode_utf8(text@);
    assert(text.spec_bytes() =~= bytes_of(text@));
}

/// The small letter for an ASCII capital, every other byte as it is.
pub fn to_lower(b: u8) -> (r: u8)
    ensures
        r == lower(b),
{
    if 0x41 <= b && b <= 0x5a {
        b + 0x20
    } else {
        b
    }
}

/// Searches `s` for the byte `b`, starting at `from`.
pub fn find(s: &[u8], b: u8, from: usize) -> (r: usize)
    ensures
        r == find_byte(s@, b, from as int),
{
    let mut i: usize = from;
    while i < s.len()
        invariant
            from <= i,
            find_byte(s@, b, from as int) == find_byte(s@, b, i as int),
        decreases s.len() - i,
    {
        if s[i] == b {
            return i;
        }
        i += 1;
    }
    s.len()
}

/// Searches `s` for a CR LF pair, starting at `from`.
pub fn find_line_end(s: &[u8], from: usize) -> (r: usize)
    ensures
        r == line_end(s@, from as int),
{
    let mut i: usize = from;
    while i < s.len() && i + 1 < s.len()
        invariant
            from <= i,
            line_end(s@, from as int) == line_end(s@, i as int),
        decreases s.len() - i,
    {
        if s[i] == CR && s[i + 1] == LF {
            return i;
        }
        i += 1;
    }
    s.len()
}

/// Whether `s` holds the bytes of the text `word`.
pub fn is_word(s: &[u8], word: &str) -> (r: bool)
    ensures
        r == (s@ == word.spec_bytes()),
{
    let w = word.as_bytes();
    if s.len() != w.len() {
        return false;
    }
    let mut i: usize = 0;
    while i < s.len()
        invariant
            i <= s.len(),
            s.len() == w.len(),
            w@ == word.spec_bytes(),
            forall|j: int| 0 <= j < i ==> s@[j] == w@[j],
        decreases s.len() - i,
    {
        if s[i] != w[i] {
            return false;
        }
        i += 1;
    }
    assert(s@ =~= w@);
    true
}

/// Whether `s` holds the bytes of the text `word` where capitals count as
/// small letters.
pub fn is_word_ignore_case(s: &[u8], word: &str) -> (r: bool)
    ensures
        r == eq_ignore_case(s@, word.spec_bytes()),
{
    let w = word.as_bytes();
    if s.len() != w.len() {
        return false;
    }
    let mut i: usize = 0;
    while i < s.len()
        invariant
            i <= s.len(),
            s.len() == w.len(),
            w@ == word.spec_bytes(),
            forall|j: int| 0 <= j < i ==> lower(#[trigger] s@[j]) == lower(w@[j]),
        decreases s.len() - i,
    {
        if to_lower(s[i]) != to_lower(w[i]) {
            return false;
        }
        i += 1;
    }
    true
}

/// The part of `s` between its leading and its trailing blanks.
pub fn trimmed(s: &[u8]) -> (r: &[u8])
    ensures
        r@ == trim(s@),
{
    assert(s@.subrange(0, s.len() as int) =~= s@);
    let mut lo: usize = 0;
    while lo < s.len() && (s[lo] == SP || s[lo] == HTAB)
        invariant
            lo <= s.len(),
            trim_start(s@) == trim_start(s@.subrange(lo as int, s.len() as int)),
        decreases s.len() - lo,
    {
        assert(s@.subrange(lo as int, s.len() as int).drop_first() =~= s@.subrange(
            lo as int + 1,
            s.len() as int,
        ));
        lo += 1;
    }
    let mut hi: usize = s.len();
    while hi > lo && (s[hi - 1] == SP || s[hi - 1] == HTAB)
        invariant
            lo <= hi <= s.len(),
            trim_start(s@) == s@.subrange(lo as int, s.len() as int),
            trim(s@) == trim_end(s@.subrange(lo as int, hi as int)),
        decreases hi,
    {
        assert(s@.subrange(lo as int, hi as int).drop_last() =~= s@.subrange(
            lo as int,
            hi as int - 1,
        ));
        hi -= 1;
    }
    slice_subrange(s, lo, hi)
}

/// Appends the bytes of the text `text` to `out`.
pub fn push_text(out: &mut Vec<u8>, text: &str)
    ensures
        final(out)@ == old(out)@ + text.spec_bytes(),
{
    out.extend_from_slice(text.as_bytes());
}

} // verus!
