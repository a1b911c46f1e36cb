//! The head of an HTTP/1.x request, as far as the proxy reads it: the
//! request line and the header lines that follow it.
//!
//! A line ends with CR LF. The header lines are the lines after the request
//! line up to the first empty line; a last line that has no CR LF yet is not
//! read, because more of it may still arrive.

use crate::ascii::{
    bytes_of, eq_ignore_case, find, find_byte, find_line_end, is_digit, is_word,
    is_word_ignore_case, lemma_ascii_bytes, lemma_find_byte_bounds, lemma_line_end_bounds,
    line_end, trim, trimmed, COLON, COMMA, SP,
};
use vstd::prelude::*;
use vstd::slice::slice_subrange;
use vstd::string::*;

verus! {

/// The request methods that the proxy takes for HTTP.
pub open spec fn is_method(m: Seq<u8>) -> bool {
    ||| m == bytes_of("GET"@)
    ||| m == bytes_of("POST"@)
    ||| m == bytes_of("HEAD"@)
    ||| m == bytes_of("PUT"@)
    ||| m == bytes_of("DELETE"@)
    ||| m == bytes_of("CONNECT"@)
    ||| m == bytes_of("OPTIONS"@)
    ||| m == bytes_of("PATCH"@)
}

/// A request target: at least one byte, all of them visible ASCII.
pub open spec fn is_target(t: Seq<u8>) -> bool {
    t.len() > 0 && forall|i: int| 0 <= i < t.len() ==> 0x21 <= #[trigger] t[i] <= 0x7e
}

/// A protocol version: `HTTP/`, a digit, a dot and a digit.
pub open spec fn is_version(v: Seq<u8>) -> bool {
    &&& v.len() == 8
    &&& v.subrange(0, 5) == bytes_of("HTTP/"@)
    &&& is_digit(v[5])
    &&& v[6] == 0x2e
    &&& is_digit(v[7])
}

/// A request line without its CR LF: a method, one space, a target, one
/// space and a version.
pub open spec fn is_request_line(line: Seq<u8>) -> bool {
    let a = find_byte(line, SP, 0);
    let b = find_byte(line, SP, a + 1);
    &&& a < line.len()
    &&& b < line.len()
    &&& is_method(line.subrange(0, a))
    &&& is_target(line.subrange(a + 1, b))
    &&& is_version(line.subrange(b + 1, line.len() as int))
}

/// Whether `s` begins with a complete, well-formed request line.
pub open spec fn starts_with_request(s: Seq<u8>) -> bool {
    let e = line_end(s, 0);
    e < s.len() && is_request_line(s.subrange(0, e))
}

/// The complete lines of `s` from `from` on, up to the first empty line.
pub open spec fn header_lines(s: Seq<u8>, from: int) -> Seq<Seq<u8>>
    decreases s.len() - from,
{
    let e = line_end(s, from);
    if from < 0 || e <= from || e + 2 > s.len() {
        Seq::empty()
    } else {
        seq![s.subrange(from, e)] + header_lines(s, e + 2)
    }
}

/// The header lines of a request that begins `s`.
pub open spec fn request_headers(s: Seq<u8>) -> Seq<Seq<u8>> {
    header_lines(s, line_end(s, 0) + 2)
}

/// Whether a header line has the given name, whatever the case of its letters.
pub open spec fn header_named(line: Seq<u8>, name: Seq<u8>) -> bool {
    let c = find_byte(line, COLON, 0);
    c < line.len() && eq_ignore_case(line.subrange(0, c), name)
}

/// What follows the colon of a header line, without the blanks around it;
/// nothing where the line has no colon.
pub open spec fn header_value(line: Seq<u8>) -> Seq<u8> {
    let c = find_byte(line, COLON, 0);
    if c < line.len() {
        trim(line.subrange(c + 1, line.len() as int))
    } else {
        Seq::empty()
    }
}

/// Whether one of the comma-separated members of `v`, from `from` on, is
/// `word`, whatever the case of its letters and without the blanks around it.
pub open spec fn list_has(v: Seq<u8>, from: int, word: Seq<u8>) -> bool
    decreases v.len() - from,
{
    let e = find_byte(v, COMMA, from);
    if from < 0 || from > v.len() || e < from {
        false
    } else {
        eq_ignore_case(trim(v.subrange(from, e)), word) || (e < v.len() && list_has(
            v,
            e + 1,
            word,
        ))
    }
}

/// An `Upgrade` header whose value is `websocket`.
pub open spec fn names_websocket(line: Seq<u8>) -> bool {
    header_named(line, bytes_of("upgrade"@)) && eq_ignore_case(
        header_value(line),
        bytes_of("websocket"@),
    )
}

/// A `Connection` header whose value lists `upgrade`.
pub open spec fn lists_upgrade(line: Seq<u8>) -> bool {
    header_named(line, bytes_of("connection"@)) && list_has(
        header_value(line),
        0,
        bytes_of("upgrade"@),
    )
}

/// Whether the headers of the request that begins `s` ask for a WebSocket:
/// one names the upgrade and one lists it under `Connection`.
pub open spec fn asks_for_websocket(s: Seq<u8>) -> bool {
    let lines = request_headers(s);
    &&& exists|i: int| 0 <= i < lines.len() && names_websocket(#[trigger] lines[i])
    &&& exists|j: int| 0 <= j < lines.len() && lists_upgrade(#[trigger] lines[j])
}

/// The value of the first of `lines`, from index `from` on, that has the
/// given name.
pub open spec fn first_named(lines: Seq<Seq<u8>>, name: Seq<u8>, from: int) -> Option<Seq<u8>>
    decreases lines.len() - from,
{
    if from < 0 || from >= lines.len() {
        None
    } else if header_named(lines[from], name) {
        Some(header_value(lines[from]))
    } else {
        first_named(lines, name, from + 1)
    }
}

/// The value of the first header of the request that begins `s` with the
/// given name.
pub open spec fn header_of(s: Seq<u8>, name: Seq<u8>) -> Option<Seq<u8>> {
    first_named(request_headers(s), name, 0)
}

/// Where the head that begins at `from` ends: the index after its empty
/// line, or -1 while that line has not arrived.
pub open spec fn head_end(s: Seq<u8>, from: int) -> int
    decreases s.len() - from,
{
    let e = line_end(s, from);
    if from < 0 || e < from || e + 2 > s.len() {
        -1
    } else if e == from {
        e + 2
    } else {
        head_end(s, e + 2)
    }
}

/// Whether `m` is one of the request methods.
pub fn check_method(m: &[u8]) -> (r: bool)
    ensures
        r == is_method(m@),
{
    proof {
        reveal_strlit("GET");
        lemma_ascii_bytes("GET");
        reveal_strlit("POST");
        lemma_ascii_bytes("POST");
        reveal_strlit("HEAD");
        lemma_ascii_bytes("HEAD");
        reveal_strlit("PUT");
        lemma_ascii_bytes("PUT");
        reveal_strlit("DELETE");
        lemma_ascii_bytes("DELETE");
        reveal_strlit("CONNECT");
        lemma_ascii_bytes("CONNECT");
        reveal_strlit("OPTIONS");
        lemma_ascii_bytes("OPTIONS");
        reveal_strlit("PATCH");
        lemma_ascii_bytes("PATCH");
    }
    is_word(m, "GET") || is_word(m, "POST") || is_word(m, "HEAD") || is_word(m, "PUT") || is_word(
        m,
        "DELETE",
    ) || is_word(m, "CONNECT") || is_word(m, "OPTIONS") || is_word(m, "PATCH")
}

/// Whether `t` is a request target.
pub fn check_target(t: &[u8]) -> (r: bool)
    ensures
        r == is_target(t@),
{
    if t.len() == 0 {
        return false;
    }
    let mut i: usize = 0;
    while i < t.len()
        invariant
            i <= t.len(),
            forall|j: int| 0 <= j < i ==> 0x21 <= #[trigger] t@[j] <= 0x7e,
        decreases t.len() - i,
    {
        if t[i] < 0x21 || t[i] > 0x7e {
            return false;
        }
        i += 1;
    }
    true
}

/// Whether `v` is a protocol version.
pub fn check_version(v: &[u8]) -> (r: bool)
    ensures
        r == is_version(v@),
{
    proof {
        reveal_strlit("HTTP/");
        lemma_ascii_bytes("HTTP/");
    }
    if v.len() != 8 {
        return false;
    }
    is_word(slice_subrange(v, 0, 5), "HTTP/") && 0x30 <= v[5] && v[5] <= 0x39 && v[6] == 0x2e
        && 0x30 <= v[7] && v[7] <= 0x39
}

/// Whether `line` is a request line, without its CR LF.
pub fn check_request_line(line: &[u8]) -> (r: bool)
    ensures
        r == is_request_line(line@),
{
    let a = find(line, SP, 0);
    if a >= line.len() {
        return false;
    }
    let b = find(line, SP, a + 1);
    proof {
        lemma_find_byte_bounds(line@, SP, a + 1);
    }
    if b >= line.len() {
        return false;
    }
    check_method(slice_subrange(line, 0, a)) && check_target(slice_subrange(line, a + 1, b))
        && check_version(slice_subrange(line, b + 1, line.len()))
}

/// Whether `s` begins with a complete, well-formed request line.
pub fn has_request_line(s: &[u8]) -> (r: bool)
    ensures
        r == starts_with_request(s@),
{
    let e = find_line_end(s, 0);
    if e >= s.len() {
        return false;
    }
    check_request_line(slice_subrange(s, 0, e))
}

/// Whether a header line has the given name, whatever the case of its
/// letters.
pub fn check_header_named(line: &[u8], name: &str) -> (r: bool)
    ensures
        r == header_named(line@, name.spec_bytes()),
{
    let c = find(line, COLON, 0);
    if c >= line.len() {
        return false;
    }
    is_word_ignore_case(slice_subrange(line, 0, c), name)
}

/// What follows the colon of a header line, without the blanks around it;
/// nothing where the line has no colon.
pub fn value_of(line: &[u8]) -> (r: &[u8])
    ensures
        r@ == header_value(line@),
{
    let c = find(line, COLON, 0);
    proof {
        lemma_find_byte_bounds(line@, COLON, 0);
    }
    if c >= line.len() {
        slice_subrange(line, 0, 0)
    } else {
        trimmed(slice_subrange(line, c + 1, line.len()))
    }
}

/// Whether one of the comma-separated members of `v` is `word`, whatever
/// the case of its letters and without the blanks around it.
pub fn check_list_has(v: &[u8], word: &str) -> (r: bool)
    ensures
        r == list_has(v@, 0, word.spec_bytes()),
{
    let mut from: usize = 0;
    loop
        invariant
            from <= v.len(),
            list_has(v@, 0, word.spec_bytes()) == list_has(v@, from as int, word.spec_bytes()),
        decreases v.len() - from,
    {
        let e = find(v, COMMA, from);
        proof {
            lemma_find_byte_bounds(v@, COMMA, from as int);
        }
        if is_word_ignore_case(trimmed(slice_subrange(v, from, e)), word) {
            return true;
        }
        if e >= v.len() {
            return false;
        }
        from = e + 1;
    }
}

/// Whether `line` is an `Upgrade` header whose value is `websocket`.
pub fn check_names_websocket(line: &[u8]) -> (r: bool)
    ensures
        r == names_websocket(line@),
{
    proof {
        reveal_strlit("upgrade");
        lemma_ascii_bytes("upgrade");
        reveal_strlit("websocket");
        lemma_ascii_bytes("websocket");
    }
    check_header_named(line, "upgrade") && is_word_ignore_case(value_of(line), "websocket")
}

/// Whether `line` is a `Connection` header whose value lists `upgrade`.
pub fn check_lists_upgrade(line: &[u8]) -> (r: bool)
    ensures
        r == lists_upgrade(line@),
{
    proof {
        reveal_strlit("connection");
        lemma_ascii_bytes("connection");
        reveal_strlit("upgrade");
        lemma_ascii_bytes("upgrade");
    }
    check_header_named(line, "connection") && check_list_has(value_of(line), "upgrade")
}

/// Whether the headers of the request that begins `s` ask for a WebSocket.
pub fn wants_websocket(s: &[u8]) -> (r: bool)
    ensures
        r == asks_for_websocket(s@),
{
    let first = find_line_end(s, 0);
    proof {
        lemma_line_end_bounds(s@, 0);
    }
    if first >= s.len() {
        assert(request_headers(s@) =~= Seq::<Seq<u8>>::empty());
        return false;
    }
    let mut pos: usize = first + 2;
    let mut named: bool = false;
    let mut listed: bool = false;
    let ghost seen: Seq<Seq<u8>> = Seq::empty();
    loop
        invariant
            pos <= s.len(),
            request_headers(s@) == seen + header_lines(s@, pos as int),
            named == exists|i: int| 0 <= i < seen.len() && names_websocket(#[trigger] seen[i]),
            listed == exists|j: int| 0 <= j < seen.len() && lists_upgrade(#[trigger] seen[j]),
        decreases s.len() - pos,
    {
        let e = find_line_end(s, pos);
        proof {
            lemma_line_end_bounds(s@, pos as int);
        }
        if e >= s.len() || e == pos {
            assert(request_headers(s@) =~= seen);
            return named && listed;
        }
        let line = slice_subrange(s, pos, e);
        let n = check_names_websocket(line);
        let l = check_lists_upgrade(line);
        proof {
            let next = seen.push(line@);
            assert(seen + header_lines(s@, pos as int) =~= next + header_lines(s@, e + 2));
            assert(forall|i: int| 0 <= i < seen.len() ==> next[i] == seen[i]);
            assert(next[seen.len() as int] == line@);
            if named {
                let i = choose|i: int| 0 <= i < seen.len() && names_websocket(#[trigger] seen[i]);
                assert(names_websocket(next[i]));
            }
            if listed {
                let j = choose|j: int| 0 <= j < seen.len() && lists_upgrade(#[trigger] seen[j]);
                assert(lists_upgrade(next[j]));
            }
            seen = next;
        }
        named = named || n;
        listed = listed || l;
        pos = e + 2;
    }
}

/// Looks up the first header of the request that begins `s` with the given
/// name, whatever the case of its letters.
pub fn find_header<'a>(s: &'a [u8], name: &str) -> (r: Option<&'a [u8]>)
    ensures
        r is Some == header_of(s@, name.spec_bytes()) is Some,
        r matches Some(v) ==> header_of(s@, name.spec_bytes()) == Some(v@),
{
    let first = find_line_end(s, 0);
    proof {
        lemma_line_end_bounds(s@, 0);
    }
    if first >= s.len() {
        assert(request_headers(s@) =~= Seq::<Seq<u8>>::empty());
        return None;
    }
    let mut pos: usize = first + 2;
    let ghost all = request_headers(s@);
    let ghost seen: Seq<Seq<u8>> = Seq::empty();
    loop
        invariant
            pos <= s.len(),
            all == request_headers(s@),
            all == seen + header_lines(s@, pos as int),
            header_of(s@, name.spec_bytes()) == first_named(
                all,
                name.spec_bytes(),
                seen.len() as int,
            ),
        decreases s.len() - pos,
    {
        let e = find_line_end(s, pos);
        proof {
            lemma_line_end_bounds(s@, pos as int);
        }
        if e >= s.len() || e == pos {
            assert(all =~= seen);
            return None;
        }
        let line = slice_subrange(s, pos, e);
        proof {
            assert(seen + header_lines(s@, pos as int) =~= seen.push(line@) + header_lines(
                s@,
                e + 2,
            ));
            assert(all[seen.len() as int] == line@);
        }
        if check_header_named(line, name) {
            return Some(value_of(line));
        }
        proof {
            seen = seen.push(line@);
        }
        pos = e + 2;
    }
}

/// Finds the end of the request head at the front of `s`: the index after
/// the empty line that closes it.
pub fn find_head_end(s: &[u8]) -> (r: Option<usize>)
    ensures
        r is Some == (head_end(s@, 0) >= 0),
        r matches Some(n) ==> n == head_end(s@, 0) && n <= s@.len(),
{
    let mut pos: usize = 0;
    loop
        invariant
            pos <= s.len(),
            head_end(s@, 0) == head_end(s@, pos as int),
        decreases s.len() - pos,
    {
        let e = find_line_end(s, pos);
        proof {
            lemma_line_end_bounds(s@, pos as int);
        }
        if e >= s.len() {
            return None;
        }
        if e == pos {
            return Some(e + 2);
        }
        pos = e + 2;
    }
}

} // verus!
