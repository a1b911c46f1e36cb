//! Base64 with the standard alphabet and `=` padding.
//!
//! Three bytes become four characters of six bits each. A last group of one
//! or two bytes is filled up with zero bits and closed with `==` or `=`.

use vstd::prelude::*;
use vstd::string::*;
use vstd::utf8::is_ascii_chars;

verus! {

/// The sixty-four characters, in the order of their values.
pub open spec fn alphabet() -> Seq<char> {
    "ABCDEFGHIJKLMNOPQRSTUVWXYZabcdefghijklmnopqrstuvwxyz0123456789+/"@
}

/// The character that stands for the six-bit value `v`.
pub open spec fn digit(v: int) -> char {
    alphabet()[v]
}

/// The four characters of a whole group of three bytes.
pub open spec fn group(a: u8, b: u8, c: u8) -> Seq<char> {
    seq![
        digit(a as int / 4),
        digit((a as int % 4) * 16 + b as int / 16),
        digit((b as int % 16) * 4 + c as int / 64),
        digit(c as int % 64),
    ]
}

/// The Base64 text of `data`.
pub open spec fn encoding(data: Seq<u8>) -> Seq<char>
    decreases data.len(),
{
    if data.len() == 0 {
        Seq::empty()
    } else if data.len() == 1 {
        seq![digit(data[0] as int / 4), digit((data[0] as int % 4) * 16), '=', '=']
    } else if data.len() == 2 {
        seq![
            digit(data[0] as int / 4),
            digit((data[0] as int % 4) * 16 + data[1] as int / 16),
            digit((data[1] as int % 16) * 4),
            '=',
        ]
    } else {
        group(data[0], data[1], data[2]) + encoding(data.subrange(3, data.len() as int))
    }
}

/// The alphabet holds sixty-four ASCII characters.
pub proof fn lemma_alphabet()
    ensures
        alphabet().len() == 64,
        is_ascii_chars(alphabet()),
{
    reveal_strlit("ABCDEFGHIJKLMNOPQRSTUVWXYZabcdefghijklmnopqrstuvwxyz0123456789+/");
}

/// Every three bytes, and what is left of them, take four characters.
pub proof fn lemma_encoding_len(data: Seq<u8>)
    ensures
        encoding(data).len() == 4 * ((data.len() + 2) / 3),
    decreases data.len(),
{
    if data.len() >= 3 {
        lemma_encoding_len(data.subrange(3, data.len() as int));
    }
}

/// A Base64 text holds ASCII characters only.
pub proof fn lemma_encoding_is_ascii(data: Seq<u8>)
    ensures
        is_ascii_chars(encoding(data)),
    decreases data.len(),
{
    lemma_alphabet();
    if data.len() >= 3 {
        lemma_encoding_is_ascii(data.subrange(3, data.len() as int));
    }
}

fn push_digit(out: &mut String, v: u8)
    requires
        v < 64,
    ensures
        final(out)@ == old(out)@.push(digit(v as int)),
{
    proof {
        lemma_alphabet();
    }
    let table = "ABCDEFGHIJKLMNOPQRSTUVWXYZabcdefghijklmnopqrstuvwxyz0123456789+/";
    let one = table.substring_ascii(v as usize, v as usize + 1);
    out.append(one);
    assert(out@ =~= old(out)@.push(digit(v as int)));
}

/// Encodes `data` as Base64 text.
pub fn encode(data: &[u8]) -> (out: String)
    ensures
        out@ == encoding(data@),
{
    let mut out = String::new();
    let n = data.len();
    let mut i: usize = 0;
    assert(data@.subrange(0, n as int) =~= data@);
    while n - i >= 3
        invariant
            i <= n,
            n == data@.len(),
            encoding(data@) == out@ + encoding(data@.subrange(i as int, n as int)),
        decreases n - i,
    {
        let a = data[i];
        let b = data[i + 1];
        let c = data[i + 2];
        let ghost before = out@;
        let ghost rest = data@.subrange(i as int, n as int);
        push_digit(&mut out, a / 4);
        push_digit(&mut out, (a % 4) * 16 + b / 16);
        push_digit(&mut out, (b % 16) * 4 + c / 64);
        push_digit(&mut out, c % 64);
        proof {
            assert(rest.subrange(3, rest.len() as int) =~= data@.subrange(i + 3, n as int));
            assert(out@ =~= before + group(a, b, c));
        }
        i += 3;
    }
    let ghost before = out@;
    if n - i == 1 {
        let a = data[i];
        push_digit(&mut out, a / 4);
        push_digit(&mut out, (a % 4) * 16);
        out.append("==");
        proof {
            reveal_strlit("==");
            assert(out@ =~= before + encoding(data@.subrange(i as int, n as int)));
        }
    } else if n - i == 2 {
        let a = data[i];
        let b = data[i + 1];
        push_digit(&mut out, a / 4);
        push_digit(&mut out, (a % 4) * 16 + b / 16);
        push_digit(&mut out, (b % 16) * 4);
        out.append("=");
        proof {
            reveal_strlit("=");
            assert(out@ =~= before + encoding(data@.subrange(i as int, n as int)));
        }
    } else {
        assert(out@ =~= before + encoding(data@.subrange(i as int, n as int)));
    }
    out
}

} // verus!
