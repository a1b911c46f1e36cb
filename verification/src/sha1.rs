//! The SHA-1 digest of a byte string.
//!
//! The message is padded to a whole number of 64-byte blocks: a byte `0x80`,
//! zero bytes, and the length of the message in bits as eight bytes, the high
//! one first. Each block is expanded to eighty words and mixed into five
//! words of state by eighty rounds. All additions wrap at 32 bits. A message
//! of 2^61 bytes or more has no SHA-1 digest; for such a length the low 64
//! bits of the bit count are written.

use vstd::prelude::*;

verus! {

/// The five words of state.
#[derive(Clone, Copy, Debug, PartialEq, Eq, Structural)]
pub struct State {
    pub a: u32,
    pub b: u32,
    pub c: u32,
    pub d: u32,
    pub e: u32,
}

/// `x` turned left by `n` bits, for `0 < n < 32`.
pub open spec fn rotl(x: u32, n: u32) -> u32 {
    (x << n) | (x >> ((32 - n) as u32))
}

/// The state that every digest starts from.
pub open spec fn initial_state() -> State {
    State { a: 0x67452301, b: 0xefcdab89, c: 0x98badcfe, d: 0x10325476, e: 0xc3d2e1f0 }
}

/// How many zero bytes follow the `0x80` of a message of `len` bytes.
pub open spec fn zero_fill(len: nat) -> nat {
    ((119 - (len % 64)) % 64) as nat
}

/// The eight bytes of `x`, the high one first.
pub open spec fn be64(x: u64) -> Seq<u8> {
    seq![
        (x >> 56) as u8,
        (x >> 48) as u8,
        (x >> 40) as u8,
        (x >> 32) as u8,
        (x >> 24) as u8,
        (x >> 16) as u8,
        (x >> 8) as u8,
        x as u8,
    ]
}

/// The four bytes of `x`, the high one first.
pub open spec fn be32(x: u32) -> Seq<u8> {
    seq![(x >> 24) as u8, (x >> 16) as u8, (x >> 8) as u8, x as u8]
}

/// The number of bits in `len` bytes, as it is written into the padding.
pub open spec fn bit_count(len: nat) -> u64 {
    ((len * 8) % 0x1_0000_0000_0000_0000) as u64
}

/// The message with its padding.
pub open spec fn padded(msg: Seq<u8>) -> Seq<u8> {
    msg + seq![0x80u8] + Seq::new(zero_fill(msg.len()), |i: int| 0u8) + be64(bit_count(msg.len()))
}

/// The word that the four bytes of `s` from `at` on make, the high one first.
pub open spec fn word_at(s: Seq<u8>, at: int) -> u32 {
    ((s[at] as u32) << 24) | ((s[at + 1] as u32) << 16) | ((s[at + 2] as u32) << 8) | (s[at
        + 3] as u32)
}

/// Word `t` of the eighty that a block is expanded to.
pub open spec fn schedule(block: Seq<u8>, t: int) -> u32
    decreases t,
{
    if t < 16 {
        word_at(block, 4 * t)
    } else {
        rotl(
            schedule(block, t - 3) ^ schedule(block, t - 8) ^ schedule(block, t - 14) ^ schedule(
                block,
                t - 16,
            ),
            1,
        )
    }
}

/// The mixing function of round `t`.
pub open spec fn mix(t: int, b: u32, c: u32, d: u32) -> u32 {
    if t < 20 {
        (b & c) | (!b & d)
    } else if t < 40 {
        b ^ c ^ d
    } else if t < 60 {
        (b & c) | (b & d) | (c & d)
    } else {
        b ^ c ^ d
    }
}

/// The constant of round `t`.
pub open spec fn round_constant(t: int) -> u32 {
    if t < 20 {
        0x5a827999
    } else if t < 40 {
        0x6ed9eba1
    } else if t < 60 {
        0x8f1bbcdc
    } else {
        0xca62c1d6
    }
}

/// Round `t` with the schedule word `w`.
pub open spec fn round(s: State, t: int, w: u32) -> State {
    State {
        a: rotl(s.a, 5).wrapping_add(mix(t, s.b, s.c, s.d)).wrapping_add(s.e).wrapping_add(
            round_constant(t),
        ).wrapping_add(w),
        b: s.a,
        c: rotl(s.b, 30),
        d: s.c,
        e: s.d,
    }
}

/// The state after the first `n` rounds on a block.
pub open spec fn rounds(block: Seq<u8>, start: State, n: nat) -> State
    decreases n,
{
    if n == 0 {
        start
    } else {
        round(rounds(block, start, (n - 1) as nat), n - 1, schedule(block, n - 1))
    }
}

/// The sum of two states, word by word.
pub open spec fn add_states(x: State, y: State) -> State {
    State {
        a: x.a.wrapping_add(y.a),
        b: x.b.wrapping_add(y.b),
        c: x.c.wrapping_add(y.c),
        d: x.d.wrapping_add(y.d),
        e: x.e.wrapping_add(y.e),
    }
}

/// The state after one block.
pub open spec fn compress(h: State, block: Seq<u8>) -> State {
    add_states(h, rounds(block, h, 80))
}

/// The state after the first `n` blocks of `data`.
pub open spec fn absorb(data: Seq<u8>, n: nat) -> State
    decreases n,
{
    if n == 0 {
        initial_state()
    } else {
        compress(absorb(data, (n - 1) as nat), data.subrange(64 * (n - 1), 64 * n as int))
    }
}

/// The twenty bytes of a state.
pub open spec fn state_bytes(s: State) -> Seq<u8> {
    be32(s.a) + be32(s.b) + be32(s.c) + be32(s.d) + be32(s.e)
}

/// The SHA-1 digest of `msg`.
pub open spec fn sha1(msg: Seq<u8>) -> Seq<u8> {
    state_bytes(absorb(padded(msg), padded(msg).len() / 64))
}

/// A digest has twenty bytes.
pub proof fn lemma_digest_len(msg: Seq<u8>)
    ensures
        sha1(msg).len() == 20,
{
}

/// The padded message is a whole number of blocks.
pub proof fn lemma_padded_len(len: nat)
    ensures
        (len + 1 + zero_fill(len) + 8) % 64 == 0,
        zero_fill(len) < 64,
{
}

fn rotate_left(x: u32, n: u32) -> (r: u32)
    requires
        0 < n < 32,
    ensures
        r == rotl(x, n),
{
    (x << n) | (x >> (32 - n))
}

fn pad(msg: &[u8]) -> (out: Vec<u8>)
    ensures
        out@ == padded(msg@),
        out@.len() % 64 == 0,
{
    let len = msg.len();
    let mut out: Vec<u8> = Vec::new();
    out.extend_from_slice(msg);
    out.push(0x80u8);
    let fill: usize = (119 - (len % 64)) % 64;
    let mut i: usize = 0;
    while i < fill
        invariant
            i <= fill,
            out@ == msg@ + seq![0x80u8] + Seq::new(i as nat, |k: int| 0u8),
        decreases fill - i,
    {
        out.push(0u8);
        i += 1;
        assert(out@ =~= msg@ + seq![0x80u8] + Seq::new(i as nat, |k: int| 0u8));
    }
    let bits: u64 = (len as u64).wrapping_mul(8);
    assert(bits == bit_count(len as nat));
    out.push((bits >> 56) as u8);
    out.push((bits >> 48) as u8);
    out.push((bits >> 40) as u8);
    out.push((bits >> 32) as u8);
    out.push((bits >> 24) as u8);
    out.push((bits >> 16) as u8);
    out.push((bits >> 8) as u8);
    out.push(bits as u8);
    proof {
        lemma_padded_len(len as nat);
        assert(out@ =~= padded(msg@));
    }
    out
}

fn expand(data: &Vec<u8>, at: usize) -> (w: Vec<u32>)
    requires
        at + 64 <= data.len(),
    ensures
        w@.len() == 80,
        forall|t: int|
            0 <= t < 80 ==> w@[t] == schedule(data@.subrange(at as int, at + 64), t),
{
    let ghost block = data@.subrange(at as int, at + 64);
    let mut w: Vec<u32> = Vec::new();
    let mut t: usize = 0;
    while t < 16
        invariant
            t <= 16,
            at + 64 <= data.len(),
            block == data@.subrange(at as int, at + 64),
            w@.len() == t,
            forall|k: int| 0 <= k < t ==> w@[k] == schedule(block, k),
        decreases 16 - t,
    {
        let p = at + 4 * t;
        let word: u32 = ((data[p] as u32) << 24) | ((data[p + 1] as u32) << 16) | ((data[p
            + 2] as u32) << 8) | (data[p + 3] as u32);
        assert(word == word_at(block, 4 * t));
        w.push(word);
        t += 1;
    }
    while t < 80
        invariant
            16 <= t <= 80,
            w@.len() == t,
            forall|k: int| 0 <= k < t ==> w@[k] == schedule(block, k),
        decreases 80 - t,
    {
        let word = rotate_left(w[t - 3] ^ w[t - 8] ^ w[t - 14] ^ w[t - 16], 1);
        assert(word == schedule(block, t as int)) by {
            assert(w@[t - 3] == schedule(block, t - 3));
            assert(w@[t - 8] == schedule(block, t - 8));
            assert(w@[t - 14] == schedule(block, t - 14));
            assert(w@[t - 16] == schedule(block, t - 16));
        }
        w.push(word);
        t += 1;
    }
    w
}

fn mix_of(t: usize, b: u32, c: u32, d: u32) -> (r: u32)
    ensures
        r == mix(t as int, b, c, d),
{
    if t < 20 {
        (b & c) | (!b & d)
    } else if t < 40 {
        b ^ c ^ d
    } else if t < 60 {
        (b & c) | (b & d) | (c & d)
    } else {
        b ^ c ^ d
    }
}

fn constant_of(t: usize) -> (r: u32)
    ensures
        r == round_constant(t as int),
{
    if t < 20 {
        0x5a827999
    } else if t < 40 {
        0x6ed9eba1
    } else if t < 60 {
        0x8f1bbcdc
    } else {
        0xca62c1d6
    }
}

fn compress_block(h: State, data: &Vec<u8>, at: usize) -> (r: State)
    requires
        at + 64 <= data.len(),
    ensures
        r == compress(h, data@.subrange(at as int, at + 64)),
{
    let ghost block = data@.subrange(at as int, at + 64);
    let w = expand(data, at);
    let mut s = h;
    let mut t: usize = 0;
    while t < 80
        invariant
            t <= 80,
            w@.len() == 80,
            forall|k: int| 0 <= k < 80 ==> w@[k] == schedule(block, k),
            s == rounds(block, h, t as nat),
        decreases 80 - t,
    {
        let a = rotate_left(s.a, 5).wrapping_add(mix_of(t, s.b, s.c, s.d)).wrapping_add(
            s.e,
        ).wrapping_add(constant_of(t)).wrapping_add(w[t]);
        s = State { a, b: s.a, c: rotate_left(s.b, 30), d: s.c, e: s.d };
        t += 1;
    }
    State {
        a: h.a.wrapping_add(s.a),
        b: h.b.wrapping_add(s.b),
        c: h.c.wrapping_add(s.c),
        d: h.d.wrapping_add(s.d),
        e: h.e.wrapping_add(s.e),
    }
}

fn push_word(out: &mut Vec<u8>, x: u32)
    ensures
        final(out)@ == old(out)@ + be32(x),
{
    out.push((x >> 24) as u8);
    out.push((x >> 16) as u8);
    out.push((x >> 8) as u8);
    out.push(x as u8);
    assert(out@ =~= old(out)@ + be32(x));
}

/// Computes the SHA-1 digest of `msg`: twenty bytes.
pub fn digest(msg: &[u8]) -> (out: Vec<u8>)
    ensures
        out@ == sha1(msg@),
        out@.len() == 20,
{
    let data = pad(msg);
    let total = data.len();
    let blocks = total / 64;
    let mut h = State {
        a: 0x67452301,
        b: 0xefcdab89,
        c: 0x98badcfe,
        d: 0x10325476,
        e: 0xc3d2e1f0,
    };
    let mut n: usize = 0;
    while n < blocks
        invariant
            n <= blocks,
            blocks == total / 64,
            total == data@.len(),
            total % 64 == 0,
            h == absorb(data@, n as nat),
        decreases blocks - n,
    {
        assert(64 * (n + 1) <= total);
        h = compress_block(h, &data, 64 * n);
        n += 1;
    }
    let mut out: Vec<u8> = Vec::new();
    push_word(&mut out, h.a);
    push_word(&mut out, h.b);
    push_word(&mut out, h.c);
    push_word(&mut out, h.d);
    push_word(&mut out, h.e);
    assert(out@ =~= state_bytes(h));
    out
}

} // verus!
