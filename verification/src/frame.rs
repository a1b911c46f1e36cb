//! WebSocket frames, for a proxy that ends the WebSocket itself.
//!
//! A frame is one header byte (the final-fragment bit, three reserved bits
//! and a four-bit opcode), a length (seven bits, or the marks 126 and 127
//! for a length in the next two or eight bytes, together with the mask bit),
//! a four-byte masking key where the mask bit is set, and the payload. Only
//! whole messages are read: a frame that is a fragment of a message is
//! refused, and so is one with a reserved bit, since no extension is spoken.
//! A frame is read with or without a mask, and with its length in any of
//! the three forms; it is written with its length in the shortest form.

use crate::relay::{other, Direction};
use vstd::prelude::*;

verus! {

/// What a frame carries.
#[derive(Clone, Copy, Debug, PartialEq, Eq, Structural)]
pub enum Opcode {
    Text,
    Binary,
    Close,
    Ping,
    Pong,
}

/// Why bytes were not read as a frame.
#[derive(Clone, Copy, Debug, PartialEq, Eq, Structural)]
pub enum FrameError {
    /// The frame has not arrived in full yet.
    Incomplete,
    /// A reserved bit is set.
    ReservedBits,
    /// The opcode is none that the protocol defines.
    UnknownOpcode,
    /// The frame is one fragment of a longer message.
    Fragmented,
    /// A control frame with a payload of more than 125 bytes.
    BadControlFrame,
    /// The payload is longer than the caller takes.
    TooLarge,
}

/// A whole frame, its payload unmasked.
#[derive(Debug, PartialEq, Eq)]
pub struct Frame {
    pub opcode: Opcode,
    /// The masking key that the frame came with.
    pub mask: Option<[u8; 4]>,
    pub payload: Vec<u8>,
}

/// The contents of a frame.
pub struct FrameView {
    pub opcode: Opcode,
    pub mask: Option<Seq<u8>>,
    pub payload: Seq<u8>,
}

impl View for Frame {
    type V = FrameView;

    open spec fn view(&self) -> FrameView {
        FrameView {
            opcode: self.opcode,
            mask: match self.mask {
                Some(k) => Some(k@),
                None => None,
            },
            payload: self.payload@,
        }
    }
}

/// The four bits that stand for an opcode.
pub open spec fn opcode_bits(op: Opcode) -> u8 {
    match op {
        Opcode::Text => 0x1,
        Opcode::Binary => 0x2,
        Opcode::Close => 0x8,
        Opcode::Ping => 0x9,
        Opcode::Pong => 0xa,
    }
}

/// The opcode that four bits stand for, where they stand for one and it is
/// not the mark of a later fragment.
pub open spec fn opcode_of(bits: int) -> Option<Opcode> {
    if bits == 0x1 {
        Some(Opcode::Text)
    } else if bits == 0x2 {
        Some(Opcode::Binary)
    } else if bits == 0x8 {
        Some(Opcode::Close)
    } else if bits == 0x9 {
        Some(Opcode::Ping)
    } else if bits == 0xa {
        Some(Opcode::Pong)
    } else {
        None
    }
}

/// Close, ping and pong steer the connection; text and binary carry data.
pub open spec fn is_control(op: Opcode) -> bool {
    op == Opcode::Close || op == Opcode::Ping || op == Opcode::Pong
}

/// The number that bytes stand for, the high byte first.
pub open spec fn be_value(s: Seq<u8>) -> nat
    decreases s.len(),
{
    if s.len() == 0 {
        0
    } else {
        be_value(s.drop_last()) * 256 + s.last() as nat
    }
}

/// The `n` low bytes of `x`, the high byte first.
pub open spec fn be_bytes(x: nat, n: nat) -> Seq<u8>
    decreases n,
{
    if n == 0 {
        Seq::empty()
    } else {
        be_bytes(x / 256, (n - 1) as nat).push((x % 256) as u8)
    }
}

/// `data` with each byte combined with the byte of the key at its place,
/// the key taken round and round. Masking twice gives the data back.
pub open spec fn masked(data: Seq<u8>, key: Seq<u8>) -> Seq<u8> {
    Seq::new(data.len(), |i: int| data[i] ^ key[i % 4])
}

/// How many bytes of length follow the second byte of a header.
pub open spec fn extended_len(second: u8) -> nat {
    if second % 128 < 126 {
        0
    } else if second % 128 == 126 {
        2
    } else {
        8
    }
}

/// The length of the payload that the header at the front of `s` declares.
pub open spec fn declared_len(s: Seq<u8>) -> nat {
    if s[1] % 128 < 126 {
        (s[1] % 128) as nat
    } else {
        be_value(s.subrange(2, 2 + extended_len(s[1]) as int))
    }
}

/// The bytes that announce a payload of `len` bytes, after the header byte.
pub open spec fn length_field(len: nat, with_mask: bool) -> Seq<u8> {
    let flag: nat = if with_mask {
        128
    } else {
        0
    };
    if len < 126 {
        seq![(flag + len) as u8]
    } else if len < 0x1_0000 {
        seq![(flag + 126) as u8] + be_bytes(len, 2)
    } else {
        seq![(flag + 127) as u8] + be_bytes(len, 8)
    }
}

/// A frame on the wire. It is always a whole message.
pub open spec fn wire(f: FrameView) -> Seq<u8> {
    seq![(128 + opcode_bits(f.opcode)) as u8] + length_field(f.payload.len(), f.mask is Some) + (
    match f.mask {
        Some(k) => k + masked(f.payload, k),
        None => f.payload,
    })
}

/// What the bytes `s` hold at their front: a frame and the number of bytes
/// that it takes, or why there is none. `limit` is the longest payload that
/// is taken.
pub open spec fn parsed(s: Seq<u8>, limit: nat) -> Result<(FrameView, nat), FrameError> {
    if s.len() < 2 {
        Err(FrameError::Incomplete)
    } else if (s[0] / 16) % 8 != 0 {
        Err(FrameError::ReservedBits)
    } else if s[0] % 16 == 0 || s[0] < 128 && opcode_of(s[0] as int % 16) is Some {
        Err(FrameError::Fragmented)
    } else if opcode_of(s[0] as int % 16) is None {
        Err(FrameError::UnknownOpcode)
    } else if s.len() < 2 + extended_len(s[1]) {
        Err(FrameError::Incomplete)
    } else {
        let op = opcode_of(s[0] as int % 16)->0;
        let len = declared_len(s);
        let key_at = 2 + extended_len(s[1]);
        let key_len: nat = if s[1] >= 128 {
            4
        } else {
            0
        };
        let start = key_at + key_len;
        if is_control(op) && len > 125 {
            Err(FrameError::BadControlFrame)
        } else if len > limit {
            Err(FrameError::TooLarge)
        } else if s.len() < start + len {
            Err(FrameError::Incomplete)
        } else {
            let body = s.subrange(start as int, (start + len) as int);
            if s[1] >= 128 {
                let key = s.subrange(key_at as int, key_at as int + 4);
                Ok(
                    (
                        FrameView { opcode: op, mask: Some(key), payload: masked(body, key) },
                        start + len,
                    ),
                )
            } else {
                Ok((FrameView { opcode: op, mask: None, payload: body }, start + len))
            }
        }
    }
}

/// Masking is its own inverse.
pub proof fn lemma_masked_twice(data: Seq<u8>, key: Seq<u8>)
    requires
        key.len() == 4,
    ensures
        masked(masked(data, key), key) == data,
{
    assert forall|i: int| 0 <= i < data.len() implies masked(masked(data, key), key)[i]
        == data[i] by {
        let d = data[i];
        let k = key[i % 4];
        assert((d ^ k) ^ k == d) by (bit_vector);
    }
    assert(masked(masked(data, key), key) =~= data);
}

/// The bytes of a number stand for that number, where it fits in them.
pub proof fn lemma_be_value_of_bytes(x: nat, n: nat)
    requires
        n <= 8,
        x < vstd::arithmetic::power::pow(256, n),
    ensures
        be_bytes(x, n).len() == n,
        be_value(be_bytes(x, n)) == x,
    decreases n,
{
    vstd::arithmetic::power::lemma_pow0(256);
    if n > 0 {
        vstd::arithmetic::power::lemma_pow_positive(256, (n - 1) as nat);
        assert(vstd::arithmetic::power::pow(256, n) == 256 * vstd::arithmetic::power::pow(
            256,
            (n - 1) as nat,
        )) by {
            reveal(vstd::arithmetic::power::pow);
        }
        assert(x / 256 < vstd::arithmetic::power::pow(256, (n - 1) as nat)) by (nonlinear_arith)
            requires
                x < 256 * vstd::arithmetic::power::pow(256, (n - 1) as nat),
                vstd::arithmetic::power::pow(256, (n - 1) as nat) > 0,
        ;
        lemma_be_value_of_bytes(x / 256, (n - 1) as nat);
        assert(be_bytes(x, n).drop_last() =~= be_bytes(x / 256, (n - 1) as nat));
    }
}

/// What is written as a frame is read back as the same frame, and takes
/// up all the bytes that were written.
pub proof fn lemma_wire_round_trip(f: FrameView, limit: nat)
    requires
        f.mask matches Some(k) ==> k.len() == 4,
        f.payload.len() <= limit,
        f.payload.len() < 0x1_0000_0000_0000_0000,
        is_control(f.opcode) ==> f.payload.len() <= 125,
    ensures
        parsed(wire(f), limit) == Ok::<(FrameView, nat), FrameError>((f, wire(f).len())),
{
    let s = wire(f);
    let len = f.payload.len();
    let with_mask = f.mask is Some;
    let field = length_field(len, with_mask);
    let ext = extended_len(s[1]);
    assert(vstd::arithmetic::power::pow(256, 2) == 0x1_0000 && vstd::arithmetic::power::pow(
        256,
        8,
    ) == 0x1_0000_0000_0000_0000) by {
        reveal_with_fuel(vstd::arithmetic::power::pow, 9);
    }
    if len >= 126 {
        if len < 0x1_0000 {
            lemma_be_value_of_bytes(len, 2);
            assert(s.subrange(2, 4) =~= be_bytes(len, 2));
        } else {
            lemma_be_value_of_bytes(len, 8);
            assert(s.subrange(2, 10) =~= be_bytes(len, 8));
        }
    }
    assert(field.len() == 1 + ext);
    assert(s[0] == 128 + opcode_bits(f.opcode));
    assert(s[1] == field[0]);
    assert(declared_len(s) == len);
    let key_at = 2 + ext;
    match f.mask {
        Some(k) => {
            assert(s.len() == key_at + 4 + len);
            assert(s.subrange(key_at as int, key_at as int + 4) =~= k);
            assert(s.subrange(key_at as int + 4, (key_at + 4 + len) as int) =~= masked(
                f.payload,
                k,
            ));
            lemma_masked_twice(f.payload, k);
        },
        None => {
            assert(s.len() == key_at + len);
            assert(s.subrange(key_at as int, (key_at + len) as int) =~= f.payload);
        },
    }
}

/// The four bits that stand for an opcode.
pub fn opcode_to_bits(op: Opcode) -> (r: u8)
    ensures
        r == opcode_bits(op),
{
    match op {
        Opcode::Text => 0x1,
        Opcode::Binary => 0x2,
        Opcode::Close => 0x8,
        Opcode::Ping => 0x9,
        Opcode::Pong => 0xa,
    }
}

/// The opcode that four bits stand for, where they stand for one.
pub fn opcode_from_bits(bits: u8) -> (r: Option<Opcode>)
    ensures
        r == opcode_of(bits as int),
{
    if bits == 0x1 {
        Some(Opcode::Text)
    } else if bits == 0x2 {
        Some(Opcode::Binary)
    } else if bits == 0x8 {
        Some(Opcode::Close)
    } else if bits == 0x9 {
        Some(Opcode::Ping)
    } else if bits == 0xa {
        Some(Opcode::Pong)
    } else {
        None
    }
}

/// Masks or unmasks `data` with `key`.
pub fn apply_mask(data: &[u8], key: &[u8; 4]) -> (out: Vec<u8>)
    ensures
        out@ == masked(data@, key@),
{
    let mut out: Vec<u8> = Vec::new();
    let mut i: usize = 0;
    while i < data.len()
        invariant
            i <= data.len(),
            out@.len() == i,
            forall|k: int| 0 <= k < i ==> out@[k] == data@[k] ^ key@[k % 4],
        decreases data.len() - i,
    {
        out.push(data[i] ^ key[i % 4]);
        i += 1;
    }
    assert(out@ =~= masked(data@, key@));
    out
}

/// Reads the number that the bytes of `s` from `from` to `to` stand for;
/// `None` where it does not fit.
fn read_be(s: &[u8], from: usize, to: usize) -> (r: Option<u64>)
    requires
        from <= to <= s.len(),
    ensures
        r is Some == (be_value(s@.subrange(from as int, to as int)) <= u64::MAX),
        r matches Some(v) ==> v == be_value(s@.subrange(from as int, to as int)),
{
    let mut acc: u64 = 0;
    let mut i: usize = from;
    assert(s@.subrange(from as int, from as int) =~= Seq::<u8>::empty());
    while i < to
        invariant
            from <= i <= to <= s.len(),
            acc == be_value(s@.subrange(from as int, i as int)),
        decreases to - i,
    {
        let b = s[i] as u64;
        proof {
            let next = s@.subrange(from as int, i + 1);
            assert(next.drop_last() =~= s@.subrange(from as int, i as int));
            assert(be_value(next) == acc * 256 + b);
            lemma_be_value_grows(s@.subrange(from as int, to as int), i + 1 - from);
            assert(s@.subrange(from as int, to as int).subrange(0, i + 1 - from) =~= next);
        }
        if acc > (u64::MAX - b) / 256 {
            return None;
        }
        acc = acc * 256 + b;
        i += 1;
    }
    Some(acc)
}

/// More bytes stand for no smaller a number.
pub proof fn lemma_be_value_grows(s: Seq<u8>, i: int)
    requires
        0 <= i <= s.len(),
    ensures
        be_value(s.subrange(0, i)) <= be_value(s),
    decreases s.len(),
{
    if i < s.len() {
        assert(s.drop_last().subrange(0, i) =~= s.subrange(0, i));
        lemma_be_value_grows(s.drop_last(), i);
    } else {
        assert(s.subrange(0, i) =~= s);
    }
}

/// Reads the frame at the front of `buf`. A payload of more than `limit`
/// bytes is refused.
pub fn parse_frame(buf: &[u8], limit: usize) -> (r: Result<(Frame, usize), FrameError>)
    ensures
        r is Ok == parsed(buf@, limit as nat) is Ok,
        r matches Ok((frame, used)) ==> parsed(buf@, limit as nat) == Ok::<
            (FrameView, nat),
            FrameError,
        >((frame@, used as nat)),
        r matches Err(e) ==> parsed(buf@, limit as nat) == Err::<(FrameView, nat), FrameError>(e),
{
    if buf.len() < 2 {
        return Err(FrameError::Incomplete);
    }
    let first = buf[0];
    let second = buf[1];
    if (first / 16) % 8 != 0 {
        return Err(FrameError::ReservedBits);
    }
    let op = match opcode_from_bits(first % 16) {
        Some(op) => {
            if first < 128 {
                return Err(FrameError::Fragmented);
            }
            op
        },
        None => {
            if first % 16 == 0 {
                return Err(FrameError::Fragmented);
            }
            return Err(FrameError::UnknownOpcode);
        },
    };
    let short = second % 128;
    let extended: usize = if short < 126 {
        0
    } else if short == 126 {
        2
    } else {
        8
    };
    if buf.len() < 2 + extended {
        return Err(FrameError::Incomplete);
    }
    let control = match op {
        Opcode::Close | Opcode::Ping | Opcode::Pong => true,
        _ => false,
    };
    let declared: Option<u64> = if short < 126 {
        Some(short as u64)
    } else {
        read_be(buf, 2, 2 + extended)
    };
    let len: usize = match declared {
        Some(v) => {
            if control && v > 125 {
                return Err(FrameError::BadControlFrame);
            }
            if v > limit as u64 {
                return Err(FrameError::TooLarge);
            }
            v as usize
        },
        None => {
            if control {
                return Err(FrameError::BadControlFrame);
            }
            return Err(FrameError::TooLarge);
        },
    };
    let with_mask = second >= 128;
    let key_at: usize = 2 + extended;
    let key_len: usize = if with_mask {
        4
    } else {
        0
    };
    if buf.len() - key_at < key_len || buf.len() - key_at - key_len < len {
        return Err(FrameError::Incomplete);
    }
    let start: usize = key_at + key_len;
    let body = vstd::slice::slice_subrange(buf, start, start + len);
    if with_mask {
        let key: [u8; 4] = [buf[key_at], buf[key_at + 1], buf[key_at + 2], buf[key_at + 3]];
        assert(key@ =~= buf@.subrange(key_at as int, key_at + 4));
        let payload = apply_mask(body, &key);
        Ok((Frame { opcode: op, mask: Some(key), payload }, start + len))
    } else {
        let payload = vstd::slice::slice_to_vec(body);
        Ok((Frame { opcode: op, mask: None, payload }, start + len))
    }
}

/// Appends the `n` low bytes of `x`, the high byte first.
fn push_be(out: &mut Vec<u8>, x: u64, n: usize)
    requires
        n <= 8,
    ensures
        final(out)@ == old(out)@ + be_bytes(x as nat, n as nat),
    decreases n,
{
    if n > 0 {
        push_be(out, x / 256, n - 1);
        out.push((x % 256) as u8);
        assert(out@ =~= old(out)@ + be_bytes(x as nat, n as nat));
    } else {
        assert(out@ =~= old(out)@ + be_bytes(x as nat, n as nat));
    }
}

/// Writes a whole message as one frame, masked with `mask` where one is
/// given.
pub fn encode_frame(opcode: Opcode, payload: &[u8], mask: Option<[u8; 4]>) -> (out: Vec<u8>)
    ensures
        out@ == wire(
            FrameView {
                opcode,
                mask: match mask {
                    Some(k) => Some(k@),
                    None => None,
                },
                payload: payload@,
            },
        ),
{
    let len = payload.len();
    let flag: u8 = if mask.is_some() {
        128
    } else {
        0
    };
    let mut out: Vec<u8> = Vec::new();
    out.push(128 + opcode_to_bits(opcode));
    if len < 126 {
        out.push(flag + len as u8);
    } else if len < 0x1_0000 {
        out.push(flag + 126);
        push_be(&mut out, len as u64, 2);
    } else {
        out.push(flag + 127);
        push_be(&mut out, len as u64, 8);
    }
    assert(out@ =~= seq![(128 + opcode_bits(opcode)) as u8] + length_field(
        len as nat,
        mask is Some,
    ));
    match mask {
        Some(key) => {
            let body = apply_mask(payload, &key);
            out.extend_from_slice(key.as_slice());
            out.extend_from_slice(body.as_slice());
            assert(out@ =~= seq![(128 + opcode_bits(opcode)) as u8] + length_field(
                len as nat,
                true,
            ) + (key@ + masked(payload@, key@)));
        },
        None => {
            out.extend_from_slice(payload);
        },
    }
    out
}

/// What the proxy does with a frame that it has read.
#[derive(Debug, PartialEq, Eq)]
pub enum FrameAction {
    /// Send these bytes on to the other side.
    Forward(Vec<u8>),
    /// Send these bytes back to the side that the frame came from.
    Reply(Vec<u8>),
    /// Do nothing.
    Ignore,
    /// Send these bytes on to the other side, then end both directions.
    Close(Vec<u8>),
}

/// What the proxy does with a frame, as plain values.
pub enum FrameActionView {
    Forward(Seq<u8>),
    Reply(Seq<u8>),
    Ignore,
    Close(Seq<u8>),
}

impl View for FrameAction {
    type V = FrameActionView;

    open spec fn view(&self) -> FrameActionView {
        match self {
            FrameAction::Forward(b) => FrameActionView::Forward(b@),
            FrameAction::Reply(b) => FrameActionView::Reply(b@),
            FrameAction::Ignore => FrameActionView::Ignore,
            FrameAction::Close(b) => FrameActionView::Close(b@),
        }
    }
}

/// The mask of a frame that travels in the direction `d`: what the proxy
/// sends to the backend is masked, what it sends to the client is not.
pub open spec fn mask_for(d: Direction, key: Seq<u8>) -> Option<Seq<u8>> {
    match d {
        Direction::ClientToBackend => Some(key),
        Direction::BackendToClient => None,
    }
}

/// What is done with the frame `f` that came in the direction `d`, where
/// `key` is the masking key for what is sent: data goes on, a ping is
/// answered with a pong of the same payload and goes no further, a pong is
/// dropped, and a close goes on and ends the relay.
pub open spec fn frame_action(f: FrameView, d: Direction, key: Seq<u8>) -> FrameActionView {
    match f.opcode {
        Opcode::Text | Opcode::Binary => FrameActionView::Forward(
            wire(FrameView { opcode: f.opcode, mask: mask_for(d, key), payload: f.payload }),
        ),
        Opcode::Ping => FrameActionView::Reply(
            wire(
                FrameView {
                    opcode: Opcode::Pong,
                    mask: mask_for(other(d), key),
                    payload: f.payload,
                },
            ),
        ),
        Opcode::Pong => FrameActionView::Ignore,
        Opcode::Close => FrameActionView::Close(
            wire(FrameView { opcode: Opcode::Close, mask: mask_for(d, key), payload: f.payload }),
        ),
    }
}

/// Decides what is done with a frame that came in the direction `d`. `key`
/// is a fresh masking key, for the case that something is sent to the
/// backend.
pub fn relay_frame(frame: &Frame, d: Direction, key: [u8; 4]) -> (action: FrameAction)
    ensures
        action@ == frame_action(frame@, d, key@),
{
    let forward_mask = match d {
        Direction::ClientToBackend => Some(key),
        Direction::BackendToClient => None,
    };
    let reply_mask = match d {
        Direction::ClientToBackend => None,
        Direction::BackendToClient => Some(key),
    };
    match frame.opcode {
        Opcode::Text => FrameAction::Forward(
            encode_frame(Opcode::Text, frame.payload.as_slice(), forward_mask),
        ),
        Opcode::Binary => FrameAction::Forward(
            encode_frame(Opcode::Binary, frame.payload.as_slice(), forward_mask),
        ),
        Opcode::Ping => FrameAction::Reply(
            encode_frame(Opcode::Pong, frame.payload.as_slice(), reply_mask),
        ),
        Opcode::Pong => FrameAction::Ignore,
        Opcode::Close => FrameAction::Close(
            encode_frame(Opcode::Close, frame.payload.as_slice(), forward_mask),
        ),
    }
}

} // verus!
