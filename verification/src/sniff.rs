//! Telling protocols apart by the first bytes of a connection.
//!
//! The tests run in a fixed order, so that bytes which could pass for two
//! protocols always get the same answer: TLS, SSH, HTTP (a WebSocket upgrade
//! or a plain request), OpenVPN. No bytes at all give the fallback, anything
//! else is unknown. The TLS and OpenVPN tests are heuristics: another binary
//! protocol may begin with the same bytes.

use crate::http::{asks_for_websocket, has_request_line, starts_with_request, wants_websocket};
use crate::protocol::Protocol;
use vstd::prelude::*;

verus! {

/// How many bytes of a connection are looked at.
pub const PEEK_SIZE: usize = 2048;

/// The largest packet length that passes for OpenVPN.
pub const OPENVPN_MAX_PACKET: u16 = 1500;

/// A TLS handshake record of any TLS 1.x version.
pub open spec fn is_tls(s: Seq<u8>) -> bool {
    s.len() >= 2 && s[0] == 0x16 && s[1] == 0x03
}

/// The start of an SSH identification string, `SSH-`.
pub open spec fn is_ssh(s: Seq<u8>) -> bool {
    s.len() >= 4 && s[0] == 0x53 && s[1] == 0x53 && s[2] == 0x48 && s[3] == 0x2d
}

/// The packet length that an OpenVPN stream begins with: two bytes, the
/// high one first.
pub open spec fn packet_length(s: Seq<u8>) -> int {
    s[0] as int * 256 + s[1] as int
}

/// The opcode bytes of the OpenVPN control packets that open a session.
pub open spec fn is_openvpn_opcode(b: u8) -> bool {
    b == 0x20 || b == 0x21 || b == 0x38
}

/// A plausible packet length followed by a control opcode.
pub open spec fn is_openvpn(s: Seq<u8>) -> bool {
    s.len() >= 3 && 0 < packet_length(s) <= OPENVPN_MAX_PACKET && is_openvpn_opcode(s[2])
}

/// The protocol of a connection whose first bytes are `s`, where `fallback`
/// stands for a client that has sent nothing yet.
pub open spec fn classification(s: Seq<u8>, fallback: Protocol) -> Protocol {
    if is_tls(s) {
        Protocol::Tls
    } else if is_ssh(s) {
        Protocol::Ssh
    } else if starts_with_request(s) {
        if asks_for_websocket(s) {
            Protocol::WebSocketUpgrade
        } else {
            Protocol::Http
        }
    } else if is_openvpn(s) {
        Protocol::OpenVpn
    } else if s.len() == 0 {
        fallback
    } else {
        Protocol::Unknown
    }
}

/// Whether `s` begins like a TLS handshake record.
pub fn looks_like_tls(s: &[u8]) -> (r: bool)
    ensures
        r == is_tls(s@),
{
    s.len() >= 2 && s[0] == 0x16 && s[1] == 0x03
}

/// Whether `s` begins like an SSH identification string.
pub fn looks_like_ssh(s: &[u8]) -> (r: bool)
    ensures
        r == is_ssh(s@),
{
    s.len() >= 4 && s[0] == 0x53 && s[1] == 0x53 && s[2] == 0x48 && s[3] == 0x2d
}

/// Whether `s` begins like an OpenVPN control packet.
pub fn looks_like_openvpn(s: &[u8]) -> (r: bool)
    ensures
        r == is_openvpn(s@),
{
    if s.len() < 3 {
        return false;
    }
    let length: u16 = (s[0] as u16) * 256 + (s[1] as u16);
    0 < length && length <= OPENVPN_MAX_PACKET && (s[2] == 0x20 || s[2] == 0x21 || s[2] == 0x38)
}

/// Classifies the bytes that a peek returned; `fallback` is the answer for
/// no bytes at all.
pub fn classify_or(peeked: &[u8], fallback: Protocol) -> (p: Protocol)
    ensures
        p == classification(peeked@, fallback),
{
    if looks_like_tls(peeked) {
        Protocol::Tls
    } else if looks_like_ssh(peeked) {
        Protocol::Ssh
    } else if has_request_line(peeked) {
        if wants_websocket(peeked) {
            Protocol::WebSocketUpgrade
        } else {
            Protocol::Http
        }
    } else if looks_like_openvpn(peeked) {
        Protocol::OpenVpn
    } else if peeked.len() == 0 {
        fallback
    } else {
        Protocol::Unknown
    }
}

/// Classifies the bytes that a peek returned. A client that has sent nothing
/// is taken for SSH, whose clients wait for the server to speak first.
pub fn classify(peeked: &[u8]) -> (p: Protocol)
    ensures
        p == classification(peeked@, Protocol::Ssh),
{
    classify_or(peeked, Protocol::Ssh)
}

/// The same bytes are always classified the same.
pub proof fn lemma_same_bytes_same_protocol(a: Seq<u8>, b: Seq<u8>, fallback: Protocol)
    requires
        a.len() == b.len(),
        forall|i: int| 0 <= i < a.len() ==> a[i] == b[i],
    ensures
        classification(a, fallback) == classification(b, fallback),
{
    assert(a =~= b);
}

/// Bytes that were seen are classified the same whatever the fallback.
pub proof fn lemma_fallback_only_for_silence(s: Seq<u8>, f: Protocol, g: Protocol)
    requires
        s.len() > 0,
    ensures
        classification(s, f) == classification(s, g),
{
}

/// The answer is never the fallback by accident: bytes that were seen give
/// `Unknown` exactly when no test recognises them.
pub proof fn lemma_unknown_iff_unrecognised(s: Seq<u8>, fallback: Protocol)
    requires
        s.len() > 0,
    ensures
        classification(s, fallback) == Protocol::Unknown <==> !is_tls(s) && !is_ssh(s)
            && !starts_with_request(s) && !is_openvpn(s),
{
}

} // verus!
