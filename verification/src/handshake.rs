//! What the proxy says to a client before the relay begins.
//!
//! A tunnelled client is sent two bare status lines, `101` and then `200`,
//! each with the configured status text and an empty line: to a network that
//! watches the port, the connection then looks like an HTTP upgrade. A
//! WebSocket client that the proxy answers itself gets the upgrade response
//! with the accept key that belongs to the key it sent.

use crate::ascii::{bytes_of, lemma_ascii_bytes, push_text};
use crate::base64::{encode, encoding, lemma_encoding_is_ascii, lemma_encoding_len};
use crate::http::{find_header, has_request_line, header_of, starts_with_request};
use crate::sha1::{digest, lemma_digest_len, sha1};
use vstd::prelude::*;
use vstd::string::*;

verus! {

/// Why an upgrade request was not answered.
#[derive(Clone, Copy, Debug, PartialEq, Eq, Structural)]
pub enum HandshakeError {
    /// The bytes do not begin with a well-formed request line.
    NotARequest,
    /// No `Sec-WebSocket-Key` header with a value.
    MissingKey,
}

/// The bytes of a status line with an empty line after it.
pub open spec fn status_response(code: Seq<char>, status: Seq<u8>) -> Seq<u8> {
    bytes_of("HTTP/1.1 "@) + bytes_of(code) + bytes_of(" "@) + status + bytes_of("\r\n\r\n"@)
}

/// The first line of the disguise: the protocol switch.
pub open spec fn switching_line(status: Seq<u8>) -> Seq<u8> {
    status_response("101"@, status)
}

/// The second line of the disguise: the connection is established.
pub open spec fn established_line(status: Seq<u8>) -> Seq<u8> {
    status_response("200"@, status)
}

/// The accept key for the client key `key`: the Base64 text of the SHA-1
/// digest of the key followed by the protocol's fixed identifier.
pub open spec fn accept_text(key: Seq<u8>) -> Seq<char> {
    encoding(sha1(key + bytes_of("258EAFA5-E914-47DA-95CA-C5AB0DC85B11"@)))
}

/// An accept key has twenty-eight characters, whatever the client key.
pub proof fn lemma_accept_text_len(key: Seq<u8>)
    ensures
        accept_text(key).len() == 28,
{
    let joined = key + bytes_of("258EAFA5-E914-47DA-95CA-C5AB0DC85B11"@);
    lemma_digest_len(joined);
    lemma_encoding_len(sha1(joined));
}

/// The response that completes the upgrade of a client that sent `key`.
pub open spec fn upgrade_text(key: Seq<u8>) -> Seq<u8> {
    bytes_of("HTTP/1.1 101 Switching Protocols\r\n"@) + bytes_of("Upgrade: websocket\r\n"@)
        + bytes_of("Connection: Upgrade\r\n"@) + bytes_of("Sec-WebSocket-Accept: "@) + bytes_of(
        accept_text(key),
    ) + bytes_of("\r\n\r\n"@)
}

/// The key that the upgrade request `s` carries, where it carries one.
pub open spec fn client_key(s: Seq<u8>) -> Option<Seq<u8>> {
    match header_of(s, bytes_of("sec-websocket-key"@)) {
        Some(v) => if v.len() > 0 {
            Some(v)
        } else {
            None
        },
        None => None,
    }
}

/// What is owed to the upgrade request `s`.
pub open spec fn upgrade_outcome(s: Seq<u8>) -> Result<Seq<u8>, HandshakeError> {
    if !starts_with_request(s) {
        Err(HandshakeError::NotARequest)
    } else {
        match client_key(s) {
            Some(key) => Ok(upgrade_text(key)),
            None => Err(HandshakeError::MissingKey),
        }
    }
}

fn status_line(code: &str, status: &str) -> (out: Vec<u8>)
    requires
        vstd::utf8::is_ascii_chars(code@),
    ensures
        out@ == status_response(code@, status.spec_bytes()),
{
    proof {
        reveal_strlit("HTTP/1.1 ");
        lemma_ascii_bytes("HTTP/1.1 ");
        reveal_strlit(" ");
        lemma_ascii_bytes(" ");
        reveal_strlit("\r\n\r\n");
        lemma_ascii_bytes("\r\n\r\n");
    }
    proof {
        lemma_ascii_bytes(code);
    }
    let mut out: Vec<u8> = Vec::new();
    push_text(&mut out, "HTTP/1.1 ");
    push_text(&mut out, code);
    push_text(&mut out, " ");
    out.extend_from_slice(status.as_bytes());
    push_text(&mut out, "\r\n\r\n");
    assert(out@ =~= status_response(code@, status.spec_bytes()));
    out
}

/// The first line of the disguise, with the status text as it is given.
pub fn switching_response(status: &str) -> (out: Vec<u8>)
    ensures
        out@ == switching_line(status.spec_bytes()),
{
    proof {
        reveal_strlit("101");
        lemma_ascii_bytes("101");
    }
    status_line("101", status)
}

/// The second line of the disguise, with the status text as it is given.
pub fn established_response(status: &str) -> (out: Vec<u8>)
    ensures
        out@ == established_line(status.spec_bytes()),
{
    proof {
        reveal_strlit("200");
        lemma_ascii_bytes("200");
    }
    status_line("200", status)
}

/// The accept key for a client key given as bytes.
pub fn accept_key_for(key: &[u8]) -> (out: String)
    ensures
        out@ == accept_text(key@),
{
    proof {
        reveal_strlit("258EAFA5-E914-47DA-95CA-C5AB0DC85B11");
        lemma_ascii_bytes("258EAFA5-E914-47DA-95CA-C5AB0DC85B11");
    }
    let mut joined: Vec<u8> = Vec::new();
    joined.extend_from_slice(key);
    push_text(&mut joined, "258EAFA5-E914-47DA-95CA-C5AB0DC85B11");
    assert(joined@ =~= key@ + bytes_of("258EAFA5-E914-47DA-95CA-C5AB0DC85B11"@));
    let hash = digest(joined.as_slice());
    encode(hash.as_slice())
}

/// The accept key for the client key `client_key`.
pub fn accept_key(client_key: &str) -> (out: String)
    ensures
        out@ == accept_text(client_key.spec_bytes()),
{
    accept_key_for(client_key.as_bytes())
}

/// The response that completes the upgrade of a client that sent `key`.
pub fn upgrade_response(key: &[u8]) -> (out: Vec<u8>)
    ensures
        out@ == upgrade_text(key@),
{
    proof {
        reveal_strlit("HTTP/1.1 101 Switching Protocols\r\n");
        lemma_ascii_bytes("HTTP/1.1 101 Switching Protocols\r\n");
        reveal_strlit("Upgrade: websocket\r\n");
        lemma_ascii_bytes("Upgrade: websocket\r\n");
        reveal_strlit("Connection: Upgrade\r\n");
        lemma_ascii_bytes("Connection: Upgrade\r\n");
        reveal_strlit("Sec-WebSocket-Accept: ");
        lemma_ascii_bytes("Sec-WebSocket-Accept: ");
        reveal_strlit("\r\n\r\n");
        lemma_ascii_bytes("\r\n\r\n");
    }
    let accept = accept_key_for(key);
    let mut out: Vec<u8> = Vec::new();
    push_text(&mut out, "HTTP/1.1 101 Switching Protocols\r\n");
    push_text(&mut out, "Upgrade: websocket\r\n");
    push_text(&mut out, "Connection: Upgrade\r\n");
    push_text(&mut out, "Sec-WebSocket-Accept: ");
    let accept_str = accept.as_str();
    proof {
        lemma_encoding_is_ascii(sha1(key@ + bytes_of("258EAFA5-E914-47DA-95CA-C5AB0DC85B11"@)));
        lemma_ascii_bytes(accept_str);
    }
    out.extend_from_slice(accept_str.as_bytes());
    push_text(&mut out, "\r\n\r\n");
    assert(out@ =~= upgrade_text(key@));
    out
}

/// Answers the upgrade request `request`: the response to send, or why
/// there is none.
pub fn answer_upgrade(request: &[u8]) -> (r: Result<Vec<u8>, HandshakeError>)
    ensures
        r is Ok == upgrade_outcome(request@) is Ok,
        r matches Ok(out) ==> upgrade_outcome(request@) == Ok::<Seq<u8>, HandshakeError>(out@),
        r matches Err(e) ==> upgrade_outcome(request@) == Err::<Seq<u8>, HandshakeError>(e),
{
    proof {
        reveal_strlit("sec-websocket-key");
        lemma_ascii_bytes("sec-websocket-key");
    }
    if !has_request_line(request) {
        return Err(HandshakeError::NotARequest);
    }
    match find_header(request, "sec-websocket-key") {
        Some(key) => {
            if key.len() > 0 {
                Ok(upgrade_response(key))
            } else {
                Err(HandshakeError::MissingKey)
            }
        },
        None => Err(HandshakeError::MissingKey),
    }
}

} // verus!
