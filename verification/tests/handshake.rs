use rusty_proxy::base64::encode;
use rusty_proxy::handshake::{
    accept_key, accept_key_for, answer_upgrade, established_response, switching_response,
    upgrade_response, HandshakeError,
};
use rusty_proxy::sha1::digest;

fn hex(bytes: &[u8]) -> String {
    let mut out = String::new();
    for b in bytes {
        out.push_str(&format!("{:02x}", b));
    }
    out
}

#[test]
fn sha1_of_the_empty_message() {
    assert_eq!(hex(&digest(b"")), "da39a3ee5e6b4b0d3255bfef95601890afd80709");
}

#[test]
fn sha1_of_abc() {
    assert_eq!(hex(&digest(b"abc")), "a9993e364706816aba3e25717850c26c9cd0d89d");
}

#[test]
fn sha1_of_a_message_that_needs_two_blocks() {
    let msg = b"abcdbcdecdefdefgefghfghighijhijkijkljklmklmnlmnomnopnopq";
    assert_eq!(hex(&digest(msg)), "84983e441c3bd26ebaae4aa1f95129e5e54670f1");
}

#[test]
fn sha1_at_the_padding_boundaries() {
    assert_eq!(hex(&digest(&[b'a'; 55])), "c1c8bbdc22796e28c0e15163d20899b65621d65a");
    assert_eq!(hex(&digest(&[b'a'; 56])), "c2db330f6083854c99d4b5bfb6e8f29f201be699");
    assert_eq!(hex(&digest(&[b'a'; 64])), "0098ba824b5c16427bd7a1122a5a442a25ec644d");
}

#[test]
fn sha1_of_a_million_bytes() {
    let msg = vec![b'a'; 1_000_000];
    assert_eq!(hex(&digest(&msg)), "34aa973cd4c4daa4f61eeb2bdbad27316534016f");
}

#[test]
fn base64_of_every_length_of_tail() {
    assert_eq!(encode(b""), "");
    assert_eq!(encode(b"f"), "Zg==");
    assert_eq!(encode(b"fo"), "Zm8=");
    assert_eq!(encode(b"foo"), "Zm9v");
    assert_eq!(encode(b"foob"), "Zm9vYg==");
    assert_eq!(encode(b"fooba"), "Zm9vYmE=");
    assert_eq!(encode(b"foobar"), "Zm9vYmFy");
}

#[test]
fn base64_uses_the_whole_alphabet() {
    assert_eq!(encode(&[0xfb, 0xff, 0xbf]), "+/+/");
    assert_eq!(encode(&[0x00, 0x10, 0x83]), "ABCD");
    assert_eq!(encode(&[0xff, 0xff, 0xff]), "////");
}

#[test]
fn accept_key_of_the_sample_nonce() {
    assert_eq!(accept_key("dGhlIHNhbXBsZSBub25jZQ=="), "s3pPLMBiTxaQ9kYGzzhZRbK+xOo=");
}

#[test]
fn accept_key_differs_from_the_client_key() {
    let key = "x3JJHMbDL1EzLkh9GBhXDw==";
    assert_eq!(accept_key(key), "HSmrc0sMlYUkAGmm5OPpG2HaGWk=");
    assert_eq!(accept_key_for(key.as_bytes()), accept_key(key));
}

#[test]
fn disguise_lines_are_byte_exact() {
    assert_eq!(
        switching_response("@RustyManager"),
        b"HTTP/1.1 101 @RustyManager\r\n\r\n".to_vec()
    );
    assert_eq!(
        established_response("@RustyManager"),
        b"HTTP/1.1 200 @RustyManager\r\n\r\n".to_vec()
    );
}

#[test]
fn disguise_lines_keep_the_status_text_verbatim() {
    assert_eq!(switching_response(""), b"HTTP/1.1 101 \r\n\r\n".to_vec());
    assert_eq!(
        established_response("Conex\u{e3}o OK"),
        "HTTP/1.1 200 Conex\u{e3}o OK\r\n\r\n".as_bytes().to_vec()
    );
}

#[test]
fn upgrade_response_carries_the_accept_key() {
    let expected = "HTTP/1.1 101 Switching Protocols\r\n\
                    Upgrade: websocket\r\n\
                    Connection: Upgrade\r\n\
                    Sec-WebSocket-Accept: s3pPLMBiTxaQ9kYGzzhZRbK+xOo=\r\n\r\n";
    assert_eq!(upgrade_response(b"dGhlIHNhbXBsZSBub25jZQ=="), expected.as_bytes().to_vec());
}

#[test]
fn upgrade_request_is_answered_with_its_accept_key() {
    let request = b"GET /chat HTTP/1.1\r\nHost: example.com\r\nUpgrade: websocket\r\n\
                    Connection: Upgrade\r\nSec-WebSocket-Key: dGhlIHNhbXBsZSBub25jZQ==\r\n\
                    Sec-WebSocket-Version: 13\r\n\r\n";
    let answer = answer_upgrade(request).unwrap();
    let text = String::from_utf8(answer).unwrap();
    assert!(text.starts_with("HTTP/1.1 101 Switching Protocols\r\n"));
    assert!(text.contains("Sec-WebSocket-Accept: s3pPLMBiTxaQ9kYGzzhZRbK+xOo=\r\n"));
    assert!(text.ends_with("\r\n\r\n"));
}

#[test]
fn upgrade_request_without_a_key_is_refused() {
    let request = b"GET /chat HTTP/1.1\r\nUpgrade: websocket\r\nConnection: Upgrade\r\n\r\n";
    assert_eq!(answer_upgrade(request), Err(HandshakeError::MissingKey));
    let empty = b"GET /chat HTTP/1.1\r\nSec-WebSocket-Key:   \r\n\r\n";
    assert_eq!(answer_upgrade(empty), Err(HandshakeError::MissingKey));
}

#[test]
fn upgrade_key_after_the_empty_line_is_not_a_header() {
    let request = b"GET / HTTP/1.1\r\n\r\nSec-WebSocket-Key: dGhlIHNhbXBsZSBub25jZQ==\r\n";
    assert_eq!(answer_upgrade(request), Err(HandshakeError::MissingKey));
}

#[test]
fn bytes_that_are_no_request_get_no_upgrade() {
    assert_eq!(answer_upgrade(b"SSH-2.0-OpenSSH_9.0\r\n"), Err(HandshakeError::NotARequest));
    assert_eq!(answer_upgrade(b""), Err(HandshakeError::NotARequest));
}
