use rusty_proxy::ascii::{find, find_line_end, is_word, is_word_ignore_case, to_lower, trimmed};
use rusty_proxy::http::{
    check_list_has, check_request_line, find_head_end, find_header, has_request_line, value_of,
    wants_websocket,
};
use rusty_proxy::protocol::Protocol;
use rusty_proxy::sniff::{classify, classify_or, PEEK_SIZE};

#[test]
fn ssh_banner_is_ssh() {
    assert_eq!(classify(b"SSH-2.0-OpenSSH_9.0\r\n"), Protocol::Ssh);
    assert_eq!(classify(b"SSH-"), Protocol::Ssh);
    assert_eq!(classify(b"SSH-1.99-x"), Protocol::Ssh);
}

#[test]
fn ssh_without_the_dash_is_not_ssh() {
    assert_eq!(classify(b"SSH"), Protocol::Unknown);
    assert_eq!(classify(b"SSH2.0-OpenSSH\r\n"), Protocol::Unknown);
    assert_eq!(classify(b"ssh-2.0-OpenSSH\r\n"), Protocol::Unknown);
    assert_eq!(classify(b" SSH-2.0\r\n"), Protocol::Unknown);
    assert_eq!(classify(b"SS"), Protocol::Unknown);
}

#[test]
fn tls_handshake_record_is_tls() {
    assert_eq!(classify(&[0x16, 0x03, 0x01, 0x02, 0x00, 0x01]), Protocol::Tls);
    assert_eq!(classify(&[0x16, 0x03]), Protocol::Tls);
    assert_eq!(classify(&[0x16, 0x03, 0x03]), Protocol::Tls);
}

#[test]
fn tls_needs_both_bytes() {
    assert_eq!(classify(&[0x16]), Protocol::Unknown);
    assert_eq!(classify(&[0x16, 0x02, 0x01]), Protocol::Unknown);
    assert_eq!(classify(&[0x17, 0x03, 0x01]), Protocol::Unknown);
}

#[test]
fn tls_comes_before_openvpn() {
    // 0x16 0x03 is a packet length of 5635, too long for OpenVPN anyway, but
    // the order is what decides.
    assert_eq!(classify(&[0x16, 0x03, 0x38]), Protocol::Tls);
}

#[test]
fn every_method_is_http() {
    for method in ["GET", "POST", "HEAD", "PUT", "DELETE", "CONNECT", "OPTIONS", "PATCH"] {
        let request = format!("{} /index.html HTTP/1.1\r\nHost: a\r\n\r\n", method);
        assert_eq!(classify(request.as_bytes()), Protocol::Http, "{}", method);
    }
}

#[test]
fn other_methods_are_not_http() {
    assert_eq!(classify(b"TRACE / HTTP/1.1\r\n\r\n"), Protocol::Unknown);
    assert_eq!(classify(b"get / HTTP/1.1\r\n\r\n"), Protocol::Unknown);
    assert_eq!(classify(b"GETX / HTTP/1.1\r\n\r\n"), Protocol::Unknown);
}

#[test]
fn request_line_must_be_well_formed() {
    assert_eq!(classify(b"GET / HTTP/1.1"), Protocol::Unknown);
    assert_eq!(classify(b"GET / HTTP/1.1\n"), Protocol::Unknown);
    assert_eq!(classify(b"GET  / HTTP/1.1\r\n"), Protocol::Unknown);
    assert_eq!(classify(b"GET / HTTP/1.1 \r\n"), Protocol::Unknown);
    assert_eq!(classify(b"GET /a b HTTP/1.1\r\n"), Protocol::Unknown);
    assert_eq!(classify(b"GET / HTTP/11\r\n"), Protocol::Unknown);
    assert_eq!(classify(b"GET / HTTP/1.x\r\n"), Protocol::Unknown);
    assert_eq!(classify(b"GET / http/1.1\r\n"), Protocol::Unknown);
    assert_eq!(classify(b"GET /\r\n"), Protocol::Unknown);
    assert_eq!(classify(b"GET\r\n"), Protocol::Unknown);
    assert_eq!(classify(b"GET /\x01 HTTP/1.1\r\n"), Protocol::Unknown);
}

#[test]
fn request_line_alone_is_http() {
    assert_eq!(classify(b"GET / HTTP/1.1\r\n"), Protocol::Http);
    assert_eq!(classify(b"POST /a?b=c HTTP/1.0\r\n"), Protocol::Http);
    assert_eq!(classify(b"CONNECT example.com:443 HTTP/1.1\r\n\r\n"), Protocol::Http);
}

#[test]
fn upgrade_with_connection_is_websocket() {
    let request = b"GET /chat HTTP/1.1\r\nHost: a\r\nUpgrade: websocket\r\n\
                    Connection: Upgrade\r\nSec-WebSocket-Key: dGhlIHNhbXBsZSBub25jZQ==\r\n\r\n";
    assert_eq!(classify(request), Protocol::WebSocketUpgrade);
}

#[test]
fn websocket_headers_ignore_case_and_blanks() {
    let request =
        b"GET / HTTP/1.1\r\nUPGRADE:   WebSocket \t\r\ncOnNeCtIoN:keep-alive ,  UPGRADE\r\n\r\n";
    assert_eq!(classify(request), Protocol::WebSocketUpgrade);
    let reversed = b"GET / HTTP/1.1\r\nConnection: upgrade\r\nUpgrade: websocket\r\n";
    assert_eq!(classify(reversed), Protocol::WebSocketUpgrade);
}

#[test]
fn websocket_needs_both_headers() {
    assert_eq!(
        classify(b"GET / HTTP/1.1\r\nUpgrade: websocket\r\n\r\n"),
        Protocol::Http
    );
    assert_eq!(
        classify(b"GET / HTTP/1.1\r\nConnection: Upgrade\r\n\r\n"),
        Protocol::Http
    );
    assert_eq!(
        classify(b"GET / HTTP/1.1\r\nUpgrade: websocket\r\nConnection: keep-alive\r\n\r\n"),
        Protocol::Http
    );
    assert_eq!(
        classify(b"GET / HTTP/1.1\r\nUpgrade: h2c\r\nConnection: Upgrade\r\n\r\n"),
        Protocol::Http
    );
    assert_eq!(
        classify(b"GET / HTTP/1.1\r\nUpgrade: websocket2\r\nConnection: Upgrade\r\n\r\n"),
        Protocol::Http
    );
    assert_eq!(
        classify(b"GET / HTTP/1.1\r\nUpgrade: websocket\r\nConnection: upgraded\r\n\r\n"),
        Protocol::Http
    );
}

#[test]
fn headers_after_the_empty_line_do_not_count() {
    let request = b"GET / HTTP/1.1\r\nHost: a\r\n\r\nUpgrade: websocket\r\nConnection: Upgrade\r\n";
    assert_eq!(classify(request), Protocol::Http);
}

#[test]
fn a_header_line_that_is_not_finished_does_not_count() {
    let request = b"GET / HTTP/1.1\r\nUpgrade: websocket\r\nConnection: Upgrade";
    assert_eq!(classify(request), Protocol::Http);
}

#[test]
fn openvpn_reset_packet_is_openvpn() {
    assert_eq!(classify(&[0x00, 0x0e, 0x38, 0x01, 0x02]), Protocol::OpenVpn);
    assert_eq!(classify(&[0x00, 0x2a, 0x20]), Protocol::OpenVpn);
    assert_eq!(classify(&[0x00, 0x01, 0x21]), Protocol::OpenVpn);
    assert_eq!(classify(&[0x05, 0xdc, 0x38]), Protocol::OpenVpn);
}

#[test]
fn openvpn_needs_a_plausible_length_and_a_known_opcode() {
    assert_eq!(classify(&[0x00, 0x00, 0x38]), Protocol::Unknown);
    assert_eq!(classify(&[0x05, 0xdd, 0x38]), Protocol::Unknown);
    assert_eq!(classify(&[0xff, 0xff, 0x38]), Protocol::Unknown);
    assert_eq!(classify(&[0x00, 0x0e, 0x39]), Protocol::Unknown);
    assert_eq!(classify(&[0x00, 0x0e, 0x28]), Protocol::Unknown);
    assert_eq!(classify(&[0x00, 0x0e]), Protocol::Unknown);
}

#[test]
fn no_bytes_give_the_fallback() {
    assert_eq!(classify(b""), Protocol::Ssh);
    assert_eq!(classify_or(b"", Protocol::OpenVpn), Protocol::OpenVpn);
    assert_eq!(classify_or(b"", Protocol::Unknown), Protocol::Unknown);
}

#[test]
fn the_fallback_is_for_silence_only() {
    assert_eq!(classify_or(b"hello", Protocol::Ssh), Protocol::Unknown);
    assert_eq!(classify_or(b"\x00", Protocol::Http), Protocol::Unknown);
    assert_eq!(classify_or(b"SSH-2.0\r\n", Protocol::OpenVpn), Protocol::Ssh);
}

#[test]
fn classification_is_a_function_of_the_bytes() {
    let samples: Vec<Vec<u8>> = vec![
        b"".to_vec(),
        b"SSH-2.0-x\r\n".to_vec(),
        b"SSH".to_vec(),
        vec![0x16, 0x03, 0x01],
        vec![0x00, 0x0e, 0x38],
        b"GET / HTTP/1.1\r\n\r\n".to_vec(),
        b"GET / HTTP/1.1\r\nUpgrade: websocket\r\nConnection: Upgrade\r\n\r\n".to_vec(),
        vec![0xde, 0xad, 0xbe, 0xef],
    ];
    for sample in &samples {
        let first = classify(sample);
        let copy = sample.clone();
        assert_eq!(classify(&copy), first);
        assert_eq!(classify(sample), first);
    }
}

#[test]
fn classification_of_every_two_byte_prefix_is_stable() {
    for a in 0..=255u8 {
        for b in [0x00u8, 0x03, 0x0e, 0x20, 0x38, 0x53, 0xff] {
            let bytes = [a, b, 0x38];
            let p = classify(&bytes);
            assert_eq!(classify(&bytes), p);
            let expected = if a == 0x16 && b == 0x03 {
                Protocol::Tls
            } else {
                let len = (a as u16) * 256 + b as u16;
                if len > 0 && len <= 1500 {
                    Protocol::OpenVpn
                } else {
                    Protocol::Unknown
                }
            };
            assert_eq!(p, expected, "{:02x} {:02x}", a, b);
        }
    }
}

#[test]
fn a_full_peek_buffer_is_classified() {
    assert_eq!(PEEK_SIZE, 2048);
    let mut request = b"GET /".to_vec();
    request.extend(std::iter::repeat(b'a').take(PEEK_SIZE - 5));
    assert_eq!(classify(&request), Protocol::Unknown);
    let mut whole = b"GET /".to_vec();
    whole.extend(std::iter::repeat(b'a').take(100));
    whole.extend_from_slice(b" HTTP/1.1\r\n");
    whole.resize(PEEK_SIZE, b'x');
    assert_eq!(classify(&whole), Protocol::Http);
}

#[test]
fn http_awareness_of_the_protocols() {
    assert!(Protocol::Http.is_http_aware());
    assert!(Protocol::WebSocketUpgrade.is_http_aware());
    assert!(!Protocol::Ssh.is_http_aware());
    assert!(!Protocol::OpenVpn.is_http_aware());
    assert!(!Protocol::Tls.is_http_aware());
    assert!(!Protocol::Unknown.is_http_aware());
}

#[test]
fn searching_bytes_and_line_ends() {
    assert_eq!(find(b"a b c", b' ', 0), 1);
    assert_eq!(find(b"a b c", b' ', 2), 3);
    assert_eq!(find(b"a b c", b' ', 4), 5);
    assert_eq!(find(b"a b c", b'x', 0), 5);
    assert_eq!(find(b"abc", b'a', 7), 3);
    assert_eq!(find_line_end(b"ab\r\ncd\r\n", 0), 2);
    assert_eq!(find_line_end(b"ab\r\ncd\r\n", 3), 6);
    assert_eq!(find_line_end(b"ab\rcd\n", 0), 6);
    assert_eq!(find_line_end(b"ab\r", 0), 3);
    assert_eq!(find_line_end(b"", 0), 0);
}

#[test]
fn words_and_case() {
    assert_eq!(to_lower(b'A'), b'a');
    assert_eq!(to_lower(b'Z'), b'z');
    assert_eq!(to_lower(b'a'), b'a');
    assert_eq!(to_lower(b'@'), b'@');
    assert_eq!(to_lower(b'['), b'[');
    assert_eq!(to_lower(0xc1), 0xc1);
    assert!(is_word(b"GET", "GET"));
    assert!(!is_word(b"get", "GET"));
    assert!(!is_word(b"GE", "GET"));
    assert!(is_word_ignore_case(b"UpGrAdE", "upgrade"));
    assert!(!is_word_ignore_case(b"upgrad3", "upgrade"));
    assert!(!is_word_ignore_case(b"upgrade ", "upgrade"));
}

#[test]
fn trimming_blanks() {
    assert_eq!(trimmed(b"  a b\t "), b"a b");
    assert_eq!(trimmed(b"a"), b"a");
    assert_eq!(trimmed(b" \t "), b"");
    assert_eq!(trimmed(b""), b"");
    assert_eq!(trimmed(b"\r a"), b"\r a");
}

#[test]
fn request_lines() {
    assert!(check_request_line(b"GET / HTTP/1.1"));
    assert!(!check_request_line(b"GET / HTTP/1.1\r\n"));
    assert!(has_request_line(b"GET / HTTP/1.1\r\nrest"));
    assert!(!has_request_line(b"\r\nGET / HTTP/1.1\r\n"));
}

#[test]
fn header_values_and_lists() {
    assert_eq!(value_of(b"Host:  example.com \t"), b"example.com");
    assert_eq!(value_of(b"Host:"), b"");
    assert_eq!(value_of(b"no colon here"), b"");
    assert_eq!(value_of(b"a:b:c"), b"b:c");
    assert!(check_list_has(b"keep-alive, Upgrade", "upgrade"));
    assert!(check_list_has(b"upgrade", "upgrade"));
    assert!(check_list_has(b"a,,upgrade,", "upgrade"));
    assert!(!check_list_has(b"keep-alive", "upgrade"));
    assert!(!check_list_has(b"", "upgrade"));
    assert!(!check_list_has(b"up grade", "upgrade"));
}

#[test]
fn first_header_of_a_name_is_found() {
    let request = b"GET / HTTP/1.1\r\nHost: a\r\nX-Id: 1\r\nx-id: 2\r\n\r\nX-Late: 3\r\n";
    assert_eq!(find_header(request, "x-id"), Some(&b"1"[..]));
    assert_eq!(find_header(request, "host"), Some(&b"a"[..]));
    assert_eq!(find_header(request, "x-late"), None);
    assert_eq!(find_header(request, "missing"), None);
    assert_eq!(find_header(b"no line end", "host"), None);
}

#[test]
fn websocket_wish_is_read_from_the_headers() {
    assert!(wants_websocket(
        b"GET / HTTP/1.1\r\nUpgrade: websocket\r\nConnection: Upgrade\r\n\r\n"
    ));
    assert!(!wants_websocket(b"GET / HTTP/1.1\r\n\r\n"));
    assert!(!wants_websocket(b""));
}

#[test]
fn end_of_the_request_head() {
    assert_eq!(find_head_end(b"GET / HTTP/1.1\r\n\r\n"), Some(18));
    assert_eq!(find_head_end(b"GET / HTTP/1.1\r\nA: b\r\n\r\nbody"), Some(24));
    assert_eq!(find_head_end(b"GET / HTTP/1.1\r\nA: b\r\n"), None);
    assert_eq!(find_head_end(b"\r\n"), Some(2));
    assert_eq!(find_head_end(b""), None);
}
