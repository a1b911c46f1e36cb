use rusty_proxy::frame::{
    apply_mask, encode_frame, opcode_from_bits, opcode_to_bits, parse_frame, relay_frame, Frame,
    FrameAction, FrameError, Opcode,
};
use rusty_proxy::relay::Direction;

const LIMIT: usize = 1 << 20;

#[test]
fn an_unmasked_text_frame_is_read() {
    let bytes = [0x81, 0x05, 0x48, 0x65, 0x6c, 0x6c, 0x6f];
    let (frame, used) = parse_frame(&bytes, LIMIT).unwrap();
    assert_eq!(used, 7);
    assert_eq!(frame, Frame { opcode: Opcode::Text, mask: None, payload: b"Hello".to_vec() });
}

#[test]
fn a_masked_text_frame_is_unmasked() {
    let bytes = [0x81, 0x85, 0x37, 0xfa, 0x21, 0x3d, 0x7f, 0x9f, 0x4d, 0x51, 0x58];
    let (frame, used) = parse_frame(&bytes, LIMIT).unwrap();
    assert_eq!(used, 11);
    assert_eq!(frame.opcode, Opcode::Text);
    assert_eq!(frame.mask, Some([0x37, 0xfa, 0x21, 0x3d]));
    assert_eq!(frame.payload, b"Hello".to_vec());
}

#[test]
fn only_the_first_frame_is_taken() {
    let bytes = [0x82, 0x01, 0xaa, 0x89, 0x00, 0xff];
    let (frame, used) = parse_frame(&bytes, LIMIT).unwrap();
    assert_eq!(used, 3);
    assert_eq!(frame.payload, vec![0xaa]);
    let (next, used) = parse_frame(&bytes[3..], LIMIT).unwrap();
    assert_eq!(used, 2);
    assert_eq!(next.opcode, Opcode::Ping);
    assert!(next.payload.is_empty());
}

#[test]
fn a_frame_that_has_not_arrived_is_incomplete() {
    let whole = [0x81, 0x85, 0x37, 0xfa, 0x21, 0x3d, 0x7f, 0x9f, 0x4d, 0x51, 0x58];
    for n in 0..whole.len() {
        assert_eq!(parse_frame(&whole[..n], LIMIT), Err(FrameError::Incomplete), "{}", n);
    }
    assert_eq!(parse_frame(&[0x82, 0x7e, 0x01], LIMIT), Err(FrameError::Incomplete));
    assert_eq!(parse_frame(&[0x82, 0x7f, 0, 0, 0, 0, 0, 0, 1], LIMIT), Err(FrameError::Incomplete));
}

#[test]
fn a_length_of_two_bytes_is_read() {
    let payload = vec![0x5a; 300];
    let mut bytes = vec![0x82, 0x7e, 0x01, 0x2c];
    bytes.extend_from_slice(&payload);
    let (frame, used) = parse_frame(&bytes, LIMIT).unwrap();
    assert_eq!(used, 304);
    assert_eq!(frame.payload, payload);
}

#[test]
fn a_length_of_eight_bytes_is_read() {
    let payload = vec![0x33; 70_000];
    let mut bytes = vec![0x82, 0x7f, 0, 0, 0, 0, 0, 0x01, 0x11, 0x70];
    bytes.extend_from_slice(&payload);
    let (frame, used) = parse_frame(&bytes, LIMIT).unwrap();
    assert_eq!(used, 70_010);
    assert_eq!(frame.payload, payload);
}

#[test]
fn a_payload_beyond_the_limit_is_refused() {
    let bytes = [0x82, 0x7e, 0x01, 0x2c];
    assert_eq!(parse_frame(&bytes, 299), Err(FrameError::TooLarge));
    assert_eq!(parse_frame(&bytes, 300), Err(FrameError::Incomplete));
    let huge = [0x82, 0x7f, 0xff, 0xff, 0xff, 0xff, 0xff, 0xff, 0xff, 0xff];
    assert_eq!(parse_frame(&huge, LIMIT), Err(FrameError::TooLarge));
}

#[test]
fn reserved_bits_are_refused() {
    assert_eq!(parse_frame(&[0xc1, 0x00], LIMIT), Err(FrameError::ReservedBits));
    assert_eq!(parse_frame(&[0xa1, 0x00], LIMIT), Err(FrameError::ReservedBits));
    assert_eq!(parse_frame(&[0x91, 0x00], LIMIT), Err(FrameError::ReservedBits));
}

#[test]
fn fragments_are_refused() {
    assert_eq!(parse_frame(&[0x01, 0x00], LIMIT), Err(FrameError::Fragmented));
    assert_eq!(parse_frame(&[0x80, 0x00], LIMIT), Err(FrameError::Fragmented));
    assert_eq!(parse_frame(&[0x00, 0x00], LIMIT), Err(FrameError::Fragmented));
    assert_eq!(parse_frame(&[0x09, 0x00], LIMIT), Err(FrameError::Fragmented));
}

#[test]
fn unknown_opcodes_are_refused() {
    for bits in [0x3u8, 0x4, 0x5, 0x6, 0x7, 0xb, 0xc, 0xd, 0xe, 0xf] {
        assert_eq!(parse_frame(&[0x80 | bits, 0x00], LIMIT), Err(FrameError::UnknownOpcode));
        assert_eq!(parse_frame(&[bits, 0x00], LIMIT), Err(FrameError::UnknownOpcode));
    }
}

#[test]
fn long_control_frames_are_refused() {
    assert_eq!(parse_frame(&[0x89, 0x7e, 0x00, 0x7e], LIMIT), Err(FrameError::BadControlFrame));
    assert!(parse_frame(&[0x88, 0x7e, 0x00, 0x00], LIMIT).is_ok());
    let mut ping = vec![0x89, 0x7d];
    ping.extend_from_slice(&[7u8; 125]);
    let (frame, used) = parse_frame(&ping, LIMIT).unwrap();
    assert_eq!(used, 127);
    assert_eq!(frame.opcode, Opcode::Ping);
}

#[test]
fn opcodes_and_their_bits() {
    for op in [Opcode::Text, Opcode::Binary, Opcode::Close, Opcode::Ping, Opcode::Pong] {
        assert_eq!(opcode_from_bits(opcode_to_bits(op)), Some(op));
    }
    assert_eq!(opcode_to_bits(Opcode::Text), 1);
    assert_eq!(opcode_to_bits(Opcode::Binary), 2);
    assert_eq!(opcode_to_bits(Opcode::Close), 8);
    assert_eq!(opcode_to_bits(Opcode::Ping), 9);
    assert_eq!(opcode_to_bits(Opcode::Pong), 10);
    assert_eq!(opcode_from_bits(0), None);
    assert_eq!(opcode_from_bits(3), None);
}

#[test]
fn masking_twice_gives_the_data_back() {
    let key = [0x37, 0xfa, 0x21, 0x3d];
    let data = b"The quick brown fox".to_vec();
    let once = apply_mask(&data, &key);
    assert_ne!(once, data);
    assert_eq!(once[..5], [0x63, 0x92, 0x44, 0x1d, 0x46]);
    assert_eq!(apply_mask(&once, &key), data);
    assert_eq!(apply_mask(b"", &key), Vec::<u8>::new());
    assert_eq!(apply_mask(&data, &[0, 0, 0, 0]), data);
}

#[test]
fn frames_are_written_as_the_protocol_says() {
    assert_eq!(
        encode_frame(Opcode::Text, b"Hello", None),
        vec![0x81, 0x05, 0x48, 0x65, 0x6c, 0x6c, 0x6f]
    );
    assert_eq!(
        encode_frame(Opcode::Text, b"Hello", Some([0x37, 0xfa, 0x21, 0x3d])),
        vec![0x81, 0x85, 0x37, 0xfa, 0x21, 0x3d, 0x7f, 0x9f, 0x4d, 0x51, 0x58]
    );
    assert_eq!(encode_frame(Opcode::Close, b"", None), vec![0x88, 0x00]);
    assert_eq!(encode_frame(Opcode::Pong, b"", Some([1, 2, 3, 4])), vec![0x8a, 0x80, 1, 2, 3, 4]);
}

#[test]
fn lengths_are_written_in_the_shortest_form() {
    let short = encode_frame(Opcode::Binary, &[0u8; 125], None);
    assert_eq!(&short[..2], &[0x82, 125]);
    assert_eq!(short.len(), 127);
    let medium = encode_frame(Opcode::Binary, &[0u8; 126], None);
    assert_eq!(&medium[..4], &[0x82, 126, 0x00, 0x7e]);
    assert_eq!(medium.len(), 130);
    let edge = encode_frame(Opcode::Binary, &vec![0u8; 65535], Some([9, 9, 9, 9]));
    assert_eq!(&edge[..8], &[0x82, 0xfe, 0xff, 0xff, 9, 9, 9, 9]);
    let long = encode_frame(Opcode::Binary, &vec![0u8; 65536], None);
    assert_eq!(&long[..10], &[0x82, 127, 0, 0, 0, 0, 0, 1, 0, 0]);
    assert_eq!(long.len(), 65546);
}

#[test]
fn what_is_written_is_read_back() {
    for size in [0usize, 1, 125, 126, 127, 65535, 65536, 100_000] {
        for mask in [None, Some([0xde, 0xad, 0xbe, 0xef])] {
            let payload: Vec<u8> = (0..size).map(|i| (i * 7 % 256) as u8).collect();
            let bytes = encode_frame(Opcode::Binary, &payload, mask);
            let (frame, used) = parse_frame(&bytes, LIMIT).unwrap();
            assert_eq!(used, bytes.len());
            assert_eq!(frame, Frame { opcode: Opcode::Binary, mask, payload });
        }
    }
}

fn frame(opcode: Opcode, payload: &[u8]) -> Frame {
    Frame { opcode, mask: None, payload: payload.to_vec() }
}

#[test]
fn data_frames_go_on() {
    let key = [1, 2, 3, 4];
    assert_eq!(
        relay_frame(&frame(Opcode::Text, b"hi"), Direction::BackendToClient, key),
        FrameAction::Forward(vec![0x81, 0x02, b'h', b'i'])
    );
    assert_eq!(
        relay_frame(&frame(Opcode::Binary, b"hi"), Direction::ClientToBackend, key),
        FrameAction::Forward(vec![0x82, 0x82, 1, 2, 3, 4, b'h' ^ 1, b'i' ^ 2])
    );
}

#[test]
fn a_ping_is_answered_and_goes_no_further() {
    let key = [1, 2, 3, 4];
    assert_eq!(
        relay_frame(&frame(Opcode::Ping, b"abc"), Direction::ClientToBackend, key),
        FrameAction::Reply(vec![0x8a, 0x03, b'a', b'b', b'c'])
    );
    assert_eq!(
        relay_frame(&frame(Opcode::Ping, b"abc"), Direction::BackendToClient, key),
        FrameAction::Reply(vec![0x8a, 0x83, 1, 2, 3, 4, b'a' ^ 1, b'b' ^ 2, b'c' ^ 3])
    );
}

#[test]
fn a_pong_is_dropped() {
    for d in [Direction::ClientToBackend, Direction::BackendToClient] {
        assert_eq!(relay_frame(&frame(Opcode::Pong, b"abc"), d, [0; 4]), FrameAction::Ignore);
    }
}

#[test]
fn a_close_goes_on_and_ends_the_relay() {
    assert_eq!(
        relay_frame(&frame(Opcode::Close, &[0x03, 0xe8]), Direction::BackendToClient, [0; 4]),
        FrameAction::Close(vec![0x88, 0x02, 0x03, 0xe8])
    );
    assert_eq!(
        relay_frame(&frame(Opcode::Close, &[0x03, 0xe8]), Direction::ClientToBackend, [5, 6, 7, 8]),
        FrameAction::Close(vec![0x88, 0x82, 5, 6, 7, 8, 0x03 ^ 5, 0xe8 ^ 6])
    );
}

#[test]
fn what_goes_to_the_backend_is_masked_and_what_goes_to_the_client_is_not() {
    let key = [0x11, 0x22, 0x33, 0x44];
    for op in [Opcode::Text, Opcode::Binary, Opcode::Close] {
        match relay_frame(&frame(op, b"x"), Direction::ClientToBackend, key) {
            FrameAction::Forward(b) | FrameAction::Close(b) => assert_eq!(b[1] & 0x80, 0x80),
            other => panic!("{:?}", other),
        }
        match relay_frame(&frame(op, b"x"), Direction::BackendToClient, key) {
            FrameAction::Forward(b) | FrameAction::Close(b) => assert_eq!(b[1] & 0x80, 0),
            other => panic!("{:?}", other),
        }
    }
}
