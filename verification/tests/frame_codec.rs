use websocket_engine::frame::{DecodeError, OpCode, WebSocketFrame, WebSocketFrameHeader};

fn text_of(len: usize) -> String {
    "x".repeat(len)
}

fn round_trip(len: usize) {
    let text = text_of(len);
    let frame = WebSocketFrame::from(text.as_str());
    assert!(frame.is_well_formed());
    let mut wire: Vec<u8> = Vec::new();
    frame.write(&mut wire);
    let (back, used) = WebSocketFrame::read(&wire).unwrap();
    assert_eq!(used, wire.len());
    assert_eq!(back.get_opcode(), OpCode::TextFrame);
    assert_eq!(back.payload, text.as_bytes().to_vec());
    assert_eq!(back.header, frame.header);
    assert_eq!(back.mask, None);
}

#[test]
fn round_trip_empty() {
    round_trip(0);
}

#[test]
fn round_trip_one_byte() {
    round_trip(1);
}

#[test]
fn round_trip_125() {
    round_trip(125);
}

#[test]
fn round_trip_126() {
    round_trip(126);
}

#[test]
fn round_trip_65534() {
    round_trip(65534);
}

#[test]
fn round_trip_65535() {
    round_trip(65535);
}

#[test]
fn round_trip_65536() {
    round_trip(65536);
}

#[test]
fn round_trip_keeps_opcode_of_pong_and_close() {
    let ping = WebSocketFrame::from("abc");
    let pong = WebSocketFrame::pong(&ping);
    let mut wire: Vec<u8> = Vec::new();
    pong.write(&mut wire);
    let (back, _) = WebSocketFrame::read(&wire).unwrap();
    assert_eq!(back.get_opcode(), OpCode::Pong);
    assert_eq!(back.payload, b"abc".to_vec());

    let close = WebSocketFrame::close_from(&WebSocketFrame::from("\u{3}\u{7f}reason"));
    let mut wire: Vec<u8> = Vec::new();
    close.write(&mut wire);
    let (back, _) = WebSocketFrame::read(&wire).unwrap();
    assert_eq!(back.get_opcode(), OpCode::ConnectionClose);
    assert_eq!(back.payload, vec![0x03, 0x7f]);
}

#[test]
fn length_code_selection() {
    assert_eq!(WebSocketFrameHeader::determine_len(0), 0);
    assert_eq!(WebSocketFrameHeader::determine_len(125), 125);
    assert_eq!(WebSocketFrameHeader::determine_len(126), 126);
    assert_eq!(WebSocketFrameHeader::determine_len(65534), 126);
    assert_eq!(WebSocketFrameHeader::determine_len(65535), 127);
    assert_eq!(WebSocketFrameHeader::determine_len(65536), 127);
}

#[test]
fn new_header_is_final_and_unmasked() {
    let header = WebSocketFrameHeader::new_header(300, OpCode::BinaryFrame);
    assert_eq!(
        header,
        WebSocketFrameHeader {
            fin: true,
            rsv1: false,
            rsv2: false,
            rsv3: false,
            masked: false,
            opcode: OpCode::BinaryFrame,
            payload_length: 126,
        }
    );
}

#[test]
fn opcode_numbers() {
    assert_eq!(OpCode::from(1), Some(OpCode::TextFrame));
    assert_eq!(OpCode::from(2), Some(OpCode::BinaryFrame));
    assert_eq!(OpCode::from(8), Some(OpCode::ConnectionClose));
    assert_eq!(OpCode::from(9), Some(OpCode::Ping));
    assert_eq!(OpCode::from(0xA), Some(OpCode::Pong));
    assert_eq!(OpCode::from(0), None);
    assert_eq!(OpCode::from(3), None);
    assert_eq!(OpCode::from(0xB), None);
    assert_eq!(OpCode::from(255), None);
    assert_eq!(OpCode::TextFrame.code(), 1);
    assert_eq!(OpCode::BinaryFrame.code(), 2);
    assert_eq!(OpCode::ConnectionClose.code(), 8);
    assert_eq!(OpCode::Ping.code(), 9);
    assert_eq!(OpCode::Pong.code(), 0xA);
}

#[test]
fn opcode_number_is_recognized_again() {
    for op in [
        OpCode::TextFrame,
        OpCode::BinaryFrame,
        OpCode::ConnectionClose,
        OpCode::Ping,
        OpCode::Pong,
    ] {
        assert_eq!(OpCode::from(op.code()), Some(op));
    }
}

#[test]
fn invalid_opcodes_are_rejected() {
    assert_eq!(
        WebSocketFrame::parse_header(0x8300),
        Err(DecodeError::InvalidOpcode(3))
    );
    assert_eq!(
        WebSocketFrame::parse_header(0x8400),
        Err(DecodeError::InvalidOpcode(4))
    );
    assert_eq!(
        WebSocketFrame::parse_header(0x8B00),
        Err(DecodeError::InvalidOpcode(0xB))
    );
    assert_eq!(
        WebSocketFrame::parse_header(0x8F00),
        Err(DecodeError::InvalidOpcode(0xF))
    );
    assert_eq!(
        WebSocketFrame::read(&[0x83, 0x00]).map(|(_, used)| used),
        Err(DecodeError::InvalidOpcode(3))
    );
    assert_eq!(
        WebSocketFrame::read(&[0x0F, 0x01, 0x00]).map(|(_, used)| used),
        Err(DecodeError::InvalidOpcode(0xF))
    );
}

#[test]
fn valid_opcodes_are_accepted() {
    let cases: [(u16, OpCode); 5] = [
        (0x8100, OpCode::TextFrame),
        (0x8200, OpCode::BinaryFrame),
        (0x8800, OpCode::ConnectionClose),
        (0x8900, OpCode::Ping),
        (0x8A00, OpCode::Pong),
    ];
    for (word, opcode) in cases {
        let header = WebSocketFrame::parse_header(word).unwrap();
        assert_eq!(header.opcode, opcode);
        let wire = [(word >> 8) as u8, 0u8];
        let (frame, used) = WebSocketFrame::read(&wire).unwrap();
        assert_eq!(frame.get_opcode(), opcode);
        assert_eq!(used, 2);
    }
}

#[test]
fn header_bits() {
    let header = WebSocketFrame::parse_header(0b1010_1001_1000_0101).unwrap();
    assert_eq!(
        header,
        WebSocketFrameHeader {
            fin: true,
            rsv1: false,
            rsv2: true,
            rsv3: false,
            masked: true,
            opcode: OpCode::Ping,
            payload_length: 5,
        }
    );
    let header = WebSocketFrame::parse_header(0b0101_0010_0111_1111).unwrap();
    assert_eq!(
        header,
        WebSocketFrameHeader {
            fin: false,
            rsv1: true,
            rsv2: false,
            rsv3: true,
            masked: false,
            opcode: OpCode::BinaryFrame,
            payload_length: 127,
        }
    );
}

#[test]
fn header_word_round_trip() {
    for word in [0x8100u16, 0x8985, 0x0A7E, 0xF2FF, 0x1801, 0x827F] {
        let header = WebSocketFrame::parse_header(word).unwrap();
        assert_eq!(WebSocketFrame::serialize_header(&header), word);
    }
    let header = WebSocketFrameHeader::new_header(70000, OpCode::TextFrame);
    assert_eq!(WebSocketFrame::serialize_header(&header), 0x817F);
    assert_eq!(
        WebSocketFrame::parse_header(WebSocketFrame::serialize_header(&header)),
        Ok(header)
    );
}

#[test]
fn serialize_header_keeps_seven_bits_of_length_code() {
    let header = WebSocketFrameHeader {
        fin: false,
        rsv1: false,
        rsv2: false,
        rsv3: false,
        masked: false,
        opcode: OpCode::TextFrame,
        payload_length: 0x85,
    };
    assert_eq!(WebSocketFrame::serialize_header(&header), 0x0105);
}

#[test]
fn exact_wire_bytes_short() {
    let frame = WebSocketFrame::from("hi there!");
    let mut wire: Vec<u8> = Vec::new();
    frame.write(&mut wire);
    assert_eq!(
        wire,
        vec![0x81, 9, b'h', b'i', b' ', b't', b'h', b'e', b'r', b'e', b'!']
    );
}

#[test]
fn exact_wire_bytes_sixteen_bit_length() {
    let frame = WebSocketFrame::from(text_of(300).as_str());
    let mut wire: Vec<u8> = Vec::new();
    frame.write(&mut wire);
    assert_eq!(wire.len(), 304);
    assert_eq!(&wire[..4], &[0x81, 0x7E, 0x01, 0x2C]);
    assert!(wire[4..].iter().all(|b| *b == b'x'));
}

#[test]
fn exact_wire_bytes_sixty_four_bit_length() {
    let frame = WebSocketFrame::from(text_of(65535).as_str());
    let mut wire: Vec<u8> = Vec::new();
    frame.write(&mut wire);
    assert_eq!(wire.len(), 65535 + 10);
    assert_eq!(&wire[..10], &[0x81, 0x7F, 0, 0, 0, 0, 0, 0, 0xFF, 0xFF]);

    let frame = WebSocketFrame::from(text_of(0x01_02_03).as_str());
    let mut wire: Vec<u8> = Vec::new();
    frame.write(&mut wire);
    assert_eq!(&wire[..10], &[0x81, 0x7F, 0, 0, 0, 0, 0, 1, 2, 3]);
}

#[test]
fn write_appends_to_what_is_there() {
    let mut wire: Vec<u8> = vec![0xAA, 0xBB];
    WebSocketFrame::from("a").write(&mut wire);
    WebSocketFrame::from("").write(&mut wire);
    assert_eq!(wire, vec![0xAA, 0xBB, 0x81, 1, b'a', 0x81, 0]);
}

#[test]
fn write_never_emits_a_mask_key() {
    let (frame, _) = WebSocketFrame::read(&[0x81, 0x81, 1, 2, 3, 4, b'a' ^ 1]).unwrap();
    assert_eq!(frame.payload, vec![b'a']);
    let mut wire: Vec<u8> = Vec::new();
    frame.write(&mut wire);
    assert_eq!(wire, vec![0x81, 0x81, b'a']);
}

#[test]
fn decode_masked_text() {
    let wire = [
        0x81, 0x85, 0x37, 0xfa, 0x21, 0x3d, 0x7f, 0x9f, 0x4d, 0x51, 0x58,
    ];
    let (frame, used) = WebSocketFrame::read(&wire).unwrap();
    assert_eq!(used, 11);
    assert_eq!(frame.get_opcode(), OpCode::TextFrame);
    assert_eq!(frame.mask, Some([0x37, 0xfa, 0x21, 0x3d]));
    assert_eq!(frame.payload, b"Hello".to_vec());
    assert!(frame.header.masked);
    assert!(frame.header.fin);
    assert_eq!(frame.header.payload_length, 5);
    assert!(frame.is_well_formed());
}

#[test]
fn decode_sixteen_bit_length() {
    let mut wire = vec![0x82, 0x7E, 0x01, 0x00];
    wire.extend(std::iter::repeat(7u8).take(256));
    wire.extend([1u8, 2, 3]);
    let (frame, used) = WebSocketFrame::read(&wire).unwrap();
    assert_eq!(used, 260);
    assert_eq!(frame.get_opcode(), OpCode::BinaryFrame);
    assert_eq!(frame.payload, vec![7u8; 256]);
    assert_eq!(frame.header.payload_length, 126);
}

#[test]
fn decode_sixty_four_bit_length() {
    let mut wire = vec![0x82, 0x7F, 0, 0, 0, 0, 0, 0, 0x01, 0x02];
    wire.extend(std::iter::repeat(9u8).take(258));
    let (frame, used) = WebSocketFrame::read(&wire).unwrap();
    assert_eq!(used, 268);
    assert_eq!(frame.payload, vec![9u8; 258]);
    assert_eq!(frame.header.payload_length, 127);
}

#[test]
fn decode_accepts_a_longer_length_field_than_needed() {
    let wire = [0x81, 0x7E, 0x00, 0x03, b'a', b'b', b'c'];
    let (frame, used) = WebSocketFrame::read(&wire).unwrap();
    assert_eq!(used, 7);
    assert_eq!(frame.payload, b"abc".to_vec());
    assert_eq!(frame.header.payload_length, 126);
    assert!(frame.is_well_formed());
}

#[test]
fn decode_masked_with_extended_length() {
    let key = [0x10u8, 0x20, 0x30, 0x40];
    let mut wire = vec![0x82, 0xFE, 0x00, 0x80];
    wire.extend(key);
    for i in 0..128usize {
        wire.push((i as u8) ^ key[i % 4]);
    }
    let (frame, used) = WebSocketFrame::read(&wire).unwrap();
    assert_eq!(used, 136);
    assert_eq!(frame.mask, Some(key));
    assert_eq!(frame.payload, (0..128u8).collect::<Vec<u8>>());
}

#[test]
fn decode_leaves_what_follows_the_frame() {
    let wire = [0x89, 0x01, b'p', 0x8A, 0x00];
    let (first, used) = WebSocketFrame::read(&wire).unwrap();
    assert_eq!(used, 3);
    assert_eq!(first.get_opcode(), OpCode::Ping);
    let (second, used) = WebSocketFrame::read(&wire[3..]).unwrap();
    assert_eq!(used, 2);
    assert_eq!(second.get_opcode(), OpCode::Pong);
    assert!(second.payload.is_empty());
}

#[test]
fn truncated_input_is_reported() {
    let truncated = |wire: &[u8]| {
        assert_eq!(
            WebSocketFrame::read(wire).map(|(_, used)| used),
            Err(DecodeError::Truncated)
        );
    };
    truncated(&[]);
    truncated(&[0x81]);
    truncated(&[0x81, 0x7E]);
    truncated(&[0x81, 0x7E, 0x00]);
    truncated(&[0x81, 0x7F, 0, 0, 0, 0, 0, 0, 0]);
    truncated(&[0x81, 0x81]);
    truncated(&[0x81, 0x81, 1, 2, 3]);
    truncated(&[0x81, 0x81, 1, 2, 3, 4]);
    truncated(&[0x81, 0x03, b'a', b'b']);
    truncated(&[
        0x81, 0x7F, 0xFF, 0xFF, 0xFF, 0xFF, 0xFF, 0xFF, 0xFF, 0xFF, 1, 2, 3,
    ]);
}

#[test]
fn invalid_opcode_wins_over_truncation() {
    assert_eq!(
        WebSocketFrame::read(&[0x83, 0x7F]).map(|(_, used)| used),
        Err(DecodeError::InvalidOpcode(3))
    );
}

#[test]
fn read_pieces() {
    assert_eq!(WebSocketFrame::read_length(5, &[]), Ok(5));
    assert_eq!(WebSocketFrame::read_length(125, &[9, 9]), Ok(125));
    assert_eq!(WebSocketFrame::read_length(126, &[0x12, 0x34, 0x56]), Ok(0x1234));
    assert_eq!(WebSocketFrame::read_length(126, &[0x12]), Err(DecodeError::Truncated));
    assert_eq!(
        WebSocketFrame::read_length(127, &[1, 2, 3, 4, 5, 6, 7, 8, 9]),
        Ok(0x0102_0304_0506_0708)
    );
    assert_eq!(
        WebSocketFrame::read_length(127, &[1, 2, 3, 4, 5, 6, 7]),
        Err(DecodeError::Truncated)
    );
    assert_eq!(WebSocketFrame::read_mask(&[1, 2, 3, 4, 5]), Ok([1, 2, 3, 4]));
    assert_eq!(WebSocketFrame::read_mask(&[1, 2, 3]), Err(DecodeError::Truncated));
    assert_eq!(WebSocketFrame::read_payload(2, &[7, 8, 9]), Ok(vec![7, 8]));
    assert_eq!(WebSocketFrame::read_payload(0, &[]), Ok(vec![]));
    assert_eq!(
        WebSocketFrame::read_payload(4, &[7, 8, 9]),
        Err(DecodeError::Truncated)
    );
}

#[test]
fn masking_xors_with_the_key_in_turn() {
    let mut bytes = vec![0u8, 0, 0, 0, 0, 0xFF];
    WebSocketFrame::apply_mask([1, 2, 3, 4], &mut bytes);
    assert_eq!(bytes, vec![1, 2, 3, 4, 1, 0xFF ^ 2]);
}

#[test]
fn masking_twice_restores_the_bytes() {
    let plain: Vec<u8> = (0..=255u8).chain(0..7u8).collect();
    for key in [[0u8, 0, 0, 0], [0xFF, 0xFF, 0xFF, 0xFF], [0x37, 0xfa, 0x21, 0x3d]] {
        let mut bytes = plain.clone();
        WebSocketFrame::apply_mask(key, &mut bytes);
        if key != [0, 0, 0, 0] {
            assert_ne!(bytes, plain);
        }
        WebSocketFrame::apply_mask(key, &mut bytes);
        assert_eq!(bytes, plain);
    }
    let mut empty: Vec<u8> = Vec::new();
    WebSocketFrame::apply_mask([1, 2, 3, 4], &mut empty);
    assert!(empty.is_empty());
}

#[test]
fn text_frame_from_str() {
    let frame = WebSocketFrame::from("h\u{e9}");
    assert_eq!(frame.get_opcode(), OpCode::TextFrame);
    assert_eq!(frame.payload, vec![b'h', 0xC3, 0xA9]);
    assert_eq!(frame.mask, None);
    assert_eq!(
        frame.header,
        WebSocketFrameHeader::new_header(3, OpCode::TextFrame)
    );
    assert!(!frame.is_close());
}

#[test]
fn pong_copies_the_payload() {
    let (ping, _) = WebSocketFrame::read(&[0x89, 0x83, 1, 2, 3, 4, b'a' ^ 1, b'b' ^ 2, b'c' ^ 3])
        .unwrap();
    let pong = WebSocketFrame::pong(&ping);
    assert_eq!(pong.get_opcode(), OpCode::Pong);
    assert_eq!(pong.payload, b"abc".to_vec());
    assert_eq!(pong.mask, None);
    assert_eq!(pong.header, WebSocketFrameHeader::new_header(3, OpCode::Pong));
    assert!(pong.is_well_formed());
}

#[test]
fn close_echoes_the_status_code() {
    let close_of = |payload: &[u8]| {
        let mut wire = vec![0x88, payload.len() as u8];
        wire.extend_from_slice(payload);
        let (received, _) = WebSocketFrame::read(&wire).unwrap();
        WebSocketFrame::close_from(&received)
    };
    let close = close_of(&[0x03, 0xE8, b'b', b'y', b'e']);
    assert!(close.is_close());
    assert_eq!(close.get_opcode(), OpCode::ConnectionClose);
    assert_eq!(close.payload, vec![0x03, 0xE8]);
    assert_eq!(close.header.payload_length, 2);
    assert_eq!(close.mask, None);
    assert_eq!(close_of(&[0x03, 0xE8]).payload, vec![0x03, 0xE8]);
    assert_eq!(close_of(&[]).payload, Vec::<u8>::new());
    assert_eq!(close_of(&[0x03]).payload, Vec::<u8>::new());
    assert_eq!(close_of(&[]).header.payload_length, 0);
}

#[test]
fn well_formedness_follows_the_payload() {
    let mut frame = WebSocketFrame::from("abc");
    assert!(frame.is_well_formed());
    frame.payload.push(b'd');
    assert!(!frame.is_well_formed());
    frame.header.payload_length = 126;
    assert!(frame.is_well_formed());
    frame.header.payload_length = 127;
    assert!(frame.is_well_formed());
    frame.header.masked = true;
    assert!(!frame.is_well_formed());
    frame.mask = Some([0, 0, 0, 0]);
    assert!(frame.is_well_formed());
    frame.header.payload_length = 200;
    assert!(!frame.is_well_formed());
}

#[test]
fn missing_counts_what_is_still_to_come() {
    assert_eq!(WebSocketFrame::missing(&[]), 2);
    assert_eq!(WebSocketFrame::missing(&[0x81]), 1);
    assert_eq!(WebSocketFrame::missing(&[0x81, 0x00]), 0);
    assert_eq!(WebSocketFrame::missing(&[0x81, 0x05]), 5);
    assert_eq!(WebSocketFrame::missing(&[0x81, 0x85]), 9);
    assert_eq!(WebSocketFrame::missing(&[0x81, 0x85, 1, 2, 3, 4, 5, 6]), 3);
    assert_eq!(WebSocketFrame::missing(&[0x81, 0x7E]), 2);
    assert_eq!(WebSocketFrame::missing(&[0x81, 0x7E, 0x01]), 1);
    assert_eq!(WebSocketFrame::missing(&[0x81, 0x7E, 0x01, 0x00]), 256);
    assert_eq!(WebSocketFrame::missing(&[0x81, 0xFF]), 8);
    assert_eq!(
        WebSocketFrame::missing(&[0x81, 0xFF, 0, 0, 0, 0, 0, 1, 0, 0]),
        65536 + 4
    );
    assert_eq!(WebSocketFrame::missing(&[0x83, 0x05]), 0);
    assert_eq!(WebSocketFrame::missing(&[0x81, 0x01, b'a', b'b']), 0);
    assert_eq!(
        WebSocketFrame::missing(&[0x81, 0x7F, 0xFF, 0xFF, 0xFF, 0xFF, 0xFF, 0xFF, 0xFF, 0xFF]),
        usize::MAX
    );
}

#[test]
fn reading_as_missing_tells_reaches_a_frame() {
    let mut source: Vec<u8> = Vec::new();
    WebSocketFrame::from(text_of(1000).as_str()).write(&mut source);
    let mut taken: Vec<u8> = Vec::new();
    let mut rounds = 0;
    loop {
        let n = WebSocketFrame::missing(&taken);
        if n == 0 {
            break;
        }
        assert_eq!(
            WebSocketFrame::read(&taken).map(|(_, used)| used),
            Err(DecodeError::Truncated)
        );
        let from = taken.len();
        taken.extend_from_slice(&source[from..from + n]);
        rounds += 1;
    }
    assert_eq!(rounds, 3);
    assert_eq!(taken, source);
    let (frame, used) = WebSocketFrame::read(&taken).unwrap();
    assert_eq!(used, 1004);
    assert_eq!(frame.payload.len(), 1000);
}

#[test]
fn written_length_code_follows_the_payload() {
    let mut frame = WebSocketFrame::from("abc");
    assert_eq!(frame.header.payload_length, 3);
    frame.payload = vec![b'y'; 200];
    let mut wire: Vec<u8> = Vec::new();
    frame.write(&mut wire);
    assert_eq!(wire.len(), 204);
    assert_eq!(&wire[..4], &[0x81, 0x7E, 0x00, 0xC8]);
    assert_eq!(wire[1] & 0x7F, WebSocketFrameHeader::determine_len(200));
    let (back, used) = WebSocketFrame::read(&wire).unwrap();
    assert_eq!(used, 204);
    assert_eq!(back.payload, vec![b'y'; 200]);
    assert_eq!(back.get_opcode(), OpCode::TextFrame);
    assert_eq!(back.header.payload_length, 126);
}

#[test]
fn written_length_code_shrinks_with_the_payload() {
    let mut frame = WebSocketFrame::from(text_of(300).as_str());
    assert_eq!(frame.header.payload_length, 126);
    frame.payload.truncate(5);
    let mut wire: Vec<u8> = Vec::new();
    frame.write(&mut wire);
    assert_eq!(wire, vec![0x81, 5, b'x', b'x', b'x', b'x', b'x']);

    frame.payload = vec![b'z'; 65536];
    let mut wire: Vec<u8> = Vec::new();
    frame.write(&mut wire);
    assert_eq!(wire.len(), 65536 + 10);
    assert_eq!(&wire[..10], &[0x81, 0x7F, 0, 0, 0, 0, 0, 1, 0, 0]);
    let (back, used) = WebSocketFrame::read(&wire).unwrap();
    assert_eq!(used, wire.len());
    assert_eq!(back.payload.len(), 65536);
}

#[test]
fn a_decoded_frame_is_written_with_the_shortest_fitting_code() {
    let wire = [0x81, 0x7E, 0x00, 0x03, b'a', b'b', b'c'];
    let (frame, _) = WebSocketFrame::read(&wire).unwrap();
    assert_eq!(frame.header.payload_length, 126);
    let mut out: Vec<u8> = Vec::new();
    frame.write(&mut out);
    assert_eq!(out, vec![0x81, 3, b'a', b'b', b'c']);
}

#[test]
fn length_code_out_of_range_does_not_reach_the_wire() {
    let mut frame = WebSocketFrame::from("ab");
    frame.header.payload_length = 0xFF;
    let mut wire: Vec<u8> = Vec::new();
    frame.write(&mut wire);
    assert_eq!(wire, vec![0x81, 2, b'a', b'b']);
}
