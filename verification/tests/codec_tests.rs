use websockets::codec::{
    apply_mask, assemble_frame, be16_bytes, be16_value, be64_bytes, be64_value, encode_frame,
    length_field_bytes, parse_first_byte, parse_length_byte, LengthField,
};
use websockets::error::WebSocketError;
use websockets::frame::{Frame, FrameType};

fn key() -> Vec<u8> {
    vec![0x11, 0x22, 0x33, 0x44]
}

#[test]
fn masking_round_trip_restores_payload() {
    let original: Vec<u8> = (0u8..=255).collect();
    let mut masked = original.clone();
    apply_mask(&mut masked, &key());
    assert_ne!(masked, original);
    apply_mask(&mut masked, &key());
    assert_eq!(masked, original);
}

#[test]
fn masking_xors_with_key_bytes() {
    let mut payload = vec![0x00, 0x00, 0x00, 0x00, 0xFF];
    apply_mask(&mut payload, &key());
    assert_eq!(payload, vec![0x11, 0x22, 0x33, 0x44, 0xFF ^ 0x11]);
}

#[test]
fn big_endian_round_trips() {
    let two = be16_bytes(0x012C);
    assert_eq!(two, vec![0x01, 0x2C]);
    assert_eq!(be16_value(two[0], two[1]), 0x012C);

    let eight = be64_bytes(66000);
    assert_eq!(eight, vec![0, 0, 0, 0, 0, 1, 0x01, 0xD0]);
    assert_eq!(be64_value(&eight), 66000);

    assert_eq!(be64_value(&be64_bytes(u64::MAX)), u64::MAX);
}

#[test]
fn length_field_forms() {
    assert_eq!(length_field_bytes(0), vec![0]);
    assert_eq!(length_field_bytes(3), vec![3]);
    assert_eq!(length_field_bytes(125), vec![125]);
    assert_eq!(length_field_bytes(126), vec![126, 0x00, 0x7E]);
    assert_eq!(length_field_bytes(300), vec![126, 0x01, 0x2C]);
    assert_eq!(length_field_bytes(65535), vec![126, 0xFF, 0xFF]);
    assert_eq!(
        length_field_bytes(65536),
        vec![127, 0, 0, 0, 0, 0, 1, 0, 0]
    );
    assert_eq!(
        length_field_bytes(66000),
        vec![127, 0, 0, 0, 0, 0, 1, 0x01, 0xD0]
    );
}

#[test]
fn encode_short_text_frame() {
    let frame = Frame::text("aaa".to_string());
    let bytes = encode_frame(&frame, &key()).unwrap();
    // FIN set, opcode text; mask bit set, length 3
    assert_eq!(bytes[0], 0x81);
    assert_eq!(bytes[1], 0x83);
    assert_eq!(bytes[1] & 0x7F, 3);
    assert_eq!(bytes[2..6].to_vec(), vec![0x11, 0x22, 0x33, 0x44]);
    assert_eq!(bytes[6], b'a' ^ 0x11);
    assert_eq!(bytes[7], b'a' ^ 0x22);
    assert_eq!(bytes[8], b'a' ^ 0x33);
    assert_eq!(bytes.len(), 9);
}

#[test]
fn encode_medium_text_frame_uses_sixteen_bit_length() {
    let frame = Frame::text("a".repeat(300));
    let bytes = encode_frame(&frame, &key()).unwrap();
    assert_eq!(bytes[0], 0x81);
    assert_eq!(bytes[1], 0x80 | 126);
    assert_eq!(bytes[2], 0x01);
    assert_eq!(bytes[3], 0x2C);
    assert_eq!(bytes.len(), 2 + 2 + 4 + 300);
}

#[test]
fn encode_large_text_frame_uses_sixty_four_bit_length() {
    let frame = Frame::text("a".repeat(66000));
    let bytes = encode_frame(&frame, &key()).unwrap();
    assert_eq!(bytes[0], 0x81);
    assert_eq!(bytes[1], 0x80 | 127);
    assert_eq!(bytes[2..10].to_vec(), vec![0, 0, 0, 0, 0, 1, 0x01, 0xD0]);
    assert_eq!(bytes.len(), 2 + 8 + 4 + 66000);
}

#[test]
fn encode_continuation_and_fin_bits() {
    let frame = Frame::text("x".to_string()).set_continuation(true).set_fin(false);
    let bytes = encode_frame(&frame, &key()).unwrap();
    assert_eq!(bytes[0], 0x00);

    let frame = Frame::binary(vec![5]).set_fin(false);
    let bytes = encode_frame(&frame, &key()).unwrap();
    assert_eq!(bytes[0], 0x02);
}

#[test]
fn encode_close_frame_payload() {
    let frame = Frame::close(Some((1000, "bye".to_string())));
    let bytes = encode_frame(&frame, &key()).unwrap();
    assert_eq!(bytes[0], 0x88);
    assert_eq!(bytes[1], 0x80 | 5);
    let mut payload = bytes[6..].to_vec();
    apply_mask(&mut payload, &key());
    assert_eq!(payload, vec![0x03, 0xE8, b'b', b'y', b'e']);
}

#[test]
fn control_frame_payload_over_125_fails() {
    let ping = Frame::ping(Some(vec![0u8; 126]));
    assert!(matches!(
        encode_frame(&ping, &key()),
        Err(WebSocketError::ControlFrameTooLargeError)
    ));
    let close = Frame::close(Some((1000, "x".repeat(124))));
    assert!(matches!(
        encode_frame(&close, &key()),
        Err(WebSocketError::ControlFrameTooLargeError)
    ));
    let pong = Frame::pong(Some(vec![0u8; 125]));
    assert!(encode_frame(&pong, &key()).is_ok());
}

#[test]
fn parse_first_byte_splits_fin_and_opcode() {
    assert_eq!(parse_first_byte(0x81), (true, 0x1));
    assert_eq!(parse_first_byte(0x02), (false, 0x2));
    assert_eq!(parse_first_byte(0x88), (true, 0x8));
    assert_eq!(parse_first_byte(0x0A), (false, 0xA));
}

#[test]
fn masked_server_frame_is_rejected() {
    for b in [0x80u8, 0x83, 0xFE, 0xFF] {
        assert!(matches!(
            parse_length_byte(b),
            Err(WebSocketError::ReceivedMaskedFrameError)
        ));
    }
    assert!(matches!(parse_length_byte(3), Ok(LengthField::Direct(3))));
    assert!(matches!(parse_length_byte(125), Ok(LengthField::Direct(125))));
    assert!(matches!(parse_length_byte(126), Ok(LengthField::Extended16)));
    assert!(matches!(parse_length_byte(127), Ok(LengthField::Extended64)));
}

#[test]
fn continuation_without_context_is_invalid() {
    let r = assemble_frame(true, 0x0, vec![b'a'], FrameType::Control);
    assert!(matches!(r, Err(WebSocketError::InvalidFrameError)));
}

#[test]
fn continuation_inherits_stored_type() {
    let r = assemble_frame(false, 0x0, vec![b'h', b'i'], FrameType::Text).unwrap();
    match r {
        Frame::Text { payload, continuation, fin } => {
            assert_eq!(payload, "hi");
            assert!(continuation);
            assert!(!fin);
        }
        other => panic!("expected text frame, got {:?}", other),
    }

    let r = assemble_frame(true, 0x0, vec![1, 2], FrameType::Binary).unwrap();
    match r {
        Frame::Binary { payload, continuation, fin } => {
            assert_eq!(payload, vec![1, 2]);
            assert!(continuation);
            assert!(fin);
        }
        other => panic!("expected binary frame, got {:?}", other),
    }
}

#[test]
fn assemble_text_and_binary() {
    let r = assemble_frame(true, 0x1, "hello".as_bytes().to_vec(), FrameType::Control).unwrap();
    assert_eq!(r.as_text().unwrap().0, "hello");
    assert!(!r.as_text().unwrap().1);

    let r = assemble_frame(true, 0x2, vec![9, 9], FrameType::Control).unwrap();
    assert_eq!(r.as_binary().unwrap().0, &vec![9, 9]);
}

#[test]
fn assemble_text_requires_utf8() {
    let r = assemble_frame(true, 0x1, vec![0xFF, 0xFE], FrameType::Control);
    assert!(matches!(r, Err(WebSocketError::InvalidFrameError)));
    let r = assemble_frame(true, 0x0, vec![0xFF, 0xFE], FrameType::Text);
    assert!(matches!(r, Err(WebSocketError::InvalidFrameError)));
}

#[test]
fn assemble_close_frames() {
    let r = assemble_frame(true, 0x8, vec![], FrameType::Control).unwrap();
    assert!(matches!(r, Frame::Close { payload: None }));

    let r = assemble_frame(true, 0x8, vec![0x03], FrameType::Control);
    assert!(matches!(r, Err(WebSocketError::InvalidFrameError)));

    let r = assemble_frame(true, 0x8, vec![0x03, 0xE8, b'o', b'k'], FrameType::Control).unwrap();
    let (code, reason) = r.into_close().unwrap();
    assert_eq!(code, 1000);
    assert_eq!(reason, "ok");

    let r = assemble_frame(true, 0x8, vec![0x03, 0xE8, 0xFF], FrameType::Control);
    assert!(matches!(r, Err(WebSocketError::InvalidFrameError)));
}

#[test]
fn assemble_ping_pong_payloads() {
    assert!(matches!(
        assemble_frame(true, 0x9, vec![], FrameType::Control).unwrap(),
        Frame::Ping { payload: None }
    ));
    assert_eq!(
        assemble_frame(true, 0x9, vec![0xAB], FrameType::Control)
            .unwrap()
            .into_ping()
            .unwrap(),
        vec![0xAB]
    );
    assert!(matches!(
        assemble_frame(true, 0xA, vec![], FrameType::Control).unwrap(),
        Frame::Pong { payload: None }
    ));
    assert_eq!(
        assemble_frame(true, 0xA, vec![0xCD], FrameType::Control)
            .unwrap()
            .into_pong()
            .unwrap(),
        vec![0xCD]
    );
}

#[test]
fn reserved_opcodes_are_invalid() {
    for opcode in [0x3u8, 0x4, 0x5, 0x6, 0x7, 0xB, 0xC, 0xD, 0xE, 0xF] {
        let r = assemble_frame(true, opcode, vec![], FrameType::Text);
        assert!(matches!(r, Err(WebSocketError::InvalidFrameError)));
    }
}

#[test]
fn encode_decode_round_trip() {
    let frame = Frame::text("round trip".to_string());
    let bytes = encode_frame(&frame, &key()).unwrap();

    let (fin, opcode) = parse_first_byte(bytes[0]);
    let form = parse_length_byte(bytes[1] & 0x7F).unwrap();
    let len = match form {
        LengthField::Direct(n) => n as usize,
        _ => panic!("short payload expected"),
    };
    let frame_key = bytes[2..6].to_vec();
    let mut payload = bytes[6..6 + len].to_vec();
    apply_mask(&mut payload, &frame_key);
    let decoded = assemble_frame(fin, opcode, payload, FrameType::Control).unwrap();
    assert_eq!(decoded.as_text().unwrap().0, "round trip");
}
