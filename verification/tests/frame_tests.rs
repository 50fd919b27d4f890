use websockets::frame::{Frame, FrameType};

#[test]
fn text_constructor_defaults() {
    let frame = Frame::text("hello".to_string());
    assert!(frame.is_text());
    assert!(!frame.is_binary());
    let (payload, continuation, fin) = frame.as_text().unwrap();
    assert_eq!(payload, "hello");
    assert_eq!(*continuation, false);
    assert_eq!(*fin, true);
}

#[test]
fn into_text_returns_parts() {
    let frame = Frame::text("abc".to_string());
    let (payload, continuation, fin) = frame.into_text().unwrap();
    assert_eq!(payload, "abc");
    assert!(!continuation);
    assert!(fin);
    assert!(Frame::binary(vec![1]).into_text().is_none());
}

#[test]
fn binary_constructor_defaults() {
    let frame = Frame::binary(vec![1, 2, 3]);
    assert!(frame.is_binary());
    let (payload, continuation, fin) = frame.as_binary().unwrap();
    assert_eq!(payload, &vec![1, 2, 3]);
    assert!(!*continuation);
    assert!(*fin);
    let (payload, _, _) = frame.into_binary().unwrap();
    assert_eq!(payload, vec![1, 2, 3]);
}

#[test]
fn close_accessors() {
    let frame = Frame::close(Some((1000, "done".to_string())));
    assert!(frame.is_close());
    let (code, reason) = frame.as_close().unwrap();
    assert_eq!(*code, 1000);
    assert_eq!(reason, "done");
    assert_eq!(frame.into_close().unwrap().0, 1000);

    // a Close without a payload reports no payload to read
    let empty = Frame::close(None);
    assert!(!empty.is_close());
    assert!(empty.as_close().is_none());
    assert!(empty.into_close().is_none());
}

#[test]
fn ping_pong_accessors() {
    let ping = Frame::ping(Some(vec![7, 8]));
    assert!(ping.is_ping());
    assert_eq!(ping.as_ping().unwrap(), &vec![7, 8]);
    assert_eq!(ping.into_ping().unwrap(), vec![7, 8]);
    assert!(!Frame::ping(None).is_ping());

    let pong = Frame::pong(Some(vec![9]));
    assert!(pong.is_pong());
    assert_eq!(pong.as_pong().unwrap(), &vec![9]);
    assert_eq!(pong.into_pong().unwrap(), vec![9]);
    assert!(!Frame::pong(None).is_pong());
}

#[test]
fn mutable_accessors_modify_in_place() {
    let mut frame = Frame::text("x".to_string());
    {
        let (payload, continuation, fin) = frame.as_text_mut().unwrap();
        payload.push('y');
        *continuation = true;
        *fin = false;
    }
    let (payload, continuation, fin) = frame.as_text().unwrap();
    assert_eq!(payload, "xy");
    assert!(*continuation);
    assert!(!*fin);

    let mut binary = Frame::binary(vec![1]);
    binary.as_binary_mut().unwrap().0.push(2);
    assert_eq!(binary.as_binary().unwrap().0, &vec![1, 2]);

    let mut close = Frame::close(Some((1000, String::new())));
    close.as_close_mut().unwrap().0 = 1001;
    assert_eq!(close.as_close().unwrap().0, 1001);

    let mut ping = Frame::ping(Some(vec![1]));
    ping.as_ping_mut().unwrap().push(2);
    assert_eq!(ping.as_ping().unwrap(), &vec![1, 2]);

    let mut pong = Frame::pong(Some(vec![3]));
    pong.as_pong_mut().unwrap().push(4);
    assert_eq!(pong.as_pong().unwrap(), &vec![3, 4]);
}

#[test]
fn set_continuation_and_fin() {
    let frame = Frame::text("m".to_string()).set_continuation(true).set_fin(false);
    let (_, continuation, fin) = frame.as_text().unwrap();
    assert!(*continuation);
    assert!(!*fin);

    let frame = Frame::binary(vec![0]).set_continuation(true);
    assert!(*frame.as_binary().unwrap().1);

    // no-ops on control frames
    let close = Frame::close(None).set_continuation(true).set_fin(false);
    assert!(matches!(close, Frame::Close { payload: None }));
}

#[test]
fn opcode_fin_and_control_bits() {
    assert_eq!(Frame::text("a".to_string()).opcode(), 0x1);
    assert_eq!(Frame::text("a".to_string()).set_continuation(true).opcode(), 0x0);
    assert_eq!(Frame::binary(vec![]).opcode(), 0x2);
    assert_eq!(Frame::binary(vec![]).set_continuation(true).opcode(), 0x0);
    assert_eq!(Frame::close(None).opcode(), 0x8);
    assert_eq!(Frame::ping(None).opcode(), 0x9);
    assert_eq!(Frame::pong(None).opcode(), 0xA);

    assert_eq!(Frame::text("a".to_string()).fin(), 0x80);
    assert_eq!(Frame::text("a".to_string()).set_fin(false).fin(), 0x00);
    assert_eq!(Frame::close(None).fin(), 0x80);

    assert!(!Frame::text("a".to_string()).is_control());
    assert!(!Frame::binary(vec![]).is_control());
    assert!(Frame::close(None).is_control());
    assert!(Frame::ping(None).is_control());
    assert!(Frame::pong(None).is_control());
}

#[test]
fn from_conversions() {
    let text: Frame = "hi".to_string().into();
    assert!(text.is_text());
    let binary: Frame = vec![1u8, 2].into();
    assert!(binary.is_binary());
}

#[test]
fn frame_type_default_is_control() {
    assert!(matches!(FrameType::default(), FrameType::Control));
}
