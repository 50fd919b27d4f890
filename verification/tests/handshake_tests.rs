use websockets::error::WebSocketError;
use websockets::handshake::{
    body_length, compute_accept_key, find_header, parse_ascii_usize, parse_header_line,
    parse_status_line, Handshake,
};

fn handshake_with_key(key: &[u8], subprotocols: Vec<String>) -> Handshake {
    Handshake {
        path: "/".to_string(),
        host: "example.com".to_string(),
        key: key.to_vec(),
        additional_headers: Vec::new(),
        subprotocols,
    }
}

fn headers(pairs: &[(&str, &str)]) -> Vec<(Vec<u8>, Vec<u8>)> {
    pairs
        .iter()
        .map(|(field, value)| (field.as_bytes().to_vec(), value.as_bytes().to_vec()))
        .collect()
}

#[test]
fn accept_key_of_canonical_example() {
    // the example exchange of RFC 6455
    let key = b"dGhlIHNhbXBsZSBub25jZQ==".to_vec();
    let accept = compute_accept_key(&key);
    assert_eq!(accept, b"s3pPLMBiTxaQ9kYGzzhZRbK+xOo=".to_vec());
}

#[test]
fn fresh_handshake_key_is_base64_of_sixteen_bytes() {
    let addr = websockets::address::ParsedAddr {
        scheme: websockets::address::Scheme::Plain,
        host: "example.com".to_string(),
        path: "/".to_string(),
        port: 80,
    };
    let first = Handshake::new(&addr, &Vec::new(), &Vec::new());
    let second = Handshake::new(&addr, &Vec::new(), &Vec::new());
    // base64 of 16 bytes is 24 characters
    assert_eq!(first.key.len(), 24);
    assert_eq!(second.key.len(), 24);
    assert_eq!(first.host, "example.com");
    assert_eq!(first.path, "/");
}

#[test]
fn request_bytes_exact() {
    let handshake = handshake_with_key(b"AQIDBAUGBwgJCgsMDQ4PEA==", Vec::new());
    let request = handshake.request_bytes();
    let expected = "GET / HTTP/1.1\r\nHost: example.com\r\nUpgrade: websocket\r\nConnection: Upgrade\r\nSec-WebSocket-Key: AQIDBAUGBwgJCgsMDQ4PEA==\r\nSec-WebSocket-Version: 13\r\n\r\n";
    assert_eq!(String::from_utf8(request).unwrap(), expected);
}

#[test]
fn request_bytes_with_subprotocols_and_extra_headers() {
    let mut handshake = handshake_with_key(
        b"AQIDBAUGBwgJCgsMDQ4PEA==",
        vec!["wamp".to_string(), "soap".to_string()],
    );
    handshake.additional_headers.push(("X-First".to_string(), "1".to_string()));
    handshake.additional_headers.push(("X-Second".to_string(), "2".to_string()));
    let request = handshake.request_bytes();
    let expected = "GET / HTTP/1.1\r\nHost: example.com\r\nUpgrade: websocket\r\nConnection: Upgrade\r\nSec-WebSocket-Key: AQIDBAUGBwgJCgsMDQ4PEA==\r\nSec-WebSocket-Version: 13\r\nSec-WebSocket-Protocol: wamp, soap\r\nX-First: 1\r\nX-Second: 2\r\n\r\n";
    assert_eq!(String::from_utf8(request).unwrap(), expected);
}

#[test]
fn status_line_parsing() {
    let code = parse_status_line(&b"HTTP/1.1 101 Switching Protocols\r\n".to_vec()).unwrap();
    assert_eq!(code, b"101".to_vec());

    let code = parse_status_line(&b"HTTP/1.0 400 Bad Request\r\n".to_vec()).unwrap();
    assert_eq!(code, b"400".to_vec());

    for bad in [
        &b"HTTP/1.1 101\r\n"[..],
        b"HTTP/1.1 101 \r\n",
        b"HTTP/11 101 Ok\r\n",
        b"HTTP/1.1 2000 Ok\r\n",
        b"HTTP/1.1 20 Ok\r\n",
        b"garbage\r\n",
        b"HTTP/1.1 101 Ok",
        b"",
    ] {
        assert!(matches!(
            parse_status_line(&bad.to_vec()),
            Err(WebSocketError::InvalidHandshakeError)
        ));
    }
}

#[test]
fn header_line_parsing() {
    let (field, value) = parse_header_line(&b"Upgrade: websocket\r\n".to_vec()).unwrap();
    assert_eq!(field, b"Upgrade".to_vec());
    assert_eq!(value, b"websocket".to_vec());

    let (field, value) = parse_header_line(&b"X:   spaced out   \r\n".to_vec()).unwrap();
    assert_eq!(field, b"X".to_vec());
    assert_eq!(value, b"spaced out".to_vec());

    let (field, value) = parse_header_line(&b"Empty:\r\n".to_vec()).unwrap();
    assert_eq!(field, b"Empty".to_vec());
    assert_eq!(value, b"".to_vec());

    // the CRLF-only line ends the header block
    assert!(parse_header_line(&b"\r\n".to_vec()).is_none());
    assert!(parse_header_line(&b"no colon here\r\n".to_vec()).is_none());
    assert!(parse_header_line(&b": empty field\r\n".to_vec()).is_none());
    assert!(parse_header_line(&b"Upgrade: websocket".to_vec()).is_none());
}

#[test]
fn decimal_length_parsing() {
    assert_eq!(parse_ascii_usize(&b"0".to_vec()), Some(0));
    assert_eq!(parse_ascii_usize(&b"123".to_vec()), Some(123));
    assert_eq!(parse_ascii_usize(&b"+42".to_vec()), Some(42));
    assert_eq!(parse_ascii_usize(&b"".to_vec()), None);
    assert_eq!(parse_ascii_usize(&b"+".to_vec()), None);
    assert_eq!(parse_ascii_usize(&b"12a".to_vec()), None);
    assert_eq!(parse_ascii_usize(&b"-1".to_vec()), None);
    assert_eq!(parse_ascii_usize(&b"99999999999999999999999999".to_vec()), None);
}

#[test]
fn content_length_lookup() {
    let hs = headers(&[("Server", "x"), ("Content-Length", "11")]);
    assert_eq!(body_length(&hs).unwrap(), Some(11));

    let hs = headers(&[("Server", "x")]);
    assert_eq!(body_length(&hs).unwrap(), None);

    let hs = headers(&[("content-LENGTH", "7")]);
    assert_eq!(body_length(&hs).unwrap(), Some(7));

    let hs = headers(&[("Content-Length", "seven")]);
    assert!(matches!(
        body_length(&hs),
        Err(WebSocketError::InvalidHandshakeError)
    ));
}

#[test]
fn header_lookup_is_case_insensitive_and_ordered() {
    let hs = headers(&[("A", "1"), ("UPGRADE", "first"), ("upgrade", "second")]);
    let i = find_header(&hs, &b"upgrade".to_vec()).unwrap();
    assert_eq!(i, 1);
    assert!(find_header(&hs, &b"absent".to_vec()).is_none());
}

fn good_headers(accept: &[u8]) -> Vec<(Vec<u8>, Vec<u8>)> {
    vec![
        (b"Upgrade".to_vec(), b"WebSocket".to_vec()),
        (b"Connection".to_vec(), b"upgrade".to_vec()),
        (b"Sec-WebSocket-Accept".to_vec(), accept.to_vec()),
    ]
}

#[test]
fn validate_accepts_correct_response() {
    let handshake = handshake_with_key(b"AQIDBAUGBwgJCgsMDQ4PEA==", Vec::new());
    let accept = compute_accept_key(&handshake.key);
    let success = handshake
        .validate_response(&b"101".to_vec(), good_headers(&accept), None)
        .unwrap();
    assert!(success.accepted_subprotocol.is_none());
    assert_eq!(success.headers.len(), 3);
}

#[test]
fn validate_rejects_bad_responses() {
    let handshake = handshake_with_key(b"AQIDBAUGBwgJCgsMDQ4PEA==", Vec::new());
    let accept = compute_accept_key(&handshake.key);

    // missing upgrade header
    let hs = good_headers(&accept)[1..].to_vec();
    assert!(matches!(
        handshake.validate_response(&b"101".to_vec(), hs, None),
        Err(WebSocketError::InvalidHandshakeError)
    ));

    // wrong upgrade value
    let mut hs = good_headers(&accept);
    hs[0].1 = b"polling".to_vec();
    assert!(matches!(
        handshake.validate_response(&b"101".to_vec(), hs, None),
        Err(WebSocketError::InvalidHandshakeError)
    ));

    // wrong connection value
    let mut hs = good_headers(&accept);
    hs[1].1 = b"close".to_vec();
    assert!(matches!(
        handshake.validate_response(&b"101".to_vec(), hs, None),
        Err(WebSocketError::InvalidHandshakeError)
    ));

    // extensions are not supported
    let mut hs = good_headers(&accept);
    hs.push((b"Sec-WebSocket-Extensions".to_vec(), b"permessage-deflate".to_vec()));
    assert!(matches!(
        handshake.validate_response(&b"101".to_vec(), hs, None),
        Err(WebSocketError::InvalidHandshakeError)
    ));

    // wrong accept key
    let mut hs = good_headers(&accept);
    hs[2].1 = b"AAAAAAAAAAAAAAAAAAAAAAAAAAA=".to_vec();
    assert!(matches!(
        handshake.validate_response(&b"101".to_vec(), hs, None),
        Err(WebSocketError::InvalidHandshakeError)
    ));

    // missing accept key
    let hs = good_headers(&accept)[..2].to_vec();
    assert!(matches!(
        handshake.validate_response(&b"101".to_vec(), hs, None),
        Err(WebSocketError::InvalidHandshakeError)
    ));
}

#[test]
fn validate_negotiates_subprotocols() {
    let offered = vec!["wamp".to_string(), "soap".to_string()];

    // the server picked one that was offered
    let handshake = handshake_with_key(b"AQIDBAUGBwgJCgsMDQ4PEA==", offered.clone());
    let accept = compute_accept_key(&handshake.key);
    let mut hs = good_headers(&accept);
    hs.push((b"Sec-WebSocket-Protocol".to_vec(), b"soap".to_vec()));
    let success = handshake.validate_response(&b"101".to_vec(), hs, None).unwrap();
    assert_eq!(success.accepted_subprotocol.as_deref(), Some("soap"));

    // the server picked one that was not offered
    let handshake = handshake_with_key(b"AQIDBAUGBwgJCgsMDQ4PEA==", offered);
    let mut hs = good_headers(&accept);
    hs.push((b"Sec-WebSocket-Protocol".to_vec(), b"xmpp".to_vec()));
    assert!(matches!(
        handshake.validate_response(&b"101".to_vec(), hs, None),
        Err(WebSocketError::InvalidHandshakeError)
    ));

    // the server picked one although none was offered
    let handshake = handshake_with_key(b"AQIDBAUGBwgJCgsMDQ4PEA==", Vec::new());
    let mut hs = good_headers(&accept);
    hs.push((b"Sec-WebSocket-Protocol".to_vec(), b"wamp".to_vec()));
    assert!(matches!(
        handshake.validate_response(&b"101".to_vec(), hs, None),
        Err(WebSocketError::InvalidHandshakeError)
    ));
}

#[test]
fn rejection_carries_status_headers_and_body() {
    let handshake = handshake_with_key(b"AQIDBAUGBwgJCgsMDQ4PEA==", Vec::new());
    let hs = headers(&[("Content-Length", "11"), ("Server", "test")]);
    let body = b"bad request".to_vec();
    let err = handshake
        .validate_response(&b"400".to_vec(), hs.clone(), Some(body.clone()))
        .unwrap_err();
    match err {
        WebSocketError::HandshakeFailedError { status_code, headers: got, body: got_body } => {
            assert_eq!(status_code, b"400".to_vec());
            assert_eq!(got, hs);
            assert_eq!(got_body, Some(body));
        }
        other => panic!("expected handshake failure, got {:?}", other),
    }
}

#[test]
fn rejection_with_non_utf8_body_is_invalid() {
    let handshake = handshake_with_key(b"AQIDBAUGBwgJCgsMDQ4PEA==", Vec::new());
    let err = handshake
        .validate_response(&b"400".to_vec(), Vec::new(), Some(vec![0xFF, 0xFE]))
        .unwrap_err();
    assert!(matches!(err, WebSocketError::InvalidHandshakeError));
}
