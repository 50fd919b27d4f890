use websockets::address::{assemble_address, parse_address, parse_scheme, Scheme};
use websockets::bytes::{bytes_eq, str_eq};
use websockets::error::WebSocketError;

#[test]
fn plain_url_with_default_port() {
    let addr = parse_address("ws://example.com/chat").unwrap();
    assert_eq!(addr.scheme, Scheme::Plain);
    assert_eq!(addr.host, "example.com");
    assert_eq!(addr.path, "/chat");
    assert_eq!(addr.port, 80);
}

#[test]
fn secure_url_with_default_port() {
    let addr = parse_address("wss://example.com/").unwrap();
    assert_eq!(addr.scheme, Scheme::Secure);
    assert_eq!(addr.port, 443);
    assert_eq!(addr.path, "/");
}

#[test]
fn explicit_port_wins() {
    let addr = parse_address("ws://example.com:8080/x").unwrap();
    assert_eq!(addr.port, 8080);
}

#[test]
fn empty_path_becomes_slash() {
    let addr = parse_address("ws://example.com").unwrap();
    assert_eq!(addr.path, "/");
}

#[test]
fn http_scheme_is_rejected_without_network_activity() {
    let err = parse_address("http://example.com").unwrap_err();
    assert!(matches!(err, WebSocketError::SchemeError));
    let err = parse_address("ftp://example.com").unwrap_err();
    assert!(matches!(err, WebSocketError::SchemeError));
}

#[test]
fn url_without_host_is_a_host_error() {
    // a data URL parses, but has no host
    assert!(matches!(
        parse_address("data:text/plain,hello"),
        Err(WebSocketError::HostError)
    ));
}

#[test]
fn missing_port_is_a_port_error() {
    let err = assemble_address("ws", "example.com".to_string(), "/".to_string(), None)
        .unwrap_err();
    assert!(matches!(err, WebSocketError::PortError));

    let addr =
        assemble_address("wss", "example.com".to_string(), "/x".to_string(), Some(443)).unwrap();
    assert_eq!(addr.scheme, Scheme::Secure);
    assert_eq!(addr.port, 443);
}

#[test]
fn malformed_url_is_a_parse_error() {
    assert!(matches!(
        parse_address("not a url at all"),
        Err(WebSocketError::ParseError)
    ));
}

#[test]
fn scheme_classification() {
    assert!(matches!(parse_scheme("ws"), Ok(Scheme::Plain)));
    assert!(matches!(parse_scheme("wss"), Ok(Scheme::Secure)));
    assert!(matches!(parse_scheme("http"), Err(WebSocketError::SchemeError)));
    assert!(matches!(parse_scheme(""), Err(WebSocketError::SchemeError)));
}

#[test]
fn byte_and_string_equality() {
    assert!(bytes_eq(&vec![1, 2, 3], &vec![1, 2, 3]));
    assert!(!bytes_eq(&vec![1, 2, 3], &vec![1, 2]));
    assert!(!bytes_eq(&vec![1, 2, 3], &vec![1, 2, 4]));
    assert!(bytes_eq(&Vec::new(), &Vec::new()));

    assert!(str_eq("abc", "abc"));
    assert!(!str_eq("abc", "abd"));
    assert!(!str_eq("abc", "ab"));
}
