//! The error taxonomy of the WebSocket connection.

use vstd::prelude::*;

verus! {

/// The possible error types from the WebSocket connection.
///
/// Handshake response data carried by `HandshakeFailedError` is kept as the
/// raw bytes read off the wire.
#[derive(Debug, Clone)]
pub enum WebSocketError {
    /// Error connecting using TCP
    TcpConnectionError,
    /// Error connecting using TLS
    TlsConnectionError,
    /// Error configuring TLS
    TlsConfigurationError,
    /// Attempted to use the WebSocket when it is already closed
    WebSocketClosedError,
    /// Error shutting down the internal stream
    ShutdownError,
    /// Invalid handshake response from the server
    InvalidHandshakeError,
    /// The server rejected the handshake request
    HandshakeFailedError {
        /// Status code from the server's handshake response
        status_code: Vec<u8>,
        /// Headers from the server's handshake response
        headers: Vec<(Vec<u8>, Vec<u8>)>,
        /// Body of the server's handshake response, if any
        body: Option<Vec<u8>>,
    },
    /// Attempted to use a control frame whose payload is more than 125 bytes
    ControlFrameTooLargeError,
    /// Attempted to use a frame whose payload is too large
    PayloadTooLargeError,
    /// Received an invalid frame
    InvalidFrameError,
    /// Received a masked frame from the server
    ReceivedMaskedFrameError,
    /// URL could not be parsed
    ParseError,
    /// URL has invalid WebSocket scheme (use "ws" or "wss")
    SchemeError,
    /// URL host is invalid or missing
    HostError,
    /// URL port is invalid
    PortError,
    /// Could not parse URL into socket addresses
    SocketAddrError,
    /// Could not resolve the URL's domain
    ResolutionError,
    /// Error reading from WebSocket
    ReadError,
    /// Error writing to WebSocket
    WriteError,
    /// The event channel between the read and write halves is broken
    ChannelError,
}

} // verus!
