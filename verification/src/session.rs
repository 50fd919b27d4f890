//! The connection state machine: the continuation context kept by the read
//! side, the reactions that received control frames demand, and the close
//! and shutdown discipline of the write side.
//!
//! The read half and the write half each own their direction of the stream;
//! protocol-level reactions travel from the reader to the writer as
//! [`Event`]s over a channel that preserves insertion order. Everything here
//! is decision logic from plain values to plain values; performing the I/O
//! those decisions call for is the embedding application's part.

use vstd::prelude::*;
use vstd::slice::slice_to_vec;

use crate::error::WebSocketError;
use crate::frame::{Frame, FrameType, FrameView};

verus! {

/// Events sent from the read half to the write half.
#[derive(Debug)]
pub enum Event {
    /// A Ping arrived: send this Pong.
    SendPongFrame(Frame),
    /// A Close arrived: send this echoed Close, then shut the transport
    /// down if the local side had already sent its own Close.
    SendCloseFrameAndShutdown(Frame),
}

/// The state the read half keeps: the frame type of the data message in
/// progress, so continuation frames can be reconstructed.
#[derive(Debug)]
pub struct ReadState {
    /// The opcode case of the most recent non-continuation data frame.
    pub last_frame_type: FrameType,
}

impl ReadState {
    /// A fresh read half: no data frame is in progress.
    pub fn new() -> (r: Self)
        ensures
            r.last_frame_type is Control,
    {
        ReadState { last_frame_type: FrameType::Control }
    }

    /// Records a received frame: Text and Binary frames set the
    /// continuation context; control frames leave it unchanged, since they
    /// may interleave in the middle of a fragmented message.
    pub fn note_received(&mut self, frame: &Frame)
        ensures
            final(self).last_frame_type == (match frame@ {
                FrameView::Text { .. } => FrameType::Text,
                FrameView::Binary { .. } => FrameType::Binary,
                _ => old(self).last_frame_type,
            }),
    {
        match frame {
            Frame::Text { .. } => self.last_frame_type = FrameType::Text,
            Frame::Binary { .. } => self.last_frame_type = FrameType::Binary,
            _ => (),
        }
    }
}

/// The event a received frame obliges the write half to act on, if any:
/// a Ping is answered with a Pong carrying the same payload, and a Close is
/// echoed with the same status code and an empty reason.
pub fn reaction_for(frame: &Frame) -> (r: Option<Event>)
    ensures
        frame@ matches FrameView::Ping { payload } ==> (r matches Some(Event::SendPongFrame(f))
            && f@ == (FrameView::Pong { payload })),
        frame@ matches FrameView::Close { payload } ==> (r matches Some(
            Event::SendCloseFrameAndShutdown(f),
        ) && f@ == (FrameView::Close {
            payload: match payload {
                Some((code, _)) => Some((code, Seq::<char>::empty())),
                None => None,
            },
        })),
        frame@ is Text || frame@ is Binary || frame@ is Pong ==> r is None,
{
    match frame {
        Frame::Ping { payload } => {
            let echoed: Option<Vec<u8>> = match payload {
                Some(bytes) => Some(slice_to_vec(bytes.as_slice())),
                None => None,
            };
            Some(Event::SendPongFrame(Frame::Pong { payload: echoed }))
        },
        Frame::Close { payload } => {
            let echoed: Option<(u16, String)> = match payload {
                Some(pair) => Some((pair.0, String::new())),
                None => None,
            };
            Some(Event::SendCloseFrameAndShutdown(Frame::Close { payload: echoed }))
        },
        _ => None,
    }
}

/// The state the write half keeps: whether a Close frame has been sent
/// (after which no further frames may go out) and whether the transport has
/// been half-closed for writes.
#[derive(Debug)]
pub struct WriteState {
    /// The transport has been half-closed for writes.
    pub shutdown: bool,
    /// A Close frame has been transmitted; no further frames may be sent.
    pub sent_closed: bool,
}

/// What the write half must do with one queued event when it flushes.
#[derive(Debug)]
pub enum FlushDirective {
    /// Send the frame.
    Send(Frame),
    /// Send the frame, then shut the transport down.
    SendAndShutdown(Frame),
    /// Consume the event without acting on it.
    Discard,
}

impl WriteState {
    /// A fresh write half: open for sending.
    pub fn new() -> (r: Self)
        ensures
            !r.shutdown,
            !r.sent_closed,
    {
        WriteState { shutdown: false, sent_closed: false }
    }

    /// Whether a frame may be sent now: fails with `WebSocketClosedError`
    /// exactly when the transport is shut down or a Close has been sent.
    pub fn check_send_allowed(&self) -> (r: Result<(), WebSocketError>)
        ensures
            r is Ok <==> !(self.shutdown || self.sent_closed),
            r matches Err(e) ==> e is WebSocketClosedError,
    {
        if self.shutdown || self.sent_closed {
            Err(WebSocketError::WebSocketClosedError)
        } else {
            Ok(())
        }
    }

    /// Records that a frame went out: sending a Close closes the write side
    /// for further frames.
    pub fn note_frame_sent(&mut self, frame: &Frame)
        ensures
            final(self).sent_closed == (old(self).sent_closed || frame@ is Close),
            final(self).shutdown == old(self).shutdown,
    {
        match frame {
            Frame::Close { .. } => self.sent_closed = true,
            _ => (),
        }
    }

    /// Records the transport half-close for writes. No more frames may be
    /// sent, but the read half stays usable, so a Close echo still in
    /// flight can be received.
    pub fn note_shutdown(&mut self)
        ensures
            final(self).sent_closed,
            final(self).shutdown == old(self).shutdown,
    {
        self.sent_closed = true;
    }

    /// Decides what one queued event demands in the current state. The
    /// echoed Close of a remote-initiated exchange is only sent, and the
    /// transport only shut down, when the local side had already initiated
    /// the close; otherwise the event is consumed and shutdown is left to
    /// an explicit call.
    pub fn handle_event(&self, event: Event) -> (r: FlushDirective)
        ensures
            event matches Event::SendPongFrame(f) ==> (r matches FlushDirective::Send(g) && g
                == f),
            event matches Event::SendCloseFrameAndShutdown(f) ==> if self.sent_closed {
                r matches FlushDirective::SendAndShutdown(g) && g == f
            } else {
                r is Discard
            },
    {
        match event {
            Event::SendPongFrame(frame) => FlushDirective::Send(frame),
            Event::SendCloseFrameAndShutdown(frame) => {
                // the read half queues this whenever a Close arrives; if we
                // had already sent our own Close, both sides are done and
                // the transport can be shut down after the echo
                if self.sent_closed {
                    FlushDirective::SendAndShutdown(frame)
                } else {
                    FlushDirective::Discard
                }
            },
        }
    }
}

} // verus!
