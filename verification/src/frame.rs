//! Frames: the unit of data exchanged over a WebSocket connection.

use vstd::prelude::*;

verus! {

/// Data which is sent and received through the WebSocket connection.
///
/// A message is carried by one frame, or by an initial Text or Binary frame
/// followed by continuation frames. `continuation` marks a frame that carries
/// the continuation opcode; `fin` marks the final frame of a message. Control
/// frames (Close, Ping, Pong) are never fragmented and carry at most 125
/// payload bytes.
#[derive(Debug, Clone)]
pub enum Frame {
    /// A Text frame
    Text {
        /// The payload for the Text frame
        payload: String,
        /// Whether the Text frame is a continuation frame in the message
        continuation: bool,
        /// Whether the Text frame is the final frame in the message
        fin: bool,
    },
    /// A Binary frame
    Binary {
        /// The payload for the Binary frame
        payload: Vec<u8>,
        /// Whether the Binary frame is a continuation frame in the message
        continuation: bool,
        /// Whether the Binary frame is the final frame in the message
        fin: bool,
    },
    /// A Close frame
    Close {
        /// The payload for the Close frame: a status code and a reason
        payload: Option<(u16, String)>,
    },
    /// A Ping frame
    Ping {
        /// The payload for the Ping frame
        payload: Option<Vec<u8>>,
    },
    /// A Pong frame
    Pong {
        /// The payload for the Pong frame
        payload: Option<Vec<u8>>,
    },
}

/// The mathematical model of a [`Frame`]: the same shape over sequences.
pub enum FrameView {
    /// Model of a Text frame
    Text {
        /// The characters of the payload
        payload: Seq<char>,
        /// Whether the frame carries the continuation opcode
        continuation: bool,
        /// Whether the frame is the final frame in the message
        fin: bool,
    },
    /// Model of a Binary frame
    Binary {
        /// The payload bytes
        payload: Seq<u8>,
        /// Whether the frame carries the continuation opcode
        continuation: bool,
        /// Whether the frame is the final frame in the message
        fin: bool,
    },
    /// Model of a Close frame
    Close {
        /// The status code and the characters of the reason
        payload: Option<(u16, Seq<char>)>,
    },
    /// Model of a Ping frame
    Ping {
        /// The payload bytes
        payload: Option<Seq<u8>>,
    },
    /// Model of a Pong frame
    Pong {
        /// The payload bytes
        payload: Option<Seq<u8>>,
    },
}

impl View for Frame {
    type V = FrameView;

    open spec fn view(&self) -> FrameView {
        match self {
            Frame::Text { payload, continuation, fin } => (FrameView::Text {
                payload: payload@,
                continuation: *continuation,
                fin: *fin,
            }),
            Frame::Binary { payload, continuation, fin } => (FrameView::Binary {
                payload: payload@,
                continuation: *continuation,
                fin: *fin,
            }),
            Frame::Close { payload } => (FrameView::Close {
                payload: match payload {
                    Some((code, reason)) => Some((*code, reason@)),
                    None => None,
                },
            }),
            Frame::Ping { payload } => (FrameView::Ping {
                payload: match payload {
                    Some(bytes) => Some(bytes@),
                    None => None,
                },
            }),
            Frame::Pong { payload } => (FrameView::Pong {
                payload: match payload {
                    Some(bytes) => Some(bytes@),
                    None => None,
                },
            }),
        }
    }
}

impl Frame {
    /// Constructs a Text frame from the given payload.
    /// `continuation` will be `false` and `fin` will be `true`.
    pub fn text(payload: String) -> (r: Self)
        ensures
            r@ == (FrameView::Text { payload: payload@, continuation: false, fin: true }),
    {
        Self::Text { payload, continuation: false, fin: true }
    }

    /// Returns whether the frame is a Text frame.
    pub fn is_text(&self) -> (r: bool)
        ensures
            r == (self@ is Text),
    {
        self.as_text().is_some()
    }

    /// Attempts to interpret the frame as a Text frame,
    /// returning a reference to the underlying data if it is,
    /// and None otherwise.
    pub fn as_text(&self) -> (r: Option<(&String, &bool, &bool)>)
        ensures
            r is Some <==> self@ is Text,
            r matches Some((payload, continuation, fin)) ==> self@ == (FrameView::Text {
                payload: payload@,
                continuation: *continuation,
                fin: *fin,
            }),
    {
        match self {
            Self::Text { payload, continuation, fin } => Some((payload, continuation, fin)),
            _ => None,
        }
    }

    /// Attempts to interpret the frame as a Text frame,
    /// returning a mutable reference to the underlying data if it is,
    /// and None otherwise.
    pub fn as_text_mut(&mut self) -> (r: Option<(&mut String, &mut bool, &mut bool)>)
        ensures
            r is Some <==> old(self)@ is Text,
            r matches Some((payload, continuation, fin)) ==> {
                &&& old(self)@ == (FrameView::Text {
                    payload: (*payload)@,
                    continuation: *continuation,
                    fin: *fin,
                })
                &&& final(self)@ == (FrameView::Text {
                    payload: (*final(payload))@,
                    continuation: *final(continuation),
                    fin: *final(fin),
                })
            },
            r is None ==> *final(self) == *old(self),
    {
        match self {
            Self::Text { payload, continuation, fin } => Some((payload, continuation, fin)),
            _ => None,
        }
    }

    /// Attempts to interpret the frame as a Text frame,
    /// consuming and returning the underlying data if it is,
    /// and returning None otherwise.
    pub fn into_text(self) -> (r: Option<(String, bool, bool)>)
        ensures
            r is Some <==> self@ is Text,
            r matches Some((payload, continuation, fin)) ==> self@ == (FrameView::Text {
                payload: payload@,
                continuation,
                fin,
            }),
    {
        match self {
            Self::Text { payload, continuation, fin } => Some((payload, continuation, fin)),
            _ => None,
        }
    }

    /// Constructs a Binary frame from the given payload.
    /// `continuation` will be `false` and `fin` will be `true`.
    pub fn binary(payload: Vec<u8>) -> (r: Self)
        ensures
            r@ == (FrameView::Binary { payload: payload@, continuation: false, fin: true }),
    {
        Self::Binary { payload, continuation: false, fin: true }
    }

    /// Returns whether the frame is a Binary frame.
    pub fn is_binary(&self) -> (r: bool)
        ensures
            r == (self@ is Binary),
    {
        self.as_binary().is_some()
    }

    /// Attempts to interpret the frame as a Binary frame,
    /// returning a reference to the underlying data if it is,
    /// and None otherwise.
    pub fn as_binary(&self) -> (r: Option<(&Vec<u8>, &bool, &bool)>)
        ensures
            r is Some <==> self@ is Binary,
            r matches Some((payload, continuation, fin)) ==> self@ == (FrameView::Binary {
                payload: payload@,
                continuation: *continuation,
                fin: *fin,
            }),
    {
        match self {
            Self::Binary { payload, continuation, fin } => Some((payload, continuation, fin)),
            _ => None,
        }
    }

    /// Attempts to interpret the frame as a Binary frame,
    /// returning a mutable reference to the underlying data if it is,
    /// and None otherwise.
    pub fn as_binary_mut(&mut self) -> (r: Option<(&mut Vec<u8>, &mut bool, &mut bool)>)
        ensures
            r is Some <==> old(self)@ is Binary,
            r matches Some((payload, continuation, fin)) ==> {
                &&& old(self)@ == (FrameView::Binary {
                    payload: (*payload)@,
                    continuation: *continuation,
                    fin: *fin,
                })
                &&& final(self)@ == (FrameView::Binary {
                    payload: (*final(payload))@,
                    continuation: *final(continuation),
                    fin: *final(fin),
                })
            },
            r is None ==> *final(self) == *old(self),
    {
        match self {
            Self::Binary { payload, continuation, fin } => Some((payload, continuation, fin)),
            _ => None,
        }
    }

    /// Attempts to interpret the frame as a Binary frame,
    /// consuming and returning the underlying data if it is,
    /// and returning None otherwise.
    pub fn into_binary(self) -> (r: Option<(Vec<u8>, bool, bool)>)
        ensures
            r is Some <==> self@ is Binary,
            r matches Some((payload, continuation, fin)) ==> self@ == (FrameView::Binary {
                payload: payload@,
                continuation,
                fin,
            }),
    {
        match self {
            Self::Binary { payload, continuation, fin } => Some((payload, continuation, fin)),
            _ => None,
        }
    }

    /// Constructs a Close frame from the given payload.
    pub fn close(payload: Option<(u16, String)>) -> (r: Self)
        ensures
            r@ is Close,
            r@ == (FrameView::Close {
                payload: match payload {
                    Some((code, reason)) => Some((code, reason@)),
                    None => None,
                },
            }),
    {
        Self::Close { payload }
    }

    /// Returns whether the frame is a Close frame.
    pub fn is_close(&self) -> (r: bool)
        ensures
            r == (self@ is Close && self@->Close_payload is Some),
    {
        self.as_close().is_some()
    }

    /// Attempts to interpret the frame as a Close frame,
    /// returning a reference to the underlying data if it is,
    /// and None otherwise.
    pub fn as_close(&self) -> (r: Option<&(u16, String)>)
        ensures
            r is Some <==> (self@ is Close && self@->Close_payload is Some),
            r matches Some(payload) ==> self@ == (FrameView::Close {
                payload: Some((payload.0, payload.1@)),
            }),
    {
        match self {
            Self::Close { payload } => payload.as_ref(),
            _ => None,
        }
    }

    /// Attempts to interpret the frame as a Close frame,
    /// returning a mutable reference to the underlying data if it is,
    /// and None otherwise.
    pub fn as_close_mut(&mut self) -> (r: Option<&mut (u16, String)>)
        ensures
            r is Some <==> (old(self)@ is Close && old(self)@->Close_payload is Some),
            r matches Some(payload) ==> {
                &&& old(self)@ == (FrameView::Close {
                    payload: Some(((*payload).0, (*payload).1@)),
                })
                &&& final(self)@ == (FrameView::Close {
                    payload: Some(((*final(payload)).0, (*final(payload)).1@)),
                })
            },
            r is None ==> *final(self) == *old(self),
    {
        match self {
            Self::Close { payload } => payload.as_mut(),
            _ => None,
        }
    }

    /// Attempts to interpret the frame as a Close frame,
    /// consuming and returning the underlying data if it is,
    /// and returning None otherwise.
    pub fn into_close(self) -> (r: Option<(u16, String)>)
        ensures
            r is Some <==> (self@ is Close && self@->Close_payload is Some),
            r matches Some(payload) ==> self@ == (FrameView::Close {
                payload: Some((payload.0, payload.1@)),
            }),
    {
        match self {
            Self::Close { payload } => payload,
            _ => None,
        }
    }

    /// Constructs a Ping frame from the given payload.
    pub fn ping(payload: Option<Vec<u8>>) -> (r: Self)
        ensures
            r@ == (FrameView::Ping {
                payload: match payload {
                    Some(bytes) => Some(bytes@),
                    None => None,
                },
            }),
    {
        Self::Ping { payload }
    }

    /// Returns whether the frame is a Ping frame.
    pub fn is_ping(&self) -> (r: bool)
        ensures
            r == (self@ is Ping && self@->Ping_payload is Some),
    {
        self.as_ping().is_some()
    }

    /// Attempts to interpret the frame as a Ping frame,
    /// returning a reference to the underlying data if it is,
    /// and None otherwise.
    pub fn as_ping(&self) -> (r: Option<&Vec<u8>>)
        ensures
            r is Some <==> (self@ is Ping && self@->Ping_payload is Some),
            r matches Some(payload) ==> self@ == (FrameView::Ping { payload: Some(payload@) }),
    {
        match self {
            Self::Ping { payload } => payload.as_ref(),
            _ => None,
        }
    }

    /// Attempts to interpret the frame as a Ping frame,
    /// returning a mutable reference to the underlying data if it is,
    /// and None otherwise.
    pub fn as_ping_mut(&mut self) -> (r: Option<&mut Vec<u8>>)
        ensures
            r is Some <==> (old(self)@ is Ping && old(self)@->Ping_payload is Some),
            r matches Some(payload) ==> {
                &&& old(self)@ == (FrameView::Ping { payload: Some((*payload)@) })
                &&& final(self)@ == (FrameView::Ping { payload: Some((*final(payload))@) })
            },
            r is None ==> *final(self) == *old(self),
    {
        match self {
            Self::Ping { payload } => payload.as_mut(),
            _ => None,
        }
    }

    /// Attempts to interpret the frame as a Ping frame,
    /// consuming and returning the underlying data if it is,
    /// and returning None otherwise.
    pub fn into_ping(self) -> (r: Option<Vec<u8>>)
        ensures
            r is Some <==> (self@ is Ping && self@->Ping_payload is Some),
            r matches Some(payload) ==> self@ == (FrameView::Ping { payload: Some(payload@) }),
    {
        match self {
            Self::Ping { payload } => payload,
            _ => None,
        }
    }

    /// Constructs a Pong frame from the given payload.
    pub fn pong(payload: Option<Vec<u8>>) -> (r: Self)
        ensures
            r@ == (FrameView::Pong {
                payload: match payload {
                    Some(bytes) => Some(bytes@),
                    None => None,
                },
            }),
    {
        Self::Pong { payload }
    }

    /// Returns whether the frame is a Pong frame.
    pub fn is_pong(&self) -> (r: bool)
        ensures
            r == (self@ is Pong && self@->Pong_payload is Some),
    {
        self.as_pong().is_some()
    }

    /// Attempts to interpret the frame as a Pong frame,
    /// returning a reference to the underlying data if it is,
    /// and None otherwise.
    pub fn as_pong(&self) -> (r: Option<&Vec<u8>>)
        ensures
            r is Some <==> (self@ is Pong && self@->Pong_payload is Some),
            r matches Some(payload) ==> self@ == (FrameView::Pong { payload: Some(payload@) }),
    {
        match self {
            Self::Pong { payload } => payload.as_ref(),
            _ => None,
        }
    }

    /// Attempts to interpret the frame as a Pong frame,
    /// returning a mutable reference to the underlying data if it is,
    /// and None otherwise.
    pub fn as_pong_mut(&mut self) -> (r: Option<&mut Vec<u8>>)
        ensures
            r is Some <==> (old(self)@ is Pong && old(self)@->Pong_payload is Some),
            r matches Some(payload) ==> {
                &&& old(self)@ == (FrameView::Pong { payload: Some((*payload)@) })
                &&& final(self)@ == (FrameView::Pong { payload: Some((*final(payload))@) })
            },
            r is None ==> *final(self) == *old(self),
    {
        match self {
            Self::Pong { payload } => payload.as_mut(),
            _ => None,
        }
    }

    /// Attempts to interpret the frame as a Pong frame,
    /// consuming and returning the underlying data if it is,
    /// and returning None otherwise.
    pub fn into_pong(self) -> (r: Option<Vec<u8>>)
        ensures
            r is Some <==> (self@ is Pong && self@->Pong_payload is Some),
            r matches Some(payload) ==> self@ == (FrameView::Pong { payload: Some(payload@) }),
    {
        match self {
            Self::Pong { payload } => payload,
            _ => None,
        }
    }

    /// Modifies the frame to set `continuation` to the desired value.
    /// If the frame is not a Text or Binary frame, no operation is performed.
    pub fn set_continuation(self, continuation: bool) -> (r: Self)
        ensures
            r@ == (match self@ {
                FrameView::Text { payload, fin, .. } => (FrameView::Text {
                    payload,
                    continuation,
                    fin,
                }),
                FrameView::Binary { payload, fin, .. } => (FrameView::Binary {
                    payload,
                    continuation,
                    fin,
                }),
                other => other,
            }),
    {
        match self {
            Self::Text { payload, fin, .. } => Self::Text { payload, continuation, fin },
            Self::Binary { payload, fin, .. } => Self::Binary { payload, continuation, fin },
            _ => self,
        }
    }

    /// Modifies the frame to set `fin` to the desired value.
    /// If the frame is not a Text or Binary frame, no operation is performed.
    pub fn set_fin(self, fin: bool) -> (r: Self)
        ensures
            r@ == (match self@ {
                FrameView::Text { payload, continuation, .. } => (FrameView::Text {
                    payload,
                    continuation,
                    fin,
                }),
                FrameView::Binary { payload, continuation, .. } => (FrameView::Binary {
                    payload,
                    continuation,
                    fin,
                }),
                other => other,
            }),
    {
        match self {
            Self::Text { payload, continuation, .. } => Self::Text { payload, continuation, fin },
            Self::Binary { payload, continuation, .. } => Self::Binary {
                payload,
                continuation,
                fin,
            },
            _ => self,
        }
    }

    /// Returns whether the frame is a control frame (Close, Ping or Pong).
    pub fn is_control(&self) -> (r: bool)
        ensures
            r == spec_is_control(self@),
    {
        match self {
            Self::Text { .. } => false,
            Self::Binary { .. } => false,
            Self::Close { .. } => true,
            Self::Ping { .. } => true,
            Self::Pong { .. } => true,
        }
    }

    /// Returns the opcode the frame is encoded with.
    pub fn opcode(&self) -> (r: u8)
        ensures
            r == spec_opcode(self@),
    {
        match self {
            Self::Text { continuation, .. } => if *continuation {
                0x0
            } else {
                0x1
            },
            Self::Binary { continuation, .. } => if *continuation {
                0x0
            } else {
                0x2
            },
            Self::Close { .. } => 0x8,
            Self::Ping { .. } => 0x9,
            Self::Pong { .. } => 0xA,
        }
    }

    /// Returns the FIN bit the frame is encoded with, already shifted into
    /// the high bit of the first wire byte.
    pub fn fin(&self) -> (r: u8)
        ensures
            r == spec_fin_bit(self@),
    {
        match self {
            Self::Text { fin, .. } => if *fin {
                0b10000000
            } else {
                0b00000000
            },
            Self::Binary { fin, .. } => if *fin {
                0b10000000
            } else {
                0b00000000
            },
            Self::Close { .. } => 0b10000000,
            Self::Ping { .. } => 0b10000000,
            Self::Pong { .. } => 0b10000000,
        }
    }
}

/// The continuation context tracked by the read half: the opcode of the most
/// recent non-continuation data frame received, so that a continuation frame
/// can be reconstructed with the correct case. `Control` means no data frame
/// is in progress; a continuation frame received in that state is invalid.
#[derive(Debug, Clone, Copy, PartialEq, Eq, Structural)]
pub enum FrameType {
    /// A Text message is in progress
    Text,
    /// A Binary message is in progress
    Binary,
    /// No data frame is in progress
    Control,
}

impl Default for FrameType {
    /// Before any data frame arrives, no message is in progress.
    fn default() -> (r: Self)
        ensures
            r is Control,
    {
        Self::Control
    }
}

impl From<String> for Frame {
    /// A string becomes an unfragmented Text frame.
    fn from(payload: String) -> Self {
        Self::Text { payload, continuation: false, fin: true }
    }
}

impl vstd::std_specs::convert::FromSpecImpl<String> for Frame {
    open spec fn obeys_from_spec() -> bool {
        true
    }

    open spec fn from_spec(payload: String) -> Frame {
        Frame::Text { payload, continuation: false, fin: true }
    }
}

impl From<Vec<u8>> for Frame {
    /// A byte vector becomes an unfragmented Binary frame.
    fn from(payload: Vec<u8>) -> Self {
        Self::Binary { payload, continuation: false, fin: true }
    }
}

impl vstd::std_specs::convert::FromSpecImpl<Vec<u8>> for Frame {
    open spec fn obeys_from_spec() -> bool {
        true
    }

    open spec fn from_spec(payload: Vec<u8>) -> Frame {
        Frame::Binary { payload, continuation: false, fin: true }
    }
}

/// Whether a frame is a control frame: Close, Ping or Pong.
pub open spec fn spec_is_control(v: FrameView) -> bool {
    match v {
        FrameView::Text { .. } => false,
        FrameView::Binary { .. } => false,
        FrameView::Close { .. } => true,
        FrameView::Ping { .. } => true,
        FrameView::Pong { .. } => true,
    }
}

/// The opcode a frame is encoded with: continuation frames carry 0x0,
/// initial Text frames 0x1, initial Binary frames 0x2, and the control
/// frames 0x8 (Close), 0x9 (Ping) and 0xA (Pong).
pub open spec fn spec_opcode(v: FrameView) -> u8 {
    match v {
        FrameView::Text { continuation, .. } => if continuation {
            0x0u8
        } else {
            0x1u8
        },
        FrameView::Binary { continuation, .. } => if continuation {
            0x0u8
        } else {
            0x2u8
        },
        FrameView::Close { .. } => 0x8u8,
        FrameView::Ping { .. } => 0x9u8,
        FrameView::Pong { .. } => 0xAu8,
    }
}

/// The FIN bit of the first wire byte. Control frames always have it set.
pub open spec fn spec_fin_bit(v: FrameView) -> u8 {
    match v {
        FrameView::Text { fin, .. } => if fin {
            0x80u8
        } else {
            0x0u8
        },
        FrameView::Binary { fin, .. } => if fin {
            0x80u8
        } else {
            0x0u8
        },
        FrameView::Close { .. } => 0x80u8,
        FrameView::Ping { .. } => 0x80u8,
        FrameView::Pong { .. } => 0x80u8,
    }
}

} // verus!
