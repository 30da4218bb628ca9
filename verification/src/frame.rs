//! Frames and receive-side events as the relay sees them.

use vstd::prelude::*;

verus! {

/// A websocket frame: either a text frame with its payload, or any other
/// kind (binary, ping, pong, close or another control frame), whose payload
/// the relay never inspects.
#[derive(Clone, Debug, PartialEq, Eq)]
pub enum Frame {
    Text(String),
    Other,
}

/// One item produced by a connection's receive half: a decoded frame, a
/// transport-level failure to decode a frame, or the end of the stream
/// (the peer disconnected).
#[derive(Clone, Debug, PartialEq, Eq)]
pub enum RecvEvent {
    Frame(Frame),
    FrameError,
    Closed,
}

/// The payload of a text frame; the empty sequence for any other frame.
pub open spec fn payload(f: Frame) -> Seq<char> {
    match f {
        Frame::Text(s) => s@,
        Frame::Other => Seq::empty(),
    }
}

/// The sentinel payload sent for a non-text frame, and for a request the
/// responder could not answer.
pub open spec fn null_payload() -> Seq<char> {
    "null"@
}

/// The sentinel payload sent when the session fetch fails.
pub open spec fn error_payload() -> Seq<char> {
    "Error"@
}

impl Frame {
    /// Whether this frame is a text frame.
    pub fn is_text(&self) -> (r: bool)
        ensures
            r == (self is Text),
    {
        matches!(self, Frame::Text(_))
    }

    /// The text payload, or `None` for a non-text frame.
    pub fn as_text(&self) -> (r: Option<&String>)
        ensures
            r matches Some(s) ==> self is Text && s@ == payload(*self),
            r is None <==> self is Other,
    {
        match self {
            Frame::Text(s) => Some(s),
            Frame::Other => None,
        }
    }
}

impl RecvEvent {
    /// The received frame, or `None` if the stream ended or a transport
    /// error occurred: the relay goes on exactly when this is `Some`.
    pub fn frame(&self) -> (r: Option<&Frame>)
        ensures
            r matches Some(f) ==> self is Frame && *f == self->0,
            r is None <==> !(self is Frame),
    {
        match self {
            RecvEvent::Frame(f) => Some(f),
            RecvEvent::FrameError => None,
            RecvEvent::Closed => None,
        }
    }
}

} // verus!
