//! The decisions of a connection's two loops: which inbound frames end the
//! inbound side, and when the outbound side stops.
use vstd::prelude::*;
use crate::broadcaster::Received;

verus! {

/// What the inbound side of a connection read.
pub enum ClientFrame {
    Text,
    Binary,
    Continuation,
    Ping,
    Pong,
    Nop,
    Close,
    ReadError,
}

/// Whether the inbound loop ends on this frame: on a close frame or a read
/// error. Everything else is accepted and discarded.
pub fn ends_inbound(frame: &ClientFrame) -> (r: bool)
    ensures
        r == (*frame is Close || *frame is ReadError),
{
    match frame {
        ClientFrame::Close => true,
        ClientFrame::ReadError => true,
        _ => false,
    }
}

/// Whether the outbound loop ends after asking the hub for its next frame:
/// once its subscriber has been removed.
pub fn ends_outbound(received: &Received) -> (r: bool)
    ensures
        r == (*received is Gone),
{
    match received {
        Received::Gone => true,
        _ => false,
    }
}

} // verus!
