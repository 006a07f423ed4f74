//! The events that flow through the hub and their text frames.
use vstd::prelude::*;
use vstd::string::*;
use crate::text::{trim_end, trimmed_end};

verus! {

/// One line of output: its text, and whether it came from the error stream
/// (or is a notice of the supervisor).
#[derive(Debug)]
pub struct BroadcastLog {
    pub message: String,
    pub is_error: bool,
}

/// One outbound text frame, as a subscriber receives it.
#[derive(Debug)]
pub struct WsMessage(pub String);

/// The tag that a frame starts with: `[ERR]: ` or `[OUT]: `.
pub open spec fn tag_of(is_error: bool) -> Seq<char> {
    if is_error {
        seq!['[', 'E', 'R', 'R', ']', ':', ' ']
    } else {
        seq!['[', 'O', 'U', 'T', ']', ':', ' ']
    }
}

/// The wire text of an event: its tag followed by its message.
pub open spec fn frame_text(message: Seq<char>, is_error: bool) -> Seq<char> {
    tag_of(is_error) + message
}

impl BroadcastLog {
    pub fn new(message: String, is_error: bool) -> (r: BroadcastLog)
        ensures
            r.message@ == message@,
            r.is_error == is_error,
    {
        BroadcastLog { message, is_error }
    }

    /// The event for one line read from a stream, its line terminator and any
    /// other trailing whitespace removed.
    pub fn from_line(line: &str, is_error: bool) -> (r: BroadcastLog)
        ensures
            r.message@ == trimmed_end(line@),
            r.is_error == is_error,
    {
        BroadcastLog { message: trim_end(line), is_error }
    }

    /// The text frame that carries this event to a subscriber.
    pub fn frame(&self) -> (r: WsMessage)
        ensures
            r.0@ == frame_text(self.message@, self.is_error),
    {
        let mut s = if self.is_error {
            String::from_str("[ERR]: ")
        } else {
            String::from_str("[OUT]: ")
        };
        proof {
            reveal_strlit("[ERR]: ");
            reveal_strlit("[OUT]: ");
        }
        s.append(self.message.as_str());
        WsMessage(s)
    }
}

impl WsMessage {
    pub fn text(&self) -> (r: String)
        ensures
            r@ == self.0@,
    {
        self.0.clone()
    }
}

} // verus!
