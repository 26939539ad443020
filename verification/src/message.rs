//! The units that travel from the input to the sender: message segments
//! and the signals that announce them.

use vstd::prelude::*;
use crate::text::joined_by;

verus! {

/// One logical unit of input text.
#[derive(Debug, Clone, PartialEq, Eq)]
pub enum MessageBuffer {
    /// The text was preceded by a carriage return: it is meant to overwrite
    /// the last line that was sent.
    CarriageReturn(String),
    /// The text was not preceded by a carriage return: it is a new line.
    Newline(String),
}

/// What a `MessageBuffer` is to the contracts: its kind and its characters.
pub struct Segment {
    pub overwrite: bool,
    pub text: Seq<char>,
}

impl View for MessageBuffer {
    type V = Segment;

    open spec fn view(&self) -> Segment {
        match *self {
            MessageBuffer::CarriageReturn(s) => Segment { overwrite: true, text: s@ },
            MessageBuffer::Newline(s) => Segment { overwrite: false, text: s@ },
        }
    }
}

impl MessageBuffer {
    /// Whether this segment overwrites the last line.
    pub fn is_carriage_return(&self) -> (overwrite: bool)
        ensures
            overwrite == self@.overwrite,
    {
        match self {
            MessageBuffer::CarriageReturn(_) => true,
            MessageBuffer::Newline(_) => false,
        }
    }

    /// The segment's text.
    pub fn text(&self) -> (text: &str)
        ensures
            text@ == self@.text,
    {
        match self {
            MessageBuffer::CarriageReturn(s) => s.as_str(),
            MessageBuffer::Newline(s) => s.as_str(),
        }
    }
}

/// Sent from the producer to the sender: either the queue has changed, or
/// the producer has ended.
#[derive(Debug, Clone, Copy, PartialEq, Eq, Structural)]
pub enum BufferChangeEvent {
    NewElement,
    Kill,
}

/// The segments of a queue, head first.
pub open spec fn segments(queue: Seq<MessageBuffer>) -> Seq<Segment> {
    Seq::new(queue.len(), |i: int| queue[i]@)
}

/// The texts of a run of segments.
pub open spec fn texts(run: Seq<Segment>) -> Seq<Seq<char>> {
    Seq::new(run.len(), |i: int| run[i].text)
}

/// The lines joined by single line feeds.
pub open spec fn joined(lines: Seq<Seq<char>>) -> Seq<char> {
    joined_by(lines, '\n')
}

} // verus!
