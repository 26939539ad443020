//! The segmenter: it takes the input one character at a time and cuts it
//! into message segments at line feeds, at carriage returns, and where the
//! unflushed input reaches the length of one message.

use vstd::prelude::*;
use crate::message::{segments, BufferChangeEvent, MessageBuffer, Segment};
use crate::queue::MESSAGE_LIMIT;
use crate::text::chars_of;

verus! {

/// `s` without its carriage returns.
pub open spec fn stripped(s: Seq<char>) -> Seq<char> {
    s.filter(|c: char| c != '\r')
}

/// `s` without its carriage returns and line feeds.
pub open spec fn payload(s: Seq<char>) -> Seq<char> {
    s.filter(|c: char| c != '\r' && c != '\n')
}

/// The segment that a flush makes of the unflushed input: its text is the
/// input without carriage returns, and it overwrites exactly when there
/// was one.
pub open spec fn flushed(buffer: Seq<char>) -> Segment {
    Segment { overwrite: buffer.contains('\r'), text: stripped(buffer) }
}

/// What one character does: the unflushed input after it, and the segment
/// that it flushed, if any. A line feed or a carriage return flushes what
/// stands before it; the line feed is dropped, the carriage return begins
/// the next run. Any other character is added, and flushes the run once it
/// is `MESSAGE_LIMIT` characters long.
pub open spec fn fed(buffer: Seq<char>, c: char) -> (Seq<char>, Option<Segment>) {
    if c == '\n' {
        (Seq::empty(), Some(flushed(buffer)))
    } else if c == '\r' {
        (seq![c], Some(flushed(buffer)))
    } else if buffer.len() + 1 >= MESSAGE_LIMIT {
        (Seq::empty(), Some(flushed(buffer.push(c))))
    } else {
        (buffer.push(c), None)
    }
}

/// What a run of characters does, one after the other: the unflushed input
/// after the last of them, and the segments flushed on the way, in order.
pub open spec fn fed_all(buffer: Seq<char>, input: Seq<char>) -> (Seq<char>, Seq<Segment>)
    decreases input.len(),
{
    if input.len() == 0 {
        (buffer, Seq::empty())
    } else {
        let (before, emitted) = fed_all(buffer, input.drop_last());
        let (after, segment) = fed(before, input.last());
        (
            after,
            match segment {
                Some(s) => emitted.push(s),
                None => emitted,
            },
        )
    }
}

/// The texts of the segments, one behind the other.
pub open spec fn all_text(emitted: Seq<Segment>) -> Seq<char>
    decreases emitted.len(),
{
    if emitted.len() == 0 {
        Seq::empty()
    } else {
        all_text(emitted.drop_last()) + emitted.last().text
    }
}

/// What holds of the unflushed input between two characters: it is shorter
/// than one message, holds no line feed, and a carriage return only as its
/// first character.
pub open spec fn unflushed(buffer: Seq<char>) -> bool {
    &&& buffer.len() < MESSAGE_LIMIT
    &&& forall|i: int| 0 <= i < buffer.len() ==> buffer[i] != '\n'
    &&& forall|i: int| 0 < i < buffer.len() ==> buffer[i] != '\r'
}

/// The state of the segmenter in the contracts.
pub struct ProcessorState {
    pub buffer: Seq<char>,
    pub closed: bool,
}

/// The state after `close`.
pub open spec fn closed(state: ProcessorState) -> ProcessorState {
    ProcessorState { buffer: state.buffer, closed: true }
}

/// The signal that `close` owes in `state`: the kill signal once.
pub open spec fn closing_signal(state: ProcessorState) -> Option<BufferChangeEvent> {
    if state.closed {
        None
    } else {
        Some(BufferChangeEvent::Kill)
    }
}

/// A segment in the contracts, where there is one.
pub open spec fn segment_view(segment: Option<MessageBuffer>) -> Option<Segment> {
    match segment {
        Some(s) => Some(s@),
        None => None,
    }
}

/// The segmenter.
#[derive(Debug)]
pub struct TeleechoProcessor {
    /// The raw input since the last flush.
    input_buffer: String,
    /// How many characters `input_buffer` holds.
    input_buffer_size: usize,
    /// Whether `close` has been called.
    closed: bool,
}

impl View for TeleechoProcessor {
    type V = ProcessorState;

    closed spec fn view(&self) -> ProcessorState {
        ProcessorState { buffer: self.input_buffer@, closed: self.closed }
    }
}

impl TeleechoProcessor {
    /// Whether the counter agrees with the buffer.
    pub closed spec fn counted(&self) -> bool {
        self.input_buffer_size == self.input_buffer@.len()
    }

    /// The invariant of the segmenter.
    pub open spec fn wf(&self) -> bool {
        self.counted() && unflushed(self@.buffer)
    }

    /// A segmenter with no input yet.
    pub fn create() -> (processor: TeleechoProcessor)
        ensures
            processor.wf(),
            processor@ == (ProcessorState { buffer: Seq::empty(), closed: false }),
    {
        TeleechoProcessor { input_buffer: String::new(), input_buffer_size: 0, closed: false }
    }

    /// Whether `close` has been called.
    pub fn is_closed(&self) -> (closed: bool)
        ensures
            closed == self@.closed,
    {
        self.closed
    }

    /// Ends the relay. The first call returns the kill signal, which the
    /// caller passes on to the sender; any later call changes nothing and
    /// returns no signal.
    pub fn close(&mut self) -> (signal: Option<BufferChangeEvent>)
        ensures
            final(self)@ == closed(old(self)@),
            signal == closing_signal(old(self)@),
            old(self).wf() ==> final(self).wf(),
    {
        if self.closed {
            None
        } else {
            self.closed = true;
            Some(BufferChangeEvent::Kill)
        }
    }

    /// Flushes the unflushed input into a segment and starts afresh.
    pub fn convert_to_message(&mut self) -> (message: MessageBuffer)
        ensures
            message@ == flushed(old(self)@.buffer),
            final(self)@ == (ProcessorState { buffer: Seq::empty(), closed: old(self)@.closed }),
            final(self).wf(),
    {
        let chars = chars_of(self.input_buffer.as_str());
        let mut message_text = String::new();
        let mut is_carriage_return = false;
        let mut i: usize = 0;
        proof {
            lemma_stripped_empty();
            assert(chars@.take(0) =~= Seq::empty());
        }
        while i < chars.len()
            invariant
                i <= chars.len(),
                message_text@ == stripped(chars@.take(i as int)),
                is_carriage_return == chars@.take(i as int).contains('\r'),
            decreases chars.len() - i,
        {
            let ch = chars[i];
            proof {
                lemma_flushed_push(chars@.take(i as int), ch);
                assert(chars@.take(i + 1) =~= chars@.take(i as int).push(ch));
            }
            if ch == '\r' {
                is_carriage_return = true;
            } else {
                message_text.push(ch);
            }
            i += 1;
        }
        assert(chars@.take(i as int) =~= chars@);
        self.input_buffer = String::new();
        self.input_buffer_size = 0;
        if is_carriage_return {
            MessageBuffer::CarriageReturn(message_text)
        } else {
            MessageBuffer::Newline(message_text)
        }
    }

    /// Takes one character of input and returns the segment that it
    /// flushed, if any.
    pub fn append_to_input_buffer(&mut self, c: char) -> (message: Option<MessageBuffer>)
        requires
            old(self).wf(),
        ensures
            final(self).wf(),
            final(self)@.closed == old(self)@.closed,
            (final(self)@.buffer, segment_view(message)) == fed(old(self)@.buffer, c),
    {
        let mut message: Option<MessageBuffer> = None;
        if c == '\n' || c == '\r' {
            message = Some(self.convert_to_message());
        }
        if c != '\n' {
            self.input_buffer.push(c);
            self.input_buffer_size += 1;
        }
        if self.input_buffer_size >= MESSAGE_LIMIT {
            message = Some(self.convert_to_message());
        }
        proof {
            lemma_fed_unflushed(old(self)@.buffer, c);
            assert(Seq::<char>::empty().push(c) =~= seq![c]);
        }
        message
    }

    /// Takes a text, character by character, and returns the segments that
    /// it flushed, in order.
    pub fn feed(&mut self, text: &str) -> (messages: Vec<MessageBuffer>)
        requires
            old(self).wf(),
        ensures
            final(self).wf(),
            final(self)@.closed == old(self)@.closed,
            (final(self)@.buffer, segments(messages@)) == fed_all(old(self)@.buffer, text@),
    {
        let chars = chars_of(text);
        let mut messages: Vec<MessageBuffer> = Vec::new();
        let mut i: usize = 0;
        assert(chars@.take(0) =~= Seq::empty());
        assert(segments(messages@) =~= Seq::empty());
        while i < chars.len()
            invariant
                i <= chars.len(),
                self.wf(),
                self@.closed == old(self)@.closed,
                (self@.buffer, segments(messages@)) == fed_all(
                    old(self)@.buffer,
                    chars@.take(i as int),
                ),
            decreases chars.len() - i,
        {
            let ghost emitted = segments(messages@);
            assert(chars@.take(i + 1).drop_last() =~= chars@.take(i as int));
            match self.append_to_input_buffer(chars[i]) {
                Some(message) => {
                    messages.push(message);
                    assert(segments(messages@) =~= emitted.push(message@));
                },
                None => {},
            }
            i += 1;
        }
        assert(chars@.take(i as int) =~= chars@);
        messages
    }
}

/// Nothing is left of an empty input.
pub proof fn lemma_stripped_empty()
    ensures
        stripped(Seq::empty()) == Seq::<char>::empty(),
        payload(Seq::empty()) == Seq::<char>::empty(),
        !Seq::<char>::empty().contains('\r'),
{
    reveal(Seq::filter);
}

/// One more character of unflushed input: a carriage return marks the
/// segment and adds nothing to its text, any other character is added.
pub proof fn lemma_flushed_push(buffer: Seq<char>, c: char)
    ensures
        stripped(buffer.push(c)) == if c == '\r' {
            stripped(buffer)
        } else {
            stripped(buffer).push(c)
        },
        buffer.push(c).contains('\r') == (c == '\r' || buffer.contains('\r')),
{
    buffer.lemma_filter_push(c, |c: char| c != '\r');
    let more = buffer.push(c);
    if c == '\r' {
        assert(more[buffer.len() as int] == '\r');
    }
    if buffer.contains('\r') {
        let i = choose|i: int| 0 <= i < buffer.len() && buffer[i] == '\r';
        assert(more[i] == '\r');
    }
    if more.contains('\r') && c != '\r' {
        let i = choose|i: int| 0 <= i < more.len() && more[i] == '\r';
        assert(buffer[i] == '\r');
    }
}

/// Between two characters the unflushed input stays as `unflushed` says,
/// and a segment that is flushed holds neither a carriage return nor a line
/// feed, and at most `MESSAGE_LIMIT` characters.
pub proof fn lemma_fed_unflushed(buffer: Seq<char>, c: char)
    requires
        unflushed(buffer),
    ensures
        unflushed(fed(buffer, c).0),
        fed(buffer, c).1 is Some ==> {
            let text = fed(buffer, c).1->0.text;
            &&& text.len() <= MESSAGE_LIMIT
            &&& forall|i: int| 0 <= i < text.len() ==> text[i] != '\r' && text[i] != '\n'
        },
{
    if fed(buffer, c).1 is Some {
        let source = if c == '\n' || c == '\r' {
            buffer
        } else {
            buffer.push(c)
        };
        let text = stripped(source);
        source.lemma_filter_len(|c: char| c != '\r');
        assert forall|i: int| 0 <= i < text.len() implies text[i] != '\r' && text[i] != '\n' by {
            source.lemma_filter_pred(|c: char| c != '\r', i);
            source.lemma_filter_contains_rev(|c: char| c != '\r', text[i]);
        }
    }
}

/// What one character adds to the text that is kept: itself, unless it is
/// a carriage return or a line feed.
pub open spec fn kept(c: char) -> Seq<char> {
    if c == '\r' || c == '\n' {
        Seq::empty()
    } else {
        seq![c]
    }
}

/// The text of a segment, where there is one.
pub open spec fn text_of(segment: Option<Segment>) -> Seq<char> {
    match segment {
        Some(s) => s.text,
        None => Seq::empty(),
    }
}

/// One character loses nothing but itself, and itself only where it is a
/// carriage return or a line feed.
pub proof fn lemma_fed_keeps_text(buffer: Seq<char>, c: char)
    ensures
        text_of(fed(buffer, c).1) + stripped(fed(buffer, c).0) == stripped(buffer) + kept(c),
{
    lemma_stripped_empty();
    lemma_flushed_push(buffer, c);
    lemma_flushed_push(Seq::empty(), c);
    assert(Seq::<char>::empty().push(c) =~= seq![c]);
    assert(text_of(fed(buffer, c).1) + stripped(fed(buffer, c).0) =~= stripped(buffer) + kept(c));
}

/// Nothing but carriage returns and line feeds is lost: the texts of the
/// segments that a run of input flushed, followed by what is still
/// unflushed, are the input without its carriage returns and line feeds,
/// behind what was unflushed before. So the characters of the emitted
/// texts and of the unflushed rest number as many as the characters of the
/// input that are neither a carriage return nor a line feed.
pub proof fn lemma_feed_keeps_text(buffer: Seq<char>, input: Seq<char>)
    requires
        unflushed(buffer),
    ensures
        unflushed(fed_all(buffer, input).0),
        all_text(fed_all(buffer, input).1) + stripped(fed_all(buffer, input).0) == stripped(buffer)
            + payload(input),
        all_text(fed_all(buffer, input).1).len() + stripped(fed_all(buffer, input).0).len()
            == stripped(buffer).len() + payload(input).len(),
    decreases input.len(),
{
    lemma_stripped_empty();
    if input.len() == 0 {
        assert(input =~= Seq::empty());
        assert(all_text(fed_all(buffer, input).1) + stripped(buffer) =~= stripped(buffer)
            + payload(input));
    } else {
        let front = input.drop_last();
        let c = input.last();
        lemma_feed_keeps_text(buffer, front);
        let (before, emitted) = fed_all(buffer, front);
        let (after, segment) = fed(before, c);
        let all = fed_all(buffer, input).1;
        lemma_fed_unflushed(before, c);
        lemma_fed_keeps_text(before, c);
        front.lemma_filter_push(c, |c: char| c != '\r' && c != '\n');
        assert(front.push(c) =~= input);
        assert(payload(input) =~= payload(front) + kept(c));
        if segment is Some {
            assert(all.drop_last() =~= emitted);
        }
        assert(all_text(all) =~= all_text(emitted) + text_of(segment));
        assert(all_text(all) + stripped(after) =~= all_text(emitted) + (text_of(segment) + stripped(
            after,
        )));
        assert(all_text(emitted) + (stripped(before) + kept(c)) =~= (all_text(emitted) + stripped(
            before,
        )) + kept(c));
        assert((stripped(buffer) + payload(front)) + kept(c) =~= stripped(buffer) + (payload(front)
            + kept(c)));
    }
}

/// Closing twice is closing once: the second call changes nothing and
/// owes no signal.
pub proof fn lemma_close_twice(state: ProcessorState)
    ensures
        closed(closed(state)) == closed(state),
        closing_signal(closed(state)) is None,
{
}

} // verus!
