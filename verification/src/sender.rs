//! The decisions of the sender: how long to wait before the next dispatch,
//! what to dispatch for a batch, and what to remember of the outcome. The
//! caller owns the connection and the clock; it performs what is decided
//! here and reports back.

use std::collections::VecDeque;
use vstd::prelude::*;
use crate::message::{segments, BufferChangeEvent, MessageBuffer, Segment};
use crate::queue::{batch, batch_size, combine_messages};
use crate::text::{replace_last_line, with_last_line};

verus! {

/// The least time between two dispatches, in nanoseconds.
pub const SEND_INTERVAL: u64 = 1_000_000_000;

/// `time::precise_time_ns`: the nanoseconds that a clock of the machine
/// counts from a moment that is not said. Nothing is claimed of the value.
#[verifier::external_body]
fn precise_time_ns() -> u64 {
    time::precise_time_ns()
}

/// The message that was dispatched last, as the service reported it.
#[derive(Debug, Clone, PartialEq, Eq)]
pub struct SentMessage {
    pub chat_id: i64,
    pub message_id: i64,
    pub text: String,
}

/// A `SentMessage` in the contracts.
pub struct SentText {
    pub chat_id: i64,
    pub message_id: i64,
    pub text: Seq<char>,
}

impl View for SentMessage {
    type V = SentText;

    open spec fn view(&self) -> SentText {
        SentText { chat_id: self.chat_id, message_id: self.message_id, text: self.text@ }
    }
}

/// What the caller is to do for one batch.
#[derive(Debug, Clone, PartialEq, Eq)]
pub enum Dispatch {
    /// Nothing goes out: the text is empty, or it repeats the last message.
    Nothing,
    /// Nothing goes out: a line was to be overwritten, but no message has
    /// been sent yet.
    NoPreviousMessage,
    /// Send `text` to `user_id` as a new message.
    Send { user_id: i64, text: String },
    /// Replace the text of the message `message_id` in `chat_id` by `text`.
    Edit { chat_id: i64, message_id: i64, text: String },
}

/// A `Dispatch` in the contracts.
pub enum Decision {
    Nothing,
    NoPreviousMessage,
    Send { user_id: i64, text: Seq<char> },
    Edit { chat_id: i64, message_id: i64, text: Seq<char> },
}

impl View for Dispatch {
    type V = Decision;

    open spec fn view(&self) -> Decision {
        match *self {
            Dispatch::Nothing => Decision::Nothing,
            Dispatch::NoPreviousMessage => Decision::NoPreviousMessage,
            Dispatch::Send { user_id, text } => Decision::Send { user_id, text: text@ },
            Dispatch::Edit { chat_id, message_id, text } => Decision::Edit {
                chat_id,
                message_id,
                text: text@,
            },
        }
    }
}

/// What the sender does on a signal.
#[derive(Debug, Clone, Copy, PartialEq, Eq, Structural)]
pub enum Step {
    /// The producer has ended: stop, whatever is still queued.
    Stop,
    /// Sleep for so many nanoseconds, then take the next dispatch.
    Wait(u64),
}

/// The state of the sender in the contracts.
pub struct SenderState {
    pub last_sent_message: Option<SentText>,
    pub last_send_time: Option<u64>,
    pub user_id: i64,
}

/// How long to wait at `now` when the last dispatch ended at
/// `last_send_time`: the rest of the interval, nothing once it has passed
/// or before the first dispatch. A clock that went back counts as no time
/// passed.
pub open spec fn wait_for(last_send_time: Option<u64>, now: u64) -> u64 {
    match last_send_time {
        None => 0,
        Some(last) => if now <= last {
            SEND_INTERVAL
        } else if now - last < SEND_INTERVAL {
            (SEND_INTERVAL - (now - last)) as u64
        } else {
            0
        },
    }
}

/// What to do with a new line `text` for `user_id`.
pub open spec fn send_decision(user_id: i64, text: Seq<char>) -> Decision {
    if text.len() == 0 {
        Decision::Nothing
    } else {
        Decision::Send { user_id, text }
    }
}

/// What to do with a line `text` that overwrites the last line of `last`.
pub open spec fn override_decision(last: Option<SentText>, text: Seq<char>) -> Decision {
    if text.len() == 0 {
        Decision::Nothing
    } else {
        match last {
            None => Decision::NoPreviousMessage,
            Some(sent) => if sent.text == text {
                Decision::Nothing
            } else {
                Decision::Edit {
                    chat_id: sent.chat_id,
                    message_id: sent.message_id,
                    text: with_last_line(sent.text, text),
                }
            },
        }
    }
}

/// What to do with a batch.
pub open spec fn batch_decision(state: SenderState, to_send: Segment) -> Decision {
    if to_send.overwrite {
        override_decision(state.last_sent_message, to_send.text)
    } else {
        send_decision(state.user_id, to_send.text)
    }
}

/// The sender's memory: the last message that went out, when the last
/// dispatch ended, and whom the messages are for.
#[derive(Debug)]
pub struct TeleechoSender {
    last_sent_message: Option<SentMessage>,
    last_send_time: Option<u64>,
    user_id: i64,
}

impl View for TeleechoSender {
    type V = SenderState;

    closed spec fn view(&self) -> SenderState {
        SenderState {
            last_sent_message: match self.last_sent_message {
                Some(sent) => Some(sent@),
                None => None,
            },
            last_send_time: self.last_send_time,
            user_id: self.user_id,
        }
    }
}

impl TeleechoSender {
    /// A sender for `user_id` that has sent nothing yet.
    pub fn create(user_id: i64) -> (sender: TeleechoSender)
        ensures
            sender@ == (SenderState { last_sent_message: None, last_send_time: None, user_id }),
    {
        TeleechoSender { last_sent_message: None, last_send_time: None, user_id }
    }

    /// The last message that went out, if any.
    pub fn last_sent_message(&self) -> (last: Option<&SentMessage>)
        ensures
            match last {
                Some(sent) => self@.last_sent_message == Some(sent@),
                None => self@.last_sent_message is None,
            },
    {
        self.last_sent_message.as_ref()
    }

    /// When the last dispatch ended, if there was one.
    pub fn last_send_time(&self) -> (time: Option<u64>)
        ensures
            time == self@.last_send_time,
    {
        self.last_send_time
    }

    /// Whom the messages are for.
    pub fn user_id(&self) -> (user_id: i64)
        ensures
            user_id == self@.user_id,
    {
        self.user_id
    }

    /// How many nanoseconds to sleep at `now` before the next dispatch, so
    /// that a full interval lies between the end of one dispatch and the
    /// start of the next.
    pub fn wait_time(&self, now: u64) -> (nanos: u64)
        ensures
            nanos == wait_for(self@.last_send_time, now),
            nanos <= SEND_INTERVAL,
            self@.last_send_time is Some ==> now + nanos >= self@.last_send_time->0 + SEND_INTERVAL
                || now < self@.last_send_time->0,
    {
        match self.last_send_time {
            None => 0,
            Some(last) => {
                if now <= last {
                    SEND_INTERVAL
                } else if now - last < SEND_INTERVAL {
                    SEND_INTERVAL - (now - last)
                } else {
                    0
                }
            },
        }
    }

    /// What to do on a signal that arrives at `now`.
    pub fn receive(&self, event: BufferChangeEvent, now: u64) -> (step: Step)
        ensures
            step == match event {
                BufferChangeEvent::Kill => Step::Stop,
                BufferChangeEvent::NewElement => Step::Wait(wait_for(self@.last_send_time, now)),
            },
    {
        match event {
            BufferChangeEvent::Kill => Step::Stop,
            BufferChangeEvent::NewElement => Step::Wait(self.wait_time(now)),
        }
    }

    /// What to do on a signal that arrives now, by the clock of the
    /// machine: stop on the kill signal; else wait, for no longer than one
    /// interval, and not at all before the first dispatch.
    pub fn receive_now(&self, event: BufferChangeEvent) -> (step: Step)
        ensures
            event == BufferChangeEvent::Kill ==> step == Step::Stop,
            event == BufferChangeEvent::NewElement ==> exists|now: u64|
                step == Step::Wait(#[trigger] wait_for(self@.last_send_time, now)),
            event == BufferChangeEvent::NewElement ==> step is Wait && step->0 <= SEND_INTERVAL,
            event == BufferChangeEvent::NewElement && self@.last_send_time is None ==> step
                == Step::Wait(0),
    {
        self.receive(event, precise_time_ns())
    }

    /// A text that is not empty goes out as a new message.
    pub fn send(&self, s: String) -> (dispatch: Dispatch)
        ensures
            dispatch@ == send_decision(self@.user_id, s@),
    {
        if s.as_str().is_empty() {
            Dispatch::Nothing
        } else {
            Dispatch::Send { user_id: self.user_id, text: s }
        }
    }

    /// A text that is not empty replaces the last line of the last message,
    /// unless no message has gone out yet or the last one reads exactly so.
    pub fn override_last(&self, s: String) -> (dispatch: Dispatch)
        ensures
            dispatch@ == override_decision(self@.last_sent_message, s@),
    {
        if s.as_str().is_empty() {
            return Dispatch::Nothing;
        }
        match &self.last_sent_message {
            None => Dispatch::NoPreviousMessage,
            Some(sent) => {
                if sent.text == s {
                    Dispatch::Nothing
                } else {
                    Dispatch::Edit {
                        chat_id: sent.chat_id,
                        message_id: sent.message_id,
                        text: replace_last_line(sent.text.as_str(), s.as_str()),
                    }
                }
            },
        }
    }

    /// What to do with a batch: a newline batch is sent, a carriage-return
    /// batch overwrites.
    pub fn dispatch(&self, to_send: MessageBuffer) -> (dispatch: Dispatch)
        ensures
            dispatch@ == batch_decision(self@, to_send@),
    {
        match to_send {
            MessageBuffer::Newline(msg) => self.send(msg),
            MessageBuffer::CarriageReturn(msg) => self.override_last(msg),
        }
    }

    /// Takes the next batch from the queue, if it holds any segment, and
    /// says what to do with it. An empty queue is left alone: the segment
    /// that a signal announced may have gone out with an earlier batch.
    pub fn next_dispatch(&self, queue: &mut VecDeque<MessageBuffer>) -> (next: Option<Dispatch>)
        ensures
            old(queue)@.len() == 0 ==> next is None && final(queue)@ == old(queue)@,
            old(queue)@.len() > 0 ==> {
                &&& next is Some
                &&& next->0@ == batch_decision(self@, batch(segments(old(queue)@)))
                &&& final(queue)@ == old(queue)@.skip(batch_size(segments(old(queue)@)) as int)
            },
    {
        if queue.len() > 0 {
            let to_send = combine_messages(queue);
            Some(self.dispatch(to_send))
        } else {
            None
        }
    }

    /// Records how a dispatch ended at `now`. A message that the service
    /// reports becomes the last sent message; after a failure, and where
    /// nothing went out, the one before stays. The time is recorded either way.
    pub fn dispatch_finished(&mut self, sent: Option<SentMessage>, now: u64)
        ensures
            final(self)@ == (SenderState {
                last_sent_message: match sent {
                    Some(message) => Some(message@),
                    None => old(self)@.last_sent_message,
                },
                last_send_time: Some(now),
                user_id: old(self)@.user_id,
            }),
    {
        match sent {
            Some(message) => {
                self.last_sent_message = Some(message);
            },
            None => {},
        }
        self.last_send_time = Some(now);
    }

    /// Records how a dispatch ended now, by the clock of the machine.
    pub fn dispatch_finished_now(&mut self, sent: Option<SentMessage>)
        ensures
            final(self)@.last_sent_message == match sent {
                Some(message) => Some(message@),
                None => old(self)@.last_sent_message,
            },
            final(self)@.last_send_time is Some,
            final(self)@.user_id == old(self)@.user_id,
    {
        self.dispatch_finished(sent, precise_time_ns());
    }
}

/// Once a dispatch has ended, the sender waits until a full interval has
/// passed: whenever the clock has not gone back, the next dispatch starts no
/// earlier than `SEND_INTERVAL` after the end of the last.
pub proof fn lemma_wait_keeps_interval(last: u64, now: u64)
    requires
        last <= now,
    ensures
        now + wait_for(Some(last), now) >= last + SEND_INTERVAL,
        now - last >= SEND_INTERVAL ==> wait_for(Some(last), now) == 0,
{
}

/// Overwriting a message of one line with `text`, and then again with the
/// same `text` once the service has reported the edit, asks for one edit
/// only: the second call finds the text in place.
pub proof fn lemma_repeated_override(sent: SentText, text: Seq<char>)
    requires
        text.len() > 0,
        sent.text != text,
        forall|i: int| 0 <= i < sent.text.len() ==> sent.text[i] != '\n',
    ensures
        override_decision(Some(sent), text) == (Decision::Edit {
            chat_id: sent.chat_id,
            message_id: sent.message_id,
            text,
        }),
        override_decision(
            Some(SentText { chat_id: sent.chat_id, message_id: sent.message_id, text }),
            text,
        ) == Decision::Nothing,
{
    crate::text::lemma_last_line_start_unique(sent.text, 0);
    assert(with_last_line(sent.text, text) =~= text);
}

} // verus!
