//! The pending queue: segments wait here, oldest first, until the sender
//! takes the next batch from its head.

use std::collections::VecDeque;
use vstd::prelude::*;
use vstd::string::StrSliceExecFns;
use vstd::string::StringExecFns;
use crate::message::{joined, segments, texts, BufferChangeEvent, MessageBuffer, Segment};

verus! {

/// The platform's limit on one message, in characters. A batch that grew by
/// merging stays below it.
pub const MESSAGE_LIMIT: usize = 4096;

/// Whether a batch of `length` characters stops before the segment `next`.
pub open spec fn stops_before(length: nat, next: Segment) -> bool {
    next.overwrite || length + next.text.len() + 1 >= MESSAGE_LIMIT
}

/// How many segments of `rest`, from its head, are merged into a batch that
/// holds `length` characters so far.
pub open spec fn merged(length: nat, rest: Seq<Segment>) -> nat
    decreases rest.len(),
{
    if rest.len() == 0 || stops_before(length, rest[0]) {
        0
    } else {
        1 + merged(length + rest[0].text.len() + 1, rest.skip(1))
    }
}

/// How many segments the next batch takes from the head of `queue`.
pub open spec fn batch_size(queue: Seq<Segment>) -> nat
    recommends
        queue.len() > 0,
{
    if queue[0].overwrite {
        1
    } else {
        1 + merged(queue[0].text.len(), queue.skip(1))
    }
}

/// The next batch of a queue that is not empty: the kind of its head, and
/// the texts of the segments it takes, joined by line feeds.
pub open spec fn batch(queue: Seq<Segment>) -> Segment
    recommends
        queue.len() > 0,
{
    Segment {
        overwrite: queue[0].overwrite,
        text: joined(texts(queue.take(batch_size(queue) as int))),
    }
}

/// Merging takes no more segments than there are.
pub proof fn lemma_merged_bound(length: nat, rest: Seq<Segment>)
    ensures
        merged(length, rest) <= rest.len(),
    decreases rest.len(),
{
    if !(rest.len() == 0 || stops_before(length, rest[0])) {
        lemma_merged_bound(length + rest[0].text.len() + 1, rest.skip(1));
    }
}

/// A batch takes at least the head and no more than the queue holds.
pub proof fn lemma_batch_size_bound(queue: Seq<Segment>)
    requires
        queue.len() > 0,
    ensures
        1 <= batch_size(queue) <= queue.len(),
{
    lemma_merged_bound(queue[0].text.len(), queue.skip(1));
}

/// Only newline segments are merged.
pub proof fn lemma_merged_are_newlines(length: nat, rest: Seq<Segment>, i: int)
    requires
        0 <= i < merged(length, rest),
    ensures
        i < rest.len(),
        !rest[i].overwrite,
    decreases rest.len(),
{
    if i > 0 {
        lemma_merged_are_newlines(length + rest[0].text.len() + 1, rest.skip(1), i - 1);
    }
}

/// A carriage-return segment at the head of the queue makes a batch of its
/// own: nothing is merged into it, and its text is not changed.
pub proof fn lemma_carriage_return_alone(queue: Seq<Segment>)
    requires
        queue.len() > 0,
        queue[0].overwrite,
    ensures
        batch_size(queue) == 1,
        batch(queue) == queue[0],
{
    assert(texts(queue.take(1)) =~= seq![queue[0].text]);
}

/// Every segment that a batch takes is of the kind of the head: a batch
/// that a newline segment began holds no carriage-return segment.
pub proof fn lemma_batch_of_one_kind(queue: Seq<Segment>, i: int)
    requires
        queue.len() > 0,
        0 <= i < batch_size(queue),
    ensures
        i < queue.len(),
        queue[i].overwrite == queue[0].overwrite,
{
    if !queue[0].overwrite && i > 0 {
        lemma_merged_are_newlines(queue[0].text.len(), queue.skip(1), i - 1);
    }
}

/// Lines that stay below the limit when joined still do so after the
/// segments of `rest` that merge behind them are added.
proof fn lemma_merged_below_limit(lines: Seq<Seq<char>>, rest: Seq<Segment>)
    requires
        lines.len() >= 1,
        joined(lines).len() < MESSAGE_LIMIT,
    ensures
        merged(joined(lines).len(), rest) <= rest.len(),
        joined(lines + texts(rest.take(merged(joined(lines).len(), rest) as int))).len()
            < MESSAGE_LIMIT,
    decreases rest.len(),
{
    let length = joined(lines).len();
    lemma_merged_bound(length, rest);
    if rest.len() == 0 || stops_before(length, rest[0]) {
        assert(lines + texts(rest.take(0)) =~= lines);
    } else {
        let more = lines.push(rest[0].text);
        assert(more.drop_last() =~= lines);
        assert(joined(more) =~= joined(lines) + seq!['\n'] + rest[0].text);
        lemma_merged_below_limit(more, rest.skip(1));
        let count = merged(joined(more).len(), rest.skip(1));
        assert(lines + texts(rest.take((count + 1) as int)) =~= more + texts(rest.skip(1).take(count as int)));
    }
}

/// A batch whose head is below the limit is below the limit: merging never
/// takes it to `MESSAGE_LIMIT` characters, line feeds counted.
pub proof fn lemma_batch_below_limit(queue: Seq<Segment>)
    requires
        queue.len() > 0,
        queue[0].text.len() < MESSAGE_LIMIT,
    ensures
        batch(queue).text.len() < MESSAGE_LIMIT,
{
    let head = seq![queue[0].text];
    assert(joined(head) == queue[0].text);
    if queue[0].overwrite {
        lemma_carriage_return_alone(queue);
    } else {
        lemma_merged_below_limit(head, queue.skip(1));
        let count = merged(queue[0].text.len(), queue.skip(1));
        assert(head + texts(queue.skip(1).take(count as int)) =~= texts(queue.take((1 + count) as int)));
    }
}

/// Appends `msg` at the tail of the queue and says which signal is due.
pub fn append_to_send_buffer(queue: &mut VecDeque<MessageBuffer>, msg: MessageBuffer) -> (event:
    BufferChangeEvent)
    ensures
        final(queue)@ == old(queue)@.push(msg),
        event == BufferChangeEvent::NewElement,
{
    queue.push_back(msg);
    BufferChangeEvent::NewElement
}

/// Takes the next batch from the head of the queue. A carriage-return
/// segment leaves alone. A newline segment takes the newline segments behind
/// it along, joined by line feeds, for as long as the batch stays below
/// `MESSAGE_LIMIT`; the segment at which merging stops stays at the head.
pub fn combine_messages(queue: &mut VecDeque<MessageBuffer>) -> (to_send: MessageBuffer)
    requires
        old(queue)@.len() > 0,
    ensures
        to_send@ == batch(segments(old(queue)@)),
        final(queue)@ == old(queue)@.skip(batch_size(segments(old(queue)@)) as int),
        old(queue)@[0]@.text.len() < MESSAGE_LIMIT ==> to_send@.text.len() < MESSAGE_LIMIT,
{
    let ghost all = segments(queue@);
    let head = queue.pop_front().unwrap();
    assert(queue@ =~= old(queue)@.skip(1));
    assert(all[0] == head@);
    assert(all.take(1) =~= seq![head@]);
    assert(texts(all.take(1)) =~= seq![head@.text]);
    match head {
        MessageBuffer::CarriageReturn(msg) => MessageBuffer::CarriageReturn(msg),
        MessageBuffer::Newline(msg) => {
            let mut message = msg;
            let mut message_length = message.as_str().unicode_len();
            let ghost mut taken: int = 1;
            let mut full = false;
            while !full && queue.len() > 0
                invariant
                    all == segments(old(queue)@),
                    1 <= taken <= all.len(),
                    !all[0].overwrite,
                    queue@ == old(queue)@.skip(taken),
                    message@ == joined(texts(all.take(taken))),
                    message_length == message@.len(),
                    batch_size(all) == taken + merged(message@.len(), all.skip(taken)),
                    full ==> merged(message@.len(), all.skip(taken)) == 0,
                    old(queue)@[0]@.text.len() < MESSAGE_LIMIT ==> message@.len() < MESSAGE_LIMIT,
                decreases queue@.len() + if full { 0nat } else { 1nat },
            {
                let next = queue.pop_front().unwrap();
                assert(next@ == all.skip(taken)[0]);
                assert(queue@ =~= old(queue)@.skip(taken + 1));
                match next {
                    MessageBuffer::Newline(line) => {
                        let line_length = line.as_str().unicode_len();
                        if line_length >= MESSAGE_LIMIT || message_length >= MESSAGE_LIMIT
                            || line_length + message_length + 1 >= MESSAGE_LIMIT {
                            queue.push_front(MessageBuffer::Newline(line));
                            assert(queue@ =~= old(queue)@.skip(taken));
                            full = true;
                        } else {
                            message.push('\n');
                            message.append(line.as_str());
                            message_length += line_length + 1;
                            proof {
                                let before = texts(all.take(taken));
                                let after = texts(all.take(taken + 1));
                                assert(after.drop_last() =~= before);
                                assert(after.last() == line@);
                                assert(message@ =~= joined(after));
                                assert(all.skip(taken).skip(1) =~= all.skip(taken + 1));
                                taken = taken + 1;
                            }
                        }
                    },
                    MessageBuffer::CarriageReturn(line) => {
                        queue.push_front(MessageBuffer::CarriageReturn(line));
                        assert(queue@ =~= old(queue)@.skip(taken));
                        full = true;
                    },
                }
            }
            MessageBuffer::Newline(message)
        },
    }
}

} // verus!
