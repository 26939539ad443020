use std::collections::VecDeque;
use teleecho::message::{BufferChangeEvent, MessageBuffer};
use teleecho::processor::TeleechoProcessor;
use teleecho::queue::{append_to_send_buffer, combine_messages, MESSAGE_LIMIT};

fn newline(s: &str) -> MessageBuffer {
    MessageBuffer::Newline(s.to_string())
}

fn carriage_return(s: &str) -> MessageBuffer {
    MessageBuffer::CarriageReturn(s.to_string())
}

fn queue_of(items: Vec<MessageBuffer>) -> VecDeque<MessageBuffer> {
    let mut q = VecDeque::new();
    for m in items {
        append_to_send_buffer(&mut q, m);
    }
    q
}

#[test]
fn limit_is_the_platform_limit() {
    assert_eq!(MESSAGE_LIMIT, 4096);
}

#[test]
fn append_goes_to_the_tail_and_signals() {
    let mut q = VecDeque::new();
    assert_eq!(
        append_to_send_buffer(&mut q, newline("a")),
        BufferChangeEvent::NewElement
    );
    assert_eq!(
        append_to_send_buffer(&mut q, carriage_return("b")),
        BufferChangeEvent::NewElement
    );
    assert_eq!(
        append_to_send_buffer(&mut q, carriage_return("c")),
        BufferChangeEvent::NewElement
    );
    let all: Vec<MessageBuffer> = q.into_iter().collect();
    assert_eq!(all, vec![newline("a"), carriage_return("b"), carriage_return("c")]);
}

#[test]
fn three_lines_coalesce_into_one_batch() {
    let mut p = TeleechoProcessor::create();
    let mut q = VecDeque::new();
    for c in "a\nb\nc\n".chars() {
        if let Some(m) = p.append_to_input_buffer(c) {
            append_to_send_buffer(&mut q, m);
        }
    }
    assert_eq!(q.len(), 3);
    assert_eq!(combine_messages(&mut q), newline("a\nb\nc"));
    assert!(q.is_empty());
}

#[test]
fn single_segment_is_its_own_batch() {
    let mut q = queue_of(vec![newline("only")]);
    assert_eq!(combine_messages(&mut q), newline("only"));
    assert!(q.is_empty());
}

#[test]
fn carriage_return_at_the_head_leaves_alone() {
    let mut q = queue_of(vec![carriage_return("50%"), newline("done"), newline("bye")]);
    assert_eq!(combine_messages(&mut q), carriage_return("50%"));
    assert_eq!(q.len(), 2);
    assert_eq!(combine_messages(&mut q), newline("done\nbye"));
    assert!(q.is_empty());
}

#[test]
fn consecutive_carriage_returns_are_not_merged() {
    let mut q = queue_of(vec![carriage_return("1"), carriage_return("2")]);
    assert_eq!(combine_messages(&mut q), carriage_return("1"));
    assert_eq!(combine_messages(&mut q), carriage_return("2"));
    assert!(q.is_empty());
}

#[test]
fn carriage_return_stops_merging_and_stays_queued() {
    let mut q = queue_of(vec![
        newline("a"),
        newline("b"),
        carriage_return("c"),
        newline("d"),
    ]);
    assert_eq!(combine_messages(&mut q), newline("a\nb"));
    assert_eq!(q.len(), 2);
    assert_eq!(combine_messages(&mut q), carriage_return("c"));
    assert_eq!(combine_messages(&mut q), newline("d"));
    assert!(q.is_empty());
}

#[test]
fn empty_lines_are_joined_like_any_other() {
    let mut q = queue_of(vec![newline(""), newline(""), newline("x")]);
    assert_eq!(combine_messages(&mut q), newline("\n\nx"));
}

#[test]
fn batch_stops_below_the_limit() {
    let mut q = queue_of(vec![
        newline(&"a".repeat(2000)),
        newline(&"b".repeat(2000)),
        newline(&"c".repeat(2000)),
    ]);
    let first = combine_messages(&mut q);
    assert_eq!(first.text().chars().count(), 4001);
    assert_eq!(q.len(), 1);
    assert_eq!(combine_messages(&mut q), newline(&"c".repeat(2000)));
}

#[test]
fn batch_of_exactly_4095_characters_is_merged() {
    let mut q = queue_of(vec![newline(&"a".repeat(2047)), newline(&"b".repeat(2047))]);
    let batch = combine_messages(&mut q);
    assert_eq!(batch.text().chars().count(), 4095);
    assert!(q.is_empty());
}

#[test]
fn batch_of_4096_characters_is_not_merged() {
    let mut q = queue_of(vec![newline(&"a".repeat(2048)), newline(&"b".repeat(2047))]);
    assert_eq!(combine_messages(&mut q), newline(&"a".repeat(2048)));
    assert_eq!(q.len(), 1);
    assert_eq!(combine_messages(&mut q), newline(&"b".repeat(2047)));
}

#[test]
fn later_short_segment_does_not_jump_the_queue() {
    let mut q = queue_of(vec![
        newline(&"a".repeat(3000)),
        newline(&"b".repeat(3000)),
        newline("c"),
    ]);
    assert_eq!(combine_messages(&mut q), newline(&"a".repeat(3000)));
    let second = combine_messages(&mut q);
    assert_eq!(second.text().chars().count(), 3002);
    assert!(q.is_empty());
}

#[test]
fn oversized_head_goes_out_alone() {
    let mut q = queue_of(vec![newline(&"z".repeat(4096)), newline("x")]);
    assert_eq!(combine_messages(&mut q), newline(&"z".repeat(4096)));
    assert_eq!(combine_messages(&mut q), newline("x"));
}

#[test]
fn limit_counts_codepoints() {
    let mut q = queue_of(vec![newline(&"é".repeat(2047)), newline(&"ü".repeat(2047))]);
    let batch = combine_messages(&mut q);
    assert_eq!(batch.text().chars().count(), 4095);
    assert!(batch.text().len() > 4096);
}

#[test]
fn no_batch_of_short_segments_exceeds_4095() {
    let mut q = VecDeque::new();
    for i in 0..200 {
        append_to_send_buffer(&mut q, newline(&"x".repeat(1 + (i * 37) % 300)));
    }
    let mut total = 0;
    while !q.is_empty() {
        let batch = combine_messages(&mut q);
        assert!(batch.text().chars().count() <= 4095);
        total += batch.text().chars().filter(|c| *c == 'x').count();
    }
    let expected: usize = (0..200).map(|i| 1 + (i * 37) % 300).sum();
    assert_eq!(total, expected);
}
