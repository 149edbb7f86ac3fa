use eventio::fluentd::{Entry, ForwardMode};
use eventio::kafka::{
    EntryLocation, Event as KafkaEvent, Input as KafkaInput, Message, MessageSet, Order, Outcome,
    Output, Reply, Request,
};
use eventio::select::{Action, Signal};
use eventio::{Error, Event, Input};
use serde_bytes::ByteBuf;
use std::collections::HashMap;

type Wire = (String, Vec<(u64, HashMap<String, ByteBuf>)>, Option<HashMap<String, String>>);

fn encode(frame: ForwardMode) -> Vec<u8> {
    let entries = frame
        .entries
        .into_iter()
        .map(|e| (e.time, e.record.into_iter().map(|(k, v)| (k, ByteBuf::from(v))).collect()))
        .collect();
    let wire: Wire = (frame.tag, entries, frame.option.map(|o| o.into_iter().collect()));
    rmp_serde::to_vec(&wire).unwrap()
}

fn decode(bytes: &[u8]) -> Result<ForwardMode, String> {
    let (tag, entries, option): Wire = rmp_serde::from_slice(bytes).map_err(|e| e.to_string())?;
    Ok(ForwardMode {
        tag,
        entries: entries
            .into_iter()
            .map(|(time, record)| Entry {
                time,
                record: record.into_iter().map(|(k, v)| (k, v.into_vec())).collect(),
            })
            .collect(),
        option: option.map(|o| o.into_iter().collect()),
    })
}

fn entry(time: u64, message: &[u8]) -> Entry {
    Entry { time, record: vec![("message".to_string(), message.to_vec())] }
}

fn frame(entries: Vec<Entry>) -> ForwardMode {
    ForwardMode { tag: "tag".to_string(), entries, option: None }
}

fn set(partition: i32, offsets: &[i64]) -> MessageSet {
    MessageSet {
        topic: "topic".to_string(),
        partition,
        messages: offsets.iter().map(|&offset| Message { offset, value: vec![offset as u8] }).collect(),
    }
}

fn polled(sets: Vec<MessageSet>) -> Signal<EntryLocation, Reply> {
    Signal::Reply(Reply::Polled(Ok(sets)))
}

fn decoded(frame: ForwardMode) -> Signal<EntryLocation, Reply> {
    Signal::Reply(Reply::Decoded(Ok(frame)))
}

fn offered(action: Action<KafkaEvent, Request>) -> KafkaEvent {
    match action {
        Action::Offer(event) => event,
        other => panic!("an event is offered, not {:?}", name(&other)),
    }
}

fn name(action: &Action<KafkaEvent, Request>) -> &'static str {
    match action {
        Action::Offer(_) => "Offer",
        Action::Resume => "Resume",
        Action::Drain => "Drain",
        Action::Request(_) => "Request",
        Action::Done(_) => "Done",
    }
}

fn started(fetch_limit: usize) -> KafkaInput {
    let mut input = KafkaInput::new(fetch_limit);
    assert!(matches!(input.start(), Action::Request(Request::Poll)));
    input
}

#[test]
fn kafka_round_trip() {
    let mut record = Vec::new();
    record.push(("message".to_string(), b"\x01\x02\x03".to_vec()));
    let msg = ForwardMode { tag: "tag".into(), entries: vec![Entry { time: 123, record }], option: None };

    let mut output = Output::new("eventio-examples".to_string());
    assert!(matches!(output.start(), Order::Receive));
    let (topic, payload) = match output.run(Outcome::Encoded(encode(msg))) {
        Order::Send { topic, payload } => (topic, payload),
        _ => panic!("the message is sent"),
    };
    assert_eq!(topic, "eventio-examples");
    assert!(matches!(output.run(Outcome::Delivered), Order::Receive));
    assert!(matches!(output.run(Outcome::Closed), Order::Done(Ok(()))));

    let mut input = started(usize::MAX);
    let sets = vec![MessageSet {
        topic: topic.clone(),
        partition: 0,
        messages: vec![Message { offset: 0, value: payload }],
    }];
    let bytes = match input.step(polled(sets)) {
        Action::Request(Request::Decode(bytes)) => bytes,
        _ => panic!("the message is decoded"),
    };
    let event = offered(input.step(Signal::Reply(Reply::Decoded(decode(&bytes)))));
    let ack = event.ack();
    let entry = event.entry;
    assert!(matches!(input.step(Signal::Sent), Action::Request(Request::Poll)));
    assert!(matches!(input.step(polled(Vec::new())), Action::Request(Request::Subscriptions)));
    assert!(matches!(
        input.step(Signal::Reply(Reply::Subscribed(vec![topic.clone()]))),
        Action::Drain
    ));
    match input.step(Signal::Ack(ack)) {
        Action::Request(Request::MarkConsumed { topic: marked, partition, offset }) => {
            assert_eq!((marked, partition, offset), (topic, 0, 0))
        }
        _ => panic!("the message is marked as consumed"),
    }
    assert!(matches!(input.step(Signal::Reply(Reply::Marked(Ok(())))), Action::Request(Request::Probe)));
    let mut committed = false;
    if let Action::Request(Request::Commit) = input.step(Signal::Reply(Reply::Probed(true))) {
        committed = true;
    }
    assert!(matches!(input.step(Signal::Reply(Reply::Committed(Ok(())))), Action::Drain));
    assert!(matches!(input.step(Signal::AckClosed), Action::Done(Ok(()))));

    assert_eq!(entry.time, 123);
    assert_eq!(entry.get(&"message".to_string()).unwrap(), b"\x01\x02\x03");
    assert!(committed);
}

#[test]
fn kafka_remainders_count_down() {
    let mut input = started(10);
    assert!(matches!(input.step(polled(vec![set(3, &[42])])), Action::Request(Request::Decode(_))));
    let first = offered(input.step(decoded(frame(vec![entry(1, b"a"), entry(2, b"b"), entry(3, b"c")]))));
    let second = offered(input.step(Signal::Sent));
    let third = offered(input.step(Signal::Sent));
    let locations: Vec<(u32, i32, i64)> = [&first, &second, &third]
        .iter()
        .map(|e| (e.loc.remainder, e.loc.partition, e.loc.offset))
        .collect();
    assert_eq!(locations, vec![(2, 3, 42), (1, 3, 42), (0, 3, 42)]);
    assert_eq!(first.raw(), b"a");
    assert_eq!(second.raw(), b"b");
    assert_eq!(third.raw(), b"c");
    assert_eq!((first.time(), second.time(), third.time()), (1, 2, 3));
    assert!(matches!(input.step(Signal::Sent), Action::Request(Request::Poll)));
}

#[test]
fn kafka_messages_follow_in_the_order_of_the_poll() {
    let mut input = started(10);
    let sets = vec![set(0, &[]), set(1, &[5, 6]), set(2, &[]), set(3, &[9])];
    match input.step(polled(sets)) {
        Action::Request(Request::Decode(value)) => assert_eq!(value, vec![5]),
        _ => panic!("the first message is decoded"),
    }
    let event = offered(input.step(decoded(frame(vec![entry(1, b"a")]))));
    assert_eq!((event.loc.remainder, event.loc.partition, event.loc.offset), (0, 1, 5));
    match input.step(Signal::Sent) {
        Action::Request(Request::Decode(value)) => assert_eq!(value, vec![6]),
        _ => panic!("the second message is decoded"),
    }
    match input.step(decoded(frame(Vec::new()))) {
        Action::Request(Request::Decode(value)) => assert_eq!(value, vec![9]),
        _ => panic!("a frame without entries is passed over"),
    }
    let event = offered(input.step(decoded(frame(vec![entry(1, b"a")]))));
    assert_eq!((event.loc.remainder, event.loc.partition, event.loc.offset), (0, 3, 9));
    assert!(matches!(input.step(Signal::Sent), Action::Request(Request::Poll)));
}

#[test]
fn kafka_fetch_limit_ends_the_poll_phase() {
    let mut input = started(3);
    assert!(matches!(input.step(polled(vec![set(0, &[1, 2])])), Action::Request(Request::Decode(_))));
    let _ = offered(input.step(decoded(frame(vec![entry(1, b"a"), entry(2, b"b")]))));
    let _ = offered(input.step(Signal::Sent));
    assert!(matches!(input.step(Signal::Sent), Action::Request(Request::Decode(_))));
    assert!(matches!(
        input.step(decoded(frame(vec![entry(3, b"c"), entry(4, b"d")]))),
        Action::Request(Request::Subscriptions)
    ));
    assert!(matches!(
        input.step(Signal::Reply(Reply::Subscribed(vec!["topic".to_string()]))),
        Action::Drain
    ));
    assert!(matches!(input.step(Signal::AckClosed), Action::Done(Ok(()))));
}

#[test]
fn kafka_fetch_limit_is_spent_exactly() {
    let mut input = started(2);
    assert!(matches!(input.step(polled(vec![set(0, &[1, 2])])), Action::Request(Request::Decode(_))));
    let _ = offered(input.step(decoded(frame(vec![entry(1, b"a"), entry(2, b"b")]))));
    let _ = offered(input.step(Signal::Sent));
    assert!(matches!(input.step(Signal::Sent), Action::Request(Request::Decode(_))));
    assert!(matches!(input.step(decoded(frame(Vec::new()))), Action::Request(Request::Poll)));
    let mut input = started(0);
    assert!(matches!(input.step(polled(vec![set(0, &[1])])), Action::Request(Request::Decode(_))));
    assert!(matches!(
        input.step(decoded(frame(vec![entry(1, b"a")]))),
        Action::Request(Request::Subscriptions)
    ));
}

#[test]
fn kafka_only_the_last_ack_marks_the_message() {
    let mut input = started(10);
    assert!(matches!(input.step(polled(vec![set(7, &[11])])), Action::Request(Request::Decode(_))));
    let first = offered(input.step(decoded(frame(vec![entry(1, b"a"), entry(2, b"b")]))));
    let second = offered(input.step(Signal::Sent));
    assert!(matches!(input.step(Signal::Ack(first.ack())), Action::Request(Request::Probe)));
    assert!(matches!(input.step(Signal::Reply(Reply::Probed(false))), Action::Resume));
    match input.step(Signal::Ack(second.ack())) {
        Action::Request(Request::MarkConsumed { topic, partition, offset }) => {
            assert_eq!((topic.as_str(), partition, offset), ("topic", 7, 11))
        }
        _ => panic!("the ack of the last entry marks the message"),
    }
    assert!(matches!(input.step(Signal::Reply(Reply::Marked(Ok(())))), Action::Request(Request::Probe)));
    assert!(matches!(input.step(Signal::Reply(Reply::Probed(true))), Action::Request(Request::Commit)));
    assert!(matches!(input.step(Signal::Reply(Reply::Committed(Ok(())))), Action::Resume));
    assert!(matches!(input.step(Signal::Sent), Action::Request(Request::Poll)));
}

#[test]
fn kafka_acks_out_of_order_are_legal() {
    let mut input = started(10);
    assert!(matches!(input.step(polled(vec![set(0, &[1])])), Action::Request(Request::Decode(_))));
    let first = offered(input.step(decoded(frame(vec![entry(1, b"a"), entry(2, b"b")]))));
    let second = offered(input.step(Signal::Sent));
    assert!(matches!(input.step(Signal::Sent), Action::Request(Request::Poll)));
    assert!(matches!(input.step(polled(Vec::new())), Action::Request(Request::Subscriptions)));
    assert!(matches!(
        input.step(Signal::Reply(Reply::Subscribed(vec!["subscribed".to_string()]))),
        Action::Drain
    ));
    match input.step(Signal::Ack(second.ack())) {
        Action::Request(Request::MarkConsumed { topic, .. }) => assert_eq!(topic, "subscribed"),
        _ => panic!("the ack of the last entry marks the message"),
    }
    assert!(matches!(input.step(Signal::Reply(Reply::Marked(Ok(())))), Action::Request(Request::Probe)));
    assert!(matches!(input.step(Signal::Reply(Reply::Probed(false))), Action::Drain));
    assert!(matches!(input.step(Signal::Ack(first.ack())), Action::Request(Request::Probe)));
    assert!(matches!(input.step(Signal::Reply(Reply::Probed(true))), Action::Request(Request::Commit)));
    assert!(matches!(input.step(Signal::Reply(Reply::Committed(Ok(())))), Action::Drain));
    assert!(matches!(input.step(Signal::AckClosed), Action::Done(Ok(()))));
}

#[test]
fn kafka_failures_end_the_run() {
    let mut input = started(10);
    match input.step(Signal::Reply(Reply::Polled(Err("no route".to_string())))) {
        Action::Done(Err(Error::CannotFetch(cause))) => assert_eq!(cause, "no route"),
        _ => panic!("a failed poll ends the run"),
    }

    let mut input = started(10);
    assert!(matches!(input.step(polled(vec![set(0, &[1])])), Action::Request(Request::Decode(_))));
    match input.step(Signal::Reply(Reply::Decoded(Err("bad marker".to_string())))) {
        Action::Done(Err(Error::InvalidMessage(cause))) => assert_eq!(cause, "bad marker"),
        _ => panic!("an undecodable message ends the run"),
    }

    let mut input = started(10);
    assert!(matches!(input.step(polled(vec![set(0, &[1])])), Action::Request(Request::Decode(_))));
    let event = offered(input.step(decoded(frame(vec![entry(1, b"a")]))));
    assert!(matches!(input.step(Signal::Ack(event.ack())), Action::Request(Request::MarkConsumed { .. })));
    match input.step(Signal::Reply(Reply::Marked(Err("unknown topic".to_string())))) {
        Action::Done(Err(Error::Fatal(message))) => {
            assert_eq!(message, "messages from Kafka have different topics: unknown topic")
        }
        _ => panic!("a refused mark ends the run"),
    }

    let mut input = started(10);
    assert!(matches!(input.step(polled(vec![set(0, &[1])])), Action::Request(Request::Decode(_))));
    let event = offered(input.step(decoded(frame(vec![entry(1, b"a")]))));
    assert!(matches!(input.step(Signal::Ack(event.ack())), Action::Request(Request::MarkConsumed { .. })));
    assert!(matches!(input.step(Signal::Reply(Reply::Marked(Ok(())))), Action::Request(Request::Probe)));
    assert!(matches!(input.step(Signal::Reply(Reply::Probed(true))), Action::Request(Request::Commit)));
    match input.step(Signal::Reply(Reply::Committed(Err("not coordinator".to_string())))) {
        Action::Done(Err(Error::CannotCommit(cause))) => assert_eq!(cause, "not coordinator"),
        _ => panic!("a failed commit ends the run"),
    }
}

#[test]
fn kafka_consumer_must_subscribe_to_one_topic() {
    for topics in [Vec::new(), vec!["a".to_string(), "b".to_string()]] {
        let mut input = started(10);
        assert!(matches!(input.step(polled(Vec::new())), Action::Request(Request::Subscriptions)));
        match input.step(Signal::Reply(Reply::Subscribed(topics))) {
            Action::Done(Err(Error::Fatal(message))) => assert_eq!(message, "subscribes to one topic"),
            _ => panic!("the consumer subscribes to one topic"),
        }
    }
}

#[test]
fn kafka_closed_channel_ends_the_poll_phase() {
    for closed in [Signal::DataClosed, Signal::AckClosed] {
        let mut input = started(10);
        assert!(matches!(input.step(polled(vec![set(0, &[1])])), Action::Request(Request::Decode(_))));
        let _ = offered(input.step(decoded(frame(vec![entry(1, b"a"), entry(2, b"b")]))));
        assert!(matches!(input.step(closed), Action::Request(Request::Subscriptions)));
        assert!(matches!(
            input.step(Signal::Reply(Reply::Subscribed(vec!["topic".to_string()]))),
            Action::Drain
        ));
        assert!(matches!(input.step(Signal::AckClosed), Action::Done(Ok(()))));
        assert!(matches!(input.start(), Action::Done(Err(Error::ChannelClosed))));
    }
}

#[test]
fn kafka_signal_out_of_turn_is_fatal() {
    let mut input = KafkaInput::new(10);
    assert!(matches!(input.step(Signal::Sent), Action::Done(Err(Error::Fatal(_)))));
    let mut input = started(10);
    match input.step(Signal::Reply(Reply::Probed(true))) {
        Action::Done(Err(Error::Fatal(message))) => assert_eq!(message, "unexpected signal"),
        _ => panic!("a reply to another request is refused"),
    }
    let mut input = started(10);
    assert!(matches!(input.step(Signal::Sent), Action::Done(Err(Error::Fatal(_)))));
}

#[test]
fn kafka_event_without_message_has_no_payload() {
    let event = KafkaEvent {
        entry: Entry { time: 5, record: vec![("other".to_string(), b"x".to_vec())] },
        loc: EntryLocation { remainder: 1, partition: 2, offset: 3 },
    };
    assert_eq!(event.raw(), b"");
    assert_eq!(event.time(), 5);
    let ack = event.ack();
    assert_eq!((ack.remainder, ack.partition, ack.offset), (1, 2, 3));
}

#[test]
fn entry_fields_are_found_by_name() {
    let entry = Entry {
        time: 0,
        record: vec![
            ("a".to_string(), b"1".to_vec()),
            ("message".to_string(), b"2".to_vec()),
            ("b".to_string(), b"3".to_vec()),
        ],
    };
    assert_eq!(entry.get(&"a".to_string()), Some(&b"1".to_vec()));
    assert_eq!(entry.get(&"b".to_string()), Some(&b"3".to_vec()));
    assert_eq!(entry.get(&"c".to_string()), None);
    assert_eq!(entry.message(), b"2");
}

#[test]
fn kafka_wire_format_round_trip() {
    let sent = frame(vec![entry(123, b"\x01\x02\x03"), entry(124, b"")]);
    let back = decode(&encode(sent)).unwrap();
    assert_eq!(back.tag, "tag");
    assert_eq!(back.entries.len(), 2);
    assert_eq!(back.entries[0].time, 123);
    assert_eq!(back.entries[0].message(), b"\x01\x02\x03");
    assert_eq!(back.entries[1].time, 124);
    assert_eq!(back.entries[1].message(), b"");
    assert!(back.option.is_none());
    assert!(decode(b"\xc1").is_err());
}

#[test]
fn output_sends_each_message_as_one_record() {
    let mut output = Output::new("topic".to_string());
    assert!(matches!(output.start(), Order::Receive));
    for payload in [b"one".to_vec(), b"two".to_vec()] {
        match output.run(Outcome::Encoded(payload.clone())) {
            Order::Send { topic, payload: sent } => assert_eq!((topic.as_str(), sent), ("topic", payload)),
            _ => panic!("the message is sent"),
        }
        assert!(matches!(output.run(Outcome::Delivered), Order::Receive));
    }
    assert!(matches!(output.run(Outcome::Closed), Order::Done(Ok(()))));
    assert!(matches!(output.start(), Order::Done(Err(Error::ChannelClosed))));
}

#[test]
fn output_failures_end_the_run() {
    let mut output = Output::new("topic".to_string());
    assert!(matches!(output.start(), Order::Receive));
    match output.run(Outcome::EncodeFailed("depth limit".to_string())) {
        Order::Done(Err(Error::InvalidMessage(cause))) => assert_eq!(cause, "cannot serialize: depth limit"),
        _ => panic!("a message that cannot be serialized ends the run"),
    }

    let mut output = Output::new("topic".to_string());
    assert!(matches!(output.start(), Order::Receive));
    assert!(matches!(output.run(Outcome::Encoded(b"one".to_vec())), Order::Send { .. }));
    assert!(matches!(output.run(Outcome::SendFailed), Order::Surface));
    assert!(matches!(output.run(Outcome::Delivered), Order::Done(Err(Error::Fatal(_)))));

    let mut output = Output::new("topic".to_string());
    assert!(matches!(output.run(Outcome::Closed), Order::Done(Err(Error::Fatal(_)))));
    let mut output = Output::new("topic".to_string());
    assert!(matches!(output.start(), Order::Receive));
    match output.run(Outcome::Delivered) {
        Order::Done(Err(Error::Fatal(message))) => assert_eq!(message, "unexpected signal"),
        _ => panic!("an outcome out of turn is refused"),
    }
}
