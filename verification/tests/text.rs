use eventio::reader::ByteReader;
use eventio::select::{Action, Signal};
use eventio::text::{read_line, strip, Input as TextInput};
use eventio::{BareEvent, Error, Event, Input};
use std::collections::VecDeque;

/// Plays the channels and a consumer that acknowledges every event: each
/// event is taken at once, and its ack comes back while the next event is on
/// offer.
fn consume<I>(input: &mut I) -> (Vec<BareEvent>, Result<(), Error>)
where
    I: Input<Data = BareEvent, Ack = u64, Request = (), Reply = ()>,
{
    let mut events = Vec::new();
    let mut acks: VecDeque<u64> = VecDeque::new();
    let mut held: Option<BareEvent> = None;
    let mut action = input.start();
    loop {
        match action {
            Action::Offer(event) => {
                held = Some(event);
                action = Action::Resume;
            }
            Action::Resume => {
                if let Some(ack) = acks.pop_front() {
                    action = input.step(Signal::Ack(ack));
                } else {
                    let event = held.take().expect("an event is on offer");
                    acks.push_back(event.ack());
                    events.push(event);
                    action = input.step(Signal::Sent);
                }
            }
            Action::Drain => {
                action = match acks.pop_front() {
                    Some(ack) => input.step(Signal::Ack(ack)),
                    None => input.step(Signal::AckClosed),
                };
            }
            Action::Request(()) => unreachable!(),
            Action::Done(result) => return (events, result),
        }
    }
}

#[test]
fn text_text_input() {
    let text = b"event 1\nevent 2\r\nevent 3";
    let mut input = TextInput::with_read(ByteReader::new(text.to_vec()));
    let (events, result) = consume(&mut input);
    assert!(result.is_ok());
    let raw: Vec<Vec<u8>> = events.into_iter().map(|e| e.raw).collect();
    assert_eq!(raw, [b"event 1", b"event 2", b"event 3"]);
}

#[test]
fn text_lines_are_numbered_from_one() {
    let text = b"event 1\nevent 2\r\nevent 3";
    let mut input = TextInput::with_read(ByteReader::new(text.to_vec()));
    let (events, _) = consume(&mut input);
    let numbers: Vec<u64> = events.iter().map(|e| e.seq_no).collect();
    assert_eq!(numbers, vec![1, 2, 3]);
    let times: Vec<u64> = events.iter().map(|e| e.time()).collect();
    assert_eq!(times, vec![1, 2, 3]);
    let acks: Vec<u64> = events.iter().map(|e| e.ack()).collect();
    assert_eq!(acks, vec![1, 2, 3]);
    assert_eq!(events[1].raw(), b"event 2");
}

#[test]
fn text_empty_input_drains_at_once() {
    let mut input = TextInput::with_read(ByteReader::new(Vec::new()));
    assert!(matches!(input.start(), Action::Drain));
    assert!(matches!(input.step(Signal::AckClosed), Action::Done(Ok(()))));
}

#[test]
fn text_trailing_newline_makes_no_empty_line() {
    let mut input = TextInput::with_read(ByteReader::new(b"event 1\nevent 2\nevent 3\n".to_vec()));
    let (events, result) = consume(&mut input);
    assert!(result.is_ok());
    assert_eq!(events.len(), 3);
    assert_eq!(events[2].raw, b"event 3");
}

#[test]
fn text_blank_lines_are_events() {
    let mut input = TextInput::with_read(ByteReader::new(b"\n\r\nx\r".to_vec()));
    let (events, _) = consume(&mut input);
    let raw: Vec<Vec<u8>> = events.into_iter().map(|e| e.raw).collect();
    assert_eq!(raw, vec![b"".to_vec(), b"".to_vec(), b"x\r".to_vec()]);
}

#[test]
fn text_ack_while_offering_resumes_the_same_offer() {
    let mut input = TextInput::with_read(ByteReader::new(b"a\nb\n".to_vec()));
    match input.start() {
        Action::Offer(event) => assert_eq!((event.raw, event.seq_no), (b"a".to_vec(), 1)),
        _ => panic!("the first line is offered"),
    }
    assert!(matches!(input.step(Signal::Ack(7)), Action::Resume));
    assert!(matches!(input.step(Signal::Ack(0)), Action::Resume));
    match input.step(Signal::Sent) {
        Action::Offer(event) => assert_eq!((event.raw, event.seq_no), (b"b".to_vec(), 2)),
        _ => panic!("the second line is offered"),
    }
    assert!(matches!(input.step(Signal::Sent), Action::Drain));
    assert!(matches!(input.step(Signal::Ack(1)), Action::Drain));
    assert!(matches!(input.step(Signal::AckClosed), Action::Done(Ok(()))));
}

#[test]
fn text_closed_data_channel_begins_shutdown() {
    let mut input = TextInput::with_read(ByteReader::new(b"a\nb\n".to_vec()));
    assert!(matches!(input.start(), Action::Offer(_)));
    assert!(matches!(input.step(Signal::DataClosed), Action::Drain));
    assert!(matches!(input.step(Signal::AckClosed), Action::Done(Ok(()))));
}

#[test]
fn text_closed_ack_channel_begins_shutdown() {
    let mut input = TextInput::with_read(ByteReader::new(b"a\nb\n".to_vec()));
    assert!(matches!(input.start(), Action::Offer(_)));
    assert!(matches!(input.step(Signal::AckClosed), Action::Drain));
    assert!(matches!(input.step(Signal::AckClosed), Action::Done(Ok(()))));
}

#[test]
fn text_second_start_is_channel_closed() {
    let mut input = TextInput::with_read(ByteReader::new(b"a\n".to_vec()));
    assert!(matches!(input.start(), Action::Offer(_)));
    assert!(matches!(input.start(), Action::Done(Err(Error::ChannelClosed))));
    assert!(matches!(input.step(Signal::Sent), Action::Drain));
}

#[test]
fn text_signal_out_of_turn_is_fatal() {
    let mut input = TextInput::with_read(ByteReader::new(b"a\n".to_vec()));
    match input.step(Signal::Sent) {
        Action::Done(Err(Error::Fatal(message))) => assert_eq!(message, "unexpected signal"),
        _ => panic!("a signal before the start is refused"),
    }
    let mut input = TextInput::with_read(ByteReader::new(b"a\n".to_vec()));
    assert!(matches!(input.start(), Action::Offer(_)));
    assert!(matches!(input.step(Signal::Reply(())), Action::Done(Err(Error::Fatal(_)))));
    let mut input = TextInput::with_read(ByteReader::new(Vec::new()));
    assert!(matches!(input.start(), Action::Drain));
    assert!(matches!(input.step(Signal::Sent), Action::Done(Err(Error::Fatal(_)))));
}

#[test]
fn reader_read_until_stops_behind_the_delimiter() {
    let mut reader = ByteReader::new(b"ab\ncd".to_vec());
    assert_eq!(reader.len(), 5);
    let mut buf = b"x".to_vec();
    assert_eq!(reader.read_until(b'\n', &mut buf), 3);
    assert_eq!(buf, b"xab\n");
    assert_eq!(reader.len(), 2);
    assert!(!reader.is_empty());
    assert_eq!(reader.read_until(b'\n', &mut buf), 2);
    assert_eq!(buf, b"xab\ncd");
    assert!(reader.is_empty());
    assert_eq!(reader.read_until(b'\n', &mut buf), 0);
    assert_eq!(buf, b"xab\ncd");
}

#[test]
fn strip_takes_one_line_ending_off() {
    let mut line = b"abc\r\n".to_vec();
    strip(&mut line);
    assert_eq!(line, b"abc");
    let mut line = b"abc\n".to_vec();
    strip(&mut line);
    assert_eq!(line, b"abc");
    let mut line = b"abc\r".to_vec();
    strip(&mut line);
    assert_eq!(line, b"abc\r");
    let mut line = b"abc\n\n".to_vec();
    strip(&mut line);
    assert_eq!(line, b"abc\n");
    let mut line = b"\n".to_vec();
    strip(&mut line);
    assert_eq!(line, b"");
    let mut line: Vec<u8> = Vec::new();
    strip(&mut line);
    assert_eq!(line, b"");
}

#[test]
fn read_line_gives_lines_then_nothing() {
    let mut reader = ByteReader::new(b"one\r\ntwo".to_vec());
    assert_eq!(read_line(&mut reader), Some(b"one".to_vec()));
    assert_eq!(read_line(&mut reader), Some(b"two".to_vec()));
    assert_eq!(read_line(&mut reader), None);
    assert_eq!(read_line(&mut reader), None);
}
