use eventio::{to_decimal, BareEvent, Error, Event};

#[test]
fn error_texts() {
    assert_eq!(Error::ChannelClosed.to_string(), "data channel closed");
    assert_eq!(
        Error::CannotCommit("no broker".to_string()).to_string(),
        "cannot commit to Kafka: no broker"
    );
    assert_eq!(
        Error::CannotFetch("timed out".to_string()).to_string(),
        "cannot fetch message from Kafka: timed out"
    );
    assert_eq!(
        Error::InvalidMessage("wrong format".to_string()).to_string(),
        "invalid MessagePack format: wrong format"
    );
    assert_eq!(Error::Fatal("oops".to_string()).to_string(), "fatal error: oops");
    assert_eq!(
        Error::TooManyEvents(4294967296).to_string(),
        "cannot handle 4294967296 events (expected < 4294967295)"
    );
    assert_eq!(
        Error::TooManyEvents(0).to_string(),
        "cannot handle 0 events (expected < 4294967295)"
    );
}

#[test]
fn error_source_is_the_wrapped_cause() {
    assert_eq!(Error::CannotCommit("a".to_string()).source(), Some(&"a".to_string()));
    assert_eq!(Error::CannotFetch("b".to_string()).source(), Some(&"b".to_string()));
    assert_eq!(Error::InvalidMessage("c".to_string()).source(), Some(&"c".to_string()));
    assert_eq!(Error::ChannelClosed.source(), None);
    assert_eq!(Error::Fatal("d".to_string()).source(), None);
    assert_eq!(Error::TooManyEvents(5).source(), None);
}

#[test]
fn decimal_digits() {
    assert_eq!(to_decimal(0), "0");
    assert_eq!(to_decimal(7), "7");
    assert_eq!(to_decimal(10), "10");
    assert_eq!(to_decimal(1234567890), "1234567890");
    assert_eq!(to_decimal(usize::MAX), usize::MAX.to_string());
}

#[test]
fn bare_event_is_acknowledged_by_its_number() {
    let event = BareEvent { raw: b"payload".to_vec(), seq_no: 42 };
    assert_eq!(event.raw(), b"payload");
    assert_eq!(event.time(), 42);
    assert_eq!(event.ack(), 42);
}
