//! Event sources and sinks as explicit state machines.
//!
//! A source decodes events, hands each one to a bounded data channel and
//! takes acknowledgments back from a second channel. Each source is a machine
//! that answers a [`select::Signal`] (how the last operation ended) with a
//! [`select::Action`] (what to do next), and the contracts say exactly which
//! action follows which signal. A source never blocks and never touches a
//! file or a socket: [`channel`] performs the actions that concern the two
//! channels, and the driver of a source reads the input or talks to the
//! broker where the source asks for it. The driver is a loop around `step`.

use vstd::prelude::*;
use crate::select::{Action, Signal};

pub mod channel;
pub mod fluentd;
pub mod kafka;
pub mod mbox;
pub mod ndarray;
pub mod pcap;
pub mod pipeline;
pub mod queue;
pub mod reader;
pub mod select;
pub mod text;

verus! {

/// The sequence number of an event within its source.
pub type SeqNo = u64;

/// A data source that produces events of type `Data` and is paced by
/// acknowledgments of type `Ack`.
///
/// A source is used once: `start` gives its first action, and `step` answers
/// each signal with the next one, until the action is `Done`.
pub trait Input {
    /// The events that the source emits.
    type Data;

    /// The acknowledgments that it takes back.
    type Ack;

    /// The operations outside the channels that it asks for.
    type Request;

    /// The answers to those operations.
    type Reply;

    /// The invariant of the source, which its constructor establishes.
    spec fn wf(&self) -> bool;

    /// Begins the run.
    fn start(&mut self) -> (action: Action<Self::Data, Self::Request>)
        requires
            old(self).wf(),
        ensures
            final(self).wf(),
    ;

    /// Takes in how the last action ended and decides the next one.
    fn step(&mut self, signal: Signal<Self::Ack, Self::Reply>) -> (action: Action<
        Self::Data,
        Self::Request,
    >)
        requires
            old(self).wf(),
        ensures
            final(self).wf(),
    ;
}

/// A single event from any type of data source.
pub trait Event {
    /// The token that acknowledges this event.
    type Ack;

    /// The payload.
    spec fn spec_raw(&self) -> Seq<u8>;

    /// The sequence number or timestamp.
    spec fn spec_time(&self) -> SeqNo;

    /// The acknowledgment token.
    spec fn spec_ack(&self) -> Self::Ack;

    fn raw(&self) -> (r: &[u8])
        ensures
            r@ == self.spec_raw(),
    ;

    fn time(&self) -> (t: SeqNo)
        ensures
            t == self.spec_time(),
    ;

    fn ack(&self) -> (a: Self::Ack)
        ensures
            a == self.spec_ack(),
    ;
}

/// A raw event as a byte sequence.
#[derive(Debug)]
pub struct BareEvent {
    pub raw: Vec<u8>,
    pub seq_no: SeqNo,
}

/// What a [`BareEvent`] holds.
pub struct BareEventView {
    pub raw: Seq<u8>,
    pub seq_no: SeqNo,
}

impl View for BareEvent {
    type V = BareEventView;

    open spec fn view(&self) -> BareEventView {
        BareEventView { raw: self.raw@, seq_no: self.seq_no }
    }
}

impl Event for BareEvent {
    type Ack = SeqNo;

    open spec fn spec_raw(&self) -> Seq<u8> {
        self.raw@
    }

    open spec fn spec_time(&self) -> SeqNo {
        self.seq_no
    }

    open spec fn spec_ack(&self) -> SeqNo {
        self.seq_no
    }

    fn raw(&self) -> (r: &[u8]) {
        self.raw.as_slice()
    }

    fn time(&self) -> (t: SeqNo) {
        self.seq_no
    }

    fn ack(&self) -> (a: SeqNo) {
        self.seq_no
    }
}

/// The error type for event I/O operations.
#[derive(Debug)]
pub enum Error {
    /// The data channel was closed.
    ChannelClosed,
    /// Cannot commit consumed events to the source; holds the cause.
    CannotCommit(String),
    /// Cannot fetch events from the source; holds the cause.
    CannotFetch(String),
    /// Cannot parse a message; holds the cause.
    InvalidMessage(String),
    /// An internal error that should not occur.
    Fatal(String),
    /// Too many events to handle.
    TooManyEvents(usize),
}

/// What an [`Error`] holds.
pub enum ErrorView {
    ChannelClosed,
    CannotCommit(Seq<char>),
    CannotFetch(Seq<char>),
    InvalidMessage(Seq<char>),
    Fatal(Seq<char>),
    TooManyEvents(usize),
}

impl View for Error {
    type V = ErrorView;

    open spec fn view(&self) -> ErrorView {
        match self {
            Error::ChannelClosed => ErrorView::ChannelClosed,
            Error::CannotCommit(e) => ErrorView::CannotCommit(e@),
            Error::CannotFetch(e) => ErrorView::CannotFetch(e@),
            Error::InvalidMessage(e) => ErrorView::InvalidMessage(e@),
            Error::Fatal(s) => ErrorView::Fatal(s@),
            Error::TooManyEvents(n) => ErrorView::TooManyEvents(*n),
        }
    }
}

/// The decimal digit of `d`, which is below ten.
pub open spec fn digit(d: nat) -> char {
    if d == 0 {
        '0'
    } else if d == 1 {
        '1'
    } else if d == 2 {
        '2'
    } else if d == 3 {
        '3'
    } else if d == 4 {
        '4'
    } else if d == 5 {
        '5'
    } else if d == 6 {
        '6'
    } else if d == 7 {
        '7'
    } else if d == 8 {
        '8'
    } else {
        '9'
    }
}

/// The decimal digits of `n`, without leading zeros.
pub open spec fn decimal(n: nat) -> Seq<char>
    decreases n,
{
    if n < 10 {
        seq![digit(n)]
    } else {
        decimal(n / 10).push(digit(n % 10))
    }
}

/// The text of an error: its kind, then its cause or its message.
pub open spec fn render(error: ErrorView) -> Seq<char> {
    match error {
        ErrorView::ChannelClosed => "data channel closed"@,
        ErrorView::CannotCommit(cause) => "cannot commit to Kafka: "@ + cause,
        ErrorView::CannotFetch(cause) => "cannot fetch message from Kafka: "@ + cause,
        ErrorView::InvalidMessage(cause) => "invalid MessagePack format: "@ + cause,
        ErrorView::Fatal(message) => "fatal error: "@ + message,
        ErrorView::TooManyEvents(n) => "cannot handle "@ + decimal(n as nat)
            + " events (expected < 4294967295)"@,
    }
}

/// The cause that an error wraps, if it wraps one.
pub open spec fn cause_of(error: ErrorView) -> Option<Seq<char>> {
    match error {
        ErrorView::CannotCommit(cause) => Some(cause),
        ErrorView::CannotFetch(cause) => Some(cause),
        ErrorView::InvalidMessage(cause) => Some(cause),
        _ => None,
    }
}

/// Writes one decimal digit.
fn digit_text(d: usize) -> (text: &'static str)
    requires
        d < 10,
    ensures
        text@ == seq![digit(d as nat)],
{
    proof {
        reveal_strlit("0");
        reveal_strlit("1");
        reveal_strlit("2");
        reveal_strlit("3");
        reveal_strlit("4");
        reveal_strlit("5");
        reveal_strlit("6");
        reveal_strlit("7");
        reveal_strlit("8");
        reveal_strlit("9");
    }
    let text = if d == 0 {
        "0"
    } else if d == 1 {
        "1"
    } else if d == 2 {
        "2"
    } else if d == 3 {
        "3"
    } else if d == 4 {
        "4"
    } else if d == 5 {
        "5"
    } else if d == 6 {
        "6"
    } else if d == 7 {
        "7"
    } else if d == 8 {
        "8"
    } else {
        "9"
    };
    assert(text@ == seq![digit(d as nat)]);
    text
}

/// Writes a number in decimal digits.
pub fn to_decimal(n: usize) -> (text: String)
    ensures
        text@ == decimal(n as nat),
    decreases n,
{
    if n < 10 {
        String::from_str(digit_text(n))
    } else {
        let mut text = to_decimal(n / 10);
        text.append(digit_text(n % 10));
        text
    }
}

impl Error {
    /// The cause of this error, for the kinds that wrap one.
    pub fn source(&self) -> (cause: Option<&String>)
        ensures
            match cause {
                Some(text) => cause_of(self@) == Some(text@),
                None => cause_of(self@) is None,
            },
    {
        match self {
            Error::CannotCommit(e) => Some(e),
            Error::CannotFetch(e) => Some(e),
            Error::InvalidMessage(e) => Some(e),
            _ => None,
        }
    }

    /// Renders the kind of this error and its cause.
    pub fn to_string(&self) -> (text: String)
        ensures
            text@ == render(self@),
    {
        match self {
            Error::ChannelClosed => String::from_str("data channel closed"),
            Error::CannotCommit(e) => String::from_str("cannot commit to Kafka: ").concat(
                e.as_str(),
            ),
            Error::CannotFetch(e) => String::from_str("cannot fetch message from Kafka: ").concat(
                e.as_str(),
            ),
            Error::InvalidMessage(e) => String::from_str("invalid MessagePack format: ").concat(
                e.as_str(),
            ),
            Error::Fatal(s) => String::from_str("fatal error: ").concat(s.as_str()),
            Error::TooManyEvents(n) => {
                let number = to_decimal(*n);
                String::from_str("cannot handle ").concat(number.as_str()).concat(
                    " events (expected < 4294967295)",
                )
            },
        }
    }
}

} // verus!
