//! Reading events from, and writing them to, a message broker.
//!
//! One broker message carries a frame of several entries. The source offers
//! the entries one by one and numbers each with the count of entries of the
//! same message that still follow it, its remainder. The offset of a message
//! is marked consumed when the ack of its last entry, the one with remainder
//! zero, comes back, and the marks are committed whenever no further ack is
//! waiting.

use std::collections::VecDeque;
use vstd::prelude::*;
use crate::fluentd::{payload, Entry, EntryView, ForwardMode};
use crate::queue::into_deque;
use crate::select::{unexpected, Action, ActionView, Phase, Signal};
use crate::{Error, ErrorView, SeqNo};

pub mod laws;

verus! {

/// The location of an event on a topic of the broker.
#[derive(Copy, Clone, Debug)]
pub struct EntryLocation {
    /// The number of entries in the message after this entry.
    pub remainder: u32,
    pub partition: i32,
    pub offset: i64,
}

/// An event included in a broker message at `loc`.
#[derive(Debug)]
pub struct Event {
    pub entry: Entry,
    pub loc: EntryLocation,
}

/// What an [`Event`] holds.
pub struct EventView {
    pub entry: EntryView,
    pub loc: EntryLocation,
}

impl View for Event {
    type V = EventView;

    open spec fn view(&self) -> EventView {
        EventView { entry: self.entry@, loc: self.loc }
    }
}

impl crate::Event for Event {
    type Ack = EntryLocation;

    open spec fn spec_raw(&self) -> Seq<u8> {
        payload(self.entry@)
    }

    open spec fn spec_time(&self) -> SeqNo {
        self.entry.time
    }

    open spec fn spec_ack(&self) -> EntryLocation {
        self.loc
    }

    fn raw(&self) -> (r: &[u8]) {
        self.entry.message()
    }

    fn time(&self) -> (t: SeqNo) {
        self.entry.time
    }

    fn ack(&self) -> (a: EntryLocation) {
        self.loc
    }
}

/// A message as the broker delivered it.
#[derive(Debug)]
pub struct Message {
    pub offset: i64,
    pub value: Vec<u8>,
}

/// The messages of one partition of a topic that one poll returned.
#[derive(Debug)]
pub struct MessageSet {
    pub topic: String,
    pub partition: i32,
    pub messages: Vec<Message>,
}

/// An operation on the broker's consumer, or on the channels, that the source
/// asks its driver for.
#[derive(Debug)]
pub enum Request {
    /// Fetch the next message sets.
    Poll,
    /// Decode the value of a message into a frame.
    Decode(Vec<u8>),
    /// Mark the message at this place as consumed.
    MarkConsumed { topic: String, partition: i32, offset: i64 },
    /// Tell whether the ack channel is empty right now.
    Probe,
    /// Commit the consumed marks.
    Commit,
    /// The poll phase is over: drop the data sender, then name the topics
    /// that the consumer subscribes to.
    Subscriptions,
}

/// What a [`Request`] holds.
pub enum RequestView {
    Poll,
    Decode(Seq<u8>),
    MarkConsumed { topic: Seq<char>, partition: i32, offset: i64 },
    Probe,
    Commit,
    Subscriptions,
}

impl View for Request {
    type V = RequestView;

    open spec fn view(&self) -> RequestView {
        match self {
            Request::Poll => RequestView::Poll,
            Request::Decode(value) => RequestView::Decode(value@),
            Request::MarkConsumed { topic, partition, offset } => RequestView::MarkConsumed {
                topic: topic@,
                partition: *partition,
                offset: *offset,
            },
            Request::Probe => RequestView::Probe,
            Request::Commit => RequestView::Commit,
            Request::Subscriptions => RequestView::Subscriptions,
        }
    }
}

/// The answer to a [`Request`]. A failure carries its cause as text.
#[derive(Debug)]
pub enum Reply {
    /// To `Poll`: the message sets; none at all means the end of the stream.
    Polled(Result<Vec<MessageSet>, String>),
    /// To `Decode`.
    Decoded(Result<ForwardMode, String>),
    /// To `MarkConsumed`.
    Marked(Result<(), String>),
    /// To `Probe`: whether the ack channel was empty.
    Probed(bool),
    /// To `Commit`.
    Committed(Result<(), String>),
    /// To `Subscriptions`.
    Subscribed(Vec<String>),
}

/// The reply that a waiting source expects.
#[derive(Copy, Clone, Debug)]
pub enum Awaiting {
    Nothing,
    Poll,
    Decode,
    Mark,
    Probe,
    Commit,
    Subscriptions,
}

/// The state of a broker source.
pub struct Broker {
    /// The number of entries that may still be fetched.
    pub budget: usize,
    pub phase: Phase,
    pub awaiting: Awaiting,
    /// Whether the poll phase is over.
    pub shut: bool,
    /// The message sets of the last poll that have not been begun.
    pub sets: Seq<MessageSet>,
    /// The messages of the current set that have not been decoded.
    pub messages: Seq<Message>,
    /// The topic of the current set; after the poll phase, the subscribed topic.
    pub topic: Seq<char>,
    /// The partition of the current set.
    pub partition: i32,
    /// The offset of the current message.
    pub offset: i64,
    /// The entries of the current message that have not been offered.
    pub entries: Seq<Entry>,
}

/// What a broker source answers: its next state and its action.
pub type Turn = (Broker, ActionView<EventView, RequestView>);

/// The message of the error for a mark that the broker refused.
pub open spec fn cross_topic(cause: Seq<char>) -> Seq<char> {
    "messages from Kafka have different topics: "@ + cause
}

/// The message of the error for a consumer that does not subscribe to
/// exactly one topic.
pub open spec fn one_topic() -> Seq<char> {
    "subscribes to one topic"@
}

/// The events of a message of `entries` at `(partition, offset)`, in the
/// order of their emission: the entry at index `i` has `entries.len() - 1 - i`
/// entries after it.
pub open spec fn message_events(entries: Seq<Entry>, partition: i32, offset: i64) -> Seq<EventView> {
    Seq::new(
        entries.len(),
        |i: int|
            EventView {
                entry: entries[i]@,
                loc: EntryLocation { remainder: (entries.len() - 1 - i) as u32, partition, offset },
            },
    )
}

impl Broker {
    /// A source that has not been started, with this budget of entries.
    pub open spec fn fresh(budget: usize) -> Broker {
        Broker {
            budget,
            phase: Phase::Idle,
            awaiting: Awaiting::Nothing,
            shut: false,
            sets: Seq::empty(),
            messages: Seq::empty(),
            topic: Seq::empty(),
            partition: 0,
            offset: 0,
            entries: Seq::empty(),
        }
    }

    /// The remainder of every entry still to be offered fits its field.
    pub open spec fn wf(self) -> bool {
        self.entries.len() <= u32::MAX
    }

    /// Sends a request and waits for its reply.
    pub open spec fn ask(self, awaiting: Awaiting, request: RequestView) -> Turn {
        (Broker { phase: Phase::Waiting, awaiting, ..self }, ActionView::Request(request))
    }

    /// Ends the run.
    pub open spec fn finish(self, result: Result<(), ErrorView>) -> Turn {
        (
            Broker { phase: Phase::Finished, awaiting: Awaiting::Nothing, ..self },
            ActionView::Done(result),
        )
    }

    /// Ends the poll phase: the data sender is dropped and the subscribed
    /// topic is asked for, under which the remaining acks are handled.
    pub open spec fn shutdown(self) -> Turn {
        Broker { shut: true, ..self }.ask(Awaiting::Subscriptions, RequestView::Subscriptions)
    }

    /// Goes back to the channels once an ack has been handled.
    pub open spec fn settle(self) -> Turn {
        if self.shut {
            (
                Broker { phase: Phase::Draining, awaiting: Awaiting::Nothing, ..self },
                ActionView::Drain,
            )
        } else {
            (
                Broker { phase: Phase::Offering, awaiting: Awaiting::Nothing, ..self },
                ActionView::Resume,
            )
        }
    }

    /// Turns to the next message: has it decoded, or polls again when the
    /// last poll is used up. Sets without messages are passed over.
    pub open spec fn next_message(self) -> Turn
        decreases self.sets.len(),
    {
        if self.messages.len() > 0 {
            Broker {
                messages: self.messages.drop_first(),
                offset: self.messages[0].offset,
                ..self
            }.ask(Awaiting::Decode, RequestView::Decode(self.messages[0].value@))
        } else if self.sets.len() > 0 {
            Broker {
                sets: self.sets.drop_first(),
                topic: self.sets[0].topic@,
                partition: self.sets[0].partition,
                messages: self.sets[0].messages@,
                ..self
            }.next_message()
        } else {
            self.ask(Awaiting::Poll, RequestView::Poll)
        }
    }

    /// Offers the next entry of the current message, numbered with the count
    /// of entries that follow it, or turns to the next message.
    pub open spec fn next_event(self) -> Turn {
        if self.entries.len() > 0 {
            (
                Broker {
                    entries: self.entries.drop_first(),
                    phase: Phase::Offering,
                    awaiting: Awaiting::Nothing,
                    ..self
                },
                ActionView::Offer(
                    EventView {
                        entry: self.entries[0]@,
                        loc: EntryLocation {
                            remainder: (self.entries.len() - 1) as u32,
                            partition: self.partition,
                            offset: self.offset,
                        },
                    },
                ),
            )
        } else {
            self.next_message()
        }
    }

    /// Takes in a decoded frame. One with more entries than a remainder can
    /// count is an error; one with more entries than the budget allows ends
    /// the poll phase; any other is paid for from the budget and offered
    /// entry by entry.
    pub open spec fn accept(self, frame: ForwardMode) -> Turn {
        let n = frame.entries@.len();
        if n > u32::MAX {
            self.finish(Err(ErrorView::TooManyEvents(n as usize)))
        } else if n > self.budget {
            self.shutdown()
        } else {
            Broker { budget: (self.budget - n) as usize, entries: frame.entries@, ..self }.next_event()
        }
    }

    /// Handles an ack: that of the last entry of a message has the message
    /// marked as consumed; after any ack the ack channel is probed.
    pub open spec fn handle_ack(self, ack: EntryLocation) -> Turn {
        if ack.remainder == 0 {
            self.ask(
                Awaiting::Mark,
                RequestView::MarkConsumed {
                    topic: self.topic,
                    partition: ack.partition,
                    offset: ack.offset,
                },
            )
        } else {
            self.ask(Awaiting::Probe, RequestView::Probe)
        }
    }

    /// Takes in the reply to the request that is out.
    pub open spec fn on_reply(self, reply: Reply) -> Turn {
        match (self.awaiting, reply) {
            (Awaiting::Poll, Reply::Polled(Ok(sets))) => {
                if sets@.len() == 0 {
                    self.shutdown()
                } else {
                    Broker { sets: sets@, ..self }.next_message()
                }
            },
            (Awaiting::Poll, Reply::Polled(Err(cause))) => self.finish(
                Err(ErrorView::CannotFetch(cause@)),
            ),
            (Awaiting::Decode, Reply::Decoded(Ok(frame))) => self.accept(frame),
            (Awaiting::Decode, Reply::Decoded(Err(cause))) => self.finish(
                Err(ErrorView::InvalidMessage(cause@)),
            ),
            (Awaiting::Mark, Reply::Marked(Ok(()))) => self.ask(Awaiting::Probe, RequestView::Probe),
            (Awaiting::Mark, Reply::Marked(Err(cause))) => self.finish(
                Err(ErrorView::Fatal(cross_topic(cause@))),
            ),
            (Awaiting::Probe, Reply::Probed(idle)) => {
                if idle {
                    self.ask(Awaiting::Commit, RequestView::Commit)
                } else {
                    self.settle()
                }
            },
            (Awaiting::Commit, Reply::Committed(Ok(()))) => self.settle(),
            (Awaiting::Commit, Reply::Committed(Err(cause))) => self.finish(
                Err(ErrorView::CannotCommit(cause@)),
            ),
            (Awaiting::Subscriptions, Reply::Subscribed(topics)) => {
                if topics@.len() == 1 {
                    (
                        Broker {
                            topic: topics@[0]@,
                            phase: Phase::Draining,
                            awaiting: Awaiting::Nothing,
                            ..self
                        },
                        ActionView::Drain,
                    )
                } else {
                    self.finish(Err(ErrorView::Fatal(one_topic())))
                }
            },
            _ => self.finish(Err(ErrorView::Fatal(unexpected()))),
        }
    }

    /// The first action: a fresh source polls. One that was started before
    /// answers `ChannelClosed` and stays as it is.
    pub open spec fn start(self) -> Turn {
        if self.phase is Idle {
            self.ask(Awaiting::Poll, RequestView::Poll)
        } else {
            (self, ActionView::Done(Err(ErrorView::ChannelClosed)))
        }
    }

    /// The answer to a signal.
    ///
    /// While an event is on offer: once it is sent the next one follows; an
    /// ack is handled and the offer resumed; the closure of either channel
    /// ends the poll phase. While draining: acks are handled until the ack
    /// channel closes, which ends the run with success. While waiting: only
    /// the reply to the request that is out is taken. Any other signal ends
    /// the run with a fatal error.
    pub open spec fn step(self, signal: Signal<EntryLocation, Reply>) -> Turn {
        match self.phase {
            Phase::Offering => match signal {
                Signal::Sent => self.next_event(),
                Signal::Ack(ack) => self.handle_ack(ack),
                Signal::DataClosed | Signal::AckClosed => self.shutdown(),
                Signal::Reply(_) => self.finish(Err(ErrorView::Fatal(unexpected()))),
            },
            Phase::Draining => match signal {
                Signal::Ack(ack) => self.handle_ack(ack),
                Signal::AckClosed => self.finish(Ok(())),
                _ => self.finish(Err(ErrorView::Fatal(unexpected()))),
            },
            Phase::Waiting => match signal {
                Signal::Reply(reply) => self.on_reply(reply),
                _ => self.finish(Err(ErrorView::Fatal(unexpected()))),
            },
            _ => self.finish(Err(ErrorView::Fatal(unexpected()))),
        }
    }
}

/// Event reader for a message broker.
pub struct Input {
    fetch_limit: usize,
    phase: Phase,
    awaiting: Awaiting,
    shut: bool,
    sets: VecDeque<MessageSet>,
    messages: VecDeque<Message>,
    topic: String,
    partition: i32,
    offset: i64,
    entries: VecDeque<Entry>,
}

impl View for Input {
    type V = Broker;

    closed spec fn view(&self) -> Broker {
        Broker {
            budget: self.fetch_limit,
            phase: self.phase,
            awaiting: self.awaiting,
            shut: self.shut,
            sets: self.sets@,
            messages: self.messages@,
            topic: self.topic@,
            partition: self.partition,
            offset: self.offset,
            entries: self.entries@,
        }
    }
}

impl Input {
    /// Creates a source that fetches at most `fetch_limit` entries.
    pub fn new(fetch_limit: usize) -> (input: Self)
        ensures
            input@ == Broker::fresh(fetch_limit),
            input@.wf(),
    {
        Input {
            fetch_limit,
            phase: Phase::Idle,
            awaiting: Awaiting::Nothing,
            shut: false,
            sets: VecDeque::new(),
            messages: VecDeque::new(),
            topic: String::new(),
            partition: 0,
            offset: 0,
            entries: VecDeque::new(),
        }
    }

    fn ask(&mut self, awaiting: Awaiting, request: Request) -> (action: Action<Event, Request>)
        ensures
            (final(self)@, action@) == old(self)@.ask(awaiting, request@),
    {
        self.phase = Phase::Waiting;
        self.awaiting = awaiting;
        Action::Request(request)
    }

    fn finish(&mut self, result: Result<(), Error>) -> (action: Action<Event, Request>)
        ensures
            (final(self)@, action@) == old(self)@.finish(
                match result {
                    Ok(_) => Ok(()),
                    Err(e) => Err(e@),
                },
            ),
    {
        self.phase = Phase::Finished;
        self.awaiting = Awaiting::Nothing;
        Action::Done(result)
    }

    fn fail(&mut self) -> (action: Action<Event, Request>)
        ensures
            (final(self)@, action@) == old(self)@.finish(Err(ErrorView::Fatal(unexpected()))),
    {
        self.finish(Err(Error::Fatal(String::from_str("unexpected signal"))))
    }

    fn shutdown(&mut self) -> (action: Action<Event, Request>)
        ensures
            (final(self)@, action@) == old(self)@.shutdown(),
    {
        self.shut = true;
        self.ask(Awaiting::Subscriptions, Request::Subscriptions)
    }

    fn settle(&mut self) -> (action: Action<Event, Request>)
        ensures
            (final(self)@, action@) == old(self)@.settle(),
    {
        self.awaiting = Awaiting::Nothing;
        if self.shut {
            self.phase = Phase::Draining;
            Action::Drain
        } else {
            self.phase = Phase::Offering;
            Action::Resume
        }
    }

    fn next_message(&mut self) -> (action: Action<Event, Request>)
        ensures
            (final(self)@, action@) == old(self)@.next_message(),
            final(self)@.entries == old(self)@.entries,
    {
        loop
            invariant
                self@.entries == old(self)@.entries,
                self@.next_message() == old(self)@.next_message(),
            decreases self.sets@.len(),
        {
            match self.messages.pop_front() {
                Some(message) => {
                    self.offset = message.offset;
                    return self.ask(Awaiting::Decode, Request::Decode(message.value));
                },
                None => {},
            }
            match self.sets.pop_front() {
                Some(set) => {
                    self.topic = set.topic;
                    self.partition = set.partition;
                    self.messages = into_deque(set.messages);
                },
                None => {
                    return self.ask(Awaiting::Poll, Request::Poll);
                },
            }
        }
    }

    fn next_event(&mut self) -> (action: Action<Event, Request>)
        requires
            old(self)@.wf(),
        ensures
            (final(self)@, action@) == old(self)@.next_event(),
            final(self)@.wf(),
    {
        match self.entries.pop_front() {
            Some(entry) => {
                let rest = self.entries.len();
                self.phase = Phase::Offering;
                self.awaiting = Awaiting::Nothing;
                Action::Offer(
                    Event {
                        entry,
                        loc: EntryLocation {
                            remainder: rest as u32,
                            partition: self.partition,
                            offset: self.offset,
                        },
                    },
                )
            },
            None => self.next_message(),
        }
    }

    fn accept(&mut self, frame: ForwardMode) -> (action: Action<Event, Request>)
        requires
            old(self)@.wf(),
        ensures
            (final(self)@, action@) == old(self)@.accept(frame),
            final(self)@.wf(),
    {
        let n = frame.entries.len();
        if n > u32::MAX as usize {
            self.finish(Err(Error::TooManyEvents(n)))
        } else if n > self.fetch_limit {
            self.shutdown()
        } else {
            self.fetch_limit = self.fetch_limit - n;
            self.entries = into_deque(frame.entries);
            self.next_event()
        }
    }

    /// Handles an ack: the ack of the last entry of a message has the
    /// message marked as consumed, any other has the ack channel probed.
    fn handle_ack(&mut self, ack: &EntryLocation) -> (action: Action<Event, Request>)
        ensures
            (final(self)@, action@) == old(self)@.handle_ack(*ack),
    {
        if ack.remainder == 0 {
            let topic = self.topic.clone();
            self.ask(
                Awaiting::Mark,
                Request::MarkConsumed { topic, partition: ack.partition, offset: ack.offset },
            )
        } else {
            self.ask(Awaiting::Probe, Request::Probe)
        }
    }

    fn on_reply(&mut self, reply: Reply) -> (action: Action<Event, Request>)
        requires
            old(self)@.wf(),
        ensures
            (final(self)@, action@) == old(self)@.on_reply(reply),
            final(self)@.wf(),
    {
        match (self.awaiting, reply) {
            (Awaiting::Poll, Reply::Polled(Ok(sets))) => {
                if sets.len() == 0 {
                    self.shutdown()
                } else {
                    self.sets = into_deque(sets);
                    self.next_message()
                }
            },
            (Awaiting::Poll, Reply::Polled(Err(cause))) => self.finish(Err(Error::CannotFetch(cause))),
            (Awaiting::Decode, Reply::Decoded(Ok(frame))) => self.accept(frame),
            (Awaiting::Decode, Reply::Decoded(Err(cause))) => self.finish(
                Err(Error::InvalidMessage(cause)),
            ),
            (Awaiting::Mark, Reply::Marked(Ok(()))) => self.ask(Awaiting::Probe, Request::Probe),
            (Awaiting::Mark, Reply::Marked(Err(cause))) => {
                let text = String::from_str("messages from Kafka have different topics: ").concat(
                    cause.as_str(),
                );
                self.finish(Err(Error::Fatal(text)))
            },
            (Awaiting::Probe, Reply::Probed(idle)) => {
                if idle {
                    self.ask(Awaiting::Commit, Request::Commit)
                } else {
                    self.settle()
                }
            },
            (Awaiting::Commit, Reply::Committed(Ok(()))) => self.settle(),
            (Awaiting::Commit, Reply::Committed(Err(cause))) => self.finish(
                Err(Error::CannotCommit(cause)),
            ),
            (Awaiting::Subscriptions, Reply::Subscribed(topics)) => {
                let mut topics = topics;
                if topics.len() == 1 {
                    match topics.pop() {
                        Some(topic) => {
                            self.topic = topic;
                        },
                        None => {},
                    }
                    self.phase = Phase::Draining;
                    self.awaiting = Awaiting::Nothing;
                    Action::Drain
                } else {
                    self.finish(Err(Error::Fatal(String::from_str("subscribes to one topic"))))
                }
            },
            _ => self.fail(),
        }
    }
}

impl crate::Input for Input {
    type Data = Event;

    open spec fn wf(&self) -> bool {
        self@.wf()
    }

    type Ack = EntryLocation;

    type Request = Request;

    type Reply = Reply;

    /// Begins the run with a poll.
    fn start(&mut self) -> (action: Action<Event, Request>)
        ensures
            (final(self)@, action@) == old(self)@.start(),
    {
        match self.phase {
            Phase::Idle => self.ask(Awaiting::Poll, Request::Poll),
            _ => Action::Done(Err(Error::ChannelClosed)),
        }
    }

    /// Takes in how the last action ended and decides the next one.
    fn step(&mut self, signal: Signal<EntryLocation, Reply>) -> (action: Action<Event, Request>)
        ensures
            (final(self)@, action@) == old(self)@.step(signal),
    {
        match self.phase {
            Phase::Offering => match signal {
                Signal::Sent => self.next_event(),
                Signal::Ack(ack) => self.handle_ack(&ack),
                Signal::DataClosed => self.shutdown(),
                Signal::AckClosed => self.shutdown(),
                Signal::Reply(_) => self.fail(),
            },
            Phase::Draining => match signal {
                Signal::Ack(ack) => self.handle_ack(&ack),
                Signal::AckClosed => self.finish(Ok(())),
                _ => self.fail(),
            },
            Phase::Waiting => match signal {
                Signal::Reply(reply) => self.on_reply(reply),
                _ => self.fail(),
            },
            _ => self.fail(),
        }
    }
}

/// What came of the last operation of a sink.
#[derive(Debug)]
pub enum Outcome {
    /// A message was received and serialized into these bytes.
    Encoded(Vec<u8>),
    /// A message was received and could not be serialized; the cause.
    EncodeFailed(String),
    /// The channel of messages is disconnected.
    Closed,
    /// The record was sent.
    Delivered,
    /// The record could not be sent.
    SendFailed,
}

/// What the driver of a sink has to do next.
#[derive(Debug)]
pub enum Order {
    /// Receive the next message and serialize it.
    Receive,
    /// Send these bytes as one record to this topic.
    Send { topic: String, payload: Vec<u8> },
    /// Stop, and hand on the failure of the last send as it is.
    Surface,
    /// The run is over, with this result.
    Done(Result<(), Error>),
}

/// What an [`Order`] holds.
pub enum OrderView {
    Receive,
    Send { topic: Seq<char>, payload: Seq<u8> },
    Surface,
    Done(Result<(), ErrorView>),
}

impl View for Order {
    type V = OrderView;

    open spec fn view(&self) -> OrderView {
        match self {
            Order::Receive => OrderView::Receive,
            Order::Send { topic, payload } => OrderView::Send { topic: topic@, payload: payload@ },
            Order::Surface => OrderView::Surface,
            Order::Done(Ok(())) => OrderView::Done(Ok(())),
            Order::Done(Err(e)) => OrderView::Done(Err(e@)),
        }
    }
}

/// Where a sink stands.
#[derive(Copy, Clone, Debug)]
pub enum SinkStage {
    /// Created.
    Idle,
    /// It waits for a message.
    Receiving,
    /// A record is on its way.
    Sending,
    /// It has stopped.
    Stopped,
}

/// The state of a sink: its topic and its stage.
pub struct Sink {
    pub topic: Seq<char>,
    pub stage: SinkStage,
}

/// The message of the error for a message that cannot be serialized.
pub open spec fn cannot_serialize(cause: Seq<char>) -> Seq<char> {
    "cannot serialize: "@ + cause
}

impl Sink {
    /// The sink in another stage.
    pub open spec fn at(self, stage: SinkStage) -> Sink {
        Sink { stage, ..self }
    }

    /// The first order: a fresh sink receives. One that was started before
    /// answers `ChannelClosed` and stays as it is.
    pub open spec fn start(self) -> (Sink, OrderView) {
        if self.stage is Idle {
            (self.at(SinkStage::Receiving), OrderView::Receive)
        } else {
            (self, OrderView::Done(Err(ErrorView::ChannelClosed)))
        }
    }

    /// The answer to an outcome.
    ///
    /// A message that was serialized is sent to the topic as one record, and
    /// once it is sent the next message is received. A message that could
    /// not be serialized ends the run with `InvalidMessage`, a record that
    /// could not be sent ends it with the failure of the send, and the
    /// closure of the channel ends it with success. Any other outcome ends
    /// the run with a fatal error.
    pub open spec fn step(self, outcome: Outcome) -> (Sink, OrderView) {
        match (self.stage, outcome) {
            (SinkStage::Receiving, Outcome::Encoded(payload)) => (
                self.at(SinkStage::Sending),
                OrderView::Send { topic: self.topic, payload: payload@ },
            ),
            (SinkStage::Receiving, Outcome::EncodeFailed(cause)) => (
                self.at(SinkStage::Stopped),
                OrderView::Done(Err(ErrorView::InvalidMessage(cannot_serialize(cause@)))),
            ),
            (SinkStage::Receiving, Outcome::Closed) => (
                self.at(SinkStage::Stopped),
                OrderView::Done(Ok(())),
            ),
            (SinkStage::Sending, Outcome::Delivered) => (
                self.at(SinkStage::Receiving),
                OrderView::Receive,
            ),
            (SinkStage::Sending, Outcome::SendFailed) => (
                self.at(SinkStage::Stopped),
                OrderView::Surface,
            ),
            _ => (self.at(SinkStage::Stopped), OrderView::Done(Err(ErrorView::Fatal(unexpected())))),
        }
    }
}

/// Event writer for a message broker.
pub struct Output {
    topic: String,
    stage: SinkStage,
}

impl View for Output {
    type V = Sink;

    closed spec fn view(&self) -> Sink {
        Sink { topic: self.topic@, stage: self.stage }
    }
}

impl Output {
    /// Creates a sink that writes to `topic`.
    pub fn new(topic: String) -> (output: Self)
        ensures
            output@.topic == topic@,
            output@.stage is Idle,
    {
        Output { topic, stage: SinkStage::Idle }
    }

    /// Begins the run by receiving the first message.
    pub fn start(&mut self) -> (order: Order)
        ensures
            (final(self)@, order@) == old(self)@.start(),
    {
        match self.stage {
            SinkStage::Idle => {
                self.stage = SinkStage::Receiving;
                Order::Receive
            },
            _ => Order::Done(Err(Error::ChannelClosed)),
        }
    }

    /// Takes in what came of the last order and decides the next one.
    pub fn run(&mut self, outcome: Outcome) -> (order: Order)
        ensures
            (final(self)@, order@) == old(self)@.step(outcome),
    {
        match self.stage {
            SinkStage::Receiving => match outcome {
                Outcome::Encoded(payload) => {
                    self.stage = SinkStage::Sending;
                    Order::Send { topic: self.topic.clone(), payload }
                },
                Outcome::EncodeFailed(cause) => {
                    self.stage = SinkStage::Stopped;
                    let text = String::from_str("cannot serialize: ").concat(cause.as_str());
                    Order::Done(Err(Error::InvalidMessage(text)))
                },
                Outcome::Closed => {
                    self.stage = SinkStage::Stopped;
                    Order::Done(Ok(()))
                },
                _ => self.fail(),
            },
            SinkStage::Sending => match outcome {
                Outcome::Delivered => {
                    self.stage = SinkStage::Receiving;
                    Order::Receive
                },
                Outcome::SendFailed => {
                    self.stage = SinkStage::Stopped;
                    Order::Surface
                },
                _ => self.fail(),
            },
            _ => self.fail(),
        }
    }

    fn fail(&mut self) -> (order: Order)
        ensures
            final(self)@ == old(self)@.at(SinkStage::Stopped),
            order@ == OrderView::Done(Err(ErrorView::Fatal(unexpected()))),
    {
        self.stage = SinkStage::Stopped;
        Order::Done(Err(Error::Fatal(String::from_str("unexpected signal"))))
    }
}

} // verus!
