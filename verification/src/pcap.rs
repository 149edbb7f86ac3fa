//! Reading packets as events from a capture.
//!
//! The capture is read outside the library, block by block. The source takes
//! each block in, offers the Ethernet frame of every packet block as an event
//! and passes over the blocks that carry no packet.

use vstd::prelude::*;
use vstd::slice::slice_to_vec;
use crate::select::{
    deliveries, lemma_offers_push, offers, steady, unexpected, Action, ActionView, Phase, Signal,
};
use crate::{BareEvent, BareEventView, Error, ErrorView, SeqNo};

verus! {

/// A packet as a byte sequence.
pub type Event = BareEvent;

/// The capacity of the buffer that a capture is read through.
pub const PCAP_BUFFER_SIZE: usize = 65536;

/// The bytes of a simple packet block that are not packet data.
pub const SIMPLE_PACKET_OVERHEAD: u32 = 16;

/// A block of a capture, as far as the source reads it.
#[derive(Debug)]
pub enum Block {
    /// An enhanced packet block: the packet data, with padding, and the
    /// captured length.
    EnhancedPacket { data: Vec<u8>, caplen: u32 },
    /// A simple packet block: the packet data, with padding, and the total
    /// length of the block.
    SimplePacket { data: Vec<u8>, block_len1: u32 },
    /// A record of the legacy format: the packet data and the captured length.
    Legacy { data: Vec<u8>, caplen: u32 },
    /// A block without a packet: a file or section header, an interface
    /// description, and the like.
    Other,
}

/// The Ethernet frame in `data` of which `caplen` bytes were captured: the
/// first `caplen` bytes, where `caplen` is not zero and `data` holds that many.
pub open spec fn ethernet_frame(data: Seq<u8>, caplen: int) -> Option<Seq<u8>> {
    if caplen <= 0 || data.len() < caplen {
        None
    } else {
        Some(data.take(caplen))
    }
}

/// The Ethernet frame that a block carries, if it carries one.
pub open spec fn packet(block: Block) -> Option<Seq<u8>> {
    match block {
        Block::EnhancedPacket { data, caplen } => ethernet_frame(data@, caplen as int),
        Block::SimplePacket { data, block_len1 } => ethernet_frame(
            data@,
            block_len1 - SIMPLE_PACKET_OVERHEAD,
        ),
        Block::Legacy { data, caplen } => ethernet_frame(data@, caplen as int),
        Block::Other => None,
    }
}

/// Calls `get_packetdata_ethernet` of `pcap_parser`, which hands out the
/// first `caplen` bytes of `data` as a layer 2 frame, and nothing where
/// `caplen` is zero or `data` is shorter than that.
#[verifier::external_body]
fn ethernet<'a>(data: &'a [u8], caplen: usize) -> (frame: Option<&'a [u8]>)
    ensures
        match frame {
            Some(bytes) => ethernet_frame(data@, caplen as int) == Some(bytes@),
            None => ethernet_frame(data@, caplen as int) is None,
        },
{
    match pcap_parser::data::get_packetdata_ethernet(data, caplen) {
        Some(pcap_parser::data::PacketData::L2(bytes)) => Some(bytes),
        _ => None,
    }
}

/// The Ethernet frame that a block carries, if it carries one.
pub fn frame_of(block: &Block) -> (frame: Option<Vec<u8>>)
    ensures
        match frame {
            Some(bytes) => packet(*block) == Some(bytes@),
            None => packet(*block) is None,
        },
{
    let found = match block {
        Block::EnhancedPacket { data, caplen } => ethernet(data.as_slice(), *caplen as usize),
        Block::SimplePacket { data, block_len1 } => {
            if *block_len1 < SIMPLE_PACKET_OVERHEAD {
                None
            } else {
                ethernet(data.as_slice(), (*block_len1 - SIMPLE_PACKET_OVERHEAD) as usize)
            }
        },
        Block::Legacy { data, caplen } => ethernet(data.as_slice(), *caplen as usize),
        Block::Other => None,
    };
    match found {
        Some(bytes) => Some(slice_to_vec(bytes)),
        None => None,
    }
}

/// An operation on the capture that the source asks its driver for.
#[derive(Debug)]
pub enum Request {
    /// Consume the block that was read before and read the next one.
    Next,
    /// Refill the buffer from the input.
    Refill,
}

impl View for Request {
    type V = Request;

    open spec fn view(&self) -> Request {
        *self
    }
}

/// The answer to a [`Request`]. A failure carries its cause as text.
#[derive(Debug)]
pub enum Reply {
    /// To `Next`: a block.
    Block(Block),
    /// To `Next`: the capture has ended.
    Eof,
    /// To `Next`: the buffer holds no complete block.
    Incomplete,
    /// To `Next`: the capture cannot be read.
    Failed(String),
    /// To `Refill`.
    Refilled(Result<(), String>),
}

/// The state of a capture source: the number of events it has offered, its
/// phase, and the request that is out while it waits.
pub struct Capture {
    pub count: SeqNo,
    pub phase: Phase,
    pub awaiting: Request,
}

/// What a capture source answers: its next state and its action.
pub type Turn = (Capture, ActionView<BareEventView, Request>);

/// The message of the error for a capture that cannot be read.
pub open spec fn unreadable(cause: Seq<char>) -> Seq<char> {
    "cannot read packet from pcap: "@ + cause
}

impl Capture {
    /// A source that has not been started.
    pub open spec fn fresh() -> Capture {
        Capture { count: 0, phase: Phase::Idle, awaiting: Request::Next }
    }

    /// Sends a request and waits for its reply.
    pub open spec fn ask(self, request: Request) -> Turn {
        (
            Capture { phase: Phase::Waiting, awaiting: request, ..self },
            ActionView::Request(request),
        )
    }

    /// Ends the run.
    pub open spec fn finish(self, result: Result<(), ErrorView>) -> Turn {
        (Capture { phase: Phase::Finished, ..self }, ActionView::Done(result))
    }

    /// Begins the shutdown: the data sender is dropped and the remaining
    /// acks are received.
    pub open spec fn drain(self) -> Turn {
        (Capture { phase: Phase::Draining, ..self }, ActionView::Drain)
    }

    /// Takes in a block: a packet is offered under the next number, any
    /// other block is passed over. The number after `u64::MAX` does not
    /// exist, so the run ends there.
    pub open spec fn on_block(self, block: Block) -> Turn {
        match packet(block) {
            Some(raw) => {
                if self.count == u64::MAX {
                    self.finish(Err(ErrorView::TooManyEvents(usize::MAX)))
                } else {
                    (
                        Capture { count: (self.count + 1) as u64, phase: Phase::Offering, ..self },
                        ActionView::Offer(
                            BareEventView { raw, seq_no: (self.count + 1) as u64 },
                        ),
                    )
                }
            },
            None => self.ask(Request::Next),
        }
    }

    /// Takes in the reply to the request that is out.
    pub open spec fn on_reply(self, reply: Reply) -> Turn {
        match (self.awaiting, reply) {
            (Request::Next, Reply::Block(block)) => self.on_block(block),
            (Request::Next, Reply::Eof) => self.drain(),
            (Request::Next, Reply::Incomplete) => self.ask(Request::Refill),
            (Request::Next, Reply::Failed(cause)) => self.finish(
                Err(ErrorView::CannotFetch(unreadable(cause@))),
            ),
            (Request::Refill, Reply::Refilled(Ok(()))) => self.ask(Request::Next),
            (Request::Refill, Reply::Refilled(Err(cause))) => self.finish(
                Err(ErrorView::CannotFetch(unreadable(cause@))),
            ),
            _ => self.finish(Err(ErrorView::Fatal(unexpected()))),
        }
    }

    /// The first action: a fresh source reads the first block. One that was
    /// started before answers `ChannelClosed` and stays as it is.
    pub open spec fn start(self) -> Turn {
        if self.phase is Idle {
            self.ask(Request::Next)
        } else {
            (self, ActionView::Done(Err(ErrorView::ChannelClosed)))
        }
    }

    /// The answer to a signal.
    ///
    /// While a packet is on offer: once it is sent the next block is read; an
    /// ack only paces the loop and its value is ignored; the closure of
    /// either channel begins the shutdown. While draining: acks are received
    /// until the ack channel closes, which ends the run with success. While
    /// waiting: only the reply to the request that is out is taken. Any other
    /// signal ends the run with a fatal error.
    pub open spec fn step(self, signal: Signal<SeqNo, Reply>) -> Turn {
        match self.phase {
            Phase::Offering => match signal {
                Signal::Sent => self.ask(Request::Next),
                Signal::Ack(_) => (self, ActionView::Resume),
                Signal::DataClosed | Signal::AckClosed => self.drain(),
                Signal::Reply(_) => self.finish(Err(ErrorView::Fatal(unexpected()))),
            },
            Phase::Draining => match signal {
                Signal::Ack(_) => (self, ActionView::Drain),
                Signal::AckClosed => self.finish(Ok(())),
                _ => self.finish(Err(ErrorView::Fatal(unexpected()))),
            },
            Phase::Waiting => match signal {
                Signal::Reply(reply) => self.on_reply(reply),
                _ => self.finish(Err(ErrorView::Fatal(unexpected()))),
            },
            _ => self.finish(Err(ErrorView::Fatal(unexpected()))),
        }
    }
}

/// Event reader for a capture.
pub struct Input {
    id: SeqNo,
    phase: Phase,
    awaiting: Request,
}

impl View for Input {
    type V = Capture;

    closed spec fn view(&self) -> Capture {
        Capture { count: self.id, phase: self.phase, awaiting: self.awaiting }
    }
}

impl Input {
    /// Creates a source for one capture.
    pub fn with_read() -> (input: Self)
        ensures
            input@ == Capture::fresh(),
    {
        Input { id: 0, phase: Phase::Idle, awaiting: Request::Next }
    }

    fn ask(&mut self, request: Request) -> (action: Action<Event, Request>)
        ensures
            (final(self)@, action@) == old(self)@.ask(request),
    {
        self.phase = Phase::Waiting;
        match request {
            Request::Next => {
                self.awaiting = Request::Next;
            },
            Request::Refill => {
                self.awaiting = Request::Refill;
            },
        }
        Action::Request(request)
    }

    fn finish(&mut self, result: Result<(), Error>) -> (action: Action<Event, Request>)
        ensures
            (final(self)@, action@) == old(self)@.finish(
                match result {
                    Ok(_) => Ok(()),
                    Err(e) => Err(e@),
                },
            ),
    {
        self.phase = Phase::Finished;
        Action::Done(result)
    }

    fn fail(&mut self) -> (action: Action<Event, Request>)
        ensures
            (final(self)@, action@) == old(self)@.finish(Err(ErrorView::Fatal(unexpected()))),
    {
        self.finish(Err(Error::Fatal(String::from_str("unexpected signal"))))
    }

    fn cannot_read(&mut self, cause: String) -> (action: Action<Event, Request>)
        ensures
            (final(self)@, action@) == old(self)@.finish(
                Err(ErrorView::CannotFetch(unreadable(cause@))),
            ),
    {
        let text = String::from_str("cannot read packet from pcap: ").concat(cause.as_str());
        self.finish(Err(Error::CannotFetch(text)))
    }

    fn drain(&mut self) -> (action: Action<Event, Request>)
        ensures
            (final(self)@, action@) == old(self)@.drain(),
    {
        self.phase = Phase::Draining;
        Action::Drain
    }

    fn on_block(&mut self, block: Block) -> (action: Action<Event, Request>)
        ensures
            (final(self)@, action@) == old(self)@.on_block(block),
    {
        match frame_of(&block) {
            Some(raw) => {
                if self.id == u64::MAX {
                    self.finish(Err(Error::TooManyEvents(usize::MAX)))
                } else {
                    self.id = self.id + 1;
                    self.phase = Phase::Offering;
                    Action::Offer(BareEvent { raw, seq_no: self.id })
                }
            },
            None => self.ask(Request::Next),
        }
    }

    fn on_reply(&mut self, reply: Reply) -> (action: Action<Event, Request>)
        ensures
            (final(self)@, action@) == old(self)@.on_reply(reply),
    {
        match self.awaiting {
            Request::Next => match reply {
                Reply::Block(block) => self.on_block(block),
                Reply::Eof => self.drain(),
                Reply::Incomplete => self.ask(Request::Refill),
                Reply::Failed(cause) => self.cannot_read(cause),
                Reply::Refilled(_) => self.fail(),
            },
            Request::Refill => match reply {
                Reply::Refilled(Ok(())) => self.ask(Request::Next),
                Reply::Refilled(Err(cause)) => self.cannot_read(cause),
                _ => self.fail(),
            },
        }
    }
}

impl crate::Input for Input {
    type Data = Event;

    type Ack = SeqNo;

    type Request = Request;

    type Reply = Reply;

    open spec fn wf(&self) -> bool {
        true
    }

    /// Begins the run by reading the first block.
    fn start(&mut self) -> (action: Action<Event, Request>)
        ensures
            (final(self)@, action@) == old(self)@.start(),
    {
        match self.phase {
            Phase::Idle => self.ask(Request::Next),
            _ => Action::Done(Err(Error::ChannelClosed)),
        }
    }

    /// Takes in how the last action ended and decides the next one.
    fn step(&mut self, signal: Signal<SeqNo, Reply>) -> (action: Action<Event, Request>)
        ensures
            (final(self)@, action@) == old(self)@.step(signal),
    {
        match self.phase {
            Phase::Offering => match signal {
                Signal::Sent => self.ask(Request::Next),
                Signal::Ack(_) => Action::Resume,
                Signal::DataClosed => self.drain(),
                Signal::AckClosed => self.drain(),
                Signal::Reply(_) => self.fail(),
            },
            Phase::Draining => match signal {
                Signal::Ack(_) => Action::Drain,
                Signal::AckClosed => self.finish(Ok(())),
                _ => self.fail(),
            },
            Phase::Waiting => match signal {
                Signal::Reply(reply) => self.on_reply(reply),
                _ => self.fail(),
            },
            _ => self.fail(),
        }
    }
}

impl Capture {
    /// The state of a source after it has taken `signals` in, and the
    /// actions with which it answered them.
    pub open spec fn proceed(self, signals: Seq<Signal<SeqNo, Reply>>) -> (
        Capture,
        Seq<ActionView<BareEventView, Request>>,
    )
        decreases signals.len(),
    {
        if signals.len() == 0 {
            (self, Seq::empty())
        } else {
            let before = self.proceed(signals.drop_last());
            let now = before.0.step(signals.last());
            (now.0, before.1.push(now.1))
        }
    }

    /// The state of a source after it was started and has taken `signals`
    /// in, and its actions: the first one, then the answer to each signal.
    pub open spec fn run(self, signals: Seq<Signal<SeqNo, Reply>>) -> (
        Capture,
        Seq<ActionView<BareEventView, Request>>,
    ) {
        (self.start().0.proceed(signals).0, seq![self.start().1] + self.start().0.proceed(signals).1)
    }
}

/// The number of signals that bring a block with a packet.
pub open spec fn packets(signals: Seq<Signal<SeqNo, Reply>>) -> nat
    decreases signals.len(),
{
    if signals.len() == 0 {
        0
    } else if signals.last() matches Signal::Reply(Reply::Block(block)) && packet(block) is Some {
        packets(signals.drop_last()) + 1
    } else {
        packets(signals.drop_last())
    }
}

/// Whether every signal of a run is one that well-behaved channels and a
/// well-behaved driver give: the data channel never closes, the ack channel
/// closes only while the source drains, and while the source waits a reply
/// comes.
pub open spec fn capture_steady(v: Capture, signals: Seq<Signal<SeqNo, Reply>>) -> bool {
    forall|i: int|
        0 <= i < signals.len() ==> fitting(
            v.start().0.proceed(signals.take(i)).0,
            #[trigger] signals[i],
        )
}

/// Whether a signal is one that a source in this state may expect: while it
/// waits, a reply to the request that is out; else what well-behaved
/// channels give.
pub open spec fn fitting(v: Capture, signal: Signal<SeqNo, Reply>) -> bool {
    if v.phase is Waiting {
        signal matches Signal::Reply(reply) && (reply is Refilled <==> v.awaiting is Refill)
    } else {
        steady(v.phase, signal)
    }
}

/// Whatever the channels and the capture do, a capture source numbers the
/// packets it offers consecutively: the event at index `i` of a run of a
/// fresh source has the sequence number `i + 1`.
pub proof fn law_packets_are_numbered(v: Capture, signals: Seq<Signal<SeqNo, Reply>>)
    requires
        v.phase is Idle,
        v.count == 0,
    ensures
        ({
            let (after, actions) = v.run(signals);
            let events = offers(actions);
            &&& after.count == events.len()
            &&& forall|i: int| 0 <= i < events.len() ==> (#[trigger] events[i]).seq_no == i + 1
        }),
    decreases signals.len(),
{
    let first = v.start();
    if signals.len() == 0 {
        assert(seq![first.1] + Seq::empty() == Seq::empty().push(first.1));
        lemma_offers_push(Seq::empty(), first.1);
    } else {
        let head = signals.drop_last();
        law_packets_are_numbered(v, head);
        let before = first.0.proceed(head);
        let now = before.0.step(signals.last());
        assert(seq![first.1] + before.1.push(now.1) == (seq![first.1] + before.1).push(now.1));
        lemma_offers_push(seq![first.1] + before.1, now.1);
    }
}

/// With well-behaved channels, a capture source offers one event for each
/// block with a packet that it is given, and the data channel takes each of
/// them, as long as the sequence numbers last.
pub proof fn law_steady_capture_delivers_all(v: Capture, signals: Seq<Signal<SeqNo, Reply>>)
    requires
        v.phase is Idle,
        v.count == 0,
        capture_steady(v, signals),
        packets(signals) <= u64::MAX,
    ensures
        ({
            let (after, actions) = v.run(signals);
            &&& offers(actions).len() == packets(signals)
            &&& after.phase is Offering ==> deliveries(signals) + 1 == packets(signals)
            &&& !(after.phase is Offering) ==> deliveries(signals) == packets(signals)
            &&& !(after.phase is Idle)
            &&& actions.last() is Done ==> !(actions.last() matches ActionView::Done(
                Err(ErrorView::Fatal(_)),
            )) && !(actions.last() matches ActionView::Done(Err(ErrorView::TooManyEvents(_))))
        }),
    decreases signals.len(),
{
    let first = v.start();
    law_packets_are_numbered(v, signals);
    if signals.len() == 0 {
        assert(seq![first.1] + Seq::empty() == Seq::empty().push(first.1));
        lemma_offers_push(Seq::empty(), first.1);
    } else {
        let head = signals.drop_last();
        assert forall|i: int| 0 <= i < head.len() implies fitting(
            v.start().0.proceed(head.take(i)).0,
            #[trigger] head[i],
        ) by {
            assert(head.take(i) == signals.take(i));
            assert(head[i] == signals[i]);
        }
        law_steady_capture_delivers_all(v, head);
        law_packets_are_numbered(v, head);
        let before = first.0.proceed(head);
        let now = before.0.step(signals.last());
        assert(seq![first.1] + before.1.push(now.1) == (seq![first.1] + before.1).push(now.1));
        lemma_offers_push(seq![first.1] + before.1, now.1);
        assert(signals.take(signals.len() - 1) == head);
        assert(signals[signals.len() - 1] == signals.last());
        assert((seq![first.1] + before.1.push(now.1)).last() == now.1);
    }
}

} // verus!
