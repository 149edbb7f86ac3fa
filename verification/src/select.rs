//! The two-channel protocol that every source follows.
//!
//! A source is driven from outside: the driver performs the [`Action`] that
//! the source asks for and reports how it ended with a [`Signal`]. While an
//! event is on offer the driver keeps both "send the event" and "receive an
//! ack" armed and completes whichever is ready, so neither side can starve
//! the other.

use vstd::prelude::*;
use crate::{BareEvent, BareEventView, Error, ErrorView};

verus! {

/// How the last channel operation, or the last request, ended.
#[derive(Debug)]
pub enum Signal<A, R> {
    /// The data channel took the event on offer.
    Sent,
    /// The data channel is disconnected.
    DataClosed,
    /// An acknowledgment arrived.
    Ack(A),
    /// The ack channel is disconnected.
    AckClosed,
    /// The answer to the last [`Action::Request`].
    Reply(R),
}

/// What the driver has to do next.
#[derive(Debug)]
pub enum Action<D, Q> {
    /// Offer this event: arm "send" and "receive an ack", complete the ready one.
    Offer(D),
    /// Arm both operations again, with the event of the last `Offer`.
    Resume,
    /// Drop the data sender, if it is still held, and receive one ack.
    Drain,
    /// Perform an operation outside the channels and report its reply.
    Request(Q),
    /// The run is over, with this result.
    Done(Result<(), Error>),
}

/// What an [`Action`] holds.
pub enum ActionView<D, Q> {
    Offer(D),
    Resume,
    Drain,
    Request(Q),
    Done(Result<(), ErrorView>),
}

impl<D: View, Q: View> View for Action<D, Q> {
    type V = ActionView<D::V, Q::V>;

    open spec fn view(&self) -> ActionView<D::V, Q::V> {
        match self {
            Action::Offer(d) => ActionView::Offer(d@),
            Action::Resume => ActionView::Resume,
            Action::Drain => ActionView::Drain,
            Action::Request(q) => ActionView::Request(q@),
            Action::Done(Ok(())) => ActionView::Done(Ok(())),
            Action::Done(Err(e)) => ActionView::Done(Err(e@)),
        }
    }
}

/// Where a source stands in its run.
#[derive(Clone, Copy, Debug)]
pub enum Phase {
    /// Created; the data sender has not been taken yet.
    Idle,
    /// A request is out; its reply is awaited.
    Waiting,
    /// An event is on offer at the data channel.
    Offering,
    /// The data sender is dropped; the remaining acks are being received.
    Draining,
    /// The run is over.
    Finished,
}

/// The message of the error that ends a run when a signal arrives that the
/// phase does not allow.
pub open spec fn unexpected() -> Seq<char> {
    "unexpected signal"@
}

/// The action that ends a run on a signal that the phase does not allow.
pub open spec fn violation<D, Q>() -> ActionView<D, Q> {
    ActionView::Done(Err(ErrorView::Fatal(unexpected())))
}

/// Ends a run on a signal that the phase does not allow.
pub fn reject<D: View, Q: View>(phase: &mut Phase) -> (action: Action<D, Q>)
    ensures
        *final(phase) is Finished,
        action@ == violation::<D::V, Q::V>(),
{
    *phase = Phase::Finished;
    Action::Done(Err(Error::Fatal(String::from_str("unexpected signal"))))
}

/// A source whose frames are all known when it starts: the frames it has not
/// offered yet, the number that the next event gets, and its phase.
pub struct Bare {
    pub frames: Seq<Seq<u8>>,
    pub next: nat,
    pub phase: Phase,
}

impl Bare {
    /// Every frame still to come has a sequence number.
    pub open spec fn wf(self) -> bool {
        self.next + self.frames.len() <= u64::MAX + 1
    }
}

/// A bare source in the given phase, everything else unchanged.
pub open spec fn turn(v: Bare, phase: Phase) -> Bare {
    Bare { frames: v.frames, next: v.next, phase }
}

/// Takes the next frame: offers it under the next number, or begins to drain
/// when no frame is left.
pub open spec fn bare_advance(v: Bare) -> (Bare, ActionView<BareEventView, ()>) {
    if v.frames.len() == 0 {
        (turn(v, Phase::Draining), ActionView::Drain)
    } else {
        (
            Bare { frames: v.frames.drop_first(), next: v.next + 1, phase: Phase::Offering },
            ActionView::Offer(BareEventView { raw: v.frames[0], seq_no: v.next as u64 }),
        )
    }
}

/// The first action of a bare source. A source that has been started before
/// answers `ChannelClosed` and stays as it is.
pub open spec fn bare_start(v: Bare) -> (Bare, ActionView<BareEventView, ()>) {
    if v.phase is Idle {
        bare_advance(v)
    } else {
        (v, ActionView::Done(Err(ErrorView::ChannelClosed)))
    }
}

/// The answer of a bare source to a signal.
///
/// While an event is on offer: once it is sent the next frame follows; an ack
/// only paces the loop and its value is ignored; the closure of either
/// channel begins the shutdown. While draining: acks are received until the
/// ack channel closes, which ends the run with success.
pub open spec fn bare_step<A>(v: Bare, signal: Signal<A, ()>) -> (Bare, ActionView<BareEventView, ()>) {
    match v.phase {
        Phase::Offering => match signal {
            Signal::Sent => bare_advance(v),
            Signal::Ack(_) => (v, ActionView::Resume),
            Signal::DataClosed | Signal::AckClosed => (turn(v, Phase::Draining), ActionView::Drain),
            Signal::Reply(_) => (turn(v, Phase::Finished), violation()),
        },
        Phase::Draining => match signal {
            Signal::Ack(_) => (v, ActionView::Drain),
            Signal::AckClosed => (turn(v, Phase::Finished), ActionView::Done(Ok(()))),
            _ => (turn(v, Phase::Finished), violation()),
        },
        _ => (turn(v, Phase::Finished), violation()),
    }
}

/// Answers a signal for a bare source, but for the one answer that takes
/// the next frame: to an event that was sent there is no answer here, and
/// the source has to advance.
pub fn bare_answer<A>(phase: &mut Phase, signal: Signal<A, ()>) -> (answer: Option<
    Action<BareEvent, ()>,
>)
    ensures
        match answer {
            None => *old(phase) is Offering && signal is Sent && *final(phase) == *old(phase),
            Some(action) => {
                &&& !(*old(phase) is Offering && signal is Sent)
                &&& forall|v: Bare|
                    v.phase == *old(phase) ==> #[trigger] bare_step(v, signal) == (
                        turn(v, *final(phase)),
                        action@,
                    )
            },
        },
{
    match *phase {
        Phase::Offering => match signal {
            Signal::Sent => None,
            Signal::Ack(_) => Some(Action::Resume),
            Signal::DataClosed => {
                *phase = Phase::Draining;
                Some(Action::Drain)
            },
            Signal::AckClosed => {
                *phase = Phase::Draining;
                Some(Action::Drain)
            },
            Signal::Reply(_) => Some(reject(phase)),
        },
        Phase::Draining => match signal {
            Signal::Ack(_) => Some(Action::Drain),
            Signal::AckClosed => {
                *phase = Phase::Finished;
                Some(Action::Done(Ok(())))
            },
            _ => Some(reject(phase)),
        },
        _ => Some(reject(phase)),
    }
}

/// The events that a sequence of actions offers, in their order.
pub open spec fn offers<D, Q>(actions: Seq<ActionView<D, Q>>) -> Seq<D>
    decreases actions.len(),
{
    if actions.len() == 0 {
        Seq::empty()
    } else {
        match actions.last() {
            ActionView::Offer(event) => offers(actions.drop_last()).push(event),
            _ => offers(actions.drop_last()),
        }
    }
}

/// The number of `Sent` signals in a sequence of signals: the number of
/// events that the data channel took.
pub open spec fn deliveries<A, R>(signals: Seq<Signal<A, R>>) -> nat
    decreases signals.len(),
{
    if signals.len() == 0 {
        0
    } else if signals.last() is Sent {
        deliveries(signals.drop_last()) + 1
    } else {
        deliveries(signals.drop_last())
    }
}

/// Whether a signal is one that well-behaved channels give in this phase:
/// while an event is on offer it is sent or an ack arrives, and while the
/// source drains an ack arrives or the ack channel closes.
pub open spec fn steady<A, R>(phase: Phase, signal: Signal<A, R>) -> bool {
    match phase {
        Phase::Offering => signal is Sent || signal is Ack,
        Phase::Draining => signal is Ack || signal is AckClosed,
        _ => false,
    }
}

/// The state of a bare source after it was started and has taken `signals`
/// in, and the actions it has asked for.
pub open spec fn bare_run<A>(v: Bare, signals: Seq<Signal<A, ()>>) -> (
    Bare,
    Seq<ActionView<BareEventView, ()>>,
)
    decreases signals.len(),
{
    if signals.len() == 0 {
        (bare_start(v).0, seq![bare_start(v).1])
    } else {
        let before = bare_run(v, signals.drop_last());
        let now = bare_step(before.0, signals.last());
        (now.0, before.1.push(now.1))
    }
}

/// Whether every signal of a run is one that well-behaved channels give:
/// the data channel never closes, and the ack channel closes only while the
/// source drains.
pub open spec fn bare_steady<A>(v: Bare, signals: Seq<Signal<A, ()>>) -> bool {
    forall|i: int|
        0 <= i < signals.len() ==> steady(
            bare_run(v, signals.take(i)).0.phase,
            #[trigger] signals[i],
        )
}

/// One more action adds its event, if it offers one.
pub proof fn lemma_offers_push<D, Q>(actions: Seq<ActionView<D, Q>>, action: ActionView<D, Q>)
    ensures
        offers(actions.push(action)) == match action {
            ActionView::Offer(event) => offers(actions).push(event),
            _ => offers(actions),
        },
{
    assert(actions.push(action).drop_last() == actions);
}

/// Whatever the channels do, a bare source offers its frames in their order,
/// each once, under consecutive sequence numbers: the event at index `i` of a
/// run holds frame `i` and the number `first + i`, where `first` is the
/// number that the source began with.
pub proof fn law_offers_in_sequence<A>(v: Bare, signals: Seq<Signal<A, ()>>)
    requires
        v.phase is Idle,
        v.wf(),
    ensures
        ({
            let (after, actions) = bare_run(v, signals);
            let events = offers(actions);
            &&& events.len() <= v.frames.len()
            &&& after.frames == v.frames.skip(events.len() as int)
            &&& after.next == v.next + events.len()
            &&& forall|i: int|
                0 <= i < events.len() ==> {
                    &&& (#[trigger] events[i]).raw == v.frames[i]
                    &&& events[i].seq_no == v.next + i
                }
        }),
    decreases signals.len(),
{
    if signals.len() == 0 {
        lemma_offers_push(Seq::empty(), bare_start(v).1);
        assert(seq![bare_start(v).1] == Seq::empty().push(bare_start(v).1));
        assert(v.frames.skip(0) == v.frames);
        if v.frames.len() > 0 {
            assert(v.frames.drop_first() == v.frames.skip(1));
        }
    } else {
        law_offers_in_sequence(v, signals.drop_last());
        let before = bare_run(v, signals.drop_last());
        let now = bare_step(before.0, signals.last());
        lemma_offers_push(before.1, now.1);
        let k = offers(before.1).len() as int;
        if now.1 is Offer {
            assert(before.0.frames.drop_first() == v.frames.skip(k + 1));
            assert(before.0.frames[0] == v.frames[k]);
        }
    }
}

/// The events of a source that numbers from 1 carry the numbers 1, 2, 3 and
/// so on: they begin at 1, are contiguous, and so increase strictly.
pub proof fn law_numbers_count_from_one<A>(v: Bare, signals: Seq<Signal<A, ()>>)
    requires
        v.phase is Idle,
        v.wf(),
        v.next == 1,
    ensures
        forall|i: int|
            0 <= i < offers(bare_run(v, signals).1).len() ==> (#[trigger] offers(
                bare_run(v, signals).1,
            )[i]).seq_no == i + 1,
        forall|i: int, j: int|
            0 <= i < j < offers(bare_run(v, signals).1).len() ==> (#[trigger] offers(
                bare_run(v, signals).1,
            )[i]).seq_no < (#[trigger] offers(bare_run(v, signals).1)[j]).seq_no,
{
    law_offers_in_sequence(v, signals);
}

/// With well-behaved channels a bare source runs to the end: when it is
/// done it has succeeded, it has offered every frame, and the data channel
/// has taken each of them.
pub proof fn law_steady_run_delivers_all<A>(v: Bare, signals: Seq<Signal<A, ()>>)
    requires
        v.phase is Idle,
        v.wf(),
        bare_steady(v, signals),
    ensures
        ({
            let (after, actions) = bare_run(v, signals);
            &&& after.phase is Offering ==> deliveries(signals) + 1 == offers(actions).len()
            &&& !(after.phase is Offering) ==> {
                &&& deliveries(signals) == v.frames.len()
                &&& offers(actions).len() == v.frames.len()
            }
            &&& after.phase is Offering || after.phase is Draining || after.phase is Finished
            &&& actions.last() is Done ==> actions.last() == ActionView::<BareEventView, ()>::Done(
                Ok(()),
            )
        }),
    decreases signals.len(),
{
    law_offers_in_sequence(v, signals);
    if signals.len() == 0 {
        lemma_offers_push(Seq::empty(), bare_start(v).1);
        assert(seq![bare_start(v).1] == Seq::empty().push(bare_start(v).1));
    } else {
        let head = signals.drop_last();
        assert forall|i: int| 0 <= i < head.len() implies steady(
            bare_run(v, head.take(i)).0.phase,
            #[trigger] head[i],
        ) by {
            assert(head.take(i) == signals.take(i));
            assert(head[i] == signals[i]);
        }
        law_steady_run_delivers_all(v, head);
        law_offers_in_sequence(v, head);
        let before = bare_run(v, head);
        let now = bare_step(before.0, signals.last());
        lemma_offers_push(before.1, now.1);
        assert(signals.take(signals.len() - 1) == head);
        assert(steady(before.0.phase, signals[signals.len() - 1]));
    }
}

} // verus!
