//! The two channels of a source, and what a driver does on them.
//!
//! The data sender sits in a slot from which it is taken once: dropping it
//! there closes the data channel for the workers while the source goes on
//! to receive the remaining acks.

use vstd::prelude::*;
use crate::select::{Action, Signal};
use crate::Error;

verus! {

/// Declares `Sender` of `crossbeam_channel`, the sending side of a channel,
/// as a type whose inside is not looked at.
#[verifier::external_type_specification]
#[verifier::external_body]
#[verifier::reject_recursive_types(T)]
pub struct ExSender<T>(crossbeam_channel::Sender<T>);

/// Declares `Receiver` of `crossbeam_channel`, the receiving side of a
/// channel, as a type whose inside is not looked at.
#[verifier::external_type_specification]
#[verifier::external_body]
#[verifier::reject_recursive_types(T)]
pub struct ExReceiver<T>(crossbeam_channel::Receiver<T>);

/// What a try to send came to.
enum Handover<D> {
    /// The channel took the event.
    Taken,
    /// The channel is full; the event comes back.
    Full(D),
    /// The channel is disconnected; the event comes back.
    Disconnected(D),
}

/// What a try to receive came to.
enum Pickup<A> {
    /// An ack was there.
    Got(A),
    /// No ack is there now.
    Empty,
    /// The channel is disconnected.
    Disconnected,
}

/// Registers "send on `data_channel`" and then "receive from `ack_channel`"
/// with a `Select` and calls its `ready`, which blocks until one of the two
/// would not block and returns the index of that one: 0 for the send, 1 for
/// the receive. It may name an operation that cannot be completed after all,
/// so nothing but the range of the index is claimed.
#[verifier::external_body]
fn ready<D, A>(
    data_channel: &crossbeam_channel::Sender<D>,
    ack_channel: &crossbeam_channel::Receiver<A>,
) -> (index: usize)
    ensures
        index < 2,
{
    let mut sel = crossbeam_channel::Select::new();
    sel.send(data_channel);
    sel.recv(ack_channel);
    sel.ready()
}

/// Calls `Sender::try_send`, which hands the event back where it cannot
/// send it.
#[verifier::external_body]
fn try_send<D>(data_channel: &crossbeam_channel::Sender<D>, event: D) -> (handover: Handover<D>)
    ensures
        match handover {
            Handover::Taken => true,
            Handover::Full(back) => back == event,
            Handover::Disconnected(back) => back == event,
        },
{
    match data_channel.try_send(event) {
        Ok(()) => Handover::Taken,
        Err(crossbeam_channel::TrySendError::Full(back)) => Handover::Full(back),
        Err(crossbeam_channel::TrySendError::Disconnected(back)) => Handover::Disconnected(back),
    }
}

/// Calls `Receiver::try_recv`. Nothing is known of what it finds.
#[verifier::external_body]
fn try_recv<A>(ack_channel: &crossbeam_channel::Receiver<A>) -> (pickup: Pickup<A>) {
    match ack_channel.try_recv() {
        Ok(ack) => Pickup::Got(ack),
        Err(crossbeam_channel::TryRecvError::Empty) => Pickup::Empty,
        Err(crossbeam_channel::TryRecvError::Disconnected) => Pickup::Disconnected,
    }
}

/// Calls `Receiver::recv`, which blocks until an ack arrives or the channel
/// is disconnected. Nothing is known of which it will be.
#[verifier::external_body]
fn recv<A>(ack_channel: &crossbeam_channel::Receiver<A>) -> (ack: Option<A>) {
    ack_channel.recv().ok()
}

/// Calls `Receiver::is_empty`. Nothing is known of the answer.
#[verifier::external_body]
fn is_empty<A>(ack_channel: &crossbeam_channel::Receiver<A>) -> (empty: bool) {
    ack_channel.is_empty()
}

/// What came of an action that was performed on the channels.
#[derive(Debug)]
pub enum Performed<A, Q, R> {
    /// The action ended with this signal.
    Signal(Signal<A, R>),
    /// Neither operation could be completed; the offer is to be resumed.
    Again,
    /// The action is a request, which the channels cannot answer.
    Request(Q),
    /// The run is over, with this result.
    Done(Result<(), Error>),
}

/// The two channels of a source and the event that is on offer.
#[verifier::reject_recursive_types(D)]
#[verifier::reject_recursive_types(A)]
pub struct Channels<D, A> {
    data_channel: Option<crossbeam_channel::Sender<D>>,
    ack_channel: crossbeam_channel::Receiver<A>,
    held: Option<D>,
}

/// Whether `next` is what an offer may come to, and `after` what is held
/// then. Without a sender or an event there is nothing to offer, which
/// counts as a closed data channel. Else the event leaves only when it is
/// sent; in every other case it is held on to.
pub open spec fn offer_result<D, A, Q, R>(
    connected: bool,
    held: Option<D>,
    after: Option<D>,
    next: Performed<A, Q, R>,
) -> bool {
    if !connected || held is None {
        after == held && next == Performed::<A, Q, R>::Signal(Signal::DataClosed)
    } else {
        match next {
            Performed::Signal(Signal::Sent) => after is None,
            Performed::Signal(Signal::DataClosed) => after == held,
            Performed::Signal(Signal::Ack(_)) => after == held,
            Performed::Signal(Signal::AckClosed) => after == held,
            Performed::Again => after == held,
            _ => false,
        }
    }
}

impl<D, A> Channels<D, A> {
    /// Whether the data sender is still held.
    pub closed spec fn connected(&self) -> bool {
        self.data_channel is Some
    }

    /// The event that is on offer.
    pub closed spec fn held(&self) -> Option<D> {
        self.held
    }

    /// Takes the two channels of a source.
    pub fn new(
        data_channel: crossbeam_channel::Sender<D>,
        ack_channel: crossbeam_channel::Receiver<A>,
    ) -> (channels: Self)
        ensures
            channels.connected(),
            channels.held() is None,
    {
        Channels { data_channel: Some(data_channel), ack_channel, held: None }
    }

    /// Drops the data sender, which closes the data channel for the workers.
    pub fn close(&mut self)
        ensures
            !final(self).connected(),
            final(self).held() == old(self).held(),
    {
        self.data_channel = None;
    }

    /// Tells whether the ack channel is empty right now.
    pub fn idle(&self) -> bool {
        is_empty(&self.ack_channel)
    }

    /// Waits until the event can be sent or an ack received, and tries the
    /// one that is ready.
    fn offer<Q, R>(&mut self) -> (next: Performed<A, Q, R>)
        ensures
            final(self).connected() == old(self).connected(),
            offer_result(old(self).connected(), old(self).held(), final(self).held(), next),
    {
        let event = match self.held.take() {
            Some(event) => event,
            None => {
                return Performed::Signal(Signal::DataClosed);
            },
        };
        match &self.data_channel {
            None => {
                self.held = Some(event);
                Performed::Signal(Signal::DataClosed)
            },
            Some(data_channel) => {
                if ready(data_channel, &self.ack_channel) == 0 {
                    match try_send(data_channel, event) {
                        Handover::Taken => Performed::Signal(Signal::Sent),
                        Handover::Full(back) => {
                            self.held = Some(back);
                            Performed::Again
                        },
                        Handover::Disconnected(back) => {
                            self.held = Some(back);
                            Performed::Signal(Signal::DataClosed)
                        },
                    }
                } else {
                    self.held = Some(event);
                    match try_recv(&self.ack_channel) {
                        Pickup::Got(ack) => Performed::Signal(Signal::Ack(ack)),
                        Pickup::Empty => Performed::Again,
                        Pickup::Disconnected => Performed::Signal(Signal::AckClosed),
                    }
                }
            },
        }
    }

    /// Performs an action on the channels, as far as it is one for them.
    ///
    /// An event that is offered is held until the data channel takes it;
    /// while it is held, acks are received as they come. To drain is to
    /// drop the data sender and to receive one ack. A request and the end of
    /// the run are handed back as they are.
    pub fn perform<Q, R>(&mut self, action: Action<D, Q>) -> (next: Performed<A, Q, R>)
        ensures
            match action {
                Action::Offer(event) => {
                    &&& final(self).connected() == old(self).connected()
                    &&& offer_result(old(self).connected(), Some(event), final(self).held(), next)
                },
                Action::Resume => {
                    &&& final(self).connected() == old(self).connected()
                    &&& offer_result(
                        old(self).connected(),
                        old(self).held(),
                        final(self).held(),
                        next,
                    )
                },
                Action::Drain => {
                    &&& !final(self).connected()
                    &&& final(self).held() == old(self).held()
                    &&& next matches Performed::Signal(signal) && (signal is Ack
                        || signal is AckClosed)
                },
                Action::Request(request) => {
                    &&& final(self).connected() == old(self).connected()
                    &&& final(self).held() == old(self).held()
                    &&& next == Performed::<A, Q, R>::Request(request)
                },
                Action::Done(result) => {
                    &&& final(self).connected() == old(self).connected()
                    &&& final(self).held() == old(self).held()
                    &&& next == Performed::<A, Q, R>::Done(result)
                },
            },
    {
        match action {
            Action::Offer(event) => {
                self.held = Some(event);
                self.offer()
            },
            Action::Resume => self.offer(),
            Action::Drain => {
                self.data_channel = None;
                match recv(&self.ack_channel) {
                    Some(ack) => Performed::Signal(Signal::Ack(ack)),
                    None => Performed::Signal(Signal::AckClosed),
                }
            },
            Action::Request(request) => Performed::Request(request),
            Action::Done(result) => Performed::Done(result),
        }
    }
}

} // verus!
