//! The worker side of the two channels.
//!
//! A worker receives events from the data channel, folds each one into its
//! state and sends the ack of the event back. It stops when either channel
//! closes and hands out what it has folded so far.

use vstd::prelude::*;
use crate::Event;

verus! {

/// What came of the last operation of a worker on its channels.
#[derive(Debug)]
pub enum Intake<D> {
    /// An event was received.
    Event(D),
    /// The data channel is disconnected.
    DataClosed,
    /// The ack was sent.
    AckSent,
    /// The ack channel is disconnected.
    AckClosed,
}

/// What a worker has to do next.
#[derive(Debug)]
pub enum Task<A> {
    /// Receive an event from the data channel.
    Receive,
    /// Send this ack to the ack channel.
    Acknowledge(A),
    /// Stop: finalize the state and return the result.
    Finish,
}

/// Where a worker stands.
#[derive(Clone, Copy, Debug)]
pub enum Stage {
    /// It waits for an event.
    Receiving,
    /// It has folded an event and sends the ack.
    Acknowledging,
    /// It has stopped.
    Stopped,
}

/// The stage that follows on an intake, and the task that the worker then
/// has. An event that arrives while the worker waits for one is to be
/// acknowledged. When the ack is sent the worker waits for the next event.
/// When either channel closes the worker stops, and so it does on anything
/// that comes out of turn.
pub open spec fn turn<D: Event>(stage: Stage, intake: Intake<D>) -> (Stage, Task<D::Ack>) {
    match (stage, intake) {
        (Stage::Receiving, Intake::Event(event)) => (
            Stage::Acknowledging,
            Task::Acknowledge(event.spec_ack()),
        ),
        (Stage::Acknowledging, Intake::AckSent) => (Stage::Receiving, Task::Receive),
        _ => (Stage::Stopped, Task::Finish),
    }
}

/// The number of events that are folded on an intake: one for an event that
/// arrives while the worker waits for one, none else.
pub open spec fn folds<D>(stage: Stage, intake: Intake<D>) -> nat {
    if stage is Receiving && intake is Event {
        1
    } else {
        0
    }
}

/// The stage of a worker after it has taken `intakes` in, the number of
/// events it has folded, and the tasks it was given.
pub open spec fn work<D: Event>(stage: Stage, intakes: Seq<Intake<D>>) -> (
    Stage,
    nat,
    Seq<Task<D::Ack>>,
)
    decreases intakes.len(),
{
    if intakes.len() == 0 {
        (stage, 0, Seq::empty())
    } else {
        let before = work(stage, intakes.drop_last());
        (
            turn(before.0, intakes.last()).0,
            before.1 + folds(before.0, intakes.last()),
            before.2.push(turn(before.0, intakes.last()).1),
        )
    }
}

/// The number of events among `intakes`.
pub open spec fn arrivals<D>(intakes: Seq<Intake<D>>) -> nat
    decreases intakes.len(),
{
    if intakes.len() == 0 {
        0
    } else if intakes.last() is Event {
        arrivals(intakes.drop_last()) + 1
    } else {
        arrivals(intakes.drop_last())
    }
}

/// The number of acks that `tasks` ask to send.
pub open spec fn acknowledgments<A>(tasks: Seq<Task<A>>) -> nat
    decreases tasks.len(),
{
    if tasks.len() == 0 {
        0
    } else if tasks.last() is Acknowledge {
        acknowledgments(tasks.drop_last()) + 1
    } else {
        acknowledgments(tasks.drop_last())
    }
}

/// A worker folds no event twice and none in vain: whatever it takes in, it
/// asks to send exactly one ack for each event it has folded, and it has
/// folded no more events than have arrived.
pub proof fn law_one_ack_per_fold<D: Event>(stage: Stage, intakes: Seq<Intake<D>>)
    ensures
        acknowledgments(work(stage, intakes).2) == work(stage, intakes).1,
        work(stage, intakes).1 <= arrivals(intakes),
    decreases intakes.len(),
{
    if intakes.len() > 0 {
        law_one_ack_per_fold(stage, intakes.drop_last());
        let before = work(stage, intakes.drop_last());
        assert(before.2.push(turn(before.0, intakes.last()).1).drop_last() == before.2);
    }
}

/// A worker that is given each event only when it waits for one, as the
/// data channel does, folds every event that arrives: the events it has
/// folded are as many as have arrived.
pub proof fn law_every_arrival_is_folded<D: Event>(intakes: Seq<Intake<D>>)
    requires
        forall|i: int|
            0 <= i < intakes.len() && #[trigger] intakes[i] is Event ==> work(
                Stage::Receiving,
                intakes.take(i),
            ).0 is Receiving,
    ensures
        work(Stage::Receiving, intakes).1 == arrivals(intakes),
    decreases intakes.len(),
{
    if intakes.len() > 0 {
        let head = intakes.drop_last();
        assert forall|i: int| 0 <= i < head.len() && #[trigger] head[i] is Event implies work(
            Stage::Receiving,
            head.take(i),
        ).0 is Receiving by {
            assert(head[i] == intakes[i]);
            assert(head.take(i) == intakes.take(i));
        }
        law_every_arrival_is_folded(head);
        assert(intakes.take(intakes.len() - 1) == head);
        assert(intakes[intakes.len() - 1] == intakes.last());
    }
}

/// One worker of a pool: its accumulator and its stage.
pub struct Worker<S> {
    state: S,
    stage: Stage,
    folded: Ghost<nat>,
}

impl<S> Worker<S> {
    /// The accumulator.
    pub closed spec fn state(&self) -> S {
        self.state
    }

    /// The stage.
    pub closed spec fn stage(&self) -> Stage {
        self.stage
    }

    /// The number of events that the worker has folded.
    pub closed spec fn folded(&self) -> nat {
        self.folded@
    }

    /// Creates a worker with the state that `initialize` gives. The worker
    /// waits for its first event.
    pub fn new<I: Fn() -> S>(initialize: &I) -> (worker: Self)
        requires
            initialize.requires(()),
        ensures
            initialize.ensures((), worker.state()),
            worker.stage() is Receiving,
            worker.folded() == 0,
    {
        Worker { state: initialize(), stage: Stage::Receiving, folded: Ghost(0) }
    }

    /// Takes in what came of the last operation and decides the next one.
    ///
    /// An event that arrives while the worker waits for one is folded into
    /// the state, once, and its ack is to be sent. When the ack is sent the
    /// worker waits for the next event. When either channel closes the
    /// worker stops with the state it has. Anything that comes out of turn
    /// stops it too, and is left unfolded.
    pub fn step<D: Event, O: Fn(S, &D) -> S>(self, fold: &O, intake: Intake<D>) -> (next: (
        Self,
        Task<D::Ack>,
    ))
        requires
            intake matches Intake::Event(event) ==> fold.requires((self.state(), &event)),
        ensures
            next.0.stage() == turn(self.stage(), intake).0,
            next.1 == turn(self.stage(), intake).1,
            next.0.folded() == self.folded() + folds(self.stage(), intake),
            match (self.stage(), intake) {
                (Stage::Receiving, Intake::Event(event)) => fold.ensures(
                    (self.state(), &event),
                    next.0.state(),
                ),
                _ => next.0.state() == self.state(),
            },
    {
        let Worker { state, stage, folded } = self;
        match stage {
            Stage::Receiving => match intake {
                Intake::Event(event) => {
                    let state = fold(state, &event);
                    let ack = event.ack();
                    (
                        Worker { state, stage: Stage::Acknowledging, folded: Ghost(folded@ + 1) },
                        Task::Acknowledge(ack),
                    )
                },
                _ => (Worker { state, stage: Stage::Stopped, folded }, Task::Finish),
            },
            Stage::Acknowledging => match intake {
                Intake::AckSent => (
                    Worker { state, stage: Stage::Receiving, folded },
                    Task::Receive,
                ),
                _ => (Worker { state, stage: Stage::Stopped, folded }, Task::Finish),
            },
            Stage::Stopped => (Worker { state, stage: Stage::Stopped, folded }, Task::Finish),
        }
    }

    /// Hands the state to `finalize` and returns what it makes of it.
    pub fn finish<R, F: Fn(S) -> R>(self, finalize: &F) -> (result: R)
        requires
            finalize.requires((self.state(),)),
        ensures
            finalize.ensures((self.state(),), result),
    {
        finalize(self.state)
    }
}

} // verus!
