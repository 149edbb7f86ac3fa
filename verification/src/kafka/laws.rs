//! What holds of every run of a broker source.

use vstd::prelude::*;
use crate::fluentd::{Entry, ForwardMode};
use crate::kafka::{
    message_events, Broker, EntryLocation, EventView, Reply, RequestView,
};
use crate::select::{deliveries, lemma_offers_push, offers, steady, ActionView, Signal};

verus! {

impl Broker {
    /// The state of a source after it has taken `signals` in, and the
    /// actions with which it answered them.
    pub open spec fn proceed(self, signals: Seq<Signal<EntryLocation, Reply>>) -> (
        Broker,
        Seq<ActionView<EventView, RequestView>>,
    )
        decreases signals.len(),
    {
        if signals.len() == 0 {
            (self, Seq::empty())
        } else {
            let before = self.proceed(signals.drop_last());
            let now = before.0.step(signals.last());
            (now.0, before.1.push(now.1))
        }
    }

    /// The state of a source after it was started and has taken `signals`
    /// in, and its actions: the first one, then the answer to each signal.
    pub open spec fn run(self, signals: Seq<Signal<EntryLocation, Reply>>) -> (
        Broker,
        Seq<ActionView<EventView, RequestView>>,
    ) {
        (self.start().0.proceed(signals).0, seq![self.start().1] + self.start().0.proceed(signals).1)
    }
}

/// Whether an action asks to mark the message at `(partition, offset)`.
pub open spec fn marks_place(
    action: ActionView<EventView, RequestView>,
    partition: i32,
    offset: i64,
) -> bool {
    action matches ActionView::Request(RequestView::MarkConsumed { partition: p, offset: o, .. })
        && p == partition && o == offset
}

/// Whether a signal is the ack of the last entry of the message at
/// `(partition, offset)`.
pub open spec fn acks_place(
    signal: Signal<EntryLocation, Reply>,
    partition: i32,
    offset: i64,
) -> bool {
    signal matches Signal::Ack(ack) && ack.remainder == 0 && ack.partition == partition
        && ack.offset == offset
}

/// The number of actions that ask to mark the message at `(partition, offset)`.
pub open spec fn marks(
    actions: Seq<ActionView<EventView, RequestView>>,
    partition: i32,
    offset: i64,
) -> nat
    decreases actions.len(),
{
    if actions.len() == 0 {
        0
    } else if marks_place(actions.last(), partition, offset) {
        marks(actions.drop_last(), partition, offset) + 1
    } else {
        marks(actions.drop_last(), partition, offset)
    }
}

/// The number of signals that are the ack of the last entry of the message at
/// `(partition, offset)`.
pub open spec fn final_acks(
    signals: Seq<Signal<EntryLocation, Reply>>,
    partition: i32,
    offset: i64,
) -> nat
    decreases signals.len(),
{
    if signals.len() == 0 {
        0
    } else if acks_place(signals.last(), partition, offset) {
        final_acks(signals.drop_last(), partition, offset) + 1
    } else {
        final_acks(signals.drop_last(), partition, offset)
    }
}

/// The events of a message count their remainders down: the event at index
/// `i` of `n` has `n - 1 - i` entries after it, so the first has `n - 1` and
/// the last has none.
pub proof fn law_remainders_count_down(entries: Seq<Entry>, partition: i32, offset: i64, i: int)
    requires
        entries.len() <= u32::MAX,
        0 <= i < entries.len(),
    ensures
        message_events(entries, partition, offset).len() == entries.len(),
        message_events(entries, partition, offset)[i].loc.remainder == entries.len() - 1 - i,
        message_events(entries, partition, offset)[i].loc.partition == partition,
        message_events(entries, partition, offset)[i].loc.offset == offset,
        message_events(entries, partition, offset)[i].entry == entries[i]@,
{
}

/// From the moment a frame is taken in until the next frame is decoded, the
/// events that the source offers are the events of that message, in their
/// order and each once, whatever the channels and the broker do in between.
pub proof fn law_message_is_offered_in_order(
    v: Broker,
    frame: ForwardMode,
    signals: Seq<Signal<EntryLocation, Reply>>,
)
    requires
        frame.entries@.len() <= u32::MAX,
        frame.entries@.len() <= v.budget,
        forall|i: int|
            0 <= i < signals.len() ==> !(#[trigger] signals[i] matches Signal::Reply(
                Reply::Decoded(_),
            )),
    ensures
        ({
            let first = v.accept(frame);
            let rest = first.0.proceed(signals);
            let events = offers(seq![first.1] + rest.1);
            let all = message_events(frame.entries@, v.partition, v.offset);
            &&& events.len() <= all.len()
            &&& events == all.take(events.len() as int)
            &&& rest.0.entries == frame.entries@.skip(events.len() as int)
            &&& events.len() < all.len() ==> {
                &&& rest.0.partition == v.partition
                &&& rest.0.offset == v.offset
                &&& !(rest.0.awaiting is Poll)
                &&& !(rest.0.awaiting is Decode)
            }
        }),
    decreases signals.len(),
{
    let first = v.accept(frame);
    let all = message_events(frame.entries@, v.partition, v.offset);
    let entries = frame.entries@;
    let taken = Broker { budget: (v.budget - entries.len()) as usize, entries, ..v };
    if signals.len() == 0 {
        assert(seq![first.1] + Seq::empty() == Seq::empty().push(first.1));
        lemma_offers_push(Seq::empty(), first.1);
        assert(entries.skip(0) == entries);
        if entries.len() > 0 {
            assert(entries.drop_first() == entries.skip(1));
            assert(offers(Seq::empty().push(first.1)) == all.take(1));
        } else {
            lemma_next_message_asks(taken);
            assert(offers(Seq::empty().push(first.1)) == all.take(0));
        }
    } else {
        let head = signals.drop_last();
        assert forall|i: int| 0 <= i < head.len() implies !(#[trigger] head[i] matches Signal::Reply(
            Reply::Decoded(_),
        )) by {
            assert(head[i] == signals[i]);
        }
        law_message_is_offered_in_order(v, frame, head);
        let before = first.0.proceed(head);
        let now = before.0.step(signals.last());
        assert(signals.last() == signals[signals.len() - 1]);
        assert(seq![first.1] + before.1.push(now.1) == (seq![first.1] + before.1).push(now.1));
        lemma_offers_push(seq![first.1] + before.1, now.1);
        lemma_step_between_frames(before.0, signals.last());
        let k = offers(seq![first.1] + before.1).len() as int;
        if now.1 is Offer {
            assert(before.0.entries.drop_first() == entries.skip(k + 1));
            assert(before.0.entries[0] == entries[k]);
            assert(offers((seq![first.1] + before.1).push(now.1)) == all.take(k + 1));
        }
    }
}

/// What a step does to the entries of the current message while no new frame
/// comes in: it offers the first of them, or leaves them as they are.
proof fn lemma_step_between_frames(v: Broker, signal: Signal<EntryLocation, Reply>)
    requires
        !(signal matches Signal::Reply(Reply::Decoded(_))),
    ensures
        ({
            let now = v.step(signal);
            &&& now.1 is Offer ==> {
                &&& v.entries.len() > 0
                &&& now.0.entries == v.entries.drop_first()
                &&& now.1 == ActionView::<EventView, RequestView>::Offer(
                    EventView {
                        entry: v.entries[0]@,
                        loc: EntryLocation {
                            remainder: (v.entries.len() - 1) as u32,
                            partition: v.partition,
                            offset: v.offset,
                        },
                    },
                )
            }
            &&& !(now.1 is Offer) ==> now.0.entries == v.entries
            &&& v.entries.len() > 0 && !(v.awaiting is Poll) && !(v.awaiting is Decode) ==> {
                &&& now.0.partition == v.partition
                &&& now.0.offset == v.offset
                &&& !(now.0.awaiting is Poll)
                &&& !(now.0.awaiting is Decode)
            }
        }),
{
    lemma_next_message_asks(v);
    match signal {
        Signal::Reply(Reply::Polled(Ok(sets))) => {
            lemma_next_message_asks(Broker { sets: sets@, ..v });
        },
        _ => {},
    }
}

/// The source asks to mark a message only in direct answer to the ack of
/// that message's last entry, and under the topic it holds.
pub proof fn law_mark_answers_final_ack(v: Broker, signal: Signal<EntryLocation, Reply>)
    ensures
        v.step(signal).1 matches ActionView::Request(
            RequestView::MarkConsumed { topic, partition, offset },
        ) ==> acks_place(signal, partition, offset) && topic == v.topic,
{
    match signal {
        Signal::Reply(reply) => {
            lemma_next_message_asks(v);
            match reply {
                Reply::Polled(Ok(sets)) => {
                    lemma_next_message_asks(Broker { sets: sets@, ..v });
                },
                Reply::Decoded(Ok(frame)) => {
                    lemma_next_message_asks(
                        Broker {
                            budget: (v.budget - frame.entries@.len()) as usize,
                            entries: frame.entries@,
                            ..v
                        },
                    );
                },
                _ => {},
            }
        },
        _ => {
            lemma_next_message_asks(v);
        },
    }
}

/// Turning to the next message asks to decode or to poll, nothing else.
proof fn lemma_next_message_asks(v: Broker)
    ensures
        v.next_message().1 == ActionView::<EventView, RequestView>::Request(RequestView::Poll)
            || v.next_message().1 is Request && v.next_message().1->Request_0 is Decode,
        v.next_message().0.entries == v.entries,
        v.next_message().0.shut == v.shut,
        v.next_message().0.phase is Waiting,
        v.next_message().0.awaiting is Poll || v.next_message().0.awaiting is Decode,
    decreases v.sets.len(),
{
    if v.messages.len() == 0 && v.sets.len() > 0 {
        lemma_next_message_asks(
            Broker {
                sets: v.sets.drop_first(),
                topic: v.sets[0].topic@,
                partition: v.sets[0].partition,
                messages: v.sets[0].messages@,
                ..v
            },
        );
    }
}

/// In any run, the source asks to mark a message at most as often as the ack
/// of that message's last entry has arrived. So a message whose last entry
/// is acknowledged once is marked at most once, and one whose last entry is
/// not acknowledged is not marked at all.
pub proof fn law_marks_within_final_acks(
    v: Broker,
    signals: Seq<Signal<EntryLocation, Reply>>,
    partition: i32,
    offset: i64,
)
    ensures
        marks(v.run(signals).1, partition, offset) <= final_acks(signals, partition, offset),
        marks(v.start().0.proceed(signals).1, partition, offset) <= final_acks(
            signals,
            partition,
            offset,
        ),
    decreases signals.len(),
{
    let first = v.start();
    lemma_marks_behind_first(first.1, first.0.proceed(signals).1, partition, offset);
    if signals.len() > 0 {
        let head = signals.drop_last();
        law_marks_within_final_acks(v, head, partition, offset);
        let before = first.0.proceed(head);
        law_mark_answers_final_ack(before.0, signals.last());
        assert(before.1.push(before.0.step(signals.last()).1).drop_last() == before.1);
    }
}

/// An action that asks for no mark, put before others, adds no mark.
proof fn lemma_marks_behind_first(
    first: ActionView<EventView, RequestView>,
    rest: Seq<ActionView<EventView, RequestView>>,
    partition: i32,
    offset: i64,
)
    requires
        !marks_place(first, partition, offset),
    ensures
        marks(seq![first] + rest, partition, offset) == marks(rest, partition, offset),
    decreases rest.len(),
{
    if rest.len() == 0 {
        assert(seq![first] + rest == seq![first]);
        assert(seq![first].drop_last() == Seq::<ActionView<EventView, RequestView>>::empty());
        assert(seq![first].last() == first);
        assert(marks(seq![first].drop_last(), partition, offset) == 0);
    } else {
        lemma_marks_behind_first(first, rest.drop_last(), partition, offset);
        assert((seq![first] + rest).drop_last() == seq![first] + rest.drop_last());
        assert((seq![first] + rest).last() == rest.last());
    }
}

/// The index of the last ack among `signals`, or -1 where there is none.
pub open spec fn last_ack(signals: Seq<Signal<EntryLocation, Reply>>) -> int
    decreases signals.len(),
{
    if signals.len() == 0 {
        -1
    } else if signals.last() is Ack {
        signals.len() - 1
    } else {
        last_ack(signals.drop_last())
    }
}

/// Whether a signal is a probe that found an ack waiting.
pub open spec fn found_waiting(signal: Signal<EntryLocation, Reply>) -> bool {
    signal matches Signal::Reply(Reply::Probed(idle)) && !idle
}

/// Whether the probes of a run are borne out: after each probe that found
/// an ack waiting, an ack arrives. An ack channel answers so, as an ack that
/// waits in it is received later.
pub open spec fn probes_borne_out(signals: Seq<Signal<EntryLocation, Reply>>) -> bool {
    forall|i: int|
        0 <= i < signals.len() && found_waiting(#[trigger] signals[i]) ==> exists|j: int|
            i < j < signals.len() && #[trigger] signals[j] is Ack
}

/// Whether an action asks to commit.
pub open spec fn commits(action: ActionView<EventView, RequestView>) -> bool {
    action == ActionView::<EventView, RequestView>::Request(RequestView::Commit)
}

/// No ack stands behind the last one.
pub proof fn lemma_last_ack(signals: Seq<Signal<EntryLocation, Reply>>, j: int)
    ensures
        -1 <= last_ack(signals) < signals.len(),
        last_ack(signals) >= 0 ==> signals[last_ack(signals)] is Ack,
        0 <= j < signals.len() && signals[j] is Ack ==> j <= last_ack(signals),
    decreases signals.len(),
{
    if signals.len() > 0 {
        lemma_last_ack(signals.drop_last(), j);
    }
}

/// How one step moves the handling of an ack on.
proof fn lemma_step_toward_commit(v: Broker, signal: Signal<EntryLocation, Reply>)
    ensures
        ({
            let now = v.step(signal);
            let handling = now.0.phase is Waiting && (now.0.awaiting is Mark
                || now.0.awaiting is Probe);
            &&& signal is Ack ==> handling || now.0.phase is Finished
            &&& v.phase is Finished ==> now.0.phase is Finished
            &&& v.phase is Waiting && (v.awaiting is Mark || v.awaiting is Probe) ==> handling
                || now.0.phase is Finished || commits(now.1) || found_waiting(signal)
            &&& now.1 == ActionView::<EventView, RequestView>::Done(Ok(())) ==> v.phase is Draining
                && signal is AckClosed
        }),
{
    lemma_next_message_asks(v);
    match signal {
        Signal::Reply(Reply::Polled(Ok(sets))) => {
            lemma_next_message_asks(Broker { sets: sets@, ..v });
        },
        Signal::Reply(Reply::Decoded(Ok(frame))) => {
            lemma_next_message_asks(
                Broker {
                    budget: (v.budget - frame.entries@.len()) as usize,
                    entries: frame.entries@,
                    ..v
                },
            );
        },
        _ => {},
    }
}

/// After the last ack of a run, the source has asked to commit, or a probe
/// has found an ack waiting, or the ack is still being handled, or the run
/// has ended.
proof fn lemma_commit_pending(v: Broker, signals: Seq<Signal<EntryLocation, Reply>>)
    ensures
        ({
            let after = v.proceed(signals);
            &&& after.1.len() == signals.len()
            &&& last_ack(signals) >= 0 ==> {
                ||| exists|j: int|
                    last_ack(signals) < j < signals.len() && commits(#[trigger] after.1[j])
                ||| exists|i: int|
                    last_ack(signals) < i < signals.len() && found_waiting(#[trigger] signals[i])
                ||| after.0.phase is Waiting && (after.0.awaiting is Mark
                    || after.0.awaiting is Probe)
                ||| after.0.phase is Finished
            }
        }),
    decreases signals.len(),
{
    if signals.len() > 0 {
        let n = signals.len() as int;
        let head = signals.drop_last();
        lemma_commit_pending(v, head);
        lemma_last_ack(signals, 0);
        lemma_last_ack(head, 0);
        let before = v.proceed(head);
        let after = v.proceed(signals);
        let now = before.0.step(signals.last());
        lemma_step_toward_commit(before.0, signals.last());
        assert(after.1 == before.1.push(now.1));
        assert(after.1[n - 1] == now.1);
        assert(signals[n - 1] == signals.last());
        if !(signals.last() is Ack) && last_ack(signals) >= 0 {
            let l = last_ack(head);
            if exists|j: int| l < j < head.len() && commits(#[trigger] before.1[j]) {
                let j = choose|j: int| l < j < head.len() && commits(#[trigger] before.1[j]);
                assert(after.1[j] == before.1[j]);
            } else if exists|i: int| l < i < head.len() && found_waiting(#[trigger] head[i]) {
                let i = choose|i: int| l < i < head.len() && found_waiting(#[trigger] head[i]);
                assert(signals[i] == head[i]);
            } else if before.0.phase is Finished {
            } else {
                if commits(now.1) {
                    assert(commits(after.1[n - 1]));
                } else if found_waiting(signals.last()) {
                    assert(found_waiting(signals[n - 1]));
                }
            }
        }
    }
}

/// When a run ends with success after at least one ack, and so after the
/// ack of the last entry of any message, the source has asked to commit
/// after the last ack came in, provided that the probes of the run are borne
/// out. The marks that the acks gave rise to are thus committed.
pub proof fn law_commit_follows_last_ack(v: Broker, signals: Seq<Signal<EntryLocation, Reply>>)
    requires
        probes_borne_out(signals),
        v.run(signals).1.last() == ActionView::<EventView, RequestView>::Done(Ok(())),
        exists|i: int| 0 <= i < signals.len() && #[trigger] signals[i] is Ack,
    ensures
        exists|j: int|
            last_ack(signals) < j < signals.len() && commits(#[trigger] v.run(signals).1[j + 1]),
{
    let first = v.start();
    let n = signals.len() as int;
    let head = signals.drop_last();
    let before = first.0.proceed(head);
    let after = first.0.proceed(signals);
    let now = before.0.step(signals.last());
    let witness = choose|i: int| 0 <= i < signals.len() && #[trigger] signals[i] is Ack;
    lemma_commit_pending(first.0, signals);
    lemma_commit_pending(first.0, head);
    lemma_step_toward_commit(before.0, signals.last());
    lemma_last_ack(signals, witness);
    lemma_last_ack(head, witness);
    assert(after.1 == before.1.push(now.1));
    assert((seq![first.1] + after.1).last() == now.1);
    assert(signals[n - 1] == signals.last());
    assert(head[witness] == signals[witness]);
    let l = last_ack(head);
    assert(l == last_ack(signals));
    if exists|j: int| l < j < head.len() && commits(#[trigger] before.1[j]) {
        let j = choose|j: int| l < j < head.len() && commits(#[trigger] before.1[j]);
        assert((seq![first.1] + after.1)[j + 1] == before.1[j]);
    } else {
        let i = choose|i: int| l < i < head.len() && found_waiting(#[trigger] head[i]);
        assert(signals[i] == head[i]);
        let j = choose|j: int| i < j < signals.len() && #[trigger] signals[j] is Ack;
        lemma_last_ack(signals, j);
    }
}

/// Whether a signal is one that a source in this state may expect: while it
/// waits, a reply; else what well-behaved channels give.
pub open spec fn fitting(v: Broker, signal: Signal<EntryLocation, Reply>) -> bool {
    if v.phase is Waiting {
        signal is Reply
    } else {
        steady(v.phase, signal)
    }
}

/// Whether every signal of a run is one that well-behaved channels and a
/// well-behaved driver give: the data channel never closes, the ack channel
/// closes only while the source drains, and while the source waits a reply
/// comes.
pub open spec fn broker_steady(v: Broker, signals: Seq<Signal<EntryLocation, Reply>>) -> bool {
    forall|i: int|
        0 <= i < signals.len() ==> fitting(
            v.start().0.proceed(signals.take(i)).0,
            #[trigger] signals[i],
        )
}

/// Whether an event is on offer: the source offers it, or handles an ack
/// that came in while it did.
pub open spec fn on_offer(v: Broker) -> bool {
    ||| v.phase is Offering
    ||| v.phase is Waiting && !v.shut && (v.awaiting is Mark || v.awaiting is Probe
        || v.awaiting is Commit)
}

/// Whether the phase of a source agrees with the end of its poll phase:
/// once the poll phase is over no event is offered, nothing is polled and
/// nothing decoded, and only then does the source drain or ask for the
/// subscribed topic.
pub open spec fn settled(v: Broker) -> bool {
    &&& v.shut ==> !(v.phase is Offering)
    &&& v.phase is Draining ==> v.shut
    &&& v.phase is Waiting && v.shut ==> !(v.awaiting is Poll) && !(v.awaiting is Decode)
    &&& v.phase is Waiting && v.awaiting is Subscriptions ==> v.shut
    &&& !(v.phase is Idle)
}

/// What one step of a steady run does to the count of events that were
/// offered and not yet delivered.
proof fn lemma_steady_step(v: Broker, signal: Signal<EntryLocation, Reply>)
    requires
        fitting(v, signal),
        settled(v),
    ensures
        ({
            let now = v.step(signal);
            let sent: int = if signal is Sent {
                1
            } else {
                0
            };
            let offered: int = if now.1 is Offer {
                1
            } else {
                0
            };
            let open_before: int = if on_offer(v) {
                1
            } else {
                0
            };
            let open_after: int = if on_offer(now.0) {
                1
            } else {
                0
            };
            &&& settled(now.0)
            &&& !(now.0.phase is Finished) ==> offered - sent == open_after - open_before
            &&& now.1 == ActionView::<EventView, RequestView>::Done(Ok(())) ==> open_before == 0
                && offered == 0 && sent == 0
        }),
{
    lemma_next_message_asks(v);
    match signal {
        Signal::Reply(Reply::Polled(Ok(sets))) => {
            lemma_next_message_asks(Broker { sets: sets@, ..v });
        },
        Signal::Reply(Reply::Decoded(Ok(frame))) => {
            if frame.entries@.len() <= v.budget {
                lemma_next_message_asks(
                    Broker {
                        budget: (v.budget - frame.entries@.len()) as usize,
                        entries: frame.entries@,
                        ..v
                    },
                );
            }
        },
        _ => {},
    }
}

/// With well-behaved channels, every event that a broker source has offered
/// was taken by the data channel, but for the one that is on offer. So when
/// the run ends with success, each event was delivered once.
pub proof fn law_steady_broker_delivers_offers(
    v: Broker,
    signals: Seq<Signal<EntryLocation, Reply>>,
)
    requires
        v.phase is Idle,
        !v.shut,
        broker_steady(v, signals),
    ensures
        ({
            let (after, actions) = v.run(signals);
            &&& on_offer(after) ==> deliveries(signals) + 1 == offers(actions).len()
            &&& !on_offer(after) && !(after.phase is Finished) ==> deliveries(signals) == offers(
                actions,
            ).len()
            &&& actions.last() == ActionView::<EventView, RequestView>::Done(Ok(()))
                ==> deliveries(signals) == offers(actions).len()
            &&& settled(after)
        }),
    decreases signals.len(),
{
    let first = v.start();
    if signals.len() == 0 {
        assert(seq![first.1] + Seq::empty() == Seq::empty().push(first.1));
        lemma_offers_push(Seq::empty(), first.1);
    } else {
        let head = signals.drop_last();
        assert forall|i: int| 0 <= i < head.len() implies fitting(
            v.start().0.proceed(head.take(i)).0,
            #[trigger] head[i],
        ) by {
            assert(head.take(i) == signals.take(i));
            assert(head[i] == signals[i]);
        }
        law_steady_broker_delivers_offers(v, head);
        let before = first.0.proceed(head);
        let now = before.0.step(signals.last());
        assert(seq![first.1] + before.1.push(now.1) == (seq![first.1] + before.1).push(now.1));
        lemma_offers_push(seq![first.1] + before.1, now.1);
        assert(signals.take(signals.len() - 1) == head);
        assert(signals[signals.len() - 1] == signals.last());
        assert((seq![first.1] + before.1.push(now.1)).last() == now.1);
        lemma_steady_step(before.0, signals.last());
        if now.1 == ActionView::<EventView, RequestView>::Done(Ok(())) {
            assert(!(before.0.phase is Finished)) by {
                lemma_step_toward_commit(before.0, signals.last());
            }
        }
    }
}

} // verus!
