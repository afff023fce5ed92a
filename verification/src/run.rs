//! Runs of the machine: the answers an adapter has taken since it was
//! built, oldest first, and what holds of every such run.

use vstd::prelude::*;
use crate::machine::{admissible, effect_of, next_state, signal_of, transition, Effect, Event, State};
use crate::signal::{DeliveryOutcome, DeliveryPoll, Signal, UpstreamPoll};

verus! {

/// The state in which the answer at position `at` is taken; for
/// `at == events.len()`, the state after the whole run.
pub open spec fn state_before(events: Seq<Event>, at: int) -> State {
    if at <= 0 {
        State::Idle
    } else {
        next_state(events[at - 1])
    }
}

/// The state the machine is in after these answers.
pub open spec fn state_after(events: Seq<Event>) -> State {
    state_before(events, events.len() as int)
}

/// The answer at position `at` belongs to the state in which it is taken.
pub open spec fn admits(events: Seq<Event>, at: int) -> bool {
    admissible(state_before(events, at), events[at])
}

/// A run starts idle and takes each answer in the state the previous one
/// led to.
pub open spec fn valid_run(events: Seq<Event>) -> bool {
    forall|at: int| 0 <= at < events.len() ==> #[trigger] admits(events, at)
}

/// The signals the caller has seen, one for each answer.
pub open spec fn signals(events: Seq<Event>) -> Seq<Signal> {
    Seq::new(events.len(), |at: int| signal_of(events[at]))
}

/// The payloads upstream has handed over, in its order.
pub open spec fn messages(events: Seq<Event>) -> Seq<String>
    decreases events.len(),
{
    if events.len() == 0 {
        Seq::empty()
    } else {
        let earlier = messages(events.drop_last());
        match events.last() {
            Event::Upstream(UpstreamPoll::Item(payload)) => earlier.push(payload),
            _ => earlier,
        }
    }
}

/// The payloads the machine has ordered to be submitted, in the order of
/// the orders.
pub open spec fn submissions(events: Seq<Event>) -> Seq<String>
    decreases events.len(),
{
    if events.len() == 0 {
        Seq::empty()
    } else {
        let earlier = submissions(events.drop_last());
        match effect_of(events.last()) {
            Effect::Submit(payload) => earlier.push(payload),
            _ => earlier,
        }
    }
}

/// How many deliveries have resolved, either way.
pub open spec fn resolved(events: Seq<Event>) -> nat
    decreases events.len(),
{
    if events.len() == 0 {
        0
    } else {
        let earlier = resolved(events.drop_last());
        match events.last() {
            Event::Delivery(DeliveryPoll::Ready(_)) => earlier + 1,
            _ => earlier,
        }
    }
}

/// How many deliveries have failed.
pub open spec fn failures(events: Seq<Event>) -> nat
    decreases events.len(),
{
    if events.len() == 0 {
        0
    } else {
        let earlier = failures(events.drop_last());
        match events.last() {
            Event::Delivery(DeliveryPoll::Ready(DeliveryOutcome::Failed { .. })) => earlier + 1,
            _ => earlier,
        }
    }
}

/// How many times the caller has been told that a message was delivered.
pub open spec fn yields(events: Seq<Event>) -> nat
    decreases events.len(),
{
    if events.len() == 0 {
        0
    } else {
        let earlier = yields(events.drop_last());
        if signal_of(events.last()) == Signal::Yield {
            earlier + 1
        } else {
            earlier
        }
    }
}

/// How the most recently resolved delivery ended.
pub open spec fn last_outcome(events: Seq<Event>) -> Option<DeliveryOutcome>
    decreases events.len(),
{
    if events.len() == 0 {
        None
    } else {
        match events.last() {
            Event::Delivery(DeliveryPoll::Ready(outcome)) => Some(outcome),
            _ => last_outcome(events.drop_last()),
        }
    }
}

/// A signal that lets the caller go on.
pub open spec fn in_passing(signal: Signal) -> bool {
    signal == Signal::Suspend || signal == Signal::Yield
}

/// Every beginning of a run is a run, so what holds of all runs holds at
/// every point of one.
pub proof fn law_prefix_is_run(events: Seq<Event>, len: int)
    requires
        valid_run(events),
        0 <= len <= events.len(),
    ensures
        valid_run(events.take(len)),
        len > 0 ==> state_after(events.take(len)) == state_before(events, len),
{
    let prefix = events.take(len);
    assert forall|at: int| 0 <= at < prefix.len() implies #[trigger] admits(prefix, at) by {
        assert(admits(events, at));
    }
}

/// A run grows by any answer that its last state admits.
pub proof fn law_run_grows(events: Seq<Event>, event: Event)
    requires
        valid_run(events),
        admissible(state_after(events), event),
    ensures
        valid_run(events.push(event)),
        state_after(events.push(event)) == next_state(event),
{
    let longer = events.push(event);
    assert forall|at: int| 0 <= at < longer.len() implies #[trigger] admits(longer, at) by {
        if at < events.len() {
            assert(admits(events, at));
        }
    }
}

/// How the counts of a run change with one more answer.
pub proof fn lemma_counts_grow(events: Seq<Event>, event: Event)
    ensures
        yields(events.push(event)) == yields(events) + if signal_of(event) == Signal::Yield {
            1int
        } else {
            0int
        },
        resolved(events.push(event)) == resolved(events) + if event is Delivery
            && event->Delivery_0 is Ready {
            1int
        } else {
            0int
        },
        submissions(events.push(event)) == match effect_of(event) {
            Effect::Submit(payload) => submissions(events).push(payload),
            _ => submissions(events),
        },
        messages(events.push(event)) == match effect_of(event) {
            Effect::Submit(payload) => messages(events).push(payload),
            _ => messages(events),
        },
        last_outcome(events.push(event)) == match effect_of(event) {
            Effect::Observe(outcome) => Some(outcome),
            _ => last_outcome(events),
        },
{
    assert(events.push(event).drop_last() =~= events);
}

proof fn lemma_drop_last_is_run(events: Seq<Event>)
    requires
        valid_run(events),
        events.len() > 0,
    ensures
        valid_run(events.drop_last()),
        state_after(events.drop_last()) == state_before(events, events.len() - 1),
        admissible(state_after(events.drop_last()), events.last()),
{
    law_prefix_is_run(events, events.len() - 1);
    assert(events.drop_last() =~= events.take(events.len() - 1));
    assert(admits(events, events.len() - 1));
}

/// At most one publish is in flight: the submissions ordered so far exceed
/// the resolved deliveries by one while a delivery is awaited, and by
/// nothing in every other state.
pub proof fn law_one_in_flight(events: Seq<Event>)
    requires
        valid_run(events),
    ensures
        submissions(events).len() - resolved(events) == if state_after(events)
            == State::AwaitingDelivery {
            1int
        } else {
            0int
        },
    decreases events.len(),
{
    if events.len() > 0 {
        lemma_drop_last_is_run(events);
        law_one_in_flight(events.drop_last());
    }
}

/// The machine orders the submission of exactly the messages that upstream
/// handed over, in upstream's order.
pub proof fn law_submissions_follow_upstream(events: Seq<Event>)
    ensures
        submissions(events) == messages(events),
    decreases events.len(),
{
    if events.len() > 0 {
        law_submissions_follow_upstream(events.drop_last());
    }
}

/// A submission is ordered only once every earlier one has resolved.
pub proof fn law_submit_after_resolution(events: Seq<Event>, at: int)
    requires
        valid_run(events),
        0 <= at < events.len(),
        effect_of(events[at]) is Submit,
    ensures
        submissions(events.take(at)).len() == resolved(events.take(at)),
        submissions(events.take(at + 1)) == submissions(events.take(at)).push(
            effect_of(events[at])->Submit_0,
        ),
{
    let before = events.take(at);
    let through = events.take(at + 1);
    assert(submissions(before).len() == resolved(before)) by {
        law_prefix_is_run(events, at);
        law_one_in_flight(before);
        assert(admits(events, at));
    }
    assert(through.drop_last() == before && through.last() == events[at]) by {
        assert(through.drop_last() =~= before);
    }
}

/// Every resolved delivery was either announced to the caller or failed.
pub proof fn law_resolved_split(events: Seq<Event>)
    ensures
        resolved(events) == yields(events) + failures(events),
    decreases events.len(),
{
    if events.len() > 0 {
        law_resolved_split(events.drop_last());
    }
}

/// Until a run reaches a terminal state the caller sees nothing but
/// `Suspend` and `Yield`.
pub proof fn law_passing_signals(events: Seq<Event>, at: int)
    requires
        valid_run(events),
        0 <= at < events.len(),
        at + 1 < events.len() || !state_after(events).terminal(),
    ensures
        in_passing(signals(events)[at]),
{
    if at + 1 < events.len() {
        assert(admits(events, at + 1));
    }
}

/// Where upstream ends after `n` messages of which `m` deliveries failed,
/// the caller has seen exactly `n - m` times `Yield`, no failure, and `End`
/// as the last signal.
pub proof fn law_yields_at_end(events: Seq<Event>)
    requires
        valid_run(events),
        state_after(events) == State::Ended,
    ensures
        yields(events) == messages(events).len() - failures(events),
        events.len() > 0,
        signals(events).last() == Signal::End,
        forall|at: int| 0 <= at < events.len() - 1 ==> in_passing(#[trigger] signals(events)[at]),
{
    law_one_in_flight(events);
    law_submissions_follow_upstream(events);
    law_resolved_split(events);
    assert forall|at: int| 0 <= at < events.len() - 1 implies in_passing(
        #[trigger] signals(events)[at],
    ) by {
        law_passing_signals(events, at);
    }
}

/// Where upstream ends and no delivery has failed, the caller has seen
/// `Yield` once for each message.
pub proof fn law_all_delivered(events: Seq<Event>)
    requires
        valid_run(events),
        state_after(events) == State::Ended,
        failures(events) == 0,
    ensures
        yields(events) == messages(events).len(),
{
    law_yields_at_end(events);
}

/// Where upstream fails, its error is the last signal and the only
/// failure the caller sees, and before it the caller has seen `Yield` once
/// for each message but those whose delivery failed.
pub proof fn law_upstream_failure(events: Seq<Event>)
    requires
        valid_run(events),
        state_after(events) == State::Failed,
    ensures
        events.len() > 0,
        events.last() matches Event::Upstream(UpstreamPoll::Failed(error)) && signals(
            events,
        ).last() == Signal::Fail(error),
        forall|at: int| 0 <= at < events.len() - 1 ==> in_passing(#[trigger] signals(events)[at]),
        yields(events) == messages(events).len() - failures(events),
        yields(events) <= messages(events).len(),
{
    law_one_in_flight(events);
    law_submissions_follow_upstream(events);
    law_resolved_split(events);
    assert forall|at: int| 0 <= at < events.len() - 1 implies in_passing(
        #[trigger] signals(events)[at],
    ) by {
        law_passing_signals(events, at);
    }
}

/// A run that has reached a terminal state takes no further answer: the
/// machine has no transition there.
pub proof fn law_terminal_is_final(events: Seq<Event>, event: Event)
    requires
        valid_run(events),
        state_after(events).terminal(),
    ensures
        transition(state_after(events), event) is None,
        !valid_run(events.push(event)),
{
    let longer = events.push(event);
    if valid_run(longer) {
        assert(admits(longer, events.len() as int));
    }
}

} // verus!
