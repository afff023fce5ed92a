//! The adapter's decisions as a state machine: from a state and the answer
//! of the collaborator that was consulted, to the next state, the signal for
//! the caller and the work the adapter owes.

use vstd::prelude::*;
use crate::signal::{DeliveryOutcome, DeliveryPoll, Signal, UpstreamPoll};

verus! {

/// Where the adapter stands between two advances.
#[derive(Clone, Copy, Debug, PartialEq, Eq, Structural)]
pub enum State {
    /// Nothing is in flight; the next advance polls upstream.
    Idle,
    /// One publish is in flight; the next advance polls its handle.
    AwaitingDelivery,
    /// Upstream ended. Terminal.
    Ended,
    /// Upstream failed. Terminal.
    Failed,
}

/// The collaborator an advance turns to.
#[derive(Clone, Copy, Debug, PartialEq, Eq, Structural)]
pub enum Source {
    Upstream,
    Delivery,
}

/// What a collaborator answered when an advance consulted it.
#[derive(Clone, Debug, PartialEq, Eq)]
pub enum Event {
    Upstream(UpstreamPoll),
    Delivery(DeliveryPoll),
}

/// The work a transition leaves to the adapter.
#[derive(Clone, Debug, PartialEq, Eq)]
pub enum Effect {
    /// Nothing to do.
    Nothing,
    /// Submit this payload and keep the handle as the pending delivery.
    Submit(String),
    /// Drop the pending delivery and record how it ended.
    Observe(DeliveryOutcome),
}

/// One transition of the machine.
#[derive(Clone, Debug, PartialEq, Eq)]
pub struct Step {
    pub next: State,
    pub signal: Signal,
    pub effect: Effect,
}

impl State {
    /// No transition leaves a terminal state.
    pub open spec fn terminal(self) -> bool {
        self == State::Ended || self == State::Failed
    }

    /// The collaborator consulted in this state, if any.
    pub open spec fn source(self) -> Option<Source> {
        match self {
            State::Idle => Some(Source::Upstream),
            State::AwaitingDelivery => Some(Source::Delivery),
            State::Ended => None,
            State::Failed => None,
        }
    }

    /// Whether the adapter has stopped for good.
    pub fn is_terminal(self) -> (b: bool)
        ensures
            b == self.terminal(),
    {
        match self {
            State::Idle => false,
            State::AwaitingDelivery => false,
            State::Ended => true,
            State::Failed => true,
        }
    }
}

impl Event {
    /// The collaborator that gave this answer.
    pub open spec fn source(self) -> Source {
        match self {
            Event::Upstream(_) => Source::Upstream,
            Event::Delivery(_) => Source::Delivery,
        }
    }
}

/// An answer can only be taken in the state that consults its source.
pub open spec fn admissible(state: State, event: Event) -> bool {
    state.source() == Some(event.source())
}

/// The state an admissible answer leads to.
pub open spec fn next_state(event: Event) -> State {
    match event {
        Event::Upstream(UpstreamPoll::NotReady) => State::Idle,
        Event::Upstream(UpstreamPoll::Item(_)) => State::AwaitingDelivery,
        Event::Upstream(UpstreamPoll::End) => State::Ended,
        Event::Upstream(UpstreamPoll::Failed(_)) => State::Failed,
        Event::Delivery(DeliveryPoll::NotReady) => State::AwaitingDelivery,
        Event::Delivery(DeliveryPoll::Ready(_)) => State::Idle,
    }
}

/// The signal the caller gets for an answer. Only a successful delivery
/// yields, and only an upstream error fails: a failed delivery is swallowed.
pub open spec fn signal_of(event: Event) -> Signal {
    match event {
        Event::Upstream(UpstreamPoll::End) => Signal::End,
        Event::Upstream(UpstreamPoll::Failed(error)) => Signal::Fail(error),
        Event::Delivery(DeliveryPoll::Ready(DeliveryOutcome::Delivered { .. })) => Signal::Yield,
        _ => Signal::Suspend,
    }
}

/// The work an answer leaves to the adapter.
pub open spec fn effect_of(event: Event) -> Effect {
    match event {
        Event::Upstream(UpstreamPoll::Item(payload)) => Effect::Submit(payload),
        Event::Delivery(DeliveryPoll::Ready(outcome)) => Effect::Observe(outcome),
        _ => Effect::Nothing,
    }
}

/// The machine's transition relation, as a partial function.
pub open spec fn transition(state: State, event: Event) -> Option<Step> {
    if admissible(state, event) {
        Some(Step { next: next_state(event), signal: signal_of(event), effect: effect_of(event) })
    } else {
        None
    }
}

/// Takes one transition, or none where the answer does not belong to the
/// state: an upstream answer while a delivery is awaited, a delivery answer
/// while idle, and any answer in a terminal state.
pub fn step(state: State, event: Event) -> (taken: Option<Step>)
    ensures
        taken == transition(state, event),
{
    match (state, event) {
        (State::Idle, Event::Upstream(polled)) => Some(
            match polled {
                UpstreamPoll::NotReady => Step {
                    next: State::Idle,
                    signal: Signal::Suspend,
                    effect: Effect::Nothing,
                },
                UpstreamPoll::Item(payload) => Step {
                    next: State::AwaitingDelivery,
                    signal: Signal::Suspend,
                    effect: Effect::Submit(payload),
                },
                UpstreamPoll::End => Step {
                    next: State::Ended,
                    signal: Signal::End,
                    effect: Effect::Nothing,
                },
                UpstreamPoll::Failed(error) => Step {
                    next: State::Failed,
                    signal: Signal::Fail(error),
                    effect: Effect::Nothing,
                },
            },
        ),
        (State::AwaitingDelivery, Event::Delivery(polled)) => Some(
            match polled {
                DeliveryPoll::NotReady => Step {
                    next: State::AwaitingDelivery,
                    signal: Signal::Suspend,
                    effect: Effect::Nothing,
                },
                DeliveryPoll::Ready(outcome) => {
                    let signal = match outcome {
                        DeliveryOutcome::Delivered { .. } => Signal::Yield,
                        DeliveryOutcome::Failed { .. } => Signal::Suspend,
                    };
                    Step { next: State::Idle, signal, effect: Effect::Observe(outcome) }
                },
            },
        ),
        _ => None,
    }
}

} // verus!
