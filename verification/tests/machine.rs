use topic_writer::machine::{step, Effect, Event, State, Step};
use topic_writer::signal::{DeliveryOutcome, DeliveryPoll, Error, Signal, UpstreamPoll};

fn delivered() -> DeliveryOutcome {
    DeliveryOutcome::Delivered { partition: 3, offset: 1234 }
}

fn rejected() -> DeliveryOutcome {
    DeliveryOutcome::Failed { error: Error::new("no leader".to_string()), payload: "p".to_string() }
}

fn upstream_answers() -> Vec<UpstreamPoll> {
    vec![
        UpstreamPoll::NotReady,
        UpstreamPoll::Item("p".to_string()),
        UpstreamPoll::End,
        UpstreamPoll::Failed(Error::new("eof".to_string())),
    ]
}

fn delivery_answers() -> Vec<DeliveryPoll> {
    vec![DeliveryPoll::NotReady, DeliveryPoll::Ready(delivered()), DeliveryPoll::Ready(rejected())]
}

#[test]
fn idle_and_nothing_upstream_stays_idle() {
    assert_eq!(
        step(State::Idle, Event::Upstream(UpstreamPoll::NotReady)),
        Some(Step { next: State::Idle, signal: Signal::Suspend, effect: Effect::Nothing })
    );
}

#[test]
fn idle_and_an_item_orders_its_submission() {
    assert_eq!(
        step(State::Idle, Event::Upstream(UpstreamPoll::Item("p".to_string()))),
        Some(Step {
            next: State::AwaitingDelivery,
            signal: Signal::Suspend,
            effect: Effect::Submit("p".to_string()),
        })
    );
}

#[test]
fn idle_and_the_end_of_upstream_ends() {
    assert_eq!(
        step(State::Idle, Event::Upstream(UpstreamPoll::End)),
        Some(Step { next: State::Ended, signal: Signal::End, effect: Effect::Nothing })
    );
}

#[test]
fn idle_and_an_upstream_error_fails_with_it() {
    assert_eq!(
        step(State::Idle, Event::Upstream(UpstreamPoll::Failed(Error::new("eof".to_string())))),
        Some(Step {
            next: State::Failed,
            signal: Signal::Fail(Error::new("eof".to_string())),
            effect: Effect::Nothing,
        })
    );
}

#[test]
fn awaiting_and_unresolved_keeps_waiting() {
    assert_eq!(
        step(State::AwaitingDelivery, Event::Delivery(DeliveryPoll::NotReady)),
        Some(Step { next: State::AwaitingDelivery, signal: Signal::Suspend, effect: Effect::Nothing })
    );
}

#[test]
fn awaiting_and_delivered_yields() {
    assert_eq!(
        step(State::AwaitingDelivery, Event::Delivery(DeliveryPoll::Ready(delivered()))),
        Some(Step { next: State::Idle, signal: Signal::Yield, effect: Effect::Observe(delivered()) })
    );
}

#[test]
fn awaiting_and_rejected_suspends_and_goes_on() {
    assert_eq!(
        step(State::AwaitingDelivery, Event::Delivery(DeliveryPoll::Ready(rejected()))),
        Some(Step { next: State::Idle, signal: Signal::Suspend, effect: Effect::Observe(rejected()) })
    );
}

#[test]
fn an_answer_of_the_other_collaborator_is_refused() {
    for answer in upstream_answers() {
        assert_eq!(step(State::AwaitingDelivery, Event::Upstream(answer)), None);
    }
    for answer in delivery_answers() {
        assert_eq!(step(State::Idle, Event::Delivery(answer)), None);
    }
}

#[test]
fn terminal_states_take_no_answer() {
    for state in [State::Ended, State::Failed] {
        assert!(state.is_terminal());
        for answer in upstream_answers() {
            assert_eq!(step(state, Event::Upstream(answer)), None);
        }
        for answer in delivery_answers() {
            assert_eq!(step(state, Event::Delivery(answer)), None);
        }
    }
}

#[test]
fn only_ended_and_failed_are_terminal() {
    assert!(!State::Idle.is_terminal());
    assert!(!State::AwaitingDelivery.is_terminal());
    assert!(State::Ended.is_terminal());
    assert!(State::Failed.is_terminal());
}

#[test]
fn a_run_of_the_machine_counts_as_the_adapter_does() {
    let answers = vec![
        Event::Upstream(UpstreamPoll::Item("a".to_string())),
        Event::Delivery(DeliveryPoll::NotReady),
        Event::Delivery(DeliveryPoll::Ready(delivered())),
        Event::Upstream(UpstreamPoll::NotReady),
        Event::Upstream(UpstreamPoll::Item("b".to_string())),
        Event::Delivery(DeliveryPoll::Ready(rejected())),
        Event::Upstream(UpstreamPoll::Item("c".to_string())),
        Event::Delivery(DeliveryPoll::Ready(delivered())),
        Event::Upstream(UpstreamPoll::End),
    ];
    let mut state = State::Idle;
    let mut yields = 0;
    let mut submitted = Vec::new();
    let mut in_flight = 0;
    let mut last = Signal::Suspend;
    for answer in answers {
        let taken = step(state, answer).expect("the answer belongs to the state");
        match taken.effect {
            Effect::Submit(payload) => {
                assert_eq!(in_flight, 0);
                in_flight += 1;
                submitted.push(payload);
            }
            Effect::Observe(_) => in_flight -= 1,
            Effect::Nothing => {}
        }
        if taken.signal == Signal::Yield {
            yields += 1;
        }
        assert_eq!(in_flight == 1, taken.next == State::AwaitingDelivery);
        state = taken.next;
        last = taken.signal;
    }
    assert_eq!(yields, 2);
    assert_eq!(submitted, vec!["a", "b", "c"]);
    assert_eq!(state, State::Ended);
    assert_eq!(last, Signal::End);
}

#[test]
fn clones_are_equal_to_what_they_copy() {
    let error = Error::new("boom".to_string());
    assert_eq!(error.clone(), error);
    assert_eq!(error.clone().message, "boom");
    assert_eq!(delivered().clone(), delivered());
    assert_eq!(rejected().clone(), rejected());
}
