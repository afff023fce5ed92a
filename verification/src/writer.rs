//! The delivery adapter: it owns an upstream sequence and a publish client
//! and hands the messages of the first to the second, one at a time.

use vstd::prelude::*;
use crate::collaborators::{
    InFlight, KeyGenerator, PublishClient, PublishRecord, Request, Upstream,
};
use crate::machine::{effect_of, signal_of, step, transition, Effect, Event, State, Step};
use crate::run::{
    failures, last_outcome, law_run_grows, law_submissions_follow_upstream,
    law_upstream_failure, law_yields_at_end, lemma_counts_grow, messages,
    state_after, valid_run, yields,
};
use crate::signal::{DeliveryOutcome, DeliveryPoll, Error, Signal, UpstreamPoll};

verus! {

/// What the adapter holds between two advances: at most one pending
/// delivery, or the reason it stopped.
enum Slot<H> {
    Idle,
    Awaiting(H),
    Ended,
    Failed(Error),
}

/// What a bounded drive of the adapter has seen.
#[derive(Clone, Debug, PartialEq, Eq)]
pub struct Tally {
    /// How many times the adapter signalled `Yield`.
    pub yields: usize,
    /// The terminal signal, if the drive got that far.
    pub stopped: Option<Signal>,
}

/// The adapter. It owns its upstream sequence, its key generator and its
/// publish client, and holds at most one pending delivery.
pub struct Writer<K, P, S> where K: KeyGenerator, P: PublishClient<K::Item>, S: Upstream {
    inner: S,
    topic: String,
    generator: K,
    producer: P,
    slot: Slot<P::Handle>,
    observed: Option<DeliveryOutcome>,
    history: Ghost<Seq<Event>>,
    requests: Ghost<Seq<Request<K::Item>>>,
}

impl<K, P, S> Writer<K, P, S> where K: KeyGenerator, P: PublishClient<K::Item>, S: Upstream {
    /// The topic every message is published to.
    pub closed spec fn topic(&self) -> Seq<char> {
        self.topic@
    }

    pub closed spec fn spec_upstream(&self) -> &S {
        &self.inner
    }

    pub closed spec fn spec_key_generator(&self) -> &K {
        &self.generator
    }

    pub closed spec fn spec_client(&self) -> &P {
        &self.producer
    }

    /// The delivery whose outcome has not been observed yet.
    pub closed spec fn pending(&self) -> Option<P::Handle> {
        match self.slot {
            Slot::Awaiting(handle) => Some(handle),
            _ => None,
        }
    }

    pub closed spec fn spec_state(&self) -> State {
        match self.slot {
            Slot::Idle => State::Idle,
            Slot::Awaiting(_) => State::AwaitingDelivery,
            Slot::Ended => State::Ended,
            Slot::Failed(_) => State::Failed,
        }
    }

    pub closed spec fn spec_last_outcome(&self) -> Option<DeliveryOutcome> {
        self.observed
    }

    /// What the collaborators have answered since the adapter was built,
    /// oldest first: one answer for each advance that consulted one.
    pub closed spec fn history(&self) -> Seq<Event> {
        self.history@
    }

    /// The requests handed to the client since the adapter was built,
    /// oldest first.
    pub closed spec fn requests(&self) -> Seq<Request<K::Item>> {
        self.requests@
    }

    /// Asked for the key of `msg`, this generator may answer `key`.
    pub open spec fn derives(generator: &K, msg: &String, key: K::Item) -> bool {
        call_ensures(K::generate, (generator, msg), key)
    }

    /// Some client, handed a record that asks for `request`, answered with
    /// a handle.
    pub open spec fn submitted(request: Request<K::Item>) -> bool {
        exists|client: &mut P, record: PublishRecord<K::Item>, handle: P::Handle|
            record@ == request && #[trigger] call_ensures(P::submit, (client, record), handle)
    }

    /// `request` carries `payload` to `topic` under the key that
    /// `generator` gave for it, and a client answered it with a handle.
    pub open spec fn placed(
        topic: Seq<char>,
        generator: &K,
        payload: String,
        request: Request<K::Item>,
    ) -> bool {
        &&& request.topic == topic
        &&& request.payload == payload
        &&& Self::derives(generator, &payload, request.key)
        &&& Self::submitted(request)
    }

    /// Every request so far was made by an advance: the requests are, in
    /// upstream's order, one for each message that upstream has handed
    /// over, each to the adapter's topic and under the key generated for
    /// its message. A `send` from outside adds a request that upstream
    /// knows nothing of, and ends this.
    pub open spec fn in_order(&self) -> bool {
        &&& self.requests().len() == messages(self.history()).len()
        &&& forall|at: int|
            0 <= at < self.requests().len() ==> Self::placed(
                self.topic(),
                self.key_generator(),
                messages(self.history())[at],
                #[trigger] self.requests()[at],
            )
    }

    /// The collaborator that `event` names gave that answer to a poll.
    pub open spec fn answered(event: Event) -> bool {
        match event {
            Event::Upstream(polled) => exists|upstream: &mut S| #[trigger]
                call_ensures(S::poll, (upstream,), polled),
            Event::Delivery(polled) => exists|handle: &mut P::Handle| #[trigger]
                call_ensures(<P::Handle as InFlight>::poll, (handle,), polled),
        }
    }

    /// The adapter's fields agree with its history.
    pub closed spec fn wf(&self) -> bool {
        &&& valid_run(self.history@)
        &&& state_after(self.history@) == self.spec_state()
        &&& last_outcome(self.history@) == self.observed
        &&& self.slot matches Slot::Failed(error) ==> self.history@.last() == Event::Upstream(
            UpstreamPoll::Failed(error),
        )
    }

    /// What well-formedness means in terms of the history.
    pub proof fn lemma_wf(&self)
        requires
            self.wf(),
        ensures
            valid_run(self.history()),
            state_after(self.history()) == self.state(),
            last_outcome(self.history()) == self.last_outcome(),
            self.pending() is Some <==> self.state() == State::AwaitingDelivery,
    {
    }

    /// Builds an idle adapter that owns its four inputs. Nothing is polled
    /// or submitted yet.
    pub fn new(stream: S, topic: String, generator: K, producer: P) -> (writer: Writer<K, P, S>)
        ensures
            writer.wf(),
            writer.in_order(),
            writer.state() == State::Idle,
            writer.history() == Seq::<Event>::empty(),
            writer.requests() == Seq::<Request<K::Item>>::empty(),
            writer.pending() is None,
            writer.last_outcome() is None,
            writer.upstream() == stream,
            writer.topic() == topic@,
            writer.key_generator() == generator,
            writer.client() == producer,
    {
        Writer {
            inner: stream,
            topic,
            generator,
            producer,
            slot: Slot::Idle,
            observed: None,
            history: Ghost(Seq::empty()),
            requests: Ghost(Seq::empty()),
        }
    }

    /// Where the adapter stands.
    #[verifier::when_used_as_spec(spec_state)]
    pub fn state(&self) -> (state: State)
        ensures
            state == self.spec_state(),
    {
        match &self.slot {
            Slot::Idle => State::Idle,
            Slot::Awaiting(_) => State::AwaitingDelivery,
            Slot::Ended => State::Ended,
            Slot::Failed(_) => State::Failed,
        }
    }

    /// The upstream sequence the adapter draws from.
    #[verifier::when_used_as_spec(spec_upstream)]
    pub fn upstream(&self) -> (upstream: &S)
        ensures
            upstream == self.spec_upstream(),
    {
        &self.inner
    }

    /// The generator the adapter derives its routing keys with.
    #[verifier::when_used_as_spec(spec_key_generator)]
    pub fn key_generator(&self) -> (generator: &K)
        ensures
            generator == self.spec_key_generator(),
    {
        &self.generator
    }

    /// The client the adapter publishes through.
    #[verifier::when_used_as_spec(spec_client)]
    pub fn client(&self) -> (client: &P)
        ensures
            client == self.spec_client(),
    {
        &self.producer
    }

    /// How the most recently resolved delivery ended; `None` until one has.
    #[verifier::when_used_as_spec(spec_last_outcome)]
    pub fn last_outcome(&self) -> (outcome: Option<DeliveryOutcome>)
        ensures
            outcome == self.spec_last_outcome(),
    {
        match &self.observed {
            None => None,
            Some(outcome) => Some(outcome.clone()),
        }
    }

    /// Derives the key of `msg` and submits the message to the client: one
    /// request, to the adapter's topic, with `msg` as its payload and the
    /// generator's answer for `msg` as its key. The handle is the client's
    /// answer to that request, as the client gave it, and it is the
    /// caller's. The adapter is left as it was, but for what the client did
    /// to itself.
    ///
    /// A publish may only be started by an idle adapter: there is none
    /// while a delivery is pending, nor once the adapter has stopped.
    pub fn send(&mut self, msg: &String) -> (handle: P::Handle)
        requires
            old(self).wf(),
            old(self).state() == State::Idle,
        ensures
            final(self).wf(),
            final(self).requests() == old(self).requests().push(
                Request {
                    topic: old(self).topic(),
                    key: final(self).requests().last().key,
                    payload: *msg,
                },
            ),
            Self::derives(old(self).key_generator(), msg, final(self).requests().last().key),
            exists|client: &mut P, record: PublishRecord<K::Item>|
                *client == *old(self).client() && *final(client) == *final(self).client()
                    && record@ == final(self).requests().last() && #[trigger] call_ensures(
                    P::submit,
                    (client, record),
                    handle,
                ),
            final(self).state() == old(self).state(),
            final(self).pending() is None,
            final(self).history() == old(self).history(),
            final(self).last_outcome() == old(self).last_outcome(),
            final(self).upstream() == old(self).upstream(),
            final(self).topic() == old(self).topic(),
            final(self).key_generator() == old(self).key_generator(),
    {
        let key = self.generator.generate(msg);
        let record = PublishRecord { topic: self.topic.as_str(), key: &key, payload: msg };
        proof {
            self.requests@ = self.requests@.push(record@);
        }
        self.producer.submit(record)
    }

    /// Advances the adapter by one step.
    ///
    /// In a terminal state nothing is consulted and nothing changes: the
    /// terminal signal is given again. Otherwise exactly one collaborator is
    /// polled, upstream while idle and the pending delivery while one is
    /// awaited, and its answer is taken as the machine's transition says:
    /// the event that joins the history is what that poll gave. A message
    /// from upstream is submitted in the same step, under the key generated
    /// for it, and the client's handle becomes the pending delivery.
    pub fn poll(&mut self) -> (signal: Signal)
        requires
            old(self).wf(),
        ensures
            final(self).wf(),
            final(self).topic() == old(self).topic(),
            final(self).key_generator() == old(self).key_generator(),
            old(self).in_order() ==> final(self).in_order(),
            old(self).state().terminal() ==> {
                &&& *final(self) == *old(self)
                &&& signal == signal_of(old(self).history().last())
                &&& old(self).state() == State::Ended ==> signal == Signal::End
                &&& old(self).state() == State::Failed ==> signal is Fail
            },
            !old(self).state().terminal() ==> {
                let event = final(self).history().last();
                &&& final(self).history() == old(self).history().push(event)
                &&& transition(old(self).state(), event) == Some(
                    Step { next: final(self).state(), signal, effect: effect_of(event) },
                )
                &&& final(self).requests() == match effect_of(event) {
                    Effect::Submit(payload) => old(self).requests().push(
                        Request {
                            topic: old(self).topic(),
                            key: final(self).requests().last().key,
                            payload,
                        },
                    ),
                    _ => old(self).requests(),
                }
                &&& final(self).last_outcome() == match event {
                    Event::Delivery(DeliveryPoll::Ready(outcome)) => Some(outcome),
                    _ => old(self).last_outcome(),
                }
                &&& final(self).pending() is Some <==> final(self).state() == State::AwaitingDelivery
                &&& event is Delivery ==> final(self).upstream() == old(self).upstream()
                &&& !(effect_of(event) is Submit) ==> final(self).client() == old(self).client()
                &&& event matches Event::Upstream(polled) ==> (exists|upstream: &mut S|
                    *upstream == *old(self).upstream()
                        && *final(upstream) == *final(self).upstream()
                        && #[trigger] call_ensures(S::poll, (upstream,), polled))
                &&& event matches Event::Delivery(polled) ==> (exists|handle: &mut P::Handle|
                    Some(*handle) == old(self).pending()
                        && (polled is NotReady ==> final(self).pending() == Some(*final(handle)))
                        && #[trigger] call_ensures(
                        <P::Handle as InFlight>::poll,
                        (handle,),
                        polled,
                    ))
                &&& effect_of(event) matches Effect::Submit(payload) ==> {
                    &&& Self::derives(
                        old(self).key_generator(),
                        &payload,
                        final(self).requests().last().key,
                    )
                    &&& exists|client: &mut P, record: PublishRecord<K::Item>|
                        *client == *old(self).client()
                            && *final(client) == *final(self).client()
                            && record@ == final(self).requests().last()
                            && #[trigger] call_ensures(
                            P::submit,
                            (client, record),
                            final(self).pending()->0,
                        )
                }
            },
    {
        let mut slot = Slot::Idle;
        core::mem::swap(&mut self.slot, &mut slot);
        match slot {
            Slot::Ended => {
                self.slot = Slot::Ended;
                Signal::End
            },
            Slot::Failed(error) => {
                let signal = Signal::Fail(error.clone());
                self.slot = Slot::Failed(error);
                signal
            },
            Slot::Awaiting(mut handle) => {
                let polled = handle.poll();
                let ghost event = Event::Delivery(polled);
                let Step { next: _, signal, effect } = step(
                    State::AwaitingDelivery,
                    Event::Delivery(polled),
                ).unwrap();
                match effect {
                    Effect::Observe(outcome) => {
                        self.observed = Some(outcome);
                    },
                    _ => {
                        self.slot = Slot::Awaiting(handle);
                    },
                }
                proof {
                    law_run_grows(self.history@, event);
                    lemma_counts_grow(self.history@, event);
                }
                self.history = Ghost(self.history@.push(event));
                signal
            },
            Slot::Idle => {
                let polled = self.inner.poll();
                let ghost event = Event::Upstream(polled);
                let Step { next: _, signal, effect } = step(
                    State::Idle,
                    Event::Upstream(polled),
                ).unwrap();
                match effect {
                    Effect::Submit(payload) => {
                        let handle = self.send(&payload);
                        let ghost (client, record) = choose|
                            client: &mut P,
                            record: PublishRecord<K::Item>,
                        |
                            *client == *old(self).client() && *final(client) == *self.client()
                                && record@ == self.requests().last() && #[trigger] call_ensures(
                                P::submit,
                                (client, record),
                                handle,
                            );
                        self.slot = Slot::Awaiting(handle);
                        assert(call_ensures(P::submit, (client, record), self.pending()->0));
                    },
                    _ => {
                        match &signal {
                            Signal::End => {
                                self.slot = Slot::Ended;
                            },
                            Signal::Fail(error) => {
                                self.slot = Slot::Failed(error.clone());
                            },
                            _ => {},
                        }
                    },
                }
                proof {
                    law_run_grows(self.history@, event);
                    lemma_counts_grow(self.history@, event);
                }
                self.history = Ghost(self.history@.push(event));
                proof {
                    if old(self).in_order() {
                        assert forall|at: int| 0 <= at < self.requests().len() implies Self::placed(
                            self.topic(),
                            self.key_generator(),
                            messages(self.history())[at],
                            #[trigger] self.requests()[at],
                        ) by {
                            if at < old(self).requests().len() {
                                assert(self.requests()[at] == old(self).requests()[at]);
                            }
                        }
                    }
                }
                signal
            },
        }
    }

    /// Advances the adapter up to `polls` times and counts the `Yield`
    /// signals. The drive stops early at the first terminal signal and hands
    /// it back; without one every advance of the budget was made.
    ///
    /// Where the drive stops, the adapter has signalled `Yield` since it was
    /// built once for each message that upstream handed over but those
    /// whose delivery failed.
    ///
    /// Every event that joins the history is what a collaborator answered,
    /// and the requests that join are one for each message that upstream
    /// handed over meanwhile, in its order, each to the adapter's topic and
    /// under the key generated for its message.
    pub fn drive(&mut self, polls: usize) -> (tally: Tally)
        requires
            old(self).wf(),
        ensures
            final(self).wf(),
            final(self).topic() == old(self).topic(),
            final(self).key_generator() == old(self).key_generator(),
            old(self).history().is_prefix_of(final(self).history()),
            final(self).history().len() <= old(self).history().len() + polls,
            tally.yields == yields(final(self).history()) - yields(old(self).history()),
            tally.stopped matches Some(signal) ==> {
                &&& final(self).state().terminal()
                &&& signal == signal_of(final(self).history().last())
            },
            tally.stopped is None ==> {
                &&& final(self).history().len() == old(self).history().len() + polls
                &&& polls > 0 ==> !final(self).state().terminal()
            },
            tally.stopped is Some ==> yields(final(self).history()) == messages(
                final(self).history(),
            ).len() - failures(final(self).history()),
            old(self).in_order() ==> final(self).in_order(),
            (polls == 0 || old(self).state().terminal()) ==> *final(self) == *old(self),
            (forall|at: int|
                old(self).history().len() <= at < final(self).history().len() ==> (
                #[trigger] final(self).history()[at]) is Delivery) ==> final(self).upstream()
                == old(self).upstream(),
            final(self).last_outcome() == last_outcome(final(self).history()),
            forall|at: int|
                old(self).history().len() <= at < final(self).history().len() ==> Self::answered(
                    #[trigger] final(self).history()[at],
                ),
            old(self).requests().is_prefix_of(final(self).requests()),
            final(self).requests().len() - old(self).requests().len() == messages(
                final(self).history(),
            ).len() - messages(old(self).history()).len(),
            forall|at: int|
                old(self).requests().len() <= at < final(self).requests().len() ==> Self::placed(
                    old(self).topic(),
                    old(self).key_generator(),
                    messages(final(self).history())[at - old(self).requests().len() + messages(
                        old(self).history(),
                    ).len()],
                    #[trigger] final(self).requests()[at],
                ),
            final(self).requests() == old(self).requests() ==> final(self).client() == old(
                self,
            ).client(),
    {
        let ghost start = self.history();
        let ghost asked = self.requests();
        let mut count: usize = 0;
        let mut done: usize = 0;
        while done < polls
            invariant
                self.wf(),
                self.topic() == old(self).topic(),
                self.key_generator() == old(self).key_generator(),
                done <= polls,
                count <= done,
                start == old(self).history(),
                start.is_prefix_of(self.history()),
                self.history().len() == start.len() + done,
                count == yields(self.history()) - yields(start),
                done > 0 ==> !self.state().terminal(),
                done == 0 ==> *self == *old(self),
                old(self).in_order() ==> self.in_order(),
                (forall|at: int|
                    start.len() <= at < self.history().len() ==> (
                    #[trigger] self.history()[at]) is Delivery) ==> self.upstream() == old(
                    self,
                ).upstream(),
                old(self).state().terminal() ==> done == 0,
                forall|at: int|
                    start.len() <= at < self.history().len() ==> Self::answered(
                        #[trigger] self.history()[at],
                    ),
                asked == old(self).requests(),
                asked.is_prefix_of(self.requests()),
                self.requests().len() - asked.len() == messages(self.history()).len() - messages(
                    start,
                ).len(),
                forall|at: int|
                    asked.len() <= at < self.requests().len() ==> Self::placed(
                        old(self).topic(),
                        old(self).key_generator(),
                        messages(self.history())[at - asked.len() + messages(start).len()],
                        #[trigger] self.requests()[at],
                    ),
                self.requests() == asked ==> self.client() == old(self).client(),
            decreases polls - done,
        {
            let ghost before = self.history();
            let ghost placed = self.requests();
            let signal = self.poll();
            proof {
                self.lemma_wf();
                if self.history() != before {
                    lemma_counts_grow(before, self.history().last());
                    law_submissions_follow_upstream(before);
                    assert forall|at: int|
                        asked.len() <= at < self.requests().len() implies Self::placed(
                        old(self).topic(),
                        old(self).key_generator(),
                        messages(self.history())[at - asked.len() + messages(start).len()],
                        #[trigger] self.requests()[at],
                    ) by {
                        if at < placed.len() {
                            assert(self.requests()[at] == placed[at]);
                        }
                    }
                    assert forall|at: int|
                        start.len() <= at < self.history().len() implies Self::answered(
                        #[trigger] self.history()[at],
                    ) by {
                        if at < before.len() {
                            assert(self.history()[at] == before[at]);
                        }
                    }
                    if forall|at: int|
                        start.len() <= at < self.history().len() ==> (
                        #[trigger] self.history()[at]) is Delivery {
                        assert forall|at: int| start.len() <= at < before.len() implies (
                        #[trigger] before[at]) is Delivery by {
                            assert(self.history()[at] == before[at]);
                        }
                        assert(self.history()[before.len() as int] is Delivery);
                    }
                }
            }
            match &signal {
                Signal::Suspend => {},
                Signal::Yield => {
                    count = count + 1;
                },
                _ => {
                    proof {
                        if self.state() == State::Ended {
                            law_yields_at_end(self.history());
                        } else {
                            law_upstream_failure(self.history());
                        }
                    }
                    return Tally { yields: count, stopped: Some(signal) };
                },
            }
            done = done + 1;
        }
        Tally { yields: count, stopped: None }
    }
}

/// Turns an upstream sequence into an adapter over it.
pub trait WithProduce<S> where S: Upstream {
    fn produce<K, P>(self, topic: String, generator: K, producer: P) -> (writer: Writer<K, P, S>) where
        K: KeyGenerator,
        P: PublishClient<K::Item>,

        ensures
            writer.wf(),
            writer.in_order(),
            writer.state() == State::Idle,
            writer.history() == Seq::<Event>::empty(),
            writer.requests() == Seq::<Request<K::Item>>::empty(),
            writer.pending() is None,
            writer.last_outcome() is None,
            writer.topic() == topic@,
            writer.key_generator() == generator,
            writer.client() == producer,
    ;
}

impl<S> WithProduce<S> for S where S: Upstream {
    fn produce<K, P>(self, topic: String, generator: K, producer: P) -> (writer: Writer<K, P, S>) where
        K: KeyGenerator,
        P: PublishClient<K::Item>,

        ensures
            writer.upstream() == self,
    {
        Writer::new(self, topic, generator, producer)
    }
}

} // verus!
