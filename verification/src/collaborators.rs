//! The interfaces the adapter consumes. None of them promises anything about
//! what it answers: the adapter is verified for every answer.

use vstd::prelude::*;
use crate::signal::{DeliveryPoll, UpstreamPoll};

verus! {

/// Derives the routing key of a message. There is no error channel: a
/// generator absorbs its own failures, for instance with a fallback key.
pub trait KeyGenerator {
    type Item;

    fn generate(&self, msg: &String) -> Self::Item;
}

/// A publish that was submitted and whose outcome may not be known yet.
pub trait InFlight {
    fn poll(&mut self) -> DeliveryPoll;
}

/// One publish request: where to, under which key, and what.
pub struct PublishRecord<'a, Key> {
    pub topic: &'a str,
    pub key: &'a Key,
    pub payload: &'a String,
}

/// What a publish request asks for, as a value.
pub struct Request<Key> {
    pub topic: Seq<char>,
    pub key: Key,
    pub payload: String,
}

impl<'a, Key> View for PublishRecord<'a, Key> {
    type V = Request<Key>;

    open spec fn view(&self) -> Request<Key> {
        Request { topic: self.topic@, key: *self.key, payload: *self.payload }
    }
}

/// The client that talks to the broker. Submitting must not block; any
/// timeout on the submission is the client's own business.
pub trait PublishClient<Key> {
    type Handle: InFlight;

    fn submit(&mut self, record: PublishRecord<'_, Key>) -> Self::Handle;
}

/// The producer of the messages to publish.
pub trait Upstream {
    fn poll(&mut self) -> UpstreamPoll;
}

} // verus!
