//! The values exchanged between the adapter, its collaborators and its caller.

use vstd::prelude::*;

verus! {

/// A failure reported by a collaborator, carried as its message.
#[derive(Debug, PartialEq, Eq)]
pub struct Error {
    pub message: String,
}

impl Error {
    /// An error with this message.
    pub fn new(message: String) -> (e: Error)
        ensures
            e.message == message,
    {
        Error { message }
    }
}

impl Clone for Error {
    fn clone(&self) -> (copy: Error)
        ensures
            copy == *self,
    {
        Error { message: self.message.clone() }
    }
}

/// How a publish ended: where the broker placed the message, or why it did
/// not, with the payload that was handed in.
#[derive(Debug, PartialEq, Eq)]
pub enum DeliveryOutcome {
    Delivered { partition: i32, offset: i64 },
    Failed { error: Error, payload: String },
}

impl Clone for DeliveryOutcome {
    fn clone(&self) -> (copy: DeliveryOutcome)
        ensures
            copy == *self,
    {
        match self {
            DeliveryOutcome::Delivered { partition, offset } => DeliveryOutcome::Delivered {
                partition: *partition,
                offset: *offset,
            },
            DeliveryOutcome::Failed { error, payload } => DeliveryOutcome::Failed {
                error: error.clone(),
                payload: payload.clone(),
            },
        }
    }
}

/// Answer of an in-flight publish to a non-blocking poll.
#[derive(Clone, Debug, PartialEq, Eq)]
pub enum DeliveryPoll {
    NotReady,
    Ready(DeliveryOutcome),
}

/// Answer of the upstream sequence to a non-blocking poll.
#[derive(Clone, Debug, PartialEq, Eq)]
pub enum UpstreamPoll {
    NotReady,
    Item(String),
    End,
    Failed(Error),
}

/// Answer of the adapter to one advance.
#[derive(Clone, Debug, PartialEq, Eq)]
pub enum Signal {
    /// No progress now; advance again later.
    Suspend,
    /// One message was delivered.
    Yield,
    /// The upstream sequence is over and nothing is in flight.
    End,
    /// The upstream sequence failed with this error.
    Fail(Error),
}

} // verus!
