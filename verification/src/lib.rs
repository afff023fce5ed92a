//! A bridge that republishes a pollable sequence of text messages to a
//! topic-based broker, one message in flight at a time.
//!
//! * [`signal`] holds the values that cross the adapter's boundary.
//! * [`collaborators`] holds the interfaces the adapter consumes.
//! * [`machine`] holds the adapter's decisions as a state machine.
//! * [`run`] holds what is true of every run of that machine.
//! * [`writer`] holds the adapter itself.

pub mod signal;
pub mod collaborators;
pub mod machine;
pub mod run;
pub mod writer;
