//! The ways in which a queue operation can fail.

use vstd::prelude::*;

verus! {

/// A failed queue operation. An empty queue or an unknown message id is not
/// among them: those are ordinary outcomes and are reported as `None`.
#[derive(Clone, Copy, Debug, PartialEq, Eq, Structural)]
pub enum RsmqError {
    /// The message body is larger than the queue's `maxsize`.
    MessageTooLong,
    /// A point in time lies beyond what 64 bits can hold.
    TimeOverflow,
    /// A counter has reached the largest value it can hold.
    CounterOverflow,
    /// The timestamp at the head of a message id cannot be read.
    MalformedId,
    /// A reply of the store does not have the shape of a message.
    MalformedReply,
}

impl RsmqError {
    /// A short description of the failure.
    pub fn message(&self) -> (s: &'static str)
        ensures
            s@ == (match *self {
                RsmqError::MessageTooLong => "Message is too long"@,
                RsmqError::TimeOverflow => "Time is out of range"@,
                RsmqError::CounterOverflow => "Counter is out of range"@,
                RsmqError::MalformedId => "timestamp parsing error"@,
                RsmqError::MalformedReply => "Reply does not describe a message"@,
            }),
    {
        match self {
            RsmqError::MessageTooLong => "Message is too long",
            RsmqError::TimeOverflow => "Time is out of range",
            RsmqError::CounterOverflow => "Counter is out of range",
            RsmqError::MalformedId => "timestamp parsing error",
            RsmqError::MalformedReply => "Reply does not describe a message",
        }
    }
}

} // verus!
