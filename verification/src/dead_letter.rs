//! Dead-letter messages and the reasons a message becomes one.

use vstd::prelude::*;
use crate::message::EMessage;
use crate::time::Timestamp;

verus! {

/// A message moved to the dead-letter queue, with why and when.
#[derive(Debug)]
pub struct DeadLetterMessage {
    /// The message that failed.
    pub original_message: EMessage,
    /// Why it failed.
    pub dead_reason: DeadReason,
    /// When it was dead-lettered.
    pub died_at: Timestamp,
    /// Attempts made before it was dead-lettered.
    pub attempts: u32,
}

/// Why a message was moved to the dead-letter queue.
#[derive(Debug, PartialEq, Eq)]
pub enum DeadReason {
    /// The message used up its retries.
    MaxRetriesExceeded,
    /// The handler asked for it.
    Explicit,
    /// The handler ran out of time.
    Timeout,
    /// No handler was registered for the topic.
    NoHandler,
    /// Another handler error, with its description.
    Other(String),
}

impl DeadReason {
    /// The text that describes the reason.
    pub open spec fn spec_describe(&self) -> Seq<char> {
        match self {
            DeadReason::MaxRetriesExceeded => "Max Retries exceeded"@,
            DeadReason::Explicit => "Handler Explicit"@,
            DeadReason::Timeout => "Handler Timeout"@,
            DeadReason::NoHandler => "NoHandler"@,
            DeadReason::Other(s) => "Handler Other Error: "@ + s@,
        }
    }

    /// The text that describes the reason.
    pub fn describe(&self) -> (s: String)
        ensures
            s@ == self.spec_describe(),
    {
        match self {
            DeadReason::MaxRetriesExceeded => String::from_str("Max Retries exceeded"),
            DeadReason::Explicit => String::from_str("Handler Explicit"),
            DeadReason::Timeout => String::from_str("Handler Timeout"),
            DeadReason::NoHandler => String::from_str("NoHandler"),
            DeadReason::Other(s) => String::from_str("Handler Other Error: ").concat(s.as_str()),
        }
    }

    /// A copy of the reason.
    pub fn duplicate(&self) -> (r: DeadReason)
        ensures
            r == *self,
    {
        match self {
            DeadReason::MaxRetriesExceeded => DeadReason::MaxRetriesExceeded,
            DeadReason::Explicit => DeadReason::Explicit,
            DeadReason::Timeout => DeadReason::Timeout,
            DeadReason::NoHandler => DeadReason::NoHandler,
            DeadReason::Other(s) => DeadReason::Other(s.clone()),
        }
    }
}

} // verus!
