//! The outcome a handler reports for a message.

use vstd::prelude::*;
use crate::dead_letter::DeadReason;
use crate::time::Nanos;

verus! {

/// What a handler says should happen to a message it processed.
#[derive(Debug)]
pub enum Ack {
    /// Processed successfully.
    Ack,
    /// Not processed; retry later.
    NoAck {
        /// Delay before the retry; `None` requeues at once.
        retry_after: Option<Nanos>,
        /// Retries allowed: once the attempts exceed it, the message is
        /// dead-lettered instead.
        max_retries: u32,
    },
    /// Cannot be processed; move to the dead-letter queue.
    Dead {
        /// Why.
        dead_reason: DeadReason,
    },
}

} // verus!
