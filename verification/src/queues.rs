//! Queue-side bookkeeping: claimed messages, the in-memory queue's
//! bound, and the routing tables that dispatch claimed messages to
//! local workers.

pub mod consumer_router;

use vstd::prelude::*;
use crate::message::EMessage;
use crate::time::Timestamp;

verus! {

/// A message claimed from a queue, with the claim id used to ack or nack it.
#[derive(Debug)]
pub struct ClaimedMessage {
    /// The message.
    pub message: EMessage,
    /// Id of the claim.
    pub claim_id: String,
    /// When it was claimed.
    pub claimed_at: Timestamp,
}

/// The in-memory queue factory: every queue it creates holds at most
/// `capacity` messages, or any number when `capacity` is zero.
#[derive(Debug, Clone, Copy)]
pub struct MemoryQueueFactory {
    capacity: usize,
}

impl MemoryQueueFactory {
    /// The configured capacity.
    pub closed spec fn spec_capacity(&self) -> usize {
        self.capacity
    }

    /// A factory for queues of the given capacity (zero for unbounded).
    pub fn new(capacity: usize) -> (f: MemoryQueueFactory)
        ensures
            f.spec_capacity() == capacity,
    {
        MemoryQueueFactory { capacity }
    }

    /// The bound of the queues it creates: `Some(capacity)` for a positive
    /// capacity, `None` (unbounded) for zero.
    pub fn queue_bound(&self) -> (b: Option<usize>)
        ensures
            self.spec_capacity() > 0 ==> b == Some(self.spec_capacity()),
            self.spec_capacity() == 0 ==> b is None,
    {
        if self.capacity > 0 {
            Some(self.capacity)
        } else {
            None
        }
    }

    /// The factory's name.
    pub fn name(&self) -> (s: &'static str)
        ensures
            s@ == "memory"@,
    {
        "memory"
    }
}

} // verus!
