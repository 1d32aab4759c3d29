//! Write-ahead-log records and the status updates workers send about them.

use vstd::prelude::*;
use crate::dead_letter::DeadReason;
use crate::message::EMessage;
use crate::time::{Timestamp, MAX_DURATION_NANOS};

verus! {

/// State of a message in the write-ahead log.
#[derive(Debug, Clone, Copy, PartialEq, Eq, Structural)]
pub enum WalRecordState {
    /// Waiting to be processed.
    Pending,
    /// Being processed by a worker.
    Processing,
    /// Processed successfully.
    Complete,
    /// Failed and dead-lettered.
    Failed,
}

/// A log record: a message and its processing state.
#[derive(Debug)]
pub struct WalRecord {
    /// Record id, assigned by the log on append (0 before).
    pub record_id: u64,
    /// The message.
    pub message: EMessage,
    /// Its state.
    pub status: WalRecordState,
    /// Last processing attempt, if any.
    pub last_attempt_at: Option<Timestamp>,
    /// Whether the message was dead-lettered.
    pub is_dead_letter: bool,
    /// Why, if it was.
    pub dead_reason: Option<DeadReason>,
}

impl WalRecord {
    /// A pending record for `msg`, not yet numbered by the log.
    pub fn from_msg(msg: EMessage) -> (r: WalRecord)
        ensures
            r.record_id == 0,
            r.message == msg,
            r.status == WalRecordState::Pending,
            r.last_attempt_at is None,
            !r.is_dead_letter,
            r.dead_reason is None,
    {
        WalRecord {
            record_id: 0,
            message: msg,
            status: WalRecordState::Pending,
            last_attempt_at: None,
            is_dead_letter: false,
            dead_reason: None,
        }
    }
}

/// A status update a worker sends to the host about one message.
#[derive(Debug)]
pub struct WalSyncMessage {
    /// The message updated.
    pub message_id: String,
    /// Its topic.
    pub topic: String,
    /// The worker reporting.
    pub worker_id: String,
    /// The new state.
    pub status: WalRecordState,
    /// Processing attempts so far.
    pub attempts: u32,
    /// Instant of the last attempt.
    pub last_attempt_at: Timestamp,
    /// Error text, for a failure.
    pub error: Option<String>,
    /// When the update was made.
    pub timestamp: Timestamp,
}

/// Builds the status updates of one worker.
#[derive(Debug)]
pub struct WalClient {
    worker_id: String,
}

impl WalClient {
    /// The worker the updates come from.
    pub closed spec fn worker(&self) -> Seq<char> {
        self.worker_id@
    }

    /// A client for the worker `worker_id`.
    pub fn new(worker_id: String) -> (c: WalClient)
        ensures
            c.worker() == worker_id@,
    {
        WalClient { worker_id }
    }

    /// The update for `message_id` on `topic`, made at the given instants.
    pub fn sync_status_at(
        &self,
        message_id: &String,
        topic: &String,
        status: WalRecordState,
        attempts: u32,
        error: Option<String>,
        last_attempt_at: Timestamp,
        timestamp: Timestamp,
    ) -> (m: WalSyncMessage)
        ensures
            m.message_id@ == message_id@,
            m.topic@ == topic@,
            m.worker_id@ == self.worker(),
            m.status == status,
            m.attempts == attempts,
            m.last_attempt_at == last_attempt_at,
            m.error == error,
            m.timestamp == timestamp,
    {
        WalSyncMessage {
            message_id: message_id.clone(),
            topic: topic.clone(),
            worker_id: self.worker_id.clone(),
            status,
            attempts,
            last_attempt_at,
            error,
            timestamp,
        }
    }

    /// The update for `message_id` on `topic`, stamped now.
    pub fn sync_status(
        &self,
        message_id: &String,
        topic: &String,
        status: WalRecordState,
        attempts: u32,
        error: Option<String>,
    ) -> (m: WalSyncMessage)
        ensures
            m.message_id@ == message_id@,
            m.topic@ == topic@,
            m.worker_id@ == self.worker(),
            m.status == status,
            m.attempts == attempts,
            m.error == error,
            -MAX_DURATION_NANOS <= m.last_attempt_at <= MAX_DURATION_NANOS,
            -MAX_DURATION_NANOS <= m.timestamp <= MAX_DURATION_NANOS,
    {
        let last_attempt_at = crate::time::now();
        let timestamp = crate::time::now();
        self.sync_status_at(message_id, topic, status, attempts, error, last_attempt_at, timestamp)
    }

    /// The update marking a message pending (no attempts, no error).
    pub fn mark_pending(&self, message_id: &String, topic: &String) -> (m: WalSyncMessage)
        ensures
            m.message_id@ == message_id@,
            m.topic@ == topic@,
            m.worker_id@ == self.worker(),
            m.status == WalRecordState::Pending,
            m.attempts == 0,
            m.error is None,
    {
        self.sync_status(message_id, topic, WalRecordState::Pending, 0, None)
    }

    /// The update marking a message in processing (no attempts, no error).
    pub fn mark_processing(&self, message_id: &String, topic: &String) -> (m: WalSyncMessage)
        ensures
            m.message_id@ == message_id@,
            m.topic@ == topic@,
            m.worker_id@ == self.worker(),
            m.status == WalRecordState::Processing,
            m.attempts == 0,
            m.error is None,
    {
        self.sync_status(message_id, topic, WalRecordState::Processing, 0, None)
    }

    /// The update marking a message complete after `attempts` attempts.
    pub fn mark_complete(&self, message_id: &String, topic: &String, attempts: u32) -> (m: WalSyncMessage)
        ensures
            m.message_id@ == message_id@,
            m.topic@ == topic@,
            m.worker_id@ == self.worker(),
            m.status == WalRecordState::Complete,
            m.attempts == attempts,
            m.error is None,
    {
        self.sync_status(message_id, topic, WalRecordState::Complete, attempts, None)
    }

    /// The update marking a message failed and dead-lettered, with the reason.
    pub fn mark_dead_letter(&self, message_id: &String, topic: &String, attempts: u32, error: String) -> (m: WalSyncMessage)
        ensures
            m.message_id@ == message_id@,
            m.topic@ == topic@,
            m.worker_id@ == self.worker(),
            m.status == WalRecordState::Failed,
            m.attempts == attempts,
            m.error == Some(error),
    {
        self.sync_status(message_id, topic, WalRecordState::Failed, attempts, Some(error))
    }
}

} // verus!
