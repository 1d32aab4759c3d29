//! Error types of every subsystem and the unified `CoreError`.

use vstd::prelude::*;
use crate::time::Nanos;

verus! {

/// Errors of the audit subsystem.
#[derive(Debug, PartialEq, Eq)]
pub enum AuditError {
    /// Writing a record to a sink failed.
    Write(String),
    /// The audit buffer is full.
    BufferFull,
    /// A tracing span was missing.
    MissingSpan,
}

/// Errors of handler registration or execution.
#[derive(Debug, PartialEq, Eq)]
pub enum HandlerError {
    /// No handler is registered for the topic.
    NotFound(String),
    /// The handler failed.
    Error(String),
}

/// Errors of the middleware chain.
#[derive(Debug, PartialEq, Eq)]
pub enum MiddlewareError {
    /// A middleware failed.
    Execution(String),
    /// The chain was cut short.
    Interrupted,
}

/// Errors of the underlying queue.
#[derive(Debug, PartialEq, Eq)]
pub enum QueueError {
    /// The queue is full.
    Full,
    /// The queue is closed.
    Closed,
    /// A send timed out.
    Timeout,
    /// A send failed otherwise.
    Send(String),
    /// A receive failed.
    Receive(String),
}

/// Encoding and decoding errors.
#[derive(Debug, PartialEq, Eq)]
pub enum SerializeError {
    /// Encoding failed.
    SerializeError(String),
    /// Decoding failed.
    DeserializeError(String),
}

/// Errors of shutdown coordination.
#[derive(Debug, PartialEq, Eq)]
pub enum ShutdownError {
    /// Shutdown took longer than the given span (nanoseconds).
    Timeout(Nanos),
    /// A component was not found.
    ComponentNotFound(String),
    /// A component failed to shut down (name, reason).
    ComponentFailed(String, String),
}

/// Errors of the topic registry.
#[derive(Debug, PartialEq, Eq)]
pub enum TopicError {
    /// The topic is already registered.
    AlreadyExists(String),
    /// The topic is not registered.
    NotFound(String),
}

/// Errors of the write-ahead log.
#[derive(Debug, PartialEq, Eq)]
pub enum WalError {
    /// No record with the id.
    RecordNotFound(String),
    /// The log is corrupted.
    Corrupted(String),
    /// The storage backend failed.
    Backend(String),
    /// A write failed.
    Write(String),
}

/// The unified error type.
#[derive(Debug, PartialEq, Eq)]
pub enum CoreError {
    /// A queue error.
    Queue(QueueError),
    /// A write-ahead-log error.
    Wal(WalError),
    /// A JSON encoding error, by its description.
    SerdeSerialize(String),
    /// A middleware error.
    Middleware(MiddlewareError),
    /// An audit error.
    Audit(AuditError),
    /// A shutdown error.
    Shutdown(ShutdownError),
    /// An encoding error.
    Serialize(SerializeError),
    /// A topic error.
    Topic(TopicError),
    /// A handler error.
    Handler(HandlerError),
    /// An I/O error, by its description.
    IoError(String),
    /// A queue send failed.
    QueueSendError(String),
    /// An invalid parameter.
    InvalidParameter(String),
    /// Malformed data.
    InvalidData(String),
    /// A task could not be joined.
    TaskJoinError(String),
    /// A global component was initialized twice.
    AlreadyInitialized,
    /// The clock went backwards while measuring processing time, by the
    /// given span (nanoseconds).
    ProcessTimeError(Nanos),
    /// An invalid time.
    ErrorTime,
    /// An operation took longer than the given span (nanoseconds).
    Timeout(Nanos),
    /// No worker with the name.
    WorkerNotFound(String),
    /// The operation is not supported here.
    Unsupported(String),
    /// The system is shutting down.
    ShuttingDown,
    /// Anything else.
    Other(String),
}

} // verus!
