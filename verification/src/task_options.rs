//! Options of queued database tasks, with their defaults.

use vstd::prelude::*;

verus! {

/// What to do when a created record conflicts with an existing one.
#[derive(Debug, Clone, Copy, PartialEq, Eq, Structural)]
pub enum ConflictStrategy {
    Error,
    Ignore,
    Replace,
    Update,
}

/// Transaction isolation levels.
#[derive(Debug, Clone, Copy, PartialEq, Eq, Structural)]
pub enum IsolationLevel {
    ReadUncommitted,
    ReadCommitted,
    RepeatableRead,
    Serializable,
}

/// Options of a create task; the timeout is in milliseconds.
#[derive(Debug, Clone, Copy, PartialEq, Eq, Structural)]
pub struct CreateOptions {
    pub return_record: bool,
    pub on_conflict: ConflictStrategy,
    pub timeout: Option<u64>,
}

/// Options of an update task.
#[derive(Debug, Clone, Copy, PartialEq, Eq, Structural)]
pub struct UpdateOptions {
    pub return_record: bool,
    pub optimistic_lock: bool,
    pub timeout: Option<u64>,
}

/// Options of a delete task.
#[derive(Debug, Clone, Copy, PartialEq, Eq, Structural)]
pub struct DeleteOptions {
    pub soft_delete: bool,
    pub cascade: bool,
    pub timeout: Option<u64>,
}

/// Options of a count task.
#[derive(Debug, Clone, Copy, PartialEq, Eq, Structural)]
pub struct CountOptions {
    /// Whether an approximate count will do.
    pub approximate: bool,
    pub timeout: Option<u64>,
}

/// Options of an existence check.
#[derive(Debug, Clone, Copy, PartialEq, Eq, Structural)]
pub struct ExistsOptions {
    pub timeout: Option<u64>,
}

/// Options of a transaction.
#[derive(Debug, Clone, Copy, PartialEq, Eq, Structural)]
pub struct TransactionOptions {
    pub isolation_level: IsolationLevel,
    pub read_only: bool,
    pub timeout: Option<u64>,
}

impl Default for CreateOptions {
    /// No record returned, conflicts are errors, 30 s timeout.
    fn default() -> (r: CreateOptions)
        ensures
            r == (CreateOptions { return_record: false, on_conflict: ConflictStrategy::Error, timeout: Some(30000) }),
    {
        CreateOptions { return_record: false, on_conflict: ConflictStrategy::Error, timeout: Some(30000) }
    }
}

impl Default for UpdateOptions {
    /// No record returned, no optimistic lock, 30 s timeout.
    fn default() -> (r: UpdateOptions)
        ensures
            r == (UpdateOptions { return_record: false, optimistic_lock: false, timeout: Some(30000) }),
    {
        UpdateOptions { return_record: false, optimistic_lock: false, timeout: Some(30000) }
    }
}

impl Default for DeleteOptions {
    /// A hard, non-cascading delete, 30 s timeout.
    fn default() -> (r: DeleteOptions)
        ensures
            r == (DeleteOptions { soft_delete: false, cascade: false, timeout: Some(30000) }),
    {
        DeleteOptions { soft_delete: false, cascade: false, timeout: Some(30000) }
    }
}

impl Default for CountOptions {
    /// An exact count, 30 s timeout.
    fn default() -> (r: CountOptions)
        ensures
            r == (CountOptions { approximate: false, timeout: Some(30000) }),
    {
        CountOptions { approximate: false, timeout: Some(30000) }
    }
}

impl Default for ExistsOptions {
    /// A 30 s timeout.
    fn default() -> (r: ExistsOptions)
        ensures
            r == (ExistsOptions { timeout: Some(30000) }),
    {
        ExistsOptions { timeout: Some(30000) }
    }
}

impl Default for TransactionOptions {
    /// Read committed, writable, 60 s timeout.
    fn default() -> (r: TransactionOptions)
        ensures
            r == (TransactionOptions {
                isolation_level: IsolationLevel::ReadCommitted,
                read_only: false,
                timeout: Some(60000),
            }),
    {
        TransactionOptions { isolation_level: IsolationLevel::ReadCommitted, read_only: false, timeout: Some(60000) }
    }
}

} // verus!
