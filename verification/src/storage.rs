//! Shared error taxonomy and the storage-backend trait implemented by
//! generated per-resource backends.

use vstd::prelude::*;

verus! {

/// Error reported by a storage backend to its HTTP-facing callers.
#[derive(Debug, PartialEq, Eq, Structural, Clone, Copy)]
pub struct ResourceStorageError {}

/// Why a storage operation failed.
///
/// Infrastructure failures are classified as retryable (the scheduler keeps
/// the batch and tries again on the next tick) or fatal to the one request
/// that observed them; no failure is allowed to abort the process.
#[derive(Debug, PartialEq, Eq, Structural, Clone, Copy)]
pub enum StorageError {
    /// The buffering substrate is unreachable; the write was not accepted.
    BufferUnavailable,
    /// Uploading the staged batch payload failed; nothing was loaded.
    StagingUploadError,
    /// The bulk-load command failed after a successful upload.
    BulkLoadError,
    /// The durable page read failed; pending results may still be served.
    DurableStoreUnavailable,
    /// A connection pool was exhausted; the operation may be retried.
    ServiceUnavailable,
    /// A table name failed validation and never reached a store command.
    InvalidTableName,
}

/// Whether the flush scheduler should keep the batch and retry the same
/// work on a later tick, rather than give up on it.
pub open spec fn spec_is_retryable(e: StorageError) -> bool {
    match e {
        StorageError::StagingUploadError => true,
        StorageError::BulkLoadError => true,
        StorageError::ServiceUnavailable => true,
        StorageError::BufferUnavailable => false,
        StorageError::DurableStoreUnavailable => false,
        StorageError::InvalidTableName => false,
    }
}

impl StorageError {
    /// Ingestion-path and pool failures are retried on the next tick;
    /// a rejected table name or an unreachable substrate is surfaced
    /// to the caller instead.
    pub fn is_retryable(&self) -> (r: bool)
        ensures
            r == spec_is_retryable(*self),
    {
        match self {
            StorageError::StagingUploadError => true,
            StorageError::BulkLoadError => true,
            StorageError::ServiceUnavailable => true,
            _ => false,
        }
    }
}

/// Storage backend for one resource: point create, batch create and a
/// bounded list.  Generated code implements this against a concrete store.
pub trait ResourceStorage<Form, Model, Filters> {
    fn create(&self, form: Form) -> Result<Model, ResourceStorageError>;

    fn bulk_create(&self, form: Vec<Form>) -> Result<(), ResourceStorageError>;

    fn list(&self, filters: Filters) -> Result<Vec<Model>, ResourceStorageError>;
}

} // verus!
