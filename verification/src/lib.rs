//! Write-behind buffering and batch ingestion for CRUD resources.
//!
//! Writers append serialized records to a per-resource [`buffer::Buffer`] and
//! get an immediate pending acknowledgement; a periodic flush drains the
//! buffer, stages the batch as a delimited payload and bulk-loads it into the
//! durable store; readers see a merged view of durable rows and still-pending
//! records.  The buffer semantics, the staging row codec, the flush state
//! machine and the merged-read contract are verified here; the network
//! clients that carry the effects live outside the library.

pub mod buffer;
pub mod codec;
pub mod facade;
pub mod ingest;
pub mod models;
pub mod pipeline;
pub mod rows;
pub mod scheduler;
pub mod storage;
