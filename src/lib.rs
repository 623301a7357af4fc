//! Log shipping: application code hands log events to a dispatcher, which
//! queues them for a single exporter that groups them into ordered batches
//! and submits each batch to a log-ingestion backend.
pub mod client;
pub mod dispatch;
pub mod event;
pub mod export;
