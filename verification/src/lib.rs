//! Core logic of a small chat-and-upload web service: upload-name
//! validation, the claimed-name registry, a bounded broadcast channel,
//! the per-connection chat session state machine, and the streaming
//! file-ingestion bookkeeping.

pub mod bus;
pub mod ingest;
pub mod paths;
pub mod registry;
pub mod session;
