//! Telemetry egress: turns log records and span batches into wire messages,
//! frames them as MessagePack, and prepares the authenticated ingestion request.

pub mod appender;
pub mod client;
pub mod decode;
pub mod encode;
pub mod message;
pub mod reporter;
