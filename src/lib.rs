//! Selective ingestion of chain events, their transport framing, decoding of
//! instruction payloads and the slot-ordered apply engine.

pub mod address;
pub mod config;
pub mod decode;
pub mod dispatch;
pub mod listing;
pub mod selector;
pub mod store;
pub mod table;
pub mod transport;
