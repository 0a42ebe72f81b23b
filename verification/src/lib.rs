//! Edge gateway core: a frame-protocol decoder that recovers CRC-checked
//! messages from a raw byte stream, and a store-and-forward data manager
//! that publishes decoded messages when the broker is reachable, buffers
//! them in a durable store when it is not, and replays the buffer once
//! connectivity returns.

pub mod crc;
pub mod data_management;
pub mod data_manager;
pub mod hdtp;
pub mod jsontext;
pub mod msgfmt;
pub mod template;
pub mod text;
