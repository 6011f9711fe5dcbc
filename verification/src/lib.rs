//! Core logic of a peer-to-peer key/value node: a coordination actor that
//! owns a distributed-hash-table swarm, translating typed commands from a
//! consumer into network queries and raw network notifications into a stable
//! event vocabulary.
//!
//! Everything here is plain data and decisions; the network itself (the
//! swarm, its transports and timers) lives outside the library and drives
//! these functions through channels.

pub mod actor;
pub mod bytes;
pub mod channel;
pub mod data;
pub mod dispatch;
pub mod parser;
pub mod routing;
pub mod store;
pub mod translate;
pub mod ui;
