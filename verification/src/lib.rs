//! Path discovery by time-to-live limited probes: probe identities, response
//! parsing, correlation of responses with pending probes, and the per-hop walk.

pub mod address;
pub mod checksum;
pub mod decimal;
pub mod generator;
pub mod options;
pub mod parser;
pub mod probe;
pub mod task;
pub mod terminal;
pub mod wire;
