//! Per-process network traffic accounting: packet header parsing, the
//! connection-to-process index, traffic aggregation and the IPC answers.
//!
//! - [`packet`]: decoding of captured IPv4/IPv6 TCP/UDP packets.
//! - [`pid_map`]: which process owns a connection, and what it is called
//!   and how it is classified.
//! - [`flow`]: per-process counters and the periodic snapshots.
//! - [`pipeline`]: the accounting of one packet, from owner to counters.
//! - [`ipc`]: the answers sent to the UI.
//! - [`text`]: character-level helpers for names and paths.
//! - [`fxmap`]: the hash map operations the indexes rely on.
pub mod flow;
pub mod fxmap;
pub mod ipc;
pub mod packet;
pub mod pid_map;
pub mod pipeline;
pub mod text;
