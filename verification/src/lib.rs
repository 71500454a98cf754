//! A sharded key-value cache with per-entry time-to-live.
//!
//! Keys are routed to one of a fixed number of shards by a hash of their
//! bytes. Each shard owns a mapping from key to its current entry, which alone
//! decides what a reader sees, and a min-heap of expiry records that tells the
//! eviction pass which keys to examine next.
//!
//! Around the cache stand the pieces of a small server that need no socket:
//! the commands, their decoding from values of the wire protocol, and the
//! text of the replies.

pub mod cache;
pub mod clock;
pub mod command;
pub mod decode;
pub mod laws;
pub mod queue;
pub mod reply;
pub mod resp_type;
pub mod router;
pub mod shard;
pub mod sweeper;
pub mod text;
