//! A Snowflake-style generator of 64-bit, time-ordered identifiers.
//!
//! An identifier packs, from most significant to least significant bit,
//! a run of always-zero unused bits, a tick count since a configurable
//! custom epoch, a node identifier and a per-tick sequence counter.
//! The bit widths of the four fields are configurable and must sum to 64.

pub mod clock;
pub mod codec;
pub mod engine;
pub mod errors;
pub mod properties;

pub use clock::{ScriptedClock, SystemClock, TickSource};
pub use clock::timestamp_from_custom_epoch;
pub use codec::{cache_partial_id, decode_id_unix_epoch_micros, decode_node_id, decode_sequence_id, to_id, to_id_cached};
pub use engine::{generate_id, issue_at, wait_next_timestamp, wait_until_last_timestamp};
pub use errors::{ConfigError, SequenceGeneratorError};
pub use properties::SequenceProperties;
