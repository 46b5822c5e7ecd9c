//! Error types for generator construction and identifier generation.

use vstd::prelude::*;

verus! {

/// A configuration rejected at construction time.
///
/// Each variant names the parameter that violated its constraint, so that
/// callers can report exactly what must be fixed. Configuration errors are
/// fatal: no identifier is produced from an invalid layout.
#[derive(Clone, Copy, Debug, PartialEq, Eq, Structural)]
pub enum ConfigError {
    /// `node_id_bits` must lie between 1 and 16: the node identifier is a
    /// 16-bit value and its field must be at least one bit wide.
    NodeIdBitsOutOfRange,
    /// `sequence_bits` must lie between 1 and 15: the sequence counter is a
    /// 16-bit value, so `2^sequence_bits` must fit in it, and the field must
    /// be at least one bit wide.
    SequenceBitsOutOfRange,
    /// The unused, node-id and sequence widths together exceed 63 bits and
    /// leave no room for a timestamp field of at least one bit.
    BitWidthsExceedBudget,
    /// `node_id` does not fit in `node_id_bits` bits.
    NodeIdOutOfRange,
}

impl ConfigError {
    /// A human-readable description of the violated constraint.
    pub fn message(&self) -> &'static str {
        match self {
            ConfigError::NodeIdBitsOutOfRange => "node_id_bits must be between 1 and 16",
            ConfigError::SequenceBitsOutOfRange => "sequence_bits must be between 1 and 15",
            ConfigError::BitWidthsExceedBudget => {
                "unused_bits + node_id_bits + sequence_bits must leave at least one timestamp bit"
            },
            ConfigError::NodeIdOutOfRange => "node_id must be smaller than 2^node_id_bits",
        }
    }
}

/// A failure while producing an identifier.
///
/// Clock errors are propagated to the caller and are not retried internally;
/// a clock regression, by contrast, is absorbed by waiting and never surfaces
/// as an error.
#[derive(Clone, Copy, Debug, PartialEq, Eq, Structural)]
pub enum SequenceGeneratorError {
    /// The time source could not produce a reading.
    ClockUnavailable,
    /// The time source reads earlier than the configured custom epoch, so no
    /// tick count can be derived.
    ClockBeforeCustomEpoch,
    /// The elapsed tick count no longer fits in the configured timestamp
    /// field, so no further identifier can be encoded with this layout.
    TickOverflow,
}

impl SequenceGeneratorError {
    /// A human-readable description of the failure.
    pub fn message(&self) -> &'static str {
        match self {
            SequenceGeneratorError::ClockUnavailable => "the time source could not be read",
            SequenceGeneratorError::ClockBeforeCustomEpoch => {
                "the current time precedes the custom epoch"
            },
            SequenceGeneratorError::TickOverflow => {
                "the elapsed tick count exceeds the timestamp field capacity"
            },
        }
    }
}

} // verus!
