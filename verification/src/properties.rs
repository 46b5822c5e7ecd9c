//! The generator's layout and mutable state.

use vstd::arithmetic::power2::{lemma2_to64, pow2};
use vstd::bits::lemma_u16_shl_is_mul;
use vstd::prelude::*;

use crate::errors::ConfigError;

verus! {

/// Layout and state of one identifier generator.
///
/// The four bit widths describe the identifier layout from most significant
/// to least significant bit: `unused_bits` (always zero in an identifier),
/// `timestamp_bits`, `node_id_bits` and `sequence_bits`. `timestamp_bits` is
/// derived at construction as `64 - sequence_bits - node_id_bits -
/// unused_bits`, so the widths always sum to 64.
///
/// Time is counted in ticks of `10^micros_ten_power` microseconds since
/// `custom_epoch_micros`, itself expressed in microseconds since the Unix
/// epoch. `current_timestamp` and `last_timestamp` hold the most recent and
/// the previous tick observed by the engine, `sequence` the counter for the
/// current tick, and `partial_cached_id` an identifier with a zero sequence
/// field, cached so that identifiers minted within one tick share the packing
/// work of the timestamp and node fields.
#[derive(Clone, Copy, Debug)]
pub struct SequenceProperties {
    /// Width of the always-zero most significant field.
    pub unused_bits: u8,
    /// Width of the tick field, derived from the other three widths.
    pub timestamp_bits: u8,
    /// Width of the node identifier field.
    pub node_id_bits: u8,
    /// Width of the sequence counter field.
    pub sequence_bits: u8,
    /// The custom epoch, in microseconds since the Unix epoch.
    pub custom_epoch_micros: u64,
    /// The tick of the identifier minted most recently, if any.
    pub current_timestamp: Option<u64>,
    /// The tick observed before `current_timestamp`, if any.
    pub last_timestamp: Option<u64>,
    /// One tick lasts `10^micros_ten_power` microseconds.
    pub micros_ten_power: u8,
    /// The fixed identifier of this producer.
    pub node_id: u16,
    /// The sequence counter for the current tick.
    pub sequence: u16,
    /// `2^sequence_bits`: the number of identifiers one tick can carry.
    pub max_sequence: u16,
    /// Initial backoff pause, in nanoseconds, doubled after every poll.
    pub backoff_cooldown_start_ns: u64,
    /// A cached identifier of the current tick with a zero sequence field.
    pub partial_cached_id: Option<u64>,
}

/// The node-id field must be one to sixteen bits wide: the node identifier
/// is a 16-bit value.
pub open spec fn node_id_bits_ok(node_id_bits: u8) -> bool {
    1 <= node_id_bits <= 16
}

/// The sequence field must be one to fifteen bits wide: the counter is a
/// 16-bit value, and `2^sequence_bits` itself must fit in it.
pub open spec fn sequence_bits_ok(sequence_bits: u8) -> bool {
    1 <= sequence_bits <= 15
}

/// The chosen widths must leave at least one bit for the timestamp field.
pub open spec fn widths_fit(node_id_bits: u8, sequence_bits: u8, unused_bits: u8) -> bool {
    node_id_bits + sequence_bits + unused_bits <= 63
}

/// The node identifier must fit in `node_id_bits` bits.
pub open spec fn node_id_fits(node_id: u16, node_id_bits: u8) -> bool {
    (node_id as nat) < pow2(node_id_bits as nat)
}

impl SequenceProperties {
    /// A well-formed layout: valid field widths that sum to 64 bits, a
    /// `max_sequence` of `2^sequence_bits`, and a node identifier within its
    /// field.
    pub open spec fn wf(self) -> bool {
        &&& node_id_bits_ok(self.node_id_bits)
        &&& sequence_bits_ok(self.sequence_bits)
        &&& self.timestamp_bits >= 1
        &&& self.unused_bits + self.timestamp_bits + self.node_id_bits + self.sequence_bits == 64
        &&& self.max_sequence == pow2(self.sequence_bits as nat)
        &&& node_id_fits(self.node_id, self.node_id_bits)
    }

    /// Builds a generator from a validated configuration.
    ///
    /// Construction fails, and no identifier can ever be produced, when a
    /// bit width lies outside its range, when the widths leave no room for a
    /// timestamp field, or when the node identifier does not fit in its
    /// field; the error names the offending parameter. The checks are made
    /// in that order, so exactly one error is reported for a given
    /// configuration.
    pub fn new(
        custom_epoch_micros: u64,
        node_id_bits: u8,
        node_id: u16,
        sequence_bits: u8,
        micros_ten_power: u8,
        unused_bits: u8,
        backoff_cooldown_start_ns: u64,
    ) -> (r: Result<SequenceProperties, ConfigError>)
        ensures
            r == Err::<SequenceProperties, _>(ConfigError::NodeIdBitsOutOfRange) <==> !node_id_bits_ok(
                node_id_bits,
            ),
            r == Err::<SequenceProperties, _>(ConfigError::SequenceBitsOutOfRange) <==> (
            node_id_bits_ok(node_id_bits) && !sequence_bits_ok(sequence_bits)),
            r == Err::<SequenceProperties, _>(ConfigError::BitWidthsExceedBudget) <==> (
            node_id_bits_ok(node_id_bits) && sequence_bits_ok(sequence_bits) && !widths_fit(
                node_id_bits,
                sequence_bits,
                unused_bits,
            )),
            r == Err::<SequenceProperties, _>(ConfigError::NodeIdOutOfRange) <==> (node_id_bits_ok(
                node_id_bits,
            ) && sequence_bits_ok(sequence_bits) && widths_fit(
                node_id_bits,
                sequence_bits,
                unused_bits,
            ) && !node_id_fits(node_id, node_id_bits)),
            r matches Ok(p) ==> p == (SequenceProperties {
                unused_bits,
                timestamp_bits: (64 - sequence_bits - node_id_bits - unused_bits) as u8,
                node_id_bits,
                sequence_bits,
                custom_epoch_micros,
                current_timestamp: None,
                last_timestamp: None,
                micros_ten_power,
                node_id,
                sequence: 0u16,
                max_sequence: (pow2(sequence_bits as nat) as u16),
                backoff_cooldown_start_ns,
                partial_cached_id: None,
            }),
            r is Ok <==> (node_id_bits_ok(node_id_bits) && sequence_bits_ok(sequence_bits)
                && widths_fit(node_id_bits, sequence_bits, unused_bits) && node_id_fits(
                node_id,
                node_id_bits,
            )),
            r matches Ok(p) ==> p.wf(),
    {
        if node_id_bits < 1 || node_id_bits > 16 {
            return Err(ConfigError::NodeIdBitsOutOfRange);
        }
        if sequence_bits < 1 || sequence_bits > 15 {
            return Err(ConfigError::SequenceBitsOutOfRange);
        }
        let width_sum: u32 = node_id_bits as u32 + sequence_bits as u32 + unused_bits as u32;
        if width_sum > 63 {
            return Err(ConfigError::BitWidthsExceedBudget);
        }
        proof {
            lemma2_to64();
        }
        if node_id_bits < 16 {
            let node_id_limit: u16 = 1u16 << node_id_bits;
            proof {
                lemma_u16_shl_is_mul(1u16, node_id_bits as u16);
            }
            if node_id >= node_id_limit {
                return Err(ConfigError::NodeIdOutOfRange);
            }
        }
        let max_sequence: u16 = 1u16 << sequence_bits;
        proof {
            lemma_u16_shl_is_mul(1u16, sequence_bits as u16);
        }
        let timestamp_bits: u8 = 64 - sequence_bits - node_id_bits - unused_bits;
        Ok(
            SequenceProperties {
                unused_bits,
                timestamp_bits,
                node_id_bits,
                sequence_bits,
                custom_epoch_micros,
                current_timestamp: None,
                last_timestamp: None,
                micros_ten_power,
                node_id,
                sequence: 0,
                max_sequence,
                backoff_cooldown_start_ns,
                partial_cached_id: None,
            },
        )
    }

    /// Shifts a freshly observed tick into `last_timestamp`.
    ///
    /// The tick is taken out of `timestamp`; when there is none,
    /// `last_timestamp` keeps its previous value.
    pub fn set_last_timestamp(&mut self, timestamp: &mut Option<u64>)
        ensures
            *final(timestamp) is None,
            final(self).last_timestamp == (match *old(timestamp) {
                Some(t) => Some(t),
                None => old(self).last_timestamp,
            }),
            *final(self) == (SequenceProperties {
                last_timestamp: final(self).last_timestamp,
                ..*old(self)
            }),
    {
        if let Some(last_timestamp) = timestamp.take() {
            self.last_timestamp = Some(last_timestamp);
        }
    }

    /// Records `timestamp` as the tick the next identifier will be minted
    /// at. The caller samples the tick from its time source.
    pub fn set_current_timestamp(&mut self, timestamp: u64)
        ensures
            *final(self) == (SequenceProperties {
                current_timestamp: Some(timestamp),
                ..*old(self)
            }),
    {
        self.current_timestamp = Some(timestamp);
    }

    /// Stores a partially packed identifier, taken out of `cached_id`.
    pub fn set_partial_cached_id(&mut self, cached_id: &mut Option<u64>)
        requires
            *old(cached_id) is Some,
        ensures
            *final(cached_id) is None,
            *final(self) == (SequenceProperties {
                partial_cached_id: Some(old(cached_id).unwrap()),
                ..*old(self)
            }),
    {
        let taken: u64 = cached_id.take().unwrap();
        self.partial_cached_id = Some(taken);
    }
}

} // verus!
