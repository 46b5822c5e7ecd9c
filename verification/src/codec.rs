//! Packing identifiers and decoding their fields.
//!
//! An identifier is the bit concatenation, from most significant to least
//! significant bit, of the always-zero unused field, the tick since the
//! custom epoch, the node identifier and the sequence counter:
//! `(tick << (node_id_bits + sequence_bits)) | (node_id << sequence_bits) |
//! sequence`. Decoding isolates each field by shift and mask with the same
//! layout; encode and decode must share one layout, and the round-trip law
//! [`lemma_round_trip`] states that they agree exactly.

use vstd::arithmetic::div_mod::{
    lemma_div_denominator,
    lemma_fundamental_div_mod_converse,
    lemma_small_mod,
};
use vstd::arithmetic::mul::{lemma_mul_inequality, lemma_mul_nonnegative};
use vstd::arithmetic::power2::{lemma_pow2_adds, lemma_pow2_pos, lemma_pow2_strictly_increases, pow2};
use vstd::bits::{
    lemma_u64_low_bits_mask_is_mod,
    lemma_u64_shl_is_mul,
    lemma_u64_shr_is_div,
    low_bits_mask,
};
use vstd::prelude::*;

use crate::clock::{pow10, pow10_exec};
use crate::properties::SequenceProperties;

verus! {

/// How far the tick field is shifted left: the combined width of the node
/// and sequence fields below it.
pub open spec fn timestamp_shift(p: SequenceProperties) -> nat {
    (p.node_id_bits + p.sequence_bits) as nat
}

/// An identifier of tick `tick` with a zero sequence field: the tick and
/// node fields in place, the sequence field empty.
pub open spec fn partial_at(p: SequenceProperties, tick: int) -> int {
    tick * pow2(timestamp_shift(p)) + p.node_id * pow2(p.sequence_bits as nat)
}

/// The identifier packed from `tick`, the configured node id and
/// `sequence`.
pub open spec fn encode_at(p: SequenceProperties, tick: int, sequence: int) -> int {
    partial_at(p, tick) + sequence
}

/// The tick field of `id`: the bits above the node and sequence fields,
/// masked to the timestamp width.
pub open spec fn decoded_tick(p: SequenceProperties, id: int) -> int {
    (id / pow2(timestamp_shift(p)) as int) % pow2(p.timestamp_bits as nat) as int
}

/// The node-id field of `id`.
pub open spec fn decoded_node(p: SequenceProperties, id: int) -> int {
    (id / pow2(p.sequence_bits as nat) as int) % pow2(p.node_id_bits as nat) as int
}

/// The sequence field of `id`: its low `sequence_bits` bits.
pub open spec fn decoded_sequence(p: SequenceProperties, id: int) -> int {
    id % pow2(p.sequence_bits as nat) as int
}

/// The tick fits the timestamp field.
pub open spec fn tick_in_range(p: SequenceProperties, tick: u64) -> bool {
    (tick as nat) < pow2(p.timestamp_bits as nat)
}

/// Whenever the sequence counter is mid-tick (nonzero), the cached partial
/// identifier belongs to the current tick. A zero counter carries no cache
/// obligation: the next packing refreshes the cache first.
pub open spec fn cache_consistent(p: SequenceProperties) -> bool {
    p.sequence != 0 ==> match (p.current_timestamp, p.partial_cached_id) {
        (Some(t), Some(c)) => c as int == partial_at(p, t as int),
        _ => false,
    }
}

/// `pow2` does not decrease when the exponent grows.
pub proof fn lemma_pow2_le(e1: nat, e2: nat)
    requires
        e1 <= e2,
    ensures
        pow2(e1) <= pow2(e2),
{
    if e1 < e2 {
        lemma_pow2_strictly_increases(e1, e2);
    }
}

/// The node and sequence fields together stay below `2^(node_id_bits +
/// sequence_bits)`: the low fields never spill into the tick field.
pub proof fn lemma_low_fields_bound(p: SequenceProperties, sequence: int)
    requires
        p.wf(),
        0 <= sequence < pow2(p.sequence_bits as nat),
    ensures
        0 <= p.node_id * pow2(p.sequence_bits as nat) + sequence < pow2(timestamp_shift(p)),
{
    let ps = pow2(p.sequence_bits as nat) as int;
    let pn = pow2(p.node_id_bits as nat) as int;
    lemma_pow2_pos(p.sequence_bits as nat);
    lemma_pow2_pos(p.node_id_bits as nat);
    lemma_pow2_adds(p.node_id_bits as nat, p.sequence_bits as nat);
    lemma_mul_nonnegative(p.node_id as int, ps);
    lemma_mul_inequality(p.node_id as int, pn - 1, ps);
    assert((pn - 1) * ps == pn * ps - ps) by (nonlinear_arith);
}

/// A packed identifier is nonnegative and fits the 64-bit budget left of
/// the unused field.
pub proof fn lemma_encode_bounds(p: SequenceProperties, tick: int, sequence: int)
    requires
        p.wf(),
        0 <= tick < pow2(p.timestamp_bits as nat),
        0 <= sequence < pow2(p.sequence_bits as nat),
    ensures
        0 <= partial_at(p, tick),
        encode_at(p, tick, sequence) < pow2(
            (p.timestamp_bits + p.node_id_bits + p.sequence_bits) as nat,
        ),
        encode_at(p, tick, sequence) < pow2(64),
{
    let shift = timestamp_shift(p);
    let pns = pow2(shift) as int;
    let ptb = pow2(p.timestamp_bits as nat) as int;
    lemma_low_fields_bound(p, sequence);
    lemma_pow2_pos(shift);
    lemma_mul_nonnegative(tick, pns);
    lemma_mul_inequality(tick, ptb - 1, pns);
    assert((ptb - 1) * pns == ptb * pns - pns) by (nonlinear_arith);
    lemma_pow2_adds(p.timestamp_bits as nat, shift);
    lemma_pow2_le((p.timestamp_bits + p.node_id_bits + p.sequence_bits) as nat, 64);
}

/// Identifiers order as their (tick, sequence) pairs do: a later tick, or
/// an equal tick with a larger sequence, packs to a strictly larger
/// identifier.
pub proof fn lemma_encode_monotonic(
    p: SequenceProperties,
    tick1: int,
    sequence1: int,
    tick2: int,
    sequence2: int,
)
    requires
        p.wf(),
        0 <= tick1,
        0 <= sequence1 < pow2(p.sequence_bits as nat),
        0 <= sequence2,
        tick1 < tick2 || (tick1 == tick2 && sequence1 < sequence2),
    ensures
        encode_at(p, tick1, sequence1) < encode_at(p, tick2, sequence2),
{
    let shift = timestamp_shift(p);
    let pns = pow2(shift) as int;
    lemma_pow2_pos(shift);
    if tick1 < tick2 {
        lemma_low_fields_bound(p, sequence1);
        lemma_mul_inequality(tick1 + 1, tick2, pns);
        assert((tick1 + 1) * pns == tick1 * pns + pns) by (nonlinear_arith);
        lemma_mul_nonnegative(p.node_id as int, pow2(p.sequence_bits as nat) as int);
    }
}

/// The round-trip law: decoding an identifier with the layout that packed
/// it recovers the exact tick, node id and sequence, for every tick that
/// fits the timestamp field and every sequence that fits its field. The
/// packed value itself always fits in 64 bits.
pub proof fn lemma_round_trip(p: SequenceProperties, tick: u64, sequence: u16)
    requires
        p.wf(),
        tick_in_range(p, tick),
        (sequence as nat) < pow2(p.sequence_bits as nat),
    ensures
        0 <= encode_at(p, tick as int, sequence as int) < pow2(64),
        decoded_tick(p, encode_at(p, tick as int, sequence as int)) == tick,
        decoded_node(p, encode_at(p, tick as int, sequence as int)) == p.node_id,
        decoded_sequence(p, encode_at(p, tick as int, sequence as int)) == sequence,
{
    let ps = pow2(p.sequence_bits as nat) as int;
    let pn = pow2(p.node_id_bits as nat) as int;
    let pns = pow2(timestamp_shift(p)) as int;
    let ptb = pow2(p.timestamp_bits as nat) as int;
    let id = encode_at(p, tick as int, sequence as int);
    let quotient = tick * pn + p.node_id;
    lemma_pow2_pos(p.sequence_bits as nat);
    lemma_pow2_pos(p.node_id_bits as nat);
    lemma_pow2_pos(timestamp_shift(p));
    lemma_encode_bounds(p, tick as int, sequence as int);
    lemma_pow2_adds(p.node_id_bits as nat, p.sequence_bits as nat);
    assert(tick * (pn * ps) + p.node_id * ps == (tick * pn + p.node_id) * ps) by (nonlinear_arith);
    lemma_mul_nonnegative(tick as int, pn);
    // Peel the sequence field: id == quotient * 2^s + sequence.
    lemma_fundamental_div_mod_converse(id, ps, quotient, sequence as int);
    // Peel the node field: quotient == tick * 2^n + node_id.
    lemma_fundamental_div_mod_converse(quotient, pn, tick as int, p.node_id as int);
    lemma_small_mod(p.node_id as nat, pow2(p.node_id_bits as nat));
    // The tick field: dividing by 2^(n+s) is dividing by 2^s then by 2^n.
    lemma_div_denominator(id, ps, pn);
    lemma_pow2_adds(p.sequence_bits as nat, p.node_id_bits as nat);
    lemma_small_mod(tick as nat, pow2(p.timestamp_bits as nat));
}

/// Bits of `x` and `y` cannot overlap when `x` has zeros in its low `k`
/// bits and `y` lies below `2^k`: or-ing them is adding them.
#[verifier::rlimit(50)]
proof fn lemma_or_is_sum(x: u64, y: u64, k: u64)
    requires
        k < 64,
        x & (((1u64 << k) - 1) as u64) == 0,
        y < (1u64 << k),
    ensures
        x | y == x + y,
{
    assert((x & (((1u64 << k) - 1) as u64) == 0 && y < (1u64 << k) && k < 64) ==> ((x | y) == x
        + y)) by (bit_vector);
}

/// Packs the current tick and the node id into `partial_cached_id`,
/// leaving the sequence field zero: the part of an identifier every mint
/// within this tick shares.
pub fn cache_partial_id(properties: &mut SequenceProperties)
    requires
        old(properties).wf(),
        old(properties).current_timestamp is Some,
        tick_in_range(*old(properties), old(properties).current_timestamp.unwrap()),
    ensures
        *final(properties) == (SequenceProperties {
            partial_cached_id: final(properties).partial_cached_id,
            ..*old(properties)
        }),
        final(properties).partial_cached_id matches Some(c) && c as int == partial_at(
            *old(properties),
            old(properties).current_timestamp.unwrap() as int,
        ),
{
    let tick: u64 = properties.current_timestamp.unwrap();
    let shift: u8 = properties.node_id_bits + properties.sequence_bits;
    let ghost p = *properties;
    proof {
        vstd::arithmetic::power2::lemma2_to64_rest();
        lemma_pow2_pos(p.sequence_bits as nat);
        lemma_pow2_pos(p.node_id_bits as nat);
        lemma_pow2_pos(timestamp_shift(p));
        lemma_pow2_le(p.node_id_bits as nat, 63);
        lemma_pow2_le(timestamp_shift(p), 63);
        lemma_encode_bounds(p, tick as int, 0);
        lemma_low_fields_bound(p, 0);
        lemma_u64_shl_is_mul(tick, shift as u64);
        lemma_u64_shl_is_mul(p.node_id as u64, p.sequence_bits as u64);
        lemma_u64_shl_is_mul(1u64, p.node_id_bits as u64);
        let node64: u64 = p.node_id as u64;
        let nbits: u64 = p.node_id_bits as u64;
        let sbits: u64 = p.sequence_bits as u64;
        let shift64: u64 = shift as u64;
        assert(node64 < (1u64 << nbits));
        assert((tick << shift64) & (((1u64 << shift64) - 1) as u64) == 0) by (bit_vector)
            requires
                shift64 < 64u64,
        ;
        assert((node64 << sbits) < (1u64 << shift64)) by (bit_vector)
            requires
                node64 < (1u64 << nbits),
                shift64 == nbits + sbits,
                shift64 < 64u64,
        ;
        lemma_or_is_sum(tick << shift64, node64 << sbits, shift64);
    }
    let mut packed: u64 = tick << (shift as u64);
    packed = packed | ((properties.node_id as u64) << (properties.sequence_bits as u64));
    let mut fresh: Option<u64> = Some(packed);
    properties.set_partial_cached_id(&mut fresh);
}

/// Completes a cached partial identifier by or-ing the sequence counter
/// into its empty sequence field.
pub fn to_id_cached(properties: &SequenceProperties) -> (r: u64)
    requires
        properties.wf(),
        properties.partial_cached_id matches Some(c) && c as int % pow2(
            properties.sequence_bits as nat,
        ) as int == 0,
        (properties.sequence as nat) < pow2(properties.sequence_bits as nat),
    ensures
        r as int == properties.partial_cached_id.unwrap() as int + properties.sequence,
{
    let cached: u64 = properties.partial_cached_id.unwrap();
    proof {
        vstd::arithmetic::power2::lemma2_to64_rest();
        lemma_pow2_pos(properties.sequence_bits as nat);
        lemma_pow2_le(properties.sequence_bits as nat, 63);
        lemma_u64_shl_is_mul(1u64, properties.sequence_bits as u64);
        lemma_u64_low_bits_mask_is_mod(cached, properties.sequence_bits as nat);
        assert((((1u64 << (properties.sequence_bits as u64)) - 1) as u64) == low_bits_mask(
            properties.sequence_bits as nat,
        ) as u64);
        lemma_or_is_sum(cached, properties.sequence as u64, properties.sequence_bits as u64);
    }
    cached | (properties.sequence as u64)
}

/// Packs the identifier of the current tick and sequence counter,
/// refreshing the cached partial identifier when a new tick begins (the
/// counter is zero).
pub fn to_id(properties: &mut SequenceProperties) -> (r: u64)
    requires
        old(properties).wf(),
        old(properties).current_timestamp is Some,
        tick_in_range(*old(properties), old(properties).current_timestamp.unwrap()),
        old(properties).sequence < old(properties).max_sequence,
        cache_consistent(*old(properties)),
    ensures
        *final(properties) == (SequenceProperties {
            partial_cached_id: final(properties).partial_cached_id,
            ..*old(properties)
        }),
        final(properties).partial_cached_id matches Some(c) && c as int == partial_at(
            *old(properties),
            old(properties).current_timestamp.unwrap() as int,
        ),
        r as int == encode_at(
            *old(properties),
            old(properties).current_timestamp.unwrap() as int,
            old(properties).sequence as int,
        ),
        (r as int) < pow2(64),
{
    let ghost p = *old(properties);
    let ghost tick = p.current_timestamp.unwrap() as int;
    if properties.sequence == 0 {
        cache_partial_id(properties);
    }
    proof {
        lemma_encode_bounds(p, tick, p.sequence as int);
        let c = properties.partial_cached_id.unwrap();
        assert(c as int == partial_at(p, tick));
        lemma_pow2_pos(p.sequence_bits as nat);
        lemma_pow2_adds(p.node_id_bits as nat, p.sequence_bits as nat);
        let ps = pow2(p.sequence_bits as nat) as int;
        let pn = pow2(p.node_id_bits as nat) as int;
        assert(tick * (pn * ps) + p.node_id * ps == (tick * pn + p.node_id) * ps)
            by (nonlinear_arith);
        lemma_mul_nonnegative(tick * pn + p.node_id, ps);
        vstd::arithmetic::div_mod::lemma_mod_multiples_basic(tick * pn + p.node_id, ps);
    }
    to_id_cached(properties)
}

/// Recovers, from an identifier, the microseconds since the Unix epoch of
/// the instant its tick began: the decoded tick, scaled back to
/// microseconds, added to the custom epoch.
pub fn decode_id_unix_epoch_micros(id: u64, properties: &SequenceProperties) -> (r: u64)
    requires
        properties.wf(),
        properties.micros_ten_power <= 19,
        properties.custom_epoch_micros + decoded_tick(*properties, id as int) * pow10(
            properties.micros_ten_power as nat,
        ) <= u64::MAX,
    ensures
        r as int == properties.custom_epoch_micros + decoded_tick(*properties, id as int) * pow10(
            properties.micros_ten_power as nat,
        ),
{
    let shift: u8 = properties.node_id_bits + properties.sequence_bits;
    proof {
        vstd::arithmetic::power2::lemma2_to64_rest();
        lemma_pow2_le(properties.timestamp_bits as nat, 63);
        lemma_u64_shl_is_mul(1u64, properties.timestamp_bits as u64);
        lemma_pow2_pos(properties.timestamp_bits as nat);
    }
    let mask: u64 = (1u64 << (properties.timestamp_bits as u64)) - 1;
    let tick: u64 = (id >> (shift as u64)) & mask;
    proof {
        lemma_u64_shr_is_div(id, shift as u64);
        assert(mask == low_bits_mask(properties.timestamp_bits as nat) as u64);
        lemma_u64_low_bits_mask_is_mod(id >> (shift as u64), properties.timestamp_bits as nat);
        lemma_pow2_pos(timestamp_shift(*properties));
        assert(tick as int == decoded_tick(*properties, id as int));
    }
    let scale: u64 = pow10_exec(properties.micros_ten_power);
    properties.custom_epoch_micros + tick * scale
}

/// Recovers the node-id field from an identifier.
pub fn decode_node_id(id: u64, properties: &SequenceProperties) -> (r: u16)
    requires
        properties.wf(),
    ensures
        r as int == decoded_node(*properties, id as int),
{
    proof {
        vstd::arithmetic::power2::lemma2_to64_rest();
        lemma_pow2_le(properties.node_id_bits as nat, 63);
        lemma_u64_shl_is_mul(1u64, properties.node_id_bits as u64);
        lemma_pow2_pos(properties.node_id_bits as nat);
    }
    let mask: u64 = (1u64 << (properties.node_id_bits as u64)) - 1;
    let field: u64 = (id >> (properties.sequence_bits as u64)) & mask;
    proof {
        lemma_u64_shr_is_div(id, properties.sequence_bits as u64);
        assert(mask == low_bits_mask(properties.node_id_bits as nat) as u64);
        lemma_u64_low_bits_mask_is_mod(
            id >> (properties.sequence_bits as u64),
            properties.node_id_bits as nat,
        );
        lemma_pow2_pos(properties.sequence_bits as nat);
        lemma_pow2_le(properties.node_id_bits as nat, 16);
        vstd::arithmetic::power2::lemma2_to64();
    }
    field as u16
}

/// Recovers the sequence field from an identifier.
pub fn decode_sequence_id(id: u64, properties: &SequenceProperties) -> (r: u16)
    requires
        properties.wf(),
    ensures
        r as int == decoded_sequence(*properties, id as int),
{
    proof {
        vstd::arithmetic::power2::lemma2_to64_rest();
        lemma_pow2_le(properties.sequence_bits as nat, 63);
        lemma_u64_shl_is_mul(1u64, properties.sequence_bits as u64);
        lemma_pow2_pos(properties.sequence_bits as nat);
    }
    let mask: u64 = (1u64 << (properties.sequence_bits as u64)) - 1;
    let field: u64 = id & mask;
    proof {
        assert(mask == low_bits_mask(properties.sequence_bits as nat) as u64);
        lemma_u64_low_bits_mask_is_mod(id, properties.sequence_bits as nat);
        lemma_pow2_le(properties.sequence_bits as nat, 16);
        vstd::arithmetic::power2::lemma2_to64();
    }
    field as u16
}

} // verus!
