//! The sequence engine: producing the next identifier.
//!
//! Each call samples the clock, absorbs a clock regression or an exhausted
//! sequence counter by polling with exponential backoff, packs the
//! identifier and advances the counter. Identifiers from one engine are
//! strictly increasing: every successful call returns at least
//! [`min_next`] of the state before it and leaves a state whose
//! [`min_next`] is larger still, whatever the clock returned.

use vstd::arithmetic::power2::{lemma2_to64, lemma2_to64_rest, lemma_pow2_pos, pow2};
use vstd::bits::lemma_u64_shl_is_mul;
use vstd::prelude::*;

use crate::clock::{timestamp_from_custom_epoch, TickSource};
use crate::codec::{
    cache_consistent,
    cache_partial_id,
    decoded_node,
    encode_at,
    lemma_encode_bounds,
    lemma_encode_monotonic,
    lemma_pow2_le,
    lemma_round_trip,
    partial_at,
    tick_in_range,
    to_id,
};
use crate::errors::SequenceGeneratorError;
use crate::properties::SequenceProperties;

verus! {

/// Two states share one layout: the same bit widths, epoch, resolution,
/// node id, counter capacity and backoff configuration.
pub open spec fn same_layout(a: SequenceProperties, b: SequenceProperties) -> bool {
    &&& b.unused_bits == a.unused_bits
    &&& b.timestamp_bits == a.timestamp_bits
    &&& b.node_id_bits == a.node_id_bits
    &&& b.sequence_bits == a.sequence_bits
    &&& b.custom_epoch_micros == a.custom_epoch_micros
    &&& b.micros_ten_power == a.micros_ten_power
    &&& b.node_id == a.node_id
    &&& b.max_sequence == a.max_sequence
    &&& b.backoff_cooldown_start_ns == a.backoff_cooldown_start_ns
}

/// The smallest identifier the engine may produce from state `p`: the
/// current tick with the current counter while the tick has capacity left,
/// and the first slot of the next tick once the counter is spent. Before
/// the first call there is no lower bound.
pub open spec fn min_next(p: SequenceProperties) -> int {
    match p.current_timestamp {
        Some(t) => if p.sequence < p.max_sequence {
            encode_at(p, t as int, p.sequence as int)
        } else {
            encode_at(p, t as int + 1, 0)
        },
        None => 0,
    }
}

/// The sequence slot one minting step at `tick` uses: the running counter
/// when the tick is unchanged, or when the step concludes a clock
/// regression (the count of the stale tick carries over); a fresh tick
/// otherwise restarts at zero.
pub open spec fn step_sequence(p: SequenceProperties, tick: u64, regressed: bool) -> u16 {
    if p.current_timestamp == Some(tick) || regressed {
        p.sequence
    } else {
        0u16
    }
}

/// The identifier one minting step at `tick` produces.
pub open spec fn step_id(p: SequenceProperties, tick: u64, regressed: bool) -> int {
    encode_at(p, tick as int, step_sequence(p, tick, regressed) as int)
}

/// The state one minting step at `tick` leaves: the previous tick shifts
/// into `last_timestamp`, `tick` becomes current, the used slot's counter
/// is advanced past it, and the partial identifier of `tick` is cached.
pub open spec fn after_step(p: SequenceProperties, tick: u64, regressed: bool) -> SequenceProperties {
    SequenceProperties {
        last_timestamp: if p.current_timestamp is Some {
            p.current_timestamp
        } else {
            p.last_timestamp
        },
        current_timestamp: Some(tick),
        sequence: (step_sequence(p, tick, regressed) + 1) as u16,
        partial_cached_id: Some(partial_at(p, tick as int) as u64),
        ..p
    }
}

/// The state after the engine has moved to a fresh tick whose counter is
/// still untouched.
pub open spec fn after_fresh_tick(p: SequenceProperties, fresh: u64) -> SequenceProperties {
    SequenceProperties { current_timestamp: Some(fresh), sequence: 0u16, ..p }
}

/// One minting step at an already-resolved tick: steps the state as
/// [`after_step`] describes and returns the identifier of [`step_id`].
///
/// The caller has already resolved any clock regression, so `tick` is no
/// older than the current one; `regressed` records whether this step
/// concludes a regression, in which case the sequence count of the stale
/// tick carries over instead of restarting.
pub fn issue_at(properties: &mut SequenceProperties, tick: u64, regressed: bool) -> (id: u64)
    requires
        old(properties).wf(),
        tick_in_range(*old(properties), tick),
        cache_consistent(*old(properties)),
        match old(properties).current_timestamp {
            Some(t) => tick >= t,
            None => true,
        },
        regressed ==> old(properties).current_timestamp is Some,
        step_sequence(*old(properties), tick, regressed) < old(properties).max_sequence,
    ensures
        *final(properties) == after_step(*old(properties), tick, regressed),
        id as int == step_id(*old(properties), tick, regressed),
{
    let ghost pre = *properties;
    let same_tick: bool = match properties.current_timestamp {
        Some(t) => t == tick,
        None => false,
    };
    let mut observed: Option<u64> = properties.current_timestamp;
    properties.set_last_timestamp(&mut observed);
    properties.set_current_timestamp(tick);
    if !(same_tick || regressed) {
        properties.sequence = 0;
    }
    proof {
        lemma_pow2_pos(pre.sequence_bits as nat);
    }
    if !same_tick {
        cache_partial_id(properties);
    }
    let id: u64 = to_id(properties);
    proof {
        lemma2_to64();
        lemma_pow2_le(pre.sequence_bits as nat, 15);
        assert(properties.sequence == step_sequence(pre, tick, regressed));
        assert(partial_at(*properties, tick as int) == partial_at(pre, tick as int));
        assert(encode_at(*properties, tick as int, properties.sequence as int) == encode_at(
            pre,
            tick as int,
            properties.sequence as int,
        ));
        lemma_encode_bounds(pre, tick as int, step_sequence(pre, tick, regressed) as int);
    }
    properties.sequence = properties.sequence + 1;
    proof {
        assert(*properties == after_step(pre, tick, regressed));
    }
    id
}

/// Polls the clock until it reads a tick strictly past `last_timestamp`,
/// pausing between polls with a doubling backoff that saturates at the
/// largest representable pause. A clock failure during a poll is returned
/// as-is; otherwise the call blocks until the clock has advanced and
/// returns the first qualifying tick it observed.
///
/// The polls are budgeted so that the wait provably ends: a clock that
/// still has not advanced after `u64::MAX` polls — each of the later ones
/// separated by a saturated pause of centuries — is reported as
/// unavailable rather than polled forever.
pub fn wait_next_timestamp<C: TickSource>(
    source: &mut C,
    last_timestamp: u64,
    custom_epoch_micros: u64,
    micros_ten_power: u8,
    backoff_cooldown_start_ns: u64,
) -> (r: Result<u64, SequenceGeneratorError>)
    ensures
        r matches Ok(t) ==> t > last_timestamp,
{
    let mut current_timestamp: u64 = match timestamp_from_custom_epoch(
        source,
        custom_epoch_micros,
        micros_ten_power,
    ) {
        Ok(t) => t,
        Err(e) => {
            return Err(e);
        },
    };
    let mut backoff_cooldown_ns: u64 = backoff_cooldown_start_ns;
    let mut polls_left: u64 = u64::MAX;
    while current_timestamp <= last_timestamp && polls_left > 0
        decreases polls_left,
    {
        source.pause(backoff_cooldown_ns);
        current_timestamp = match timestamp_from_custom_epoch(
            source,
            custom_epoch_micros,
            micros_ten_power,
        ) {
            Ok(t) => t,
            Err(e) => {
                return Err(e);
            },
        };
        // Double the cooldown between polls (exponential backoff),
        // saturating instead of overflowing at the maximum.
        backoff_cooldown_ns = if backoff_cooldown_ns > u64::MAX / 2 {
            u64::MAX
        } else {
            backoff_cooldown_ns * 2
        };
        polls_left = polls_left - 1;
    }
    if current_timestamp <= last_timestamp {
        return Err(SequenceGeneratorError::ClockUnavailable);
    }
    Ok(current_timestamp)
}

/// Polls the clock until it has caught up with `last_timestamp` (equality
/// suffices, unlike [`wait_next_timestamp`]), with the same saturating
/// doubling backoff between polls. Returns the first qualifying tick, or
/// the clock failure that interrupted the wait; a clock that has not
/// caught up after `u64::MAX` budgeted polls is reported as unavailable.
pub fn wait_until_last_timestamp<C: TickSource>(
    source: &mut C,
    last_timestamp: u64,
    custom_epoch_micros: u64,
    micros_ten_power: u8,
    backoff_cooldown_start_ns: u64,
) -> (r: Result<u64, SequenceGeneratorError>)
    ensures
        r matches Ok(t) ==> t >= last_timestamp,
{
    let mut current_timestamp: u64 = match timestamp_from_custom_epoch(
        source,
        custom_epoch_micros,
        micros_ten_power,
    ) {
        Ok(t) => t,
        Err(e) => {
            return Err(e);
        },
    };
    let mut backoff_cooldown_ns: u64 = backoff_cooldown_start_ns;
    let mut polls_left: u64 = u64::MAX;
    while current_timestamp < last_timestamp && polls_left > 0
        decreases polls_left,
    {
        source.pause(backoff_cooldown_ns);
        current_timestamp = match timestamp_from_custom_epoch(
            source,
            custom_epoch_micros,
            micros_ten_power,
        ) {
            Ok(t) => t,
            Err(e) => {
                return Err(e);
            },
        };
        // Double the cooldown between polls (exponential backoff),
        // saturating instead of overflowing at the maximum.
        backoff_cooldown_ns = if backoff_cooldown_ns > u64::MAX / 2 {
            u64::MAX
        } else {
            backoff_cooldown_ns * 2
        };
        polls_left = polls_left - 1;
    }
    if current_timestamp < last_timestamp {
        return Err(SequenceGeneratorError::ClockUnavailable);
    }
    Ok(current_timestamp)
}

/// Produces the next identifier, or the clock failure that prevented it.
///
/// One call samples the clock; waits out a clock regression (catching up
/// to the last tick, or strictly past it when that tick's counter is
/// already spent) and an exhausted current tick; packs the identifier from
/// the resolved tick, the node id and the sequence counter; and advances
/// the counter, moving to an already-awaited fresh tick when the counter
/// wraps.
///
/// On success the identifier is at least [`min_next`] of the state before
/// the call, and the state left behind has a strictly larger [`min_next`]:
/// identifiers of one engine strictly increase, whatever ticks the clock
/// reported. On failure the state is exactly as it was, and no identifier
/// was consumed.
pub fn generate_id<C: TickSource>(properties: &mut SequenceProperties, source: &mut C) -> (r:
    Result<u64, SequenceGeneratorError>)
    requires
        old(properties).wf(),
        old(properties).sequence <= old(properties).max_sequence,
        cache_consistent(*old(properties)),
    ensures
        final(properties).wf(),
        same_layout(*old(properties), *final(properties)),
        cache_consistent(*final(properties)),
        final(properties).sequence <= final(properties).max_sequence,
        r matches Err(e) ==> *final(properties) == *old(properties),
        r matches Ok(id) ==> final(properties).sequence < final(properties).max_sequence,
        r matches Ok(id) ==> min_next(*old(properties)) <= id as int,
        r matches Ok(id) ==> (id as int) < min_next(*final(properties)),
        r matches Ok(id) ==> final(properties).current_timestamp is Some,
        r matches Ok(id) ==> (old(properties).current_timestamp is Some ==> final(properties)
            .last_timestamp == old(properties).current_timestamp),
        r matches Ok(id) ==> decoded_node(*old(properties), id as int) == old(properties).node_id,
        r matches Ok(id) ==> exists|t: int, s: int|
            0 <= t < pow2(old(properties).timestamp_bits as nat) && 0 <= s < pow2(
                old(properties).sequence_bits as nat,
            ) && id as int == #[trigger] encode_at(*old(properties), t, s),
{
    let ghost pre = *properties;
    let epoch: u64 = properties.custom_epoch_micros;
    let power: u8 = properties.micros_ten_power;
    let backoff: u64 = properties.backoff_cooldown_start_ns;
    // Sample the clock; a failure is handed to the caller untouched.
    let sampled: u64 = match timestamp_from_custom_epoch(source, epoch, power) {
        Ok(t) => t,
        Err(e) => {
            return Err(e);
        },
    };
    let mut tick: u64 = sampled;
    let mut regressed: bool = false;
    match properties.current_timestamp {
        Some(last) => {
            if sampled < last {
                // The clock moved backwards. Wait it out instead of
                // failing: the regression resolves once the clock has
                // caught up.
                if properties.sequence == properties.max_sequence {
                    // The stale tick's capacity is spent: only a strictly
                    // newer tick can carry an identifier, and its count
                    // restarts at zero.
                    tick = match wait_next_timestamp(source, last, epoch, power, backoff) {
                        Ok(t) => t,
                        Err(e) => {
                            return Err(e);
                        },
                    };
                } else {
                    // Catching up is enough: the count of the stale tick
                    // carries over.
                    tick = match wait_until_last_timestamp(source, last, epoch, power, backoff) {
                        Ok(t) => t,
                        Err(e) => {
                            return Err(e);
                        },
                    };
                    regressed = true;
                }
            } else if sampled == last && properties.sequence == properties.max_sequence {
                // The current tick's capacity is spent and the clock has
                // not advanced yet: wait for a fresh tick.
                tick = match wait_next_timestamp(source, last, epoch, power, backoff) {
                    Ok(t) => t,
                    Err(e) => {
                        return Err(e);
                    },
                };
            }
        },
        None => {},
    }
    // The resolved tick must fit the timestamp field.
    proof {
        lemma2_to64_rest();
        lemma_pow2_le(pre.timestamp_bits as nat, 63);
        lemma_u64_shl_is_mul(1u64, pre.timestamp_bits as u64);
    }
    if tick >= (1u64 << (properties.timestamp_bits as u64)) {
        return Err(SequenceGeneratorError::TickOverflow);
    }
    let same_tick: bool = match properties.current_timestamp {
        Some(t) => t == tick,
        None => false,
    };
    let slot: u16 = if same_tick || regressed {
        properties.sequence
    } else {
        0
    };
    proof {
        lemma_pow2_pos(pre.sequence_bits as nat);
        lemma2_to64();
        lemma_pow2_le(pre.sequence_bits as nat, 15);
        assert(slot == step_sequence(pre, tick, regressed));
        assert(slot < pre.max_sequence);
    }
    // Will this identifier spend the tick's last slot? Then the next one
    // needs a strictly newer tick: await it before touching any state, so
    // that a clock failure leaves the engine exactly as it was.
    let prime_needed: bool = slot + 1 == properties.max_sequence;
    let fresh: u64 = if prime_needed {
        match wait_next_timestamp(source, tick, epoch, power, backoff) {
            Ok(t) => t,
            Err(e) => {
                return Err(e);
            },
        }
    } else {
        0
    };
    // Mint the identifier and advance the counter.
    let id: u64 = issue_at(properties, tick, regressed);
    if prime_needed {
        // The counter has wrapped: move to the awaited fresh tick, whose
        // count starts at zero.
        properties.set_current_timestamp(fresh);
        properties.sequence = 0;
    }
    proof {
        lemma_encode_bounds(pre, tick as int, slot as int);
        lemma_round_trip(pre, tick, slot);
        assert(id as int == encode_at(pre, tick as int, slot as int));
        // The identifier is at least the floor of the starting state.
        match pre.current_timestamp {
            Some(last) => {
                if pre.sequence < pre.max_sequence {
                    if tick == last && (same_tick || regressed) {
                        assert(id as int == min_next(pre));
                    } else if tick == last {
                        assert(same_tick);
                    } else {
                        lemma_encode_monotonic(
                            pre,
                            last as int,
                            pre.sequence as int,
                            tick as int,
                            slot as int,
                        );
                    }
                } else {
                    assert(!regressed && !same_tick && tick > last);
                    if tick as int > last as int + 1 {
                        lemma_encode_monotonic(pre, last as int + 1, 0, tick as int, slot as int);
                    }
                }
            },
            None => {},
        }
        // The state left behind asks for a strictly larger identifier.
        if prime_needed {
            assert(properties.sequence == 0);
            lemma_encode_monotonic(pre, tick as int, slot as int, fresh as int, 0);
            assert(min_next(*properties) == encode_at(*properties, fresh as int, 0));
            assert(encode_at(*properties, fresh as int, 0) == encode_at(pre, fresh as int, 0));
        } else {
            assert(properties.sequence == slot + 1);
            assert(min_next(*properties) == encode_at(*properties, tick as int, slot as int + 1));
            assert(encode_at(*properties, tick as int, slot as int + 1) == encode_at(
                pre,
                tick as int,
                slot as int + 1,
            ));
        }
        assert(0 <= tick as int && (tick as int) < pow2(pre.timestamp_bits as nat) && 0 <= slot
            as int && (slot as int) < pow2(pre.sequence_bits as nat) && id as int == encode_at(
            pre,
            tick as int,
            slot as int,
        ));
    }
    Ok(id)
}

/// Monotonicity of generation: a state whose floor lies strictly above one
/// identifier only produces identifiers strictly above it. Together with
/// the bounds [`generate_id`] places on its result, successive successful
/// calls on one engine return strictly increasing identifiers, with no
/// duplicates.
pub proof fn lemma_identifiers_increase(p: SequenceProperties, id1: u64, id2: u64)
    requires
        (id1 as int) < min_next(p),
        min_next(p) <= id2 as int,
    ensures
        id1 < id2,
{
}

/// The state after `k` consecutive minting steps at one unchanged tick.
pub open spec fn after_issues(p: SequenceProperties, tick: u64, k: nat) -> SequenceProperties
    decreases k,
{
    if k == 0 {
        p
    } else {
        after_step(after_issues(p, tick, (k - 1) as nat), tick, false)
    }
}

/// Sequence wrap-around at one tick: starting a fresh tick, `k` minting
/// steps at that unchanged tick hand out the sequence slots `0, 1, ...,
/// k - 1` in order — the `k`-th step's identifier carries slot `k - 1` —
/// and leave the counter at `k`. After `2^sequence_bits` steps the counter
/// equals the capacity: the tick is spent, and the engine must wait for
/// the clock to advance before minting again.
pub proof fn lemma_sequence_wraps(p: SequenceProperties, tick: u64, k: nat)
    requires
        p.wf(),
        p.current_timestamp == Some(tick),
        p.sequence == 0,
        1 <= k <= p.max_sequence,
    ensures
        same_layout(p, after_issues(p, tick, k)),
        after_issues(p, tick, k).current_timestamp == Some(tick),
        after_issues(p, tick, k).sequence == k,
        step_id(after_issues(p, tick, (k - 1) as nat), tick, false) == encode_at(
            p,
            tick as int,
            k - 1,
        ),
    decreases k,
{
    lemma_pow2_pos(p.sequence_bits as nat);
    lemma2_to64();
    lemma_pow2_le(p.sequence_bits as nat, 15);
    if k == 1 {
        assert(after_issues(p, tick, 1) == after_step(after_issues(p, tick, 0), tick, false));
        assert(after_issues(p, tick, 0) == p);
    } else {
        lemma_sequence_wraps(p, tick, (k - 1) as nat);
        let q = after_issues(p, tick, (k - 1) as nat);
        assert(after_issues(p, tick, k) == after_step(q, tick, false));
        assert(step_sequence(q, tick, false) == q.sequence);
        assert(encode_at(q, tick as int, (k - 1) as int) == encode_at(p, tick as int, k - 1));
    }
}

/// A spent tick only yields to a strictly newer one: once the counter has
/// reached the capacity, the floor of the state is the first slot of the
/// next tick, and moving to any strictly newer tick restarts the count at
/// zero with identifiers strictly above everything the spent tick
/// produced.
pub proof fn lemma_exhausted_tick_needs_advance(p: SequenceProperties, tick: u64, fresh: u64)
    requires
        p.wf(),
        p.current_timestamp == Some(tick),
        p.sequence == p.max_sequence,
        tick < fresh,
    ensures
        min_next(p) == encode_at(p, tick as int + 1, 0),
        after_fresh_tick(p, fresh).sequence == 0,
        step_id(after_fresh_tick(p, fresh), fresh, false) == encode_at(p, fresh as int, 0),
        encode_at(p, tick as int, p.max_sequence - 1) < encode_at(p, fresh as int, 0),
{
    lemma_pow2_pos(p.sequence_bits as nat);
    lemma_encode_monotonic(p, tick as int, p.max_sequence - 1, fresh as int, 0);
}

} // verus!
