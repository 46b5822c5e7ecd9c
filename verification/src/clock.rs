//! The clock adapter: tick counts since a custom epoch.
//!
//! One tick lasts `10^micros_ten_power` microseconds. The adapter reads a
//! time source, subtracts the custom epoch and divides the elapsed
//! microseconds down to the configured resolution; mirroring
//! millisecond-resolution systems, a resolution of a millisecond or coarser
//! first truncates the elapsed time to whole milliseconds before the
//! remaining power of ten is applied, which yields the same whole-tick
//! count.

use vstd::arithmetic::div_mod::{lemma_basic_div, lemma_div_denominator};
use vstd::prelude::*;

use crate::errors::SequenceGeneratorError;

verus! {

/// `10^e`.
pub open spec fn pow10(e: nat) -> nat
    decreases e,
{
    if e == 0 {
        1
    } else {
        10 * pow10((e - 1) as nat)
    }
}

/// `10^e` is positive.
pub proof fn lemma_pow10_pos(e: nat)
    ensures
        pow10(e) >= 1,
    decreases e,
{
    if e > 0 {
        lemma_pow10_pos((e - 1) as nat);
    }
}

/// `10^e` does not decrease when the exponent grows.
pub proof fn lemma_pow10_increases(e1: nat, e2: nat)
    requires
        e1 <= e2,
    ensures
        pow10(e1) <= pow10(e2),
    decreases e2,
{
    if e1 < e2 {
        lemma_pow10_increases(e1, (e2 - 1) as nat);
        lemma_pow10_pos(e1);
    }
}

/// Powers of ten multiply when exponents add.
pub proof fn lemma_pow10_adds(e1: nat, e2: nat)
    ensures
        pow10(e1 + e2) == pow10(e1) * pow10(e2),
    decreases e1,
{
    if e1 > 0 {
        lemma_pow10_adds((e1 - 1) as nat, e2);
        assert(pow10(e1 + e2) == 10 * pow10((e1 - 1) as nat + e2));
        assert(pow10(e1) == 10 * pow10((e1 - 1) as nat));
        assert(pow10(e1 + e2) == pow10(e1) * pow10(e2)) by (nonlinear_arith)
            requires
                pow10(e1 + e2) == 10 * pow10((e1 - 1) as nat + e2),
                pow10((e1 - 1) as nat + e2) == pow10((e1 - 1) as nat) * pow10(e2),
                pow10(e1) == 10 * pow10((e1 - 1) as nat),
        ;
    } else {
        assert(pow10(e1) == 1);
        assert(pow10(e1 + e2) == pow10(e2));
        assert(pow10(e1) * pow10(e2) == 1 * pow10(e2)) by (nonlinear_arith)
            requires
                pow10(e1) == 1,
        ;
    }
}

/// `10^e` for exponents up to 19, the largest power of ten a `u64` can hold.
pub(crate) fn pow10_exec(e: u8) -> (r: u64)
    requires
        e <= 19,
    ensures
        r as nat == pow10(e as nat),
{
    let mut r: u64 = 1;
    let mut i: u8 = 0;
    while i < e
        invariant
            i <= e <= 19,
            r as nat == pow10(i as nat),
        decreases e - i,
    {
        proof {
            reveal_with_fuel(pow10, 20);
            lemma_pow10_increases((i + 1) as nat, 19);
            assert(pow10(19) == 10_000_000_000_000_000_000);
        }
        r = r * 10;
        i = i + 1;
    }
    r
}

/// The number of whole ticks in `elapsed_micros` microseconds, at a
/// resolution of `10^power` microseconds per tick.
pub open spec fn tick_of(elapsed_micros: u64, power: u8) -> int {
    (elapsed_micros as int) / (pow10(power as nat) as int)
}

/// The tick count a reading `now` yields against `custom_epoch_micros`,
/// both in microseconds since the Unix epoch.
pub open spec fn elapsed_tick(now: u64, custom_epoch_micros: u64, micros_ten_power: u8) -> int {
    tick_of((now - custom_epoch_micros) as u64, micros_ten_power)
}

/// Converts elapsed microseconds into whole ticks.
///
/// For a resolution of a millisecond or coarser the elapsed time is first
/// truncated to whole milliseconds, then divided by the remaining power of
/// ten; nested truncating divisions compose, so the result equals
/// `elapsed_micros / 10^micros_ten_power` either way.
pub fn micros_to_tick(elapsed_micros: u64, micros_ten_power: u8) -> (r: u64)
    ensures
        r as int == tick_of(elapsed_micros, micros_ten_power),
{
    proof {
        lemma_pow10_pos(micros_ten_power as nat);
    }
    if micros_ten_power >= 3 {
        let millis: u64 = elapsed_micros / 1000;
        let remaining_power: u8 = micros_ten_power - 3;
        proof {
            lemma_pow10_pos(remaining_power as nat);
            lemma_pow10_adds(3, remaining_power as nat);
            reveal_with_fuel(pow10, 4);
            lemma_div_denominator(
                elapsed_micros as int,
                1000,
                pow10(remaining_power as nat) as int,
            );
        }
        if remaining_power == 0 {
            millis
        } else if remaining_power >= 17 {
            // 2^64 microseconds are fewer than 10^17 milliseconds, so a
            // divisor this large always yields zero ticks.
            proof {
                lemma_pow10_increases(17, remaining_power as nat);
                reveal_with_fuel(pow10, 18);
                lemma_basic_div(millis as int, pow10(remaining_power as nat) as int);
            }
            0
        } else {
            millis / pow10_exec(remaining_power)
        }
    } else {
        if micros_ten_power == 0 {
            proof {
                lemma_basic_div(0, 1);
                assert(elapsed_micros as int / 1int == elapsed_micros as int);
            }
            elapsed_micros
        } else {
            elapsed_micros / pow10_exec(micros_ten_power)
        }
    }
}

/// A source of wall-clock readings and of pauses between clock polls.
///
/// The engine is parameterized by this trait so that a deterministic source
/// can drive it: tests inject a scripted clock and a pause that does not
/// sleep. Nothing is assumed about the readings; the engine states what
/// holds of its result whatever the source returns.
pub trait TickSource {
    /// The current time in microseconds since the Unix epoch, or `None`
    /// when the source cannot be read.
    fn now_micros(&mut self) -> Option<u64>;

    /// Blocks the caller for roughly `ns` nanoseconds.
    fn pause(&mut self, ns: u64);
}

/// Relies on std::time::SystemTime::now and its duration_since: the current
/// time as whole microseconds since the Unix epoch, or None when the clock
/// reads before that epoch or past `u64` microseconds. Nothing is promised
/// of the value: it depends on the wall clock.
#[verifier::external_body]
fn system_now_micros() -> (r: Option<u64>) {
    match std::time::SystemTime::now().duration_since(std::time::UNIX_EPOCH) {
        Ok(elapsed) => u64::try_from(elapsed.as_micros()).ok(),
        Err(_) => None,
    }
}

/// Relies on std::sync::Condvar::wait_timeout to block the calling thread
/// for roughly `ns` nanoseconds; no thread ever notifies the condition
/// variable, so the wait ends by timeout.
#[verifier::external_body]
fn condvar_sleep_ns(ns: u64) {
    let lock = std::sync::Mutex::new(());
    let waiter = std::sync::Condvar::new();
    let locked = lock.lock();
    if let Ok(guard) = locked {
        let _ = waiter.wait_timeout(guard, core::time::Duration::from_nanos(ns));
    }
}

/// The wall clock: readings come from the system clock, pauses block the
/// calling thread.
pub struct SystemClock;

impl TickSource for SystemClock {
    fn now_micros(&mut self) -> Option<u64> {
        system_now_micros()
    }

    fn pause(&mut self, ns: u64) {
        condvar_sleep_ns(ns);
    }
}

/// A deterministic time source for driving the engine in tests: it replays
/// a fixed list of readings, then repeats the last one forever. Pauses do
/// not sleep. An empty script cannot be read at all.
pub struct ScriptedClock {
    /// The readings to replay, in microseconds since the Unix epoch.
    pub readings: Vec<u64>,
    /// How many readings have been handed out so far.
    pub position: usize,
}

impl ScriptedClock {
    /// A clock that will replay `readings` from the start.
    pub fn new(readings: Vec<u64>) -> (r: ScriptedClock)
        ensures
            r.readings == readings,
            r.position == 0,
    {
        ScriptedClock { readings, position: 0 }
    }
}

impl TickSource for ScriptedClock {
    fn now_micros(&mut self) -> Option<u64> {
        if self.position < self.readings.len() {
            let reading: u64 = self.readings[self.position];
            self.position = self.position + 1;
            Some(reading)
        } else if self.readings.len() > 0 {
            Some(self.readings[self.readings.len() - 1])
        } else {
            None
        }
    }

    fn pause(&mut self, _ns: u64) {
    }
}

/// Computes the current tick against a custom epoch: the number of whole
/// `10^micros_ten_power`-microsecond units elapsed from
/// `custom_epoch_micros` to the source's reading of now.
///
/// Fails with [`SequenceGeneratorError::ClockUnavailable`] when the source
/// cannot be read and with
/// [`SequenceGeneratorError::ClockBeforeCustomEpoch`] when the reading
/// precedes the custom epoch; neither failure is retried here. A success is
/// the tick count of some reading at or past the epoch.
pub fn timestamp_from_custom_epoch<C: TickSource>(
    source: &mut C,
    custom_epoch_micros: u64,
    micros_ten_power: u8,
) -> (r: Result<u64, SequenceGeneratorError>)
    ensures
        r matches Ok(t) ==> exists|now: u64|
            now >= custom_epoch_micros && t as int == #[trigger] elapsed_tick(
                now,
                custom_epoch_micros,
                micros_ten_power,
            ),
{
    match source.now_micros() {
        None => Err(SequenceGeneratorError::ClockUnavailable),
        Some(now) => {
            if now < custom_epoch_micros {
                Err(SequenceGeneratorError::ClockBeforeCustomEpoch)
            } else {
                let tick: u64 = micros_to_tick(now - custom_epoch_micros, micros_ten_power);
                proof {
                    assert(now >= custom_epoch_micros && tick as int == elapsed_tick(
                        now,
                        custom_epoch_micros,
                        micros_ten_power,
                    ));
                }
                Ok(tick)
            }
        },
    }
}

} // verus!
