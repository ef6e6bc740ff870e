//! The poll controller: how long to wait before the next tick.
//!
//! Delays are whole milliseconds. The delay starts at five seconds, grows
//! while the battery discharges and while the machine is idle, shrinks while
//! the CPU samples are volatile, is smoothed against the previous delay, and
//! always ends between one and thirty seconds.

use vstd::prelude::*;
use crate::history::CpuVolatility;
use crate::number::{round_div, round_div_wide, Fixed, SCALE};

verus! {

/// The delay before any adjustment.
pub const BASE_DELAY_MS: u64 = 5_000;

/// The shortest delay.
pub const MIN_DELAY_MS: u64 = 1_000;

/// The longest delay.
pub const MAX_DELAY_MS: u64 = 30_000;

/// The user must have been idle for longer than this for idleness to count.
pub const IDLE_THRESHOLD_MS: u64 = 30_000;

/// The number of binary digits computed behind the point of a logarithm.
pub const LOG_DIGITS: u32 = 20;

/// `2` to the power `n`.
pub open spec fn two_to(n: nat) -> int
    decreases n,
{
    if n == 0 {
        1
    } else {
        2 * two_to((n - 1) as nat)
    }
}

/// The digits behind the point of the binary logarithm of a mantissa `y`
/// between 1 and 2, given with 32 binary digits behind its point: the
/// mantissa is squared `digits` times, and each square that reaches 2 yields
/// a digit 1 and is halved. `acc` holds the digits found so far.
pub open spec fn log2_digits(y: int, digits: nat, acc: int) -> int
    decreases digits,
{
    if digits == 0 {
        acc
    } else {
        let square = y * y / 0x1_0000_0000;
        if square >= 0x2_0000_0000 {
            log2_digits(square / 2, (digits - 1) as nat, 2 * acc + 1)
        } else {
            log2_digits(square, (digits - 1) as nat, 2 * acc)
        }
    }
}

/// The binary logarithm, in millionths, of `seconds / 60` for
/// `120 <= seconds < 960`: the whole part from the power of two below, the
/// fraction from [`log2_digits`].
pub open spec fn log2_of_minutes(seconds: int) -> int {
    let whole: int = if seconds >= 480 {
        3
    } else if seconds >= 240 {
        2
    } else {
        1
    };
    let unit: int = if seconds >= 480 {
        480
    } else if seconds >= 240 {
        240
    } else {
        120
    };
    let mantissa = seconds * 0x1_0000_0000 / unit;
    whole * SCALE + log2_digits(mantissa, LOG_DIGITS as nat, 0) * SCALE / 0x10_0000
}

/// The factor, in millionths, by which idleness stretches the delay: from
/// 1 to 2 in a straight line over the first two minutes, then 1 plus the
/// binary logarithm of the idle minutes, and never more than 5.
pub open spec fn idle_factor(idle_for_ms: int) -> int {
    let seconds = idle_for_ms / 1000;
    if seconds < 120 {
        SCALE + round_div(seconds * SCALE, 120)
    } else if seconds >= 960 {
        5 * SCALE
    } else {
        SCALE + log2_of_minutes(seconds)
    }
}

proof fn lemma_log2_digits_bounds(y: int, digits: nat, acc: int)
    requires
        acc >= 0,
    ensures
        acc * two_to(digits) <= log2_digits(y, digits, acc) < (acc + 1) * two_to(digits),
    decreases digits,
{
    if digits > 0 {
        let square = y * y / 0x1_0000_0000;
        let rest = two_to((digits - 1) as nat);
        lemma_two_to_positive((digits - 1) as nat);
        if square >= 0x2_0000_0000 {
            lemma_log2_digits_bounds(square / 2, (digits - 1) as nat, 2 * acc + 1);
            assert((2 * acc + 1) * rest >= acc * (2 * rest)) by (nonlinear_arith)
                requires
                    rest >= 0,
                    acc >= 0,
            ;
            assert((2 * acc + 1 + 1) * rest == (acc + 1) * (2 * rest)) by (nonlinear_arith);
        } else {
            lemma_log2_digits_bounds(square, (digits - 1) as nat, 2 * acc);
            assert((2 * acc) * rest == acc * (2 * rest)) by (nonlinear_arith);
            assert((2 * acc + 1) * rest <= (acc + 1) * (2 * rest)) by (nonlinear_arith)
                requires
                    rest >= 0,
                    acc >= 0,
            ;
        }
    }
}

proof fn lemma_two_to_positive(n: nat)
    ensures
        two_to(n) > 0,
    decreases n,
{
    if n > 0 {
        lemma_two_to_positive((n - 1) as nat);
    }
}

proof fn lemma_two_to_twenty()
    ensures
        two_to(20) == 0x10_0000,
{
    reveal_with_fuel(two_to, 21);
}

proof fn lemma_log2_of_one(digits: nat, acc: int)
    ensures
        log2_digits(0x1_0000_0000, digits, acc) == acc * two_to(digits),
    decreases digits,
{
    if digits > 0 {
        assert(0x1_0000_0000int * 0x1_0000_0000int / 0x1_0000_0000 == 0x1_0000_0000int);
        lemma_log2_of_one((digits - 1) as nat, 2 * acc);
        assert((2 * acc) * two_to((digits - 1) as nat) == acc * (2 * two_to((digits - 1) as nat)))
            by (nonlinear_arith);
    }
}

/// The logarithm lies between its whole part and the next whole number.
pub proof fn lemma_log2_of_minutes_bounds(seconds: int)
    requires
        120 <= seconds < 960,
    ensures
        SCALE <= log2_of_minutes(seconds) < 4 * SCALE,
{
    let unit: int = if seconds >= 480 {
        480
    } else if seconds >= 240 {
        240
    } else {
        120
    };
    let mantissa = seconds * 0x1_0000_0000 / unit;
    lemma_log2_digits_bounds(mantissa, LOG_DIGITS as nat, 0);
    lemma_two_to_twenty();
    let digits = log2_digits(mantissa, LOG_DIGITS as nat, 0);
    assert(0 <= digits < 0x10_0000);
    assert(0 <= digits * SCALE / 0x10_0000 < SCALE) by (nonlinear_arith)
        requires
            0 <= digits < 0x10_0000,
            SCALE == 1_000_000,
    ;
}

/// The idle factor at its ends: 1 with no idle time, 2 at two minutes, and 5
/// from sixteen minutes on, so also from 2^16 minutes on. It always lies
/// between 1 and 5.
pub proof fn lemma_idle_factor(idle_for_ms: int)
    requires
        idle_for_ms >= 0,
    ensures
        idle_factor(0) == SCALE,
        idle_factor(120_000) == 2 * SCALE,
        idle_for_ms >= 960_000 ==> idle_factor(idle_for_ms) == 5 * SCALE,
        idle_for_ms >= 65_536 * 60_000 ==> idle_factor(idle_for_ms) == 5 * SCALE,
        SCALE <= idle_factor(idle_for_ms) <= 5 * SCALE,
{
    assert(idle_factor(0) == SCALE);
    assert(idle_factor(120_000) == 2 * SCALE) by {
        lemma_log2_of_one(LOG_DIGITS as nat, 0);
        assert(120int * 0x1_0000_0000int / 120 == 0x1_0000_0000int);
    }
    let seconds = idle_for_ms / 1000;
    if seconds < 120 {
        assert(0 <= round_div(seconds * SCALE, 120) <= SCALE) by (nonlinear_arith)
            requires
                0 <= seconds < 120,
                SCALE == 1_000_000,
        ;
    } else if seconds < 960 {
        lemma_log2_of_minutes_bounds(seconds);
    }
}

fn log2_fraction(mantissa: u64) -> (r: u64)
    requires
        0x1_0000_0000 <= mantissa < 0x2_0000_0000,
    ensures
        r == log2_digits(mantissa as int, LOG_DIGITS as nat, 0),
        r < 0x10_0000,
{
    let mut y: u64 = mantissa;
    let mut acc: u64 = 0;
    let mut left: u32 = LOG_DIGITS;
    proof {
        lemma_two_to_twenty();
    }
    while left > 0
        invariant
            left <= LOG_DIGITS,
            0x1_0000_0000 <= y < 0x2_0000_0000,
            acc < two_to((LOG_DIGITS - left) as nat),
            two_to((LOG_DIGITS - left) as nat) <= 0x10_0000,
            log2_digits(mantissa as int, LOG_DIGITS as nat, 0) == log2_digits(
                y as int,
                left as nat,
                acc as int,
            ),
        decreases left,
    {
        let wide: u128 = y as u128;
        assert(0x1_0000_0000_0000_0000 <= wide * wide < 0x4_0000_0000_0000_0000) by (nonlinear_arith)
            requires
                0x1_0000_0000 <= wide < 0x2_0000_0000,
        ;
        let square: u128 = wide * wide / 0x1_0000_0000;
        proof {
            lemma_log2_digits_bounds(y as int, left as nat, acc as int);
            assert(two_to((LOG_DIGITS - left + 1) as nat) == 2 * two_to(
                (LOG_DIGITS - left) as nat,
            ));
            lemma_two_to_step_bound((LOG_DIGITS - left + 1) as nat);
        }
        if square >= 0x2_0000_0000 {
            y = (square / 2) as u64;
            acc = 2 * acc + 1;
        } else {
            y = square as u64;
            acc = 2 * acc;
        }
        left -= 1;
    }
    acc
}

proof fn lemma_two_to_step_bound(n: nat)
    requires
        n <= 20,
    ensures
        two_to(n) <= 0x10_0000,
    decreases 20 - n,
{
    lemma_two_to_twenty();
    if n < 20 {
        lemma_two_to_step_bound(n + 1);
    }
}

/// The factor by which idleness of `idle_for_ms` milliseconds stretches
/// the delay, between 1 and 5.
pub fn idle_multiplier(idle_for_ms: u64) -> (r: Fixed)
    ensures
        r@ == idle_factor(idle_for_ms as int),
        SCALE <= r@ <= 5 * SCALE,
{
    proof {
        lemma_idle_factor(idle_for_ms as int);
    }
    let seconds: u64 = idle_for_ms / 1000;
    if seconds < 120 {
        let part: u64 = (seconds * 1_000_000 + 60) / 120;
        Fixed { micros: 1_000_000 + part as i64 }
    } else if seconds >= 960 {
        Fixed { micros: 5_000_000 }
    } else {
        let whole: u64 = if seconds >= 480 {
            3
        } else if seconds >= 240 {
            2
        } else {
            1
        };
        let unit: u64 = if seconds >= 480 {
            480
        } else if seconds >= 240 {
            240
        } else {
            120
        };
        let mantissa: u64 = seconds * 0x1_0000_0000 / unit;
        let digits: u64 = log2_fraction(mantissa);
        let fraction: u64 = digits * 1_000_000 / 0x10_0000;
        proof {
            lemma_log2_of_minutes_bounds(seconds as int);
        }
        Fixed { micros: (1_000_000 + whole * 1_000_000 + fraction) as i64 }
    }
}

/// What the poll controller looks at.
#[derive(Clone, Copy, Debug, PartialEq, Eq, Structural)]
pub struct PollSignals {
    /// A battery is discharging.
    pub discharging: bool,
    /// The charge lost per hour, where it is known.
    pub discharge_rate: Option<Fixed>,
    /// The CPUs are idle.
    pub cpu_idle: bool,
    /// How long the user has been idle.
    pub idle_for_ms: u64,
    /// The volatility of the CPU samples, where it is defined.
    pub volatility: Option<CpuVolatility>,
    /// The delay of the previous tick, if there was one.
    pub previous_ms: Option<u64>,
}

/// The delay on battery: tripled when more than a fifth of the charge is
/// lost per hour, doubled when more than a tenth, else one and a half times;
/// doubled also while the rate is unknown.
pub open spec fn delay_on_discharge(discharging: bool, rate: Option<Fixed>) -> int {
    if !discharging {
        BASE_DELAY_MS as int
    } else {
        match rate {
            Some(r) => if r@ > SCALE / 5 {
                BASE_DELAY_MS * 3
            } else if r@ > SCALE / 10 {
                BASE_DELAY_MS * 2
            } else {
                BASE_DELAY_MS / 2 * 3
            },
            None => BASE_DELAY_MS * 2,
        }
    }
}

/// The delay stretched by the idle factor, when the CPUs are idle and the
/// user has been idle for more than thirty seconds.
pub open spec fn delay_on_idle(delay: int, cpu_idle: bool, idle_for_ms: int) -> int {
    if cpu_idle && idle_for_ms > IDLE_THRESHOLD_MS {
        round_div(delay * idle_factor(idle_for_ms), SCALE as int)
    } else {
        delay
    }
}

/// `true` when the samples change fast: usage by more than a tenth or
/// temperature by more than a fiftieth of a degree, from sample to sample.
pub open spec fn is_volatile(volatility: Option<CpuVolatility>) -> bool {
    match volatility {
        Some(v) => v.usage@ > SCALE / 10 || v.temperature@ > SCALE / 50,
        None => false,
    }
}

/// The delay halved, but not below one second, when the samples are
/// volatile.
pub open spec fn delay_on_volatility(delay: int, volatility: Option<CpuVolatility>) -> int {
    if is_volatile(volatility) {
        if delay / 2 < MIN_DELAY_MS {
            MIN_DELAY_MS as int
        } else {
            delay / 2
        }
    } else {
        delay
    }
}

/// Three parts of the new delay and seven of the previous one, where
/// there is one.
pub open spec fn smoothed(delay: int, previous: Option<u64>) -> int {
    match previous {
        Some(p) => round_div(3 * delay + 7 * p, 10),
        None => delay,
    }
}

/// `delay` held between the shortest and the longest delay.
pub open spec fn clamped(delay: int) -> int {
    if delay < MIN_DELAY_MS {
        MIN_DELAY_MS as int
    } else if delay > MAX_DELAY_MS {
        MAX_DELAY_MS as int
    } else {
        delay
    }
}

/// The delay before the next tick.
pub open spec fn next_delay(signals: PollSignals) -> int {
    clamped(
        smoothed(
            delay_on_volatility(
                delay_on_idle(
                    delay_on_discharge(signals.discharging, signals.discharge_rate),
                    signals.cpu_idle,
                    signals.idle_for_ms as int,
                ),
                signals.volatility,
            ),
            signals.previous_ms,
        ),
    )
}

/// The delay before the next tick, in milliseconds: always between one and
/// thirty seconds.
pub fn polling_delay(signals: &PollSignals) -> (r: u64)
    ensures
        r == next_delay(*signals),
        MIN_DELAY_MS <= r <= MAX_DELAY_MS,
{
    let mut delay: u64 = 5_000;
    if signals.discharging {
        delay = match signals.discharge_rate {
            Some(rate) => {
                if rate.micros > 200_000 {
                    15_000
                } else if rate.micros > 100_000 {
                    10_000
                } else {
                    7_500
                }
            },
            None => 10_000,
        };
    }
    if signals.cpu_idle && signals.idle_for_ms > IDLE_THRESHOLD_MS {
        let factor = idle_multiplier(signals.idle_for_ms);
        let stretched: i128 = round_div_wide((delay as i128) * (factor.micros as i128), 1_000_000);
        assert(0 <= stretched <= 75_000) by (nonlinear_arith)
            requires
                stretched == round_div(delay * factor.micros, 1_000_000),
                0 <= delay <= 15_000,
                1_000_000 <= factor.micros <= 5_000_000,
        ;
        delay = stretched as u64;
    }
    let volatile = match signals.volatility {
        Some(v) => v.usage.micros > 100_000 || v.temperature.micros > 20_000,
        None => false,
    };
    if volatile {
        delay = if delay / 2 < 1_000 {
            1_000
        } else {
            delay / 2
        };
    }
    let smooth: u128 = match signals.previous_ms {
        Some(previous) => (3 * (delay as u128) + 7 * (previous as u128) + 5) / 10,
        None => delay as u128,
    };
    if smooth < 1_000 {
        1_000
    } else if smooth > 30_000 {
        30_000
    } else {
        smooth as u64
    }
}

/// How long to sleep after the rules took `elapsed_ms` to apply: what is
/// left of the delay, and nothing when the work took longer.
pub fn sleep_after(delay_ms: u64, elapsed_ms: u64) -> (r: u64)
    ensures
        elapsed_ms >= delay_ms ==> r == 0,
        elapsed_ms < delay_ms ==> r == delay_ms - elapsed_ms,
{
    if elapsed_ms >= delay_ms {
        0
    } else {
        delay_ms - elapsed_ms
    }
}

} // verus!
