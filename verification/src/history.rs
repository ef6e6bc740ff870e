//! The telemetry rings and what is derived from them: volatility, idleness
//! and the discharge rate.
//!
//! Instants are milliseconds on a clock that never runs backwards.

use std::collections::VecDeque;
use vstd::prelude::*;
use crate::number::{round_div, round_div_wide, total, Fixed, SCALE};

verus! {

/// The number of samples a ring keeps.
pub const LOG_CAPACITY: usize = 100;

/// A sample younger than this many milliseconds is recent.
pub const RECENT_WINDOW_MS: u64 = 300_000;

/// Milliseconds in one hour.
pub const HOUR_MS: u64 = 3_600_000;

/// One sample of the CPUs as a whole.
#[derive(Clone, Copy, Debug, PartialEq, Eq, Structural)]
pub struct CpuLog {
    /// When the sample was taken.
    pub at: u64,
    /// Mean usage over all CPUs, between 0 and 1.
    pub usage: Fixed,
    /// Mean temperature in degrees Celsius.
    pub temperature: Fixed,
}

/// One sample of the power supplies as a whole.
#[derive(Clone, Copy, Debug, PartialEq, Eq, Structural)]
pub struct PowerSupplyLog {
    /// When the sample was taken.
    pub at: u64,
    /// Mean charge, between 0 and 1.
    pub charge: Fixed,
}

/// How much the CPU samples change from one to the next.
#[derive(Clone, Copy, Debug, PartialEq, Eq, Structural)]
pub struct CpuVolatility {
    pub usage: Fixed,
    pub temperature: Fixed,
}

/// A ring after `sample` was appended: the oldest samples leave so that
/// at most [`LOG_CAPACITY`] remain.
pub open spec fn appended<T>(log: Seq<T>, sample: T) -> Seq<T> {
    if log.len() >= LOG_CAPACITY {
        log.subrange(log.len() - LOG_CAPACITY + 1, log.len() as int).push(sample)
    } else {
        log.push(sample)
    }
}

/// The instants of the CPU samples.
pub open spec fn cpu_times(log: Seq<CpuLog>) -> Seq<int> {
    log.map_values(|s: CpuLog| s.at as int)
}

/// The usages of the CPU samples, in millionths.
pub open spec fn usages(log: Seq<CpuLog>) -> Seq<int> {
    log.map_values(|s: CpuLog| s.usage@)
}

/// The temperatures of the CPU samples, in millionths of a degree.
pub open spec fn temperatures(log: Seq<CpuLog>) -> Seq<int> {
    log.map_values(|s: CpuLog| s.temperature@)
}

/// The instants of the power-supply samples.
pub open spec fn power_times(log: Seq<PowerSupplyLog>) -> Seq<int> {
    log.map_values(|s: PowerSupplyLog| s.at as int)
}

/// No instant is earlier than one before it.
pub open spec fn ascending(times: Seq<int>) -> bool {
    forall|i: int, j: int| 0 <= i <= j < times.len() ==> times[i] <= times[j]
}

/// A sample taken at `at` is younger than `window` at `now`.
pub open spec fn is_recent(at: int, now: int, window: int) -> bool {
    now - at < window
}

/// The number of samples at the end of the ring that are all recent.
pub open spec fn recent_count(times: Seq<int>, now: int, window: int) -> nat
    decreases times.len(),
{
    if times.len() == 0 {
        0
    } else if is_recent(times.last(), now, window) {
        1 + recent_count(times.drop_last(), now, window)
    } else {
        0
    }
}

/// `|a - b|`.
pub open spec fn distance(a: int, b: int) -> int {
    if a >= b {
        a - b
    } else {
        b - a
    }
}

/// The sum of the distances between neighbours.
pub open spec fn change_sum(values: Seq<int>) -> int
    decreases values.len(),
{
    if values.len() < 2 {
        0
    } else {
        change_sum(values.drop_last()) + distance(
            values[values.len() - 1],
            values[values.len() - 2],
        )
    }
}

/// `v`, or the nearest storable number where `v` cannot be stored.
pub open spec fn capped(v: int) -> int {
    if v > i64::MAX {
        i64::MAX as int
    } else if v < i64::MIN {
        i64::MIN as int
    } else {
        v
    }
}

/// The mean distance between neighbours (at least two values).
pub open spec fn mean_change(values: Seq<int>) -> int {
    capped(round_div(change_sum(values), values.len() - 1))
}

/// The volatility of the CPU samples at `now`: defined when at least two
/// samples are recent, and then taken over every sample kept.
pub open spec fn volatility_of(log: Seq<CpuLog>, now: int) -> Option<CpuVolatility> {
    if recent_count(cpu_times(log), now, RECENT_WINDOW_MS as int) < 2 {
        None
    } else {
        Some(
            CpuVolatility {
                usage: Fixed { micros: mean_change(usages(log)) as i64 },
                temperature: Fixed { micros: mean_change(temperatures(log)) as i64 },
            },
        )
    }
}

/// The mean usage of the last `count` samples (`0 < count <= log.len()`).
pub open spec fn mean_usage_of_last(log: Seq<CpuLog>, count: int) -> int {
    round_div(total(usages(log.subrange(log.len() - count, log.len() as int))), count)
}

/// The mean usage of the samples younger than `window`: defined when
/// there are at least two of them.
pub open spec fn usage_since(log: Seq<CpuLog>, now: int, window: int) -> Option<Fixed> {
    let count = recent_count(cpu_times(log), now, window);
    if count < 2 {
        None
    } else {
        Some(Fixed { micros: mean_usage_of_last(log, count as int) as i64 })
    }
}

/// The CPUs are idle at `now`: at least two recent samples, their mean
/// usage under a tenth, and the usage volatility under a twentieth.
pub open spec fn cpu_idle(log: Seq<CpuLog>, now: int) -> bool {
    let count = recent_count(cpu_times(log), now, RECENT_WINDOW_MS as int);
    &&& count >= 2
    &&& mean_usage_of_last(log, count as int) < SCALE / 10
    &&& match volatility_of(log, now) {
        None => true,
        Some(v) => v.usage@ < SCALE / 20,
    }
}

/// The number of samples at the end of the ring whose charge rises
/// strictly from each to the one before it.
pub open spec fn discharge_run(log: Seq<PowerSupplyLog>) -> nat
    decreases log.len(),
{
    if log.len() == 0 {
        0
    } else if log.len() == 1 {
        1
    } else if log[log.len() - 2].charge@ > log[log.len() - 1].charge@ {
        1 + discharge_run(log.drop_last())
    } else {
        1
    }
}

/// The charge lost per hour between `oldest` and `newest`, capped at what
/// can be stored; with no time between them it is the largest number.
pub open spec fn rate_between(oldest: PowerSupplyLog, newest: PowerSupplyLog) -> int {
    let lost = oldest.charge@ - newest.charge@;
    let elapsed = distance(newest.at as int, oldest.at as int);
    if elapsed == 0 {
        i64::MAX as int
    } else {
        capped(round_div(lost * HOUR_MS, elapsed))
    }
}

/// The discharge rate: defined when the discharge run holds at least two
/// samples.
pub open spec fn discharge_rate_of(log: Seq<PowerSupplyLog>) -> Option<Fixed> {
    let run = discharge_run(log);
    if run < 2 {
        None
    } else {
        Some(Fixed { micros: rate_between(log[log.len() - run], log[log.len() - 1]) as i64 })
    }
}

/// Appending in time order keeps a ring in time order.
pub proof fn lemma_appended_ascending(times: Seq<int>, at: int)
    requires
        ascending(times),
        times.len() > 0 ==> times.last() <= at,
    ensures
        ascending(appended(times, at)),
{
    let after = appended(times, at);
    assert forall|i: int, j: int| 0 <= i <= j < after.len() implies after[i] <= after[j] by {
        if times.len() >= LOG_CAPACITY {
            let skip = times.len() - LOG_CAPACITY + 1;
            if j < after.len() - 1 {
                assert(after[i] == times[i + skip]);
                assert(after[j] == times[j + skip]);
            } else if i < after.len() - 1 {
                assert(after[i] == times[i + skip]);
                assert(times[i + skip] <= times[times.len() - 1]);
            }
        } else if j == after.len() - 1 && i < j {
            assert(times[i] <= times[times.len() - 1]);
        }
    }
}

/// Volatility is defined exactly when at least two samples are recent.
pub proof fn lemma_volatility_defined(log: Seq<CpuLog>, now: int)
    ensures
        volatility_of(log, now).is_some() <==> recent_count(
            cpu_times(log),
            now,
            RECENT_WINDOW_MS as int,
        ) >= 2,
{
}

/// The discharge rate is defined exactly when the walk from the newest
/// sample into the past finds at least two samples of rising charge.
pub proof fn lemma_discharge_rate_defined(log: Seq<PowerSupplyLog>)
    ensures
        discharge_rate_of(log).is_some() <==> discharge_run(log) >= 2,
        log.len() < 2 ==> discharge_rate_of(log).is_none(),
{
    lemma_discharge_run_bound(log);
}

/// Within the discharge run the charge rises into the past: the sample
/// `k` places before the newest holds more charge than the newest.
pub proof fn lemma_discharge_run_rises(log: Seq<PowerSupplyLog>, k: int)
    requires
        2 <= k <= discharge_run(log),
    ensures
        k <= log.len(),
        log[log.len() - k].charge@ > log[log.len() - 1].charge@,
    decreases k,
{
    lemma_discharge_run_bound(log);
    let front = log.drop_last();
    if k > 2 {
        lemma_discharge_run_rises(front, k - 1);
        assert(front[front.len() - (k - 1)] == log[log.len() - k]);
        assert(front[front.len() - 1] == log[log.len() - 2]);
    }
}

/// A discharge rate is never negative.
pub proof fn lemma_discharge_rate_not_negative(log: Seq<PowerSupplyLog>)
    ensures
        discharge_rate_of(log) matches Some(rate) ==> rate@ >= 0,
{
    let run = discharge_run(log);
    if run >= 2 {
        lemma_discharge_run_rises(log, run as int);
        let oldest = log[log.len() - run];
        let newest = log[log.len() - 1];
        let lost = oldest.charge@ - newest.charge@;
        let elapsed = distance(newest.at as int, oldest.at as int);
        if elapsed > 0 {
            assert(round_div(lost * HOUR_MS, elapsed) >= 0) by (nonlinear_arith)
                requires
                    lost > 0,
                    elapsed > 0,
                    HOUR_MS == 3_600_000,
            ;
        }
    }
}

/// The discharge run holds no more samples than the ring.
pub proof fn lemma_discharge_run_bound(log: Seq<PowerSupplyLog>)
    ensures
        discharge_run(log) <= log.len(),
    decreases log.len(),
{
    if log.len() >= 2 {
        lemma_discharge_run_bound(log.drop_last());
    }
}

fn push_bounded<T>(log: &mut VecDeque<T>, sample: T)
    ensures
        final(log)@ == appended(old(log)@, sample),
        final(log)@.len() <= LOG_CAPACITY,
{
    if log.len() >= LOG_CAPACITY {
        let ghost before = log@;
        let excess: usize = log.len() - LOG_CAPACITY + 1;
        let mut dropped: usize = 0;
        while dropped < excess
            invariant
                dropped <= excess,
                excess == before.len() - LOG_CAPACITY + 1,
                before.len() >= LOG_CAPACITY,
                log@ == before.subrange(dropped as int, before.len() as int),
            decreases excess - dropped,
        {
            log.pop_front();
            assert(log@ =~= before.subrange(dropped + 1, before.len() as int));
            dropped += 1;
        }
        log.push_back(sample);
    } else {
        log.push_back(sample);
    }
}

fn sample_is_recent(at: u64, now: u64, window: u64) -> (r: bool)
    ensures
        r == is_recent(at as int, now as int, window as int),
{
    if at >= now {
        window > 0 || at > now
    } else {
        now - at < window
    }
}

/// The number of samples at the end of `log` that are younger than
/// `window` at `now`.
pub fn count_recent(log: &VecDeque<CpuLog>, now: u64, window: u64) -> (r: usize)
    ensures
        r == recent_count(cpu_times(log@), now as int, window as int),
        r <= log@.len(),
{
    let ghost times = cpu_times(log@);
    let len: usize = log.len();
    let mut i: usize = len;
    assert(times.subrange(0, len as int) =~= times);
    while i > 0
        invariant
            i <= len,
            len == log@.len(),
            times == cpu_times(log@),
            recent_count(times, now as int, window as int) == (len - i) + recent_count(
                times.subrange(0, i as int),
                now as int,
                window as int,
            ),
        decreases i,
    {
        let ghost prefix = times.subrange(0, i as int);
        assert(prefix.last() == log@[i - 1].at);
        assert(prefix.drop_last() =~= times.subrange(0, i - 1));
        if !sample_is_recent(log[i - 1].at, now, window) {
            return len - i;
        }
        i -= 1;
    }
    len
}

proof fn lemma_change_sum_step(values: Seq<int>, k: int)
    requires
        1 <= k < values.len(),
    ensures
        change_sum(values.subrange(0, k + 1)) == change_sum(values.subrange(0, k)) + distance(
            values[k],
            values[k - 1],
        ),
{
    let prefix = values.subrange(0, k + 1);
    assert(prefix.drop_last() =~= values.subrange(0, k));
}

proof fn lemma_total_step(values: Seq<int>, from: int, k: int)
    requires
        0 <= from <= k < values.len(),
    ensures
        total(values.subrange(from, k + 1)) == total(values.subrange(from, k)) + values[k],
{
    let part = values.subrange(from, k + 1);
    assert(part.drop_last() =~= values.subrange(from, k));
}

fn gap(a: i64, b: i64) -> (r: u128)
    ensures
        r == distance(a as int, b as int),
        r <= 0xffff_ffff_ffff_ffff,
{
    let x: i128 = a as i128;
    let y: i128 = b as i128;
    if x >= y {
        (x - y) as u128
    } else {
        (y - x) as u128
    }
}

fn mean_of_changes(sum: u128, count: usize) -> (r: Fixed)
    requires
        0 < count <= LOG_CAPACITY,
        sum <= count * 0xffff_ffff_ffff_ffff,
    ensures
        r@ == capped(round_div(sum as int, count as int)),
{
    let n: u128 = count as u128;
    let mean: u128 = (sum + n / 2) / n;
    if mean > i64::MAX as u128 {
        Fixed { micros: i64::MAX }
    } else {
        Fixed { micros: mean as i64 }
    }
}

/// The volatility of the samples of `log` at `now`.
pub fn volatility(log: &VecDeque<CpuLog>, now: u64) -> (r: Option<CpuVolatility>)
    requires
        log@.len() <= LOG_CAPACITY,
    ensures
        r == volatility_of(log@, now as int),
{
    if count_recent(log, now, RECENT_WINDOW_MS) < 2 {
        return None;
    }
    let len: usize = log.len();
    let ghost us = usages(log@);
    let ghost ts = temperatures(log@);
    let mut usage_sum: u128 = 0;
    let mut temperature_sum: u128 = 0;
    let mut k: usize = 1;
    assert(change_sum(us.subrange(0, 1)) == 0);
    assert(change_sum(ts.subrange(0, 1)) == 0);
    while k < len
        invariant
            1 <= k <= len,
            len == log@.len(),
            len <= LOG_CAPACITY,
            us == usages(log@),
            ts == temperatures(log@),
            usage_sum == change_sum(us.subrange(0, k as int)),
            temperature_sum == change_sum(ts.subrange(0, k as int)),
            usage_sum <= (k - 1) * 0xffff_ffff_ffff_ffff,
            temperature_sum <= (k - 1) * 0xffff_ffff_ffff_ffff,
        decreases len - k,
    {
        proof {
            lemma_change_sum_step(us, k as int);
            lemma_change_sum_step(ts, k as int);
        }
        usage_sum = usage_sum + gap(log[k].usage.micros, log[k - 1].usage.micros);
        temperature_sum = temperature_sum + gap(
            log[k].temperature.micros,
            log[k - 1].temperature.micros,
        );
        k += 1;
    }
    assert(us.subrange(0, len as int) =~= us);
    assert(ts.subrange(0, len as int) =~= ts);
    Some(
        CpuVolatility {
            usage: mean_of_changes(usage_sum, len - 1),
            temperature: mean_of_changes(temperature_sum, len - 1),
        },
    )
}

/// The mean usage of the last `count` samples of `log`.
pub fn mean_usage(log: &VecDeque<CpuLog>, count: usize) -> (r: Fixed)
    requires
        0 < count <= log@.len(),
        log@.len() <= LOG_CAPACITY,
    ensures
        r@ == mean_usage_of_last(log@, count as int),
{
    let len: usize = log.len();
    let from: usize = len - count;
    let ghost us = usages(log@);
    let mut sum: i128 = 0;
    let mut k: usize = from;
    assert(total(us.subrange(from as int, from as int)) == 0);
    while k < len
        invariant
            from <= k <= len,
            len == log@.len(),
            len <= LOG_CAPACITY,
            us == usages(log@),
            sum == total(us.subrange(from as int, k as int)),
            -(k - from) * 0x8000_0000_0000_0000 <= sum <= (k - from) * 0x7fff_ffff_ffff_ffff,
        decreases len - k,
    {
        proof {
            lemma_total_step(us, from as int, k as int);
        }
        sum = sum + log[k].usage.micros as i128;
        k += 1;
    }
    assert(usages(log@.subrange(from as int, len as int)) =~= us.subrange(from as int, len as int));
    let mean: i128 = round_div_wide(sum, count as i128);
    proof {
        let n = count as int;
        let s = sum as int;
        assert(-0x8000_0000_0000_0000 <= round_div(s, n) <= 0x7fff_ffff_ffff_ffff)
            by (nonlinear_arith)
            requires
                0 < n <= 100,
                -n * 0x8000_0000_0000_0000 <= s <= n * 0x7fff_ffff_ffff_ffff,
        ;
    }
    Fixed { micros: mean as i64 }
}

/// The mean usage of the samples of `log` younger than `window` at `now`.
pub fn usage_over(log: &VecDeque<CpuLog>, now: u64, window: u64) -> (r: Option<Fixed>)
    requires
        log@.len() <= LOG_CAPACITY,
    ensures
        r == usage_since(log@, now as int, window as int),
{
    let count: usize = count_recent(log, now, window);
    if count < 2 {
        None
    } else {
        Some(mean_usage(log, count))
    }
}

/// `true` when the CPUs are idle at `now`.
pub fn is_idle(log: &VecDeque<CpuLog>, now: u64) -> (r: bool)
    requires
        log@.len() <= LOG_CAPACITY,
    ensures
        r == cpu_idle(log@, now as int),
{
    let count: usize = count_recent(log, now, RECENT_WINDOW_MS);
    if count < 2 {
        return false;
    }
    let mean = mean_usage(log, count);
    if mean.micros >= SCALE / 10 {
        return false;
    }
    match volatility(log, now) {
        None => true,
        Some(v) => v.usage.micros < SCALE / 20,
    }
}

/// The number of samples at the end of `log` that form a discharge.
pub fn count_discharging(log: &VecDeque<PowerSupplyLog>) -> (r: usize)
    ensures
        r == discharge_run(log@),
        r <= log@.len(),
        log@.len() > 0 ==> r >= 1,
{
    let len: usize = log.len();
    if len == 0 {
        return 0;
    }
    let mut i: usize = len;
    assert(log@.subrange(0, len as int) =~= log@);
    while i > 1
        invariant
            1 <= i <= len,
            len == log@.len(),
            discharge_run(log@) == (len - i) + discharge_run(log@.subrange(0, i as int)),
        decreases i,
    {
        let ghost prefix = log@.subrange(0, i as int);
        assert(prefix.drop_last() =~= log@.subrange(0, i - 1));
        assert(prefix[i - 1] == log@[i - 1]);
        assert(prefix[i - 2] == log@[i - 2]);
        if !(log[i - 2].charge.micros > log[i - 1].charge.micros) {
            return len - i + 1;
        }
        i -= 1;
    }
    len
}

/// The discharge rate read from `log`.
pub fn discharge_rate(log: &VecDeque<PowerSupplyLog>) -> (r: Option<Fixed>)
    ensures
        r == discharge_rate_of(log@),
{
    let run: usize = count_discharging(log);
    if run < 2 {
        return None;
    }
    let oldest = log[log.len() - run];
    let newest = log[log.len() - 1];
    let lost: i128 = oldest.charge.micros as i128 - newest.charge.micros as i128;
    let elapsed: u64 = if newest.at >= oldest.at {
        newest.at - oldest.at
    } else {
        oldest.at - newest.at
    };
    if elapsed == 0 {
        return Some(Fixed { micros: i64::MAX });
    }
    let rate: i128 = round_div_wide(lost * 3_600_000, elapsed as i128);
    if rate > i64::MAX as i128 {
        Some(Fixed { micros: i64::MAX })
    } else if rate < i64::MIN as i128 {
        Some(Fixed { micros: i64::MIN })
    } else {
        Some(Fixed { micros: rate as i64 })
    }
}

/// The two telemetry rings of the daemon. Each holds at most
/// [`LOG_CAPACITY`] samples; appending to a full ring evicts its oldest
/// sample.
#[derive(Debug)]
pub struct History {
    cpu_log: VecDeque<CpuLog>,
    power_supply_log: VecDeque<PowerSupplyLog>,
}

impl History {
    /// Neither ring holds more than [`LOG_CAPACITY`] samples.
    pub closed spec fn wf(&self) -> bool {
        &&& self.cpu_log@.len() <= LOG_CAPACITY
        &&& self.power_supply_log@.len() <= LOG_CAPACITY
    }

    /// A well-formed history holds at most [`LOG_CAPACITY`] samples in
    /// either ring.
    pub proof fn lemma_bounded(&self)
        requires
            self.wf(),
        ensures
            self.cpu_samples().len() <= LOG_CAPACITY,
            self.power_samples().len() <= LOG_CAPACITY,
    {
    }

    /// The CPU samples, oldest first.
    pub closed spec fn cpu_samples(&self) -> Seq<CpuLog> {
        self.cpu_log@
    }

    /// The power-supply samples, oldest first.
    pub closed spec fn power_samples(&self) -> Seq<PowerSupplyLog> {
        self.power_supply_log@
    }

    /// Two empty rings.
    pub fn new() -> (r: History)
        ensures
            r.wf(),
            r.cpu_samples() == Seq::<CpuLog>::empty(),
            r.power_samples() == Seq::<PowerSupplyLog>::empty(),
    {
        History { cpu_log: VecDeque::new(), power_supply_log: VecDeque::new() }
    }

    /// Appends a CPU sample. The ring never holds more than
    /// [`LOG_CAPACITY`] samples, and a ring in time order stays so when the
    /// sample is no older than the newest one kept.
    pub fn record_cpu(&mut self, sample: CpuLog)
        requires
            old(self).wf(),
        ensures
            final(self).wf(),
            final(self).cpu_samples() == appended(old(self).cpu_samples(), sample),
            final(self).power_samples() == old(self).power_samples(),
            final(self).cpu_samples().len() <= LOG_CAPACITY,
            ascending(cpu_times(old(self).cpu_samples())) && (old(self).cpu_samples().len() > 0
                ==> old(self).cpu_samples().last().at <= sample.at) ==> ascending(
                cpu_times(final(self).cpu_samples()),
            ),
    {
        proof {
            let times = cpu_times(self.cpu_log@);
            if ascending(times) && (self.cpu_log@.len() > 0 ==> self.cpu_log@.last().at
                <= sample.at) {
                lemma_appended_ascending(times, sample.at as int);
            }
            assert(cpu_times(appended(self.cpu_log@, sample)) =~= appended(
                times,
                sample.at as int,
            ));
        }
        push_bounded(&mut self.cpu_log, sample);
    }

    /// Appends a power-supply sample, as [`History::record_cpu`] does for
    /// the CPUs.
    pub fn record_power_supply(&mut self, sample: PowerSupplyLog)
        requires
            old(self).wf(),
        ensures
            final(self).wf(),
            final(self).power_samples() == appended(old(self).power_samples(), sample),
            final(self).cpu_samples() == old(self).cpu_samples(),
            final(self).power_samples().len() <= LOG_CAPACITY,
            ascending(power_times(old(self).power_samples())) && (old(self).power_samples().len()
                > 0 ==> old(self).power_samples().last().at <= sample.at) ==> ascending(
                power_times(final(self).power_samples()),
            ),
    {
        proof {
            let times = power_times(self.power_supply_log@);
            if ascending(times) && (self.power_supply_log@.len() > 0
                ==> self.power_supply_log@.last().at <= sample.at) {
                lemma_appended_ascending(times, sample.at as int);
            }
            assert(power_times(appended(self.power_supply_log@, sample)) =~= appended(
                times,
                sample.at as int,
            ));
        }
        push_bounded(&mut self.power_supply_log, sample);
    }

    /// The CPU ring.
    pub fn cpu_log(&self) -> (r: &VecDeque<CpuLog>)
        requires
            self.wf(),
        ensures
            r@ == self.cpu_samples(),
            r@.len() <= LOG_CAPACITY,
    {
        &self.cpu_log
    }

    /// The power-supply ring.
    pub fn power_supply_log(&self) -> (r: &VecDeque<PowerSupplyLog>)
        requires
            self.wf(),
        ensures
            r@ == self.power_samples(),
            r@.len() <= LOG_CAPACITY,
    {
        &self.power_supply_log
    }

    /// The newest CPU sample.
    pub fn last_cpu(&self) -> (r: Option<CpuLog>)
        ensures
            self.cpu_samples().len() == 0 ==> r.is_none(),
            self.cpu_samples().len() > 0 ==> r == Some(self.cpu_samples().last()),
    {
        if self.cpu_log.len() == 0 {
            None
        } else {
            Some(self.cpu_log[self.cpu_log.len() - 1])
        }
    }

    /// The newest power-supply sample.
    pub fn last_power_supply(&self) -> (r: Option<PowerSupplyLog>)
        ensures
            self.power_samples().len() == 0 ==> r.is_none(),
            self.power_samples().len() > 0 ==> r == Some(self.power_samples().last()),
    {
        if self.power_supply_log.len() == 0 {
            None
        } else {
            Some(self.power_supply_log[self.power_supply_log.len() - 1])
        }
    }

    /// The volatility of the CPU samples at `now`.
    pub fn cpu_volatility(&self, now: u64) -> (r: Option<CpuVolatility>)
        requires
            self.wf(),
        ensures
            r == volatility_of(self.cpu_samples(), now as int),
    {
        volatility(self.cpu_log(), now)
    }

    /// `true` when the CPUs are idle at `now`.
    pub fn is_cpu_idle(&self, now: u64) -> (r: bool)
        requires
            self.wf(),
        ensures
            r == cpu_idle(self.cpu_samples(), now as int),
    {
        is_idle(self.cpu_log(), now)
    }

    /// The mean usage of the samples younger than `window` at `now`.
    pub fn cpu_usage_since(&self, now: u64, window: u64) -> (r: Option<Fixed>)
        requires
            self.wf(),
        ensures
            r == usage_since(self.cpu_samples(), now as int, window as int),
    {
        usage_over(self.cpu_log(), now, window)
    }

    /// The discharge rate per hour.
    pub fn power_supply_discharge_rate(&self) -> (r: Option<Fixed>)
        requires
            self.wf(),
        ensures
            r == discharge_rate_of(self.power_samples()),
    {
        discharge_rate(self.power_supply_log())
    }
}

} // verus!
