//! The model of one CPU: its kernel time counters and its cpufreq settings.

use std::collections::HashMap;
use vstd::prelude::*;
use crate::number::{round_div, Fixed, SCALE};
use crate::sysfs::{cpu_root, ApplyError, Write};
use crate::system::ScanError;
use crate::text::{
    chars_of, contains_name, contains_text, decimal, format_u64, lines, parse_digits, split_lines, split_whitespace, starts_with, text_between, texts, u32_of,
    u64_of, words,
};
use vstd::string::*;

verus! {

/// A snapshot of the kernel's per-CPU time counters.
#[derive(Clone, Copy, Debug, PartialEq, Eq, Structural)]
pub struct CpuStat {
    pub user: u64,
    pub nice: u64,
    pub system: u64,
    pub idle: u64,
    pub iowait: u64,
    pub irq: u64,
    pub softirq: u64,
    pub steal: u64,
}

impl CpuStat {
    /// The sum of all counters.
    pub open spec fn sum(&self) -> int {
        self.user + self.nice + self.system + self.idle + self.iowait + self.irq + self.softirq
            + self.steal
    }

    /// The time spent doing nothing: idle and waiting for I/O.
    pub open spec fn idle_sum(&self) -> int {
        self.idle + self.iowait
    }

    /// The counters are small enough for their sum to be stored.
    pub open spec fn wf(&self) -> bool {
        self.sum() <= u64::MAX
    }

    /// The share of the time between `earlier` and `self` that was not idle,
    /// in millionths; zero where no time has passed or a counter ran
    /// backwards.
    pub open spec fn usage_between(earlier: CpuStat, later: CpuStat) -> int {
        let total = later.sum() - earlier.sum();
        let idle = later.idle_sum() - earlier.idle_sum();
        if total <= 0 || idle < 0 || idle > total {
            0
        } else {
            SCALE - round_div(idle * SCALE, total)
        }
    }

    /// All counters at zero.
    pub fn zero() -> (r: CpuStat)
        ensures
            r.sum() == 0,
            r.wf(),
    {
        CpuStat { user: 0, nice: 0, system: 0, idle: 0, iowait: 0, irq: 0, softirq: 0, steal: 0 }
    }

    /// `true` when the sum of the counters can be stored.
    pub fn is_valid(&self) -> (r: bool)
        ensures
            r == self.wf(),
    {
        let sum: u128 = self.user as u128 + self.nice as u128 + self.system as u128
            + self.idle as u128 + self.iowait as u128 + self.irq as u128 + self.softirq as u128
            + self.steal as u128;
        sum <= u64::MAX as u128
    }

    /// The total time counted.
    pub fn total(&self) -> (r: u64)
        requires
            self.wf(),
        ensures
            r == self.sum(),
    {
        self.user + self.nice + self.system + self.idle + self.iowait + self.irq + self.softirq
            + self.steal
    }

    /// The time counted as idle.
    pub fn idle(&self) -> (r: u64)
        requires
            self.wf(),
        ensures
            r == self.idle_sum(),
    {
        self.idle + self.iowait
    }

    fn wide_total(&self) -> (r: u128)
        ensures
            r == self.sum(),
    {
        self.user as u128 + self.nice as u128 + self.system as u128 + self.idle as u128
            + self.iowait as u128 + self.irq as u128 + self.softirq as u128 + self.steal as u128
    }

    fn wide_idle(&self) -> (r: u128)
        ensures
            r == self.idle_sum(),
    {
        self.idle as u128 + self.iowait as u128
    }

    /// The share of all counted time that was not idle.
    pub fn usage(&self) -> (r: Fixed)
        ensures
            r@ == Self::usage_between(
                Self {
                    user: 0,
                    nice: 0,
                    system: 0,
                    idle: 0,
                    iowait: 0,
                    irq: 0,
                    softirq: 0,
                    steal: 0,
                },
                *self,
            ),
            0 <= r@ <= SCALE,
    {
        let zero = CpuStat::zero();
        self.usage_since(&zero)
    }

    /// The share of the time since `earlier` that was not idle.
    pub fn usage_since(&self, earlier: &CpuStat) -> (r: Fixed)
        ensures
            r@ == Self::usage_between(*earlier, *self),
            0 <= r@ <= SCALE,
    {
        let earlier_total: u128 = earlier.wide_total();
        let later_total: u128 = self.wide_total();
        let earlier_idle: u128 = earlier.wide_idle();
        let later_idle: u128 = self.wide_idle();
        if later_total <= earlier_total || later_idle < earlier_idle {
            return Fixed { micros: 0 };
        }
        let total: u128 = later_total - earlier_total;
        let idle: u128 = later_idle - earlier_idle;
        if idle > total {
            return Fixed { micros: 0 };
        }
        let scaled: u128 = idle * 1_000_000;
        let share: u128 = (scaled + total / 2) / total;
        proof {
            let t = total as int;
            let i = idle as int;
            assert((i * 1_000_000 + t / 2) / t <= 1_000_000) by (nonlinear_arith)
                requires
                    0 <= i <= t,
                    t > 0,
            ;
        }
        Fixed { micros: 1_000_000 - (share as i64) }
    }
}

/// One CPU and what its cpufreq interface offers.
#[derive(Debug, PartialEq, Eq)]
pub struct Cpu {
    pub number: u32,
    pub has_cpufreq: bool,
    pub available_governors: Vec<String>,
    pub governor: Option<String>,
    pub frequency_mhz: Option<u64>,
    pub frequency_mhz_minimum: Option<u64>,
    pub frequency_mhz_maximum: Option<u64>,
    pub available_epps: Vec<String>,
    pub epp: Option<String>,
    pub available_epbs: Vec<String>,
    pub epb: Option<String>,
    pub driver: Option<String>,
    pub stat: CpuStat,
    pub temperature: Option<Fixed>,
}

impl Cpu {
    /// Without a cpufreq interface there is no governor, preference or bias,
    /// and nothing is on offer.
    pub open spec fn wf(&self) -> bool {
        !self.has_cpufreq ==> {
            &&& self.governor.is_none()
            &&& self.epp.is_none()
            &&& self.epb.is_none()
            &&& self.available_governors@.len() == 0
            &&& self.available_epps@.len() == 0
            &&& self.available_epbs@.len() == 0
        }
    }

    /// CPU `number` before anything is known of it.
    pub fn new(number: u32) -> (r: Cpu)
        ensures
            r.wf(),
            r.number == number,
            !r.has_cpufreq,
            r.frequency_mhz.is_none(),
            r.frequency_mhz_minimum.is_none(),
            r.frequency_mhz_maximum.is_none(),
            r.driver.is_none(),
            r.temperature.is_none(),
            r.stat.sum() == 0,
    {
        Cpu {
            number,
            has_cpufreq: false,
            available_governors: Vec::new(),
            governor: None,
            frequency_mhz: None,
            frequency_mhz_minimum: None,
            frequency_mhz_maximum: None,
            available_epps: Vec::new(),
            epp: None,
            available_epbs: Vec::new(),
            epb: None,
            driver: None,
            stat: CpuStat::zero(),
            temperature: None,
        }
    }

    /// `true` when this CPU offers `governor`.
    pub fn offers_governor(&self, governor: &String) -> (r: bool)
        ensures
            r == texts(self.available_governors@).contains(governor@),
    {
        contains_text(&self.available_governors, governor)
    }

    /// `true` when this CPU offers the energy-performance preference `epp`.
    pub fn offers_epp(&self, epp: &String) -> (r: bool)
        ensures
            r == texts(self.available_epps@).contains(epp@),
    {
        contains_text(&self.available_epps, epp)
    }

    /// `true` when this CPU offers the energy-performance bias `epb`.
    pub fn offers_epb(&self, epb: &String) -> (r: bool)
        ensures
            r == texts(self.available_epbs@).contains(epb@),
    {
        contains_text(&self.available_epbs, epb)
    }

    /// `true` when `driver` is this CPU's scaling driver.
    pub fn has_driver(&self, driver: &String) -> (r: bool)
        ensures
            r == (self.driver matches Some(d) && d@ == driver@),
    {
        match &self.driver {
            Some(d) => *d == *driver,
            None => false,
        }
    }

    /// The time that this CPU has been counted for, in all its states.
    pub fn time_total(&self) -> (r: u64)
        requires
            self.stat.wf(),
        ensures
            r == self.stat.sum(),
    {
        self.stat.total()
    }

    /// The time that this CPU has been idle or waiting for I/O.
    pub fn time_idle(&self) -> (r: u64)
        requires
            self.stat.wf(),
        ensures
            r == self.stat.idle_sum(),
    {
        self.stat.idle()
    }
}

/// The path of `file` in the cpufreq directory of CPU `number`.
pub open spec fn cpufreq_file(number: u32, file: Seq<char>) -> Seq<char> {
    cpu_root() + "/cpu"@ + decimal(number as nat) + "/cpufreq/"@ + file
}

/// The path of `file` in the cpufreq directory of CPU `number`.
pub fn cpufreq_path(number: u32, file: &str) -> (r: String)
    ensures
        r@ == cpufreq_file(number, file@),
{
    let mut path = String::from_str("/sys/devices/system/cpu");
    path.append("/cpu");
    let digits = format_u64(number as u64);
    path.append(digits.as_str());
    path.append("/cpufreq/");
    path.append(file);
    path
}

/// `frequency_mhz` in kilohertz, where that can be stored.
pub open spec fn kilohertz(frequency_mhz: u64) -> Option<u64> {
    if frequency_mhz * 1000 <= u64::MAX {
        Some((frequency_mhz * 1000) as u64)
    } else {
        None
    }
}

/// Why a new minimum frequency is refused, if it is: it lies below the
/// minimum of the last scan, or cannot be written in kilohertz. Without a
/// minimum in the last scan there is no lower limit.
pub open spec fn minimum_refusal(limit: Option<u64>, frequency_mhz: u64) -> Option<ApplyError> {
    if limit matches Some(l) && frequency_mhz < l {
        Some(ApplyError::FrequencyBelowMinimum)
    } else if kilohertz(frequency_mhz).is_none() {
        Some(ApplyError::FrequencyTooLarge)
    } else {
        None
    }
}

/// Why a new maximum frequency is refused, if it is: it lies above the
/// maximum of the last scan, or cannot be written in kilohertz. Without a
/// maximum in the last scan there is no upper limit.
pub open spec fn maximum_refusal(limit: Option<u64>, frequency_mhz: u64) -> Option<ApplyError> {
    if limit matches Some(l) && frequency_mhz > l {
        Some(ApplyError::FrequencyAboveMaximum)
    } else if kilohertz(frequency_mhz).is_none() {
        Some(ApplyError::FrequencyTooLarge)
    } else {
        None
    }
}

impl Cpu {
    /// Sets the governor, which the CPU must offer. On success the CPU
    /// holds the new governor and the write to perform is returned; on
    /// failure nothing changes.
    pub fn set_governor(&mut self, governor: &str) -> (r: Result<Write, ApplyError>)
        ensures
            match r {
                Ok(w) => {
                    &&& texts(old(self).available_governors@).contains(governor@)
                    &&& w.path@ == cpufreq_file(old(self).number, "scaling_governor"@)
                    &&& w.value@ == governor@
                    &&& final(self).governor matches Some(g) && g@ == governor@
                    &&& *final(self) == Cpu { governor: final(self).governor, ..*old(self) }
                },
                Err(e) => {
                    &&& e == ApplyError::GovernorUnavailable
                    &&& !texts(old(self).available_governors@).contains(governor@)
                    &&& *final(self) == *old(self)
                },
            },
    {
        if !contains_name(&self.available_governors, governor) {
            return Err(ApplyError::GovernorUnavailable);
        }
        let path = cpufreq_path(self.number, "scaling_governor");
        self.governor = Some(String::from_str(governor));
        Ok(Write { path, value: String::from_str(governor) })
    }

    /// Sets the energy-performance preference, which the CPU must offer.
    pub fn set_epp(&mut self, epp: &str) -> (r: Result<Write, ApplyError>)
        ensures
            match r {
                Ok(w) => {
                    &&& texts(old(self).available_epps@).contains(epp@)
                    &&& w.path@ == cpufreq_file(
                        old(self).number,
                        "energy_performance_preference"@,
                    )
                    &&& w.value@ == epp@
                    &&& final(self).epp matches Some(g) && g@ == epp@
                    &&& *final(self) == Cpu { epp: final(self).epp, ..*old(self) }
                },
                Err(e) => {
                    &&& e == ApplyError::EppUnavailable
                    &&& !texts(old(self).available_epps@).contains(epp@)
                    &&& *final(self) == *old(self)
                },
            },
    {
        if !contains_name(&self.available_epps, epp) {
            return Err(ApplyError::EppUnavailable);
        }
        let path = cpufreq_path(self.number, "energy_performance_preference");
        self.epp = Some(String::from_str(epp));
        Ok(Write { path, value: String::from_str(epp) })
    }

    /// Sets the energy-performance bias, which the CPU must offer.
    pub fn set_epb(&mut self, epb: &str) -> (r: Result<Write, ApplyError>)
        ensures
            match r {
                Ok(w) => {
                    &&& texts(old(self).available_epbs@).contains(epb@)
                    &&& w.path@ == cpufreq_file(old(self).number, "energy_performance_bias"@)
                    &&& w.value@ == epb@
                    &&& final(self).epb matches Some(g) && g@ == epb@
                    &&& *final(self) == Cpu { epb: final(self).epb, ..*old(self) }
                },
                Err(e) => {
                    &&& e == ApplyError::EpbUnavailable
                    &&& !texts(old(self).available_epbs@).contains(epb@)
                    &&& *final(self) == *old(self)
                },
            },
    {
        if !contains_name(&self.available_epbs, epb) {
            return Err(ApplyError::EpbUnavailable);
        }
        let path = cpufreq_path(self.number, "energy_performance_bias");
        self.epb = Some(String::from_str(epb));
        Ok(Write { path, value: String::from_str(epb) })
    }

    /// Sets the minimum frequency. The write holds the frequency in
    /// kilohertz.
    pub fn set_frequency_mhz_minimum(&mut self, frequency_mhz: u64) -> (r: Result<
        Write,
        ApplyError,
    >)
        ensures
            match r {
                Ok(w) => {
                    &&& minimum_refusal(old(self).frequency_mhz_minimum, frequency_mhz).is_none()
                    &&& w.path@ == cpufreq_file(old(self).number, "scaling_min_freq"@)
                    &&& w.value@ == decimal((frequency_mhz * 1000) as nat)
                    &&& *final(self) == Cpu {
                        frequency_mhz_minimum: Some(frequency_mhz),
                        ..*old(self)
                    }
                },
                Err(e) => {
                    &&& minimum_refusal(old(self).frequency_mhz_minimum, frequency_mhz) == Some(e)
                    &&& *final(self) == *old(self)
                },
            },
    {
        if let Some(limit) = self.frequency_mhz_minimum {
            if frequency_mhz < limit {
                return Err(ApplyError::FrequencyBelowMinimum);
            }
        }
        if frequency_mhz > u64::MAX / 1000 {
            return Err(ApplyError::FrequencyTooLarge);
        }
        let path = cpufreq_path(self.number, "scaling_min_freq");
        let value = format_u64(frequency_mhz * 1000);
        self.frequency_mhz_minimum = Some(frequency_mhz);
        Ok(Write { path, value })
    }

    /// Sets the maximum frequency. The write holds the frequency in
    /// kilohertz.
    pub fn set_frequency_mhz_maximum(&mut self, frequency_mhz: u64) -> (r: Result<
        Write,
        ApplyError,
    >)
        ensures
            match r {
                Ok(w) => {
                    &&& maximum_refusal(old(self).frequency_mhz_maximum, frequency_mhz).is_none()
                    &&& w.path@ == cpufreq_file(old(self).number, "scaling_max_freq"@)
                    &&& w.value@ == decimal((frequency_mhz * 1000) as nat)
                    &&& *final(self) == Cpu {
                        frequency_mhz_maximum: Some(frequency_mhz),
                        ..*old(self)
                    }
                },
                Err(e) => {
                    &&& maximum_refusal(old(self).frequency_mhz_maximum, frequency_mhz) == Some(e)
                    &&& *final(self) == *old(self)
                },
            },
    {
        if let Some(limit) = self.frequency_mhz_maximum {
            if frequency_mhz > limit {
                return Err(ApplyError::FrequencyAboveMaximum);
            }
        }
        if frequency_mhz > u64::MAX / 1000 {
            return Err(ApplyError::FrequencyTooLarge);
        }
        let path = cpufreq_path(self.number, "scaling_max_freq");
        let value = format_u64(frequency_mhz * 1000);
        self.frequency_mhz_maximum = Some(frequency_mhz);
        Ok(Write { path, value })
    }
}

/// The text that switches a boost file: `"1"` switches turbo on.
pub open spec fn boost_value(on: bool) -> Seq<char> {
    if on {
        "1"@
    } else {
        "0"@
    }
}

/// The path and the value of the write to try after `failed` ways to
/// switch turbo have failed: first the switch of the Intel driver, whose
/// sense is inverted, then the two of the AMD driver, then the generic one,
/// then the boost file of each CPU in turn; `None` when nothing is left.
pub open spec fn turbo_attempt(on: bool, cpus: Seq<Cpu>, failed: nat) -> Option<
    (Seq<char>, Seq<char>),
> {
    if failed == 0 {
        Some((cpu_root() + "/intel_pstate/no_turbo"@, boost_value(!on)))
    } else if failed == 1 {
        Some((cpu_root() + "/amd_pstate/cpufreq/boost"@, boost_value(on)))
    } else if failed == 2 {
        Some((cpu_root() + "/cpufreq/amd_pstate_enable_boost"@, boost_value(on)))
    } else if failed == 3 {
        Some((cpu_root() + "/cpufreq/boost"@, boost_value(on)))
    } else if failed - 4 < cpus.len() {
        Some((cpufreq_file(cpus[failed - 4].number, "boost"@), boost_value(on)))
    } else {
        None
    }
}

/// What the two turbo switches say: the Intel switch, whose sense is
/// inverted, before the generic one.
pub open spec fn turbo_state(no_turbo: Option<u64>, boost: Option<u64>) -> Option<bool> {
    match no_turbo {
        Some(content) => Some(content == 0),
        None => match boost {
            Some(content) => Some(content == 1),
            None => None,
        },
    }
}

impl Cpu {
    /// The next write to try in order to switch turbo boost, after
    /// `failed` writes have failed; the first write that succeeds ends the
    /// attempt. Fails when every way has been tried.
    pub fn set_turbo(on: bool, cpus: &Vec<Cpu>, failed: usize) -> (r: Result<Write, ApplyError>)
        ensures
            match r {
                Ok(w) => turbo_attempt(on, cpus@, failed as nat) == Some((w.path@, w.value@)),
                Err(e) => e == ApplyError::NoTurboControl && turbo_attempt(
                    on,
                    cpus@,
                    failed as nat,
                ).is_none(),
            },
    {
        let value = if on {
            "1"
        } else {
            "0"
        };
        let negated = if on {
            "0"
        } else {
            "1"
        };
        if failed == 0 {
            let mut path = String::from_str("/sys/devices/system/cpu");
            path.append("/intel_pstate/no_turbo");
            Ok(Write { path, value: String::from_str(negated) })
        } else if failed == 1 {
            let mut path = String::from_str("/sys/devices/system/cpu");
            path.append("/amd_pstate/cpufreq/boost");
            Ok(Write { path, value: String::from_str(value) })
        } else if failed == 2 {
            let mut path = String::from_str("/sys/devices/system/cpu");
            path.append("/cpufreq/amd_pstate_enable_boost");
            Ok(Write { path, value: String::from_str(value) })
        } else if failed == 3 {
            let mut path = String::from_str("/sys/devices/system/cpu");
            path.append("/cpufreq/boost");
            Ok(Write { path, value: String::from_str(value) })
        } else if failed - 4 < cpus.len() {
            let path = cpufreq_path(cpus[failed - 4].number, "boost");
            Ok(Write { path, value: String::from_str(value) })
        } else {
            Err(ApplyError::NoTurboControl)
        }
    }

    /// Whether turbo boost is on, from the contents of the Intel switch
    /// and of the generic one, each absent where its file is.
    pub fn turbo(no_turbo: Option<u64>, boost: Option<u64>) -> (r: Option<bool>)
        ensures
            r == turbo_state(no_turbo, boost),
    {
        match no_turbo {
            Some(content) => Some(content == 0),
            None => match boost {
                Some(content) => Some(content == 1),
                None => None,
            },
        }
    }
}

/// What a scan reads of one CPU; a file that does not exist is `None`.
#[derive(Debug, PartialEq, Eq)]
pub struct CpuReadings {
    /// The directory of the CPU exists.
    pub exists: bool,
    /// The cpufreq directory of the CPU exists.
    pub has_cpufreq: bool,
    pub scaling_available_governors: Option<String>,
    pub scaling_governor: Option<String>,
    pub scaling_driver: Option<String>,
    /// In kilohertz.
    pub scaling_cur_freq: Option<u64>,
    /// In kilohertz.
    pub scaling_min_freq: Option<u64>,
    /// In kilohertz.
    pub scaling_max_freq: Option<u64>,
    pub energy_performance_available_preferences: Option<String>,
    pub energy_performance_preference: Option<String>,
    pub energy_performance_bias: Option<String>,
}

/// The time counters that the kernel reports for one CPU.
#[derive(Clone, Copy, Debug, PartialEq, Eq, Structural)]
pub struct CpuStatEntry {
    pub number: u32,
    pub stat: CpuStat,
}

/// The time counters that the words `fields` hold for a CPU: its number and
/// eight counters whose sum can be stored. Further words are ignored.
pub open spec fn stat_of_fields(fields: Seq<Seq<char>>) -> Option<CpuStatEntry> {
    if fields.len() < 9 {
        None
    } else {
        match (
            u32_of(fields[0]),
            u64_of(fields[1]),
            u64_of(fields[2]),
            u64_of(fields[3]),
            u64_of(fields[4]),
            u64_of(fields[5]),
            u64_of(fields[6]),
            u64_of(fields[7]),
            u64_of(fields[8]),
        ) {
            (
                Some(number),
                Some(user),
                Some(nice),
                Some(system),
                Some(idle),
                Some(iowait),
                Some(irq),
                Some(softirq),
                Some(steal),
            ) => {
                let stat = CpuStat { user, nice, system, idle, iowait, irq, softirq, steal };
                if stat.wf() {
                    Some(CpuStatEntry { number, stat })
                } else {
                    None
                }
            },
            _ => None,
        }
    }
}

/// The time counters of one line of the kernel's statistics: a line that
/// begins with `cpu` and goes on with the fields of [`stat_of_fields`].
pub open spec fn stat_of_line(line: Seq<char>) -> Option<CpuStatEntry> {
    if "cpu"@.is_prefix_of(line) {
        stat_of_fields(words(line.subrange(3, line.len() as int)))
    } else {
        None
    }
}

/// The time counters of the lines from `i` on.
pub open spec fn stats_of_lines(all: Seq<Seq<char>>, i: nat) -> Seq<CpuStatEntry>
    decreases all.len() - i,
{
    if i >= all.len() {
        Seq::empty()
    } else {
        match stat_of_line(all[i as int]) {
            Some(entry) => seq![entry] + stats_of_lines(all, i + 1),
            None => stats_of_lines(all, i + 1),
        }
    }
}

/// The time counters of each CPU in the kernel's statistics, whose first
/// line sums them up and is left out.
pub open spec fn stats_of(content: Seq<char>) -> Seq<CpuStatEntry> {
    stats_of_lines(lines(content), 1)
}

fn parse_stat_line(line: &str) -> (r: Option<CpuStatEntry>)
    ensures
        r == stat_of_line(line@),
{
    if !starts_with(line, "cpu") {
        return None;
    }
    proof {
        reveal_strlit("cpu");
        assert("cpu"@.len() == 3);
    }
    let chars = chars_of(line);
    assert(chars@.len() >= 3) by {
        assert("cpu"@.is_prefix_of(line@));
    }
    let rest = text_between(&chars, 3, chars.len());
    let fields = split_words(&rest);
    if fields.len() < 9 {
        return None;
    }
    let number = parse_digits(&fields[0]);
    let user = parse_digits(&fields[1]);
    let nice = parse_digits(&fields[2]);
    let system = parse_digits(&fields[3]);
    let idle = parse_digits(&fields[4]);
    let iowait = parse_digits(&fields[5]);
    let irq = parse_digits(&fields[6]);
    let softirq = parse_digits(&fields[7]);
    let steal = parse_digits(&fields[8]);
    match (number, user, nice, system, idle, iowait, irq, softirq, steal) {
        (
            Some(number),
            Some(user),
            Some(nice),
            Some(system),
            Some(idle),
            Some(iowait),
            Some(irq),
            Some(softirq),
            Some(steal),
        ) => {
            if number > u32::MAX as u64 {
                return None;
            }
            let stat = CpuStat { user, nice, system, idle, iowait, irq, softirq, steal };
            if stat.is_valid() {
                Some(CpuStatEntry { number: number as u32, stat })
            } else {
                None
            }
        },
        _ => None,
    }
}

/// The words of `chars`, each as its characters.
pub fn split_words(chars: &Vec<char>) -> (r: Vec<Vec<char>>)
    ensures
        r@.len() == words(chars@).len(),
        forall|i: int| 0 <= i < r@.len() ==> (#[trigger] r@[i])@ == words(chars@)[i],
{
    let mut out: Vec<Vec<char>> = Vec::new();
    let mut at: usize = 0;
    let ghost mut found: Seq<Seq<char>> = Seq::empty();
    assert(found + crate::text::words_from(chars@, 0) =~= crate::text::words_from(chars@, 0));
    while at < chars.len()
        invariant
            at <= chars@.len(),
            out@.len() == found.len(),
            forall|i: int| 0 <= i < out@.len() ==> (#[trigger] out@[i])@ == found[i],
            words(chars@) == found + crate::text::words_from(chars@, at as int),
        decreases chars.len() - at,
    {
        if crate::text::is_whitespace(chars[at]) {
            at += 1;
        } else {
            let mut end: usize = at;
            while end < chars.len() && !crate::text::is_whitespace(chars[end])
                invariant
                    at <= end <= chars@.len(),
                    crate::text::word_end(chars@, at as int) == crate::text::word_end(
                        chars@,
                        end as int,
                    ),
                decreases chars.len() - end,
            {
                end += 1;
            }
            proof {
                crate::text::lemma_skip_spaces_bounds(chars@, at as int);
            }
            let word = text_between(chars, at, end);
            let ghost rest = crate::text::words_from(chars@, end as int);
            proof {
                assert(found + (seq![word@] + rest) =~= (found + seq![word@]) + rest);
                found = found + seq![word@];
            }
            out.push(word);
            at = end;
        }
    }
    proof {
        assert(found + Seq::<Seq<char>>::empty() =~= found);
    }
    out
}

/// The time counters of each CPU, read from the contents of the kernel's
/// statistics.
pub fn parse_stat(content: &str) -> (r: Vec<CpuStatEntry>)
    ensures
        r@ == stats_of(content@),
{
    let all = split_lines(content);
    let mut out: Vec<CpuStatEntry> = Vec::new();
    if all.len() < 1 {
        return out;
    }
    let mut i: usize = 1;
    assert(out@ + stats_of_lines(texts(all@), 1) =~= stats_of_lines(texts(all@), 1));
    while i < all.len()
        invariant
            1 <= i <= all@.len(),
            texts(all@) == lines(content@),
            stats_of(content@) == out@ + stats_of_lines(texts(all@), i as nat),
        decreases all.len() - i,
    {
        let ghost before = out@;
        let ghost rest = stats_of_lines(texts(all@), (i + 1) as nat);
        assert(texts(all@)[i as int] == all@[i as int]@);
        match parse_stat_line(all[i].as_str()) {
            Some(entry) => {
                out.push(entry);
                assert(before + (seq![entry] + rest) =~= (before + seq![entry]) + rest);
            },
            None => {},
        }
        i += 1;
    }
    assert(out@ + Seq::<CpuStatEntry>::empty() =~= out@);
    out
}

/// The counters of each CPU that `entries` name: those of the last entry
/// where a CPU is named more than once.
pub open spec fn stat_map(entries: Seq<CpuStatEntry>) -> Map<u32, CpuStat>
    decreases entries.len(),
{
    if entries.len() == 0 {
        Map::empty()
    } else {
        stat_map(entries.drop_last()).insert(entries.last().number, entries.last().stat)
    }
}

/// The counters that `stats` holds for CPU `number`.
pub open spec fn stat_in(stats: Map<u32, CpuStat>, number: u32) -> Option<CpuStat> {
    if stats.contains_key(number) {
        Some(stats[number])
    } else {
        None
    }
}

/// What one scan reads once for all CPUs: the kernel's statistics, by the
/// number of the CPU.
#[derive(Debug, Default, PartialEq, Eq)]
pub struct CpuRescanCache {
    pub stat: HashMap<u32, CpuStat>,
}

impl CpuRescanCache {
    /// The cache of a scan, from the contents of the kernel's statistics.
    pub fn new(stat_content: &str) -> (r: CpuRescanCache)
        ensures
            r.stat@ == stat_map(stats_of(stat_content@)),
    {
        broadcast use vstd::std_specs::hash::group_hash_axioms;

        let entries = parse_stat(stat_content);
        let mut stat: HashMap<u32, CpuStat> = HashMap::new();
        let mut i: usize = 0;
        assert(entries@.subrange(0, 0) =~= Seq::<CpuStatEntry>::empty());
        while i < entries.len()
            invariant
                i <= entries@.len(),
                stat@ == stat_map(entries@.subrange(0, i as int)),
            decreases entries.len() - i,
        {
            assert(entries@.subrange(0, i + 1).drop_last() =~= entries@.subrange(0, i as int));
            stat.insert(entries[i].number, entries[i].stat);
            i += 1;
        }
        assert(entries@.subrange(0, i as int) =~= entries@);
        CpuRescanCache { stat }
    }

    /// The counters of CPU `number`, if the kernel reports any.
    pub fn stat_of(&self, number: u32) -> (r: Option<CpuStat>)
        ensures
            r == stat_in(self.stat@, number),
    {
        broadcast use vstd::std_specs::hash::group_hash_axioms;

        match self.stat.get(&number) {
            Some(stat) => Some(*stat),
            None => None,
        }
    }
}

/// The energy-performance biases that a CPU with a cpufreq interface
/// takes: the numbers 1 to 15 and the named aliases.
pub open spec fn epb_names() -> Seq<Seq<char>> {
    seq![
        "1"@,
        "2"@,
        "3"@,
        "4"@,
        "5"@,
        "6"@,
        "7"@,
        "8"@,
        "9"@,
        "10"@,
        "11"@,
        "12"@,
        "13"@,
        "14"@,
        "15"@,
        "performance"@,
        "balance-performance"@,
        "balance_performance"@,
        "balance-power"@,
        "balance_power"@,
        "power"@,
    ]
}

/// The energy-performance biases that a CPU with a cpufreq interface
/// takes.
pub fn epb_choices() -> (r: Vec<String>)
    ensures
        texts(r@) == epb_names(),
{
    let mut out: Vec<String> = Vec::new();
    out.push(String::from_str("1"));
    out.push(String::from_str("2"));
    out.push(String::from_str("3"));
    out.push(String::from_str("4"));
    out.push(String::from_str("5"));
    out.push(String::from_str("6"));
    out.push(String::from_str("7"));
    out.push(String::from_str("8"));
    out.push(String::from_str("9"));
    out.push(String::from_str("10"));
    out.push(String::from_str("11"));
    out.push(String::from_str("12"));
    out.push(String::from_str("13"));
    out.push(String::from_str("14"));
    out.push(String::from_str("15"));
    out.push(String::from_str("performance"));
    out.push(String::from_str("balance-performance"));
    out.push(String::from_str("balance_performance"));
    out.push(String::from_str("balance-power"));
    out.push(String::from_str("balance_power"));
    out.push(String::from_str("power"));
    assert(texts(out@) =~= epb_names());
    out
}

/// The words of a file that may be absent.
pub open spec fn words_of(content: Option<String>) -> Seq<Seq<char>> {
    match content {
        Some(c) => words(c@),
        None => Seq::empty(),
    }
}

/// `khz` kilohertz in whole megahertz.
pub open spec fn megahertz_of(khz: Option<u64>) -> Option<u64> {
    match khz {
        Some(k) => Some(k / 1000),
        None => None,
    }
}

/// Why the readings of a CPU are refused, if they are: the first of the
/// things a CPU must have that is missing.
pub open spec fn scan_refusal(
    readings: CpuReadings,
    stat: Option<CpuStat>,
) -> Option<ScanError> {
    if !readings.exists {
        Some(ScanError::CpuMissing)
    } else if readings.has_cpufreq && readings.scaling_governor.is_none() {
        Some(ScanError::GovernorMissing)
    } else if readings.has_cpufreq && (readings.scaling_cur_freq.is_none()
        || readings.scaling_min_freq.is_none() || readings.scaling_max_freq.is_none()) {
        Some(ScanError::FrequencyMissing)
    } else if readings.has_cpufreq && readings.energy_performance_preference.is_none() {
        Some(ScanError::EppMissing)
    } else if readings.has_cpufreq && readings.energy_performance_bias.is_none() {
        Some(ScanError::EpbMissing)
    } else if stat.is_none() {
        Some(ScanError::StatMissing)
    } else {
        None
    }
}

/// `cpu` is what the readings show: with a cpufreq interface, what its
/// files hold; without one, no governor, preference, bias or frequency, and
/// nothing on offer.
pub open spec fn cpu_scanned(cpu: Cpu, number: u32, readings: CpuReadings, stat: CpuStat) -> bool {
    &&& cpu.number == number
    &&& cpu.has_cpufreq == readings.has_cpufreq
    &&& cpu.stat == stat
    &&& if readings.has_cpufreq {
        &&& texts(cpu.available_governors@) == words_of(readings.scaling_available_governors)
        &&& cpu.governor == readings.scaling_governor
        &&& cpu.driver == readings.scaling_driver
        &&& cpu.frequency_mhz == megahertz_of(readings.scaling_cur_freq)
        &&& cpu.frequency_mhz_minimum == megahertz_of(readings.scaling_min_freq)
        &&& cpu.frequency_mhz_maximum == megahertz_of(readings.scaling_max_freq)
        &&& texts(cpu.available_epps@) == words_of(
            readings.energy_performance_available_preferences,
        )
        &&& cpu.epp == readings.energy_performance_preference
        &&& texts(cpu.available_epbs@) == epb_names()
        &&& cpu.epb == readings.energy_performance_bias
    } else {
        &&& cpu.available_governors@.len() == 0
        &&& cpu.governor.is_none()
        &&& cpu.driver.is_none()
        &&& cpu.frequency_mhz.is_none()
        &&& cpu.frequency_mhz_minimum.is_none()
        &&& cpu.frequency_mhz_maximum.is_none()
        &&& cpu.available_epps@.len() == 0
        &&& cpu.epp.is_none()
        &&& cpu.available_epbs@.len() == 0
        &&& cpu.epb.is_none()
    }
}

fn words_or_none(content: &Option<String>) -> (r: Vec<String>)
    ensures
        texts(r@) == words_of(*content),
{
    match content {
        Some(c) => split_whitespace(c.as_str()),
        None => {
            let none: Vec<String> = Vec::new();
            assert(texts(none@) =~= Seq::<Seq<char>>::empty());
            none
        },
    }
}

fn to_megahertz(khz: Option<u64>) -> (r: Option<u64>)
    ensures
        r == megahertz_of(khz),
{
    match khz {
        Some(k) => Some(k / 1000),
        None => None,
    }
}

impl Cpu {
    /// Takes what a scan has read of this CPU, and its time counters from
    /// `cache`. Readings that lack what a CPU must have are refused, and
    /// nothing changes. The temperature stays as it was.
    pub fn rescan(&mut self, readings: CpuReadings, cache: &CpuRescanCache) -> (r: Result<
        (),
        ScanError,
    >)
        ensures
            match r {
                Ok(_) => {
                    &&& scan_refusal(
                        readings,
                        stat_in(cache.stat@, old(self).number),
                    ).is_none()
                    &&& cpu_scanned(
                        *final(self),
                        old(self).number,
                        readings,
                        stat_in(cache.stat@, old(self).number).unwrap(),
                    )
                    &&& final(self).temperature == old(self).temperature
                    &&& final(self).wf()
                },
                Err(e) => {
                    &&& scan_refusal(readings, stat_in(cache.stat@, old(self).number))
                        == Some(e)
                    &&& *final(self) == *old(self)
                },
            },
    {
        if !readings.exists {
            return Err(ScanError::CpuMissing);
        }
        if readings.has_cpufreq {
            if readings.scaling_governor.is_none() {
                return Err(ScanError::GovernorMissing);
            }
            if readings.scaling_cur_freq.is_none() || readings.scaling_min_freq.is_none()
                || readings.scaling_max_freq.is_none() {
                return Err(ScanError::FrequencyMissing);
            }
            if readings.energy_performance_preference.is_none() {
                return Err(ScanError::EppMissing);
            }
            if readings.energy_performance_bias.is_none() {
                return Err(ScanError::EpbMissing);
            }
        }
        let stat = match cache.stat_of(self.number) {
            Some(stat) => stat,
            None => {
                return Err(ScanError::StatMissing);
            },
        };
        self.has_cpufreq = readings.has_cpufreq;
        self.stat = stat;
        if readings.has_cpufreq {
            self.available_governors = words_or_none(&readings.scaling_available_governors);
            self.available_epps = words_or_none(
                &readings.energy_performance_available_preferences,
            );
            self.available_epbs = epb_choices();
            self.governor = readings.scaling_governor;
            self.driver = readings.scaling_driver;
            self.frequency_mhz = to_megahertz(readings.scaling_cur_freq);
            self.frequency_mhz_minimum = to_megahertz(readings.scaling_min_freq);
            self.frequency_mhz_maximum = to_megahertz(readings.scaling_max_freq);
            self.epp = readings.energy_performance_preference;
            self.epb = readings.energy_performance_bias;
        } else {
            self.available_governors = Vec::new();
            self.available_epps = Vec::new();
            self.available_epbs = Vec::new();
            self.governor = None;
            self.driver = None;
            self.frequency_mhz = None;
            self.frequency_mhz_minimum = None;
            self.frequency_mhz_maximum = None;
            self.epp = None;
            self.epb = None;
        }
        Ok(())
    }

    /// CPU `number` as a scan shows it.
    pub fn scanned(number: u32, readings: CpuReadings, cache: &CpuRescanCache) -> (r: Result<
        Cpu,
        ScanError,
    >)
        ensures
            match r {
                Ok(cpu) => {
                    &&& scan_refusal(readings, stat_in(cache.stat@, number)).is_none()
                    &&& cpu_scanned(
                        cpu,
                        number,
                        readings,
                        stat_in(cache.stat@, number).unwrap(),
                    )
                    &&& cpu.temperature.is_none()
                    &&& cpu.wf()
                },
                Err(e) => scan_refusal(readings, stat_in(cache.stat@, number)) == Some(
                    e,
                ),
            },
    {
        let mut cpu = Cpu::new(number);
        match cpu.rescan(readings, cache) {
            Ok(_) => Ok(cpu),
            Err(e) => Err(e),
        }
    }
}

/// The number of the CPU that an entry of the directory of CPUs stands
/// for: `cpu` and a number.
pub open spec fn entry_number(name: Seq<char>) -> Option<u32> {
    if "cpu"@.is_prefix_of(name) {
        u32_of(name.subrange(3, name.len() as int))
    } else {
        None
    }
}

/// The numbers of the CPUs among the entries from `i` on.
pub open spec fn entry_numbers(names: Seq<Seq<char>>, i: nat) -> Seq<u32>
    decreases names.len() - i,
{
    if i >= names.len() {
        Seq::empty()
    } else {
        match entry_number(names[i as int]) {
            Some(number) => seq![number] + entry_numbers(names, i + 1),
            None => entry_numbers(names, i + 1),
        }
    }
}

/// The numbers from zero up to `count`, as far as they are CPU numbers.
pub open spec fn first_numbers(count: nat) -> Seq<u32> {
    Seq::new(
        if count > u32::MAX {
            u32::MAX as nat
        } else {
            count
        },
        |i: int| i as u32,
    )
}

/// The number of the CPU that an entry of the directory of CPUs stands
/// for.
pub fn number_of_entry(name: &str) -> (r: Option<u32>)
    ensures
        r == entry_number(name@),
{
    if !starts_with(name, "cpu") {
        return None;
    }
    proof {
        reveal_strlit("cpu");
        assert("cpu"@.len() == 3);
    }
    let chars = chars_of(name);
    assert(chars@.len() >= 3) by {
        assert("cpu"@.is_prefix_of(name@));
    }
    let rest = text_between(&chars, 3, chars.len());
    match parse_digits(&rest) {
        Some(v) => if v <= u32::MAX as u64 {
            Some(v as u32)
        } else {
            None
        },
        None => None,
    }
}

/// The numbers of the CPUs: those found, or, where none was found, the
/// numbers from zero up to the count of logical CPUs.
pub fn numbers_or_count(found: Vec<u32>, count: usize) -> (r: Vec<u32>)
    ensures
        found@.len() > 0 ==> r@ == found@,
        found@.len() == 0 ==> r@ == first_numbers(count as nat),
{
    if found.len() > 0 {
        return found;
    }
    let limit: u32 = if count > u32::MAX as usize {
        u32::MAX
    } else {
        count as u32
    };
    let mut out: Vec<u32> = Vec::new();
    let mut n: u32 = 0;
    while n < limit
        invariant
            n <= limit,
            out@ == Seq::new(n as nat, |i: int| i as u32),
        decreases limit - n,
    {
        out.push(n);
        assert(out@ =~= Seq::new((n + 1) as nat, |i: int| i as u32));
        n += 1;
    }
    out
}

/// `num_cpus::get` of the crate `num_cpus`: the number of logical CPUs that
/// this process may use. It depends on the machine; believed, not proved, is
/// what the crate documents of every outcome: the count is at least one.
#[verifier::external_body]
fn logical_cpu_count() -> (r: usize)
    ensures
        r >= 1,
{
    num_cpus::get()
}

impl Cpu {
    /// The numbers of all CPUs: those that the entries of the directory of
    /// CPUs name, in their order; or, where they name none, the numbers from
    /// zero up to the count of logical CPUs that the system reports.
    pub fn all(entries: &Vec<String>) -> (r: Vec<u32>)
        ensures
            entry_numbers(texts(entries@), 0).len() > 0 ==> r@ == entry_numbers(
                texts(entries@),
                0,
            ),
            entry_numbers(texts(entries@), 0).len() == 0 ==> exists|count: nat|
                count >= 1 && r@ == first_numbers(count),
            r@.len() >= 1,
    {
        let mut found: Vec<u32> = Vec::new();
        let mut i: usize = 0;
        assert(found@ + entry_numbers(texts(entries@), 0) =~= entry_numbers(texts(entries@), 0));
        while i < entries.len()
            invariant
                i <= entries@.len(),
                entry_numbers(texts(entries@), 0) == found@ + entry_numbers(
                    texts(entries@),
                    i as nat,
                ),
            decreases entries.len() - i,
        {
            let ghost before = found@;
            let ghost rest = entry_numbers(texts(entries@), (i + 1) as nat);
            assert(texts(entries@)[i as int] == entries@[i as int]@);
            match number_of_entry(entries[i].as_str()) {
                Some(number) => {
                    found.push(number);
                    assert(before + (seq![number] + rest) =~= (before + seq![number]) + rest);
                },
                None => {},
            }
            i += 1;
        }
        assert(found@ + Seq::<u32>::empty() =~= found@);
        if found.len() > 0 {
            found
        } else {
            let count = logical_cpu_count();
            numbers_or_count(found, count)
        }
    }
}

/// The position of the first colon at or after `from`, or the length of
/// `s`.
pub open spec fn colon_position(s: Seq<char>, from: int) -> int
    decreases s.len() - from,
{
    if from < 0 || from >= s.len() || s[from] == ':' {
        from
    } else {
        colon_position(s, from + 1)
    }
}

/// The model that a line of the kernel's description of the CPUs names: a
/// line that begins with `model name` names what follows its first colon,
/// trimmed, up to the next colon.
pub open spec fn model_of_line(line: Seq<char>) -> Option<Seq<char>> {
    let colon = colon_position(line, 0);
    if !"model name"@.is_prefix_of(line) || colon >= line.len() {
        None
    } else {
        Some(
            crate::text::trimmed(line.subrange(colon + 1, colon_position(line, colon + 1))),
        )
    }
}

/// The model of the first line from `i` on that names one.
pub open spec fn model_of_lines(all: Seq<Seq<char>>, i: nat) -> Option<Seq<char>>
    decreases all.len() - i,
{
    if i >= all.len() {
        None
    } else {
        match model_of_line(all[i as int]) {
            Some(model) => Some(model),
            None => model_of_lines(all, i + 1),
        }
    }
}

fn find_colon(chars: &Vec<char>, from: usize) -> (r: usize)
    requires
        from <= chars@.len(),
    ensures
        r == colon_position(chars@, from as int),
        from <= r <= chars@.len(),
{
    let mut i: usize = from;
    while i < chars.len() && chars[i] != ':'
        invariant
            from <= i <= chars@.len(),
            colon_position(chars@, from as int) == colon_position(chars@, i as int),
        decreases chars.len() - i,
    {
        i += 1;
    }
    i
}

fn model_in_line(line: &str) -> (r: Option<String>)
    ensures
        match r {
            Some(model) => model_of_line(line@) == Some(model@),
            None => model_of_line(line@).is_none(),
        },
{
    if !starts_with(line, "model name") {
        return None;
    }
    let chars = chars_of(line);
    let colon = find_colon(&chars, 0);
    if colon >= chars.len() {
        return None;
    }
    let end = find_colon(&chars, colon + 1);
    Some(crate::text::trim(line.substring_char(colon + 1, end)))
}

/// The model of the CPU, from the contents of the kernel's description of
/// the CPUs: what the first line that begins with `model name` names.
pub fn get_cpu_model(content: &str) -> (r: Option<String>)
    ensures
        match r {
            Some(model) => model_of_lines(lines(content@), 0) == Some(model@),
            None => model_of_lines(lines(content@), 0).is_none(),
        },
{
    let all = split_lines(content);
    let mut i: usize = 0;
    while i < all.len()
        invariant
            i <= all@.len(),
            texts(all@) == lines(content@),
            model_of_lines(lines(content@), 0) == model_of_lines(texts(all@), i as nat),
        decreases all.len() - i,
    {
        assert(texts(all@)[i as int] == all@[i as int]@);
        match model_in_line(all[i].as_str()) {
            Some(model) => {
                return Some(model);
            },
            None => {},
        }
        i += 1;
    }
    None
}

} // verus!
