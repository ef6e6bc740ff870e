//! The daemon's state from tick to tick: the last scan of the system, the
//! telemetry rings, and the last delay.
//!
//! The daemon itself performs no input or output. Each tick it is handed a
//! fresh scan and the instant of the scan; it records the samples, derives
//! the state that the rules are evaluated against, folds the rules, and says
//! how long to wait.

use std::collections::HashMap;
use vstd::prelude::*;
use vstd::std_specs::iter::IteratorSpec;
use crate::apply::{plan_of, progress_of, system_settled, ApplyPlan};
use crate::config::{DaemonConfig, RuleError};
use crate::cpu::{Cpu, CpuStat};
use crate::engine::{cpu_position, decide, find_cpu, Decision, DecisionView};
use crate::expression::{EvalContext, EvalState};
use crate::history::{
    appended, cpu_idle, discharge_rate_of, volatility_of, CpuLog, CpuVolatility, History,
    PowerSupplyLog,
};
use crate::number::{mean, mean_of, micros_of, round_div, total, Fixed, SCALE};
use crate::poll::{next_delay, polling_delay, PollSignals, MAX_DELAY_MS, MIN_DELAY_MS};
use crate::power_supply::PowerSupply;
use crate::system::System;
use crate::text::{str_eq, texts};

verus! {

/// What a scan finds besides the CPUs and the power supplies.
#[derive(Debug, PartialEq, Eq)]
pub struct Ambient {
    pub turbo_available: bool,
    pub lid_closed: bool,
    /// 0 to 23.
    pub hour_of_day: u8,
    /// The highest frequency the hardware reaches, in MHz.
    pub cpu_frequency_maximum: Option<Fixed>,
    /// The lowest frequency the hardware reaches, in MHz.
    pub cpu_frequency_minimum: Option<Fixed>,
    pub battery_cycles: Option<Fixed>,
    /// Between 0 and 1.
    pub battery_health: Option<Fixed>,
    pub platform_profiles: Vec<String>,
}

/// The usage of `cpu` since the scan `previous`: measured against the
/// counters that `previous` holds for the CPU of the same number, or against
/// zero where it holds none.
pub open spec fn usage_of(previous: Seq<Cpu>, cpu: Cpu) -> int {
    match cpu_position(previous, cpu.number as int, 0) {
        Some(i) => CpuStat::usage_between(previous[i as int].stat, cpu.stat),
        None => CpuStat::usage_between(
            CpuStat {
                user: 0,
                nice: 0,
                system: 0,
                idle: 0,
                iowait: 0,
                irq: 0,
                softirq: 0,
                steal: 0,
            },
            cpu.stat,
        ),
    }
}

/// The usage of each CPU of `cpus` since the scan `previous`.
pub open spec fn usages_of(previous: Seq<Cpu>, cpus: Seq<Cpu>) -> Seq<int> {
    cpus.map_values(|c: Cpu| usage_of(previous, c))
}

/// Adds the temperature that `readings` holds for a core to a sum, in
/// millionths of a degree.
pub open spec fn add_reading(readings: Map<u32, Fixed>) -> spec_fn(int, u32) -> int {
    |sum: int, core: u32| sum + readings[core]@
}

/// The sum of the temperatures that `readings` holds, in millionths of a
/// degree.
pub open spec fn temperature_total(readings: Map<u32, Fixed>) -> int {
    readings.dom().fold(0int, add_reading(readings))
}

/// The mean of the temperatures that `readings` holds, rounded to the
/// nearest millionth of a degree; zero where it holds none.
pub open spec fn temperature_mean(readings: Map<u32, Fixed>) -> int {
    if readings.len() == 0 {
        0
    } else {
        round_div(temperature_total(readings), readings.len() as int)
    }
}

/// The charges that the power supplies from `i` on report.
pub open spec fn charges_of(supplies: Seq<PowerSupply>, i: nat) -> Seq<int>
    decreases supplies.len() - i,
{
    if i >= supplies.len() {
        Seq::empty()
    } else {
        match supplies[i as int].charge_percent {
            Some(charge) => seq![charge@] + charges_of(supplies, i + 1),
            None => charges_of(supplies, i + 1),
        }
    }
}

/// The CPU sample of a scan taken at `now`: the mean usage of the CPUs
/// since the scan before, and the mean of the temperatures.
pub open spec fn cpu_sample(previous: Seq<Cpu>, system: System, now: u64) -> CpuLog {
    CpuLog {
        at: now,
        usage: Fixed { micros: mean(usages_of(previous, system.cpus@)) as i64 },
        temperature: Fixed { micros: temperature_mean(system.cpu_temperatures@) as i64 },
    }
}

/// The power-supply sample of a scan taken at `now`: the mean of the
/// charges reported, or none where no power supply reports a charge.
pub open spec fn power_sample(system: System, now: u64) -> Option<PowerSupplyLog> {
    let charges = charges_of(system.power_supplies@, 0);
    if charges.len() == 0 {
        None
    } else {
        Some(PowerSupplyLog { at: now, charge: Fixed { micros: mean(charges) as i64 } })
    }
}

/// `true` when `supply` reports that it is discharging.
pub open spec fn reports_discharge(supply: PowerSupply) -> bool {
    match supply.charge_state {
        Some(s) => s@ == "Discharging"@,
        None => false,
    }
}

/// `true` when some power supply reports that it is discharging.
pub open spec fn any_discharging(supplies: Seq<PowerSupply>) -> bool {
    exists|i: int| 0 <= i < supplies.len() && reports_discharge(#[trigger] supplies[i])
}

/// The highest scaling maximum among the CPUs from `i` on, at least `best`.
pub open spec fn highest_scaling(cpus: Seq<Cpu>, i: nat, best: Option<u64>) -> Option<u64>
    decreases cpus.len() - i,
{
    if i >= cpus.len() {
        best
    } else {
        let next = match (cpus[i as int].frequency_mhz_maximum, best) {
            (Some(f), Some(b)) => if f > b {
                Some(f)
            } else {
                Some(b)
            },
            (Some(f), None) => Some(f),
            (None, b) => b,
        };
        highest_scaling(cpus, i + 1, next)
    }
}

/// `true` when some CPU has a cpufreq interface.
pub open spec fn any_cpufreq(cpus: Seq<Cpu>) -> bool {
    exists|i: int| 0 <= i < cpus.len() && (#[trigger] cpus[i]).has_cpufreq
}

/// `units` whole units as a number, or the largest number where it is too
/// large.
pub open spec fn whole(units: int) -> Fixed {
    if units * SCALE > i64::MAX {
        Fixed { micros: i64::MAX }
    } else {
        Fixed { micros: (units * SCALE) as i64 }
    }
}

/// `thousandths` thousandths as a number, or the largest number where it is
/// too large.
pub open spec fn from_thousandths(thousandths: int) -> Fixed {
    if thousandths * 1000 > i64::MAX {
        Fixed { micros: i64::MAX }
    } else {
        Fixed { micros: (thousandths * 1000) as i64 }
    }
}

fn whole_number(units: u64) -> (r: Fixed)
    ensures
        r == whole(units as int),
{
    if units > 9_223_372_036_854 {
        Fixed { micros: i64::MAX }
    } else {
        Fixed { micros: (units * 1_000_000) as i64 }
    }
}

fn thousandths_number(thousandths: u64) -> (r: Fixed)
    ensures
        r == from_thousandths(thousandths as int),
{
    if thousandths > 9_223_372_036_854_775 {
        Fixed { micros: i64::MAX }
    } else {
        Fixed { micros: (thousandths * 1000) as i64 }
    }
}

/// What the poll controller looks at, at `now`.
pub open spec fn poll_signals(
    system: System,
    history: History,
    last_activity: u64,
    previous: Option<u64>,
    now: u64,
) -> PollSignals {
    PollSignals {
        discharging: any_discharging(system.power_supplies@),
        discharge_rate: discharge_rate_of(history.power_samples()),
        cpu_idle: cpu_idle(history.cpu_samples(), now as int),
        idle_for_ms: if now >= last_activity {
            (now - last_activity) as u64
        } else {
            0
        },
        volatility: volatility_of(history.cpu_samples(), now as int),
        previous_ms: previous,
    }
}

/// The usage of the newest CPU sample, or zero before the first sample.
pub open spec fn latest_usage(samples: Seq<CpuLog>) -> Fixed {
    if samples.len() == 0 {
        Fixed { micros: 0 }
    } else {
        samples.last().usage
    }
}

/// The temperature of the newest CPU sample, or zero before the first
/// sample.
pub open spec fn latest_temperature(samples: Seq<CpuLog>) -> Fixed {
    if samples.len() == 0 {
        Fixed { micros: 0 }
    } else {
        samples.last().temperature
    }
}

/// The charge of the newest power-supply sample, if there is one.
pub open spec fn latest_charge(samples: Seq<PowerSupplyLog>) -> Option<Fixed> {
    if samples.len() == 0 {
        None
    } else {
        Some(samples.last().charge)
    }
}

/// The usage part of a volatility.
pub open spec fn usage_part(volatility: Option<CpuVolatility>) -> Option<Fixed> {
    match volatility {
        Some(v) => Some(v.usage),
        None => None,
    }
}

/// The temperature part of a volatility.
pub open spec fn temperature_part(volatility: Option<CpuVolatility>) -> Option<Fixed> {
    match volatility {
        Some(v) => Some(v.temperature),
        None => None,
    }
}

/// `mhz` megahertz as a number.
pub open spec fn megahertz(mhz: Option<u64>) -> Option<Fixed> {
    match mhz {
        Some(f) => Some(whole(f as int)),
        None => None,
    }
}

/// The state that the rules are evaluated against: what the scan, the
/// rings and the surroundings show at `now`, in the widest context.
pub open spec fn eval_state_of<'a>(
    system: &'a System,
    history: &'a History,
    last_activity: u64,
    ambient: &'a Ambient,
    now: u64,
) -> EvalState<'a> {
    EvalState {
        frequency_available: any_cpufreq(system.cpus@),
        turbo_available: ambient.turbo_available,
        discharging: any_discharging(system.power_supplies@),
        lid_closed: ambient.lid_closed,
        cpu_usage: latest_usage(history.cpu_samples()),
        cpu_usage_volatility: usage_part(volatility_of(history.cpu_samples(), now as int)),
        cpu_temperature: latest_temperature(history.cpu_samples()),
        cpu_temperature_volatility: temperature_part(
            volatility_of(history.cpu_samples(), now as int),
        ),
        cpu_idle_seconds: from_thousandths(
            if now >= last_activity {
                now - last_activity
            } else {
                0
            },
        ),
        cpu_frequency_maximum: ambient.cpu_frequency_maximum,
        cpu_frequency_minimum: ambient.cpu_frequency_minimum,
        cpu_scaling_maximum: megahertz(highest_scaling(system.cpus@, 0, None)),
        cpu_core_count: whole(system.cpus@.len() as int),
        load_average_1m: system.load_average_1min,
        load_average_5m: system.load_average_5min,
        load_average_15m: system.load_average_15min,
        hour_of_day: whole(ambient.hour_of_day as int),
        power_supply_charge: latest_charge(history.power_samples()),
        power_supply_discharge_rate: discharge_rate_of(history.power_samples()),
        battery_cycles: ambient.battery_cycles,
        battery_health: ambient.battery_health,
        now,
        history,
        cpus: &system.cpus,
        power_supplies: &system.power_supplies,
        platform_profiles: &ambient.platform_profiles,
        context: EvalContext::WidestPossible,
    }
}

/// `true` when some CPU of `cpus` has a cpufreq interface.
pub fn has_cpufreq(cpus: &Vec<Cpu>) -> (r: bool)
    ensures
        r == any_cpufreq(cpus@),
{
    let mut i: usize = 0;
    while i < cpus.len()
        invariant
            i <= cpus@.len(),
            forall|k: int| 0 <= k < i ==> !(#[trigger] cpus@[k]).has_cpufreq,
        decreases cpus.len() - i,
    {
        if cpus[i].has_cpufreq {
            return true;
        }
        i += 1;
    }
    false
}

/// The highest scaling maximum among `cpus`, in MHz.
pub fn scaling_maximum(cpus: &Vec<Cpu>) -> (r: Option<u64>)
    ensures
        r == highest_scaling(cpus@, 0, None),
{
    let mut best: Option<u64> = None;
    let mut i: usize = 0;
    while i < cpus.len()
        invariant
            i <= cpus@.len(),
            highest_scaling(cpus@, 0, None) == highest_scaling(cpus@, i as nat, best),
        decreases cpus.len() - i,
    {
        best = match (cpus[i].frequency_mhz_maximum, best) {
            (Some(f), Some(b)) => if f > b {
                Some(f)
            } else {
                Some(b)
            },
            (Some(f), None) => Some(f),
            (None, b) => b,
        };
        i += 1;
    }
    best
}

/// What a tick yields.
#[derive(Debug)]
pub struct Tick {
    /// How long to wait before the next tick, counted from `now`.
    pub delay_ms: u64,
    /// What to write, or why the rules failed.
    pub decision: Result<Decision, RuleError>,
}

/// The decision that a result stands for.
pub open spec fn decision_view(r: Result<Decision, RuleError>) -> Result<DecisionView, RuleError> {
    match r {
        Ok(d) => Ok(d@),
        Err(e) => Err(e),
    }
}

/// The state of the daemon.
#[derive(Debug)]
pub struct Daemon {
    last_user_activity: u64,
    last_polling_delay: Option<u64>,
    system: System,
    history: History,
}

impl Daemon {
    /// The telemetry rings are well-formed.
    pub closed spec fn wf(&self) -> bool {
        self.history.wf()
    }

    /// The last scan.
    pub closed spec fn system(&self) -> System {
        self.system
    }

    /// The telemetry rings.
    pub closed spec fn history(&self) -> History {
        self.history
    }

    /// The delay of the previous tick.
    pub closed spec fn last_delay(&self) -> Option<u64> {
        self.last_polling_delay
    }

    /// The instant of the last user activity.
    pub closed spec fn last_activity(&self) -> u64 {
        self.last_user_activity
    }

    /// What the poll controller looks at, at `now`.
    pub open spec fn signals(&self, now: u64) -> PollSignals {
        poll_signals(
            self.system(),
            self.history(),
            self.last_activity(),
            self.last_delay(),
            now,
        )
    }

    /// The state that the rules are evaluated against at `now`, in the
    /// widest context.
    pub open spec fn state_at<'a>(&'a self, ambient: &'a Ambient, now: u64) -> EvalState<'a> {
        eval_state_of(&self.system(), &self.history(), self.last_activity(), ambient, now)
    }

    /// A daemon started at `now` with the first scan, before any sample.
    pub fn new(system: System, now: u64) -> (r: Daemon)
        ensures
            r.wf(),
            r.system() == system,
            r.last_delay().is_none(),
            r.last_activity() == now,
            r.history().cpu_samples() == Seq::<CpuLog>::empty(),
            r.history().power_samples() == Seq::<PowerSupplyLog>::empty(),
    {
        Daemon {
            last_user_activity: now,
            last_polling_delay: None,
            system,
            history: History::new(),
        }
    }

    /// The last scan.
    pub fn last_scan(&self) -> (r: &System)
        ensures
            *r == self.system(),
    {
        &self.system
    }

    /// The telemetry rings.
    pub fn telemetry(&self) -> (r: &History)
        requires
            self.wf(),
        ensures
            *r == self.history(),
            r.wf(),
    {
        &self.history
    }

    /// Notes that the user was active at `now`.
    pub fn note_user_activity(&mut self, now: u64)
        requires
            old(self).wf(),
        ensures
            final(self).wf(),
            final(self).last_activity() == now,
            final(self).system() == old(self).system(),
            final(self).history() == old(self).history(),
            final(self).last_delay() == old(self).last_delay(),
    {
        self.last_user_activity = now;
    }

    /// Takes the scan `system`, made at `now`, and appends its samples to
    /// the rings. The usage of a CPU is measured over the time since the scan
    /// before.
    pub fn rescan(&mut self, system: System, now: u64)
        requires
            old(self).wf(),
        ensures
            final(self).wf(),
            final(self).system() == system,
            final(self).last_delay() == old(self).last_delay(),
            final(self).last_activity() == old(self).last_activity(),
            final(self).history().cpu_samples() == appended(
                old(self).history().cpu_samples(),
                cpu_sample(old(self).system().cpus@, system, now),
            ),
            final(self).history().power_samples() == match power_sample(system, now) {
                Some(sample) => appended(old(self).history().power_samples(), sample),
                None => old(self).history().power_samples(),
            },
    {
        let usage = mean_usage_since(&self.system.cpus, &system.cpus);
        let temperature = mean_temperature(&system.cpu_temperatures);
        self.history.record_cpu(CpuLog { at: now, usage, temperature });
        match mean_charge(&system.power_supplies) {
            Some(charge) => {
                self.history.record_power_supply(PowerSupplyLog { at: now, charge });
            },
            None => {},
        }
        self.system = system;
    }

    /// The state that the rules are evaluated against at `now`.
    pub fn eval_state<'a>(&'a self, ambient: &'a Ambient, now: u64) -> (r: EvalState<'a>)
        requires
            self.wf(),
        ensures
            r == self.state_at(ambient, now),
            r.wf(),
    {
        let volatility = self.history.cpu_volatility(now);
        let (usage, temperature) = match self.history.last_cpu() {
            Some(sample) => (sample.usage, sample.temperature),
            None => (Fixed { micros: 0 }, Fixed { micros: 0 }),
        };
        let charge = match self.history.last_power_supply() {
            Some(sample) => Some(sample.charge),
            None => None,
        };
        let idle_for_ms: u64 = if now >= self.last_user_activity {
            now - self.last_user_activity
        } else {
            0
        };
        EvalState {
            frequency_available: has_cpufreq(&self.system.cpus),
            turbo_available: ambient.turbo_available,
            discharging: is_discharging(&self.system.power_supplies),
            lid_closed: ambient.lid_closed,
            cpu_usage: usage,
            cpu_usage_volatility: match volatility {
                Some(v) => Some(v.usage),
                None => None,
            },
            cpu_temperature: temperature,
            cpu_temperature_volatility: match volatility {
                Some(v) => Some(v.temperature),
                None => None,
            },
            cpu_idle_seconds: thousandths_number(idle_for_ms),
            cpu_frequency_maximum: ambient.cpu_frequency_maximum,
            cpu_frequency_minimum: ambient.cpu_frequency_minimum,
            cpu_scaling_maximum: match scaling_maximum(&self.system.cpus) {
                Some(f) => Some(whole_number(f)),
                None => None,
            },
            cpu_core_count: whole_number(self.system.cpus.len() as u64),
            load_average_1m: self.system.load_average_1min,
            load_average_5m: self.system.load_average_5min,
            load_average_15m: self.system.load_average_15min,
            hour_of_day: whole_number(ambient.hour_of_day as u64),
            power_supply_charge: charge,
            power_supply_discharge_rate: self.history.power_supply_discharge_rate(),
            battery_cycles: ambient.battery_cycles,
            battery_health: ambient.battery_health,
            now,
            history: &self.history,
            cpus: &self.system.cpus,
            power_supplies: &self.system.power_supplies,
            platform_profiles: &ambient.platform_profiles,
            context: EvalContext::WidestPossible,
        }
    }

    /// One tick: takes the scan made at `now`, records its samples, works
    /// out the delay before the next tick, and folds the rules of `config`
    /// against the new state. The delay does not depend on what the rules
    /// decide, nor on whether they fail.
    pub fn tick(&mut self, config: &DaemonConfig, system: System, ambient: &Ambient, now: u64) -> (r:
        Tick)
        requires
            old(self).wf(),
            config.wf(),
        ensures
            final(self).wf(),
            final(self).system() == system,
            final(self).last_activity() == old(self).last_activity(),
            final(self).history().cpu_samples() == appended(
                old(self).history().cpu_samples(),
                cpu_sample(old(self).system().cpus@, system, now),
            ),
            final(self).history().power_samples() == match power_sample(system, now) {
                Some(sample) => appended(old(self).history().power_samples(), sample),
                None => old(self).history().power_samples(),
            },
            r.delay_ms == next_delay(
                poll_signals(
                    system,
                    final(self).history(),
                    old(self).last_activity(),
                    old(self).last_delay(),
                    now,
                ),
            ),
            MIN_DELAY_MS <= r.delay_ms <= MAX_DELAY_MS,
            final(self).last_delay() == Some(r.delay_ms),
            decision_view(r.decision) == decide(config.rules@, final(self).state_at(ambient, now)),
    {
        self.rescan(system, now);
        let delay_ms = self.polling_delay(now);
        let state = self.eval_state(ambient, now);
        let decision = config.decide(&state);
        Tick { delay_ms, decision }
    }

    /// The plan that carries out `decision` on the last scan, where the
    /// platform offers `profiles`. The CPUs and power supplies of the last
    /// scan take the settings that are planned.
    pub fn plan(&mut self, decision: &Decision, profiles: &Vec<String>) -> (r: ApplyPlan)
        requires
            old(self).wf(),
        ensures
            final(self).wf(),
            progress_of(r) == plan_of(decision@, old(self).system(), texts(profiles@)),
            final(self).history() == old(self).history(),
            final(self).last_delay() == old(self).last_delay(),
            final(self).last_activity() == old(self).last_activity(),
            system_settled(decision@, old(self).system(), final(self).system()),
    {
        decision.plan(&mut self.system, profiles)
    }

    /// The volatility of the CPU samples at `now`.
    pub fn cpu_volatility(&self, now: u64) -> (r: Option<CpuVolatility>)
        requires
            self.wf(),
        ensures
            r == volatility_of(self.history().cpu_samples(), now as int),
    {
        self.history.cpu_volatility(now)
    }

    /// `true` when the CPUs are idle at `now`.
    pub fn is_cpu_idle(&self, now: u64) -> (r: bool)
        requires
            self.wf(),
        ensures
            r == cpu_idle(self.history().cpu_samples(), now as int),
    {
        self.history.is_cpu_idle(now)
    }

    /// `true` when some power supply reports that it is discharging.
    pub fn discharging(&self) -> (r: bool)
        ensures
            r == any_discharging(self.system().power_supplies@),
    {
        is_discharging(&self.system.power_supplies)
    }

    /// The charge lost per hour, where the samples show a discharge.
    pub fn power_supply_discharge_rate(&self) -> (r: Option<Fixed>)
        requires
            self.wf(),
        ensures
            r == discharge_rate_of(self.history().power_samples()),
    {
        self.history.power_supply_discharge_rate()
    }

    /// The delay before the next tick, which becomes the previous delay of
    /// the tick after. It lies between one and thirty seconds.
    pub fn polling_delay(&mut self, now: u64) -> (r: u64)
        requires
            old(self).wf(),
        ensures
            final(self).wf(),
            r == next_delay(old(self).signals(now)),
            MIN_DELAY_MS <= r <= MAX_DELAY_MS,
            final(self).last_delay() == Some(r),
            final(self).system() == old(self).system(),
            final(self).history() == old(self).history(),
            final(self).last_activity() == old(self).last_activity(),
    {
        let idle_for_ms: u64 = if now >= self.last_user_activity {
            now - self.last_user_activity
        } else {
            0
        };
        let signals = PollSignals {
            discharging: self.discharging(),
            discharge_rate: self.history.power_supply_discharge_rate(),
            cpu_idle: self.history.is_cpu_idle(now),
            idle_for_ms,
            volatility: self.history.cpu_volatility(now),
            previous_ms: self.last_polling_delay,
        };
        let delay = polling_delay(&signals);
        self.last_polling_delay = Some(delay);
        delay
    }
}

/// `true` when some power supply of `supplies` reports that it is
/// discharging.
pub fn is_discharging(supplies: &Vec<PowerSupply>) -> (r: bool)
    ensures
        r == any_discharging(supplies@),
{
    let mut i: usize = 0;
    while i < supplies.len()
        invariant
            i <= supplies@.len(),
            forall|k: int| 0 <= k < i ==> !reports_discharge(#[trigger] supplies@[k]),
        decreases supplies.len() - i,
    {
        match &supplies[i].charge_state {
            Some(s) => {
                if str_eq(s.as_str(), "Discharging") {
                    return true;
                }
            },
            None => {},
        }
        i += 1;
    }
    false
}

/// The mean usage of `cpus` since the scan `previous`.
pub fn mean_usage_since(previous: &Vec<Cpu>, cpus: &Vec<Cpu>) -> (r: Fixed)
    ensures
        r@ == mean(usages_of(previous@, cpus@)),
{
    let mut usages: Vec<Fixed> = Vec::new();
    let mut i: usize = 0;
    while i < cpus.len()
        invariant
            i <= cpus@.len(),
            usages@.len() == i,
            forall|k: int| 0 <= k < i ==> (#[trigger] usages@[k])@ == usage_of(previous@, cpus@[k]),
        decreases cpus.len() - i,
    {
        let usage = match find_cpu(previous, cpus[i].number) {
            Some(at) => cpus[i].stat.usage_since(&previous[at].stat),
            None => cpus[i].stat.usage(),
        };
        usages.push(usage);
        i += 1;
    }
    assert(micros_of(usages@) =~= usages_of(previous@, cpus@));
    mean_of(&usages)
}

/// The temperatures of the cores `keys`, which `readings` holds, sum up to
/// the sum over the set of these cores, in whatever order they come.
proof fn lemma_total_of_cores(readings: Map<u32, Fixed>, keys: Seq<u32>, n: nat)
    requires
        n <= keys.len(),
        keys.no_duplicates(),
    ensures
        total(Seq::new(n, |i: int| readings[keys[i]]@)) == keys.subrange(0, n as int).to_set().fold(
            0int,
            add_reading(readings),
        ),
    decreases n,
{
    broadcast use vstd::seq_lib::group_seq_properties;

    let f = add_reading(readings);
    let values = Seq::new(n, |i: int| readings[keys[i]]@);
    if n == 0 {
        assert(keys.subrange(0, 0).to_set() =~= Set::<u32>::empty());
        vstd::set::fold::lemma_fold_empty::<u32, int>(0int, f);
    } else {
        let front = keys.subrange(0, n - 1);
        let whole = keys.subrange(0, n as int);
        let before = front.to_set();
        lemma_total_of_cores(readings, keys, (n - 1) as nat);
        assert(values.drop_last() =~= Seq::new((n - 1) as nat, |i: int| readings[keys[i]]@));
        assert(!before.contains(keys[n - 1])) by {
            if front.contains(keys[n - 1]) {
                let j = choose|j: int| 0 <= j < front.len() && front[j] == keys[n - 1];
                assert(keys[j] == keys[n - 1]);
            }
        }
        assert(whole.to_set() =~= before.insert(keys[n - 1])) by {
            assert forall|c: u32| whole.to_set().contains(c) implies before.insert(
                keys[n - 1],
            ).contains(c) by {
                let j = choose|j: int| 0 <= j < whole.len() && whole[j] == c;
                if j < n - 1 {
                    assert(front[j] == c);
                }
            }
            assert forall|c: u32| before.insert(keys[n - 1]).contains(c) implies whole.to_set().contains(
                c,
            ) by {
                if c == keys[n - 1] {
                    assert(whole[n - 1] == c);
                } else {
                    let j = choose|j: int| 0 <= j < front.len() && front[j] == c;
                    assert(whole[j] == c);
                }
            }
        }
        assert(vstd::set::fold::is_fun_commutative(f)) by {
            assert forall|a1: u32, a2: u32, b: int| #[trigger] f(f(b, a2), a1) == f(f(b, a1), a2) by {}
        }
        vstd::set::fold::lemma_fold_insert(before, 0int, f, keys[n - 1]);
    }
}

/// The mean of the temperatures of the cores; zero where there is none.
pub fn mean_temperature(readings: &HashMap<u32, Fixed>) -> (r: Fixed)
    ensures
        r@ == temperature_mean(readings@),
{
    broadcast use vstd::std_specs::hash::group_hash_axioms;

    let pairs = readings.iter();
    let ghost all = pairs.remaining();
    proof {
        vstd::std_specs::hash::axiom_spec_hash_map_iter(readings);
    }
    let mut values: Vec<Fixed> = Vec::new();
    for pair in it: pairs
        invariant
            it.seq() == all,
            values@.len() == it.index(),
            forall|k: int| 0 <= k < it.index() ==> (#[trigger] values@[k]) == *all[k].1,
    {
        values.push(*pair.1);
    }
    proof {
        let keys = Seq::new(all.len(), |i: int| *all[i].0);
        assert(keys.no_duplicates()) by {
            assert forall|i: int, j: int| 0 <= i < keys.len() && 0 <= j < keys.len() && i != j implies keys[i]
                != keys[j] by {
                if keys[i] == keys[j] {
                    assert(readings@[*all[i].0] == *all[i].1);
                    assert(readings@[*all[j].0] == *all[j].1);
                    assert(all[i] == all[j]);
                }
            }
        }
        assert(keys.to_set() =~= readings@.dom()) by {
            assert forall|c: u32| readings@.dom().contains(c) implies keys.to_set().contains(c) by {
                assert(readings@.contains_key(c));
                let i = choose|i: int| 0 <= i < all.len() && all[i] == (&c, &readings@[c]);
                assert(keys[i] == c);
            }
            assert forall|c: u32| keys.to_set().contains(c) implies readings@.dom().contains(c) by {
                let i = choose|i: int| 0 <= i < keys.len() && keys[i] == c;
                assert(readings@.contains_key(*all[i].0));
            }
        }
        lemma_total_of_cores(readings@, keys, keys.len());
        assert(keys.subrange(0, keys.len() as int) =~= keys);
        assert(micros_of(values@) =~= Seq::new(keys.len(), |i: int| readings@[keys[i]]@)) by {
            assert forall|k: int| 0 <= k < keys.len() implies micros_of(values@)[k]
                == readings@[keys[k]]@ by {
                assert(readings@[*all[k].0] == *all[k].1);
            }
        }
    }
    mean_of(&values)
}

/// The mean of the charges that `supplies` report, if any reports one.
pub fn mean_charge(supplies: &Vec<PowerSupply>) -> (r: Option<Fixed>)
    ensures
        charges_of(supplies@, 0).len() == 0 ==> r.is_none(),
        charges_of(supplies@, 0).len() > 0 ==> r == Some(
            Fixed { micros: mean(charges_of(supplies@, 0)) as i64 },
        ),
{
    let mut values: Vec<Fixed> = Vec::new();
    let mut i: usize = 0;
    assert(micros_of(values@) + charges_of(supplies@, 0) =~= charges_of(supplies@, 0));
    while i < supplies.len()
        invariant
            i <= supplies@.len(),
            charges_of(supplies@, 0) == micros_of(values@) + charges_of(supplies@, i as nat),
        decreases supplies.len() - i,
    {
        let ghost before = micros_of(values@);
        let ghost rest = charges_of(supplies@, (i + 1) as nat);
        match supplies[i].charge_percent {
            Some(charge) => {
                values.push(charge);
                assert(micros_of(values@) =~= before + seq![charge@]);
                assert(before + (seq![charge@] + rest) =~= (before + seq![charge@]) + rest);
            },
            None => {},
        }
        i += 1;
    }
    assert(micros_of(values@) + Seq::<int>::empty() =~= micros_of(values@));
    if values.len() == 0 {
        None
    } else {
        Some(mean_of(&values))
    }
}

} // verus!
