use std::collections::HashMap;

use watt::apply::Step;
use watt::config::{CpuDeltaSpec, DaemonConfig, PowerDeltaSpec, Rule, RuleError};
use watt::cpu::{Cpu, CpuStat};
use watt::daemon::{
    has_cpufreq, is_discharging, mean_charge, mean_temperature, mean_usage_since,
    scaling_maximum, Ambient, Daemon,
};
use watt::expression::{EvalContext, EvalError, Expression, Sensor, ValueKind};
use watt::history::CpuLog;
use watt::number::Fixed;
use watt::power_supply::PowerSupply;
use watt::sysfs::Write;
use watt::system::System;

fn cpu(number: u32, busy: u64, idle: u64) -> Cpu {
    let mut cpu = Cpu::new(number);
    cpu.has_cpufreq = true;
    cpu.available_governors = vec!["performance".to_owned(), "powersave".to_owned()];
    cpu.frequency_mhz_maximum = Some(3_000 + number as u64);
    cpu.stat = CpuStat {
        user: busy,
        nice: 0,
        system: 0,
        idle,
        iowait: 0,
        irq: 0,
        softirq: 0,
        steal: 0,
    };
    cpu
}

fn battery(name: &str, percent: Option<i64>, state: &str) -> PowerSupply {
    let mut supply = PowerSupply::unscanned(name.to_owned(), format!("/p/{name}"));
    supply.type_ = "Battery".to_owned();
    supply.charge_percent = percent.map(|p| Fixed::from_micros(p * 10_000));
    supply.charge_state = Some(state.to_owned());
    supply
}

fn system(cpus: Vec<Cpu>, supplies: Vec<PowerSupply>, celsius: &[i64]) -> System {
    let mut system = System::empty();
    system.cpus = cpus;
    system.power_supplies = supplies;
    system.cpu_temperatures = celsius
        .iter()
        .enumerate()
        .map(|(i, c)| (i as u32, Fixed::from_micros(c * 1_000_000)))
        .collect();
    system.load_average_1min = Fixed::from_micros(250_000);
    system
}

fn ambient() -> Ambient {
    Ambient {
        turbo_available: true,
        lid_closed: false,
        hour_of_day: 13,
        cpu_frequency_maximum: Some(Fixed::from_micros(3_333_000_000)),
        cpu_frequency_minimum: None,
        battery_cycles: None,
        battery_health: Some(Fixed::from_micros(910_000)),
        platform_profiles: vec!["balanced".to_owned()],
    }
}

#[test]
fn samples_are_taken_from_each_scan() {
    let first = system(vec![cpu(0, 100, 900), cpu(1, 500, 500)], vec![], &[40, 50]);
    let mut daemon = Daemon::new(first, 1_000);
    assert_eq!(daemon.telemetry().last_cpu(), None);
    let second = system(
        vec![cpu(0, 400, 1_600), cpu(1, 600, 1_400), cpu(2, 1, 3)],
        vec![
            battery("BAT0", Some(80), "Discharging"),
            battery("BAT1", None, "Unknown"),
            battery("BAT2", Some(61), "Full"),
        ],
        &[45, 50, 70],
    );
    daemon.rescan(second, 6_000);
    // CPU 0 was busy for 300 of 1000 ticks, CPU 1 for 100 of 1000, and
    // CPU 2, which is new, for 1 of 4: the mean of 0.3, 0.1 and 0.25.
    assert_eq!(
        daemon.telemetry().last_cpu(),
        Some(CpuLog {
            at: 6_000,
            usage: Fixed::from_micros(216_667),
            temperature: Fixed::from_micros(55_000_000),
        })
    );
    let power = daemon.telemetry().last_power_supply().unwrap();
    assert_eq!(power.at, 6_000);
    assert_eq!(power.charge, Fixed::from_micros(705_000));
    assert_eq!(daemon.last_scan().cpus.len(), 3);
    assert!(daemon.discharging());
}

#[test]
fn without_a_charge_no_power_sample_is_taken() {
    let mut daemon = Daemon::new(System::empty(), 0);
    daemon.rescan(system(vec![], vec![battery("BAT0", None, "Unknown")], &[]), 5);
    assert_eq!(daemon.telemetry().last_power_supply(), None);
    // Without CPUs and without sensors the sample holds zeros.
    assert_eq!(
        daemon.telemetry().last_cpu(),
        Some(CpuLog { at: 5, usage: Fixed::zero(), temperature: Fixed::zero() })
    );
    assert!(!daemon.discharging());
    assert_eq!(mean_charge(&vec![]), None);
    assert_eq!(mean_temperature(&HashMap::new()), Fixed::zero());
    let cores: HashMap<u32, Fixed> = [(0, 40_000_000), (7, 41_000_000), (3, 41_000_000), (12, 45_000_001)]
        .into_iter()
        .map(|(core, micros)| (core, Fixed::from_micros(micros)))
        .collect();
    assert_eq!(mean_temperature(&cores), Fixed::from_micros(41_750_000));
    assert_eq!(mean_usage_since(&vec![], &vec![]), Fixed::zero());
}

#[test]
fn what_is_derived_from_a_scan() {
    let cpus = vec![cpu(0, 1, 1), cpu(1, 1, 1), Cpu::new(2)];
    assert!(has_cpufreq(&cpus));
    assert!(!has_cpufreq(&vec![Cpu::new(0)]));
    assert_eq!(scaling_maximum(&cpus), Some(3_001));
    assert_eq!(scaling_maximum(&vec![Cpu::new(0)]), None);
    assert!(is_discharging(&vec![
        battery("a", None, "Charging"),
        battery("b", None, "Discharging"),
    ]));
    assert!(!is_discharging(&vec![battery("a", None, "Not charging")]));
}

#[test]
fn the_first_delay_is_not_smoothed() {
    let mut daemon = Daemon::new(System::empty(), 0);
    daemon.rescan(system(vec![cpu(0, 0, 100)], vec![], &[]), 1_000);
    assert_eq!(daemon.polling_delay(1_000), 5_000);
    // On battery without a known rate the delay doubles, and the previous
    // delay weighs in: 0.3 * 10 s + 0.7 * 5 s.
    daemon.rescan(
        system(vec![cpu(0, 0, 200)], vec![battery("BAT0", Some(50), "Discharging")], &[]),
        6_000,
    );
    assert_eq!(daemon.polling_delay(6_000), 6_500);
    assert!(daemon.power_supply_discharge_rate().is_none());
    assert!(daemon.cpu_volatility(6_000).is_some());
}

#[test]
fn idle_time_counts_from_the_last_activity() {
    let mut daemon = Daemon::new(System::empty(), 0);
    for tick in 0..4u64 {
        daemon.rescan(system(vec![cpu(0, 0, 100 * (tick + 1))], vec![], &[]), 60_000 * tick);
    }
    assert!(daemon.is_cpu_idle(180_000));
    // Idle for three minutes: 1 + log2(3) = 2.584962 times five seconds.
    assert_eq!(daemon.polling_delay(180_000), 12_925);
    daemon.note_user_activity(170_000);
    // Ten seconds after the last activity idleness does not count yet.
    assert_eq!(daemon.polling_delay(180_000), 10_548);
}

fn rule(priority: u16, governor: &str) -> Rule {
    let mut rule = Rule {
        name: String::new(),
        priority,
        condition: Expression::Sensor(Sensor::Discharging),
        cpu: CpuDeltaSpec::new(),
        power: PowerDeltaSpec::new(),
    };
    rule.cpu.governor = Some(Expression::Text(governor.to_owned()));
    rule
}

#[test]
fn a_tick_scans_decides_and_says_how_long_to_wait() {
    let config = DaemonConfig::from_rules(vec![rule(10, "powersave")]).unwrap();
    let mut daemon = Daemon::new(System::empty(), 0);
    let scan = system(
        vec![cpu(0, 10, 90), cpu(1, 10, 90)],
        vec![battery("BAT0", Some(50), "Discharging")],
        &[40],
    );
    let ambient = ambient();
    let tick = daemon.tick(&config, scan, &ambient, 2_000);
    assert_eq!(tick.delay_ms, 10_000);
    let decision = tick.decision.unwrap();
    assert_eq!(decision.cpus[0].governor, Some("powersave".to_owned()));
    assert_eq!(decision.cpus[1].governor, Some("powersave".to_owned()));
    let plan = daemon.plan(&decision, &ambient.platform_profiles);
    assert_eq!(plan.failure, None);
    assert_eq!(
        plan.steps,
        vec![
            Step::Write(Write {
                path: "/sys/devices/system/cpu/cpu0/cpufreq/scaling_governor".to_owned(),
                value: "powersave".to_owned(),
            }),
            Step::Write(Write {
                path: "/sys/devices/system/cpu/cpu1/cpufreq/scaling_governor".to_owned(),
                value: "powersave".to_owned(),
            }),
        ]
    );
    // The last scan has taken the governors that were planned.
    assert_eq!(daemon.last_scan().cpus[0].governor, Some("powersave".to_owned()));
    // On the mains the rule does not match.
    let scan = system(vec![cpu(0, 20, 180)], vec![battery("BAT0", Some(50), "Charging")], &[40]);
    let tick = daemon.tick(&config, scan, &ambient, 12_000);
    assert_eq!(tick.decision.unwrap().cpus[0].governor, None);
    assert_eq!(tick.delay_ms, 8_500);
}

#[test]
fn a_failing_rule_leaves_the_delay_alone() {
    let mut broken = rule(10, "powersave");
    broken.condition = Expression::Number(Fixed::one());
    let config = DaemonConfig::from_rules(vec![broken]).unwrap();
    let mut daemon = Daemon::new(System::empty(), 0);
    let tick = daemon.tick(&config, system(vec![cpu(0, 1, 1)], vec![], &[]), &ambient(), 1);
    assert_eq!(tick.delay_ms, 5_000);
    assert_eq!(
        tick.decision,
        Err(RuleError::Eval(EvalError::TypeMismatch {
            expected: ValueKind::Boolean,
            found: ValueKind::Number,
        }))
    );
}

#[test]
fn the_state_shows_the_scan_and_the_rings() {
    let mut daemon = Daemon::new(System::empty(), 1_000);
    daemon.rescan(
        system(
            vec![cpu(0, 100, 900), cpu(1, 300, 700)],
            vec![battery("BAT0", Some(80), "Discharging")],
            &[42],
        ),
        2_000,
    );
    daemon.rescan(
        system(
            vec![cpu(0, 200, 1_800), cpu(1, 700, 1_300)],
            vec![battery("BAT0", Some(79), "Discharging")],
            &[44],
        ),
        3_602_000,
    );
    let ambient = ambient();
    let state = daemon.eval_state(&ambient, 3_603_500);
    assert!(state.frequency_available);
    assert!(state.turbo_available);
    assert!(state.discharging);
    assert!(!state.lid_closed);
    // CPU 0 was busy for 100 of 1000 ticks, CPU 1 for 400 of 1000.
    assert_eq!(state.cpu_usage, Fixed::from_micros(250_000));
    assert_eq!(state.cpu_temperature, Fixed::from_micros(44_000_000));
    // Only one sample is recent.
    assert_eq!(state.cpu_usage_volatility, None);
    assert_eq!(state.cpu_temperature_volatility, None);
    assert_eq!(state.cpu_idle_seconds, Fixed::from_micros(3_602_500_000));
    assert_eq!(state.cpu_frequency_maximum, Some(Fixed::from_micros(3_333_000_000)));
    assert_eq!(state.cpu_frequency_minimum, None);
    assert_eq!(state.cpu_scaling_maximum, Some(Fixed::from_micros(3_001_000_000)));
    assert_eq!(state.cpu_core_count, Fixed::from_micros(2_000_000));
    assert_eq!(state.load_average_1m, Fixed::from_micros(250_000));
    assert_eq!(state.hour_of_day, Fixed::from_micros(13_000_000));
    assert_eq!(state.power_supply_charge, Some(Fixed::from_micros(790_000)));
    // One hundredth of the charge was lost in one hour.
    assert_eq!(state.power_supply_discharge_rate, Some(Fixed::from_micros(10_000)));
    assert_eq!(state.battery_cycles, None);
    assert_eq!(state.battery_health, Some(Fixed::from_micros(910_000)));
    assert_eq!(state.now, 3_603_500);
    assert_eq!(state.cpus.len(), 2);
    assert_eq!(state.power_supplies.len(), 1);
    assert_eq!(state.platform_profiles, &vec!["balanced".to_owned()]);
    assert!(matches!(state.context, EvalContext::WidestPossible));
    assert_eq!(daemon.power_supply_discharge_rate(), Some(Fixed::from_micros(10_000)));
}

fn override_rules() -> DaemonConfig {
    let high = rule(20, "powersave");
    let mut low = rule(10, "schedutil");
    low.condition = Expression::Boolean(true);
    low.cpu.energy_performance_preference = Some(Expression::Text("balance_power".to_owned()));
    DaemonConfig::from_rules(vec![high, low]).unwrap()
}

fn tunable_cpus(count: u32) -> Vec<Cpu> {
    (0..count)
        .map(|number| {
            let mut cpu = cpu(number, 10, 90);
            cpu.available_governors =
                vec!["performance".to_owned(), "powersave".to_owned(), "schedutil".to_owned()];
            cpu.available_epps = vec!["performance".to_owned(), "balance_power".to_owned()];
            cpu
        })
        .collect()
}

#[test]
fn after_a_tick_on_battery_every_cpu_has_the_higher_rules_governor() {
    let config = override_rules();
    let ambient = ambient();
    let mut daemon = Daemon::new(System::empty(), 0);
    let scan = system(tunable_cpus(5), vec![battery("BAT0", Some(50), "Discharging")], &[40]);
    let decision = daemon.tick(&config, scan, &ambient, 2_000).decision.unwrap();
    let plan = daemon.plan(&decision, &ambient.platform_profiles);
    assert_eq!(plan.failure, None);
    assert_eq!(plan.steps.len(), 10);
    assert_eq!(daemon.last_scan().cpus.len(), 5);
    for cpu in &daemon.last_scan().cpus {
        assert_eq!(cpu.governor, Some("powersave".to_owned()));
        assert_eq!(cpu.epp, Some("balance_power".to_owned()));
    }
}

#[test]
fn after_a_tick_on_the_mains_the_lower_rule_sets_every_cpu() {
    let config = override_rules();
    let ambient = ambient();
    let mut daemon = Daemon::new(System::empty(), 0);
    let scan = system(tunable_cpus(5), vec![battery("BAT0", Some(50), "Charging")], &[40]);
    let decision = daemon.tick(&config, scan, &ambient, 2_000).decision.unwrap();
    let plan = daemon.plan(&decision, &ambient.platform_profiles);
    assert_eq!(plan.failure, None);
    for cpu in &daemon.last_scan().cpus {
        assert_eq!(cpu.governor, Some("schedutil".to_owned()));
        assert_eq!(cpu.epp, Some("balance_power".to_owned()));
    }
    // Without any power supply nothing discharges either.
    let mut daemon = Daemon::new(System::empty(), 0);
    let decision =
        daemon.tick(&config, system(tunable_cpus(2), vec![], &[]), &ambient, 2_000).decision.unwrap();
    daemon.plan(&decision, &ambient.platform_profiles);
    for cpu in &daemon.last_scan().cpus {
        assert_eq!(cpu.governor, Some("schedutil".to_owned()));
        assert_eq!(cpu.epp, Some("balance_power".to_owned()));
    }
}
