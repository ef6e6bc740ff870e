use watt::apply::{ApplyPlan, Step};
use watt::config::{ConfigError, CpuDeltaSpec, DaemonConfig, PowerDeltaSpec, Rule, RuleError};
use watt::cpu::Cpu;
use watt::delta::{CpuDelta, PowerDelta};
use watt::engine::Decision;
use watt::expression::{
    EvalContext, EvalError, EvalState, Expression, NumericOperator, Sensor, ValueKind,
};
use watt::history::History;
use watt::number::Fixed;
use watt::power_supply::{threshold_config, PowerSupply};
use watt::sysfs::{ApplyError, Write};
use watt::system::System;

struct World {
    history: History,
    system: System,
    platform_profiles: Vec<String>,
    discharging: bool,
    charge: Option<Fixed>,
}

fn names(list: &[&str]) -> Vec<String> {
    list.iter().map(|s| s.to_string()).collect()
}

fn cpu(number: u32, governors: &[&str]) -> Cpu {
    let mut cpu = Cpu::new(number);
    cpu.has_cpufreq = true;
    cpu.available_governors = names(governors);
    cpu.available_epps = names(&["balance_power", "performance"]);
    cpu.available_epbs = names(&["6", "15"]);
    cpu.frequency_mhz_minimum = Some(400);
    cpu.frequency_mhz_maximum = Some(3333);
    cpu
}

fn battery(name: &str) -> PowerSupply {
    let mut supply =
        PowerSupply::unscanned(name.to_owned(), format!("/sys/class/power_supply/{name}"));
    supply.type_ = "Battery".to_owned();
    supply.threshold_config = Some(threshold_config(0));
    supply
}

fn adapter(name: &str) -> PowerSupply {
    let mut supply =
        PowerSupply::unscanned(name.to_owned(), format!("/sys/class/power_supply/{name}"));
    supply.type_ = "Mains".to_owned();
    supply
}

fn world() -> World {
    let mut system = System::empty();
    system.cpus = vec![
        cpu(0, &["performance", "powersave", "schedutil"]),
        cpu(1, &["performance", "powersave", "schedutil"]),
    ];
    system.power_supplies = vec![adapter("AC"), battery("BAT0")];
    World {
        history: History::new(),
        system,
        platform_profiles: names(&["low-power", "balanced", "performance"]),
        discharging: true,
        charge: None,
    }
}

fn state(world: &World) -> EvalState<'_> {
    EvalState {
        frequency_available: true,
        turbo_available: true,
        discharging: world.discharging,
        lid_closed: false,
        cpu_usage: Fixed::zero(),
        cpu_usage_volatility: None,
        cpu_temperature: Fixed::zero(),
        cpu_temperature_volatility: None,
        cpu_idle_seconds: Fixed::zero(),
        cpu_frequency_maximum: Some(Fixed::from_micros(3_333_000_000)),
        cpu_frequency_minimum: Some(Fixed::from_micros(400_000_000)),
        cpu_scaling_maximum: Some(Fixed::from_micros(3_333_000_000)),
        cpu_core_count: Fixed::from_micros(2_000_000),
        load_average_1m: Fixed::zero(),
        load_average_5m: Fixed::zero(),
        load_average_15m: Fixed::zero(),
        hour_of_day: Fixed::zero(),
        power_supply_charge: world.charge,
        power_supply_discharge_rate: None,
        battery_cycles: None,
        battery_health: None,
        now: 0,
        history: &world.history,
        cpus: &world.system.cpus,
        power_supplies: &world.system.power_supplies,
        platform_profiles: &world.platform_profiles,
        context: EvalContext::WidestPossible,
    }
}

fn number(micros: i64) -> Expression {
    Expression::Number(Fixed::from_micros(micros))
}

fn text(s: &str) -> Expression {
    Expression::Text(s.to_owned())
}

fn rule(priority: u16, condition: Expression) -> Rule {
    Rule {
        name: format!("rule {priority}"),
        priority,
        condition,
        cpu: CpuDeltaSpec::new(),
        power: PowerDeltaSpec::new(),
    }
}

fn config(rules: Vec<Rule>) -> DaemonConfig {
    DaemonConfig::from_rules(rules).unwrap()
}

fn decide(world: &World, rules: Vec<Rule>) -> Result<Decision, RuleError> {
    config(rules).decide(&state(world))
}

fn governor(name: &str) -> CpuDelta {
    CpuDelta { governor: Some(name.to_owned()), ..CpuDelta::new() }
}

fn write(path: &str, value: &str) -> Step {
    Step::Write(Write { path: path.to_owned(), value: value.to_owned() })
}

#[test]
fn rules_come_back_sorted_by_priority() {
    let loaded = config(vec![
        rule(30, Expression::Boolean(true)),
        rule(10, Expression::Boolean(true)),
        rule(20, Expression::Boolean(false)),
    ]);
    let priorities: Vec<u16> = loaded.rules.iter().map(|r| r.priority).collect();
    assert_eq!(priorities, vec![10, 20, 30]);
    assert_eq!(loaded.rules[1].condition, Expression::Boolean(false));
    assert_eq!(config(vec![]).rules, vec![]);
}

#[test]
fn a_priority_that_occurs_twice_is_refused() {
    let twice = vec![
        rule(10, Expression::Boolean(true)),
        rule(20, Expression::Boolean(true)),
        rule(10, Expression::Boolean(false)),
    ];
    assert_eq!(DaemonConfig::from_rules(twice), Err(ConfigError::DuplicatePriority));
}

#[test]
fn single_always_true_rule() {
    let world = world();
    let mut only = rule(10, Expression::Boolean(true));
    only.cpu.governor = Some(text("powersave"));
    let decision = decide(&world, vec![only]).unwrap();
    assert_eq!(decision.cpus, vec![governor("powersave"), governor("powersave")]);
    assert_eq!(decision.turbo, None);
    assert_eq!(decision.platform_profile, None);
    // Both governors are written, and nothing else.
    let mut system = world.system;
    let plan = decision.plan(&mut system, &world.platform_profiles);
    assert_eq!(
        plan,
        ApplyPlan {
            steps: vec![
                write("/sys/devices/system/cpu/cpu0/cpufreq/scaling_governor", "powersave"),
                write("/sys/devices/system/cpu/cpu1/cpufreq/scaling_governor", "powersave"),
            ],
            failure: None,
        }
    );
    assert_eq!(system.cpus[0].governor, Some("powersave".to_owned()));
    assert_eq!(system.cpus[1].governor, Some("powersave".to_owned()));
}

#[test]
fn priority_override_fills_gaps() {
    let rules = || {
        let mut high = rule(20, Expression::Sensor(Sensor::Discharging));
        high.cpu.governor = Some(text("powersave"));
        let mut low = rule(10, Expression::Boolean(true));
        low.cpu.governor = Some(text("schedutil"));
        low.cpu.energy_performance_preference = Some(text("balance_power"));
        // The order in the configuration does not matter.
        vec![low, high]
    };
    let expect = |governor: &str| CpuDelta {
        governor: Some(governor.to_owned()),
        energy_performance_preference: Some("balance_power".to_owned()),
        ..CpuDelta::new()
    };
    let mut world = world();
    let on_battery = decide(&world, rules()).unwrap();
    assert_eq!(on_battery.cpus, vec![expect("powersave"), expect("powersave")]);
    world.discharging = false;
    let on_mains = decide(&world, rules()).unwrap();
    assert_eq!(on_mains.cpus, vec![expect("schedutil"), expect("schedutil")]);
}

#[test]
fn the_higher_priority_wins_whatever_the_order() {
    let world = world();
    let make = |priority: u16, name: &str| {
        let mut r = rule(priority, Expression::Boolean(true));
        r.cpu.governor = Some(text(name));
        r.cpu.turbo = Some(Expression::Boolean(priority > 15));
        r.power.platform_profile = Some(text(name));
        r
    };
    for rules in [
        vec![make(10, "low"), make(20, "high")],
        vec![make(20, "high"), make(10, "low")],
    ] {
        let decision = decide(&world, rules).unwrap();
        assert_eq!(decision.cpus[0].governor, Some("high".to_owned()));
        assert_eq!(decision.turbo, Some(true));
        assert_eq!(decision.platform_profile, Some("high".to_owned()));
    }
}

#[test]
fn undefined_propagating_threshold() {
    let world = world();
    let mut only = rule(10, Expression::Boolean(true));
    only.power.charge_threshold_end = Some(Expression::Numeric {
        operator: NumericOperator::Plus,
        a: Box::new(Expression::Sensor(Sensor::PowerSupplyCharge)),
        b: Box::new(number(5_000_000)),
    });
    let decision = decide(&world, vec![only]).unwrap();
    assert_eq!(decision.power_supplies, vec![PowerDelta::new(), PowerDelta::new()]);
    let mut system = world.system;
    let plan = decision.plan(&mut system, &world.platform_profiles);
    assert_eq!(plan, ApplyPlan { steps: vec![], failure: None });
}

#[test]
fn a_defined_threshold_is_written_in_percent() {
    let mut world = world();
    world.charge = Some(Fixed::from_micros(70_000_000));
    let mut only = rule(10, Expression::Boolean(true));
    only.power.charge_threshold_start = Some(number(40_000_000));
    only.power.charge_threshold_end = Some(Expression::Numeric {
        operator: NumericOperator::Plus,
        a: Box::new(Expression::Sensor(Sensor::PowerSupplyCharge)),
        b: Box::new(number(5_000_000)),
    });
    let decision = decide(&world, vec![only]).unwrap();
    // The adapter takes no thresholds and is no target.
    assert_eq!(
        decision.power_supplies,
        vec![
            PowerDelta::new(),
            PowerDelta {
                charge_threshold_start: Some(Fixed::from_micros(400_000)),
                charge_threshold_end: Some(Fixed::from_micros(750_000)),
            },
        ]
    );
    let mut system = world.system;
    let plan = decision.plan(&mut system, &world.platform_profiles);
    assert_eq!(
        plan.steps,
        vec![
            write("/sys/class/power_supply/BAT0/charge_control_start_threshold", "40"),
            write("/sys/class/power_supply/BAT0/charge_control_end_threshold", "75"),
        ]
    );
    assert_eq!(plan.failure, None);
    assert_eq!(system.power_supplies[1].charge_threshold_start, Fixed::from_micros(400_000));
    assert_eq!(system.power_supplies[1].charge_threshold_end, Fixed::from_micros(750_000));
}

#[test]
fn frequency_rounding() {
    let world = world();
    let mut only = rule(10, Expression::Boolean(true));
    only.cpu.frequency_mhz_maximum = Some(Expression::Numeric {
        operator: NumericOperator::Multiply,
        a: Box::new(Expression::Sensor(Sensor::CpuFrequencyMaximum)),
        b: Box::new(number(650_000)),
    });
    let decision = decide(&world, vec![only]).unwrap();
    assert_eq!(decision.cpus[0].frequency_mhz_maximum, Some(2166));
    assert_eq!(decision.cpus[1].frequency_mhz_maximum, Some(2166));
    assert!(decision.frequency_rounded);
    let mut system = world.system;
    let plan = decision.plan(&mut system, &world.platform_profiles);
    assert_eq!(
        plan.steps,
        vec![
            write("/sys/devices/system/cpu/cpu0/cpufreq/scaling_max_freq", "2166000"),
            write("/sys/devices/system/cpu/cpu1/cpufreq/scaling_max_freq", "2166000"),
        ]
    );
}

#[test]
fn a_whole_frequency_is_not_rounded() {
    let world = world();
    let mut only = rule(10, Expression::Boolean(true));
    only.cpu.frequency_mhz_minimum = Some(number(800_000_000));
    let decision = decide(&world, vec![only]).unwrap();
    assert_eq!(decision.cpus[0].frequency_mhz_minimum, Some(800));
    assert!(!decision.frequency_rounded);
}

#[test]
fn for_restricts_the_targets() {
    let world = world();
    let mut only = rule(10, Expression::Boolean(true));
    only.cpu.for_ = Some(Expression::List(vec![number(1_000_000)]));
    only.cpu.governor = Some(text("performance"));
    only.power.for_ = Some(Expression::List(vec![text("BAT0")]));
    only.power.charge_threshold_end = Some(number(80_000_000));
    let decision = decide(&world, vec![only]).unwrap();
    assert_eq!(decision.cpus, vec![CpuDelta::new(), governor("performance")]);
    assert_eq!(
        decision.power_supplies[1].charge_threshold_end,
        Some(Fixed::from_micros(800_000))
    );
    assert_eq!(decision.power_supplies[0], PowerDelta::new());
}

#[test]
fn settings_are_evaluated_for_each_target() {
    let mut world = world();
    world.system.cpus[1].available_governors = names(&["performance"]);
    let mut only = rule(10, Expression::Boolean(true));
    only.cpu.governor = Some(Expression::IfElse {
        condition: Box::new(Expression::IsAvailable {
            capability: watt::expression::Capability::Governor,
            value: Box::new(text("powersave")),
        }),
        consequence: Box::new(text("powersave")),
        alternative: None,
    });
    let decision = decide(&world, vec![only]).unwrap();
    // The second CPU does not offer the governor, so its field stays absent.
    assert_eq!(decision.cpus, vec![governor("powersave"), CpuDelta::new()]);
}

#[test]
fn a_rule_whose_condition_does_not_hold_changes_nothing() {
    let world = world();
    let with = |condition: Expression| {
        let mut r = rule(10, condition);
        r.cpu.governor = Some(text("performance"));
        r.cpu.turbo = Some(Expression::Boolean(true));
        vec![r]
    };
    let nothing = Decision::new(2, 2);
    assert_eq!(decide(&world, with(Expression::Boolean(false))).unwrap(), nothing);
    assert_eq!(
        decide(&world, with(Expression::Sensor(Sensor::PowerSupplyCharge))).unwrap(),
        nothing
    );
    assert_eq!(
        decide(&world, with(number(1))),
        Err(RuleError::Eval(EvalError::TypeMismatch {
            expected: ValueKind::Boolean,
            found: ValueKind::Number,
        }))
    );
}

#[test]
fn the_fold_ends_once_nothing_is_left_to_fill() {
    let mut world = world();
    world.system.power_supplies = vec![battery("BAT0")];
    let mut full = rule(20, Expression::Boolean(true));
    full.cpu.governor = Some(text("performance"));
    full.cpu.energy_performance_preference = Some(text("performance"));
    full.cpu.energy_performance_bias = Some(text("15"));
    full.cpu.frequency_mhz_minimum = Some(number(400_000_000));
    full.cpu.frequency_mhz_maximum = Some(number(3_333_000_000));
    full.cpu.turbo = Some(Expression::Boolean(true));
    full.power.charge_threshold_start = Some(number(40_000_000));
    full.power.charge_threshold_end = Some(number(80_000_000));
    full.power.platform_profile = Some(text("performance"));
    // The rule below would fail, but it is never considered.
    let broken = rule(10, number(1));
    let decision = decide(&world, vec![broken, full]).unwrap();
    assert!(decision.is_saturated(&world.system.power_supplies));
    assert_eq!(decision.turbo, Some(true));
}

#[test]
fn rule_errors() {
    let world = world();
    let fails_with = |change: &dyn Fn(&mut Rule), error: RuleError| {
        let mut r = rule(10, Expression::Boolean(true));
        change(&mut r);
        assert_eq!(decide(&world, vec![r]), Err(error));
    };
    fails_with(
        &|r| r.cpu.for_ = Some(Expression::Sensor(Sensor::PowerSupplyCharge)),
        RuleError::UndefinedTargets,
    );
    fails_with(
        &|r| r.power.for_ = Some(Expression::Sensor(Sensor::PowerSupplyCharge)),
        RuleError::UndefinedTargets,
    );
    fails_with(
        &|r| r.cpu.for_ = Some(Expression::List(vec![number(500_000)])),
        RuleError::InvalidCpuNumber,
    );
    fails_with(
        &|r| r.cpu.for_ = Some(Expression::List(vec![number(-1_000_000)])),
        RuleError::InvalidCpuNumber,
    );
    fails_with(
        &|r| r.cpu.for_ = Some(Expression::List(vec![number(4_294_967_296_000_000)])),
        RuleError::InvalidCpuNumber,
    );
    fails_with(
        &|r| r.cpu.for_ = Some(Expression::List(vec![number(7_000_000)])),
        RuleError::UnknownCpu,
    );
    fails_with(
        &|r| r.power.for_ = Some(Expression::List(vec![text("BAT9")])),
        RuleError::UnknownPowerSupply,
    );
    fails_with(
        &|r| r.cpu.frequency_mhz_minimum = Some(number(-5_000_000)),
        RuleError::NegativeFrequency,
    );
    fails_with(
        &|r| r.power.charge_threshold_start = Some(number(100_000_001)),
        RuleError::ThresholdOutOfRange,
    );
    fails_with(
        &|r| r.power.charge_threshold_end = Some(number(-1)),
        RuleError::ThresholdOutOfRange,
    );
    fails_with(
        &|r| r.cpu.governor = Some(number(1)),
        RuleError::Eval(EvalError::TypeMismatch {
            expected: ValueKind::Text,
            found: ValueKind::Number,
        }),
    );
    fails_with(
        &|r| r.cpu.for_ = Some(text("all")),
        RuleError::Eval(EvalError::TypeMismatch {
            expected: ValueKind::List,
            found: ValueKind::Text,
        }),
    );
}

#[test]
fn deltas_merge_with_the_accumulator_winning() {
    let mut acc = CpuDelta { governor: Some("powersave".to_owned()), ..CpuDelta::new() };
    assert!(!acc.is_saturated());
    acc.fill_from(CpuDelta {
        governor: Some("performance".to_owned()),
        energy_performance_preference: Some("balance_power".to_owned()),
        energy_performance_bias: Some("6".to_owned()),
        frequency_mhz_minimum: Some(800),
        frequency_mhz_maximum: None,
    });
    assert_eq!(
        acc,
        CpuDelta {
            governor: Some("powersave".to_owned()),
            energy_performance_preference: Some("balance_power".to_owned()),
            energy_performance_bias: Some("6".to_owned()),
            frequency_mhz_minimum: Some(800),
            frequency_mhz_maximum: None,
        }
    );
    acc.fill_from(CpuDelta { frequency_mhz_maximum: Some(3000), ..CpuDelta::new() });
    assert!(acc.is_saturated());
    let saturated = CpuDelta {
        governor: Some("powersave".to_owned()),
        energy_performance_preference: Some("balance_power".to_owned()),
        energy_performance_bias: Some("6".to_owned()),
        frequency_mhz_minimum: Some(800),
        frequency_mhz_maximum: Some(3000),
    };
    acc.fill_from(CpuDelta { governor: Some("x".to_owned()), ..CpuDelta::new() });
    assert_eq!(acc, saturated);

    let mut power = PowerDelta::new();
    power.fill_from(PowerDelta {
        charge_threshold_start: None,
        charge_threshold_end: Some(Fixed::from_micros(800_000)),
    });
    assert!(!power.is_saturated());
    power.fill_from(PowerDelta {
        charge_threshold_start: Some(Fixed::from_micros(400_000)),
        charge_threshold_end: Some(Fixed::from_micros(900_000)),
    });
    assert!(power.is_saturated());
    assert_eq!(power.charge_threshold_end, Some(Fixed::from_micros(800_000)));
}

#[test]
fn a_refused_setting_ends_the_plan() {
    let world = world();
    let mut only = rule(10, Expression::Boolean(true));
    only.cpu.governor = Some(text("performance"));
    only.cpu.energy_performance_preference = Some(text("turbo-charged"));
    only.cpu.energy_performance_bias = Some(text("6"));
    let decision = decide(&world, vec![only]).unwrap();
    let mut system = world.system;
    let plan = decision.plan(&mut system, &world.platform_profiles);
    // The governor of the first CPU is still to be written.
    assert_eq!(
        plan,
        ApplyPlan {
            steps: vec![write(
                "/sys/devices/system/cpu/cpu0/cpufreq/scaling_governor",
                "performance"
            )],
            failure: Some(ApplyError::EppUnavailable),
        }
    );
}

#[test]
fn the_plan_follows_the_canonical_order() {
    let mut world = world();
    world.system.cpus.truncate(1);
    world.system.power_supplies = vec![battery("BAT1")];
    let decision = Decision {
        cpus: vec![CpuDelta {
            governor: Some("schedutil".to_owned()),
            energy_performance_preference: Some("performance".to_owned()),
            energy_performance_bias: Some("15".to_owned()),
            frequency_mhz_minimum: Some(400),
            frequency_mhz_maximum: Some(3333),
        }],
        power_supplies: vec![PowerDelta {
            charge_threshold_start: Some(Fixed::from_micros(0)),
            charge_threshold_end: Some(Fixed::from_micros(1_000_000)),
        }],
        turbo: Some(false),
        platform_profile: Some("low-power".to_owned()),
        frequency_rounded: false,
    };
    let mut system = world.system;
    let plan = decision.plan(&mut system, &world.platform_profiles);
    assert_eq!(plan.failure, None);
    assert_eq!(
        plan.steps,
        vec![
            write("/sys/devices/system/cpu/cpu0/cpufreq/scaling_governor", "schedutil"),
            write(
                "/sys/devices/system/cpu/cpu0/cpufreq/energy_performance_preference",
                "performance"
            ),
            write("/sys/devices/system/cpu/cpu0/cpufreq/energy_performance_bias", "15"),
            write("/sys/devices/system/cpu/cpu0/cpufreq/scaling_min_freq", "400000"),
            write("/sys/devices/system/cpu/cpu0/cpufreq/scaling_max_freq", "3333000"),
            Step::Turbo(false),
            write("/sys/class/power_supply/BAT1/charge_control_start_threshold", "0"),
            write("/sys/class/power_supply/BAT1/charge_control_end_threshold", "100"),
            write("/sys/firmware/acpi/platform_profile", "low-power"),
        ]
    );
    // Applying the same decision again plans the same writes.
    let again = decision.plan(&mut system, &world.platform_profiles);
    assert_eq!(again, plan);
}

#[test]
fn apply_errors() {
    let refusal = |delta: CpuDelta| {
        let mut target = cpu(0, &["performance"]);
        let mut plan = ApplyPlan { steps: vec![], failure: None };
        delta.apply(&mut target, &mut plan);
        assert_eq!(plan.steps, vec![]);
        plan.failure
    };
    assert_eq!(refusal(governor("powersave")), Some(ApplyError::GovernorUnavailable));
    assert_eq!(
        refusal(CpuDelta {
            energy_performance_preference: Some("x".to_owned()),
            ..CpuDelta::new()
        }),
        Some(ApplyError::EppUnavailable)
    );
    assert_eq!(
        refusal(CpuDelta { energy_performance_bias: Some("7".to_owned()), ..CpuDelta::new() }),
        Some(ApplyError::EpbUnavailable)
    );
    assert_eq!(
        refusal(CpuDelta { frequency_mhz_minimum: Some(399), ..CpuDelta::new() }),
        Some(ApplyError::FrequencyBelowMinimum)
    );
    assert_eq!(
        refusal(CpuDelta { frequency_mhz_maximum: Some(3334), ..CpuDelta::new() }),
        Some(ApplyError::FrequencyAboveMaximum)
    );
    let mut unlimited = Cpu::new(3);
    assert_eq!(
        unlimited.set_frequency_mhz_maximum(u64::MAX / 1000 + 1),
        Err(ApplyError::FrequencyTooLarge)
    );
    // Without a limit in the last scan the check is skipped.
    assert_eq!(
        unlimited.set_frequency_mhz_minimum(1),
        Ok(Write {
            path: "/sys/devices/system/cpu/cpu3/cpufreq/scaling_min_freq".to_owned(),
            value: "1000".to_owned(),
        })
    );
    let mut mains = adapter("AC");
    assert_eq!(
        mains.set_charge_threshold_start(Fixed::from_micros(500_000)),
        Err(ApplyError::ThresholdsUnsupported)
    );
    let mut bat = battery("BAT0");
    assert_eq!(
        bat.set_charge_threshold_end(Fixed::from_micros(1_000_001)),
        Err(ApplyError::ThresholdOutOfRange)
    );
    assert_eq!(
        bat.set_charge_threshold_end(Fixed::from_micros(-1)),
        Err(ApplyError::ThresholdOutOfRange)
    );
    assert_eq!(
        PowerSupply::set_platform_profile("loud", &names(&["quiet"])),
        Err(ApplyError::ProfileUnavailable)
    );
}

#[test]
fn the_default_rule_always_holds_and_sets_nothing() {
    let rule = Rule::default();
    assert_eq!(rule.name, "");
    assert_eq!(rule.priority, 0);
    assert_eq!(rule.condition, Expression::Boolean(true));
    assert_eq!(rule.cpu, CpuDeltaSpec::new());
    assert_eq!(rule.power, PowerDeltaSpec::new());
    assert_eq!(CpuDeltaSpec::default(), CpuDeltaSpec::new());
    assert_eq!(PowerDeltaSpec::default(), PowerDeltaSpec::new());
    assert!(CpuDeltaSpec::default().governor.is_none());
    assert!(PowerDeltaSpec::default().charge_threshold_end.is_none());
}

#[test]
fn a_configuration_is_valid_when_its_priorities_ascend() {
    assert!(config(vec![]).is_valid());
    assert!(config(vec![rule(3, Expression::Boolean(true))]).is_valid());
    assert!(config(vec![
        rule(30, Expression::Boolean(true)),
        rule(10, Expression::Boolean(true)),
        rule(20, Expression::Boolean(true)),
    ])
    .is_valid());
    let unsorted = DaemonConfig {
        rules: vec![rule(20, Expression::Boolean(true)), rule(10, Expression::Boolean(true))],
    };
    assert!(!unsorted.is_valid());
    let twice = DaemonConfig {
        rules: vec![rule(10, Expression::Boolean(true)), rule(10, Expression::Boolean(true))],
    };
    assert!(!twice.is_valid());
}
