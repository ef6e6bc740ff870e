use watt::history::{CpuLog, CpuVolatility, History, PowerSupplyLog, LOG_CAPACITY};
use watt::number::Fixed;

fn cpu(at: u64, usage: i64, temperature: i64) -> CpuLog {
    CpuLog {
        at,
        usage: Fixed::from_micros(usage),
        temperature: Fixed::from_micros(temperature),
    }
}

fn power(at: u64, charge: i64) -> PowerSupplyLog {
    PowerSupplyLog { at, charge: Fixed::from_micros(charge) }
}

#[test]
fn rings_never_hold_more_than_a_hundred_samples() {
    let mut history = History::new();
    for i in 0..250u64 {
        history.record_cpu(cpu(i * 1_000, 0, 0));
        history.record_power_supply(power(i * 1_000, 500_000));
        assert!(history.cpu_log().len() <= LOG_CAPACITY);
        assert!(history.power_supply_log().len() <= LOG_CAPACITY);
    }
    assert_eq!(history.cpu_log().len(), 100);
    assert_eq!(history.power_supply_log().len(), 100);
}

#[test]
fn the_oldest_sample_leaves_first() {
    let mut history = History::new();
    for i in 0..103u64 {
        history.record_cpu(cpu(i, i as i64, 0));
    }
    let log = history.cpu_log();
    assert_eq!(log.front().unwrap().at, 3);
    assert_eq!(log.back().unwrap().at, 102);
    for (i, sample) in log.iter().enumerate() {
        assert_eq!(sample.at, i as u64 + 3);
    }
    assert_eq!(history.last_cpu(), Some(cpu(102, 102, 0)));
}

#[test]
fn an_empty_history_has_no_last_sample() {
    let history = History::new();
    assert_eq!(history.last_cpu(), None);
    assert_eq!(history.last_power_supply(), None);
    assert_eq!(history.cpu_volatility(0), None);
    assert_eq!(history.power_supply_discharge_rate(), None);
    assert!(!history.is_cpu_idle(0));
}

#[test]
fn volatility_needs_two_recent_samples() {
    let mut history = History::new();
    history.record_cpu(cpu(0, 100_000, 40_000_000));
    assert_eq!(history.cpu_volatility(1_000), None);
    history.record_cpu(cpu(10_000, 300_000, 41_000_000));
    assert_eq!(
        history.cpu_volatility(20_000),
        Some(CpuVolatility {
            usage: Fixed::from_micros(200_000),
            temperature: Fixed::from_micros(1_000_000),
        })
    );
    // Five minutes after the first sample only the second one is recent.
    assert_eq!(history.cpu_volatility(300_000), None);
    assert!(history.cpu_volatility(299_999).is_some());
}

#[test]
fn volatility_is_the_mean_change_over_every_sample_kept() {
    let mut history = History::new();
    history.record_cpu(cpu(0, 100_000, 50_000_000));
    history.record_cpu(cpu(1_000_000, 400_000, 50_000_000));
    history.record_cpu(cpu(1_001_000, 200_000, 53_000_000));
    history.record_cpu(cpu(1_002_000, 250_000, 52_000_000));
    // The first sample is old, but two recent ones define the volatility,
    // and the changes are (0.3 + 0.2 + 0.05) / 3 and (0 + 3 + 1) / 3.
    assert_eq!(
        history.cpu_volatility(1_003_000),
        Some(CpuVolatility {
            usage: Fixed::from_micros(183_333),
            temperature: Fixed::from_micros(1_333_333),
        })
    );
}

#[test]
fn idle_needs_low_usage_and_low_volatility() {
    let mut calm = History::new();
    calm.record_cpu(cpu(0, 50_000, 0));
    calm.record_cpu(cpu(1_000, 60_000, 0));
    calm.record_cpu(cpu(2_000, 55_000, 0));
    assert!(calm.is_cpu_idle(3_000));
    // Not when the samples are too old.
    assert!(!calm.is_cpu_idle(400_000));

    let mut busy = History::new();
    busy.record_cpu(cpu(0, 100_000, 0));
    busy.record_cpu(cpu(1_000, 100_000, 0));
    // A mean of exactly a tenth is not below a tenth.
    assert!(!busy.is_cpu_idle(2_000));

    let mut jumpy = History::new();
    jumpy.record_cpu(cpu(0, 0, 0));
    jumpy.record_cpu(cpu(1_000, 50_000, 0));
    // The mean is 0.025, but the volatility is exactly a twentieth.
    assert!(!jumpy.is_cpu_idle(2_000));
}

#[test]
fn usage_over_a_window() {
    let mut history = History::new();
    history.record_cpu(cpu(0, 900_000, 0));
    history.record_cpu(cpu(60_000, 200_000, 0));
    history.record_cpu(cpu(90_000, 400_000, 0));
    assert_eq!(history.cpu_usage_since(100_000, 50_000), Some(Fixed::from_micros(300_000)));
    assert_eq!(history.cpu_usage_since(100_000, 11_000), None);
    assert_eq!(history.cpu_usage_since(100_000, 200_000), Some(Fixed::from_micros(500_000)));
    assert_eq!(history.cpu_usage_since(100_000, 0), None);
}

#[test]
fn discharge_rate_needs_two_samples_of_rising_charge() {
    let mut history = History::new();
    history.record_power_supply(power(0, 800_000));
    assert_eq!(history.power_supply_discharge_rate(), None);
    // The charge did not fall between the two newest samples.
    history.record_power_supply(power(3_600_000, 800_000));
    assert_eq!(history.power_supply_discharge_rate(), None);
    history.record_power_supply(power(7_200_000, 900_000));
    assert_eq!(history.power_supply_discharge_rate(), None);
}

#[test]
fn discharge_rate_is_the_charge_lost_per_hour() {
    let mut history = History::new();
    history.record_power_supply(power(0, 500_000));
    history.record_power_supply(power(1_000, 900_000));
    history.record_power_supply(power(1_800_000 + 1_000, 800_000));
    history.record_power_supply(power(3_600_000 + 1_000, 600_000));
    // The walk into the past stops at the first sample, whose charge is
    // lower than that of the one after it: 0.3 lost in one hour.
    assert_eq!(history.power_supply_discharge_rate(), Some(Fixed::from_micros(300_000)));
}

#[test]
fn discharge_rate_without_time_between_samples_is_the_largest_number() {
    let mut history = History::new();
    history.record_power_supply(power(5, 900_000));
    history.record_power_supply(power(5, 800_000));
    assert_eq!(history.power_supply_discharge_rate(), Some(Fixed::from_micros(i64::MAX)));
}
