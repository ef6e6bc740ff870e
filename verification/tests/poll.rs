use watt::history::CpuVolatility;
use watt::number::Fixed;
use watt::poll::{idle_multiplier, polling_delay, sleep_after, PollSignals};

fn quiet() -> PollSignals {
    PollSignals {
        discharging: false,
        discharge_rate: None,
        cpu_idle: false,
        idle_for_ms: 0,
        volatility: None,
        previous_ms: None,
    }
}

fn volatility(usage: i64, temperature: i64) -> Option<CpuVolatility> {
    Some(CpuVolatility {
        usage: Fixed::from_micros(usage),
        temperature: Fixed::from_micros(temperature),
    })
}

#[test]
fn idle_multiplier_at_its_ends() {
    assert_eq!(idle_multiplier(0), Fixed::from_micros(1_000_000));
    assert_eq!(idle_multiplier(120_000), Fixed::from_micros(2_000_000));
    assert_eq!(idle_multiplier(960_000), Fixed::from_micros(5_000_000));
    assert_eq!(idle_multiplier(65_536 * 60_000), Fixed::from_micros(5_000_000));
    assert_eq!(idle_multiplier(u64::MAX), Fixed::from_micros(5_000_000));
}

#[test]
fn idle_multiplier_is_linear_below_two_minutes() {
    assert_eq!(idle_multiplier(30_000), Fixed::from_micros(1_250_000));
    assert_eq!(idle_multiplier(60_000), Fixed::from_micros(1_500_000));
    assert_eq!(idle_multiplier(60_999), Fixed::from_micros(1_500_000));
    assert_eq!(idle_multiplier(119_999), Fixed::from_micros(1_991_667));
}

#[test]
fn idle_multiplier_is_logarithmic_above_two_minutes() {
    // 1 + log2(5) = 3.3219280...
    assert_eq!(idle_multiplier(300_000), Fixed::from_micros(3_321_928));
    // 1 + log2(10) = 4.3219280...
    assert_eq!(idle_multiplier(600_000), Fixed::from_micros(4_321_928));
    // 1 + log2(4) = 3
    assert_eq!(idle_multiplier(240_000), Fixed::from_micros(3_000_000));
    assert_eq!(idle_multiplier(480_000), Fixed::from_micros(4_000_000));
    assert_eq!(idle_multiplier(959_999), Fixed::from_micros(4_998_496));
}

#[test]
fn idle_multiplier_stays_between_one_and_five() {
    let mut ms: u64 = 0;
    while ms < 2_000_000 {
        let factor = idle_multiplier(ms).micros();
        assert!((1_000_000..=5_000_000).contains(&factor), "{ms} gives {factor}");
        ms += 7_919;
    }
}

#[test]
fn base_delay_is_five_seconds() {
    assert_eq!(polling_delay(&quiet()), 5_000);
}

#[test]
fn discharging_stretches_the_delay() {
    let mut signals = quiet();
    signals.discharging = true;
    signals.discharge_rate = Some(Fixed::from_micros(200_001));
    assert_eq!(polling_delay(&signals), 15_000);
    signals.discharge_rate = Some(Fixed::from_micros(200_000));
    assert_eq!(polling_delay(&signals), 10_000);
    signals.discharge_rate = Some(Fixed::from_micros(100_001));
    assert_eq!(polling_delay(&signals), 10_000);
    signals.discharge_rate = Some(Fixed::from_micros(100_000));
    assert_eq!(polling_delay(&signals), 7_500);
    signals.discharge_rate = None;
    assert_eq!(polling_delay(&signals), 10_000);
}

#[test]
fn a_rate_without_discharge_changes_nothing() {
    let mut signals = quiet();
    signals.discharge_rate = Some(Fixed::from_micros(900_000));
    assert_eq!(polling_delay(&signals), 5_000);
}

#[test]
fn idleness_counts_only_after_thirty_seconds() {
    let mut signals = quiet();
    signals.cpu_idle = true;
    signals.idle_for_ms = 30_000;
    assert_eq!(polling_delay(&signals), 5_000);
    signals.idle_for_ms = 30_001;
    assert_eq!(polling_delay(&signals), 6_250);
    signals.cpu_idle = false;
    assert_eq!(polling_delay(&signals), 5_000);
}

#[test]
fn volatility_halves_the_delay() {
    let mut signals = quiet();
    signals.volatility = volatility(100_001, 0);
    assert_eq!(polling_delay(&signals), 2_500);
    signals.volatility = volatility(100_000, 20_000);
    assert_eq!(polling_delay(&signals), 5_000);
    signals.volatility = volatility(0, 20_001);
    assert_eq!(polling_delay(&signals), 2_500);
}

#[test]
fn the_delay_is_smoothed_against_the_previous_one() {
    let mut signals = quiet();
    signals.previous_ms = Some(10_000);
    // 0.3 * 5000 + 0.7 * 10000
    assert_eq!(polling_delay(&signals), 8_500);
}

#[test]
fn the_delay_is_held_between_one_and_thirty_seconds() {
    let mut signals = quiet();
    signals.previous_ms = Some(0);
    signals.volatility = volatility(900_000, 0);
    // 0.3 * 2500 = 750 ms, held at one second.
    assert_eq!(polling_delay(&signals), 1_000);
    signals.previous_ms = Some(u64::MAX);
    assert_eq!(polling_delay(&signals), 30_000);
    let mut long = quiet();
    long.discharging = true;
    long.discharge_rate = Some(Fixed::from_micros(500_000));
    long.cpu_idle = true;
    long.idle_for_ms = 3_600_000;
    // 15 s * 5 = 75 s, held at thirty seconds.
    assert_eq!(polling_delay(&long), 30_000);
}

#[test]
fn poll_delay_feedback() {
    // Idle for five minutes, nothing discharging, calm samples, and a
    // previous delay of five seconds: 5 s * 3.32 = 16.61 s, smoothed to
    // 0.3 * 16.61 + 0.7 * 5 = 8.48 s.
    let signals = PollSignals {
        discharging: false,
        discharge_rate: None,
        cpu_idle: true,
        idle_for_ms: 300_000,
        volatility: volatility(10_000, 5_000),
        previous_ms: Some(5_000),
    };
    assert_eq!(polling_delay(&signals), 8_483);
    // The tick after feeds on the delay just computed.
    let next = PollSignals { previous_ms: Some(8_483), ..signals };
    assert_eq!(polling_delay(&next), 10_921);
}

#[test]
fn sleep_is_what_is_left_of_the_delay() {
    assert_eq!(sleep_after(5_000, 1_200), 3_800);
    assert_eq!(sleep_after(5_000, 5_000), 0);
    assert_eq!(sleep_after(5_000, 9_000), 0);
}
