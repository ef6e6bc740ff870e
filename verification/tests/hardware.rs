use std::collections::HashMap;

use watt::cpu::{
    cpufreq_path, epb_choices, get_cpu_model, number_of_entry, numbers_or_count,
    parse_stat, Cpu, CpuReadings, CpuRescanCache, CpuStat, CpuStatEntry,
};
use watt::number::Fixed;
use watt::power_supply::{
    threshold_config, PowerSupply, PowerSupplyReadings, PowerSupplyThresholdConfig, ThresholdFiles,
};
use watt::sysfs::{ApplyError, Write};
use watt::system::{
    celsius_from_millis, core_of_label, is_cpu_monitor, is_cpu_zone, parse_load_average,
    record_temperature, DesktopProbe, HwmonDevice, HwmonSensor, LoadAverage, Scan,
    ScanError, System, ThermalZone,
};

fn stat(user: u64, idle: u64, iowait: u64) -> CpuStat {
    CpuStat { user, nice: 0, system: 0, idle, iowait, irq: 0, softirq: 0, steal: 0 }
}

fn names(list: &[&str]) -> Vec<String> {
    list.iter().map(|s| s.to_string()).collect()
}

#[test]
fn stat_totals() {
    let s = CpuStat {
        user: 1,
        nice: 2,
        system: 3,
        idle: 4,
        iowait: 5,
        irq: 6,
        softirq: 7,
        steal: 8,
    };
    assert!(s.is_valid());
    assert_eq!(s.total(), 36);
    assert_eq!(s.idle(), 9);
    assert_eq!(s.usage(), Fixed::from_micros(750_000));
    assert_eq!(CpuStat::zero().usage(), Fixed::from_micros(0));
    assert!(!stat(u64::MAX, 1, 0).is_valid());
    let mut cpu = Cpu::new(3);
    assert_eq!(cpu.time_total(), 0);
    cpu.stat = s;
    assert_eq!(cpu.time_total(), 36);
    assert_eq!(cpu.time_idle(), 9);
}

#[test]
fn usage_is_measured_between_two_scans() {
    let earlier = stat(100, 900, 0);
    let later = stat(400, 1_500, 100);
    // 300 of 1000 ticks were busy.
    assert_eq!(later.usage_since(&earlier), Fixed::from_micros(300_000));
    assert_eq!(later.usage_since(&later), Fixed::from_micros(0));
    // Counters that ran backwards count as no usage.
    assert_eq!(earlier.usage_since(&later), Fixed::from_micros(0));
    assert_eq!(stat(1, 2, 0).usage_since(&CpuStat::zero()), Fixed::from_micros(333_333));
    // No overflow at the end of the range.
    assert_eq!(stat(u64::MAX, u64::MAX, 0).usage(), Fixed::from_micros(500_000));
}

const PROC_STAT: &str = "cpu  10 20 30 40 50 60 70 80 0 0
cpu0 1 2 3 4 5 6 7 8 9 10
cpu1 11 12 13 14 15 16 17 18 0 0
intr 12345 0 0
cpu2 1 2 3
cpu3 1 2 3 4 5 6 7 x
cpu5\t21  22 23 24 25 26 27 28
ctxt 99
";

#[test]
fn the_kernel_statistics_are_parsed() {
    let entries = parse_stat(PROC_STAT);
    assert_eq!(
        entries,
        vec![
            CpuStatEntry {
                number: 0,
                stat: CpuStat {
                    user: 1,
                    nice: 2,
                    system: 3,
                    idle: 4,
                    iowait: 5,
                    irq: 6,
                    softirq: 7,
                    steal: 8,
                },
            },
            CpuStatEntry {
                number: 1,
                stat: CpuStat {
                    user: 11,
                    nice: 12,
                    system: 13,
                    idle: 14,
                    iowait: 15,
                    irq: 16,
                    softirq: 17,
                    steal: 18,
                },
            },
            CpuStatEntry {
                number: 5,
                stat: CpuStat {
                    user: 21,
                    nice: 22,
                    system: 23,
                    idle: 24,
                    iowait: 25,
                    irq: 26,
                    softirq: 27,
                    steal: 28,
                },
            },
        ]
    );
    let cache = CpuRescanCache::new(PROC_STAT);
    let by_number: HashMap<u32, CpuStat> = entries.iter().map(|e| (e.number, e.stat)).collect();
    assert_eq!(cache.stat, by_number);
    assert_eq!(cache.stat_of(5).unwrap().steal, 28);
    assert_eq!(cache.stat_of(2), None);
    assert_eq!(CpuRescanCache::default().stat_of(0), None);
    assert_eq!(cache.stat.len(), entries.len());
    // Of two lines for one CPU the later one counts.
    let twice = CpuRescanCache::new("cpu 0\ncpu1 1 1 1 1 1 1 1 1\ncpu1 2 2 2 2 2 2 2 2\n");
    assert_eq!(twice.stat.len(), 1);
    assert_eq!(twice.stat_of(1).unwrap().user, 2);
    // A carriage return before the line feed is part of the line's end.
    let dos = CpuRescanCache::new("cpu 0\r\ncpu3 1 2 3 4 5 6 7 8\r\n");
    assert_eq!(dos.stat_of(3).unwrap().steal, 8);
    assert_eq!(parse_stat("cpu 0\ncpu+3 +1 2 3 4 5 6 7 8\n")[0].number, 3);
    assert_eq!(parse_stat(""), vec![]);
    assert_eq!(parse_stat("cpu0 1 2 3 4 5 6 7 8"), vec![]);
}

fn readings() -> CpuReadings {
    CpuReadings {
        exists: true,
        has_cpufreq: true,
        scaling_available_governors: Some("performance  powersave\tschedutil\n".to_owned()),
        scaling_governor: Some("powersave".to_owned()),
        scaling_driver: Some("intel_pstate".to_owned()),
        scaling_cur_freq: Some(1_799_999),
        scaling_min_freq: Some(400_000),
        scaling_max_freq: Some(3_333_000),
        energy_performance_available_preferences: None,
        energy_performance_preference: Some("balance_power".to_owned()),
        energy_performance_bias: Some("6".to_owned()),
    }
}

#[test]
fn a_cpu_is_scanned() {
    let stats = CpuRescanCache::new(PROC_STAT);
    let cpu = Cpu::scanned(1, readings(), &stats).unwrap();
    assert_eq!(cpu.number, 1);
    assert!(cpu.has_cpufreq);
    assert_eq!(cpu.available_governors, names(&["performance", "powersave", "schedutil"]));
    assert_eq!(cpu.governor, Some("powersave".to_owned()));
    assert_eq!(cpu.driver, Some("intel_pstate".to_owned()));
    assert_eq!(cpu.frequency_mhz, Some(1_799));
    assert_eq!(cpu.frequency_mhz_minimum, Some(400));
    assert_eq!(cpu.frequency_mhz_maximum, Some(3_333));
    assert_eq!(cpu.available_epps, names(&[]));
    assert_eq!(cpu.epp, Some("balance_power".to_owned()));
    assert_eq!(cpu.available_epbs, epb_choices());
    assert_eq!(cpu.available_epbs.len(), 21);
    assert_eq!(cpu.epb, Some("6".to_owned()));
    assert_eq!(cpu.stat.user, 11);
    assert_eq!(cpu.temperature, None);
    assert!(cpu.offers_governor(&"schedutil".to_owned()));
    assert!(!cpu.offers_governor(&"ondemand".to_owned()));
    assert!(cpu.offers_epb(&"balance-power".to_owned()));
    assert!(!cpu.offers_epp(&"performance".to_owned()));
    assert!(cpu.has_driver(&"intel_pstate".to_owned()));
}

#[test]
fn a_cpu_without_cpufreq_offers_nothing() {
    let stats = CpuRescanCache::new(PROC_STAT);
    let mut cpu = Cpu::scanned(0, readings(), &stats).unwrap();
    let mut bare = readings();
    bare.has_cpufreq = false;
    assert_eq!(cpu.rescan(bare, &stats), Ok(()));
    assert!(!cpu.has_cpufreq);
    assert_eq!(cpu.available_governors, names(&[]));
    assert_eq!(cpu.available_epbs, names(&[]));
    assert_eq!(cpu.governor, None);
    assert_eq!(cpu.epp, None);
    assert_eq!(cpu.epb, None);
    assert_eq!(cpu.frequency_mhz_maximum, None);
    let mut expected = Cpu::new(0);
    expected.stat = cpu.stat;
    assert_eq!(cpu, expected);
}

#[test]
fn readings_that_lack_something_are_refused() {
    let stats = CpuRescanCache::new(PROC_STAT);
    let refused = |number: u32, change: &dyn Fn(&mut CpuReadings), error: ScanError| {
        let mut r = readings();
        change(&mut r);
        assert_eq!(Cpu::scanned(number, r, &stats), Err(error));
    };
    refused(0, &|r| r.exists = false, ScanError::CpuMissing);
    refused(0, &|r| r.scaling_governor = None, ScanError::GovernorMissing);
    refused(0, &|r| r.scaling_cur_freq = None, ScanError::FrequencyMissing);
    refused(0, &|r| r.scaling_min_freq = None, ScanError::FrequencyMissing);
    refused(0, &|r| r.scaling_max_freq = None, ScanError::FrequencyMissing);
    refused(0, &|r| r.energy_performance_preference = None, ScanError::EppMissing);
    refused(0, &|r| r.energy_performance_bias = None, ScanError::EpbMissing);
    refused(4, &|_| {}, ScanError::StatMissing);
    // A refused scan changes nothing.
    let mut cpu = Cpu::scanned(0, readings(), &stats).unwrap();
    let mut bad = readings();
    bad.scaling_governor = None;
    bad.scaling_max_freq = Some(1);
    assert_eq!(cpu.rescan(bad, &stats), Err(ScanError::GovernorMissing));
    assert_eq!(cpu, Cpu::scanned(0, readings(), &stats).unwrap());
}

#[test]
fn the_model_of_the_cpu_is_found() {
    let cpuinfo = "processor\t: 0\nvendor_id\t: GenuineIntel\nmodel\t\t: 142\nmodel name\t: \
                   Intel(R) Core(TM) i7-8550U CPU @ 1.80GHz\nstepping\t: 10\nmodel name\t: other\n";
    assert_eq!(
        get_cpu_model(cpuinfo),
        Some("Intel(R) Core(TM) i7-8550U CPU @ 1.80GHz".to_owned())
    );
    assert_eq!(get_cpu_model("model name: a : b"), Some("a".to_owned()));
    assert_eq!(get_cpu_model("model name\nmodel name :x"), Some("x".to_owned()));
    assert_eq!(get_cpu_model("model : 1\nname: y"), None);
    assert_eq!(get_cpu_model(""), None);
}

#[test]
fn a_power_supply_is_named_by_its_path() {
    let supply =
        PowerSupply::from_path("/sys/class/power_supply/BAT1".to_owned(), battery_readings());
    assert_eq!(supply.name, "BAT1");
    assert_eq!(supply.path, "/sys/class/power_supply/BAT1");
    assert_eq!(supply.type_, "Battery");
    assert_eq!(PowerSupply::from_path("AC".to_owned(), battery_readings()).name, "AC");
    assert_eq!(PowerSupply::from_path("a/b/".to_owned(), battery_readings()).name, "");
    assert_eq!(PowerSupply::platform_profile(Some("balanced\n")), Some("balanced".to_owned()));
    assert_eq!(PowerSupply::platform_profile(None), None);
}

#[test]
fn cpus_are_numbered_by_their_directories() {
    assert_eq!(number_of_entry("cpu0"), Some(0));
    assert_eq!(number_of_entry("cpu17"), Some(17));
    assert_eq!(number_of_entry("cpu4294967295"), Some(u32::MAX));
    assert_eq!(number_of_entry("cpu4294967296"), None);
    assert_eq!(number_of_entry("cpufreq"), None);
    assert_eq!(number_of_entry("cpu"), None);
    assert_eq!(number_of_entry("cpu-1"), None);
    assert_eq!(number_of_entry("power"), None);
    assert_eq!(
        Cpu::all(&names(&["cpu1", "cpufreq", "cpu0", "cpuidle", "online", "cpu12"])),
        vec![1, 0, 12]
    );
    assert_eq!(numbers_or_count(vec![3, 4], 8), vec![3, 4]);
    assert_eq!(numbers_or_count(vec![], 3), vec![0, 1, 2]);
    assert_eq!(numbers_or_count(vec![], 0), vec![]);
    // Without any directory the count of logical CPUs decides.
    let fallback = Cpu::all(&names(&["cpufreq"]));
    assert!(!fallback.is_empty());
    assert_eq!(number_of_entry("cpu+7"), Some(7));
    for (i, number) in fallback.iter().enumerate() {
        assert_eq!(*number, i as u32);
    }
}

#[test]
fn setters_hand_back_the_write() {
    let stats = CpuRescanCache::new(PROC_STAT);
    let mut cpu = Cpu::scanned(5, readings(), &stats).unwrap();
    let write = |file: &str, value: &str| -> Result<Write, ApplyError> {
        Ok(Write { path: cpufreq_path(5, file), value: value.to_owned() })
    };
    assert_eq!(cpufreq_path(5, "boost"), "/sys/devices/system/cpu/cpu5/cpufreq/boost");
    assert_eq!(cpu.set_governor("schedutil"), write("scaling_governor", "schedutil"));
    assert_eq!(cpu.governor, Some("schedutil".to_owned()));
    assert_eq!(cpu.set_governor("ondemand"), Err(ApplyError::GovernorUnavailable));
    assert_eq!(cpu.governor, Some("schedutil".to_owned()));
    assert_eq!(cpu.set_epp("default"), Err(ApplyError::EppUnavailable));
    assert_eq!(cpu.set_epb("balance_power"), write("energy_performance_bias", "balance_power"));
    assert_eq!(cpu.epb, Some("balance_power".to_owned()));
    assert_eq!(cpu.set_frequency_mhz_minimum(800), write("scaling_min_freq", "800000"));
    assert_eq!(cpu.frequency_mhz_minimum, Some(800));
    // The minimum of the last scan is now 800 MHz.
    assert_eq!(cpu.set_frequency_mhz_minimum(799), Err(ApplyError::FrequencyBelowMinimum));
    assert_eq!(cpu.set_frequency_mhz_maximum(3_333), write("scaling_max_freq", "3333000"));
    assert_eq!(cpu.set_frequency_mhz_maximum(3_334), Err(ApplyError::FrequencyAboveMaximum));
}

#[test]
fn turbo_fallback() {
    let cpus = vec![Cpu::new(0), Cpu::new(7)];
    let attempt = |on: bool, failed: usize| Cpu::set_turbo(on, &cpus, failed);
    let write = |path: &str, value: &str| -> Result<Write, ApplyError> {
        Ok(Write { path: path.to_owned(), value: value.to_owned() })
    };
    // The switch of the Intel driver is inverted.
    assert_eq!(attempt(false, 0), write("/sys/devices/system/cpu/intel_pstate/no_turbo", "1"));
    assert_eq!(attempt(true, 0), write("/sys/devices/system/cpu/intel_pstate/no_turbo", "0"));
    assert_eq!(attempt(false, 1), write("/sys/devices/system/cpu/amd_pstate/cpufreq/boost", "0"));
    assert_eq!(
        attempt(false, 2),
        write("/sys/devices/system/cpu/cpufreq/amd_pstate_enable_boost", "0")
    );
    // With only the generic switch there, the fourth attempt writes it.
    assert_eq!(attempt(false, 3), write("/sys/devices/system/cpu/cpufreq/boost", "0"));
    assert_eq!(attempt(true, 3), write("/sys/devices/system/cpu/cpufreq/boost", "1"));
    assert_eq!(attempt(true, 4), write("/sys/devices/system/cpu/cpu0/cpufreq/boost", "1"));
    assert_eq!(attempt(true, 5), write("/sys/devices/system/cpu/cpu7/cpufreq/boost", "1"));
    assert_eq!(attempt(true, 6), Err(ApplyError::NoTurboControl));
    assert_eq!(attempt(true, usize::MAX), Err(ApplyError::NoTurboControl));
    assert_eq!(Cpu::turbo(Some(0), Some(0)), Some(true));
    assert_eq!(Cpu::turbo(Some(1), Some(1)), Some(false));
    assert_eq!(Cpu::turbo(None, Some(1)), Some(true));
    assert_eq!(Cpu::turbo(None, Some(0)), Some(false));
    assert_eq!(Cpu::turbo(None, None), None);
}

fn battery_readings() -> PowerSupplyReadings {
    PowerSupplyReadings {
        type_: "Battery".to_owned(),
        energy_full: Some(56_000_000),
        model_name: Some("DELL 1VX1H93".to_owned()),
        status: Some("Discharging".to_owned()),
        capacity: Some(87),
        charge_control_start_threshold: Some(40),
        charge_control_end_threshold: None,
        power_now: None,
        current_now: Some(1_500_000),
        voltage_now: Some(12_000_000),
        threshold_files: [
            ThresholdFiles { start: true, end: false },
            ThresholdFiles { start: false, end: false },
            ThresholdFiles { start: true, end: true },
            ThresholdFiles { start: true, end: true },
        ],
    }
}

#[test]
fn a_battery_is_scanned() {
    let supply = PowerSupply::from_name("BAT0".to_owned(), battery_readings());
    assert_eq!(supply.name, "BAT0");
    assert_eq!(supply.path, "/sys/class/power_supply/BAT0");
    assert_eq!(supply.type_, "Battery");
    assert!(!supply.is_from_peripheral);
    assert!(!supply.is_ac());
    assert_eq!(supply.charge_state, Some("Discharging".to_owned()));
    assert_eq!(supply.charge_percent, Some(Fixed::from_micros(870_000)));
    assert_eq!(supply.charge_threshold_start, Fixed::from_micros(400_000));
    assert_eq!(supply.charge_threshold_end, Fixed::from_micros(1_000_000));
    // 1.5 A at 12 V.
    assert_eq!(supply.drain_rate_watts, Some(Fixed::from_micros(18_000_000)));
    // The first profile whose two files exist.
    assert_eq!(
        supply.threshold_config,
        Some(PowerSupplyThresholdConfig {
            manufacturer: "ThinkPad/Huawei",
            path_start: "charge_start_threshold",
            path_end: "charge_stop_threshold",
        })
    );
    assert_eq!(
        supply.charge_threshold_path_start(),
        Some("/sys/class/power_supply/BAT0/charge_start_threshold".to_owned())
    );
    assert_eq!(
        supply.charge_threshold_path_end(),
        Some("/sys/class/power_supply/BAT0/charge_stop_threshold".to_owned())
    );
}

#[test]
fn vendor_profiles_in_their_order() {
    let manufacturers: Vec<&str> = (0..4).map(|i| threshold_config(i).manufacturer).collect();
    assert_eq!(manufacturers, vec!["Standard", "ASUS", "ThinkPad/Huawei", "Framework"]);
    assert_eq!(threshold_config(0).path_start, "charge_control_start_threshold");
    assert_eq!(threshold_config(0).path_end, "charge_control_end_threshold");
    assert_eq!(threshold_config(1).path_start, "charge_control_start_percentage");
    assert_eq!(threshold_config(1).path_end, "charge_control_end_percentage");
    assert_eq!(threshold_config(3).path_start, "charge_behaviour_start_threshold");
    assert_eq!(threshold_config(3).path_end, "charge_behaviour_end_threshold");
}

#[test]
fn the_power_is_taken_where_it_is_read() {
    let mut readings = battery_readings();
    readings.power_now = Some(-7_250_000);
    let supply = PowerSupply::from_name("BAT0".to_owned(), readings);
    assert_eq!(supply.drain_rate_watts, Some(Fixed::from_micros(-7_250_000)));
    let mut readings = battery_readings();
    readings.voltage_now = None;
    let supply = PowerSupply::from_name("BAT0".to_owned(), readings);
    assert_eq!(supply.drain_rate_watts, None);
}

#[test]
fn peripherals_are_told_apart() {
    let peripheral = |name: &str, change: &dyn Fn(&mut PowerSupplyReadings)| {
        let mut readings = battery_readings();
        change(&mut readings);
        PowerSupply::from_name(name.to_owned(), readings)
    };
    for name in [
        "hid-mouse-battery",
        "Logitech KEYBOARD",
        "apple_TrackPad",
        "GamePad0",
        "ps-controller-battery-00",
        "Headset",
        "sony_headphones",
    ] {
        let supply = peripheral(name, &|_| {});
        assert!(supply.is_from_peripheral, "{name}");
        // A peripheral takes no thresholds.
        assert_eq!(supply.threshold_config, None);
        assert_eq!(supply.charge_threshold_path_start(), None);
    }
    assert!(peripheral("BAT1", &|r| r.energy_full = Some(9_999_999)).is_from_peripheral);
    assert!(!peripheral("BAT1", &|r| r.energy_full = Some(10_000_000)).is_from_peripheral);
    assert!(!peripheral("BAT1", &|r| r.energy_full = None).is_from_peripheral);
    assert!(
        peripheral("BAT1", &|r| r.model_name = Some("MX Master (Bluetooth)".to_owned()))
            .is_from_peripheral
    );
    assert!(
        peripheral("BAT1", &|r| r.model_name = Some("WIRELESS dongle".to_owned()))
            .is_from_peripheral
    );
    assert!(!peripheral("BAT1", &|r| r.model_name = None).is_from_peripheral);
}

#[test]
fn mains_supplies() {
    let of_type = |type_: &str, peripheral: bool| {
        let mut supply = PowerSupply::unscanned("x".to_owned(), "/x".to_owned());
        supply.type_ = type_.to_owned();
        supply.is_from_peripheral = peripheral;
        supply.is_ac()
    };
    for type_ in ["Mains", "USB_PD_DRP", "USB_PD", "USB_DCP", "USB_CDP", "USB_ACA"] {
        assert!(of_type(type_, false), "{type_}");
        assert!(!of_type(type_, true), "{type_}");
    }
    assert!(of_type("AC", true));
    assert!(of_type("ACAD", false));
    assert!(of_type("XACAD", true));
    assert!(of_type("ADP1", true));
    assert!(!of_type("Battery", false));
    assert!(!of_type("USB", false));
    assert!(!of_type("", false));
}

#[test]
fn another_supply_keeps_what_it_had() {
    let mut supply = PowerSupply::from_name("BAT0".to_owned(), battery_readings());
    let mut mains = battery_readings();
    mains.type_ = "Mains".to_owned();
    mains.capacity = Some(1);
    supply.rescan(mains);
    assert_eq!(supply.type_, "Mains");
    assert_eq!(supply.charge_percent, Some(Fixed::from_micros(870_000)));
    assert_eq!(supply.charge_state, Some("Discharging".to_owned()));
    assert_eq!(supply.threshold_config, None);
    assert!(supply.is_ac());
}

#[test]
fn thresholds_are_read_back_as_the_nearest_hundredth() {
    let mut supply = PowerSupply::from_name("BAT0".to_owned(), battery_readings());
    for (fraction, percent) in [
        (0, 0),
        (4_999, 0),
        (5_000, 1),
        (400_000, 40),
        (404_999, 40),
        (405_000, 41),
        (994_999, 99),
        (995_000, 100),
        (1_000_000, 100),
    ] {
        let write = supply.set_charge_threshold_start(Fixed::from_micros(fraction)).unwrap();
        assert_eq!(write.path, "/sys/class/power_supply/BAT0/charge_start_threshold");
        assert_eq!(write.value, percent.to_string());
        assert_eq!(supply.charge_threshold_start, Fixed::from_micros(fraction));
        // The next scan reads the file that was written.
        let mut readings = battery_readings();
        readings.charge_control_start_threshold =
            watt::fs::read_n(Some(write.value.as_str())).unwrap();
        supply.rescan(readings);
        assert_eq!(supply.charge_threshold_start, Fixed::from_micros(percent * 10_000));
    }
}

#[test]
fn platform_profiles() {
    let available =
        PowerSupply::get_available_platform_profiles(Some("low-power balanced performance\n"));
    assert_eq!(available, names(&["low-power", "balanced", "performance"]));
    assert_eq!(PowerSupply::get_available_platform_profiles(None), names(&[]));
    assert_eq!(
        PowerSupply::set_platform_profile("balanced", &available),
        Ok(Write {
            path: "/sys/firmware/acpi/platform_profile".to_owned(),
            value: "balanced".to_owned(),
        })
    );
    assert_eq!(
        PowerSupply::set_platform_profile("balance", &available),
        Err(ApplyError::ProfileUnavailable)
    );
}

#[test]
fn sensor_labels_name_cores() {
    for (label, core) in [
        ("Core 0", Some(0)),
        ("Core 12", Some(12)),
        ("core 3", Some(3)),
        ("Core-7", Some(7)),
        ("CPU Core 2", Some(2)),
        ("cpu core 5", Some(5)),
        ("cpucpu  CoreCore -- 9  ", Some(9)),
        ("Tccd1", Some(1)),
        ("Tccd 2", Some(2)),
        ("Tdie", None),
        ("Tctl", None),
        ("Package id 0", None),
        ("Core", None),
        ("3", Some(3)),
        ("  4", Some(4)),
        ("Core 4294967296", None),
        ("Core 1a", None),
        ("Core CPU 1", None),
        ("", None),
    ] {
        assert_eq!(core_of_label(label), core, "{label:?}");
    }
}

#[test]
fn monitors_and_zones_that_measure_the_cpu() {
    for name in ["coretemp", "k10temp", "zenpower", "amdgpu", "cpu_thermal", "acpitemp"] {
        assert!(is_cpu_monitor(name), "{name}");
    }
    for name in ["nvme", "iwlwifi_1", "BAT0", ""] {
        assert!(!is_cpu_monitor(name), "{name}");
    }
    for type_ in ["x86_pkg_temp", "cpu-thermal", "soc-core0"] {
        assert!(is_cpu_zone(type_), "{type_}");
    }
    assert!(!is_cpu_zone("acpitz"));
    assert_eq!(celsius_from_millis(45_500), Fixed::from_micros(45_500_000));
    assert_eq!(celsius_from_millis(-1), Fixed::from_micros(-1_000));
    assert_eq!(celsius_from_millis(i64::MAX), Fixed::from_micros(i64::MAX));
    assert_eq!(celsius_from_millis(i64::MIN), Fixed::from_micros(i64::MIN));
}

fn sensor(label: &str, input: i64) -> HwmonSensor {
    HwmonSensor { label: Some(label.to_owned()), input: Some(input) }
}

fn celsius(list: &[(u32, i64)]) -> HashMap<u32, Fixed> {
    list.iter().map(|(core, micros)| (*core, Fixed::from_micros(*micros))).collect()
}

#[test]
fn temperatures_come_from_the_monitors() {
    let devices = vec![
        HwmonDevice { name: Some("nvme".to_owned()), sensors: vec![sensor("Core 0", 1)] },
        HwmonDevice { name: None, sensors: vec![sensor("Core 0", 2)] },
        HwmonDevice {
            name: Some("coretemp".to_owned()),
            sensors: vec![
                sensor("Package id 0", 50_000),
                sensor("Core 0", 45_000),
                sensor("Core 1", 46_500),
                HwmonSensor { label: None, input: Some(1) },
                HwmonSensor { label: Some("Core 2".to_owned()), input: None },
            ],
        },
        HwmonDevice { name: Some("k10temp".to_owned()), sensors: vec![sensor("Core 0", 47_000)] },
    ];
    let zones = vec![ThermalZone {
        name: "thermal_zone0".to_owned(),
        type_: Some("x86_pkg_temp".to_owned()),
        temp: Some(99_000),
    }];
    let mut system = System::empty();
    system.rescan_temperatures(&devices, &zones);
    // A later reading for a core replaces the earlier one.
    assert_eq!(system.cpu_temperatures, celsius(&[(0, 47_000_000), (1, 46_500_000)]));
}

#[test]
fn thermal_zones_stand_in_for_missing_monitors() {
    let zone = |name: &str, type_: Option<&str>, temp: Option<i64>| ThermalZone {
        name: name.to_owned(),
        type_: type_.map(str::to_owned),
        temp,
    };
    let zones = vec![
        zone("cooling_device0", Some("cpu"), Some(1)),
        zone("thermal_zone0", Some("acpitz"), Some(2)),
        zone("thermal_zone1", Some("x86_pkg_temp"), Some(51_000)),
        zone("thermal_zone2", None, Some(3)),
        zone("thermal_zone3", Some("cpu-thermal"), None),
        zone("thermal_zone4", Some("soc-core"), Some(-2_500)),
    ];
    let mut system = System::empty();
    system.rescan_temperatures(&vec![], &zones);
    assert_eq!(system.cpu_temperatures, celsius(&[(777, 51_000_000), (778, -2_500_000)]));
    system.rescan_temperatures(&vec![], &vec![]);
    assert_eq!(system.cpu_temperatures, celsius(&[]));
}

#[test]
fn a_reading_replaces_the_one_of_its_core() {
    let mut temperatures = HashMap::new();
    record_temperature(&mut temperatures, 3, Fixed::from_micros(1));
    record_temperature(&mut temperatures, 1, Fixed::from_micros(2));
    record_temperature(&mut temperatures, 3, Fixed::from_micros(3));
    assert_eq!(temperatures, celsius(&[(3, 3), (1, 2)]));
}

#[test]
fn desktops_and_laptops() {
    let probe = |chassis: Option<&str>, battery: bool| {
        System::is_desktop(&DesktopProbe {
            chassis_type: chassis.map(str::to_owned),
            has_battery_path: battery,
        })
    };
    for chassis in ["3", "4", "5", "6", "7", "15", "16", "17", " 3\n"] {
        assert!(probe(Some(chassis), true), "{chassis}");
    }
    for chassis in ["9", "10", "14", "31", "10\n"] {
        assert!(!probe(Some(chassis), false), "{chassis}");
    }
    // Another chassis decides nothing; a battery tells of a laptop.
    assert!(!probe(Some("8"), true));
    assert!(probe(Some("8"), false));
    assert!(probe(Some("33"), false));
    assert!(!probe(None, true));
    assert!(probe(None, false));
}

#[test]
fn load_averages() {
    assert_eq!(
        parse_load_average("0.52 0.58 0.59 1/467 12345\n"),
        Ok(LoadAverage {
            one: Fixed::from_micros(520_000),
            five: Fixed::from_micros(580_000),
            fifteen: Fixed::from_micros(590_000),
        })
    );
    assert_eq!(
        parse_load_average("12 0.1234567 3.000001"),
        Ok(LoadAverage {
            one: Fixed::from_micros(12_000_000),
            five: Fixed::from_micros(123_456),
            fifteen: Fixed::from_micros(3_000_001),
        })
    );
    assert_eq!(parse_load_average("0.52 0.58"), Err(ScanError::MissingLoadAverage));
    assert_eq!(parse_load_average(""), Err(ScanError::MissingLoadAverage));
    assert_eq!(parse_load_average("0.52 x 0.59"), Err(ScanError::BadLoadAverage));
    assert_eq!(parse_load_average("0.52 . 0.59"), Err(ScanError::BadLoadAverage));
    assert_eq!(parse_load_average("1e3 1 1"), Err(ScanError::BadLoadAverage));
    assert_eq!(
        parse_load_average("+.5 1. -1"),
        Ok(LoadAverage {
            one: Fixed::from_micros(500_000),
            five: Fixed::from_micros(1_000_000),
            fifteen: Fixed::from_micros(-1_000_000),
        })
    );
}

fn scan(supplies: Vec<PowerSupply>, chassis: &str, load: &str) -> Scan {
    Scan {
        cpus: vec![Cpu::new(0)],
        power_supplies: supplies,
        probe: DesktopProbe { chassis_type: Some(chassis.to_owned()), has_battery_path: true },
        load_average: load.to_owned(),
        devices: vec![HwmonDevice {
            name: Some("coretemp".to_owned()),
            sensors: vec![sensor("Core 0", 40_000)],
        }],
        zones: vec![],
    }
}

#[test]
fn a_system_is_scanned() {
    let battery = || PowerSupply::from_name("BAT0".to_owned(), battery_readings());
    let adapter = || {
        let mut readings = battery_readings();
        readings.type_ = "Mains".to_owned();
        PowerSupply::from_name("AC".to_owned(), readings)
    };
    let laptop = System::new(scan(vec![battery()], "10", "1.5 1.0 0.5")).unwrap();
    assert!(!laptop.is_ac);
    assert_eq!(laptop.load_average_1min, Fixed::from_micros(1_500_000));
    assert_eq!(laptop.load_average_5min, Fixed::from_micros(1_000_000));
    assert_eq!(laptop.load_average_15min, Fixed::from_micros(500_000));
    assert_eq!(laptop.cpus.len(), 1);
    assert_eq!(laptop.power_supplies.len(), 1);
    assert_eq!(laptop.cpu_temperatures, celsius(&[(0, 40_000_000)]));
    let plugged = System::new(scan(vec![battery(), adapter()], "10", "0 0 0")).unwrap();
    assert!(plugged.is_ac);
    let desktop = System::new(scan(vec![], "3", "0 0 0")).unwrap();
    assert!(desktop.is_ac);
    let mut system = laptop;
    assert_eq!(
        system.rescan(scan(vec![], "3", "nothing")),
        Err(ScanError::MissingLoadAverage)
    );
    assert_eq!(system.power_supplies.len(), 1);
    assert!(!system.is_ac);
    assert_eq!(
        System::new(scan(vec![], "3", "a b c")).err(),
        Some(ScanError::BadLoadAverage)
    );
}
