//! The system as last scanned: its CPUs, their temperatures, and its power
//! supplies.

use std::collections::HashMap;
use vstd::prelude::*;
use crate::cpu::Cpu;
use crate::number::Fixed;
use crate::power_supply::{is_ac_type, PowerSupply};
use crate::text::{
    after_prefixes, chars_of, contains_str, find_non_space, find_non_space_back, has_substring,
    millionths_of, parse_digits, parse_millionths, skip_prefixes, skip_spaces, split_whitespace,
    starts_with, str_eq, text_between, texts, trim, trimmed, u32_of, word_start_back, words,
};

verus! {

/// The system as last scanned.
#[derive(Debug, PartialEq, Eq)]
pub struct System {
    pub is_ac: bool,
    pub load_average_1min: Fixed,
    pub load_average_5min: Fixed,
    pub load_average_15min: Fixed,
    pub cpus: Vec<Cpu>,
    /// The temperature of each core that has one, in degrees Celsius, by
    /// the number of the core.
    pub cpu_temperatures: HashMap<u32, Fixed>,
    pub power_supplies: Vec<PowerSupply>,
}

/// Records `celsius` for `core`, in place of an earlier reading for the
/// same core.
pub fn record_temperature(temperatures: &mut HashMap<u32, Fixed>, core: u32, celsius: Fixed)
    ensures
        final(temperatures)@ == old(temperatures)@.insert(core, celsius),
{
    broadcast use vstd::std_specs::hash::group_hash_axioms;

    temperatures.insert(core, celsius);
}

/// `true` when a hardware monitor of this name measures the CPU.
pub open spec fn measures_cpu(name: Seq<char>) -> bool {
    ||| name == "coretemp"@
    ||| name == "k10temp"@
    ||| name == "zenpower"@
    ||| name == "amdgpu"@
    ||| has_substring(name, "cpu"@)
    ||| has_substring(name, "temp"@)
}

/// `true` when a hardware monitor of this name measures the CPU.
pub fn is_cpu_monitor(name: &str) -> (r: bool)
    ensures
        r == measures_cpu(name@),
{
    str_eq(name, "coretemp") || str_eq(name, "k10temp") || str_eq(name, "zenpower") || str_eq(
        name,
        "amdgpu",
    ) || contains_str(name, "cpu") || contains_str(name, "temp")
}

/// `true` when a thermal zone of this type measures the CPU.
pub open spec fn zone_measures_cpu(type_: Seq<char>) -> bool {
    ||| has_substring(type_, "cpu"@)
    ||| has_substring(type_, "x86"@)
    ||| has_substring(type_, "core"@)
}

/// `true` when a thermal zone of this type measures the CPU.
pub fn is_cpu_zone(type_: &str) -> (r: bool)
    ensures
        r == zone_measures_cpu(type_@),
{
    contains_str(type_, "cpu") || contains_str(type_, "x86") || contains_str(type_, "core")
}

/// Where the core number starts in a sensor's label: behind the prefixes
/// `cpu`, `CPU`, `core`, `Core`, `Tctl`, `Tdie` and `Tccd`, each as often as
/// it stands there, with white space between them, and behind dashes.
pub open spec fn label_number_start(label: Seq<char>) -> int {
    let cpu = after_prefixes(label, after_prefixes(label, 0, "cpu"@), "CPU"@);
    let core = after_prefixes(
        label,
        after_prefixes(label, skip_spaces(label, cpu), "core"@),
        "Core"@,
    );
    let die = after_prefixes(
        label,
        after_prefixes(label, after_prefixes(label, skip_spaces(label, core), "Tctl"@), "Tdie"@),
        "Tccd"@,
    );
    skip_spaces(label, after_prefixes(label, skip_spaces(label, die), "-"@))
}

/// The core that a sensor's label names: what is left of the label behind
/// its prefixes, without white space at its end, read as a number.
pub open spec fn label_core(label: Seq<char>) -> Option<u32> {
    let start = label_number_start(label);
    u32_of(label.subrange(start, word_start_back(label, start, label.len() as int)))
}

/// The core that a sensor's label names, if it names one.
pub fn core_of_label(label: &str) -> (r: Option<u32>)
    ensures
        r == label_core(label@),
{
    let chars = chars_of(label);
    let a = skip_prefixes(&chars, 0, "cpu");
    let b = skip_prefixes(&chars, a, "CPU");
    let c = find_non_space(&chars, b);
    let d = skip_prefixes(&chars, c, "core");
    let e = skip_prefixes(&chars, d, "Core");
    let f = find_non_space(&chars, e);
    let g = skip_prefixes(&chars, f, "Tctl");
    let h = skip_prefixes(&chars, g, "Tdie");
    let i = skip_prefixes(&chars, h, "Tccd");
    let j = find_non_space(&chars, i);
    let k = skip_prefixes(&chars, j, "-");
    let start = find_non_space(&chars, k);
    let end = find_non_space_back(&chars, start, chars.len());
    let digits = text_between(&chars, start, end);
    match parse_digits(&digits) {
        Some(v) => if v <= u32::MAX as u64 {
            Some(v as u32)
        } else {
            None
        },
        None => None,
    }
}

/// `millis` thousandths of a degree as degrees, capped at what can be
/// stored.
pub open spec fn celsius_of_millis(millis: i64) -> Fixed {
    if millis * 1000 > i64::MAX {
        Fixed { micros: i64::MAX }
    } else if millis * 1000 < i64::MIN {
        Fixed { micros: i64::MIN }
    } else {
        Fixed { micros: (millis * 1000) as i64 }
    }
}

/// `millis` thousandths of a degree as degrees.
pub fn celsius_from_millis(millis: i64) -> (r: Fixed)
    ensures
        r == celsius_of_millis(millis),
{
    let wide: i128 = (millis as i128) * 1000;
    if wide > i64::MAX as i128 {
        Fixed { micros: i64::MAX }
    } else if wide < i64::MIN as i128 {
        Fixed { micros: i64::MIN }
    } else {
        Fixed { micros: wide as i64 }
    }
}

/// One temperature input of a hardware monitor, of which both files exist.
#[derive(Debug, PartialEq, Eq)]
pub struct HwmonSensor {
    /// The label; `None` where it could not be found.
    pub label: Option<String>,
    /// In thousandths of a degree; `None` where it could not be found.
    pub input: Option<i64>,
}

/// One hardware monitor.
#[derive(Debug, PartialEq, Eq)]
pub struct HwmonDevice {
    /// The name; `None` where the device has none.
    pub name: Option<String>,
    /// The inputs 1 to 96 whose label and input files exist, in order.
    pub sensors: Vec<HwmonSensor>,
}

/// One entry of the directory of thermal zones.
#[derive(Debug, PartialEq, Eq)]
pub struct ThermalZone {
    /// The name of the entry.
    pub name: String,
    pub type_: Option<String>,
    /// In thousandths of a degree.
    pub temp: Option<i64>,
}

/// The first index given to a reading of a thermal zone.
pub const THERMAL_ZONE_BASE: u32 = 777;

/// The reading of a sensor: the core its label names and its input, where
/// both are there.
pub open spec fn sensor_reading(sensor: HwmonSensor) -> Option<(u32, Fixed)> {
    match (sensor.label, sensor.input) {
        (Some(label), Some(millis)) => match label_core(label@) {
            Some(core) => Some((core, celsius_of_millis(millis))),
            None => None,
        },
        _ => None,
    }
}

/// The temperatures `acc` after the sensors from `i` on were recorded.
pub open spec fn record_sensors(
    acc: Map<u32, Fixed>,
    sensors: Seq<HwmonSensor>,
    i: nat,
) -> Map<u32, Fixed>
    decreases sensors.len() - i,
{
    if i >= sensors.len() {
        acc
    } else {
        match sensor_reading(sensors[i as int]) {
            Some(reading) => record_sensors(acc.insert(reading.0, reading.1), sensors, i + 1),
            None => record_sensors(acc, sensors, i + 1),
        }
    }
}

/// `true` when the device measures the CPU.
pub open spec fn device_counts(device: HwmonDevice) -> bool {
    match device.name {
        Some(name) => measures_cpu(name@),
        None => false,
    }
}

/// The temperatures `acc` after the devices from `i` on that measure the
/// CPU were recorded.
pub open spec fn record_devices(
    acc: Map<u32, Fixed>,
    devices: Seq<HwmonDevice>,
    i: nat,
) -> Map<u32, Fixed>
    decreases devices.len() - i,
{
    if i >= devices.len() {
        acc
    } else if device_counts(devices[i as int]) {
        record_devices(record_sensors(acc, devices[i as int].sensors@, 0), devices, i + 1)
    } else {
        record_devices(acc, devices, i + 1)
    }
}

/// The temperature of a thermal zone that measures the CPU.
pub open spec fn zone_reading(zone: ThermalZone) -> Option<Fixed> {
    if !"thermal_zone"@.is_prefix_of(zone.name@) {
        None
    } else {
        match (zone.type_, zone.temp) {
            (Some(type_), Some(millis)) => if zone_measures_cpu(type_@) {
                Some(celsius_of_millis(millis))
            } else {
                None
            },
            _ => None,
        }
    }
}

/// The temperatures `acc` after the thermal zones from `i` on that measure
/// the CPU were recorded, the next of them under the index `next`.
pub open spec fn record_zones(
    acc: Map<u32, Fixed>,
    zones: Seq<ThermalZone>,
    i: nat,
    next: u32,
) -> Map<u32, Fixed>
    decreases zones.len() - i,
{
    if i >= zones.len() {
        acc
    } else {
        match zone_reading(zones[i as int]) {
            Some(celsius) => record_zones(
                acc.insert(next, celsius),
                zones,
                i + 1,
                if next == u32::MAX {
                    next
                } else {
                    (next + 1) as u32
                },
            ),
            None => record_zones(acc, zones, i + 1, next),
        }
    }
}

/// The temperatures of the cores: those of the hardware monitors that
/// measure the CPU, or, where these yield nothing, those of the thermal zones
/// that do, under indices from [`THERMAL_ZONE_BASE`] on.
pub open spec fn temperatures_of(devices: Seq<HwmonDevice>, zones: Seq<ThermalZone>) -> Map<
    u32,
    Fixed,
> {
    let monitored = record_devices(Map::empty(), devices, 0);
    if monitored.len() > 0 {
        monitored
    } else {
        record_zones(Map::empty(), zones, 0, THERMAL_ZONE_BASE)
    }
}

fn scan_sensors(temperatures: &mut HashMap<u32, Fixed>, sensors: &Vec<HwmonSensor>)
    ensures
        final(temperatures)@ == record_sensors(old(temperatures)@, sensors@, 0),
{
    let mut i: usize = 0;
    while i < sensors.len()
        invariant
            i <= sensors@.len(),
            record_sensors(old(temperatures)@, sensors@, 0) == record_sensors(
                temperatures@,
                sensors@,
                i as nat,
            ),
        decreases sensors.len() - i,
    {
        match (&sensors[i].label, sensors[i].input) {
            (Some(label), Some(millis)) => {
                match core_of_label(label.as_str()) {
                    Some(core) => {
                        record_temperature(temperatures, core, celsius_from_millis(millis));
                    },
                    None => {},
                }
            },
            _ => {},
        }
        i += 1;
    }
}

impl System {
    /// Takes the temperatures that a scan has read.
    pub fn rescan_temperatures(&mut self, devices: &Vec<HwmonDevice>, zones: &Vec<ThermalZone>)
        ensures
            final(self).cpu_temperatures@ == temperatures_of(devices@, zones@),
            *final(self) == (System {
                cpu_temperatures: final(self).cpu_temperatures,
                ..*old(self)
            }),
    {
        broadcast use vstd::std_specs::hash::group_hash_axioms;

        let mut temperatures: HashMap<u32, Fixed> = HashMap::new();
        let mut i: usize = 0;
        while i < devices.len()
            invariant
                i <= devices@.len(),
                record_devices(Map::empty(), devices@, 0) == record_devices(
                    temperatures@,
                    devices@,
                    i as nat,
                ),
            decreases devices.len() - i,
        {
            let counts = match &devices[i].name {
                Some(name) => is_cpu_monitor(name.as_str()),
                None => false,
            };
            if counts {
                scan_sensors(&mut temperatures, &devices[i].sensors);
            }
            i += 1;
        }
        if temperatures.len() == 0 {
            assert(temperatures@ =~= Map::<u32, Fixed>::empty());
            let mut next: u32 = THERMAL_ZONE_BASE;
            let mut j: usize = 0;
            while j < zones.len()
                invariant
                    j <= zones@.len(),
                    record_zones(Map::empty(), zones@, 0, THERMAL_ZONE_BASE) == record_zones(
                        temperatures@,
                        zones@,
                        j as nat,
                        next,
                    ),
                decreases zones.len() - j,
            {
                if starts_with(zones[j].name.as_str(), "thermal_zone") {
                    match (&zones[j].type_, zones[j].temp) {
                        (Some(type_), Some(millis)) => {
                            if is_cpu_zone(type_.as_str()) {
                                record_temperature(
                                    &mut temperatures,
                                    next,
                                    celsius_from_millis(millis),
                                );
                                if next < u32::MAX {
                                    next += 1;
                                }
                            }
                        },
                        _ => {},
                    }
                }
                j += 1;
            }
        }
        self.cpu_temperatures = temperatures;
    }
}

/// What a scan finds out in order to tell a desktop from a laptop.
#[derive(Debug, PartialEq, Eq)]
pub struct DesktopProbe {
    /// The chassis type; `None` where the file does not exist.
    pub chassis_type: Option<String>,
    /// One of the places where a laptop keeps its battery exists.
    pub has_battery_path: bool,
}

/// `true` for the chassis types of desktops.
pub open spec fn desktop_chassis(chassis: Seq<char>) -> bool {
    ||| chassis == "3"@
    ||| chassis == "4"@
    ||| chassis == "5"@
    ||| chassis == "6"@
    ||| chassis == "7"@
    ||| chassis == "15"@
    ||| chassis == "16"@
    ||| chassis == "17"@
}

/// `true` for the chassis types of laptops.
pub open spec fn laptop_chassis(chassis: Seq<char>) -> bool {
    ||| chassis == "9"@
    ||| chassis == "10"@
    ||| chassis == "14"@
    ||| chassis == "31"@
}

/// `true` when the machine is taken for a desktop: by its chassis type
/// where that tells, else by the absence of a battery.
pub open spec fn desktop(probe: DesktopProbe) -> bool {
    match probe.chassis_type {
        Some(chassis) => if desktop_chassis(trimmed(chassis@)) {
            true
        } else if laptop_chassis(trimmed(chassis@)) {
            false
        } else {
            !probe.has_battery_path
        },
        None => !probe.has_battery_path,
    }
}

/// The three load averages.
#[derive(Clone, Copy, Debug, PartialEq, Eq, Structural)]
pub struct LoadAverage {
    pub one: Fixed,
    pub five: Fixed,
    pub fifteen: Fixed,
}

/// Why a scan was refused.
#[derive(Clone, Copy, Debug, PartialEq, Eq, Structural)]
pub enum ScanError {
    /// The load averages hold fewer than three entries.
    MissingLoadAverage,
    /// A load average is no number.
    BadLoadAverage,
    /// A CPU does not exist.
    CpuMissing,
    /// A CPU with a cpufreq interface has no governor.
    GovernorMissing,
    /// A CPU with a cpufreq interface lacks one of its frequencies.
    FrequencyMissing,
    /// A CPU with a cpufreq interface has no energy-performance preference.
    EppMissing,
    /// A CPU with a cpufreq interface has no energy-performance bias.
    EpbMissing,
    /// The kernel reports no time counters for a CPU.
    StatMissing,
}

/// The load averages that the words `entries` hold: the first three, each
/// a decimal fraction.
pub open spec fn load_average_of(entries: Seq<Seq<char>>) -> Result<LoadAverage, ScanError> {
    if entries.len() < 3 {
        Err(ScanError::MissingLoadAverage)
    } else {
        match (millionths_of(entries[0]), millionths_of(entries[1]), millionths_of(entries[2])) {
            (Some(one), Some(five), Some(fifteen)) => Ok(
                LoadAverage {
                    one: Fixed { micros: one },
                    five: Fixed { micros: five },
                    fifteen: Fixed { micros: fifteen },
                },
            ),
            _ => Err(ScanError::BadLoadAverage),
        }
    }
}

/// Reads the load averages from the contents of the kernel's file.
pub fn parse_load_average(content: &str) -> (r: Result<LoadAverage, ScanError>)
    ensures
        r == load_average_of(words(content@)),
{
    let entries = split_whitespace(content);
    if entries.len() < 3 {
        return Err(ScanError::MissingLoadAverage);
    }
    proof {
        assert(texts(entries@)[0] == entries@[0]@);
        assert(texts(entries@)[1] == entries@[1]@);
        assert(texts(entries@)[2] == entries@[2]@);
    }
    let one = parse_millionths(entries[0].as_str());
    let five = parse_millionths(entries[1].as_str());
    let fifteen = parse_millionths(entries[2].as_str());
    match (one, five, fifteen) {
        (Some(one), Some(five), Some(fifteen)) => Ok(
            LoadAverage {
                one: Fixed { micros: one },
                five: Fixed { micros: five },
                fifteen: Fixed { micros: fifteen },
            },
        ),
        _ => Err(ScanError::BadLoadAverage),
    }
}

/// `true` when some power supply feeds the machine from the mains.
pub open spec fn any_ac(supplies: Seq<PowerSupply>) -> bool {
    exists|i: int|
        0 <= i < supplies.len() && is_ac_type(
            (#[trigger] supplies[i]).type_@,
            supplies[i].is_from_peripheral,
        )
}

/// `true` when some power supply of `supplies` feeds the machine from the
/// mains.
pub fn has_ac(supplies: &Vec<PowerSupply>) -> (r: bool)
    ensures
        r == any_ac(supplies@),
{
    let mut i: usize = 0;
    while i < supplies.len()
        invariant
            i <= supplies@.len(),
            forall|k: int|
                0 <= k < i ==> !is_ac_type(
                    (#[trigger] supplies@[k]).type_@,
                    supplies@[k].is_from_peripheral,
                ),
        decreases supplies.len() - i,
    {
        if supplies[i].is_ac() {
            return true;
        }
        i += 1;
    }
    false
}

/// What one scan of the system has read.
#[derive(Debug, PartialEq, Eq)]
pub struct Scan {
    pub cpus: Vec<Cpu>,
    pub power_supplies: Vec<PowerSupply>,
    pub probe: DesktopProbe,
    /// The contents of the kernel's file of load averages.
    pub load_average: String,
    pub devices: Vec<HwmonDevice>,
    pub zones: Vec<ThermalZone>,
}

impl System {
    /// `true` when the machine is taken for a desktop.
    pub fn is_desktop(probe: &DesktopProbe) -> (r: bool)
        ensures
            r == desktop(*probe),
    {
        match &probe.chassis_type {
            Some(chassis) => {
                let kind = trim(chassis.as_str());
                let kind = kind.as_str();
                if str_eq(kind, "3") || str_eq(kind, "4") || str_eq(kind, "5") || str_eq(kind, "6")
                    || str_eq(kind, "7") || str_eq(kind, "15") || str_eq(kind, "16") || str_eq(
                    kind,
                    "17",
                ) {
                    true
                } else if str_eq(kind, "9") || str_eq(kind, "10") || str_eq(kind, "14") || str_eq(
                    kind,
                    "31",
                ) {
                    false
                } else {
                    !probe.has_battery_path
                }
            },
            None => !probe.has_battery_path,
        }
    }

    /// A system of which nothing is known.
    pub fn empty() -> (r: System)
        ensures
            !r.is_ac,
            r.cpus@.len() == 0,
            r.cpu_temperatures@ == Map::<u32, Fixed>::empty(),
            r.power_supplies@.len() == 0,
            r.load_average_1min@ == 0,
            r.load_average_5min@ == 0,
            r.load_average_15min@ == 0,
    {
        System {
            is_ac: false,
            load_average_1min: Fixed { micros: 0 },
            load_average_5min: Fixed { micros: 0 },
            load_average_15min: Fixed { micros: 0 },
            cpus: Vec::new(),
            cpu_temperatures: HashMap::new(),
            power_supplies: Vec::new(),
        }
    }

    /// The system that a first scan shows.
    pub fn new(scan: Scan) -> (r: Result<System, ScanError>)
        ensures
            match r {
                Ok(system) => scanned(system, scan),
                Err(e) => load_average_of(words(scan.load_average@)) == Err::<
                    LoadAverage,
                    ScanError,
                >(e),
            },
    {
        let mut system = System::empty();
        match system.rescan(scan) {
            Ok(_) => Ok(system),
            Err(e) => Err(e),
        }
    }

    /// Takes a scan. The machine is on the mains when a power supply says
    /// so, or when it is taken for a desktop. A scan whose load averages
    /// cannot be read is refused, and nothing changes.
    pub fn rescan(&mut self, scan: Scan) -> (r: Result<(), ScanError>)
        ensures
            match r {
                Ok(_) => scanned(*final(self), scan),
                Err(e) => load_average_of(words(scan.load_average@)) == Err::<
                    LoadAverage,
                    ScanError,
                >(e) && *final(self) == *old(self),
            },
    {
        let load = match parse_load_average(scan.load_average.as_str()) {
            Ok(load) => load,
            Err(e) => {
                return Err(e);
            },
        };
        self.is_ac = has_ac(&scan.power_supplies) || System::is_desktop(&scan.probe);
        self.load_average_1min = load.one;
        self.load_average_5min = load.five;
        self.load_average_15min = load.fifteen;
        self.rescan_temperatures(&scan.devices, &scan.zones);
        self.cpus = scan.cpus;
        self.power_supplies = scan.power_supplies;
        Ok(())
    }
}

/// `system` is what `scan` shows.
pub open spec fn scanned(system: System, scan: Scan) -> bool {
    &&& system.cpus == scan.cpus
    &&& system.power_supplies == scan.power_supplies
    &&& system.is_ac == (any_ac(scan.power_supplies@) || desktop(scan.probe))
    &&& load_average_of(words(scan.load_average@)) == Ok::<LoadAverage, ScanError>(
        LoadAverage {
            one: system.load_average_1min,
            five: system.load_average_5min,
            fifteen: system.load_average_15min,
        },
    )
    &&& system.cpu_temperatures@ == temperatures_of(scan.devices@, scan.zones@)
}

} // verus!
