//! The model of one power supply: what a scan reads of it, what follows
//! from the readings, and the writes that change its charge thresholds.

use vstd::prelude::*;
use vstd::string::*;
use crate::number::{round_div, round_div_wide, Fixed, SCALE};
use crate::sysfs::{platform_profile_path, ApplyError, Write};
use crate::text::{
    contains_name, contains_str, decimal, format_u64, has_substring, join_path, joined, lowercase,
    split_whitespace, starts_with, str_eq, texts, to_lowercase, words,
};

verus! {

/// The pair of file names through which one vendor exposes the charge
/// thresholds of a battery.
#[derive(Clone, Copy, Debug, PartialEq, Eq)]
pub struct PowerSupplyThresholdConfig {
    pub manufacturer: &'static str,
    pub path_start: &'static str,
    pub path_end: &'static str,
}

/// The number of vendor profiles known.
pub const THRESHOLD_CONFIGS: usize = 4;

/// The vendor profile at `index`, in the order in which they are tried.
pub open spec fn threshold_config_spec(index: int) -> PowerSupplyThresholdConfig {
    if index == 0 {
        PowerSupplyThresholdConfig {
            manufacturer: "Standard",
            path_start: "charge_control_start_threshold",
            path_end: "charge_control_end_threshold",
        }
    } else if index == 1 {
        PowerSupplyThresholdConfig {
            manufacturer: "ASUS",
            path_start: "charge_control_start_percentage",
            path_end: "charge_control_end_percentage",
        }
    } else if index == 2 {
        PowerSupplyThresholdConfig {
            manufacturer: "ThinkPad/Huawei",
            path_start: "charge_start_threshold",
            path_end: "charge_stop_threshold",
        }
    } else {
        PowerSupplyThresholdConfig {
            manufacturer: "Framework",
            path_start: "charge_behaviour_start_threshold",
            path_end: "charge_behaviour_end_threshold",
        }
    }
}

/// The vendor profile at `index`, in the order in which they are tried.
pub fn threshold_config(index: usize) -> (r: PowerSupplyThresholdConfig)
    requires
        index < THRESHOLD_CONFIGS,
    ensures
        r == threshold_config_spec(index as int),
{
    if index == 0 {
        PowerSupplyThresholdConfig {
            manufacturer: "Standard",
            path_start: "charge_control_start_threshold",
            path_end: "charge_control_end_threshold",
        }
    } else if index == 1 {
        PowerSupplyThresholdConfig {
            manufacturer: "ASUS",
            path_start: "charge_control_start_percentage",
            path_end: "charge_control_end_percentage",
        }
    } else if index == 2 {
        PowerSupplyThresholdConfig {
            manufacturer: "ThinkPad/Huawei",
            path_start: "charge_start_threshold",
            path_end: "charge_stop_threshold",
        }
    } else {
        PowerSupplyThresholdConfig {
            manufacturer: "Framework",
            path_start: "charge_behaviour_start_threshold",
            path_end: "charge_behaviour_end_threshold",
        }
    }
}

/// Whether the two threshold files of one vendor profile exist.
#[derive(Clone, Copy, Debug, PartialEq, Eq, Structural)]
pub struct ThresholdFiles {
    pub start: bool,
    pub end: bool,
}

/// What a scan reads of one power supply; a file that does not exist is
/// `None`.
#[derive(Debug, PartialEq, Eq)]
pub struct PowerSupplyReadings {
    pub type_: String,
    /// In microwatt-hours.
    pub energy_full: Option<u64>,
    pub model_name: Option<String>,
    pub status: Option<String>,
    /// In percent.
    pub capacity: Option<u64>,
    /// In percent.
    pub charge_control_start_threshold: Option<u64>,
    /// In percent.
    pub charge_control_end_threshold: Option<u64>,
    /// In microwatts.
    pub power_now: Option<i64>,
    /// In microamperes.
    pub current_now: Option<i32>,
    /// In microvolts.
    pub voltage_now: Option<i32>,
    /// For each vendor profile, in order, whether its files exist.
    pub threshold_files: [ThresholdFiles; 4],
}

/// One power supply as last scanned.
#[derive(Debug, PartialEq, Eq)]
pub struct PowerSupply {
    pub name: String,
    pub path: String,
    pub type_: String,
    pub is_from_peripheral: bool,
    pub charge_state: Option<String>,
    /// Charge between 0 and 1.
    pub charge_percent: Option<Fixed>,
    /// Where charging starts, between 0 and 1.
    pub charge_threshold_start: Fixed,
    /// Where charging stops, between 0 and 1.
    pub charge_threshold_end: Fixed,
    pub drain_rate_watts: Option<Fixed>,
    pub threshold_config: Option<PowerSupplyThresholdConfig>,
}

/// The directory of the power supplies.
pub open spec fn power_supply_root() -> Seq<char> {
    "/sys/class/power_supply"@
}

/// A battery below this many microwatt-hours belongs to a peripheral.
pub const PERIPHERAL_ENERGY_LIMIT: u64 = 10_000_000;

/// `true` when the lower-case name of a power supply tells that it
/// belongs to a peripheral.
pub open spec fn peripheral_name(lower: Seq<char>) -> bool {
    ||| has_substring(lower, "mouse"@)
    ||| has_substring(lower, "keyboard"@)
    ||| has_substring(lower, "trackpad"@)
    ||| has_substring(lower, "gamepad"@)
    ||| has_substring(lower, "controller"@)
    ||| has_substring(lower, "headset"@)
    ||| has_substring(lower, "headphone"@)
}

/// `true` when the lower-case model name tells of a peripheral.
pub open spec fn peripheral_model(lower: Seq<char>) -> bool {
    has_substring(lower, "bluetooth"@) || has_substring(lower, "wireless"@)
}

/// `true` when a power supply belongs to a peripheral: by its name, by a
/// small capacity, or by its model name.
pub open spec fn is_peripheral(
    name: Seq<char>,
    energy_full: Option<u64>,
    model_name: Option<String>,
) -> bool {
    ||| peripheral_name(lowercase(name))
    ||| (energy_full matches Some(energy) && energy < PERIPHERAL_ENERGY_LIMIT)
    ||| (model_name matches Some(model) && peripheral_model(lowercase(model@)))
}

/// `true` when the type is one of those of a mains or USB supply.
pub open spec fn mains_type(type_: Seq<char>) -> bool {
    ||| type_ == "Mains"@
    ||| type_ == "USB_PD_DRP"@
    ||| type_ == "USB_PD"@
    ||| type_ == "USB_DCP"@
    ||| type_ == "USB_CDP"@
    ||| type_ == "USB_ACA"@
}

/// `true` when a power supply of this type feeds the machine from the
/// mains.
pub open spec fn is_ac_type(type_: Seq<char>, is_from_peripheral: bool) -> bool {
    ||| (!is_from_peripheral && mains_type(type_))
    ||| "AC"@.is_prefix_of(type_)
    ||| has_substring(type_, "ACAD"@)
    ||| has_substring(type_, "ADP"@)
}

/// The position of the first vendor profile from `from` on whose two files
/// exist.
pub open spec fn first_present(files: Seq<ThresholdFiles>, from: nat) -> Option<usize>
    decreases files.len() - from,
{
    if from >= files.len() {
        None
    } else if files[from as int].start && files[from as int].end {
        Some(from as usize)
    } else {
        first_present(files, from + 1)
    }
}

/// The fraction that a whole number of percent stands for, in millionths;
/// `None` where it cannot be stored.
pub open spec fn percent_fraction(percent: u64) -> Option<Fixed> {
    if percent * 10_000 <= i64::MAX {
        Some(Fixed { micros: (percent * 10_000) as i64 })
    } else {
        None
    }
}

/// The drain in watts: the power where it is read, else current times
/// voltage where both are read.
pub open spec fn drain_of(power_now: Option<i64>, current_now: Option<i32>, voltage_now: Option<i32>) -> Option<
    Fixed,
> {
    match power_now {
        Some(microwatts) => Some(Fixed { micros: microwatts }),
        None => match (current_now, voltage_now) {
            (Some(current), Some(voltage)) => Some(
                Fixed { micros: round_div(current * voltage, SCALE as int) as i64 },
            ),
            _ => None,
        },
    }
}

/// The position behind the last slash before `to`, or zero.
pub open spec fn name_start(path: Seq<char>, to: int) -> int
    decreases to,
{
    if to <= 0 || to > path.len() || path[to - 1] == '/' {
        to
    } else {
        name_start(path, to - 1)
    }
}

/// What follows the last slash of `path`.
pub open spec fn file_name(path: Seq<char>) -> Seq<char> {
    path.subrange(name_start(path, path.len() as int), path.len() as int)
}

fn name_of_path(path: &str) -> (r: String)
    ensures
        r@ == file_name(path@),
{
    let chars = crate::text::chars_of(path);
    let mut start: usize = chars.len();
    while start > 0 && chars[start - 1] != '/'
        invariant
            start <= chars@.len(),
            name_start(chars@, chars@.len() as int) == name_start(chars@, start as int),
        decreases start,
    {
        start -= 1;
    }
    String::from_str(path.substring_char(start, chars.len()))
}

fn percent_to_fraction(percent: u64) -> (r: Option<Fixed>)
    ensures
        r == percent_fraction(percent),
{
    if percent > 922_337_203_685_477 {
        None
    } else {
        Some(Fixed { micros: (percent * 10_000) as i64 })
    }
}

/// `after` is `before` with the readings of a scan taken.
pub open spec fn rescanned(
    before: PowerSupply,
    readings: PowerSupplyReadings,
    after: PowerSupply,
) -> bool {
    &&& after.name == before.name
    &&& after.path == before.path
    &&& after.type_ == readings.type_
    &&& after.is_from_peripheral == is_peripheral(
        before.name@,
        readings.energy_full,
        readings.model_name,
    )
    &&& readings.type_@ == "Battery"@ ==> {
        &&& after.charge_state == readings.status
        &&& after.charge_percent == match readings.capacity {
            Some(percent) => percent_fraction(percent),
            None => None,
        }
        &&& after.charge_threshold_start == match readings.charge_control_start_threshold {
            Some(percent) => match percent_fraction(percent) {
                Some(f) => f,
                None => Fixed { micros: 0 },
            },
            None => Fixed { micros: 0 },
        }
        &&& after.charge_threshold_end == match readings.charge_control_end_threshold {
            Some(percent) => match percent_fraction(percent) {
                Some(f) => f,
                None => Fixed { micros: SCALE },
            },
            None => Fixed { micros: SCALE },
        }
        &&& after.drain_rate_watts == drain_of(
            readings.power_now,
            readings.current_now,
            readings.voltage_now,
        )
        &&& after.threshold_config == if after.is_from_peripheral {
            None
        } else {
            match first_present(readings.threshold_files@, 0) {
                Some(i) => Some(threshold_config_spec(i as int)),
                None => None,
            }
        }
    }
    &&& readings.type_@ != "Battery"@ ==> {
        &&& after.charge_state == before.charge_state
        &&& after.charge_percent == before.charge_percent
        &&& after.charge_threshold_start == before.charge_threshold_start
        &&& after.charge_threshold_end == before.charge_threshold_end
        &&& after.drain_rate_watts == before.drain_rate_watts
        &&& after.threshold_config.is_none()
    }
}

/// `supply` is the power supply `name` at `path` before anything is read
/// of it: no type, no charge, no drain, no vendor profile, and thresholds
/// from 0 to 1.
pub open spec fn is_unscanned(supply: PowerSupply, name: String, path: String) -> bool {
    &&& supply.name == name
    &&& supply.path == path
    &&& supply.type_@ == Seq::<char>::empty()
    &&& !supply.is_from_peripheral
    &&& supply.charge_state.is_none()
    &&& supply.charge_percent.is_none()
    &&& supply.charge_threshold_start@ == 0
    &&& supply.charge_threshold_end@ == SCALE
    &&& supply.drain_rate_watts.is_none()
    &&& supply.threshold_config.is_none()
}

fn find_present(files: &[ThresholdFiles; 4]) -> (r: Option<usize>)
    ensures
        r == first_present(files@, 0),
        r matches Some(i) ==> i < THRESHOLD_CONFIGS,
{
    let mut i: usize = 0;
    while i < 4
        invariant
            i <= 4,
            files@.len() == 4,
            first_present(files@, 0) == first_present(files@, i as nat),
        decreases 4 - i,
    {
        if files[i].start && files[i].end {
            return Some(i);
        }
        i += 1;
    }
    None
}

fn name_is_peripheral(lower: &str) -> (r: bool)
    ensures
        r == peripheral_name(lower@),
{
    contains_str(lower, "mouse") || contains_str(lower, "keyboard") || contains_str(
        lower,
        "trackpad",
    ) || contains_str(lower, "gamepad") || contains_str(lower, "controller") || contains_str(
        lower,
        "headset",
    ) || contains_str(lower, "headphone")
}

impl PowerSupply {
    /// Only a battery that belongs to no peripheral takes thresholds.
    pub open spec fn wf(&self) -> bool {
        self.threshold_config.is_some() ==> self.type_@ == "Battery"@ && !self.is_from_peripheral
    }

    /// `true` when this power supply feeds the machine from the mains.
    pub fn is_ac(&self) -> (r: bool)
        ensures
            r == is_ac_type(self.type_@, self.is_from_peripheral),
    {
        let kind = self.type_.as_str();
        let mains = str_eq(kind, "Mains") || str_eq(kind, "USB_PD_DRP") || str_eq(kind, "USB_PD")
            || str_eq(kind, "USB_DCP") || str_eq(kind, "USB_CDP") || str_eq(kind, "USB_ACA");
        (!self.is_from_peripheral && mains) || starts_with(kind, "AC") || contains_str(
            kind,
            "ACAD",
        ) || contains_str(kind, "ADP")
    }

    /// The power supply `name` before anything is read of it.
    pub fn unscanned(name: String, path: String) -> (r: PowerSupply)
        ensures
            r.wf(),
            is_unscanned(r, name, path),
    {
        PowerSupply {
            name,
            path,
            type_: String::new(),
            is_from_peripheral: false,
            charge_state: None,
            charge_percent: None,
            charge_threshold_start: Fixed { micros: 0 },
            charge_threshold_end: Fixed { micros: 1_000_000 },
            drain_rate_watts: None,
            threshold_config: None,
        }
    }

    /// The power supply `name`, scanned.
    pub fn from_name(name: String, readings: PowerSupplyReadings) -> (r: PowerSupply)
        ensures
            r.wf(),
            r.path@ == joined(power_supply_root(), name@),
            exists|before: PowerSupply|
                is_unscanned(before, name, r.path) && rescanned(before, readings, r),
    {
        let path = join_path("/sys/class/power_supply", name.as_str());
        let mut supply = PowerSupply::unscanned(name, path);
        let ghost before = supply;
        supply.rescan(readings);
        assert(is_unscanned(before, name, supply.path) && rescanned(before, readings, supply));
        supply
    }

    /// The power supply at `path`, scanned; its name is what follows the
    /// last slash of the path.
    pub fn from_path(path: String, readings: PowerSupplyReadings) -> (r: PowerSupply)
        ensures
            r.wf(),
            r.name@ == file_name(path@),
            exists|before: PowerSupply|
                is_unscanned(before, r.name, path) && rescanned(before, readings, r),
    {
        let name = name_of_path(path.as_str());
        let mut supply = PowerSupply::unscanned(name, path);
        let ghost before = supply;
        supply.rescan(readings);
        assert(is_unscanned(before, supply.name, path) && rescanned(before, readings, supply));
        supply
    }

    /// The platform profile in force, from the contents of its file.
    pub fn platform_profile(content: Option<&str>) -> (r: Option<String>)
        ensures
            match (content, r) {
                (Some(c), Some(profile)) => profile@ == crate::text::trimmed(c@),
                (None, None) => true,
                _ => false,
            },
    {
        crate::fs::read(content)
    }

    /// Takes what a scan has read. The type and the peripheral flag are
    /// always taken; charge, thresholds, drain and the vendor profile only of
    /// a battery, and another power supply keeps what it had. Thresholds go
    /// to a battery of the machine itself alone.
    pub fn rescan(&mut self, readings: PowerSupplyReadings)
        ensures
            final(self).wf(),
            rescanned(*old(self), readings, *final(self)),
    {
        let lower = to_lowercase(self.name.as_str());
        let mut peripheral = name_is_peripheral(lower.as_str());
        if let Some(energy) = readings.energy_full {
            if energy < PERIPHERAL_ENERGY_LIMIT {
                peripheral = true;
            }
        }
        if let Some(model) = &readings.model_name {
            let model_lower = to_lowercase(model.as_str());
            if contains_str(model_lower.as_str(), "bluetooth") || contains_str(
                model_lower.as_str(),
                "wireless",
            ) {
                peripheral = true;
            }
        }
        self.is_from_peripheral = peripheral;
        let battery = str_eq(readings.type_.as_str(), "Battery");
        if battery {
            self.charge_percent = match readings.capacity {
                Some(percent) => percent_to_fraction(percent),
                None => None,
            };
            self.charge_threshold_start = match readings.charge_control_start_threshold {
                Some(percent) => match percent_to_fraction(percent) {
                    Some(f) => f,
                    None => Fixed { micros: 0 },
                },
                None => Fixed { micros: 0 },
            };
            self.charge_threshold_end = match readings.charge_control_end_threshold {
                Some(percent) => match percent_to_fraction(percent) {
                    Some(f) => f,
                    None => Fixed { micros: 1_000_000 },
                },
                None => Fixed { micros: 1_000_000 },
            };
            self.drain_rate_watts = match readings.power_now {
                Some(microwatts) => Some(Fixed { micros: microwatts }),
                None => match (readings.current_now, readings.voltage_now) {
                    (Some(current), Some(voltage)) => {
                        let c: i128 = current as i128;
                        let v: i128 = voltage as i128;
                        assert(-0x4000_0000_0000_0000 <= c * v <= 0x4000_0000_0000_0000)
                            by (nonlinear_arith)
                            requires
                                -0x8000_0000 <= c <= 0x7fff_ffff,
                                -0x8000_0000 <= v <= 0x7fff_ffff,
                        ;
                        let watts: i128 = round_div_wide(c * v, 1_000_000);
                        assert(-0x4000_0000_0000_0000 <= watts <= 0x4000_0000_0000_0000)
                            by (nonlinear_arith)
                            requires
                                watts == round_div(c * v, 1_000_000),
                                -0x4000_0000_0000_0000 <= c * v <= 0x4000_0000_0000_0000,
                        ;
                        Some(Fixed { micros: watts as i64 })
                    },
                    _ => None,
                },
            };
            self.threshold_config = None;
            if !peripheral {
                self.threshold_config = match find_present(&readings.threshold_files) {
                    Some(i) => Some(threshold_config(i)),
                    None => None,
                };
            }
            self.charge_state = readings.status;
        } else {
            self.threshold_config = None;
        }
        self.type_ = readings.type_;
    }

    /// The file that holds where charging starts, for a power supply that
    /// takes thresholds.
    pub fn charge_threshold_path_start(&self) -> (r: Option<String>)
        ensures
            match r {
                Some(path) => self.threshold_config matches Some(config) && path@ == joined(
                    self.path@,
                    config.path_start@,
                ),
                None => self.threshold_config.is_none(),
            },
    {
        match self.threshold_config {
            Some(config) => Some(join_path(self.path.as_str(), config.path_start)),
            None => None,
        }
    }

    /// The file that holds where charging stops, for a power supply that
    /// takes thresholds.
    pub fn charge_threshold_path_end(&self) -> (r: Option<String>)
        ensures
            match r {
                Some(path) => self.threshold_config matches Some(config) && path@ == joined(
                    self.path@,
                    config.path_end@,
                ),
                None => self.threshold_config.is_none(),
            },
    {
        match self.threshold_config {
            Some(config) => Some(join_path(self.path.as_str(), config.path_end)),
            None => None,
        }
    }
}

/// The whole percent nearest to `fraction`.
pub open spec fn threshold_percent(fraction: Fixed) -> int {
    round_div(fraction@ * 100, SCALE as int)
}

/// Why a threshold is refused, if it is.
pub open spec fn threshold_refusal(supply: PowerSupply, fraction: Fixed) -> Option<ApplyError> {
    if supply.threshold_config.is_none() {
        Some(ApplyError::ThresholdsUnsupported)
    } else if fraction@ < 0 || fraction@ > SCALE {
        Some(ApplyError::ThresholdOutOfRange)
    } else {
        None
    }
}

fn percent_text(fraction: Fixed) -> (r: String)
    requires
        0 <= fraction@ <= SCALE,
    ensures
        r@ == decimal(threshold_percent(fraction) as nat),
        0 <= threshold_percent(fraction) <= 100,
{
    let percent: i128 = round_div_wide((fraction.micros as i128) * 100, 1_000_000);
    assert(0 <= percent <= 100) by (nonlinear_arith)
        requires
            percent == round_div(fraction.micros * 100, 1_000_000),
            0 <= fraction.micros <= 1_000_000,
    ;
    format_u64(percent as u64)
}

impl PowerSupply {
    /// Sets where charging starts, a fraction between 0 and 1, on a power
    /// supply that takes thresholds. The write holds the nearest whole
    /// percent.
    pub fn set_charge_threshold_start(&mut self, charge_threshold_start: Fixed) -> (r: Result<
        Write,
        ApplyError,
    >)
        ensures
            match r {
                Ok(w) => {
                    &&& threshold_refusal(*old(self), charge_threshold_start).is_none()
                    &&& w.path@ == joined(
                        old(self).path@,
                        old(self).threshold_config.unwrap().path_start@,
                    )
                    &&& w.value@ == decimal(threshold_percent(charge_threshold_start) as nat)
                    &&& *final(self) == PowerSupply { charge_threshold_start, ..*old(self) }
                },
                Err(e) => {
                    &&& threshold_refusal(*old(self), charge_threshold_start) == Some(e)
                    &&& *final(self) == *old(self)
                },
            },
    {
        let path = match self.charge_threshold_path_start() {
            Some(path) => path,
            None => {
                return Err(ApplyError::ThresholdsUnsupported);
            },
        };
        if charge_threshold_start.micros < 0 || charge_threshold_start.micros > SCALE {
            return Err(ApplyError::ThresholdOutOfRange);
        }
        let value = percent_text(charge_threshold_start);
        self.charge_threshold_start = charge_threshold_start;
        Ok(Write { path, value })
    }

    /// Sets where charging stops, a fraction between 0 and 1, on a power
    /// supply that takes thresholds. The write holds the nearest whole
    /// percent.
    pub fn set_charge_threshold_end(&mut self, charge_threshold_end: Fixed) -> (r: Result<
        Write,
        ApplyError,
    >)
        ensures
            match r {
                Ok(w) => {
                    &&& threshold_refusal(*old(self), charge_threshold_end).is_none()
                    &&& w.path@ == joined(
                        old(self).path@,
                        old(self).threshold_config.unwrap().path_end@,
                    )
                    &&& w.value@ == decimal(threshold_percent(charge_threshold_end) as nat)
                    &&& *final(self) == PowerSupply { charge_threshold_end, ..*old(self) }
                },
                Err(e) => {
                    &&& threshold_refusal(*old(self), charge_threshold_end) == Some(e)
                    &&& *final(self) == *old(self)
                },
            },
    {
        let path = match self.charge_threshold_path_end() {
            Some(path) => path,
            None => {
                return Err(ApplyError::ThresholdsUnsupported);
            },
        };
        if charge_threshold_end.micros < 0 || charge_threshold_end.micros > SCALE {
            return Err(ApplyError::ThresholdOutOfRange);
        }
        let value = percent_text(charge_threshold_end);
        self.charge_threshold_end = charge_threshold_end;
        Ok(Write { path, value })
    }

    /// The platform profiles on offer: the words of the file of choices, or
    /// none where the file does not exist.
    pub fn get_available_platform_profiles(content: Option<&str>) -> (r: Vec<String>)
        ensures
            texts(r@) == match content {
                Some(c) => words(c@),
                None => Seq::<Seq<char>>::empty(),
            },
    {
        match content {
            Some(c) => split_whitespace(c),
            None => {
                let none: Vec<String> = Vec::new();
                assert(texts(none@) =~= Seq::<Seq<char>>::empty());
                none
            },
        }
    }

    /// Sets the platform profile, which must be on offer.
    pub fn set_platform_profile(profile: &str, available: &Vec<String>) -> (r: Result<
        Write,
        ApplyError,
    >)
        ensures
            match r {
                Ok(w) => {
                    &&& texts(available@).contains(profile@)
                    &&& w.path@ == platform_profile_path()
                    &&& w.value@ == profile@
                },
                Err(e) => e == ApplyError::ProfileUnavailable && !texts(available@).contains(
                    profile@,
                ),
            },
    {
        if !contains_name(available, profile) {
            return Err(ApplyError::ProfileUnavailable);
        }
        Ok(
            Write {
                path: String::from_str("/sys/firmware/acpi/platform_profile"),
                value: String::from_str(profile),
            },
        )
    }
}

/// A threshold that was written is read back as the nearest hundredth: for
/// a fraction `f` between 0 and 1, the text written is a whole percent `p`,
/// the nearest to `100 f`, and a scan reads it as `p / 100`.
pub proof fn lemma_threshold_read_back(fraction: Fixed)
    requires
        0 <= fraction@ <= SCALE,
    ensures
        0 <= threshold_percent(fraction) <= 100,
        crate::text::u64_of(decimal(threshold_percent(fraction) as nat)) == Some(
            threshold_percent(fraction) as u64,
        ),
        percent_fraction(threshold_percent(fraction) as u64) == Some(
            Fixed { micros: (round_div(fraction@ * 100, SCALE as int) * (SCALE / 100)) as i64 },
        ),
{
    let percent = threshold_percent(fraction);
    assert(0 <= percent <= 100) by (nonlinear_arith)
        requires
            percent == round_div(fraction@ * 100, 1_000_000),
            0 <= fraction@ <= 1_000_000,
    ;
    crate::text::lemma_decimal_round_trip(percent as nat);
}

} // verus!
