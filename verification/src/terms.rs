//! The names under which the sensors of the expression language are
//! written.

use vstd::prelude::*;
use crate::expression::Sensor;
use crate::text::str_eq;

verus! {

impl Sensor {
    /// The name under which the sensor is written.
    pub open spec fn name(self) -> Seq<char> {
        match self {
            Sensor::CpuUsage => "%cpu-usage"@,
            Sensor::CpuUsageVolatility => "$cpu-usage-volatility"@,
            Sensor::CpuTemperature => "$cpu-temperature"@,
            Sensor::CpuTemperatureVolatility => "$cpu-temperature-volatility"@,
            Sensor::CpuIdleSeconds => "$cpu-idle-seconds"@,
            Sensor::CpuFrequencyMaximum => "$cpu-frequency-maximum"@,
            Sensor::CpuFrequencyMinimum => "$cpu-frequency-minimum"@,
            Sensor::CpuScalingMaximum => "$cpu-scaling-maximum"@,
            Sensor::CpuCoreCount => "$cpu-core-count"@,
            Sensor::LoadAverage1m => "$load-average-1m"@,
            Sensor::LoadAverage5m => "$load-average-5m"@,
            Sensor::LoadAverage15m => "$load-average-15m"@,
            Sensor::HourOfDay => "$hour-of-day"@,
            Sensor::PowerSupplyCharge => "%power-supply-charge"@,
            Sensor::PowerSupplyDischargeRate => "%power-supply-discharge-rate"@,
            Sensor::BatteryCycles => "$battery-cycles"@,
            Sensor::BatteryHealth => "%battery-health"@,
            Sensor::Discharging => "?discharging"@,
            Sensor::LidClosed => "?lid-closed"@,
            Sensor::FrequencyAvailable => "?frequency-available"@,
            Sensor::TurboAvailable => "?turbo-available"@,
        }
    }

    /// Every sensor, in the order in which names are tried.
    pub open spec fn every() -> Seq<Sensor> {
        seq![
            Sensor::CpuUsage,
            Sensor::CpuUsageVolatility,
            Sensor::CpuTemperature,
            Sensor::CpuTemperatureVolatility,
            Sensor::CpuIdleSeconds,
            Sensor::CpuFrequencyMaximum,
            Sensor::CpuFrequencyMinimum,
            Sensor::CpuScalingMaximum,
            Sensor::CpuCoreCount,
            Sensor::LoadAverage1m,
            Sensor::LoadAverage5m,
            Sensor::LoadAverage15m,
            Sensor::HourOfDay,
            Sensor::PowerSupplyCharge,
            Sensor::PowerSupplyDischargeRate,
            Sensor::BatteryCycles,
            Sensor::BatteryHealth,
            Sensor::Discharging,
            Sensor::LidClosed,
            Sensor::FrequencyAvailable,
            Sensor::TurboAvailable,
        ]
    }

    /// The first sensor, from position `from` of [`Sensor::every`] on,
    /// whose name is `name`.
    pub open spec fn named_from(name: Seq<char>, from: nat) -> Option<Sensor>
        decreases Sensor::every().len() - from,
    {
        if from >= Sensor::every().len() {
            None
        } else if Sensor::every()[from as int].name() == name {
            Some(Sensor::every()[from as int])
        } else {
            Sensor::named_from(name, from + 1)
        }
    }

    /// The sensor that `name` names, if any.
    pub open spec fn named(name: Seq<char>) -> Option<Sensor> {
        Sensor::named_from(name, 0)
    }

    /// The name under which the sensor is written.
    pub fn as_str(&self) -> (r: &'static str)
        ensures
            r@ == self.name(),
    {
        match self {
            Sensor::CpuUsage => "%cpu-usage",
            Sensor::CpuUsageVolatility => "$cpu-usage-volatility",
            Sensor::CpuTemperature => "$cpu-temperature",
            Sensor::CpuTemperatureVolatility => "$cpu-temperature-volatility",
            Sensor::CpuIdleSeconds => "$cpu-idle-seconds",
            Sensor::CpuFrequencyMaximum => "$cpu-frequency-maximum",
            Sensor::CpuFrequencyMinimum => "$cpu-frequency-minimum",
            Sensor::CpuScalingMaximum => "$cpu-scaling-maximum",
            Sensor::CpuCoreCount => "$cpu-core-count",
            Sensor::LoadAverage1m => "$load-average-1m",
            Sensor::LoadAverage5m => "$load-average-5m",
            Sensor::LoadAverage15m => "$load-average-15m",
            Sensor::HourOfDay => "$hour-of-day",
            Sensor::PowerSupplyCharge => "%power-supply-charge",
            Sensor::PowerSupplyDischargeRate => "%power-supply-discharge-rate",
            Sensor::BatteryCycles => "$battery-cycles",
            Sensor::BatteryHealth => "%battery-health",
            Sensor::Discharging => "?discharging",
            Sensor::LidClosed => "?lid-closed",
            Sensor::FrequencyAvailable => "?frequency-available",
            Sensor::TurboAvailable => "?turbo-available",
        }
    }

    /// Every sensor, in the order in which names are tried.
    pub fn all() -> (r: [Sensor; 21])
        ensures
            r@ == Sensor::every(),
    {
        let r = [
            Sensor::CpuUsage,
            Sensor::CpuUsageVolatility,
            Sensor::CpuTemperature,
            Sensor::CpuTemperatureVolatility,
            Sensor::CpuIdleSeconds,
            Sensor::CpuFrequencyMaximum,
            Sensor::CpuFrequencyMinimum,
            Sensor::CpuScalingMaximum,
            Sensor::CpuCoreCount,
            Sensor::LoadAverage1m,
            Sensor::LoadAverage5m,
            Sensor::LoadAverage15m,
            Sensor::HourOfDay,
            Sensor::PowerSupplyCharge,
            Sensor::PowerSupplyDischargeRate,
            Sensor::BatteryCycles,
            Sensor::BatteryHealth,
            Sensor::Discharging,
            Sensor::LidClosed,
            Sensor::FrequencyAvailable,
            Sensor::TurboAvailable,
        ];
        assert(r@ =~= Sensor::every());
        r
    }

    /// The sensor that `value` names, if any.
    pub fn from_str(value: &str) -> (r: Option<Sensor>)
        ensures
            r == Sensor::named(value@),
    {
        let all = Sensor::all();
        let mut i: usize = 0;
        while i < 21
            invariant
                i <= 21,
                all@ == Sensor::every(),
                Sensor::every().len() == 21,
                Sensor::named(value@) == Sensor::named_from(value@, i as nat),
            decreases 21 - i,
        {
            if str_eq(all[i].as_str(), value) {
                return Some(all[i]);
            }
            i += 1;
        }
        None
    }
}

/// The position of a sensor in [`Sensor::every`].
pub open spec fn sensor_position(sensor: Sensor) -> nat {
    match sensor {
        Sensor::CpuUsage => 0,
        Sensor::CpuUsageVolatility => 1,
        Sensor::CpuTemperature => 2,
        Sensor::CpuTemperatureVolatility => 3,
        Sensor::CpuIdleSeconds => 4,
        Sensor::CpuFrequencyMaximum => 5,
        Sensor::CpuFrequencyMinimum => 6,
        Sensor::CpuScalingMaximum => 7,
        Sensor::CpuCoreCount => 8,
        Sensor::LoadAverage1m => 9,
        Sensor::LoadAverage5m => 10,
        Sensor::LoadAverage15m => 11,
        Sensor::HourOfDay => 12,
        Sensor::PowerSupplyCharge => 13,
        Sensor::PowerSupplyDischargeRate => 14,
        Sensor::BatteryCycles => 15,
        Sensor::BatteryHealth => 16,
        Sensor::Discharging => 17,
        Sensor::LidClosed => 18,
        Sensor::FrequencyAvailable => 19,
        Sensor::TurboAvailable => 20,
    }
}

/// The length of a name and three of its characters, a blank standing for
/// one that the name is too short to have. No two sensors agree in all four.
pub open spec fn fingerprint(name: Seq<char>) -> (nat, char, char, char) {
    (
        name.len(),
        name[6],
        if name.len() > 14 {
            name[14]
        } else {
            ' '
        },
        if name.len() > 16 {
            name[16]
        } else {
            ' '
        },
    )
}

proof fn lemma_sensor_fingerprint(sensor: Sensor)
    ensures
        fingerprint(sensor.name()) == match sensor {
            Sensor::CpuUsage => (10nat, 's', ' ', ' '),
            Sensor::CpuUsageVolatility => (21nat, 's', 'a', 'i'),
            Sensor::CpuTemperature => (16nat, 'e', 'r', ' '),
            Sensor::CpuTemperatureVolatility => (27nat, 'e', 'r', '-'),
            Sensor::CpuIdleSeconds => (17nat, 'd', 'n', 's'),
            Sensor::CpuFrequencyMaximum => (22nat, 'r', '-', 'a'),
            Sensor::CpuFrequencyMinimum => (22nat, 'r', '-', 'i'),
            Sensor::CpuScalingMaximum => (20nat, 'c', 'a', 'i'),
            Sensor::CpuCoreCount => (15nat, 'o', 't', ' '),
            Sensor::LoadAverage1m => (16nat, 'a', '1', ' '),
            Sensor::LoadAverage5m => (16nat, 'a', '5', ' '),
            Sensor::LoadAverage15m => (17nat, 'a', '1', 'm'),
            Sensor::HourOfDay => (12nat, 'o', ' ', ' '),
            Sensor::PowerSupplyCharge => (20nat, '-', 'c', 'a'),
            Sensor::PowerSupplyDischargeRate => (28nat, '-', 'd', 's'),
            Sensor::BatteryCycles => (15nat, 'r', 's', ' '),
            Sensor::BatteryHealth => (15nat, 'r', 'h', ' '),
            Sensor::Discharging => (12nat, 'a', ' ', ' '),
            Sensor::LidClosed => (11nat, 'l', ' ', ' '),
            Sensor::FrequencyAvailable => (20nat, 'e', 'i', 'a'),
            Sensor::TurboAvailable => (16nat, '-', 'l', ' '),
        },
{
    reveal_strlit("%cpu-usage");
    reveal_strlit("$cpu-usage-volatility");
    reveal_strlit("$cpu-temperature");
    reveal_strlit("$cpu-temperature-volatility");
    reveal_strlit("$cpu-idle-seconds");
    reveal_strlit("$cpu-frequency-maximum");
    reveal_strlit("$cpu-frequency-minimum");
    reveal_strlit("$cpu-scaling-maximum");
    reveal_strlit("$cpu-core-count");
    reveal_strlit("$load-average-1m");
    reveal_strlit("$load-average-5m");
    reveal_strlit("$load-average-15m");
    reveal_strlit("$hour-of-day");
    reveal_strlit("%power-supply-charge");
    reveal_strlit("%power-supply-discharge-rate");
    reveal_strlit("$battery-cycles");
    reveal_strlit("%battery-health");
    reveal_strlit("?discharging");
    reveal_strlit("?lid-closed");
    reveal_strlit("?frequency-available");
    reveal_strlit("?turbo-available");
}

proof fn lemma_sensor_names_differ(a: Sensor, b: Sensor)
    requires
        a != b,
    ensures
        a.name() != b.name(),
{
    lemma_sensor_fingerprint(a);
    lemma_sensor_fingerprint(b);
}

proof fn lemma_named_from(sensor: Sensor, from: nat)
    requires
        from <= sensor_position(sensor),
    ensures
        Sensor::named_from(sensor.name(), from) == Some(sensor),
    decreases sensor_position(sensor) - from,
{
    assert(Sensor::every()[sensor_position(sensor) as int] == sensor);
    if from < sensor_position(sensor) {
        lemma_sensor_names_differ(Sensor::every()[from as int], sensor);
        lemma_named_from(sensor, from + 1);
    }
}

/// A sensor is found again by its name.
pub proof fn lemma_sensor_name_round_trip(sensor: Sensor)
    ensures
        Sensor::named(sensor.name()) == Some(sensor),
{
    lemma_named_from(sensor, 0);
}

} // verus!
