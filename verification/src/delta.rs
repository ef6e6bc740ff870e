//! Deltas: patches of optional settings for one CPU or one power supply, and
//! how two of them merge.
//!
//! Merging is *accumulator wins*: a setting that the accumulator already
//! holds is kept, and only its gaps are filled from the other delta.

use vstd::prelude::*;
use crate::number::Fixed;

verus! {

/// The characters of a string that may be absent.
pub open spec fn text_view(s: Option<String>) -> Option<Seq<char>> {
    match s {
        Some(s) => Some(s@),
        None => None,
    }
}

/// `first` where it is set, else `second`.
pub open spec fn or_else<T>(first: Option<T>, second: Option<T>) -> Option<T> {
    match first {
        Some(_) => first,
        None => second,
    }
}

/// The settings to write to one CPU.
#[derive(Debug, PartialEq, Eq)]
pub struct CpuDelta {
    pub governor: Option<String>,
    pub energy_performance_preference: Option<String>,
    pub energy_performance_bias: Option<String>,
    pub frequency_mhz_minimum: Option<u64>,
    pub frequency_mhz_maximum: Option<u64>,
}

/// The mathematical content of a [`CpuDelta`].
pub struct CpuDeltaView {
    pub governor: Option<Seq<char>>,
    pub energy_performance_preference: Option<Seq<char>>,
    pub energy_performance_bias: Option<Seq<char>>,
    pub frequency_mhz_minimum: Option<u64>,
    pub frequency_mhz_maximum: Option<u64>,
}

impl View for CpuDelta {
    type V = CpuDeltaView;

    open spec fn view(&self) -> CpuDeltaView {
        CpuDeltaView {
            governor: text_view(self.governor),
            energy_performance_preference: text_view(self.energy_performance_preference),
            energy_performance_bias: text_view(self.energy_performance_bias),
            frequency_mhz_minimum: self.frequency_mhz_minimum,
            frequency_mhz_maximum: self.frequency_mhz_maximum,
        }
    }
}

impl CpuDeltaView {
    /// The delta that sets nothing.
    pub open spec fn empty() -> CpuDeltaView {
        CpuDeltaView {
            governor: None,
            energy_performance_preference: None,
            energy_performance_bias: None,
            frequency_mhz_minimum: None,
            frequency_mhz_maximum: None,
        }
    }

    /// Every setting is present.
    pub open spec fn is_saturated(self) -> bool {
        &&& self.governor.is_some()
        &&& self.energy_performance_preference.is_some()
        &&& self.energy_performance_bias.is_some()
        &&& self.frequency_mhz_minimum.is_some()
        &&& self.frequency_mhz_maximum.is_some()
    }

    /// This delta with its gaps filled from `lower`.
    pub open spec fn or(self, lower: CpuDeltaView) -> CpuDeltaView {
        CpuDeltaView {
            governor: or_else(self.governor, lower.governor),
            energy_performance_preference: or_else(
                self.energy_performance_preference,
                lower.energy_performance_preference,
            ),
            energy_performance_bias: or_else(
                self.energy_performance_bias,
                lower.energy_performance_bias,
            ),
            frequency_mhz_minimum: or_else(self.frequency_mhz_minimum, lower.frequency_mhz_minimum),
            frequency_mhz_maximum: or_else(self.frequency_mhz_maximum, lower.frequency_mhz_maximum),
        }
    }
}

impl CpuDelta {
    /// The delta that sets nothing.
    pub fn new() -> (r: CpuDelta)
        ensures
            r@ == CpuDeltaView::empty(),
    {
        CpuDelta {
            governor: None,
            energy_performance_preference: None,
            energy_performance_bias: None,
            frequency_mhz_minimum: None,
            frequency_mhz_maximum: None,
        }
    }

    /// `true` when every setting is present.
    pub fn is_saturated(&self) -> (r: bool)
        ensures
            r == self@.is_saturated(),
    {
        self.governor.is_some() && self.energy_performance_preference.is_some()
            && self.energy_performance_bias.is_some() && self.frequency_mhz_minimum.is_some()
            && self.frequency_mhz_maximum.is_some()
    }

    /// Fills the gaps of this delta from `lower`; what is set stays.
    pub fn fill_from(&mut self, lower: CpuDelta)
        ensures
            final(self)@ == old(self)@.or(lower@),
    {
        if self.governor.is_none() {
            self.governor = lower.governor;
        }
        if self.energy_performance_preference.is_none() {
            self.energy_performance_preference = lower.energy_performance_preference;
        }
        if self.energy_performance_bias.is_none() {
            self.energy_performance_bias = lower.energy_performance_bias;
        }
        if self.frequency_mhz_minimum.is_none() {
            self.frequency_mhz_minimum = lower.frequency_mhz_minimum;
        }
        if self.frequency_mhz_maximum.is_none() {
            self.frequency_mhz_maximum = lower.frequency_mhz_maximum;
        }
    }
}

/// The charge thresholds to write to one power supply, each between 0 and 1.
#[derive(Clone, Copy, Debug, PartialEq, Eq, Structural)]
pub struct PowerDelta {
    pub charge_threshold_start: Option<Fixed>,
    pub charge_threshold_end: Option<Fixed>,
}

impl PowerDelta {
    /// The delta that sets nothing.
    pub open spec fn empty() -> PowerDelta {
        PowerDelta { charge_threshold_start: None, charge_threshold_end: None }
    }

    /// Both thresholds are present.
    pub open spec fn saturated(self) -> bool {
        self.charge_threshold_start.is_some() && self.charge_threshold_end.is_some()
    }

    /// This delta with its gaps filled from `lower`.
    pub open spec fn or(self, lower: PowerDelta) -> PowerDelta {
        PowerDelta {
            charge_threshold_start: or_else(
                self.charge_threshold_start,
                lower.charge_threshold_start,
            ),
            charge_threshold_end: or_else(self.charge_threshold_end, lower.charge_threshold_end),
        }
    }

    /// The delta that sets nothing.
    pub fn new() -> (r: PowerDelta)
        ensures
            r == PowerDelta::empty(),
    {
        PowerDelta { charge_threshold_start: None, charge_threshold_end: None }
    }

    /// `true` when both thresholds are present.
    pub fn is_saturated(&self) -> (r: bool)
        ensures
            r == self.saturated(),
    {
        self.charge_threshold_start.is_some() && self.charge_threshold_end.is_some()
    }

    /// Fills the gaps of this delta from `lower`; what is set stays.
    pub fn fill_from(&mut self, lower: PowerDelta)
        ensures
            *final(self) == old(self).or(lower),
    {
        if self.charge_threshold_start.is_none() {
            self.charge_threshold_start = lower.charge_threshold_start;
        }
        if self.charge_threshold_end.is_none() {
            self.charge_threshold_end = lower.charge_threshold_end;
        }
    }
}

/// Merging is a monoid: the empty delta is its identity on both sides, and
/// it is associative.
pub proof fn lemma_cpu_merge_monoid(a: CpuDeltaView, b: CpuDeltaView, c: CpuDeltaView)
    ensures
        CpuDeltaView::empty().or(a) == a,
        a.or(CpuDeltaView::empty()) == a,
        a.or(b).or(c) == a.or(b.or(c)),
{
}

/// The accumulator wins: a setting that `a` holds is the setting of the
/// merge, whatever `b` holds; and a saturated delta is not changed by merging.
pub proof fn lemma_cpu_merge_keeps(a: CpuDeltaView, b: CpuDeltaView)
    ensures
        a.governor.is_some() ==> a.or(b).governor == a.governor,
        a.energy_performance_preference.is_some() ==> a.or(b).energy_performance_preference
            == a.energy_performance_preference,
        a.energy_performance_bias.is_some() ==> a.or(b).energy_performance_bias
            == a.energy_performance_bias,
        a.frequency_mhz_minimum.is_some() ==> a.or(b).frequency_mhz_minimum
            == a.frequency_mhz_minimum,
        a.frequency_mhz_maximum.is_some() ==> a.or(b).frequency_mhz_maximum
            == a.frequency_mhz_maximum,
        a.is_saturated() ==> a.or(b) == a,
        a.or(a) == a,
{
}

/// Lower priority fills gaps: a setting that `a` lacks is taken from `b`.
pub proof fn lemma_cpu_merge_fills(a: CpuDeltaView, b: CpuDeltaView)
    ensures
        a.governor.is_none() ==> a.or(b).governor == b.governor,
        a.energy_performance_preference.is_none() ==> a.or(b).energy_performance_preference
            == b.energy_performance_preference,
        a.energy_performance_bias.is_none() ==> a.or(b).energy_performance_bias
            == b.energy_performance_bias,
        a.frequency_mhz_minimum.is_none() ==> a.or(b).frequency_mhz_minimum
            == b.frequency_mhz_minimum,
        a.frequency_mhz_maximum.is_none() ==> a.or(b).frequency_mhz_maximum
            == b.frequency_mhz_maximum,
{
}

/// The same laws for the deltas of power supplies.
pub proof fn lemma_power_merge(a: PowerDelta, b: PowerDelta, c: PowerDelta)
    ensures
        PowerDelta::empty().or(a) == a,
        a.or(PowerDelta::empty()) == a,
        a.or(b).or(c) == a.or(b.or(c)),
        a.saturated() ==> a.or(b) == a,
        a.or(a) == a,
        a.charge_threshold_start.is_some() ==> a.or(b).charge_threshold_start
            == a.charge_threshold_start,
        a.charge_threshold_end.is_some() ==> a.or(b).charge_threshold_end
            == a.charge_threshold_end,
{
}

} // verus!
