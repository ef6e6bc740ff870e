//! Rules as they are configured: a priority, a condition, and for each
//! setting an expression that yields its value.

use vstd::prelude::*;
use crate::codec::{DecodeError, ExpressionView};
use crate::document::ConfigValue;
use crate::rule_codec::{decode_document, decode_rules_of};
use crate::delta::{CpuDelta, CpuDeltaView, PowerDelta};
use crate::eval::evaluate;
use crate::expression::{EvalError, EvalState, Expression, Value, ValueView};
use crate::number::{round_div, round_div_wide, Fixed, SCALE};

verus! {

/// Why the rules could not be turned into settings.
#[derive(Clone, Copy, Debug, PartialEq, Eq, Structural)]
pub enum RuleError {
    /// An expression failed.
    Eval(EvalError),
    /// A `for` list was undefined.
    UndefinedTargets,
    /// A `for` list of CPUs holds something that is no CPU number.
    InvalidCpuNumber,
    /// A `for` list names a CPU that the system lacks.
    UnknownCpu,
    /// A `for` list names a power supply that the system lacks.
    UnknownPowerSupply,
    /// A frequency below zero.
    NegativeFrequency,
    /// A charge threshold outside of 0 to 100.
    ThresholdOutOfRange,
}

/// The expressions that yield the settings of CPUs.
#[derive(Debug, PartialEq, Eq)]
pub struct CpuDeltaSpec {
    /// The CPUs to change, a list of numbers; all CPUs when absent.
    pub for_: Option<Expression>,
    pub governor: Option<Expression>,
    pub energy_performance_preference: Option<Expression>,
    pub energy_performance_bias: Option<Expression>,
    pub frequency_mhz_minimum: Option<Expression>,
    pub frequency_mhz_maximum: Option<Expression>,
    /// Turbo boost, for the system as a whole.
    pub turbo: Option<Expression>,
}

/// The expressions that yield the settings of power supplies.
#[derive(Debug, PartialEq, Eq)]
pub struct PowerDeltaSpec {
    /// The power supplies to change, a list of names; when absent, every
    /// power supply that takes charge thresholds.
    pub for_: Option<Expression>,
    /// In percent, 0 to 100.
    pub charge_threshold_start: Option<Expression>,
    /// In percent, 0 to 100.
    pub charge_threshold_end: Option<Expression>,
    /// The platform profile, for the system as a whole.
    pub platform_profile: Option<Expression>,
}

/// One rule.
#[derive(Debug, PartialEq, Eq)]
pub struct Rule {
    pub name: String,
    pub priority: u16,
    pub condition: Expression,
    pub cpu: CpuDeltaSpec,
    pub power: PowerDeltaSpec,
}

/// The view of an expression that may be absent.
pub open spec fn optional_view(e: Option<Expression>) -> Option<ExpressionView> {
    match e {
        Some(e) => Some(e@),
        None => None,
    }
}

/// The mathematical content of a [`CpuDeltaSpec`].
pub struct CpuDeltaSpecView {
    pub for_: Option<ExpressionView>,
    pub governor: Option<ExpressionView>,
    pub energy_performance_preference: Option<ExpressionView>,
    pub energy_performance_bias: Option<ExpressionView>,
    pub frequency_mhz_minimum: Option<ExpressionView>,
    pub frequency_mhz_maximum: Option<ExpressionView>,
    pub turbo: Option<ExpressionView>,
}

/// The mathematical content of a [`PowerDeltaSpec`].
pub struct PowerDeltaSpecView {
    pub for_: Option<ExpressionView>,
    pub charge_threshold_start: Option<ExpressionView>,
    pub charge_threshold_end: Option<ExpressionView>,
    pub platform_profile: Option<ExpressionView>,
}

/// The mathematical content of a [`Rule`].
pub struct RuleView {
    pub name: Seq<char>,
    pub priority: u16,
    pub condition: ExpressionView,
    pub cpu: CpuDeltaSpecView,
    pub power: PowerDeltaSpecView,
}

impl View for CpuDeltaSpec {
    type V = CpuDeltaSpecView;

    open spec fn view(&self) -> CpuDeltaSpecView {
        CpuDeltaSpecView {
            for_: optional_view(self.for_),
            governor: optional_view(self.governor),
            energy_performance_preference: optional_view(self.energy_performance_preference),
            energy_performance_bias: optional_view(self.energy_performance_bias),
            frequency_mhz_minimum: optional_view(self.frequency_mhz_minimum),
            frequency_mhz_maximum: optional_view(self.frequency_mhz_maximum),
            turbo: optional_view(self.turbo),
        }
    }
}

impl View for PowerDeltaSpec {
    type V = PowerDeltaSpecView;

    open spec fn view(&self) -> PowerDeltaSpecView {
        PowerDeltaSpecView {
            for_: optional_view(self.for_),
            charge_threshold_start: optional_view(self.charge_threshold_start),
            charge_threshold_end: optional_view(self.charge_threshold_end),
            platform_profile: optional_view(self.platform_profile),
        }
    }
}

impl View for Rule {
    type V = RuleView;

    open spec fn view(&self) -> RuleView {
        RuleView {
            name: self.name@,
            priority: self.priority,
            condition: self.condition@,
            cpu: self.cpu@,
            power: self.power@,
        }
    }
}

/// The views of `rules`, in order.
pub open spec fn rule_views(rules: Seq<Rule>) -> Seq<RuleView> {
    rules.map_values(|r: Rule| r@)
}

/// The priorities of `rules`, in order.
pub open spec fn view_priorities(rules: Seq<RuleView>) -> Seq<int> {
    rules.map_values(|r: RuleView| r.priority as int)
}

/// What a frequency expression yields: whole megahertz, and whether a
/// fraction was rounded away.
pub struct FrequencySetting {
    pub mhz: u64,
    pub rounded: bool,
}

/// The value of a setting's expression: absent where there is no
/// expression or it is undefined.
pub open spec fn setting_value(field: Option<Expression>, state: EvalState) -> Result<
    Option<ValueView>,
    RuleError,
> {
    match field {
        None => Ok(None),
        Some(e) => match evaluate(e, state) {
            Err(err) => Err(RuleError::Eval(err)),
            Ok(v) => Ok(v),
        },
    }
}

/// A setting that is a string.
pub open spec fn text_setting(field: Option<Expression>, state: EvalState) -> Result<
    Option<Seq<char>>,
    RuleError,
> {
    match setting_value(field, state) {
        Err(e) => Err(e),
        Ok(None) => Ok(None),
        Ok(Some(v)) => match v.text() {
            Err(err) => Err(RuleError::Eval(err)),
            Ok(s) => Ok(Some(s)),
        },
    }
}

/// A setting that is a boolean.
pub open spec fn boolean_setting(field: Option<Expression>, state: EvalState) -> Result<
    Option<bool>,
    RuleError,
> {
    match setting_value(field, state) {
        Err(e) => Err(e),
        Ok(None) => Ok(None),
        Ok(Some(v)) => match v.boolean() {
            Err(err) => Err(RuleError::Eval(err)),
            Ok(b) => Ok(Some(b)),
        },
    }
}

/// The whole megahertz nearest to `n` millionths of a megahertz.
pub open spec fn nearest_mhz(n: int) -> int {
    round_div(n, SCALE as int)
}

/// A frequency setting: the number rounded to the nearest megahertz.
pub open spec fn frequency_setting(field: Option<Expression>, state: EvalState) -> Result<
    Option<FrequencySetting>,
    RuleError,
> {
    match setting_value(field, state) {
        Err(e) => Err(e),
        Ok(None) => Ok(None),
        Ok(Some(v)) => match v.number() {
            Err(err) => Err(RuleError::Eval(err)),
            Ok(n) => if nearest_mhz(n) < 0 {
                Err(RuleError::NegativeFrequency)
            } else {
                Ok(
                    Some(
                        FrequencySetting {
                            mhz: nearest_mhz(n) as u64,
                            rounded: n % (SCALE as int) != 0,
                        },
                    ),
                )
            },
        },
    }
}

/// The fraction that `percent` (in millionths of a percent) stands for.
pub open spec fn fraction_of_percent(percent: int) -> int {
    round_div(percent, 100)
}

/// A threshold setting: a number of percent between 0 and 100, stored as
/// a fraction between 0 and 1.
pub open spec fn threshold_setting(field: Option<Expression>, state: EvalState) -> Result<
    Option<Fixed>,
    RuleError,
> {
    match setting_value(field, state) {
        Err(e) => Err(e),
        Ok(None) => Ok(None),
        Ok(Some(v)) => match v.number() {
            Err(err) => Err(RuleError::Eval(err)),
            Ok(n) => if 0 <= n <= 100 * SCALE {
                Ok(Some(Fixed { micros: fraction_of_percent(n) as i64 }))
            } else {
                Err(RuleError::ThresholdOutOfRange)
            },
        },
    }
}

/// The settings that `spec` yields for the CPU of `state`'s context, and
/// whether a frequency was rounded. The fields are taken in the order
/// governor, preference, bias, minimum, maximum; the first failure is the
/// result.
pub open spec fn cpu_delta_of(spec: CpuDeltaSpec, state: EvalState) -> Result<
    (CpuDeltaView, bool),
    RuleError,
> {
    match text_setting(spec.governor, state) {
        Err(e) => Err(e),
        Ok(governor) => match text_setting(spec.energy_performance_preference, state) {
            Err(e) => Err(e),
            Ok(epp) => match text_setting(spec.energy_performance_bias, state) {
                Err(e) => Err(e),
                Ok(epb) => match frequency_setting(spec.frequency_mhz_minimum, state) {
                    Err(e) => Err(e),
                    Ok(minimum) => match frequency_setting(spec.frequency_mhz_maximum, state) {
                        Err(e) => Err(e),
                        Ok(maximum) => Ok(
                            (
                                CpuDeltaView {
                                    governor,
                                    energy_performance_preference: epp,
                                    energy_performance_bias: epb,
                                    frequency_mhz_minimum: mhz_of(minimum),
                                    frequency_mhz_maximum: mhz_of(maximum),
                                },
                                was_rounded(minimum) || was_rounded(maximum),
                            ),
                        ),
                    },
                },
            },
        },
    }
}

/// The megahertz of a frequency setting.
pub open spec fn mhz_of(setting: Option<FrequencySetting>) -> Option<u64> {
    match setting {
        Some(s) => Some(s.mhz),
        None => None,
    }
}

/// `true` when the setting is present and was rounded.
pub open spec fn was_rounded(setting: Option<FrequencySetting>) -> bool {
    match setting {
        Some(s) => s.rounded,
        None => false,
    }
}

/// The thresholds that `spec` yields for the power supply of `state`'s
/// context: start, then end.
pub open spec fn power_delta_of(spec: PowerDeltaSpec, state: EvalState) -> Result<
    PowerDelta,
    RuleError,
> {
    match threshold_setting(spec.charge_threshold_start, state) {
        Err(e) => Err(e),
        Ok(start) => match threshold_setting(spec.charge_threshold_end, state) {
            Err(e) => Err(e),
            Ok(end) => Ok(PowerDelta { charge_threshold_start: start, charge_threshold_end: end }),
        },
    }
}

fn eval_setting(field: &Option<Expression>, state: &EvalState) -> (r: Result<
    Option<Value>,
    RuleError,
>)
    requires
        state.wf(),
    ensures
        match r {
            Ok(Some(v)) => setting_value(*field, *state) == Ok::<Option<ValueView>, RuleError>(
                Some(v@),
            ),
            Ok(None) => setting_value(*field, *state) == Ok::<Option<ValueView>, RuleError>(None),
            Err(e) => setting_value(*field, *state) == Err::<Option<ValueView>, RuleError>(e),
        },
{
    match field {
        None => Ok(None),
        Some(e) => match e.eval(state) {
            Err(err) => Err(RuleError::Eval(err)),
            Ok(v) => Ok(v),
        },
    }
}

/// Evaluates a setting that is a string.
pub fn eval_text_setting(field: &Option<Expression>, state: &EvalState) -> (r: Result<
    Option<String>,
    RuleError,
>)
    requires
        state.wf(),
    ensures
        match r {
            Ok(s) => text_setting(*field, *state) == Ok::<Option<Seq<char>>, RuleError>(
                crate::delta::text_view(s),
            ),
            Err(e) => text_setting(*field, *state) == Err::<Option<Seq<char>>, RuleError>(e),
        },
{
    match eval_setting(field, state) {
        Err(e) => Err(e),
        Ok(None) => Ok(None),
        Ok(Some(v)) => match v.try_into_string() {
            Err(err) => Err(RuleError::Eval(err)),
            Ok(s) => Ok(Some(s.clone())),
        },
    }
}

/// Evaluates a setting that is a boolean.
pub fn eval_boolean_setting(field: &Option<Expression>, state: &EvalState) -> (r: Result<
    Option<bool>,
    RuleError,
>)
    requires
        state.wf(),
    ensures
        r == boolean_setting(*field, *state),
{
    match eval_setting(field, state) {
        Err(e) => Err(e),
        Ok(None) => Ok(None),
        Ok(Some(v)) => match v.try_into_boolean() {
            Err(err) => Err(RuleError::Eval(err)),
            Ok(b) => Ok(Some(b)),
        },
    }
}

/// Evaluates a frequency setting.
pub fn eval_frequency_setting(field: &Option<Expression>, state: &EvalState) -> (r: Result<
    Option<FrequencySetting>,
    RuleError,
>)
    requires
        state.wf(),
    ensures
        r == frequency_setting(*field, *state),
{
    match eval_setting(field, state) {
        Err(e) => Err(e),
        Ok(None) => Ok(None),
        Ok(Some(v)) => match v.try_into_number() {
            Err(err) => Err(RuleError::Eval(err)),
            Ok(n) => {
                let mhz: i64 = n.round();
                if mhz < 0 {
                    Err(RuleError::NegativeFrequency)
                } else {
                    Ok(Some(FrequencySetting { mhz: mhz as u64, rounded: !n.is_whole() }))
                }
            },
        },
    }
}

/// Evaluates a threshold setting.
pub fn eval_threshold_setting(field: &Option<Expression>, state: &EvalState) -> (r: Result<
    Option<Fixed>,
    RuleError,
>)
    requires
        state.wf(),
    ensures
        r == threshold_setting(*field, *state),
{
    match eval_setting(field, state) {
        Err(e) => Err(e),
        Ok(None) => Ok(None),
        Ok(Some(v)) => match v.try_into_number() {
            Err(err) => Err(RuleError::Eval(err)),
            Ok(n) => {
                if n.micros < 0 || n.micros > 100_000_000 {
                    Err(RuleError::ThresholdOutOfRange)
                } else {
                    let fraction: i128 = round_div_wide(n.micros as i128, 100);
                    Ok(Some(Fixed { micros: fraction as i64 }))
                }
            },
        },
    }
}

impl CpuDeltaSpec {
    /// Settings that set nothing.
    pub open spec fn new_spec() -> CpuDeltaSpec {
        CpuDeltaSpec {
            for_: None,
            governor: None,
            energy_performance_preference: None,
            energy_performance_bias: None,
            frequency_mhz_minimum: None,
            frequency_mhz_maximum: None,
            turbo: None,
        }
    }

    /// Settings that set nothing.
    #[verifier::when_used_as_spec(new_spec)]
    pub fn new() -> (r: CpuDeltaSpec)
        ensures
            r == Self::new_spec(),
    {
        CpuDeltaSpec {
            for_: None,
            governor: None,
            energy_performance_preference: None,
            energy_performance_bias: None,
            frequency_mhz_minimum: None,
            frequency_mhz_maximum: None,
            turbo: None,
        }
    }

    /// Evaluates the settings for the CPU of `state`'s context. A field
    /// that is undefined stays absent in the delta.
    pub fn evaluate(&self, state: &EvalState) -> (r: Result<(CpuDelta, bool), RuleError>)
        requires
            state.wf(),
        ensures
            match r {
                Ok((delta, rounded)) => cpu_delta_of(*self, *state) == Ok::<
                    (CpuDeltaView, bool),
                    RuleError,
                >((delta@, rounded)),
                Err(e) => cpu_delta_of(*self, *state) == Err::<(CpuDeltaView, bool), RuleError>(e),
            },
    {
        let governor = match eval_text_setting(&self.governor, state) {
            Ok(v) => v,
            Err(e) => {
                return Err(e);
            },
        };
        let epp = match eval_text_setting(&self.energy_performance_preference, state) {
            Ok(v) => v,
            Err(e) => {
                return Err(e);
            },
        };
        let epb = match eval_text_setting(&self.energy_performance_bias, state) {
            Ok(v) => v,
            Err(e) => {
                return Err(e);
            },
        };
        let minimum = match eval_frequency_setting(&self.frequency_mhz_minimum, state) {
            Ok(v) => v,
            Err(e) => {
                return Err(e);
            },
        };
        let maximum = match eval_frequency_setting(&self.frequency_mhz_maximum, state) {
            Ok(v) => v,
            Err(e) => {
                return Err(e);
            },
        };
        let mut rounded = false;
        let mut mhz_minimum: Option<u64> = None;
        let mut mhz_maximum: Option<u64> = None;
        if let Some(s) = minimum {
            mhz_minimum = Some(s.mhz);
            rounded = rounded || s.rounded;
        }
        if let Some(s) = maximum {
            mhz_maximum = Some(s.mhz);
            rounded = rounded || s.rounded;
        }
        Ok(
            (
                CpuDelta {
                    governor,
                    energy_performance_preference: epp,
                    energy_performance_bias: epb,
                    frequency_mhz_minimum: mhz_minimum,
                    frequency_mhz_maximum: mhz_maximum,
                },
                rounded,
            ),
        )
    }
}

impl Default for CpuDeltaSpec {
    /// Settings that set nothing.
    fn default() -> (r: CpuDeltaSpec)
        ensures
            r == CpuDeltaSpec::new_spec(),
    {
        CpuDeltaSpec::new()
    }
}

impl Default for PowerDeltaSpec {
    /// Settings that set nothing.
    fn default() -> (r: PowerDeltaSpec)
        ensures
            r == PowerDeltaSpec::new_spec(),
    {
        PowerDeltaSpec::new()
    }
}

impl Default for Rule {
    /// The rule without a name, of priority zero, that always holds and
    /// sets nothing.
    fn default() -> (r: Rule)
        ensures
            r.name@ == Seq::<char>::empty(),
            r.priority == 0,
            r.condition == Expression::Boolean(true),
            r.cpu == CpuDeltaSpec::new_spec(),
            r.power == PowerDeltaSpec::new_spec(),
    {
        Rule {
            name: String::new(),
            priority: 0,
            condition: Expression::Boolean(true),
            cpu: CpuDeltaSpec::new(),
            power: PowerDeltaSpec::new(),
        }
    }
}

impl PowerDeltaSpec {
    /// Settings that set nothing.
    pub open spec fn new_spec() -> PowerDeltaSpec {
        PowerDeltaSpec {
            for_: None,
            charge_threshold_start: None,
            charge_threshold_end: None,
            platform_profile: None,
        }
    }

    /// Settings that set nothing.
    #[verifier::when_used_as_spec(new_spec)]
    pub fn new() -> (r: PowerDeltaSpec)
        ensures
            r == Self::new_spec(),
    {
        PowerDeltaSpec {
            for_: None,
            charge_threshold_start: None,
            charge_threshold_end: None,
            platform_profile: None,
        }
    }

    /// Evaluates the thresholds for the power supply of `state`'s context.
    /// A field that is undefined stays absent in the delta.
    pub fn evaluate(&self, state: &EvalState) -> (r: Result<PowerDelta, RuleError>)
        requires
            state.wf(),
        ensures
            r == power_delta_of(*self, *state),
    {
        let start = match eval_threshold_setting(&self.charge_threshold_start, state) {
            Ok(v) => v,
            Err(e) => {
                return Err(e);
            },
        };
        let end = match eval_threshold_setting(&self.charge_threshold_end, state) {
            Ok(v) => v,
            Err(e) => {
                return Err(e);
            },
        };
        Ok(PowerDelta { charge_threshold_start: start, charge_threshold_end: end })
    }
}

/// Why a configuration was refused.
#[derive(Clone, Copy, Debug, PartialEq, Eq, Structural)]
pub enum ConfigError {
    /// The document does not hold rules.
    Decode(DecodeError),
    /// Two rules have the same priority.
    DuplicatePriority,
}

/// The rules of the daemon, in ascending order of priority.
#[derive(Debug, PartialEq, Eq)]
pub struct DaemonConfig {
    pub rules: Vec<Rule>,
}

/// The priorities of `rules`, in order.
pub open spec fn priorities(rules: Seq<Rule>) -> Seq<int> {
    rules.map_values(|r: Rule| r.priority as int)
}

/// Every priority is below the ones after it.
pub open spec fn strictly_ascending(ps: Seq<int>) -> bool {
    forall|i: int, j: int| 0 <= i < j < ps.len() ==> ps[i] < ps[j]
}

impl DaemonConfig {
    /// The rules are in ascending order of priority, no priority twice.
    pub open spec fn wf(&self) -> bool {
        strictly_ascending(priorities(self.rules@))
    }

    /// `true` when the rules are in ascending order of priority, no
    /// priority twice.
    pub fn is_valid(&self) -> (r: bool)
        ensures
            r == self.wf(),
    {
        let mut i: usize = 1;
        while i < self.rules.len()
            invariant
                1 <= i,
                forall|a: int, b: int|
                    0 <= a < b < i && b < self.rules@.len() ==> priorities(self.rules@)[a]
                        < priorities(self.rules@)[b],
            decreases self.rules.len() - i,
        {
            if self.rules[i - 1].priority >= self.rules[i].priority {
                assert(priorities(self.rules@)[i - 1] >= priorities(self.rules@)[i as int]);
                return false;
            }
            assert forall|a: int, b: int| 0 <= a < b < i + 1 && b < self.rules@.len() implies
                priorities(self.rules@)[a] < priorities(self.rules@)[b] by {
                if b == i {
                    assert(priorities(self.rules@)[i - 1] < priorities(self.rules@)[b]);
                    if a < i - 1 {
                        assert(priorities(self.rules@)[a] < priorities(self.rules@)[i - 1]);
                    }
                }
            }
            i += 1;
        }
        true
    }

    /// Loads the rules of a configuration document. A document that holds
    /// rules with distinct priorities is accepted, whatever their order, and
    /// the rules come back sorted by ascending priority. A document that
    /// does not hold rules, or in which a priority occurs twice, is refused.
    pub fn load_from(document: &ConfigValue) -> (r: Result<DaemonConfig, ConfigError>)
        ensures
            match decode_document(document@) {
                Err(e) => r == Err::<DaemonConfig, ConfigError>(ConfigError::Decode(e)),
                Ok(rules) => if view_priorities(rules).no_duplicates() {
                    r matches Ok(config) && config.wf() && rule_views(config.rules@).to_multiset()
                        == rules.to_multiset()
                } else {
                    r == Err::<DaemonConfig, ConfigError>(ConfigError::DuplicatePriority)
                },
            },
    {
        let rules = match decode_rules_of(document) {
            Ok(rules) => rules,
            Err(e) => {
                return Err(ConfigError::Decode(e));
            },
        };
        let ghost all = rules@;
        assert(view_priorities(rule_views(all)) =~= priorities(all));
        assert(decode_document(document@) == Ok::<Seq<RuleView>, DecodeError>(rule_views(all)));
        DaemonConfig::from_rules(rules)
    }

    /// Takes the rules of a configuration. Rules with distinct priorities
    /// are accepted, whatever their order, and come back sorted by ascending
    /// priority; a priority that occurs twice is refused.
    pub fn from_rules(rules: Vec<Rule>) -> (r: Result<DaemonConfig, ConfigError>)
        ensures
            priorities(rules@).no_duplicates() == r.is_ok(),
            match r {
                Ok(config) => {
                    &&& config.wf()
                    &&& config.rules@.to_multiset() == rules@.to_multiset()
                    &&& rule_views(config.rules@).to_multiset() == rule_views(
                        rules@,
                    ).to_multiset()
                },
                Err(e) => e == ConfigError::DuplicatePriority && !priorities(
                    rules@,
                ).no_duplicates(),
            },
    {
        broadcast use {
            vstd::seq_lib::to_multiset_build,
            vstd::seq_lib::to_multiset_insert,
            vstd::multiset::group_multiset_axioms,
        };

        let ghost all = rules@;
        let mut rest = rules;
        let mut out: Vec<Rule> = Vec::new();
        proof {
            assert(priorities(out@) =~= Seq::<int>::empty());
            out@.to_multiset_ensures();
            priorities(out@).to_multiset_ensures();
            rule_views(out@).to_multiset_ensures();
            assert(rule_views(out@) =~= Seq::<RuleView>::empty());
            assert(rule_views(out@).to_multiset() =~= vstd::multiset::Multiset::<
                RuleView,
            >::empty());
            assert(out@.to_multiset() =~= vstd::multiset::Multiset::<Rule>::empty());
            assert(priorities(out@).to_multiset() =~= vstd::multiset::Multiset::<int>::empty());
        }
        while rest.len() > 0
            invariant
                all == rules@,
                strictly_ascending(priorities(out@)),
                out@.to_multiset().add(rest@.to_multiset()) =~= all.to_multiset(),
                rule_views(out@).to_multiset().add(rule_views(rest@).to_multiset()) =~= rule_views(
                    all,
                ).to_multiset(),
                priorities(out@).to_multiset().add(priorities(rest@).to_multiset()) =~= priorities(
                    all,
                ).to_multiset(),
            decreases rest.len(),
        {
            let ghost before = rest@;
            let ghost sorted = out@;
            let rule = rest.pop().unwrap();
            let priority: u16 = rule.priority;
            proof {
                assert(before =~= rest@.push(rule));
                assert(priorities(before) =~= priorities(rest@).push(priority as int));
                vstd::seq_lib::to_multiset_build(rest@, rule);
                vstd::seq_lib::to_multiset_build(priorities(rest@), priority as int);
                assert(rule_views(before) =~= rule_views(rest@).push(rule@));
                vstd::seq_lib::to_multiset_build(rule_views(rest@), rule@);
            }
            let mut at: usize = 0;
            while at < out.len() && out[at].priority < priority
                invariant
                    at <= out@.len(),
                    out@ == sorted,
                    forall|k: int| 0 <= k < at ==> (#[trigger] out@[k]).priority < priority,
                decreases out.len() - at,
            {
                at += 1;
            }
            if at < out.len() && out[at].priority == priority {
                proof {
                    let ps = priorities(all);
                    assert(priorities(sorted)[at as int] == priority as int);
                    assert(priorities(sorted).to_multiset().count(priority as int) >= 1) by {
                        priorities(sorted).to_multiset_ensures();
                        assert(priorities(sorted).contains(priority as int));
                    }
                    assert(priorities(before).to_multiset().count(priority as int) >= 1);
                    assert(ps.to_multiset().count(priority as int) >= 2);
                    if ps.no_duplicates() {
                        ps.lemma_multiset_has_no_duplicates();
                    }
                }
                return Err(ConfigError::DuplicatePriority);
            }
            out.insert(at, rule);
            proof {
                let ps = priorities(sorted);
                assert(priorities(out@) =~= ps.insert(at as int, priority as int));
                vstd::seq_lib::to_multiset_insert(sorted, at as int, rule);
                vstd::seq_lib::to_multiset_insert(ps, at as int, priority as int);
                assert(rule_views(out@) =~= rule_views(sorted).insert(at as int, rule@));
                vstd::seq_lib::to_multiset_insert(rule_views(sorted), at as int, rule@);
                assert forall|i: int, j: int| 0 <= i < j < priorities(out@).len() implies priorities(
                    out@,
                )[i] < priorities(out@)[j] by {
                    let after = priorities(out@);
                    if j < at {
                        assert(after[i] == ps[i] && after[j] == ps[j]);
                    } else if j == at {
                        assert(after[i] == ps[i]);
                        assert(sorted[i].priority < priority);
                    } else if i < at {
                        assert(after[i] == ps[i] && after[j] == ps[j - 1]);
                        assert(sorted[i].priority < priority);
                        assert(ps[at as int] <= ps[j - 1]);
                    } else if i == at {
                        assert(after[j] == ps[j - 1]);
                        assert(ps[at as int] > priority);
                    } else {
                        assert(after[i] == ps[i - 1] && after[j] == ps[j - 1]);
                    }
                }
            }
        }
        proof {
            assert(rest@ =~= Seq::<Rule>::empty());
            rest@.to_multiset_ensures();
            rule_views(rest@).to_multiset_ensures();
            assert(rule_views(rest@) =~= Seq::<RuleView>::empty());
            assert(rule_views(rest@).to_multiset() =~= vstd::multiset::Multiset::<
                RuleView,
            >::empty());
            assert(rest@.to_multiset() =~= vstd::multiset::Multiset::<Rule>::empty());
            assert(out@.to_multiset() =~= all.to_multiset());
            priorities(rest@).to_multiset_ensures();
            assert(priorities(rest@) =~= Seq::<int>::empty());
            assert(priorities(rest@).to_multiset() =~= vstd::multiset::Multiset::<int>::empty());
            assert(priorities(out@).to_multiset() =~= priorities(all).to_multiset());
            assert(priorities(out@).no_duplicates());
            priorities(out@).lemma_multiset_has_no_duplicates();
            priorities(all).lemma_multiset_has_no_duplicates_conv();
        }
        Ok(DaemonConfig { rules: out })
    }
}

/// The order in which rules are written does not matter: two lists of the
/// same rules, each in ascending order of priority, are the same list. So
/// whatever order a document holds its rules in, loading it gives the same
/// configuration.
pub proof fn lemma_sorted_rules_unique(a: Seq<RuleView>, b: Seq<RuleView>)
    requires
        strictly_ascending(view_priorities(a)),
        strictly_ascending(view_priorities(b)),
        a.to_multiset() == b.to_multiset(),
    ensures
        a == b,
    decreases a.len(),
{
    broadcast use vstd::multiset::group_multiset_axioms;

    a.to_multiset_ensures();
    b.to_multiset_ensures();
    if a.len() > 0 {
        assert(a.contains(a[0]));
        assert(b.contains(b[0]));
        assert(a.to_multiset().count(a[0]) > 0);
        assert(b.to_multiset().count(b[0]) > 0);
        assert(b.to_multiset().count(a[0]) > 0);
        assert(a.to_multiset().count(b[0]) > 0);
        assert(b.contains(a[0]));
        assert(a.contains(b[0]));
        let i = choose|i: int| 0 <= i < a.len() && a[i] == b[0];
        let j = choose|j: int| 0 <= j < b.len() && b[j] == a[0];
        let pa = view_priorities(a);
        let pb = view_priorities(b);
        assert(pa[i] == pb[0] && pb[j] == pa[0]);
        if i > 0 {
            assert(pa[0] < pa[i]);
            if j > 0 {
                assert(pb[0] < pb[j]);
            }
        }
        assert(a[0] == b[0]);
        let rest_a = a.remove(0);
        let rest_b = b.remove(0);
        assert(rest_a.to_multiset() =~= rest_b.to_multiset());
        assert forall|x: int, y: int| 0 <= x < y < rest_a.len() implies view_priorities(rest_a)[x]
            < view_priorities(rest_a)[y] by {
            assert(view_priorities(rest_a)[x] == pa[x + 1]);
            assert(view_priorities(rest_a)[y] == pa[y + 1]);
        }
        assert forall|x: int, y: int| 0 <= x < y < rest_b.len() implies view_priorities(rest_b)[x]
            < view_priorities(rest_b)[y] by {
            assert(view_priorities(rest_b)[x] == pb[x + 1]);
            assert(view_priorities(rest_b)[y] == pb[y + 1]);
        }
        lemma_sorted_rules_unique(rest_a, rest_b);
        assert(a =~= seq![a[0]] + rest_a);
        assert(b =~= seq![b[0]] + rest_b);
    } else {
        assert(b.len() == 0);
        assert(a =~= b);
    }
}

} // verus!
