//! The expression language of the rules and its evaluator.
//!
//! An expression evaluates to a value, to *undefined*, or fails with an
//! error. Undefined is an ordinary outcome that strict operators pass on;
//! an error ends the evaluation.

use vstd::prelude::*;
use crate::cpu::Cpu;
use crate::history::History;
use crate::number::{ArithmeticError, Fixed};
use crate::power_supply::PowerSupply;
use crate::text::{contains_text, texts};

verus! {

/// The shape of a value.
#[derive(Clone, Copy, Debug, PartialEq, Eq, Structural)]
pub enum ValueKind {
    Number,
    Boolean,
    Text,
    List,
}

/// Why an evaluation failed.
#[derive(Clone, Copy, Debug, PartialEq, Eq, Structural)]
pub enum EvalError {
    /// An operator met a value of the wrong shape.
    TypeMismatch { expected: ValueKind, found: ValueKind },
    /// An arithmetic operator produced no number.
    Arithmetic(ArithmeticError),
    /// `minimum` or `maximum` of no element.
    EmptyList,
}

/// What an expression evaluates to.
#[derive(Debug, PartialEq, Eq)]
pub enum Value {
    Number(Fixed),
    Boolean(bool),
    Text(String),
    List(Vec<Value>),
}

/// The mathematical content of a [`Value`].
pub enum ValueView {
    Number(int),
    Boolean(bool),
    Text(Seq<char>),
    List(Seq<ValueView>),
}

impl View for Value {
    type V = ValueView;

    open spec fn view(&self) -> ValueView
        decreases self,
    {
        match self {
            Value::Number(n) => ValueView::Number(n@),
            Value::Boolean(b) => ValueView::Boolean(*b),
            Value::Text(s) => ValueView::Text(s@),
            Value::List(items) => ValueView::List(
                Seq::new(
                    items@.len(),
                    |i: int|
                        if 0 <= i < items@.len() {
                            items@[i].view()
                        } else {
                            ValueView::Boolean(false)
                        },
                ),
            ),
        }
    }
}

/// The views of `items`, in order.
pub open spec fn views(items: Seq<Value>) -> Seq<ValueView> {
    Seq::new(items.len(), |i: int| items[i]@)
}

/// The view of a list is the list of the views.
pub proof fn lemma_list_view(items: Vec<Value>)
    ensures
        Value::List(items)@ == ValueView::List(views(items@)),
{
    assert(Value::List(items)@ matches ValueView::List(vs) && vs =~= views(items@));
}

impl ValueView {
    /// The shape of this value.
    pub open spec fn kind(self) -> ValueKind {
        match self {
            ValueView::Number(_) => ValueKind::Number,
            ValueView::Boolean(_) => ValueKind::Boolean,
            ValueView::Text(_) => ValueKind::Text,
            ValueView::List(_) => ValueKind::List,
        }
    }

    /// This value read as a number.
    pub open spec fn number(self) -> Result<int, EvalError> {
        match self {
            ValueView::Number(n) => Ok(n),
            _ => Err(EvalError::TypeMismatch { expected: ValueKind::Number, found: self.kind() }),
        }
    }

    /// This value read as a boolean.
    pub open spec fn boolean(self) -> Result<bool, EvalError> {
        match self {
            ValueView::Boolean(b) => Ok(b),
            _ => Err(EvalError::TypeMismatch { expected: ValueKind::Boolean, found: self.kind() }),
        }
    }

    /// This value read as a string.
    pub open spec fn text(self) -> Result<Seq<char>, EvalError> {
        match self {
            ValueView::Text(s) => Ok(s),
            _ => Err(EvalError::TypeMismatch { expected: ValueKind::Text, found: self.kind() }),
        }
    }

    /// This value read as a list.
    pub open spec fn list(self) -> Result<Seq<ValueView>, EvalError> {
        match self {
            ValueView::List(items) => Ok(items),
            _ => Err(EvalError::TypeMismatch { expected: ValueKind::List, found: self.kind() }),
        }
    }
}

impl Value {
    /// The shape of this value.
    pub fn kind(&self) -> (r: ValueKind)
        ensures
            r == self@.kind(),
    {
        match self {
            Value::Number(_) => ValueKind::Number,
            Value::Boolean(_) => ValueKind::Boolean,
            Value::Text(_) => ValueKind::Text,
            Value::List(_) => ValueKind::List,
        }
    }

    /// The number this value is, or a type error.
    pub fn try_into_number(&self) -> (r: Result<Fixed, EvalError>)
        ensures
            match r {
                Ok(n) => self@.number() == Ok::<int, EvalError>(n@),
                Err(e) => self@.number() == Err::<int, EvalError>(e),
            },
    {
        match self {
            Value::Number(n) => Ok(*n),
            _ => Err(EvalError::TypeMismatch { expected: ValueKind::Number, found: self.kind() }),
        }
    }

    /// The boolean this value is, or a type error.
    pub fn try_into_boolean(&self) -> (r: Result<bool, EvalError>)
        ensures
            r == self@.boolean(),
    {
        match self {
            Value::Boolean(b) => Ok(*b),
            _ => Err(EvalError::TypeMismatch { expected: ValueKind::Boolean, found: self.kind() }),
        }
    }

    /// The string this value is, or a type error.
    pub fn try_into_string(&self) -> (r: Result<&String, EvalError>)
        ensures
            match r {
                Ok(s) => self@.text() == Ok::<Seq<char>, EvalError>(s@),
                Err(e) => self@.text() == Err::<Seq<char>, EvalError>(e),
            },
    {
        match self {
            Value::Text(s) => Ok(s),
            _ => Err(EvalError::TypeMismatch { expected: ValueKind::Text, found: self.kind() }),
        }
    }

    /// The list this value is, or a type error.
    pub fn try_into_list(&self) -> (r: Result<&Vec<Value>, EvalError>)
        ensures
            match r {
                Ok(items) => self@.list() == Ok::<Seq<ValueView>, EvalError>(views(items@)),
                Err(e) => self@.list() == Err::<Seq<ValueView>, EvalError>(e),
            },
    {
        match self {
            Value::List(items) => {
                proof {
                    lemma_list_view(*items);
                }
                Ok(items)
            },
            _ => Err(EvalError::TypeMismatch { expected: ValueKind::List, found: self.kind() }),
        }
    }
}

/// A term that reads one quantity of the live state.
#[derive(Clone, Copy, Debug, PartialEq, Eq, Structural)]
pub enum Sensor {
    CpuUsage,
    CpuUsageVolatility,
    CpuTemperature,
    CpuTemperatureVolatility,
    CpuIdleSeconds,
    CpuFrequencyMaximum,
    CpuFrequencyMinimum,
    CpuScalingMaximum,
    CpuCoreCount,
    LoadAverage1m,
    LoadAverage5m,
    LoadAverage15m,
    HourOfDay,
    PowerSupplyCharge,
    PowerSupplyDischargeRate,
    BatteryCycles,
    BatteryHealth,
    Discharging,
    LidClosed,
    FrequencyAvailable,
    TurboAvailable,
}

/// Something that a CPU or the platform may offer under a name.
#[derive(Clone, Copy, Debug, PartialEq, Eq, Structural)]
pub enum Capability {
    Governor,
    EnergyPerformancePreference,
    EnergyPerfBias,
    PlatformProfile,
    Driver,
}

/// A strict operator on two numbers.
#[derive(Clone, Copy, Debug, PartialEq, Eq, Structural)]
pub enum NumericOperator {
    Plus,
    Minus,
    Multiply,
    Divide,
    Power,
    IsLessThan,
    IsMoreThan,
}

/// A strict operator on two booleans.
#[derive(Clone, Copy, Debug, PartialEq, Eq, Structural)]
pub enum LogicOperator {
    And,
    Or,
}

/// Which end of a list of numbers is wanted.
#[derive(Clone, Copy, Debug, PartialEq, Eq, Structural)]
pub enum Extreme {
    Minimum,
    Maximum,
}

/// The unit of a [`Span`].
#[derive(Clone, Copy, Debug, PartialEq, Eq, Structural)]
pub enum SpanUnit {
    Milliseconds,
    Seconds,
    Minutes,
    Hours,
    Days,
}

/// A length of time: `count` units.
#[derive(Clone, Copy, Debug, PartialEq, Eq, Structural)]
pub struct Span {
    pub count: u64,
    pub unit: SpanUnit,
}

impl SpanUnit {
    /// The milliseconds in one unit.
    pub open spec fn factor(self) -> int {
        match self {
            SpanUnit::Milliseconds => 1,
            SpanUnit::Seconds => 1_000,
            SpanUnit::Minutes => 60_000,
            SpanUnit::Hours => 3_600_000,
            SpanUnit::Days => 86_400_000,
        }
    }
}

impl Span {
    /// The span in milliseconds, capped at the largest `u64`.
    pub open spec fn millis_spec(self) -> int {
        if self.count * self.unit.factor() > u64::MAX {
            u64::MAX as int
        } else {
            self.count * self.unit.factor()
        }
    }

    /// The span in milliseconds, capped at the largest `u64`.
    pub fn millis(&self) -> (r: u64)
        ensures
            r == self.millis_spec(),
    {
        let factor: u128 = match self.unit {
            SpanUnit::Milliseconds => 1,
            SpanUnit::Seconds => 1_000,
            SpanUnit::Minutes => 60_000,
            SpanUnit::Hours => 3_600_000,
            SpanUnit::Days => 86_400_000,
        };
        let count: u128 = self.count as u128;
        assert(count * factor <= 0xffff_ffff_ffff_ffff * 86_400_000) by (nonlinear_arith)
            requires
                0 <= count <= 0xffff_ffff_ffff_ffff,
                0 <= factor <= 86_400_000,
        ;
        let wide: u128 = count * factor;
        if wide > u64::MAX as u128 {
            u64::MAX
        } else {
            wide as u64
        }
    }
}

/// An expression of the rule language.
#[allow(inconsistent_fields)]
#[derive(Debug, PartialEq, Eq)]
pub enum Expression {
    Boolean(bool),
    Number(Fixed),
    Text(String),
    List(Vec<Expression>),
    Sensor(Sensor),
    /// The mean CPU usage over the samples younger than the span.
    CpuUsageSince(Span),
    /// Whether what `value` names is on offer.
    IsAvailable { capability: Capability, value: Box<Expression> },
    Numeric { operator: NumericOperator, a: Box<Expression>, b: Box<Expression> },
    Logic { operator: LogicOperator, a: Box<Expression>, b: Box<Expression> },
    /// `b` lies strictly within `leeway` of `a`.
    Equal { a: Box<Expression>, b: Box<Expression>, leeway: Box<Expression> },
    Extreme { extreme: Extreme, items: Vec<Expression> },
    Not { not: Box<Expression> },
    IsUnset { a: Box<Expression> },
    All { all: Vec<Expression> },
    Any { any: Vec<Expression> },
    IfElse {
        condition: Box<Expression>,
        consequence: Box<Expression>,
        alternative: Option<Box<Expression>>,
    },
}

/// What an evaluation is scoped to.
#[derive(Clone, Copy, Debug)]
pub enum EvalContext<'a> {
    Cpu(&'a Cpu),
    PowerSupply(&'a PowerSupply),
    WidestPossible,
}

/// The live state that expressions are evaluated against.
#[derive(Clone, Copy, Debug)]
pub struct EvalState<'a> {
    pub frequency_available: bool,
    pub turbo_available: bool,
    pub discharging: bool,
    pub lid_closed: bool,
    pub cpu_usage: Fixed,
    pub cpu_usage_volatility: Option<Fixed>,
    pub cpu_temperature: Fixed,
    pub cpu_temperature_volatility: Option<Fixed>,
    pub cpu_idle_seconds: Fixed,
    pub cpu_frequency_maximum: Option<Fixed>,
    pub cpu_frequency_minimum: Option<Fixed>,
    pub cpu_scaling_maximum: Option<Fixed>,
    pub cpu_core_count: Fixed,
    pub load_average_1m: Fixed,
    pub load_average_5m: Fixed,
    pub load_average_15m: Fixed,
    pub hour_of_day: Fixed,
    pub power_supply_charge: Option<Fixed>,
    pub power_supply_discharge_rate: Option<Fixed>,
    pub battery_cycles: Option<Fixed>,
    pub battery_health: Option<Fixed>,
    /// The instant of the evaluation.
    pub now: u64,
    pub history: &'a History,
    pub cpus: &'a Vec<Cpu>,
    pub power_supplies: &'a Vec<PowerSupply>,
    pub platform_profiles: &'a Vec<String>,
    pub context: EvalContext<'a>,
}

/// The outcome of an evaluation: a value, undefined (`Ok(None)`), or an
/// error.
pub type Outcome = Result<Option<ValueView>, EvalError>;

/// The outcome that an evaluator's result stands for.
pub open spec fn outcome_view(r: Result<Option<Value>, EvalError>) -> Outcome {
    match r {
        Ok(Some(v)) => Ok(Some(v@)),
        Ok(None) => Ok(None),
        Err(e) => Err(e),
    }
}

/// A number that may be absent, as an outcome.
pub open spec fn number_or_undefined(n: Option<Fixed>) -> Outcome {
    match n {
        Some(x) => Ok(Some(ValueView::Number(x@))),
        None => Ok(None),
    }
}

/// The result of arithmetic, as an outcome.
pub open spec fn arithmetic_outcome(r: Result<Fixed, ArithmeticError>) -> Outcome {
    match r {
        Ok(x) => Ok(Some(ValueView::Number(x@))),
        Err(e) => Err(EvalError::Arithmetic(e)),
    }
}

impl<'a> EvalState<'a> {
    /// The history behind the state is well-formed.
    pub open spec fn wf(&self) -> bool {
        self.history.wf()
    }

    /// This state scoped to `context`.
    pub open spec fn scoped(self, context: EvalContext<'a>) -> EvalState<'a> {
        EvalState { context, ..self }
    }

    /// This state scoped to `context`.
    pub fn in_context(&self, context: EvalContext<'a>) -> (r: EvalState<'a>)
        ensures
            r == self.scoped(context),
    {
        EvalState { context, ..*self }
    }

    /// What `sensor` reads.
    pub open spec fn sensor_outcome(self, sensor: Sensor) -> Outcome {
        match sensor {
            Sensor::CpuUsage => Ok(Some(ValueView::Number(self.cpu_usage@))),
            Sensor::CpuUsageVolatility => number_or_undefined(self.cpu_usage_volatility),
            Sensor::CpuTemperature => Ok(Some(ValueView::Number(self.cpu_temperature@))),
            Sensor::CpuTemperatureVolatility => number_or_undefined(
                self.cpu_temperature_volatility,
            ),
            Sensor::CpuIdleSeconds => Ok(Some(ValueView::Number(self.cpu_idle_seconds@))),
            Sensor::CpuFrequencyMaximum => number_or_undefined(self.cpu_frequency_maximum),
            Sensor::CpuFrequencyMinimum => number_or_undefined(self.cpu_frequency_minimum),
            Sensor::CpuScalingMaximum => number_or_undefined(self.cpu_scaling_maximum),
            Sensor::CpuCoreCount => Ok(Some(ValueView::Number(self.cpu_core_count@))),
            Sensor::LoadAverage1m => Ok(Some(ValueView::Number(self.load_average_1m@))),
            Sensor::LoadAverage5m => Ok(Some(ValueView::Number(self.load_average_5m@))),
            Sensor::LoadAverage15m => Ok(Some(ValueView::Number(self.load_average_15m@))),
            Sensor::HourOfDay => Ok(Some(ValueView::Number(self.hour_of_day@))),
            Sensor::PowerSupplyCharge => number_or_undefined(self.power_supply_charge),
            Sensor::PowerSupplyDischargeRate => number_or_undefined(
                self.power_supply_discharge_rate,
            ),
            Sensor::BatteryCycles => number_or_undefined(self.battery_cycles),
            Sensor::BatteryHealth => number_or_undefined(self.battery_health),
            Sensor::Discharging => Ok(Some(ValueView::Boolean(self.discharging))),
            Sensor::LidClosed => Ok(Some(ValueView::Boolean(self.lid_closed))),
            Sensor::FrequencyAvailable => Ok(Some(ValueView::Boolean(self.frequency_available))),
            Sensor::TurboAvailable => Ok(Some(ValueView::Boolean(self.turbo_available))),
        }
    }

    /// `true` when `name` is on offer: for the platform's profiles, in the
    /// list of the state; for what a CPU offers, on the CPU of the context,
    /// or on any CPU where the context names none.
    pub open spec fn offers(self, capability: Capability, name: Seq<char>) -> bool {
        match capability {
            Capability::PlatformProfile => texts(self.platform_profiles@).contains(name),
            _ => match self.context {
                EvalContext::Cpu(cpu) => cpu_offers(*cpu, capability, name),
                _ => exists|i: int|
                    0 <= i < self.cpus@.len() && cpu_offers(
                        #[trigger] self.cpus@[i],
                        capability,
                        name,
                    ),
            },
        }
    }

    fn number_or_undefined(n: Option<Fixed>) -> (r: Result<Option<Value>, EvalError>)
        ensures
            outcome_view(r) == number_or_undefined(n),
    {
        match n {
            Some(x) => Ok(Some(Value::Number(x))),
            None => Ok(None),
        }
    }

    /// Reads `sensor`.
    pub fn read(&self, sensor: Sensor) -> (r: Result<Option<Value>, EvalError>)
        ensures
            outcome_view(r) == self.sensor_outcome(sensor),
    {
        match sensor {
            Sensor::CpuUsage => Ok(Some(Value::Number(self.cpu_usage))),
            Sensor::CpuUsageVolatility => Self::number_or_undefined(self.cpu_usage_volatility),
            Sensor::CpuTemperature => Ok(Some(Value::Number(self.cpu_temperature))),
            Sensor::CpuTemperatureVolatility => Self::number_or_undefined(
                self.cpu_temperature_volatility,
            ),
            Sensor::CpuIdleSeconds => Ok(Some(Value::Number(self.cpu_idle_seconds))),
            Sensor::CpuFrequencyMaximum => Self::number_or_undefined(self.cpu_frequency_maximum),
            Sensor::CpuFrequencyMinimum => Self::number_or_undefined(self.cpu_frequency_minimum),
            Sensor::CpuScalingMaximum => Self::number_or_undefined(self.cpu_scaling_maximum),
            Sensor::CpuCoreCount => Ok(Some(Value::Number(self.cpu_core_count))),
            Sensor::LoadAverage1m => Ok(Some(Value::Number(self.load_average_1m))),
            Sensor::LoadAverage5m => Ok(Some(Value::Number(self.load_average_5m))),
            Sensor::LoadAverage15m => Ok(Some(Value::Number(self.load_average_15m))),
            Sensor::HourOfDay => Ok(Some(Value::Number(self.hour_of_day))),
            Sensor::PowerSupplyCharge => Self::number_or_undefined(self.power_supply_charge),
            Sensor::PowerSupplyDischargeRate => Self::number_or_undefined(
                self.power_supply_discharge_rate,
            ),
            Sensor::BatteryCycles => Self::number_or_undefined(self.battery_cycles),
            Sensor::BatteryHealth => Self::number_or_undefined(self.battery_health),
            Sensor::Discharging => Ok(Some(Value::Boolean(self.discharging))),
            Sensor::LidClosed => Ok(Some(Value::Boolean(self.lid_closed))),
            Sensor::FrequencyAvailable => Ok(Some(Value::Boolean(self.frequency_available))),
            Sensor::TurboAvailable => Ok(Some(Value::Boolean(self.turbo_available))),
        }
    }

    /// `true` when `name` is on offer in this state.
    pub fn is_available(&self, capability: Capability, name: &String) -> (r: bool)
        ensures
            r == self.offers(capability, name@),
    {
        match capability {
            Capability::PlatformProfile => contains_text(self.platform_profiles, name),
            _ => match self.context {
                EvalContext::Cpu(cpu) => cpu_has(cpu, capability, name),
                _ => {
                    let mut i: usize = 0;
                    while i < self.cpus.len()
                        invariant
                            i <= self.cpus@.len(),
                            capability != Capability::PlatformProfile,
                            !(self.context is Cpu),
                            forall|k: int|
                                0 <= k < i ==> !cpu_offers(
                                    #[trigger] self.cpus@[k],
                                    capability,
                                    name@,
                                ),
                        decreases self.cpus.len() - i,
                    {
                        if cpu_has(&self.cpus[i], capability, name) {
                            return true;
                        }
                        i += 1;
                    }
                    false
                },
            },
        }
    }
}

/// `true` when `cpu` offers `name` as `capability`. A CPU offers no platform
/// profile.
pub open spec fn cpu_offers(cpu: Cpu, capability: Capability, name: Seq<char>) -> bool {
    match capability {
        Capability::Governor => texts(cpu.available_governors@).contains(name),
        Capability::EnergyPerformancePreference => texts(cpu.available_epps@).contains(name),
        Capability::EnergyPerfBias => texts(cpu.available_epbs@).contains(name),
        Capability::Driver => cpu.driver matches Some(d) && d@ == name,
        Capability::PlatformProfile => false,
    }
}

/// `true` when `cpu` offers `name` as `capability`.
pub fn cpu_has(cpu: &Cpu, capability: Capability, name: &String) -> (r: bool)
    ensures
        r == cpu_offers(*cpu, capability, name@),
{
    match capability {
        Capability::Governor => cpu.offers_governor(name),
        Capability::EnergyPerformancePreference => cpu.offers_epp(name),
        Capability::EnergyPerfBias => cpu.offers_epb(name),
        Capability::Driver => cpu.has_driver(name),
        Capability::PlatformProfile => false,
    }
}

} // verus!
