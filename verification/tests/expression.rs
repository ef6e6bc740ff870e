use watt::cpu::Cpu;
use watt::expression::{
    Capability, EvalContext, EvalError, EvalState, Expression, Extreme, LogicOperator,
    NumericOperator, Sensor, Span, SpanUnit, Value, ValueKind,
};
use watt::history::{CpuLog, History};
use watt::number::{ArithmeticError, Fixed};
use watt::power_supply::PowerSupply;

struct World {
    history: History,
    cpus: Vec<Cpu>,
    power_supplies: Vec<PowerSupply>,
    platform_profiles: Vec<String>,
}

fn names(list: &[&str]) -> Vec<String> {
    list.iter().map(|s| s.to_string()).collect()
}

fn world() -> World {
    let mut first = Cpu::new(0);
    first.has_cpufreq = true;
    first.available_governors = names(&["performance", "powersave"]);
    first.available_epps = names(&["balance_power"]);
    first.available_epbs = names(&["6"]);
    first.driver = Some("intel_pstate".to_owned());
    let mut second = Cpu::new(1);
    second.has_cpufreq = true;
    second.available_governors = names(&["schedutil"]);
    let mut history = History::new();
    history.record_cpu(sample(0, 200_000));
    history.record_cpu(sample(10_000, 400_000));
    World {
        history,
        cpus: vec![first, second],
        power_supplies: vec![],
        platform_profiles: names(&["quiet", "balanced"]),
    }
}

fn sample(at: u64, usage: i64) -> CpuLog {
    CpuLog { at, usage: Fixed::from_micros(usage), temperature: Fixed::zero() }
}

fn state(world: &World) -> EvalState<'_> {
    EvalState {
        frequency_available: true,
        turbo_available: false,
        discharging: true,
        lid_closed: false,
        cpu_usage: Fixed::from_micros(420_000),
        cpu_usage_volatility: None,
        cpu_temperature: Fixed::from_micros(55_500_000),
        cpu_temperature_volatility: Some(Fixed::from_micros(10_000)),
        cpu_idle_seconds: Fixed::from_micros(12_000_000),
        cpu_frequency_maximum: Some(Fixed::from_micros(3_333_000_000)),
        cpu_frequency_minimum: None,
        cpu_scaling_maximum: Some(Fixed::from_micros(3_000_000_000)),
        cpu_core_count: Fixed::from_micros(2_000_000),
        load_average_1m: Fixed::from_micros(520_000),
        load_average_5m: Fixed::from_micros(580_000),
        load_average_15m: Fixed::from_micros(590_000),
        hour_of_day: Fixed::from_micros(13_000_000),
        power_supply_charge: None,
        power_supply_discharge_rate: None,
        battery_cycles: Some(Fixed::from_micros(312_000_000)),
        battery_health: None,
        now: 20_000,
        history: &world.history,
        cpus: &world.cpus,
        power_supplies: &world.power_supplies,
        platform_profiles: &world.platform_profiles,
        context: EvalContext::WidestPossible,
    }
}

fn number(micros: i64) -> Expression {
    Expression::Number(Fixed::from_micros(micros))
}

fn text(s: &str) -> Expression {
    Expression::Text(s.to_owned())
}

fn boxed(e: Expression) -> Box<Expression> {
    Box::new(e)
}

fn undefined() -> Expression {
    Expression::Sensor(Sensor::PowerSupplyCharge)
}

fn numeric(operator: NumericOperator, a: Expression, b: Expression) -> Expression {
    Expression::Numeric { operator, a: boxed(a), b: boxed(b) }
}

fn logic(operator: LogicOperator, a: Expression, b: Expression) -> Expression {
    Expression::Logic { operator, a: boxed(a), b: boxed(b) }
}

fn equal(a: i64, b: i64, leeway: i64) -> Expression {
    Expression::Equal { a: boxed(number(a)), b: boxed(number(b)), leeway: boxed(number(leeway)) }
}

fn eval(e: &Expression) -> Result<Option<Value>, EvalError> {
    let world = world();
    e.eval(&state(&world))
}

fn value_number(micros: i64) -> Result<Option<Value>, EvalError> {
    Ok(Some(Value::Number(Fixed::from_micros(micros))))
}

fn value_boolean(b: bool) -> Result<Option<Value>, EvalError> {
    Ok(Some(Value::Boolean(b)))
}

fn mismatch(expected: ValueKind, found: ValueKind) -> Result<Option<Value>, EvalError> {
    Err(EvalError::TypeMismatch { expected, found })
}

#[test]
fn literals_evaluate_to_themselves() {
    assert_eq!(eval(&Expression::Boolean(true)), value_boolean(true));
    assert_eq!(eval(&number(1_500_000)), value_number(1_500_000));
    assert_eq!(eval(&text("powersave")), Ok(Some(Value::Text("powersave".to_owned()))));
    assert_eq!(
        eval(&Expression::List(vec![number(1), Expression::Boolean(false)])),
        Ok(Some(Value::List(vec![Value::Number(Fixed::from_micros(1)), Value::Boolean(false)])))
    );
}

#[test]
fn sensors_read_the_state() {
    let read = |sensor| eval(&Expression::Sensor(sensor));
    assert_eq!(read(Sensor::CpuUsage), value_number(420_000));
    assert_eq!(read(Sensor::CpuUsageVolatility), Ok(None));
    assert_eq!(read(Sensor::CpuTemperature), value_number(55_500_000));
    assert_eq!(read(Sensor::CpuTemperatureVolatility), value_number(10_000));
    assert_eq!(read(Sensor::CpuIdleSeconds), value_number(12_000_000));
    assert_eq!(read(Sensor::CpuFrequencyMaximum), value_number(3_333_000_000));
    assert_eq!(read(Sensor::CpuFrequencyMinimum), Ok(None));
    assert_eq!(read(Sensor::CpuScalingMaximum), value_number(3_000_000_000));
    assert_eq!(read(Sensor::CpuCoreCount), value_number(2_000_000));
    assert_eq!(read(Sensor::LoadAverage1m), value_number(520_000));
    assert_eq!(read(Sensor::LoadAverage5m), value_number(580_000));
    assert_eq!(read(Sensor::LoadAverage15m), value_number(590_000));
    assert_eq!(read(Sensor::HourOfDay), value_number(13_000_000));
    assert_eq!(read(Sensor::PowerSupplyCharge), Ok(None));
    assert_eq!(read(Sensor::PowerSupplyDischargeRate), Ok(None));
    assert_eq!(read(Sensor::BatteryCycles), value_number(312_000_000));
    assert_eq!(read(Sensor::BatteryHealth), Ok(None));
    assert_eq!(read(Sensor::Discharging), value_boolean(true));
    assert_eq!(read(Sensor::LidClosed), value_boolean(false));
    assert_eq!(read(Sensor::FrequencyAvailable), value_boolean(true));
    assert_eq!(read(Sensor::TurboAvailable), value_boolean(false));
}

#[test]
fn arithmetic() {
    let three = || number(3_000_000);
    let two = || number(2_000_000);
    assert_eq!(eval(&numeric(NumericOperator::Plus, three(), two())), value_number(5_000_000));
    assert_eq!(eval(&numeric(NumericOperator::Minus, three(), two())), value_number(1_000_000));
    assert_eq!(eval(&numeric(NumericOperator::Multiply, three(), two())), value_number(6_000_000));
    assert_eq!(eval(&numeric(NumericOperator::Divide, three(), two())), value_number(1_500_000));
    assert_eq!(eval(&numeric(NumericOperator::Power, three(), two())), value_number(9_000_000));
    assert_eq!(eval(&numeric(NumericOperator::IsLessThan, three(), two())), value_boolean(false));
    assert_eq!(eval(&numeric(NumericOperator::IsMoreThan, three(), two())), value_boolean(true));
    assert_eq!(eval(&numeric(NumericOperator::IsLessThan, two(), two())), value_boolean(false));
    assert_eq!(eval(&numeric(NumericOperator::IsMoreThan, two(), two())), value_boolean(false));
}

#[test]
fn a_negative_whole_exponent_gives_the_reciprocal() {
    assert_eq!(
        eval(&numeric(NumericOperator::Power, number(2_000_000), number(-1_000_000))),
        value_number(500_000)
    );
    assert_eq!(
        eval(&numeric(NumericOperator::Power, number(0), number(-1_000_000))),
        Err(EvalError::Arithmetic(ArithmeticError::DivisionByZero))
    );
}

#[test]
fn arithmetic_errors_are_errors() {
    assert_eq!(
        eval(&numeric(NumericOperator::Divide, number(1), number(0))),
        Err(EvalError::Arithmetic(ArithmeticError::DivisionByZero))
    );
    assert_eq!(
        eval(&numeric(NumericOperator::Plus, number(i64::MAX), number(1))),
        Err(EvalError::Arithmetic(ArithmeticError::Overflow))
    );
    assert_eq!(
        eval(&numeric(NumericOperator::Power, number(2_000_000), number(1_500_000))),
        Err(EvalError::Arithmetic(ArithmeticError::UnsupportedExponent))
    );
}

#[test]
fn type_errors_are_errors() {
    assert_eq!(
        eval(&numeric(NumericOperator::Plus, Expression::Boolean(true), number(1))),
        mismatch(ValueKind::Number, ValueKind::Boolean)
    );
    assert_eq!(
        eval(&numeric(NumericOperator::Plus, number(1), text("x"))),
        mismatch(ValueKind::Number, ValueKind::Text)
    );
    assert_eq!(
        eval(&logic(LogicOperator::And, Expression::Boolean(true), number(1))),
        mismatch(ValueKind::Boolean, ValueKind::Number)
    );
    assert_eq!(
        eval(&Expression::Not { not: boxed(Expression::List(vec![])) }),
        mismatch(ValueKind::Boolean, ValueKind::List)
    );
    assert_eq!(
        eval(&Expression::IsAvailable {
            capability: Capability::Governor,
            value: boxed(number(1)),
        }),
        mismatch(ValueKind::Text, ValueKind::Number)
    );
}

#[test]
fn strict_operators_pass_undefined_on() {
    let one = || number(1_000_000);
    for operator in [
        NumericOperator::Plus,
        NumericOperator::Minus,
        NumericOperator::Multiply,
        NumericOperator::Divide,
        NumericOperator::Power,
        NumericOperator::IsLessThan,
        NumericOperator::IsMoreThan,
    ] {
        assert_eq!(eval(&numeric(operator, undefined(), one())), Ok(None));
        assert_eq!(eval(&numeric(operator, one(), undefined())), Ok(None));
    }
    for operator in [LogicOperator::And, LogicOperator::Or] {
        assert_eq!(eval(&logic(operator, undefined(), Expression::Boolean(true))), Ok(None));
        assert_eq!(eval(&logic(operator, Expression::Boolean(false), undefined())), Ok(None));
        assert_eq!(eval(&logic(operator, Expression::Boolean(true), undefined())), Ok(None));
    }
    assert_eq!(eval(&Expression::Not { not: boxed(undefined()) }), Ok(None));
    assert_eq!(eval(&Expression::List(vec![one(), undefined(), one()])), Ok(None));
    assert_eq!(
        eval(&Expression::Extreme { extreme: Extreme::Minimum, items: vec![one(), undefined()] }),
        Ok(None)
    );
    assert_eq!(
        eval(&Expression::Equal { a: boxed(one()), b: boxed(one()), leeway: boxed(undefined()) }),
        Ok(None)
    );
    assert_eq!(
        eval(&Expression::IsAvailable {
            capability: Capability::Governor,
            value: boxed(undefined()),
        }),
        Ok(None)
    );
    assert_eq!(
        eval(&Expression::IfElse {
            condition: boxed(undefined()),
            consequence: boxed(one()),
            alternative: Some(boxed(one())),
        }),
        Ok(None)
    );
}

#[test]
fn undefined_comes_before_the_check_of_shapes() {
    // The first operand has the wrong shape, but the second is undefined.
    assert_eq!(
        eval(&numeric(NumericOperator::Plus, Expression::Boolean(true), undefined())),
        Ok(None)
    );
    // An operand that fails ends the evaluation before a later operand is
    // looked at.
    let failing = || numeric(NumericOperator::Divide, number(1), number(0));
    assert_eq!(
        eval(&numeric(NumericOperator::Plus, failing(), undefined())),
        Err(EvalError::Arithmetic(ArithmeticError::DivisionByZero))
    );
    assert_eq!(eval(&numeric(NumericOperator::Plus, undefined(), failing())), Ok(None));
}

#[test]
fn is_unset_catches_undefined() {
    assert_eq!(eval(&Expression::IsUnset { a: boxed(undefined()) }), value_boolean(true));
    assert_eq!(eval(&Expression::IsUnset { a: boxed(number(0)) }), value_boolean(false));
    assert_eq!(
        eval(&Expression::IsUnset {
            a: boxed(numeric(NumericOperator::Plus, undefined(), number(1))),
        }),
        value_boolean(true)
    );
    assert_eq!(
        eval(&Expression::IsUnset {
            a: boxed(numeric(NumericOperator::Divide, number(1), number(0))),
        }),
        Err(EvalError::Arithmetic(ArithmeticError::DivisionByZero))
    );
}

#[test]
fn equal_is_a_strict_interval() {
    assert_eq!(eval(&equal(10_000_000, 10_400_000, 500_000)), value_boolean(true));
    assert_eq!(eval(&equal(10_000_000, 9_600_000, 500_000)), value_boolean(true));
    // Either boundary is outside.
    assert_eq!(eval(&equal(10_000_000, 10_500_000, 500_000)), value_boolean(false));
    assert_eq!(eval(&equal(10_000_000, 9_500_000, 500_000)), value_boolean(false));
    assert_eq!(eval(&equal(10_000_000, 10_000_000, 0)), value_boolean(false));
    assert_eq!(eval(&equal(10_000_000, 10_000_000, 1)), value_boolean(true));
    // No overflow at the ends of the range.
    assert_eq!(eval(&equal(i64::MAX, i64::MAX, i64::MAX)), value_boolean(true));
    assert_eq!(eval(&equal(i64::MIN, i64::MAX, i64::MAX)), value_boolean(false));
}

#[test]
fn minimum_and_maximum() {
    let items = || vec![number(3), number(-7), number(5)];
    assert_eq!(
        eval(&Expression::Extreme { extreme: Extreme::Minimum, items: items() }),
        value_number(-7)
    );
    assert_eq!(
        eval(&Expression::Extreme { extreme: Extreme::Maximum, items: items() }),
        value_number(5)
    );
    assert_eq!(
        eval(&Expression::Extreme { extreme: Extreme::Maximum, items: vec![number(9)] }),
        value_number(9)
    );
    assert_eq!(
        eval(&Expression::Extreme { extreme: Extreme::Minimum, items: vec![] }),
        Err(EvalError::EmptyList)
    );
    assert_eq!(
        eval(&Expression::Extreme {
            extreme: Extreme::Minimum,
            items: vec![number(1), text("two")],
        }),
        mismatch(ValueKind::Number, ValueKind::Text)
    );
}

#[test]
fn boolean_operators() {
    let t = || Expression::Boolean(true);
    let f = || Expression::Boolean(false);
    assert_eq!(eval(&logic(LogicOperator::And, t(), t())), value_boolean(true));
    assert_eq!(eval(&logic(LogicOperator::And, t(), f())), value_boolean(false));
    assert_eq!(eval(&logic(LogicOperator::Or, f(), f())), value_boolean(false));
    assert_eq!(eval(&logic(LogicOperator::Or, f(), t())), value_boolean(true));
    assert_eq!(eval(&Expression::Not { not: boxed(t()) }), value_boolean(false));
    assert_eq!(eval(&Expression::All { all: vec![] }), value_boolean(true));
    assert_eq!(eval(&Expression::Any { any: vec![] }), value_boolean(false));
    assert_eq!(eval(&Expression::All { all: vec![t(), t()] }), value_boolean(true));
    assert_eq!(eval(&Expression::Any { any: vec![f(), f()] }), value_boolean(false));
}

#[test]
fn all_and_any_stop_at_the_first_deciding_operand() {
    let t = || Expression::Boolean(true);
    let f = || Expression::Boolean(false);
    let failing = || numeric(NumericOperator::Divide, number(1), number(0));
    // What follows the deciding operand is not evaluated.
    assert_eq!(eval(&Expression::All { all: vec![t(), f(), failing()] }), value_boolean(false));
    assert_eq!(eval(&Expression::Any { any: vec![f(), t(), undefined()] }), value_boolean(true));
    assert_eq!(eval(&Expression::All { all: vec![f(), number(1)] }), value_boolean(false));
    // What comes before it is.
    assert_eq!(eval(&Expression::All { all: vec![t(), undefined(), f()] }), Ok(None));
    assert_eq!(eval(&Expression::Any { any: vec![f(), undefined(), t()] }), Ok(None));
    assert_eq!(
        eval(&Expression::Any { any: vec![failing(), t()] }),
        Err(EvalError::Arithmetic(ArithmeticError::DivisionByZero))
    );
    assert_eq!(
        eval(&Expression::All { all: vec![t(), number(1), f()] }),
        mismatch(ValueKind::Boolean, ValueKind::Number)
    );
}

#[test]
fn if_evaluates_only_the_branch_it_takes() {
    let failing = || numeric(NumericOperator::Divide, number(1), number(0));
    let choose = |condition: bool, alternative: Option<Expression>| Expression::IfElse {
        condition: boxed(Expression::Boolean(condition)),
        consequence: boxed(number(1)),
        alternative: alternative.map(Box::new),
    };
    assert_eq!(eval(&choose(true, Some(failing()))), value_number(1));
    assert_eq!(eval(&choose(false, Some(number(2)))), value_number(2));
    assert_eq!(eval(&choose(false, None)), Ok(None));
    assert_eq!(eval(&choose(false, Some(undefined()))), Ok(None));
    assert_eq!(
        eval(&Expression::IfElse {
            condition: boxed(Expression::Boolean(false)),
            consequence: boxed(failing()),
            alternative: None,
        }),
        Ok(None)
    );
    assert_eq!(
        eval(&Expression::IfElse {
            condition: boxed(number(1)),
            consequence: boxed(number(1)),
            alternative: None,
        }),
        mismatch(ValueKind::Boolean, ValueKind::Number)
    );
}

#[test]
fn availability_depends_on_the_context() {
    let world = world();
    let widest = state(&world);
    let ask = |capability, name: &str| Expression::IsAvailable {
        capability,
        value: boxed(text(name)),
    };
    // In the widest context any CPU counts.
    assert_eq!(ask(Capability::Governor, "schedutil").eval(&widest), value_boolean(true));
    assert_eq!(ask(Capability::Governor, "powersave").eval(&widest), value_boolean(true));
    assert_eq!(ask(Capability::Governor, "ondemand").eval(&widest), value_boolean(false));
    assert_eq!(
        ask(Capability::EnergyPerformancePreference, "balance_power").eval(&widest),
        value_boolean(true)
    );
    assert_eq!(ask(Capability::EnergyPerfBias, "6").eval(&widest), value_boolean(true));
    assert_eq!(ask(Capability::EnergyPerfBias, "7").eval(&widest), value_boolean(false));
    assert_eq!(ask(Capability::Driver, "intel_pstate").eval(&widest), value_boolean(true));
    assert_eq!(ask(Capability::Driver, "amd-pstate").eval(&widest), value_boolean(false));
    assert_eq!(ask(Capability::PlatformProfile, "quiet").eval(&widest), value_boolean(true));
    assert_eq!(ask(Capability::PlatformProfile, "loud").eval(&widest), value_boolean(false));
    // In the context of a CPU only that CPU counts.
    let first = widest.in_context(EvalContext::Cpu(&world.cpus[0]));
    let second = widest.in_context(EvalContext::Cpu(&world.cpus[1]));
    assert_eq!(ask(Capability::Governor, "schedutil").eval(&first), value_boolean(false));
    assert_eq!(ask(Capability::Governor, "schedutil").eval(&second), value_boolean(true));
    assert_eq!(ask(Capability::Driver, "intel_pstate").eval(&second), value_boolean(false));
    // The profiles of the platform do not depend on the context.
    assert_eq!(ask(Capability::PlatformProfile, "quiet").eval(&second), value_boolean(true));
}

#[test]
fn usage_since_is_the_mean_over_the_window() {
    let since = |count, unit| Expression::CpuUsageSince(Span { count, unit });
    // Samples at 0 s (0.2) and 10 s (0.4); now is 20 s.
    assert_eq!(eval(&since(30, SpanUnit::Seconds)), value_number(300_000));
    assert_eq!(eval(&since(1, SpanUnit::Minutes)), value_number(300_000));
    assert_eq!(eval(&since(15, SpanUnit::Seconds)), Ok(None));
    assert_eq!(eval(&since(20_000, SpanUnit::Milliseconds)), Ok(None));
    assert_eq!(eval(&since(20_001, SpanUnit::Milliseconds)), value_number(300_000));
    assert_eq!(eval(&since(u64::MAX, SpanUnit::Days)), value_number(300_000));
    assert_eq!(Span { count: 2, unit: SpanUnit::Hours }.millis(), 7_200_000);
    assert_eq!(Span { count: 3, unit: SpanUnit::Days }.millis(), 259_200_000);
    assert_eq!(Span { count: u64::MAX, unit: SpanUnit::Seconds }.millis(), u64::MAX);
}

#[test]
fn values_know_their_shape() {
    let n = Value::Number(Fixed::one());
    let b = Value::Boolean(true);
    let s = Value::Text("a".to_owned());
    let l = Value::List(vec![]);
    assert_eq!(n.kind(), ValueKind::Number);
    assert_eq!(b.kind(), ValueKind::Boolean);
    assert_eq!(s.kind(), ValueKind::Text);
    assert_eq!(l.kind(), ValueKind::List);
    assert_eq!(n.try_into_number(), Ok(Fixed::one()));
    assert_eq!(b.try_into_boolean(), Ok(true));
    assert_eq!(s.try_into_string(), Ok(&"a".to_owned()));
    assert_eq!(l.try_into_list(), Ok(&vec![]));
    assert_eq!(
        b.try_into_number(),
        Err(EvalError::TypeMismatch { expected: ValueKind::Number, found: ValueKind::Boolean })
    );
    assert_eq!(
        n.try_into_boolean(),
        Err(EvalError::TypeMismatch { expected: ValueKind::Boolean, found: ValueKind::Number })
    );
    assert_eq!(
        l.try_into_string(),
        Err(EvalError::TypeMismatch { expected: ValueKind::Text, found: ValueKind::List })
    );
    assert_eq!(
        s.try_into_list(),
        Err(EvalError::TypeMismatch { expected: ValueKind::List, found: ValueKind::Text })
    );
}
