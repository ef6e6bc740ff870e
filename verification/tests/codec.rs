use watt::codec::DecodeError;
use watt::config::{ConfigError, CpuDeltaSpec, DaemonConfig, PowerDeltaSpec, Rule};
use watt::document::{ConfigValue, Entry, Key};
use watt::expression::{
    Capability, Expression, Extreme, LogicOperator, NumericOperator, Sensor, Span, SpanUnit,
};
use watt::number::Fixed;
use watt::rule_codec::decode_rules_of;

fn table(entries: Vec<(&str, ConfigValue)>) -> ConfigValue {
    ConfigValue::Table(
        entries.into_iter().map(|(key, value)| Entry { key: key.to_owned(), value }).collect(),
    )
}

fn text(s: &str) -> ConfigValue {
    ConfigValue::Text(s.to_owned())
}

fn boxed(e: Expression) -> Box<Expression> {
    Box::new(e)
}

fn number(micros: i64) -> Expression {
    Expression::Number(Fixed::from_micros(micros))
}

#[test]
fn literals_are_read() {
    assert_eq!(Expression::decode(&ConfigValue::Boolean(true)), Ok(Expression::Boolean(true)));
    assert_eq!(Expression::decode(&ConfigValue::Integer(5)), Ok(number(5_000_000)));
    assert_eq!(Expression::decode(&ConfigValue::Integer(-3)), Ok(number(-3_000_000)));
    assert_eq!(
        Expression::decode(&ConfigValue::Number(Fixed::from_micros(650_000))),
        Ok(number(650_000))
    );
    assert_eq!(Expression::decode(&text("powersave")), Ok(Expression::Text("powersave".to_owned())));
    assert_eq!(
        Expression::decode(&ConfigValue::List(vec![ConfigValue::Integer(0), text("a")])),
        Ok(Expression::List(vec![number(0), Expression::Text("a".to_owned())]))
    );
    assert_eq!(
        Expression::decode(&ConfigValue::Integer(i64::MAX)),
        Err(DecodeError::NumberTooLarge)
    );
}

#[test]
fn sensors_are_read_by_their_names() {
    let all = [
        ("%cpu-usage", Sensor::CpuUsage),
        ("$cpu-usage-volatility", Sensor::CpuUsageVolatility),
        ("$cpu-temperature", Sensor::CpuTemperature),
        ("$cpu-temperature-volatility", Sensor::CpuTemperatureVolatility),
        ("$cpu-idle-seconds", Sensor::CpuIdleSeconds),
        ("$cpu-frequency-maximum", Sensor::CpuFrequencyMaximum),
        ("$cpu-frequency-minimum", Sensor::CpuFrequencyMinimum),
        ("$cpu-scaling-maximum", Sensor::CpuScalingMaximum),
        ("$cpu-core-count", Sensor::CpuCoreCount),
        ("$load-average-1m", Sensor::LoadAverage1m),
        ("$load-average-5m", Sensor::LoadAverage5m),
        ("$load-average-15m", Sensor::LoadAverage15m),
        ("$hour-of-day", Sensor::HourOfDay),
        ("%power-supply-charge", Sensor::PowerSupplyCharge),
        ("%power-supply-discharge-rate", Sensor::PowerSupplyDischargeRate),
        ("$battery-cycles", Sensor::BatteryCycles),
        ("%battery-health", Sensor::BatteryHealth),
        ("?discharging", Sensor::Discharging),
        ("?lid-closed", Sensor::LidClosed),
        ("?frequency-available", Sensor::FrequencyAvailable),
        ("?turbo-available", Sensor::TurboAvailable),
    ];
    assert_eq!(Sensor::all().len(), all.len());
    for (name, sensor) in all {
        assert_eq!(sensor.as_str(), name);
        assert_eq!(Sensor::from_str(name), Some(sensor));
        assert_eq!(Expression::decode(&text(name)), Ok(Expression::Sensor(sensor)));
        assert_eq!(Expression::Sensor(sensor).encode(), text(name));
    }
    assert_eq!(Sensor::from_str("%cpu-usag"), None);
    assert_eq!(Sensor::from_str("$load-average-2m"), None);
}

#[test]
fn keys_are_found_by_the_way_they_are_written() {
    for key in Key::all() {
        assert_eq!(Key::from_str(key.as_str()), Some(key));
    }
    assert_eq!(Key::Then.as_str(), "then");
    assert_eq!(Key::IsLessThan.as_str(), "is-less-than");
    assert_eq!(Key::EnergyPerfBias.as_str(), "energy-perf-bias");
    assert_eq!(Key::from_str("values"), None);
}

#[test]
fn operators_are_tables() {
    let operands = |key: &str| {
        table(vec![("value", ConfigValue::Integer(1)), (key, ConfigValue::Integer(2))])
    };
    let numeric = |operator| Expression::Numeric {
        operator,
        a: boxed(number(1_000_000)),
        b: boxed(number(2_000_000)),
    };
    let logic = |operator| Expression::Logic {
        operator,
        a: boxed(number(1_000_000)),
        b: boxed(number(2_000_000)),
    };
    assert_eq!(Expression::decode(&operands("plus")), Ok(numeric(NumericOperator::Plus)));
    assert_eq!(Expression::decode(&operands("minus")), Ok(numeric(NumericOperator::Minus)));
    assert_eq!(Expression::decode(&operands("multiply")), Ok(numeric(NumericOperator::Multiply)));
    assert_eq!(Expression::decode(&operands("divide")), Ok(numeric(NumericOperator::Divide)));
    assert_eq!(Expression::decode(&operands("power")), Ok(numeric(NumericOperator::Power)));
    assert_eq!(
        Expression::decode(&operands("is-less-than")),
        Ok(numeric(NumericOperator::IsLessThan))
    );
    assert_eq!(
        Expression::decode(&operands("is-more-than")),
        Ok(numeric(NumericOperator::IsMoreThan))
    );
    assert_eq!(Expression::decode(&operands("and")), Ok(logic(LogicOperator::And)));
    assert_eq!(Expression::decode(&operands("or")), Ok(logic(LogicOperator::Or)));
    // The keys may come in either order.
    assert_eq!(
        Expression::decode(&table(vec![
            ("minus", ConfigValue::Integer(2)),
            ("value", ConfigValue::Integer(1)),
        ])),
        Ok(numeric(NumericOperator::Minus))
    );
}

#[test]
fn other_forms_are_read() {
    assert_eq!(
        Expression::decode(&table(vec![
            ("value", ConfigValue::Integer(1)),
            ("is-equal", ConfigValue::Integer(2)),
            ("leeway", ConfigValue::Integer(3)),
        ])),
        Ok(Expression::Equal {
            a: boxed(number(1_000_000)),
            b: boxed(number(2_000_000)),
            leeway: boxed(number(3_000_000)),
        })
    );
    assert_eq!(
        Expression::decode(&table(vec![
            ("then", ConfigValue::Integer(1)),
            ("if", ConfigValue::Boolean(true)),
        ])),
        Ok(Expression::IfElse {
            condition: boxed(Expression::Boolean(true)),
            consequence: boxed(number(1_000_000)),
            alternative: None,
        })
    );
    assert_eq!(
        Expression::decode(&table(vec![
            ("if", ConfigValue::Boolean(true)),
            ("then", ConfigValue::Integer(1)),
            ("else", ConfigValue::Integer(2)),
        ])),
        Ok(Expression::IfElse {
            condition: boxed(Expression::Boolean(true)),
            consequence: boxed(number(1_000_000)),
            alternative: Some(boxed(number(2_000_000))),
        })
    );
    assert_eq!(
        Expression::decode(&table(vec![("not", text("?discharging"))])),
        Ok(Expression::Not { not: boxed(Expression::Sensor(Sensor::Discharging)) })
    );
    assert_eq!(
        Expression::decode(&table(vec![("is-unset", text("%battery-health"))])),
        Ok(Expression::IsUnset { a: boxed(Expression::Sensor(Sensor::BatteryHealth)) })
    );
    assert_eq!(
        Expression::decode(&table(vec![(
            "all",
            ConfigValue::List(vec![ConfigValue::Boolean(true)])
        )])),
        Ok(Expression::All { all: vec![Expression::Boolean(true)] })
    );
    assert_eq!(
        Expression::decode(&table(vec![("any", ConfigValue::List(vec![]))])),
        Ok(Expression::Any { any: vec![] })
    );
    assert_eq!(
        Expression::decode(&table(vec![(
            "minimum",
            ConfigValue::List(vec![ConfigValue::Integer(4)])
        )])),
        Ok(Expression::Extreme { extreme: Extreme::Minimum, items: vec![number(4_000_000)] })
    );
    assert_eq!(
        Expression::decode(&table(vec![("maximum", ConfigValue::List(vec![]))])),
        Ok(Expression::Extreme { extreme: Extreme::Maximum, items: vec![] })
    );
    assert_eq!(
        Expression::decode(&table(vec![("cpu-usage-since", text("90s"))])),
        Ok(Expression::CpuUsageSince(Span { count: 90, unit: SpanUnit::Seconds }))
    );
    for (key, capability) in [
        ("is-governor-available", Capability::Governor),
        ("is-energy-performance-preference-available", Capability::EnergyPerformancePreference),
        ("is-energy-perf-bias-available", Capability::EnergyPerfBias),
        ("is-platform-profile-available", Capability::PlatformProfile),
        ("is-driver-loaded", Capability::Driver),
    ] {
        assert_eq!(
            Expression::decode(&table(vec![(key, text("x"))])),
            Ok(Expression::IsAvailable {
                capability,
                value: boxed(Expression::Text("x".to_owned())),
            })
        );
    }
}

#[test]
fn what_is_no_expression_is_refused() {
    let refused = |value: ConfigValue, error: DecodeError| {
        assert_eq!(Expression::decode(&value), Err(error));
    };
    refused(table(vec![]), DecodeError::UnknownForm);
    refused(table(vec![("value", ConfigValue::Integer(1))]), DecodeError::UnknownForm);
    refused(table(vec![("plus", ConfigValue::Integer(1))]), DecodeError::UnknownForm);
    refused(
        table(vec![("value", ConfigValue::Integer(1)), ("value", ConfigValue::Integer(1))]),
        DecodeError::UnknownForm,
    );
    refused(
        table(vec![("value", ConfigValue::Integer(1)), ("modulo", ConfigValue::Integer(1))]),
        DecodeError::UnknownForm,
    );
    refused(
        table(vec![
            ("value", ConfigValue::Integer(1)),
            ("plus", ConfigValue::Integer(1)),
            ("minus", ConfigValue::Integer(1)),
        ]),
        DecodeError::UnknownForm,
    );
    refused(
        table(vec![("if", ConfigValue::Boolean(true)), ("else", ConfigValue::Integer(1))]),
        DecodeError::UnknownForm,
    );
    refused(table(vec![("all", ConfigValue::Boolean(true))]), DecodeError::ExpectedList);
    refused(table(vec![("minimum", ConfigValue::Integer(1))]), DecodeError::ExpectedList);
    refused(table(vec![("cpu-usage-since", text("soon"))]), DecodeError::BadDuration);
    refused(table(vec![("cpu-usage-since", text("5"))]), DecodeError::BadDuration);
    refused(table(vec![("cpu-usage-since", text("5 m"))]), DecodeError::BadDuration);
    refused(table(vec![("cpu-usage-since", ConfigValue::Integer(5))]), DecodeError::BadDuration);
    refused(
        table(vec![("not", ConfigValue::Integer(i64::MIN))]),
        DecodeError::NumberTooLarge,
    );
    refused(
        ConfigValue::List(vec![ConfigValue::Boolean(true), table(vec![])]),
        DecodeError::UnknownForm,
    );
}

#[test]
fn spans_are_read_and_written() {
    for (text, count, unit) in [
        ("250ms", 250, SpanUnit::Milliseconds),
        ("30s", 30, SpanUnit::Seconds),
        ("5m", 5, SpanUnit::Minutes),
        ("2h", 2, SpanUnit::Hours),
        ("1d", 1, SpanUnit::Days),
        ("0s", 0, SpanUnit::Seconds),
        ("18446744073709551615h", u64::MAX, SpanUnit::Hours),
    ] {
        let span = Span { count, unit };
        assert_eq!(Span::parse(text), Some(span));
        assert_eq!(span.format(), text);
    }
    assert_eq!(Span::parse("007m"), Some(Span { count: 7, unit: SpanUnit::Minutes }));
    for bad in ["", "s", "5", "5x", "5 s", "-5s", "5sm", "18446744073709551616s", "5S"] {
        assert_eq!(Span::parse(bad), None, "{bad}");
    }
}

fn every_kind_of_expression() -> Vec<Expression> {
    vec![
        Expression::Boolean(false),
        number(-1_250_000),
        Expression::Text("balance_power".to_owned()),
        Expression::Sensor(Sensor::CpuUsage),
        Expression::CpuUsageSince(Span { count: 5, unit: SpanUnit::Minutes }),
        Expression::List(vec![number(0), number(1_000_000), Expression::List(vec![])]),
        Expression::IsAvailable {
            capability: Capability::Driver,
            value: boxed(Expression::Text("amd-pstate".to_owned())),
        },
        Expression::Numeric {
            operator: NumericOperator::Multiply,
            a: boxed(Expression::Sensor(Sensor::CpuFrequencyMaximum)),
            b: boxed(number(650_000)),
        },
        Expression::Logic {
            operator: LogicOperator::Or,
            a: boxed(Expression::Sensor(Sensor::Discharging)),
            b: boxed(Expression::Sensor(Sensor::LidClosed)),
        },
        Expression::Equal {
            a: boxed(Expression::Sensor(Sensor::HourOfDay)),
            b: boxed(number(13_000_000)),
            leeway: boxed(number(500_000)),
        },
        Expression::Extreme {
            extreme: Extreme::Maximum,
            items: vec![number(1), Expression::Sensor(Sensor::CpuCoreCount)],
        },
        Expression::Not { not: boxed(Expression::Boolean(true)) },
        Expression::IsUnset { a: boxed(Expression::Sensor(Sensor::BatteryCycles)) },
        Expression::All { all: vec![Expression::Boolean(true), Expression::Boolean(false)] },
        Expression::Any { any: vec![] },
        Expression::IfElse {
            condition: boxed(Expression::Sensor(Sensor::Discharging)),
            consequence: boxed(Expression::Text("powersave".to_owned())),
            alternative: None,
        },
        Expression::IfElse {
            condition: boxed(Expression::Sensor(Sensor::Discharging)),
            consequence: boxed(Expression::Text("powersave".to_owned())),
            alternative: Some(boxed(Expression::IfElse {
                condition: boxed(Expression::Boolean(true)),
                consequence: boxed(number(1)),
                alternative: Some(boxed(number(2))),
            })),
        },
    ]
}

#[test]
fn expressions_are_read_back_as_they_were_written() {
    for expression in every_kind_of_expression() {
        let written = expression.encode();
        assert_eq!(Expression::decode(&written), Ok(expression), "{written:?}");
    }
}

#[test]
fn a_string_that_names_a_sensor_is_read_as_the_sensor() {
    let written = Expression::Text("?discharging".to_owned()).encode();
    assert_eq!(Expression::decode(&written), Ok(Expression::Sensor(Sensor::Discharging)));
}

#[test]
fn what_was_read_is_written_canonically() {
    let numeric = table(vec![("plus", ConfigValue::Integer(2)), ("value", text("%cpu-usage"))]);
    let read = Expression::decode(&numeric).unwrap();
    assert_eq!(
        read.encode(),
        table(vec![
            ("value", text("%cpu-usage")),
            ("plus", ConfigValue::Number(Fixed::from_micros(2_000_000))),
        ])
    );
    assert_eq!(Expression::decode(&read.encode()), Ok(read));
}

fn full_rule() -> ConfigValue {
    table(vec![
        ("name", text("battery saver")),
        ("priority", ConfigValue::Integer(20)),
        ("if", text("?discharging")),
        (
            "cpu",
            table(vec![
                ("turbo", ConfigValue::Boolean(false)),
                ("governor", text("powersave")),
                ("for", ConfigValue::List(vec![ConfigValue::Integer(0)])),
                ("energy-performance-preference", text("balance_power")),
                ("energy-perf-bias", text("15")),
                ("frequency-mhz-minimum", ConfigValue::Integer(400)),
                ("frequency-mhz-maximum", ConfigValue::Integer(2000)),
            ]),
        ),
        (
            "power",
            table(vec![
                ("platform-profile", text("low-power")),
                ("charge-threshold-start", ConfigValue::Integer(40)),
                ("charge-threshold-end", ConfigValue::Integer(80)),
                ("for", ConfigValue::List(vec![text("BAT0")])),
            ]),
        ),
    ])
}

#[test]
fn a_rule_is_read() {
    let rule = Rule::decode(&full_rule()).unwrap();
    assert_eq!(
        rule,
        Rule {
            name: "battery saver".to_owned(),
            priority: 20,
            condition: Expression::Sensor(Sensor::Discharging),
            cpu: CpuDeltaSpec {
                for_: Some(Expression::List(vec![number(0)])),
                governor: Some(Expression::Text("powersave".to_owned())),
                energy_performance_preference: Some(Expression::Text("balance_power".to_owned())),
                energy_performance_bias: Some(Expression::Text("15".to_owned())),
                frequency_mhz_minimum: Some(number(400_000_000)),
                frequency_mhz_maximum: Some(number(2_000_000_000)),
                turbo: Some(Expression::Boolean(false)),
            },
            power: PowerDeltaSpec {
                for_: Some(Expression::List(vec![Expression::Text("BAT0".to_owned())])),
                charge_threshold_start: Some(number(40_000_000)),
                charge_threshold_end: Some(number(80_000_000)),
                platform_profile: Some(Expression::Text("low-power".to_owned())),
            },
        }
    );
}

#[test]
fn a_rule_is_read_back_as_it_was_written() {
    let rule = Rule::decode(&full_rule()).unwrap();
    assert_eq!(Rule::decode(&rule.encode()), Ok(rule));
    let bare = Rule::decode(&table(vec![("priority", ConfigValue::Integer(0))])).unwrap();
    assert_eq!(
        bare,
        Rule {
            name: String::new(),
            priority: 0,
            condition: Expression::Boolean(true),
            cpu: CpuDeltaSpec::new(),
            power: PowerDeltaSpec::new(),
        }
    );
    assert_eq!(Rule::decode(&bare.encode()), Ok(bare));
}

#[test]
fn what_is_no_rule_is_refused() {
    let refused = |value: ConfigValue, error: DecodeError| {
        assert_eq!(Rule::decode(&value), Err(error));
    };
    refused(ConfigValue::Integer(1), DecodeError::ExpectedTable);
    refused(table(vec![]), DecodeError::MissingPriority);
    refused(table(vec![("priority", text("high"))]), DecodeError::BadPriority);
    refused(table(vec![("priority", ConfigValue::Integer(-1))]), DecodeError::BadPriority);
    refused(table(vec![("priority", ConfigValue::Integer(65_536))]), DecodeError::BadPriority);
    refused(
        table(vec![("priority", ConfigValue::Integer(1)), ("nmae", text("typo"))]),
        DecodeError::UnknownKey,
    );
    refused(
        table(vec![("priority", ConfigValue::Integer(1)), ("governor", text("x"))]),
        DecodeError::UnknownKey,
    );
    refused(
        table(vec![("priority", ConfigValue::Integer(1)), ("name", ConfigValue::Integer(1))]),
        DecodeError::ExpectedText,
    );
    refused(
        table(vec![("priority", ConfigValue::Integer(1)), ("cpu", text("fast"))]),
        DecodeError::ExpectedTable,
    );
    refused(
        table(vec![
            ("priority", ConfigValue::Integer(1)),
            ("cpu", table(vec![("charge-threshold-end", ConfigValue::Integer(80))])),
        ]),
        DecodeError::UnknownKey,
    );
    refused(
        table(vec![
            ("priority", ConfigValue::Integer(1)),
            ("power", table(vec![("turbo", ConfigValue::Boolean(true))])),
        ]),
        DecodeError::UnknownKey,
    );
    refused(
        table(vec![("priority", ConfigValue::Integer(1)), ("if", table(vec![]))]),
        DecodeError::UnknownForm,
    );
}

fn document(priorities: &[i64]) -> ConfigValue {
    table(vec![
        ("title", text("passed over")),
        (
            "rule",
            ConfigValue::List(
                priorities
                    .iter()
                    .map(|p| table(vec![("priority", ConfigValue::Integer(*p))]))
                    .collect(),
            ),
        ),
    ])
}

#[test]
fn a_document_is_loaded() {
    let config = DaemonConfig::load_from(&document(&[30, 10, 20])).unwrap();
    let priorities: Vec<u16> = config.rules.iter().map(|r| r.priority).collect();
    assert_eq!(priorities, vec![10, 20, 30]);
    assert_eq!(DaemonConfig::load_from(&table(vec![])).unwrap().rules, vec![]);
    assert_eq!(decode_rules_of(&document(&[3, 1])).unwrap().len(), 2);
}

#[test]
fn a_document_that_holds_no_rules_is_refused() {
    assert_eq!(
        DaemonConfig::load_from(&document(&[10, 20, 10])),
        Err(ConfigError::DuplicatePriority)
    );
    assert_eq!(
        DaemonConfig::load_from(&document(&[10, 70_000])),
        Err(ConfigError::Decode(DecodeError::BadPriority))
    );
    assert_eq!(
        DaemonConfig::load_from(&ConfigValue::List(vec![])),
        Err(ConfigError::Decode(DecodeError::ExpectedTable))
    );
    assert_eq!(
        DaemonConfig::load_from(&table(vec![("rule", text("none"))])),
        Err(ConfigError::Decode(DecodeError::ExpectedList))
    );
}
