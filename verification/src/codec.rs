//! How expressions are written in a configuration document, and read back.
//!
//! A sensor is written as its name, a literal as itself, and an operator as
//! a table whose keys name the operator and its operands. Reading what was
//! written gives the same expression back.

use vstd::prelude::*;
use vstd::string::*;
use crate::document::{
    entry_views, item_views, lemma_key_name_round_trip,
    lemma_list_value_view, lemma_table_value_view, ConfigValue, ConfigValueView, Entry, Key,
};
use crate::expression::{
    Capability, Expression, Extreme, LogicOperator, NumericOperator, Sensor, Span, SpanUnit,
};
use crate::number::{representable, Fixed, SCALE};
use crate::terms::lemma_sensor_name_round_trip;
use crate::text::{
    chars_of, decimal, digit_value, format_u64, lemma_decimal_round_trip,
    parse_digits, text_between, u64_of,
};

verus! {

/// The mathematical content of an [`Expression`].
#[allow(inconsistent_fields)]
pub enum ExpressionView {
    Boolean(bool),
    Number(int),
    Text(Seq<char>),
    List(Seq<ExpressionView>),
    Sensor(Sensor),
    CpuUsageSince(Span),
    IsAvailable { capability: Capability, value: Box<ExpressionView> },
    Numeric { operator: NumericOperator, a: Box<ExpressionView>, b: Box<ExpressionView> },
    Logic { operator: LogicOperator, a: Box<ExpressionView>, b: Box<ExpressionView> },
    Equal { a: Box<ExpressionView>, b: Box<ExpressionView>, leeway: Box<ExpressionView> },
    Extreme { extreme: Extreme, items: Seq<ExpressionView> },
    Not { not: Box<ExpressionView> },
    IsUnset { a: Box<ExpressionView> },
    All { all: Seq<ExpressionView> },
    Any { any: Seq<ExpressionView> },
    IfElse {
        condition: Box<ExpressionView>,
        consequence: Box<ExpressionView>,
        alternative: Option<Box<ExpressionView>>,
    },
}

/// The mathematical content of `e`.
pub open spec fn expression_view(e: Expression) -> ExpressionView
    decreases e,
{
    match e {
        Expression::Boolean(b) => ExpressionView::Boolean(b),
        Expression::Number(n) => ExpressionView::Number(n@),
        Expression::Text(s) => ExpressionView::Text(s@),
        Expression::List(items) => ExpressionView::List(
            Seq::new(
                items@.len(),
                |i: int|
                    if 0 <= i < items@.len() {
                        expression_view(items@[i])
                    } else {
                        ExpressionView::Boolean(false)
                    },
            ),
        ),
        Expression::Sensor(sensor) => ExpressionView::Sensor(sensor),
        Expression::CpuUsageSince(span) => ExpressionView::CpuUsageSince(span),
        Expression::IsAvailable { capability, value } => ExpressionView::IsAvailable {
            capability,
            value: Box::new(expression_view(*value)),
        },
        Expression::Numeric { operator, a, b } => ExpressionView::Numeric {
            operator,
            a: Box::new(expression_view(*a)),
            b: Box::new(expression_view(*b)),
        },
        Expression::Logic { operator, a, b } => ExpressionView::Logic {
            operator,
            a: Box::new(expression_view(*a)),
            b: Box::new(expression_view(*b)),
        },
        Expression::Equal { a, b, leeway } => ExpressionView::Equal {
            a: Box::new(expression_view(*a)),
            b: Box::new(expression_view(*b)),
            leeway: Box::new(expression_view(*leeway)),
        },
        Expression::Extreme { extreme, items } => ExpressionView::Extreme {
            extreme,
            items: Seq::new(
                items@.len(),
                |i: int|
                    if 0 <= i < items@.len() {
                        expression_view(items@[i])
                    } else {
                        ExpressionView::Boolean(false)
                    },
            ),
        },
        Expression::Not { not } => ExpressionView::Not { not: Box::new(expression_view(*not)) },
        Expression::IsUnset { a } => ExpressionView::IsUnset { a: Box::new(expression_view(*a)) },
        Expression::All { all } => ExpressionView::All {
            all: Seq::new(
                all@.len(),
                |i: int|
                    if 0 <= i < all@.len() {
                        expression_view(all@[i])
                    } else {
                        ExpressionView::Boolean(false)
                    },
            ),
        },
        Expression::Any { any } => ExpressionView::Any {
            any: Seq::new(
                any@.len(),
                |i: int|
                    if 0 <= i < any@.len() {
                        expression_view(any@[i])
                    } else {
                        ExpressionView::Boolean(false)
                    },
            ),
        },
        Expression::IfElse { condition, consequence, alternative } => ExpressionView::IfElse {
            condition: Box::new(expression_view(*condition)),
            consequence: Box::new(expression_view(*consequence)),
            alternative: match alternative {
                Some(other) => Some(Box::new(expression_view(*other))),
                None => None,
            },
        },
    }
}

impl View for Expression {
    type V = ExpressionView;

    open spec fn view(&self) -> ExpressionView {
        expression_view(*self)
    }
}

/// The views of `items`, in order.
pub open spec fn expression_views(items: Seq<Expression>) -> Seq<ExpressionView> {
    Seq::new(items.len(), |i: int| items[i]@)
}

/// The views of the lists inside an expression are the lists of the views.
pub proof fn lemma_expression_list_views(items: Vec<Expression>, extreme: Extreme)
    ensures
        Expression::List(items)@ == ExpressionView::List(expression_views(items@)),
        (Expression::All { all: items })@ == (ExpressionView::All {
            all: expression_views(items@),
        }),
        (Expression::Any { any: items })@ == (ExpressionView::Any {
            any: expression_views(items@),
        }),
        (Expression::Extreme { extreme, items })@ == (ExpressionView::Extreme {
            extreme,
            items: expression_views(items@),
        }),
{
    assert(Expression::List(items)@ matches ExpressionView::List(vs) && vs =~= expression_views(
        items@,
    ));
    assert(Expression::All { all: items }@ matches ExpressionView::All { all } && all
        =~= expression_views(items@));
    assert(Expression::Any { any: items }@ matches ExpressionView::Any { any } && any
        =~= expression_views(items@));
    assert(Expression::Extreme { extreme, items }@ matches ExpressionView::Extreme {
        extreme: _,
        items: vs,
    } && vs =~= expression_views(items@));
}

impl SpanUnit {
    /// The unit as it is written.
    pub open spec fn name(self) -> Seq<char> {
        match self {
            SpanUnit::Milliseconds => "ms"@,
            SpanUnit::Seconds => "s"@,
            SpanUnit::Minutes => "m"@,
            SpanUnit::Hours => "h"@,
            SpanUnit::Days => "d"@,
        }
    }

    /// The unit that is written `name`.
    pub open spec fn named(name: Seq<char>) -> Option<SpanUnit> {
        if name == SpanUnit::Milliseconds.name() {
            Some(SpanUnit::Milliseconds)
        } else if name == SpanUnit::Seconds.name() {
            Some(SpanUnit::Seconds)
        } else if name == SpanUnit::Minutes.name() {
            Some(SpanUnit::Minutes)
        } else if name == SpanUnit::Hours.name() {
            Some(SpanUnit::Hours)
        } else if name == SpanUnit::Days.name() {
            Some(SpanUnit::Days)
        } else {
            None
        }
    }

    /// The unit as it is written.
    pub fn as_str(&self) -> (r: &'static str)
        ensures
            r@ == self.name(),
    {
        match self {
            SpanUnit::Milliseconds => "ms",
            SpanUnit::Seconds => "s",
            SpanUnit::Minutes => "m",
            SpanUnit::Hours => "h",
            SpanUnit::Days => "d",
        }
    }

    /// The unit that is written `value`.
    pub fn from_chars(value: &Vec<char>) -> (r: Option<SpanUnit>)
        ensures
            r == SpanUnit::named(value@),
    {
        proof {
            reveal_strlit("ms");
            reveal_strlit("s");
            reveal_strlit("m");
            reveal_strlit("h");
            reveal_strlit("d");
        }
        if value.len() == 2 && value[0] == 'm' && value[1] == 's' {
            assert(value@ =~= "ms"@);
            Some(SpanUnit::Milliseconds)
        } else if value.len() == 1 && value[0] == 's' {
            assert(value@ =~= "s"@);
            Some(SpanUnit::Seconds)
        } else if value.len() == 1 && value[0] == 'm' {
            assert(value@ =~= "m"@);
            Some(SpanUnit::Minutes)
        } else if value.len() == 1 && value[0] == 'h' {
            assert(value@ =~= "h"@);
            Some(SpanUnit::Hours)
        } else if value.len() == 1 && value[0] == 'd' {
            assert(value@ =~= "d"@);
            Some(SpanUnit::Days)
        } else {
            None
        }
    }
}

/// The position of the first character at or after `from` that is no
/// digit, or the length of `s`.
pub open spec fn digits_end(s: Seq<char>, from: int) -> int
    decreases s.len() - from,
{
    if from < 0 || from >= s.len() || digit_value(s[from]).is_none() {
        from
    } else {
        digits_end(s, from + 1)
    }
}

/// The span that `s` stands for: a count in decimal digits and a unit.
pub open spec fn span_of(s: Seq<char>) -> Option<Span> {
    let end = digits_end(s, 0);
    match (u64_of(s.subrange(0, end)), SpanUnit::named(s.subrange(end, s.len() as int))) {
        (Some(count), Some(unit)) => Some(Span { count, unit }),
        _ => None,
    }
}

/// A span as it is written: the count and the unit.
pub open spec fn span_text(span: Span) -> Seq<char> {
    decimal(span.count as nat) + span.unit.name()
}

proof fn lemma_digits_end_bounds(s: Seq<char>, from: int)
    requires
        0 <= from <= s.len(),
    ensures
        from <= digits_end(s, from) <= s.len(),
    decreases s.len() - from,
{
    if from < s.len() && digit_value(s[from]).is_some() {
        lemma_digits_end_bounds(s, from + 1);
    }
}

proof fn lemma_decimal_is_digits(n: nat)
    ensures
        forall|i: int| 0 <= i < decimal(n).len() ==> digit_value(#[trigger] decimal(n)[i]).is_some(),
    decreases n,
{
    if n >= 10 {
        lemma_decimal_is_digits(n / 10);
    }
}

proof fn lemma_digits_end_of_prefix(s: Seq<char>, from: int, end: int)
    requires
        0 <= from <= end <= s.len(),
        forall|i: int| from <= i < end ==> digit_value(#[trigger] s[i]).is_some(),
        end == s.len() || digit_value(s[end]).is_none(),
    ensures
        digits_end(s, from) == end,
    decreases end - from,
{
    if from < end {
        lemma_digits_end_of_prefix(s, from + 1, end);
    }
}

/// A span is read back as it was written.
pub proof fn lemma_span_round_trip(span: Span)
    ensures
        span_of(span_text(span)) == Some(span),
{
    let digits = decimal(span.count as nat);
    let text = span_text(span);
    lemma_decimal_round_trip(span.count as nat);
    lemma_decimal_is_digits(span.count as nat);
    reveal_strlit("ms");
    reveal_strlit("s");
    reveal_strlit("m");
    reveal_strlit("h");
    reveal_strlit("d");
    assert(text.len() > digits.len());
    assert forall|i: int| 0 <= i < digits.len() implies digit_value(#[trigger] text[i]).is_some() by {
        assert(text[i] == digits[i]);
    }
    assert(text[digits.len() as int] == span.unit.name()[0]);
    lemma_digits_end_of_prefix(text, 0, digits.len() as int);
    assert(text.subrange(0, digits.len() as int) =~= digits);
    assert(text.subrange(digits.len() as int, text.len() as int) =~= span.unit.name());
}

impl Span {
    /// Reads a span such as `30s` or `5m`.
    pub fn parse(s: &str) -> (r: Option<Span>)
        ensures
            r == span_of(s@),
    {
        let chars = chars_of(s);
        let mut end: usize = 0;
        while end < chars.len() && is_digit(chars[end])
            invariant
                end <= chars@.len(),
                digits_end(chars@, 0) == digits_end(chars@, end as int),
            decreases chars.len() - end,
        {
            end += 1;
        }
        let digits = text_between(&chars, 0, end);
        let unit = text_between(&chars, end, chars.len());
        match (parse_digits(&digits), SpanUnit::from_chars(&unit)) {
            (Some(count), Some(unit)) => Some(Span { count, unit }),
            _ => None,
        }
    }

    /// Writes the span as [`Span::parse`] reads it.
    pub fn format(&self) -> (r: String)
        ensures
            r@ == span_text(*self),
    {
        let mut text = format_u64(self.count);
        text.append(self.unit.as_str());
        text
    }
}

fn is_digit(c: char) -> (r: bool)
    ensures
        r == digit_value(c).is_some(),
{
    c == '0' || c == '1' || c == '2' || c == '3' || c == '4' || c == '5' || c == '6' || c == '7'
        || c == '8' || c == '9'
}

/// Why a document is no expression, or no rule.
#[derive(Clone, Copy, Debug, PartialEq, Eq, Structural)]
pub enum DecodeError {
    /// A whole number is too large.
    NumberTooLarge,
    /// A table has not the keys of any operator.
    UnknownForm,
    /// An operator over a list was given something else.
    ExpectedList,
    /// A duration is not a count and a unit.
    BadDuration,
    /// A table was expected.
    ExpectedTable,
    /// A string was expected.
    ExpectedText,
    /// A rule or a delta holds a key that it does not know.
    UnknownKey,
    /// A rule lacks its priority.
    MissingPriority,
    /// A priority is no whole number from 0 to 65535.
    BadPriority,
}

/// The entries of a table, as their keys and values.
pub type Entries = Seq<(Seq<char>, ConfigValueView)>;

/// The position of the first entry from `from` on whose key is `key`.
pub open spec fn find(entries: Entries, key: Key, from: nat) -> Option<int>
    decreases entries.len() - from,
{
    if from >= entries.len() {
        None
    } else if Key::named(entries[from as int].0) == Some(key) {
        Some(from as int)
    } else {
        find(entries, key, from + 1)
    }
}

/// `true` when `i` is a position in `entries`.
pub open spec fn within(entries: Entries, i: int) -> bool {
    0 <= i < entries.len()
}

/// The capability that a key asks for.
pub open spec fn capability_of(key: Key) -> Option<Capability> {
    match key {
        Key::IsGovernorAvailable => Some(Capability::Governor),
        Key::IsEnergyPerformancePreferenceAvailable => Some(
            Capability::EnergyPerformancePreference,
        ),
        Key::IsEnergyPerfBiasAvailable => Some(Capability::EnergyPerfBias),
        Key::IsPlatformProfileAvailable => Some(Capability::PlatformProfile),
        Key::IsDriverLoaded => Some(Capability::Driver),
        _ => None,
    }
}

/// The key that asks for a capability.
pub open spec fn capability_key(capability: Capability) -> Key {
    match capability {
        Capability::Governor => Key::IsGovernorAvailable,
        Capability::EnergyPerformancePreference => Key::IsEnergyPerformancePreferenceAvailable,
        Capability::EnergyPerfBias => Key::IsEnergyPerfBiasAvailable,
        Capability::PlatformProfile => Key::IsPlatformProfileAvailable,
        Capability::Driver => Key::IsDriverLoaded,
    }
}

/// The numeric operator that a key names.
pub open spec fn numeric_of(key: Key) -> Option<NumericOperator> {
    match key {
        Key::Plus => Some(NumericOperator::Plus),
        Key::Minus => Some(NumericOperator::Minus),
        Key::Multiply => Some(NumericOperator::Multiply),
        Key::Divide => Some(NumericOperator::Divide),
        Key::Power => Some(NumericOperator::Power),
        Key::IsLessThan => Some(NumericOperator::IsLessThan),
        Key::IsMoreThan => Some(NumericOperator::IsMoreThan),
        _ => None,
    }
}

/// The key that names a numeric operator.
pub open spec fn numeric_key(operator: NumericOperator) -> Key {
    match operator {
        NumericOperator::Plus => Key::Plus,
        NumericOperator::Minus => Key::Minus,
        NumericOperator::Multiply => Key::Multiply,
        NumericOperator::Divide => Key::Divide,
        NumericOperator::Power => Key::Power,
        NumericOperator::IsLessThan => Key::IsLessThan,
        NumericOperator::IsMoreThan => Key::IsMoreThan,
    }
}

/// The logic operator that a key names.
pub open spec fn logic_of(key: Key) -> Option<LogicOperator> {
    match key {
        Key::And => Some(LogicOperator::And),
        Key::Or => Some(LogicOperator::Or),
        _ => None,
    }
}

/// The key that names a logic operator.
pub open spec fn logic_key(operator: LogicOperator) -> Key {
    match operator {
        LogicOperator::And => Key::And,
        LogicOperator::Or => Key::Or,
    }
}

/// The key that names an extreme.
pub open spec fn extreme_key(extreme: Extreme) -> Key {
    match extreme {
        Extreme::Minimum => Key::Minimum,
        Extreme::Maximum => Key::Maximum,
    }
}

/// The expressions that the values from `i` on stand for; the first that
/// stands for none is the failure.
pub open spec fn decode_items(items: Seq<ConfigValueView>, i: nat) -> Result<
    Seq<ExpressionView>,
    DecodeError,
>
    decreases items, items.len() - i,
{
    if i >= items.len() {
        Ok(Seq::empty())
    } else {
        match decode(items[i as int]) {
            Err(e) => Err(e),
            Ok(first) => match decode_items(items, i + 1) {
                Err(e) => Err(e),
                Ok(rest) => Ok(seq![first] + rest),
            },
        }
    }
}

/// The expressions of a value that must be a list.
pub open spec fn decode_list(value: ConfigValueView) -> Result<Seq<ExpressionView>, DecodeError>
    decreases value, 1nat,
{
    match value {
        ConfigValueView::List(items) => decode_items(items, 0),
        _ => Err(DecodeError::ExpectedList),
    }
}

/// The expression that a table with one entry stands for.
pub open spec fn decode_unary(key: Option<Key>, value: ConfigValueView) -> Result<
    ExpressionView,
    DecodeError,
>
    decreases value, 2nat,
{
    match key {
        Some(Key::CpuUsageSince) => match value {
            ConfigValueView::Text(s) => match span_of(s) {
                Some(span) => Ok(ExpressionView::CpuUsageSince(span)),
                None => Err(DecodeError::BadDuration),
            },
            _ => Err(DecodeError::BadDuration),
        },
        Some(Key::Not) => match decode(value) {
            Ok(e) => Ok(ExpressionView::Not { not: Box::new(e) }),
            Err(e) => Err(e),
        },
        Some(Key::IsUnset) => match decode(value) {
            Ok(e) => Ok(ExpressionView::IsUnset { a: Box::new(e) }),
            Err(e) => Err(e),
        },
        Some(Key::All) => match decode_list(value) {
            Ok(es) => Ok(ExpressionView::All { all: es }),
            Err(e) => Err(e),
        },
        Some(Key::Any) => match decode_list(value) {
            Ok(es) => Ok(ExpressionView::Any { any: es }),
            Err(e) => Err(e),
        },
        Some(Key::Minimum) => match decode_list(value) {
            Ok(es) => Ok(ExpressionView::Extreme { extreme: Extreme::Minimum, items: es }),
            Err(e) => Err(e),
        },
        Some(Key::Maximum) => match decode_list(value) {
            Ok(es) => Ok(ExpressionView::Extreme { extreme: Extreme::Maximum, items: es }),
            Err(e) => Err(e),
        },
        Some(other) => match capability_of(other) {
            Some(capability) => match decode(value) {
                Ok(e) => Ok(ExpressionView::IsAvailable { capability, value: Box::new(e) }),
                Err(e) => Err(e),
            },
            None => Err(DecodeError::UnknownForm),
        },
        None => Err(DecodeError::UnknownForm),
    }
}

/// The expression that an operator `key` stands for, on the operands that
/// are the values of the entries `left` and `right` of `entries`.
pub open spec fn decode_binary(key: Option<Key>, entries: Entries, left: int, right: int) -> Result<
    ExpressionView,
    DecodeError,
>
    decreases entries, 1nat,
{
    let a = entries[left].1;
    let b = entries[right].1;
    if !(0 <= left < entries.len() && 0 <= right < entries.len()) {
        Err(DecodeError::UnknownForm)
    } else {
    
    match key {
        None => Err(DecodeError::UnknownForm),
        Some(k) => if numeric_of(k).is_none() && logic_of(k).is_none() {
            Err(DecodeError::UnknownForm)
        } else {
            match decode(a) {
                Err(e) => Err(e),
                Ok(left) => match decode(b) {
                    Err(e) => Err(e),
                    Ok(right) => match numeric_of(k) {
                        Some(operator) => Ok(
                            ExpressionView::Numeric {
                                operator,
                                a: Box::new(left),
                                b: Box::new(right),
                            },
                        ),
                        None => Ok(
                            ExpressionView::Logic {
                                operator: logic_of(k).unwrap(),
                                a: Box::new(left),
                                b: Box::new(right),
                            },
                        ),
                    },
                },
            }
        },
    }
    }
}

/// The expression that the table `entries` stands for: it must hold the
/// keys of one operator and no others, in any order.
pub open spec fn decode_table(entries: Entries) -> Result<ExpressionView, DecodeError>
    decreases entries, 2nat,
{
    if entries.len() == 1 {
        decode_unary(Key::named(entries[0].0), entries[0].1)
    } else if entries.len() == 2 {
        if Key::named(entries[0].0) == Some(Key::Value) {
            decode_binary(Key::named(entries[1].0), entries, 0, 1)
        } else if Key::named(entries[1].0) == Some(Key::Value) {
            decode_binary(Key::named(entries[0].0), entries, 1, 0)
        } else {
            match (find(entries, Key::If, 0), find(entries, Key::Then, 0)) {
                (Some(condition), Some(consequence)) if within(entries, condition) && within(
                    entries,
                    consequence,
                ) => match decode(entries[condition].1) {
                    Err(e) => Err(e),
                    Ok(c) => match decode(entries[consequence].1) {
                        Err(e) => Err(e),
                        Ok(t) => Ok(
                            ExpressionView::IfElse {
                                condition: Box::new(c),
                                consequence: Box::new(t),
                                alternative: None,
                            },
                        ),
                    },
                },
                _ => Err(DecodeError::UnknownForm),
            }
        }
    } else if entries.len() == 3 {
        match (
            find(entries, Key::Value, 0),
            find(entries, Key::IsEqual, 0),
            find(entries, Key::Leeway, 0),
        ) {
            (Some(a), Some(b), Some(leeway)) if within(entries, a) && within(entries, b)
                && within(entries, leeway) => match decode(entries[a].1) {
                Err(e) => Err(e),
                Ok(x) => match decode(entries[b].1) {
                    Err(e) => Err(e),
                    Ok(y) => match decode(entries[leeway].1) {
                        Err(e) => Err(e),
                        Ok(l) => Ok(
                            ExpressionView::Equal {
                                a: Box::new(x),
                                b: Box::new(y),
                                leeway: Box::new(l),
                            },
                        ),
                    },
                },
            },
            _ => match (
                find(entries, Key::If, 0),
                find(entries, Key::Then, 0),
                find(entries, Key::Else, 0),
            ) {
                (Some(condition), Some(consequence), Some(alternative)) if within(
                    entries,
                    condition,
                ) && within(entries, consequence) && within(entries, alternative) => match decode(
                    entries[condition].1,
                ) {
                    Err(e) => Err(e),
                    Ok(c) => match decode(entries[consequence].1) {
                        Err(e) => Err(e),
                        Ok(t) => match decode(entries[alternative].1) {
                            Err(e) => Err(e),
                            Ok(other) => Ok(
                                ExpressionView::IfElse {
                                    condition: Box::new(c),
                                    consequence: Box::new(t),
                                    alternative: Some(Box::new(other)),
                                },
                            ),
                        },
                    },
                },
                _ => Err(DecodeError::UnknownForm),
            },
        }
    } else {
        Err(DecodeError::UnknownForm)
    }
}

/// The expression that a value stands for.
pub open spec fn decode(value: ConfigValueView) -> Result<ExpressionView, DecodeError>
    decreases value, 0nat,
{
    match value {
        ConfigValueView::Boolean(b) => Ok(ExpressionView::Boolean(b)),
        ConfigValueView::Integer(i) => if representable(i * SCALE) {
            Ok(ExpressionView::Number(i * SCALE))
        } else {
            Err(DecodeError::NumberTooLarge)
        },
        ConfigValueView::Number(n) => Ok(ExpressionView::Number(n)),
        ConfigValueView::Text(s) => match Sensor::named(s) {
            Some(sensor) => Ok(ExpressionView::Sensor(sensor)),
            None => Ok(ExpressionView::Text(s)),
        },
        ConfigValueView::List(items) => match decode_items(items, 0) {
            Ok(es) => Ok(ExpressionView::List(es)),
            Err(e) => Err(e),
        },
        ConfigValueView::Table(entries) => decode_table(entries),
    }
}

/// The values that stand for the expressions from `i` on.
pub open spec fn encode_items(items: Seq<ExpressionView>, i: nat) -> Seq<ConfigValueView>
    decreases items, items.len() - i,
{
    if i >= items.len() {
        Seq::empty()
    } else {
        seq![encode(items[i as int])] + encode_items(items, i + 1)
    }
}

/// The table with the one entry `key`: `value`.
pub open spec fn table1(key: Key, value: ConfigValueView) -> ConfigValueView {
    ConfigValueView::Table(seq![(key.name(), value)])
}

/// The table with two entries.
pub open spec fn table2(k0: Key, v0: ConfigValueView, k1: Key, v1: ConfigValueView) -> ConfigValueView {
    ConfigValueView::Table(seq![(k0.name(), v0), (k1.name(), v1)])
}

/// The table with three entries.
pub open spec fn table3(
    k0: Key,
    v0: ConfigValueView,
    k1: Key,
    v1: ConfigValueView,
    k2: Key,
    v2: ConfigValueView,
) -> ConfigValueView {
    ConfigValueView::Table(seq![(k0.name(), v0), (k1.name(), v1), (k2.name(), v2)])
}

/// The value that stands for an expression.
pub open spec fn encode(e: ExpressionView) -> ConfigValueView
    decreases e, 0nat,
{
    match e {
        ExpressionView::Boolean(b) => ConfigValueView::Boolean(b),
        ExpressionView::Number(n) => ConfigValueView::Number(n),
        ExpressionView::Text(s) => ConfigValueView::Text(s),
        ExpressionView::List(items) => ConfigValueView::List(encode_items(items, 0)),
        ExpressionView::Sensor(sensor) => ConfigValueView::Text(sensor.name()),
        ExpressionView::CpuUsageSince(span) => table1(
            Key::CpuUsageSince,
            ConfigValueView::Text(span_text(span)),
        ),
        ExpressionView::IsAvailable { capability, value } => table1(
            capability_key(capability),
            encode(*value),
        ),
        ExpressionView::Numeric { operator, a, b } => table2(
            Key::Value,
            encode(*a),
            numeric_key(operator),
            encode(*b),
        ),
        ExpressionView::Logic { operator, a, b } => table2(
            Key::Value,
            encode(*a),
            logic_key(operator),
            encode(*b),
        ),
        ExpressionView::Equal { a, b, leeway } => table3(
            Key::Value,
            encode(*a),
            Key::IsEqual,
            encode(*b),
            Key::Leeway,
            encode(*leeway),
        ),
        ExpressionView::Extreme { extreme, items } => table1(
            extreme_key(extreme),
            ConfigValueView::List(encode_items(items, 0)),
        ),
        ExpressionView::Not { not } => table1(Key::Not, encode(*not)),
        ExpressionView::IsUnset { a } => table1(Key::IsUnset, encode(*a)),
        ExpressionView::All { all } => table1(
            Key::All,
            ConfigValueView::List(encode_items(all, 0)),
        ),
        ExpressionView::Any { any } => table1(
            Key::Any,
            ConfigValueView::List(encode_items(any, 0)),
        ),
        ExpressionView::IfElse { condition, consequence, alternative } => match alternative {
            Some(other) => table3(
                Key::If,
                encode(*condition),
                Key::Then,
                encode(*consequence),
                Key::Else,
                encode(*other),
            ),
            None => table2(Key::If, encode(*condition), Key::Then, encode(*consequence)),
        },
    }
}

/// The outcome that a decoder's result stands for.
pub open spec fn decoded(r: Result<Expression, DecodeError>) -> Result<ExpressionView, DecodeError> {
    match r {
        Ok(e) => Ok(e@),
        Err(e) => Err(e),
    }
}

/// The outcome that the result of decoding a list stands for.
pub open spec fn decoded_items(r: Result<Vec<Expression>, DecodeError>) -> Result<
    Seq<ExpressionView>,
    DecodeError,
> {
    match r {
        Ok(es) => Ok(expression_views(es@)),
        Err(e) => Err(e),
    }
}

fn find_key(entries: &Vec<Entry>, key: Key) -> (r: Option<usize>)
    ensures
        match r {
            Some(i) => find(entry_views(entries@), key, 0) == Some(i as int) && i < entries@.len(),
            None => find(entry_views(entries@), key, 0).is_none(),
        },
{
    let mut i: usize = 0;
    while i < entries.len()
        invariant
            i <= entries@.len(),
            find(entry_views(entries@), key, 0) == find(entry_views(entries@), key, i as nat),
        decreases entries.len() - i,
    {
        match Key::from_str(entries[i].key.as_str()) {
            Some(k) => {
                if k == key {
                    return Some(i);
                }
            },
            None => {},
        }
        i += 1;
    }
    None
}

fn decode_vec(items: &Vec<ConfigValue>) -> (r: Result<Vec<Expression>, DecodeError>)
    ensures
        decoded_items(r) == decode_items(item_views(items@), 0),
    decreases items, 1nat,
{
    let ghost views = item_views(items@);
    let mut out: Vec<Expression> = Vec::new();
    let mut i: usize = 0;
    while i < items.len()
        invariant
            i <= items@.len(),
            views == item_views(items@),
            out@.len() == i,
            forall|k: int|
                0 <= k < i ==> decode(#[trigger] views[k]) == Ok::<ExpressionView, DecodeError>(
                    out@[k]@,
                ),
        decreases items.len() - i,
    {
        match decode_value(&items[i]) {
            Ok(e) => {
                out.push(e);
            },
            Err(e) => {
                proof {
                    lemma_decode_items_fails(views, 0, i as int);
                }
                return Err(e);
            },
        }
        i += 1;
    }
    proof {
        let results = expression_views(out@);
        assert forall|k: int| 0 <= k < views.len() implies decode(#[trigger] views[k]) == Ok::<
            ExpressionView,
            DecodeError,
        >(results[k]) by {
            assert(results[k] == out@[k]@);
        }
        lemma_decode_items_succeeds(views, 0, results);
        assert(results.subrange(0, results.len() as int) =~= results);
    }
    Ok(out)
}

proof fn lemma_decode_items_fails(items: Seq<ConfigValueView>, from: nat, at: int)
    requires
        from <= at < items.len(),
        forall|k: int| from <= k < at ==> (#[trigger] decode(items[k])).is_ok(),
        decode(items[at]).is_err(),
    ensures
        decode_items(items, from) == Err::<Seq<ExpressionView>, DecodeError>(
            decode(items[at])->Err_0,
        ),
    decreases at - from,
{
    if from < at {
        assert(decode(items[from as int]).is_ok());
        lemma_decode_items_fails(items, from + 1, at);
    }
}

proof fn lemma_decode_items_succeeds(
    items: Seq<ConfigValueView>,
    from: nat,
    results: Seq<ExpressionView>,
)
    requires
        from <= items.len(),
        results.len() == items.len(),
        forall|k: int|
            from <= k < items.len() ==> decode(#[trigger] items[k]) == Ok::<
                ExpressionView,
                DecodeError,
            >(results[k]),
    ensures
        decode_items(items, from) == Ok::<Seq<ExpressionView>, DecodeError>(
            results.subrange(from as int, results.len() as int),
        ),
    decreases items.len() - from,
{
    if from < items.len() {
        lemma_decode_items_succeeds(items, from + 1, results);
        assert(decode(items[from as int]) == Ok::<ExpressionView, DecodeError>(
            results[from as int],
        ));
        assert(seq![results[from as int]] + results.subrange((from + 1) as int, results.len() as int)
            =~= results.subrange(from as int, results.len() as int));
    } else {
        assert(results.subrange(from as int, results.len() as int) =~= Seq::<
            ExpressionView,
        >::empty());
    }
}

fn decode_list_value(value: &ConfigValue) -> (r: Result<Vec<Expression>, DecodeError>)
    ensures
        decoded_items(r) == decode_list(value@),
    decreases value, 2nat,
{
    match value {
        ConfigValue::List(items) => {
            proof {
                lemma_list_value_view(*items);
            }
            decode_vec(items)
        },
        _ => Err(DecodeError::ExpectedList),
    }
}

fn capability_for(key: Key) -> (r: Option<Capability>)
    ensures
        r == capability_of(key),
{
    match key {
        Key::IsGovernorAvailable => Some(Capability::Governor),
        Key::IsEnergyPerformancePreferenceAvailable => Some(
            Capability::EnergyPerformancePreference,
        ),
        Key::IsEnergyPerfBiasAvailable => Some(Capability::EnergyPerfBias),
        Key::IsPlatformProfileAvailable => Some(Capability::PlatformProfile),
        Key::IsDriverLoaded => Some(Capability::Driver),
        _ => None,
    }
}

fn numeric_for(key: Key) -> (r: Option<NumericOperator>)
    ensures
        r == numeric_of(key),
{
    match key {
        Key::Plus => Some(NumericOperator::Plus),
        Key::Minus => Some(NumericOperator::Minus),
        Key::Multiply => Some(NumericOperator::Multiply),
        Key::Divide => Some(NumericOperator::Divide),
        Key::Power => Some(NumericOperator::Power),
        Key::IsLessThan => Some(NumericOperator::IsLessThan),
        Key::IsMoreThan => Some(NumericOperator::IsMoreThan),
        _ => None,
    }
}

fn logic_for(key: Key) -> (r: Option<LogicOperator>)
    ensures
        r == logic_of(key),
{
    match key {
        Key::And => Some(LogicOperator::And),
        Key::Or => Some(LogicOperator::Or),
        _ => None,
    }
}

fn decode_unary_value(key: Option<Key>, value: &ConfigValue) -> (r: Result<Expression, DecodeError>)
    ensures
        decoded(r) == decode_unary(key, value@),
    decreases value, 3nat,
{
    let k = match key {
        Some(k) => k,
        None => {
            return Err(DecodeError::UnknownForm);
        },
    };
    match k {
        Key::CpuUsageSince => match value {
            ConfigValue::Text(s) => match Span::parse(s.as_str()) {
                Some(span) => Ok(Expression::CpuUsageSince(span)),
                None => Err(DecodeError::BadDuration),
            },
            _ => Err(DecodeError::BadDuration),
        },
        Key::Not => match decode_value(value) {
            Ok(e) => Ok(Expression::Not { not: Box::new(e) }),
            Err(e) => Err(e),
        },
        Key::IsUnset => match decode_value(value) {
            Ok(e) => Ok(Expression::IsUnset { a: Box::new(e) }),
            Err(e) => Err(e),
        },
        Key::All => match decode_list_value(value) {
            Ok(es) => {
                proof {
                    lemma_expression_list_views(es, Extreme::Minimum);
                }
                Ok(Expression::All { all: es })
            },
            Err(e) => Err(e),
        },
        Key::Any => match decode_list_value(value) {
            Ok(es) => {
                proof {
                    lemma_expression_list_views(es, Extreme::Minimum);
                }
                Ok(Expression::Any { any: es })
            },
            Err(e) => Err(e),
        },
        Key::Minimum => match decode_list_value(value) {
            Ok(es) => {
                proof {
                    lemma_expression_list_views(es, Extreme::Minimum);
                }
                Ok(Expression::Extreme { extreme: Extreme::Minimum, items: es })
            },
            Err(e) => Err(e),
        },
        Key::Maximum => match decode_list_value(value) {
            Ok(es) => {
                proof {
                    lemma_expression_list_views(es, Extreme::Maximum);
                }
                Ok(Expression::Extreme { extreme: Extreme::Maximum, items: es })
            },
            Err(e) => Err(e),
        },
        other => match capability_for(other) {
            Some(capability) => match decode_value(value) {
                Ok(e) => Ok(Expression::IsAvailable { capability, value: Box::new(e) }),
                Err(e) => Err(e),
            },
            None => Err(DecodeError::UnknownForm),
        },
    }
}

fn decode_binary_entries(key: Option<Key>, entries: &Vec<Entry>, left: usize, right: usize) -> (r:
    Result<Expression, DecodeError>)
    requires
        left < entries@.len(),
        right < entries@.len(),
    ensures
        decoded(r) == decode_binary(key, entry_views(entries@), left as int, right as int),
    decreases entries, 1nat,
{
    let k = match key {
        Some(k) => k,
        None => {
            return Err(DecodeError::UnknownForm);
        },
    };
    let numeric = numeric_for(k);
    let logic = logic_for(k);
    if numeric.is_none() && logic.is_none() {
        return Err(DecodeError::UnknownForm);
    }
    let a = match decode_value(&entries[left].value) {
        Ok(e) => e,
        Err(e) => {
            return Err(e);
        },
    };
    let b = match decode_value(&entries[right].value) {
        Ok(e) => e,
        Err(e) => {
            return Err(e);
        },
    };
    match numeric {
        Some(operator) => Ok(Expression::Numeric { operator, a: Box::new(a), b: Box::new(b) }),
        None => match logic {
            Some(operator) => Ok(Expression::Logic { operator, a: Box::new(a), b: Box::new(b) }),
            None => Err(DecodeError::UnknownForm),
        },
    }
}

fn decode_entries(entries: &Vec<Entry>) -> (r: Result<Expression, DecodeError>)
    ensures
        decoded(r) == decode_table(entry_views(entries@)),
    decreases entries, 2nat,
{
    let ghost views = entry_views(entries@);
    if entries.len() == 1 {
        let key = Key::from_str(entries[0].key.as_str());
        decode_unary_value(key, &entries[0].value)
    } else if entries.len() == 2 {
        let first = Key::from_str(entries[0].key.as_str());
        let second = Key::from_str(entries[1].key.as_str());
        if first == Some(Key::Value) {
            decode_binary_entries(second, entries, 0, 1)
        } else if second == Some(Key::Value) {
            decode_binary_entries(first, entries, 1, 0)
        } else {
            match (find_key(entries, Key::If), find_key(entries, Key::Then)) {
                (Some(i), Some(t)) => {
                    let condition = match decode_value(&entries[i].value) {
                        Ok(e) => e,
                        Err(e) => {
                            return Err(e);
                        },
                    };
                    let consequence = match decode_value(&entries[t].value) {
                        Ok(e) => e,
                        Err(e) => {
                            return Err(e);
                        },
                    };
                    Ok(
                        Expression::IfElse {
                            condition: Box::new(condition),
                            consequence: Box::new(consequence),
                            alternative: None,
                        },
                    )
                },
                _ => Err(DecodeError::UnknownForm),
            }
        }
    } else if entries.len() == 3 {
        match (
            find_key(entries, Key::Value),
            find_key(entries, Key::IsEqual),
            find_key(entries, Key::Leeway),
        ) {
            (Some(ia), Some(ib), Some(il)) => {
                let a = match decode_value(&entries[ia].value) {
                    Ok(e) => e,
                    Err(e) => {
                        return Err(e);
                    },
                };
                let b = match decode_value(&entries[ib].value) {
                    Ok(e) => e,
                    Err(e) => {
                        return Err(e);
                    },
                };
                let leeway = match decode_value(&entries[il].value) {
                    Ok(e) => e,
                    Err(e) => {
                        return Err(e);
                    },
                };
                Ok(Expression::Equal { a: Box::new(a), b: Box::new(b), leeway: Box::new(leeway) })
            },
            _ => match (
                find_key(entries, Key::If),
                find_key(entries, Key::Then),
                find_key(entries, Key::Else),
            ) {
                (Some(i), Some(t), Some(o)) => {
                    let condition = match decode_value(&entries[i].value) {
                        Ok(e) => e,
                        Err(e) => {
                            return Err(e);
                        },
                    };
                    let consequence = match decode_value(&entries[t].value) {
                        Ok(e) => e,
                        Err(e) => {
                            return Err(e);
                        },
                    };
                    let other = match decode_value(&entries[o].value) {
                        Ok(e) => e,
                        Err(e) => {
                            return Err(e);
                        },
                    };
                    Ok(
                        Expression::IfElse {
                            condition: Box::new(condition),
                            consequence: Box::new(consequence),
                            alternative: Some(Box::new(other)),
                        },
                    )
                },
                _ => Err(DecodeError::UnknownForm),
            },
        }
    } else {
        Err(DecodeError::UnknownForm)
    }
}

fn decode_value(value: &ConfigValue) -> (r: Result<Expression, DecodeError>)
    ensures
        decoded(r) == decode(value@),
    decreases value, 0nat,
{
    match value {
        ConfigValue::Boolean(b) => Ok(Expression::Boolean(*b)),
        ConfigValue::Integer(i) => match Fixed::from_int(*i) {
            Ok(n) => Ok(Expression::Number(n)),
            Err(_) => Err(DecodeError::NumberTooLarge),
        },
        ConfigValue::Number(n) => Ok(Expression::Number(*n)),
        ConfigValue::Text(s) => match Sensor::from_str(s.as_str()) {
            Some(sensor) => Ok(Expression::Sensor(sensor)),
            None => Ok(Expression::Text(s.clone())),
        },
        ConfigValue::List(items) => {
            proof {
                lemma_list_value_view(*items);
            }
            match decode_vec(items) {
                Ok(es) => {
                    proof {
                        lemma_expression_list_views(es, Extreme::Minimum);
                    }
                    Ok(Expression::List(es))
                },
                Err(e) => Err(e),
            }
        },
        ConfigValue::Table(entries) => {
            proof {
                lemma_table_value_view(*entries);
            }
            decode_entries(entries)
        },
    }
}

impl Expression {
    /// Reads an expression from a value of a configuration document.
    pub fn decode(value: &ConfigValue) -> (r: Result<Expression, DecodeError>)
        ensures
            decoded(r) == decode(value@),
    {
        decode_value(value)
    }
}

fn key_of_capability(capability: Capability) -> (r: Key)
    ensures
        r == capability_key(capability),
{
    match capability {
        Capability::Governor => Key::IsGovernorAvailable,
        Capability::EnergyPerformancePreference => Key::IsEnergyPerformancePreferenceAvailable,
        Capability::EnergyPerfBias => Key::IsEnergyPerfBiasAvailable,
        Capability::PlatformProfile => Key::IsPlatformProfileAvailable,
        Capability::Driver => Key::IsDriverLoaded,
    }
}

fn key_of_numeric(operator: NumericOperator) -> (r: Key)
    ensures
        r == numeric_key(operator),
{
    match operator {
        NumericOperator::Plus => Key::Plus,
        NumericOperator::Minus => Key::Minus,
        NumericOperator::Multiply => Key::Multiply,
        NumericOperator::Divide => Key::Divide,
        NumericOperator::Power => Key::Power,
        NumericOperator::IsLessThan => Key::IsLessThan,
        NumericOperator::IsMoreThan => Key::IsMoreThan,
    }
}

fn key_of_logic(operator: LogicOperator) -> (r: Key)
    ensures
        r == logic_key(operator),
{
    match operator {
        LogicOperator::And => Key::And,
        LogicOperator::Or => Key::Or,
    }
}

fn key_of_extreme(extreme: Extreme) -> (r: Key)
    ensures
        r == extreme_key(extreme),
{
    match extreme {
        Extreme::Minimum => Key::Minimum,
        Extreme::Maximum => Key::Maximum,
    }
}

/// The table with the one entry `key`: `value`.
pub fn make_table1(key: Key, value: ConfigValue) -> (r: ConfigValue)
    ensures
        r@ == table1(key, value@),
{
    let mut entries: Vec<Entry> = Vec::new();
    entries.push(Entry { key: String::from_str(key.as_str()), value });
    proof {
        lemma_table_value_view(entries);
        assert(entry_views(entries@) =~= seq![(key.name(), value@)]);
    }
    ConfigValue::Table(entries)
}

/// The table with two entries.
pub fn make_table2(k0: Key, v0: ConfigValue, k1: Key, v1: ConfigValue) -> (r: ConfigValue)
    ensures
        r@ == table2(k0, v0@, k1, v1@),
{
    let mut entries: Vec<Entry> = Vec::new();
    entries.push(Entry { key: String::from_str(k0.as_str()), value: v0 });
    entries.push(Entry { key: String::from_str(k1.as_str()), value: v1 });
    proof {
        lemma_table_value_view(entries);
        assert(entry_views(entries@) =~= seq![(k0.name(), v0@), (k1.name(), v1@)]);
    }
    ConfigValue::Table(entries)
}

/// The table with three entries.
pub fn make_table3(
    k0: Key,
    v0: ConfigValue,
    k1: Key,
    v1: ConfigValue,
    k2: Key,
    v2: ConfigValue,
) -> (r: ConfigValue)
    ensures
        r@ == table3(k0, v0@, k1, v1@, k2, v2@),
{
    let mut entries: Vec<Entry> = Vec::new();
    entries.push(Entry { key: String::from_str(k0.as_str()), value: v0 });
    entries.push(Entry { key: String::from_str(k1.as_str()), value: v1 });
    entries.push(Entry { key: String::from_str(k2.as_str()), value: v2 });
    proof {
        lemma_table_value_view(entries);
        assert(entry_views(entries@) =~= seq![
            (k0.name(), v0@),
            (k1.name(), v1@),
            (k2.name(), v2@),
        ]);
    }
    ConfigValue::Table(entries)
}

proof fn lemma_encode_items_index(items: Seq<ExpressionView>, from: nat)
    requires
        from <= items.len(),
    ensures
        encode_items(items, from).len() == items.len() - from,
        forall|k: int|
            0 <= k < items.len() - from ==> encode_items(items, from)[k] == encode(
                #[trigger] items[from + k],
            ),
    decreases items.len() - from,
{
    if from < items.len() {
        lemma_encode_items_index(items, from + 1);
        assert forall|k: int| 0 <= k < items.len() - from implies encode_items(items, from)[k]
            == encode(#[trigger] items[from + k]) by {
            if k > 0 {
                assert(encode_items(items, from)[k] == encode_items(items, from + 1)[k - 1]);
                assert(items[from + 1 + (k - 1)] == items[from + k]);
            }
        }
    }
}

fn encode_vec(items: &Vec<Expression>) -> (r: ConfigValue)
    ensures
        r@ == ConfigValueView::List(encode_items(expression_views(items@), 0)),
    decreases items, 1nat,
{
    let ghost views = expression_views(items@);
    let mut out: Vec<ConfigValue> = Vec::new();
    let mut i: usize = 0;
    while i < items.len()
        invariant
            i <= items@.len(),
            views == expression_views(items@),
            out@.len() == i,
            forall|k: int| 0 <= k < i ==> (#[trigger] out@[k])@ == encode(views[k]),
        decreases items.len() - i,
    {
        let value = encode_expression(&items[i]);
        out.push(value);
        i += 1;
    }
    proof {
        lemma_encode_items_index(views, 0);
        lemma_list_value_view(out);
        assert(item_views(out@) =~= encode_items(views, 0)) by {
            assert forall|k: int| 0 <= k < out@.len() implies item_views(out@)[k] == encode_items(
                views,
                0,
            )[k] by {
                assert(views[0 + k] == views[k]);
            }
        }
    }
    ConfigValue::List(out)
}

fn encode_expression(e: &Expression) -> (r: ConfigValue)
    ensures
        r@ == encode(e@),
    decreases e, 0nat,
{
    match e {
        Expression::Boolean(b) => ConfigValue::Boolean(*b),
        Expression::Number(n) => ConfigValue::Number(*n),
        Expression::Text(s) => ConfigValue::Text(s.clone()),
        Expression::List(items) => {
            proof {
                lemma_expression_list_views(*items, Extreme::Minimum);
            }
            encode_vec(items)
        },
        Expression::Sensor(sensor) => ConfigValue::Text(String::from_str(sensor.as_str())),
        Expression::CpuUsageSince(span) => make_table1(
            Key::CpuUsageSince,
            ConfigValue::Text(span.format()),
        ),
        Expression::IsAvailable { capability, value } => make_table1(
            key_of_capability(*capability),
            encode_expression(value),
        ),
        Expression::Numeric { operator, a, b } => make_table2(
            Key::Value,
            encode_expression(a),
            key_of_numeric(*operator),
            encode_expression(b),
        ),
        Expression::Logic { operator, a, b } => make_table2(
            Key::Value,
            encode_expression(a),
            key_of_logic(*operator),
            encode_expression(b),
        ),
        Expression::Equal { a, b, leeway } => make_table3(
            Key::Value,
            encode_expression(a),
            Key::IsEqual,
            encode_expression(b),
            Key::Leeway,
            encode_expression(leeway),
        ),
        Expression::Extreme { extreme, items } => {
            proof {
                lemma_expression_list_views(*items, *extreme);
            }
            make_table1(key_of_extreme(*extreme), encode_vec(items))
        },
        Expression::Not { not } => make_table1(Key::Not, encode_expression(not)),
        Expression::IsUnset { a } => make_table1(Key::IsUnset, encode_expression(a)),
        Expression::All { all } => {
            proof {
                lemma_expression_list_views(*all, Extreme::Minimum);
            }
            make_table1(Key::All, encode_vec(all))
        },
        Expression::Any { any } => {
            proof {
                lemma_expression_list_views(*any, Extreme::Minimum);
            }
            make_table1(Key::Any, encode_vec(any))
        },
        Expression::IfElse { condition, consequence, alternative } => match alternative {
            Some(other) => make_table3(
                Key::If,
                encode_expression(condition),
                Key::Then,
                encode_expression(consequence),
                Key::Else,
                encode_expression(other),
            ),
            None => make_table2(
                Key::If,
                encode_expression(condition),
                Key::Then,
                encode_expression(consequence),
            ),
        },
    }
}

impl Expression {
    /// Writes the expression as a value of a configuration document.
    pub fn encode(&self) -> (r: ConfigValue)
        ensures
            r@ == encode(self@),
    {
        encode_expression(self)
    }
}

/// No string inside the expression is the name of a sensor: such a string
/// would be read back as the sensor.
pub open spec fn plain(e: ExpressionView) -> bool
    decreases e,
{
    match e {
        ExpressionView::Text(s) => Sensor::named(s).is_none(),
        ExpressionView::List(items) => forall|i: int|
            0 <= i < items.len() ==> plain(#[trigger] items[i]),
        ExpressionView::IsAvailable { capability, value } => plain(*value),
        ExpressionView::Numeric { operator, a, b } => plain(*a) && plain(*b),
        ExpressionView::Logic { operator, a, b } => plain(*a) && plain(*b),
        ExpressionView::Equal { a, b, leeway } => plain(*a) && plain(*b) && plain(*leeway),
        ExpressionView::Extreme { extreme, items } => forall|i: int|
            0 <= i < items.len() ==> plain(#[trigger] items[i]),
        ExpressionView::Not { not } => plain(*not),
        ExpressionView::IsUnset { a } => plain(*a),
        ExpressionView::All { all } => forall|i: int|
            0 <= i < all.len() ==> plain(#[trigger] all[i]),
        ExpressionView::Any { any } => forall|i: int|
            0 <= i < any.len() ==> plain(#[trigger] any[i]),
        ExpressionView::IfElse { condition, consequence, alternative } => plain(*condition)
            && plain(*consequence) && match alternative {
            Some(other) => plain(*other),
            None => true,
        },
        _ => true,
    }
}

proof fn lemma_decode_items_plain(items: Seq<ConfigValueView>, i: nat)
    requires
        i <= items.len(),
    ensures
        decode_items(items, i) matches Ok(es) ==> es.len() == items.len() - i && forall|k: int|
            0 <= k < es.len() ==> plain(#[trigger] es[k]),
    decreases items, items.len() - i,
{
    if i < items.len() {
        lemma_decode_plain(items[i as int]);
        lemma_decode_items_plain(items, i + 1);
        if let Ok(es) = decode_items(items, i) {
            let first = decode(items[i as int])->Ok_0;
            let rest = decode_items(items, i + 1)->Ok_0;
            assert forall|k: int| 0 <= k < es.len() implies plain(#[trigger] es[k]) by {
                if k > 0 {
                    assert(es[k] == rest[k - 1]);
                }
            }
        }
    }
}

proof fn lemma_decode_list_plain(value: ConfigValueView)
    ensures
        decode_list(value) matches Ok(es) ==> forall|k: int|
            0 <= k < es.len() ==> plain(#[trigger] es[k]),
    decreases value, 1nat,
{
    if let ConfigValueView::List(items) = value {
        lemma_decode_items_plain(items, 0);
    }
}

proof fn lemma_decode_unary_plain(key: Option<Key>, value: ConfigValueView)
    ensures
        decode_unary(key, value) matches Ok(e) ==> plain(e),
    decreases value, 2nat,
{
    lemma_decode_plain(value);
    lemma_decode_list_plain(value);
}

proof fn lemma_decode_table_plain(entries: Entries)
    ensures
        decode_table(entries) matches Ok(e) ==> plain(e),
    decreases entries, 2nat,
{
    if entries.len() == 1 {
        lemma_decode_unary_plain(Key::named(entries[0].0), entries[0].1);
    } else if entries.len() == 2 || entries.len() == 3 {
        lemma_decode_plain(entries[0].1);
        lemma_decode_plain(entries[1].1);
        if entries.len() == 3 {
            lemma_decode_plain(entries[2].1);
        }
        lemma_find_within(entries, Key::If, 0);
        lemma_find_within(entries, Key::Then, 0);
        lemma_find_within(entries, Key::Else, 0);
        lemma_find_within(entries, Key::Value, 0);
        lemma_find_within(entries, Key::IsEqual, 0);
        lemma_find_within(entries, Key::Leeway, 0);
    }
}

proof fn lemma_find_within(entries: Entries, key: Key, from: nat)
    ensures
        find(entries, key, from) matches Some(i) ==> from <= i < entries.len() && Key::named(
            entries[i].0,
        ) == Some(key),
    decreases entries.len() - from,
{
    if from < entries.len() {
        lemma_find_within(entries, key, from + 1);
    }
}

/// What is read from a document holds no string that names a sensor.
pub proof fn lemma_decode_plain(value: ConfigValueView)
    ensures
        decode(value) matches Ok(e) ==> plain(e),
    decreases value, 0nat,
{
    match value {
        ConfigValueView::List(items) => {
            lemma_decode_items_plain(items, 0);
        },
        ConfigValueView::Table(entries) => {
            lemma_decode_table_plain(entries);
        },
        _ => {},
    }
}

proof fn lemma_table1_decodes(key: Key, value: ConfigValueView)
    ensures
        decode(table1(key, value)) == decode_unary(Some(key), value),
{
    lemma_key_name_round_trip(key);
}

proof fn lemma_table2_operator(key: Key, a: ConfigValueView, b: ConfigValueView)
    ensures
        decode(table2(Key::Value, a, key, b)) == decode_binary(
            Some(key),
            seq![(Key::Value.name(), a), (key.name(), b)],
            0,
            1,
        ),
{
    lemma_key_name_round_trip(Key::Value);
    lemma_key_name_round_trip(key);
}

proof fn lemma_table2_if(c: ConfigValueView, t: ConfigValueView)
    ensures
        decode(table2(Key::If, c, Key::Then, t)) == match decode(c) {
            Err(e) => Err::<ExpressionView, DecodeError>(e),
            Ok(condition) => match decode(t) {
                Err(e) => Err(e),
                Ok(consequence) => Ok(
                    ExpressionView::IfElse {
                        condition: Box::new(condition),
                        consequence: Box::new(consequence),
                        alternative: None,
                    },
                ),
            },
        },
{
    lemma_key_name_round_trip(Key::If);
    lemma_key_name_round_trip(Key::Then);
    let entries = seq![(Key::If.name(), c), (Key::Then.name(), t)];
    assert(find(entries, Key::If, 0) == Some(0int));
    assert(find(entries, Key::Then, 1) == Some(1int));
    assert(find(entries, Key::Then, 0) == Some(1int));
}

proof fn lemma_table3_equal(a: ConfigValueView, b: ConfigValueView, l: ConfigValueView)
    ensures
        decode(table3(Key::Value, a, Key::IsEqual, b, Key::Leeway, l)) == match decode(a) {
            Err(e) => Err::<ExpressionView, DecodeError>(e),
            Ok(x) => match decode(b) {
                Err(e) => Err(e),
                Ok(y) => match decode(l) {
                    Err(e) => Err(e),
                    Ok(z) => Ok(
                        ExpressionView::Equal {
                            a: Box::new(x),
                            b: Box::new(y),
                            leeway: Box::new(z),
                        },
                    ),
                },
            },
        },
{
    lemma_key_name_round_trip(Key::Value);
    lemma_key_name_round_trip(Key::IsEqual);
    lemma_key_name_round_trip(Key::Leeway);
    let entries = seq![(Key::Value.name(), a), (Key::IsEqual.name(), b), (Key::Leeway.name(), l)];
    assert(find(entries, Key::Value, 0) == Some(0int));
    assert(find(entries, Key::IsEqual, 1) == Some(1int));
    assert(find(entries, Key::IsEqual, 0) == Some(1int));
    assert(find(entries, Key::Leeway, 2) == Some(2int));
    assert(find(entries, Key::Leeway, 1) == Some(2int));
    assert(find(entries, Key::Leeway, 0) == Some(2int));
}

proof fn lemma_table3_if(c: ConfigValueView, t: ConfigValueView, o: ConfigValueView)
    ensures
        decode(table3(Key::If, c, Key::Then, t, Key::Else, o)) == match decode(c) {
            Err(e) => Err::<ExpressionView, DecodeError>(e),
            Ok(condition) => match decode(t) {
                Err(e) => Err(e),
                Ok(consequence) => match decode(o) {
                    Err(e) => Err(e),
                    Ok(other) => Ok(
                        ExpressionView::IfElse {
                            condition: Box::new(condition),
                            consequence: Box::new(consequence),
                            alternative: Some(Box::new(other)),
                        },
                    ),
                },
            },
        },
{
    lemma_key_name_round_trip(Key::If);
    lemma_key_name_round_trip(Key::Then);
    lemma_key_name_round_trip(Key::Else);
    let entries = seq![(Key::If.name(), c), (Key::Then.name(), t), (Key::Else.name(), o)];
    assert(find(entries, Key::Value, 3) == None::<int>);
    assert(find(entries, Key::Value, 2) == None::<int>);
    assert(find(entries, Key::Value, 1) == None::<int>);
    assert(find(entries, Key::Value, 0) == None::<int>);
    assert(find(entries, Key::If, 0) == Some(0int));
    assert(find(entries, Key::Then, 1) == Some(1int));
    assert(find(entries, Key::Then, 0) == Some(1int));
    assert(find(entries, Key::Else, 2) == Some(2int));
    assert(find(entries, Key::Else, 1) == Some(2int));
    assert(find(entries, Key::Else, 0) == Some(2int));
}

proof fn lemma_items_round_trip(items: Seq<ExpressionView>, i: nat)
    requires
        i <= items.len(),
        forall|k: int| 0 <= k < items.len() ==> plain(#[trigger] items[k]),
    ensures
        decode_items(encode_items(items, 0), i) == Ok::<Seq<ExpressionView>, DecodeError>(
            items.subrange(i as int, items.len() as int),
        ),
    decreases items, items.len() - i,
{
    lemma_encode_items_index(items, 0);
    let encoded = encode_items(items, 0);
    if i < items.len() {
        assert(encoded[i as int] == encode(items[0int + i as int]));
        assert(items[0int + i as int] == items[i as int]);
        assert(plain(items[i as int]));
        lemma_round_trip(items[i as int]);
        lemma_items_round_trip(items, i + 1);
        assert(seq![items[i as int]] + items.subrange((i + 1) as int, items.len() as int)
            =~= items.subrange(i as int, items.len() as int));
    } else {
        assert(items.subrange(i as int, items.len() as int) =~= Seq::<ExpressionView>::empty());
    }
}

proof fn lemma_list_round_trip(items: Seq<ExpressionView>)
    requires
        forall|k: int| 0 <= k < items.len() ==> plain(#[trigger] items[k]),
    ensures
        decode_list(ConfigValueView::List(encode_items(items, 0))) == Ok::<
            Seq<ExpressionView>,
            DecodeError,
        >(items),
        decode_items(encode_items(items, 0), 0) == Ok::<Seq<ExpressionView>, DecodeError>(items),
    decreases items, items.len() + 1,
{
    lemma_items_round_trip(items, 0);
    assert(items.subrange(0, items.len() as int) =~= items);
}

proof fn lemma_round_trip_operands(e: ExpressionView)
    requires
        plain(e),
        e is Numeric || e is Logic || e is Equal,
    ensures
        decode(encode(e)) == Ok::<ExpressionView, DecodeError>(e),
    decreases e, 0nat,
{
    match e {
        ExpressionView::Numeric { operator, a, b } => {
            lemma_round_trip(*a);
            lemma_round_trip(*b);
            lemma_table2_operator(numeric_key(operator), encode(*a), encode(*b));
        },
        ExpressionView::Logic { operator, a, b } => {
            lemma_round_trip(*a);
            lemma_round_trip(*b);
            lemma_table2_operator(logic_key(operator), encode(*a), encode(*b));
        },
        ExpressionView::Equal { a, b, leeway } => {
            lemma_round_trip(*a);
            lemma_round_trip(*b);
            lemma_round_trip(*leeway);
            lemma_table3_equal(encode(*a), encode(*b), encode(*leeway));
        },
        _ => {},
    }
}

proof fn lemma_round_trip_lists(e: ExpressionView)
    requires
        plain(e),
        e is List || e is Extreme || e is All || e is Any,
    ensures
        decode(encode(e)) == Ok::<ExpressionView, DecodeError>(e),
    decreases e, 0nat,
{
    match e {
        ExpressionView::List(items) => {
            lemma_list_round_trip(items);
        },
        ExpressionView::Extreme { extreme, items } => {
            lemma_list_round_trip(items);
            lemma_table1_decodes(
                extreme_key(extreme),
                ConfigValueView::List(encode_items(items, 0)),
            );
        },
        ExpressionView::All { all } => {
            lemma_list_round_trip(all);
            lemma_table1_decodes(Key::All, ConfigValueView::List(encode_items(all, 0)));
        },
        ExpressionView::Any { any } => {
            lemma_list_round_trip(any);
            lemma_table1_decodes(Key::Any, ConfigValueView::List(encode_items(any, 0)));
        },
        _ => {},
    }
}

proof fn lemma_round_trip_unary(e: ExpressionView)
    requires
        plain(e),
        e is IsAvailable || e is Not || e is IsUnset || e is CpuUsageSince,
    ensures
        decode(encode(e)) == Ok::<ExpressionView, DecodeError>(e),
    decreases e, 0nat,
{
    match e {
        ExpressionView::CpuUsageSince(span) => {
            lemma_table1_decodes(Key::CpuUsageSince, ConfigValueView::Text(span_text(span)));
            lemma_span_round_trip(span);
        },
        ExpressionView::IsAvailable { capability, value } => {
            lemma_round_trip(*value);
            lemma_table1_decodes(capability_key(capability), encode(*value));
        },
        ExpressionView::Not { not } => {
            lemma_round_trip(*not);
            lemma_table1_decodes(Key::Not, encode(*not));
        },
        ExpressionView::IsUnset { a } => {
            lemma_round_trip(*a);
            lemma_table1_decodes(Key::IsUnset, encode(*a));
        },
        _ => {},
    }
}

proof fn lemma_round_trip_if(e: ExpressionView)
    requires
        plain(e),
        e is IfElse,
    ensures
        decode(encode(e)) == Ok::<ExpressionView, DecodeError>(e),
    decreases e, 0nat,
{
    match e {
        ExpressionView::IfElse { condition, consequence, alternative } => {
            lemma_round_trip(*condition);
            lemma_round_trip(*consequence);
            match alternative {
                Some(other) => {
                    lemma_round_trip(*other);
                    lemma_table3_if(encode(*condition), encode(*consequence), encode(*other));
                },
                None => {
                    lemma_table2_if(encode(*condition), encode(*consequence));
                },
            }
        },
        _ => {},
    }
}

/// An expression without a string that names a sensor is read back as it
/// was written.
pub proof fn lemma_round_trip(e: ExpressionView)
    requires
        plain(e),
    ensures
        decode(encode(e)) == Ok::<ExpressionView, DecodeError>(e),
    decreases e, 1nat,
{
    if e is Numeric || e is Logic || e is Equal {
        lemma_round_trip_operands(e);
    } else if e is List || e is Extreme || e is All || e is Any {
        lemma_round_trip_lists(e);
    } else if e is IsAvailable || e is Not || e is IsUnset || e is CpuUsageSince {
        lemma_round_trip_unary(e);
    } else if e is IfElse {
        lemma_round_trip_if(e);
    } else if e is Sensor {
        lemma_sensor_name_round_trip(e->Sensor_0);
    }
}

/// Round trip: an expression that was read from a document, written again
/// and read again, is the expression that was read first.
pub proof fn lemma_expression_round_trip(value: ConfigValueView)
    ensures
        decode(value) matches Ok(e) ==> decode(encode(e)) == Ok::<ExpressionView, DecodeError>(e),
{
    lemma_decode_plain(value);
    if let Ok(e) = decode(value) {
        lemma_round_trip(e);
    }
}

} // verus!
