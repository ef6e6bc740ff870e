//! The evaluator of the expression language.
//!
//! Operands are evaluated from left to right. An operand that fails ends
//! the evaluation with its error. A strict operator that meets an undefined
//! operand is undefined, and the operands after it are not evaluated. Only
//! when every operand has a value are the values' shapes checked.

use vstd::prelude::*;
use crate::expression::{
    arithmetic_outcome, number_or_undefined, outcome_view, views, lemma_list_view, EvalError,
    EvalState, Expression, Extreme, LogicOperator, NumericOperator, Outcome, Value,
    ValueView,
};
use crate::history::usage_since;
use crate::number::{divided, product, raised, stored};

verus! {

/// The outcome of a list of operands: their values, undefined, or an error.
pub type ItemsOutcome = Result<Option<Seq<ValueView>>, EvalError>;

/// `front` before the values of `rest`, where `rest` has values.
pub open spec fn prepend(front: Seq<ValueView>, rest: ItemsOutcome) -> ItemsOutcome {
    match rest {
        Ok(Some(values)) => Ok(Some(front + values)),
        other => other,
    }
}

/// A numeric operator applied to two values.
pub open spec fn apply_numeric(operator: NumericOperator, a: ValueView, b: ValueView) -> Outcome {
    match a.number() {
        Err(e) => Err(e),
        Ok(x) => match b.number() {
            Err(e) => Err(e),
            Ok(y) => match operator {
                NumericOperator::Plus => arithmetic_outcome(stored(x + y)),
                NumericOperator::Minus => arithmetic_outcome(stored(x - y)),
                NumericOperator::Multiply => arithmetic_outcome(stored(product(x, y))),
                NumericOperator::Divide => arithmetic_outcome(divided(x, y)),
                NumericOperator::Power => arithmetic_outcome(raised(x, y)),
                NumericOperator::IsLessThan => Ok(Some(ValueView::Boolean(x < y))),
                NumericOperator::IsMoreThan => Ok(Some(ValueView::Boolean(x > y))),
            },
        },
    }
}

/// A logic operator applied to two values.
pub open spec fn apply_logic(operator: LogicOperator, a: ValueView, b: ValueView) -> Outcome {
    match a.boolean() {
        Err(e) => Err(e),
        Ok(x) => match b.boolean() {
            Err(e) => Err(e),
            Ok(y) => match operator {
                LogicOperator::And => Ok(Some(ValueView::Boolean(x && y))),
                LogicOperator::Or => Ok(Some(ValueView::Boolean(x || y))),
            },
        },
    }
}

/// `b` lies strictly between `a - leeway` and `a + leeway`.
pub open spec fn within_leeway(a: int, b: int, leeway: int) -> bool {
    a - leeway < b && b < a + leeway
}

/// `equal` applied to three values.
pub open spec fn apply_equal(a: ValueView, b: ValueView, leeway: ValueView) -> Outcome {
    match a.number() {
        Err(e) => Err(e),
        Ok(x) => match b.number() {
            Err(e) => Err(e),
            Ok(y) => match leeway.number() {
                Err(e) => Err(e),
                Ok(l) => Ok(Some(ValueView::Boolean(within_leeway(x, y, l)))),
            },
        },
    }
}

/// `not` applied to a value.
pub open spec fn apply_not(a: ValueView) -> Outcome {
    match a.boolean() {
        Err(e) => Err(e),
        Ok(x) => Ok(Some(ValueView::Boolean(!x))),
    }
}

/// The one of `best` and `x` that `extreme` asks for.
pub open spec fn pick(extreme: Extreme, best: int, x: int) -> int {
    match extreme {
        Extreme::Minimum => if x < best {
            x
        } else {
            best
        },
        Extreme::Maximum => if x > best {
            x
        } else {
            best
        },
    }
}

/// The extreme of `best` and the numbers of `values` from `i` on; a type
/// error at the first value that is no number.
pub open spec fn extreme_from(extreme: Extreme, values: Seq<ValueView>, i: nat, best: int) -> Outcome
    decreases values.len() - i,
{
    if i >= values.len() {
        Ok(Some(ValueView::Number(best)))
    } else {
        match values[i as int].number() {
            Err(e) => Err(e),
            Ok(x) => extreme_from(extreme, values, i + 1, pick(extreme, best, x)),
        }
    }
}

/// The extreme of a list of values, of which there must be one at least.
pub open spec fn extreme_of(extreme: Extreme, values: Seq<ValueView>) -> Outcome {
    if values.len() == 0 {
        Err(EvalError::EmptyList)
    } else {
        match values[0].number() {
            Err(e) => Err(e),
            Ok(x) => extreme_from(extreme, values, 1, x),
        }
    }
}

/// The values of the operands `items` from `i` on, evaluated from left to
/// right up to the first that is undefined or fails.
pub open spec fn evaluate_items(items: Seq<Expression>, i: nat, state: EvalState) -> ItemsOutcome
    decreases items, items.len() - i,
{
    if i >= items.len() {
        Ok(Some(Seq::empty()))
    } else {
        match evaluate(items[i as int], state) {
            Err(e) => Err(e),
            Ok(None) => Ok(None),
            Ok(Some(v)) => prepend(seq![v], evaluate_items(items, i + 1, state)),
        }
    }
}

/// `all` (`stop` is `false`) or `any` (`stop` is `true`) over the operands
/// `items` from `i` on: evaluation stops at the first operand that is
/// undefined, fails, is no boolean, or equals `stop`.
pub open spec fn evaluate_junction(items: Seq<Expression>, i: nat, state: EvalState, stop: bool) -> Outcome
    decreases items, items.len() - i,
{
    if i >= items.len() {
        Ok(Some(ValueView::Boolean(!stop)))
    } else {
        match evaluate(items[i as int], state) {
            Err(e) => Err(e),
            Ok(None) => Ok(None),
            Ok(Some(v)) => match v.boolean() {
                Err(e) => Err(e),
                Ok(b) => if b == stop {
                    Ok(Some(ValueView::Boolean(stop)))
                } else {
                    evaluate_junction(items, i + 1, state, stop)
                },
            },
        }
    }
}

/// What `e` evaluates to in `state`.
pub open spec fn evaluate(e: Expression, state: EvalState) -> Outcome
    decreases e, 0nat,
{
    match e {
        Expression::Boolean(b) => Ok(Some(ValueView::Boolean(b))),
        Expression::Number(n) => Ok(Some(ValueView::Number(n@))),
        Expression::Text(s) => Ok(Some(ValueView::Text(s@))),
        Expression::List(items) => match evaluate_items(items@, 0, state) {
            Err(e) => Err(e),
            Ok(None) => Ok(None),
            Ok(Some(values)) => Ok(Some(ValueView::List(values))),
        },
        Expression::Sensor(sensor) => state.sensor_outcome(sensor),
        Expression::CpuUsageSince(span) => number_or_undefined(
            usage_since(state.history.cpu_samples(), state.now as int, span.millis_spec()),
        ),
        Expression::IsAvailable { capability, value } => match evaluate(*value, state) {
            Err(e) => Err(e),
            Ok(None) => Ok(None),
            Ok(Some(v)) => match v.text() {
                Err(e) => Err(e),
                Ok(name) => Ok(Some(ValueView::Boolean(state.offers(capability, name)))),
            },
        },
        Expression::Numeric { operator, a, b } => match evaluate(*a, state) {
            Err(e) => Err(e),
            Ok(None) => Ok(None),
            Ok(Some(va)) => match evaluate(*b, state) {
                Err(e) => Err(e),
                Ok(None) => Ok(None),
                Ok(Some(vb)) => apply_numeric(operator, va, vb),
            },
        },
        Expression::Logic { operator, a, b } => match evaluate(*a, state) {
            Err(e) => Err(e),
            Ok(None) => Ok(None),
            Ok(Some(va)) => match evaluate(*b, state) {
                Err(e) => Err(e),
                Ok(None) => Ok(None),
                Ok(Some(vb)) => apply_logic(operator, va, vb),
            },
        },
        Expression::Equal { a, b, leeway } => match evaluate(*a, state) {
            Err(e) => Err(e),
            Ok(None) => Ok(None),
            Ok(Some(va)) => match evaluate(*b, state) {
                Err(e) => Err(e),
                Ok(None) => Ok(None),
                Ok(Some(vb)) => match evaluate(*leeway, state) {
                    Err(e) => Err(e),
                    Ok(None) => Ok(None),
                    Ok(Some(vl)) => apply_equal(va, vb, vl),
                },
            },
        },
        Expression::Extreme { extreme, items } => match evaluate_items(items@, 0, state) {
            Err(e) => Err(e),
            Ok(None) => Ok(None),
            Ok(Some(values)) => extreme_of(extreme, values),
        },
        Expression::Not { not } => match evaluate(*not, state) {
            Err(e) => Err(e),
            Ok(None) => Ok(None),
            Ok(Some(v)) => apply_not(v),
        },
        Expression::IsUnset { a } => match evaluate(*a, state) {
            Err(e) => Err(e),
            Ok(None) => Ok(Some(ValueView::Boolean(true))),
            Ok(Some(_)) => Ok(Some(ValueView::Boolean(false))),
        },
        Expression::All { all } => evaluate_junction(all@, 0, state, false),
        Expression::Any { any } => evaluate_junction(any@, 0, state, true),
        Expression::IfElse { condition, consequence, alternative } => match evaluate(
            *condition,
            state,
        ) {
            Err(e) => Err(e),
            Ok(None) => Ok(None),
            Ok(Some(c)) => match c.boolean() {
                Err(e) => Err(e),
                Ok(true) => evaluate(*consequence, state),
                Ok(false) => match alternative {
                    Some(other) => evaluate(*other, state),
                    None => Ok(None),
                },
            },
        },
    }
}

fn numeric(operator: NumericOperator, a: &Value, b: &Value) -> (r: Result<Option<Value>, EvalError>)
    ensures
        outcome_view(r) == apply_numeric(operator, a@, b@),
{
    let x = match a.try_into_number() {
        Ok(x) => x,
        Err(e) => {
            return Err(e);
        },
    };
    let y = match b.try_into_number() {
        Ok(y) => y,
        Err(e) => {
            return Err(e);
        },
    };
    let computed = match operator {
        NumericOperator::Plus => x.plus(y),
        NumericOperator::Minus => x.minus(y),
        NumericOperator::Multiply => x.times(y),
        NumericOperator::Divide => x.over(y),
        NumericOperator::Power => x.raised_to(y),
        NumericOperator::IsLessThan => {
            return Ok(Some(Value::Boolean(x.less_than(y))));
        },
        NumericOperator::IsMoreThan => {
            return Ok(Some(Value::Boolean(x.more_than(y))));
        },
    };
    match computed {
        Ok(n) => Ok(Some(Value::Number(n))),
        Err(e) => Err(EvalError::Arithmetic(e)),
    }
}

fn logic(operator: LogicOperator, a: &Value, b: &Value) -> (r: Result<Option<Value>, EvalError>)
    ensures
        outcome_view(r) == apply_logic(operator, a@, b@),
{
    let x = match a.try_into_boolean() {
        Ok(x) => x,
        Err(e) => {
            return Err(e);
        },
    };
    let y = match b.try_into_boolean() {
        Ok(y) => y,
        Err(e) => {
            return Err(e);
        },
    };
    match operator {
        LogicOperator::And => Ok(Some(Value::Boolean(x && y))),
        LogicOperator::Or => Ok(Some(Value::Boolean(x || y))),
    }
}

fn equal(a: &Value, b: &Value, leeway: &Value) -> (r: Result<Option<Value>, EvalError>)
    ensures
        outcome_view(r) == apply_equal(a@, b@, leeway@),
{
    let x = match a.try_into_number() {
        Ok(x) => x,
        Err(e) => {
            return Err(e);
        },
    };
    let y = match b.try_into_number() {
        Ok(y) => y,
        Err(e) => {
            return Err(e);
        },
    };
    let l = match leeway.try_into_number() {
        Ok(l) => l,
        Err(e) => {
            return Err(e);
        },
    };
    let wide_a: i128 = x.micros as i128;
    let wide_b: i128 = y.micros as i128;
    let wide_l: i128 = l.micros as i128;
    Ok(Some(Value::Boolean(wide_a - wide_l < wide_b && wide_b < wide_a + wide_l)))
}

fn extreme_value(extreme: Extreme, values: &Vec<Value>) -> (r: Result<Option<Value>, EvalError>)
    ensures
        outcome_view(r) == extreme_of(extreme, views(values@)),
{
    if values.len() == 0 {
        return Err(EvalError::EmptyList);
    }
    let mut best = match values[0].try_into_number() {
        Ok(x) => x,
        Err(e) => {
            return Err(e);
        },
    };
    let mut i: usize = 1;
    while i < values.len()
        invariant
            1 <= i <= values@.len(),
            extreme_of(extreme, views(values@)) == extreme_from(
                extreme,
                views(values@),
                i as nat,
                best@,
            ),
        decreases values.len() - i,
    {
        let x = match values[i].try_into_number() {
            Ok(x) => x,
            Err(e) => {
                return Err(e);
            },
        };
        match extreme {
            Extreme::Minimum => {
                if x.less_than(best) {
                    best = x;
                }
            },
            Extreme::Maximum => {
                if x.more_than(best) {
                    best = x;
                }
            },
        }
        i += 1;
    }
    Ok(Some(Value::Number(best)))
}

fn eval_items(items: &Vec<Expression>, state: &EvalState) -> (r: Result<Option<Vec<Value>>, EvalError>)
    requires
        state.wf(),
    ensures
        match r {
            Ok(Some(values)) => evaluate_items(items@, 0, *state) == Ok::<
                Option<Seq<ValueView>>,
                EvalError,
            >(Some(views(values@))),
            Ok(None) => evaluate_items(items@, 0, *state) == Ok::<
                Option<Seq<ValueView>>,
                EvalError,
            >(None),
            Err(e) => evaluate_items(items@, 0, *state) == Err::<
                Option<Seq<ValueView>>,
                EvalError,
            >(e),
        },
    decreases items, 2nat,
{
    let mut out: Vec<Value> = Vec::new();
    let mut i: usize = 0;
    assert(views(out@) + Seq::<ValueView>::empty() =~= views(out@));
    while i < items.len()
        invariant
            i <= items@.len(),
            state.wf(),
            evaluate_items(items@, 0, *state) == prepend(
                views(out@),
                evaluate_items(items@, i as nat, *state),
            ),
        decreases items.len() - i,
    {
        match items[i].eval(state) {
            Err(e) => {
                return Err(e);
            },
            Ok(None) => {
                return Ok(None);
            },
            Ok(Some(v)) => {
                let ghost before = views(out@);
                let ghost rest = evaluate_items(items@, (i + 1) as nat, *state);
                out.push(v);
                proof {
                    assert(views(out@) =~= before + seq![v@]);
                    match rest {
                        Ok(Some(values)) => {
                            assert(before + (seq![v@] + values) =~= (before + seq![v@]) + values);
                        },
                        _ => {},
                    }
                }
            },
        }
        i += 1;
    }
    assert(views(out@) + Seq::<ValueView>::empty() =~= views(out@));
    Ok(Some(out))
}

fn eval_junction(items: &Vec<Expression>, state: &EvalState, stop: bool) -> (r: Result<
    Option<Value>,
    EvalError,
>)
    requires
        state.wf(),
    ensures
        outcome_view(r) == evaluate_junction(items@, 0, *state, stop),
    decreases items, 2nat,
{
    let mut i: usize = 0;
    while i < items.len()
        invariant
            i <= items@.len(),
            state.wf(),
            evaluate_junction(items@, 0, *state, stop) == evaluate_junction(
                items@,
                i as nat,
                *state,
                stop,
            ),
        decreases items.len() - i,
    {
        match items[i].eval(state) {
            Err(e) => {
                return Err(e);
            },
            Ok(None) => {
                return Ok(None);
            },
            Ok(Some(v)) => match v.try_into_boolean() {
                Err(e) => {
                    return Err(e);
                },
                Ok(b) => {
                    if b == stop {
                        return Ok(Some(Value::Boolean(stop)));
                    }
                },
            },
        }
        i += 1;
    }
    Ok(Some(Value::Boolean(!stop)))
}

impl Expression {
    fn eval_availability(&self, state: &EvalState) -> (r: Result<Option<Value>, EvalError>)
        requires
            state.wf(),
            self is IsAvailable,
        ensures
            outcome_view(r) == evaluate(*self, *state),
        decreases self, 0nat,
    {
        match self {
            Expression::IsAvailable { capability, value } => {
                let v = match value.eval(state) {
                    Err(e) => {
                        return Err(e);
                    },
                    Ok(None) => {
                        return Ok(None);
                    },
                    Ok(Some(v)) => v,
                };
                match v.try_into_string() {
                    Err(e) => Err(e),
                    Ok(name) => Ok(Some(Value::Boolean(state.is_available(*capability, name)))),
                }
            },
            _ => Ok(None),
        }
    }

    fn eval_numeric(&self, state: &EvalState) -> (r: Result<Option<Value>, EvalError>)
        requires
            state.wf(),
            self is Numeric,
        ensures
            outcome_view(r) == evaluate(*self, *state),
        decreases self, 0nat,
    {
        match self {
            Expression::Numeric { operator, a, b } => {
                let va = match a.eval(state) {
                    Err(e) => {
                        return Err(e);
                    },
                    Ok(None) => {
                        return Ok(None);
                    },
                    Ok(Some(v)) => v,
                };
                let vb = match b.eval(state) {
                    Err(e) => {
                        return Err(e);
                    },
                    Ok(None) => {
                        return Ok(None);
                    },
                    Ok(Some(v)) => v,
                };
                numeric(*operator, &va, &vb)
            },
            _ => Ok(None),
        }
    }

    fn eval_logic(&self, state: &EvalState) -> (r: Result<Option<Value>, EvalError>)
        requires
            state.wf(),
            self is Logic,
        ensures
            outcome_view(r) == evaluate(*self, *state),
        decreases self, 0nat,
    {
        match self {
            Expression::Logic { operator, a, b } => {
                let va = match a.eval(state) {
                    Err(e) => {
                        return Err(e);
                    },
                    Ok(None) => {
                        return Ok(None);
                    },
                    Ok(Some(v)) => v,
                };
                let vb = match b.eval(state) {
                    Err(e) => {
                        return Err(e);
                    },
                    Ok(None) => {
                        return Ok(None);
                    },
                    Ok(Some(v)) => v,
                };
                logic(*operator, &va, &vb)
            },
            _ => Ok(None),
        }
    }

    fn eval_equal(&self, state: &EvalState) -> (r: Result<Option<Value>, EvalError>)
        requires
            state.wf(),
            self is Equal,
        ensures
            outcome_view(r) == evaluate(*self, *state),
        decreases self, 0nat,
    {
        match self {
            Expression::Equal { a, b, leeway } => {
                let va = match a.eval(state) {
                    Err(e) => {
                        return Err(e);
                    },
                    Ok(None) => {
                        return Ok(None);
                    },
                    Ok(Some(v)) => v,
                };
                let vb = match b.eval(state) {
                    Err(e) => {
                        return Err(e);
                    },
                    Ok(None) => {
                        return Ok(None);
                    },
                    Ok(Some(v)) => v,
                };
                let vl = match leeway.eval(state) {
                    Err(e) => {
                        return Err(e);
                    },
                    Ok(None) => {
                        return Ok(None);
                    },
                    Ok(Some(v)) => v,
                };
                equal(&va, &vb, &vl)
            },
            _ => Ok(None),
        }
    }

    fn eval_if_else(&self, state: &EvalState) -> (r: Result<Option<Value>, EvalError>)
        requires
            state.wf(),
            self is IfElse,
        ensures
            outcome_view(r) == evaluate(*self, *state),
        decreases self, 0nat,
    {
        match self {
            Expression::IfElse { condition, consequence, alternative } => {
                let c = match condition.eval(state) {
                    Err(e) => {
                        return Err(e);
                    },
                    Ok(None) => {
                        return Ok(None);
                    },
                    Ok(Some(v)) => v,
                };
                match c.try_into_boolean() {
                    Err(e) => Err(e),
                    Ok(true) => consequence.eval(state),
                    Ok(false) => match alternative {
                        Some(other) => other.eval(state),
                        None => Ok(None),
                    },
                }
            },
            _ => Ok(None),
        }
    }

    fn eval_list(&self, state: &EvalState) -> (r: Result<Option<Value>, EvalError>)
        requires
            state.wf(),
            self is List || self is Extreme,
        ensures
            outcome_view(r) == evaluate(*self, *state),
        decreases self, 0nat,
    {
        match self {
            Expression::List(items) => match eval_items(items, state) {
                Err(e) => Err(e),
                Ok(None) => Ok(None),
                Ok(Some(values)) => {
                    proof {
                        lemma_list_view(values);
                    }
                    Ok(Some(Value::List(values)))
                },
            },
            Expression::Extreme { extreme, items } => match eval_items(items, state) {
                Err(e) => Err(e),
                Ok(None) => Ok(None),
                Ok(Some(values)) => extreme_value(*extreme, &values),
            },
            _ => Ok(None),
        }
    }

    fn eval_unary(&self, state: &EvalState) -> (r: Result<Option<Value>, EvalError>)
        requires
            state.wf(),
            self is Not || self is IsUnset,
        ensures
            outcome_view(r) == evaluate(*self, *state),
        decreases self, 0nat,
    {
        match self {
            Expression::Not { not } => match not.eval(state) {
                Err(e) => Err(e),
                Ok(None) => Ok(None),
                Ok(Some(v)) => match v.try_into_boolean() {
                    Err(e) => Err(e),
                    Ok(b) => Ok(Some(Value::Boolean(!b))),
                },
            },
            Expression::IsUnset { a } => match a.eval(state) {
                Err(e) => Err(e),
                Ok(None) => Ok(Some(Value::Boolean(true))),
                Ok(Some(_)) => Ok(Some(Value::Boolean(false))),
            },
            _ => Ok(None),
        }
    }

    /// Evaluates the expression against `state`: `Ok(Some(..))` is a value,
    /// `Ok(None)` is undefined.
    pub fn eval(&self, state: &EvalState) -> (r: Result<Option<Value>, EvalError>)
        requires
            state.wf(),
        ensures
            outcome_view(r) == evaluate(*self, *state),
        decreases self, 1nat,
    {
        match self {
            Expression::Boolean(b) => Ok(Some(Value::Boolean(*b))),
            Expression::Number(n) => Ok(Some(Value::Number(*n))),
            Expression::Text(s) => Ok(Some(Value::Text(s.clone()))),
            Expression::Sensor(sensor) => state.read(*sensor),
            Expression::CpuUsageSince(span) => {
                match state.history.cpu_usage_since(state.now, span.millis()) {
                    Some(x) => Ok(Some(Value::Number(x))),
                    None => Ok(None),
                }
            },
            Expression::List(_) => self.eval_list(state),
            Expression::Extreme { .. } => self.eval_list(state),
            Expression::IsAvailable { .. } => self.eval_availability(state),
            Expression::Numeric { .. } => self.eval_numeric(state),
            Expression::Logic { .. } => self.eval_logic(state),
            Expression::Equal { .. } => self.eval_equal(state),
            Expression::Not { .. } => self.eval_unary(state),
            Expression::IsUnset { .. } => self.eval_unary(state),
            Expression::All { all } => eval_junction(all, state, false),
            Expression::Any { any } => eval_junction(any, state, true),
            Expression::IfElse { .. } => self.eval_if_else(state),
        }
    }
}

/// The operands that the operator at the root of `e` is strict in: none
/// for a literal, a sensor, `is-unset`, `all` and `any`; the condition alone
/// for `if`.
pub open spec fn strict_operands(e: Expression) -> Seq<Expression> {
    match e {
        Expression::List(items) => items@,
        Expression::IsAvailable { capability, value } => seq![*value],
        Expression::Numeric { operator, a, b } => seq![*a, *b],
        Expression::Logic { operator, a, b } => seq![*a, *b],
        Expression::Equal { a, b, leeway } => seq![*a, *b, *leeway],
        Expression::Extreme { extreme, items } => items@,
        Expression::Not { not } => seq![*not],
        Expression::IfElse { condition, consequence, alternative } => seq![*condition],
        _ => Seq::empty(),
    }
}

proof fn lemma_items_undefined(items: Seq<Expression>, i: nat, k: int, state: EvalState)
    requires
        i <= k < items.len(),
        forall|j: int| 0 <= j < items.len() ==> (#[trigger] evaluate(items[j], state)) is Ok,
        evaluate(items[k], state) == Ok::<Option<ValueView>, EvalError>(None),
    ensures
        evaluate_items(items, i, state) == Ok::<Option<Seq<ValueView>>, EvalError>(None),
    decreases k - i,
{
    if i < k {
        lemma_items_undefined(items, i + 1, k, state);
        assert(evaluate(items[i as int], state) is Ok);
    }
}

proof fn lemma_two_operands_undefined(e: Expression, state: EvalState)
    requires
        e is Numeric || e is Logic,
        strict_operands(e).len() == 2,
        evaluate(strict_operands(e)[0], state) is Ok,
        evaluate(strict_operands(e)[1], state) is Ok,
        evaluate(strict_operands(e)[0], state) == Ok::<Option<ValueView>, EvalError>(None)
            || evaluate(strict_operands(e)[1], state) == Ok::<Option<ValueView>, EvalError>(None),
    ensures
        evaluate(e, state) == Ok::<Option<ValueView>, EvalError>(None),
{
}

proof fn lemma_three_operands_undefined(e: Expression, state: EvalState)
    requires
        e is Equal,
        evaluate(strict_operands(e)[0], state) is Ok,
        evaluate(strict_operands(e)[1], state) is Ok,
        evaluate(strict_operands(e)[2], state) is Ok,
        evaluate(strict_operands(e)[0], state) == Ok::<Option<ValueView>, EvalError>(None)
            || evaluate(strict_operands(e)[1], state) == Ok::<Option<ValueView>, EvalError>(None)
            || evaluate(strict_operands(e)[2], state) == Ok::<Option<ValueView>, EvalError>(None),
    ensures
        evaluate(e, state) == Ok::<Option<ValueView>, EvalError>(None),
{
}

proof fn lemma_one_operand_undefined(e: Expression, state: EvalState)
    requires
        e is Not || e is IsAvailable || e is IfElse,
        evaluate(strict_operands(e)[0], state) == Ok::<Option<ValueView>, EvalError>(None),
    ensures
        evaluate(e, state) == Ok::<Option<ValueView>, EvalError>(None),
{
}

proof fn lemma_list_undefined(e: Expression, k: int, state: EvalState)
    requires
        e is List || e is Extreme,
        0 <= k < strict_operands(e).len(),
        forall|j: int|
            0 <= j < strict_operands(e).len() ==> (#[trigger] evaluate(
                strict_operands(e)[j],
                state,
            )) is Ok,
        evaluate(strict_operands(e)[k], state) == Ok::<Option<ValueView>, EvalError>(None),
    ensures
        evaluate(e, state) == Ok::<Option<ValueView>, EvalError>(None),
{
    lemma_items_undefined(strict_operands(e), 0, k, state);
}

/// Strictness: where no operand of a strict operator fails and one of them
/// is undefined, the whole expression is undefined.
pub proof fn lemma_strict_operator_undefined(e: Expression, state: EvalState)
    requires
        forall|i: int|
            0 <= i < strict_operands(e).len() ==> (#[trigger] evaluate(
                strict_operands(e)[i],
                state,
            )) is Ok,
        exists|i: int|
            0 <= i < strict_operands(e).len() && #[trigger] evaluate(strict_operands(e)[i], state)
                == Ok::<Option<ValueView>, EvalError>(None),
    ensures
        evaluate(e, state) == Ok::<Option<ValueView>, EvalError>(None),
{
    let operands = strict_operands(e);
    let k = choose|i: int|
        0 <= i < operands.len() && #[trigger] evaluate(operands[i], state) == Ok::<
            Option<ValueView>,
            EvalError,
        >(None);
    if e is List || e is Extreme {
        lemma_list_undefined(e, k, state);
    } else if e is Numeric || e is Logic {
        assert(evaluate(operands[0], state) is Ok);
        assert(evaluate(operands[1], state) is Ok);
        lemma_two_operands_undefined(e, state);
    } else if e is Equal {
        assert(evaluate(operands[0], state) is Ok);
        assert(evaluate(operands[1], state) is Ok);
        assert(evaluate(operands[2], state) is Ok);
        lemma_three_operands_undefined(e, state);
    } else if e is Not || e is IsAvailable || e is IfElse {
        lemma_one_operand_undefined(e, state);
    }
}

/// `is-unset` catches undefined: where its operand does not fail, it is
/// `true` exactly when the operand is undefined, and `false` otherwise.
pub proof fn lemma_is_unset(e: Expression, state: EvalState)
    requires
        e is IsUnset,
        evaluate(*e->IsUnset_a, state) is Ok,
    ensures
        evaluate(e, state) == Ok::<Option<ValueView>, EvalError>(
            Some(
                ValueView::Boolean(
                    evaluate(*e->IsUnset_a, state) == Ok::<Option<ValueView>, EvalError>(None),
                ),
            ),
        ),
{
}

/// `equal` on three numbers is `a - leeway < b < a + leeway`, with strict
/// inequalities: a `b` on either boundary is not equal.
pub proof fn lemma_equal_is_strict_interval(e: Expression, state: EvalState, a: int, b: int, leeway: int)
    requires
        e is Equal,
        evaluate(*e->Equal_a, state) == Ok::<Option<ValueView>, EvalError>(
            Some(ValueView::Number(a)),
        ),
        evaluate(*e->Equal_b, state) == Ok::<Option<ValueView>, EvalError>(
            Some(ValueView::Number(b)),
        ),
        evaluate(*e->leeway, state) == Ok::<Option<ValueView>, EvalError>(
            Some(ValueView::Number(leeway)),
        ),
    ensures
        evaluate(e, state) == Ok::<Option<ValueView>, EvalError>(
            Some(ValueView::Boolean(a - leeway < b && b < a + leeway)),
        ),
        b == a - leeway || b == a + leeway ==> evaluate(e, state) == Ok::<
            Option<ValueView>,
            EvalError,
        >(Some(ValueView::Boolean(false))),
{
}

} // verus!
