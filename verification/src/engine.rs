//! The rule engine: folding the rules, highest priority first, into one
//! delta per CPU, one per power supply, and the two settings of the system.
//!
//! A delta that already holds a setting keeps it, so a rule of higher
//! priority wins and rules of lower priority fill the gaps. The fold ends
//! early once nothing is left to fill.

use vstd::prelude::*;
use crate::config::{
    boolean_setting, cpu_delta_of, eval_boolean_setting, eval_text_setting, power_delta_of,
    priorities, text_setting, CpuDeltaSpec, DaemonConfig, PowerDeltaSpec, Rule, RuleError,
};
use crate::cpu::Cpu;
use crate::delta::{
    lemma_cpu_merge_keeps, lemma_cpu_merge_monoid, or_else, text_view, CpuDelta, CpuDeltaView,
    PowerDelta,
};
use crate::eval::evaluate;
use crate::expression::{views, EvalContext, EvalError, EvalState, Value, ValueView};
use crate::number::SCALE;
use crate::power_supply::PowerSupply;

verus! {

/// What the rules decide for one tick.
#[derive(Debug, PartialEq, Eq)]
pub struct Decision {
    /// One delta for each CPU of the state, in the state's order.
    pub cpus: Vec<CpuDelta>,
    /// One delta for each power supply of the state, in the state's order.
    pub power_supplies: Vec<PowerDelta>,
    pub turbo: Option<bool>,
    pub platform_profile: Option<String>,
    /// A frequency with a fraction was rounded to whole megahertz.
    pub frequency_rounded: bool,
}

/// The mathematical content of a [`Decision`].
pub struct DecisionView {
    pub cpus: Seq<CpuDeltaView>,
    pub power_supplies: Seq<PowerDelta>,
    pub turbo: Option<bool>,
    pub platform_profile: Option<Seq<char>>,
    pub frequency_rounded: bool,
}

/// The views of `deltas`, in order.
pub open spec fn delta_views(deltas: Seq<CpuDelta>) -> Seq<CpuDeltaView> {
    deltas.map_values(|d: CpuDelta| d@)
}

impl View for Decision {
    type V = DecisionView;

    open spec fn view(&self) -> DecisionView {
        DecisionView {
            cpus: delta_views(self.cpus@),
            power_supplies: self.power_supplies@,
            turbo: self.turbo,
            platform_profile: text_view(self.platform_profile),
            frequency_rounded: self.frequency_rounded,
        }
    }
}

impl DecisionView {
    /// The decision that sets nothing for `cpus` CPUs and `supplies` power
    /// supplies.
    pub open spec fn initial(cpus: nat, supplies: nat) -> DecisionView {
        DecisionView {
            cpus: Seq::new(cpus, |i: int| CpuDeltaView::empty()),
            power_supplies: Seq::new(supplies, |i: int| PowerDelta::empty()),
            turbo: None,
            platform_profile: None,
            frequency_rounded: false,
        }
    }

    /// Nothing is left to fill: every CPU's delta is saturated, so is the
    /// delta of every power supply that takes thresholds, and both settings
    /// of the system are present.
    pub open spec fn is_saturated(self, supplies: Seq<PowerSupply>) -> bool {
        &&& forall|i: int| 0 <= i < self.cpus.len() ==> (#[trigger] self.cpus[i]).is_saturated()
        &&& forall|i: int|
            0 <= i < self.power_supplies.len() && i < supplies.len()
                && supplies[i].threshold_config.is_some()
                ==> (#[trigger] self.power_supplies[i]).saturated()
        &&& self.turbo.is_some()
        &&& self.platform_profile.is_some()
    }
}

/// The position of the first CPU numbered `number`, from `from` on.
pub open spec fn cpu_position(cpus: Seq<Cpu>, number: int, from: nat) -> Option<usize>
    decreases cpus.len() - from,
{
    if from >= cpus.len() {
        None
    } else if cpus[from as int].number == number {
        Some(from as usize)
    } else {
        cpu_position(cpus, number, from + 1)
    }
}

/// The position of the first power supply named `name`, from `from` on.
pub open spec fn supply_position(supplies: Seq<PowerSupply>, name: Seq<char>, from: nat) -> Option<
    usize,
>
    decreases supplies.len() - from,
{
    if from >= supplies.len() {
        None
    } else if supplies[from as int].name@ == name {
        Some(from as usize)
    } else {
        supply_position(supplies, name, from + 1)
    }
}

/// The CPU that a value of a `for` list names.
pub open spec fn cpu_target(v: ValueView, cpus: Seq<Cpu>) -> Result<usize, RuleError> {
    match v.number() {
        Err(e) => Err(RuleError::Eval(e)),
        Ok(n) => if n % (SCALE as int) != 0 || n < 0 || n / (SCALE as int) > u32::MAX {
            Err(RuleError::InvalidCpuNumber)
        } else {
            match cpu_position(cpus, n / (SCALE as int), 0) {
                Some(i) => Ok(i),
                None => Err(RuleError::UnknownCpu),
            }
        },
    }
}

/// The power supply that a value of a `for` list names.
pub open spec fn supply_target(v: ValueView, supplies: Seq<PowerSupply>) -> Result<
    usize,
    RuleError,
> {
    match v.text() {
        Err(e) => Err(RuleError::Eval(e)),
        Ok(name) => match supply_position(supplies, name, 0) {
            Some(i) => Ok(i),
            None => Err(RuleError::UnknownPowerSupply),
        },
    }
}

/// `front` before the targets of `rest`, where `rest` has targets.
pub open spec fn before_targets(front: Seq<usize>, rest: Result<Seq<usize>, RuleError>) -> Result<
    Seq<usize>,
    RuleError,
> {
    match rest {
        Ok(targets) => Ok(front + targets),
        Err(e) => Err(e),
    }
}

/// The CPUs that the values from `i` on name; the first value that names
/// none is the failure.
pub open spec fn cpu_targets_from(values: Seq<ValueView>, cpus: Seq<Cpu>, i: nat) -> Result<
    Seq<usize>,
    RuleError,
>
    decreases values.len() - i,
{
    if i >= values.len() {
        Ok(Seq::empty())
    } else {
        match cpu_target(values[i as int], cpus) {
            Err(e) => Err(e),
            Ok(t) => before_targets(seq![t], cpu_targets_from(values, cpus, i + 1)),
        }
    }
}

/// The power supplies that the values from `i` on name.
pub open spec fn supply_targets_from(
    values: Seq<ValueView>,
    supplies: Seq<PowerSupply>,
    i: nat,
) -> Result<Seq<usize>, RuleError>
    decreases values.len() - i,
{
    if i >= values.len() {
        Ok(Seq::empty())
    } else {
        match supply_target(values[i as int], supplies) {
            Err(e) => Err(e),
            Ok(t) => before_targets(seq![t], supply_targets_from(values, supplies, i + 1)),
        }
    }
}

/// The positions of the power supplies from `i` on that take thresholds.
pub open spec fn threshold_supplies(supplies: Seq<PowerSupply>, i: nat) -> Seq<usize>
    decreases supplies.len() - i,
{
    if i >= supplies.len() {
        Seq::empty()
    } else if supplies[i as int].threshold_config.is_some() {
        seq![i as usize] + threshold_supplies(supplies, i + 1)
    } else {
        threshold_supplies(supplies, i + 1)
    }
}

/// The CPUs that a rule changes: those its `for` list names, or all.
pub open spec fn cpu_targets(spec: CpuDeltaSpec, state: EvalState) -> Result<Seq<usize>, RuleError> {
    match spec.for_ {
        None => Ok(Seq::new(state.cpus@.len(), |i: int| i as usize)),
        Some(e) => match evaluate(e, state) {
            Err(err) => Err(RuleError::Eval(err)),
            Ok(None) => Err(RuleError::UndefinedTargets),
            Ok(Some(v)) => match v.list() {
                Err(err) => Err(RuleError::Eval(err)),
                Ok(values) => cpu_targets_from(values, state.cpus@, 0),
            },
        },
    }
}

/// The power supplies that a rule changes: those its `for` list names, or
/// all that take thresholds.
pub open spec fn supply_targets(spec: PowerDeltaSpec, state: EvalState) -> Result<
    Seq<usize>,
    RuleError,
> {
    match spec.for_ {
        None => Ok(threshold_supplies(state.power_supplies@, 0)),
        Some(e) => match evaluate(e, state) {
            Err(err) => Err(RuleError::Eval(err)),
            Ok(None) => Err(RuleError::UndefinedTargets),
            Ok(Some(v)) => match v.list() {
                Err(err) => Err(RuleError::Eval(err)),
                Ok(values) => supply_targets_from(values, state.power_supplies@, 0),
            },
        },
    }
}

/// Every target is a position in a list of `len` items.
pub open spec fn targets_within(targets: Seq<usize>, len: nat) -> bool {
    forall|t: int| 0 <= t < targets.len() ==> (#[trigger] targets[t]) < len
}

/// The deltas `acc` after the settings of `spec` were merged into the
/// delta of each target from `t` on, each evaluated for its own CPU.
pub open spec fn merge_cpu_targets(
    spec: CpuDeltaSpec,
    state: EvalState,
    targets: Seq<usize>,
    t: nat,
    acc: Seq<CpuDeltaView>,
    rounded: bool,
) -> Result<(Seq<CpuDeltaView>, bool), RuleError>
    decreases targets.len() - t,
{
    if t >= targets.len() {
        Ok((acc, rounded))
    } else {
        let i = targets[t as int] as int;
        match cpu_delta_of(spec, state.scoped(EvalContext::Cpu(&state.cpus@[i]))) {
            Err(e) => Err(e),
            Ok((delta, r)) => merge_cpu_targets(
                spec,
                state,
                targets,
                t + 1,
                acc.update(i, acc[i].or(delta)),
                rounded || r,
            ),
        }
    }
}

/// The deltas `acc` after the thresholds of `spec` were merged into the
/// delta of each target from `t` on, each evaluated for its own supply.
pub open spec fn merge_supply_targets(
    spec: PowerDeltaSpec,
    state: EvalState,
    targets: Seq<usize>,
    t: nat,
    acc: Seq<PowerDelta>,
) -> Result<Seq<PowerDelta>, RuleError>
    decreases targets.len() - t,
{
    if t >= targets.len() {
        Ok(acc)
    } else {
        let i = targets[t as int] as int;
        match power_delta_of(
            spec,
            state.scoped(EvalContext::PowerSupply(&state.power_supplies@[i])),
        ) {
            Err(e) => Err(e),
            Ok(delta) => merge_supply_targets(
                spec,
                state,
                targets,
                t + 1,
                acc.update(i, acc[i].or(delta)),
            ),
        }
    }
}

/// The decision `acc` after a rule whose condition holds was merged into it.
pub open spec fn merge_rule(rule: Rule, state: EvalState, acc: DecisionView) -> Result<
    DecisionView,
    RuleError,
> {
    match cpu_targets(rule.cpu, state) {
        Err(e) => Err(e),
        Ok(targets) => match merge_cpu_targets(
            rule.cpu,
            state,
            targets,
            0,
            acc.cpus,
            acc.frequency_rounded,
        ) {
            Err(e) => Err(e),
            Ok((cpus, rounded)) => match boolean_setting(rule.cpu.turbo, state) {
                Err(e) => Err(e),
                Ok(turbo) => match supply_targets(rule.power, state) {
                    Err(e) => Err(e),
                    Ok(supplies) => match merge_supply_targets(
                        rule.power,
                        state,
                        supplies,
                        0,
                        acc.power_supplies,
                    ) {
                        Err(e) => Err(e),
                        Ok(power_supplies) => match text_setting(
                            rule.power.platform_profile,
                            state,
                        ) {
                            Err(e) => Err(e),
                            Ok(profile) => Ok(
                                DecisionView {
                                    cpus,
                                    power_supplies,
                                    turbo: or_else(acc.turbo, turbo),
                                    platform_profile: or_else(acc.platform_profile, profile),
                                    frequency_rounded: rounded,
                                },
                            ),
                        },
                    },
                },
            },
        },
    }
}

/// The decision `acc` after `rule` was considered: a rule whose condition
/// is undefined or false changes nothing.
pub open spec fn apply_rule(rule: Rule, state: EvalState, acc: DecisionView) -> Result<
    DecisionView,
    RuleError,
> {
    match evaluate(rule.condition, state) {
        Err(e) => Err(RuleError::Eval(e)),
        Ok(None) => Ok(acc),
        Ok(Some(v)) => match v.boolean() {
            Err(e) => Err(RuleError::Eval(e)),
            Ok(false) => Ok(acc),
            Ok(true) => merge_rule(rule, state, acc),
        },
    }
}

/// The decision `acc` after the first `n` rules were considered, the last
/// of them first; the fold ends where nothing is left to fill.
pub open spec fn fold_rules(rules: Seq<Rule>, n: nat, state: EvalState, acc: DecisionView) -> Result<
    DecisionView,
    RuleError,
>
    decreases n,
{
    if n == 0 || n > rules.len() || acc.is_saturated(state.power_supplies@) {
        Ok(acc)
    } else {
        match apply_rule(rules[n - 1], state, acc) {
            Err(e) => Err(e),
            Ok(next) => fold_rules(rules, (n - 1) as nat, state, next),
        }
    }
}

/// What `rules`, in ascending order of priority, decide in `state`. The
/// conditions, the `for` lists and the settings of the system are evaluated
/// in the widest context.
pub open spec fn decide(rules: Seq<Rule>, state: EvalState) -> Result<DecisionView, RuleError> {
    fold_rules(
        rules,
        rules.len(),
        state.scoped(EvalContext::WidestPossible),
        DecisionView::initial(state.cpus@.len(), state.power_supplies@.len()),
    )
}

fn merge_into(acc: &mut Vec<CpuDelta>, i: usize, delta: CpuDelta)
    requires
        i < old(acc)@.len(),
    ensures
        final(acc)@.len() == old(acc)@.len(),
        delta_views(final(acc)@) == delta_views(old(acc)@).update(
            i as int,
            delta_views(old(acc)@)[i as int].or(delta@),
        ),
{
    acc[i].fill_from(delta);
    assert(delta_views(acc@) =~= delta_views(old(acc)@).update(
        i as int,
        delta_views(old(acc)@)[i as int].or(delta@),
    ));
}

fn merge_into_supply(acc: &mut Vec<PowerDelta>, i: usize, delta: PowerDelta)
    requires
        i < old(acc)@.len(),
    ensures
        final(acc)@ == old(acc)@.update(i as int, old(acc)@[i as int].or(delta)),
{
    acc[i].fill_from(delta);
    assert(acc@ =~= old(acc)@.update(i as int, old(acc)@[i as int].or(delta)));
}

/// The position of the first CPU numbered `number`.
pub fn find_cpu(cpus: &Vec<Cpu>, number: u32) -> (r: Option<usize>)
    ensures
        r == cpu_position(cpus@, number as int, 0),
        r matches Some(i) ==> i < cpus@.len() && cpus@[i as int].number == number,
{
    let mut i: usize = 0;
    while i < cpus.len()
        invariant
            i <= cpus@.len(),
            cpu_position(cpus@, number as int, 0) == cpu_position(cpus@, number as int, i as nat),
        decreases cpus.len() - i,
    {
        if cpus[i].number == number {
            return Some(i);
        }
        i += 1;
    }
    None
}

/// The position of the first power supply named `name`.
pub fn find_supply(supplies: &Vec<PowerSupply>, name: &String) -> (r: Option<usize>)
    ensures
        r == supply_position(supplies@, name@, 0),
        r matches Some(i) ==> i < supplies@.len() && supplies@[i as int].name@ == name@,
{
    let mut i: usize = 0;
    while i < supplies.len()
        invariant
            i <= supplies@.len(),
            supply_position(supplies@, name@, 0) == supply_position(supplies@, name@, i as nat),
        decreases supplies.len() - i,
    {
        if supplies[i].name == *name {
            return Some(i);
        }
        i += 1;
    }
    None
}

fn cpu_target_of(v: &Value, cpus: &Vec<Cpu>) -> (r: Result<usize, RuleError>)
    ensures
        r == cpu_target(v@, cpus@),
        r matches Ok(i) ==> i < cpus@.len(),
{
    let n = match v.try_into_number() {
        Ok(n) => n,
        Err(e) => {
            return Err(RuleError::Eval(e));
        },
    };
    if !n.is_whole() || n.micros < 0 || n.micros / SCALE > u32::MAX as i64 {
        return Err(RuleError::InvalidCpuNumber);
    }
    let number: u32 = (n.micros / SCALE) as u32;
    match find_cpu(cpus, number) {
        Some(i) => Ok(i),
        None => Err(RuleError::UnknownCpu),
    }
}

fn supply_target_of(v: &Value, supplies: &Vec<PowerSupply>) -> (r: Result<usize, RuleError>)
    ensures
        r == supply_target(v@, supplies@),
        r matches Ok(i) ==> i < supplies@.len(),
{
    let name = match v.try_into_string() {
        Ok(s) => s,
        Err(e) => {
            return Err(RuleError::Eval(e));
        },
    };
    match find_supply(supplies, name) {
        Some(i) => Ok(i),
        None => Err(RuleError::UnknownPowerSupply),
    }
}

fn named_cpus(values: &Vec<Value>, cpus: &Vec<Cpu>) -> (r: Result<Vec<usize>, RuleError>)
    ensures
        match r {
            Ok(targets) => cpu_targets_from(views(values@), cpus@, 0) == Ok::<
                Seq<usize>,
                RuleError,
            >(targets@) && targets_within(targets@, cpus@.len()),
            Err(e) => cpu_targets_from(views(values@), cpus@, 0) == Err::<Seq<usize>, RuleError>(e),
        },
{
    let mut out: Vec<usize> = Vec::new();
    let mut i: usize = 0;
    assert(out@ + Seq::<usize>::empty() =~= out@);
    while i < values.len()
        invariant
            i <= values@.len(),
            targets_within(out@, cpus@.len()),
            cpu_targets_from(views(values@), cpus@, 0) == before_targets(
                out@,
                cpu_targets_from(views(values@), cpus@, i as nat),
            ),
        decreases values.len() - i,
    {
        match cpu_target_of(&values[i], cpus) {
            Err(e) => {
                return Err(e);
            },
            Ok(t) => {
                let ghost before = out@;
                let ghost rest = cpu_targets_from(views(values@), cpus@, (i + 1) as nat);
                out.push(t);
                proof {
                    assert(out@ =~= before + seq![t]);
                    if let Ok(targets) = rest {
                        assert(before + (seq![t] + targets) =~= (before + seq![t]) + targets);
                    }
                }
            },
        }
        i += 1;
    }
    assert(out@ + Seq::<usize>::empty() =~= out@);
    Ok(out)
}

fn named_supplies(values: &Vec<Value>, supplies: &Vec<PowerSupply>) -> (r: Result<
    Vec<usize>,
    RuleError,
>)
    ensures
        match r {
            Ok(targets) => supply_targets_from(views(values@), supplies@, 0) == Ok::<
                Seq<usize>,
                RuleError,
            >(targets@) && targets_within(targets@, supplies@.len()),
            Err(e) => supply_targets_from(views(values@), supplies@, 0) == Err::<
                Seq<usize>,
                RuleError,
            >(e),
        },
{
    let mut out: Vec<usize> = Vec::new();
    let mut i: usize = 0;
    assert(out@ + Seq::<usize>::empty() =~= out@);
    while i < values.len()
        invariant
            i <= values@.len(),
            targets_within(out@, supplies@.len()),
            supply_targets_from(views(values@), supplies@, 0) == before_targets(
                out@,
                supply_targets_from(views(values@), supplies@, i as nat),
            ),
        decreases values.len() - i,
    {
        match supply_target_of(&values[i], supplies) {
            Err(e) => {
                return Err(e);
            },
            Ok(t) => {
                let ghost before = out@;
                let ghost rest = supply_targets_from(views(values@), supplies@, (i + 1) as nat);
                out.push(t);
                proof {
                    assert(out@ =~= before + seq![t]);
                    if let Ok(targets) = rest {
                        assert(before + (seq![t] + targets) =~= (before + seq![t]) + targets);
                    }
                }
            },
        }
        i += 1;
    }
    assert(out@ + Seq::<usize>::empty() =~= out@);
    Ok(out)
}

fn supplies_with_thresholds(supplies: &Vec<PowerSupply>) -> (r: Vec<usize>)
    ensures
        r@ == threshold_supplies(supplies@, 0),
        targets_within(r@, supplies@.len()),
{
    let mut out: Vec<usize> = Vec::new();
    let mut i: usize = 0;
    assert(out@ + threshold_supplies(supplies@, 0) =~= threshold_supplies(supplies@, 0));
    while i < supplies.len()
        invariant
            i <= supplies@.len(),
            targets_within(out@, supplies@.len()),
            threshold_supplies(supplies@, 0) == out@ + threshold_supplies(supplies@, i as nat),
        decreases supplies.len() - i,
    {
        let ghost before = out@;
        let ghost rest = threshold_supplies(supplies@, (i + 1) as nat);
        if supplies[i].threshold_config.is_some() {
            out.push(i);
            assert(before + (seq![i] + rest) =~= (before + seq![i]) + rest);
            assert(out@ =~= before + seq![i]);
        }
        i += 1;
    }
    assert(out@ + Seq::<usize>::empty() =~= out@);
    out
}

impl CpuDeltaSpec {
    /// The positions, in the CPUs of `state`, of the CPUs that these
    /// settings change.
    pub fn targets(&self, state: &EvalState) -> (r: Result<Vec<usize>, RuleError>)
        requires
            state.wf(),
        ensures
            match r {
                Ok(targets) => cpu_targets(*self, *state) == Ok::<Seq<usize>, RuleError>(targets@)
                    && targets_within(targets@, state.cpus@.len()),
                Err(e) => cpu_targets(*self, *state) == Err::<Seq<usize>, RuleError>(e),
            },
    {
        match &self.for_ {
            None => {
                let mut out: Vec<usize> = Vec::new();
                let mut i: usize = 0;
                while i < state.cpus.len()
                    invariant
                        i <= state.cpus@.len(),
                        out@ == Seq::new(i as nat, |k: int| k as usize),
                    decreases state.cpus.len() - i,
                {
                    out.push(i);
                    assert(out@ =~= Seq::new((i + 1) as nat, |k: int| k as usize));
                    i += 1;
                }
                Ok(out)
            },
            Some(e) => match e.eval(state) {
                Err(err) => Err(RuleError::Eval(err)),
                Ok(None) => Err(RuleError::UndefinedTargets),
                Ok(Some(v)) => match v.try_into_list() {
                    Err(err) => Err(RuleError::Eval(err)),
                    Ok(values) => named_cpus(values, state.cpus),
                },
            },
        }
    }
}

impl PowerDeltaSpec {
    /// The positions, in the power supplies of `state`, of the supplies
    /// that these settings change.
    pub fn targets(&self, state: &EvalState) -> (r: Result<Vec<usize>, RuleError>)
        requires
            state.wf(),
        ensures
            match r {
                Ok(targets) => supply_targets(*self, *state) == Ok::<Seq<usize>, RuleError>(
                    targets@,
                ) && targets_within(targets@, state.power_supplies@.len()),
                Err(e) => supply_targets(*self, *state) == Err::<Seq<usize>, RuleError>(e),
            },
    {
        match &self.for_ {
            None => Ok(supplies_with_thresholds(state.power_supplies)),
            Some(e) => match e.eval(state) {
                Err(err) => Err(RuleError::Eval(err)),
                Ok(None) => Err(RuleError::UndefinedTargets),
                Ok(Some(v)) => match v.try_into_list() {
                    Err(err) => Err(RuleError::Eval(err)),
                    Ok(values) => named_supplies(values, state.power_supplies),
                },
            },
        }
    }
}

fn merge_cpus(
    spec: &CpuDeltaSpec,
    state: &EvalState,
    targets: &Vec<usize>,
    acc: &mut Vec<CpuDelta>,
    rounded: bool,
) -> (r: Result<bool, RuleError>)
    requires
        state.wf(),
        old(acc)@.len() == state.cpus@.len(),
        targets_within(targets@, state.cpus@.len()),
    ensures
        final(acc)@.len() == old(acc)@.len(),
        match r {
            Ok(now_rounded) => merge_cpu_targets(
                *spec,
                *state,
                targets@,
                0,
                delta_views(old(acc)@),
                rounded,
            ) == Ok::<(Seq<CpuDeltaView>, bool), RuleError>(
                (delta_views(final(acc)@), now_rounded),
            ),
            Err(e) => merge_cpu_targets(
                *spec,
                *state,
                targets@,
                0,
                delta_views(old(acc)@),
                rounded,
            ) == Err::<(Seq<CpuDeltaView>, bool), RuleError>(e),
        },
{
    let mut now_rounded = rounded;
    let mut t: usize = 0;
    while t < targets.len()
        invariant
            t <= targets@.len(),
            state.wf(),
            acc@.len() == state.cpus@.len(),
            acc@.len() == old(acc)@.len(),
            targets_within(targets@, state.cpus@.len()),
            merge_cpu_targets(*spec, *state, targets@, 0, delta_views(old(acc)@), rounded)
                == merge_cpu_targets(
                *spec,
                *state,
                targets@,
                t as nat,
                delta_views(acc@),
                now_rounded,
            ),
        decreases targets.len() - t,
    {
        let i: usize = targets[t];
        let scoped = state.in_context(EvalContext::Cpu(&state.cpus[i]));
        match spec.evaluate(&scoped) {
            Err(e) => {
                return Err(e);
            },
            Ok((delta, r)) => {
                merge_into(acc, i, delta);
                now_rounded = now_rounded || r;
            },
        }
        t += 1;
    }
    Ok(now_rounded)
}

fn merge_supplies(
    spec: &PowerDeltaSpec,
    state: &EvalState,
    targets: &Vec<usize>,
    acc: &mut Vec<PowerDelta>,
) -> (r: Result<(), RuleError>)
    requires
        state.wf(),
        old(acc)@.len() == state.power_supplies@.len(),
        targets_within(targets@, state.power_supplies@.len()),
    ensures
        final(acc)@.len() == old(acc)@.len(),
        match r {
            Ok(_) => merge_supply_targets(*spec, *state, targets@, 0, old(acc)@) == Ok::<
                Seq<PowerDelta>,
                RuleError,
            >(final(acc)@),
            Err(e) => merge_supply_targets(*spec, *state, targets@, 0, old(acc)@) == Err::<
                Seq<PowerDelta>,
                RuleError,
            >(e),
        },
{
    let mut t: usize = 0;
    while t < targets.len()
        invariant
            t <= targets@.len(),
            state.wf(),
            acc@.len() == state.power_supplies@.len(),
            acc@.len() == old(acc)@.len(),
            targets_within(targets@, state.power_supplies@.len()),
            merge_supply_targets(*spec, *state, targets@, 0, old(acc)@) == merge_supply_targets(
                *spec,
                *state,
                targets@,
                t as nat,
                acc@,
            ),
        decreases targets.len() - t,
    {
        let i: usize = targets[t];
        let scoped = state.in_context(EvalContext::PowerSupply(&state.power_supplies[i]));
        match spec.evaluate(&scoped) {
            Err(e) => {
                return Err(e);
            },
            Ok(delta) => {
                merge_into_supply(acc, i, delta);
            },
        }
        t += 1;
    }
    Ok(())
}

impl Decision {
    /// The decision that sets nothing for `cpus` CPUs and `supplies` power
    /// supplies.
    pub fn new(cpus: usize, supplies: usize) -> (r: Decision)
        ensures
            r@ == DecisionView::initial(cpus as nat, supplies as nat),
            r.cpus@.len() == cpus,
            r.power_supplies@.len() == supplies,
    {
        let mut cpu_deltas: Vec<CpuDelta> = Vec::new();
        let mut i: usize = 0;
        while i < cpus
            invariant
                i <= cpus,
                cpu_deltas@.len() == i,
                forall|k: int| 0 <= k < i ==> (#[trigger] cpu_deltas@[k])@ == CpuDeltaView::empty(),
            decreases cpus - i,
        {
            cpu_deltas.push(CpuDelta::new());
            i += 1;
        }
        let mut supply_deltas: Vec<PowerDelta> = Vec::new();
        let mut j: usize = 0;
        while j < supplies
            invariant
                j <= supplies,
                supply_deltas@.len() == j,
                forall|k: int| 0 <= k < j ==> (#[trigger] supply_deltas@[k]) == PowerDelta::empty(),
            decreases supplies - j,
        {
            supply_deltas.push(PowerDelta::new());
            j += 1;
        }
        let r = Decision {
            cpus: cpu_deltas,
            power_supplies: supply_deltas,
            turbo: None,
            platform_profile: None,
            frequency_rounded: false,
        };
        proof {
            let initial = DecisionView::initial(cpus as nat, supplies as nat);
            assert(r@.cpus =~= initial.cpus);
            assert(r@.power_supplies =~= initial.power_supplies);
        }
        r
    }

    /// `true` when nothing is left to fill.
    pub fn is_saturated(&self, supplies: &Vec<PowerSupply>) -> (r: bool)
        ensures
            r == self@.is_saturated(supplies@),
    {
        if self.turbo.is_none() || self.platform_profile.is_none() {
            return false;
        }
        let mut i: usize = 0;
        while i < self.cpus.len()
            invariant
                i <= self.cpus@.len(),
                forall|k: int| 0 <= k < i ==> (#[trigger] self@.cpus[k]).is_saturated(),
            decreases self.cpus.len() - i,
        {
            if !self.cpus[i].is_saturated() {
                assert(!self@.cpus[i as int].is_saturated());
                return false;
            }
            i += 1;
        }
        let mut j: usize = 0;
        while j < self.power_supplies.len() && j < supplies.len()
            invariant
                j <= self.power_supplies@.len(),
                j <= supplies@.len(),
                forall|k: int|
                    0 <= k < j && supplies@[k].threshold_config.is_some() ==> (
                    #[trigger] self@.power_supplies[k]).saturated(),
            decreases self.power_supplies.len() - j,
        {
            if supplies[j].threshold_config.is_some() && !self.power_supplies[j].is_saturated() {
                assert(!self@.power_supplies[j as int].saturated());
                return false;
            }
            j += 1;
        }
        true
    }
}

impl Rule {
    /// Considers this rule: where its condition is `true`, its settings are
    /// merged into `acc`, whose own settings stay.
    pub fn apply_to(&self, state: &EvalState, acc: &mut Decision) -> (r: Result<(), RuleError>)
        requires
            state.wf(),
            old(acc).cpus@.len() == state.cpus@.len(),
            old(acc).power_supplies@.len() == state.power_supplies@.len(),
        ensures
            final(acc).cpus@.len() == state.cpus@.len(),
            final(acc).power_supplies@.len() == state.power_supplies@.len(),
            match r {
                Ok(_) => apply_rule(*self, *state, old(acc)@) == Ok::<DecisionView, RuleError>(
                    final(acc)@,
                ),
                Err(e) => apply_rule(*self, *state, old(acc)@) == Err::<DecisionView, RuleError>(e),
            },
    {
        match self.condition.eval(state) {
            Err(e) => {
                return Err(RuleError::Eval(e));
            },
            Ok(None) => {
                return Ok(());
            },
            Ok(Some(v)) => match v.try_into_boolean() {
                Err(e) => {
                    return Err(RuleError::Eval(e));
                },
                Ok(false) => {
                    return Ok(());
                },
                Ok(true) => {},
            },
        }
        let targets = match self.cpu.targets(state) {
            Ok(t) => t,
            Err(e) => {
                return Err(e);
            },
        };
        let rounded = match merge_cpus(
            &self.cpu,
            state,
            &targets,
            &mut acc.cpus,
            acc.frequency_rounded,
        ) {
            Ok(r) => r,
            Err(e) => {
                return Err(e);
            },
        };
        let turbo = match eval_boolean_setting(&self.cpu.turbo, state) {
            Ok(t) => t,
            Err(e) => {
                return Err(e);
            },
        };
        let supplies = match self.power.targets(state) {
            Ok(t) => t,
            Err(e) => {
                return Err(e);
            },
        };
        match merge_supplies(&self.power, state, &supplies, &mut acc.power_supplies) {
            Ok(_) => {},
            Err(e) => {
                return Err(e);
            },
        }
        let profile = match eval_text_setting(&self.power.platform_profile, state) {
            Ok(p) => p,
            Err(e) => {
                return Err(e);
            },
        };
        acc.frequency_rounded = rounded;
        if acc.turbo.is_none() {
            acc.turbo = turbo;
        }
        if acc.platform_profile.is_none() {
            acc.platform_profile = profile;
        }
        Ok(())
    }
}

impl DaemonConfig {
    /// Folds the rules, highest priority first, into one decision. The
    /// rules are taken from the last to the first, which in a valid
    /// configuration is from the highest priority to the lowest.
    pub fn decide(&self, state: &EvalState) -> (r: Result<Decision, RuleError>)
        requires
            self.wf(),
            state.wf(),
        ensures
            match r {
                Ok(decision) => decide(self.rules@, *state) == Ok::<DecisionView, RuleError>(
                    decision@,
                ) && decision.cpus@.len() == state.cpus@.len() && decision.power_supplies@.len()
                    == state.power_supplies@.len(),
                Err(e) => decide(self.rules@, *state) == Err::<DecisionView, RuleError>(e),
            },
    {
        let widest = state.in_context(EvalContext::WidestPossible);
        let mut acc = Decision::new(state.cpus.len(), state.power_supplies.len());
        let mut n: usize = self.rules.len();
        while n > 0
            invariant
                n <= self.rules@.len(),
                widest.wf(),
                widest == state.scoped(EvalContext::WidestPossible),
                acc.cpus@.len() == widest.cpus@.len(),
                acc.power_supplies@.len() == widest.power_supplies@.len(),
                decide(self.rules@, *state) == fold_rules(self.rules@, n as nat, widest, acc@),
            decreases n,
        {
            if acc.is_saturated(widest.power_supplies) {
                return Ok(acc);
            }
            match self.rules[n - 1].apply_to(&widest, &mut acc) {
                Ok(_) => {},
                Err(e) => {
                    return Err(e);
                },
            }
            n -= 1;
        }
        Ok(acc)
    }
}

/// Every setting that `before` holds, `after` holds with the same value.
pub open spec fn cpu_kept(before: CpuDeltaView, after: CpuDeltaView) -> bool {
    &&& before.governor.is_some() ==> after.governor == before.governor
    &&& before.energy_performance_preference.is_some() ==> after.energy_performance_preference
        == before.energy_performance_preference
    &&& before.energy_performance_bias.is_some() ==> after.energy_performance_bias
        == before.energy_performance_bias
    &&& before.frequency_mhz_minimum.is_some() ==> after.frequency_mhz_minimum
        == before.frequency_mhz_minimum
    &&& before.frequency_mhz_maximum.is_some() ==> after.frequency_mhz_maximum
        == before.frequency_mhz_maximum
}

/// Every threshold that `before` holds, `after` holds with the same value.
pub open spec fn supply_kept(before: PowerDelta, after: PowerDelta) -> bool {
    &&& before.charge_threshold_start.is_some() ==> after.charge_threshold_start
        == before.charge_threshold_start
    &&& before.charge_threshold_end.is_some() ==> after.charge_threshold_end
        == before.charge_threshold_end
}

/// Every setting that the decision `before` holds, for any CPU, any power
/// supply or the system, `after` holds with the same value.
pub open spec fn kept(before: DecisionView, after: DecisionView) -> bool {
    &&& after.cpus.len() == before.cpus.len()
    &&& after.power_supplies.len() == before.power_supplies.len()
    &&& forall|i: int|
        0 <= i < before.cpus.len() ==> cpu_kept(#[trigger] before.cpus[i], after.cpus[i])
    &&& forall|i: int|
        0 <= i < before.power_supplies.len() ==> supply_kept(
            #[trigger] before.power_supplies[i],
            after.power_supplies[i],
        )
    &&& before.turbo.is_some() ==> after.turbo == before.turbo
    &&& before.platform_profile.is_some() ==> after.platform_profile == before.platform_profile
}

proof fn lemma_cpu_position_within(cpus: Seq<Cpu>, number: int, from: nat)
    ensures
        cpu_position(cpus, number, from) matches Some(i) ==> i < cpus.len(),
    decreases cpus.len() - from,
{
    if from < cpus.len() && cpus[from as int].number != number {
        lemma_cpu_position_within(cpus, number, from + 1);
    }
}

proof fn lemma_supply_position_within(supplies: Seq<PowerSupply>, name: Seq<char>, from: nat)
    ensures
        supply_position(supplies, name, from) matches Some(i) ==> i < supplies.len(),
    decreases supplies.len() - from,
{
    if from < supplies.len() && supplies[from as int].name@ != name {
        lemma_supply_position_within(supplies, name, from + 1);
    }
}

proof fn lemma_cpu_targets_from_within(values: Seq<ValueView>, cpus: Seq<Cpu>, i: nat)
    ensures
        cpu_targets_from(values, cpus, i) matches Ok(targets) ==> targets_within(
            targets,
            cpus.len(),
        ),
    decreases values.len() - i,
{
    if i < values.len() {
        lemma_cpu_targets_from_within(values, cpus, i + 1);
        if let Ok(n) = values[i as int].number() {
            lemma_cpu_position_within(cpus, n / (SCALE as int), 0);
        }
    }
}

proof fn lemma_supply_targets_from_within(
    values: Seq<ValueView>,
    supplies: Seq<PowerSupply>,
    i: nat,
)
    ensures
        supply_targets_from(values, supplies, i) matches Ok(targets) ==> targets_within(
            targets,
            supplies.len(),
        ),
    decreases values.len() - i,
{
    if i < values.len() {
        lemma_supply_targets_from_within(values, supplies, i + 1);
        if let Ok(name) = values[i as int].text() {
            lemma_supply_position_within(supplies, name, 0);
        }
    }
}

proof fn lemma_threshold_supplies_within(supplies: Seq<PowerSupply>, i: nat)
    ensures
        targets_within(threshold_supplies(supplies, i), supplies.len()),
    decreases supplies.len() - i,
{
    if i < supplies.len() {
        lemma_threshold_supplies_within(supplies, i + 1);
    }
}

proof fn lemma_merge_cpu_targets_keeps(
    spec: CpuDeltaSpec,
    state: EvalState,
    targets: Seq<usize>,
    t: nat,
    acc: Seq<CpuDeltaView>,
    rounded: bool,
)
    requires
        targets_within(targets, acc.len()),
    ensures
        merge_cpu_targets(spec, state, targets, t, acc, rounded) matches Ok((out, _)) ==> {
            &&& out.len() == acc.len()
            &&& forall|i: int| 0 <= i < acc.len() ==> cpu_kept(#[trigger] acc[i], out[i])
        },
    decreases targets.len() - t,
{
    if t < targets.len() {
        let i = targets[t as int] as int;
        if let Ok((delta, r)) = cpu_delta_of(
            spec,
            state.scoped(EvalContext::Cpu(&state.cpus@[i])),
        ) {
            let next = acc.update(i, acc[i].or(delta));
            lemma_merge_cpu_targets_keeps(spec, state, targets, t + 1, next, rounded || r);
            if let Ok((out, _)) = merge_cpu_targets(spec, state, targets, t, acc, rounded) {
                assert forall|k: int| 0 <= k < acc.len() implies cpu_kept(
                    #[trigger] acc[k],
                    out[k],
                ) by {
                    assert(cpu_kept(next[k], out[k]));
                }
            }
        }
    }
}

proof fn lemma_merge_supply_targets_keeps(
    spec: PowerDeltaSpec,
    state: EvalState,
    targets: Seq<usize>,
    t: nat,
    acc: Seq<PowerDelta>,
)
    requires
        targets_within(targets, acc.len()),
    ensures
        merge_supply_targets(spec, state, targets, t, acc) matches Ok(out) ==> {
            &&& out.len() == acc.len()
            &&& forall|i: int| 0 <= i < acc.len() ==> supply_kept(#[trigger] acc[i], out[i])
        },
    decreases targets.len() - t,
{
    if t < targets.len() {
        let i = targets[t as int] as int;
        if let Ok(delta) = power_delta_of(
            spec,
            state.scoped(EvalContext::PowerSupply(&state.power_supplies@[i])),
        ) {
            let next = acc.update(i, acc[i].or(delta));
            lemma_merge_supply_targets_keeps(spec, state, targets, t + 1, next);
            if let Ok(out) = merge_supply_targets(spec, state, targets, t, acc) {
                assert forall|k: int| 0 <= k < acc.len() implies supply_kept(
                    #[trigger] acc[k],
                    out[k],
                ) by {
                    assert(supply_kept(next[k], out[k]));
                }
            }
        }
    }
}

/// The accumulator wins: a rule changes no setting that the decision
/// already holds.
pub proof fn lemma_rule_keeps(rule: Rule, state: EvalState, acc: DecisionView)
    requires
        acc.cpus.len() == state.cpus@.len(),
        acc.power_supplies.len() == state.power_supplies@.len(),
    ensures
        apply_rule(rule, state, acc) matches Ok(next) ==> kept(acc, next),
{
    if let Ok(targets) = cpu_targets(rule.cpu, state) {
        if let Some(e) = rule.cpu.for_ {
            if let Ok(Some(v)) = evaluate(e, state) {
                if let Ok(values) = v.list() {
                    lemma_cpu_targets_from_within(values, state.cpus@, 0);
                }
            }
        }
        lemma_merge_cpu_targets_keeps(
            rule.cpu,
            state,
            targets,
            0,
            acc.cpus,
            acc.frequency_rounded,
        );
    }
    if let Ok(targets) = supply_targets(rule.power, state) {
        if let Some(e) = rule.power.for_ {
            if let Ok(Some(v)) = evaluate(e, state) {
                if let Ok(values) = v.list() {
                    lemma_supply_targets_from_within(values, state.power_supplies@, 0);
                }
            }
        } else {
            lemma_threshold_supplies_within(state.power_supplies@, 0);
        }
        lemma_merge_supply_targets_keeps(rule.power, state, targets, 0, acc.power_supplies);
    }
}

/// The fold never changes a setting that the decision already holds.
pub proof fn lemma_fold_keeps(rules: Seq<Rule>, n: nat, state: EvalState, acc: DecisionView)
    requires
        acc.cpus.len() == state.cpus@.len(),
        acc.power_supplies.len() == state.power_supplies@.len(),
    ensures
        fold_rules(rules, n, state, acc) matches Ok(result) ==> kept(acc, result),
    decreases n,
{
    if n == 0 || n > rules.len() || acc.is_saturated(state.power_supplies@) {
    } else {
        lemma_rule_keeps(rules[n - 1], state, acc);
        if let Ok(next) = apply_rule(rules[n - 1], state, acc) {
            lemma_fold_keeps(rules, (n - 1) as nat, state, next);
            if let Ok(result) = fold_rules(rules, n, state, acc) {
                assert forall|i: int| 0 <= i < acc.cpus.len() implies cpu_kept(
                    #[trigger] acc.cpus[i],
                    result.cpus[i],
                ) by {
                    assert(cpu_kept(next.cpus[i], result.cpus[i]));
                }
                assert forall|i: int| 0 <= i < acc.power_supplies.len() implies supply_kept(
                    #[trigger] acc.power_supplies[i],
                    result.power_supplies[i],
                ) by {
                    assert(supply_kept(next.power_supplies[i], result.power_supplies[i]));
                }
            }
        }
    }
}

/// Priority override: in a fold over rules in ascending order of priority,
/// whatever the rule of the highest priority among the first `n` sets is what
/// the fold decides, whatever the rules below it set for the same field.
pub proof fn lemma_higher_priority_wins(
    rules: Seq<Rule>,
    n: nat,
    state: EvalState,
    acc: DecisionView,
)
    requires
        0 < n <= rules.len(),
        acc.cpus.len() == state.cpus@.len(),
        acc.power_supplies.len() == state.power_supplies@.len(),
        !acc.is_saturated(state.power_supplies@),
    ensures
        (apply_rule(rules[n - 1], state, acc) matches Ok(after_highest) && fold_rules(
            rules,
            n,
            state,
            acc,
        ) matches Ok(result) && kept(after_highest, result)) || fold_rules(rules, n, state, acc)
            is Err,
{
    lemma_rule_keeps(rules[n - 1], state, acc);
    if let Ok(next) = apply_rule(rules[n - 1], state, acc) {
        lemma_fold_keeps(rules, (n - 1) as nat, state, next);
    }
}

/// Priority override for a valid configuration: the last rule is the one
/// of the highest priority, and whatever it sets is what the configuration
/// decides, whatever the rules of lower priority set for the same field.
pub proof fn lemma_config_priority_override(config: DaemonConfig, state: EvalState)
    requires
        config.wf(),
        config.rules@.len() > 0,
    ensures
        forall|i: int|
            0 <= i < config.rules@.len() - 1 ==> (#[trigger] config.rules@[i]).priority
                < config.rules@.last().priority,
        decide(config.rules@, state) matches Ok(result) ==> (apply_rule(
            config.rules@.last(),
            state.scoped(EvalContext::WidestPossible),
            DecisionView::initial(state.cpus@.len(), state.power_supplies@.len()),
        ) matches Ok(highest) && kept(highest, result)),
{
    let rules = config.rules@;
    let last = rules.len() - 1;
    assert forall|i: int| 0 <= i < last implies (#[trigger] rules[i]).priority
        < rules.last().priority by {
        assert(priorities(rules)[i] < priorities(rules)[last]);
    }
    lemma_higher_priority_wins(
        rules,
        rules.len(),
        state.scoped(EvalContext::WidestPossible),
        DecisionView::initial(state.cpus@.len(), state.power_supplies@.len()),
    );
}

/// What a rule without a `for` list gives CPU `i` in `state`: the settings
/// evaluated for that CPU where the rule's condition holds, and nothing
/// where it does not hold or a setting fails.
pub open spec fn cpu_share(rule: Rule, state: EvalState, i: int) -> CpuDeltaView {
    match evaluate(rule.condition, state) {
        Ok(Some(v)) => match v.boolean() {
            Ok(true) => match cpu_delta_of(
                rule.cpu,
                state.scoped(EvalContext::Cpu(&state.cpus@[i])),
            ) {
                Ok((delta, _)) => delta,
                Err(_) => CpuDeltaView::empty(),
            },
            _ => CpuDeltaView::empty(),
        },
        _ => CpuDeltaView::empty(),
    }
}

/// The settings that `spec` yields for CPU `i` in `state`, or nothing where
/// one of them fails.
pub open spec fn cpu_yield(spec: CpuDeltaSpec, state: EvalState, i: int) -> CpuDeltaView {
    match cpu_delta_of(spec, state.scoped(EvalContext::Cpu(&state.cpus@[i]))) {
        Ok((delta, _)) => delta,
        Err(_) => CpuDeltaView::empty(),
    }
}

proof fn lemma_merge_every_cpu(
    spec: CpuDeltaSpec,
    state: EvalState,
    t: nat,
    acc: Seq<CpuDeltaView>,
    start: Seq<CpuDeltaView>,
    rounded: bool,
)
    requires
        t <= state.cpus@.len(),
        acc.len() == state.cpus@.len(),
        start.len() == state.cpus@.len(),
        forall|i: int| 0 <= i < t ==> acc[i] == start[i].or(cpu_yield(spec, state, i)),
        forall|i: int| t <= i < acc.len() ==> acc[i] == start[i],
    ensures
        merge_cpu_targets(
            spec,
            state,
            Seq::new(state.cpus@.len(), |i: int| i as usize),
            t,
            acc,
            rounded,
        ) matches Ok((cpus, _)) ==> cpus.len() == start.len() && forall|i: int|
            0 <= i < start.len() ==> cpus[i] == start[i].or(cpu_yield(spec, state, i)),
    decreases state.cpus@.len() - t,
{
    let targets = Seq::new(state.cpus@.len(), |i: int| i as usize);
    if t < targets.len() {
        assert(state.cpus@.len() == state.cpus.len());
        assert(targets[t as int] == t);
        match cpu_delta_of(spec, state.scoped(EvalContext::Cpu(&state.cpus@[t as int]))) {
            Err(_) => {},
            Ok((delta, r)) => {
                let next = acc.update(t as int, acc[t as int].or(delta));
                assert(cpu_yield(spec, state, t as int) == delta);
                lemma_merge_every_cpu(spec, state, t + 1, next, start, rounded || r);
            },
        }
    }
}

/// A rule without a `for` list for the CPUs merges, into the delta of each
/// CPU, what it gives that CPU.
proof fn lemma_rule_shares(rule: Rule, state: EvalState, acc: DecisionView)
    requires
        rule.cpu.for_ is None,
        acc.cpus.len() == state.cpus@.len(),
    ensures
        apply_rule(rule, state, acc) matches Ok(next) ==> next.cpus.len() == acc.cpus.len()
            && forall|i: int|
            0 <= i < acc.cpus.len() ==> next.cpus[i] == acc.cpus[i].or(cpu_share(rule, state, i)),
{
    match apply_rule(rule, state, acc) {
        Err(_) => {},
        Ok(next) => {
            let holds = evaluate(rule.condition, state) matches Ok(Some(v)) && v.boolean()
                == Ok::<bool, EvalError>(true);
            if holds {
                lemma_merge_every_cpu(
                    rule.cpu,
                    state,
                    0,
                    acc.cpus,
                    acc.cpus,
                    acc.frequency_rounded,
                );
                assert forall|i: int| 0 <= i < acc.cpus.len() implies next.cpus[i]
                    == acc.cpus[i].or(cpu_share(rule, state, i)) by {
                    assert(cpu_share(rule, state, i) == cpu_yield(rule.cpu, state, i));
                }
            } else {
                assert(next == acc);
                assert forall|i: int| 0 <= i < acc.cpus.len() implies next.cpus[i]
                    == acc.cpus[i].or(cpu_share(rule, state, i)) by {
                    assert(cpu_share(rule, state, i) == CpuDeltaView::empty());
                    lemma_cpu_merge_monoid(acc.cpus[i], acc.cpus[i], acc.cpus[i]);
                }
            }
        },
    }
}

/// Priority override fills gaps: of two rules that name no CPUs, every CPU
/// gets each setting from the rule of the higher priority where that rule
/// gives it one, and from the rule of the lower priority where only that one
/// does. A rule whose condition does not hold gives nothing.
pub proof fn lemma_override_fills_gaps(low: Rule, high: Rule, state: EvalState)
    requires
        low.priority < high.priority,
        low.cpu.for_ is None,
        high.cpu.for_ is None,
    ensures
        decide(seq![low, high], state) matches Ok(decision) ==> decision.cpus.len()
            == state.cpus@.len() && forall|i: int|
            0 <= i < state.cpus@.len() ==> decision.cpus[i] == cpu_share(
                high,
                state.scoped(EvalContext::WidestPossible),
                i,
            ).or(cpu_share(low, state.scoped(EvalContext::WidestPossible), i)),
{
    let rules = seq![low, high];
    let widest = state.scoped(EvalContext::WidestPossible);
    let initial = DecisionView::initial(state.cpus@.len(), state.power_supplies@.len());
    reveal_with_fuel(fold_rules, 3);
    assert(rules[1] == high && rules[0] == low);
    assert(!initial.is_saturated(widest.power_supplies@));
    lemma_rule_shares(high, widest, initial);
    match apply_rule(high, widest, initial) {
        Err(_) => {},
        Ok(first) => {
            assert forall|i: int| 0 <= i < state.cpus@.len() implies first.cpus[i] == cpu_share(
                high,
                widest,
                i,
            ) by {
                assert(initial.cpus[i] == CpuDeltaView::empty());
                lemma_cpu_merge_monoid(
                    cpu_share(high, widest, i),
                    cpu_share(high, widest, i),
                    cpu_share(high, widest, i),
                );
            }
            if first.is_saturated(widest.power_supplies@) {
                assert(decide(rules, state) == Ok::<DecisionView, RuleError>(first));
                assert forall|i: int| 0 <= i < state.cpus@.len() implies first.cpus[i]
                    == cpu_share(high, widest, i).or(cpu_share(low, widest, i)) by {
                    assert(first.cpus[i].is_saturated());
                    lemma_cpu_merge_keeps(first.cpus[i], cpu_share(low, widest, i));
                }
            } else {
                lemma_rule_shares(low, widest, first);
                assert(decide(rules, state) == match apply_rule(low, widest, first) {
                    Err(e) => Err::<DecisionView, RuleError>(e),
                    Ok(second) => Ok(second),
                });
            }
        },
    }
}

} // verus!
