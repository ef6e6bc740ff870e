//! From a decision to the writes that carry it out.
//!
//! The settings of each CPU are taken in the order governor, preference,
//! bias, minimum and maximum frequency; then turbo boost; then the
//! thresholds of each power supply, start before end; then the platform
//! profile. Every setting is checked against the last scan. The plan ends at
//! the first setting that is refused: what comes before it is still to be
//! written, what comes after it is not.

use vstd::prelude::*;
use crate::cpu::{cpufreq_file, maximum_refusal, minimum_refusal, Cpu};
use crate::delta::{or_else, text_view, CpuDelta, CpuDeltaView, PowerDelta};
use crate::engine::{delta_views, Decision, DecisionView};

use crate::power_supply::{threshold_percent, threshold_refusal, PowerSupply};
use crate::sysfs::{platform_profile_path, ApplyError, Write};
use crate::system::System;
use crate::text::{decimal, joined, texts};

verus! {

/// One step of a plan.
#[derive(Debug, PartialEq, Eq)]
pub enum Step {
    /// Perform this write.
    Write(Write),
    /// Switch turbo boost on or off, trying one way after the other.
    Turbo(bool),
}

/// The mathematical content of a [`Step`].
pub enum StepView {
    Write { path: Seq<char>, value: Seq<char> },
    Turbo(bool),
}

impl View for Step {
    type V = StepView;

    open spec fn view(&self) -> StepView {
        match self {
            Step::Write(w) => StepView::Write { path: w.path@, value: w.value@ },
            Step::Turbo(on) => StepView::Turbo(*on),
        }
    }
}

/// The views of `steps`, in order.
pub open spec fn step_views(steps: Seq<Step>) -> Seq<StepView> {
    steps.map_values(|s: Step| s@)
}

/// The steps to perform, in order, and the refusal that ended the plan, if
/// one did.
#[derive(Debug, PartialEq, Eq)]
pub struct ApplyPlan {
    pub steps: Vec<Step>,
    pub failure: Option<ApplyError>,
}

/// A plan in the making: the steps so far, and the refusal that ended it.
pub struct Progress {
    pub steps: Seq<StepView>,
    pub failure: Option<ApplyError>,
}

impl Progress {
    /// The plan extended by a write, unless the plan has ended or `refusal`
    /// ends it.
    pub open spec fn write(self, path: Seq<char>, value: Seq<char>, refusal: Option<ApplyError>) -> Progress {
        if self.failure.is_some() {
            self
        } else {
            match refusal {
                Some(e) => Progress { steps: self.steps, failure: Some(e) },
                None => Progress {
                    steps: self.steps.push(StepView::Write { path, value }),
                    failure: None,
                },
            }
        }
    }

    /// The plan extended by a write of a name that must be among `offered`.
    pub open spec fn name(
        self,
        setting: Option<Seq<char>>,
        offered: Seq<Seq<char>>,
        path: Seq<char>,
        refusal: ApplyError,
    ) -> Progress {
        match setting {
            None => self,
            Some(value) => self.write(
                path,
                value,
                if offered.contains(value) {
                    None
                } else {
                    Some(refusal)
                },
            ),
        }
    }

    /// The plan extended by the switch of turbo boost.
    pub open spec fn turbo(self, setting: Option<bool>) -> Progress {
        match setting {
            Some(on) if self.failure.is_none() => Progress {
                steps: self.steps.push(StepView::Turbo(on)),
                failure: None,
            },
            _ => self,
        }
    }
}

/// The plan `before` extended by the settings of `delta` for `cpu`.
pub open spec fn cpu_progress(before: Progress, delta: CpuDeltaView, cpu: Cpu) -> Progress {
    let governor = before.name(
        delta.governor,
        texts(cpu.available_governors@),
        cpufreq_file(cpu.number, "scaling_governor"@),
        ApplyError::GovernorUnavailable,
    );
    let epp = governor.name(
        delta.energy_performance_preference,
        texts(cpu.available_epps@),
        cpufreq_file(cpu.number, "energy_performance_preference"@),
        ApplyError::EppUnavailable,
    );
    let epb = epp.name(
        delta.energy_performance_bias,
        texts(cpu.available_epbs@),
        cpufreq_file(cpu.number, "energy_performance_bias"@),
        ApplyError::EpbUnavailable,
    );
    let minimum = match delta.frequency_mhz_minimum {
        None => epb,
        Some(mhz) => epb.write(
            cpufreq_file(cpu.number, "scaling_min_freq"@),
            decimal((mhz * 1000) as nat),
            minimum_refusal(cpu.frequency_mhz_minimum, mhz),
        ),
    };
    match delta.frequency_mhz_maximum {
        None => minimum,
        Some(mhz) => minimum.write(
            cpufreq_file(cpu.number, "scaling_max_freq"@),
            decimal((mhz * 1000) as nat),
            maximum_refusal(cpu.frequency_mhz_maximum, mhz),
        ),
    }
}

/// The plan `before` extended by the thresholds of `delta` for `supply`.
pub open spec fn supply_progress(before: Progress, delta: PowerDelta, supply: PowerSupply) -> Progress {
    let start = match delta.charge_threshold_start {
        None => before,
        Some(fraction) => before.write(
            joined(supply.path@, supply.threshold_config.unwrap().path_start@),
            decimal(threshold_percent(fraction) as nat),
            threshold_refusal(supply, fraction),
        ),
    };
    match delta.charge_threshold_end {
        None => start,
        Some(fraction) => start.write(
            joined(supply.path@, supply.threshold_config.unwrap().path_end@),
            decimal(threshold_percent(fraction) as nat),
            threshold_refusal(supply, fraction),
        ),
    }
}

/// The smaller of two lengths.
pub open spec fn shorter(a: nat, b: nat) -> nat {
    if a < b {
        a
    } else {
        b
    }
}

/// The plan `before` extended by the deltas of the first `n` CPUs, in
/// their order.
pub open spec fn cpus_progress(
    before: Progress,
    deltas: Seq<CpuDeltaView>,
    cpus: Seq<Cpu>,
    n: nat,
) -> Progress
    decreases n,
{
    if n == 0 {
        before
    } else {
        cpu_progress(
            cpus_progress(before, deltas, cpus, (n - 1) as nat),
            deltas[n - 1],
            cpus[n - 1],
        )
    }
}

/// The plan `before` extended by the deltas of the first `n` power
/// supplies, in their order.
pub open spec fn supplies_progress(
    before: Progress,
    deltas: Seq<PowerDelta>,
    supplies: Seq<PowerSupply>,
    n: nat,
) -> Progress
    decreases n,
{
    if n == 0 {
        before
    } else {
        supply_progress(
            supplies_progress(before, deltas, supplies, (n - 1) as nat),
            deltas[n - 1],
            supplies[n - 1],
        )
    }
}

/// The plan after the CPUs of a decision: where the decision and the
/// system differ in their number of CPUs, the CPUs that both have.
pub open spec fn plan_of_cpus(decision: DecisionView, system: System) -> Progress {
    cpus_progress(
        Progress { steps: Seq::empty(), failure: None },
        decision.cpus,
        system.cpus@,
        shorter(decision.cpus.len(), system.cpus@.len()),
    )
}

/// The plan that carries out `decision` on `system`, where the platform
/// offers the profiles `profiles`.
pub open spec fn plan_of(decision: DecisionView, system: System, profiles: Seq<Seq<char>>) -> Progress {
    let turbo = plan_of_cpus(decision, system).turbo(decision.turbo);
    let supplies = supplies_progress(
        turbo,
        decision.power_supplies,
        system.power_supplies@,
        shorter(decision.power_supplies.len(), system.power_supplies@.len()),
    );
    supplies.name(
        decision.platform_profile,
        profiles,
        platform_profile_path(),
        ApplyError::ProfileUnavailable,
    )
}

/// `true` when a name is absent, or among `offered`.
pub open spec fn name_passes(setting: Option<Seq<char>>, offered: Seq<Seq<char>>) -> bool {
    match setting {
        Some(value) => offered.contains(value),
        None => true,
    }
}

/// The settings of `delta` that are planned for `cpu`: those up to the
/// first that is refused.
pub open spec fn cpu_taken(delta: CpuDeltaView, cpu: Cpu) -> CpuDeltaView {
    let governor = name_passes(delta.governor, texts(cpu.available_governors@));
    let epp = governor && name_passes(
        delta.energy_performance_preference,
        texts(cpu.available_epps@),
    );
    let epb = epp && name_passes(delta.energy_performance_bias, texts(cpu.available_epbs@));
    let minimum = epb && match delta.frequency_mhz_minimum {
        Some(mhz) => minimum_refusal(cpu.frequency_mhz_minimum, mhz).is_none(),
        None => true,
    };
    let maximum = minimum && match delta.frequency_mhz_maximum {
        Some(mhz) => maximum_refusal(cpu.frequency_mhz_maximum, mhz).is_none(),
        None => true,
    };
    CpuDeltaView {
        governor: if governor {
            delta.governor
        } else {
            None
        },
        energy_performance_preference: if epp {
            delta.energy_performance_preference
        } else {
            None
        },
        energy_performance_bias: if epb {
            delta.energy_performance_bias
        } else {
            None
        },
        frequency_mhz_minimum: if minimum {
            delta.frequency_mhz_minimum
        } else {
            None
        },
        frequency_mhz_maximum: if maximum {
            delta.frequency_mhz_maximum
        } else {
            None
        },
    }
}

/// The thresholds of `delta` that are planned for `supply`: those up to
/// the first that is refused.
pub open spec fn supply_taken(delta: PowerDelta, supply: PowerSupply) -> PowerDelta {
    let start = match delta.charge_threshold_start {
        Some(fraction) => threshold_refusal(supply, fraction).is_none(),
        None => true,
    };
    let end = start && match delta.charge_threshold_end {
        Some(fraction) => threshold_refusal(supply, fraction).is_none(),
        None => true,
    };
    PowerDelta {
        charge_threshold_start: if start {
            delta.charge_threshold_start
        } else {
            None
        },
        charge_threshold_end: if end {
            delta.charge_threshold_end
        } else {
            None
        },
    }
}

/// `after` is `before` with the settings of `delta` taken.
pub open spec fn cpu_settled(delta: CpuDeltaView, before: Cpu, after: Cpu) -> bool {
    &&& after.number == before.number
    &&& after.available_governors == before.available_governors
    &&& after.available_epps == before.available_epps
    &&& after.available_epbs == before.available_epbs
    &&& text_view(after.governor) == or_else(delta.governor, text_view(before.governor))
    &&& text_view(after.epp) == or_else(
        delta.energy_performance_preference,
        text_view(before.epp),
    )
    &&& text_view(after.epb) == or_else(delta.energy_performance_bias, text_view(before.epb))
    &&& after.frequency_mhz_minimum == or_else(
        delta.frequency_mhz_minimum,
        before.frequency_mhz_minimum,
    )
    &&& after.frequency_mhz_maximum == or_else(
        delta.frequency_mhz_maximum,
        before.frequency_mhz_maximum,
    )
}

/// `after` is `before` with the thresholds of `delta` taken.
pub open spec fn supply_settled(delta: PowerDelta, before: PowerSupply, after: PowerSupply) -> bool {
    &&& after.name == before.name
    &&& after.path == before.path
    &&& after.threshold_config == before.threshold_config
    &&& after.charge_threshold_start == match delta.charge_threshold_start {
        Some(f) => f,
        None => before.charge_threshold_start,
    }
    &&& after.charge_threshold_end == match delta.charge_threshold_end {
        Some(f) => f,
        None => before.charge_threshold_end,
    }
}

/// Idempotence for a CPU: once a delta was planned and the CPU has taken
/// the settings that were planned, planning the same delta again yields the
/// same writes, path by path and value by value, and the same refusal if
/// there was one.
pub proof fn lemma_cpu_apply_idempotent(delta: CpuDeltaView, before: Cpu, after: Cpu)
    requires
        cpu_settled(cpu_taken(delta, before), before, after),
    ensures
        cpu_progress(Progress { steps: Seq::empty(), failure: None }, delta, after)
            == cpu_progress(Progress { steps: Seq::empty(), failure: None }, delta, before),
{
}

/// Idempotence for a power supply, as for a CPU.
pub proof fn lemma_supply_apply_idempotent(
    delta: PowerDelta,
    before: PowerSupply,
    after: PowerSupply,
)
    requires
        supply_settled(supply_taken(delta, before), before, after),
    ensures
        supply_progress(Progress { steps: Seq::empty(), failure: None }, delta, after)
            == supply_progress(Progress { steps: Seq::empty(), failure: None }, delta, before),
{
}

/// What has become of CPU `k` while the plan was made: a CPU whose turn
/// came before the plan ended has taken the settings planned for it, and
/// every other CPU is as it was.
pub open spec fn cpu_settled_at(
    start: Progress,
    deltas: Seq<CpuDeltaView>,
    before: Seq<Cpu>,
    after: Seq<Cpu>,
    k: int,
) -> bool {
    if k < deltas.len() && cpus_progress(start, deltas, before, k as nat).failure.is_none() {
        cpu_settled(cpu_taken(deltas[k], before[k]), before[k], after[k])
    } else {
        after[k] == before[k]
    }
}

/// What has become of power supply `k` while the plan was made, as
/// [`cpu_settled_at`] says it of a CPU.
pub open spec fn supply_settled_at(
    start: Progress,
    deltas: Seq<PowerDelta>,
    before: Seq<PowerSupply>,
    after: Seq<PowerSupply>,
    k: int,
) -> bool {
    if k < deltas.len() && supplies_progress(start, deltas, before, k as nat).failure.is_none() {
        supply_settled(supply_taken(deltas[k], before[k]), before[k], after[k])
    } else {
        after[k] == before[k]
    }
}

/// What has become of the CPUs while the plan was made.
pub open spec fn cpus_settled(
    start: Progress,
    deltas: Seq<CpuDeltaView>,
    before: Seq<Cpu>,
    after: Seq<Cpu>,
) -> bool {
    &&& after.len() == before.len()
    &&& forall|k: int|
        0 <= k < before.len() ==> #[trigger] cpu_settled_at(start, deltas, before, after, k)
}

/// What has become of the power supplies while the plan was made.
pub open spec fn supplies_settled(
    start: Progress,
    deltas: Seq<PowerDelta>,
    before: Seq<PowerSupply>,
    after: Seq<PowerSupply>,
) -> bool {
    &&& after.len() == before.len()
    &&& forall|k: int|
        0 <= k < before.len() ==> #[trigger] supply_settled_at(start, deltas, before, after, k)
}

/// What has become of `system` while the plan of `decision` was made.
pub open spec fn system_settled(decision: DecisionView, before: System, after: System) -> bool {
    &&& cpus_settled(
        Progress { steps: Seq::empty(), failure: None },
        decision.cpus,
        before.cpus@,
        after.cpus@,
    )
    &&& supplies_settled(
        plan_of_cpus(decision, before).turbo(decision.turbo),
        decision.power_supplies,
        before.power_supplies@,
        after.power_supplies@,
    )
}

/// The plan of the first `n` CPUs is the same for the CPUs as they were
/// and as they are once they have settled.
proof fn lemma_cpus_progress_settled(
    start: Progress,
    deltas: Seq<CpuDeltaView>,
    before: Seq<Cpu>,
    after: Seq<Cpu>,
    n: nat,
)
    requires
        cpus_settled(start, deltas, before, after),
        n <= deltas.len(),
        n <= before.len(),
    ensures
        cpus_progress(start, deltas, after, n) == cpus_progress(start, deltas, before, n),
    decreases n,
{
    if n > 0 {
        let k = (n - 1) as nat;
        lemma_cpus_progress_settled(start, deltas, before, after, k);
        assert(cpu_settled_at(start, deltas, before, after, k as int));
    }
}

/// The plan of the first `n` power supplies is the same for the supplies
/// as they were and as they are once they have settled.
proof fn lemma_supplies_progress_settled(
    start: Progress,
    deltas: Seq<PowerDelta>,
    before: Seq<PowerSupply>,
    after: Seq<PowerSupply>,
    n: nat,
)
    requires
        supplies_settled(start, deltas, before, after),
        n <= deltas.len(),
        n <= before.len(),
    ensures
        supplies_progress(start, deltas, after, n) == supplies_progress(start, deltas, before, n),
    decreases n,
{
    if n > 0 {
        let k = (n - 1) as nat;
        lemma_supplies_progress_settled(start, deltas, before, after, k);
        assert(supply_settled_at(start, deltas, before, after, k as int));
    }
}

/// Idempotence for a system: once a decision was planned and the system
/// has taken what was planned, planning the same decision again yields the
/// same steps and the same refusal.
pub proof fn lemma_plan_idempotent(
    decision: DecisionView,
    before: System,
    after: System,
    profiles: Seq<Seq<char>>,
)
    requires
        system_settled(decision, before, after),
    ensures
        plan_of(decision, after, profiles) == plan_of(decision, before, profiles),
{
    let empty = Progress { steps: Seq::empty(), failure: None };
    lemma_cpus_progress_settled(
        empty,
        decision.cpus,
        before.cpus@,
        after.cpus@,
        shorter(decision.cpus.len(), before.cpus@.len()),
    );
    lemma_supplies_progress_settled(
        plan_of_cpus(decision, before).turbo(decision.turbo),
        decision.power_supplies,
        before.power_supplies@,
        after.power_supplies@,
        shorter(decision.power_supplies.len(), before.power_supplies@.len()),
    );
}

/// The progress that a plan in the making stands for.
pub open spec fn progress_of(plan: ApplyPlan) -> Progress {
    Progress { steps: step_views(plan.steps@), failure: plan.failure }
}

impl ApplyPlan {
    fn record(&mut self, outcome: Result<Write, ApplyError>)
        requires
            old(self).failure.is_none(),
        ensures
            match outcome {
                Ok(w) => progress_of(*final(self)) == (Progress {
                    steps: step_views(old(self).steps@).push(
                        StepView::Write { path: w.path@, value: w.value@ },
                    ),
                    failure: None,
                }),
                Err(e) => progress_of(*final(self)) == (Progress {
                    steps: step_views(old(self).steps@),
                    failure: Some(e),
                }),
            },
    {
        match outcome {
            Ok(w) => {
                let ghost before = step_views(self.steps@);
                let ghost view = StepView::Write { path: w.path@, value: w.value@ };
                self.steps.push(Step::Write(w));
                assert(step_views(self.steps@) =~= before.push(view));
            },
            Err(e) => {
                self.failure = Some(e);
            },
        }
    }
}

impl CpuDelta {
    /// Adds the writes that set this delta on `cpu` to `plan`, each checked
    /// against what `cpu` offers and allows. The CPU takes the settings
    /// that are planned.
    pub fn apply(&self, cpu: &mut Cpu, plan: &mut ApplyPlan)
        ensures
            progress_of(*final(plan)) == cpu_progress(progress_of(*old(plan)), self@, *old(cpu)),
            final(cpu).number == old(cpu).number,
            old(plan).failure.is_none() ==> cpu_settled(
                cpu_taken(self@, *old(cpu)),
                *old(cpu),
                *final(cpu),
            ),
            old(plan).failure.is_some() ==> *final(cpu) == *old(cpu),
    {
        let ghost start = *cpu;
        if plan.failure.is_none() {
            if let Some(governor) = &self.governor {
                let outcome = cpu.set_governor(governor.as_str());
                plan.record(outcome);
            }
        }
        if plan.failure.is_none() {
            if let Some(epp) = &self.energy_performance_preference {
                let outcome = cpu.set_epp(epp.as_str());
                plan.record(outcome);
            }
        }
        if plan.failure.is_none() {
            if let Some(epb) = &self.energy_performance_bias {
                let outcome = cpu.set_epb(epb.as_str());
                plan.record(outcome);
            }
        }
        if plan.failure.is_none() {
            if let Some(mhz) = self.frequency_mhz_minimum {
                let outcome = cpu.set_frequency_mhz_minimum(mhz);
                plan.record(outcome);
            }
        }
        if plan.failure.is_none() {
            if let Some(mhz) = self.frequency_mhz_maximum {
                let outcome = cpu.set_frequency_mhz_maximum(mhz);
                plan.record(outcome);
            }
        }
    }
}

impl PowerDelta {
    /// Adds the writes that set this delta on `supply` to `plan`. The power
    /// supply takes the thresholds that are planned.
    pub fn apply(&self, supply: &mut PowerSupply, plan: &mut ApplyPlan)
        ensures
            progress_of(*final(plan)) == supply_progress(
                progress_of(*old(plan)),
                *self,
                *old(supply),
            ),
            final(supply).name == old(supply).name,
            old(plan).failure.is_none() ==> supply_settled(
                supply_taken(*self, *old(supply)),
                *old(supply),
                *final(supply),
            ),
            old(plan).failure.is_some() ==> *final(supply) == *old(supply),
    {
        if plan.failure.is_none() {
            if let Some(fraction) = self.charge_threshold_start {
                let outcome = supply.set_charge_threshold_start(fraction);
                plan.record(outcome);
            }
        }
        if plan.failure.is_none() {
            if let Some(fraction) = self.charge_threshold_end {
                let outcome = supply.set_charge_threshold_end(fraction);
                plan.record(outcome);
            }
        }
    }
}

fn plan_cpus(deltas: &Vec<CpuDelta>, cpus: &mut Vec<Cpu>, plan: &mut ApplyPlan)
    ensures
        progress_of(*final(plan)) == cpus_progress(
            progress_of(*old(plan)),
            delta_views(deltas@),
            old(cpus)@,
            shorter(deltas@.len(), old(cpus)@.len()),
        ),
        cpus_settled(progress_of(*old(plan)), delta_views(deltas@), old(cpus)@, final(cpus)@),
{
    let ghost start = progress_of(*plan);
    let ghost before = cpus@;
    let ghost views = delta_views(deltas@);
    let mut i: usize = 0;
    while i < deltas.len() && i < cpus.len()
        invariant
            i <= deltas@.len(),
            i <= cpus@.len(),
            views == delta_views(deltas@),
            views.len() == deltas@.len(),
            cpus@.len() == before.len(),
            progress_of(*plan) == cpus_progress(start, views, before, i as nat),
            forall|k: int| i <= k < before.len() ==> cpus@[k] == before[k],
            forall|k: int| 0 <= k < i ==> cpu_settled_at(start, views, before, cpus@, k),
        decreases deltas.len() - i,
    {
        let ghost mid = cpus@;
        deltas[i].apply(&mut cpus[i], plan);
        proof {
            let after = cpus@;
            assert(views[i as int] == deltas@[i as int]@);
            assert forall|k: int| 0 <= k < i + 1 implies cpu_settled_at(
                start,
                views,
                before,
                after,
                k,
            ) by {
                if k < i {
                    assert(after[k] == mid[k]);
                    assert(cpu_settled_at(start, views, before, mid, k));
                } else {
                    assert(mid[k] == before[k]);
                }
            }
        }
        i += 1;
    }
    proof {
        let after = cpus@;
        assert forall|k: int| 0 <= k < before.len() implies #[trigger] cpu_settled_at(
            start,
            views,
            before,
            after,
            k,
        ) by {
            if k >= i {
                assert(after[k] == before[k]);
            }
        }
    }
}

fn plan_supplies(deltas: &Vec<PowerDelta>, supplies: &mut Vec<PowerSupply>, plan: &mut ApplyPlan)
    ensures
        progress_of(*final(plan)) == supplies_progress(
            progress_of(*old(plan)),
            deltas@,
            old(supplies)@,
            shorter(deltas@.len(), old(supplies)@.len()),
        ),
        supplies_settled(progress_of(*old(plan)), deltas@, old(supplies)@, final(supplies)@),
{
    let ghost start = progress_of(*plan);
    let ghost before = supplies@;
    let mut j: usize = 0;
    while j < deltas.len() && j < supplies.len()
        invariant
            j <= deltas@.len(),
            j <= supplies@.len(),
            supplies@.len() == before.len(),
            progress_of(*plan) == supplies_progress(start, deltas@, before, j as nat),
            forall|k: int| j <= k < before.len() ==> supplies@[k] == before[k],
            forall|k: int| 0 <= k < j ==> supply_settled_at(start, deltas@, before, supplies@, k),
        decreases deltas.len() - j,
    {
        let ghost mid = supplies@;
        deltas[j].apply(&mut supplies[j], plan);
        proof {
            let after = supplies@;
            assert forall|k: int| 0 <= k < j + 1 implies supply_settled_at(
                start,
                deltas@,
                before,
                after,
                k,
            ) by {
                if k < j {
                    assert(after[k] == mid[k]);
                    assert(supply_settled_at(start, deltas@, before, mid, k));
                } else {
                    assert(mid[k] == before[k]);
                }
            }
        }
        j += 1;
    }
    proof {
        let after = supplies@;
        assert forall|k: int| 0 <= k < before.len() implies #[trigger] supply_settled_at(
            start,
            deltas@,
            before,
            after,
            k,
        ) by {
            if k >= j {
                assert(after[k] == before[k]);
            }
        }
    }
}

impl Decision {
    /// The plan that carries out this decision on `system`, where the
    /// platform offers `profiles`. The CPUs and power supplies of `system`
    /// take the settings that are planned for them.
    pub fn plan(&self, system: &mut System, profiles: &Vec<String>) -> (r: ApplyPlan)
        ensures
            progress_of(r) == plan_of(self@, *old(system), texts(profiles@)),
            system_settled(self@, *old(system), *final(system)),
    {
        let mut plan = ApplyPlan { steps: Vec::new(), failure: None };
        assert(step_views(plan.steps@) =~= Seq::<StepView>::empty());
        plan_cpus(&self.cpus, &mut system.cpus, &mut plan);
        if plan.failure.is_none() {
            if let Some(on) = self.turbo {
                let ghost before = step_views(plan.steps@);
                plan.steps.push(Step::Turbo(on));
                assert(step_views(plan.steps@) =~= before.push(StepView::Turbo(on)));
            }
        }
        plan_supplies(&self.power_supplies, &mut system.power_supplies, &mut plan);
        if plan.failure.is_none() {
            if let Some(profile) = &self.platform_profile {
                let outcome = PowerSupply::set_platform_profile(profile.as_str(), profiles);
                plan.record(outcome);
            }
        }
        plan
    }
}

} // verus!
