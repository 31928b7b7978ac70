//! Switch orchestration: choosing the actuator for a switch, the partition guard, the
//! "don't blind the operator" guard, and preset planning/execution.

use crate::ownership::{OwnershipMap, RecordView};
use crate::reconcile::owner_in;
use crate::text::{str_eq, string_views};
use crate::types::{effective_success, SwitchDirection, SwitchOutcome};
use vstd::prelude::*;

verus! {

/// One resolved switch: which peer performs the write for which target.
#[derive(Debug, Clone, PartialEq, Eq)]
pub struct SwitchOp {
    pub monitor_id: String,
    pub target: String,
    pub actuator: String,
    pub direction: SwitchDirection,
}

/// Why a switch cannot be actuated.
#[derive(Debug, Clone, PartialEq, Eq)]
pub enum ActuationError {
    /// The peer that would have to write is unknown or offline.
    Stranded { monitor_id: String, owner: Option<String> },
    /// The mesh is partitioned; disruptive operations pause.
    Degraded { monitor_id: String },
}

fn contains_str(list: &[String], x: &str) -> (b: bool)
    ensures
        b == string_views(list@).contains(x@),
{
    let mut i: usize = 0;
    while i < list.len()
        invariant
            i <= list@.len(),
            forall|j: int| 0 <= j < i ==> list@[j]@ != x@,
        decreases list@.len() - i,
    {
        if str_eq(list[i].as_str(), x) {
            proof {
                assert(string_views(list@)[i as int] == x@);
            }
            return true;
        }
        i = i + 1;
    }
    proof {
        if string_views(list@).contains(x@) {
            let j = choose|j: int| 0 <= j < string_views(list@).len() && string_views(list@)[j] == x@;
            assert(list@[j]@ == x@);
        }
    }
    false
}

/// Decide who performs a switch. A degraded mesh refuses; pull-to-self is written by the target
/// itself; push-release by the current owner (stranded when unknown); either way the actuator
/// must be online.
pub fn resolve_actuation(
    monitor_id: &str,
    target: &str,
    direction: SwitchDirection,
    ownership: &OwnershipMap,
    online: &[String],
    degraded: bool,
) -> (r: Result<SwitchOp, ActuationError>)
    requires
        ownership.wf(),
    ensures
        ({
            let actuator = match direction {
                SwitchDirection::PullToSelf => Some(target@),
                SwitchDirection::PushRelease => owner_in(ownership@, monitor_id@),
            };
            if degraded {
                r matches Err(ActuationError::Degraded { monitor_id: m }) && m@ == monitor_id@
            } else if actuator is None {
                r matches Err(ActuationError::Stranded { monitor_id: m, owner: None }) && m@ == monitor_id@
            } else if !string_views(online@).contains(actuator->0) {
                r matches Err(ActuationError::Stranded { monitor_id: m, owner: Some(o) }) && m@ == monitor_id@ && o@
                    == actuator->0
            } else {
                r matches Ok(op) && op.monitor_id@ == monitor_id@ && op.target@ == target@ && op.actuator@ == actuator->0
                    && op.direction == direction
            }
        }),
{
    if degraded {
        return Err(ActuationError::Degraded { monitor_id: monitor_id.to_owned() });
    }
    let actuator = match direction {
        SwitchDirection::PullToSelf => target.to_owned(),
        SwitchDirection::PushRelease => match ownership.owner(monitor_id) {
            Some(o) => o.to_owned(),
            None => {
                return Err(ActuationError::Stranded { monitor_id: monitor_id.to_owned(), owner: None });
            },
        },
    };
    if !contains_str(online, actuator.as_str()) {
        return Err(ActuationError::Stranded { monitor_id: monitor_id.to_owned(), owner: Some(actuator) });
    }
    Ok(SwitchOp { monitor_id: monitor_id.to_owned(), target: target.to_owned(), actuator, direction })
}

/// The peer a preset assigns to `monitor`: the last assignment for it, if any.
pub open spec fn assigned_to(assignments: Seq<(String, String)>, monitor: Seq<char>) -> Option<Seq<char>>
    decreases assignments.len(),
{
    if assignments.len() == 0 {
        None
    } else if assignments.last().0@ == monitor {
        Some(assignments.last().1@)
    } else {
        assigned_to(assignments.drop_last(), monitor)
    }
}

/// Who drives `monitor` once the preset is applied: its assignment, else its current owner.
pub open spec fn final_owner(
    assignments: Seq<(String, String)>,
    ownership: Map<Seq<char>, RecordView>,
    monitor: Seq<char>,
) -> Option<Seq<char>> {
    match assigned_to(assignments, monitor) {
        Some(p) => Some(p),
        None => owner_in(ownership, monitor),
    }
}

/// The operator owns some monitor now but none after the preset: they would lose their screen.
pub open spec fn goes_blind(
    me: Seq<char>,
    assignments: Seq<(String, String)>,
    ownership: Map<Seq<char>, RecordView>,
    all: Seq<String>,
) -> bool {
    &&& exists|i: int| 0 <= i < all.len() && owner_in(ownership, #[trigger] all[i]@) == Some(me)
    &&& !exists|i: int| 0 <= i < all.len() && final_owner(assignments, ownership, #[trigger] all[i]@) == Some(me)
}

fn assigned(assignments: &[(String, String)], monitor: &str) -> (r: Option<String>)
    ensures
        opt_str(r) == assigned_to(assignments@, monitor@),
{
    let mut i: usize = assignments.len();
    proof {
        assert(assignments@.subrange(0, i as int) =~= assignments@);
    }
    while i > 0
        invariant
            i <= assignments@.len(),
            assigned_to(assignments@, monitor@) == assigned_to(assignments@.subrange(0, i as int), monitor@),
        decreases i,
    {
        let ghost pre = assignments@.subrange(0, i as int);
        proof {
            assert(pre.drop_last() =~= assignments@.subrange(0, i - 1));
            assert(pre.last() == assignments@[i - 1]);
        }
        if str_eq(assignments[i - 1].0.as_str(), monitor) {
            return Some(assignments[i - 1].1.clone());
        }
        i = i - 1;
    }
    proof {
        assert(assignments@.subrange(0, 0) =~= Seq::<(String, String)>::empty());
    }
    None
}

/// The view of an optional `String`.
pub open spec fn opt_str(o: Option<String>) -> Option<Seq<char>> {
    match o {
        Some(s) => Some(s@),
        None => None,
    }
}

fn is_owned_by(ownership: &OwnershipMap, monitor: &str, me: &str) -> (b: bool)
    requires
        ownership.wf(),
    ensures
        b == (owner_in(ownership@, monitor@) == Some(me@)),
{
    match ownership.owner(monitor) {
        Some(o) => str_eq(o, me),
        None => false,
    }
}

/// True if applying `assignments` would leave the operator (`me`) owning none of the monitors
/// while they own at least one now.
pub fn would_go_blind(me: &str, assignments: &[(String, String)], ownership: &OwnershipMap, all_monitors: &[String]) -> (b: bool)
    requires
        ownership.wf(),
    ensures
        b == goes_blind(me@, assignments@, ownership@, all_monitors@),
{
    let mut owns_before = false;
    let mut owns_after = false;
    let mut i: usize = 0;
    while i < all_monitors.len()
        invariant
            ownership.wf(),
            i <= all_monitors@.len(),
            owns_before == exists|j: int| 0 <= j < i && owner_in(ownership@, #[trigger] all_monitors@[j]@) == Some(me@),
            owns_after == exists|j: int|
                0 <= j < i && final_owner(assignments@, ownership@, #[trigger] all_monitors@[j]@) == Some(me@),
        decreases all_monitors@.len() - i,
    {
        let m = all_monitors[i].as_str();
        if is_owned_by(ownership, m, me) {
            owns_before = true;
        }
        let after = match assigned(assignments, m) {
            Some(p) => str_eq(p.as_str(), me),
            None => is_owned_by(ownership, m, me),
        };
        if after {
            owns_after = true;
        }
        proof {
            assert(after == (final_owner(assignments@, ownership@, all_monitors@[i as int]@) == Some(me@)));
        }
        i = i + 1;
    }
    owns_before && !owns_after
}

/// One step of a preset.
#[derive(Debug, PartialEq, Eq)]
pub struct PlannedSwitch {
    pub monitor_id: String,
    pub target: String,
}

/// An ordered preset plan.
#[derive(Debug, Clone, PartialEq, Eq)]
pub struct SwitchPlan {
    pub ops: Vec<PlannedSwitch>,
    pub blinds_operator: bool,
    pub degraded: bool,
}

/// The monitor/target pairs of a plan's steps.
pub open spec fn plan_pairs(ops: Seq<PlannedSwitch>) -> Seq<(Seq<char>, Seq<char>)> {
    ops.map_values(|p: PlannedSwitch| (p.monitor_id@, p.target@))
}

/// The assignments, viewed.
pub open spec fn assignment_pairs(a: Seq<(String, String)>) -> Seq<(Seq<char>, Seq<char>)> {
    a.map_values(|p: (String, String)| (p.0@, p.1@))
}

/// The assignments whose monitor is (`mine`) or is not (`!mine`) currently owned by `me`, in
/// their original order.
pub open spec fn owned_part(
    a: Seq<(String, String)>,
    ownership: Map<Seq<char>, RecordView>,
    me: Seq<char>,
    mine: bool,
) -> Seq<(Seq<char>, Seq<char>)>
    decreases a.len(),
{
    if a.len() == 0 {
        seq![]
    } else {
        let prev = owned_part(a.drop_last(), ownership, me, mine);
        if (owner_in(ownership, a.last().0@) == Some(me)) == mine {
            prev.push((a.last().0@, a.last().1@))
        } else {
            prev
        }
    }
}

/// Plan a preset. A degraded mesh plans nothing. Otherwise the operator's own panels move last
/// (so they keep a screen as long as possible), the order within each group is kept, and the
/// plan flags whether the operator would end up blind.
pub fn plan_preset(
    me: &str,
    assignments: &[(String, String)],
    ownership: &OwnershipMap,
    all_monitors: &[String],
    degraded: bool,
) -> (plan: SwitchPlan)
    requires
        ownership.wf(),
    ensures
        degraded ==> plan.ops@.len() == 0 && !plan.blinds_operator && plan.degraded,
        !degraded ==> plan_pairs(plan.ops@) == owned_part(assignments@, ownership@, me@, false) + owned_part(
            assignments@,
            ownership@,
            me@,
            true,
        ) && plan.blinds_operator == goes_blind(me@, assignments@, ownership@, all_monitors@) && !plan.degraded,
{
    if degraded {
        let plan = SwitchPlan { ops: Vec::new(), blinds_operator: false, degraded: true };
        return plan;
    }
    let mut others: Vec<PlannedSwitch> = Vec::new();
    let mut mine: Vec<PlannedSwitch> = Vec::new();
    let mut i: usize = 0;
    while i < assignments.len()
        invariant
            ownership.wf(),
            i <= assignments@.len(),
            plan_pairs(others@) == owned_part(assignments@.subrange(0, i as int), ownership@, me@, false),
            plan_pairs(mine@) == owned_part(assignments@.subrange(0, i as int), ownership@, me@, true),
        decreases assignments@.len() - i,
    {
        let (m, p) = (&assignments[i].0, &assignments[i].1);
        let step = PlannedSwitch { monitor_id: m.clone(), target: p.clone() };
        let ghost pre = assignments@.subrange(0, i + 1);
        proof {
            assert(pre.drop_last() =~= assignments@.subrange(0, i as int));
            assert(pre.last() == assignments@[i as int]);
        }
        if is_owned_by(ownership, m.as_str(), me) {
            let ghost prev = mine@;
            mine.push(step);
            proof {
                assert(plan_pairs(mine@) =~= plan_pairs(prev).push((m@, p@)));
            }
        } else {
            let ghost prev = others@;
            others.push(step);
            proof {
                assert(plan_pairs(others@) =~= plan_pairs(prev).push((m@, p@)));
            }
        }
        i = i + 1;
    }
    proof {
        assert(assignments@.subrange(0, assignments@.len() as int) =~= assignments@);
    }
    let ghost first = others@;
    let mut j: usize = 0;
    while j < mine.len()
        invariant
            j <= mine@.len(),
            others@ == first + mine@.subrange(0, j as int),
        decreases mine@.len() - j,
    {
        others.push(mine[j].clone());
        proof {
            assert(first + mine@.subrange(0, j + 1) =~= (first + mine@.subrange(0, j as int)).push(mine@[j as int]));
        }
        j = j + 1;
    }
    proof {
        assert(mine@.subrange(0, mine@.len() as int) =~= mine@);
        assert(plan_pairs(others@) =~= plan_pairs(first) + plan_pairs(mine@));
    }
    let blinds = would_go_blind(me, assignments, ownership, all_monitors);
    SwitchPlan { ops: others, blinds_operator: blinds, degraded: false }
}

impl Clone for PlannedSwitch {
    fn clone(&self) -> (r: Self)
        ensures
            r == *self,
    {
        PlannedSwitch { monitor_id: self.monitor_id.clone(), target: self.target.clone() }
    }
}

/// The result of one preset step.
#[derive(Debug, Clone, PartialEq, Eq)]
pub struct SwitchOpResult {
    pub monitor_id: String,
    pub target: String,
    pub outcome: SwitchOutcome,
}

/// All step results of a preset, in plan order.
#[derive(Debug, Clone, PartialEq, Eq, Default)]
pub struct PresetOutcome {
    pub results: Vec<SwitchOpResult>,
}

impl PresetOutcome {
    /// Non-empty and every step effectively succeeded.
    pub fn all_succeeded(&self) -> (b: bool)
        ensures
            b == (self.results@.len() > 0 && forall|i: int|
                0 <= i < self.results@.len() ==> effective_success(#[trigger] self.results@[i].outcome)),
    {
        if self.results.len() == 0 {
            return false;
        }
        let mut i: usize = 0;
        while i < self.results.len()
            invariant
                i <= self.results@.len(),
                forall|j: int| 0 <= j < i ==> effective_success(#[trigger] self.results@[j].outcome),
            decreases self.results@.len() - i,
        {
            if !self.results[i].outcome.is_effective_success() {
                return false;
            }
            i = i + 1;
        }
        true
    }

    /// The steps that did not effectively succeed, in order.
    pub fn failures(&self) -> (f: Vec<&SwitchOpResult>)
        ensures
            f@.map_values(|r: &SwitchOpResult| *r) == self.results@.filter(|r: SwitchOpResult| !effective_success(r.outcome)),
    {
        let mut f: Vec<&SwitchOpResult> = Vec::new();
        let mut i: usize = 0;
        while i < self.results.len()
            invariant
                i <= self.results@.len(),
                f@.map_values(|r: &SwitchOpResult| *r) == self.results@.subrange(0, i as int).filter(
                    |r: SwitchOpResult| !effective_success(r.outcome),
                ),
            decreases self.results@.len() - i,
        {
            let r = &self.results[i];
            let ghost prev = f@;
            proof {
                let s = self.results@.subrange(0, i + 1);
                assert(s.drop_last() =~= self.results@.subrange(0, i as int));
                reveal_with_fuel(Seq::filter, 2);
                assert(s.last() == *r);
            }
            if !r.outcome.is_effective_success() {
                f.push(r);
                proof {
                    assert(f@.map_values(|r: &SwitchOpResult| *r) =~= prev.map_values(|r: &SwitchOpResult| *r).push(*r));
                }
            } else {
                proof {
                    assert(f@ == prev);
                }
            }
            i = i + 1;
        }
        proof {
            assert(self.results@.subrange(0, self.results@.len() as int) =~= self.results@);
        }
        f
    }

    /// Some steps succeeded and some did not.
    pub fn partial_failure(&self) -> (b: bool)
        ensures
            b == ((exists|i: int| 0 <= i < self.results@.len() && effective_success(#[trigger] self.results@[i].outcome))
                && (exists|i: int| 0 <= i < self.results@.len() && !effective_success(#[trigger] self.results@[i].outcome))),
    {
        let mut any_ok = false;
        let mut any_fail = false;
        let mut i: usize = 0;
        while i < self.results.len()
            invariant
                i <= self.results@.len(),
                any_ok == exists|j: int| 0 <= j < i && effective_success(#[trigger] self.results@[j].outcome),
                any_fail == exists|j: int| 0 <= j < i && !effective_success(#[trigger] self.results@[j].outcome),
            decreases self.results@.len() - i,
        {
            if self.results[i].outcome.is_effective_success() {
                any_ok = true;
            } else {
                any_fail = true;
            }
            i = i + 1;
        }
        any_ok && any_fail
    }
}

/// Run every step of `plan` in order through `perform` (which actuates one step and reports
/// its outcome) and collect the results. A degraded plan has no steps, so nothing is actuated.
/// The `i`-th result carries the `i`-th step's monitor and target and an outcome that `perform`
/// returned for that step; steps after a failed one are still performed.
pub fn execute_plan<F: FnMut(&PlannedSwitch) -> SwitchOutcome>(plan: &SwitchPlan, perform: F) -> (out: PresetOutcome)
    requires
        forall|op: &PlannedSwitch| call_requires(perform, (op,)),
    ensures
        out.results@.len() == plan.ops@.len(),
        forall|i: int| #![trigger out.results@[i]]
            0 <= i < plan.ops@.len() ==> out.results@[i].monitor_id == plan.ops@[i].monitor_id && out.results@[i].target
                == plan.ops@[i].target && call_ensures(perform, (&plan.ops@[i],), out.results@[i].outcome),
{
    let ghost performer = perform;
    let mut perform = perform;
    let mut results: Vec<SwitchOpResult> = Vec::new();
    let mut i: usize = 0;
    while i < plan.ops.len()
        invariant
            i <= plan.ops@.len(),
            results@.len() == i,
            perform == performer,
            forall|op: &PlannedSwitch| call_requires(perform, (op,)),
            forall|j: int| #![trigger results@[j]]
                0 <= j < i ==> results@[j].monitor_id == plan.ops@[j].monitor_id && results@[j].target == plan.ops@[j].target
                    && call_ensures(performer, (&plan.ops@[j],), results@[j].outcome),
        decreases plan.ops@.len() - i,
    {
        let op = &plan.ops[i];
        let outcome = perform(op);
        results.push(SwitchOpResult { monitor_id: op.monitor_id.clone(), target: op.target.clone(), outcome });
        i = i + 1;
    }
    PresetOutcome { results }
}

} // verus!
