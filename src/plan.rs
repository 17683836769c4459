use vstd::prelude::*;
use crate::path::join_segments;
use crate::model::{Transition, TransitionType};
use crate::predicate::{Snapshot, eval_spec};
use crate::store::StateStore;
use crate::value::{SPValue, ValueModel, render};

verus! {

/// Where a step of the plan stands.
#[derive(Debug, Clone, Copy, PartialEq, Eq)]
pub enum StepClass {
    /// A controlled step that the cursor has passed.
    Done,
    /// The controlled step that the cursor points at.
    Current,
    /// A controlled step not reached yet, with its guard and runner guard
    /// evaluated against the state.
    Future { guard: bool, runner_guard: bool },
    /// An uncontrolled step: an automatic effect, never compared with the
    /// cursor.
    Effect,
    /// A step that names no transition of the model.
    Unknown,
}

/// One step of the plan with its classification.
pub struct PlanStep {
    pub path: String,
    pub class: StepClass,
}

/// The index of the first transition, from `j` on, whose path reads `name`.
pub open spec fn find_from(ts: Seq<Transition>, name: Seq<char>, j: int) -> Option<int>
    decreases ts.len() - j,
{
    if j < 0 || j >= ts.len() {
        None
    } else if join_segments(ts[j].path@) == name {
        Some(j)
    } else {
        find_from(ts, name, j + 1)
    }
}

proof fn lemma_find_from_range(ts: Seq<Transition>, name: Seq<char>, j: int)
    ensures
        find_from(ts, name, j).is_some() ==> j <= find_from(ts, name, j).unwrap() < ts.len(),
    decreases ts.len() - j,
{
    if 0 <= j < ts.len() {
        lemma_find_from_range(ts, name, j + 1);
    }
}

/// The first transition whose path reads `name`.
pub open spec fn find_transition(ts: Seq<Transition>, name: Seq<char>) -> Option<int> {
    find_from(ts, name, 0)
}

/// Whether a step names a controlled transition.
pub open spec fn is_controlled_step(ts: Seq<Transition>, name: Seq<char>) -> bool {
    match find_transition(ts, name) {
        Some(t) => ts[t].type_ == TransitionType::Controlled,
        None => false,
    }
}

/// How many of the steps name a controlled transition.
pub open spec fn controlled_count(ts: Seq<Transition>, steps: Seq<Seq<char>>) -> int
    decreases steps.len(),
{
    if steps.len() == 0 {
        0
    } else {
        controlled_count(ts, steps.drop_last()) + if is_controlled_step(ts, steps.last()) {
            1int
        } else {
            0int
        }
    }
}

/// The class of step `i`: a controlled step is numbered from 1 in plan
/// order, and that number is compared with the cursor.
pub open spec fn step_class(
    ts: Seq<Transition>,
    steps: Seq<Seq<char>>,
    i: int,
    cursor: int,
    s: Snapshot,
) -> StepClass {
    match find_transition(ts, steps[i]) {
        None => StepClass::Unknown,
        Some(t) => if ts[t].type_ == TransitionType::Uncontrolled {
            StepClass::Effect
        } else {
            let idx = controlled_count(ts, steps.take(i + 1));
            if idx > cursor {
                StepClass::Future {
                    guard: eval_spec(ts[t].guard, s),
                    runner_guard: eval_spec(ts[t].runner_guard, s),
                }
            } else if idx == cursor {
                StepClass::Current
            } else {
                StepClass::Done
            }
        },
    }
}

/// Whether a value names a step of a plan: a path, or a path written as a
/// string.
pub open spec fn is_step_item(v: ValueModel) -> bool {
    v is Path || v is String
}

/// The steps of a plan value: the texts of the items of an array of paths,
/// and no steps for any other value or for no value.
pub open spec fn plan_of(v: Option<ValueModel>) -> Seq<Seq<char>> {
    match v {
        Some(ValueModel::Array(xs)) => if forall|i: int| 0 <= i < xs.len() ==> is_step_item(#[trigger] xs[i]) {
            Seq::new(xs.len(), |i: int| render(xs[i]))
        } else {
            Seq::empty()
        },
        _ => Seq::empty(),
    }
}

/// The cursor that a value holds: an integer, and 0 for any other value or
/// for no value.
pub open spec fn cursor_of(v: Option<ValueModel>) -> int {
    match v {
        Some(ValueModel::Int32(i)) => i as int,
        _ => 0,
    }
}

/// The first transition whose path reads `name`.
pub fn find_transition_index(ts: &Vec<Transition>, name: &String) -> (r: Option<usize>)
    ensures
        r.is_some() == find_transition(ts@, name@).is_some(),
        r.is_some() ==> r.unwrap() as int == find_transition(ts@, name@).unwrap(),
        r.is_some() ==> r.unwrap() < ts@.len(),
{
    proof {
        lemma_find_from_range(ts@, name@, 0);
    }
    let mut j: usize = 0;
    while j < ts.len()
        invariant
            j <= ts@.len(),
            find_transition(ts@, name@) == find_from(ts@, name@, j as int),
        decreases ts@.len() - j,
    {
        let text = ts[j].path.to_string();
        if text.eq(name) {
            return Some(j);
        }
        j = j + 1;
    }
    None
}

/// Classifies each step of a plan, in plan order, against the transitions of
/// the model and the cursor; the guards of the steps not reached yet are
/// evaluated against the store.
pub fn project_plan(
    steps: &Vec<String>,
    cursor: i32,
    ts: &Vec<Transition>,
    state: &StateStore,
) -> (r: Vec<PlanStep>)
    requires
        state.wf(),
    ensures
        r@.len() == steps@.len(),
        forall|i: int|
            0 <= i < r@.len() ==> (#[trigger] r@[i]).path@ == steps@[i]@ && r@[i].class
                == step_class(
                ts@,
                steps@.map_values(|s: String| s@),
                i,
                cursor as int,
                state.values(),
            ),
{
    let ghost names = steps@.map_values(|s: String| s@);
    let mut out: Vec<PlanStep> = Vec::new();
    let mut idx: usize = 0;
    let mut i: usize = 0;
    while i < steps.len()
        invariant
            state.wf(),
            names == steps@.map_values(|s: String| s@),
            i <= steps@.len(),
            out@.len() == i,
            idx as int == controlled_count(ts@, names.take(i as int)),
            idx <= i,
            forall|k: int|
                0 <= k < i ==> (#[trigger] out@[k]).path@ == steps@[k]@ && out@[k].class
                    == step_class(ts@, names, k, cursor as int, state.values()),
        decreases steps@.len() - i,
    {
        proof {
            assert(names.take(i + 1).drop_last() =~= names.take(i as int));
            assert(names.take(i + 1).last() == steps@[i as int]@);
            assert(names[i as int] == steps@[i as int]@);
            assert(controlled_count(ts@, names.take(i + 1)) == controlled_count(
                ts@,
                names.take(i as int),
            ) + if is_controlled_step(ts@, names[i as int]) {
                1int
            } else {
                0int
            });
        }
        let class = match find_transition_index(ts, &steps[i]) {
            None => StepClass::Unknown,
            Some(t) => {
                let tr = &ts[t];
                match tr.type_ {
                    TransitionType::Uncontrolled => StepClass::Effect,
                    TransitionType::Controlled => {
                        idx = idx + 1;
                        if cursor < 0 || idx as u64 > cursor as u64 {
                            StepClass::Future {
                                guard: tr.guard.eval(state),
                                runner_guard: tr.runner_guard.eval(state),
                            }
                        } else if idx as u64 == cursor as u64 {
                            StepClass::Current
                        } else {
                            StepClass::Done
                        }
                    },
                }
            },
        };
        assert(class == step_class(ts@, names, i as int, cursor as int, state.values()));
        let ghost before = out@;
        out.push(PlanStep { path: steps[i].clone(), class });
        assert(forall|k: int| 0 <= k < i ==> out@[k] == before[k]);
        i = i + 1;
    }
    out
}

/// The steps of a plan value, as `plan_of` gives them.
pub fn plan_steps(v: Option<&SPValue>) -> (r: Vec<String>)
    ensures
        r@.map_values(|s: String| s@) == plan_of(
            match v {
                Some(x) => Some(x@),
                None => None,
            },
        ),
{
    match v {
        Some(SPValue::Array(xs)) => {
            let ghost ms = match v.unwrap()@ {
                ValueModel::Array(m) => m,
                _ => Seq::empty(),
            };
            assert(ms.len() == xs@.len());
            assert(v.unwrap()@ == ValueModel::Array(ms));
            let mut out: Vec<String> = Vec::new();
            let mut i: usize = 0;
            while i < xs.len()
                invariant
                    v.is_some() && v.unwrap()@ == ValueModel::Array(ms),
                    ms.len() == xs@.len(),
                    forall|j: int| 0 <= j < ms.len() ==> ms[j] == xs@[j]@,
                    i <= xs@.len(),
                    out@.len() == i,
                    forall|j: int| 0 <= j < i ==> is_step_item(#[trigger] ms[j]),
                    forall|j: int| 0 <= j < i ==> (#[trigger] out@[j])@ == render(ms[j]),
                decreases xs@.len() - i,
            {
                let item_ok = match &xs[i] {
                    SPValue::Path(_) => true,
                    SPValue::String(_) => true,
                    _ => false,
                };
                if !item_ok {
                    assert(!is_step_item(ms[i as int]));
                    let none: Vec<String> = Vec::new();
                    assert(none@.map_values(|s: String| s@) =~= Seq::<Seq<char>>::empty());
                    return none;
                }
                out.push(xs[i].to_string());
                i = i + 1;
            }
            assert(out@.map_values(|s: String| s@) =~= Seq::new(ms.len(), |i: int| render(ms[i])));
            out
        },
        _ => {
            let out: Vec<String> = Vec::new();
            assert(out@.map_values(|s: String| s@) =~= Seq::<Seq<char>>::empty());
            out
        },
    }
}

/// The cursor that a value holds, as `cursor_of` gives it.
pub fn plan_cursor(v: Option<&SPValue>) -> (r: i32)
    ensures
        r as int == cursor_of(
            match v {
                Some(x) => Some(x@),
                None => None,
            },
        ),
{
    match v {
        Some(SPValue::Int32(i)) => *i,
        _ => 0,
    }
}

} // verus!
