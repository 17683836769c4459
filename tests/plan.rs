use sp_op_viewer::model::{Transition, TransitionType};
use sp_op_viewer::path::SPPath;
use sp_op_viewer::plan::{plan_cursor, plan_steps, project_plan, StepClass};
use sp_op_viewer::predicate::{Predicate, PredicateValue};
use sp_op_viewer::store::StateStore;
use sp_op_viewer::value::SPValue;

fn p(s: &str) -> SPPath {
    SPPath::from_string(s)
}

fn eq(path: &str, v: SPValue) -> Predicate {
    Predicate::EQ(PredicateValue::SPPath(p(path)), PredicateValue::SPValue(v))
}

fn tr(path: &str, type_: TransitionType, guard: Predicate) -> Transition {
    Transition { path: p(path), type_, guard, runner_guard: Predicate::FALSE }
}

fn state() -> StateStore {
    let mut s = StateStore::new();
    s.merge(vec![(p("r/x"), SPValue::Int32(1)), (p("r/flag"), SPValue::Bool(true))]);
    s
}

#[test]
fn guard_with_absent_path_is_false() {
    let s = state();
    assert!(!eq("missing/path", SPValue::Int32(1)).eval(&s));
    assert!(!eq("missing/path", SPValue::Unknown).eval(&s));
    assert!(!Predicate::EQ(
        PredicateValue::SPValue(SPValue::Bool(true)),
        PredicateValue::SPPath(p("missing"))
    )
    .eval(&s));
    assert!(Predicate::NOT(Box::new(eq("missing/path", SPValue::Int32(1)))).eval(&s));
}

#[test]
fn guards_combine() {
    let s = state();
    assert!(eq("r/x", SPValue::Int32(1)).eval(&s));
    assert!(!eq("r/x", SPValue::Int32(2)).eval(&s));
    assert!(Predicate::AND(vec![eq("r/x", SPValue::Int32(1)), eq("r/flag", SPValue::Bool(true))]).eval(&s));
    assert!(!Predicate::AND(vec![eq("r/x", SPValue::Int32(1)), Predicate::FALSE]).eval(&s));
    assert!(Predicate::AND(vec![]).eval(&s));
    assert!(!Predicate::OR(vec![]).eval(&s));
    assert!(Predicate::OR(vec![Predicate::FALSE, eq("r/flag", SPValue::Bool(true))]).eval(&s));
    assert!(Predicate::TRUE.eval(&s));
    assert!(Predicate::EQ(PredicateValue::SPPath(p("r/x")), PredicateValue::SPPath(p("r/x"))).eval(&s));
}

#[test]
fn plan_projection_orders_and_classifies() {
    let s = state();
    let ts = vec![
        tr("a", TransitionType::Controlled, Predicate::TRUE),
        tr("b", TransitionType::Uncontrolled, Predicate::TRUE),
        tr("c", TransitionType::Controlled, eq("r/x", SPValue::Int32(1))),
    ];
    let steps = vec!["a".to_string(), "b".to_string(), "c".to_string()];
    let r = project_plan(&steps, 1, &ts, &s);
    assert_eq!(r.len(), 3);
    assert_eq!(r[0].path, "a");
    assert_eq!(r[0].class, StepClass::Current);
    assert_eq!(r[1].path, "b");
    assert_eq!(r[1].class, StepClass::Effect);
    assert_eq!(r[2].path, "c");
    assert_eq!(r[2].class, StepClass::Future { guard: true, runner_guard: false });
    let r = project_plan(&steps, 2, &ts, &s);
    assert_eq!(r[0].class, StepClass::Done);
    assert_eq!(r[1].class, StepClass::Effect);
    assert_eq!(r[2].class, StepClass::Current);
}

#[test]
fn plan_projection_with_cursor_zero_puts_every_controlled_step_ahead() {
    let s = state();
    let ts = vec![
        tr("a", TransitionType::Controlled, Predicate::TRUE),
        tr("b", TransitionType::Uncontrolled, Predicate::TRUE),
        tr("c", TransitionType::Controlled, Predicate::FALSE),
    ];
    let steps = vec!["a".to_string(), "b".to_string(), "c".to_string()];
    let r = project_plan(&steps, 0, &ts, &s);
    assert_eq!(r[0].class, StepClass::Future { guard: true, runner_guard: false });
    assert_eq!(r[1].class, StepClass::Effect);
    assert_eq!(r[2].class, StepClass::Future { guard: false, runner_guard: false });
}

#[test]
fn plan_projection_keeps_unknown_steps() {
    let s = state();
    let ts = vec![tr("a", TransitionType::Controlled, Predicate::TRUE)];
    let steps = vec!["x".to_string()];
    let r = project_plan(&steps, 0, &ts, &s);
    assert_eq!(r.len(), 1);
    assert_eq!(r[0].path, "x");
    assert_eq!(r[0].class, StepClass::Unknown);
    let steps = vec!["a".to_string(), "x".to_string(), "a".to_string()];
    let r = project_plan(&steps, 1, &ts, &s);
    assert_eq!(r.len(), 3);
    assert_eq!(r[0].class, StepClass::Current);
    assert_eq!(r[1].path, "x");
    assert_eq!(r[1].class, StepClass::Unknown);
    assert_eq!(r[2].class, StepClass::Future { guard: true, runner_guard: false });
    assert!(project_plan(&vec![], 0, &ts, &s).is_empty());
}

#[test]
fn plan_value_gives_steps_and_cursor() {
    let v = SPValue::Array(vec![SPValue::Path(p("r/a")), SPValue::Path(p("r/b"))]);
    assert_eq!(plan_steps(Some(&v)), vec!["r/a".to_string(), "r/b".to_string()]);
    assert!(plan_steps(Some(&SPValue::Int32(3))).is_empty());
    assert!(plan_steps(None).is_empty());
    assert_eq!(plan_cursor(Some(&SPValue::Int32(3))), 3);
    assert_eq!(plan_cursor(Some(&SPValue::Bool(true))), 0);
    assert_eq!(plan_cursor(None), 0);
}

#[test]
fn plan_value_of_non_paths_gives_no_steps() {
    let ints = SPValue::Array(vec![SPValue::Int32(1)]);
    assert!(plan_steps(Some(&ints)).is_empty());
    let mixed = SPValue::Array(vec![SPValue::Path(p("r/a")), SPValue::Bool(true)]);
    assert!(plan_steps(Some(&mixed)).is_empty());
    let strings = SPValue::Array(vec![SPValue::String("r/a".to_string())]);
    assert_eq!(plan_steps(Some(&strings)), vec!["r/a".to_string()]);
    assert!(plan_steps(Some(&SPValue::Array(vec![]))).is_empty());
}
