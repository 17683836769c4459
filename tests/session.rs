use sp_op_viewer::command::{
    estimated_state_request, goal_request, parse_edit, reset_message, EditError, Error,
    NotificationType,
};
use sp_op_viewer::info::{BufferLocation, BufferLocationType, SPModelInfo};
use sp_op_viewer::model::{CompiledModel, Intention, Operation};
use sp_op_viewer::path::SPPath;
use sp_op_viewer::predicate::{Predicate, PredicateValue};
use sp_op_viewer::session::{Command, Message, SPOpViewer, SPOpViewerState, SetStatePurpose, View};
use sp_op_viewer::value::SPValue;

fn p(s: &str) -> SPPath {
    SPPath::from_string(s)
}

fn model() -> CompiledModel {
    let mut m = CompiledModel::empty();
    m.operations.push(Operation { path: p("ops/pick") });
    m.intentions.push(Intention { path: p("ints/deliver") });
    m
}

fn loaded() -> SPOpViewer {
    let (mut s, c) = SPOpViewer::new();
    assert!(matches!(c, Command::FetchModel(0)));
    let c = s.update(Message::ModelUpdate(0, Ok(model())));
    assert!(matches!(c, Command::ClearNotificationLater(_)));
    s
}

fn store_value(s: &SPOpViewer, path: &str) -> Option<String> {
    match &s.ui_state {
        SPOpViewerState::Loaded { model_info, .. } => {
            model_info.state.get(&p(path)).map(|v| v.to_string())
        }
        _ => None,
    }
}

fn pending(s: &SPOpViewer, path: &str) -> Option<String> {
    match &s.ui_state {
        SPOpViewerState::Loaded { model_info, .. } => model_info.state.pending_edit(&p(path)).cloned(),
        _ => None,
    }
}

#[test]
fn session_loads_model_into_state_view() {
    let s = loaded();
    match &s.ui_state {
        SPOpViewerState::Loaded { current_view, model_info } => {
            assert_eq!(*current_view, View::StateView);
            assert_eq!(model_info.operations.len(), 1);
            assert_eq!(model_info.state.len(), 0);
        }
        _ => panic!("not loaded"),
    }
    let n = s.notification.as_ref().unwrap();
    assert_eq!(n.message, "Model loaded!");
    assert_eq!(n.type_, NotificationType::Happy);
    assert_eq!(s.title(), "SP Operation Viewer - Model loaded");
}

#[test]
fn session_failed_fetch_errors_and_retry_loads_again() {
    let (mut s, _) = SPOpViewer::new();
    assert_eq!(s.title(), "SP Operation Viewer - Loading");
    s.update(Message::ModelUpdate(0, Err(Error::RosError)));
    assert!(matches!(s.ui_state, SPOpViewerState::Errored));
    assert_eq!(s.title(), "SP Operation Viewer - Error");
    let c = s.update(Message::UpdateModel);
    assert!(matches!(s.ui_state, SPOpViewerState::Loading));
    assert!(matches!(c, Command::FetchModel(1)));
    s.update(Message::ModelUpdate(1, Ok(model())));
    assert!(matches!(s.ui_state, SPOpViewerState::Loaded { .. }));
}

#[test]
fn stale_fetch_answer_is_dropped() {
    let mut s = loaded();
    let first = match s.update(Message::UpdateModel) {
        Command::FetchModel(g) => g,
        _ => panic!("no fetch"),
    };
    let second = match s.update(Message::UpdateModel) {
        Command::FetchModel(g) => g,
        _ => panic!("no fetch"),
    };
    assert_ne!(first, second);
    let c = s.update(Message::ModelUpdate(first, Err(Error::SerdeError)));
    assert!(matches!(c, Command::Nothing));
    assert!(matches!(s.ui_state, SPOpViewerState::Loading));
    let c = s.update(Message::ModelUpdate(first, Ok(model())));
    assert!(matches!(c, Command::Nothing));
    assert!(matches!(s.ui_state, SPOpViewerState::Loading));
    s.update(Message::ModelUpdate(second, Ok(model())));
    assert!(matches!(s.ui_state, SPOpViewerState::Loaded { .. }));
}

#[test]
fn updates_before_load_are_replayed() {
    let (mut s, _) = SPOpViewer::new();
    s.update(Message::NewState(vec![(p("a"), SPValue::Int32(1))]));
    s.update(Message::NewState(vec![(p("a"), SPValue::Int32(2)), (p("b"), SPValue::Bool(true))]));
    assert_eq!(s.backlog.len(), 2);
    s.update(Message::ModelUpdate(0, Ok(model())));
    assert_eq!(store_value(&s, "a"), Some("2".to_string()));
    assert_eq!(store_value(&s, "b"), Some("true".to_string()));
    assert!(s.backlog.is_empty());
}

#[test]
fn submitted_edit_is_confirmed_by_inbound_update() {
    let mut s = loaded();
    s.update(Message::NewState(vec![(p("robot/speed"), SPValue::Int32(5))]));
    s.update(Message::StateValueEdit(p("robot/speed"), "42".to_string()));
    assert_eq!(pending(&s, "robot/speed"), Some("42".to_string()));
    let c = s.update(Message::SubmitEdit(p("robot/speed")));
    let purpose = match c {
        Command::SetState(updates, purpose) => {
            assert_eq!(updates.len(), 1);
            assert_eq!(updates[0].0.to_string(), "robot/speed");
            assert!(updates[0].1 == SPValue::Int32(42));
            purpose
        }
        _ => panic!("no request"),
    };
    assert_eq!(store_value(&s, "robot/speed"), Some("5".to_string()));
    assert_eq!(pending(&s, "robot/speed"), Some("42".to_string()));
    s.update(Message::StateSent(purpose, true));
    assert_eq!(pending(&s, "robot/speed"), Some(String::new()));
    assert_eq!(store_value(&s, "robot/speed"), Some("5".to_string()));
    s.update(Message::NewState(vec![(p("robot/speed"), SPValue::Int32(42))]));
    assert_eq!(store_value(&s, "robot/speed"), Some("42".to_string()));
}

#[test]
fn unreadable_edit_is_kept_and_reported() {
    let mut s = loaded();
    s.update(Message::NewState(vec![(p("robot/speed"), SPValue::Int32(5))]));
    s.update(Message::StateValueEdit(p("robot/speed"), "fast".to_string()));
    let c = s.update(Message::SubmitEdit(p("robot/speed")));
    assert!(matches!(c, Command::ClearNotificationLater(_)));
    assert_eq!(pending(&s, "robot/speed"), Some("fast".to_string()));
    let n = s.notification.as_ref().unwrap();
    assert_eq!(n.type_, NotificationType::Sad);
    let c = s.update(Message::SubmitEdit(p("no/such")));
    assert!(matches!(c, Command::ClearNotificationLater(_)));
    assert_eq!(s.notification.as_ref().unwrap().message, "No such path");
}

#[test]
fn failed_edit_request_keeps_the_edit() {
    let mut s = loaded();
    s.update(Message::NewState(vec![(p("x"), SPValue::Int32(5))]));
    s.update(Message::StateValueEdit(p("x"), "6".to_string()));
    s.update(Message::StateSent(SetStatePurpose::Edit(p("x")), false));
    assert_eq!(pending(&s, "x"), Some("6".to_string()));
    assert_eq!(s.notification.as_ref().unwrap().type_, NotificationType::Sad);
}

#[test]
fn reset_operation_asks_to_set_the_path() {
    let mut s = loaded();
    let c = s.update(Message::ResetOperation(p("ops/pick"), SPValue::String("i".to_string())));
    match c {
        Command::SetState(updates, SetStatePurpose::Reset(text)) => {
            assert_eq!(updates.len(), 1);
            assert_eq!(updates[0].0.to_string(), "ops/pick");
            assert_eq!(text, "ops/pick set to i!");
            s.update(Message::StateSent(SetStatePurpose::Reset(text), true));
            assert_eq!(s.notification.as_ref().unwrap().message, "ops/pick set to i!");
        }
        _ => panic!("no request"),
    }
    s.update(Message::ClearNotification);
    assert!(s.notification.is_none());
}

#[test]
fn views_and_filter_change_only_when_loaded() {
    let (mut s, _) = SPOpViewer::new();
    s.update(Message::ChangeView(View::TPlanView));
    assert!(matches!(s.ui_state, SPOpViewerState::Loading));
    let mut s = loaded();
    s.update(Message::ChangeView(View::TPlanView));
    assert!(matches!(s.ui_state, SPOpViewerState::Loaded { current_view: View::TPlanView, .. }));
    s.update(Message::FilterChanged("robot".to_string()));
    assert_eq!(s.filter_string, "robot");
}

#[test]
fn grid_buttons_build_state_and_goal_requests() {
    let mut s = loaded();
    s.update(Message::BufferButton(BufferLocationType::Estimated, 1, true));
    s.update(Message::BufferButton(BufferLocationType::Goal, 3, true));
    s.update(Message::BufferButton(BufferLocationType::Goal, 9, true));
    match s.update(Message::SetEstimatedCylinders) {
        Command::SetState(updates, SetStatePurpose::Estimated) => {
            assert_eq!(updates.len(), 4);
            assert_eq!(updates[0].0.to_string(), "lab_scenario_1/product_state/buffer1");
            assert_eq!(updates[1].0.to_string(), "lab_scenario_1/product_state/buffer2");
            assert!(updates[0].1 == SPValue::Bool(false));
            assert!(updates[1].1 == SPValue::Bool(true));
        }
        _ => panic!("no request"),
    }
    match s.update(Message::SendGoalCylinders) {
        Command::SetModel(goal) => {
            assert_eq!(goal.model_name, "lab_scenario_1");
            assert_eq!(goal.intention_name, "test_intention");
            assert!(matches!(goal.pre, Predicate::TRUE));
            match goal.post {
                Predicate::AND(ps) => {
                    assert_eq!(ps.len(), 4);
                    match &ps[3] {
                        Predicate::EQ(PredicateValue::SPPath(path), PredicateValue::SPValue(v)) => {
                            assert_eq!(path.to_string(), "lab_scenario_1/product_state/buffer4");
                            assert!(*v == SPValue::Bool(true));
                        }
                        _ => panic!("not an equality"),
                    }
                }
                _ => panic!("not a conjunction"),
            }
        }
        _ => panic!("no request"),
    }
    s.update(Message::GoalSent(true));
    assert_eq!(s.notification.as_ref().unwrap().message, "new intention: test_intention");
}

#[test]
fn edits_parse_by_the_type_of_the_value() {
    assert!(parse_edit(&SPValue::Int32(0), "42").ok().unwrap() == SPValue::Int32(42));
    assert!(matches!(parse_edit(&SPValue::Int32(0), "4.2"), Err(EditError::NotParsable)));
    assert!(parse_edit(&SPValue::Bool(false), "true").ok().unwrap() == SPValue::Bool(true));
    assert!(matches!(parse_edit(&SPValue::Bool(false), "yes"), Err(EditError::NotParsable)));
    assert!(
        parse_edit(&SPValue::Float32("0".to_string()), "2.5").ok().unwrap()
            == SPValue::Float32("2.5".to_string())
    );
    assert!(
        parse_edit(&SPValue::String(String::new()), "hello").ok().unwrap()
            == SPValue::String("hello".to_string())
    );
    assert!(parse_edit(&SPValue::Path(p("a")), "x/y").ok().unwrap() == SPValue::Path(p("x/y")));
    assert!(matches!(parse_edit(&SPValue::Unknown, "x"), Err(EditError::NotEditable)));
    assert!(matches!(parse_edit(&SPValue::Array(vec![]), "x"), Err(EditError::NotEditable)));
}

#[test]
fn requests_are_built_from_the_grid() {
    let cells = vec![BufferLocation { value: true }, BufferLocation { value: false }];
    let r = estimated_state_request(&cells);
    assert_eq!(r.len(), 2);
    assert_eq!(r[1].0.to_string(), "lab_scenario_1/product_state/buffer2");
    let g = goal_request(&cells);
    assert!(matches!(g.post, Predicate::AND(ref ps) if ps.len() == 2));
    assert_eq!(reset_message(&p("a/b"), &SPValue::Int32(3)), "a/b set to 3!");
}

#[test]
fn model_info_lists_operations_with_status() {
    let mut info = SPModelInfo::from(model());
    assert_eq!(info.buffers_locations.len(), 4);
    let rows = info.view_ops();
    assert_eq!(rows, vec![("ops/pick".to_string(), "[no state]".to_string())]);
    info.state.merge(vec![(p("ops/pick"), SPValue::String("e".to_string()))]);
    let rows = info.view_ops();
    assert_eq!(rows, vec![("ops/pick".to_string(), "e".to_string())]);
    let rows = info.view_ints();
    assert_eq!(rows, vec![("ints/deliver".to_string(), "[no state]".to_string())]);
}

#[test]
fn model_info_builds_plan_views() {
    let mut info = SPModelInfo::from(model());
    let (goal, steps) = info.view_tplan();
    assert_eq!(goal, "no goal");
    assert!(steps.is_empty());
    info.state.merge(vec![
        (p("runner/transition_goal"), SPValue::String("deliver".to_string())),
        (p("runner/transition_plan"), SPValue::Array(vec![SPValue::Path(p("t/a"))])),
        (p("runner/operation_plan"), SPValue::Array(vec![SPValue::Path(p("ops/pick"))])),
    ]);
    let (goal, steps) = info.view_tplan();
    assert_eq!(goal, "deliver");
    assert_eq!(steps.len(), 1);
    assert_eq!(steps[0].path, "t/a");
    let (goal, steps) = info.view_oplan();
    assert_eq!(goal, "no goal");
    assert_eq!(steps, vec!["ops/pick".to_string()]);
}

#[test]
fn state_table_is_sorted_and_filtered() {
    let mut info = SPModelInfo::from(model());
    info.state.merge(vec![
        (p("robot/temperature"), SPValue::Int32(20)),
        (p("a/b"), SPValue::Int32(1)),
        (p("robot/arm"), SPValue::Int32(2)),
    ]);
    let all: Vec<String> = info.view_state("").iter().map(|e| e.path.to_string()).collect();
    assert_eq!(all, vec!["a/b", "robot/arm", "robot/temperature"]);
    let some: Vec<String> = info.view_state("TEMP").iter().map(|e| e.path.to_string()).collect();
    assert_eq!(some, vec!["robot/temperature"]);
    assert!(info.view_state("qqq").is_empty());
}

#[test]
fn newer_notification_outlives_the_older_timer() {
    let mut s = loaded();
    let first = match s.update(Message::SetNotification("one".to_string(), NotificationType::Neutral)) {
        Command::ClearNotificationLater(n) => n,
        _ => panic!("no timer"),
    };
    let second = match s.update(Message::SetNotification("two".to_string(), NotificationType::Sad)) {
        Command::ClearNotificationLater(n) => n,
        _ => panic!("no timer"),
    };
    assert_ne!(first, second);
    s.update(Message::NotificationExpired(first));
    assert_eq!(s.notification.as_ref().unwrap().message, "two");
    s.update(Message::NotificationExpired(second));
    assert!(s.notification.is_none());
}

#[test]
fn operations_and_intentions_offer_their_commands() {
    let info = SPModelInfo::from(model());
    let ops = info.operations[0].commands();
    assert_eq!(ops.len(), 2);
    assert_eq!(ops[0].label, "Force start");
    assert_eq!(ops[0].path.to_string(), "ops/pick");
    assert!(ops[0].value == SPValue::String("e".to_string()));
    assert_eq!(ops[1].label, "Reset");
    assert!(ops[1].value == SPValue::String("i".to_string()));
    let ints = info.intentions[0].commands();
    assert_eq!(ints.len(), 3);
    assert_eq!(ints[0].label, "Stop");
    assert_eq!(ints[0].path.to_string(), "ints/deliver");
    assert!(ints[0].value == SPValue::String("X".to_string()));
    assert!(ints[2].value == SPValue::String("i".to_string()));
}

#[test]
fn grid_cells_are_labelled_by_column_and_row() {
    let grid = vec![
        BufferLocation { value: false },
        BufferLocation { value: true },
        BufferLocation { value: false },
        BufferLocation { value: false },
    ];
    let cells = sp_op_viewer::info::grid_cells(&grid);
    assert_eq!(cells.len(), 4);
    assert_eq!(cells[0], ("0,0: empty".to_string(), true));
    assert_eq!(cells[1], ("1,0: cylinder".to_string(), false));
    assert_eq!(cells[2], ("0,1: empty".to_string(), true));
    assert_eq!(cells[3], ("1,1: empty".to_string(), true));
}

#[test]
fn new_session_starts_empty() {
    let (s, _) = SPOpViewer::new();
    assert_eq!(s.filter_string, "");
    assert_eq!(s.notification_seq, 0);
    assert!(s.notification.is_none());
}

#[test]
fn state_filter_matches_subsequences_ignoring_case() {
    let mut info = SPModelInfo::from(model());
    info.state.merge(vec![(p("robot/arm"), SPValue::Int32(2)), (p("cell/door"), SPValue::Int32(1))]);
    let some: Vec<String> = info.view_state("RbtArm").iter().map(|e| e.path.to_string()).collect();
    assert_eq!(some, vec!["robot/arm"]);
    let none: Vec<String> = info.view_state("mra").iter().map(|e| e.path.to_string()).collect();
    assert!(none.is_empty());
}
