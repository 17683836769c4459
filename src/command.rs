use vstd::prelude::*;
use vstd::string::StringExecFns;
use crate::info::BufferLocation;
use crate::path::{SPPath, join_segments, split_segments};
use crate::predicate::{Predicate, PredicateValue};
use crate::value::{
    SPValue, ValueModel, i32_of_text, is_decimal, is_decimal_text, nat_text, nat_to_string,
    parse_i32, render,
};

verus! {

/// How a notification is shown.
#[derive(Debug, Clone, Copy, PartialEq, Eq)]
pub enum NotificationType {
    Happy,
    Neutral,
    Sad,
}

/// A short message shown for a while after a command completes.
pub struct Notification {
    pub message: String,
    pub type_: NotificationType,
}

impl Notification {
    pub fn new(message: String, type_: NotificationType) -> (r: Notification)
        ensures
            r.message == message,
            r.type_ == type_,
    {
        Notification { message, type_ }
    }
}

/// Why a request to the outside failed.
#[derive(Debug, Clone, Copy, PartialEq, Eq)]
pub enum Error {
    /// The request could not be sent, or no answer came in time.
    RosError,
    /// The answer could not be read.
    SerdeError,
}

/// Why an edit cannot be submitted.
#[derive(Debug, Clone, Copy, PartialEq, Eq)]
pub enum EditError {
    /// The path was never observed.
    UnknownPath,
    /// The text does not denote a value of the path's type.
    NotParsable,
    /// Values of the path's type cannot be typed in.
    NotEditable,
}

/// The value that an edit denotes, typed as the current value is, or `None`
/// where the text does not denote one.
pub open spec fn edit_value(current: ValueModel, text: Seq<char>) -> Option<ValueModel> {
    match current {
        ValueModel::Bool(_) => if text == "true"@ {
            Some(ValueModel::Bool(true))
        } else if text == "false"@ {
            Some(ValueModel::Bool(false))
        } else {
            None
        },
        ValueModel::Int32(_) => match i32_of_text(text) {
            Some(i) => Some(ValueModel::Int32(i)),
            None => None,
        },
        ValueModel::Float32(_) => if is_decimal_text(text) {
            Some(ValueModel::Float32(text))
        } else {
            None
        },
        ValueModel::String(_) => Some(ValueModel::String(text)),
        ValueModel::Path(_) => Some(ValueModel::Path(split_segments(text))),
        _ => None,
    }
}

/// Whether values of this type can be typed in.
pub open spec fn is_editable(current: ValueModel) -> bool {
    !(current is Array || current is Unknown)
}

/// Reads the text of an edit as a value of the type of the current value.
pub fn parse_edit(current: &SPValue, text: &str) -> (r: Result<SPValue, EditError>)
    ensures
        r is Ok <==> edit_value(current@, text@).is_some(),
        r is Ok ==> r->Ok_0@ == edit_value(current@, text@).unwrap(),
        r is Err ==> r->Err_0 == if is_editable(current@) {
            EditError::NotParsable
        } else {
            EditError::NotEditable
        },
{
    match current {
        SPValue::Bool(_) => {
            let t = String::from_str(text);
            if t.eq(&String::from_str("true")) {
                Ok(SPValue::Bool(true))
            } else if t.eq(&String::from_str("false")) {
                Ok(SPValue::Bool(false))
            } else {
                Err(EditError::NotParsable)
            }
        },
        SPValue::Int32(_) => match parse_i32(text) {
            Some(i) => Ok(SPValue::Int32(i)),
            None => Err(EditError::NotParsable),
        },
        SPValue::Float32(_) => if is_decimal(text) {
            Ok(SPValue::Float32(String::from_str(text)))
        } else {
            Err(EditError::NotParsable)
        },
        SPValue::String(_) => Ok(SPValue::String(String::from_str(text))),
        SPValue::Path(_) => Ok(SPValue::Path(SPPath::from_string(text))),
        SPValue::Array(_) => Err(EditError::NotEditable),
        SPValue::Unknown => Err(EditError::NotEditable),
    }
}

/// The path of cell `i` of the grid of buffers; cells are numbered from 1
/// in their names.
pub open spec fn buffer_path(i: int) -> Seq<Seq<char>> {
    seq!["lab_scenario_1"@, "product_state"@, "buffer"@ + nat_text((i + 1) as nat)]
}

fn buffer_path_of(i: usize) -> (r: SPPath)
    requires
        i < usize::MAX,
    ensures
        r@ == buffer_path(i as int),
{
    let mut v: Vec<String> = Vec::new();
    v.push(String::from_str("lab_scenario_1"));
    v.push(String::from_str("product_state"));
    let number = nat_to_string((i + 1) as u64);
    v.push(String::from_str("buffer").concat(number.as_str()));
    let r = SPPath { path: v };
    assert(r@ =~= buffer_path(i as int));
    r
}

/// The update that tells the system which cells of the grid hold a
/// cylinder: one boolean per cell, in cell order.
pub fn estimated_state_request(cells: &Vec<BufferLocation>) -> (r: Vec<(SPPath, SPValue)>)
    ensures
        r@.len() == cells@.len(),
        forall|i: int|
            0 <= i < r@.len() ==> (#[trigger] r@[i]).0@ == buffer_path(i) && r@[i].1@
                == ValueModel::Bool(cells@[i].value),
{
    let mut r: Vec<(SPPath, SPValue)> = Vec::new();
    let mut i: usize = 0;
    while i < cells.len()
        invariant
            i <= cells@.len(),
            r@.len() == i,
            forall|j: int|
                0 <= j < i ==> (#[trigger] r@[j]).0@ == buffer_path(j) && r@[j].1@
                    == ValueModel::Bool(cells@[j].value),
        decreases cells@.len() - i,
    {
        r.push((buffer_path_of(i), SPValue::Bool(cells[i].value)));
        i = i + 1;
    }
    r
}

/// A request to extend the model with an intention: it has no actions and
/// is reached when its postcondition holds.
pub struct GoalRequest {
    pub model_name: String,
    pub intention_name: String,
    pub pre: Predicate,
    pub post: Predicate,
}

/// Whether a predicate says that cell `i` of the grid holds `value`.
pub open spec fn is_cell_goal(p: Predicate, i: int, value: bool) -> bool {
    match p {
        Predicate::EQ(PredicateValue::SPPath(path), PredicateValue::SPValue(v)) => path@
            == buffer_path(i) && v@ == ValueModel::Bool(value),
        _ => false,
    }
}

/// The intention whose postcondition is that every cell of the grid is as
/// given.
pub fn goal_request(cells: &Vec<BufferLocation>) -> (r: GoalRequest)
    ensures
        r.model_name@ == "lab_scenario_1"@,
        r.intention_name@ == "test_intention"@,
        r.pre is TRUE,
        r.post is AND,
        r.post->AND_0@.len() == cells@.len(),
        forall|i: int|
            0 <= i < cells@.len() ==> is_cell_goal(
                #[trigger] r.post->AND_0@[i],
                i,
                cells@[i].value,
            ),
{
    let mut ps: Vec<Predicate> = Vec::new();
    let mut i: usize = 0;
    while i < cells.len()
        invariant
            i <= cells@.len(),
            ps@.len() == i,
            forall|j: int| 0 <= j < i ==> is_cell_goal(#[trigger] ps@[j], j, cells@[j].value),
        decreases cells@.len() - i,
    {
        ps.push(
            Predicate::EQ(
                PredicateValue::SPPath(buffer_path_of(i)),
                PredicateValue::SPValue(SPValue::Bool(cells[i].value)),
            ),
        );
        i = i + 1;
    }
    GoalRequest {
        model_name: String::from_str("lab_scenario_1"),
        intention_name: String::from_str("test_intention"),
        pre: Predicate::TRUE,
        post: Predicate::AND(ps),
    }
}

/// The text shown once a path was set to a value.
pub open spec fn reset_text(p: Seq<Seq<char>>, v: ValueModel) -> Seq<char> {
    join_segments(p) + " set to "@ + render(v) + "!"@
}

pub fn reset_message(p: &SPPath, v: &SPValue) -> (r: String)
    ensures
        r@ == reset_text(p@, v@),
{
    let mut r = p.to_string();
    r.append(" set to ");
    let text = v.to_string();
    r.append(text.as_str());
    r.append("!");
    r
}

} // verus!
