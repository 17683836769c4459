use vstd::prelude::*;
use crate::path::SPPath;
use crate::predicate::Predicate;

verus! {

/// Whether a transition needs to be actuated from outside, or happens by
/// itself as an effect.
#[derive(Debug, Clone, Copy, PartialEq, Eq)]
pub enum TransitionType {
    Controlled,
    Uncontrolled,
}

/// A transition of the compiled model, with the two guards that gate it.
pub struct Transition {
    pub path: SPPath,
    pub type_: TransitionType,
    pub guard: Predicate,
    pub runner_guard: Predicate,
}

/// An operation of the model; its status is the value of its path.
pub struct Operation {
    pub path: SPPath,
}

/// An intention of the model; its status is the value of its path.
pub struct Intention {
    pub path: SPPath,
}

/// The compiled model: the operations, intentions and transitions of the
/// system. It does not change while it is loaded.
pub struct CompiledModel {
    pub operations: Vec<Operation>,
    pub intentions: Vec<Intention>,
    pub transitions: Vec<Transition>,
}

impl CompiledModel {
    /// A model with nothing in it.
    pub fn empty() -> (r: CompiledModel)
        ensures
            r.operations@.len() == 0,
            r.intentions@.len() == 0,
            r.transitions@.len() == 0,
    {
        CompiledModel { operations: Vec::new(), intentions: Vec::new(), transitions: Vec::new() }
    }
}

} // verus!
