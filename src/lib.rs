//! A monitoring engine for a plan executor: it folds a stream of partial
//! state updates into a snapshot, evaluates guards against it, classifies
//! the steps of the running plan, and decides what a session does next.

pub mod path;
pub mod value;
pub mod store;
pub mod predicate;
pub mod model;
pub mod plan;
pub mod info;
pub mod command;
pub mod session;
