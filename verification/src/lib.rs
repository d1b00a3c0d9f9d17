//! Reactive extensions for Rust: observers, observables, subjects and the
//! scheduling logic that drives them, each with a verified contract.
use vstd::prelude::*;

pub mod behavior;
pub mod behavior_subject;
pub mod context;
pub mod error;
pub mod function;
pub mod local_subject;
pub mod observable;
pub mod observer;
pub mod ops;
pub mod rc;
pub mod scheduled_ops;
pub mod scheduler;
pub mod subject;
pub mod subscription;

verus! {

} // verus!
