//! Policy-evaluation core of a Kubernetes admission controller.
//!
//! Given an admission request, the evaluator selects the registered policy
//! constraints whose match predicate accepts the request, runs each
//! constraint's embedded rule script, and folds the per-constraint outcomes
//! into one `EvaluationResult`, short-circuiting on the first enforced
//! rejection.

use vstd::prelude::*;

pub mod json;
pub mod patch;
pub mod codec;
pub mod runtime;
pub mod constraint;
pub mod events;
pub mod policy;
pub mod evaluator;

verus! {

} // verus!
