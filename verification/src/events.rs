//! What one evaluation pass reports besides its result: fire-and-forget
//! constraint events and counter increments.
//!
//! The evaluator returns these as plain data, in the order they arose;
//! delivering them (an event channel, a metrics registry) is the caller's
//! part and must not affect the result.

use vstd::prelude::*;

use crate::constraint::ConstraintRef;

verus! {

/// The counters of the evaluator, each keyed by constraint name.
#[derive(Clone, Copy, Debug, PartialEq, Eq, Structural)]
pub enum CounterKind {
    Matched,
    EvaluatedSuccess,
    EvaluatedReject,
    EvaluatedError,
    ValidationFail,
}

/// One counter increment.
pub struct MetricEvent {
    pub kind: CounterKind,
    pub name: String,
}

/// Model of one counter increment.
pub struct MetricModel {
    pub kind: CounterKind,
    pub name: Seq<char>,
}

impl View for MetricEvent {
    type V = MetricModel;

    open spec fn view(&self) -> MetricModel {
        MetricModel { kind: self.kind, name: self.name@ }
    }
}

/// What happened to one constraint during a pass.
pub enum ConstraintEventData {
    Evaluated { target_identifier: String, result: bool, reason: Option<String> },
}

/// One fire-and-forget event about a constraint.
pub struct ConstraintEvent {
    pub constraint_reference: ConstraintRef,
    pub event_data: ConstraintEventData,
}

/// Model of one constraint event.
pub struct EventModel {
    pub ref_name: Seq<char>,
    pub target: Seq<char>,
    pub result: bool,
    pub reason: Option<Seq<char>>,
}

impl View for ConstraintEvent {
    type V = EventModel;

    open spec fn view(&self) -> EventModel {
        match self.event_data {
            ConstraintEventData::Evaluated { target_identifier, result, reason } => EventModel {
                ref_name: self.constraint_reference@,
                target: target_identifier@,
                result: result,
                reason: crate::constraint::opt_view(reason),
            },
        }
    }
}

} // verus!
