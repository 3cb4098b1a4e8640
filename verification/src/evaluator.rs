//! The constraint evaluator: one admission request held against the
//! registered constraints.
//!
//! A request without an object passes at once.  Otherwise the constraints
//! whose match predicate accepts the request are engaged in registry
//! order; each one's rule script runs in the rule runtime, its outcome is
//! folded by the aggregation policy (`crate::policy`), and the pass ends
//! early at the first enforced rejection.  Events and counter increments
//! are returned as data beside the result; delivering them is the
//! caller's part.

use vstd::prelude::*;

use pyo3::Py;
use pyo3::PyAny;

use crate::codec::decode;
use crate::codec::encode;
use crate::constraint::ConstraintInfo;
use crate::constraint::ConstraintModel;
use crate::constraint::GroupVersionKind;
use crate::constraint::GvkModel;
use crate::constraint::matches_model;
use crate::constraint::opt_view;
use crate::events::ConstraintEvent;
use crate::events::ConstraintEventData;
use crate::events::CounterKind;
use crate::events::EventModel;
use crate::events::MetricEvent;
use crate::events::MetricModel;
use crate::json::JsonModel;
use crate::json::JsonValue;
use crate::json::wf_model;
use crate::patch::PatchOp;
use crate::patch::diff;
use crate::patch::diff_model;
use crate::patch::ops_model;
use crate::patch::push_char;
use crate::policy::OutcomeModel;
use crate::policy::ResultModel;
use crate::policy::finalize;
use crate::policy::lemma_scan_stable;
use crate::policy::scan;
use crate::policy::scan_step;
use crate::runtime::call_one;
use crate::runtime::compile_rule;
use crate::runtime::extract_bool;
use crate::runtime::extract_pair;
use crate::runtime::extract_triple;
use crate::runtime::from_python;
use crate::runtime::get_attr;
use crate::runtime::init_runtime;
use crate::runtime::to_python;

verus! {

/// The operation under admission.
#[derive(Clone, Copy, Debug, PartialEq, Eq, Structural)]
pub enum Operation {
    Create,
    Update,
    Delete,
    Connect,
}

/// The wire name of an operation.
pub open spec fn op_label(op: Operation) -> Seq<char> {
    match op {
        Operation::Create => "CREATE"@,
        Operation::Update => "UPDATE"@,
        Operation::Delete => "DELETE"@,
        Operation::Connect => "CONNECT"@,
    }
}

impl Operation {
    /// The operation's wire name.
    pub fn label(&self) -> (r: &'static str)
        ensures
            r@ == op_label(*self),
    {
        match self {
            Operation::Create => "CREATE",
            Operation::Update => "UPDATE",
            Operation::Delete => "DELETE",
            Operation::Connect => "CONNECT",
        }
    }
}

/// An admission request, as the transport hands it over: the resource
/// document (absent for some operations), the operation, and the
/// resource's identity.
pub struct AdmissionRequest {
    pub object: Option<JsonValue>,
    pub operation: Operation,
    pub name: String,
    pub namespace: Option<String>,
    pub kind: GroupVersionKind,
}

/// What one rule script is run against: the resource document and the
/// operation.
pub struct ValidationRequest {
    pub object: JsonValue,
    pub operation: Operation,
}

impl ValidationRequest {
    /// The validation request of an admission request, if it carries an
    /// object.
    pub fn from(admission_request: AdmissionRequest) -> (r: Option<ValidationRequest>)
        ensures
            admission_request.object is Some ==> r == Option::Some(
                ValidationRequest {
                    object: admission_request.object->Some_0,
                    operation: admission_request.operation,
                },
            ),
            admission_request.object is None ==> r is None,
    {
        match admission_request.object {
            Option::Some(object) => Option::Some(
                ValidationRequest { object, operation: admission_request.operation },
            ),
            Option::None => Option::None,
        }
    }
}

/// What one constraint's execution came to: the script's verdict, its
/// reason, the patch its mutation implies, and whether the execution
/// broke rather than rejected.
pub struct ConstraintResult {
    pub allowed: bool,
    pub reason: Option<String>,
    pub patch: Option<Vec<PatchOp>>,
    pub error: bool,
}

impl View for ConstraintResult {
    type V = OutcomeModel;

    open spec fn view(&self) -> OutcomeModel {
        OutcomeModel {
            allowed: self.allowed,
            reason: opt_view(self.reason),
            patch: match self.patch {
                Option::None => Option::None,
                Option::Some(p) => Option::Some(ops_model(p@)),
            },
            error: self.error,
        }
    }
}

/// The result of one admission pass.
pub struct EvaluationResult {
    pub allowed: bool,
    pub reason: Option<String>,
    pub warnings: Vec<String>,
    pub patch: Option<Vec<PatchOp>>,
}

impl View for EvaluationResult {
    type V = ResultModel;

    open spec fn view(&self) -> ResultModel {
        ResultModel {
            allowed: self.allowed,
            reason: opt_view(self.reason),
            warnings: self.warnings@.map_values(|w: String| w@),
            patch: match self.patch {
                Option::None => Option::None,
                Option::Some(p) => Option::Some(ops_model(p@)),
            },
        }
    }
}

/// One pass's result together with what it reported: events and counter
/// increments, in the order they arose.
pub struct Evaluation {
    pub result: EvaluationResult,
    pub events: Vec<ConstraintEvent>,
    pub metrics: Vec<MetricEvent>,
}

/// The models of the constraints of a registry snapshot, in its order.
pub open spec fn infos_model(cs: Seq<ConstraintInfo>) -> Seq<ConstraintModel> {
    cs.map_values(|c: ConstraintInfo| c@)
}

/// The models of a list of events, in order.
pub open spec fn events_model(v: Seq<ConstraintEvent>) -> Seq<EventModel> {
    v.map_values(|e: ConstraintEvent| e@)
}

/// The models of a list of counter increments, in order.
pub open spec fn metrics_model(v: Seq<MetricEvent>) -> Seq<MetricModel> {
    v.map_values(|m: MetricEvent| m@)
}

/// The constraints whose match predicate accepts the resource, in order.
pub open spec fn matching(
    cs: Seq<ConstraintModel>,
    gvk: GvkModel,
    ns: Option<Seq<char>>,
) -> Seq<ConstraintModel>
    decreases cs.len(),
{
    if cs.len() == 0 {
        Seq::empty()
    } else {
        matching(cs.drop_last(), gvk, ns) + (if matches_model(cs.last(), gvk, ns) {
            seq![cs.last()]
        } else {
            Seq::empty()
        })
    }
}

/// The identifier of the resource under admission:
/// `group/kind/namespace-or-"-"/name`.
pub open spec fn target_of(gvk: GvkModel, ns: Option<Seq<char>>, name: Seq<char>) -> Seq<char> {
    gvk.group + seq!['/'] + gvk.kind + seq!['/'] + (match ns {
        Option::Some(n) => n,
        Option::None => "-"@,
    }) + seq!['/'] + name
}

/// How a finished pass relates to the matching constraints: some sequence
/// of per-constraint outcomes, one per engaged constraint, folds under the
/// aggregation policy to exactly this result, these events and these
/// counter increments.  Every outcome's patch, where there is one, is a
/// difference of the request's object `obj` against some well-formed
/// document; the fold concatenates them in engagement order.
pub open spec fn pass_reported(
    result: ResultModel,
    events: Seq<EventModel>,
    metrics: Seq<MetricModel>,
    ms: Seq<ConstraintModel>,
    target: Seq<char>,
    outs: Seq<OutcomeModel>,
    obj: JsonModel,
) -> bool {
    let s = scan(ms, target, outs, ms.len() as int);
    &&& outs.len() == ms.len()
    &&& (forall|k: int|
        0 <= k < outs.len() ==> ((#[trigger] outs[k]).error ==> !outs[k].allowed && outs[k].reason
            is Some))
    &&& (forall|k: int|
        0 <= k < outs.len() ==> match (#[trigger] outs[k]).patch {
            Option::Some(ops) => exists|m: JsonModel|
                ops == diff_model(Seq::empty(), obj, m) && wf_model(m),
            Option::None => true,
        })
    &&& result == finalize(s)
    &&& events == s.events
    &&& metrics == s.metrics
}

/// Builds the target identifier of the resource under admission.
fn make_target(gvk: &GroupVersionKind, namespace: &Option<String>, name: &String) -> (r: String)
    ensures
        r@ == target_of(gvk@, opt_view(*namespace), name@),
{
    let mut t = gvk.group.clone();
    push_char(&mut t, '/');
    t.append(gvk.kind.as_str());
    push_char(&mut t, '/');
    match namespace {
        Option::Some(ns) => t.append(ns.as_str()),
        Option::None => t.append("-"),
    }
    push_char(&mut t, '/');
    t.append(name.as_str());
    proof {
        assert(t@ =~= target_of(gvk@, opt_view(*namespace), name@));
    }
    t
}

/// An error outcome: not allowed, with the error text as reason and no
/// patch, metered apart from deliberate rejections.
fn fail(reason: String) -> (r: ConstraintResult)
    ensures
        r.allowed == false,
        r.reason == Option::Some(reason),
        r.patch is None,
        r.error == true,
{
    ConstraintResult { allowed: false, reason: Option::Some(reason), patch: Option::None, error: true }
}

/// The patch that turns the request's object into the script's mutated
/// document.
pub fn generate_patches(input: &JsonValue, patched: &JsonValue) -> (r: Vec<PatchOp>)
    ensures
        ops_model(r@) == diff_model(Seq::empty(), input@, patched@),
{
    diff(input, patched)
}

/// The reason of an error outcome whose mutated document could not be
/// read.
pub open spec fn undecodable_reason() -> Seq<char> {
    "Could not read patched object returned by validation function"@
}

/// The reason of an error outcome whose returned value had none of the
/// accepted shapes.
pub open spec fn bad_shape_reason() -> Seq<char> {
    "Validation function did not return expected types"@
}

/// The reason of an error outcome whose script did not compile.
pub open spec fn no_compile_reason() -> Seq<char> {
    "Validation function could not be compiled"@
}

/// The reason of an error outcome whose module holds no entry point.
pub open spec fn no_entry_reason() -> Seq<char> {
    "Validation function not found in code"@
}

/// What every reason of a raised-exception outcome starts with; the rest
/// is the interpreter's own message.
pub open spec fn failed_prefix() -> Seq<char> {
    "Validation function failed: "@
}

/// Whether a reason is one of the error reasons an evaluation can
/// produce.
pub open spec fn is_error_reason(reason: Option<Seq<char>>) -> bool {
    ||| reason == Option::Some(no_compile_reason())
    ||| reason == Option::Some(no_entry_reason())
    ||| (exists|rest: Seq<char>| reason == Option::Some(failed_prefix() + rest))
    ||| reason == Option::Some(undecodable_reason())
    ||| reason == Option::Some(bad_shape_reason())
}

/// The extracted shape of a script's returned value: a triple whose third
/// element decoded into a document (`None` when it did not), a pair of
/// verdict and reason, a bare verdict, or none of the accepted shapes.
pub enum ScriptShape {
    Triple(bool, Option<String>, Option<JsonValue>),
    Pair(bool, Option<String>),
    Verdict(bool),
    Other,
}

/// The Result Normalizer: one extracted return shape becomes an outcome.
/// A triple passes verdict and reason through, with the patch computed
/// against the decoded document; a pair passes through unchanged with no
/// patch; a bare verdict carries no reason; a triple whose document could
/// not be read, and a value of no accepted shape, are error outcomes with
/// their fixed reasons.
pub fn normalize(request: &ValidationRequest, shape: ScriptShape) -> (r: ConstraintResult)
    ensures
        shape matches ScriptShape::Verdict(b) ==> r.allowed == b && r.reason is None && r.patch
            is None && !r.error,
        shape matches ScriptShape::Pair(b, rs) ==> r.allowed == b && r.reason == rs && r.patch
            is None && !r.error,
        shape matches ScriptShape::Triple(b, rs, Option::Some(doc)) ==> r.allowed == b
            && r.reason == rs && !r.error && (r.patch matches Option::Some(p) && ops_model(p@)
            == diff_model(Seq::empty(), request.object@, doc@)),
        shape matches ScriptShape::Triple(b, rs, Option::None) ==> !r.allowed && opt_view(
            r.reason,
        ) == Option::Some(undecodable_reason()) && r.patch is None && r.error,
        shape is Other ==> !r.allowed && opt_view(r.reason) == Option::Some(bad_shape_reason())
            && r.patch is None && r.error,
{
    match shape {
        ScriptShape::Triple(code, reason, Option::Some(doc)) => {
            let patch = generate_patches(&request.object, &doc);
            ConstraintResult { allowed: code, reason, patch: Option::Some(patch), error: false }
        },
        ScriptShape::Triple(_, _, Option::None) => fail(
            String::from_str("Could not read patched object returned by validation function"),
        ),
        ScriptShape::Pair(code, reason) => ConstraintResult {
            allowed: code,
            reason,
            patch: Option::None,
            error: false,
        },
        ScriptShape::Verdict(code) => ConstraintResult {
            allowed: code,
            reason: Option::None,
            patch: Option::None,
            error: false,
        },
        ScriptShape::Other => fail(
            String::from_str("Validation function did not return expected types"),
        ),
    }
}

/// Reads the script's returned value by structural precedence - a triple
/// is tried before a pair, a pair before a bare verdict - and hands the
/// extracted shape to the Result Normalizer.
pub fn extract_result(request: &ValidationRequest, result: &Py<PyAny>) -> (r: ConstraintResult)
    ensures
        r.error ==> !r.allowed && r.reason is Some && r.patch is None,
        r.error ==> opt_view(r.reason) == Option::Some(undecodable_reason()) || opt_view(
            r.reason,
        ) == Option::Some(bad_shape_reason()),
        match r.patch {
            Option::Some(p) => exists|m: JsonModel|
                ops_model(p@) == diff_model(Seq::empty(), request.object@, m) && wf_model(m),
            Option::None => true,
        },
{
    let shape = match extract_triple(result) {
        Option::Some((code, reason, patched)) => {
            let doc = match from_python(&patched) {
                Option::Some(outside_doc) => decode(&outside_doc),
                Option::None => Option::None,
            };
            ScriptShape::Triple(code, reason, doc)
        },
        Option::None => match extract_pair(result) {
            Option::Some((code, reason)) => ScriptShape::Pair(code, reason),
            Option::None => match extract_bool(result) {
                Option::Some(code) => ScriptShape::Verdict(code),
                Option::None => ScriptShape::Other,
            },
        },
    };
    normalize(request, shape)
}

/// Runs one constraint's rule script against the request: serializes the
/// request, compiles the script as a fresh module, resolves `validate`,
/// calls it, and reads the returned value.  Every way the runtime can
/// break becomes an error outcome whose reason is one of the evaluation's
/// error reasons; a produced patch is always a difference of the
/// request's object against some well-formed document.
pub fn evaluate_constraint(constraint: &ConstraintInfo, request: &ValidationRequest) -> (r:
    ConstraintResult)
    ensures
        r.error ==> !r.allowed && r.reason is Some && r.patch is None,
        r.error ==> is_error_reason(opt_view(r.reason)),
        match r.patch {
            Option::Some(p) => exists|m: JsonModel|
                ops_model(p@) == diff_model(Seq::empty(), request.object@, m) && wf_model(m),
            Option::None => true,
        },
{
    let mut entries: Vec<(String, JsonValue)> = Vec::new();
    entries.push((String::from_str("object"), request.object.deep_clone()));
    entries.push((
        String::from_str("operation"),
        JsonValue::Str(String::from_str(request.operation.label())),
    ));
    let request_doc = JsonValue::Obj(entries);
    let outside_request = encode(&request_doc);
    let module = match compile_rule(constraint.constraint.rule.python.as_str()) {
        Ok(m) => m,
        Err(_) => {
            return fail(String::from_str("Validation function could not be compiled"));
        },
    };
    let func = match get_attr(&module, "validate") {
        Option::Some(f) => f,
        Option::None => {
            return fail(String::from_str("Validation function not found in code"));
        },
    };
    let arg = match to_python(&outside_request) {
        Ok(a) => a,
        Err(e) => {
            let reason = String::from_str("Validation function failed: ").concat(e.as_str());
            proof {
                assert(reason@ == failed_prefix() + e@);
            }
            return fail(reason);
        },
    };
    let result = match call_one(&func, &arg) {
        Ok(v) => v,
        Err(e) => {
            let reason = String::from_str("Validation function failed: ").concat(e.as_str());
            proof {
                assert(reason@ == failed_prefix() + e@);
            }
            return fail(reason);
        },
    };
    extract_result(request, &result)
}

/// Re-checks one already-stored resource against one constraint, outside
/// live admission traffic: the object is wrapped as an update request and
/// handed to the rule runtime.  No event or counter increment is implied.
pub fn evaluate_constraint_audit(constraint: &ConstraintInfo, object: JsonValue) -> (r:
    ConstraintResult)
    ensures
        r.error ==> !r.allowed && r.reason is Some && r.patch is None,
        r.error ==> is_error_reason(opt_view(r.reason)),
        match r.patch {
            Option::Some(p) => exists|m: JsonModel|
                ops_model(p@) == diff_model(Seq::empty(), object@, m) && wf_model(m),
            Option::None => true,
        },
{
    let request = ValidationRequest { object, operation: Operation::Update };
    evaluate_constraint(constraint, &request)
}

/// The evaluator.  One is made at process start: making it initializes
/// the embedded rule runtime for the whole process.
pub struct ConstraintEvaluator {}

impl ConstraintEvaluator {
    /// Makes the evaluator and initializes the rule runtime.
    pub fn new() -> (r: ConstraintEvaluator) {
        init_runtime();
        ConstraintEvaluator {  }
    }

    /// Holds the admission request against a snapshot of the constraint
    /// registry.  A request without an object passes at once with a
    /// telling reason.  Otherwise the matching constraints are engaged in
    /// snapshot order, and some sequence of per-constraint outcomes folds
    /// under the aggregation policy to exactly the returned result,
    /// events and counter increments (`pass_reported`): an enforced
    /// rejection ends the pass with no patch and nothing after it, a
    /// tolerated rejection or a passing reason warns, and patches are
    /// concatenated in engagement order.
    pub fn evaluate_constraints(
        &self,
        admission_request: AdmissionRequest,
        constraints: &Vec<ConstraintInfo>,
    ) -> (r: Evaluation)
        ensures
            admission_request.object is None ==> {
                &&& r.result@.allowed == true
                &&& r.result@.reason == Option::Some("no object in request"@)
                &&& r.result@.warnings.len() == 0
                &&& r.result@.patch is None
                &&& r.events@.len() == 0
                &&& r.metrics@.len() == 0
            },
            admission_request.object is Some ==> exists|outs: Seq<OutcomeModel>|
                #[trigger] pass_reported(
                    r.result@,
                    events_model(r.events@),
                    metrics_model(r.metrics@),
                    matching(
                        infos_model(constraints@),
                        admission_request.kind@,
                        opt_view(admission_request.namespace),
                    ),
                    target_of(
                        admission_request.kind@,
                        opt_view(admission_request.namespace),
                        admission_request.name@,
                    ),
                    outs,
                    admission_request.object->Some_0@,
                ),
    {
        let namespace: Option<String> = match &admission_request.namespace {
            Option::Some(s) => Option::Some(s.clone()),
            Option::None => Option::None,
        };
        let name = admission_request.name.clone();
        let gvk = GroupVersionKind {
            group: admission_request.kind.group.clone(),
            version: admission_request.kind.version.clone(),
            kind: admission_request.kind.kind.clone(),
        };
        let ghost gvkm = admission_request.kind@;
        let ghost nsm = opt_view(admission_request.namespace);
        let ghost namem = admission_request.name@;
        let request = match ValidationRequest::from(admission_request) {
            Option::Some(request) => request,
            Option::None => {
                return Evaluation {
                    result: EvaluationResult {
                        allowed: true,
                        reason: Option::Some(String::from_str("no object in request")),
                        warnings: Vec::new(),
                        patch: Option::None,
                    },
                    events: Vec::new(),
                    metrics: Vec::new(),
                };
            },
        };
        let target = make_target(&gvk, &namespace, &name);
        let ghost cmods = infos_model(constraints@);
        let ghost msq = matching(cmods, gvkm, nsm);
        let ghost targm = target_of(gvkm, nsm, namem);

        let mut matched_ix: Vec<usize> = Vec::new();
        let mut i: usize = 0;
        proof {
            assert(cmods.take(0) =~= Seq::<ConstraintModel>::empty());
            assert(matching(cmods.take(0), gvkm, nsm) =~= Seq::<ConstraintModel>::empty());
            assert(matched_ix@.map_values(|ix: usize| cmods[ix as int]) =~= Seq::<
                ConstraintModel,
            >::empty());
        }
        while i < constraints.len()
            invariant
                i <= constraints@.len(),
                cmods == infos_model(constraints@),
                gvk@ == gvkm,
                opt_view(namespace) == nsm,
                forall|j: int|
                    0 <= j < matched_ix@.len() ==> (#[trigger] matched_ix@[j]) < i,
                matched_ix@.map_values(|ix: usize| cmods[ix as int]) == matching(
                    cmods.take(i as int),
                    gvkm,
                    nsm,
                ),
            decreases constraints@.len() - i,
        {
            let ghost pre = matched_ix@.map_values(|ix: usize| cmods[ix as int]);
            let m = constraints[i].is_match(&gvk, &namespace);
            proof {
                let t1 = cmods.take(i + 1 as int);
                assert(t1.len() == i + 1);
                assert(t1.drop_last() =~= cmods.take(i as int));
                assert(t1.last() == cmods[i as int]);
                assert(constraints@[i as int]@ == cmods[i as int]);
            }
            if m {
                matched_ix.push(i);
                proof {
                    assert(matched_ix@.map_values(|ix: usize| cmods[ix as int]) =~= pre.push(
                        cmods[i as int],
                    ));
                    assert(matching(cmods.take(i + 1 as int), gvkm, nsm) =~= matching(
                        cmods.take(i as int),
                        gvkm,
                        nsm,
                    ).push(cmods[i as int]));
                }
            } else {
                proof {
                    assert(matching(cmods.take(i + 1 as int), gvkm, nsm) =~= matching(
                        cmods.take(i as int),
                        gvkm,
                        nsm,
                    ));
                }
            }
            i += 1;
        }
        proof {
            assert(cmods.take(cmods.len() as int) =~= cmods);
            assert(matched_ix@.map_values(|ix: usize| cmods[ix as int]) == msq);
        }

        let mut warnings: Vec<String> = Vec::new();
        let mut merged_ops: Vec<PatchOp> = Vec::new();
        let mut events: Vec<ConstraintEvent> = Vec::new();
        let mut metrics: Vec<MetricEvent> = Vec::new();
        let ghost mut outs: Seq<OutcomeModel> = Seq::empty();
        let mut k: usize = 0;
        proof {
            assert(warnings@.map_values(|w: String| w@) =~= Seq::<Seq<char>>::empty());
            assert(ops_model(merged_ops@) =~= Seq::<crate::patch::PatchOpModel>::empty());
            assert(events_model(events@) =~= Seq::<EventModel>::empty());
            assert(metrics_model(metrics@) =~= Seq::<MetricModel>::empty());
        }
        while k < matched_ix.len()
            invariant
                k <= matched_ix@.len(),
                outs.len() == k,
                msq.len() == matched_ix@.len(),
                cmods == infos_model(constraints@),
                admission_request.object is Some,
                request.object == admission_request.object->Some_0,
                gvkm == admission_request.kind@,
                nsm == opt_view(admission_request.namespace),
                namem == admission_request.name@,
                msq == matching(infos_model(constraints@), gvkm, nsm),
                targm == target_of(gvkm, nsm, namem),
                forall|j: int|
                    0 <= j < matched_ix@.len() ==> (#[trigger] matched_ix@[j])
                        < constraints@.len(),
                matched_ix@.map_values(|ix: usize| cmods[ix as int]) == msq,
                target@ == targm,
                forall|j: int|
                    0 <= j < outs.len() ==> ((#[trigger] outs[j]).error ==> !outs[j].allowed
                        && outs[j].reason is Some),
                forall|j: int|
                    0 <= j < outs.len() ==> match (#[trigger] outs[j]).patch {
                        Option::Some(ops) => exists|m: JsonModel|
                            ops == diff_model(Seq::empty(), request.object@, m) && wf_model(m),
                        Option::None => true,
                    },
                ({
                    let s = scan(msq, targm, outs, k as int);
                    &&& !s.decided
                    &&& s.warnings == warnings@.map_values(|w: String| w@)
                    &&& s.ops == ops_model(merged_ops@)
                    &&& s.events == events_model(events@)
                    &&& s.metrics == metrics_model(metrics@)
                }),
            decreases matched_ix@.len() - k,
        {
            let ghost s_pre = scan(msq, targm, outs, k as int);
            let ghost events_pre = events_model(events@);
            let ci = matched_ix[k];
            let c = &constraints[ci];
            proof {
                assert(c@ == msq[k as int]);
            }
            let res = evaluate_constraint(c, &request);
            let ghost om = res@;
            let ConstraintResult { allowed, reason, patch, error } = res;
            let reason_copy: Option<String> = match &reason {
                Option::Some(s) => Option::Some(s.clone()),
                Option::None => Option::None,
            };
            metrics.push(MetricEvent { kind: CounterKind::Matched, name: c.name.clone() });
            if error {
                metrics.push(
                    MetricEvent { kind: CounterKind::EvaluatedError, name: c.name.clone() },
                );
            }
            match patch {
                Option::Some(mut p) => {
                    merged_ops.append(&mut p);
                },
                Option::None => {},
            }
            events.push(
                ConstraintEvent {
                    constraint_reference: c.ref_info.duplicate(),
                    event_data: ConstraintEventData::Evaluated {
                        target_identifier: target.clone(),
                        result: allowed,
                        reason: reason_copy,
                    },
                },
            );
            if allowed {
                metrics.push(
                    MetricEvent { kind: CounterKind::EvaluatedSuccess, name: c.name.clone() },
                );
                match reason {
                    Option::Some(rs) => {
                        warnings.push(rs);
                    },
                    Option::None => {},
                }
            } else {
                metrics.push(
                    MetricEvent { kind: CounterKind::EvaluatedReject, name: c.name.clone() },
                );
                let enforce = match c.constraint.enforce {
                    Option::None => true,
                    Option::Some(b) => b,
                };
                if enforce {
                    let ghost outs2 = outs.push(om);
                    proof {
                        crate::policy::lemma_scan_prefix(msq, targm, outs, outs2, k as int);
                        assert(scan(msq, targm, outs2, k + 1 as int) == scan_step(
                            s_pre,
                            msq[k as int],
                            targm,
                            om,
                        ));
                    }
                    let result = EvaluationResult {
                        allowed: false,
                        reason,
                        warnings,
                        patch: Option::None,
                    };
                    let r = Evaluation { result, events, metrics };
                    proof {
                        let s_post = scan(msq, targm, outs2, k + 1 as int);
                        assert(s_post.decided);
                        assert(s_post.events =~= events_pre.push(
                            events_model(r.events@).last(),
                        ));
                        assert(events_model(r.events@) =~= s_post.events);
                        assert(metrics_model(r.metrics@) =~= s_post.metrics);
                        let filler = Seq::<OutcomeModel>::new(
                            (msq.len() - k - 1) as nat,
                            |j: int| om,
                        );
                        let outs3 = outs2 + filler;
                        crate::policy::lemma_scan_prefix(msq, targm, outs2, outs3, k + 1 as int);
                        lemma_scan_stable(msq, targm, outs3, k + 1 as int, msq.len() as int);
                        assert(scan(msq, targm, outs3, msq.len() as int) == s_post);
                        assert(r.result@ == finalize(s_post));
                        assert(pass_reported(
                            r.result@,
                            events_model(r.events@),
                            metrics_model(r.metrics@),
                            msq,
                            targm,
                            outs3,
                            request.object@,
                        ));
                    }
                    return r;
                } else {
                    match reason {
                        Option::Some(rs) => {
                            warnings.push(rs);
                        },
                        Option::None => {},
                    }
                }
            }
            proof {
                let outs2 = outs.push(om);
                crate::policy::lemma_scan_prefix(msq, targm, outs, outs2, k as int);
                assert(scan(msq, targm, outs2, k + 1 as int) == scan_step(
                    s_pre,
                    msq[k as int],
                    targm,
                    om,
                ));
                let s_post = scan(msq, targm, outs2, k + 1 as int);
                assert(!s_post.decided);
                assert(s_post.warnings =~= warnings@.map_values(|w: String| w@));
                assert(s_post.ops =~= ops_model(merged_ops@));
                assert(s_post.events =~= events_model(events@));
                assert(s_post.metrics =~= metrics_model(metrics@));
                outs = outs2;
            }
            k += 1;
        }
        let patch_out: Option<Vec<PatchOp>> = if merged_ops.len() > 0 {
            Option::Some(merged_ops)
        } else {
            Option::None
        };
        let result = EvaluationResult {
            allowed: true,
            reason: Option::None,
            warnings,
            patch: patch_out,
        };
        let r = Evaluation { result, events, metrics };
        proof {
            let s = scan(msq, targm, outs, msq.len() as int);
            assert(r.result@ == finalize(s));
            assert(pass_reported(
                r.result@,
                events_model(r.events@),
                metrics_model(r.metrics@),
                msq,
                targm,
                outs,
                request.object@,
            ));
        }
        r
    }

    /// Compile-only check of a constraint definition under admission: a
    /// missing rule or a rule that does not compile is rejected with the
    /// reason, and a failed validation is counted against the constraint's
    /// name.
    pub fn validate_constraint(
        &self,
        name: &String,
        rule: &Option<String>,
        metrics: &mut Vec<MetricEvent>,
    ) -> (r: (bool, Option<String>))
        ensures
            r.0 ==> r.1 is None && final(metrics)@ == old(metrics)@,
            r.0 ==> rule is Some,
            !r.0 ==> r.1 is Some,
            !r.0 && rule is None ==> r.1->Some_0@ == "No rule found"@ && final(metrics)@ == old(
                metrics,
            )@,
            !r.0 && rule is Some ==> {
                &&& exists|rest: Seq<char>| r.1->Some_0@ == "Python compile error: "@ + rest
                &&& final(metrics)@.len() == old(metrics)@.len() + 1
                &&& final(metrics)@.drop_last() == old(metrics)@
                &&& final(metrics)@.last()@ == (MetricModel {
                    kind: CounterKind::ValidationFail,
                    name: name@,
                })
            },
    {
        match rule {
            Option::Some(code) => match compile_rule(code.as_str()) {
                Ok(_) => (true, Option::None),
                Err(e) => {
                    metrics.push(
                        MetricEvent { kind: CounterKind::ValidationFail, name: name.clone() },
                    );
                    proof {
                        assert(metrics@.drop_last() =~= old(metrics)@);
                    }
                    (
                        false,
                        Option::Some(
                            String::from_str("Python compile error: ").concat(e.as_str()),
                        ),
                    )
                },
            },
            Option::None => (false, Option::Some(String::from_str("No rule found"))),
        }
    }
}

} // verus!
