use bridgekeeper::constraint::ConstraintInfo;
use bridgekeeper::constraint::ConstraintRef;
use bridgekeeper::constraint::ConstraintSpec;
use bridgekeeper::constraint::GroupVersionKind;
use bridgekeeper::evaluator::AdmissionRequest;
use bridgekeeper::evaluator::ConstraintEvaluator;
use bridgekeeper::evaluator::Operation;
use bridgekeeper::evaluator::evaluate_constraint_audit;
use bridgekeeper::events::ConstraintEventData;
use bridgekeeper::events::CounterKind;
use bridgekeeper::events::MetricEvent;
use bridgekeeper::json::JsonValue;

fn gvk() -> GroupVersionKind {
    GroupVersionKind {
        group: "apps".to_string(),
        version: "v1".to_string(),
        kind: "Deployment".to_string(),
    }
}

fn admission(object: Option<JsonValue>) -> AdmissionRequest {
    AdmissionRequest {
        object,
        operation: Operation::Create,
        name: "myname".to_string(),
        namespace: Some("ns1".to_string()),
        kind: gvk(),
    }
}

fn named_constraint(name: &str, python: &str) -> ConstraintInfo {
    let spec = ConstraintSpec::from_python(python.to_string());
    ConstraintInfo::new(
        name.to_string(),
        spec,
        ConstraintRef { name: name.to_string() },
    )
}

fn sample_object() -> JsonValue {
    JsonValue::Obj(vec![
        ("a".to_string(), JsonValue::Num(1)),
        ("b".to_string(), JsonValue::Str("1".to_string())),
    ])
}

#[test]
fn no_object_passes_with_reason() {
    let evaluator = ConstraintEvaluator::new();
    let constraints = vec![named_constraint("c1", "def validate(request):\n    return False\n")];
    let evaluation = evaluator.evaluate_constraints(admission(None), &constraints);
    assert!(evaluation.result.allowed);
    assert_eq!(Some("no object in request".to_string()), evaluation.result.reason);
    assert!(evaluation.result.warnings.is_empty());
    assert!(evaluation.result.patch.is_none());
    assert!(evaluation.events.is_empty());
    assert!(evaluation.metrics.is_empty());
}

#[test]
fn enforced_rejection_short_circuits() {
    let evaluator = ConstraintEvaluator::new();
    let constraints = vec![
        named_constraint("first", "def validate(request):\n    return False, \"nope\"\n"),
        named_constraint("second", "def validate(request):\n    return True\n"),
    ];
    let evaluation = evaluator.evaluate_constraints(admission(Some(sample_object())), &constraints);
    assert!(!evaluation.result.allowed);
    assert_eq!(Some("nope".to_string()), evaluation.result.reason);
    assert!(evaluation.result.patch.is_none());
    // the second constraint was never engaged: one event, only "first" metered
    assert_eq!(1, evaluation.events.len());
    assert_eq!("first", evaluation.events[0].constraint_reference.name);
    assert!(evaluation.metrics.iter().all(|m| m.name == "first"));
    let kinds: Vec<CounterKind> = evaluation.metrics.iter().map(|m| m.kind).collect();
    assert_eq!(vec![CounterKind::Matched, CounterKind::EvaluatedReject], kinds);
}

#[test]
fn non_enforced_rejection_warns_and_continues() {
    let evaluator = ConstraintEvaluator::new();
    let mut first = named_constraint("first", "def validate(request):\n    return False, \"warned\"\n");
    first.constraint.enforce = Some(false);
    let second = named_constraint("second", "def validate(request):\n    return True\n");
    let constraints = vec![first, second];
    let evaluation = evaluator.evaluate_constraints(admission(Some(sample_object())), &constraints);
    assert!(evaluation.result.allowed);
    assert!(evaluation.result.reason.is_none());
    assert_eq!(vec!["warned".to_string()], evaluation.result.warnings);
    // the second constraint did execute
    assert_eq!(2, evaluation.events.len());
    assert_eq!("first", evaluation.events[0].constraint_reference.name);
    assert_eq!("second", evaluation.events[1].constraint_reference.name);
    let ConstraintEventData::Evaluated { target_identifier, result, reason } =
        &evaluation.events[1].event_data;
    assert_eq!("apps/Deployment/ns1/myname", target_identifier);
    assert!(*result);
    assert!(reason.is_none());
}

#[test]
fn passing_reason_becomes_warning() {
    let evaluator = ConstraintEvaluator::new();
    let constraints = vec![named_constraint(
        "advisory",
        "def validate(request):\n    return True, \"heads up\"\n",
    )];
    let evaluation = evaluator.evaluate_constraints(admission(Some(sample_object())), &constraints);
    assert!(evaluation.result.allowed);
    assert_eq!(vec!["heads up".to_string()], evaluation.result.warnings);
    let kinds: Vec<CounterKind> = evaluation.metrics.iter().map(|m| m.kind).collect();
    assert_eq!(vec![CounterKind::Matched, CounterKind::EvaluatedSuccess], kinds);
}

#[test]
fn non_matching_constraint_is_not_engaged() {
    let evaluator = ConstraintEvaluator::new();
    let mut c = named_constraint("narrow", "def validate(request):\n    return False\n");
    c.constraint.target.matches[0].kind = "Pod".to_string();
    let constraints = vec![c];
    let evaluation = evaluator.evaluate_constraints(admission(Some(sample_object())), &constraints);
    assert!(evaluation.result.allowed);
    assert!(evaluation.events.is_empty());
    assert!(evaluation.metrics.is_empty());
}

#[test]
fn script_error_is_metered_apart() {
    let evaluator = ConstraintEvaluator::new();
    let constraints = vec![named_constraint("broken", "def broken(request):\n    return True\n")];
    let evaluation = evaluator.evaluate_constraints(admission(Some(sample_object())), &constraints);
    assert!(!evaluation.result.allowed);
    assert_eq!(
        Some("Validation function not found in code".to_string()),
        evaluation.result.reason
    );
    let kinds: Vec<CounterKind> = evaluation.metrics.iter().map(|m| m.kind).collect();
    assert_eq!(
        vec![CounterKind::Matched, CounterKind::EvaluatedError, CounterKind::EvaluatedReject],
        kinds
    );
}

#[test]
fn mutating_pass_attaches_merged_patch() {
    let evaluator = ConstraintEvaluator::new();
    let constraints = vec![named_constraint(
        "mutate",
        "def validate(request):\n    object = request[\"object\"]\n    object[\"b\"] = \"2\"\n    return True, None, object\n",
    )];
    let evaluation = evaluator.evaluate_constraints(admission(Some(sample_object())), &constraints);
    assert!(evaluation.result.allowed);
    let patch = evaluation.result.patch.unwrap();
    assert_eq!(1, patch.len());
    assert_eq!("/b", patch[0].path);
}

#[test]
fn audit_reuses_the_rule_runtime() {
    let _evaluator = ConstraintEvaluator::new();
    let constraint = named_constraint(
        "audited",
        "def validate(request):\n    return request[\"operation\"] == \"UPDATE\"\n",
    );
    let res = evaluate_constraint_audit(&constraint, sample_object());
    assert!(res.allowed);
    assert!(!res.error);
}

#[test]
fn validate_constraint_accepts_good_rule() {
    let evaluator = ConstraintEvaluator::new();
    let mut metrics: Vec<MetricEvent> = Vec::new();
    let (ok, reason) = evaluator.validate_constraint(
        &"good".to_string(),
        &Some("def validate(request):\n    return True\n".to_string()),
        &mut metrics,
    );
    assert!(ok);
    assert!(reason.is_none());
    assert!(metrics.is_empty());
}

#[test]
fn validate_constraint_rejects_syntax_error() {
    let evaluator = ConstraintEvaluator::new();
    let mut metrics: Vec<MetricEvent> = Vec::new();
    let (ok, reason) = evaluator.validate_constraint(
        &"bad".to_string(),
        &Some("def validate(request:\n    return True\n".to_string()),
        &mut metrics,
    );
    assert!(!ok);
    let reason = reason.unwrap();
    assert!(reason.starts_with("Python compile error:"), "reason was: {}", reason);
    assert_eq!(1, metrics.len());
    assert_eq!(CounterKind::ValidationFail, metrics[0].kind);
    assert_eq!("bad", metrics[0].name);
}

#[test]
fn validate_constraint_rejects_missing_rule() {
    let evaluator = ConstraintEvaluator::new();
    let mut metrics: Vec<MetricEvent> = Vec::new();
    let (ok, reason) = evaluator.validate_constraint(&"none".to_string(), &None, &mut metrics);
    assert!(!ok);
    assert_eq!(Some("No rule found".to_string()), reason);
    assert!(metrics.is_empty());
}

#[test]
fn compile_failure_is_an_error_outcome() {
    let evaluator = ConstraintEvaluator::new();
    let constraints = vec![named_constraint("bad", "def validate(request:\n    return True\n")];
    let evaluation = evaluator.evaluate_constraints(admission(Some(sample_object())), &constraints);
    assert!(!evaluation.result.allowed);
    assert_eq!(
        Some("Validation function could not be compiled".to_string()),
        evaluation.result.reason
    );
}

#[test]
fn unexpected_return_shape_is_an_error_outcome() {
    let evaluator = ConstraintEvaluator::new();
    let constraints = vec![named_constraint("shape", "def validate(request):\n    return 42\n")];
    let evaluation = evaluator.evaluate_constraints(admission(Some(sample_object())), &constraints);
    assert!(!evaluation.result.allowed);
    assert_eq!(
        Some("Validation function did not return expected types".to_string()),
        evaluation.result.reason
    );
}

#[test]
fn undecodable_mutation_is_an_error_outcome() {
    let evaluator = ConstraintEvaluator::new();
    let constraints = vec![named_constraint(
        "undecodable",
        "def validate(request):\n    return True, None, (lambda x: x)\n",
    )];
    let evaluation = evaluator.evaluate_constraints(admission(Some(sample_object())), &constraints);
    assert!(!evaluation.result.allowed);
    assert_eq!(
        Some("Could not read patched object returned by validation function".to_string()),
        evaluation.result.reason
    );
}

#[test]
fn patches_from_distinct_constraints_concatenate() {
    let evaluator = ConstraintEvaluator::new();
    let constraints = vec![
        named_constraint(
            "m1",
            "def validate(request):\n    object = request[\"object\"]\n    object[\"b\"] = \"2\"\n    return True, None, object\n",
        ),
        named_constraint(
            "m2",
            "def validate(request):\n    object = request[\"object\"]\n    object[\"a\"] = 5\n    return True, None, object\n",
        ),
    ];
    let evaluation = evaluator.evaluate_constraints(admission(Some(sample_object())), &constraints);
    assert!(evaluation.result.allowed);
    // each patch is computed against the original object, then concatenated
    let patch = evaluation.result.patch.unwrap();
    assert_eq!(2, patch.len());
    assert_eq!("/b", patch[0].path);
    assert_eq!("/a", patch[1].path);
}

#[test]
fn matcher_accepts_exact_group_and_kind() {
    let evaluator = ConstraintEvaluator::new();
    let mut c = named_constraint("exact", "def validate(request):\n    return True, \"seen\"\n");
    c.constraint.target.matches[0].api_group = "apps".to_string();
    c.constraint.target.matches[0].kind = "Deployment".to_string();
    let constraints = vec![c];
    let evaluation = evaluator.evaluate_constraints(admission(Some(sample_object())), &constraints);
    assert_eq!(vec!["seen".to_string()], evaluation.result.warnings);
}

#[test]
fn matcher_respects_namespace_list() {
    let evaluator = ConstraintEvaluator::new();
    let mut inside = named_constraint("inside", "def validate(request):\n    return False\n");
    inside.constraint.target.namespaces = Some(vec!["ns1".to_string()]);
    let mut outside = named_constraint("outside", "def validate(request):\n    return False\n");
    outside.constraint.target.namespaces = Some(vec!["other".to_string()]);
    let evaluation =
        evaluator.evaluate_constraints(admission(Some(sample_object())), &vec![outside]);
    assert!(evaluation.result.allowed);
    assert!(evaluation.events.is_empty());
    let evaluation =
        evaluator.evaluate_constraints(admission(Some(sample_object())), &vec![inside]);
    assert!(!evaluation.result.allowed);
}

#[test]
fn rejection_event_carries_the_reason() {
    let evaluator = ConstraintEvaluator::new();
    let constraints =
        vec![named_constraint("r", "def validate(request):\n    return False, \"why not\"\n")];
    let evaluation = evaluator.evaluate_constraints(admission(Some(sample_object())), &constraints);
    assert_eq!(1, evaluation.events.len());
    let ConstraintEventData::Evaluated { target_identifier: _, result, reason } =
        &evaluation.events[0].event_data;
    assert!(!*result);
    assert_eq!(Some("why not".to_string()), *reason);
}
