use bridgekeeper::constraint::ConstraintInfo;
use bridgekeeper::constraint::ConstraintSpec;
use bridgekeeper::evaluator::ConstraintEvaluator;
use bridgekeeper::evaluator::Operation;
use bridgekeeper::evaluator::ScriptShape;
use bridgekeeper::evaluator::ValidationRequest;
use bridgekeeper::evaluator::evaluate_constraint;
use bridgekeeper::evaluator::normalize;
use bridgekeeper::json::JsonValue;
use bridgekeeper::patch::PatchKind;

fn request() -> ValidationRequest {
    ValidationRequest {
        object: JsonValue::Obj(vec![
            ("a".to_string(), JsonValue::Num(1)),
            ("b".to_string(), JsonValue::Str("1".to_string())),
        ]),
        operation: Operation::Create,
    }
}

#[test]
fn normalize_bare_verdict() {
    let res = normalize(&request(), ScriptShape::Verdict(true));
    assert!(res.allowed);
    assert!(res.reason.is_none());
    assert!(res.patch.is_none());
    assert!(!res.error);
    let res = normalize(&request(), ScriptShape::Verdict(false));
    assert!(!res.allowed);
    assert!(res.reason.is_none());
    assert!(!res.error);
}

#[test]
fn normalize_pair_passes_through() {
    let res = normalize(&request(), ScriptShape::Pair(false, Some("foobar".to_string())));
    assert!(!res.allowed);
    assert_eq!(Some("foobar".to_string()), res.reason);
    assert!(res.patch.is_none());
    assert!(!res.error);
}

#[test]
fn normalize_triple_diffs_against_decoded_document() {
    let mutated = JsonValue::Obj(vec![
        ("a".to_string(), JsonValue::Num(1)),
        ("b".to_string(), JsonValue::Str("2".to_string())),
    ]);
    let res = normalize(&request(), ScriptShape::Triple(true, None, Some(mutated)));
    assert!(res.allowed);
    assert!(res.reason.is_none());
    assert!(!res.error);
    let patch = res.patch.unwrap();
    assert_eq!(1, patch.len());
    assert_eq!(PatchKind::Replace, patch[0].op);
    assert_eq!("/b", patch[0].path);
}

#[test]
fn normalize_undecodable_document_is_an_error() {
    let res = normalize(&request(), ScriptShape::Triple(true, None, None));
    assert!(!res.allowed);
    assert_eq!(
        Some("Could not read patched object returned by validation function".to_string()),
        res.reason
    );
    assert!(res.patch.is_none());
    assert!(res.error);
}

#[test]
fn normalize_unaccepted_shape_is_an_error() {
    let res = normalize(&request(), ScriptShape::Other);
    assert!(!res.allowed);
    assert_eq!(
        Some("Validation function did not return expected types".to_string()),
        res.reason
    );
    assert!(res.error);
}

#[test]
fn compilations_share_no_global_state() {
    let _evaluator = ConstraintEvaluator::new();
    let leaky = ConstraintInfo::new(
        "leaky".to_string(),
        ConstraintSpec::from_python(
            "LEAK = \"x\"\ndef validate(request):\n    return True\n".to_string(),
        ),
        Default::default(),
    );
    let probe = ConstraintInfo::new(
        "probe".to_string(),
        ConstraintSpec::from_python(
            "def validate(request):\n    return LEAK == \"x\"\n".to_string(),
        ),
        Default::default(),
    );
    let first = evaluate_constraint(&leaky, &request());
    assert!(first.allowed);
    // the second script must not see the first one's module globals
    let second = evaluate_constraint(&probe, &request());
    assert!(!second.allowed);
    assert!(second.error);
    let reason = second.reason.unwrap();
    assert!(
        reason.starts_with("Validation function failed: NameError: name 'LEAK'"),
        "reason was: {}",
        reason
    );
}
