use bridgekeeper::constraint::ConstraintInfo;
use bridgekeeper::constraint::ConstraintSpec;
use bridgekeeper::evaluator::ConstraintEvaluator;
use bridgekeeper::evaluator::Operation;
use bridgekeeper::evaluator::ValidationRequest;
use bridgekeeper::evaluator::evaluate_constraint;
use bridgekeeper::json::JsonValue;
use bridgekeeper::patch::PatchKind;

#[test]
fn test_simple_evaluate() {
    let _evaluator = ConstraintEvaluator::new();
    let python = r#"
def validate(request):
    return True
        "#;
    let constraint_spec = ConstraintSpec::from_python(python.to_string());
    let constraint = ConstraintInfo::new("test".to_string(), constraint_spec, Default::default());

    let object = JsonValue::Null;
    let request = ValidationRequest {
        object,
        operation: Operation::Create,
    };

    let res = evaluate_constraint(&constraint, &request);
    assert!(res.allowed, "validate function failed: {}", res.reason.unwrap());
    assert!(res.reason.is_none());
    assert!(res.patch.is_none());
}

#[test]
fn test_simple_evaluate_with_reason() {
    let _evaluator = ConstraintEvaluator::new();
    let python = r#"
def validate(request):
    return False, "foobar"
        "#;
    let constraint_spec = ConstraintSpec::from_python(python.to_string());
    let constraint = ConstraintInfo::new("test".to_string(), constraint_spec, Default::default());

    let object = JsonValue::Null;
    let request = ValidationRequest {
        object,
        operation: Operation::Create,
    };

    let res = evaluate_constraint(&constraint, &request);
    assert!(!res.allowed);
    assert!(res.reason.is_some());
    assert_eq!("foobar".to_string(), res.reason.unwrap());
    assert!(res.patch.is_none());
}

#[test]
fn test_evaluate_with_invalid_python() {
    let _evaluator = ConstraintEvaluator::new();
    let python = r#"
def validate(request):
    return false, "foobar"
        "#;
    let constraint_spec = ConstraintSpec::from_python(python.to_string());
    let constraint = ConstraintInfo::new("test".to_string(), constraint_spec, Default::default());

    let object = JsonValue::Null;
    let request = ValidationRequest {
        object,
        operation: Operation::Create,
    };

    let res = evaluate_constraint(&constraint, &request);
    assert!(!res.allowed);
    assert!(res.reason.is_some());
    assert_eq!(
        "Validation function failed: NameError: name 'false' is not defined".to_string(),
        res.reason.unwrap()
    );
    assert!(res.patch.is_none());
}

#[test]
fn test_simple_mutate() {
    let _evaluator = ConstraintEvaluator::new();
    let python = r#"
def validate(request):
    object = request["object"]
    object["b"] = "2"
    return True, None, object
        "#;
    let constraint_spec = ConstraintSpec::from_python(python.to_string());
    let constraint = ConstraintInfo::new("test".to_string(), constraint_spec, Default::default());

    let object = JsonValue::Obj(vec![
        ("a".to_string(), JsonValue::Num(1)),
        ("b".to_string(), JsonValue::Str("1".to_string())),
    ]);
    let request = ValidationRequest {
        object,
        operation: Operation::Create,
    };

    let res = evaluate_constraint(&constraint, &request);
    assert!(res.allowed, "validate function failed: {}", res.reason.unwrap());
    assert!(res.reason.is_none());
    assert!(res.patch.is_some());
    let patch = res.patch.unwrap();
    assert_eq!(1, patch.len());
    assert_eq!(PatchKind::Replace, patch[0].op);
    assert_eq!("/b", patch[0].path);
    match &patch[0].value {
        Some(JsonValue::Str(s)) => assert_eq!("2", s),
        other => panic!("unexpected patch value: {:?}", other.is_some()),
    }
}
