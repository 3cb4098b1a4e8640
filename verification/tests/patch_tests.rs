use bridgekeeper::json::JsonValue;
use bridgekeeper::patch::PatchKind;
use bridgekeeper::patch::diff;

fn nested() -> JsonValue {
    JsonValue::Obj(vec![
        ("a".to_string(), JsonValue::Num(1)),
        (
            "b".to_string(),
            JsonValue::Obj(vec![
                ("x".to_string(), JsonValue::Arr(vec![JsonValue::Bool(true), JsonValue::Null])),
                ("y".to_string(), JsonValue::Str("v".to_string())),
            ]),
        ),
    ])
}

#[test]
fn diff_of_equal_documents_is_empty() {
    let a = nested();
    let b = nested();
    assert_eq!(0, diff(&a, &b).len());
    let s = JsonValue::Str("just text".to_string());
    assert_eq!(0, diff(&s, &JsonValue::Str("just text".to_string())).len());
}

#[test]
fn diff_replaces_changed_member() {
    let a = JsonValue::Obj(vec![
        ("a".to_string(), JsonValue::Num(1)),
        ("b".to_string(), JsonValue::Str("1".to_string())),
    ]);
    let b = JsonValue::Obj(vec![
        ("a".to_string(), JsonValue::Num(1)),
        ("b".to_string(), JsonValue::Str("2".to_string())),
    ]);
    let ops = diff(&a, &b);
    assert_eq!(1, ops.len());
    assert_eq!(PatchKind::Replace, ops[0].op);
    assert_eq!("/b", ops[0].path);
    match &ops[0].value {
        Some(JsonValue::Str(s)) => assert_eq!("2", s),
        _ => panic!("expected a string value"),
    }
}

#[test]
fn diff_removes_then_adds_members() {
    let a = JsonValue::Obj(vec![("a".to_string(), JsonValue::Num(1))]);
    let b = JsonValue::Obj(vec![("b".to_string(), JsonValue::Num(2))]);
    let ops = diff(&a, &b);
    assert_eq!(2, ops.len());
    assert_eq!(PatchKind::Remove, ops[0].op);
    assert_eq!("/a", ops[0].path);
    assert!(ops[0].value.is_none());
    assert_eq!(PatchKind::Add, ops[1].op);
    assert_eq!("/b", ops[1].path);
    match &ops[1].value {
        Some(JsonValue::Num(n)) => assert_eq!(2, *n),
        _ => panic!("expected a number value"),
    }
}

#[test]
fn diff_descends_into_nested_objects() {
    let a = nested();
    let b = JsonValue::Obj(vec![
        ("a".to_string(), JsonValue::Num(1)),
        (
            "b".to_string(),
            JsonValue::Obj(vec![
                ("x".to_string(), JsonValue::Arr(vec![JsonValue::Bool(true), JsonValue::Null])),
                ("y".to_string(), JsonValue::Str("w".to_string())),
            ]),
        ),
    ]);
    let ops = diff(&a, &b);
    assert_eq!(1, ops.len());
    assert_eq!(PatchKind::Replace, ops[0].op);
    assert_eq!("/b/y", ops[0].path);
}

#[test]
fn diff_escapes_pointer_characters_in_keys() {
    let a = JsonValue::Obj(vec![("a/b~c".to_string(), JsonValue::Num(1))]);
    let b = JsonValue::Obj(vec![("a/b~c".to_string(), JsonValue::Num(2))]);
    let ops = diff(&a, &b);
    assert_eq!(1, ops.len());
    assert_eq!("/a~1b~0c", ops[0].path);
}

#[test]
fn diff_replaces_changed_array_element_in_place() {
    let a = JsonValue::Arr(vec![JsonValue::Num(1), JsonValue::Num(2)]);
    let b = JsonValue::Arr(vec![JsonValue::Num(1), JsonValue::Num(3)]);
    let ops = diff(&a, &b);
    assert_eq!(1, ops.len());
    assert_eq!(PatchKind::Replace, ops[0].op);
    assert_eq!("/1", ops[0].path);
}

#[test]
fn diff_shrinks_arrays_from_the_end() {
    let a = JsonValue::Arr(vec![JsonValue::Num(1), JsonValue::Num(2), JsonValue::Num(3)]);
    let b = JsonValue::Arr(vec![JsonValue::Num(1)]);
    let ops = diff(&a, &b);
    assert_eq!(2, ops.len());
    assert_eq!(PatchKind::Remove, ops[0].op);
    assert_eq!("/2", ops[0].path);
    assert_eq!(PatchKind::Remove, ops[1].op);
    assert_eq!("/1", ops[1].path);
}

#[test]
fn diff_appends_new_array_elements() {
    let a = JsonValue::Arr(vec![JsonValue::Num(1)]);
    let b = JsonValue::Arr(vec![JsonValue::Num(1), JsonValue::Num(10), JsonValue::Num(11)]);
    let ops = diff(&a, &b);
    assert_eq!(2, ops.len());
    assert_eq!(PatchKind::Add, ops[0].op);
    assert_eq!("/1", ops[0].path);
    assert_eq!(PatchKind::Add, ops[1].op);
    assert_eq!("/2", ops[1].path);
    match &ops[1].value {
        Some(JsonValue::Num(n)) => assert_eq!(11, *n),
        _ => panic!("expected a number value"),
    }
}

#[test]
fn diff_replaces_on_type_change() {
    let a = JsonValue::Arr(vec![JsonValue::Num(1)]);
    let b = JsonValue::Obj(vec![("a".to_string(), JsonValue::Num(1))]);
    let ops = diff(&a, &b);
    assert_eq!(1, ops.len());
    assert_eq!(PatchKind::Replace, ops[0].op);
    assert_eq!("", ops[0].path);
}

#[test]
fn diff_uses_decimal_element_paths() {
    let mut items = Vec::new();
    let mut changed = Vec::new();
    for i in 0..12 {
        items.push(JsonValue::Num(i));
        changed.push(JsonValue::Num(if i == 11 { 99 } else { i }));
    }
    let a = JsonValue::Arr(items);
    let b = JsonValue::Arr(changed);
    let ops = diff(&a, &b);
    assert_eq!(1, ops.len());
    assert_eq!("/11", ops[0].path);
}

#[test]
fn diff_is_deterministic() {
    let a = nested();
    let b = JsonValue::Obj(vec![("q".to_string(), JsonValue::Num(7))]);
    let first = diff(&a, &b);
    let second = diff(&a, &b);
    assert_eq!(first.len(), second.len());
    for (x, y) in first.iter().zip(second.iter()) {
        assert_eq!(x.op, y.op);
        assert_eq!(x.path, y.path);
        match (&x.value, &y.value) {
            (None, None) => {}
            (Some(u), Some(v)) => assert!(u.deep_eq(v)),
            _ => panic!("values differ"),
        }
    }
}
