use amplitude_to_sqlite::json::{copy_json, find_key, json_eq, list_eq, object_eq, JsonValue};

fn text(s: &str) -> JsonValue {
    JsonValue::String(s.to_string())
}

fn float(x: f64) -> JsonValue {
    JsonValue::Float(x.to_bits())
}

fn object(members: Vec<(&str, JsonValue)>) -> JsonValue {
    JsonValue::Object(members.into_iter().map(|(k, v)| (k.to_string(), v)).collect())
}

#[test]
fn scalars_are_equal_to_themselves_only() {
    assert!(json_eq(&JsonValue::Null, &JsonValue::Null));
    assert!(json_eq(&JsonValue::Bool(true), &JsonValue::Bool(true)));
    assert!(!json_eq(&JsonValue::Bool(true), &JsonValue::Bool(false)));
    assert!(!json_eq(&JsonValue::Null, &JsonValue::Bool(false)));
    assert!(json_eq(&text("a"), &text("a")));
    assert!(!json_eq(&text("a"), &text("b")));
    assert!(!json_eq(&text("1"), &JsonValue::PosInt(1)));
}

#[test]
fn integers_are_compared_by_value() {
    assert!(json_eq(&JsonValue::PosInt(7), &JsonValue::PosInt(7)));
    assert!(!json_eq(&JsonValue::PosInt(7), &JsonValue::PosInt(8)));
    assert!(json_eq(&JsonValue::NegInt(-3), &JsonValue::NegInt(-3)));
    assert!(!json_eq(&JsonValue::NegInt(-3), &JsonValue::PosInt(3)));
    assert!(json_eq(&JsonValue::NegInt(5), &JsonValue::PosInt(5)));
    assert!(json_eq(&JsonValue::PosInt(5), &JsonValue::NegInt(5)));
    assert!(!json_eq(&JsonValue::PosInt(u64::MAX), &JsonValue::NegInt(-1)));
}

#[test]
fn an_integer_is_not_a_float() {
    assert!(!json_eq(&JsonValue::PosInt(1), &float(1.0)));
    assert!(!json_eq(&float(2.0), &JsonValue::PosInt(2)));
}

#[test]
fn both_zeros_are_one_number() {
    assert!(json_eq(&float(0.0), &float(-0.0)));
    assert!(json_eq(&float(-0.0), &float(0.0)));
    assert!(json_eq(&float(173.84), &float(173.84)));
    assert!(!json_eq(&float(173.84), &float(173.85)));
    assert_eq!(float(0.0), float(-0.0));
}

#[test]
fn arrays_are_compared_in_order() {
    let a = JsonValue::Array(vec![text("x"), JsonValue::PosInt(1)]);
    let b = JsonValue::Array(vec![text("x"), JsonValue::PosInt(1)]);
    let c = JsonValue::Array(vec![JsonValue::PosInt(1), text("x")]);
    let d = JsonValue::Array(vec![text("x")]);
    assert!(json_eq(&a, &b));
    assert!(!json_eq(&a, &c));
    assert!(!json_eq(&a, &d));
    assert!(list_eq(&vec![], &vec![]));
}

#[test]
fn objects_are_compared_as_maps() {
    let a = object(vec![("k", text("v")), ("n", JsonValue::PosInt(1))]);
    let b = object(vec![("n", JsonValue::PosInt(1)), ("k", text("v"))]);
    let c = object(vec![("k", text("v"))]);
    let d = object(vec![("k", text("w")), ("n", JsonValue::PosInt(1))]);
    assert!(json_eq(&a, &b));
    assert!(!json_eq(&a, &c));
    assert!(!json_eq(&c, &a));
    assert!(!json_eq(&a, &d));
    assert!(json_eq(&object(vec![]), &object(vec![])));
    assert!(!json_eq(&object(vec![]), &JsonValue::Array(vec![])));
}

#[test]
fn the_first_member_with_a_key_counts() {
    let twice = vec![
        ("k".to_string(), text("first")),
        ("k".to_string(), text("second")),
    ];
    let once = vec![("k".to_string(), text("first"))];
    let other = vec![("k".to_string(), text("second"))];
    assert!(object_eq(&twice, &once));
    assert!(object_eq(&once, &twice));
    assert!(!object_eq(&twice, &other));
    assert_eq!(find_key(&twice, &"k".to_string()), Some(0));
    assert_eq!(find_key(&twice, &"missing".to_string()), None);
}

#[test]
fn nested_values_are_compared_all_the_way_down() {
    let a = object(vec![(
        "User Tag",
        JsonValue::Array(vec![text("beta_tester"), object(vec![("x", float(1.5))])]),
    )]);
    let b = object(vec![(
        "User Tag",
        JsonValue::Array(vec![text("beta_tester"), object(vec![("x", float(1.5))])]),
    )]);
    let c = object(vec![(
        "User Tag",
        JsonValue::Array(vec![text("beta_tester"), object(vec![("x", float(2.5))])]),
    )]);
    assert!(json_eq(&a, &b));
    assert!(!json_eq(&a, &c));
}

#[test]
fn a_copy_is_equal_to_its_original() {
    let a = object(vec![
        ("name", text("Ketupat House")),
        ("ids", JsonValue::Array(vec![JsonValue::PosInt(470), JsonValue::NegInt(-1)])),
        ("price", float(173.84)),
        ("none", JsonValue::Null),
    ]);
    let b = copy_json(&a);
    assert_eq!(a, b);
    assert_eq!(a.clone(), a);
}
