use amplitude_to_sqlite::export_event::ExportEvent;
use amplitude_to_sqlite::json::JsonValue;
use amplitude_to_sqlite::time::deserialize_amplitude_timestamp;
use amplitude_to_sqlite::transform::difference_cleaner::{
    clean_comparison_result, count_keys, get_differing_property_names,
    has_property_name_differences, have_identical_values, is_non_material_field, value_held,
    ComparisonResult, Differences, EventDifference,
};

fn text(s: &str) -> JsonValue {
    JsonValue::String(s.to_string())
}

fn number(n: u64) -> JsonValue {
    JsonValue::PosInt(n)
}

fn float(x: f64) -> JsonValue {
    JsonValue::Float(x.to_bits())
}

fn members(list: Vec<(&str, JsonValue)>) -> Vec<(String, JsonValue)> {
    list.into_iter().map(|(k, v)| (k.to_string(), v)).collect()
}

fn contains_key(fields: &Vec<(String, EventDifference)>, key: &str) -> bool {
    fields.iter().any(|(k, _)| k == key)
}

#[test]
fn test_has_property_name_differences() {
    // Same property names, different values that represent the same property
    let comparison_props = members(vec![
        ("Property", text("Ketupat House")),
        ("Drop Id", number(470)),
        ("Total Price", float(173.84)),
    ]);

    let original_props = members(vec![
        ("Property", text("Ketupat House \u{25ca}")),
        ("Drop Id", number(470)),
        ("Total Price", float(173.84)),
    ]);

    // Should return true because the property names are the same and values are DIFFERENT
    assert!(has_property_name_differences(
        &comparison_props,
        &original_props
    ));

    // Different property names (keys)
    let comparison_props2 = members(vec![
        ("Property", text("Ketupat House")),
        ("Drop Id", number(470)),
        ("Total Price", float(173.84)),
    ]);

    let original_props2 = members(vec![
        ("PropertyName", text("Ketupat House")),
        ("Drop Id", number(470)),
        ("Total Price", float(173.84)),
    ]);

    // Should return false because property names (keys) are different
    assert!(!has_property_name_differences(
        &comparison_props2,
        &original_props2
    ));

    // Same property names, completely different values
    let comparison_props3 = members(vec![
        ("Property", text("Ketupat House")),
        ("Drop Id", number(470)),
        ("Total Price", float(173.84)),
    ]);

    let original_props3 = members(vec![
        ("Property", text("Different House")),
        ("Drop Id", number(470)),
        ("Total Price", float(173.84)),
    ]);

    assert!(has_property_name_differences(
        &comparison_props3,
        &original_props3
    ));
}

#[test]
fn test_difference_utils() {
    // Same property names (keys), different values that represent the same property
    let comparison_props = members(vec![
        ("Property", text("Ketupat House")),
        ("Drop Id", number(470)),
        ("Total Price", float(173.84)),
    ]);

    let original_props = members(vec![
        ("Property", text("Ketupat House \u{25ca}")),
        ("Drop Id", number(470)),
        ("Total Price", float(173.84)),
    ]);

    // Test has_property_name_differences
    assert!(has_property_name_differences(
        &comparison_props,
        &original_props
    ));

    // Test get_differing_property_names - should return None since keys are the same
    let differing_names = get_differing_property_names(&comparison_props, &original_props);
    assert!(differing_names.is_none());

    // Test have_identical_values
    assert!(!have_identical_values(&comparison_props, &original_props));

    // Different property names (keys)
    let comparison_props2 = members(vec![
        ("Property", text("Ketupat House")),
        ("Drop Id", number(470)),
        ("Total Price", float(173.84)),
    ]);

    let original_props2 = members(vec![
        ("PropertyName", text("Ketupat House")),
        ("Drop Id", number(470)),
        ("Total Price", float(173.84)),
    ]);

    // Test has_property_name_differences
    assert!(!has_property_name_differences(
        &comparison_props2,
        &original_props2
    ));

    // Test get_differing_property_names
    let differing_names = get_differing_property_names(&comparison_props2, &original_props2);
    assert!(differing_names.is_some());
    let differing_names = differing_names.unwrap();
    assert!(differing_names.contains(&"Property".to_string()));
    assert!(differing_names.contains(&"PropertyName".to_string()));
    assert_eq!(differing_names.len(), 2);

    // Test have_identical_values
    assert!(have_identical_values(&comparison_props2, &original_props2));

    // Different number of properties
    let comparison_props3 = members(vec![
        ("Property", text("Ketupat House")),
        ("Drop Id", number(470)),
    ]);

    let original_props3 = members(vec![
        ("Property", text("Ketupat House")),
        ("Drop Id", number(470)),
        ("Total Price", float(173.84)),
    ]);

    // Test has_property_name_differences
    assert!(!has_property_name_differences(
        &comparison_props3,
        &original_props3
    ));

    // Test get_differing_property_names
    let differing_names = get_differing_property_names(&comparison_props3, &original_props3);
    assert!(differing_names.is_none());

    // Test have_identical_values
    assert!(!have_identical_values(&comparison_props3, &original_props3));
}

fn uploaded(text: &str) -> ExportEvent {
    ExportEvent {
        client_upload_time: deserialize_amplitude_timestamp(Some(text)).unwrap(),
        ..Default::default()
    }
}

#[test]
fn test_clean_comparison_result() {
    // Create a mock comparison result with non-material differences
    let mut comparison = ComparisonResult {
        comparison_event: uploaded("2025-07-09 15:50:50.913000"),
        differences: Differences {
            fields: vec![
                (
                    "app".to_string(),
                    EventDifference { comparison: number(714982), original: number(658833) },
                ),
                (
                    "uuid".to_string(),
                    EventDifference { comparison: text("new-uuid"), original: text("old-uuid") },
                ),
                (
                    "event_properties".to_string(),
                    EventDifference {
                        comparison: JsonValue::Object(members(vec![
                            ("Property", text("Ketupat House")),
                            ("Drop Id", number(470)),
                        ])),
                        original: JsonValue::Object(members(vec![
                            ("PropertyName", text("Ketupat House")),
                            ("Drop Id", number(470)),
                        ])),
                    },
                ),
            ],
        },
        insert_id: "test".to_string(),
        original_event: uploaded("2025-06-30 07:56:20.621000"),
    };

    // Clean the comparison
    let was_cleaned = clean_comparison_result(&mut comparison);

    // Should have been cleaned
    assert!(was_cleaned);

    // Non-material differences should be removed
    [
        "app",
        "client_upload_time",
        "processed_time",
        "server_received_time",
        "uuid",
        "user_properties",
    ]
    .iter()
    .for_each(|&v| {
        assert!(!contains_key(&comparison.differences.fields, v));
    });
    assert!(contains_key(&comparison.differences.fields, "event_properties"));
    assert_eq!(comparison.differences.fields.len(), 1);
    assert_eq!(comparison.insert_id, "test");
}

#[test]
fn test_clean_comparison_result_no_changes() {
    // Create a comparison result with only material differences
    let mut comparison = ComparisonResult {
        comparison_event: ExportEvent::default(),
        differences: Differences {
            fields: vec![(
                "event_type".to_string(),
                EventDifference { comparison: text("Event A"), original: text("Event B") },
            )],
        },
        insert_id: "test".to_string(),
        original_event: ExportEvent::default(),
    };

    // Clean the comparison
    let was_cleaned = clean_comparison_result(&mut comparison);

    // Should not have been cleaned (material differences remain)
    assert!(!was_cleaned);

    // Material differences should remain
    assert!(contains_key(&comparison.differences.fields, "event_type"));
}

fn name_change(comparison_event: ExportEvent, original_event: ExportEvent) -> ComparisonResult {
    ComparisonResult {
        comparison_event,
        differences: Differences {
            fields: vec![
                (
                    "event_id".to_string(),
                    EventDifference { comparison: number(2), original: number(1) },
                ),
                (
                    "event_properties".to_string(),
                    EventDifference {
                        comparison: JsonValue::Object(members(vec![
                            ("Property", text("Ketupat House")),
                            ("Drop Id", number(470)),
                        ])),
                        original: JsonValue::Object(members(vec![
                            ("Drop Id", number(470)),
                            ("Property", text("Ketupat House \u{25ca}")),
                        ])),
                    },
                ),
            ],
        },
        insert_id: "test".to_string(),
        original_event,
    }
}

#[test]
fn a_change_of_the_display_name_alone_is_taken_out() {
    let mut comparison = name_change(
        uploaded("2025-07-09 15:50:50.913000"),
        uploaded("2025-06-30 07:56:20.621000"),
    );
    assert!(clean_comparison_result(&mut comparison));
    assert!(!contains_key(&comparison.differences.fields, "event_properties"));
    assert!(contains_key(&comparison.differences.fields, "event_id"));
    assert_eq!(comparison.differences.fields.len(), 1);
}

#[test]
fn without_both_upload_times_the_display_name_stays() {
    let mut comparison =
        name_change(uploaded("2025-07-09 15:50:50.913000"), ExportEvent::default());
    assert!(!clean_comparison_result(&mut comparison));
    assert!(contains_key(&comparison.differences.fields, "event_properties"));
    assert_eq!(comparison.differences.fields.len(), 2);
}

#[test]
fn a_comparison_without_differences_counts_as_cleaned() {
    let mut comparison = ComparisonResult {
        comparison_event: ExportEvent::default(),
        differences: Differences { fields: vec![] },
        insert_id: "test".to_string(),
        original_event: ExportEvent::default(),
    };
    assert!(clean_comparison_result(&mut comparison));
    assert!(comparison.differences.fields.is_empty());
}

#[test]
fn event_properties_that_are_no_objects_stay() {
    let mut comparison = ComparisonResult {
        comparison_event: uploaded("2025-07-09 15:50:50.913000"),
        differences: Differences {
            fields: vec![(
                "event_properties".to_string(),
                EventDifference {
                    comparison: JsonValue::Null,
                    original: JsonValue::Object(members(vec![("Property", text("x"))])),
                },
            )],
        },
        insert_id: "test".to_string(),
        original_event: uploaded("2025-06-30 07:56:20.621000"),
    };
    assert!(!clean_comparison_result(&mut comparison));
    assert_eq!(comparison.differences.fields.len(), 1);
}

#[test]
fn six_fields_do_not_matter() {
    for name in [
        "app",
        "client_upload_time",
        "processed_time",
        "server_received_time",
        "uuid",
        "user_properties",
    ] {
        assert!(is_non_material_field(&name.to_string()));
    }
    for name in ["event_properties", "event_id", "server_upload_time", "", "App"] {
        assert!(!is_non_material_field(&name.to_string()));
    }
}

#[test]
fn keys_are_counted_once() {
    assert_eq!(count_keys(&members(vec![])), 0);
    assert_eq!(count_keys(&members(vec![("a", number(1)), ("b", number(2))])), 2);
    assert_eq!(
        count_keys(&members(vec![("a", number(1)), ("b", number(2)), ("a", number(3))])),
        2
    );
}

#[test]
fn a_value_is_held_under_the_first_member_of_its_key() {
    let list = members(vec![("a", number(1)), ("b", number(2)), ("a", number(3))]);
    assert!(value_held(&list, &number(1)));
    assert!(value_held(&list, &number(2)));
    assert!(!value_held(&list, &number(3)));
    assert!(!value_held(&list, &text("1")));
}

#[test]
fn differing_names_are_those_of_one_side_only() {
    let a = members(vec![("x", number(1)), ("y", number(2)), ("z", number(3))]);
    let b = members(vec![("y", number(2)), ("w", number(1)), ("v", number(3))]);
    let mut names = get_differing_property_names(&a, &b).unwrap();
    names.sort();
    assert_eq!(names, vec!["v", "w", "x", "z"]);
    assert!(get_differing_property_names(&a, &a).is_none());
}
