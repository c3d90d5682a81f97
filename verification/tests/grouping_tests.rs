use amplitude_to_sqlite::duplicates::check_for_duplicate_insert_ids;
use amplitude_to_sqlite::export_event::ExportEvent;
use amplitude_to_sqlite::json::JsonValue;
use amplitude_to_sqlite::time::Timestamp;
use amplitude_to_sqlite::transform::compare::compare_export_events;
use amplitude_to_sqlite::transform::dupe_analyzer::{
    analyze_duplicates_and_types, is_volatile_field, material_fields,
};
use amplitude_to_sqlite::transform::dupe_cleaner::{
    clean_duplicates_and_types, collect_resolved, full_export, OutputMode, ResolutionSummary,
};
use amplitude_to_sqlite::transform::grouping::{
    count_without_insert_id, distinct_insert_ids, find_last_with_key, group_by_insert_id,
    select_by_insert_id, select_without_insert_id,
};
use amplitude_to_sqlite::transform::model::{Dupe, DupeResolution};

fn event(key: Option<&str>, uuid: &str) -> ExportEvent {
    ExportEvent {
        insert_id: key.map(|k| k.to_string()),
        uuid: Some(uuid.to_string()),
        event_type: Some("Property Drop Purchased".to_string()),
        ..Default::default()
    }
}

fn uuids(events: &Vec<ExportEvent>) -> Vec<String> {
    events.iter().map(|e| e.uuid.clone().unwrap()).collect()
}

fn with_property(key: &str, uuid: &str, property: &str, uploaded: i64) -> ExportEvent {
    ExportEvent {
        event_properties: Some(vec![(
            "Property".to_string(),
            JsonValue::String(property.to_string()),
        )]),
        client_upload_time: Some(Timestamp { secs: uploaded, nanos: 0 }),
        ..event(Some(key), uuid)
    }
}

fn sample() -> Vec<ExportEvent> {
    vec![
        event(Some("b"), "1"),
        event(Some("a"), "2"),
        event(None, "3"),
        event(Some("b"), "4"),
        event(Some("c"), "5"),
        event(Some("a"), "6"),
        event(Some("b"), "7"),
        event(None, "8"),
    ]
}

#[test]
fn events_are_grouped_by_insert_id_in_the_order_of_the_export() {
    let groups = group_by_insert_id(&sample());
    assert_eq!(groups.len(), 3);
    assert_eq!(groups[0].insert_id, "b");
    assert_eq!(uuids(&groups[0].events), vec!["1", "4", "7"]);
    assert_eq!(groups[1].insert_id, "a");
    assert_eq!(uuids(&groups[1].events), vec!["2", "6"]);
    assert_eq!(groups[2].insert_id, "c");
    assert_eq!(uuids(&groups[2].events), vec!["5"]);
    assert!(group_by_insert_id(&vec![]).is_empty());
    assert!(group_by_insert_id(&vec![event(None, "1")]).is_empty());
}

#[test]
fn events_without_insert_id_are_set_aside() {
    assert_eq!(uuids(&select_without_insert_id(&sample())), vec!["3", "8"]);
    assert_eq!(count_without_insert_id(&sample()), 2);
    assert_eq!(count_without_insert_id(&vec![]), 0);
    assert_eq!(uuids(&select_by_insert_id(&sample(), "a")), vec!["2", "6"]);
    assert!(select_by_insert_id(&sample(), "z").is_empty());
    assert_eq!(distinct_insert_ids(&sample()), vec!["b", "a", "c"]);
    assert_eq!(find_last_with_key(&sample(), "b"), Some(6));
    assert_eq!(find_last_with_key(&sample(), "c"), Some(4));
    assert_eq!(find_last_with_key(&sample(), "z"), None);
}

#[test]
fn an_empty_insert_id_is_an_insert_id() {
    let events = vec![event(Some(""), "1"), event(None, "2"), event(Some(""), "3")];
    let groups = group_by_insert_id(&events);
    assert_eq!(groups.len(), 1);
    assert_eq!(groups[0].insert_id, "");
    assert_eq!(uuids(&groups[0].events), vec!["1", "3"]);
}

#[test]
fn duplicate_insert_ids_are_found() {
    let check = check_for_duplicate_insert_ids(&sample());
    assert_eq!(check.total_events, 8);
    assert_eq!(check.unique_insert_ids, 6);
    assert_eq!(check.duplicates.len(), 2);
    assert_eq!(check.duplicates[0].insert_id, "b");
    assert_eq!(uuids(&check.duplicates[0].events), vec!["1", "4", "7"]);
    assert_eq!(check.duplicates[1].insert_id, "a");
    assert_eq!(check.duplicates[1].events.len(), 2);
    let none = check_for_duplicate_insert_ids(&vec![event(Some("a"), "1"), event(None, "2")]);
    assert_eq!(none.total_events, 2);
    assert_eq!(none.unique_insert_ids, 1);
    assert!(none.duplicates.is_empty());
}

fn export() -> Vec<ExportEvent> {
    let mut differing = event(Some("unexplained"), "9");
    differing.user_id = Some("someone else".to_string());
    differing.city = Some("elsewhere".to_string());
    vec![
        event(Some("many"), "1"),
        event(Some("same"), "2"),
        with_property("renamed", "3", "Old name", 100),
        event(Some("many"), "4"),
        event(Some("single"), "5"),
        event(None, "6"),
        with_property("renamed", "7", "New name", 200),
        event(Some("unexplained"), "8"),
        differing,
        event(Some("many"), "10"),
        event(Some("same"), "11"),
    ]
}

#[test]
fn every_duplicate_group_is_analyzed() {
    let report = analyze_duplicates_and_types(&export());
    let ids: Vec<&str> = report.analyses.iter().map(|a| a.insert_id.as_str()).collect();
    assert_eq!(ids, vec!["many", "same", "renamed", "unexplained"]);
    let tags: Vec<String> = report.analyses.iter().map(|a| a.dupe_type.to_str()).collect();
    assert_eq!(tags, vec!["TooMany", "TrueDuplicate", "PropertyNameChange", "UnknownPropDiff"]);
    let counts: Vec<usize> = report.analyses.iter().map(|a| a.duplicate_count).collect();
    assert_eq!(counts, vec![3, 2, 2, 2]);
    assert_eq!(uuids(&report.analyses[0].events), vec!["1", "4", "10"]);

    assert!(matches!(report.analyses[0].resolution, DupeResolution::Error(Dupe::TooMany(_))));
    match &report.analyses[1].resolution {
        DupeResolution::KeepOne(kept) => assert_eq!(kept.uuid, Some("2".to_string())),
        other => panic!("unexpected: {:?}", other),
    }
    match &report.analyses[2].resolution {
        DupeResolution::KeepOne(kept) => {
            assert_eq!(kept.uuid, Some("3".to_string()));
            assert_eq!(
                kept.event_properties,
                Some(vec![("Property".to_string(), JsonValue::String("New name".to_string()))])
            );
        }
        other => panic!("unexpected: {:?}", other),
    }
    assert!(matches!(report.analyses[3].resolution, DupeResolution::Error(_)));

    assert!(report.analyses[1].field_differences.is_empty());
    assert!(report.analyses[2].field_differences.is_empty());
    let mut fields: Vec<&str> =
        report.analyses[3].field_differences.iter().map(|d| d.key.as_str()).collect();
    fields.sort();
    assert_eq!(fields, vec!["city", "user_id", "uuid"]);
    assert!(report.analyses[3].event_properties_differences.is_empty());
    assert!(report.analyses[3].dupe_types.is_empty());
}

#[test]
fn the_summary_counts_what_was_found() {
    let report = analyze_duplicates_and_types(&export());
    let s = &report.summary;
    assert_eq!(s.total_events, 11);
    assert_eq!(s.events_without_insert_id, 1);
    assert_eq!(s.unique_insert_ids, 5);
    assert_eq!(s.duplicate_insert_ids_count, 4);
    assert_eq!(s.duplicate_insert_ids, vec!["many", "same", "renamed", "unexplained"]);
    assert_eq!(
        s.dupe_type_counts,
        vec![
            ("TooMany".to_string(), 1),
            ("TrueDuplicate".to_string(), 1),
            ("PropertyNameChange".to_string(), 1),
            ("UnknownPropDiff".to_string(), 1),
        ]
    );
    assert_eq!(s.all_diff_fields, vec!["user_id"]);
    assert!(s.all_event_properties_diff_fields.is_empty());
}

#[test]
fn names_are_counted_per_kind() {
    let mut events = export();
    events.push(event(Some("again"), "12"));
    events.push(event(Some("again"), "13"));
    let report = analyze_duplicates_and_types(&events);
    assert_eq!(
        report.summary.dupe_type_counts,
        vec![
            ("TooMany".to_string(), 1),
            ("TrueDuplicate".to_string(), 2),
            ("PropertyNameChange".to_string(), 1),
            ("UnknownPropDiff".to_string(), 1),
        ]
    );
}

#[test]
fn a_finding_of_several_rules_names_them_and_has_its_differences() {
    let a = with_property("550e8400-e29b-41d4-a716-446655440000", "1", "Old", 1);
    let b = with_property("550e8400-e29b-41d4-a716-446655440000", "2", "New", 2);
    let report = analyze_duplicates_and_types(&vec![a, b]);
    assert_eq!(report.analyses.len(), 1);
    let analysis = &report.analyses[0];
    assert_eq!(analysis.dupe_type.to_str(), "Multi");
    assert_eq!(analysis.dupe_types, vec!["Unknown", "UnknownPropDiff"]);
    let props: Vec<&str> =
        analysis.event_properties_differences.iter().map(|d| d.key.as_str()).collect();
    assert_eq!(props, vec!["Property"]);
    let mut fields: Vec<&str> = analysis.field_differences.iter().map(|d| d.key.as_str()).collect();
    fields.sort();
    assert_eq!(fields, vec!["client_upload_time", "event_properties", "uuid"]);
    assert!(report.summary.all_diff_fields.is_empty());
    assert!(report.summary.all_event_properties_diff_fields.is_empty());
}

#[test]
fn an_export_without_duplicates_has_an_empty_report() {
    let report = analyze_duplicates_and_types(&vec![event(Some("a"), "1"), event(Some("b"), "2")]);
    assert!(report.analyses.is_empty());
    assert_eq!(report.summary.total_events, 2);
    assert_eq!(report.summary.unique_insert_ids, 2);
    assert_eq!(report.summary.duplicate_insert_ids_count, 0);
    assert!(report.summary.dupe_type_counts.is_empty());
}

#[test]
fn volatile_fields_are_left_out_of_the_summary() {
    for name in [
        "city", "country", "device_carrier", "device_family", "device_type", "event_id",
        "ip_address", "os_name", "os_version", "platform", "client_upload_time",
        "processed_time", "server_received_time", "server_upload_time", "user_properties",
        "uuid", "language", "region", "dma", "data",
    ] {
        assert!(is_volatile_field(&name.to_string()), "{}", name);
    }
    for name in ["app", "user_id", "event_properties", "start_version", "version_name", ""] {
        assert!(!is_volatile_field(&name.to_string()), "{}", name);
    }
    let names: Vec<String> =
        ["uuid", "user_id", "city", "app", "user_id"].iter().map(|s| s.to_string()).collect();
    assert_eq!(material_fields(&names), vec!["user_id", "app", "user_id"]);
}

#[test]
fn the_mode_decides_how_much_is_done() {
    let analyze = clean_duplicates_and_types(&export(), OutputMode::Analyze);
    assert_eq!(analyze.report.analyses.len(), 4);
    assert!(analyze.resolved_events.is_empty());
    assert!(analyze.final_events.is_empty());
    assert_eq!(analyze.non_duplicate_count, 0);
    assert_eq!(
        analyze.resolution_summary,
        ResolutionSummary { keep_one: 0, keep_many: 0, error: 0 }
    );

    let debug = clean_duplicates_and_types(&export(), OutputMode::Debug);
    assert_eq!(uuids(&debug.resolved_events), vec!["2", "3"]);
    assert_eq!(
        debug.resolution_summary,
        ResolutionSummary { keep_one: 2, keep_many: 0, error: 2 }
    );
    assert!(debug.final_events.is_empty());

    let full = clean_duplicates_and_types(&export(), OutputMode::Full);
    assert_eq!(uuids(&full.resolved_events), vec!["2", "3"]);
    assert_eq!(
        uuids(&full.final_events),
        vec!["1", "2", "3", "4", "5", "6", "3", "8", "9", "10", "2"]
    );
    assert_eq!(full.non_duplicate_count, 7);
    assert_eq!(full.final_events.len(), 11);
    assert_eq!(
        full.final_events[2].event_properties,
        Some(vec![("Property".to_string(), JsonValue::String("New name".to_string()))])
    );
}

#[test]
fn kept_events_are_collected_in_the_order_of_the_groups() {
    let events = vec![
        ExportEvent {
            event_type: Some("Property Pre-Order Submitted".to_string()),
            ..event(Some("Pre-Order Submitted:1"), "1")
        },
        event(Some("same"), "2"),
        ExportEvent {
            event_type: Some("Property Pre-Order Completed".to_string()),
            ..event(Some("Pre-Order Submitted:1"), "3")
        },
        event(Some("same"), "4"),
    ];
    let report = analyze_duplicates_and_types(&events);
    let (resolved, summary) = collect_resolved(&report.analyses);
    assert_eq!(uuids(&resolved), vec!["1", "3", "2"]);
    assert_eq!(resolved[1].insert_id, Some("Pre-Order Completed:1".to_string()));
    assert_eq!(summary, ResolutionSummary { keep_one: 1, keep_many: 2, error: 0 });

    let (finals, untouched) = full_export(&events, &resolved);
    assert_eq!(uuids(&finals), vec!["1", "2", "1", "2"]);
    assert_eq!(untouched, 0);
}

#[test]
fn of_several_resolved_events_with_one_key_the_last_stands_in() {
    let events = vec![event(Some("k"), "1"), event(None, "2"), event(Some("j"), "3")];
    let resolved = vec![event(Some("k"), "a"), event(Some("k"), "b"), event(None, "c")];
    let (finals, untouched) = full_export(&events, &resolved);
    assert_eq!(uuids(&finals), vec!["b", "2", "3"]);
    assert_eq!(untouched, 2);
}

#[test]
fn two_exports_are_compared_key_by_key() {
    let mut changed = event(Some("changed"), "c2");
    changed.user_id = Some("other".to_string());
    let original = vec![
        event(Some("same"), "s1"),
        event(Some("changed"), "c1"),
        event(Some("gone"), "g1"),
        event(None, "n1"),
        event(Some("twice"), "t1"),
        event(Some("twice"), "t2"),
    ];
    let mut last_twice = event(Some("twice"), "t3");
    last_twice.library = Some("batch/1.0".to_string());
    let comparison = vec![
        event(Some("new"), "x1"),
        changed,
        event(Some("same"), "s2"),
        event(Some("twice"), "t0"),
        last_twice,
        event(Some("newer"), "x2"),
    ];
    let outcome = compare_export_events(&original, &comparison);
    assert_eq!(outcome.total_original_events, 6);
    assert_eq!(outcome.total_comparison_events, 6);
    assert_eq!(outcome.original_without_insert_id, 1);
    assert_eq!(outcome.comparison_without_insert_id, 0);
    assert_eq!(outcome.identical_events, vec!["same"]);
    let different: Vec<&str> =
        outcome.different_events.iter().map(|d| d.insert_id.as_str()).collect();
    assert_eq!(different, vec!["changed", "twice"]);
    assert_eq!(outcome.different_events[0].original_event.uuid, Some("c1".to_string()));
    assert_eq!(outcome.different_events[0].comparison_event.uuid, Some("c2".to_string()));
    let mut fields: Vec<&str> =
        outcome.different_events[0].differences.iter().map(|d| d.key.as_str()).collect();
    fields.sort();
    assert_eq!(fields, vec!["user_id", "uuid"]);
    assert_eq!(outcome.different_events[1].original_event.uuid, Some("t2".to_string()));
    assert_eq!(outcome.different_events[1].comparison_event.uuid, Some("t3".to_string()));
    let only_original: Vec<&str> =
        outcome.only_in_original.iter().map(|d| d.insert_id.as_str()).collect();
    assert_eq!(only_original, vec!["gone"]);
    assert_eq!(outcome.only_in_original[0].event.uuid, Some("g1".to_string()));
    let only_comparison: Vec<&str> =
        outcome.only_in_comparison.iter().map(|d| d.insert_id.as_str()).collect();
    assert_eq!(only_comparison, vec!["new", "newer"]);
    assert_eq!(outcome.only_in_comparison[1].event.uuid, Some("x2".to_string()));
}

#[test]
fn an_export_compared_with_itself_is_identical() {
    let events = sample();
    let outcome = compare_export_events(&events, &events);
    assert_eq!(outcome.identical_events, vec!["b", "a", "c"]);
    assert!(outcome.different_events.is_empty());
    assert!(outcome.only_in_original.is_empty());
    assert!(outcome.only_in_comparison.is_empty());
    let none = compare_export_events(&vec![], &events);
    assert!(none.identical_events.is_empty());
    assert_eq!(none.only_in_comparison.len(), 3);
}
