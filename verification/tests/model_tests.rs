use amplitude_to_sqlite::export_event::ExportEvent;
use amplitude_to_sqlite::json::JsonValue;
use amplitude_to_sqlite::time::Timestamp;
use amplitude_to_sqlite::transform::model::{
    classify_with, compose_dupe, Dupe, DupeKind, DupeResolution,
};

fn at(secs: i64) -> Option<Timestamp> {
    Some(Timestamp { secs, nanos: 0 })
}

fn text(s: &str) -> JsonValue {
    JsonValue::String(s.to_string())
}

fn props(members: Vec<(&str, JsonValue)>) -> Option<Vec<(String, JsonValue)>> {
    Some(members.into_iter().map(|(k, v)| (k.to_string(), v)).collect())
}

fn purchase(key: &str, property: &str, drop_type: &str, price: f64, uploaded: i64) -> ExportEvent {
    ExportEvent {
        insert_id: Some(key.to_string()),
        event_type: Some("Property Drop Purchased".to_string()),
        user_id: Some("user-1".to_string()),
        event_time: at(1_700_000_000),
        client_upload_time: at(uploaded),
        event_properties: props(vec![
            ("Property", text(property)),
            ("Drop Type", text(drop_type)),
            ("Price per Share", JsonValue::Float(price.to_bits())),
            ("Drop Id", JsonValue::PosInt(470)),
        ]),
        ..Default::default()
    }
}

fn step(key: &str, name: &str) -> ExportEvent {
    ExportEvent {
        insert_id: Some(key.to_string()),
        event_type: Some(name.to_string()),
        ..Default::default()
    }
}

const SERVER_KEY: &str = "Property Drop Purchased:6572";
const CLIENT_KEY: &str = "550e8400-e29b-41d4-a716-446655440000";

#[test]
fn equal_events_are_a_true_duplicate_and_the_earlier_is_kept() {
    let mut first = purchase(SERVER_KEY, "Ketupat House", "Sale", 10.6, 200);
    let mut second = purchase(SERVER_KEY, "Ketupat House", "Sale", 10.6, 100);
    first.uuid = Some("first".to_string());
    second.uuid = Some("second".to_string());
    first.city = Some("Kuala Lumpur".to_string());
    second.city = Some("Petaling Jaya".to_string());
    let dupe = Dupe::from_events(&vec![first, second]);
    assert!(matches!(dupe, Dupe::TrueDuplicate(_)));
    assert_eq!(dupe.to_str(), "TrueDuplicate");
    match dupe.resolution() {
        DupeResolution::KeepOne(kept) => {
            assert_eq!(kept.uuid, Some("second".to_string()));
            assert_eq!(kept.client_upload_time, at(100));
            assert_eq!(kept.city, Some("Petaling Jaya".to_string()));
        }
        other => panic!("unexpected: {:?}", other),
    }
}

#[test]
fn of_true_duplicates_uploaded_together_the_first_is_kept() {
    let mut first = purchase(SERVER_KEY, "Ketupat House", "Sale", 10.6, 100);
    let mut second = purchase(SERVER_KEY, "Ketupat House", "Sale", 10.6, 100);
    first.uuid = Some("first".to_string());
    second.uuid = Some("second".to_string());
    match Dupe::TrueDuplicate(vec![first, second]).resolution() {
        DupeResolution::KeepOne(kept) => assert_eq!(kept.uuid, Some("first".to_string())),
        other => panic!("unexpected: {:?}", other),
    }
}

#[test]
fn the_earliest_of_several_true_duplicates_is_kept() {
    let mut events = Vec::new();
    for (name, uploaded) in [("a", 30), ("b", 10), ("c", 20), ("d", 10)] {
        let mut e = purchase(SERVER_KEY, "Ketupat House", "Sale", 10.6, uploaded);
        e.uuid = Some(name.to_string());
        events.push(e);
    }
    match Dupe::TrueDuplicate(events).resolution() {
        DupeResolution::KeepOne(kept) => assert_eq!(kept.uuid, Some("b".to_string())),
        other => panic!("unexpected: {:?}", other),
    }
}

#[test]
fn an_event_without_upload_time_counts_as_earliest() {
    let mut first = purchase(SERVER_KEY, "Ketupat House", "Sale", 10.6, 100);
    let mut second = purchase(SERVER_KEY, "Ketupat House", "Sale", 10.6, 50);
    second.client_upload_time = None;
    first.uuid = Some("first".to_string());
    second.uuid = Some("second".to_string());
    match Dupe::TrueDuplicate(vec![first, second]).resolution() {
        DupeResolution::KeepOne(kept) => assert_eq!(kept.uuid, Some("second".to_string())),
        other => panic!("unexpected: {:?}", other),
    }
}

#[test]
fn more_than_two_events_are_too_many() {
    let events = vec![
        purchase(SERVER_KEY, "A", "Sale", 1.0, 1),
        purchase(SERVER_KEY, "A", "Sale", 1.0, 2),
        purchase(SERVER_KEY, "A", "Sale", 1.0, 3),
    ];
    let dupe = Dupe::from_events(&events);
    assert_eq!(dupe.to_str(), "TooMany");
    match &dupe {
        Dupe::TooMany(held) => assert_eq!(held.len(), 3),
        other => panic!("unexpected: {:?}", other),
    }
    match dupe.resolution() {
        DupeResolution::Error(Dupe::TooMany(held)) => assert_eq!(held.len(), 3),
        other => panic!("unexpected: {:?}", other),
    }
}

#[test]
fn a_changed_display_name_keeps_the_earlier_event_with_the_later_properties() {
    let mut a = purchase(SERVER_KEY, "Ketupat House \u{25ca}", "Sale", 10.6, 100);
    let mut b = purchase(SERVER_KEY, "Ketupat House", "Sale", 10.6, 200);
    a.uuid = Some("a".to_string());
    b.uuid = Some("b".to_string());
    let dupe = Dupe::from_events(&vec![a.clone(), b.clone()]);
    assert!(matches!(dupe, Dupe::PropertyNameChange(_)));
    assert_eq!(dupe.to_str(), "PropertyNameChange");
    match dupe.resolution() {
        DupeResolution::KeepOne(kept) => {
            assert_eq!(kept.uuid, Some("a".to_string()));
            assert_eq!(kept.client_upload_time, at(100));
            assert_eq!(kept.event_properties, b.event_properties);
            assert_ne!(kept.event_properties, a.event_properties);
        }
        other => panic!("unexpected: {:?}", other),
    }
}

#[test]
fn the_merge_goes_by_upload_time_and_not_by_place() {
    let mut a = purchase(SERVER_KEY, "New name", "Sale", 10.6, 200);
    let mut b = purchase(SERVER_KEY, "Old name", "Sale", 10.6, 100);
    a.uuid = Some("a".to_string());
    b.uuid = Some("b".to_string());
    match Dupe::from_events(&vec![a.clone(), b.clone()]).resolution() {
        DupeResolution::KeepOne(kept) => {
            assert_eq!(kept.uuid, Some("b".to_string()));
            assert_eq!(kept.event_properties, a.event_properties);
        }
        other => panic!("unexpected: {:?}", other),
    }
}

#[test]
fn on_equal_upload_times_the_second_event_is_the_base() {
    let mut a = purchase(SERVER_KEY, "One", "Sale", 10.6, 100);
    let mut b = purchase(SERVER_KEY, "Two", "Sale", 10.6, 100);
    a.uuid = Some("a".to_string());
    b.uuid = Some("b".to_string());
    match Dupe::PropertyNameChange(vec![a.clone(), b.clone()]).resolution() {
        DupeResolution::KeepOne(kept) => {
            assert_eq!(kept.uuid, Some("b".to_string()));
            assert_eq!(kept.event_properties, a.event_properties);
        }
        other => panic!("unexpected: {:?}", other),
    }
}

#[test]
fn a_property_under_another_name_is_no_change_of_the_display_name() {
    let a = ExportEvent {
        insert_id: Some(SERVER_KEY.to_string()),
        event_properties: props(vec![
            ("Property", text("Ketupat House")),
            ("Drop Id", JsonValue::PosInt(470)),
        ]),
        ..Default::default()
    };
    let b = ExportEvent {
        insert_id: Some(SERVER_KEY.to_string()),
        event_properties: props(vec![
            ("PropertyName", text("Ketupat House")),
            ("Drop Id", JsonValue::PosInt(470)),
        ]),
        ..Default::default()
    };
    let dupe = Dupe::from_events(&vec![a, b]);
    assert!(!matches!(dupe, Dupe::PropertyNameChange(_)));
    assert_eq!(dupe.to_str(), "UnknownPropDiff");
    assert!(matches!(dupe.resolution(), DupeResolution::Error(Dupe::UnknownPropDiff(_))));
}

#[test]
fn submitted_and_completed_under_one_key_are_both_kept() {
    let events = vec![
        step("X", "Property Pre-Order Submitted"),
        step("X", "Property Pre-Order Completed"),
    ];
    let dupe = Dupe::from_events(&events);
    assert!(matches!(dupe, Dupe::PreOrderDropCompletedMistake(_)));
    match dupe.resolution() {
        DupeResolution::KeepMany(kept) => {
            assert_eq!(kept.len(), 2);
            assert_eq!(kept[0], events[0]);
            assert_eq!(kept[0].insert_id, Some("X".to_string()));
            assert_eq!(kept[1].event_type, Some("Property Pre-Order Completed".to_string()));
            assert_eq!(kept[1].insert_id, Some("X".replace("Submitted", "Completed")));
        }
        other => panic!("unexpected: {:?}", other),
    }
}

#[test]
fn the_completed_step_gets_a_key_of_its_own() {
    let key = "Property Pre-Order Submitted:42:Submitted";
    let events = vec![
        step(key, "Property Pre-Order Completed"),
        step(key, "Property Pre-Order Submitted"),
    ];
    match Dupe::from_events(&events).resolution() {
        DupeResolution::KeepMany(kept) => {
            assert_eq!(kept.len(), 2);
            assert_eq!(kept[0].event_type, Some("Property Pre-Order Submitted".to_string()));
            assert_eq!(kept[0].insert_id, Some(key.to_string()));
            assert_eq!(
                kept[1].insert_id,
                Some("Property Pre-Order Completed:42:Completed".to_string())
            );
        }
        other => panic!("unexpected: {:?}", other),
    }
}

#[test]
fn a_mixed_up_pre_order_with_one_step_only_keeps_that_step() {
    match Dupe::PreOrderDropCompletedMistake(vec![
        step("SubmittedSubmitted", "Property Pre-Order Completed"),
        step("k", "Something else"),
    ])
    .resolution()
    {
        DupeResolution::KeepMany(kept) => {
            assert_eq!(kept.len(), 1);
            assert_eq!(kept[0].insert_id, Some("CompletedCompleted".to_string()));
        }
        other => panic!("unexpected: {:?}", other),
    }
}

#[test]
fn a_changed_kind_of_drop_is_found() {
    let a = purchase(SERVER_KEY, "A", "Sale", 10.6, 100);
    let b = purchase(SERVER_KEY, "A", "Buy Anytime", 10.6, 200);
    let dupe = Dupe::from_events(&vec![a, b]);
    assert!(matches!(dupe, Dupe::DropTypeChange(_)));
    assert!(matches!(dupe.resolution(), DupeResolution::KeepOne(_)));
}

#[test]
fn a_changed_price_is_found() {
    let a = purchase(SERVER_KEY, "A", "Sale", 10.6, 100);
    let b = purchase(SERVER_KEY, "A", "Sale", 312.0, 200);
    let dupe = Dupe::from_events(&vec![a, b]);
    assert!(matches!(dupe, Dupe::PropertyDropPriceChange(_)));
    assert_eq!(dupe.to_str(), "PropertyDropPriceChange");
    assert!(matches!(dupe.resolution(), DupeResolution::KeepOne(_)));
}

#[test]
fn several_changes_stand_side_by_side() {
    let a = purchase(SERVER_KEY, "A", "Sale", 10.6, 100);
    let b = purchase(SERVER_KEY, "B", "Buy Anytime", 312.0, 200);
    let dupe = Dupe::from_events(&vec![a, b]);
    assert_eq!(dupe.to_str(), "Multi");
    assert_eq!(
        dupe.part_names(),
        vec!["PropertyNameChange", "DropTypeChange", "PropertyDropPriceChange"]
    );
    match &dupe {
        Dupe::Multi(events, parts) => {
            assert_eq!(events.len(), 2);
            assert_eq!(parts.len(), 3);
            assert!(matches!(parts[0], Dupe::PropertyNameChange(_)));
            assert!(matches!(parts[1], Dupe::DropTypeChange(_)));
            assert!(matches!(parts[2], Dupe::PropertyDropPriceChange(_)));
            assert_eq!(parts[1].events().len(), 2);
        }
        other => panic!("unexpected: {:?}", other),
    }
    assert!(matches!(dupe.resolution(), DupeResolution::Error(Dupe::Multi(_, _))));
}

#[test]
fn a_mixed_up_pre_order_with_changed_properties_is_a_finding_of_two_rules() {
    let mut a = purchase(SERVER_KEY, "A", "Sale", 10.6, 100);
    let mut b = purchase(SERVER_KEY, "B", "Sale", 10.6, 200);
    a.event_type = Some("Property Pre-Order Submitted".to_string());
    b.event_type = Some("Property Pre-Order Completed".to_string());
    let dupe = Dupe::from_events(&vec![a, b]);
    assert_eq!(dupe.part_names(), vec!["PreOrderDropCompletedMistake", "PropertyNameChange"]);
}

#[test]
fn under_a_client_key_differing_properties_stay_unexplained() {
    let a = purchase(CLIENT_KEY, "A", "Sale", 10.6, 100);
    let b = purchase(CLIENT_KEY, "B", "Sale", 10.6, 200);
    let dupe = Dupe::from_events(&vec![a, b]);
    assert_eq!(dupe.to_str(), "Multi");
    assert_eq!(dupe.part_names(), vec!["Unknown", "UnknownPropDiff"]);
    assert!(matches!(dupe.resolution(), DupeResolution::Error(_)));
}

#[test]
fn the_same_group_is_classified_by_whether_its_key_is_a_uuid() {
    let events = vec![
        purchase("anything", "A", "Sale", 10.6, 100),
        purchase("anything", "B", "Sale", 10.6, 200),
    ];
    assert_eq!(classify_with(&events, false).to_str(), "PropertyNameChange");
    assert_eq!(classify_with(&events, true).to_str(), "Multi");
}

#[test]
fn properties_on_one_side_only_are_incompatible() {
    let a = purchase(SERVER_KEY, "A", "Sale", 10.6, 100);
    let mut b = purchase(SERVER_KEY, "A", "Sale", 10.6, 200);
    b.event_properties = None;
    let dupe = Dupe::from_events(&vec![a.clone(), b.clone()]);
    assert_eq!(dupe.part_names(), vec!["EventPropsIncompatible", "UnknownPropDiff"]);
    assert!(matches!(dupe.resolution(), DupeResolution::Error(_)));
    let dupe = Dupe::from_events(&vec![b, a]);
    assert_eq!(dupe.part_names(), vec!["EventPropsIncompatible", "UnknownPropDiff"]);
}

#[test]
fn a_difference_outside_the_properties_is_unexplained() {
    let a = purchase(SERVER_KEY, "A", "Sale", 10.6, 100);
    let mut b = purchase(SERVER_KEY, "A", "Sale", 10.6, 200);
    b.user_id = Some("user-2".to_string());
    let dupe = Dupe::from_events(&vec![a, b]);
    assert_eq!(dupe.to_str(), "UnknownPropDiff");
    assert!(dupe.part_names().is_empty());
    assert!(matches!(dupe.resolution(), DupeResolution::Error(Dupe::UnknownPropDiff(_))));
}

#[test]
fn a_difference_in_other_properties_is_unexplained() {
    let a = purchase(SERVER_KEY, "A", "Sale", 10.6, 100);
    let mut b = purchase(SERVER_KEY, "A", "Sale", 10.6, 200);
    b.event_properties.as_mut().unwrap()[3].1 = JsonValue::PosInt(471);
    let dupe = Dupe::from_events(&vec![a, b]);
    assert_eq!(dupe.to_str(), "UnknownPropDiff");
}

#[test]
fn findings_that_are_left_to_a_person_come_back_as_they_are() {
    let events = || vec![step("k", "a"), step("k", "b")];
    assert!(matches!(
        Dupe::Unknown(events()).resolution(),
        DupeResolution::Error(Dupe::Unknown(_))
    ));
    assert!(matches!(
        Dupe::EventPropsIncompatible(events()).resolution(),
        DupeResolution::Error(Dupe::EventPropsIncompatible(_))
    ));
    assert!(matches!(
        Dupe::TooMany(events()).resolution(),
        DupeResolution::Error(Dupe::TooMany(_))
    ));
    assert_eq!(Dupe::Unknown(events()).to_str(), "Unknown");
    assert_eq!(Dupe::EventPropsIncompatible(events()).to_str(), "EventPropsIncompatible");
}

#[test]
fn no_finding_is_composed_to_unknown() {
    let events = vec![step("k", "a"), step("k", "b")];
    assert_eq!(compose_dupe(&events, &vec![]).to_str(), "Unknown");
    assert_eq!(compose_dupe(&events, &vec![DupeKind::TrueDuplicate]).to_str(), "TrueDuplicate");
    assert_eq!(
        compose_dupe(&events, &vec![DupeKind::Unknown, DupeKind::TooMany]).part_names(),
        vec!["Unknown", "TooMany"]
    );
    assert_eq!(DupeKind::DropTypeChange.name(), "DropTypeChange");
}

#[test]
fn a_copy_of_a_finding_holds_the_same_events() {
    let a = purchase(SERVER_KEY, "A", "Sale", 10.6, 100);
    let b = purchase(SERVER_KEY, "B", "Buy Anytime", 10.6, 200);
    let dupe = Dupe::from_events(&vec![a.clone(), b.clone()]);
    let copy = dupe.clone();
    assert_eq!(copy.to_str(), dupe.to_str());
    assert_eq!(copy.part_names(), dupe.part_names());
    assert_eq!(copy.events()[0], a);
    assert_eq!(copy.events()[1].event_properties, b.event_properties);
}
