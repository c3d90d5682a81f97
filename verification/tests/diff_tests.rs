use amplitude_to_sqlite::export_event::ExportEvent;
use amplitude_to_sqlite::json::JsonValue;
use amplitude_to_sqlite::time::Timestamp;
use amplitude_to_sqlite::transform::diff::{object_differences, FieldDifference};
use amplitude_to_sqlite::transform::dupe_analyzer::{
    find_event_differences, find_event_properties_differences,
};

fn text(s: &str) -> JsonValue {
    JsonValue::String(s.to_string())
}

fn members(list: Vec<(&str, JsonValue)>) -> Vec<(String, JsonValue)> {
    list.into_iter().map(|(k, v)| (k.to_string(), v)).collect()
}

fn keys(diffs: &Vec<FieldDifference>) -> Vec<String> {
    let mut keys: Vec<String> = diffs.iter().map(|d| d.key.clone()).collect();
    keys.sort();
    keys
}

fn entry<'a>(diffs: &'a Vec<FieldDifference>, key: &str) -> &'a FieldDifference {
    diffs.iter().find(|d| d.key == key).unwrap()
}

fn with_props(list: Option<Vec<(&str, JsonValue)>>) -> ExportEvent {
    ExportEvent { event_properties: list.map(members), ..Default::default() }
}

#[test]
fn a_property_of_one_side_only_is_one_difference() {
    let none = with_props(None);
    let one = with_props(Some(vec![("x", JsonValue::PosInt(1))]));
    let diffs = find_event_properties_differences(&none, &one);
    assert_eq!(diffs.len(), 1);
    assert_eq!(diffs[0].key, "x");
    assert_eq!(diffs[0].event1_value, None);
    assert_eq!(diffs[0].event2_value, Some(JsonValue::PosInt(1)));

    let diffs = find_event_properties_differences(&one, &none);
    assert_eq!(diffs.len(), 1);
    assert_eq!(diffs[0].key, "x");
    assert_eq!(diffs[0].event1_value, Some(JsonValue::PosInt(1)));
    assert_eq!(diffs[0].event2_value, None);
}

#[test]
fn events_without_properties_differ_in_none() {
    assert!(find_event_properties_differences(&with_props(None), &with_props(None)).is_empty());
    assert!(
        find_event_properties_differences(&with_props(None), &with_props(Some(vec![]))).is_empty()
    );
}

#[test]
fn every_property_of_the_only_side_is_a_difference() {
    let many = with_props(Some(vec![
        ("a", text("1")),
        ("b", JsonValue::Null),
        ("c", JsonValue::Bool(false)),
    ]));
    let diffs = find_event_properties_differences(&with_props(None), &many);
    assert_eq!(keys(&diffs), vec!["a", "b", "c"]);
    assert_eq!(entry(&diffs, "b").event1_value, None);
    assert_eq!(entry(&diffs, "b").event2_value, Some(JsonValue::Null));
}

#[test]
fn properties_are_compared_key_by_key() {
    let a = with_props(Some(vec![
        ("Property", text("Ketupat House")),
        ("Drop Id", JsonValue::PosInt(470)),
        ("Only A", text("a")),
        ("Price", JsonValue::Float(10.6f64.to_bits())),
    ]));
    let b = with_props(Some(vec![
        ("Price", JsonValue::Float(10.6f64.to_bits())),
        ("Only B", text("b")),
        ("Drop Id", JsonValue::PosInt(470)),
        ("Property", text("Ketupat House \u{25ca}")),
    ]));
    let diffs = find_event_properties_differences(&a, &b);
    let in_order: Vec<&str> = diffs.iter().map(|d| d.key.as_str()).collect();
    assert_eq!(in_order, vec!["Property", "Only A", "Only B"]);
    assert_eq!(keys(&diffs), vec!["Only A", "Only B", "Property"]);
    assert_eq!(entry(&diffs, "Property").event1_value, Some(text("Ketupat House")));
    assert_eq!(
        entry(&diffs, "Property").event2_value,
        Some(text("Ketupat House \u{25ca}"))
    );
    assert_eq!(entry(&diffs, "Only A").event2_value, None);
    assert_eq!(entry(&diffs, "Only B").event1_value, None);
}

#[test]
fn the_changed_keys_are_the_same_from_either_side() {
    let a = members(vec![("p", text("1")), ("q", text("2")), ("r", text("3"))]);
    let b = members(vec![("q", text("2")), ("p", text("x")), ("s", text("4"))]);
    let forward = object_differences(&a, &b);
    let backward = object_differences(&b, &a);
    assert_eq!(keys(&forward), vec!["p", "r", "s"]);
    assert_eq!(keys(&forward), keys(&backward));
    for d in &forward {
        let other = entry(&backward, &d.key);
        assert_eq!(d.event1_value, other.event2_value);
        assert_eq!(d.event2_value, other.event1_value);
    }
}

#[test]
fn equal_maps_have_no_differences() {
    let a = members(vec![("p", text("1")), ("q", JsonValue::Float(0.0f64.to_bits()))]);
    let b = members(vec![("q", JsonValue::Float((-0.0f64).to_bits())), ("p", text("1"))]);
    assert!(object_differences(&a, &b).is_empty());
    assert!(object_differences(&vec![], &vec![]).is_empty());
}

#[test]
fn a_key_is_reported_once_even_where_it_stands_twice() {
    let a = members(vec![("p", text("1")), ("p", text("2"))]);
    let b = members(vec![("p", text("2"))]);
    let diffs = object_differences(&a, &b);
    assert_eq!(diffs.len(), 1);
    assert_eq!(diffs[0].event1_value, Some(text("1")));
    assert_eq!(diffs[0].event2_value, Some(text("2")));
    let c = members(vec![("q", text("1")), ("q", text("2"))]);
    assert_eq!(object_differences(&vec![], &c).len(), 1);
}

#[test]
fn whole_events_are_compared_field_by_field() {
    let a = ExportEvent {
        insert_id: Some("k".to_string()),
        event_type: Some("A".to_string()),
        app: Some(658833),
        session_id: Some(-1),
        client_upload_time: Some(Timestamp { secs: 1751387694, nanos: 837_000_000 }),
        location_lat: Some(3.5f64.to_bits()),
        paying: Some(JsonValue::Bool(true)),
        ..Default::default()
    };
    let mut b = a.clone();
    b.event_type = Some("B".to_string());
    b.app = Some(714982);
    b.client_upload_time = None;
    b.location_lat = None;
    b.paying = None;
    b.uuid = Some("u".to_string());
    let diffs = find_event_differences(&a, &b);
    assert_eq!(
        keys(&diffs),
        vec!["app", "client_upload_time", "event_type", "location_lat", "paying", "uuid"]
    );
    assert_eq!(entry(&diffs, "app").event1_value, Some(JsonValue::PosInt(658833)));
    assert_eq!(entry(&diffs, "app").event2_value, Some(JsonValue::PosInt(714982)));
    assert_eq!(
        entry(&diffs, "client_upload_time").event1_value,
        Some(text("2025-07-01 16:34:54.837000"))
    );
    assert_eq!(entry(&diffs, "client_upload_time").event2_value, Some(JsonValue::Null));
    assert_eq!(entry(&diffs, "uuid").event1_value, Some(JsonValue::Null));
    assert_eq!(entry(&diffs, "uuid").event2_value, Some(text("u")));
    assert_eq!(
        entry(&diffs, "location_lat").event1_value,
        Some(JsonValue::Float(3.5f64.to_bits()))
    );
    let in_order: Vec<&str> = diffs.iter().map(|d| d.key.as_str()).collect();
    assert_eq!(
        in_order,
        vec!["app", "client_upload_time", "event_type", "location_lat", "paying", "uuid"]
    );
    assert!(find_event_differences(&a, &a).is_empty());
    assert_eq!(keys(&find_event_differences(&b, &a)), keys(&diffs));
}

#[test]
fn an_event_is_written_under_the_names_of_the_export() {
    let e = ExportEvent {
        insert_id: Some("k".to_string()),
        insert_key: Some(text("ik")),
        schema: Some(JsonValue::PosInt(12)),
        session_id: Some(-1),
        amplitude_id: Some(7),
        groups: Some(vec![]),
        ..Default::default()
    };
    let json = e.to_json();
    assert_eq!(json.len(), 55);
    assert_eq!(json[0], ("$insert_id".to_string(), text("k")));
    assert_eq!(json[1], ("$insert_key".to_string(), text("ik")));
    assert_eq!(json[2], ("$schema".to_string(), JsonValue::PosInt(12)));
    assert_eq!(json[3], ("adid".to_string(), JsonValue::Null));
    assert_eq!(json[54].0, "version_name");
    let find = |name: &str| json.iter().find(|(k, _)| k == name).map(|(_, v)| v.clone());
    assert_eq!(find("session_id"), Some(JsonValue::NegInt(-1)));
    assert_eq!(find("amplitude_id"), Some(JsonValue::PosInt(7)));
    assert_eq!(find("groups"), Some(JsonValue::Object(vec![])));
    assert_eq!(find("event_time"), Some(JsonValue::Null));
    let mut names: Vec<&String> = json.iter().map(|(k, _)| k).collect();
    names.sort();
    names.dedup();
    assert_eq!(names.len(), 55);
}
