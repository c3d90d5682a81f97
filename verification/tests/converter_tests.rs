use amplitude_to_sqlite::converter::{
    get_member, get_text, is_readable, parse_item, try_parse_item, ItemError,
};
use amplitude_to_sqlite::export_event::ExportEvent;
use amplitude_to_sqlite::json::JsonValue;
use amplitude_to_sqlite::time::{deserialize_amplitude_timestamp, Timestamp};
use amplitude_to_sqlite::verification::{
    find_json_differences, verification_totals, verify_event, VerificationFailure,
    VerificationResult, VerificationTotals,
};

fn text(s: &str) -> JsonValue {
    JsonValue::String(s.to_string())
}

fn object(list: Vec<(&str, JsonValue)>) -> JsonValue {
    JsonValue::Object(list.into_iter().map(|(k, v)| (k.to_string(), v)).collect())
}

fn line(path: &str) -> Vec<(&'static str, JsonValue)> {
    vec![
        ("uuid", text("uuid-0001")),
        ("user_id", text("abc")),
        ("data", object(vec![("path", text(path))])),
        ("event_time", text("2025-07-01 16:34:54.837000")),
        ("event_type", text("page_view")),
        ("session_id", JsonValue::PosInt(1640995200000)),
    ]
}

fn without(mut list: Vec<(&'static str, JsonValue)>, key: &str) -> JsonValue {
    list.retain(|(k, _)| *k != key);
    object(list)
}

#[test]
fn a_line_gives_an_item() {
    let json = object(line("/test"));
    let item = parse_item(&json, "{raw}", "fixture1").unwrap();
    assert_eq!(item.uuid, "uuid-0001");
    assert_eq!(item.user_id, Some("abc".to_string()));
    assert_eq!(item.screen_name, None);
    assert_eq!(item.event_name, "page_view");
    assert!(item.server_event);
    assert_eq!(item.event_time, Timestamp { secs: 1751387694, nanos: 837_000_000 });
    assert_eq!(item.raw_json, "{raw}");
    assert_eq!(item.source_file, "fixture1");
    assert_eq!(item.session_id, Some(1640995200000));
}

#[test]
fn an_event_of_the_page_itself_is_no_server_event() {
    let item = parse_item(&object(line("/")), "", "f").unwrap();
    assert!(!item.server_event);
}

#[test]
fn a_session_is_a_whole_number_that_is_not_negative() {
    let mut list = line("/");
    list[5].1 = JsonValue::NegInt(-1);
    assert_eq!(parse_item(&object(list), "", "f").unwrap().session_id, None);
    let mut list = line("/");
    list[5].1 = JsonValue::Float(5.0f64.to_bits());
    assert_eq!(parse_item(&object(list), "", "f").unwrap().session_id, None);
    let mut list = line("/");
    list[5].1 = text("5");
    assert_eq!(parse_item(&object(list), "", "f").unwrap().session_id, None);
    assert_eq!(parse_item(&without(line("/"), "session_id"), "", "f").unwrap().session_id, None);
    assert_eq!(parse_item(&without(line("/"), "user_id"), "", "f").unwrap().user_id, None);
}

#[test]
fn each_reason_for_no_item_is_named() {
    assert_eq!(
        parse_item(&without(line("/"), "uuid"), "", "f").err(),
        Some(ItemError::MissingUuid)
    );
    let mut list = line("/");
    list[2].1 = object(vec![]);
    assert_eq!(parse_item(&object(list), "", "f").err(), Some(ItemError::MissingDataPath));
    let mut list = line("/");
    list[2].1 = text("no object");
    assert_eq!(parse_item(&object(list), "", "f").err(), Some(ItemError::MissingDataPath));
    assert_eq!(
        parse_item(&without(line("/"), "event_type"), "", "f").err(),
        Some(ItemError::MissingEventName)
    );
    assert_eq!(parse_item(&JsonValue::Null, "", "f").err(), Some(ItemError::MissingUuid));
    assert_eq!(ItemError::MissingUuid.message(), "Missing uuid");
    assert_eq!(ItemError::MissingDataPath.message(), "Missing data/path for server_event");
    assert_eq!(ItemError::MissingEventName.message(), "Missing event name");
}

#[test]
fn a_line_that_cannot_be_read_is_told_apart() {
    assert!(is_readable(&object(line("/"))));
    assert!(is_readable(&without(line("/"), "uuid")));
    assert!(is_readable(&JsonValue::Null));
    assert!(!is_readable(&without(line("/"), "data")));
    assert!(!is_readable(&without(line("/"), "event_time")));
    let mut list = line("/");
    list[3].1 = text("yesterday");
    assert!(!is_readable(&object(list.clone())));
    assert!(try_parse_item(&object(list), "", "f").is_none());
    let mut list = line("/");
    list[3].1 = JsonValue::PosInt(5);
    assert!(!is_readable(&object(list)));
    let mut list = line("/");
    list[2].1 = object(vec![]);
    list[3].1 = text("yesterday");
    assert!(is_readable(&object(list.clone())));
    assert_eq!(
        try_parse_item(&object(list), "", "f").unwrap().err(),
        Some(ItemError::MissingDataPath)
    );
    assert_eq!(try_parse_item(&object(line("/x")), "r", "f").unwrap().unwrap().raw_json, "r");
}

#[test]
fn members_are_found_in_objects_only() {
    let json = object(line("/"));
    assert_eq!(get_member(&json, "uuid"), Some(&text("uuid-0001")));
    assert_eq!(get_member(&json, "missing"), None);
    assert_eq!(get_member(&text("x"), "uuid"), None);
    assert_eq!(get_text(&json, "uuid"), Some(&"uuid-0001".to_string()));
    assert_eq!(get_text(&json, "session_id"), None);
}

fn exported() -> ExportEvent {
    ExportEvent {
        insert_id: Some("id".to_string()),
        event_type: Some("name".to_string()),
        event_time: Some(Timestamp { secs: 1751387694, nanos: 837_000_000 }),
        session_id: Some(-1),
        groups: Some(vec![]),
        ..Default::default()
    }
}

#[test]
fn an_event_that_is_written_back_as_it_was_read_passes() {
    let event = exported();
    let original = JsonValue::Object(event.to_json());
    assert!(verify_event(&original, &event).is_ok());
}

#[test]
fn an_event_without_name_or_insert_id_fails() {
    let original = JsonValue::Object(exported().to_json());
    let mut event = exported();
    event.event_type = None;
    event.insert_id = None;
    assert!(matches!(
        verify_event(&original, &event),
        Err(VerificationFailure::MissingEventType)
    ));
    let mut event = exported();
    event.insert_id = None;
    assert!(matches!(
        verify_event(&original, &event),
        Err(VerificationFailure::MissingInsertId)
    ));
    assert!(matches!(
        verify_event(&JsonValue::Array(vec![]), &exported()),
        Err(VerificationFailure::NotAnObject)
    ));
}

#[test]
fn a_line_that_is_written_back_differently_fails_with_its_differences() {
    let event = exported();
    let mut members = event.to_json();
    members.retain(|(k, _)| k != "adid");
    members.push(("unknown_field".to_string(), JsonValue::Bool(true)));
    for m in members.iter_mut() {
        if m.0 == "session_id" {
            m.1 = JsonValue::Float((-1.0f64).to_bits());
        }
    }
    match verify_event(&JsonValue::Object(members), &event) {
        Err(VerificationFailure::Mismatch(diffs)) => {
            let mut keys: Vec<&str> = diffs.iter().map(|d| d.key.as_str()).collect();
            keys.sort();
            assert_eq!(keys, vec!["adid", "session_id", "unknown_field"]);
            let adid = diffs.iter().find(|d| d.key == "adid").unwrap();
            assert_eq!(adid.event1_value, None);
            assert_eq!(adid.event2_value, Some(JsonValue::Null));
            let unknown = diffs.iter().find(|d| d.key == "unknown_field").unwrap();
            assert_eq!(unknown.event1_value, Some(JsonValue::Bool(true)));
            assert_eq!(unknown.event2_value, None);
        }
        other => panic!("unexpected: {:?}", other),
    }
    assert_eq!(
        VerificationFailure::Mismatch(vec![]).headline(),
        "JSON mismatch:"
    );
    assert_eq!(VerificationFailure::MissingEventType.headline(), "Event type is empty");
    assert_eq!(VerificationFailure::MissingInsertId.headline(), "Insert ID is empty");
    assert_eq!(VerificationFailure::NotAnObject.headline(), "JSON structure is not an object");
}

#[test]
fn json_differences_tell_what_each_side_has() {
    let original = vec![("a".to_string(), text("1")), ("b".to_string(), text("2"))];
    let round_trip = vec![("b".to_string(), text("3")), ("c".to_string(), text("4"))];
    let diffs = find_json_differences(&original, &round_trip);
    let mut keys: Vec<&str> = diffs.iter().map(|d| d.key.as_str()).collect();
    keys.sort();
    assert_eq!(keys, vec!["a", "b", "c"]);
}

#[test]
fn results_are_counted() {
    let mut first = VerificationResult::new("a.json".to_string());
    first.record_success();
    first.record_failure(2, "Event type is empty".to_string(), "{}".to_string());
    first.record_success();
    assert_eq!(first.file_path, "a.json");
    assert_eq!(first.total_events, 3);
    assert_eq!(first.successful_events, 2);
    assert_eq!(first.failed_events.len(), 1);
    assert_eq!(first.failed_events[0].line_number, 2);
    assert_eq!(first.failed_events[0].error, "Event type is empty");
    assert_eq!(first.failed_events[0].original_json, "{}");
    let mut second = VerificationResult::new("b.json".to_string());
    second.record_success();
    let empty = VerificationResult::new("c.json".to_string());
    assert_eq!(
        verification_totals(&vec![first, second, empty]),
        VerificationTotals {
            total_files: 3,
            files_with_errors: 1,
            total_events: 4,
            total_successful: 3,
            total_failed: 1,
        }
    );
    assert_eq!(
        verification_totals(&vec![]),
        VerificationTotals {
            total_files: 0,
            files_with_errors: 0,
            total_events: 0,
            total_successful: 0,
            total_failed: 0,
        }
    );
}

fn from_serde(value: &serde_json::Value) -> JsonValue {
    match value {
        serde_json::Value::Null => JsonValue::Null,
        serde_json::Value::Bool(b) => JsonValue::Bool(*b),
        serde_json::Value::Number(n) => {
            if let Some(u) = n.as_u64() {
                JsonValue::PosInt(u)
            } else if let Some(i) = n.as_i64() {
                JsonValue::NegInt(i)
            } else {
                JsonValue::Float(n.as_f64().unwrap().to_bits())
            }
        }
        serde_json::Value::String(s) => JsonValue::String(s.clone()),
        serde_json::Value::Array(items) => JsonValue::Array(items.iter().map(from_serde).collect()),
        serde_json::Value::Object(map) => {
            JsonValue::Object(map.iter().map(|(k, v)| (k.clone(), from_serde(v))).collect())
        }
    }
}

fn members(list: Vec<(&str, JsonValue)>) -> Option<Vec<(String, JsonValue)>> {
    Some(list.into_iter().map(|(k, v)| (k.to_string(), v)).collect())
}

fn read_time(text: &str) -> Option<Timestamp> {
    deserialize_amplitude_timestamp(Some(text)).unwrap()
}

#[test]
fn a_line_of_a_real_export_is_written_back_as_it_stands() {
    let line = r#"{"$insert_id":"Property Drop Purchased:2","$insert_key":null,"$schema":null,"adid":null,"amplitude_attribution_ids":null,"amplitude_event_type":null,"amplitude_id":1263130950579,"app":636686,"city":null,"client_event_time":"2025-07-01 16:34:54.837000","client_upload_time":"2025-07-01 17:14:33.145000","country":null,"data":{"path":"/2/httpapi","user_properties_updated":true,"group_first_event":{},"group_ids":{}},"data_type":"event","device_brand":null,"device_carrier":null,"device_family":null,"device_id":"f48913e6-c106-5429-a296-9f9588859c3b","device_manufacturer":null,"device_model":null,"device_type":null,"dma":null,"event_id":991179682,"event_properties":{"Total Price":6396.0,"Drop Id":2,"Number of Shares":20,"Drop Type":"Sale","Price per Share":312.0,"Property":"Property 0"},"event_time":"2025-07-01 16:34:54.837000","event_type":"Property Drop Purchased","global_user_properties":null,"group_properties":{},"groups":{},"idfa":null,"ip_address":null,"is_attribution_event":null,"language":null,"library":"http/2.0","location_lat":null,"location_lng":null,"os_name":null,"os_version":null,"partner_id":null,"paying":null,"plan":{},"platform":null,"processed_time":"2025-07-01 17:14:33.693000","region":null,"sample_rate":null,"server_received_time":"2025-07-01 17:14:33.145000","server_upload_time":"2025-07-01 17:14:33.149000","session_id":-1,"source_id":null,"start_version":null,"user_creation_time":null,"user_id":"2b59c518-dc2b-43f6-9444-85a84d5b1e1f","user_properties":{},"uuid":"a6ec45f6-0016-4907-b433-5bf4e4a56908","version_name":null}"#;
    let original = from_serde(&serde_json::from_str::<serde_json::Value>(line).unwrap());
    let event = ExportEvent {
        insert_id: Some("Property Drop Purchased:2".to_string()),
        amplitude_id: Some(1263130950579),
        app: Some(636686),
        client_event_time: read_time("2025-07-01 16:34:54.837000"),
        client_upload_time: read_time("2025-07-01 17:14:33.145000"),
        data: members(vec![
            ("path", text("/2/httpapi")),
            ("user_properties_updated", JsonValue::Bool(true)),
            ("group_first_event", JsonValue::Object(vec![])),
            ("group_ids", JsonValue::Object(vec![])),
        ]),
        data_type: Some("event".to_string()),
        device_id: Some("f48913e6-c106-5429-a296-9f9588859c3b".to_string()),
        event_id: Some(991179682),
        event_properties: members(vec![
            ("Total Price", JsonValue::Float(6396.0f64.to_bits())),
            ("Drop Id", JsonValue::PosInt(2)),
            ("Number of Shares", JsonValue::PosInt(20)),
            ("Drop Type", text("Sale")),
            ("Price per Share", JsonValue::Float(312.0f64.to_bits())),
            ("Property", text("Property 0")),
        ]),
        event_time: read_time("2025-07-01 16:34:54.837000"),
        event_type: Some("Property Drop Purchased".to_string()),
        group_properties: members(vec![]),
        groups: members(vec![]),
        library: Some("http/2.0".to_string()),
        plan: members(vec![]),
        processed_time: Some("2025-07-01 17:14:33.693000".to_string()),
        server_received_time: read_time("2025-07-01 17:14:33.145000"),
        server_upload_time: read_time("2025-07-01 17:14:33.149000"),
        session_id: Some(-1),
        user_id: Some("2b59c518-dc2b-43f6-9444-85a84d5b1e1f".to_string()),
        user_properties: members(vec![]),
        uuid: Some("a6ec45f6-0016-4907-b433-5bf4e4a56908".to_string()),
        ..Default::default()
    };
    match verify_event(&original, &event) {
        Ok(()) => {}
        Err(failure) => panic!("unexpected: {:?}", failure),
    }
    let item = parse_item(&original, line, "export.json").unwrap();
    assert_eq!(item.uuid, "a6ec45f6-0016-4907-b433-5bf4e4a56908");
    assert_eq!(item.event_name, "Property Drop Purchased");
    assert!(item.server_event);
    assert_eq!(item.session_id, None);
    assert_eq!(item.event_time, Timestamp { secs: 1751387694, nanos: 837_000_000 });
}
