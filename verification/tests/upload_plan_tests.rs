use amplitude_to_sqlite::amplitude_types::Event;
use amplitude_to_sqlite::export_event::ExportEvent;
use amplitude_to_sqlite::project::upload_plan::{
    pending_events, plan_upload, select_user, sort_by_time, split_into_batches, user_key_of,
    waits_after, USER_BATCH_SIZE,
};
use amplitude_to_sqlite::time::Timestamp;

fn exported(key: &str, user: Option<&str>, device: Option<&str>, secs: i64) -> ExportEvent {
    ExportEvent {
        insert_id: Some(key.to_string()),
        event_type: Some("name".to_string()),
        event_time: Some(Timestamp { secs, nanos: 0 }),
        user_id: user.map(|u| u.to_string()),
        device_id: device.map(|d| d.to_string()),
        ..Default::default()
    }
}

fn ids(events: &Vec<Event>) -> Vec<String> {
    events.iter().map(|e| e.insert_id.clone().unwrap()).collect()
}

fn batch(events: &Vec<ExportEvent>) -> Vec<Event> {
    events.iter().map(|e| e.to_batch_event().unwrap()).collect()
}

#[test]
fn events_are_ordered_by_time_and_equal_times_keep_their_order() {
    let events = batch(&vec![
        exported("a", Some("u"), None, 30),
        exported("b", Some("u"), None, 10),
        exported("c", Some("u"), None, 20),
        exported("d", Some("u"), None, 10),
        exported("e", Some("u"), None, 30),
        exported("f", Some("u"), None, 5),
    ]);
    assert_eq!(ids(&sort_by_time(&events)), vec!["f", "b", "d", "c", "a", "e"]);
    assert!(sort_by_time(&vec![]).is_empty());
}

#[test]
fn a_user_is_known_by_user_id_or_device_id() {
    let events = batch(&vec![
        exported("a", Some("u1"), Some("d1"), 1),
        exported("b", None, Some("d1"), 2),
    ]);
    assert_eq!(user_key_of(&events[0]), "user:u1");
    assert_eq!(user_key_of(&events[1]), "device:d1");
    let mut nobody = events[1].clone();
    nobody.device_id = None;
    assert_eq!(user_key_of(&nobody), "unknown");
    assert_eq!(ids(&select_user(&events, &"device:d1".to_string())), vec!["b"]);
    assert!(select_user(&events, &"user:d1".to_string()).is_empty());
}

#[test]
fn a_request_carries_sixty_five_events_at_most() {
    assert_eq!(USER_BATCH_SIZE, 65);
    let many: Vec<ExportEvent> =
        (0..131).map(|i| exported(&format!("k{}", i), Some("u"), None, i)).collect();
    let batches = split_into_batches(&batch(&many));
    let sizes: Vec<usize> = batches.iter().map(|b| b.len()).collect();
    assert_eq!(sizes, vec![65, 65, 1]);
    assert_eq!(batches[0][0].insert_id, Some("k0".to_string()));
    assert_eq!(batches[1][0].insert_id, Some("k65".to_string()));
    assert_eq!(batches[2][0].insert_id, Some("k130".to_string()));
    let exact: Vec<ExportEvent> =
        (0..130).map(|i| exported(&format!("k{}", i), Some("u"), None, i)).collect();
    let sizes: Vec<usize> = split_into_batches(&batch(&exact)).iter().map(|b| b.len()).collect();
    assert_eq!(sizes, vec![65, 65]);
    assert!(split_into_batches(&vec![]).is_empty());
    assert_eq!(split_into_batches(&batch(&many[..3].to_vec())).len(), 1);
}

#[test]
fn the_upload_waits_between_the_requests_of_one_user() {
    assert!(waits_after(0, 3));
    assert!(waits_after(1, 3));
    assert!(!waits_after(2, 3));
    assert!(!waits_after(0, 1));
    assert!(!waits_after(0, 0));
    assert!(!waits_after(usize::MAX, usize::MAX));
}

#[test]
fn what_was_uploaded_before_is_left_out() {
    let mut unnamed = exported("x", Some("u2"), None, 3);
    unnamed.event_type = None;
    let mut keyless = exported("", Some("u2"), None, 4);
    keyless.insert_id = None;
    let events = vec![
        exported("a", Some("u1"), None, 50),
        exported("b", Some("u2"), None, 40),
        unnamed,
        exported("c", None, Some("d1"), 30),
        keyless,
        exported("d", Some("u1"), None, 20),
        exported("b", Some("u2"), None, 10),
    ];
    let completed = vec!["b".to_string(), "zzz".to_string()];
    let (pending, skipped, failed) = pending_events(&events, &completed);
    assert_eq!(ids(&pending), vec!["a", "c", "d"]);
    assert_eq!(skipped, 2);
    assert_eq!(failed.len(), 2);
    assert_eq!(failed[0].insert_id, Some("x".to_string()));
    assert_eq!(failed[1].insert_id, None);

    let plan = plan_upload(&events, &completed);
    assert_eq!(plan.skipped_events, 2);
    assert_eq!(plan.total_events, 3);
    assert_eq!(plan.failed_conversions.len(), 2);
    let users: Vec<&str> = plan.user_batches.iter().map(|u| u.user_key.as_str()).collect();
    assert_eq!(users, vec!["user:u1", "device:d1"]);
    assert_eq!(plan.user_batches[0].batches.len(), 1);
    assert_eq!(ids(&plan.user_batches[0].batches[0]), vec!["d", "a"]);
    assert_eq!(ids(&plan.user_batches[1].batches[0]), vec!["c"]);
    assert_eq!(plan.user_batches[0].batches[0][0].time, 20_000);
}

#[test]
fn nothing_to_upload_gives_an_empty_plan() {
    let plan = plan_upload(&vec![], &vec![]);
    assert_eq!(plan.skipped_events, 0);
    assert_eq!(plan.total_events, 0);
    assert!(plan.user_batches.is_empty());
    assert!(plan.failed_conversions.is_empty());
}
