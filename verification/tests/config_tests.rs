use amplitude_to_sqlite::config::{
    default_endpoint, default_export_endpoint, AmplitudeConfig, AmplitudeProjectSecrets,
    ConfigError, MultiProjectConfig,
};
use amplitude_to_sqlite::amplitude_sdk::AmplitudeClient;
use amplitude_to_sqlite::json::JsonValue;
use amplitude_to_sqlite::project::project_selector::{ProjectSelector, SelectionError};

fn text(s: &str) -> JsonValue {
    JsonValue::String(s.to_string())
}

fn members(list: Vec<(&str, JsonValue)>) -> Vec<(String, JsonValue)> {
    list.into_iter().map(|(k, v)| (k.to_string(), v)).collect()
}

fn secrets(api_key: &str) -> AmplitudeProjectSecrets {
    AmplitudeProjectSecrets { api_key: api_key.to_string(), secret_key: "secret".to_string() }
}

#[test]
fn the_service_has_default_addresses() {
    assert_eq!(default_endpoint(), "https://api2.amplitude.com/batch");
    assert_eq!(default_export_endpoint(), "https://amplitude.com/api/2/export");
}

#[test]
fn a_configuration_needs_its_two_keys_only() {
    let config =
        AmplitudeConfig::from_file(&members(vec![("secret_key", text("s")), ("api_key", text("a"))]))
            .unwrap();
    assert_eq!(config.api_key, "a");
    assert_eq!(config.secret_key, "s");
    assert_eq!(config.endpoint, "https://api2.amplitude.com/batch");
    assert_eq!(config.export_endpoint, "https://amplitude.com/api/2/export");
    assert_eq!(config.transfer_project_api_key, None);
    assert_eq!(config.transfer_project_secret_key, None);
}

#[test]
fn a_configuration_takes_over_what_is_given() {
    let config = AmplitudeConfig::from_file(&members(vec![
        ("api_key", text("a")),
        ("secret_key", text("s")),
        ("endpoint", text("https://example.test/batch")),
        ("export_endpoint", text("https://example.test/export")),
        ("transfer_project_api_key", text("ta")),
        ("transfer_project_secret_key", JsonValue::Null),
        ("something_else", JsonValue::PosInt(1)),
    ]))
    .unwrap();
    assert_eq!(config.endpoint, "https://example.test/batch");
    assert_eq!(config.export_endpoint, "https://example.test/export");
    assert_eq!(config.transfer_project_api_key, Some("ta".to_string()));
    assert_eq!(config.transfer_project_secret_key, None);
    let client = AmplitudeClient::from_config(config);
    assert_eq!(client.api_key, "a");
    assert_eq!(client.secret_key, "s");
    assert_eq!(client.export_endpoint, "https://example.test/export");
    assert_eq!(client.transfer_project_api_key, Some("ta".to_string()));
}

#[test]
fn the_first_bad_setting_is_reported() {
    match AmplitudeConfig::from_file(&members(vec![("secret_key", text("s"))])) {
        Err(ConfigError::MissingField(name)) => assert_eq!(name, "api_key"),
        other => panic!("unexpected: {:?}", other),
    }
    match AmplitudeConfig::from_file(&members(vec![("api_key", text("a"))])) {
        Err(ConfigError::MissingField(name)) => assert_eq!(name, "secret_key"),
        other => panic!("unexpected: {:?}", other),
    }
    match AmplitudeConfig::from_file(&members(vec![
        ("api_key", JsonValue::PosInt(1)),
        ("secret_key", JsonValue::PosInt(2)),
    ])) {
        Err(ConfigError::WrongType(name)) => assert_eq!(name, "api_key"),
        other => panic!("unexpected: {:?}", other),
    }
    match AmplitudeConfig::from_file(&members(vec![
        ("api_key", text("a")),
        ("secret_key", text("s")),
        ("endpoint", JsonValue::Null),
    ])) {
        Err(ConfigError::WrongType(name)) => assert_eq!(name, "endpoint"),
        other => panic!("unexpected: {:?}", other),
    }
    match AmplitudeConfig::from_file(&members(vec![
        ("api_key", text("a")),
        ("secret_key", text("s")),
        ("transfer_project_secret_key", JsonValue::Bool(true)),
    ])) {
        Err(ConfigError::WrongType(name)) => assert_eq!(name, "transfer_project_secret_key"),
        other => panic!("unexpected: {:?}", other),
    }
}

fn project(api_key: &str, secret_key: &str) -> JsonValue {
    JsonValue::Object(members(vec![("api_key", text(api_key)), ("secret_key", text(secret_key))]))
}

#[test]
fn projects_are_read_in_the_order_of_the_file() {
    let settings = members(vec![(
        "projects",
        JsonValue::Object(members(vec![
            ("production", project("pa", "ps")),
            ("staging", project("sa", "ss")),
        ])),
    )]);
    let config = MultiProjectConfig::from_file(&settings).unwrap();
    assert_eq!(config.projects.len(), 2);
    assert_eq!(config.list_projects(), vec!["production", "staging"]);
    assert_eq!(config.get_project("staging").unwrap().api_key, "sa");
    assert_eq!(config.get_project("staging").unwrap().secret_key, "ss");
    assert_eq!(config.get_project("production").unwrap().api_key, "pa");
    assert!(config.get_project("Production").is_none());
}

#[test]
fn a_file_without_projects_has_none() {
    let config = MultiProjectConfig::from_file(&members(vec![("other", text("x"))])).unwrap();
    assert!(config.projects.is_empty());
    assert!(config.list_projects().is_empty());
    assert!(config.get_project("default").is_none());
}

#[test]
fn a_project_that_is_none_is_reported() {
    match MultiProjectConfig::from_file(&members(vec![("projects", text("x"))])) {
        Err(ConfigError::WrongType(name)) => assert_eq!(name, "projects"),
        other => panic!("unexpected: {:?}", other),
    }
    let settings = members(vec![(
        "projects",
        JsonValue::Object(members(vec![
            ("good", project("a", "s")),
            ("bad", JsonValue::PosInt(3)),
            ("worse", JsonValue::Null),
        ])),
    )]);
    match MultiProjectConfig::from_file(&settings) {
        Err(ConfigError::WrongType(name)) => assert_eq!(name, "bad"),
        other => panic!("unexpected: {:?}", other),
    }
    let settings = members(vec![(
        "projects",
        JsonValue::Object(members(vec![(
            "keyless",
            JsonValue::Object(members(vec![("api_key", text("a"))])),
        )])),
    )]);
    match MultiProjectConfig::from_file(&settings) {
        Err(ConfigError::MissingField(name)) => assert_eq!(name, "secret_key"),
        other => panic!("unexpected: {:?}", other),
    }
}

#[test]
fn the_first_project_of_a_name_counts() {
    let config = MultiProjectConfig {
        projects: vec![
            ("a".to_string(), secrets("first")),
            ("b".to_string(), secrets("other")),
            ("a".to_string(), secrets("second")),
        ],
    };
    assert_eq!(config.get_project("a").unwrap().api_key, "first");
    assert_eq!(config.list_projects(), vec!["a", "b"]);
}

#[test]
fn a_project_is_chosen_by_name() {
    let mut selector = ProjectSelector::new(MultiProjectConfig {
        projects: vec![("default".to_string(), secrets("d"))],
    });
    assert_eq!(selector.select_project("default").unwrap().api_key, "d");
    match selector.select_project("missing") {
        Err(SelectionError::NotFound(name)) => assert_eq!(name, "missing"),
        other => panic!("unexpected: {:?}", other),
    }
    assert!(selector.has_project("default"));
    assert!(!selector.has_project("staging"));
    selector.add_project("staging".to_string(), secrets("s"));
    assert_eq!(selector.list_projects(), vec!["default", "staging"]);
    selector.add_project("default".to_string(), secrets("d2"));
    assert_eq!(selector.list_projects(), vec!["default", "staging"]);
    assert_eq!(selector.config.projects.len(), 2);
    assert_eq!(selector.select_project("default").unwrap().api_key, "d2");
    assert_eq!(selector.select_project("staging").unwrap().api_key, "s");
}

#[test]
fn the_other_projects_are_the_projects_but_one() {
    let selector = ProjectSelector::new(MultiProjectConfig {
        projects: vec![
            ("a".to_string(), secrets("1")),
            ("b".to_string(), secrets("2")),
            ("a".to_string(), secrets("3")),
            ("c".to_string(), secrets("4")),
        ],
    });
    assert_eq!(selector.other_projects("b"), vec!["a", "c"]);
    assert_eq!(selector.other_projects("a"), vec!["b", "c"]);
    assert_eq!(selector.other_projects("z"), vec!["a", "b", "c"]);
}

#[test]
fn a_client_for_a_project_uploads_to_that_project() {
    let client = AmplitudeClient::from_project_config(&secrets("key"));
    assert_eq!(client.api_key, "key");
    assert_eq!(client.secret_key, "secret");
    assert_eq!(client.endpoint, "https://api2.amplitude.com/batch");
    assert_eq!(client.transfer_project_api_key, Some("key".to_string()));
    assert_eq!(client.transfer_project_secret_key, Some("secret".to_string()));
}
