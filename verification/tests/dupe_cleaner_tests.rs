use amplitude_to_sqlite::converter;
use amplitude_to_sqlite::text::{keep_or_underscore, sanitize_filename};
use amplitude_to_sqlite::transform::dupe_cleaner::OutputMode;

#[test]
fn test_output_mode_enum() {
    // Test that all output modes can be created and compared
    assert!(matches!(OutputMode::Analyze, OutputMode::Analyze));
    assert!(matches!(OutputMode::Debug, OutputMode::Debug));
    assert!(matches!(OutputMode::Full, OutputMode::Full));
}

#[test]
fn test_sanitize_filename() {
    assert_eq!(sanitize_filename("normal-name"), "normal-name");
    assert_eq!(sanitize_filename("name with spaces"), "name_with_spaces");
    assert_eq!(sanitize_filename("name@with#special$chars"), "name_with_special_chars");
    assert_eq!(sanitize_filename("name/with\\path:chars"), "name_with_path_chars");
}

#[test]
fn letters_of_every_script_stay_in_a_file_name() {
    assert_eq!(sanitize_filename("caf\u{e9} \u{4e2d}\u{6587}_9"), "caf\u{e9}_\u{4e2d}\u{6587}_9");
    assert_eq!(sanitize_filename(""), "");
    assert_eq!(sanitize_filename("Property Drop Purchased:6572"), "Property_Drop_Purchased_6572");
}

#[test]
fn a_plain_file_name_has_ascii_only() {
    assert_eq!(converter::sanitize_filename("normal-name_1"), "normal-name_1");
    assert_eq!(converter::sanitize_filename("caf\u{e9} au lait"), "caf__au_lait");
    assert_eq!(converter::sanitize_filename("a/b\\c:d"), "a_b_c_d");
    assert_eq!(converter::sanitize_filename("AZaz09-_"), "AZaz09-_");
    assert_eq!(converter::sanitize_filename("@[`{/:"), "______");
}

#[test]
fn a_character_is_kept_or_becomes_an_underscore() {
    assert_eq!(keep_or_underscore('x', true), 'x');
    assert_eq!(keep_or_underscore('-', false), '-');
    assert_eq!(keep_or_underscore('_', false), '_');
    assert_eq!(keep_or_underscore(' ', false), '_');
    assert_eq!(keep_or_underscore('#', false), '_');
}
