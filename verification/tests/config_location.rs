use next_web::config::activation::ConfigDataActivationContext;
use next_web::config::listener::{
    ConfigDataEnvironmentUpdateListener, NoOpConfigDataEnvironmentUpdateListener,
};
use next_web::config::location::ConfigDataLocation;
use next_web::config::not_found::{ConfigDataLocationNotFoundError, ConfigDataNotFoundAction};
use next_web::config::profiles::{profiles_from_value, ConfigDataProfiles};

fn strings(values: &[&str]) -> Vec<String> {
    values.iter().map(|v| (*v).to_owned()).collect()
}

fn profiles(active: &[&str], default: &[&str]) -> ConfigDataProfiles {
    ConfigDataProfiles::new(strings(active), strings(default))
}

#[test]
fn creates_locations_from_values() {
    let location = ConfigDataLocation::of("/config/");

    assert_eq!(location.value(), "/config/");
    assert_eq!(location.path(), "/config/");
    assert!(!location.is_optional());
    assert!(!location.is_file_system());
    assert!(!location.is_empty());
    assert!(!location.has_wildcard());
}

#[test]
fn extracts_the_optional_prefix() {
    let location = ConfigDataLocation::of("  optional: file:./config/  ");

    assert!(location.is_optional());
    assert_eq!(location.value(), "file:./config/");
    assert_eq!(location.to_string(), "optional:file:./config/");
}

#[test]
fn detects_wildcard_and_file_system_locations() {
    let location = ConfigDataLocation::of("optional:file:./config/*/");

    assert!(location.is_optional());
    assert!(location.is_file_system());
    assert!(location.has_wildcard());
    assert_eq!(location.path(), "./config/*/");
}

#[test]
fn creates_locations_for_empty_values() {
    let location = ConfigDataLocation::of("   ");

    assert!(location.is_empty());
    assert_eq!(location.to_string(), "");
}

#[test]
fn a_location_of_its_own_text_is_the_same_location() {
    for value in ["/config/", "optional:file:./config/*/", "  optional:  /a;/b  ", ""] {
        let location = ConfigDataLocation::of(value);
        let again = ConfigDataLocation::of(&location.to_string());
        assert!(location.equals(&again), "value: {value}");
    }
}

#[test]
fn reports_the_missing_location() {
    let error = ConfigDataLocationNotFoundError::new(ConfigDataLocation::of("file:./missing/"));

    assert_eq!(error.location(), &ConfigDataLocation::of("file:./missing/"));
    assert_eq!(
        error.to_string(),
        "Config data location 'file:./missing/' does not exist"
    );
}

#[test]
fn reports_an_optional_missing_location_with_its_prefix() {
    let error = ConfigDataLocationNotFoundError::new(ConfigDataLocation::of("optional:/x/"));

    assert_eq!(
        error.to_string(),
        "Config data location 'optional:/x/' does not exist"
    );
}

#[test]
fn creates_actions_from_property_values() {
    assert_eq!(
        ConfigDataNotFoundAction::of("fail"),
        Some(ConfigDataNotFoundAction::Fail)
    );
    assert_eq!(
        ConfigDataNotFoundAction::of(" IGNORE "),
        Some(ConfigDataNotFoundAction::Ignore)
    );
    assert_eq!(ConfigDataNotFoundAction::of("unknown"), None);
}

#[test]
fn defaults_to_failing() {
    assert_eq!(
        ConfigDataNotFoundAction::default(),
        ConfigDataNotFoundAction::Fail
    );
}

#[test]
fn handle_fails_for_the_fail_action() {
    let error = ConfigDataLocationNotFoundError::new(ConfigDataLocation::of("file:./missing/"));

    let result = ConfigDataNotFoundAction::Fail.handle(error.clone());

    assert_eq!(result, Err(error));
}

#[test]
fn handle_ignores_the_failure_for_the_ignore_action() {
    let error = ConfigDataLocationNotFoundError::new(ConfigDataLocation::of("file:./missing/"));

    assert!(ConfigDataNotFoundAction::Ignore.handle(error).is_ok());
}

#[test]
fn keeps_profiles_once_and_in_order() {
    let profiles = profiles(&["dev", " ", "cloud", "dev"], &["default"]);

    assert_eq!(profiles.active(), &vec!["dev".to_owned(), "cloud".to_owned()]);
    assert_eq!(profiles.default_profiles(), &vec!["default".to_owned()]);
    assert!(profiles.is_active("cloud"));
    assert!(!profiles.is_active("prod"));
}

#[test]
fn deduplicating_twice_changes_nothing() {
    let once = next_web::config::profiles::dedupe(&strings(&[" a", "b", "a ", "", "c", "b"]));
    let twice = next_web::config::profiles::dedupe(&once);

    assert_eq!(once, strings(&["a", "b", "c"]));
    assert_eq!(once, twice);
}

#[test]
fn evaluates_profile_expressions() {
    let profiles = profiles(&["dev", "cloud"], &[]);

    assert!(profiles.accepts(&strings(&["dev"])));
    assert!(profiles.accepts(&strings(&["dev & cloud"])));
    assert!(profiles.accepts(&strings(&["prod", "cloud"])));
    assert!(!profiles.accepts(&strings(&["dev & prod"])));
    assert!(!profiles.accepts(&strings(&["!dev"])));
    assert!(!profiles.accepts(&strings(&[])));
    assert!(!profiles.accepts(&strings(&["  "])));
}

#[test]
fn rejects_invalid_profile_expressions() {
    let profiles = profiles(&["dev"], &[]);

    assert!(!profiles.accepts(&strings(&["dev & | cloud"])));
}

#[test]
fn splits_profile_values() {
    assert_eq!(
        profiles_from_value(" dev , cloud ,, "),
        vec!["dev".to_owned(), "cloud".to_owned()]
    );
    assert!(profiles_from_value("").is_empty());
}

#[test]
fn nothing_is_active_without_profiles() {
    let context = ConfigDataActivationContext::new(None);

    assert!(context.get_profiles().is_none());
    assert!(context.active_profiles().is_empty());
    assert!(!context.accepts(&strings(&["dev"])));
}

#[test]
fn evaluates_expressions_against_the_profiles() {
    let profiles = ConfigDataProfiles::new(vec!["dev".to_owned()], Vec::new());
    let context = ConfigDataActivationContext::new(None).with_profiles(profiles);

    assert_eq!(context.active_profiles(), vec!["dev".to_owned()]);
    assert!(context.accepts(&strings(&["dev"])));
    assert!(!context.accepts(&strings(&["prod"])));
}

#[test]
fn the_no_op_listener_ignores_every_update() {
    let listener = NoOpConfigDataEnvironmentUpdateListener;

    listener.on_property_source_added("test", None);
    listener.on_set_profiles(&ConfigDataProfiles::default());
}
