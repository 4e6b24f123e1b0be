use next_web::context::context_id::{
    application_id, child_id, context_id_for, ContextId, ContextIdApplicationContextInitializer,
    APPLICATION_NAME_PROPERTY,
};
use next_web::context::pid_file::{
    failure_message, parse_bool, variable_value, ApplicationPidFileWriter, EventKind,
    PidFileTrigger, DEFAULT_FILE_NAME,
};

#[test]
fn uses_the_default_file_and_the_default_trigger() {
    let mut writer = ApplicationPidFileWriter::default();

    assert_eq!(writer.file(), DEFAULT_FILE_NAME);
    assert_eq!(writer.trigger(), PidFileTrigger::EnvironmentPrepared);
    assert_eq!(writer.order(), i32::MIN + 13);

    writer.set_order(1_000);

    assert_eq!(writer.order(), 1_000);
}

#[test]
fn reports_the_trigger_of_every_event() {
    assert_eq!(PidFileTrigger::of(&EventKind::Starting), None);
    assert_eq!(
        PidFileTrigger::of(&EventKind::EnvironmentPrepared),
        Some(PidFileTrigger::EnvironmentPrepared)
    );
    assert_eq!(
        PidFileTrigger::of(&EventKind::ContextPrepared),
        Some(PidFileTrigger::ContextPrepared)
    );
    assert_eq!(
        PidFileTrigger::of(&EventKind::ContextLoaded),
        Some(PidFileTrigger::ContextLoaded)
    );
    assert_eq!(PidFileTrigger::of(&EventKind::Started), Some(PidFileTrigger::Started));
    assert_eq!(PidFileTrigger::of(&EventKind::Ready), Some(PidFileTrigger::Ready));
    assert_eq!(PidFileTrigger::of(&EventKind::Error), None);
}

#[test]
fn matches_the_trigger_of_an_event() {
    assert!(PidFileTrigger::EnvironmentPrepared.matches(&EventKind::EnvironmentPrepared));
    assert!(!PidFileTrigger::Ready.matches(&EventKind::ContextLoaded));
}

#[test]
fn parses_boolean_values() {
    assert_eq!(parse_bool("true"), Some(true));
    assert_eq!(parse_bool(" TRUE "), Some(true));
    assert_eq!(parse_bool("false"), Some(false));
    assert_eq!(parse_bool("FALSE"), Some(false));
    assert_eq!(parse_bool("yes"), None);
}

#[test]
fn writes_the_process_id_once_per_process() {
    let mut writer = ApplicationPidFileWriter::default();
    writer.set_trigger(PidFileTrigger::Ready);

    assert!(writer.should_write(&EventKind::Ready, false));
    assert!(!writer.should_write(&EventKind::Ready, true));
    assert!(!writer.should_write(&EventKind::Started, false));
}

#[test]
fn takes_the_file_from_the_properties() {
    let writer = ApplicationPidFileWriter::new("default.pid");

    assert_eq!(
        writer.pid_file(Some("from-property.pid".to_owned()), Some("from-variable.pid".to_owned())),
        "from-property.pid"
    );
    assert_eq!(
        writer.pid_file(None, Some("from-variable.pid".to_owned())),
        "from-variable.pid"
    );
    assert_eq!(writer.pid_file(None, Some("   ".to_owned())), "default.pid");
    assert_eq!(writer.pid_file(None, None), "default.pid");
}

#[test]
fn fails_on_write_errors_only_when_asked_to() {
    let writer = ApplicationPidFileWriter::default();

    assert!(writer.fail_on_write_error(Some("TRUE".to_owned()), None));
    assert!(!writer.fail_on_write_error(Some("maybe".to_owned()), Some("true".to_owned())));
    assert!(writer.fail_on_write_error(None, Some("true".to_owned())));
    assert!(!writer.fail_on_write_error(None, None));
}

#[test]
fn removes_the_file_when_the_application_stops() {
    let mut writer = ApplicationPidFileWriter::default();
    assert_eq!(writer.written_file(), None);

    writer.record_written("app.pid".to_owned());

    assert_eq!(writer.written_file(), Some("app.pid"));
    assert_eq!(writer.take_written_file(), Some("app.pid".to_owned()));
    assert_eq!(writer.take_written_file(), None);
}

#[test]
fn reads_the_environment_variables_of_the_process() {
    assert_eq!(variable_value(Some("/run/app.pid".to_owned())), Some("/run/app.pid".to_owned()));
    assert_eq!(variable_value(Some(" ".to_owned())), None);
    assert_eq!(variable_value(None), None);
}

#[test]
fn names_the_file_that_cannot_be_created() {
    assert_eq!(failure_message("/x/app.pid"), "Cannot create pid file /x/app.pid");
}

#[test]
fn creates_the_ids_of_the_child_contexts() {
    let parent = ContextId::new("app".to_owned());
    let clone = parent.clone();

    let first = parent.create_child_id();
    let second = clone.create_child_id();
    let third = parent.create_child_id();

    assert_eq!(first.get_id(), "app-1");
    assert_eq!(second.get_id(), "app-2");
    assert_eq!(third.get_id(), "app-3");
    assert_eq!(parent.get_id(), "app");
    assert_eq!(first.create_child_id().get_id(), "app-1-1");
    assert_eq!(child_id("app", 7), "app-7");
}

#[test]
fn uses_the_application_name_or_a_default_id() {
    assert_eq!(application_id(Some("demo".to_owned())), "demo");
    assert_eq!(application_id(Some("  ".to_owned())), "application");
    assert_eq!(application_id(None), "application");

    let no_parent: Option<ContextId> = None;
    assert_eq!(context_id_for(&no_parent, Some("demo".to_owned())).get_id(), "demo");

    let parent = Some(ContextId::new("root".to_owned()));
    assert_eq!(context_id_for(&parent, Some("demo".to_owned())).get_id(), "root-1");
    assert_eq!(context_id_for(&parent, None).get_id(), "root-2");
}

#[test]
fn orders_the_initializer_late() {
    let mut initializer = ContextIdApplicationContextInitializer::new();
    assert_eq!(initializer.order(), i32::MAX - 10);

    initializer.set_order(5);

    assert_eq!(initializer.order(), 5);
}

#[test]
fn the_application_is_named_by_its_documented_property() {
    assert_eq!(APPLICATION_NAME_PROPERTY, "spring.application.name");
}
