use next_web::diagnostics::{
    failure_message, first_analysis, DefaultErrorAnalyzer, ErrorAnalysis, FailureAnalysis,
    LoggingErrorAnalysisReporter, LoggingFailureAnalysisReporter, PortInUseErrorAnalyzer,
    SingletonDefinitionOverrideErrorAnalyzer, SingletonDefinitionOverrideFailureAnalyzer,
};

#[test]
fn builds_an_analysis() {
    let analysis: ErrorAnalysis<&str> = ErrorAnalysis::new("Connection refused", None, None)
        .with_action("Check if the Redis server is running")
        .with_cause("refused");

    assert_eq!(analysis.description(), "Connection refused");
    assert_eq!(analysis.action(), Some("Check if the Redis server is running"));
    assert_eq!(analysis.cause(), Some(&"refused"));
}

#[test]
fn builds_a_failure_analysis() {
    let analysis: FailureAnalysis<String> =
        FailureAnalysis::new("Failed to load", Some("Ensure the file exists"), Some("missing".to_owned()));

    assert_eq!(analysis.description(), "Failed to load");
    assert_eq!(analysis.action(), Some("Ensure the file exists"));
    assert_eq!(analysis.into_cause(), Some("missing".to_owned()));
}

#[test]
fn reports_the_description_and_the_action() {
    let message = failure_message("It broke", Some("Fix it"));

    assert_eq!(
        message,
        "\n\n***************************\nAPPLICATION FAILED TO START\n***************************\n\nDescription:\n\nIt broke\n\nAction:\n\nFix it\n"
    );
    assert!(!failure_message("It broke", Some("")).contains("Action"));
    assert!(!failure_message("It broke", None).contains("Action"));
}

#[test]
fn the_reporters_build_the_same_message() {
    let error: ErrorAnalysis<()> = ErrorAnalysis::new("d", Some("a"), None);
    let failure: FailureAnalysis<()> = FailureAnalysis::new("d", Some("a"), None);

    assert_eq!(
        LoggingErrorAnalysisReporter.build_message(&error),
        LoggingFailureAnalysisReporter.build_message(&failure)
    );
}

#[test]
fn analyzes_an_address_in_use() {
    let analysis = PortInUseErrorAnalyzer.analysis("8080", 1);

    assert_eq!(
        analysis.description(),
        "Web server failed to start. Port 8080 was already in use."
    );
    assert!(analysis.action().unwrap().contains("port 8080"));
    assert_eq!(analysis.cause(), Some(&1));
}

#[test]
fn analyzes_any_error_by_its_message() {
    let analysis = DefaultErrorAnalyzer.analysis("boom".to_owned(), "cause");

    assert_eq!(analysis.description(), "boom");
    assert_eq!(analysis.action(), None);
}

#[test]
fn analyzes_singleton_overrides() {
    let error: ErrorAnalysis<()> = SingletonDefinitionOverrideErrorAnalyzer.analysis();
    let failure: FailureAnalysis<()> = SingletonDefinitionOverrideFailureAnalyzer.analysis();

    assert_eq!(error.description(), "Singleton definition override error");
    assert_eq!(failure.description(), "Singleton definition override failure");
    assert_eq!(error.action(), failure.action());
}

#[test]
fn takes_the_first_analysis() {
    assert_eq!(first_analysis(vec![None, Some(2), Some(3)]), Some(2));
    assert_eq!(first_analysis::<i32>(vec![None, None]), None);
    assert_eq!(first_analysis::<i32>(Vec::new()), None);
}
