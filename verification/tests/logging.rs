use next_web::logging::handler::{
    destination, dropped_records_warning, filter_directives, level_warning, trim_directives,
    LogDestination,
};
use next_web::logging::properties::{
    directory_from, parse_level, stem_of, suffix_of, LogLevel, LogRotation, LoggingFileProperties, LoggingProperties,
    DEFAULT_DATE_FORMAT, DEFAULT_FILE_STEM, DEFAULT_FILE_SUFFIX,
};
use next_web::logging::rolling::{
    newest_first, parse_size, period_start, records_end, LogFile, LogPeriod, LogTimeZone, RollState,
    RollingPolicy,
};
use next_web::logging::warnings::WarningReporter;

fn levels(pairs: &[(&str, &str)]) -> Vec<(String, String)> {
    pairs
        .iter()
        .map(|(k, v)| ((*k).to_owned(), (*v).to_owned()))
        .collect()
}

fn properties(level: Option<&str>, pairs: &[(&str, &str)], filter: Option<&str>) -> LoggingProperties {
    let mut properties = LoggingProperties::default();
    properties.level = level.map(ToOwned::to_owned);
    properties.levels = levels(pairs);
    properties.filter = filter.map(ToOwned::to_owned);
    properties
}

fn file_in(directory: &str) -> LoggingFileProperties {
    let mut file = LoggingFileProperties::default();
    file.path = Some(directory.to_owned());
    file
}

fn policy(configure: impl FnOnce(&mut LoggingFileProperties)) -> RollingPolicy {
    let mut file = file_in("./logs");
    configure(&mut file);
    let mut warnings = Vec::new();
    RollingPolicy::resolve(&file, &mut warnings)
}

fn period() -> LogPeriod {
    LogPeriod { year: 2026, month: 9, day: 26, hour: 14, minute: 30 }
}

#[test]
fn parses_the_levels() {
    assert_eq!(parse_level("TRACE"), Some(LogLevel::Trace));
    assert_eq!(parse_level(" Debug "), Some(LogLevel::Debug));
    assert_eq!(parse_level("info"), Some(LogLevel::Info));
    assert_eq!(parse_level("warn"), Some(LogLevel::Warn));
    assert_eq!(parse_level("warning"), Some(LogLevel::Warn));
    assert_eq!(parse_level("error"), Some(LogLevel::Error));
}

#[test]
fn defaults_the_level_of_an_unknown_name() {
    assert_eq!(parse_level("verbose"), None);
    assert_eq!(properties(Some("verbose"), &[], None).level(), LogLevel::Info);
}

#[test]
fn parses_the_rotations() {
    assert_eq!(LogRotation::parse("never"), Some(LogRotation::Never));
    assert_eq!(LogRotation::parse("MINUTELY"), Some(LogRotation::Minutely));
    assert_eq!(LogRotation::parse("hourly"), Some(LogRotation::Hourly));
    assert_eq!(LogRotation::parse("daily"), Some(LogRotation::Daily));
    assert_eq!(LogRotation::parse("weekly"), Some(LogRotation::Weekly));
    assert_eq!(LogRotation::parse("monthly"), None);
}

#[test]
fn defaults_the_rotation_of_an_unknown_name() {
    let mut file = file_in("./logs");
    file.rotation = Some("monthly".to_owned());

    assert_eq!(file.rotation(), LogRotation::Daily);
}

#[test]
fn defaults_the_missing_properties() {
    let properties = LoggingProperties::default();

    assert_eq!(properties.level(), LogLevel::Info);
    assert!(properties.console());
    assert!(properties.ansi(false));
    assert_eq!(properties.date_format(), DEFAULT_DATE_FORMAT);
    assert!(properties.file().is_none());
}

#[test]
fn reads_the_directives_of_the_levels_of_the_loggers() {
    let properties = properties(Some("info"), &[("sqlx", "warn"), ("next_web", "debug")], None);
    let mut warnings = Vec::new();

    let directives = properties.level_directives(&mut warnings);

    assert!(warnings.is_empty(), "unexpected warnings: {warnings:?}");
    assert_eq!(directives, "info,sqlx=warn,next_web=debug");
}

#[test]
fn lowers_the_names_of_the_loggers_of_environment_variables() {
    let properties = properties(Some("info"), &[("SQLX", "warn")], None);
    let mut warnings = Vec::new();

    assert_eq!(properties.level_directives(&mut warnings), "info,sqlx=warn");
    assert!(warnings.is_empty());
}

#[test]
fn uses_the_level_of_the_logging_functionality_when_no_logger_is_configured() {
    let properties = properties(Some("WARN"), &[], None);
    let mut warnings = Vec::new();

    assert_eq!(properties.level_directives(&mut warnings), "warn");
    assert!(warnings.is_empty(), "unexpected warnings: {warnings:?}");
}

#[test]
fn reads_the_filter_instead_of_the_levels_of_the_loggers() {
    let properties = properties(Some("info"), &[("sqlx", "warn")], Some("error,next_web[request]=trace"));
    let mut warnings = Vec::new();

    assert_eq!(
        properties.level_directives(&mut warnings),
        "error,next_web[request]=trace"
    );
    assert!(warnings.is_empty(), "unexpected warnings: {warnings:?}");
}

#[test]
fn reports_the_levels_of_the_loggers_that_cannot_be_read() {
    let properties = properties(
        Some("info"),
        &[("sqlx", "verbose"), ("logger=with=equals", "warn")],
        None,
    );
    let mut warnings = Vec::new();
    let directives = properties.level_directives(&mut warnings);

    assert_eq!(directives, "info");
    assert_eq!(warnings.len(), 2, "unexpected warnings: {warnings:?}");
    assert!(warnings.iter().any(|warning| warning.contains("verbose")));
    assert!(warnings
        .iter()
        .any(|warning| warning.contains("logger=with=equals")));
}

#[test]
fn falls_back_to_the_level_when_the_directives_cannot_be_read() {
    let properties = properties(Some("warn"), &[], Some("[[["));
    let mut warnings = Vec::new();

    assert_eq!(filter_directives(&properties, &mut warnings), "warn");
    assert_eq!(warnings.len(), 1);
    assert!(warnings[0].contains("[[["));
}

#[test]
fn keeps_the_directives_that_can_be_read() {
    let properties = properties(Some("info"), &[("sqlx", "warn")], None);
    let mut warnings = Vec::new();

    assert_eq!(filter_directives(&properties, &mut warnings), "info,sqlx=warn");
    assert!(warnings.is_empty());
}

#[test]
fn warns_of_an_unknown_level() {
    assert_eq!(
        level_warning(&properties(Some("loud"), &[], None)),
        Some("unknown log level 'loud', using info".to_owned())
    );
    assert_eq!(level_warning(&properties(Some("debug"), &[], None)), None);
    assert_eq!(level_warning(&properties(None, &[], None)), None);
}

#[test]
fn generates_the_log_file_of_a_directory() {
    let mut properties = LoggingProperties::default();
    properties.file = Some(file_in("./logs"));
    let file = properties.file().unwrap();

    assert_eq!(file.directory(), "./logs");
    assert_eq!(file.stem(), DEFAULT_FILE_STEM);
    assert_eq!(file.suffix(), DEFAULT_FILE_SUFFIX);
    assert_eq!(file.rotation(), LogRotation::Daily);
}

#[test]
fn prefers_the_name_over_the_path() {
    let mut file = file_in("./logs");
    file.name = Some("/var/log/app/next.log".to_owned());

    assert_eq!(file.directory(), "/var/log/app");
    assert_eq!(file.stem(), "next");
    assert_eq!(file.suffix(), "log");
}

#[test]
fn resolves_the_directory_of_a_name_that_has_none() {
    let mut file = file_in("./logs");
    file.name = Some("application.log".to_owned());

    assert_eq!(file.directory(), "./logs");
    assert_eq!(file.stem(), "application");
}

#[test]
fn resolves_the_directory_of_a_name_without_a_path() {
    let mut file = LoggingFileProperties::default();
    file.name = Some("application.log".to_owned());

    assert_eq!(file.directory(), ".");
    assert_eq!(file.stem(), "application");
}

#[test]
fn ignores_the_file_properties_that_hold_no_file() {
    let mut file = LoggingFileProperties::default();
    file.rotation = Some("hourly".to_owned());
    let mut properties = LoggingProperties::default();
    properties.file = Some(file);

    assert!(properties.file().is_none());
}

#[test]
fn defaults_the_rolling_properties() {
    let file = file_in("./logs");

    assert_eq!(file.max_file_size(), None);
    assert_eq!(file.total_size_cap(), None);
    assert_eq!(file.file_date_format(), None);
    assert_eq!(file.timezone(), None);
    assert!(!file.roll_on_start());
}

#[test]
fn reads_the_sizes_of_the_units() {
    assert_eq!(parse_size("1024"), Some(1024));
    assert_eq!(parse_size("10B"), Some(10));
    assert_eq!(parse_size("10KB"), Some(10 * 1024));
    assert_eq!(parse_size("10kb"), Some(10 * 1024));
    assert_eq!(parse_size("10 KiB"), Some(10 * 1024));
    assert_eq!(parse_size("10MB"), Some(10 * 1024 * 1024));
    assert_eq!(parse_size("1GB"), Some(1024 * 1024 * 1024));
    assert_eq!(parse_size("1TB"), Some(1024 * 1024 * 1024 * 1024));
    assert_eq!(parse_size("10XB"), None);
    assert_eq!(parse_size("MB"), None);
    assert_eq!(parse_size(""), None);
}

#[test]
fn rejects_the_sizes_that_do_not_fit() {
    assert_eq!(parse_size("18446744073709551615"), Some(u64::MAX));
    assert_eq!(parse_size("18446744073709551616"), None);
    assert_eq!(parse_size("16777216TB"), None);
}

#[test]
fn reads_the_time_zones() {
    assert_eq!(LogTimeZone::parse("local"), Some(LogTimeZone::Local));
    assert_eq!(LogTimeZone::parse("UTC"), Some(LogTimeZone::Utc));
    assert_eq!(
        LogTimeZone::parse("Asia/Shanghai"),
        Some(LogTimeZone::Named("Asia/Shanghai".to_owned()))
    );
    assert_eq!(LogTimeZone::parse("Tomorrow/Land"), None);
}

#[test]
fn reports_the_values_that_cannot_be_read() {
    let mut file = file_in("./logs");
    file.timezone = Some("Tomorrow/Land".to_owned());
    file.max_file_size = Some("big".to_owned());
    file.total_size_cap = Some("huge".to_owned());
    let mut warnings = Vec::new();

    let policy = RollingPolicy::resolve(&file, &mut warnings);

    assert_eq!(policy.time_zone(), LogTimeZone::Local);
    assert_eq!(policy.max_file_size(), None);
    assert_eq!(policy.total_size_cap(), None);
    assert_eq!(warnings.len(), 3, "unexpected warnings: {warnings:?}");
    assert!(warnings[0].contains("Tomorrow/Land"));
    assert!(warnings[1].contains("big"));
    assert!(warnings[2].contains("huge"));
}

#[test]
fn names_the_files_of_every_rotation() {
    for (rotation, name) in [
        ("never", "next.log"),
        ("minutely", "next_20260926_1430.log"),
        ("hourly", "next_20260926_14.log"),
        ("daily", "next_20260926.log"),
        ("weekly", "next_20260926.log"),
    ] {
        let policy = policy(|file| file.rotation = Some(rotation.to_owned()));
        let period = match policy.rotation() {
            LogRotation::Never => None,
            _ => Some(period()),
        };

        assert_eq!(policy.file_name(period, 0).unwrap(), name, "rotation: {rotation}");
    }
}

#[test]
fn names_the_files_with_a_number_when_the_files_are_split() {
    let policy = policy(|file| {
        file.rotation = Some("daily".to_owned());
        file.max_file_size = Some("10MB".to_owned());
    });
    let period = LogPeriod { year: 2026, month: 9, day: 26, hour: 0, minute: 0 };

    assert!(policy.uses_index());
    assert_eq!(policy.file_name(Some(period), 0).unwrap(), "next_20260926_0.log");
    assert_eq!(policy.file_name(Some(period), 1).unwrap(), "next_20260926_1.log");
}

#[test]
fn names_the_files_with_the_format_of_the_property() {
    let policy = policy(|file| {
        file.rotation = Some("daily".to_owned());
        file.date_format = Some("%Y_%m_%d".to_owned());
    });
    let period = LogPeriod { year: 2026, month: 9, day: 26, hour: 0, minute: 0 };

    assert_eq!(policy.file_name(Some(period), 0).unwrap(), "next_2026_09_26.log");
    assert_eq!(policy.file_prefix(Some(period)).unwrap(), "next_2026_09_26");
}

#[test]
fn cannot_name_the_files_of_a_pattern_that_cannot_be_written() {
    let policy = policy(|file| file.date_format = Some("%Q".to_owned()));

    assert_eq!(policy.file_prefix(Some(period())), None);
    assert_eq!(policy.file_name(None, 0).unwrap(), "next.log");
}

#[test]
fn reads_the_number_of_the_file_of_a_period() {
    let policy = policy(|file| {
        file.rotation = Some("daily".to_owned());
        file.max_file_size = Some("10MB".to_owned());
    });
    let period = LogPeriod { year: 2026, month: 9, day: 26, hour: 0, minute: 0 };

    assert_eq!(policy.file_prefix(Some(period)).unwrap(), "next_20260926");
    assert_eq!(policy.file_index(Some(period), "next_20260926_2.log"), Some(2));
    assert_eq!(policy.file_index(Some(period), "next_20260925_2.log"), None);
    assert_eq!(policy.file_index(Some(period), "next.log"), None);
    assert_eq!(policy.file_index(Some(period), "application.log"), None);
}

#[test]
fn does_not_match_the_files_that_are_not_log_files_of_the_policy() {
    let policy = policy(|file| file.rotation = Some("daily".to_owned()));

    assert!(policy.matches("next.log"));
    assert!(policy.matches("next_20260926.log"));
    assert!(policy.matches("next_20260926_1.log"));
    assert!(!policy.matches("next_notes.log"));
    assert!(!policy.matches("next_20260926.txt"));
    assert!(!policy.matches("other_20260926.log"));
}

#[test]
fn keeps_the_number_of_the_files_of_the_history() {
    let policy = policy(|file| file.max_history = Some(2));
    let files = vec![
        LogFile::new("logs/next_4.log".to_owned(), 10, None),
        LogFile::new("logs/next_3.log".to_owned(), 10, None),
        LogFile::new("logs/next_2.log".to_owned(), 10, None),
        LogFile::new("logs/next_1.log".to_owned(), 10, None),
    ];

    let removed = policy.files_to_remove(&files, Some("logs/next_4.log"), 10);

    assert_eq!(removed, vec!["logs/next_1.log".to_owned()]);
}

#[test]
fn keeps_the_total_size_of_the_history_below_the_cap() {
    let policy = policy(|file| file.total_size_cap = Some("100".to_owned()));
    let files = vec![
        LogFile::new("a".to_owned(), 40, None),
        LogFile::new("b".to_owned(), 40, None),
        LogFile::new("c".to_owned(), 10, None),
    ];

    let removed = policy.files_to_remove(&files, None, 30);

    assert_eq!(removed, vec!["b".to_owned()]);
}

#[test]
fn keeps_the_file_that_is_written_to() {
    let policy = policy(|file| file.max_history = Some(0));
    let files = vec![LogFile::new("active".to_owned(), 5, None), LogFile::new("old".to_owned(), 5, None)];

    let removed = policy.files_to_remove(&files, Some("active"), 5);

    assert_eq!(removed, vec!["old".to_owned()]);
}

#[test]
fn keeps_every_file_without_a_history_or_a_cap() {
    let policy = policy(|_| {});
    let files = vec![LogFile::new("a".to_owned(), u64::MAX, None), LogFile::new("b".to_owned(), 1, None)];

    assert!(policy.files_to_remove(&files, None, 0).is_empty());
}

#[test]
fn reports_the_warnings_of_the_thread_that_logs_them() {
    let (reporter, warnings) = WarningReporter::channel();

    reporter.report("the first warning");
    reporter.report("the second warning");

    assert_eq!(warnings.try_recv().as_deref(), Ok("the first warning"));
    assert_eq!(warnings.try_recv().as_deref(), Ok("the second warning"));
    assert!(warnings.try_recv().is_err());
}

#[test]
fn drops_the_warnings_that_no_thread_logs() {
    let (reporter, warnings) = WarningReporter::channel();

    drop(warnings);

    reporter.report("a warning of a closed channel");
}

#[test]
fn drops_the_warnings_of_a_reporter_that_holds_no_thread() {
    WarningReporter::none().report("a warning of a reporter without a thread");
}

#[test]
fn reports_the_records_that_were_dropped() {
    assert_eq!(dropped_records_warning(0), None);

    let warning = dropped_records_warning(3).unwrap();

    assert!(warning.contains('3'), "unexpected warning: {warning}");
    assert_eq!(
        dropped_records_warning(120).unwrap(),
        "the logging functionality dropped 120 records, the records of the application are written faster than the records of the log file"
    );
}

#[test]
fn writes_the_records_where_they_are_wanted() {
    assert_eq!(destination(true, false, false), Some(LogDestination::Console));
    assert_eq!(destination(true, true, true), Some(LogDestination::ConsoleAndFile));
    assert_eq!(destination(false, true, true), Some(LogDestination::File));
    assert_eq!(destination(true, true, false), Some(LogDestination::Console));
    assert_eq!(destination(false, true, false), None);
    assert_eq!(destination(false, false, false), None);
}

#[test]
fn the_history_lists_the_newest_files_first() {
    let files = vec![
        LogFile::new("logs/next_1.log".to_owned(), 1, Some(100)),
        LogFile::new("logs/unknown.log".to_owned(), 2, None),
        LogFile::new("logs/next_3.log".to_owned(), 3, Some(300)),
        LogFile::new("logs/next_2a.log".to_owned(), 4, Some(200)),
        LogFile::new("logs/next_2b.log".to_owned(), 5, Some(200)),
        LogFile::new("logs/before_epoch.log".to_owned(), 6, Some(-5)),
    ];

    let sorted = newest_first(files);
    let ordered: Vec<&str> = sorted.iter().map(|f| f.path()).collect();

    assert_eq!(
        ordered,
        vec![
            "logs/next_3.log",
            "logs/next_2b.log",
            "logs/next_2a.log",
            "logs/next_1.log",
            "logs/before_epoch.log",
            "logs/unknown.log",
        ]
    );
}

fn names(names: &[&str]) -> Vec<String> {
    names.iter().map(|name| (*name).to_owned()).collect()
}

#[test]
fn a_writer_continues_with_the_highest_number_of_the_period() {
    let policy = policy(|file| {
        file.rotation = Some("daily".to_owned());
        file.max_file_size = Some("10MB".to_owned());
    });
    let period = Some(LogPeriod { year: 2026, month: 9, day: 26, hour: 0, minute: 0 });
    let existing = names(&["next_20260926_2.log", "next_20260926_7.log", "next_20260925_9.log", "other.log"]);

    assert_eq!(policy.start_index(period, &existing), 7);
    assert_eq!(policy.start_index(period, &names(&["other.log"])), 0);
    assert_eq!(policy.start_index(period, &Vec::new()), 0);
}

#[test]
fn a_writer_that_rolls_on_start_takes_the_next_number() {
    let policy = policy(|file| {
        file.rotation = Some("daily".to_owned());
        file.roll_on_start = Some(true);
    });
    let period = Some(LogPeriod { year: 2026, month: 9, day: 26, hour: 0, minute: 0 });

    assert_eq!(policy.start_index(period, &names(&["next_20260926_3.log"])), 4);
}

#[test]
fn files_that_are_not_numbered_always_start_at_zero() {
    let policy = policy(|file| file.rotation = Some("daily".to_owned()));
    let period = Some(LogPeriod { year: 2026, month: 9, day: 26, hour: 0, minute: 0 });

    assert_eq!(policy.start_index(period, &names(&["next_20260926_3.log"])), 0);
}

#[test]
fn a_writer_rolls_on_a_new_period_and_on_a_full_file() {
    let policy = policy(|file| {
        file.rotation = Some("daily".to_owned());
        file.max_file_size = Some("100B".to_owned());
    });
    let today = Some(LogPeriod { year: 2026, month: 9, day: 26, hour: 0, minute: 0 });
    let tomorrow = Some(LogPeriod { year: 2026, month: 9, day: 27, hour: 0, minute: 0 });
    let state = RollState { period: today, index: 3, bytes: 90 };

    assert!(!policy.should_roll(&state, today, 10));
    assert!(policy.should_roll(&state, today, 11));
    assert!(policy.should_roll(&state, tomorrow, 1));
    assert!(!policy.should_roll(&RollState { period: today, index: 0, bytes: 0 }, today, 1_000));

    assert_eq!(policy.next_index(&state, today), 4);
    assert_eq!(policy.next_index(&state, tomorrow), 0);
    assert_eq!(policy.next_index(&RollState { period: today, index: usize::MAX, bytes: 1 }, today), usize::MAX);
}

#[test]
fn a_record_is_complete_once_its_line_feed_is_written() {
    assert_eq!(records_end(&b"first\nsecond\nthi".to_vec()), Some(13));
    assert_eq!(records_end(&b"first\n".to_vec()), Some(6));
    assert_eq!(records_end(&b"partial".to_vec()), None);
    assert_eq!(records_end(&Vec::new()), None);
}

#[test]
fn the_stem_and_the_extension_come_from_the_last_dot_of_the_file_name() {
    let name = |n: &str| Some(n.to_owned());

    assert_eq!(stem_of(name("app.log")), "app");
    assert_eq!(suffix_of(name("app.log")), "log");
    assert_eq!(stem_of(name("archive.tar.gz")), "archive.tar");
    assert_eq!(suffix_of(name("archive.tar.gz")), "gz");
    assert_eq!(stem_of(name(".hidden")), ".hidden");
    assert_eq!(suffix_of(name(".hidden")), "log");
    assert_eq!(stem_of(name("plain")), "plain");
    assert_eq!(suffix_of(name("plain")), "log");
    assert_eq!(stem_of(name("dot.")), "dot");
    assert_eq!(suffix_of(name("dot.")), "log");
    assert_eq!(stem_of(None), "next");
    assert_eq!(suffix_of(None), "log");
}

#[test]
fn an_empty_directory_of_the_name_falls_back_to_the_path() {
    let path = Some("./logs".to_owned());

    assert_eq!(directory_from(Some(String::new()), &path), "./logs");
    assert_eq!(directory_from(Some(String::new()), &None), ".");
    assert_eq!(directory_from(Some("/var/log".to_owned()), &path), "/var/log");
    assert_eq!(directory_from(None, &path), "./logs");
}

#[test]
fn trims_each_directive_of_the_filter() {
    assert_eq!(trim_directives(" a = b , c"), "a = b,c");
    assert_eq!(trim_directives("info"), "info");
    assert_eq!(trim_directives(""), "");
}

#[test]
fn reads_a_directive_that_starts_with_a_space_and_a_wide_character() {
    let properties = properties(Some("warn"), &[], Some(" \u{e9}=info"));
    let mut warnings = Vec::new();

    assert_eq!(filter_directives(&properties, &mut warnings), "\u{e9}=info");
    assert!(warnings.is_empty(), "unexpected warnings: {warnings:?}");
}

#[test]
fn takes_the_directory_and_the_file_name_of_a_relative_name() {
    let mut file = file_in("./logs");
    file.name = Some("logs/app.txt".to_owned());

    assert_eq!(file.directory(), "logs");
    assert_eq!(file.stem(), "app");
    assert_eq!(file.suffix(), "txt");
}

#[test]
fn takes_the_root_as_the_directory_of_a_name_directly_under_it() {
    let mut file = file_in("./logs");
    file.name = Some("/next.log".to_owned());

    assert_eq!(file.directory(), "/");
    assert_eq!(file.stem(), "next");
    assert_eq!(file.suffix(), "log");
}

#[test]
fn rounds_the_time_to_the_start_of_the_period_of_the_rotation() {
    let now = LogPeriod { year: 2026, month: 9, day: 26, hour: 14, minute: 30 };

    assert_eq!(policy(|file| file.rotation = Some("never".to_owned())).period_of(now), None);
    assert_eq!(policy(|file| file.rotation = Some("minutely".to_owned())).period_of(now), Some(now));
    assert_eq!(
        policy(|file| file.rotation = Some("hourly".to_owned())).period_of(now),
        Some(LogPeriod { minute: 0, ..now })
    );
    assert_eq!(
        policy(|file| file.rotation = Some("daily".to_owned())).period_of(now),
        Some(LogPeriod { hour: 0, minute: 0, ..now })
    );
    assert_eq!(
        policy(|file| file.rotation = Some("weekly".to_owned())).period_of(now),
        Some(LogPeriod { year: 2026, month: 9, day: 21, hour: 0, minute: 0 })
    );
}

#[test]
fn a_week_starts_on_its_monday_across_months_and_years() {
    let weekly = policy(|file| file.rotation = Some("weekly".to_owned()));

    assert_eq!(
        weekly.period_of(LogPeriod { year: 2026, month: 1, day: 1, hour: 8, minute: 5 }),
        Some(LogPeriod { year: 2025, month: 12, day: 29, hour: 0, minute: 0 })
    );
    assert_eq!(
        weekly.period_of(LogPeriod { year: 2026, month: 3, day: 1, hour: 0, minute: 0 }),
        Some(LogPeriod { year: 2026, month: 2, day: 23, hour: 0, minute: 0 })
    );
}

#[test]
fn a_week_without_a_monday_starts_on_its_day() {
    let now = LogPeriod { year: 2026, month: 9, day: 26, hour: 14, minute: 30 };

    assert_eq!(
        period_start(LogRotation::Weekly, now, None),
        Some(LogPeriod { hour: 0, minute: 0, ..now })
    );
    assert_eq!(
        period_start(LogRotation::Weekly, now, Some((2026, 9, 21))),
        Some(LogPeriod { year: 2026, month: 9, day: 21, hour: 0, minute: 0 })
    );
    assert_eq!(period_start(LogRotation::Daily, now, Some((2026, 9, 21))), Some(LogPeriod { hour: 0, minute: 0, ..now }));
}

#[test]
fn takes_the_directory_of_a_name_relative_to_the_working_directory() {
    let mut file = file_in("/srv");
    file.name = Some("./logs/next.log".to_owned());

    assert_eq!(file.directory(), "./logs");
    assert_eq!(file.stem(), "next");
    assert_eq!(file.suffix(), "log");

    file.name = Some("./app.txt".to_owned());
    assert_eq!(file.directory(), ".");
    assert_eq!(file.stem(), "app");
}

#[test]
fn takes_the_parent_directory_of_a_name_that_climbs() {
    let mut file = file_in("/srv");
    file.name = Some("../logs/next.log".to_owned());
    assert_eq!(file.directory(), "../logs");
    assert_eq!(file.stem(), "next");

    file.name = Some("logs/..".to_owned());
    assert_eq!(file.directory(), "logs");
    assert_eq!(file.stem(), DEFAULT_FILE_STEM);
    assert_eq!(file.suffix(), DEFAULT_FILE_SUFFIX);
}
