use next_web::arguments::{arguments_well_formed, DefaultApplicationArguments};

fn args(items: &[&str]) -> Vec<String> {
    items.iter().map(|s| s.to_string()).collect()
}

#[test]
fn parses_option_with_value() {
    let arguments = DefaultApplicationArguments::new(args(&["--foo=bar"]));
    assert!(arguments.contains_option("foo"));
    assert_eq!(arguments.option_values("foo"), Some(vec!["bar".to_string()]));
    assert!(arguments.non_option_args().is_empty());
}

#[test]
fn parses_flag_option_without_value() {
    let arguments = DefaultApplicationArguments::new(args(&["--debug"]));
    assert!(arguments.contains_option("debug"));
    assert_eq!(arguments.option_values("debug"), Some(Vec::new()));
}

#[test]
fn parses_repeated_option_values() {
    let arguments = DefaultApplicationArguments::new(args(&["--foo=bar", "--foo=baz"]));
    assert_eq!(
        arguments.option_values("foo"),
        Some(vec!["bar".to_string(), "baz".to_string()])
    );
}

#[test]
fn missing_option_returns_none() {
    let arguments = DefaultApplicationArguments::new(args(&["--foo=bar"]));
    assert!(!arguments.contains_option("missing"));
    assert_eq!(arguments.option_values("missing"), None);
}

#[test]
fn collects_non_option_args() {
    let arguments = DefaultApplicationArguments::new(args(&["first", "--foo=bar", "second"]));
    assert_eq!(
        arguments.non_option_args(),
        &["first".to_string(), "second".to_string()][..]
    );
}

#[test]
fn exposes_source_args() {
    let raw = args(&["--foo=bar", "file.txt"]);
    let arguments = DefaultApplicationArguments::new(raw.clone());
    assert_eq!(arguments.source_args(), raw.as_slice());
}

#[test]
fn ends_the_options_at_a_double_dash() {
    let arguments = DefaultApplicationArguments::new(args(&["--foo=bar", "--", "--opt1=ignored", "-opt2", "filename"]));
    assert_eq!(arguments.option_values("foo"), Some(vec!["bar".to_string()]));
    assert!(!arguments.contains_option("opt1"));
    assert_eq!(arguments.non_option_args(), &args(&["--opt1=ignored", "-opt2", "filename"])[..]);
}

#[test]
fn keeps_an_empty_value_and_splits_at_the_first_equals_sign() {
    let arguments = DefaultApplicationArguments::new(args(&["--foo=", "--bar=a=b"]));
    assert_eq!(arguments.option_values("foo"), Some(vec![String::new()]));
    assert_eq!(arguments.option_values("bar"), Some(vec!["a=b".to_string()]));
    let mut names = arguments.option_names();
    names.sort();
    assert_eq!(names, args(&["bar", "foo"]));
}

#[test]
fn refuses_an_option_without_a_name() {
    assert!(!arguments_well_formed(&args(&["--=x"])));
    assert!(arguments_well_formed(&args(&["--", "--=x"])));
    assert!(DefaultApplicationArguments::parse(args(&["--=x"])).is_none());
    assert!(DefaultApplicationArguments::parse(args(&["a", "--b"])).is_some());
}
