use next_web::properties::name::ConfigurationPropertyName;
use next_web::properties::resolver::ConfigurationPropertySourcesPropertyResolver;
use next_web::properties::source::{
    ConfigurationProperty, ConfigurationPropertySourcesPropertySource,
    NextConfigurationPropertySource, NextConfigurationPropertySources, PropertySource,
};
use next_web::properties::sources::ConfigurationPropertySources;

fn source(name: &str, pairs: &[(&str, &str)]) -> PropertySource {
    PropertySource::new(
        name.to_owned(),
        pairs
            .iter()
            .map(|(key, value)| ((*key).to_owned(), (*value).to_owned()))
            .collect(),
    )
}

fn resolver(properties: &[(&str, &str)]) -> ConfigurationPropertySourcesPropertyResolver {
    let sources = vec![source("test", properties)];
    ConfigurationPropertySourcesPropertyResolver::new(NextConfigurationPropertySources::new(&sources))
}

#[test]
fn creates_valid_names() {
    let name = ConfigurationPropertyName::of("next.datasource.url").unwrap();

    assert_eq!(name.as_str(), "next.datasource.url");
    assert_eq!(
        name.elements(),
        &vec![
            "next".to_owned(),
            "datasource".to_owned(),
            "url".to_owned()
        ]
    );
    assert_eq!(name.number_of_elements(), 3);
    assert_eq!(name.to_string(), "next.datasource.url");
}

#[test]
fn accepts_digits_and_dashes() {
    assert!(ConfigurationPropertyName::is_valid("server.http2.enabled"));
    assert!(ConfigurationPropertyName::is_valid("a1.b-c2"));
}

#[test]
fn rejects_invalid_names() {
    for name in [
        "",
        ".",
        "next..url",
        "Next.Url",
        "1next",
        "next.url_",
        "-url",
    ] {
        assert!(
            ConfigurationPropertyName::of(name).is_err(),
            "'{name}' should be invalid"
        );
        assert!(!ConfigurationPropertyName::is_valid(name));
    }
}

#[test]
fn reports_the_invalid_name() {
    let error = ConfigurationPropertyName::of("Next.Url").unwrap_err();

    assert_eq!(error.invalid_name(), "Next.Url");
    assert!(error.to_string().contains("Next.Url"));
}

#[test]
fn exposes_name_and_value() {
    let name = ConfigurationPropertyName::of("next.application.name").unwrap();
    let property = ConfigurationProperty::new(name.copy(), "demo".to_owned());

    assert_eq!(property.name().as_str(), name.as_str());
    assert_eq!(property.get_value(), "demo");
}

#[test]
fn adapts_properties_of_the_underlying_source() {
    let source = source("test", &[("next.application.name", "demo")]);
    let adapted = NextConfigurationPropertySource::from(&source).unwrap();

    assert_eq!(adapted.property_names(), vec!["next.application.name"]);
    assert!(adapted.contains_property("next.application.name"));
    let name = ConfigurationPropertyName::of("next.application.name").unwrap();
    let property = adapted.get_configuration_property(&name).unwrap();
    assert_eq!(property.name().as_str(), name.as_str());
    assert_eq!(property.get_value(), "demo");
}

#[test]
fn returns_none_for_unknown_property() {
    let source = source("test", &[("next.application.name", "demo")]);
    let adapted = NextConfigurationPropertySource::from(&source).unwrap();
    let name = ConfigurationPropertyName::of("next.application.version").unwrap();

    assert!(adapted.get_configuration_property(&name).is_none());
}

#[test]
fn does_not_adapt_stub_sources() {
    let source = PropertySource::stub("stub".to_owned());

    assert!(NextConfigurationPropertySource::from(&source).is_none());
}

#[test]
fn adapts_included_sources() {
    let sources = vec![
        source("first", &[("next.application.name", "demo")]),
        source("second", &[("next.application.version", "1.0.0")]),
    ];

    let adapted = NextConfigurationPropertySources::new(&sources);

    assert_eq!(adapted.len(), 2);
    assert!(!adapted.is_empty());
    assert!(adapted.is_using_sources(&sources));
}

#[test]
fn detects_that_the_sources_changed() {
    let mut sources = vec![source("first", &[("next.application.name", "demo")])];
    let adapted = NextConfigurationPropertySources::new(&sources);
    assert!(adapted.is_using_sources(&sources));

    sources.push(source("second", &[("next.application.version", "1.0.0")]));

    assert!(!adapted.is_using_sources(&sources));
}

#[test]
fn adapts_sources_from_an_empty_collection() {
    let adapted = NextConfigurationPropertySources::new(&Vec::new());

    assert!(adapted.is_empty());
    assert_eq!(adapted.sources().len(), 0);
}

#[test]
fn resolves_values_through_the_adapted_sources() {
    let sources = vec![source("first", &[("next.application.name", "demo")])];
    let adapted = NextConfigurationPropertySources::new(&sources);
    let name = ConfigurationPropertyName::of("next.application.name").unwrap();

    let value = adapted
        .sources()
        .iter()
        .find_map(|source| source.get_configuration_property(&name))
        .map(|property| property.get_value().to_owned());

    assert_eq!(value, Some("demo".to_owned()));
}

#[test]
fn skips_stubs_and_the_attached_adapter() {
    let sources = vec![
        source("configurationProperties", &[("a", "1")]),
        PropertySource::stub("stub".to_owned()),
        source("test", &[("next.application.name", "demo")]),
    ];

    let adapted = ConfigurationPropertySources::from_sources(&sources);

    assert_eq!(adapted.len(), 1);
    assert!(ConfigurationPropertySources::is_attached_configuration_property_source(&sources[0]));
    assert!(!ConfigurationPropertySources::is_attached_configuration_property_source(&sources[2]));
    assert_eq!(ConfigurationPropertySources::get(&sources).len(), 1);
}

#[test]
fn adapts_a_single_property_source() {
    let source = source("test", &[("next.application.name", "demo")]);

    let adapted = ConfigurationPropertySources::from(&source);

    assert_eq!(adapted.len(), 1);
    assert!(adapted[0].is_some());
}

#[test]
fn creates_a_property_resolver() {
    let sources = vec![source("test", &[("next.application.name", "demo")])];

    let resolver = ConfigurationPropertySources::create_property_resolver(&sources);

    assert_eq!(
        resolver.get_property("next.application.name"),
        Some("demo".to_owned())
    );
}

#[test]
fn the_adapter_resolves_adapted_properties() {
    let sources = vec![source("test", &[("next.application.name", "demo")])];
    let adapter = ConfigurationPropertySourcesPropertySource::new(
        "configurationProperties".to_owned(),
        NextConfigurationPropertySources::new(&sources),
    );

    assert_eq!(
        adapter.property("next.application.name"),
        Some("demo".to_owned())
    );
    assert!(adapter.contains_property("next.application.name"));
    assert_eq!(adapter.property("next.application.version"), None);
}

#[test]
fn resolves_properties() {
    let resolver = resolver(&[("next.application.name", "demo")]);

    assert!(resolver.contains_property("next.application.name"));
    assert_eq!(
        resolver.get_property("next.application.name"),
        Some("demo".to_owned())
    );
    assert_eq!(resolver.get_property("next.application.version"), None);
    assert_eq!(
        resolver.get_property_or_default("next.application.version", "1.0.0"),
        "1.0.0"
    );
}

#[test]
fn resolves_placeholders() {
    let resolver = resolver(&[
        ("app.name", "demo"),
        ("app.description", "the ${app.name} application"),
        ("app.unknown", "${app.missing}"),
    ]);

    assert_eq!(
        resolver.resolve_placeholders("the ${app.name} application"),
        "the demo application"
    );
    assert_eq!(
        resolver.resolve_placeholders("${app.description}"),
        "the demo application"
    );
    assert_eq!(resolver.resolve_placeholders("${app.name:fallback}"), "demo");
    assert_eq!(
        resolver.resolve_placeholders("${app.missing:fallback}"),
        "fallback"
    );
    assert_eq!(
        resolver.resolve_placeholders("${app.missing}"),
        "${app.missing}"
    );
    assert_eq!(
        resolver.resolve_placeholders("${app.unknown}"),
        "${app.missing}"
    );
    assert!(resolver
        .resolve_required_placeholders("${app.missing}")
        .is_err());
    assert_eq!(
        resolver.resolve_required_placeholders("${app.name}").ok(),
        Some("demo".to_owned())
    );
}

#[test]
fn resolves_nested_placeholders() {
    let resolver = resolver(&[
        ("app.default", "fallback"),
        ("app.name", "demo"),
        ("app.value", "the ${app.missing:${app.default}} value"),
    ]);

    assert_eq!(
        resolver.resolve_placeholders("${app.value}"),
        "the fallback value"
    );
}

#[test]
fn reports_required_properties_that_are_absent() {
    let resolver = resolver(&[("app.name", "demo")]);

    assert_eq!(
        resolver.get_required_property("app.name").ok(),
        Some("demo".to_owned())
    );
    assert!(resolver.get_required_property("app.missing").is_err());
}

#[test]
fn text_without_placeholders_resolves_to_itself() {
    let resolver = resolver(&[("app.name", "demo")]);

    for text in ["plain text", "", "a } b", "$ not a placeholder"] {
        assert_eq!(resolver.resolve_placeholders(text), text);
        assert_eq!(
            resolver.resolve_required_placeholders(text).ok(),
            Some(text.to_owned())
        );
    }
}

#[test]
fn uses_the_configured_placeholder_delimiters() {
    let mut resolver = resolver(&[("app.name", "demo")]);
    resolver.set_placeholder_prefix("#{".to_owned());
    resolver.set_placeholder_suffix("}#".to_owned());

    assert_eq!(resolver.resolve_placeholders("#{app.name}# ${app.name}"), "demo ${app.name}");
}

#[test]
fn keeps_a_name_given_twice_once_with_its_last_value() {
    let source = source("test", &[("a", "1"), ("b", "2"), ("a", "3")]);

    assert_eq!(
        source.properties(),
        &vec![("a".to_owned(), "3".to_owned()), ("b".to_owned(), "2".to_owned())]
    );
    assert_eq!(source.property("a"), Some("3".to_owned()));
    assert_eq!(source.property("b"), Some("2".to_owned()));
    assert_eq!(source.property("c"), None);
}

#[test]
fn resolves_placeholders_within_a_bound_on_the_nesting() {
    let resolver = resolver(&[
        ("app.name", "demo"),
        ("app.description", "the ${app.name} application"),
        ("loop.a", "${loop.b}"),
        ("loop.b", "${loop.a}"),
    ]);

    assert_eq!(resolver.try_resolve_placeholders("plain text", 0), Some("plain text".to_owned()));
    assert_eq!(resolver.try_resolve_placeholders("${app.description}", 1), None);
    assert_eq!(
        resolver.try_resolve_placeholders("${app.description}", 2),
        Some("the demo application".to_owned())
    );
    assert_eq!(resolver.try_resolve_placeholders("${loop.a}", 100), None);
}
