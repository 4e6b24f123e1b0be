use next_web::config::activation::ConfigDataActivationContext;
use next_web::config::contributor::ConfigDataEnvironmentContributor;
use next_web::config::environment::{
    check_and_apply, check_for_invalid_properties, deduce_profiles, check_mandatory_locations, create_contributors,
    create_profiles, default_search_locations, into_applied, ConfigDataEnvironmentContributors,
    ConfigDataEnvironmentError, ConfigDataImporter,
};
use next_web::config::index::ResourceIndex;
use next_web::config::invalid_property::InvalidConfigDataPropertyError;
use next_web::config::loader::{ConfigData, ConfigDataLoader};
use next_web::config::location::ConfigDataLocation;
use next_web::config::not_found::ConfigDataNotFoundAction;
use next_web::config::profiles::ConfigDataProfiles;
use next_web::config::resource::ConfigDataResource;
use next_web::properties::source::PropertySource;

fn strings(values: &[&str]) -> Vec<String> {
    values.iter().map(|v| (*v).to_owned()).collect()
}

fn property_source(name: &str, properties: &[(&str, &str)]) -> PropertySource {
    PropertySource::new(
        name.to_owned(),
        properties
            .iter()
            .map(|(key, value)| ((*key).to_owned(), (*value).to_owned()))
            .collect(),
    )
}

fn config_data(name: &str, properties: &[(&str, &str)]) -> ConfigData {
    ConfigData::new(property_source(name, properties))
}

fn contributor(properties: &[(&str, &str)], profile_specific: bool) -> ConfigDataEnvironmentContributor {
    ConfigDataEnvironmentContributor::of_config_data(
        ConfigDataLocation::of("/application.properties"),
        config_data("application.properties", properties),
        profile_specific,
    )
}

fn named(name: &str, properties: &[(&str, &str)], profile_specific: bool) -> ConfigDataEnvironmentContributor {
    ConfigDataEnvironmentContributor::of_config_data(
        ConfigDataLocation::of("/application.properties"),
        config_data(name, properties),
        profile_specific,
    )
}

fn context(active: &[&str]) -> ConfigDataActivationContext {
    ConfigDataActivationContext::new(None).with_profiles(ConfigDataProfiles::new(strings(active), Vec::new()))
}

#[test]
fn reads_activation_profiles_and_imports() {
    let data = config_data(
        "application-dev.properties",
        &[
            ("next.config.activate.on-profile", " dev "),
            ("next.config.import", "/extra.properties,optional:file:./extra.yml"),
        ],
    );

    assert_eq!(data.activate_profile(), Some("dev"));
    assert_eq!(
        data.imports(),
        vec![
            ConfigDataLocation::of("/extra.properties"),
            ConfigDataLocation::of("optional:file:./extra.yml"),
        ]
    );
}

#[test]
fn exposes_the_properties_of_a_document() {
    let contributor = contributor(&[("next.application.name", "demo")], false);

    assert_eq!(
        contributor
            .property_source()
            .and_then(|source| source.property("next.application.name")),
        Some("demo".to_owned())
    );
    assert_eq!(
        contributor.location(),
        Some(&ConfigDataLocation::of("/application.properties"))
    );
    assert!(!contributor.has_imports());
    assert!(contributor.is_active(&ConfigDataActivationContext::new(None)));
}

#[test]
fn reports_the_mandatory_imports_of_a_document() {
    let contributor = contributor(
        &[("next.config.import", "/one.properties,optional:/two.properties")],
        false,
    );

    assert_eq!(
        contributor.mandatory_imports(),
        vec![ConfigDataLocation::of("/one.properties")]
    );
    assert!(!contributor.is_ignore_profiles());
}

#[test]
fn marks_documents_that_must_not_activate_profiles() {
    let contributor = contributor(&[("next.config.activate.on-profile", "dev")], false);

    assert!(contributor.is_ignore_profiles());
    assert!(!contributor.is_active(&ConfigDataActivationContext::new(None)));
}

#[test]
fn flattens_children_before_their_parent() {
    let mut parent = contributor(&[], false);
    parent.prepend_children(vec![
        ConfigDataEnvironmentContributor::of_config_data(
            ConfigDataLocation::of("/first"),
            config_data("first", &[]),
            false,
        ),
        ConfigDataEnvironmentContributor::of_config_data(
            ConfigDataLocation::of("/second"),
            config_data("second", &[]),
            false,
        ),
    ]);

    let mut result = Vec::new();
    parent.flatten(&mut result);
    let names: Vec<_> = result
        .iter()
        .map(|contributor| contributor.property_source().unwrap().name())
        .collect();

    assert_eq!(names, vec!["first", "second", "application.properties"]);
}

#[test]
fn prepending_keeps_the_new_children_first() {
    let mut parent = contributor(&[], false);
    parent.prepend_children(vec![ConfigDataEnvironmentContributor::of_config_data(
        ConfigDataLocation::of("/first"),
        config_data("first", &[]),
        false,
    )]);
    parent.prepend_children(vec![ConfigDataEnvironmentContributor::of_config_data(
        ConfigDataLocation::of("/second"),
        config_data("second", &[]),
        true,
    )]);

    let mut result = Vec::new();
    parent.flatten(&mut result);
    let names: Vec<_> = result
        .iter()
        .map(|contributor| contributor.property_source().unwrap().name())
        .collect();

    assert_eq!(names, vec!["second", "first", "application.properties"]);
}

#[test]
fn ignores_profile_specific_documents_for_profile_properties() {
    let contributors = ConfigDataEnvironmentContributors::new(vec![
        named(
            "profile-specific",
            &[
                ("next.config.activate.on-profile", "dev"),
                ("next.profiles.include", "cloud"),
            ],
            false,
        ),
        named("regular", &[("next.profiles.include", "local")], false),
    ]);

    assert_eq!(
        contributors.get_profile_property_values("next.profiles.include"),
        vec!["local".to_owned()]
    );
    assert_eq!(
        contributors.get_profile_property("next.profiles.include"),
        Some("local".to_owned())
    );
}

#[test]
fn flattens_contributors_in_precedence_order() {
    let mut parent = named("parent", &[], false);
    parent.prepend_children(vec![named("child", &[], false)]);
    let contributors = ConfigDataEnvironmentContributors::new(vec![parent]);

    let names: Vec<_> = contributors
        .into_flattened()
        .iter()
        .map(|contributor| contributor.property_source().unwrap().name().to_owned())
        .collect();

    assert_eq!(names, vec!["child".to_owned(), "parent".to_owned()]);
}

#[test]
fn accepts_valid_properties() {
    let contributor = contributor(&[("next.application.name", "demo")], false);

    assert!(InvalidConfigDataPropertyError::check(&contributor).is_ok());
}

#[test]
fn rejects_the_legacy_profiles_property() {
    let contributor = contributor(&[("next.profiles", "dev")], false);

    let error = InvalidConfigDataPropertyError::check(&contributor).unwrap_err();

    assert_eq!(error.property_name(), "next.profiles");
    assert_eq!(
        error.location(),
        Some(&ConfigDataLocation::of("/application.properties"))
    );
    assert!(error.to_string().contains("next.profiles"));
}

#[test]
fn rejects_active_profiles_in_profile_specific_documents() {
    let contributor = contributor(&[("next.profiles.active", "dev")], true);

    let error = InvalidConfigDataPropertyError::check(&contributor).unwrap_err();

    assert_eq!(error.property_name(), "next.profiles.active");
}

#[test]
fn rejects_invalid_properties_in_profile_specific_documents() {
    let contributors = ConfigDataEnvironmentContributors::new(vec![
        contributor(&[("next.application.name", "demo")], false),
        contributor(&[("next.profiles.active", "dev")], true),
    ]);

    let error = check_for_invalid_properties(&contributors).unwrap_err();

    assert_eq!(error.property_name(), "next.profiles.active");
    let message = ConfigDataEnvironmentError::InvalidProperty(error).to_string();
    assert_eq!(
        message,
        "Property 'next.profiles.active' imported from '/application.properties' is invalid: the property must not be used in a profile specific document"
    );
}

#[test]
fn creates_the_profiles_from_the_properties() {
    let profiles = create_profiles(
        Some("dev, cloud".to_owned()),
        &strings(&["ignored"]),
        None,
        &strings(&["default"]),
        &strings(&["extra", "dev"]),
        &strings(&["local", "cloud,more"]),
    );

    assert_eq!(profiles.active(), &strings(&["dev", "cloud", "extra", "local", "more"]));
    assert_eq!(profiles.default_profiles(), &strings(&["default"]));
}

#[test]
fn uses_the_default_search_locations() {
    let locations = default_search_locations();

    assert_eq!(locations.len(), 2);
    assert_eq!(locations[0].value(), "/;optional:/config/");
    assert!(locations[1].is_optional());
}

#[test]
fn additional_locations_take_precedence_over_the_default_locations() {
    let contributors = create_contributors(
        Some("/imported.properties".to_owned()),
        Some("/a.properties,/b.properties".to_owned()),
        None,
    );

    let imports: Vec<Vec<String>> = contributors
        .flattened()
        .iter()
        .map(|c| c.imports().iter().map(|l| l.to_string()).collect())
        .collect();

    assert_eq!(
        imports,
        vec![
            strings(&["/imported.properties"]),
            strings(&["/b.properties"]),
            strings(&["/a.properties"]),
            strings(&["optional:file:./;optional:file:./config/;optional:file:./config/*/"]),
            strings(&["optional:/;optional:/config/"]),
        ]
    );
}

#[test]
fn locations_declared_by_the_environment_replace_the_default_locations() {
    let contributors = create_contributors(None, None, Some("/only.properties".to_owned()));

    let flat = contributors.flattened();
    assert_eq!(flat.len(), 1);
    assert_eq!(flat[0].imports(), &vec![ConfigDataLocation::of("/only.properties")]);
}

fn loader_of(files: Vec<(&'static str, Vec<(&'static str, &'static str)>)>) -> impl Fn(&ConfigDataResource) -> Option<Vec<ConfigData>> {
    move |resource: &ConfigDataResource| {
        files
            .iter()
            .find(|(path, _)| *path == resource.path())
            .map(|(path, properties)| vec![config_data(path, properties)])
    }
}

#[test]
fn imported_documents_take_precedence_over_the_importing_document() {
    let index = ResourceIndex::new(
        strings(&["application.properties", "extra.properties"]),
        Vec::new(),
        Vec::new(),
    );
    let load = loader_of(vec![
        (
            "application.properties",
            vec![("next.config.import", "/extra.properties"), ("a", "1")],
        ),
        ("extra.properties", vec![("a", "2")]),
    ]);
    let mut importer = ConfigDataImporter::new(&ConfigDataLoader::default(), ConfigDataNotFoundAction::Fail);
    let mut contributors = ConfigDataEnvironmentContributors::new(vec![
        ConfigDataEnvironmentContributor::initial_imports(vec![ConfigDataLocation::of("optional:/")]),
    ]);
    let context = ConfigDataActivationContext::new(None);

    contributors.expand_imports(&mut importer, &context, &index, &load).unwrap();

    let applied = into_applied(contributors, &context);
    let names: Vec<_> = applied.iter().map(|(source, _)| source.name().to_owned()).collect();
    assert_eq!(names, strings(&["extra.properties", "application.properties"]));
    assert_eq!(applied[0].0.property("a"), Some("2".to_owned()));
}

#[test]
fn profile_specific_documents_are_only_loaded_for_active_profiles() {
    let index = ResourceIndex::new(
        strings(&["application.properties", "application-dev.properties", "application-prod.properties"]),
        Vec::new(),
        Vec::new(),
    );
    let load = loader_of(vec![
        ("application.properties", vec![("a", "1")]),
        ("application-dev.properties", vec![("a", "dev")]),
        ("application-prod.properties", vec![("a", "prod")]),
    ]);
    let mut importer = ConfigDataImporter::new(&ConfigDataLoader::default(), ConfigDataNotFoundAction::Fail);
    let location = ConfigDataLocation::of("optional:/");

    let contributors = importer
        .resolve_and_load(&location, &context(&["dev"]), &index, &load)
        .unwrap();

    let names: Vec<_> = contributors
        .iter()
        .map(|c| c.property_source().unwrap().name().to_owned())
        .collect();
    assert_eq!(names, strings(&["application-dev.properties", "application.properties"]));

    let again = importer
        .resolve_and_load(&location, &context(&["dev"]), &index, &load)
        .unwrap();
    assert!(again.is_empty());
}

#[test]
fn missing_mandatory_locations_fail() {
    let index = ResourceIndex::new(Vec::new(), Vec::new(), Vec::new());
    let load = loader_of(Vec::new());
    let mut importer = ConfigDataImporter::new(&ConfigDataLoader::default(), ConfigDataNotFoundAction::Fail);

    let result = importer.resolve_and_load(
        &ConfigDataLocation::of("/missing/"),
        &ConfigDataActivationContext::new(None),
        &index,
        &load,
    );

    assert_eq!(
        result.unwrap_err().location(),
        &ConfigDataLocation::of("/missing/")
    );
}

#[test]
fn missing_locations_can_be_ignored() {
    let index = ResourceIndex::new(Vec::new(), Vec::new(), Vec::new());
    let load = loader_of(Vec::new());
    let mut importer = ConfigDataImporter::new(&ConfigDataLoader::default(), ConfigDataNotFoundAction::Ignore);

    let result = importer.resolve_and_load(
        &ConfigDataLocation::of("/missing/"),
        &ConfigDataActivationContext::new(None),
        &index,
        &load,
    );

    assert!(result.unwrap().is_empty());
    assert_eq!(importer.loaded_locations(), &vec![ConfigDataLocation::of("/missing/")]);
}

#[test]
fn remembers_the_optional_locations_that_are_missing() {
    let index = ResourceIndex::new(Vec::new(), Vec::new(), Vec::new());
    let load = loader_of(Vec::new());
    let mut importer = ConfigDataImporter::new(&ConfigDataLoader::default(), ConfigDataNotFoundAction::Fail);

    let result = importer.resolve_and_load(
        &ConfigDataLocation::of("optional:/missing/"),
        &ConfigDataActivationContext::new(None),
        &index,
        &load,
    );

    assert!(result.unwrap().is_empty());
    assert_eq!(importer.optional_locations(), &vec![ConfigDataLocation::of("optional:/missing/")]);
    assert!(importer.loaded_locations().is_empty());
}

#[test]
fn missing_mandatory_imports_fail() {
    let contributors = ConfigDataEnvironmentContributors::new(vec![contributor(
        &[("next.config.import", "/one.properties,optional:/two.properties")],
        false,
    )]);
    let context = ConfigDataActivationContext::new(None);

    let result = check_mandatory_locations(
        &contributors,
        &context,
        &Vec::new(),
        &Vec::new(),
        ConfigDataNotFoundAction::Fail,
    );

    assert_eq!(
        result.unwrap_err().location(),
        &ConfigDataLocation::of("/one.properties")
    );
    assert!(check_mandatory_locations(
        &contributors,
        &context,
        &vec![ConfigDataLocation::of("/one.properties")],
        &Vec::new(),
        ConfigDataNotFoundAction::Fail,
    )
    .is_ok());
    assert!(check_mandatory_locations(
        &contributors,
        &context,
        &Vec::new(),
        &Vec::new(),
        ConfigDataNotFoundAction::Ignore,
    )
    .is_ok());
}

#[test]
fn applies_only_the_active_documents() {
    let contributors = ConfigDataEnvironmentContributors::new(vec![
        named("dev-only", &[("next.config.activate.on-profile", "dev")], false),
        named("always", &[("a", "1")], false),
    ]);

    let applied = into_applied(contributors, &context(&["prod"]));

    assert_eq!(applied.len(), 1);
    assert_eq!(applied[0].0.name(), "always");
    assert_eq!(applied[0].1, Some(ConfigDataLocation::of("/application.properties")));
}

#[test]
fn a_resource_loaded_through_one_location_is_not_loaded_through_another() {
    let index = ResourceIndex::new(
        strings(&["application.properties", "application-dev.properties"]),
        Vec::new(),
        Vec::new(),
    );
    let load = loader_of(vec![
        ("application.properties", vec![("a", "1")]),
        ("application-dev.properties", vec![("a", "dev")]),
    ]);
    let mut importer = ConfigDataImporter::new(&ConfigDataLoader::default(), ConfigDataNotFoundAction::Fail);

    let first = importer
        .resolve_and_load(&ConfigDataLocation::of("/application.properties"), &context(&[]), &index, &load)
        .unwrap();
    assert_eq!(first.len(), 1);

    let second = importer
        .resolve_and_load(&ConfigDataLocation::of("optional:/"), &context(&["dev"]), &index, &load)
        .unwrap();
    let names: Vec<_> = second
        .iter()
        .map(|c| c.property_source().unwrap().name().to_owned())
        .collect();
    assert_eq!(names, strings(&["application-dev.properties"]));
}

#[test]
fn checks_the_contributors_before_applying_them() {
    let importer = ConfigDataImporter::new(&ConfigDataLoader::default(), ConfigDataNotFoundAction::Fail);
    let context = ConfigDataActivationContext::new(None);

    let invalid = ConfigDataEnvironmentContributors::new(vec![contributor(&[("next.profiles", "dev")], false)]);
    match check_and_apply(invalid, &importer, &context) {
        Err(ConfigDataEnvironmentError::InvalidProperty(error)) => {
            assert_eq!(error.property_name(), "next.profiles")
        }
        other => panic!("unexpected result: {other:?}"),
    }

    let valid = ConfigDataEnvironmentContributors::new(vec![named("app.properties", &[("a", "1")], false)]);
    let applied = check_and_apply(valid, &importer, &context).unwrap();
    assert_eq!(applied.len(), 1);
    assert_eq!(applied[0].0.name(), "app.properties");
    assert_eq!(applied[0].1, Some(ConfigDataLocation::of("/application.properties")));
}

#[test]
fn reports_a_missing_mandatory_import_when_applying() {
    let importer = ConfigDataImporter::new(&ConfigDataLoader::default(), ConfigDataNotFoundAction::Fail);
    let context = ConfigDataActivationContext::new(None);
    let contributors = ConfigDataEnvironmentContributors::new(vec![contributor(
        &[("next.config.import", "/one.properties")],
        false,
    )]);

    match check_and_apply(contributors, &importer, &context) {
        Err(ConfigDataEnvironmentError::LocationNotFound(error)) => {
            assert_eq!(error.location(), &ConfigDataLocation::of("/one.properties"))
        }
        other => panic!("unexpected result: {other:?}"),
    }
}

#[test]
fn deduces_the_profiles_from_the_environment_first_and_from_the_documents_second() {
    let contributors = ConfigDataEnvironmentContributors::new(vec![contributor(
        &[("next.profiles.active", "dev"), ("next.profiles.include", "inc2")],
        false,
    )]);

    let from_documents = deduce_profiles(
        &contributors,
        None,
        &strings(&["x"]),
        None,
        &strings(&["default"]),
        &strings(&["extra"]),
        &strings(&["inc1"]),
    );
    assert_eq!(from_documents.active(), &strings(&["dev", "extra", "inc1", "inc2"]));
    assert_eq!(from_documents.default_profiles(), &strings(&["default"]));

    let from_environment = deduce_profiles(
        &contributors,
        Some("prod".to_owned()),
        &strings(&["x"]),
        Some("base".to_owned()),
        &strings(&["default"]),
        &Vec::new(),
        &Vec::new(),
    );
    assert_eq!(from_environment.active(), &strings(&["prod", "inc2"]));
    assert_eq!(from_environment.default_profiles(), &strings(&["base"]));
}

#[test]
fn contributors_without_imports_always_expand() {
    let index = ResourceIndex::new(Vec::new(), Vec::new(), Vec::new());
    let load = loader_of(Vec::new());
    let mut importer = ConfigDataImporter::new(&ConfigDataLoader::default(), ConfigDataNotFoundAction::Fail);
    let mut contributors = ConfigDataEnvironmentContributors::new(vec![contributor(&[("a", "1")], false)]);

    assert!(contributors
        .expand_imports(&mut importer, &ConfigDataActivationContext::new(None), &index, &load)
        .is_ok());
    assert_eq!(contributors.flattened().len(), 1);
}

#[test]
fn a_missing_mandatory_import_of_a_loaded_document_fails_the_expansion() {
    let index = ResourceIndex::new(strings(&["application.properties"]), Vec::new(), Vec::new());
    let load = loader_of(vec![(
        "application.properties",
        vec![("next.config.import", "/missing.properties")],
    )]);
    let mut importer = ConfigDataImporter::new(&ConfigDataLoader::default(), ConfigDataNotFoundAction::Fail);
    let mut contributors = ConfigDataEnvironmentContributors::new(vec![
        ConfigDataEnvironmentContributor::initial_imports(vec![ConfigDataLocation::of("optional:/")]),
    ]);

    let error = contributors
        .expand_imports(&mut importer, &ConfigDataActivationContext::new(None), &index, &load)
        .unwrap_err();
    assert_eq!(error.location(), &ConfigDataLocation::of("/missing.properties"));
}
