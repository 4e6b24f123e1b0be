use next_web::config::index::ResourceIndex;
use next_web::config::loader::{config_data_locations, ConfigDataLoader, PropertySourceFormat};
use next_web::config::location::ConfigDataLocation;
use next_web::config::resource::{ConfigDataLocationResolver, ConfigDataResource};

fn strings(values: &[&str]) -> Vec<String> {
    values.iter().map(|v| (*v).to_owned()).collect()
}

fn resolver() -> ConfigDataLocationResolver {
    ConfigDataLocationResolver::new(vec!["properties", "xml", "yml", "yaml"])
}

fn resources(paths: &[&str]) -> ResourceIndex {
    ResourceIndex::new(strings(paths), Vec::new(), Vec::new())
}

fn paths(resolution: &next_web::config::resource::ConfigDataLocationResolution) -> Vec<String> {
    resolution
        .resources()
        .iter()
        .map(|resource| resource.path().to_owned())
        .collect()
}

#[test]
fn creates_resource_keys() {
    let location = ConfigDataLocation::of("optional:/config/");
    let resource = ConfigDataResource::new(location, "config/application.yml", false, None);

    assert_eq!(resource.key(), "config/application.yml");
    assert_eq!(resource.to_string(), "config/application.yml");
    assert!(!resource.is_file_system());
    assert_eq!(resource.profile(), None);
}

#[test]
fn keys_file_system_resources_with_their_prefix() {
    let resource = ConfigDataResource::new(
        ConfigDataLocation::of("file:./config/"),
        "./config/application.yml",
        true,
        Some("dev".to_owned()),
    );

    assert_eq!(resource.key(), "file:./config/application.yml");
    assert!(resource.is_file_system());
    assert_eq!(resource.profile(), Some("dev"));
}

#[test]
fn detects_loadable_paths() {
    let resolver = resolver();

    assert!(resolver.is_loadable("config/application.yml"));
    assert!(resolver.is_loadable("application.properties"));
    assert!(!resolver.is_loadable("config/application.json"));
    assert!(!resolver.is_loadable("config/"));
}

#[test]
fn resolves_directory_locations_with_profile_specific_files_first() {
    let index = resources(&["config/application.properties", "config/application-dev.yml"]);

    let resolution = resolver().resolve(
        &ConfigDataLocation::of("optional:/config/"),
        &strings(&["dev"]),
        &index,
    );

    assert!(resolution.is_found());
    let resolved: Vec<_> = resolution
        .resources()
        .iter()
        .map(|resource| {
            (
                resource.path().to_owned(),
                resource.profile().map(ToOwned::to_owned),
            )
        })
        .collect();
    assert_eq!(
        resolved,
        vec![
            (
                "config/application-dev.yml".to_owned(),
                Some("dev".to_owned())
            ),
            ("config/application.properties".to_owned(), None),
        ]
    );
}

#[test]
fn resolves_several_locations_within_a_single_value() {
    let index = resources(&["application.properties", "config/application.properties"]);

    let resolution = resolver().resolve(
        &ConfigDataLocation::of("optional:/;optional:/config/"),
        &Vec::new(),
        &index,
    );

    assert_eq!(
        paths(&resolution),
        vec![
            "config/application.properties".to_owned(),
            "application.properties".to_owned()
        ]
    );
}

#[test]
fn resolves_file_locations_as_is() {
    let index = resources(&["extra/extra.properties"]);

    let resolution = resolver().resolve(
        &ConfigDataLocation::of("/extra/extra.properties"),
        &Vec::new(),
        &index,
    );

    assert!(resolution.is_found());
    assert_eq!(paths(&resolution), vec!["extra/extra.properties".to_owned()]);
}

#[test]
fn resolves_profile_specific_variants_of_the_default_config_name() {
    let index = resources(&["application.properties", "application-dev.properties"]);

    let resolution = resolver().resolve(
        &ConfigDataLocation::of("/application.properties"),
        &strings(&["dev"]),
        &index,
    );

    assert_eq!(
        paths(&resolution),
        vec![
            "application-dev.properties".to_owned(),
            "application.properties".to_owned()
        ]
    );
}

#[test]
fn resolves_wildcard_directories() {
    let index = resources(&[
        "config/second/application.properties",
        "config/first/application.properties",
    ]);

    let resolution = resolver().resolve(
        &ConfigDataLocation::of("optional:config/*/"),
        &Vec::new(),
        &index,
    );

    assert!(resolution.is_found());
    assert_eq!(
        paths(&resolution),
        vec![
            "config/first/application.properties".to_owned(),
            "config/second/application.properties".to_owned()
        ]
    );
}

#[test]
fn resolves_file_system_locations() {
    let index = ResourceIndex::new(
        Vec::new(),
        strings(&["/srv/app/config/application.properties"]),
        strings(&["/srv/app/config"]),
    );
    let location = "file:/srv/app/config/";

    let resolution = resolver().resolve(&ConfigDataLocation::of(location), &Vec::new(), &index);

    assert!(resolution.is_found());
    assert_eq!(resolution.resources().len(), 1);
    assert!(resolution.resources()[0].is_file_system());
    assert_eq!(
        resolution.resources()[0].key(),
        format!("{location}application.properties")
    );
}

#[test]
fn reports_missing_locations() {
    let index = resources(&[]);

    let resolution = resolver().resolve(
        &ConfigDataLocation::of("optional:/missing/"),
        &Vec::new(),
        &index,
    );

    assert!(!resolution.is_found());
    assert!(resolution.resources().is_empty());
}

#[test]
fn treats_an_empty_directory_as_found() {
    let index = ResourceIndex::new(Vec::new(), Vec::new(), strings(&["/srv/app/config"]));

    let resolution = resolver().resolve(
        &ConfigDataLocation::of("file:/srv/app/config/"),
        &Vec::new(),
        &index,
    );

    assert!(resolution.is_found());
    assert!(resolution.resources().is_empty());
}

#[test]
fn finds_a_directory_of_the_resources_by_the_files_it_holds() {
    let index = resources(&["config/notes.txt"]);

    assert!(index.directory_exists(&"config".chars().collect(), false));
    assert!(index.directory_exists(&"/config/".chars().collect(), false));
    assert!(!index.directory_exists(&"other".chars().collect(), false));
}

#[test]
fn lists_the_subdirectories_once_and_in_order() {
    let index = resources(&["c/b/x.yml", "c/a/y.yml", "c/b/z.yml", "c/top.yml"]);

    let names: Vec<String> = index
        .children(&"c".chars().collect(), false)
        .into_iter()
        .map(|name| name.into_iter().collect())
        .collect();

    assert_eq!(names, strings(&["a", "b"]));
}

#[test]
fn lists_the_supported_extensions_in_descending_precedence() {
    assert_eq!(
        ConfigDataLoader::default().extensions(),
        vec!["properties", "xml", "yml", "yaml"]
    );
}

#[test]
fn picks_the_first_format_that_reads_an_extension() {
    let loader = ConfigDataLoader::default();

    assert_eq!(
        loader.loader_for_path("config/application.xml"),
        Some(PropertySourceFormat::Properties)
    );
    assert_eq!(
        loader.loader_for_path("application.yaml"),
        Some(PropertySourceFormat::Yaml)
    );
    assert_eq!(loader.loader_for_path("application.json"), None);
    assert_eq!(loader.loader_for_path("application"), None);
}

#[test]
fn parses_lists_of_locations() {
    let locations = config_data_locations(" /extra.properties , ,optional:file:./extra.yml");

    assert_eq!(
        locations,
        vec![
            ConfigDataLocation::of("/extra.properties"),
            ConfigDataLocation::of("optional:file:./extra.yml"),
        ]
    );
}
