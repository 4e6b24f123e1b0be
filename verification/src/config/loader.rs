//! What config data is loaded into, and which loader reads which resource.

use vstd::prelude::*;

use crate::config::location::{location_of_spec, ConfigDataLocation};
use crate::config::profiles::{profiles_from_value, profiles_from_value_spec, views};
use crate::config::resource::{extension_of, extension_of_spec};
use crate::properties::source::PropertySource;
use crate::text::{chars_of, equals, opt_view, string_of, trim, trim_spec};

verus! {

broadcast use vstd::string::group_string_axioms;

/// The property that declares the profile expression a document is active
/// for.
pub const ACTIVATE_PROFILE_PROPERTY: &'static str = "next.config.activate.on-profile";

/// The property used to declare additional locations to import.
pub const IMPORT_PROPERTY: &'static str = "next.config.import";

/// The locations of a comma separated list: every entry is trimmed, blank
/// entries are dropped, and each is read as a location.
pub open spec fn config_data_locations_spec(value: Seq<char>) -> Seq<(Seq<char>, bool)> {
    profiles_from_value_spec(value).map_values(|v: Seq<char>| location_of_spec(v))
}

/// Parses a comma separated list of config data locations.
pub fn config_data_locations(value: &str) -> (r: Vec<ConfigDataLocation>)
    ensures
        r@.map_values(|l: ConfigDataLocation| l@) == config_data_locations_spec(value@),
{
    let values = profiles_from_value(value);
    let mut r: Vec<ConfigDataLocation> = Vec::new();
    let mut i: usize = 0;
    while i < values.len()
        invariant
            i <= values.len(),
            views(values@) == profiles_from_value_spec(value@),
            r@.map_values(|l: ConfigDataLocation| l@) == views(values@).take(i as int).map_values(
                |v: Seq<char>| location_of_spec(v),
            ),
        decreases values.len() - i,
    {
        let location = ConfigDataLocation::of(values[i].as_str());
        let ghost before = r@;
        r.push(location);
        assert(r@.map_values(|l: ConfigDataLocation| l@) =~= views(values@).take(i + 1).map_values(
            |v: Seq<char>| location_of_spec(v),
        )) by {
            assert(r@ == before.push(location));
            assert(location@ == location_of_spec(views(values@)[i as int]));
            assert(r@.map_values(|l: ConfigDataLocation| l@) =~= before.map_values(|l: ConfigDataLocation| l@).push(location@));
            assert(views(values@).take(i + 1) =~= views(values@).take(i as int).push(values@[i as int]@));
        }
        i = i + 1;
    }
    assert(views(values@).take(i as int) =~= views(values@));
    r
}

/// Config data loaded from a single document of a resource.
///
/// A resource that holds several documents, such as a multi document YAML
/// file, produces one instance per document, so that every document can carry
/// its own activation properties.
#[derive(Debug)]
pub struct ConfigData {
    property_source: PropertySource,
    activate_profile: Option<String>,
}

/// The profile expression of a document: the trimmed value of its
/// activation property, unless it is blank.
pub open spec fn activate_profile_spec(source: PropertySource) -> Option<Seq<char>> {
    match source.property_spec(ACTIVATE_PROFILE_PROPERTY@) {
        Some(v) => if trim_spec(v).len() > 0 {
            Some(trim_spec(v))
        } else {
            None
        },
        None => None,
    }
}

impl ConfigData {
    /// The property source of the document.
    pub closed spec fn source_spec(&self) -> PropertySource {
        self.property_source
    }

    /// The profile expression the document is active for.
    pub closed spec fn activate_profile_spec(&self) -> Option<Seq<char>> {
        opt_view(self.activate_profile)
    }

    /// Creates config data for the property source of a single document.
    pub fn new(property_source: PropertySource) -> (r: Self)
        ensures
            r.source_spec() == property_source,
            r.activate_profile_spec() == activate_profile_spec(property_source),
    {
        let activate_profile = match property_source.property(ACTIVATE_PROFILE_PROPERTY) {
            Some(value) => {
                let t = trim(&chars_of(value.as_str()));
                if t.len() > 0 {
                    Some(string_of(&t))
                } else {
                    None
                }
            },
            None => None,
        };
        ConfigData { property_source, activate_profile }
    }

    /// Returns the property source of this config data.
    pub fn property_source(&self) -> (r: &PropertySource)
        ensures
            *r == self.source_spec(),
    {
        &self.property_source
    }

    /// Returns the profile expression this document is active for, if any,
    /// taken from its `next.config.activate.on-profile` property.
    pub fn activate_profile(&self) -> (r: Option<&str>)
        ensures
            match r {
                Some(p) => self.activate_profile_spec() == Some(p@),
                None => self.activate_profile_spec() is None,
            },
    {
        match &self.activate_profile {
            Some(p) => Some(p.as_str()),
            None => None,
        }
    }

    /// Returns the locations imported by this document, taken from its
    /// `next.config.import` property.
    pub fn imports(&self) -> (r: Vec<ConfigDataLocation>)
        ensures
            r@.map_values(|l: ConfigDataLocation| l@) == match self.source_spec().property_spec(
                IMPORT_PROPERTY@,
            ) {
                Some(v) => config_data_locations_spec(v),
                None => Seq::empty(),
            },
    {
        match self.property_source.property(IMPORT_PROPERTY) {
            Some(value) => config_data_locations(value.as_str()),
            None => {
                let r: Vec<ConfigDataLocation> = Vec::new();
                assert(r@.map_values(|l: ConfigDataLocation| l@) =~= Seq::<(Seq<char>, bool)>::empty());
                r
            },
        }
    }

    /// Returns the property source of this config data.
    pub fn into_property_source(self) -> (r: PropertySource)
        ensures
            r == self.source_spec(),
    {
        self.property_source
    }
}

/// The formats property sources are loaded from, each with the file
/// extensions it reads.
#[derive(Debug, Clone, Copy, PartialEq, Eq, Structural)]
pub enum PropertySourceFormat {
    /// Properties files, `.properties` and `.xml`.
    Properties,
    /// YAML files, `.yml` and `.yaml`.
    Yaml,
}

/// The file extensions of a format, in descending precedence order.
pub open spec fn format_extensions_spec(format: PropertySourceFormat) -> Seq<Seq<char>> {
    match format {
        PropertySourceFormat::Properties => seq!["properties"@, "xml"@],
        PropertySourceFormat::Yaml => seq!["yml"@, "yaml"@],
    }
}

/// The file extensions of the formats, in their order.
pub open spec fn all_extensions_spec(formats: Seq<PropertySourceFormat>) -> Seq<Seq<char>>
    decreases formats.len(),
{
    if formats.len() == 0 {
        Seq::empty()
    } else {
        all_extensions_spec(formats.drop_last()) + format_extensions_spec(formats.last())
    }
}

/// The first format that reads the given extension.
pub open spec fn format_for_spec(formats: Seq<PropertySourceFormat>, extension: Seq<char>) -> Option<
    PropertySourceFormat,
>
    decreases formats.len(),
{
    if formats.len() == 0 {
        None
    } else if format_extensions_spec(formats[0]).contains(extension) {
        Some(formats[0])
    } else {
        format_for_spec(formats.drop_first(), extension)
    }
}

impl PropertySourceFormat {
    /// Returns the file extensions of this format, in descending precedence
    /// order, without the leading dot.
    pub fn file_extensions(&self) -> (r: Vec<&'static str>)
        ensures
            r@.map_values(|t: &str| t@) == format_extensions_spec(*self),
    {
        let r = match self {
            PropertySourceFormat::Properties => vec!["properties", "xml"],
            PropertySourceFormat::Yaml => vec!["yml", "yaml"],
        };
        proof {
            reveal_strlit("properties");
            reveal_strlit("xml");
            reveal_strlit("yml");
            reveal_strlit("yaml");
        }
        assert(r@.map_values(|t: &str| t@) =~= format_extensions_spec(*self));
        r
    }
}

/// Loads config data from the resolved resources.
///
/// Resources are dispatched to the formats by their file extension. The order
/// of the formats matters: the extensions of the format that is registered
/// first have the highest precedence, so a `.properties` file overrides an
/// equivalent YAML file in the same location.
#[derive(Debug, Clone)]
pub struct ConfigDataLoader {
    loaders: Vec<PropertySourceFormat>,
}

impl ConfigDataLoader {
    /// The formats, in descending precedence order.
    pub closed spec fn loaders_spec(&self) -> Seq<PropertySourceFormat> {
        self.loaders@
    }

    /// Creates a loader for the given formats, in descending precedence
    /// order.
    pub fn new(loaders: Vec<PropertySourceFormat>) -> (r: Self)
        ensures
            r.loaders_spec() == loaders@,
    {
        ConfigDataLoader { loaders }
    }

    /// Returns the supported file extensions, in descending precedence order.
    pub fn extensions(&self) -> (r: Vec<&'static str>)
        ensures
            r@.map_values(|t: &str| t@) == all_extensions_spec(self.loaders_spec()),
    {
        let mut r: Vec<&'static str> = Vec::new();
        let mut i: usize = 0;
        while i < self.loaders.len()
            invariant
                i <= self.loaders.len(),
                r@.map_values(|t: &str| t@) == all_extensions_spec(self.loaders@.take(i as int)),
            decreases self.loaders.len() - i,
        {
            let ghost before = r@;
            let extensions = self.loaders[i].file_extensions();
            let mut k: usize = 0;
            while k < extensions.len()
                invariant
                    k <= extensions.len(),
                    r@ == before + extensions@.take(k as int),
                decreases extensions.len() - k,
            {
                r.push(extensions[k]);
                k = k + 1;
                assert(r@ =~= before + extensions@.take(k as int));
            }
            assert(extensions@.take(k as int) =~= extensions@);
            assert(self.loaders@.take(i + 1).drop_last() =~= self.loaders@.take(i as int));
            assert(r@.map_values(|t: &str| t@) =~= before.map_values(|t: &str| t@) + extensions@.map_values(
                |t: &str| t@,
            ));
            i = i + 1;
        }
        assert(self.loaders@.take(i as int) =~= self.loaders@);
        r
    }

    /// Returns the format that reads the given path: the first one that
    /// supports its extension.
    pub fn loader_for_path(&self, path: &str) -> (r: Option<PropertySourceFormat>)
        ensures
            r == match extension_of_spec(path@) {
                Some(e) => format_for_spec(self.loaders_spec(), e),
                None => None,
            },
    {
        let extension = match extension_of(&chars_of(path)) {
            Some(e) => e,
            None => return None,
        };
        let mut i: usize = 0;
        assert(self.loaders@.skip(0) =~= self.loaders@);
        while i < self.loaders.len()
            invariant
                i <= self.loaders.len(),
                extension_of_spec(path@) == Some(extension@),
                format_for_spec(self.loaders@.skip(i as int), extension@) == format_for_spec(
                    self.loaders@,
                    extension@,
                ),
            decreases self.loaders.len() - i,
        {
            let extensions = self.loaders[i].file_extensions();
            let mut k: usize = 0;
            while k < extensions.len()
                invariant
                    i < self.loaders.len(),
                    extension_of_spec(path@) == Some(extension@),
                    k <= extensions.len(),
                    format_for_spec(self.loaders@.skip(i as int), extension@) == format_for_spec(
                        self.loaders@,
                        extension@,
                    ),
                    extensions@.map_values(|t: &str| t@) == format_extensions_spec(self.loaders@[i as int]),
                    forall|j: int| 0 <= j < k ==> extensions@[j]@ != extension@,
                decreases extensions.len() - k,
            {
                if equals(&chars_of(extensions[k]), &extension) {
                    assert(format_extensions_spec(self.loaders@[i as int])[k as int] == extension@);
                    assert(self.loaders@.skip(i as int)[0] == self.loaders@[i as int]);
                    return Some(self.loaders[i]);
                }
                k = k + 1;
            }
            assert(!format_extensions_spec(self.loaders@[i as int]).contains(extension@)) by {
                if format_extensions_spec(self.loaders@[i as int]).contains(extension@) {
                    let j = choose|j: int|
                        0 <= j < format_extensions_spec(self.loaders@[i as int]).len()
                            && format_extensions_spec(self.loaders@[i as int])[j] == extension@;
                    assert(extensions@[j]@ == extension@);
                }
            }
            assert(self.loaders@.skip(i as int).drop_first() =~= self.loaders@.skip(i + 1));
            assert(self.loaders@.skip(i as int)[0] == self.loaders@[i as int]);
            i = i + 1;
        }
        None
    }
}

impl Default for ConfigDataLoader {
    /// A loader for properties files, then YAML files.
    fn default() -> (r: Self)
        ensures
            r.loaders_spec() == seq![PropertySourceFormat::Properties, PropertySourceFormat::Yaml],
    {
        let r = ConfigDataLoader::new(vec![PropertySourceFormat::Properties, PropertySourceFormat::Yaml]);
        assert(r.loaders_spec() =~= seq![PropertySourceFormat::Properties, PropertySourceFormat::Yaml]);
        r
    }
}

} // verus!
