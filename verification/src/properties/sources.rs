//! Access to the configuration property sources of a list of property
//! sources.

use vstd::prelude::*;

use crate::properties::resolver::ConfigurationPropertySourcesPropertyResolver;
use crate::properties::source::{
    included_spec, is_attached_name, source_views, NextConfigurationPropertySource,
    NextConfigurationPropertySources, PropertySource, PropertySourceView,
    ATTACHED_PROPERTY_SOURCE_NAME,
};

verus! {

broadcast use vstd::string::group_string_axioms;

/// Provides access to the configuration property sources of a list of
/// property sources.
#[derive(Debug, Clone, Copy, Default)]
pub struct ConfigurationPropertySources;

impl ConfigurationPropertySources {
    /// Creates a property resolver that resolves property values against the
    /// configuration property sources of the given property sources.
    pub fn create_property_resolver(property_sources: &Vec<PropertySource>) -> (r: ConfigurationPropertySourcesPropertyResolver)
        ensures
            r.sources_spec() == included_spec(source_views(property_sources@)).map_values(|s: PropertySourceView| s.1),
            !r.ignore_spec(),
    {
        ConfigurationPropertySourcesPropertyResolver::new(NextConfigurationPropertySources::new(property_sources))
    }

    /// Returns whether the given property source is the adapter that was
    /// attached to an environment, which is known by its name.
    pub fn is_attached_configuration_property_source(property_source: &PropertySource) -> (r: bool)
        ensures
            r == (property_source@.0 == ATTACHED_PROPERTY_SOURCE_NAME@),
    {
        is_attached_name(property_source.name())
    }

    /// Returns the configuration property sources of the given property
    /// sources, without the stubs and the attached adapter.
    pub fn get(property_sources: &Vec<PropertySource>) -> (r: NextConfigurationPropertySources)
        ensures
            r.sources_spec() == included_spec(source_views(property_sources@)).map_values(|s: PropertySourceView| s.1),
    {
        NextConfigurationPropertySources::new(property_sources)
    }

    /// Returns a collection holding the adapter of the given property source,
    /// which is `None` when the source cannot be adapted.
    pub fn from(source: &PropertySource) -> (r: Vec<Option<NextConfigurationPropertySource>>)
        ensures
            r@.len() == 1,
            (r@[0] is None) == source.is_stub_spec(),
    {
        vec![NextConfigurationPropertySource::from(source)]
    }

    /// Returns the configuration property sources adapted from the given
    /// property sources, without the stubs and the attached adapter.
    pub fn from_sources(property_sources: &Vec<PropertySource>) -> (r: NextConfigurationPropertySources)
        ensures
            r.sources_spec() == included_spec(source_views(property_sources@)).map_values(|s: PropertySourceView| s.1),
    {
        NextConfigurationPropertySources::new(property_sources)
    }
}

} // verus!
