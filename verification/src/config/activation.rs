//! The activation context used while config data is processed.

use vstd::prelude::*;

use crate::config::profiles::{views, ConfigDataProfiles};

verus! {

/// The context that determines which parts of the config data are active.
///
/// The profiles of the context are unknown while the first locations are
/// processed, and are filled in once the properties that declare them have
/// been loaded from the config data itself.
#[derive(Debug, Clone)]
pub struct ConfigDataActivationContext {
    profiles: Option<ConfigDataProfiles>,
}

impl ConfigDataActivationContext {
    /// The profiles of the context, when they are known.
    pub closed spec fn profiles_spec(&self) -> Option<ConfigDataProfiles> {
        self.profiles
    }

    /// The active profiles, which are none while the profiles are unknown.
    pub open spec fn active_spec(&self) -> Seq<Seq<char>> {
        match self.profiles_spec() {
            Some(p) => p.active_spec(),
            None => Seq::empty(),
        }
    }

    /// Whether one of the expressions matches, which none does while the
    /// profiles are unknown.
    pub open spec fn accepts_spec(&self, expressions: Seq<Seq<char>>) -> bool {
        match self.profiles_spec() {
            Some(p) => p.accepts_spec(expressions),
            None => false,
        }
    }

    /// Creates a new context with the given profiles, if they are known yet.
    pub fn new(profiles: Option<ConfigDataProfiles>) -> (r: Self)
        ensures
            r.profiles_spec() == profiles,
    {
        ConfigDataActivationContext { profiles }
    }

    /// Returns a copy of this context with the given profiles.
    pub fn with_profiles(&self, profiles: ConfigDataProfiles) -> (r: Self)
        ensures
            r.profiles_spec() == Some(profiles),
    {
        ConfigDataActivationContext { profiles: Some(profiles) }
    }

    /// Returns the profiles in use, if they are known.
    pub fn get_profiles(&self) -> (r: Option<&ConfigDataProfiles>)
        ensures
            match r {
                Some(p) => self.profiles_spec() == Some(*p),
                None => self.profiles_spec() is None,
            },
    {
        match &self.profiles {
            Some(p) => Some(p),
            None => None,
        }
    }

    /// Returns the active profiles, or none while they are unknown.
    pub fn active_profiles(&self) -> (r: Vec<String>)
        ensures
            views(r@) == self.active_spec(),
    {
        match &self.profiles {
            Some(p) => crate::text::copy_strings(p.active()),
            None => {
                let r: Vec<String> = Vec::new();
                assert(views(r@) =~= Seq::<Seq<char>>::empty());
                r
            },
        }
    }

    /// Returns whether one of the given profile expressions matches; nothing
    /// is active while the profiles are unknown.
    pub fn accepts(&self, profile_expressions: &Vec<String>) -> (r: bool)
        ensures
            r == self.accepts_spec(views(profile_expressions@)),
    {
        match &self.profiles {
            Some(p) => p.accepts(profile_expressions),
            None => false,
        }
    }
}

impl Default for ConfigDataActivationContext {
    /// A context whose profiles are unknown.
    fn default() -> (r: Self)
        ensures
            r.profiles_spec() is None,
    {
        ConfigDataActivationContext { profiles: None }
    }
}

} // verus!
