//! The error that is reported when an invalid property is found in the
//! config data.

use vstd::prelude::*;

use crate::config::contributor::ConfigDataEnvironmentContributor;
use crate::config::location::ConfigDataLocation;
use crate::config::profiles::ACTIVE_PROFILE_PROPERTY;
use crate::text::{chars_of, concat, string_of};

verus! {

broadcast use vstd::string::group_string_axioms;

/// The property that is replaced by `next.profiles.active` and
/// `next.profiles.default`.
pub const LEGACY_PROFILES_PROPERTY: &'static str = "next.profiles";

/// The reason a property is invalid when it is used in a profile specific
/// document.
pub const PROFILE_SPECIFIC_REASON: &'static str = "the property must not be used in a profile specific document";

/// The reason the legacy profiles property is invalid.
pub const LEGACY_REASON: &'static str = "the property must be replaced with 'next.profiles.active' or 'next.profiles.default'";

/// Error reported when a property that is not allowed in the config data is
/// found.
#[derive(Debug, Clone, PartialEq, Eq)]
pub struct InvalidConfigDataPropertyError {
    property_name: String,
    location: Option<ConfigDataLocation>,
    reason: &'static str,
}

/// What makes the property source of a contributor invalid, if anything: the
/// legacy profiles property anywhere, or the active profiles property in a
/// document that takes no part in the deduction of the profiles.
pub open spec fn invalid_property_spec(contributor: ConfigDataEnvironmentContributor) -> Option<(Seq<char>, Seq<char>)> {
    match contributor.property_source_spec() {
        None => None,
        Some(source) => if source.property_spec(LEGACY_PROFILES_PROPERTY@) is Some {
            Some((LEGACY_PROFILES_PROPERTY@, LEGACY_REASON@))
        } else if contributor.ignore_profiles_spec() && source.property_spec(ACTIVE_PROFILE_PROPERTY@) is Some {
            Some((ACTIVE_PROFILE_PROPERTY@, PROFILE_SPECIFIC_REASON@))
        } else {
            None
        },
    }
}

impl InvalidConfigDataPropertyError {
    /// The name of the invalid property.
    pub closed spec fn property_name_spec(&self) -> Seq<char> {
        self.property_name@
    }

    /// The location the property was imported from.
    pub closed spec fn location_spec(&self) -> Option<(Seq<char>, bool)> {
        match self.location {
            Some(l) => Some(l@),
            None => None,
        }
    }

    /// Why the property is invalid.
    pub closed spec fn reason_spec(&self) -> Seq<char> {
        self.reason@
    }

    /// The message of the error.
    pub open spec fn message_spec(&self) -> Seq<char> {
        "Property '"@ + self.property_name_spec() + "' imported from '"@ + match self.location_spec() {
            Some(l) => if l.1 {
                "optional:"@ + l.0
            } else {
                l.0
            },
            None => "the environment"@,
        } + "' is invalid: "@ + self.reason_spec()
    }

    /// Checks the given contributor for properties that are not allowed, and
    /// returns the first one that is found.
    pub fn check(contributor: &ConfigDataEnvironmentContributor) -> (r: Result<(), Self>)
        ensures
            match invalid_property_spec(*contributor) {
                None => r is Ok,
                Some((name, reason)) => r matches Err(e) && e.property_name_spec() == name
                    && e.reason_spec() == reason && e.location_spec() == contributor.location_spec(),
            },
    {
        let source = match contributor.property_source() {
            Some(s) => s,
            None => return Ok(()),
        };
        if source.contains_property(LEGACY_PROFILES_PROPERTY) {
            return Err(Self::new(LEGACY_PROFILES_PROPERTY, contributor.location(), LEGACY_REASON));
        }
        if contributor.is_ignore_profiles() && source.contains_property(ACTIVE_PROFILE_PROPERTY) {
            return Err(Self::new(ACTIVE_PROFILE_PROPERTY, contributor.location(), PROFILE_SPECIFIC_REASON));
        }
        Ok(())
    }

    /// Creates a new error.
    fn new(property_name: &str, location: Option<&ConfigDataLocation>, reason: &'static str) -> (r: Self)
        ensures
            r.property_name_spec() == property_name@,
            r.location_spec() == match location {
                Some(l) => Some(l@),
                None => None,
            },
            r.reason_spec() == reason@,
    {
        let location = match location {
            Some(l) => Some(l.copy()),
            None => None,
        };
        InvalidConfigDataPropertyError { property_name: property_name.to_owned(), location, reason }
    }

    /// Returns the name of the invalid property.
    pub fn property_name(&self) -> (r: &str)
        ensures
            r@ == self.property_name_spec(),
    {
        self.property_name.as_str()
    }

    /// Returns the location the invalid property was imported from, if any.
    pub fn location(&self) -> (r: Option<&ConfigDataLocation>)
        ensures
            match r {
                Some(l) => self.location_spec() == Some(l@),
                None => self.location_spec() is None,
            },
    {
        match &self.location {
            Some(l) => Some(l),
            None => None,
        }
    }

    /// Returns the message of the error, which names the property, the
    /// location it was imported from, and why it is invalid.
    pub fn to_string(&self) -> (r: String)
        ensures
            r@ == self.message_spec(),
    {
        let from = match &self.location {
            Some(l) => l.to_string(),
            None => "the environment".to_owned(),
        };
        proof {
            reveal_strlit("optional:");
        }
        let t = concat(&chars_of("Property '"), &chars_of(self.property_name.as_str()));
        let t = concat(&t, &chars_of("' imported from '"));
        let t = concat(&t, &chars_of(from.as_str()));
        let t = concat(&t, &chars_of("' is invalid: "));
        let t = concat(&t, &chars_of(self.reason));
        string_of(&t)
    }
}

} // verus!
