//! What happens when a config data location that must exist cannot be found.

use vstd::prelude::*;

use crate::config::location::ConfigDataLocation;
use crate::text::{chars_of, equals, join3, lower_spec, to_ascii_lowercase, trim, trim_spec};

verus! {

broadcast use vstd::string::group_string_axioms;

/// The property value that makes missing locations fail.
pub const FAIL: &'static str = "fail";

/// The property value that makes missing locations be ignored.
pub const IGNORE: &'static str = "ignore";

/// Error reported when a config data location that must exist cannot be
/// resolved to any resource.
#[derive(Debug, Clone, PartialEq, Eq)]
pub struct ConfigDataLocationNotFoundError {
    location: ConfigDataLocation,
}

impl ConfigDataLocationNotFoundError {
    /// The location that could not be resolved.
    pub closed spec fn location_spec(&self) -> (Seq<char>, bool) {
        self.location@
    }

    /// The message of the error.
    pub open spec fn message_spec(&self) -> Seq<char> {
        let l = self.location_spec();
        "Config data location '"@ + (if l.1 {
            "optional:"@ + l.0
        } else {
            l.0
        }) + "' does not exist"@
    }

    /// Creates a new error for the given location.
    pub fn new(location: ConfigDataLocation) -> (r: Self)
        ensures
            r.location_spec() == location@,
    {
        ConfigDataLocationNotFoundError { location }
    }

    /// Returns the location that could not be resolved.
    pub fn location(&self) -> (r: &ConfigDataLocation)
        ensures
            r@ == self.location_spec(),
    {
        &self.location
    }

    /// Returns the message of the error, which names the location.
    pub fn to_string(&self) -> (r: String)
        ensures
            r@ == self.message_spec(),
    {
        let location = self.location.to_string();
        proof {
            reveal_strlit("optional:");
        }
        join3("Config data location '", location.as_str(), "' does not exist")
    }
}

/// The action to take when a config data location that must exist cannot be
/// found, selected through the `next.config.on-not-found` property.
#[derive(Debug, Clone, Copy, PartialEq, Eq, Structural)]
pub enum ConfigDataNotFoundAction {
    /// Report a [`ConfigDataLocationNotFoundError`] (the default).
    Fail,
    /// Continue without the location.
    Ignore,
}

impl Default for ConfigDataNotFoundAction {
    /// Failing is the default.
    fn default() -> (r: Self)
        ensures
            r == ConfigDataNotFoundAction::Fail,
    {
        ConfigDataNotFoundAction::Fail
    }
}

/// The action of a property value: the value is trimmed and matched case
/// insensitively, and an unknown value has no action.
pub open spec fn action_of_spec(value: Seq<char>) -> Option<ConfigDataNotFoundAction> {
    let v = lower_spec(trim_spec(value));
    if v == FAIL@ {
        Some(ConfigDataNotFoundAction::Fail)
    } else if v == IGNORE@ {
        Some(ConfigDataNotFoundAction::Ignore)
    } else {
        None
    }
}

impl ConfigDataNotFoundAction {
    /// Returns the action for the given property value, if it is a known
    /// action; the value is matched case insensitively.
    pub fn of(value: &str) -> (r: Option<Self>)
        ensures
            r == action_of_spec(value@),
    {
        let v = to_ascii_lowercase(&trim(&chars_of(value)));
        if equals(&v, &chars_of(FAIL)) {
            Some(ConfigDataNotFoundAction::Fail)
        } else if equals(&v, &chars_of(IGNORE)) {
            Some(ConfigDataNotFoundAction::Ignore)
        } else {
            None
        }
    }

    /// Handles a location that could not be found: the error is returned by
    /// the `Fail` action, and dropped by the `Ignore` action.
    pub fn handle(&self, error: ConfigDataLocationNotFoundError) -> (r: Result<
        (),
        ConfigDataLocationNotFoundError,
    >)
        ensures
            *self == ConfigDataNotFoundAction::Fail <==> r is Err,
            r matches Err(e) ==> e.location_spec() == error.location_spec(),
    {
        match self {
            ConfigDataNotFoundAction::Fail => Err(error),
            ConfigDataNotFoundAction::Ignore => Ok(()),
        }
    }
}

} // verus!
