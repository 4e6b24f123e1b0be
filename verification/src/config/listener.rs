//! Listener that is notified while config data is applied to an environment.

use vstd::prelude::*;

use crate::config::location::ConfigDataLocation;
use crate::config::profiles::ConfigDataProfiles;

verus! {

/// Listener that can be used to track the updates that config data makes to
/// an environment.
///
/// Property sources are owned by the environment once they have been
/// applied, so the listener is told the name of the added source instead of
/// the source itself. Both notifications do nothing unless an implementation
/// overrides them.
pub trait ConfigDataEnvironmentUpdateListener {
    /// Called when a property source is added to the environment, with the
    /// location it was loaded from, when it was loaded from a location.
    fn on_property_source_added(&self, property_source: &str, location: Option<&ConfigDataLocation>) {
    }

    /// Called when the active and default profiles of the environment are
    /// set.
    fn on_set_profiles(&self, profiles: &ConfigDataProfiles) {
    }
}

/// A [`ConfigDataEnvironmentUpdateListener`] that does nothing.
#[derive(Debug, Clone, Copy, Default)]
pub struct NoOpConfigDataEnvironmentUpdateListener;

impl ConfigDataEnvironmentUpdateListener for NoOpConfigDataEnvironmentUpdateListener {

}

} // verus!
