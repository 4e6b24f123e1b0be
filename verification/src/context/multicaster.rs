//! Which event multicaster a context dispatches its events with once it is
//! refreshed.

use vstd::prelude::*;

verus! {

/// Where the event multicaster of a refreshed context comes from.
#[derive(Debug, Clone, Copy, PartialEq, Eq, Structural)]
pub enum MulticasterChoice {
    /// The multicaster the application installed as a singleton.
    UseInstalled,
    /// The multicaster the context created before it was refreshed, which
    /// keeps the listeners registered on it and the events it received.
    ReuseExisting,
    /// A new multicaster.
    CreateNew,
}

/// Where the multicaster comes from: the one the application installed, else
/// the one the context already holds, else a new one.
pub open spec fn choose_multicaster_spec(installed: bool, existing: bool) -> MulticasterChoice {
    if installed {
        MulticasterChoice::UseInstalled
    } else if existing {
        MulticasterChoice::ReuseExisting
    } else {
        MulticasterChoice::CreateNew
    }
}

/// Returns where the event multicaster of a refreshed context comes from,
/// given whether the application installed one as a singleton and whether
/// the context already holds one.
pub fn choose_multicaster(installed: bool, existing: bool) -> (r: MulticasterChoice)
    ensures
        r == choose_multicaster_spec(installed, existing),
{
    if installed {
        MulticasterChoice::UseInstalled
    } else if existing {
        MulticasterChoice::ReuseExisting
    } else {
        MulticasterChoice::CreateNew
    }
}

impl MulticasterChoice {
    /// Whether the multicaster is registered as the singleton of the
    /// context: every multicaster is, unless the application installed it.
    pub fn registers(&self) -> (r: bool)
        ensures
            r == (*self != MulticasterChoice::UseInstalled),
    {
        match self {
            MulticasterChoice::UseInstalled => false,
            _ => true,
        }
    }
}

} // verus!
