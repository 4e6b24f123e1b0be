//! The parts of the application that hold no configuration logic of their
//! own: its environment, the factory of its context, the place of the post
//! processor of secured properties among the post processors, and the
//! placeholder resolver that leaves values alone.

use vstd::prelude::*;

verus! {

/// The environment of an application.
#[derive(Debug, Clone, Copy, Default)]
pub struct ApplicationEnvironment {}

/// The factory of the default application context and environment.
#[derive(Debug, Clone, Copy, Default)]
pub struct DefaultApplicationContextFactory;

/// The post processor of the secured properties of the configuration, of
/// which only its order is held here: it runs before every other post
/// processor.
#[derive(Debug, Clone, Copy, Default)]
pub struct DecryptPropertiesPostProcessor;

impl DecryptPropertiesPostProcessor {
    /// Returns the order of the post processor, which is the lowest value,
    /// so that it runs first.
    pub fn order(&self) -> (r: i32)
        ensures
            r == i32::MIN,
    {
        i32::MIN
    }
}

/// A resolver of property placeholders that returns the value unchanged.
#[derive(Debug, Clone, Copy, Default)]
pub struct NoOpPlaceholdersResolver;

impl NoOpPlaceholdersResolver {
    /// Returns the given value, whose placeholders are left alone.
    pub fn resolve_placeholders<T>(&self, value: Option<T>) -> (r: Option<T>)
        ensures
            r == value,
    {
        value
    }
}

} // verus!
