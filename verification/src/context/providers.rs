//! The rules by which an application context registers its providers and
//! resolves the instances they create.

use vstd::prelude::*;

verus! {

/// The scope of the instances of a provider.
#[derive(Debug, Clone, Copy, PartialEq, Eq, Structural)]
pub enum Scope {
    /// One instance, created once and kept by the context.
    Singleton,
    /// A new instance for every resolution.
    Transient,
    /// One instance that belongs to the context, which lends it out.
    SingleOwner,
}

/// What resolving an instance starts with.
#[derive(Debug, Clone, Copy, PartialEq, Eq, Structural)]
pub enum ResolveStep {
    /// The instance exists already and is handed out as it is.
    Cached,
    /// No provider creates the instance.
    Missing,
    /// The instance belongs to the context and can only be borrowed from it.
    SingleOwner,
    /// The instance is already being created: its dependencies form a cycle.
    Circular,
    /// The provider creates the instance.
    Build,
}

/// What becomes of an instance that a provider created.
#[derive(Debug, Clone, Copy, PartialEq, Eq, Structural)]
pub enum Disposition {
    /// The instance is handed out and not kept.
    Returned,
    /// A copy is kept by the context and the instance is handed out.
    StoredAndReturned,
    /// The instance cannot be copied: it is kept by the context, which can
    /// only lend it out afterwards.
    Stored,
}

/// What registering a provider does.
#[derive(Debug, Clone, Copy, PartialEq, Eq, Structural)]
pub enum Registration {
    /// The provider is registered, and its instance is created while the
    /// context is refreshed when `eager` holds.
    Registered { eager: bool },
    /// Another provider has the same key and may not be replaced.
    Rejected,
}

/// The first step of resolving an instance: an existing instance wins; else
/// the provider decides, unless there is none, its instance can only be
/// borrowed, or it is already being created.
pub open spec fn resolve_step_spec(cached: bool, provider_scope: Option<Scope>, resolving: bool) -> ResolveStep {
    if cached {
        ResolveStep::Cached
    } else {
        match provider_scope {
            None => ResolveStep::Missing,
            Some(Scope::SingleOwner) => ResolveStep::SingleOwner,
            Some(_) => if resolving {
                ResolveStep::Circular
            } else {
                ResolveStep::Build
            },
        }
    }
}

/// Returns the first step of resolving an instance, from whether it exists
/// already, the scope of its provider when there is one, and whether it is
/// being created.
pub fn resolve_step(cached: bool, provider_scope: Option<Scope>, resolving: bool) -> (r: ResolveStep)
    ensures
        r == resolve_step_spec(cached, provider_scope, resolving),
{
    if cached {
        return ResolveStep::Cached;
    }
    match provider_scope {
        None => ResolveStep::Missing,
        Some(Scope::SingleOwner) => ResolveStep::SingleOwner,
        Some(_) => if resolving {
            ResolveStep::Circular
        } else {
            ResolveStep::Build
        },
    }
}

/// What becomes of a created instance: a transient one is handed out, a
/// singleton is kept, with a copy handed out when it can be copied.
pub open spec fn disposition_spec(scope: Scope, copyable: bool) -> Disposition {
    if scope != Scope::Singleton {
        Disposition::Returned
    } else if copyable {
        Disposition::StoredAndReturned
    } else {
        Disposition::Stored
    }
}

/// Returns what becomes of an instance that a provider of the given scope
/// created.
pub fn disposition(scope: Scope, copyable: bool) -> (r: Disposition)
    requires
        scope != Scope::SingleOwner,
    ensures
        r == disposition_spec(scope, copyable),
{
    match scope {
        Scope::Singleton => if copyable {
            Disposition::StoredAndReturned
        } else {
            Disposition::Stored
        },
        _ => Disposition::Returned,
    }
}

/// How a context registers its providers.
#[derive(Debug, Clone, Copy, PartialEq, Eq, Structural)]
pub struct ProviderPolicy {
    /// Whether a provider may replace another with the same key.
    pub allow_override: bool,
    /// Whether every provider is created eagerly.
    pub eager_create: bool,
    /// Whether only singletons and single owner instances may be created
    /// eagerly.
    pub allow_only_single_eager_create: bool,
    /// Whether the providers of the attribute macros have been loaded.
    pub auto_providers_loaded: bool,
}

/// What registering a provider does: it is rejected when its key is taken
/// and may not be replaced; its instance is created eagerly when the
/// context, the registration or the provider asks for it, and its scope
/// allows it.
pub open spec fn registration_spec(
    policy: ProviderPolicy,
    eager_create: bool,
    provider_eager_create: bool,
    scope: Scope,
    key_registered: bool,
) -> Registration {
    if key_registered && !policy.allow_override {
        Registration::Rejected
    } else {
        let needed = policy.eager_create || eager_create || provider_eager_create;
        let allowed = !policy.allow_only_single_eager_create || scope == Scope::Singleton || scope
            == Scope::SingleOwner;
        Registration::Registered { eager: needed && allowed }
    }
}

impl ProviderPolicy {
    /// The policy of a new context: providers may be replaced, only those
    /// that ask for it are created eagerly, and only singletons and single
    /// owner instances may be.
    pub fn new() -> (r: Self)
        ensures
            r.allow_override,
            !r.eager_create,
            r.allow_only_single_eager_create,
            !r.auto_providers_loaded,
    {
        ProviderPolicy {
            allow_override: true,
            eager_create: false,
            allow_only_single_eager_create: true,
            auto_providers_loaded: false,
        }
    }

    /// Sets whether a provider may replace another with the same key.
    pub fn set_allow_override(&mut self, allow_override: bool)
        ensures
            *final(self) == (ProviderPolicy { allow_override, ..*old(self) }),
    {
        self.allow_override = allow_override;
    }

    /// Returns what registering a provider does, from whether the
    /// registration asks for an eager instance, whether the provider asks
    /// for one, its scope, and whether its key is registered already.
    pub fn registration(
        &self,
        eager_create: bool,
        provider_eager_create: bool,
        scope: Scope,
        key_registered: bool,
    ) -> (r: Registration)
        ensures
            r == registration_spec(*self, eager_create, provider_eager_create, scope, key_registered),
    {
        if key_registered && !self.allow_override {
            return Registration::Rejected;
        }
        let needed = self.eager_create || eager_create || provider_eager_create;
        let allowed = !self.allow_only_single_eager_create || scope == Scope::Singleton || scope
            == Scope::SingleOwner;
        Registration::Registered { eager: needed && allowed }
    }

    /// Returns whether the providers of the attribute macros are to be
    /// loaded now: they are loaded once.
    pub fn begin_auto_providers(&mut self) -> (r: bool)
        ensures
            r == !old(self).auto_providers_loaded,
            *final(self) == (ProviderPolicy { auto_providers_loaded: true, ..*old(self) }),
    {
        if self.auto_providers_loaded {
            return false;
        }
        self.auto_providers_loaded = true;
        true
    }
}

impl Default for ProviderPolicy {
    /// The policy of a new context.
    fn default() -> (r: Self)
        ensures
            r.allow_override,
            !r.eager_create,
            r.allow_only_single_eager_create,
            !r.auto_providers_loaded,
    {
        Self::new()
    }
}

} // verus!
