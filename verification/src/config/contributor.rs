//! The contributors of config data: the tree of the documents that are loaded
//! for the locations of the environment.

use vstd::prelude::*;

use crate::config::activation::ConfigDataActivationContext;
use crate::config::loader::{activate_profile_spec, config_data_locations_spec, ConfigData, IMPORT_PROPERTY};
use crate::config::location::ConfigDataLocation;
use crate::config::profiles::views;
use crate::properties::source::PropertySource;
use crate::text::opt_view;

verus! {

broadcast use vstd::string::group_string_axioms;

/// The contributors the references refer to.
pub open spec fn derefs(s: Seq<&ConfigDataEnvironmentContributor>) -> Seq<ConfigDataEnvironmentContributor> {
    s.map_values(|r: &ConfigDataEnvironmentContributor| *r)
}

/// The views of locations.
pub open spec fn location_views(locations: Seq<ConfigDataLocation>) -> Seq<(Seq<char>, bool)> {
    locations.map_values(|l: ConfigDataLocation| l@)
}

/// A contributor of config data.
///
/// A contributor is a node in the tree that holds the documents that are
/// loaded for the locations of the environment. It holds the locations it
/// imports and, once those locations have been processed, the contributors
/// that were loaded from them.
///
/// Children come before their parent, so an imported document takes
/// precedence over the document that imports it.
#[derive(Debug)]
pub struct ConfigDataEnvironmentContributor {
    location: Option<ConfigDataLocation>,
    property_source: Option<PropertySource>,
    imports: Vec<ConfigDataLocation>,
    children: Vec<ConfigDataEnvironmentContributor>,
    activate_profile: Option<String>,
    ignore_profiles: bool,
}

impl ConfigDataEnvironmentContributor {
    /// The location the contributor was loaded from.
    pub closed spec fn location_spec(&self) -> Option<(Seq<char>, bool)> {
        match self.location {
            Some(l) => Some(l@),
            None => None,
        }
    }

    /// The property source of the contributor.
    pub closed spec fn property_source_spec(&self) -> Option<PropertySource> {
        self.property_source
    }

    /// The locations the contributor imports.
    pub closed spec fn imports_spec(&self) -> Seq<(Seq<char>, bool)> {
        location_views(self.imports@)
    }

    /// The contributors loaded from the imports, in descending precedence
    /// order.
    pub closed spec fn children_spec(&self) -> Seq<ConfigDataEnvironmentContributor> {
        self.children@
    }

    /// The profile expression the contributor is active for.
    pub closed spec fn activate_profile_spec(&self) -> Option<Seq<char>> {
        opt_view(self.activate_profile)
    }

    /// Whether the contributor takes no part in the deduction of the active
    /// profiles.
    pub closed spec fn ignore_profiles_spec(&self) -> bool {
        self.ignore_profiles
    }

    /// Whether the contributor is active in the context: it is unless its
    /// expression does not match.
    pub open spec fn is_active_spec(&self, context: ConfigDataActivationContext) -> bool {
        match self.activate_profile_spec() {
            Some(e) => context.accepts_spec(seq![e]),
            None => true,
        }
    }

    /// Whether the contributor is the one made for a document loaded from
    /// the given location: it holds the property source, the imports and
    /// the activation expression of the document, and no child yet; it
    /// takes no part in the deduction of the profiles when the resource is
    /// profile specific or the document has an activation expression.
    pub open spec fn is_document_spec(
        &self,
        location: (Seq<char>, bool),
        config: ConfigData,
        profile_specific: bool,
    ) -> bool {
        &&& self.location_spec() == Some(location)
        &&& self.property_source_spec() == Some(config.source_spec())
        &&& self.imports_spec() == match config.source_spec().property_spec(IMPORT_PROPERTY@) {
            Some(v) => config_data_locations_spec(v),
            None => Seq::empty(),
        }
        &&& self.children_spec().len() == 0
        &&& self.activate_profile_spec() == config.activate_profile_spec()
        &&& self.ignore_profiles_spec() == (profile_specific || config.activate_profile_spec() is Some)
    }

    /// The contributor and its descendants, children before their parent.
    pub closed spec fn flatten_spec(self) -> Seq<ConfigDataEnvironmentContributor>
        decreases self,
    {
        flatten_all(self.children@).push(self)
    }

    /// A contributor flattens to its descendants, children before their
    /// parent, followed by itself.
    pub proof fn lemma_flatten(self)
        ensures
            self.flatten_spec() == flatten_all(self.children_spec()).push(self),
    {
    }

    /// Creates a contributor for a set of locations that have to be imported.
    pub fn initial_imports(locations: Vec<ConfigDataLocation>) -> (r: Self)
        ensures
            r.location_spec() is None,
            r.property_source_spec() is None,
            r.imports_spec() == location_views(locations@),
            r.children_spec().len() == 0,
            r.activate_profile_spec() is None,
            !r.ignore_profiles_spec(),
    {
        ConfigDataEnvironmentContributor {
            location: None,
            property_source: None,
            imports: locations,
            children: Vec::new(),
            activate_profile: None,
            ignore_profiles: false,
        }
    }

    /// Creates a contributor for a document that has been loaded from the
    /// given location; a document that was resolved for a profile, or that
    /// has an activation expression, takes no part in the deduction of the
    /// profiles.
    pub fn of_config_data(location: ConfigDataLocation, config: ConfigData, profile_specific: bool) -> (r: Self)
        ensures
            r.is_document_spec(location@, config, profile_specific),
    {
        let imports = config.imports();
        let activate_profile = match config.activate_profile() {
            Some(p) => Some(p.to_owned()),
            None => None,
        };
        let ignore_profiles = profile_specific || activate_profile.is_some();
        ConfigDataEnvironmentContributor {
            location: Some(location),
            property_source: Some(config.into_property_source()),
            imports,
            children: Vec::new(),
            activate_profile,
            ignore_profiles,
        }
    }

    /// Returns the location this contributor was loaded from, if any.
    pub fn location(&self) -> (r: Option<&ConfigDataLocation>)
        ensures
            match r {
                Some(l) => self.location_spec() == Some(l@),
                None => self.location_spec() is None,
            },
    {
        match &self.location {
            Some(l) => Some(l),
            None => None,
        }
    }

    /// Returns the property source of this contributor, if any.
    pub fn property_source(&self) -> (r: Option<&PropertySource>)
        ensures
            match r {
                Some(s) => self.property_source_spec() == Some(*s),
                None => self.property_source_spec() is None,
            },
    {
        match &self.property_source {
            Some(s) => Some(s),
            None => None,
        }
    }

    /// Returns the property source of this contributor, if any.
    pub fn into_property_source(self) -> (r: Option<PropertySource>)
        ensures
            r == self.property_source_spec(),
    {
        self.property_source
    }

    /// Returns the locations imported by this contributor.
    pub fn imports(&self) -> (r: &Vec<ConfigDataLocation>)
        ensures
            location_views(r@) == self.imports_spec(),
    {
        &self.imports
    }

    /// Returns whether this contributor imports any location.
    pub fn has_imports(&self) -> (r: bool)
        ensures
            r == (self.imports_spec().len() > 0),
    {
        self.imports.len() > 0
    }

    /// Returns the locations imported by this contributor that must exist.
    pub fn mandatory_imports(&self) -> (r: Vec<ConfigDataLocation>)
        ensures
            location_views(r@) == self.imports_spec().filter(|l: (Seq<char>, bool)| !l.1),
    {
        let ghost all = self.imports_spec();
        let mut r: Vec<ConfigDataLocation> = Vec::new();
        let mut i: usize = 0;
        while i < self.imports.len()
            invariant
                i <= self.imports.len(),
                all == self.imports_spec(),
                location_views(r@) == all.take(i as int).filter(|l: (Seq<char>, bool)| !l.1),
            decreases self.imports.len() - i,
        {
            proof {
                reveal_with_fuel(Seq::<_>::filter, 1);
                assert(all.take(i + 1).drop_last() =~= all.take(i as int));
                assert(all.take(i + 1).last() == self.imports@[i as int]@);
            }
            if !self.imports[i].is_optional() {
                let ghost before = r@;
                let l = self.imports[i].copy();
                r.push(l);
                assert(location_views(r@) =~= location_views(before).push(l@));
            }
            i = i + 1;
        }
        assert(all.take(i as int) =~= all);
        r
    }

    /// Returns whether this contributor takes no part in the deduction of the
    /// active profiles, because it is specific to a profile.
    pub fn is_ignore_profiles(&self) -> (r: bool)
        ensures
            r == self.ignore_profiles_spec(),
    {
        self.ignore_profiles
    }

    /// Returns whether this contributor is active in the given context; one
    /// without an activation expression always is.
    pub fn is_active(&self, activation_context: &ConfigDataActivationContext) -> (r: bool)
        ensures
            r == self.is_active_spec(*activation_context),
    {
        match &self.activate_profile {
            Some(expression) => {
                let expressions = vec![expression.clone()];
                assert(views(expressions@) =~= seq![expression@]);
                activation_context.accepts(&expressions)
            },
            None => true,
        }
    }

    /// Returns the contributors loaded from the imports of this contributor.
    pub fn children(&self) -> (r: &Vec<ConfigDataEnvironmentContributor>)
        ensures
            r@ == self.children_spec(),
    {
        &self.children
    }

    /// Takes the children of this contributor, which is left without any.
    pub fn take_children(&mut self) -> (r: Vec<ConfigDataEnvironmentContributor>)
        ensures
            r@ == old(self).children_spec(),
            final(self).children_spec().len() == 0,
            final(self).same_node(*old(self)),
    {
        let mut children: Vec<ConfigDataEnvironmentContributor> = Vec::new();
        std::mem::swap(&mut children, &mut self.children);
        children
    }

    /// Replaces the children of this contributor.
    pub fn set_children(&mut self, children: Vec<ConfigDataEnvironmentContributor>)
        ensures
            final(self).children_spec() == children@,
            final(self).same_node(*old(self)),
    {
        self.children = children;
    }

    /// Adds the given contributors ahead of the already loaded ones, so that
    /// they take precedence.
    pub fn prepend_children(&mut self, children: Vec<ConfigDataEnvironmentContributor>)
        ensures
            final(self).children_spec() == children@ + old(self).children_spec(),
            final(self).location_spec() == old(self).location_spec(),
            final(self).property_source_spec() == old(self).property_source_spec(),
            final(self).imports_spec() == old(self).imports_spec(),
            final(self).activate_profile_spec() == old(self).activate_profile_spec(),
            final(self).ignore_profiles_spec() == old(self).ignore_profiles_spec(),
    {
        let mut children = children;
        let mut rest: Vec<ConfigDataEnvironmentContributor> = Vec::new();
        std::mem::swap(&mut rest, &mut self.children);
        children.append(&mut rest);
        self.children = children;
    }

    /// Adds this contributor and its descendants to the given list, children
    /// before their parent.
    pub fn flatten<'a>(&'a self, result: &mut Vec<&'a ConfigDataEnvironmentContributor>)
        ensures
            derefs(final(result)@) == derefs(old(result)@) + self.flatten_spec(),
        decreases self,
    {
        let ghost start = derefs(result@);
        let mut i: usize = 0;
        while i < self.children.len()
            invariant
                i <= self.children.len(),
                derefs(result@) == start + flatten_all(self.children@.take(i as int)),
            decreases self.children.len() - i,
        {
            assert(self.children@.take(i + 1).drop_last() =~= self.children@.take(i as int));
            assert(self.children@.take(i + 1).last() == self.children@[i as int]);
            proof {
                assert(decreases_to!(self => self.children));
            }
            self.children[i].flatten(result);
            i = i + 1;
            assert(derefs(result@) =~= start + flatten_all(self.children@.take(i as int)));
        }
        assert(self.children@.take(i as int) =~= self.children@);
        let ghost before = result@;
        result.push(self);
        assert(derefs(result@) =~= derefs(before).push(*self));
        assert(derefs(result@) =~= start + self.flatten_spec());
    }

    /// Whether two contributors hold the same document, whatever their
    /// children.
    pub open spec fn same_node(&self, other: ConfigDataEnvironmentContributor) -> bool {
        &&& self.location_spec() == other.location_spec()
        &&& self.property_source_spec() == other.property_source_spec()
        &&& self.imports_spec() == other.imports_spec()
        &&& self.activate_profile_spec() == other.activate_profile_spec()
        &&& self.ignore_profiles_spec() == other.ignore_profiles_spec()
    }

    /// Moves this contributor and its descendants to the given list, children
    /// before their parent; the contributors that are moved no longer hold
    /// their children.
    pub fn into_flattened(self, result: &mut Vec<ConfigDataEnvironmentContributor>)
        ensures
            final(result)@.len() == old(result)@.len() + self.flatten_spec().len(),
            forall|k: int| 0 <= k < old(result)@.len() ==> #[trigger] final(result)@[k] == old(result)@[k],
            forall|k: int|
                0 <= k < self.flatten_spec().len() ==> (#[trigger] final(result)@[old(result)@.len() + k]).same_node(
                    self.flatten_spec()[k],
                ),
        decreases self,
    {
        let mut node = self;
        let mut children: Vec<ConfigDataEnvironmentContributor> = Vec::new();
        std::mem::swap(&mut children, &mut node.children);
        let ghost start = result@;
        let ghost all = children@;
        assert(self.flatten_spec() == flatten_all(all).push(self));
        let mut i: usize = 0;
        let mut rest = children;
        let n: usize = rest.len();
        assert(rest@ =~= all.subrange(0, all.len() as int));
        assert(all.take(0) =~= Seq::<ConfigDataEnvironmentContributor>::empty());
        while rest.len() > 0
            invariant
                all.len() == n,
                i + rest@.len() == all.len(),
                rest@ == all.subrange(i as int, all.len() as int),
                result@.len() == start.len() + flatten_all(all.take(i as int)).len(),
                forall|k: int| 0 <= k < start.len() ==> #[trigger] result@[k] == start[k],
                forall|k: int|
                    0 <= k < flatten_all(all.take(i as int)).len() ==> (#[trigger] result@[start.len()
                        + k]).same_node(flatten_all(all.take(i as int))[k]),
                forall|k: int| 0 <= k < all.len() ==> decreases_to!(self => #[trigger] all[k]),
            decreases rest.len(),
        {
            let child = rest.remove(0);
            assert(child == all[i as int]);
            assert(all.take(i + 1).subrange(0, i as int) =~= all.take(i as int));
            let ghost prev = flatten_all(all.take(i as int));
            let ghost mid = result@;
            child.into_flattened(result);
            proof {
                let next = flatten_all(all.take(i + 1));
                assert(next =~= prev + child.flatten_spec());
                assert forall|k: int| 0 <= k < next.len() implies (#[trigger] result@[start.len()
                    + k]).same_node(next[k]) by {
                    if k < prev.len() {
                        assert(result@[start.len() + k] == mid[start.len() + k]);
                    } else {
                        assert(result@[mid.len() + (k - prev.len())] == result@[start.len() + k]);
                    }
                }
            }
            assert(rest@ =~= all.subrange(i + 1, all.len() as int));
            i = i + 1;
        }
        assert(all.take(i as int) =~= all);
        let ghost before = result@;
        result.push(node);
        proof {
            assert(result@[before.len() as int] == node);
            assert(node.same_node(self));
        }
    }
}

/// The contributors and their descendants, in order, children before their
/// parent.
pub open spec fn flatten_all(contributors: Seq<ConfigDataEnvironmentContributor>) -> Seq<
    ConfigDataEnvironmentContributor,
>
    decreases contributors,
{
    if contributors.len() == 0 {
        Seq::empty()
    } else {
        flatten_all(contributors.subrange(0, contributors.len() - 1)) + contributors[contributors.len()
            - 1].flatten_spec()
    }
}

} // verus!
