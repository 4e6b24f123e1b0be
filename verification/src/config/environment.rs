//! How config data is imported and applied to an environment: the
//! contributors it is loaded into, the importer that resolves and loads the
//! locations, and the checks and profiles that follow.

use vstd::prelude::*;

use crate::config::activation::ConfigDataActivationContext;
use crate::config::contributor::{
    derefs, flatten_all, location_views, ConfigDataEnvironmentContributor,
};
use crate::config::index::ResourceIndex;
use crate::config::invalid_property::InvalidConfigDataPropertyError;
use crate::config::loader::{config_data_locations, config_data_locations_spec, ConfigData, ConfigDataLoader};
use crate::config::location::{location_of_spec, ConfigDataLocation};
use crate::config::not_found::{ConfigDataLocationNotFoundError, ConfigDataNotFoundAction};
use crate::config::profiles::{
    dedupe_spec, profiles_from_value, profiles_from_value_spec, views, ConfigDataProfiles,
    ACTIVE_PROFILE_PROPERTY, DEFAULT_PROFILE_PROPERTY, INCLUDE_PROFILES,
};
use crate::config::resource::{
    all_from, lemma_profiles_only_add_profile_files, parts_of, resolve_spec, ConfigDataLocationResolver, ConfigDataResource, ResourcePart,
    FILE_SYSTEM_KEY_PREFIX,
};
use crate::properties::source::PropertySource;
use crate::text::{chars_of, copy_strings, equals, opt_view};

verus! {

broadcast use vstd::string::group_string_axioms;

/// Property used to override the imported locations.
pub const LOCATION_PROPERTY: &'static str = "next.config.location";

/// Property used to provide additional locations to import.
pub const ADDITIONAL_LOCATION_PROPERTY: &'static str = "next.config.additional-location";

/// Property used to determine what action to take when a location that must
/// exist cannot be found.
pub const ON_NOT_FOUND_PROPERTY: &'static str = "next.config.on-not-found";

/// The maximum number of nested imports that are followed, which guards
/// against locations that import themselves.
pub const MAX_IMPORT_DEPTH: usize = 4;

/// The locations that are searched when `next.config.location` is not set:
/// the resources first, then the file system, which takes precedence.
pub open spec fn default_search_locations_spec() -> Seq<(Seq<char>, bool)> {
    seq![
        location_of_spec("optional:/;optional:/config/"@),
        location_of_spec("optional:file:./;optional:file:./config/;optional:file:./config/*/"@),
    ]
}

/// Returns the locations that are searched when `next.config.location` is not
/// set.
pub fn default_search_locations() -> (r: Vec<ConfigDataLocation>)
    ensures
        location_views(r@) == default_search_locations_spec(),
{
    let r = vec![
        ConfigDataLocation::of("optional:/;optional:/config/"),
        ConfigDataLocation::of("optional:file:./;optional:file:./config/;optional:file:./config/*/"),
    ];
    assert(location_views(r@) =~= default_search_locations_spec());
    r
}

/// Error raised while config data is processed.
#[derive(Debug)]
pub enum ConfigDataEnvironmentError {
    /// A location that must exist could not be found.
    LocationNotFound(ConfigDataLocationNotFoundError),
    /// An invalid property was found in the config data.
    InvalidProperty(InvalidConfigDataPropertyError),
}

impl ConfigDataEnvironmentError {
    /// Returns the message of the error, which is that of its cause.
    pub fn to_string(&self) -> (r: String)
        ensures
            r@ == match self {
                ConfigDataEnvironmentError::LocationNotFound(e) => e.message_spec(),
                ConfigDataEnvironmentError::InvalidProperty(e) => e.message_spec(),
            },
    {
        match self {
            ConfigDataEnvironmentError::LocationNotFound(e) => e.to_string(),
            ConfigDataEnvironmentError::InvalidProperty(e) => e.to_string(),
        }
    }
}

/// The values a profile property takes in the contributors that may deduce
/// profiles, in their order.
pub open spec fn profile_values_spec(contributors: Seq<ConfigDataEnvironmentContributor>, name: Seq<char>) -> Seq<
    Seq<char>,
>
    decreases contributors.len(),
{
    if contributors.len() == 0 {
        Seq::empty()
    } else {
        let rest = profile_values_spec(contributors.drop_last(), name);
        let c = contributors.last();
        if c.ignore_profiles_spec() {
            rest
        } else {
            match c.property_source_spec() {
                Some(s) => match s.property_spec(name) {
                    Some(v) => rest.push(v),
                    None => rest,
                },
                None => rest,
            }
        }
    }
}

/// The value a contributor gives a profile property, if it may deduce
/// profiles: a contributor that ignores profiles gives none.
pub open spec fn profile_value_of(contributor: ConfigDataEnvironmentContributor, name: Seq<char>) -> Option<Seq<char>> {
    if contributor.ignore_profiles_spec() {
        None
    } else {
        match contributor.property_source_spec() {
            Some(s) => s.property_spec(name),
            None => None,
        }
    }
}

/// The values of a profile property come in the order of the contributors,
/// which is their descending precedence: the value of every contributor that
/// gives the property is among them, at a position that grows with the
/// position of the contributor, and each value is given by a contributor.
pub proof fn lemma_profile_values_in_contributor_order(
    contributors: Seq<ConfigDataEnvironmentContributor>,
    name: Seq<char>,
)
    ensures
        ({
            let values = profile_values_spec(contributors, name);
            exists|positions: Seq<int>|
                {
                    &&& positions.len() == values.len()
                    &&& forall|k: int|
                        0 <= k < values.len() ==> 0 <= #[trigger] positions[k] < contributors.len()
                            && profile_value_of(contributors[positions[k]], name) == Some(values[k])
                    &&& forall|k: int, m: int| 0 <= k < m < values.len() ==> positions[k] < positions[m]
                    &&& forall|c: int|
                        0 <= c < contributors.len() && (#[trigger] profile_value_of(contributors[c], name)) is Some
                            ==> exists|k: int| 0 <= k < values.len() && positions[k] == c
                }
        }),
    decreases contributors.len(),
{
    let values = profile_values_spec(contributors, name);
    if contributors.len() == 0 {
        assert(values.len() == 0);
        let positions = Seq::<int>::empty();
        assert(positions.len() == values.len());
    } else {
        let init = contributors.drop_last();
        let last = contributors.len() - 1;
        lemma_profile_values_in_contributor_order(init, name);
        let rest = profile_values_spec(init, name);
        let ps = choose|positions: Seq<int>|
            {
                &&& positions.len() == rest.len()
                &&& forall|k: int|
                    0 <= k < rest.len() ==> 0 <= #[trigger] positions[k] < init.len()
                        && profile_value_of(init[positions[k]], name) == Some(rest[k])
                &&& forall|k: int, m: int| 0 <= k < m < rest.len() ==> positions[k] < positions[m]
                &&& forall|c: int|
                    0 <= c < init.len() && (#[trigger] profile_value_of(init[c], name)) is Some
                        ==> exists|k: int| 0 <= k < rest.len() && positions[k] == c
            };
        assert(contributors.last() == contributors[last]);
        assert forall|c: int| 0 <= c < init.len() implies init[c] == contributors[c] by {}
        match profile_value_of(contributors[last], name) {
            Some(v) => {
                assert(values == rest.push(v));
                let positions = ps.push(last);
                assert forall|k: int|
                    0 <= k < values.len() implies 0 <= #[trigger] positions[k] < contributors.len()
                        && profile_value_of(contributors[positions[k]], name) == Some(values[k]) by {
                    if k < rest.len() {
                        assert(positions[k] == ps[k]);
                        assert(init[ps[k]] == contributors[ps[k]]);
                    }
                }
                assert forall|c: int|
                    0 <= c < contributors.len() && (#[trigger] profile_value_of(contributors[c], name)) is Some
                        implies exists|k: int| 0 <= k < values.len() && positions[k] == c by {
                    if c < last {
                        assert(init[c] == contributors[c]);
                        assert(profile_value_of(init[c], name) is Some);
                        let k = choose|k: int| 0 <= k < rest.len() && ps[k] == c;
                        assert(positions[k] == c);
                    } else {
                        assert(positions[rest.len() as int] == c);
                    }
                }
            },
            None => {
                assert(values == rest);
                assert forall|k: int|
                    0 <= k < values.len() implies 0 <= #[trigger] ps[k] < contributors.len()
                        && profile_value_of(contributors[ps[k]], name) == Some(values[k]) by {
                    assert(init[ps[k]] == contributors[ps[k]]);
                }
                assert forall|c: int|
                    0 <= c < contributors.len() && (#[trigger] profile_value_of(contributors[c], name)) is Some
                        implies exists|k: int| 0 <= k < values.len() && ps[k] == c by {
                    assert(c != last);
                    assert(init[c] == contributors[c]);
                    assert(profile_value_of(init[c], name) is Some);
                }
            },
        }
    }
}

/// The value of a profile property is that of the first contributor, in
/// descending precedence, that gives it: `get_profile_property` returns it,
/// and the profiles are deduced from it.
pub proof fn lemma_first_contributor_gives_profile_property(
    contributors: Seq<ConfigDataEnvironmentContributor>,
    name: Seq<char>,
    i: int,
    v: Seq<char>,
)
    requires
        0 <= i < contributors.len(),
        profile_value_of(contributors[i], name) == Some(v),
        forall|j: int| 0 <= j < i ==> (#[trigger] profile_value_of(contributors[j], name)) is None,
    ensures
        profile_values_spec(contributors, name).len() > 0,
        profile_values_spec(contributors, name)[0] == v,
        profile_property_spec(None, contributors, name) == Some(v),
{
    lemma_profile_values_in_contributor_order(contributors, name);
    let values = profile_values_spec(contributors, name);
    let positions = choose|positions: Seq<int>|
        {
            &&& positions.len() == values.len()
            &&& forall|k: int|
                0 <= k < values.len() ==> 0 <= #[trigger] positions[k] < contributors.len()
                    && profile_value_of(contributors[positions[k]], name) == Some(values[k])
            &&& forall|k: int, m: int| 0 <= k < m < values.len() ==> positions[k] < positions[m]
            &&& forall|c: int|
                0 <= c < contributors.len() && (#[trigger] profile_value_of(contributors[c], name)) is Some
                    ==> exists|k: int| 0 <= k < values.len() && positions[k] == c
        };
    let k = choose|k: int| 0 <= k < values.len() && positions[k] == i;
    if k > 0 {
        assert(positions[0] < positions[k]);
        assert(profile_value_of(contributors[positions[0]], name) is Some);
    }
}

/// The contributors that make up the config data environment.
///
/// Contributors are searched in precedence order, and the imports they
/// declare are expanded in place, so that the property sources of an
/// imported document are added ahead of the document that imports it.
#[derive(Debug)]
pub struct ConfigDataEnvironmentContributors {
    contributors: Vec<ConfigDataEnvironmentContributor>,
}

impl ConfigDataEnvironmentContributors {
    /// The root contributors, in descending precedence order.
    pub closed spec fn roots_spec(&self) -> Seq<ConfigDataEnvironmentContributor> {
        self.contributors@
    }

    /// Every contributor, in descending precedence order.
    pub open spec fn flattened_spec(&self) -> Seq<ConfigDataEnvironmentContributor> {
        flatten_all(self.roots_spec())
    }

    /// Creates a new collection for the given contributors, in descending
    /// precedence order.
    pub fn new(contributors: Vec<ConfigDataEnvironmentContributor>) -> (r: Self)
        ensures
            r.roots_spec() == contributors@,
    {
        ConfigDataEnvironmentContributors { contributors }
    }

    /// Returns every contributor, in descending precedence order.
    pub fn flattened(&self) -> (r: Vec<&ConfigDataEnvironmentContributor>)
        ensures
            derefs(r@) == self.flattened_spec(),
    {
        let mut result: Vec<&ConfigDataEnvironmentContributor> = Vec::new();
        let mut i: usize = 0;
        assert(derefs(result@) =~= Seq::<ConfigDataEnvironmentContributor>::empty());
        assert(self.contributors@.take(0) =~= Seq::<ConfigDataEnvironmentContributor>::empty());
        while i < self.contributors.len()
            invariant
                i <= self.contributors.len(),
                derefs(result@) == flatten_all(self.contributors@.take(i as int)),
            decreases self.contributors.len() - i,
        {
            assert(self.contributors@.take(i + 1).subrange(0, i as int) =~= self.contributors@.take(i as int));
            self.contributors[i].flatten(&mut result);
            i = i + 1;
        }
        assert(self.contributors@.take(i as int) =~= self.contributors@);
        result
    }

    /// Returns the value of the given profile property, taken from the first
    /// contributor that is allowed to influence the profile activation.
    pub fn get_profile_property(&self, name: &str) -> (r: Option<String>)
        ensures
            opt_view(r) == (if profile_values_spec(self.flattened_spec(), name@).len() > 0 {
                Some(profile_values_spec(self.flattened_spec(), name@)[0])
            } else {
                None
            }),
    {
        let values = self.get_profile_property_values(name);
        if values.len() > 0 {
            Some(values[0].clone())
        } else {
            None
        }
    }

    /// Returns the values of the given profile property from every
    /// contributor that is allowed to influence the profile activation.
    pub fn get_profile_property_values(&self, name: &str) -> (r: Vec<String>)
        ensures
            views(r@) == profile_values_spec(self.flattened_spec(), name@),
    {
        let flat = self.flattened();
        let ghost all = derefs(flat@);
        let mut values: Vec<String> = Vec::new();
        let mut i: usize = 0;
        assert(all.take(0) =~= Seq::<ConfigDataEnvironmentContributor>::empty());
        assert(views(values@) =~= Seq::<Seq<char>>::empty());
        while i < flat.len()
            invariant
                i <= flat.len(),
                all == derefs(flat@),
                views(values@) == profile_values_spec(all.take(i as int), name@),
            decreases flat.len() - i,
        {
            let c = flat[i];
            assert(all.take(i + 1).drop_last() =~= all.take(i as int));
            assert(all.take(i + 1).last() == *c);
            if !c.is_ignore_profiles() {
                match c.property_source() {
                    Some(s) => match s.property(name) {
                        Some(v) => {
                            let ghost before = values@;
                            values.push(v);
                            assert(views(values@) =~= views(before).push(v@));
                        },
                        None => {},
                    },
                    None => {},
                }
            }
            i = i + 1;
        }
        assert(all.take(i as int) =~= all);
        values
    }

    /// Expands every pending import of the contributors, loading the
    /// resources of the locations with `load`.
    ///
    /// The method can be called once per processing phase: resources that
    /// were already loaded are not loaded again, so calling it a second time
    /// with the profiles in place only adds the profile specific documents of
    /// the locations.
    ///
    /// On success each contributor is expanded in turn ([`expansion`]): the
    /// contributors loaded from its imports, the last import first, are put
    /// ahead of its children, and each child is expanded one level deeper,
    /// down to [`MAX_IMPORT_DEPTH`]. It fails only when a location that a
    /// contributor of the tree imports fails to load ([`load_fails`]): it is
    /// mandatory and resolves to nothing, or one of its resources is missing,
    /// and missing locations are not ignored; a tree without imports is
    /// always expanded.
    pub fn expand_imports<F: Fn(&ConfigDataResource) -> Option<Vec<ConfigData>>>(
        &mut self,
        importer: &mut ConfigDataImporter,
        activation_context: &ConfigDataActivationContext,
        index: &ResourceIndex,
        load: &F,
    ) -> (r: Result<(), ConfigDataLocationNotFoundError>)
        requires
            old(importer).wf(),
            forall|resource: &ConfigDataResource| #[trigger] load.requires((resource,)),
        ensures
            final(importer).wf(),
            final(importer).action_spec() == old(importer).action_spec(),
            final(importer).extensions_spec() == old(importer).extensions_spec(),
            r is Err ==> old(importer).action_spec() == ConfigDataNotFoundAction::Fail,
            final(self).roots_spec().len() == old(self).roots_spec().len(),
            forall|i: int|
                0 <= i < final(self).roots_spec().len() ==> (#[trigger] final(self).roots_spec()[i]).same_node(
                    old(self).roots_spec()[i],
                ),
            r is Ok ==> forall|i: int|
                0 <= i < final(self).roots_spec().len() ==> keeps_children(
                    #[trigger] final(self).roots_spec()[i],
                    old(self).roots_spec()[i],
                ),
            importer_grows(*final(importer), *old(importer)),
            r is Ok ==> forall|i: int|
                0 <= i < final(self).roots_spec().len() ==> expanded_with(
                    #[trigger] final(self).roots_spec()[i],
                    old(self).roots_spec()[i],
                    *final(importer),
                    *activation_context,
                ),
            r is Ok ==> expansions(
                old(self).roots_spec(),
                final(self).roots_spec(),
                *old(importer),
                *final(importer),
                *activation_context,
                *index,
                *load,
                0,
            ),
            r matches Err(e) ==> (exists|k: int|
                0 <= k < final(self).roots_spec().len() && imported_within(
                    #[trigger] final(self).roots_spec()[k],
                    e.location_spec(),
                )) && fails_after(*old(importer), e.location_spec(), *activation_context, *index, *load),
    {
        let mut roots: Vec<ConfigDataEnvironmentContributor> = Vec::new();
        std::mem::swap(&mut roots, &mut self.contributors);
        let ghost all = roots@;
        let n: usize = roots.len();
        let mut done: Vec<ConfigDataEnvironmentContributor> = Vec::new();
        let mut result: Result<(), ConfigDataLocationNotFoundError> = Ok(());
        let mut i: usize = 0;
        assert(roots@ =~= all.subrange(0, all.len() as int));
        while roots.len() > 0
            invariant
                all.len() == n,
                i + roots@.len() == n,
                roots@ == all.subrange(i as int, n as int),
                done@.len() == i,
                importer.wf(),
                importer.action_spec() == old(importer).action_spec(),
                importer.extensions_spec() == old(importer).extensions_spec(),
                result is Err ==> old(importer).action_spec() == ConfigDataNotFoundAction::Fail,
                forall|resource: &ConfigDataResource| #[trigger] load.requires((resource,)),
                forall|k: int| 0 <= k < i ==> (#[trigger] done@[k]).same_node(all[k]),
                result is Ok ==> forall|k: int| 0 <= k < i ==> keeps_children(#[trigger] done@[k], all[k]),
                importer_grows(*importer, *old(importer)),
                result is Ok ==> forall|k: int|
                    0 <= k < i ==> expanded_with(#[trigger] done@[k], all[k], *importer, *activation_context),
                all == old(self).roots_spec(),
                result is Ok ==> expansions(
                    all.take(i as int),
                    done@,
                    *old(importer),
                    *importer,
                    *activation_context,
                    *index,
                    *load,
                    0,
                ),
                result matches Err(e) ==> (exists|k: int|
                    0 <= k < i && imported_within(#[trigger] done@[k], e.location_spec())) && fails_after(
                    *old(importer),
                    e.location_spec(),
                    *activation_context,
                    *index,
                    *load,
                ),
            decreases roots.len(),
        {
            let mut root = roots.remove(0);
            assert(root == all[i as int]);
            let ghost pre = *importer;
            let ghost done_before = done@;
            let ghost result_before = result;
            let ghost root_before = root;
            if result.is_ok() {
                result = expand_contributor(&mut root, importer, activation_context, index, load, 0);
                proof {
                    if result is Ok {
                        assert forall|k: int| 0 <= k < i implies expanded_with(
                            #[trigger] done@[k],
                            all[k],
                            *importer,
                            *activation_context,
                        ) by {
                            assert(expanded_with(done@[k], all[k], pre, *activation_context));
                            assert forall|m: int| 0 <= m < all[k].imports_spec().len() implies resolved_location(
                                *importer,
                                #[trigger] all[k].imports_spec()[m],
                            ) by {
                                assert(resolved_location(pre, all[k].imports_spec()[m]));
                            }
                        }
                    }
                }
            }
            done.push(root);
            proof {
                let upto = all.take(i + 1);
                if result is Ok {
                    assert(result_before is Ok);
                    assert(upto.drop_last() =~= all.take(i as int));
                    assert(done@.drop_last() =~= done_before);
                    assert(upto.last() == root_before);
                    assert(pre.resolved_spec() == pre.resolved_spec());
                    assert(expansions(upto, done@, *old(importer), *importer, *activation_context, *index, *load, 0));
                } else {
                    let e = result->Err_0;
                    if result_before is Ok {
                        assert(imported_within(done@[i as int], e.location_spec()));
                        let m = choose|m: ConfigDataImporter|
                            #[trigger] load_fails(m, e.location_spec(), *activation_context, *index, *load)
                                && importer_grows(m, pre) && m.action_spec() == pre.action_spec()
                                && m.extensions_spec() == pre.extensions_spec();
                        lemma_grows_transitive(*old(importer), pre, m);
                    } else {
                        let k = choose|k: int| 0 <= k < i && imported_within(#[trigger] done_before[k], e.location_spec());
                        assert(done@[k] == done_before[k]);
                    }
                }
            }
            assert(roots@ =~= all.subrange(i + 1, n as int));
            i = i + 1;
        }
        assert(all.take(n as int) =~= all);
        self.contributors = done;
        result
    }

    /// Consumes the collection and returns its contributors, in descending
    /// precedence order, without their children.
    pub fn into_flattened(self) -> (r: Vec<ConfigDataEnvironmentContributor>)
        ensures
            r@.len() == self.flattened_spec().len(),
            forall|k: int| 0 <= k < r@.len() ==> (#[trigger] r@[k]).same_node(self.flattened_spec()[k]),
    {
        let ghost all = self.contributors@;
        let mut rest = self.contributors;
        let n: usize = rest.len();
        let mut result: Vec<ConfigDataEnvironmentContributor> = Vec::new();
        let mut i: usize = 0;
        assert(rest@ =~= all.subrange(0, n as int));
        assert(all.take(0) =~= Seq::<ConfigDataEnvironmentContributor>::empty());
        while rest.len() > 0
            invariant
                all.len() == n,
                i + rest@.len() == n,
                rest@ == all.subrange(i as int, n as int),
                result@.len() == flatten_all(all.take(i as int)).len(),
                forall|k: int|
                    0 <= k < result@.len() ==> (#[trigger] result@[k]).same_node(
                        flatten_all(all.take(i as int))[k],
                    ),
            decreases rest.len(),
        {
            let c = rest.remove(0);
            assert(c == all[i as int]);
            let ghost prev = flatten_all(all.take(i as int));
            let ghost mid = result@;
            assert(all.take(i + 1).subrange(0, i as int) =~= all.take(i as int));
            c.into_flattened(&mut result);
            proof {
                let next = flatten_all(all.take(i + 1));
                assert(next =~= prev + c.flatten_spec());
                assert forall|k: int| 0 <= k < result@.len() implies (#[trigger] result@[k]).same_node(next[k]) by {
                    if k < prev.len() {
                        assert(result@[k] == mid[k]);
                    } else {
                        assert(result@[mid.len() + (k - prev.len())] == result@[k]);
                    }
                }
            }
            assert(rest@ =~= all.subrange(i + 1, n as int));
            i = i + 1;
        }
        assert(all.take(i as int) =~= all);
        result
    }
}

impl Default for ConfigDataEnvironmentContributors {
    /// A collection without contributors.
    fn default() -> (r: Self)
        ensures
            r.roots_spec().len() == 0,
    {
        ConfigDataEnvironmentContributors { contributors: Vec::new() }
    }
}

/// Whether the children a contributor had come last among the children it
/// has now, in their order: the contributors that were loaded since take
/// precedence over them.
pub open spec fn keeps_children(
    after: ConfigDataEnvironmentContributor,
    before: ConfigDataEnvironmentContributor,
) -> bool {
    let b = before.children_spec();
    let a = after.children_spec();
    &&& b.len() <= a.len()
    &&& forall|k: int| 0 <= k < b.len() ==> (#[trigger] a[a.len() - b.len() + k]).same_node(b[k])
}

/// Whether a contributor was expanded with the importer: every location it
/// imports has been resolved, and the children it gained, ahead of those it
/// had, are active contributors loaded from one of its imports.
pub open spec fn expanded_with(
    after: ConfigDataEnvironmentContributor,
    before: ConfigDataEnvironmentContributor,
    importer: ConfigDataImporter,
    context: ConfigDataActivationContext,
) -> bool {
    let gained = after.children_spec().len() - before.children_spec().len();
    &&& forall|k: int|
        0 <= k < before.imports_spec().len() ==> resolved_location(importer, #[trigger] before.imports_spec()[k])
    &&& forall|k: int|
        0 <= k < gained ==> (#[trigger] after.children_spec()[k]).is_active_spec(context)
            && loaded_from_imports(after.children_spec()[k], before.imports_spec())
}

/// Whether a contributor was loaded from one of the given locations.
pub open spec fn loaded_from_imports(
    contributor: ConfigDataEnvironmentContributor,
    imports: Seq<(Seq<char>, bool)>,
) -> bool {
    match contributor.location_spec() {
        Some(l) => imports.contains(l),
        None => false,
    }
}

/// Expands the imports of a single contributor, and of the contributors it
/// loaded, down to the maximum import depth.
fn expand_contributor<F: Fn(&ConfigDataResource) -> Option<Vec<ConfigData>>>(
    contributor: &mut ConfigDataEnvironmentContributor,
    importer: &mut ConfigDataImporter,
    activation_context: &ConfigDataActivationContext,
    index: &ResourceIndex,
    load: &F,
    depth: usize,
) -> (r: Result<(), ConfigDataLocationNotFoundError>)
    requires
        old(importer).wf(),
        forall|resource: &ConfigDataResource| #[trigger] load.requires((resource,)),
    ensures
        final(importer).wf(),
        final(importer).action_spec() == old(importer).action_spec(),
        final(importer).extensions_spec() == old(importer).extensions_spec(),
        r is Err ==> old(importer).action_spec() == ConfigDataNotFoundAction::Fail,
        importer_grows(*final(importer), *old(importer)),
        final(contributor).same_node(*old(contributor)),
        depth >= MAX_IMPORT_DEPTH ==> r is Ok && *final(contributor) == *old(contributor)
            && *final(importer) == *old(importer),
        r is Ok ==> keeps_children(*final(contributor), *old(contributor)),
        r is Ok && depth < MAX_IMPORT_DEPTH ==> expanded_with(
            *final(contributor),
            *old(contributor),
            *final(importer),
            *activation_context,
        ),
        r is Ok ==> expansion(
            *old(contributor),
            *final(contributor),
            *old(importer),
            *final(importer),
            *activation_context,
            *index,
            *load,
            depth as int,
        ),
        r matches Err(e) ==> imported_within(*final(contributor), e.location_spec()) && fails_after(
            *old(importer),
            e.location_spec(),
            *activation_context,
            *index,
            *load,
        ),
    decreases MAX_IMPORT_DEPTH - depth,
{
    if depth >= MAX_IMPORT_DEPTH {
        return Ok(());
    }
    let ghost before = contributor.children_spec();
    let ghost imps = contributor.imports_spec();
    let ghost start = *importer;
    let ghost mut loaded_children: Seq<ConfigDataEnvironmentContributor> = Seq::empty();
    if contributor.has_imports() {
        let imports = contributor.imports();
        let mut children: Vec<ConfigDataEnvironmentContributor> = Vec::new();
        let mut j: usize = imports.len();
        while j > 0
            invariant
                j <= imports.len(),
                depth < MAX_IMPORT_DEPTH,
                location_views(imports@) == imps,
                importer.wf(),
                importer.action_spec() == old(importer).action_spec(),
                importer.extensions_spec() == old(importer).extensions_spec(),
                importer_grows(*importer, *old(importer)),
                forall|k: int| j <= k < imps.len() ==> resolved_location(*importer, #[trigger] imps[k]),
                forall|k: int|
                    0 <= k < children@.len() ==> (#[trigger] children@[k]).is_active_spec(*activation_context)
                        && loaded_from_imports(children@[k], imps),
                forall|resource: &ConfigDataResource| #[trigger] load.requires((resource,)),
                start == *old(importer),
                *contributor == *old(contributor),
                imps == old(contributor).imports_spec(),
                imports_loaded(
                    children@,
                    imps.subrange(j as int, imps.len() as int),
                    start,
                    *importer,
                    *activation_context,
                    *index,
                    *load,
                ),
            decreases j,
        {
            j = j - 1;
            let ghost pre = *importer;
            let ghost before_children = children@;
            assert(imports@[j as int]@ == imps[j as int]);
            match importer.resolve_and_load(&imports[j], activation_context, index, load) {
                Ok(mut loaded) => {
                    let ghost got = loaded@;
                    children.append(&mut loaded);
                    assert forall|k: int|
                        0 <= k < children@.len() implies (#[trigger] children@[k]).is_active_spec(
                            *activation_context,
                        ) && loaded_from_imports(children@[k], imps) by {
                        if k < before_children.len() {
                            assert(children@[k] == before_children[k]);
                        } else {
                            assert(children@[k] == got[k - before_children.len()]);
                            assert(imps.contains(imps[j as int]));
                        }
                    }
                    assert forall|k: int| j <= k < imps.len() implies resolved_location(*importer, #[trigger] imps[k]) by {
                        if k > j {
                            assert(resolved_location(pre, imps[k]));
                        }
                    }
                    proof {
                        let suffix = imps.subrange(j as int, imps.len() as int);
                        assert(suffix.drop_first() =~= imps.subrange(j + 1, imps.len() as int));
                        assert(suffix[0] == imps[j as int]);
                        assert(children@ =~= before_children + got);
                        assert(imports_loaded(
                            before_children,
                            suffix.drop_first(),
                            start,
                            pre,
                            *activation_context,
                            *index,
                            *load,
                        ));
                        assert(load_step(pre, suffix[0], *activation_context, *index, *load, *importer, got));
                        assert(children@ == before_children + got);
                        lemma_imports_loaded_step(
                            before_children,
                            got,
                            suffix,
                            start,
                            pre,
                            *importer,
                            *activation_context,
                            *index,
                            *load,
                        );
                    }
                },
                Err(e) => {
                    proof {
                        assert(imps.contains(imps[j as int]));
                        lemma_imported_within_self(*contributor, imps[j as int]);
                        assert(load_fails(pre, e.location_spec(), *activation_context, *index, *load));
                    }
                    return Err(e);
                },
            }
        }
        assert(imps.subrange(0, imps.len() as int) =~= imps);
        proof {
            loaded_children = children@;
        }
        contributor.prepend_children(children);
    } else {
        assert(loaded_children + before =~= before);
    }
    let ghost mid = *importer;
    assert(imports_loaded(loaded_children, imps, start, mid, *activation_context, *index, *load));
    assert(contributor.children_spec() =~= loaded_children + before);
    let ghost prepended = contributor.children_spec();
    let ghost gained = prepended.len() - before.len();
    assert(forall|k: int| 0 <= k < gained ==> (#[trigger] prepended[k]).is_active_spec(*activation_context)
        && loaded_from_imports(prepended[k], imps));
    assert(before.len() <= prepended.len());
    assert(forall|k: int| 0 <= k < before.len() ==> prepended[prepended.len() - before.len() + k] == before[k]);
    let mut kids = contributor.take_children();
    let mut done: Vec<ConfigDataEnvironmentContributor> = Vec::new();
    let ghost node = *contributor;
    let ghost n = prepended.len();
    assert(prepended.take(0) =~= Seq::<ConfigDataEnvironmentContributor>::empty());
    assert(done@ =~= Seq::<ConfigDataEnvironmentContributor>::empty());
    while kids.len() > 0
        invariant
            importer.wf(),
            importer.action_spec() == old(importer).action_spec(),
            importer.extensions_spec() == old(importer).extensions_spec(),
            contributor.same_node(node),
            contributor.same_node(*old(contributor)),
            depth < MAX_IMPORT_DEPTH,
            forall|resource: &ConfigDataResource| #[trigger] load.requires((resource,)),
            n == prepended.len(),
            done@.len() + kids@.len() == n,
            kids@ == prepended.skip(done@.len() as int),
            forall|k: int| 0 <= k < done@.len() ==> (#[trigger] done@[k]).same_node(prepended[k]),
            importer_grows(*importer, *old(importer)),
            forall|k: int| 0 <= k < imps.len() ==> resolved_location(*importer, #[trigger] imps[k]),
            imps == old(contributor).imports_spec(),
            before == old(contributor).children_spec(),
            0 <= gained <= n,
            forall|k: int| 0 <= k < gained ==> (#[trigger] prepended[k]).is_active_spec(*activation_context)
                && loaded_from_imports(prepended[k], imps),
            start == *old(importer),
            importer_grows(mid, start),
            mid.action_spec() == start.action_spec(),
            mid.extensions_spec() == start.extensions_spec(),
            expansions(
                prepended.take(done@.len() as int),
                done@,
                mid,
                *importer,
                *activation_context,
                *index,
                *load,
                depth + 1,
            ),
        decreases kids.len(),
    {
        let ghost pre = *importer;
        let ghost d = done@.len();
        let mut kid = kids.remove(0);
        assert(kid == prepended[d as int]);
        let expanded = expand_contributor(&mut kid, importer, activation_context, index, load, depth + 1);
        assert forall|k: int| 0 <= k < imps.len() implies resolved_location(*importer, #[trigger] imps[k]) by {
            assert(resolved_location(pre, imps[k]));
        }
        let ghost done_before = done@;
        done.push(kid);
        assert(kids@ =~= prepended.skip(done@.len() as int));
        if expanded.is_err() {
            let ghost failed = done@;
            done.append(&mut kids);
            contributor.set_children(done);
            proof {
                let e = expanded->Err_0;
                assert(contributor.children_spec()[d as int] == failed[d as int]);
                lemma_imported_within_child(*contributor, d as int, e.location_spec());
                let m = choose|m: ConfigDataImporter|
                    #[trigger] load_fails(m, e.location_spec(), *activation_context, *index, *load) && importer_grows(m, pre)
                        && m.action_spec() == pre.action_spec() && m.extensions_spec() == pre.extensions_spec();
                lemma_grows_transitive(*old(importer), pre, m);
            }
            return expanded;
        }
        proof {
            let upto = prepended.take(done@.len() as int);
            assert(upto.drop_last() =~= prepended.take(d as int));
            assert(done@.drop_last() =~= done_before);
            assert(upto.last() == prepended[d as int]);
            assert(expansions(upto.drop_last(), done@.drop_last(), mid, pre, *activation_context, *index, *load, depth + 1));
            assert(expansion(upto.last(), done@.last(), pre, *importer, *activation_context, *index, *load, depth + 1));
            assert(expansions(upto, done@, mid, *importer, *activation_context, *index, *load, depth + 1));
        }
    }
    assert(prepended.take(n as int) =~= prepended);
    contributor.set_children(done);
    assert(imports_loaded(loaded_children, old(contributor).imports_spec(), start, mid, *activation_context, *index, *load));
    assert forall|k: int| 0 <= k < before.len() implies (#[trigger] contributor.children_spec()[
        contributor.children_spec().len() - before.len() + k]).same_node(before[k]) by {
        assert(prepended[prepended.len() - before.len() + k] == before[k]);
    }
    Ok(())
}

/// Imports config data by resolving locations and loading their resources.
///
/// The importer keeps track of the resources it has loaded, so that a
/// resource is only loaded once, and of the locations it has seen, so that
/// the locations that were loaded can be checked once every location has
/// been processed.
#[derive(Debug)]
pub struct ConfigDataImporter {
    resolver: ConfigDataLocationResolver,
    not_found_action: ConfigDataNotFoundAction,
    resolved_resources: Vec<String>,
    loaded_locations: Vec<ConfigDataLocation>,
    optional_locations: Vec<ConfigDataLocation>,
}

/// Whether no text occurs twice.
pub open spec fn distinct(s: Seq<Seq<char>>) -> bool {
    forall|i: int, j: int| 0 <= i < j < s.len() ==> s[i] != s[j]
}

/// Whether no location occurs twice.
pub open spec fn distinct_locations(s: Seq<(Seq<char>, bool)>) -> bool {
    forall|i: int, j: int| 0 <= i < j < s.len() ==> s[i] != s[j]
}

/// The locations with the given one added, unless it is already there.
pub open spec fn insert_location(s: Seq<(Seq<char>, bool)>, l: (Seq<char>, bool)) -> Seq<(Seq<char>, bool)> {
    if s.contains(l) {
        s
    } else {
        s.push(l)
    }
}

/// Adds a location unless it is already there.
fn insert_location_into(locations: &mut Vec<ConfigDataLocation>, location: &ConfigDataLocation)
    requires
        distinct_locations(location_views(old(locations)@)),
    ensures
        distinct_locations(location_views(final(locations)@)),
        location_views(final(locations)@) == insert_location(location_views(old(locations)@), location@),
{
    let ghost before = location_views(locations@);
    let mut i: usize = 0;
    while i < locations.len()
        invariant
            i <= locations.len(),
            before == location_views(locations@),
            distinct_locations(before),
            forall|j: int| 0 <= j < i ==> before[j] != location@,
        decreases locations.len() - i,
    {
        if locations[i].equals(location) {
            assert(before[i as int] == location@);
            return;
        }
        i = i + 1;
    }
    locations.push(location.copy());
    assert(location_views(locations@) =~= before.push(location@));
}

/// Adds a key unless it is already there, and returns whether it was added.
fn insert_key(keys: &mut Vec<String>, key: String) -> (r: bool)
    requires
        distinct(views(old(keys)@)),
    ensures
        distinct(views(final(keys)@)),
        r == !views(old(keys)@).contains(key@),
        views(final(keys)@) == if r {
            views(old(keys)@).push(key@)
        } else {
            views(old(keys)@)
        },
{
    let ghost before = views(keys@);
    let k = chars_of(key.as_str());
    let mut i: usize = 0;
    while i < keys.len()
        invariant
            i <= keys.len(),
            before == views(keys@),
            distinct(before),
            k@ == key@,
            forall|j: int| 0 <= j < i ==> before[j] != key@,
        decreases keys.len() - i,
    {
        if equals(&chars_of(keys[i].as_str()), &k) {
            assert(before[i as int] == key@);
            return false;
        }
        i = i + 1;
    }
    keys.push(key);
    assert(views(keys@) =~= before.push(key@));
    true
}

/// The key of a resource of the given parts: its path, behind `file:` for a
/// file system path.
pub open spec fn part_key(part: ResourcePart) -> Seq<char> {
    if part.1 {
        FILE_SYSTEM_KEY_PREFIX@ + part.0
    } else {
        part.0
    }
}

/// The keys of the resources of the given parts.
pub open spec fn part_keys(parts: Seq<ResourcePart>) -> Seq<Seq<char>> {
    parts.map_values(|p: ResourcePart| part_key(p))
}

/// The resources of a resolution that are loaded, in their order: those
/// whose key was loaded neither before nor earlier in the resolution.
pub open spec fn pending_spec(resolved: Seq<Seq<char>>, parts: Seq<ResourcePart>) -> Seq<ResourcePart>
    decreases parts.len(),
{
    if parts.len() == 0 {
        Seq::empty()
    } else {
        let pending = pending_spec(resolved, parts.drop_last());
        if (resolved + part_keys(pending)).contains(part_key(parts.last())) {
            pending
        } else {
            pending.push(parts.last())
        }
    }
}

/// Whether `load` may have given the outcome for the resource of the given
/// location and parts.
pub open spec fn loaded_by<F: Fn(&ConfigDataResource) -> Option<Vec<ConfigData>>>(
    load: F,
    location: (Seq<char>, bool),
    part: ResourcePart,
    outcome: Option<Vec<ConfigData>>,
) -> bool {
    exists|resource: ConfigDataResource|
        resource.location_spec() == location && resource.part_spec() == part && #[trigger] load.ensures(
            (&resource,),
            outcome,
        )
}

/// Whether a document is active in the context: it is unless its
/// expression does not match.
pub open spec fn document_active(config: ConfigData, context: ConfigDataActivationContext) -> bool {
    match config.activate_profile_spec() {
        Some(e) => context.accepts_spec(seq![e]),
        None => true,
    }
}

/// The active documents of a resource, in their order, each with whether
/// the resource is profile specific.
pub open spec fn active_documents(
    documents: Seq<ConfigData>,
    profile_specific: bool,
    context: ConfigDataActivationContext,
) -> Seq<(ConfigData, bool)>
    decreases documents.len(),
{
    if documents.len() == 0 {
        Seq::empty()
    } else {
        let active = active_documents(documents.drop_last(), profile_specific, context);
        if document_active(documents.last(), context) {
            active.push((documents.last(), profile_specific))
        } else {
            active
        }
    }
}

/// The active documents of the resources that were loaded, in their order,
/// given what loading each of them gave.
pub open spec fn loaded_documents(
    pending: Seq<ResourcePart>,
    outcomes: Seq<Option<Vec<ConfigData>>>,
    context: ConfigDataActivationContext,
) -> Seq<(ConfigData, bool)>
    decreases outcomes.len(),
{
    if outcomes.len() == 0 || pending.len() == 0 {
        Seq::empty()
    } else {
        loaded_documents(pending.drop_last(), outcomes.drop_last(), context) + match outcomes.last() {
            Some(documents) => active_documents(documents@, pending.last().2 is Some, context),
            None => Seq::empty(),
        }
    }
}

/// Whether the contributors are those of the documents, loaded from the
/// given location.
pub open spec fn documents_of(
    contributors: Seq<ConfigDataEnvironmentContributor>,
    location: (Seq<char>, bool),
    documents: Seq<(ConfigData, bool)>,
) -> bool {
    &&& contributors.len() == documents.len()
    &&& forall|k: int|
        0 <= k < contributors.len() ==> (#[trigger] contributors[k]).is_document_spec(
            location,
            documents[k].0,
            documents[k].1,
        )
}

/// A resource is loaded at most once: the keys of the resources a
/// resolution loads were not loaded before, and no two of them are the same.
pub proof fn lemma_resources_loaded_once(resolved: Seq<Seq<char>>, parts: Seq<ResourcePart>)
    requires
        distinct(resolved),
    ensures
        distinct(resolved + part_keys(pending_spec(resolved, parts))),
        forall|k: int|
            0 <= k < pending_spec(resolved, parts).len() ==> !resolved.contains(
                #[trigger] part_keys(pending_spec(resolved, parts))[k],
            ),
    decreases parts.len(),
{
    if parts.len() > 0 {
        lemma_resources_loaded_once(resolved, parts.drop_last());
        let before = pending_spec(resolved, parts.drop_last());
        let all = resolved + part_keys(before);
        let key = part_key(parts.last());
        if !all.contains(key) {
            let after = before.push(parts.last());
            assert(part_keys(after) =~= part_keys(before).push(key));
            assert(resolved + part_keys(after) =~= all.push(key));
            assert forall|k: int| 0 <= k < after.len() implies !resolved.contains(
                #[trigger] part_keys(after)[k],
            ) by {
                if k < before.len() {
                    assert(part_keys(after)[k] == part_keys(before)[k]);
                } else {
                    assert(part_keys(after)[k] == key);
                    if resolved.contains(key) {
                        let j = choose|j: int| 0 <= j < resolved.len() && resolved[j] == key;
                        assert(all[j] == key);
                    }
                }
            }
        }
    }
}

/// After a resolution, the key of every resource it resolved to is known as
/// loaded: loaded before, or by the resolution itself.
proof fn lemma_keys_recorded(resolved: Seq<Seq<char>>, parts: Seq<ResourcePart>)
    ensures
        forall|i: int|
            0 <= i < parts.len() ==> (resolved + part_keys(pending_spec(resolved, parts))).contains(
                part_key(#[trigger] parts[i]),
            ),
    decreases parts.len(),
{
    if parts.len() > 0 {
        let init = parts.drop_last();
        lemma_keys_recorded(resolved, init);
        let before = pending_spec(resolved, init);
        let all = resolved + part_keys(before);
        let key = part_key(parts.last());
        if all.contains(key) {
            assert forall|i: int| 0 <= i < parts.len() implies (resolved + part_keys(
                pending_spec(resolved, parts),
            )).contains(part_key(#[trigger] parts[i])) by {
                if i < init.len() {
                    assert(parts[i] == init[i]);
                }
            }
        } else {
            let after = before.push(parts.last());
            assert(part_keys(after) =~= part_keys(before).push(key));
            assert(resolved + part_keys(after) =~= all.push(key));
            assert forall|i: int| 0 <= i < parts.len() implies (resolved + part_keys(after)).contains(
                part_key(#[trigger] parts[i]),
            ) by {
                if i < init.len() {
                    assert(parts[i] == init[i]);
                    assert(all.contains(part_key(init[i])));
                    let j = choose|j: int| 0 <= j < all.len() && all[j] == part_key(init[i]);
                    assert(all.push(key)[j] == all[j]);
                } else {
                    assert(all.push(key)[all.len() as int] == key);
                }
            }
        }
    }
}

/// A resolution whose resources are all known as loaded loads nothing.
proof fn lemma_nothing_pending(resolved: Seq<Seq<char>>, parts: Seq<ResourcePart>)
    requires
        forall|i: int| 0 <= i < parts.len() ==> resolved.contains(part_key(#[trigger] parts[i])),
    ensures
        pending_spec(resolved, parts).len() == 0,
    decreases parts.len(),
{
    if parts.len() > 0 {
        let init = parts.drop_last();
        assert forall|i: int| 0 <= i < init.len() implies resolved.contains(part_key(#[trigger] init[i])) by {
            assert(init[i] == parts[i]);
        }
        lemma_nothing_pending(resolved, init);
        assert(resolved + part_keys(pending_spec(resolved, init)) =~= resolved);
        assert(parts.last() == parts[parts.len() - 1]);
    }
}

/// Resolving the same resources a second time loads nothing: the keys the
/// first resolution records cover every resource it resolved to.
pub proof fn lemma_repeat_loads_nothing(resolved: Seq<Seq<char>>, parts: Seq<ResourcePart>)
    ensures
        pending_spec(resolved + part_keys(pending_spec(resolved, parts)), parts).len() == 0,
{
    lemma_keys_recorded(resolved, parts);
    lemma_nothing_pending(resolved + part_keys(pending_spec(resolved, parts)), parts);
}

/// The resources a resolution loads are resources of the resolution.
proof fn lemma_pending_from(resolved: Seq<Seq<char>>, parts: Seq<ResourcePart>)
    ensures
        forall|k: int|
            0 <= k < pending_spec(resolved, parts).len() ==> parts.contains(
                #[trigger] pending_spec(resolved, parts)[k],
            ),
    decreases parts.len(),
{
    if parts.len() > 0 {
        let init = parts.drop_last();
        lemma_pending_from(resolved, init);
        let p = pending_spec(resolved, parts);
        assert forall|k: int| 0 <= k < p.len() implies parts.contains(#[trigger] p[k]) by {
            let before = pending_spec(resolved, init);
            if k < before.len() {
                assert(p[k] == before[k]);
                assert(init.contains(before[k]));
                let m = choose|m: int| 0 <= m < init.len() && init[m] == before[k];
                assert(parts[m] == init[m]);
            } else {
                assert(p[k] == parts.last());
                assert(parts[parts.len() - 1] == parts.last());
            }
        }
    }
}

/// Resolving a location again once the profiles are known only loads
/// profile specific resources, when the resources it resolved to without
/// profiles have been loaded: the others were loaded already.
pub proof fn lemma_profiles_load_only_profile_files(
    resolved: Seq<Seq<char>>,
    location: (Seq<char>, bool),
    profiles: Seq<Seq<char>>,
    extensions: Seq<Seq<char>>,
    index: ResourceIndex,
)
    requires
        distinct(resolved),
        forall|k: int|
            0 <= k < resolve_spec(location, Seq::empty(), extensions, index).0.len() ==> resolved.contains(
                part_key(#[trigger] resolve_spec(location, Seq::empty(), extensions, index).0[k]),
            ),
    ensures
        forall|k: int|
            0 <= k < pending_spec(resolved, resolve_spec(location, profiles, extensions, index).0).len()
                ==> (#[trigger] pending_spec(resolved, resolve_spec(location, profiles, extensions, index).0)[k]).2 is Some,
{
    let parts = resolve_spec(location, profiles, extensions, index).0;
    let plain = resolve_spec(location, Seq::empty(), extensions, index).0;
    let pending = pending_spec(resolved, parts);
    lemma_pending_from(resolved, parts);
    lemma_resources_loaded_once(resolved, parts);
    assert forall|k: int| 0 <= k < pending.len() implies (#[trigger] pending[k]).2 is Some by {
        let x = pending[k];
        if x.2 is None {
            assert(parts.contains(x));
            lemma_profiles_only_add_profile_files(location, profiles, extensions, index, x);
            let m = choose|m: int| 0 <= m < plain.len() && plain[m] == x;
            assert(resolved.contains(part_key(plain[m])));
            assert(part_keys(pending)[k] == part_key(x));
        }
    }
}

/// Loading one more resource adds its active documents.
proof fn lemma_loaded_documents_push(
    pending: Seq<ResourcePart>,
    outcomes: Seq<Option<Vec<ConfigData>>>,
    part: ResourcePart,
    outcome: Option<Vec<ConfigData>>,
    context: ConfigDataActivationContext,
)
    requires
        pending.len() == outcomes.len(),
    ensures
        loaded_documents(pending.push(part), outcomes.push(outcome), context) == loaded_documents(
            pending,
            outcomes,
            context,
        ) + match outcome {
            Some(documents) => active_documents(documents@, part.2 is Some, context),
            None => Seq::empty(),
        },
{
    assert(pending.push(part).drop_last() =~= pending);
    assert(outcomes.push(outcome).drop_last() =~= outcomes);
}

/// The resources loaded for a part of a resolution come first among those
/// loaded for the whole resolution.
proof fn lemma_pending_prefix(resolved: Seq<Seq<char>>, parts: Seq<ResourcePart>, i: int)
    requires
        0 <= i <= parts.len(),
    ensures
        pending_spec(resolved, parts.take(i)).len() <= pending_spec(resolved, parts).len(),
        pending_spec(resolved, parts).take(pending_spec(resolved, parts.take(i)).len() as int)
            == pending_spec(resolved, parts.take(i)),
    decreases parts.len(),
{
    if i == parts.len() {
        assert(parts.take(i) =~= parts);
        assert(pending_spec(resolved, parts).take(pending_spec(resolved, parts).len() as int)
            =~= pending_spec(resolved, parts));
    } else {
        let init = parts.drop_last();
        assert(init.take(i) =~= parts.take(i));
        lemma_pending_prefix(resolved, init, i);
        let p = pending_spec(resolved, init);
        let q = pending_spec(resolved, parts.take(i));
        assert(pending_spec(resolved, parts).take(q.len() as int) =~= p.take(q.len() as int));
    }
}

/// Whether loading a location with `load` may have turned the importer
/// `before` into `after` and given the contributors `got`: the location was
/// resolved against the active profiles of the context; when it was found,
/// the resources that were not loaded before were loaded, in their order,
/// and `got` are their active documents, none of them missing unless missing
/// resources are ignored; when it was not found, nothing was loaded, and the
/// location is remembered as optional, or missing locations are ignored.
pub open spec fn load_step<F: Fn(&ConfigDataResource) -> Option<Vec<ConfigData>>>(
    before: ConfigDataImporter,
    location: (Seq<char>, bool),
    context: ConfigDataActivationContext,
    index: ResourceIndex,
    load: F,
    after: ConfigDataImporter,
    got: Seq<ConfigDataEnvironmentContributor>,
) -> bool {
    let (parts, found) = resolve_spec(location, context.active_spec(), before.extensions_spec(), index);
    let pending = pending_spec(before.resolved_spec(), parts);
    &&& after.wf()
    &&& after.action_spec() == before.action_spec()
    &&& after.extensions_spec() == before.extensions_spec()
    &&& importer_grows(after, before)
    &&& resolved_location(after, location)
    &&& if found {
        &&& after.loaded_spec() == insert_location(before.loaded_spec(), location)
        &&& after.optional_spec() == before.optional_spec()
        &&& after.resolved_spec() == before.resolved_spec() + part_keys(pending)
        &&& exists|outcomes: Seq<Option<Vec<ConfigData>>>|
            {
                &&& outcomes.len() == pending.len()
                &&& forall|k: int|
                    0 <= k < outcomes.len() ==> loaded_by(load, location, pending[k], #[trigger] outcomes[k])
                        && (outcomes[k] is None ==> before.action_spec() == ConfigDataNotFoundAction::Ignore)
                &&& documents_of(got, location, loaded_documents(pending, outcomes, context))
            }
    } else {
        &&& got.len() == 0
        &&& after.resolved_spec() == before.resolved_spec()
        &&& if location.1 {
            &&& after.optional_spec() == insert_location(before.optional_spec(), location)
            &&& after.loaded_spec() == before.loaded_spec()
        } else {
            &&& after.loaded_spec() == insert_location(before.loaded_spec(), location)
            &&& after.optional_spec() == before.optional_spec()
            &&& before.action_spec() == ConfigDataNotFoundAction::Ignore
        }
    }
}

/// Whether loading a location with `load` fails for the importer: missing
/// locations and resources are not ignored, and the location is mandatory
/// and resolves to nothing, or one of the resources it resolves to that was
/// not loaded before may have been missing.
pub open spec fn load_fails<F: Fn(&ConfigDataResource) -> Option<Vec<ConfigData>>>(
    importer: ConfigDataImporter,
    location: (Seq<char>, bool),
    context: ConfigDataActivationContext,
    index: ResourceIndex,
    load: F,
) -> bool {
    let (parts, found) = resolve_spec(location, context.active_spec(), importer.extensions_spec(), index);
    let pending = pending_spec(importer.resolved_spec(), parts);
    &&& importer.action_spec() == ConfigDataNotFoundAction::Fail
    &&& if found {
        exists|k: int| 0 <= k < pending.len() && loaded_by(load, location, #[trigger] pending[k], None)
    } else {
        !location.1
    }
}

/// Whether the imports were loaded one after the other, the last first,
/// turning the importer `start` into `end` and giving the contributors
/// `gained`: those of each import ahead of those of the imports before it.
pub open spec fn imports_loaded<F: Fn(&ConfigDataResource) -> Option<Vec<ConfigData>>>(
    gained: Seq<ConfigDataEnvironmentContributor>,
    imports: Seq<(Seq<char>, bool)>,
    start: ConfigDataImporter,
    end: ConfigDataImporter,
    context: ConfigDataActivationContext,
    index: ResourceIndex,
    load: F,
) -> bool
    decreases imports.len(),
{
    if imports.len() == 0 {
        gained.len() == 0 && end == start
    } else {
        exists|mid: ConfigDataImporter, got: Seq<ConfigDataEnvironmentContributor>|
            #[trigger] load_step(mid, imports[0], context, index, load, end, got) && got.len() <= gained.len()
                && gained.skip(gained.len() - got.len()) == got && imports_loaded(
                gained.take(gained.len() - got.len()),
                imports.drop_first(),
                start,
                mid,
                context,
                index,
                load,
            )
    }
}

/// Whether a contributor was expanded at the given import depth, turning
/// the importer `start` into `end`: below the maximum depth, its imports were
/// loaded, the contributors they gave were put ahead of its children, and
/// each of these was expanded in turn one level deeper; at the maximum depth
/// nothing changed.
pub open spec fn expansion<F: Fn(&ConfigDataResource) -> Option<Vec<ConfigData>>>(
    before: ConfigDataEnvironmentContributor,
    after: ConfigDataEnvironmentContributor,
    start: ConfigDataImporter,
    end: ConfigDataImporter,
    context: ConfigDataActivationContext,
    index: ResourceIndex,
    load: F,
    depth: int,
) -> bool
    decreases MAX_IMPORT_DEPTH - depth, 0int,
{
    if depth >= MAX_IMPORT_DEPTH {
        after == before && end == start
    } else {
        exists|mid: ConfigDataImporter, gained: Seq<ConfigDataEnvironmentContributor>|
            #![trigger imports_loaded(gained, before.imports_spec(), start, mid, context, index, load)]
            imports_loaded(gained, before.imports_spec(), start, mid, context, index, load)
                && after.same_node(before)
                && expansions(
                gained + before.children_spec(),
                after.children_spec(),
                mid,
                end,
                context,
                index,
                load,
                depth + 1,
            )
    }
}

/// Whether the contributors were expanded one after the other, in their
/// order, at the given import depth, turning the importer `start` into `end`.
pub open spec fn expansions<F: Fn(&ConfigDataResource) -> Option<Vec<ConfigData>>>(
    befores: Seq<ConfigDataEnvironmentContributor>,
    afters: Seq<ConfigDataEnvironmentContributor>,
    start: ConfigDataImporter,
    end: ConfigDataImporter,
    context: ConfigDataActivationContext,
    index: ResourceIndex,
    load: F,
    depth: int,
) -> bool
    decreases MAX_IMPORT_DEPTH - depth, befores.len(),
{
    if befores.len() == 0 {
        afters.len() == 0 && end == start
    } else {
        &&& afters.len() == befores.len()
        &&& exists|mid: ConfigDataImporter|
            #![trigger mid.resolved_spec()]
            expansions(befores.drop_last(), afters.drop_last(), start, mid, context, index, load, depth)
                && expansion(befores.last(), afters.last(), mid, end, context, index, load, depth)
    }
}

/// Whether loading the location fails for an importer that grew from
/// `start`, with the same action on missing locations and the same
/// extensions.
pub open spec fn fails_after<F: Fn(&ConfigDataResource) -> Option<Vec<ConfigData>>>(
    start: ConfigDataImporter,
    location: (Seq<char>, bool),
    context: ConfigDataActivationContext,
    index: ResourceIndex,
    load: F,
) -> bool {
    exists|mid: ConfigDataImporter|
        #[trigger] load_fails(mid, location, context, index, load) && importer_grows(mid, start)
            && mid.action_spec() == start.action_spec() && mid.extensions_spec() == start.extensions_spec()
}

/// Whether a contributor or one of its descendants imports the location.
pub open spec fn imported_within(contributor: ConfigDataEnvironmentContributor, location: (Seq<char>, bool)) -> bool {
    exists|k: int|
        0 <= k < contributor.flatten_spec().len() && (#[trigger] contributor.flatten_spec()[k]).imports_spec().contains(
            location,
        )
}

/// Whether the importer has resolved the location: it was loaded, or found
/// missing as optional.
pub open spec fn resolved_location(importer: ConfigDataImporter, location: (Seq<char>, bool)) -> bool {
    importer.loaded_spec().contains(location) || importer.optional_spec().contains(location)
}

/// Whether the importer still holds every location it held before, and the
/// keys of the resources it loaded before, in their order, ahead of those it
/// loaded since.
pub open spec fn importer_grows(after: ConfigDataImporter, before: ConfigDataImporter) -> bool {
    &&& forall|l: (Seq<char>, bool)| before.loaded_spec().contains(l) ==> #[trigger] after.loaded_spec().contains(l)
    &&& forall|l: (Seq<char>, bool)| before.optional_spec().contains(l) ==> #[trigger] after.optional_spec().contains(l)
    &&& before.resolved_spec().is_prefix_of(after.resolved_spec())
}

/// A resource is loaded at most once by an importer, across calls: once
/// the importer has loaded the resource of a key, a later resolution by the
/// importer, of any location in any activation context, loads no resource of
/// that key.
pub proof fn lemma_loaded_once_per_importer(
    earlier: ConfigDataImporter,
    later: ConfigDataImporter,
    key: Seq<char>,
    parts: Seq<ResourcePart>,
)
    requires
        later.wf(),
        importer_grows(later, earlier),
        earlier.resolved_spec().contains(key),
    ensures
        !part_keys(pending_spec(later.resolved_spec(), parts)).contains(key),
{
    let resolved = later.resolved_spec();
    let j = choose|j: int| 0 <= j < earlier.resolved_spec().len() && earlier.resolved_spec()[j] == key;
    assert(resolved[j] == key);
    assert(resolved.contains(key));
    lemma_resources_loaded_once(resolved, parts);
    let keys = part_keys(pending_spec(resolved, parts));
    if keys.contains(key) {
        let k = choose|k: int| 0 <= k < keys.len() && keys[k] == key;
        assert(!resolved.contains(keys[k]));
    }
}

/// Loading one more import, the first, after the others extends what the
/// others loaded.
proof fn lemma_imports_loaded_step<F: Fn(&ConfigDataResource) -> Option<Vec<ConfigData>>>(
    earlier: Seq<ConfigDataEnvironmentContributor>,
    got: Seq<ConfigDataEnvironmentContributor>,
    imports: Seq<(Seq<char>, bool)>,
    start: ConfigDataImporter,
    mid: ConfigDataImporter,
    end: ConfigDataImporter,
    context: ConfigDataActivationContext,
    index: ResourceIndex,
    load: F,
)
    requires
        imports.len() > 0,
        imports_loaded(earlier, imports.drop_first(), start, mid, context, index, load),
        load_step(mid, imports[0], context, index, load, end, got),
    ensures
        imports_loaded(earlier + got, imports, start, end, context, index, load),
{
    let gained = earlier + got;
    assert(gained.skip(gained.len() - got.len()) =~= got);
    assert(gained.take(gained.len() - got.len()) =~= earlier);
}

/// What a contributor of a sequence flattens to stands in the flattening of
/// the sequence.
proof fn lemma_flatten_all_part(s: Seq<ConfigDataEnvironmentContributor>, d: int, k: int)
    requires
        0 <= d < s.len(),
        0 <= k < s[d].flatten_spec().len(),
    ensures
        exists|m: int| 0 <= m < flatten_all(s).len() && flatten_all(s)[m] == s[d].flatten_spec()[k],
    decreases s.len(),
{
    let init = s.subrange(0, s.len() - 1);
    let front = flatten_all(init);
    let all = flatten_all(s);
    assert(all == front + s[s.len() - 1].flatten_spec());
    if d == s.len() - 1 {
        assert(all[front.len() + k] == s[d].flatten_spec()[k]);
    } else {
        assert(init[d] == s[d]);
        lemma_flatten_all_part(init, d, k);
        let m = choose|m: int| 0 <= m < front.len() && front[m] == init[d].flatten_spec()[k];
        assert(all[m] == front[m]);
    }
}

/// A contributor imports what its own imports name.
proof fn lemma_imported_within_self(c: ConfigDataEnvironmentContributor, location: (Seq<char>, bool))
    requires
        c.imports_spec().contains(location),
    ensures
        imported_within(c, location),
{
    c.lemma_flatten();
    let f = c.flatten_spec();
    assert(f[f.len() - 1] == c);
}

/// A contributor imports what one of its children imports.
proof fn lemma_imported_within_child(c: ConfigDataEnvironmentContributor, d: int, location: (Seq<char>, bool))
    requires
        0 <= d < c.children_spec().len(),
        imported_within(c.children_spec()[d], location),
    ensures
        imported_within(c, location),
{
    c.lemma_flatten();
    let kid = c.children_spec()[d];
    let k = choose|k: int| 0 <= k < kid.flatten_spec().len() && (#[trigger] kid.flatten_spec()[k]).imports_spec().contains(location);
    lemma_flatten_all_part(c.children_spec(), d, k);
    let front = flatten_all(c.children_spec());
    let m = choose|m: int| 0 <= m < front.len() && front[m] == kid.flatten_spec()[k];
    assert(c.flatten_spec()[m] == front[m]);
}

/// An importer that grew from one that grew keeps growing.
proof fn lemma_grows_transitive(a: ConfigDataImporter, b: ConfigDataImporter, c: ConfigDataImporter)
    requires
        importer_grows(b, a),
        importer_grows(c, b),
    ensures
        importer_grows(c, a),
{
    assert(a.resolved_spec() =~= c.resolved_spec().subrange(0, a.resolved_spec().len() as int)) by {
        assert forall|i: int| 0 <= i < a.resolved_spec().len() implies a.resolved_spec()[i] == c.resolved_spec()[i] by {
            assert(a.resolved_spec()[i] == b.resolved_spec().subrange(0, a.resolved_spec().len() as int)[i]);
            assert(b.resolved_spec()[i] == c.resolved_spec().subrange(0, b.resolved_spec().len() as int)[i]);
        }
    }
}

/// Adding a location keeps the others and holds the new one.
proof fn lemma_insert_location(s: Seq<(Seq<char>, bool)>, l: (Seq<char>, bool))
    ensures
        insert_location(s, l).contains(l),
        forall|x: (Seq<char>, bool)| s.contains(x) ==> #[trigger] insert_location(s, l).contains(x),
{
    if !s.contains(l) {
        assert(s.push(l)[s.len() as int] == l);
        assert forall|x: (Seq<char>, bool)| s.contains(x) implies #[trigger] insert_location(s, l).contains(x) by {
            let k = choose|k: int| 0 <= k < s.len() && s[k] == x;
            assert(s.push(l)[k] == x);
        }
    }
}

impl ConfigDataImporter {
    /// Whether nothing the importer tracks occurs twice.
    pub closed spec fn wf(&self) -> bool {
        &&& distinct(views(self.resolved_resources@))
        &&& distinct_locations(location_views(self.loaded_locations@))
        &&& distinct_locations(location_views(self.optional_locations@))
    }

    /// The keys of the resources that were loaded.
    pub closed spec fn resolved_spec(&self) -> Seq<Seq<char>> {
        views(self.resolved_resources@)
    }

    /// The locations that were loaded, or found missing while they had to
    /// exist.
    pub closed spec fn loaded_spec(&self) -> Seq<(Seq<char>, bool)> {
        location_views(self.loaded_locations@)
    }

    /// The optional locations that were found missing.
    pub closed spec fn optional_spec(&self) -> Seq<(Seq<char>, bool)> {
        location_views(self.optional_locations@)
    }

    /// The action taken on a location that cannot be found.
    pub closed spec fn action_spec(&self) -> ConfigDataNotFoundAction {
        self.not_found_action
    }

    /// Creates a new importer for the formats of the given loader.
    pub fn new(loader: &ConfigDataLoader, not_found_action: ConfigDataNotFoundAction) -> (r: Self)
        ensures
            r.wf(),
            r.resolved_spec().len() == 0,
            r.loaded_spec().len() == 0,
            r.optional_spec().len() == 0,
            r.action_spec() == not_found_action,
    {
        let r = ConfigDataImporter {
            resolver: ConfigDataLocationResolver::new(loader.extensions()),
            not_found_action,
            resolved_resources: Vec::new(),
            loaded_locations: Vec::new(),
            optional_locations: Vec::new(),
        };
        assert(r.resolved_spec() =~= Seq::<Seq<char>>::empty());
        assert(r.loaded_spec() =~= Seq::<(Seq<char>, bool)>::empty());
        assert(r.optional_spec() =~= Seq::<(Seq<char>, bool)>::empty());
        r
    }

    /// Returns the locations that were loaded.
    pub fn loaded_locations(&self) -> (r: &Vec<ConfigDataLocation>)
        ensures
            location_views(r@) == self.loaded_spec(),
    {
        &self.loaded_locations
    }

    /// Returns the optional locations that were missing.
    pub fn optional_locations(&self) -> (r: &Vec<ConfigDataLocation>)
        ensures
            location_views(r@) == self.optional_spec(),
    {
        &self.optional_locations
    }

    /// Returns the action taken on a location that cannot be found.
    pub fn not_found_action(&self) -> (r: ConfigDataNotFoundAction)
        ensures
            r == self.action_spec(),
    {
        self.not_found_action
    }

    /// The supported file extensions, in descending precedence order.
    pub closed spec fn extensions_spec(&self) -> Seq<Seq<char>> {
        self.resolver.extensions_spec()
    }

    /// Resolves and loads the given location, loading its resources with
    /// `load`, which gives `None` for a resource that cannot be read.
    ///
    /// The returned contributors are ordered by descending precedence and
    /// hold the active documents that were loaded from the location.
    /// Resources that have already been loaded are not loaded again. A
    /// location that is missing is remembered as optional when it is, and
    /// handled by the not found action otherwise; a resource that cannot be
    /// loaded is handled by the not found action too.
    pub fn resolve_and_load<F: Fn(&ConfigDataResource) -> Option<Vec<ConfigData>>>(
        &mut self,
        location: &ConfigDataLocation,
        activation_context: &ConfigDataActivationContext,
        index: &ResourceIndex,
        load: &F,
    ) -> (r: Result<Vec<ConfigDataEnvironmentContributor>, ConfigDataLocationNotFoundError>)
        requires
            old(self).wf(),
            forall|resource: &ConfigDataResource| #[trigger] load.requires((resource,)),
        ensures
            r matches Ok(c) ==> load_step(
                *old(self),
                location@,
                *activation_context,
                *index,
                *load,
                *final(self),
                c@,
            ),
            r matches Err(e) ==> e.location_spec() == location@ && load_fails(
                *old(self),
                location@,
                *activation_context,
                *index,
                *load,
            ),
            final(self).wf(),
            final(self).action_spec() == old(self).action_spec(),
            final(self).extensions_spec() == old(self).extensions_spec(),
            importer_grows(*final(self), *old(self)),
            r is Ok ==> resolved_location(*final(self), location@),
            r is Err ==> old(self).action_spec() == ConfigDataNotFoundAction::Fail,
            match r {
                Ok(contributors) => forall|i: int|
                    0 <= i < contributors@.len() ==> (#[trigger] contributors@[i]).is_active_spec(
                        *activation_context,
                    ) && contributors@[i].location_spec() == Some(location@),
                Err(_) => true,
            },
            location@.1 ==> (final(self).optional_spec() == old(self).optional_spec()
                || final(self).optional_spec() == insert_location(old(self).optional_spec(), location@)),
            !location@.1 ==> final(self).loaded_spec() == insert_location(
                old(self).loaded_spec(),
                location@,
            ),
            ({
                let (parts, found) = resolve_spec(
                    location@,
                    activation_context.active_spec(),
                    old(self).extensions_spec(),
                    *index,
                );
                let pending = pending_spec(old(self).resolved_spec(), parts);
                match r {
                    Ok(contributors) => if found {
                        &&& final(self).loaded_spec() == insert_location(old(self).loaded_spec(), location@)
                        &&& final(self).optional_spec() == old(self).optional_spec()
                        &&& final(self).resolved_spec() == old(self).resolved_spec() + part_keys(pending)
                        &&& exists|outcomes: Seq<Option<Vec<ConfigData>>>|
                            {
                                &&& outcomes.len() == pending.len()
                                &&& forall|k: int|
                                    0 <= k < outcomes.len() ==> loaded_by(
                                        *load,
                                        location@,
                                        pending[k],
                                        #[trigger] outcomes[k],
                                    ) && (outcomes[k] is None ==> old(self).action_spec()
                                        == ConfigDataNotFoundAction::Ignore)
                                &&& documents_of(
                                    contributors@,
                                    location@,
                                    loaded_documents(pending, outcomes, *activation_context),
                                )
                            }
                    } else {
                        &&& contributors@.len() == 0
                        &&& final(self).resolved_spec() == old(self).resolved_spec()
                        &&& if location@.1 {
                            &&& final(self).optional_spec() == insert_location(old(self).optional_spec(), location@)
                            &&& final(self).loaded_spec() == old(self).loaded_spec()
                        } else {
                            &&& final(self).optional_spec() == old(self).optional_spec()
                            &&& old(self).action_spec() == ConfigDataNotFoundAction::Ignore
                        }
                    },
                    Err(e) => {
                        &&& e.location_spec() == location@
                        &&& if found {
                            exists|k: int| 0 <= k < pending.len() && loaded_by(*load, location@, #[trigger] pending[k], None)
                        } else {
                            !location@.1
                        }
                    },
                }
            }),
    {
        let profiles = activation_context.active_profiles();
        let resolution = self.resolver.resolve(location, &profiles, index);
        let ghost parts = parts_of(resolution.resources_spec());
        let ghost old_resolved = self.resolved_spec();
        proof {
            lemma_insert_location(self.loaded_spec(), location@);
            lemma_insert_location(self.optional_spec(), location@);
        }
        if !resolution.is_found() {
            if location.is_optional() {
                insert_location_into(&mut self.optional_locations, location);
                let r: Vec<ConfigDataEnvironmentContributor> = Vec::new();
                return Ok(r);
            }
            insert_location_into(&mut self.loaded_locations, location);
            match self.not_found_action.handle(ConfigDataLocationNotFoundError::new(location.copy())) {
                Ok(()) => {
                    let r: Vec<ConfigDataEnvironmentContributor> = Vec::new();
                    return Ok(r);
                },
                Err(e) => return Err(e),
            }
        }
        insert_location_into(&mut self.loaded_locations, location);
        let resources = resolution.resources();
        let mut contributors: Vec<ConfigDataEnvironmentContributor> = Vec::new();
        let ghost mut outcomes: Seq<Option<Vec<ConfigData>>> = Seq::empty();
        let mut i: usize = 0;
        assert(parts.take(0) =~= Seq::<ResourcePart>::empty());
        assert(old_resolved + part_keys(Seq::<ResourcePart>::empty()) =~= old_resolved);
        while i < resources.len()
            invariant
                i <= resources.len(),
                resources@ == resolution.resources_spec(),
                old_resolved == old(self).resolved_spec(),
                (parts, true) == resolve_spec(
                    location@,
                    activation_context.active_spec(),
                    old(self).extensions_spec(),
                    *index,
                ),
                parts == parts_of(resources@),
                all_from(resources@, location@),
                self.wf(),
                self.loaded_spec() == insert_location(old(self).loaded_spec(), location@),
                self.optional_spec() == old(self).optional_spec(),
                self.action_spec() == old(self).action_spec(),
                self.extensions_spec() == old(self).extensions_spec(),
                importer_grows(*self, *old(self)),
                resolved_location(*self, location@),
                forall|resource: &ConfigDataResource| #[trigger] load.requires((resource,)),
                forall|k: int|
                    0 <= k < contributors@.len() ==> (#[trigger] contributors@[k]).is_active_spec(
                        *activation_context,
                    ) && contributors@[k].location_spec() == Some(location@),
                self.resolved_spec() == old_resolved + part_keys(pending_spec(old_resolved, parts.take(i as int))),
                outcomes.len() == pending_spec(old_resolved, parts.take(i as int)).len(),
                forall|k: int|
                    0 <= k < outcomes.len() ==> loaded_by(
                        *load,
                        location@,
                        pending_spec(old_resolved, parts.take(i as int))[k],
                        #[trigger] outcomes[k],
                    ) && (outcomes[k] is None ==> old(self).action_spec()
                        == ConfigDataNotFoundAction::Ignore),
                documents_of(
                    contributors@,
                    location@,
                    loaded_documents(pending_spec(old_resolved, parts.take(i as int)), outcomes, *activation_context),
                ),
            decreases resources.len() - i,
        {
            let resource = &resources[i];
            let ghost before = pending_spec(old_resolved, parts.take(i as int));
            proof {
                assert(parts.take(i + 1).drop_last() =~= parts.take(i as int));
                assert(parts.take(i + 1).last() == resource.part_spec());
                assert(resource.location_spec() == location@);
            }
            i = i + 1;
            if !insert_key(&mut self.resolved_resources, resource.key()) {
                assert(pending_spec(old_resolved, parts.take(i as int)) == before);
                continue;
            }
            let ghost after = before.push(resource.part_spec());
            assert(pending_spec(old_resolved, parts.take(i as int)) == after);
            assert(part_keys(after) =~= part_keys(before).push(resource.key_spec()));
            let loaded = load(resource);
            let ghost outcome = loaded;
            assert(loaded_by(*load, location@, resource.part_spec(), outcome));
            let documents = match loaded {
                Some(documents) => documents,
                None => {
                    match self.not_found_action.handle(ConfigDataLocationNotFoundError::new(resource.location().copy())) {
                        Ok(()) => {
                            proof {
                                lemma_loaded_documents_push(before, outcomes, resource.part_spec(), outcome, *activation_context);
                                outcomes = outcomes.push(outcome);
                                assert(outcomes.last() == outcome);
                            }
                            continue;
                        },
                        Err(e) => {
                            proof {
                                lemma_pending_prefix(old_resolved, parts, i as int);
                                let full = pending_spec(old_resolved, parts);
                                assert(full.take(after.len() as int) == after);
                                assert(after[before.len() as int] == resource.part_spec());
                                assert(full.take(after.len() as int)[before.len() as int] == full[before.len() as int]);
                                assert(full[before.len() as int] == resource.part_spec());
                                assert(outcome is None);
                                assert(loaded_by(*load, location@, full[before.len() as int], None));
                                let (parts2, found2) = resolve_spec(
                                    location@,
                                    activation_context.active_spec(),
                                    old(self).extensions_spec(),
                                    *index,
                                );
                                let pending2 = pending_spec(old(self).resolved_spec(), parts2);
                                assert(pending2 == full);
                                assert(exists|k: int| 0 <= k < pending2.len() && loaded_by(*load, location@, #[trigger] pending2[k], None));
                            }
                            return Err(e);
                        },
                    }
                },
            };
            let count: usize = documents.len();
            let ghost all_docs = documents@;
            let ghost profile_specific = resource.part_spec().2 is Some;
            let ghost base = loaded_documents(before, outcomes, *activation_context);
            let mut documents = documents;
            let mut j: usize = 0;
            assert(all_docs.take(0) =~= Seq::<ConfigData>::empty());
            assert(base + active_documents(Seq::<ConfigData>::empty(), profile_specific, *activation_context) =~= base);
            while documents.len() > 0
                invariant
                    j <= all_docs.len(),
                    all_docs.len() <= usize::MAX,
                    documents@ == all_docs.skip(j as int),
                    resource.location_spec() == location@,
                    profile_specific == (resource.part_spec().2 is Some),
                    forall|k: int|
                        0 <= k < contributors@.len() ==> (#[trigger] contributors@[k]).is_active_spec(
                            *activation_context,
                        ) && contributors@[k].location_spec() == Some(location@),
                    documents_of(
                        contributors@,
                        location@,
                        base + active_documents(all_docs.take(j as int), profile_specific, *activation_context),
                    ),
                decreases documents.len(),
            {
                assert(j < all_docs.len());
                let document = documents.remove(0);
                proof {
                    assert(all_docs.take(j + 1).drop_last() =~= all_docs.take(j as int));
                    assert(all_docs.take(j + 1).last() == document);
                    assert(documents@ =~= all_docs.skip(j + 1));
                }
                j = j + 1;
                let active = match document.activate_profile() {
                    Some(expression) => {
                        let expressions = vec![expression.to_owned()];
                        assert(views(expressions@) =~= seq![document.activate_profile_spec()->0]);
                        activation_context.accepts(&expressions)
                    },
                    None => true,
                };
                let ghost done = base + active_documents(all_docs.take(j - 1), profile_specific, *activation_context);
                if active {
                    let profile_specific_now = resource.profile().is_some();
                    let contributor = ConfigDataEnvironmentContributor::of_config_data(
                        resource.location().copy(),
                        document,
                        profile_specific_now,
                    );
                    contributors.push(contributor);
                    assert(base + active_documents(all_docs.take(j as int), profile_specific, *activation_context)
                        =~= done.push((all_docs[j - 1], profile_specific)));
                } else {
                    assert(base + active_documents(all_docs.take(j as int), profile_specific, *activation_context)
                        =~= done);
                }
            }
            proof {
                assert(all_docs.take(j as int) =~= all_docs);
                lemma_loaded_documents_push(before, outcomes, resource.part_spec(), outcome, *activation_context);
                outcomes = outcomes.push(outcome);
                assert(outcomes.last() == outcome);
            }
        }
        assert(parts.take(i as int) =~= parts);
        assert(outcomes.len() == pending_spec(old_resolved, parts).len());
        Ok(contributors)
    }
}


/// The locations with the given ones added, each unless it is already there.
pub open spec fn insert_locations(s: Seq<(Seq<char>, bool)>, ls: Seq<(Seq<char>, bool)>) -> Seq<(Seq<char>, bool)>
    decreases ls.len(),
{
    if ls.len() == 0 {
        s
    } else {
        insert_location(insert_locations(s, ls.drop_last()), ls.last())
    }
}

/// The imports of the active contributors that must exist, each once, in
/// the order they are first declared.
pub open spec fn mandatory_spec(
    flat: Seq<ConfigDataEnvironmentContributor>,
    context: ConfigDataActivationContext,
) -> Seq<(Seq<char>, bool)>
    decreases flat.len(),
{
    if flat.len() == 0 {
        Seq::empty()
    } else {
        let before = mandatory_spec(flat.drop_last(), context);
        let c = flat.last();
        if c.is_active_spec(context) {
            insert_locations(before, c.imports_spec().filter(|l: (Seq<char>, bool)| !l.1))
        } else {
            before
        }
    }
}

/// Whether a location is the location of one of the contributors.
pub open spec fn is_contributor_location(
    flat: Seq<ConfigDataEnvironmentContributor>,
    location: (Seq<char>, bool),
) -> bool {
    exists|i: int| 0 <= i < flat.len() && (#[trigger] flat[i]).location_spec() == Some(location)
}

/// The mandatory imports that no contributor was loaded from, and that were
/// neither loaded nor found missing as optional.
pub open spec fn missing_mandatory_spec(
    flat: Seq<ConfigDataEnvironmentContributor>,
    context: ConfigDataActivationContext,
    loaded: Seq<(Seq<char>, bool)>,
    optional: Seq<(Seq<char>, bool)>,
) -> Seq<(Seq<char>, bool)> {
    mandatory_spec(flat, context).filter(|l: (Seq<char>, bool)| keeps_missing(flat, loaded, optional, l))
}

/// Whether a mandatory location is missing: no contributor was loaded from
/// it, and it was neither loaded nor found missing as optional.
pub open spec fn keeps_missing(
    flat: Seq<ConfigDataEnvironmentContributor>,
    loaded: Seq<(Seq<char>, bool)>,
    optional: Seq<(Seq<char>, bool)>,
    l: (Seq<char>, bool),
) -> bool {
    !is_contributor_location(flat, l) && !loaded.contains(l) && !optional.contains(l)
}

/// Returns whether the location is among the locations.
fn contains_location(locations: &Vec<ConfigDataLocation>, location: &ConfigDataLocation) -> (r: bool)
    ensures
        r == location_views(locations@).contains(location@),
{
    let mut i: usize = 0;
    while i < locations.len()
        invariant
            i <= locations.len(),
            forall|j: int| 0 <= j < i ==> location_views(locations@)[j] != location@,
        decreases locations.len() - i,
    {
        if locations[i].equals(location) {
            assert(location_views(locations@)[i as int] == location@);
            return true;
        }
        i = i + 1;
    }
    false
}

/// Reports the locations that must exist but could not be found: the
/// mandatory imports of the active contributors that no contributor was
/// loaded from, and that were neither loaded nor found missing as optional.
/// The not found action decides, for the first of them, whether that fails.
pub fn check_mandatory_locations(
    contributors: &ConfigDataEnvironmentContributors,
    activation_context: &ConfigDataActivationContext,
    loaded_locations: &Vec<ConfigDataLocation>,
    optional_locations: &Vec<ConfigDataLocation>,
    not_found_action: ConfigDataNotFoundAction,
) -> (r: Result<(), ConfigDataLocationNotFoundError>)
    ensures
        ({
            let missing = missing_mandatory_spec(
                contributors.flattened_spec(),
                *activation_context,
                location_views(loaded_locations@),
                location_views(optional_locations@),
            );
            match r {
                Ok(()) => missing.len() == 0 || not_found_action == ConfigDataNotFoundAction::Ignore,
                Err(e) => missing.len() > 0 && not_found_action == ConfigDataNotFoundAction::Fail
                    && e.location_spec() == missing[0],
            }
        }),
{
    let flat = contributors.flattened();
    let ghost all = derefs(flat@);
    let mut mandatory: Vec<ConfigDataLocation> = Vec::new();
    let mut i: usize = 0;
    assert(all.take(0) =~= Seq::<ConfigDataEnvironmentContributor>::empty());
    assert(location_views(mandatory@) =~= Seq::<(Seq<char>, bool)>::empty());
    while i < flat.len()
        invariant
            i <= flat.len(),
            all == derefs(flat@),
            location_views(mandatory@) == mandatory_spec(all.take(i as int), *activation_context),
            distinct_locations(location_views(mandatory@)),
        decreases flat.len() - i,
    {
        let c = flat[i];
        assert(all.take(i + 1).drop_last() =~= all.take(i as int));
        assert(all.take(i + 1).last() == *c);
        if c.is_active(activation_context) {
            let imports = c.mandatory_imports();
            let ghost before = location_views(mandatory@);
            let mut k: usize = 0;
            assert(location_views(imports@).take(0) =~= Seq::<(Seq<char>, bool)>::empty());
            while k < imports.len()
                invariant
                    k <= imports.len(),
                    distinct_locations(location_views(mandatory@)),
                    location_views(mandatory@) == insert_locations(before, location_views(imports@).take(k as int)),
                decreases imports.len() - k,
            {
                assert(location_views(imports@).take(k + 1).drop_last() =~= location_views(imports@).take(k as int));
                assert(location_views(imports@).take(k + 1).last() == imports@[k as int]@);
                insert_location_into(&mut mandatory, &imports[k]);
                k = k + 1;
            }
            assert(location_views(imports@).take(k as int) =~= location_views(imports@));
        }
        i = i + 1;
    }
    assert(all.take(i as int) =~= all);
    let ghost mand = location_views(mandatory@);
    let ghost keep = |l: (Seq<char>, bool)|
        keeps_missing(all, location_views(loaded_locations@), location_views(optional_locations@), l);
    let mut j: usize = 0;
    assert(mand.take(0) =~= Seq::<(Seq<char>, bool)>::empty());
    while j < mandatory.len()
        invariant
            j <= mandatory.len(),
            mand == location_views(mandatory@),
            all == derefs(flat@),
            keep == (|l: (Seq<char>, bool)|
                keeps_missing(all, location_views(loaded_locations@), location_views(optional_locations@), l)),
            all == contributors.flattened_spec(),
            mand == mandatory_spec(all, *activation_context),
            mand.take(j as int).filter(keep).len() == 0,
        decreases mandatory.len() - j,
    {
        let location = &mandatory[j];
        proof {
            reveal_with_fuel(Seq::<_>::filter, 1);
            assert(mand.take(j + 1).drop_last() =~= mand.take(j as int));
            assert(mand.take(j + 1).last() == location@);
        }
        let mut from_contributor = false;
        let mut m: usize = 0;
        while m < flat.len()
            invariant
                m <= flat.len(),
                all == derefs(flat@),
                !from_contributor ==> forall|q: int| 0 <= q < m ==> (#[trigger] all[q]).location_spec() != Some(location@),
                from_contributor ==> is_contributor_location(all, location@),
            decreases flat.len() - m,
        {
            match flat[m].location() {
                Some(l) => if l.equals(location) {
                    assert(all[m as int].location_spec() == Some(location@));
                    from_contributor = true;
                },
                None => {},
            }
            m = m + 1;
        }
        if !from_contributor && !contains_location(loaded_locations, location) && !contains_location(
            optional_locations,
            location,
        ) {
            proof {
                assert(keep(location@));
                assert(mand.take(j + 1).filter(keep) =~= seq![location@]);
                lemma_first_of_filter(mand, keep, j as int);
            }
            return not_found_action.handle(ConfigDataLocationNotFoundError::new(location.copy()));
        }
        j = j + 1;
    }
    assert(mand.take(j as int) =~= mand);
    Ok(())
}

/// When the first `j` elements have none that the predicate keeps and the
/// next one is kept, it is the first that the filter keeps.
pub proof fn lemma_first_of_filter(s: Seq<(Seq<char>, bool)>, keep: spec_fn((Seq<char>, bool)) -> bool, j: int)
    requires
        0 <= j < s.len(),
        s.take(j + 1).filter(keep) == seq![s[j]],
    ensures
        s.filter(keep).len() > 0,
        s.filter(keep)[0] == s[j],
    decreases s.len(),
{
    if s.len() == j + 1 {
        assert(s.take(j + 1) =~= s);
    } else {
        assert(s.drop_last().take(j + 1) =~= s.take(j + 1));
        assert(s.drop_last()[j] == s[j]);
        lemma_first_of_filter(s.drop_last(), keep, j);
        reveal_with_fuel(Seq::<_>::filter, 1);
    }
}


/// The profiles of the values of a profile property, in their order.
pub open spec fn profiles_of_values_spec(values: Seq<Seq<char>>) -> Seq<Seq<char>>
    decreases values.len(),
{
    if values.len() == 0 {
        Seq::empty()
    } else {
        profiles_of_values_spec(values.drop_last()) + profiles_from_value_spec(values.last())
    }
}

/// The profiles of a profile property when it is set, else those of the
/// environment.
pub open spec fn declared_profiles_spec(property: Option<Seq<char>>, environment: Seq<Seq<char>>) -> Seq<Seq<char>> {
    match property {
        Some(v) => profiles_from_value_spec(v),
        None => environment,
    }
}

/// Returns the profiles of a profile property when it is set, else those of
/// the environment.
fn declared_profiles(property: Option<String>, environment: &Vec<String>) -> (r: Vec<String>)
    ensures
        views(r@) == declared_profiles_spec(opt_view(property), views(environment@)),
{
    match property {
        Some(v) => profiles_from_value(v.as_str()),
        None => copy_strings(environment),
    }
}

/// Returns the given strings followed by the other strings.
fn append_strings(a: Vec<String>, b: &Vec<String>) -> (r: Vec<String>)
    ensures
        views(r@) == views(a@) + views(b@),
{
    let mut r = a;
    let ghost start = views(r@);
    let mut i: usize = 0;
    while i < b.len()
        invariant
            i <= b.len(),
            views(r@) == start + views(b@).take(i as int),
        decreases b.len() - i,
    {
        let ghost before = r@;
        let item = b[i].clone();
        r.push(item);
        assert(views(r@) =~= views(before).push(item@));
        assert(views(b@).take(i + 1) =~= views(b@).take(i as int).push(b@[i as int]@));
        assert(views(r@) =~= start + views(b@).take(i + 1));
        i = i + 1;
    }
    assert(views(b@).take(i as int) =~= views(b@));
    r
}

/// Creates the profiles from the environment and from the loaded documents.
///
/// The active profiles are those of the active profile property when it is
/// set, else the active profiles of the environment, followed by the
/// additional profiles and by the profiles of every value of the include
/// property. The default profiles are those of the default profile property
/// when it is set, else the default profiles of the environment. Empty and
/// repeated names are dropped.
pub fn create_profiles(
    active_property: Option<String>,
    environment_active: &Vec<String>,
    default_property: Option<String>,
    environment_default: &Vec<String>,
    additional_profiles: &Vec<String>,
    include_values: &Vec<String>,
) -> (r: ConfigDataProfiles)
    ensures
        r.active_spec() == dedupe_spec(
            declared_profiles_spec(opt_view(active_property), views(environment_active@)) + views(
                additional_profiles@,
            ) + profiles_of_values_spec(views(include_values@)),
        ),
        r.default_spec() == dedupe_spec(
            declared_profiles_spec(opt_view(default_property), views(environment_default@)),
        ),
{
    let active = declared_profiles(active_property, environment_active);
    let default = declared_profiles(default_property, environment_default);
    let mut active = append_strings(active, additional_profiles);
    let ghost start = views(active@);
    let mut i: usize = 0;
    assert(views(include_values@).take(0) =~= Seq::<Seq<char>>::empty());
    assert(start + profiles_of_values_spec(Seq::empty()) =~= start);
    while i < include_values.len()
        invariant
            i <= include_values.len(),
            views(active@) == start + profiles_of_values_spec(views(include_values@).take(i as int)),
        decreases include_values.len() - i,
    {
        let profiles = profiles_from_value(include_values[i].as_str());
        active = append_strings(active, &profiles);
        assert(views(include_values@).take(i + 1).drop_last() =~= views(include_values@).take(i as int));
        assert(views(include_values@).take(i + 1).last() == include_values@[i as int]@);
        i = i + 1;
        assert(views(active@) =~= start + profiles_of_values_spec(views(include_values@).take(i as int)));
    }
    assert(views(include_values@).take(i as int) =~= views(include_values@));
    ConfigDataProfiles::new(active, default)
}

/// The locations of a location property when it is set, else the given
/// default locations.
pub open spec fn declared_locations_spec(
    property: Option<Seq<char>>,
    default: Seq<(Seq<char>, bool)>,
) -> Seq<(Seq<char>, bool)> {
    match property {
        Some(v) => config_data_locations_spec(v),
        None => default,
    }
}

/// One location list per location, the last location first.
pub open spec fn individual_imports(locations: Seq<(Seq<char>, bool)>) -> Seq<Seq<(Seq<char>, bool)>>
    decreases locations.len(),
{
    if locations.len() == 0 {
        Seq::empty()
    } else {
        seq![seq![locations.last()]] + individual_imports(locations.drop_last())
    }
}

/// The imports of the initial contributors: the imports as a single
/// contributor, then the additional locations and the locations, each
/// location as a contributor of its own, the last one first.
pub open spec fn initial_imports_spec(
    imports: Seq<(Seq<char>, bool)>,
    additional: Seq<(Seq<char>, bool)>,
    locations: Seq<(Seq<char>, bool)>,
) -> Seq<Seq<(Seq<char>, bool)>> {
    (if imports.len() > 0 {
        seq![imports]
    } else {
        Seq::empty()
    }) + individual_imports(additional) + individual_imports(locations)
}

/// Whether a contributor holds nothing but the locations it imports.
pub open spec fn is_initial(c: ConfigDataEnvironmentContributor) -> bool {
    &&& c.location_spec() is None
    &&& c.property_source_spec() is None
    &&& c.children_spec().len() == 0
    &&& c.activate_profile_spec() is None
    &&& !c.ignore_profiles_spec()
}

/// Returns the locations of a location property when it is set, else the
/// given default locations.
fn declared_locations(property: Option<String>, default: Vec<ConfigDataLocation>) -> (r: Vec<ConfigDataLocation>)
    ensures
        location_views(r@) == declared_locations_spec(opt_view(property), location_views(default@)),
{
    match property {
        Some(v) => config_data_locations(v.as_str()),
        None => default,
    }
}

/// Adds one initial contributor per location, the last location first.
fn push_individual_imports(contributors: &mut Vec<ConfigDataEnvironmentContributor>, locations: Vec<ConfigDataLocation>)
    ensures
        final(contributors)@.len() == old(contributors)@.len() + locations@.len(),
        forall|k: int| 0 <= k < old(contributors)@.len() ==> #[trigger] final(contributors)@[k] == old(contributors)@[k],
        forall|k: int|
            0 <= k < locations@.len() ==> is_initial(#[trigger] final(contributors)@[old(contributors)@.len() + k])
                && final(contributors)@[old(contributors)@.len() + k].imports_spec() == individual_imports(
                location_views(locations@),
            )[k],
{
    let ghost start = contributors@;
    let ghost ls = location_views(locations@);
    let mut rest = locations;
    let mut j: usize = rest.len();
    let n: usize = rest.len();
    assert(location_views(rest@) =~= ls.take(n as int));
    while rest.len() > 0
        invariant
            j == rest@.len(),
            j <= n,
            ls.len() == n,
            location_views(rest@) == ls.take(j as int),
            contributors@.len() == start.len() + (n - j),
            forall|k: int| 0 <= k < start.len() ==> #[trigger] contributors@[k] == start[k],
            forall|k: int|
                0 <= k < n - j ==> is_initial(#[trigger] contributors@[start.len() + k])
                    && contributors@[start.len() + k].imports_spec() == individual_imports(ls)[k],
        decreases rest.len(),
    {
        let ghost before_pop = rest@;
        let location = rest.pop().unwrap();
        proof {
            assert(location == before_pop[j - 1]);
            assert(location_views(before_pop)[j - 1] == ls.take(j as int)[j - 1]);
            lemma_individual_imports(ls, n - j);
            assert(location@ == ls[j - 1]);
        }
        let single = vec![location];
        assert(location_views(single@) =~= seq![ls[j - 1]]);
        contributors.push(ConfigDataEnvironmentContributor::initial_imports(single));
        assert(location_views(rest@) =~= ls.take(j - 1));
        j = j - 1;
    }
}

/// The location list of an individual import is the single location that
/// comes that many places before the end.
pub proof fn lemma_individual_imports(locations: Seq<(Seq<char>, bool)>, k: int)
    requires
        0 <= k < locations.len(),
    ensures
        individual_imports(locations).len() == locations.len(),
        individual_imports(locations)[k] == seq![locations[locations.len() - 1 - k]],
    decreases locations.len(),
{
    lemma_individual_len(locations);
    if k > 0 {
        lemma_individual_imports(locations.drop_last(), k - 1);
    }
}

/// There is one individual import per location.
pub proof fn lemma_individual_len(locations: Seq<(Seq<char>, bool)>)
    ensures
        individual_imports(locations).len() == locations.len(),
    decreases locations.len(),
{
    if locations.len() > 0 {
        lemma_individual_len(locations.drop_last());
    }
}

/// Creates the initial contributors of the environment from the values of
/// the import, additional location and location properties; the default
/// search locations stand for an absent location property.
pub fn create_contributors(
    imports: Option<String>,
    additional: Option<String>,
    location: Option<String>,
) -> (r: ConfigDataEnvironmentContributors)
    ensures
        ({
            let expected = initial_imports_spec(
                declared_locations_spec(opt_view(imports), Seq::empty()),
                declared_locations_spec(opt_view(additional), Seq::empty()),
                declared_locations_spec(opt_view(location), default_search_locations_spec()),
            );
            &&& r.roots_spec().len() == expected.len()
            &&& forall|k: int|
                0 <= k < expected.len() ==> is_initial(#[trigger] r.roots_spec()[k])
                    && r.roots_spec()[k].imports_spec() == expected[k]
        }),
{
    let empty1: Vec<ConfigDataLocation> = Vec::new();
    let empty2: Vec<ConfigDataLocation> = Vec::new();
    assert(location_views(empty1@) =~= Seq::<(Seq<char>, bool)>::empty());
    assert(location_views(empty2@) =~= Seq::<(Seq<char>, bool)>::empty());
    let imports = declared_locations(imports, empty1);
    let additional = declared_locations(additional, empty2);
    let locations = declared_locations(location, default_search_locations());
    let ghost a = location_views(imports@);
    let ghost b = location_views(additional@);
    let ghost c = location_views(locations@);
    let mut contributors: Vec<ConfigDataEnvironmentContributor> = Vec::new();
    if imports.len() > 0 {
        contributors.push(ConfigDataEnvironmentContributor::initial_imports(imports));
    }
    let ghost head: Seq<Seq<(Seq<char>, bool)>> = if a.len() > 0 {
        seq![a]
    } else {
        Seq::empty()
    };
    proof {
        lemma_individual_len(b);
        lemma_individual_len(c);
    }
    assert(contributors@.len() == head.len());
    let ghost after_head = contributors@;
    push_individual_imports(&mut contributors, additional);
    let ghost after_additional = contributors@;
    push_individual_imports(&mut contributors, locations);
    proof {
        let expected = head + individual_imports(b) + individual_imports(c);
        assert forall|k: int| 0 <= k < expected.len() implies is_initial(#[trigger] contributors@[k])
            && contributors@[k].imports_spec() == expected[k] by {
            if k < head.len() {
                assert(contributors@[k] == after_additional[k]);
                assert(after_additional[k] == after_head[k]);
            } else if k < head.len() + b.len() {
                assert(contributors@[k] == after_additional[k]);
                assert(after_additional[after_head.len() + (k - head.len())] == after_additional[k]);
            } else {
                assert(contributors@[after_additional.len() + (k - head.len() - b.len())] == contributors@[k]);
            }
        }
    }
    ConfigDataEnvironmentContributors::new(contributors)
}


/// The property sources of the active contributors that have one, with the
/// location they were loaded from, in order.
pub open spec fn applied_spec(
    flat: Seq<ConfigDataEnvironmentContributor>,
    context: ConfigDataActivationContext,
) -> Seq<(PropertySource, Option<(Seq<char>, bool)>)>
    decreases flat.len(),
{
    if flat.len() == 0 {
        Seq::empty()
    } else {
        let before = applied_spec(flat.drop_last(), context);
        let c = flat.last();
        if c.is_active_spec(context) {
            match c.property_source_spec() {
                Some(s) => before.push((s, c.location_spec())),
                None => before,
            }
        } else {
            before
        }
    }
}

/// The view of an applied property source and its location.
pub open spec fn applied_view(p: (PropertySource, Option<ConfigDataLocation>)) -> (PropertySource, Option<(Seq<char>, bool)>) {
    (p.0, match p.1 {
        Some(l) => Some(l@),
        None => None,
    })
}

/// Contributors that hold the same documents have the same property sources
/// to apply.
pub proof fn lemma_applied_same_nodes(
    a: Seq<ConfigDataEnvironmentContributor>,
    b: Seq<ConfigDataEnvironmentContributor>,
    context: ConfigDataActivationContext,
)
    requires
        a.len() == b.len(),
        forall|k: int| 0 <= k < a.len() ==> (#[trigger] a[k]).same_node(b[k]),
    ensures
        applied_spec(a, context) == applied_spec(b, context),
    decreases a.len(),
{
    if a.len() > 0 {
        assert(a.last().same_node(b.last()));
        lemma_applied_same_nodes(a.drop_last(), b.drop_last(), context);
    }
}

/// Returns the property sources to apply to the environment, with the
/// location they were loaded from: those of the active contributors, in
/// descending precedence order.
pub fn into_applied(
    contributors: ConfigDataEnvironmentContributors,
    activation_context: &ConfigDataActivationContext,
) -> (r: Vec<(PropertySource, Option<ConfigDataLocation>)>)
    ensures
        r@.map_values(|p: (PropertySource, Option<ConfigDataLocation>)| applied_view(p)) == applied_spec(
            contributors.flattened_spec(),
            *activation_context,
        ),
{
    let ghost expected = contributors.flattened_spec();
    let flat = contributors.into_flattened();
    proof {
        lemma_applied_same_nodes(flat@, expected, *activation_context);
    }
    let ghost all = flat@;
    let mut rest = flat;
    let n: usize = rest.len();
    let mut r: Vec<(PropertySource, Option<ConfigDataLocation>)> = Vec::new();
    let mut i: usize = 0;
    assert(rest@ =~= all.subrange(0, n as int));
    assert(all.take(0) =~= Seq::<ConfigDataEnvironmentContributor>::empty());
    assert(r@.map_values(|p: (PropertySource, Option<ConfigDataLocation>)| applied_view(p)) =~= Seq::<(PropertySource, Option<(Seq<char>, bool)>)>::empty());
    while rest.len() > 0
        invariant
            all.len() == n,
            i + rest@.len() == n,
            rest@ == all.subrange(i as int, n as int),
            r@.map_values(|p: (PropertySource, Option<ConfigDataLocation>)| applied_view(p)) == applied_spec(
                all.take(i as int),
                *activation_context,
            ),
        decreases rest.len(),
    {
        let c = rest.remove(0);
        assert(c == all[i as int]);
        assert(all.take(i + 1).drop_last() =~= all.take(i as int));
        assert(all.take(i + 1).last() == c);
        if c.is_active(activation_context) {
            let location = match c.location() {
                Some(l) => Some(l.copy()),
                None => None,
            };
            let ghost loc = c.location_spec();
            match c.into_property_source() {
                Some(source) => {
                    let ghost before = r@;
                    let item = (source, location);
                    r.push(item);
                    assert(applied_view(item) == (source, loc));
                    assert(r@.map_values(|p: (PropertySource, Option<ConfigDataLocation>)| applied_view(p)) =~= before.map_values(
                        |p: (PropertySource, Option<ConfigDataLocation>)| applied_view(p),
                    ).push(applied_view(item)));
                },
                None => {},
            }
        }
        assert(rest@ =~= all.subrange(i + 1, n as int));
        i = i + 1;
    }
    assert(all.take(i as int) =~= all);
    r
}

/// The first contributor whose property source holds a property that is not
/// allowed, and what is invalid about it.
pub open spec fn first_invalid_spec(flat: Seq<ConfigDataEnvironmentContributor>) -> Option<
    (Seq<char>, Seq<char>, Option<(Seq<char>, bool)>),
>
    decreases flat.len(),
{
    if flat.len() == 0 {
        None
    } else {
        match crate::config::invalid_property::invalid_property_spec(flat[0]) {
            Some((name, reason)) => Some((name, reason, flat[0].location_spec())),
            None => first_invalid_spec(flat.drop_first()),
        }
    }
}

/// Returns an error for the first contributor that holds a property that is
/// not allowed in the config data.
pub fn check_for_invalid_properties(contributors: &ConfigDataEnvironmentContributors) -> (r: Result<
    (),
    InvalidConfigDataPropertyError,
>)
    ensures
        match first_invalid_spec(contributors.flattened_spec()) {
            None => r is Ok,
            Some((name, reason, location)) => r matches Err(e) && e.property_name_spec() == name
                && e.reason_spec() == reason && e.location_spec() == location,
        },
{
    let flat = contributors.flattened();
    let ghost all = derefs(flat@);
    let mut i: usize = 0;
    assert(all.skip(0) =~= all);
    while i < flat.len()
        invariant
            i <= flat.len(),
            all == derefs(flat@),
            all == contributors.flattened_spec(),
            first_invalid_spec(all.skip(i as int)) == first_invalid_spec(all),
        decreases flat.len() - i,
    {
        assert(all.skip(i as int)[0] == all[i as int]);
        assert(all.skip(i as int).drop_first() =~= all.skip(i + 1));
        match InvalidConfigDataPropertyError::check(flat[i]) {
            Err(e) => return Err(e),
            Ok(()) => {},
        }
        i = i + 1;
    }
    assert(all.skip(i as int) =~= Seq::<ConfigDataEnvironmentContributor>::empty());
    Ok(())
}

/// The value of a profile property: the value the environment gives it,
/// else the first value the contributors give it.
pub open spec fn profile_property_spec(
    environment_value: Option<Seq<char>>,
    contributors: Seq<ConfigDataEnvironmentContributor>,
    name: Seq<char>,
) -> Option<Seq<char>> {
    match environment_value {
        Some(v) => Some(v),
        None => if profile_values_spec(contributors, name).len() > 0 {
            Some(profile_values_spec(contributors, name)[0])
        } else {
            None
        },
    }
}

/// Deduces the profiles from the environment and from the contributors once
/// their imports are resolved without profiles.
///
/// The active and the default profile properties are taken from the
/// environment first and from the contributors second; the values of the
/// include property are those of the environment followed by those of the
/// contributors. The profiles are then made as [`create_profiles`] makes them.
pub fn deduce_profiles(
    contributors: &ConfigDataEnvironmentContributors,
    environment_active_property: Option<String>,
    environment_active: &Vec<String>,
    environment_default_property: Option<String>,
    environment_default: &Vec<String>,
    additional_profiles: &Vec<String>,
    environment_include_values: &Vec<String>,
) -> (r: ConfigDataProfiles)
    ensures
        r.active_spec() == dedupe_spec(
            declared_profiles_spec(
                profile_property_spec(
                    opt_view(environment_active_property),
                    contributors.flattened_spec(),
                    ACTIVE_PROFILE_PROPERTY@,
                ),
                views(environment_active@),
            ) + views(additional_profiles@) + profiles_of_values_spec(
                views(environment_include_values@) + profile_values_spec(
                    contributors.flattened_spec(),
                    INCLUDE_PROFILES@,
                ),
            ),
        ),
        r.default_spec() == dedupe_spec(
            declared_profiles_spec(
                profile_property_spec(
                    opt_view(environment_default_property),
                    contributors.flattened_spec(),
                    DEFAULT_PROFILE_PROPERTY@,
                ),
                views(environment_default@),
            ),
        ),
{
    let active_property = match environment_active_property {
        Some(v) => Some(v),
        None => contributors.get_profile_property(ACTIVE_PROFILE_PROPERTY),
    };
    let default_property = match environment_default_property {
        Some(v) => Some(v),
        None => contributors.get_profile_property(DEFAULT_PROFILE_PROPERTY),
    };
    let include_values = append_strings(
        copy_strings(environment_include_values),
        &contributors.get_profile_property_values(INCLUDE_PROFILES),
    );
    create_profiles(
        active_property,
        environment_active,
        default_property,
        environment_default,
        additional_profiles,
        &include_values,
    )
}

/// Checks the contributors once every import is resolved, and returns the
/// property sources to add to the environment, each with the location it was
/// loaded from.
///
/// The first invalid property of the contributors is reported first; then,
/// unless the importer ignores missing locations, the first mandatory
/// location that the importer neither loaded nor found missing as optional.
pub fn check_and_apply(
    contributors: ConfigDataEnvironmentContributors,
    importer: &ConfigDataImporter,
    activation_context: &ConfigDataActivationContext,
) -> (r: Result<Vec<(PropertySource, Option<ConfigDataLocation>)>, ConfigDataEnvironmentError>)
    ensures
        match first_invalid_spec(contributors.flattened_spec()) {
            Some((name, reason, location)) => r matches Err(ConfigDataEnvironmentError::InvalidProperty(e))
                && e.property_name_spec() == name && e.reason_spec() == reason && e.location_spec() == location,
            None => {
                let missing = missing_mandatory_spec(
                    contributors.flattened_spec(),
                    *activation_context,
                    importer.loaded_spec(),
                    importer.optional_spec(),
                );
                if missing.len() > 0 && importer.action_spec() == ConfigDataNotFoundAction::Fail {
                    r matches Err(ConfigDataEnvironmentError::LocationNotFound(e)) && e.location_spec() == missing[0]
                } else {
                    r matches Ok(applied) && applied@.map_values(
                        |p: (PropertySource, Option<ConfigDataLocation>)| applied_view(p),
                    ) == applied_spec(contributors.flattened_spec(), *activation_context)
                }
            },
        },
{
    match check_for_invalid_properties(&contributors) {
        Ok(()) => {},
        Err(e) => return Err(ConfigDataEnvironmentError::InvalidProperty(e)),
    }
    match check_mandatory_locations(
        &contributors,
        activation_context,
        importer.loaded_locations(),
        importer.optional_locations(),
        importer.not_found_action(),
    ) {
        Ok(()) => {},
        Err(e) => return Err(ConfigDataEnvironmentError::LocationNotFound(e)),
    }
    Ok(into_applied(contributors, activation_context))
}

} // verus!
