//! The resources that config data is loaded from, and how a config data
//! location is resolved into them.

use vstd::prelude::*;

use crate::config::index::{join_path, join_path_spec, ResourceIndex};
use crate::config::location::{
    strip_file_prefix, strip_file_prefix_spec, strip_prefix, strip_prefix_spec,
    ConfigDataLocation, FILE_PREFIX, OPTIONAL_PREFIX,
};
use crate::config::profiles::views;
use crate::text::{
    chars_of, concat, contains_char, copy_opt, equals, find, find_spec, leading_whitespace,
    lemma_find_is, opt_view, rfind,
    rfind_spec, slice, sorted_set_spec, split, split_spec, starts_with, starts_with_spec,
    string_of, trim, trim_end_char, trim_end_char_spec, trim_spec, trim_start_char,
    trim_start_char_spec,
};

verus! {

broadcast use vstd::string::group_string_axioms;

/// The prefix of the key of a file system resource.
pub const FILE_SYSTEM_KEY_PREFIX: &'static str = "file:";

/// The default config file name, without profile and extension.
pub const CONFIG_NAME: &'static str = "application";

/// What a resource is made of besides its location: its path, whether the
/// path is a file system path, and the profile it is specific to.
pub type ResourcePart = (Seq<char>, bool, Option<Seq<char>>);

/// A resource that config data is loaded from.
///
/// A resource is a concrete file that has been resolved from a
/// [`ConfigDataLocation`], together with the location it originated from and
/// the profile it is specific to.
#[derive(Debug, Clone, PartialEq, Eq, Hash)]
pub struct ConfigDataResource {
    location: ConfigDataLocation,
    path: String,
    file_system: bool,
    profile: Option<String>,
}

/// The parts of the given resources.
pub open spec fn parts_of(resources: Seq<ConfigDataResource>) -> Seq<ResourcePart> {
    resources.map_values(|r: ConfigDataResource| r.part_spec())
}

/// Whether every resource was resolved from the given location.
pub open spec fn all_from(resources: Seq<ConfigDataResource>, location: (Seq<char>, bool)) -> bool {
    forall|i: int| 0 <= i < resources.len() ==> (#[trigger] resources[i]).location_spec() == location
}

impl ConfigDataResource {
    /// The location the resource was resolved from.
    pub closed spec fn location_spec(&self) -> (Seq<char>, bool) {
        self.location@
    }

    /// The path, the file system flag and the profile of the resource.
    pub closed spec fn part_spec(&self) -> ResourcePart {
        (self.path@, self.file_system, opt_view(self.profile))
    }

    /// The key of the resource: its path, behind `file:` for a file system
    /// path.
    pub open spec fn key_spec(&self) -> Seq<char> {
        if self.part_spec().1 {
            FILE_SYSTEM_KEY_PREFIX@ + self.part_spec().0
        } else {
            self.part_spec().0
        }
    }

    /// Creates a new resource for the given path, resolved from the given
    /// location, and specific to the given profile when it has one.
    pub fn new(location: ConfigDataLocation, path: &str, file_system: bool, profile: Option<String>) -> (r: Self)
        ensures
            r.location_spec() == location@,
            r.part_spec() == (path@, file_system, opt_view(profile)),
    {
        ConfigDataResource { location, path: path.to_owned(), file_system, profile }
    }

    /// Returns the location this resource was resolved from.
    pub fn location(&self) -> (r: &ConfigDataLocation)
        ensures
            r@ == self.location_spec(),
    {
        &self.location
    }

    /// Returns the path of this resource.
    pub fn path(&self) -> (r: &str)
        ensures
            r@ == self.part_spec().0,
    {
        self.path.as_str()
    }

    /// Returns whether this resource is a file system path.
    pub fn is_file_system(&self) -> (r: bool)
        ensures
            r == self.part_spec().1,
    {
        self.file_system
    }

    /// Returns the profile this resource is specific to, if any.
    pub fn profile(&self) -> (r: Option<&str>)
        ensures
            match r {
                Some(p) => self.part_spec().2 == Some(p@),
                None => self.part_spec().2 is None,
            },
    {
        match &self.profile {
            Some(p) => Some(p.as_str()),
            None => None,
        }
    }

    /// Returns the key that identifies this resource.
    ///
    /// The key makes sure that a resource is only loaded once, even when it
    /// is resolved by several locations or by several processing phases. It
    /// is also the name of the property source that is created for it.
    pub fn key(&self) -> (r: String)
        ensures
            r@ == self.key_spec(),
    {
        if self.file_system {
            let k = concat(&chars_of(FILE_SYSTEM_KEY_PREFIX), &chars_of(self.path.as_str()));
            return string_of(&k);
        }
        self.path.clone()
    }

    /// Returns the text of this resource, which is its key.
    pub fn to_string(&self) -> (r: String)
        ensures
            r@ == self.key_spec(),
    {
        self.key()
    }
}

/// The result of resolving a [`ConfigDataLocation`].
#[derive(Debug)]
pub struct ConfigDataLocationResolution {
    resources: Vec<ConfigDataResource>,
    found: bool,
}

impl ConfigDataLocationResolution {
    /// The resolved resources, in descending precedence order.
    pub closed spec fn resources_spec(&self) -> Seq<ConfigDataResource> {
        self.resources@
    }

    /// Whether the location was found.
    pub closed spec fn found_spec(&self) -> bool {
        self.found
    }

    /// Returns the resolved resources, in descending precedence order. The
    /// first resource overrides the resources that follow it.
    pub fn resources(&self) -> (r: &[ConfigDataResource])
        ensures
            r@ == self.resources_spec(),
    {
        self.resources.as_slice()
    }

    /// Returns whether the location itself was found.
    ///
    /// A location is found when the resource, directory or wildcard it refers
    /// to exists, even when the directory holds no config file at all.
    pub fn is_found(&self) -> (r: bool)
        ensures
            r == self.found_spec(),
    {
        self.found
    }
}

impl Default for ConfigDataLocationResolution {
    /// A resolution that found nothing.
    fn default() -> (r: Self)
        ensures
            r.resources_spec().len() == 0,
            !r.found_spec(),
    {
        ConfigDataLocationResolution { resources: Vec::new(), found: false }
    }
}

/// The name of a default config file: `application-<profile>.<ext>` for a
/// profile, `application.<ext>` otherwise.
pub open spec fn config_file_name_spec(profile: Option<Seq<char>>, extension: Seq<char>) -> Seq<char> {
    match profile {
        Some(p) => CONFIG_NAME@ + seq!['-'] + p + seq!['.'] + extension,
        None => CONFIG_NAME@ + seq!['.'] + extension,
    }
}

/// The default config files of a directory for one profile (or for none), one
/// per extension, in the order of the extensions.
pub open spec fn extension_candidates(
    directory: Seq<char>,
    profile: Option<Seq<char>>,
    extensions: Seq<Seq<char>>,
    file_system: bool,
) -> Seq<ResourcePart> {
    extensions.map_values(
        |e: Seq<char>|
            (join_path_spec(directory, config_file_name_spec(profile, e)), file_system, profile),
    )
}

/// The profile specific config files of a directory: those of the last
/// profile first.
pub open spec fn profile_candidates(
    directory: Seq<char>,
    profiles: Seq<Seq<char>>,
    extensions: Seq<Seq<char>>,
    file_system: bool,
) -> Seq<ResourcePart>
    decreases profiles.len(),
{
    if profiles.len() == 0 {
        Seq::empty()
    } else {
        profile_candidates(directory, profiles.drop_first(), extensions, file_system)
            + extension_candidates(directory, Some(profiles[0]), extensions, file_system)
    }
}

/// The candidates that exist, in their order.
pub open spec fn existing(index: ResourceIndex, candidates: Seq<ResourcePart>) -> Seq<ResourcePart>
    decreases candidates.len(),
{
    if candidates.len() == 0 {
        Seq::empty()
    } else {
        let kept = existing(index, candidates.drop_last());
        let c = candidates.last();
        if index.resource_exists_spec(c.0, c.1) {
            kept.push(c)
        } else {
            kept
        }
    }
}

/// The resources of a directory location: the profile specific files first,
/// then the profile independent ones, as far as they exist.
pub open spec fn directory_parts(
    directory: Seq<char>,
    profiles: Seq<Seq<char>>,
    extensions: Seq<Seq<char>>,
    file_system: bool,
    index: ResourceIndex,
) -> Seq<ResourcePart> {
    existing(
        index,
        profile_candidates(directory, profiles, extensions, file_system) + extension_candidates(
            directory,
            None,
            extensions,
            file_system,
        ),
    )
}

/// The directory and the file name of a path.
pub open spec fn split_path_spec(path: Seq<char>) -> (Seq<char>, Seq<char>) {
    let i = rfind_spec(path, '/');
    if i < 0 {
        (Seq::empty(), path)
    } else {
        (path.take(i), path.skip(i + 1))
    }
}

/// The extension of a path, if its file name has one.
pub open spec fn extension_of_spec(path: Seq<char>) -> Option<Seq<char>> {
    let name = split_path_spec(path).1;
    let e = rfind_spec(name, '.');
    if e < 0 {
        None
    } else {
        Some(name.skip(e + 1))
    }
}

/// Whether a path has one of the given extensions.
pub open spec fn loadable_spec(path: Seq<char>, extensions: Seq<Seq<char>>) -> bool {
    match extension_of_spec(path) {
        Some(e) => extensions.contains(e),
        None => false,
    }
}

/// The resources of a file location: the profile specific variants of a
/// default config file that exist, then the file itself.
pub open spec fn file_parts(
    path: Seq<char>,
    profiles: Seq<Seq<char>>,
    file_system: bool,
    index: ResourceIndex,
) -> Seq<ResourcePart> {
    let (directory, name) = split_path_spec(path);
    let e = rfind_spec(name, '.');
    let variants = if e >= 0 && name.take(e) == CONFIG_NAME@ {
        existing(index, profile_candidates(directory, profiles, seq![name.skip(e + 1)], file_system))
    } else {
        Seq::empty()
    };
    variants.push((path, file_system, None))
}

/// The path a location value refers to: without the `file:` prefix, without
/// leading slashes for a resource path, and without trailing slashes.
pub open spec fn resolution_path_spec(value: Seq<char>, file_system: bool) -> Seq<char> {
    let path = strip_file_prefix_spec(value);
    let path = if file_system {
        path
    } else {
        trim_start_char_spec(path, '/')
    };
    trim_end_char_spec(path, '/')
}

/// The directories a wildcard path matches: only `dir/*` is supported, which
/// matches every direct subdirectory of `dir`, in increasing order.
pub open spec fn wildcard_directories_spec(path: Seq<char>, file_system: bool, index: ResourceIndex) -> Seq<Seq<char>> {
    let w = find_spec(path, '*');
    if w < 0 {
        Seq::empty()
    } else {
        let rest = path.skip(w + 1);
        if rest.len() == 0 || rest == seq!['/'] {
            let directory = trim_end_char_spec(path.take(w), '/');
            sorted_set_spec(index.children_spec(directory, file_system)).map_values(
                |n: Seq<char>| join_path_spec(directory, n),
            )
        } else {
            Seq::empty()
        }
    }
}

/// The resources of several directories, in the order of the directories.
pub open spec fn directories_parts(
    directories: Seq<Seq<char>>,
    profiles: Seq<Seq<char>>,
    extensions: Seq<Seq<char>>,
    file_system: bool,
    index: ResourceIndex,
) -> Seq<ResourcePart>
    decreases directories.len(),
{
    if directories.len() == 0 {
        Seq::empty()
    } else {
        directories_parts(directories.drop_last(), profiles, extensions, file_system, index)
            + directory_parts(directories.last(), profiles, extensions, file_system, index)
    }
}

/// The resources of a single location value, and whether what it refers to
/// exists.
pub open spec fn value_parts(
    value: Seq<char>,
    profiles: Seq<Seq<char>>,
    extensions: Seq<Seq<char>>,
    index: ResourceIndex,
) -> (Seq<ResourcePart>, bool) {
    let file_system = starts_with_spec(value, FILE_PREFIX@);
    let path = resolution_path_spec(value, file_system);
    if value.contains('*') {
        let directories = wildcard_directories_spec(path, file_system, index);
        (
            directories_parts(directories, profiles, extensions, file_system, index),
            directories.len() > 0,
        )
    } else if loadable_spec(path, extensions) {
        (file_parts(path, profiles, file_system, index), index.resource_exists_spec(path, file_system))
    } else {
        (
            directory_parts(path, profiles, extensions, file_system, index),
            index.directory_exists_spec(path, file_system),
        )
    }
}

/// The value of an entry of a location: trimmed, without its own `optional:`
/// prefix.
pub open spec fn entry_value_spec(entry: Seq<char>) -> Seq<char> {
    let t = trim_spec(entry);
    match strip_prefix_spec(t, OPTIONAL_PREFIX@) {
        Some(rest) => trim_spec(rest),
        None => t,
    }
}

/// The resources of the entries of a location, the last entry first, and
/// whether one of them was found; blank entries are skipped.
pub open spec fn entries_parts(
    entries: Seq<Seq<char>>,
    profiles: Seq<Seq<char>>,
    extensions: Seq<Seq<char>>,
    index: ResourceIndex,
) -> (Seq<ResourcePart>, bool)
    decreases entries.len(),
{
    if entries.len() == 0 {
        (Seq::empty(), false)
    } else {
        let rest = entries_parts(entries.drop_first(), profiles, extensions, index);
        if trim_spec(entries[0]).len() == 0 {
            rest
        } else {
            let v = value_parts(entry_value_spec(entries[0]), profiles, extensions, index);
            (rest.0 + v.0, rest.1 || v.1)
        }
    }
}

/// The resources a location resolves to, in descending precedence order, and
/// whether it was found.
pub open spec fn resolve_spec(
    location: (Seq<char>, bool),
    profiles: Seq<Seq<char>>,
    extensions: Seq<Seq<char>>,
    index: ResourceIndex,
) -> (Seq<ResourcePart>, bool) {
    if location.0.len() == 0 {
        (Seq::empty(), false)
    } else {
        entries_parts(split_spec(location.0, ';'), profiles, extensions, index)
    }
}

/// The candidates that exist of two lists are those of the first, then those
/// of the second.
pub proof fn lemma_existing_append(index: ResourceIndex, a: Seq<ResourcePart>, b: Seq<ResourcePart>)
    ensures
        existing(index, a + b) == existing(index, a) + existing(index, b),
    decreases b.len(),
{
    if b.len() == 0 {
        assert(a + b =~= a);
    } else {
        assert((a + b).drop_last() =~= a + b.drop_last());
        lemma_existing_append(index, a, b.drop_last());
    }
}

/// Resolves config data locations into the resources that are loaded from
/// them.
///
/// A location that refers to a directory is expanded into the default config
/// files that may be present in it, while a location that refers to a file is
/// used as-is.
///
/// The resolver is run again once the active profiles are known: resolving a
/// location for one or more profiles yields the profile specific files of
/// that location as well.
#[derive(Debug)]
pub struct ConfigDataLocationResolver {
    extensions: Vec<String>,
}

/// Returns the string of each text.
fn strings_of(texts: &Vec<&'static str>) -> (r: Vec<String>)
    ensures
        views(r@) == texts@.map_values(|t: &str| t@),
{
    let mut r: Vec<String> = Vec::new();
    let mut i: usize = 0;
    while i < texts.len()
        invariant
            i <= texts.len(),
            r@.len() == i,
            forall|k: int| 0 <= k < i ==> #[trigger] r@[k]@ == texts@[k]@,
        decreases texts.len() - i,
    {
        let t: &str = texts[i];
        let s = t.to_owned();
        assert(s@ == texts@[i as int]@);
        r.push(s);
        i = i + 1;
    }
    assert(views(r@) =~= texts@.map_values(|t: &str| t@));
    r
}

impl ConfigDataLocationResolver {
    /// The supported file extensions, in descending precedence order.
    pub closed spec fn extensions_spec(&self) -> Seq<Seq<char>> {
        views(self.extensions@)
    }

    /// Creates a new resolver for the given file extensions, in descending
    /// precedence order, without the leading dot.
    pub fn new(extensions: Vec<&'static str>) -> (r: Self)
        ensures
            r.extensions_spec() == extensions@.map_values(|t: &str| t@),
    {
        ConfigDataLocationResolver { extensions: strings_of(&extensions) }
    }

    /// Returns whether the given path has an extension that can be loaded.
    pub fn is_loadable(&self, path: &str) -> (r: bool)
        ensures
            r == loadable_spec(path@, self.extensions_spec()),
    {
        self.is_loadable_path(&chars_of(path))
    }

    /// Returns whether the given path has an extension that can be loaded.
    fn is_loadable_path(&self, path: &Vec<char>) -> (r: bool)
        ensures
            r == loadable_spec(path@, self.extensions_spec()),
    {
        let (_, name) = split_path(path);
        proof {
            crate::text::lemma_rfind(name@, '.');
        }
        match rfind(&name, '.') {
            None => false,
            Some(e) => {
                let extension = slice(&name, e + 1, name.len());
                assert(extension@ =~= name@.skip(e + 1));
                let mut i: usize = 0;
                while i < self.extensions.len()
                    invariant
                        i <= self.extensions.len(),
                        extension_of_spec(path@) == Some(extension@),
                        forall|j: int| 0 <= j < i ==> self.extensions_spec()[j] != extension@,
                    decreases self.extensions.len() - i,
                {
                    if equals(&chars_of(self.extensions[i].as_str()), &extension) {
                        assert(self.extensions_spec()[i as int] == extension@);
                        return true;
                    }
                    i = i + 1;
                }
                false
            },
        }
    }

    /// Resolves the given location into the resources it refers to.
    ///
    /// A single location value may hold several locations separated by
    /// semicolons. The last location that is declared takes precedence, and
    /// resources are returned in descending precedence order, so the first
    /// resource has the highest precedence.
    pub fn resolve(
        &self,
        location: &ConfigDataLocation,
        profiles: &Vec<String>,
        index: &ResourceIndex,
    ) -> (r: ConfigDataLocationResolution)
        ensures
            all_from(r.resources_spec(), location@),
            (parts_of(r.resources_spec()), r.found_spec()) == resolve_spec(
                location@,
                views(profiles@),
                self.extensions_spec(),
                *index,
            ),
    {
        let mut resources: Vec<ConfigDataResource> = Vec::new();
        let mut found = false;
        if location.is_empty() {
            assert(parts_of(resources@) =~= Seq::<ResourcePart>::empty());
            return ConfigDataLocationResolution { resources, found };
        }
        let entries = split(&chars_of(location.value()), ';');
        let ghost all = split_spec(location@.0, ';');
        let n: usize = entries.len();
        let mut j: usize = n;
        assert(all.subrange(n as int, n as int) =~= Seq::<Seq<char>>::empty());
        assert(parts_of(resources@) =~= Seq::<ResourcePart>::empty());
        while j > 0
            invariant
                j <= n,
                n == entries@.len(),
                all.len() == n,
                all == split_spec(location@.0, ';'),
                forall|k: int| 0 <= k < n ==> #[trigger] entries@[k]@ == all[k],
                all_from(resources@, location@),
                (parts_of(resources@), found) == entries_parts(
                    all.subrange(j as int, n as int),
                    views(profiles@),
                    self.extensions_spec(),
                    *index,
                ),
            decreases j,
        {
            j = j - 1;
            let ghost sub = all.subrange(j as int, n as int);
            assert(sub.drop_first() =~= all.subrange(j + 1, n as int));
            assert(sub[0] == all[j as int]);
            let entry = trim(&entries[j]);
            if entry.len() > 0 {
                let value = match strip_prefix(&entry, OPTIONAL_PREFIX) {
                    Some(rest) => trim(&rest),
                    None => entry,
                };
                assert(value@ == entry_value_spec(all[j as int]));
                self.resolve_value(location, &value, profiles, index, &mut resources, &mut found);
            }
        }
        assert(all.subrange(0, n as int) =~= all);
        ConfigDataLocationResolution { resources, found }
    }

    /// Resolves a single location value, adding its resources and whether it
    /// was found.
    fn resolve_value(
        &self,
        location: &ConfigDataLocation,
        value: &Vec<char>,
        profiles: &Vec<String>,
        index: &ResourceIndex,
        resources: &mut Vec<ConfigDataResource>,
        found: &mut bool,
    )
        requires
            all_from(old(resources)@, location@),
        ensures
            all_from(final(resources)@, location@),
            parts_of(final(resources)@) == parts_of(old(resources)@) + value_parts(
                value@,
                views(profiles@),
                self.extensions_spec(),
                *index,
            ).0,
            *final(found) == (*old(found) || value_parts(
                value@,
                views(profiles@),
                self.extensions_spec(),
                *index,
            ).1),
    {
        let file_system = starts_with(value, &chars_of(FILE_PREFIX));
        let path = resolution_path(value, file_system);
        if contains_char(value, '*') {
            let directories = self.expand_wildcard(&path, file_system, index);
            if directories.len() > 0 {
                *found = true;
            }
            let ghost dirs = directories@.map_values(|d: Vec<char>| d@);
            let ghost start = parts_of(resources@);
            let mut i: usize = 0;
            while i < directories.len()
                invariant
                    i <= directories.len(),
                    dirs == directories@.map_values(|d: Vec<char>| d@),
                    all_from(resources@, location@),
                    parts_of(resources@) == start + directories_parts(
                        dirs.take(i as int),
                        views(profiles@),
                        self.extensions_spec(),
                        file_system,
                        *index,
                    ),
                decreases directories.len() - i,
            {
                assert(dirs.take(i + 1).drop_last() =~= dirs.take(i as int));
                assert(dirs.take(i + 1).last() == directories@[i as int]@);
                self.resolve_directory(location, &directories[i], profiles, file_system, index, resources);
                i = i + 1;
                assert(parts_of(resources@) =~= start + directories_parts(
                    dirs.take(i as int),
                    views(profiles@),
                    self.extensions_spec(),
                    file_system,
                    *index,
                ));
            }
            assert(dirs.take(i as int) =~= dirs);
            return;
        }
        if self.is_loadable_path(&path) {
            if index.resource_exists(&path, file_system) {
                *found = true;
            }
            self.resolve_file(location, &path, profiles, file_system, index, resources);
            return;
        }
        if index.directory_exists(&path, file_system) {
            *found = true;
        }
        self.resolve_directory(location, &path, profiles, file_system, index, resources);
    }

    /// Adds the default config files of a directory that exist: the profile
    /// specific ones first, the last profile first, then the profile
    /// independent ones.
    fn resolve_directory(
        &self,
        location: &ConfigDataLocation,
        directory: &Vec<char>,
        profiles: &Vec<String>,
        file_system: bool,
        index: &ResourceIndex,
        resources: &mut Vec<ConfigDataResource>,
    )
        requires
            all_from(old(resources)@, location@),
        ensures
            all_from(final(resources)@, location@),
            parts_of(final(resources)@) == parts_of(old(resources)@) + directory_parts(
                directory@,
                views(profiles@),
                self.extensions_spec(),
                file_system,
                *index,
            ),
    {
        let ghost start = parts_of(resources@);
        push_profile_files(location, directory, profiles, &self.extensions, file_system, index, resources);
        push_extension_files(location, directory, &None, &self.extensions, file_system, index, resources);
        proof {
            lemma_existing_append(
                *index,
                profile_candidates(directory@, views(profiles@), self.extensions_spec(), file_system),
                extension_candidates(directory@, None, self.extensions_spec(), file_system),
            );
            assert(parts_of(resources@) =~= start + directory_parts(
                directory@,
                views(profiles@),
                self.extensions_spec(),
                file_system,
                *index,
            ));
        }
    }

    /// Adds the resources of a location that refers to a file: the profile
    /// specific variants of a default config file that exist, then the file.
    fn resolve_file(
        &self,
        location: &ConfigDataLocation,
        path: &Vec<char>,
        profiles: &Vec<String>,
        file_system: bool,
        index: &ResourceIndex,
        resources: &mut Vec<ConfigDataResource>,
    )
        requires
            all_from(old(resources)@, location@),
        ensures
            all_from(final(resources)@, location@),
            parts_of(final(resources)@) == parts_of(old(resources)@) + file_parts(
                path@,
                views(profiles@),
                file_system,
                *index,
            ),
    {
        let ghost start = parts_of(resources@);
        let (directory, name) = split_path(path);
        let ghost variants: Seq<ResourcePart> = Seq::empty();
        proof {
            crate::text::lemma_rfind(name@, '.');
        }
        match rfind(&name, '.') {
            Some(e) => {
                let stem = slice(&name, 0, e);
                assert(stem@ =~= name@.take(e as int));
                if equals(&stem, &chars_of(CONFIG_NAME)) {
                    let extension = slice(&name, e + 1, name.len());
                    assert(extension@ =~= name@.skip(e + 1));
                    let extensions = vec![string_of(&extension)];
                    assert(views(extensions@) =~= seq![extension@]);
                    push_profile_files(location, &directory, profiles, &extensions, file_system, index, resources);
                    proof {
                        variants = existing(
                            *index,
                            profile_candidates(directory@, views(profiles@), seq![extension@], file_system),
                        );
                    }
                }
            },
            None => {},
        }
        assert(parts_of(resources@) == start + variants);
        let ghost before = resources@;
        resources.push(ConfigDataResource::new(location.copy(), string_of(path).as_str(), file_system, None));
        assert(parts_of(resources@) =~= parts_of(before).push((path@, file_system, None)));
        assert(parts_of(resources@) =~= start + file_parts(path@, views(profiles@), file_system, *index));
    }

    /// Returns the directories a wildcard path matches, in increasing order.
    fn expand_wildcard(&self, path: &Vec<char>, file_system: bool, index: &ResourceIndex) -> (r: Vec<Vec<char>>)
        ensures
            r@.map_values(|d: Vec<char>| d@) == wildcard_directories_spec(path@, file_system, *index),
    {
        let star = find(path, '*');
        proof {
            crate::text::lemma_find(path@, '*');
        }
        let w: usize = match star {
            Some(w) => w,
            None => {
                let r: Vec<Vec<char>> = Vec::new();
                assert(r@.map_values(|d: Vec<char>| d@) =~= Seq::<Seq<char>>::empty());
                return r;
            },
        };
        assert(find_spec(path@, '*') == w as int);
        assert(w < path.len());
        let rest = slice(path, w + 1, path.len());
        assert(rest@ =~= path@.skip(w + 1));
        if !(rest.len() == 0 || (rest.len() == 1 && rest[0] == '/')) {
            proof {
                if rest@ == seq!['/'] {
                    assert(rest@[0] == '/');
                }
            }
            let r: Vec<Vec<char>> = Vec::new();
            assert(r@.map_values(|d: Vec<char>| d@) =~= Seq::<Seq<char>>::empty());
            return r;
        }
        assert(rest.len() == 0 || rest@ =~= seq!['/']);
        let prefix = slice(path, 0, w);
        assert(prefix@ =~= path@.take(w as int));
        let directory = trim_end_char(&prefix, '/');
        let names = index.children(&directory, file_system);
        let ghost sorted = names@.map_values(|v: Vec<char>| v@);
        let mut r: Vec<Vec<char>> = Vec::new();
        let mut i: usize = 0;
        while i < names.len()
            invariant
                i <= names.len(),
                sorted == names@.map_values(|v: Vec<char>| v@),
                r@.map_values(|d: Vec<char>| d@) == sorted.take(i as int).map_values(
                    |n: Seq<char>| join_path_spec(directory@, n),
                ),
            decreases names.len() - i,
        {
            assert(sorted[i as int] == names@[i as int]@);
            assert(sorted.take(i + 1) =~= sorted.take(i as int).push(sorted[i as int]));
            let joined = join_path(&directory, &names[i]);
            let ghost before = r@;
            r.push(joined);
            assert(r@.map_values(|d: Vec<char>| d@) =~= before.map_values(|d: Vec<char>| d@).push(joined@));
            assert(sorted.take(i + 1).map_values(|n: Seq<char>| join_path_spec(directory@, n)) =~= sorted.take(
                i as int,
            ).map_values(|n: Seq<char>| join_path_spec(directory@, n)).push(join_path_spec(directory@, sorted[i as int])));
            i = i + 1;
            assert(r@.map_values(|d: Vec<char>| d@) =~= sorted.take(i as int).map_values(
                |n: Seq<char>| join_path_spec(directory@, n),
            ));
        }
        assert(sorted.take(i as int) =~= sorted);
        r
    }
}

/// Adds the given resource when it exists.
fn push_existing(
    location: &ConfigDataLocation,
    path: &Vec<char>,
    file_system: bool,
    profile: Option<String>,
    index: &ResourceIndex,
    resources: &mut Vec<ConfigDataResource>,
)
    requires
        all_from(old(resources)@, location@),
    ensures
        all_from(final(resources)@, location@),
        parts_of(final(resources)@) == (if index.resource_exists_spec(path@, file_system) {
            parts_of(old(resources)@).push((path@, file_system, opt_view(profile)))
        } else {
            parts_of(old(resources)@)
        }),
{
    if index.resource_exists(path, file_system) {
        let ghost before = resources@;
        resources.push(ConfigDataResource::new(location.copy(), string_of(path).as_str(), file_system, profile));
        assert(parts_of(resources@) =~= parts_of(before).push((path@, file_system, opt_view(profile))));
    }
}

/// Adds the default config files of a directory for the given profile (or for
/// none) that exist, in the order of the extensions.
fn push_extension_files(
    location: &ConfigDataLocation,
    directory: &Vec<char>,
    profile: &Option<String>,
    extensions: &Vec<String>,
    file_system: bool,
    index: &ResourceIndex,
    resources: &mut Vec<ConfigDataResource>,
)
    requires
        all_from(old(resources)@, location@),
    ensures
        all_from(final(resources)@, location@),
        parts_of(final(resources)@) == parts_of(old(resources)@) + existing(
            *index,
            extension_candidates(directory@, opt_view(*profile), views(extensions@), file_system),
        ),
{
    let ghost start = parts_of(resources@);
    let ghost cands = extension_candidates(directory@, opt_view(*profile), views(extensions@), file_system);
    let mut k: usize = 0;
    assert(cands.take(0) =~= Seq::<ResourcePart>::empty());
    assert(start + existing(*index, cands.take(0)) =~= start);
    while k < extensions.len()
        invariant
            k <= extensions.len(),
            cands == extension_candidates(directory@, opt_view(*profile), views(extensions@), file_system),
            all_from(resources@, location@),
            parts_of(resources@) == start + existing(*index, cands.take(k as int)),
        decreases extensions.len() - k,
    {
        let name = config_file_name(profile, &chars_of(extensions[k].as_str()));
        let path = join_path(directory, &name);
        assert(cands[k as int] == (path@, file_system, opt_view(*profile)));
        assert(cands.take(k + 1).drop_last() =~= cands.take(k as int));
        push_existing(location, &path, file_system, copy_opt(profile), index, resources);
        k = k + 1;
        assert(parts_of(resources@) =~= start + existing(*index, cands.take(k as int)));
    }
    assert(cands.take(k as int) =~= cands);
}

/// Adds the profile specific default config files of a directory that exist:
/// those of the last profile first.
fn push_profile_files(
    location: &ConfigDataLocation,
    directory: &Vec<char>,
    profiles: &Vec<String>,
    extensions: &Vec<String>,
    file_system: bool,
    index: &ResourceIndex,
    resources: &mut Vec<ConfigDataResource>,
)
    requires
        all_from(old(resources)@, location@),
    ensures
        all_from(final(resources)@, location@),
        parts_of(final(resources)@) == parts_of(old(resources)@) + existing(
            *index,
            profile_candidates(directory@, views(profiles@), views(extensions@), file_system),
        ),
{
    let ghost start = parts_of(resources@);
    let ghost ps = views(profiles@);
    let n: usize = profiles.len();
    let mut j: usize = n;
    assert(ps.subrange(n as int, n as int) =~= Seq::<Seq<char>>::empty());
    assert(start + existing(*index, Seq::empty()) =~= start);
    while j > 0
        invariant
            j <= n,
            n == profiles.len(),
            ps == views(profiles@),
            all_from(resources@, location@),
            parts_of(resources@) == start + existing(
                *index,
                profile_candidates(directory@, ps.subrange(j as int, n as int), views(extensions@), file_system),
            ),
        decreases j,
    {
        j = j - 1;
        let ghost sub = ps.subrange(j as int, n as int);
        assert(sub.drop_first() =~= ps.subrange(j + 1, n as int));
        assert(sub[0] == profiles@[j as int]@);
        let profile = Some(profiles[j].clone());
        push_extension_files(location, directory, &profile, extensions, file_system, index, resources);
        proof {
            lemma_existing_append(
                *index,
                profile_candidates(directory@, ps.subrange(j + 1, n as int), views(extensions@), file_system),
                extension_candidates(directory@, Some(sub[0]), views(extensions@), file_system),
            );
        }
        assert(parts_of(resources@) =~= start + existing(
            *index,
            profile_candidates(directory@, sub, views(extensions@), file_system),
        ));
    }
    assert(ps.subrange(0, n as int) =~= ps);
}

/// Returns the name of a default config file for the profile, if any, and the
/// extension.
fn config_file_name(profile: &Option<String>, extension: &Vec<char>) -> (r: Vec<char>)
    ensures
        r@ == config_file_name_spec(opt_view(*profile), extension@),
{
    let mut name = chars_of(CONFIG_NAME);
    match profile {
        Some(p) => {
            name.push('-');
            name = concat(&name, &chars_of(p.as_str()));
        },
        None => {},
    }
    name.push('.');
    let r = concat(&name, extension);
    assert(r@ =~= config_file_name_spec(opt_view(*profile), extension@));
    r
}

/// Returns the extension of a path, if its file name has one.
pub fn extension_of(path: &Vec<char>) -> (r: Option<Vec<char>>)
    ensures
        crate::text::opt_chars(r) == extension_of_spec(path@),
{
    let (_, name) = split_path(path);
    proof {
        crate::text::lemma_rfind(name@, '.');
    }
    match rfind(&name, '.') {
        None => None,
        Some(e) => {
            let extension = slice(&name, e + 1, name.len());
            assert(extension@ =~= name@.skip(e + 1));
            Some(extension)
        },
    }
}

/// Returns the directory and the file name of a path.
fn split_path(path: &Vec<char>) -> (r: (Vec<char>, Vec<char>))
    ensures
        (r.0@, r.1@) == split_path_spec(path@),
{
    proof {
        crate::text::lemma_rfind(path@, '/');
    }
    match rfind(path, '/') {
        Some(i) => {
            let d = slice(path, 0, i);
            let n = slice(path, i + 1, path.len());
            assert(d@ =~= path@.take(i as int));
            assert(n@ =~= path@.skip(i + 1));
            (d, n)
        },
        None => (Vec::new(), path.clone()),
    }
}

/// Returns the path a location value refers to.
fn resolution_path(value: &Vec<char>, file_system: bool) -> (r: Vec<char>)
    ensures
        r@ == resolution_path_spec(value@, file_system),
{
    let path = chars_of(strip_file_prefix(string_of(value).as_str()).as_str());
    let path = if file_system {
        path
    } else {
        trim_start_char(&path, '/')
    };
    trim_end_char(&path, '/')
}


/// Every candidate that exists is one of the candidates.
pub proof fn lemma_existing_from(index: ResourceIndex, candidates: Seq<ResourcePart>)
    ensures
        forall|i: int|
            0 <= i < existing(index, candidates).len() ==> candidates.contains(
                #[trigger] existing(index, candidates)[i],
            ),
    decreases candidates.len(),
{
    if candidates.len() > 0 {
        lemma_existing_from(index, candidates.drop_last());
        let kept = existing(index, candidates.drop_last());
        assert forall|i: int| 0 <= i < existing(index, candidates).len() implies candidates.contains(
            #[trigger] existing(index, candidates)[i],
        ) by {
            if i < kept.len() {
                let x = kept[i];
                assert(candidates.drop_last().contains(x));
                let k = choose|k: int| 0 <= k < candidates.drop_last().len() && candidates.drop_last()[k] == x;
                assert(candidates[k] == x);
            } else {
                assert(candidates[candidates.len() - 1] == existing(index, candidates)[i]);
            }
        }
    }
}

/// The profile specific files of a directory all have a profile.
pub proof fn lemma_profile_candidates_have_profiles(
    directory: Seq<char>,
    profiles: Seq<Seq<char>>,
    extensions: Seq<Seq<char>>,
    file_system: bool,
)
    ensures
        forall|i: int|
            0 <= i < profile_candidates(directory, profiles, extensions, file_system).len()
                ==> (#[trigger] profile_candidates(directory, profiles, extensions, file_system)[i]).2 is Some,
    decreases profiles.len(),
{
    if profiles.len() > 0 {
        lemma_profile_candidates_have_profiles(directory, profiles.drop_first(), extensions, file_system);
    }
}

/// Among the resources of a directory, the profile specific files come before
/// the profile independent ones, so they take precedence over them.
pub proof fn lemma_profile_files_first(
    directory: Seq<char>,
    profiles: Seq<Seq<char>>,
    extensions: Seq<Seq<char>>,
    file_system: bool,
    index: ResourceIndex,
)
    ensures
        ({
            let parts = directory_parts(directory, profiles, extensions, file_system, index);
            forall|i: int, j: int|
                0 <= i < j < parts.len() && (#[trigger] parts[j]).2 is Some ==> (#[trigger] parts[i]).2 is Some
        }),
{
    let a = profile_candidates(directory, profiles, extensions, file_system);
    let b = extension_candidates(directory, None, extensions, file_system);
    lemma_existing_append(index, a, b);
    lemma_existing_from(index, a);
    lemma_existing_from(index, b);
    lemma_profile_candidates_have_profiles(directory, profiles, extensions, file_system);
    let ea = existing(index, a);
    let eb = existing(index, b);
    let parts = directory_parts(directory, profiles, extensions, file_system, index);
    assert(parts == ea + eb);
    assert forall|i: int, j: int|
        0 <= i < j < parts.len() && (#[trigger] parts[j]).2 is Some implies (#[trigger] parts[i]).2 is Some by {
        if j >= ea.len() {
            let x = eb[j - ea.len()];
            assert(b.contains(x));
            let k = choose|k: int| 0 <= k < b.len() && b[k] == x;
            assert(b[k].2 is None);
        }
        let y = ea[i];
        assert(a.contains(y));
        let k = choose|k: int| 0 <= k < a.len() && a[k] == y;
        assert(a[k].2 is Some);
    }
}

/// An element of two sequences one after the other is an element of one of
/// them, and the other way round.
proof fn lemma_contains_concat<A>(a: Seq<A>, b: Seq<A>, x: A)
    ensures
        (a + b).contains(x) <==> (a.contains(x) || b.contains(x)),
{
    if (a + b).contains(x) {
        let k = choose|k: int| 0 <= k < (a + b).len() && (a + b)[k] == x;
        if k < a.len() {
            assert(a[k] == x);
        } else {
            assert(b[k - a.len()] == x);
        }
    }
    if a.contains(x) {
        let k = choose|k: int| 0 <= k < a.len() && a[k] == x;
        assert((a + b)[k] == x);
    }
    if b.contains(x) {
        let k = choose|k: int| 0 <= k < b.len() && b[k] == x;
        assert((a + b)[a.len() + k] == x);
    }
}

/// The profile independent files of a directory are the same whatever the
/// profiles.
proof fn lemma_directory_independent(
    directory: Seq<char>,
    profiles: Seq<Seq<char>>,
    extensions: Seq<Seq<char>>,
    file_system: bool,
    index: ResourceIndex,
    x: ResourcePart,
)
    requires
        directory_parts(directory, profiles, extensions, file_system, index).contains(x),
        x.2 is None,
    ensures
        directory_parts(directory, Seq::empty(), extensions, file_system, index).contains(x),
{
    let a = profile_candidates(directory, profiles, extensions, file_system);
    let b = extension_candidates(directory, None, extensions, file_system);
    lemma_existing_append(index, a, b);
    lemma_contains_concat(existing(index, a), existing(index, b), x);
    if existing(index, a).contains(x) {
        lemma_existing_from(index, a);
        lemma_profile_candidates_have_profiles(directory, profiles, extensions, file_system);
        let k = choose|k: int| 0 <= k < existing(index, a).len() && existing(index, a)[k] == x;
        assert(a.contains(existing(index, a)[k]));
        let m = choose|m: int| 0 <= m < a.len() && a[m] == x;
        assert(a[m].2 is Some);
    }
    let empty = profile_candidates(directory, Seq::empty(), extensions, file_system);
    assert(empty + b =~= b);
}

/// The profile independent files of several directories are the same
/// whatever the profiles.
proof fn lemma_directories_independent(
    directories: Seq<Seq<char>>,
    profiles: Seq<Seq<char>>,
    extensions: Seq<Seq<char>>,
    file_system: bool,
    index: ResourceIndex,
    x: ResourcePart,
)
    requires
        directories_parts(directories, profiles, extensions, file_system, index).contains(x),
        x.2 is None,
    ensures
        directories_parts(directories, Seq::empty(), extensions, file_system, index).contains(x),
    decreases directories.len(),
{
    if directories.len() > 0 {
        let init = directories.drop_last();
        let last = directories.last();
        lemma_contains_concat(
            directories_parts(init, profiles, extensions, file_system, index),
            directory_parts(last, profiles, extensions, file_system, index),
            x,
        );
        lemma_contains_concat(
            directories_parts(init, Seq::empty(), extensions, file_system, index),
            directory_parts(last, Seq::empty(), extensions, file_system, index),
            x,
        );
        if directories_parts(init, profiles, extensions, file_system, index).contains(x) {
            lemma_directories_independent(init, profiles, extensions, file_system, index, x);
        } else {
            lemma_directory_independent(last, profiles, extensions, file_system, index, x);
        }
    }
}

/// The profile independent resources of a location value are the same
/// whatever the profiles.
proof fn lemma_value_independent(
    value: Seq<char>,
    profiles: Seq<Seq<char>>,
    extensions: Seq<Seq<char>>,
    index: ResourceIndex,
    x: ResourcePart,
)
    requires
        value_parts(value, profiles, extensions, index).0.contains(x),
        x.2 is None,
    ensures
        value_parts(value, Seq::empty(), extensions, index).0.contains(x),
{
    let file_system = starts_with_spec(value, FILE_PREFIX@);
    let path = resolution_path_spec(value, file_system);
    if value.contains('*') {
        let directories = wildcard_directories_spec(path, file_system, index);
        lemma_directories_independent(directories, profiles, extensions, file_system, index, x);
    } else if loadable_spec(path, extensions) {
        let (directory, name) = split_path_spec(path);
        let e = rfind_spec(name, '.');
        let parts = file_parts(path, profiles, file_system, index);
        let variants = if e >= 0 && name.take(e) == CONFIG_NAME@ {
            existing(index, profile_candidates(directory, profiles, seq![name.skip(e + 1)], file_system))
        } else {
            Seq::empty()
        };
        assert(parts == variants.push((path, file_system, None)));
        let k = choose|k: int| 0 <= k < parts.len() && parts[k] == x;
        if k < variants.len() {
            lemma_existing_from(index, profile_candidates(directory, profiles, seq![name.skip(e + 1)], file_system));
            lemma_profile_candidates_have_profiles(directory, profiles, seq![name.skip(e + 1)], file_system);
            let c = profile_candidates(directory, profiles, seq![name.skip(e + 1)], file_system);
            assert(c.contains(variants[k]));
            let m = choose|m: int| 0 <= m < c.len() && c[m] == x;
            assert(c[m].2 is Some);
        }
        assert(x == (path, file_system, None::<Seq<char>>));
        let none = file_parts(path, Seq::empty(), file_system, index);
        assert(none[none.len() - 1] == x);
    } else {
        lemma_directory_independent(path, profiles, extensions, file_system, index, x);
    }
}

/// The profile independent resources of the entries of a location are the
/// same whatever the profiles.
proof fn lemma_entries_independent(
    entries: Seq<Seq<char>>,
    profiles: Seq<Seq<char>>,
    extensions: Seq<Seq<char>>,
    index: ResourceIndex,
    x: ResourcePart,
)
    requires
        entries_parts(entries, profiles, extensions, index).0.contains(x),
        x.2 is None,
    ensures
        entries_parts(entries, Seq::empty(), extensions, index).0.contains(x),
    decreases entries.len(),
{
    if entries.len() > 0 {
        let rest = entries.drop_first();
        if trim_spec(entries[0]).len() == 0 {
            lemma_entries_independent(rest, profiles, extensions, index, x);
        } else {
            let value = entry_value_spec(entries[0]);
            lemma_contains_concat(
                entries_parts(rest, profiles, extensions, index).0,
                value_parts(value, profiles, extensions, index).0,
                x,
            );
            lemma_contains_concat(
                entries_parts(rest, Seq::empty(), extensions, index).0,
                value_parts(value, Seq::empty(), extensions, index).0,
                x,
            );
            if entries_parts(rest, profiles, extensions, index).0.contains(x) {
                lemma_entries_independent(rest, profiles, extensions, index, x);
            } else {
                lemma_value_independent(value, profiles, extensions, index, x);
            }
        }
    }
}

/// The profiles of a resolution only add profile specific resources: every
/// resource that is specific to no profile is one the location resolves to
/// without any profile.
pub proof fn lemma_profiles_only_add_profile_files(
    location: (Seq<char>, bool),
    profiles: Seq<Seq<char>>,
    extensions: Seq<Seq<char>>,
    index: ResourceIndex,
    x: ResourcePart,
)
    requires
        resolve_spec(location, profiles, extensions, index).0.contains(x),
        x.2 is None,
    ensures
        resolve_spec(location, Seq::empty(), extensions, index).0.contains(x),
{
    if location.0.len() > 0 {
        lemma_entries_independent(split_spec(location.0, ';'), profiles, extensions, index, x);
    }
}

/// Whether, among resources, those of a later profile come before those of
/// an earlier one: the active profiles are in ascending precedence order, and
/// the resources that come first take precedence.
pub open spec fn later_profiles_first(parts: Seq<ResourcePart>, profiles: Seq<Seq<char>>) -> bool {
    forall|a: int, b: int, i: int, j: int|
        #![trigger parts[a], parts[b], profiles[i], profiles[j]]
        0 <= a < parts.len() && 0 <= b < parts.len() && 0 <= i < j < profiles.len() && profiles[i]
            != profiles[j] && parts[a].2 == Some(profiles[j]) && parts[b].2 == Some(profiles[i]) ==> a < b
}

/// Whether no profile is given twice.
pub open spec fn distinct_profiles(profiles: Seq<Seq<char>>) -> bool {
    forall|i: int, j: int| 0 <= i < j < profiles.len() ==> #[trigger] profiles[i] != #[trigger] profiles[j]
}

/// The profile specific files of a directory are each of one of the
/// profiles.
proof fn lemma_profile_candidates_of_profiles(
    directory: Seq<char>,
    profiles: Seq<Seq<char>>,
    extensions: Seq<Seq<char>>,
    file_system: bool,
)
    ensures
        forall|x: int|
            0 <= x < profile_candidates(directory, profiles, extensions, file_system).len() ==> exists|m: int|
                0 <= m < profiles.len() && (#[trigger] profile_candidates(directory, profiles, extensions, file_system)[x]).2
                    == Some(profiles[m]),
    decreases profiles.len(),
{
    if profiles.len() > 0 {
        let rest = profiles.drop_first();
        lemma_profile_candidates_of_profiles(directory, rest, extensions, file_system);
        let front = profile_candidates(directory, rest, extensions, file_system);
        let own = extension_candidates(directory, Some(profiles[0]), extensions, file_system);
        let all = profile_candidates(directory, profiles, extensions, file_system);
        assert(all == front + own);
        assert forall|x: int| 0 <= x < all.len() implies exists|m: int|
            0 <= m < profiles.len() && (#[trigger] all[x]).2 == Some(profiles[m]) by {
            if x < front.len() {
                assert(all[x] == front[x]);
                let m = choose|m: int| 0 <= m < rest.len() && front[x].2 == Some(rest[m]);
                assert(rest[m] == profiles[m + 1]);
            } else {
                assert(all[x] == own[x - front.len()]);
                assert(all[x].2 == Some(profiles[0]));
            }
        }
    }
}

/// The profile specific files of a directory come the last profile first.
proof fn lemma_profile_candidates_later_first(
    directory: Seq<char>,
    profiles: Seq<Seq<char>>,
    extensions: Seq<Seq<char>>,
    file_system: bool,
)
    requires
        distinct_profiles(profiles),
    ensures
        later_profiles_first(profile_candidates(directory, profiles, extensions, file_system), profiles),
    decreases profiles.len(),
{
    if profiles.len() > 0 {
        let rest = profiles.drop_first();
        assert(distinct_profiles(rest)) by {
            assert forall|i: int, j: int| 0 <= i < j < rest.len() implies #[trigger] rest[i] != #[trigger] rest[j] by {
                assert(rest[i] == profiles[i + 1] && rest[j] == profiles[j + 1]);
            }
        }
        lemma_profile_candidates_later_first(directory, rest, extensions, file_system);
        lemma_profile_candidates_of_profiles(directory, rest, extensions, file_system);
        let front = profile_candidates(directory, rest, extensions, file_system);
        let own = extension_candidates(directory, Some(profiles[0]), extensions, file_system);
        let all = profile_candidates(directory, profiles, extensions, file_system);
        assert(all == front + own);
        assert forall|a: int, b: int, i: int, j: int|
            #![trigger all[a], all[b], profiles[i], profiles[j]]
            0 <= a < all.len() && 0 <= b < all.len() && 0 <= i < j < profiles.len() && profiles[i]
                != profiles[j] && all[a].2 == Some(profiles[j]) && all[b].2 == Some(profiles[i]) implies a < b by {
            if a >= front.len() {
                assert(all[a] == own[a - front.len()]);
                assert(profiles[0] != profiles[j]);
            } else if b < front.len() {
                assert(all[a] == front[a]);
                assert(all[b] == front[b]);
                let ma = choose|m: int| 0 <= m < rest.len() && front[a].2 == Some(rest[m]);
                let mb = choose|m: int| 0 <= m < rest.len() && front[b].2 == Some(rest[m]);
                assert(rest[ma] == profiles[ma + 1]);
                assert(rest[mb] == profiles[mb + 1]);
                assert(j == ma + 1) by {
                    if j != ma + 1 {
                        if j < ma + 1 {
                            assert(profiles[j] != profiles[ma + 1]);
                        } else {
                            assert(profiles[ma + 1] != profiles[j]);
                        }
                    }
                }
                assert(i == mb + 1) by {
                    if i != mb + 1 {
                        if i < mb + 1 {
                            assert(profiles[i] != profiles[mb + 1]);
                        } else {
                            assert(profiles[mb + 1] != profiles[i]);
                        }
                    }
                }
                assert(front[a].2 == Some(rest[j - 1]));
                assert(front[b].2 == Some(rest[i - 1]));
            }
        }
    }
}

/// Keeping the resources that exist keeps their order.
proof fn lemma_existing_later_first(index: ResourceIndex, candidates: Seq<ResourcePart>, profiles: Seq<Seq<char>>)
    requires
        later_profiles_first(candidates, profiles),
    ensures
        later_profiles_first(existing(index, candidates), profiles),
    decreases candidates.len(),
{
    if candidates.len() > 0 {
        let init = candidates.drop_last();
        assert(later_profiles_first(init, profiles)) by {
            assert forall|a: int, b: int, i: int, j: int|
                #![trigger init[a], init[b], profiles[i], profiles[j]]
                0 <= a < init.len() && 0 <= b < init.len() && 0 <= i < j < profiles.len() && profiles[i]
                    != profiles[j] && init[a].2 == Some(profiles[j]) && init[b].2 == Some(profiles[i]) implies a
                < b by {
                assert(init[a] == candidates[a] && init[b] == candidates[b]);
            }
        }
        lemma_existing_later_first(index, init, profiles);
        lemma_existing_from(index, init);
        let kept = existing(index, init);
        let all = existing(index, candidates);
        let last = candidates.len() - 1;
        assert(candidates.last() == candidates[last]);
        if all != kept {
            assert(all == kept.push(candidates[last]));
            assert forall|a: int, b: int, i: int, j: int|
                #![trigger all[a], all[b], profiles[i], profiles[j]]
                0 <= a < all.len() && 0 <= b < all.len() && 0 <= i < j < profiles.len() && profiles[i]
                    != profiles[j] && all[a].2 == Some(profiles[j]) && all[b].2 == Some(profiles[i]) implies a
                < b by {
                if a < kept.len() && b < kept.len() {
                    assert(all[a] == kept[a] && all[b] == kept[b]);
                } else if a == kept.len() && b < kept.len() {
                    assert(all[b] == kept[b]);
                    assert(init.contains(kept[b]));
                    let k = choose|k: int| 0 <= k < init.len() && init[k] == kept[b];
                    assert(candidates[k] == init[k]);
                    assert(all[a] == candidates[last]);
                }
            }
        }
    }
}

/// Adding resources without a profile after others keeps the order of the
/// profiles.
proof fn lemma_later_first_append_plain(a: Seq<ResourcePart>, b: Seq<ResourcePart>, profiles: Seq<Seq<char>>)
    requires
        later_profiles_first(a, profiles),
        forall|k: int| 0 <= k < b.len() ==> (#[trigger] b[k]).2 is None,
    ensures
        later_profiles_first(a + b, profiles),
{
    let all = a + b;
    assert forall|x: int, y: int, i: int, j: int|
        #![trigger all[x], all[y], profiles[i], profiles[j]]
        0 <= x < all.len() && 0 <= y < all.len() && 0 <= i < j < profiles.len() && profiles[i] != profiles[j]
            && all[x].2 == Some(profiles[j]) && all[y].2 == Some(profiles[i]) implies x < y by {
        if x >= a.len() {
            assert(all[x] == b[x - a.len()]);
        } else if y >= a.len() {
            assert(all[y] == b[y - a.len()]);
        } else {
            assert(all[x] == a[x] && all[y] == a[y]);
        }
    }
}

/// The resources a location value that holds no wildcard resolves to, a
/// directory or a file, come the last profile first: the files of a later
/// profile, which takes precedence, come before those of an earlier one.
pub proof fn lemma_value_later_profiles_first(
    value: Seq<char>,
    profiles: Seq<Seq<char>>,
    extensions: Seq<Seq<char>>,
    index: ResourceIndex,
)
    requires
        distinct_profiles(profiles),
        !value.contains('*'),
    ensures
        later_profiles_first(value_parts(value, profiles, extensions, index).0, profiles),
{
    let file_system = starts_with_spec(value, FILE_PREFIX@);
    let path = resolution_path_spec(value, file_system);
    if loadable_spec(path, extensions) {
        let (directory, name) = split_path_spec(path);
        let e = rfind_spec(name, '.');
        if e >= 0 && name.take(e) == CONFIG_NAME@ {
            let exts = seq![name.skip(e + 1)];
            lemma_profile_candidates_later_first(directory, profiles, exts, file_system);
            lemma_existing_later_first(index, profile_candidates(directory, profiles, exts, file_system), profiles);
            lemma_later_first_append_plain(
                existing(index, profile_candidates(directory, profiles, exts, file_system)),
                seq![(path, file_system, None)],
                profiles,
            );
        } else {
            lemma_later_first_append_plain(Seq::empty(), seq![(path, file_system, None)], profiles);
            assert(Seq::<ResourcePart>::empty() + seq![(path, file_system, None::<Seq<char>>)] =~= seq![(path, file_system, None)]);
        }
    } else {
        let pc = profile_candidates(path, profiles, extensions, file_system);
        let plain = extension_candidates(path, None, extensions, file_system);
        lemma_profile_candidates_later_first(path, profiles, extensions, file_system);
        lemma_later_first_append_plain(pc, plain, profiles);
        lemma_existing_later_first(index, pc + plain, profiles);
    }
}

/// The resources a location of a single entry without a wildcard resolves
/// to, such as `optional:/config/`, come the last profile first: for
/// profiles `p_i` and `p_j` with `i < j`, every file of `p_j` comes before
/// every file of `p_i`, so the later profile takes precedence.
pub proof fn lemma_location_later_profiles_first(
    location: (Seq<char>, bool),
    profiles: Seq<Seq<char>>,
    extensions: Seq<Seq<char>>,
    index: ResourceIndex,
)
    requires
        distinct_profiles(profiles),
        !location.0.contains(';'),
        trim_spec(location.0).len() > 0,
        !entry_value_spec(location.0).contains('*'),
    ensures
        later_profiles_first(resolve_spec(location, profiles, extensions, index).0, profiles),
{
    let entries = split_spec(location.0, ';');
    assert forall|j: int| 0 <= j < location.0.len() implies location.0[j] != ';' by {
        if location.0[j] == ';' {
            assert(location.0.contains(';'));
        }
    }
    lemma_find_is(location.0, ';', -1);
    assert(entries == seq![location.0]);
    assert(location.0.len() > 0) by {
        if location.0.len() == 0 {
            assert(location.0.skip(leading_whitespace(location.0) as int).len() == 0);
        }
    }
    assert(entries.drop_first() =~= Seq::<Seq<char>>::empty());
    let v = value_parts(entry_value_spec(location.0), profiles, extensions, index);
    assert(Seq::<ResourcePart>::empty() + v.0 =~= v.0);
    assert(entries[0] == location.0);
    assert(entries_parts(entries.drop_first(), profiles, extensions, index) == (Seq::<ResourcePart>::empty(), false));
    assert(entries_parts(entries, profiles, extensions, index).0 == v.0);
    assert(resolve_spec(location, profiles, extensions, index).0 == v.0);
    lemma_value_later_profiles_first(entry_value_spec(location.0), profiles, extensions, index);
}

} // verus!
