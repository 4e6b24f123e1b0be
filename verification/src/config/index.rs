//! What the resources and the file system hold, as far as resolving config
//! data locations reads it.

use vstd::prelude::*;

use crate::config::profiles::views;
use crate::text::{
    chars_of, concat, equals, find, find_spec, slice, sort_unique, sorted_set_spec,
    starts_with, starts_with_spec, trim_end_char, trim_end_char_spec, trim_start_char,
    trim_start_char_spec,
};

verus! {

broadcast use vstd::string::group_string_axioms;

/// The directory joined with a name: a directory without a name of its own
/// (once its trailing slashes are removed) leaves the name alone.
pub open spec fn join_path_spec(directory: Seq<char>, name: Seq<char>) -> Seq<char> {
    let d = trim_end_char_spec(directory, '/');
    if d.len() == 0 {
        name
    } else {
        d + seq!['/'] + name
    }
}

/// The prefix of the paths of the entries of a directory whose trailing
/// slashes have been removed.
pub open spec fn entry_prefix_spec(directory: Seq<char>) -> Seq<char> {
    if directory.len() == 0 {
        Seq::empty()
    } else {
        directory + seq!['/']
    }
}

/// The name of the subdirectory of the directory with the given entry prefix
/// that a resource path lies in, when it lies in one.
pub open spec fn resource_child_spec(path: Seq<char>, prefix: Seq<char>) -> Option<Seq<char>> {
    if starts_with_spec(path, prefix) {
        let remainder = path.skip(prefix.len() as int);
        let k = find_spec(remainder, '/');
        if k < 0 {
            None
        } else if k > 0 && remainder.len() - k > 1 {
            Some(remainder.take(k))
        } else {
            None
        }
    } else {
        None
    }
}

/// The name of a directory path that lies directly in the directory with the
/// given entry prefix, when it does.
pub open spec fn directory_child_spec(path: Seq<char>, prefix: Seq<char>) -> Option<Seq<char>> {
    if starts_with_spec(path, prefix) {
        let rest = path.skip(prefix.len() as int);
        if rest.len() > 0 && !rest.contains('/') {
            Some(rest)
        } else {
            None
        }
    } else {
        None
    }
}

/// Whether a resource path is a direct entry of the directory with the given
/// name (without leading and trailing slashes).
pub open spec fn is_entry_of_spec(path: Seq<char>, directory: Seq<char>) -> bool {
    starts_with_spec(path, directory) && {
        let rest = path.skip(directory.len() as int);
        let rest = if rest.len() > 0 && rest[0] == '/' {
            rest.drop_first()
        } else {
            rest
        };
        rest.len() > 0 && !rest.contains('/')
    }
}

/// Returns the directory joined with the name.
pub fn join_path(directory: &Vec<char>, name: &Vec<char>) -> (r: Vec<char>)
    ensures
        r@ == join_path_spec(directory@, name@),
{
    let d = trim_end_char(directory, '/');
    if d.len() == 0 {
        name.clone()
    } else {
        let slash = vec!['/'];
        assert(slash@ =~= seq!['/']);
        let with_slash = concat(&d, &slash);
        concat(&with_slash, name)
    }
}

/// What the resources of the resource loader and the file system hold: the
/// paths of the resources, the paths of the files and the paths of the
/// directories of the file system.
///
/// The resolution of config data locations reads nothing else, so a snapshot
/// of these paths determines the resources a location resolves to. A
/// directory of the file system that the paths name without a directory of
/// its own is a directory of the working directory, which always exists.
#[derive(Debug, Clone)]
pub struct ResourceIndex {
    resources: Vec<String>,
    files: Vec<String>,
    directories: Vec<String>,
}

impl ResourceIndex {
    /// The paths of the resources.
    pub closed spec fn resources_spec(&self) -> Seq<Seq<char>> {
        views(self.resources@)
    }

    /// The paths of the files of the file system.
    pub closed spec fn files_spec(&self) -> Seq<Seq<char>> {
        views(self.files@)
    }

    /// The paths of the directories of the file system.
    pub closed spec fn directories_spec(&self) -> Seq<Seq<char>> {
        views(self.directories@)
    }

    /// Whether the resource, or the file of the file system, exists.
    pub open spec fn resource_exists_spec(&self, path: Seq<char>, file_system: bool) -> bool {
        if file_system {
            self.files_spec().contains(path)
        } else {
            self.resources_spec().contains(path)
        }
    }

    /// Whether the directory exists: a directory of the resources exists when
    /// a resource lies directly in it.
    pub open spec fn directory_exists_spec(&self, directory: Seq<char>, file_system: bool) -> bool {
        if file_system {
            directory.len() == 0 || self.directories_spec().contains(directory)
        } else {
            let name = trim_end_char_spec(trim_start_char_spec(directory, '/'), '/');
            exists|i: int|
                0 <= i < self.resources_spec().len() && is_entry_of_spec(
                    #[trigger] self.resources_spec()[i],
                    name,
                )
        }
    }

    /// The names of the subdirectories of the given directory, whose trailing
    /// slashes have been removed.
    pub open spec fn children_spec(&self, directory: Seq<char>, file_system: bool) -> Set<Seq<char>> {
        let prefix = entry_prefix_spec(directory);
        if file_system {
            Set::new(
                |n: Seq<char>|
                    exists|i: int|
                        0 <= i < self.directories_spec().len() && directory_child_spec(
                            #[trigger] self.directories_spec()[i],
                            prefix,
                        ) == Some(n),
            )
        } else {
            Set::new(
                |n: Seq<char>|
                    exists|i: int|
                        0 <= i < self.resources_spec().len() && resource_child_spec(
                            #[trigger] self.resources_spec()[i],
                            prefix,
                        ) == Some(n),
            )
        }
    }

    /// Creates an index of the given resource paths, file paths and directory
    /// paths.
    pub fn new(resources: Vec<String>, files: Vec<String>, directories: Vec<String>) -> (r: Self)
        ensures
            r.resources_spec() == views(resources@),
            r.files_spec() == views(files@),
            r.directories_spec() == views(directories@),
    {
        ResourceIndex { resources, files, directories }
    }

    /// Returns whether the resource, or the file of the file system, exists.
    pub fn resource_exists(&self, path: &Vec<char>, file_system: bool) -> (r: bool)
        ensures
            r == self.resource_exists_spec(path@, file_system),
    {
        let paths = if file_system {
            &self.files
        } else {
            &self.resources
        };
        let mut i: usize = 0;
        while i < paths.len()
            invariant
                i <= paths.len(),
                views(paths@) == (if file_system {
                    self.files_spec()
                } else {
                    self.resources_spec()
                }),
                forall|j: int| 0 <= j < i ==> views(paths@)[j] != path@,
            decreases paths.len() - i,
        {
            if equals(&chars_of(paths[i].as_str()), path) {
                assert(views(paths@)[i as int] == path@);
                return true;
            }
            i = i + 1;
        }
        false
    }

    /// Returns whether the directory exists.
    pub fn directory_exists(&self, directory: &Vec<char>, file_system: bool) -> (r: bool)
        ensures
            r == self.directory_exists_spec(directory@, file_system),
    {
        if file_system {
            if directory.len() == 0 {
                return true;
            }
            let mut i: usize = 0;
            while i < self.directories.len()
                invariant
                    file_system,
                    i <= self.directories.len(),
                    forall|j: int| 0 <= j < i ==> self.directories_spec()[j] != directory@,
                decreases self.directories.len() - i,
            {
                if equals(&chars_of(self.directories[i].as_str()), directory) {
                    assert(self.directories_spec()[i as int] == directory@);
                    assert(self.directories_spec().contains(directory@));
                    return true;
                }
                i = i + 1;
            }
            return false;
        }
        let name = trim_end_char(&trim_start_char(directory, '/'), '/');
        let mut i: usize = 0;
        while i < self.resources.len()
            invariant
                !file_system,
                i <= self.resources.len(),
                name@ == trim_end_char_spec(trim_start_char_spec(directory@, '/'), '/'),
                forall|j: int| 0 <= j < i ==> !is_entry_of_spec(self.resources_spec()[j], name@),
            decreases self.resources.len() - i,
        {
            if is_entry_of(&chars_of(self.resources[i].as_str()), &name) {
                assert(is_entry_of_spec(self.resources_spec()[i as int], name@));
                assert(exists|j: int|
                    0 <= j < self.resources_spec().len() && is_entry_of_spec(
                        #[trigger] self.resources_spec()[j],
                        name@,
                    ));
                return true;
            }
            i = i + 1;
        }
        false
    }

    /// Returns the names of the subdirectories of the given directory, whose
    /// trailing slashes have been removed, in increasing order.
    pub fn children(&self, directory: &Vec<char>, file_system: bool) -> (r: Vec<Vec<char>>)
        ensures
            r@.map_values(|v: Vec<char>| v@) == sorted_set_spec(
                self.children_spec(directory@, file_system),
            ),
    {
        let slash = vec!['/'];
        assert(slash@ =~= seq!['/']);
        let prefix = if directory.len() == 0 {
            Vec::new()
        } else {
            concat(directory, &slash)
        };
        assert(prefix@ =~= entry_prefix_spec(directory@));
        let paths = if file_system {
            &self.directories
        } else {
            &self.resources
        };
        let ghost all = views(paths@);
        let ghost child = |p: Seq<char>|
            if file_system {
                directory_child_spec(p, prefix@)
            } else {
                resource_child_spec(p, prefix@)
            };
        let mut names: Vec<Vec<char>> = Vec::new();
        let mut i: usize = 0;
        while i < paths.len()
            invariant
                i <= paths.len(),
                all == views(paths@),
                prefix@ == entry_prefix_spec(directory@),
                all == (if file_system {
                    self.directories_spec()
                } else {
                    self.resources_spec()
                }),
                child == (|p: Seq<char>|
                    if file_system {
                        directory_child_spec(p, prefix@)
                    } else {
                        resource_child_spec(p, prefix@)
                    }),
                names@.map_values(|v: Vec<char>| v@).to_set() == Set::new(
                    |n: Seq<char>| exists|j: int| 0 <= j < i && child(#[trigger] all[j]) == Some(n),
                ),
            decreases paths.len() - i,
        {
            let path = chars_of(paths[i].as_str());
            let found = if file_system {
                directory_child(&path, &prefix)
            } else {
                resource_child(&path, &prefix)
            };
            let ghost before = names@.map_values(|v: Vec<char>| v@);
            assert(path@ == all[i as int]);
            match found {
                Some(name) => {
                    names.push(name);
                    proof {
                        let after = names@.map_values(|v: Vec<char>| v@);
                        assert(after =~= before.push(name@));
                        before.lemma_push_to_set_commute(name@);
                        assert(after.to_set() =~= Set::new(
                            |n: Seq<char>|
                                exists|j: int| 0 <= j < i + 1 && child(#[trigger] all[j]) == Some(n),
                        )) by {
                            assert forall|n: Seq<char>| after.to_set().contains(n) implies exists|
                                j: int,
                            | 0 <= j < i + 1 && child(#[trigger] all[j]) == Some(n) by {
                                if n == name@ {
                                    assert(child(all[i as int]) == Some(n));
                                } else {
                                    assert(before.to_set().contains(n));
                                }
                            }
                            assert forall|n: Seq<char>|
                                (exists|j: int| 0 <= j < i + 1 && child(#[trigger] all[j]) == Some(n))
                                implies after.to_set().contains(n) by {
                                let j = choose|j: int| 0 <= j < i + 1 && child(#[trigger] all[j]) == Some(n);
                                if j < i {
                                    assert(before.to_set().contains(n));
                                } else {
                                    assert(n == name@);
                                }
                            }
                        }
                    }
                },
                None => {
                    assert(before.to_set() =~= Set::new(
                        |n: Seq<char>| exists|j: int| 0 <= j < i + 1 && child(#[trigger] all[j]) == Some(n),
                    )) by {
                        assert forall|n: Seq<char>|
                            (exists|j: int| 0 <= j < i + 1 && child(#[trigger] all[j]) == Some(n))
                            implies before.to_set().contains(n) by {
                            let j = choose|j: int| 0 <= j < i + 1 && child(#[trigger] all[j]) == Some(n);
                            if j == i {
                                assert(child(all[j]) is None);
                            }
                        }
                    }
                },
            }
            i = i + 1;
        }
        assert(names@.map_values(|v: Vec<char>| v@).to_set() =~= self.children_spec(
            directory@,
            file_system,
        ));
        sort_unique(&names)
    }
}

/// Returns whether the resource path is a direct entry of the directory.
fn is_entry_of(path: &Vec<char>, directory: &Vec<char>) -> (r: bool)
    ensures
        r == is_entry_of_spec(path@, directory@),
{
    if !starts_with(path, directory) {
        return false;
    }
    let rest = slice(path, directory.len(), path.len());
    assert(rest@ =~= path@.skip(directory@.len() as int));
    let rest = if rest.len() > 0 && rest[0] == '/' {
        let r = slice(&rest, 1, rest.len());
        assert(r@ =~= rest@.drop_first());
        r
    } else {
        rest
    };
    rest.len() > 0 && !crate::text::contains_char(&rest, '/')
}

/// Returns the subdirectory of the directory with the given entry prefix that
/// the resource path lies in, if it lies in one.
fn resource_child(path: &Vec<char>, prefix: &Vec<char>) -> (r: Option<Vec<char>>)
    ensures
        crate::text::opt_chars(r) == resource_child_spec(path@, prefix@),
{
    if !starts_with(path, prefix) {
        return None;
    }
    let remainder = slice(path, prefix.len(), path.len());
    assert(remainder@ =~= path@.skip(prefix@.len() as int));
    proof {
        crate::text::lemma_find(remainder@, '/');
    }
    match find(&remainder, '/') {
        None => None,
        Some(k) => {
            if k > 0 && remainder.len() - k > 1 {
                let r = slice(&remainder, 0, k);
                assert(r@ =~= remainder@.take(k as int));
                Some(r)
            } else {
                None
            }
        },
    }
}

/// Returns the name of the directory path when it lies directly in the
/// directory with the given entry prefix.
fn directory_child(path: &Vec<char>, prefix: &Vec<char>) -> (r: Option<Vec<char>>)
    ensures
        crate::text::opt_chars(r) == directory_child_spec(path@, prefix@),
{
    if !starts_with(path, prefix) {
        return None;
    }
    let rest = slice(path, prefix.len(), path.len());
    assert(rest@ =~= path@.skip(prefix@.len() as int));
    if rest.len() > 0 && !crate::text::contains_char(&rest, '/') {
        Some(rest)
    } else {
        None
    }
}

} // verus!
