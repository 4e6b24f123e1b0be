//! A location from which config data can be loaded.

use vstd::prelude::*;

use crate::text::{
    chars_of, concat, contains_char, equals, slice, starts_with, starts_with_spec, string_of,
    trim, trim_spec,
};

verus! {

broadcast use vstd::string::group_string_axioms;

/// The prefix that marks a location as optional.
pub const OPTIONAL_PREFIX: &'static str = "optional:";

/// The prefix that marks a location as a file system path.
pub const FILE_PREFIX: &'static str = "file:";

/// The value without its prefix, when it has it.
pub open spec fn strip_prefix_spec(s: Seq<char>, prefix: Seq<char>) -> Option<Seq<char>> {
    if starts_with_spec(s, prefix) {
        Some(s.skip(prefix.len() as int))
    } else {
        None
    }
}

/// The value of a location without its `file:` prefix.
pub open spec fn strip_file_prefix_spec(value: Seq<char>) -> Seq<char> {
    match strip_prefix_spec(value, FILE_PREFIX@) {
        Some(rest) => rest,
        None => value,
    }
}

/// The value and the optional flag of the location of a text: the text is
/// trimmed, and a leading `optional:` prefix is removed and remembered.
pub open spec fn location_of_spec(location: Seq<char>) -> (Seq<char>, bool) {
    let trimmed = trim_spec(location);
    match strip_prefix_spec(trimmed, OPTIONAL_PREFIX@) {
        Some(rest) => (trim_spec(rest), true),
        None => (trimmed, false),
    }
}

/// Returns the text without the given prefix, when it starts with it.
pub fn strip_prefix(s: &Vec<char>, prefix: &str) -> (r: Option<Vec<char>>)
    ensures
        match r {
            Some(rest) => strip_prefix_spec(s@, prefix@) == Some(rest@),
            None => strip_prefix_spec(s@, prefix@) is None,
        },
{
    let p = chars_of(prefix);
    if starts_with(s, &p) {
        Some(slice(s, p.len(), s.len()))
    } else {
        None
    }
}

/// Removes the `file:` prefix from the given location value.
pub fn strip_file_prefix(value: &str) -> (r: String)
    ensures
        r@ == strip_file_prefix_spec(value@),
{
    let chars = chars_of(value);
    match strip_prefix(&chars, FILE_PREFIX) {
        Some(rest) => string_of(&rest),
        None => value.to_owned(),
    }
}

/// A location from which config data can be loaded.
///
/// A location is made up of an optional `optional:` prefix, an optional
/// `file:` prefix and a value that refers to a resource, to a directory or to
/// a wildcard pattern. A location with the `file:` prefix is resolved against
/// the file system, one without it against the resources; a location with the
/// `optional:` prefix may be missing without that being an error.
#[derive(Debug, Clone, PartialEq, Eq, PartialOrd, Ord, Hash)]
pub struct ConfigDataLocation {
    value: String,
    optional: bool,
}

impl View for ConfigDataLocation {
    type V = (Seq<char>, bool);

    closed spec fn view(&self) -> (Seq<char>, bool) {
        (self.value@, self.optional)
    }
}

impl ConfigDataLocation {
    /// The value of the location, without the `optional:` prefix.
    pub open spec fn value_spec(&self) -> Seq<char> {
        self@.0
    }

    /// Whether the location may be missing.
    pub open spec fn optional_spec(&self) -> bool {
        self@.1
    }

    /// The text of the location, with its `optional:` prefix.
    pub open spec fn display_spec(&self) -> Seq<char> {
        if self.optional_spec() {
            OPTIONAL_PREFIX@ + self.value_spec()
        } else {
            self.value_spec()
        }
    }

    /// Returns a location for the given value: the value is trimmed, and a
    /// leading `optional:` prefix is removed and remembered. Everything else,
    /// a `file:` prefix included, is kept as-is.
    pub fn of(location: &str) -> (r: Self)
        ensures
            r@ == location_of_spec(location@),
    {
        let trimmed = trim(&chars_of(location));
        match strip_prefix(&trimmed, OPTIONAL_PREFIX) {
            Some(rest) => ConfigDataLocation { value: string_of(&trim(&rest)), optional: true },
            None => ConfigDataLocation { value: string_of(&trimmed), optional: false },
        }
    }

    /// Returns a copy of this location.
    pub fn copy(&self) -> (r: Self)
        ensures
            r@ == self@,
    {
        ConfigDataLocation { value: self.value.clone(), optional: self.optional }
    }

    /// Returns whether two locations are equal.
    pub fn equals(&self, other: &Self) -> (r: bool)
        ensures
            r == (self@ == other@),
    {
        self.optional == other.optional && self.value == other.value
    }

    /// Returns the value of this location, without the `optional:` prefix.
    pub fn value(&self) -> (r: &str)
        ensures
            r@ == self.value_spec(),
    {
        self.value.as_str()
    }

    /// Returns whether this location may be missing.
    pub fn is_optional(&self) -> (r: bool)
        ensures
            r == self.optional_spec(),
    {
        self.optional
    }

    /// Returns whether this location has no value.
    pub fn is_empty(&self) -> (r: bool)
        ensures
            r == (self.value_spec().len() == 0),
    {
        self.value.as_str().is_empty()
    }

    /// Returns whether this location refers to the file system.
    pub fn is_file_system(&self) -> (r: bool)
        ensures
            r == starts_with_spec(self.value_spec(), FILE_PREFIX@),
    {
        starts_with(&chars_of(self.value.as_str()), &chars_of(FILE_PREFIX))
    }

    /// Returns whether this location contains a wildcard pattern.
    pub fn has_wildcard(&self) -> (r: bool)
        ensures
            r == self.value_spec().contains('*'),
    {
        contains_char(&chars_of(self.value.as_str()), '*')
    }

    /// Returns the value of this location without its `file:` prefix.
    pub fn path(&self) -> (r: String)
        ensures
            r@ == strip_file_prefix_spec(self.value_spec()),
    {
        strip_file_prefix(self.value.as_str())
    }

    /// Returns the text of this location, with its `optional:` prefix.
    pub fn to_string(&self) -> (r: String)
        ensures
            r@ == self.display_spec(),
    {
        if self.optional {
            let v = concat(&chars_of(OPTIONAL_PREFIX), &chars_of(self.value.as_str()));
            string_of(&v)
        } else {
            self.value.clone()
        }
    }
}


/// The text of a location of the given value and optional flag.
pub open spec fn location_text_spec(location: (Seq<char>, bool)) -> Seq<char> {
    if location.1 {
        OPTIONAL_PREFIX@ + location.0
    } else {
        location.0
    }
}

/// A location read back from its own text is the same location.
pub proof fn lemma_location_text_roundtrip(text: Seq<char>)
    ensures
        location_of_spec(location_text_spec(location_of_spec(text))) == location_of_spec(text),
{
    reveal_strlit("optional:");
    let trimmed = trim_spec(text);
    crate::text::lemma_trim_idempotent(text);
    match strip_prefix_spec(trimmed, OPTIONAL_PREFIX@) {
        Some(rest) => {
            let v = trim_spec(rest);
            crate::text::lemma_trim_idempotent(rest);
            crate::text::lemma_trimmed_ends(rest);
            let t = OPTIONAL_PREFIX@ + v;
            assert(t[0] == 'o');
            if v.len() > 0 {
                assert(t.last() == v.last());
            } else {
                assert(t.last() == ':');
            }
            crate::text::lemma_trim_of_trimmed(t);
            assert(t.take(OPTIONAL_PREFIX@.len() as int) =~= OPTIONAL_PREFIX@);
            assert(t.skip(OPTIONAL_PREFIX@.len() as int) =~= v);
        },
        None => {},
    }
}

} // verus!
