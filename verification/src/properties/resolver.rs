//! Resolution of property values and of the placeholders they hold.

use vstd::prelude::*;

use crate::properties::source::{
    configuration_property, configuration_property_spec, NextConfigurationPropertySources,
};
use crate::text::{
    chars_of, concat, find, find_spec, join3, lemma_find, lemma_find_is, opt_view, slice,
    starts_with_spec, string_of,
};

verus! {

broadcast use vstd::string::group_string_axioms;

/// The placeholder prefix used by default.
pub const DEFAULT_PLACEHOLDER_PREFIX: &'static str = "${";

/// The placeholder suffix used by default.
pub const DEFAULT_PLACEHOLDER_SUFFIX: &'static str = "}";

/// Separates the property name from the default value of a placeholder.
pub const DEFAULT_VALUE_SEPARATOR: char = ':';

/// The nesting depth up to which placeholders inside a placeholder are
/// resolved.
pub const MAX_PLACEHOLDER_DEPTH: usize = 8;

/// The index of the first occurrence of `p` in `s`, or -1.
pub open spec fn find_str_spec(s: Seq<char>, p: Seq<char>) -> int
    decreases s.len(),
{
    if starts_with_spec(s, p) {
        0
    } else if s.len() == 0 {
        -1
    } else {
        let r = find_str_spec(s.drop_first(), p);
        if r < 0 {
            -1
        } else {
            r + 1
        }
    }
}

/// What `find_str_spec` returns.
pub proof fn lemma_find_str(s: Seq<char>, p: Seq<char>)
    ensures
        -1 <= find_str_spec(s, p) <= s.len(),
        find_str_spec(s, p) >= 0 ==> starts_with_spec(s.skip(find_str_spec(s, p)), p),
        find_str_spec(s, p) >= 0 ==> find_str_spec(s, p) + p.len() <= s.len(),
        forall|j: int|
            0 <= j <= s.len() && (find_str_spec(s, p) < 0 || j < find_str_spec(s, p))
                ==> !starts_with_spec(#[trigger] s.skip(j), p),
    decreases s.len(),
{
    assert(s.skip(0) =~= s);
    if !starts_with_spec(s, p) && s.len() > 0 {
        lemma_find_str(s.drop_first(), p);
        let r = find_str_spec(s, p);
        if r >= 0 {
            assert(s.skip(r) =~= s.drop_first().skip(r - 1));
        }
        assert forall|j: int|
            0 <= j <= s.len() && (find_str_spec(s, p) < 0 || j < find_str_spec(s, p))
                implies !starts_with_spec(#[trigger] s.skip(j), p) by {
            if j > 0 {
                assert(s.skip(j) =~= s.drop_first().skip(j - 1));
            }
        }
    }
}

/// `find_str_spec` is the first index at which `p` occurs.
pub proof fn lemma_find_str_is(s: Seq<char>, p: Seq<char>, i: int)
    requires
        -1 <= i <= s.len(),
        i >= 0 ==> starts_with_spec(s.skip(i), p),
        forall|j: int| 0 <= j <= s.len() && (i < 0 || j < i) ==> !starts_with_spec(#[trigger] s.skip(j), p),
    ensures
        find_str_spec(s, p) == i,
{
    lemma_find_str(s, p);
    let r = find_str_spec(s, p);
    if r >= 0 && i >= 0 {
        if r < i {
            assert(!starts_with_spec(s.skip(r), p));
        }
        if i < r {
            assert(!starts_with_spec(s.skip(i), p));
        }
    } else if r >= 0 {
        assert(!starts_with_spec(s.skip(r), p));
    } else if i >= 0 {
        assert(!starts_with_spec(s.skip(i), p));
    }
}

/// The index of the suffix that closes the placeholder starting at the
/// beginning of `text`, counting the placeholders nested in it; `depth` is
/// the number of placeholders that are open at `index`.
pub open spec fn placeholder_end_spec(
    text: Seq<char>,
    prefix: Seq<char>,
    suffix: Seq<char>,
    index: int,
    depth: nat,
) -> Option<int>
    decreases text.len() - index, depth,
{
    if index < 0 || index >= text.len() || prefix.len() == 0 {
        None
    } else {
        let rest = text.skip(index);
        if starts_with_spec(rest, prefix) {
            placeholder_end_spec(text, prefix, suffix, index + prefix.len(), depth + 1)
        } else if starts_with_spec(rest, suffix) {
            if depth <= 1 {
                Some(index)
            } else {
                placeholder_end_spec(text, prefix, suffix, index + suffix.len(), (depth - 1) as nat)
            }
        } else {
            placeholder_end_spec(text, prefix, suffix, index + 1, depth)
        }
    }
}

/// The closing suffix lies within the text.
pub proof fn lemma_placeholder_end(
    text: Seq<char>,
    prefix: Seq<char>,
    suffix: Seq<char>,
    index: int,
    depth: nat,
)
    ensures
        placeholder_end_spec(text, prefix, suffix, index, depth) matches Some(e) ==> 0 <= index <= e
            && e + suffix.len() <= text.len() && starts_with_spec(text.skip(e), suffix),
    decreases text.len() - index, depth,
{
    if index < 0 || index >= text.len() || prefix.len() == 0 {
    } else {
        let rest = text.skip(index);
        if starts_with_spec(rest, prefix) {
            lemma_placeholder_end(text, prefix, suffix, index + prefix.len(), depth + 1);
        } else if starts_with_spec(rest, suffix) {
            if depth > 1 {
                lemma_placeholder_end(text, prefix, suffix, index + suffix.len(), (depth - 1) as nat);
            }
        } else {
            lemma_placeholder_end(text, prefix, suffix, index + 1, depth);
        }
    }
}

/// The depth the placeholders of a resolved value or of a placeholder are
/// resolved at; only whether it is below the maximum matters.
pub open spec fn next_depth(depth: nat) -> nat {
    if depth < MAX_PLACEHOLDER_DEPTH {
        depth + 1
    } else {
        depth
    }
}

/// The text a single placeholder is replaced with, and whether it could be
/// resolved: `original` is the placeholder with its prefix and suffix.
///
/// The placeholders nested in the placeholder are resolved first, up to
/// `MAX_PLACEHOLDER_DEPTH`; when they cannot all be resolved the placeholder
/// is kept as-is, unless such placeholders are ignored. Otherwise the
/// placeholder is replaced with the value of its property, whose
/// placeholders are resolved in turn, with its default value, the text after
/// its first `:`, when the property is absent, or kept as-is when it has no
/// default value.
pub open spec fn piece_spec(
    sources: Seq<Seq<(Seq<char>, Seq<char>)>>,
    prefix: Seq<char>,
    suffix: Seq<char>,
    ignore: bool,
    placeholder: Seq<char>,
    original: Seq<char>,
    depth: nat,
    fuel: nat,
) -> Option<(Seq<char>, bool)>
    decreases fuel, 0nat,
{
    let nested: Option<(Seq<char>, bool)> = if depth < MAX_PLACEHOLDER_DEPTH {
        if fuel == 0 {
            None
        } else {
            resolve_spec(
                sources,
                prefix,
                suffix,
                ignore,
                placeholder,
                next_depth(depth),
                (fuel - 1) as nat,
            )
        }
    } else {
        Some((placeholder, true))
    };
    match nested {
        None => None,
        Some(n) => if !n.1 && !ignore {
            Some((original, false))
        } else {
            let sep = find_spec(n.0, DEFAULT_VALUE_SEPARATOR);
            let key = if sep < 0 {
                n.0
            } else {
                n.0.take(sep)
            };
            match configuration_property_spec(sources, key) {
                Some(value) => if fuel == 0 {
                    None
                } else {
                    resolve_spec(
                        sources,
                        prefix,
                        suffix,
                        ignore,
                        value,
                        next_depth(depth),
                        (fuel - 1) as nat,
                    )
                },
                None => if sep < 0 {
                    Some((original, false))
                } else {
                    Some((n.0.skip(sep + 1), true))
                },
            }
        },
    }
}

/// The resolution of the placeholders of `text`: the resolved text, and
/// whether every placeholder could be resolved.
///
/// The text is scanned for the first placeholder, which is replaced as
/// `piece_spec` says, and the text that follows it is resolved in turn; a
/// prefix that is not closed by a suffix is kept as-is. `fuel` bounds the
/// nesting of the resolution: the result is `None` when the text needs more,
/// which is the case of the properties that refer to themselves.
pub open spec fn resolve_spec(
    sources: Seq<Seq<(Seq<char>, Seq<char>)>>,
    prefix: Seq<char>,
    suffix: Seq<char>,
    ignore: bool,
    text: Seq<char>,
    depth: nat,
    fuel: nat,
) -> Option<(Seq<char>, bool)>
    decreases fuel, text.len(),
{
    if prefix.len() == 0 {
        // An empty prefix occurs everywhere, and its scan only ends on an
        // empty text.
        if text.len() == 0 {
            Some((text, true))
        } else {
            None
        }
    } else {
        let start = find_str_spec(text, prefix);
        proof {
            lemma_find_str(text, prefix);
        }
        if start < 0 {
            Some((text, true))
        } else {
            let after = text.skip(start + prefix.len());
            match placeholder_end_spec(after, prefix, suffix, 0, 1) {
                None => Some((text, true)),
                Some(end) => {
                    proof {
                        lemma_placeholder_end(after, prefix, suffix, 0, 1);
                    }
                    let placeholder = after.take(end);
                    let plen = end + suffix.len();
                    let original = text.subrange(start, start + prefix.len() + plen);
                    let rest = after.skip(plen);
                    match piece_spec(
                        sources,
                        prefix,
                        suffix,
                        ignore,
                        placeholder,
                        original,
                        depth,
                        fuel,
                    ) {
                        None => None,
                        Some(p) => match resolve_spec(
                            sources,
                            prefix,
                            suffix,
                            ignore,
                            rest,
                            depth,
                            fuel,
                        ) {
                            None => None,
                            Some(r) => Some((text.take(start) + p.0 + r.0, p.1 && r.1)),
                        },
                    }
                },
            }
        }
    }
}

/// The resolved text of a resolution.
pub open spec fn text_of(r: Option<(Seq<char>, bool)>) -> Seq<char> {
    match r {
        Some(p) => p.0,
        None => Seq::empty(),
    }
}

/// Whether every placeholder of a resolution was resolved.
pub open spec fn flag_of(r: Option<(Seq<char>, bool)>) -> bool {
    match r {
        Some(p) => p.1,
        None => false,
    }
}

/// Error reported when a property or a placeholder cannot be resolved.
#[derive(Debug, Clone, PartialEq, Eq)]
pub struct UnresolvablePlaceholderError {
    message: String,
}

impl UnresolvablePlaceholderError {
    /// The message of the error.
    pub closed spec fn message_spec(&self) -> Seq<char> {
        self.message@
    }

    /// Returns the message of the error.
    pub fn message(&self) -> (r: &str)
        ensures
            r@ == self.message_spec(),
    {
        self.message.as_str()
    }
}

/// Returns whether `p` occurs in `s` at index `i`.
fn matches_at(s: &Vec<char>, p: &Vec<char>, i: usize) -> (r: bool)
    requires
        i <= s.len(),
    ensures
        r == starts_with_spec(s@.skip(i as int), p@),
{
    if p.len() > s.len() - i {
        return false;
    }
    let mut k: usize = 0;
    while k < p.len()
        invariant
            i + p.len() <= s.len(),
            k <= p.len(),
            forall|j: int| 0 <= j < k ==> s@[i + j] == p@[j],
        decreases p.len() - k,
    {
        if s[i + k] != p[k] {
            assert(s@.skip(i as int).take(p.len() as int)[k as int] != p@[k as int]);
            return false;
        }
        k = k + 1;
    }
    assert(s@.skip(i as int).take(p.len() as int) =~= p@);
    true
}

/// Returns the index of the first occurrence of `p` in `s`.
fn find_str(s: &Vec<char>, p: &Vec<char>) -> (r: Option<usize>)
    ensures
        match r {
            Some(i) => find_str_spec(s@, p@) == i,
            None => find_str_spec(s@, p@) == -1,
        },
{
    let mut i: usize = 0;
    while i < s.len()
        invariant
            i <= s.len(),
            forall|j: int| 0 <= j < i ==> !starts_with_spec(#[trigger] s@.skip(j), p@),
        decreases s.len() - i,
    {
        if matches_at(s, p, i) {
            proof {
                lemma_find_str_is(s@, p@, i as int);
            }
            return Some(i);
        }
        i = i + 1;
    }
    if matches_at(s, p, i) {
        proof {
            lemma_find_str_is(s@, p@, i as int);
        }
        return Some(i);
    }
    proof {
        lemma_find_str_is(s@, p@, -1);
    }
    None
}

/// A property resolver that resolves property values, and the placeholders
/// they hold, against configuration property sources.
///
/// A placeholder is `${name}` by default, or `${name:default}` with a default
/// value that is used when the property is absent.
#[derive(Debug)]
pub struct ConfigurationPropertySourcesPropertyResolver {
    sources: NextConfigurationPropertySources,
    placeholder_prefix: String,
    placeholder_suffix: String,
    ignore_unresolvable_nested_placeholders: bool,
}

impl ConfigurationPropertySourcesPropertyResolver {
    /// The sources the properties are resolved against.
    pub closed spec fn sources_spec(&self) -> Seq<Seq<(Seq<char>, Seq<char>)>> {
        self.sources.sources_spec()
    }

    /// The prefix of a placeholder.
    pub closed spec fn prefix_spec(&self) -> Seq<char> {
        self.placeholder_prefix@
    }

    /// The suffix of a placeholder.
    pub closed spec fn suffix_spec(&self) -> Seq<char> {
        self.placeholder_suffix@
    }

    /// Whether placeholders inside a placeholder that cannot be resolved are
    /// ignored.
    pub closed spec fn ignore_spec(&self) -> bool {
        self.ignore_unresolvable_nested_placeholders
    }

    /// The resolution of the given text with the given fuel.
    pub open spec fn resolution(&self, text: Seq<char>, depth: nat, fuel: nat) -> Option<
        (Seq<char>, bool),
    > {
        resolve_spec(
            self.sources_spec(),
            self.prefix_spec(),
            self.suffix_spec(),
            self.ignore_spec(),
            text,
            depth,
            fuel,
        )
    }

    /// Whether the resolution of the text comes to an end: the resolution of
    /// properties that refer to themselves does not.
    pub open spec fn resolvable(&self, text: Seq<char>) -> bool {
        exists|fuel: nat| #[trigger] self.resolution(text, 0, fuel) is Some
    }

    /// The resolved text and whether every placeholder was resolved.
    pub open spec fn resolved(&self, text: Seq<char>) -> (Seq<char>, bool) {
        self.resolution(text, 0, choose|fuel: nat| #[trigger] self.resolution(text, 0, fuel) is Some)->0
    }

    /// The raw value of a property.
    pub open spec fn lookup_spec(&self, key: Seq<char>) -> Option<Seq<char>> {
        configuration_property_spec(self.sources_spec(), key)
    }

    /// Whether the value of the property, when present, can be resolved.
    pub open spec fn property_resolvable(&self, key: Seq<char>) -> bool {
        self.lookup_spec(key) matches Some(v) ==> self.resolvable(v)
    }

    /// The resolved value of a property.
    pub open spec fn property_spec(&self, key: Seq<char>) -> Option<Seq<char>> {
        match self.lookup_spec(key) {
            Some(v) => Some(self.resolved(v).0),
            None => None,
        }
    }

    /// Creates a resolver for the given sources, with the `${` and `}`
    /// placeholders.
    pub fn new(sources: NextConfigurationPropertySources) -> (r: Self)
        ensures
            r.sources_spec() == sources.sources_spec(),
            r.prefix_spec() == DEFAULT_PLACEHOLDER_PREFIX@,
            r.suffix_spec() == DEFAULT_PLACEHOLDER_SUFFIX@,
            !r.ignore_spec(),
    {
        ConfigurationPropertySourcesPropertyResolver {
            sources,
            placeholder_prefix: DEFAULT_PLACEHOLDER_PREFIX.to_owned(),
            placeholder_suffix: DEFAULT_PLACEHOLDER_SUFFIX.to_owned(),
            ignore_unresolvable_nested_placeholders: false,
        }
    }

    /// Returns the value of the property with the given key, without resolving
    /// placeholders.
    fn lookup_property(&self, key: &str) -> (r: Option<String>)
        ensures
            crate::text::opt_view(r) == self.lookup_spec(key@),
    {
        configuration_property(&self.sources, key)
    }

    /// Returns the index of the suffix closing the placeholder that starts at
    /// the beginning of the given text.
    fn find_placeholder_end(&self, text: &Vec<char>, prefix: &Vec<char>, suffix: &Vec<char>) -> (r:
        Option<usize>)
        requires
            prefix@ == self.prefix_spec(),
            suffix@ == self.suffix_spec(),
            prefix@.len() > 0,
        ensures
            match r {
                Some(e) => placeholder_end_spec(text@, prefix@, suffix@, 0, 1) == Some(e as int),
                None => placeholder_end_spec(text@, prefix@, suffix@, 0, 1) is None,
            },
    {
        // The number of placeholders that are open, besides the first one.
        let mut nested: usize = 0;
        let mut index: usize = 0;
        while index < text.len()
            invariant
                prefix@.len() > 0,
                index <= text.len(),
                nested <= index,
                placeholder_end_spec(text@, prefix@, suffix@, 0, 1) == placeholder_end_spec(
                    text@,
                    prefix@,
                    suffix@,
                    index as int,
                    (nested + 1) as nat,
                ),
            decreases text.len() - index, nested,
        {
            if matches_at(text, prefix, index) {
                nested = nested + 1;
                index = index + prefix.len();
                continue;
            }
            if matches_at(text, suffix, index) {
                if nested == 0 {
                    return Some(index);
                }
                nested = nested - 1;
                index = index + suffix.len();
                continue;
            }
            index = index + 1;
        }
        None
    }

    /// The text a single placeholder is replaced with.
    pub open spec fn piece(&self, placeholder: Seq<char>, original: Seq<char>, depth: nat, fuel: nat) -> Option<(Seq<char>, bool)> {
        piece_spec(
            self.sources_spec(),
            self.prefix_spec(),
            self.suffix_spec(),
            self.ignore_spec(),
            placeholder,
            original,
            depth,
            fuel,
        )
    }

    /// Returns the text a single placeholder is replaced with, and whether it
    /// could be resolved.
    fn resolve_piece(
        &self,
        placeholder: Vec<char>,
        original: Vec<char>,
        prefix: &Vec<char>,
        suffix: &Vec<char>,
        depth: usize,
        Ghost(fuel): Ghost<nat>,
    ) -> (r: (Vec<char>, bool))
        requires
            prefix@ == self.prefix_spec(),
            suffix@ == self.suffix_spec(),
            prefix@.len() > 0,
            depth <= MAX_PLACEHOLDER_DEPTH,
            self.piece(placeholder@, original@, depth as nat, fuel) is Some,
        ensures
            self.piece(placeholder@, original@, depth as nat, fuel) == Some((r.0@, r.1)),
        decreases fuel, 0nat,
    {
        let next: usize = if depth < MAX_PLACEHOLDER_DEPTH {
            depth + 1
        } else {
            depth
        };
        let (resolved_placeholder, nested_resolved) = if depth < MAX_PLACEHOLDER_DEPTH {
            self.resolve_at(&placeholder, prefix, suffix, next, Ghost((fuel - 1) as nat))
        } else {
            (placeholder, true)
        };
        if !nested_resolved && !self.ignore_unresolvable_nested_placeholders {
            return (original, false);
        }
        let sep = find(&resolved_placeholder, DEFAULT_VALUE_SEPARATOR);
        proof {
            lemma_find(resolved_placeholder@, DEFAULT_VALUE_SEPARATOR);
        }
        let key = match sep {
            Some(i) => slice(&resolved_placeholder, 0, i),
            None => slice(&resolved_placeholder, 0, resolved_placeholder.len()),
        };
        proof {
            if sep is None {
                assert(key@ =~= resolved_placeholder@);
            }
        }
        let key_text = string_of(&key);
        match self.lookup_property(key_text.as_str()) {
            Some(value) => {
                let value_chars = chars_of(value.as_str());
                self.resolve_at(&value_chars, prefix, suffix, next, Ghost((fuel - 1) as nat))
            },
            None => match sep {
                Some(i) => (slice(&resolved_placeholder, i + 1, resolved_placeholder.len()), true),
                None => (original, false),
            },
        }
    }

    /// The resolved text of a text, with the fuel the resolution is read
    /// with.
    fn resolve_text(&self, text: &str) -> (r: (String, bool))
        requires
            self.resolvable(text@),
        ensures
            (r.0@, r.1) == self.resolved(text@),
    {
        let ghost fuel = choose|fuel: nat| #[trigger] self.resolution(text@, 0, fuel) is Some;
        let prefix = chars_of(self.placeholder_prefix.as_str());
        let suffix = chars_of(self.placeholder_suffix.as_str());
        let chars = chars_of(text);
        let (resolved, all) = self.resolve_at(&chars, &prefix, &suffix, 0, Ghost(fuel));
        (string_of(&resolved), all)
    }

    /// Returns whether the property with the given key can be resolved.
    pub fn contains_property(&self, key: &str) -> (r: bool)
        ensures
            r == self.lookup_spec(key@) is Some,
    {
        self.lookup_property(key).is_some()
    }

    /// Returns the value of the property with the given key, with its
    /// placeholders resolved, or `None` when the property is absent.
    pub fn get_property(&self, key: &str) -> (r: Option<String>)
        requires
            self.property_resolvable(key@),
        ensures
            opt_view(r) == self.property_spec(key@),
    {
        match self.lookup_property(key) {
            Some(value) => Some(self.resolve_text(value.as_str()).0),
            None => None,
        }
    }

    /// Returns the resolved value of the property with the given key, or the
    /// given default value when the property is absent.
    pub fn get_property_or_default(&self, key: &str, default_value: &str) -> (r: String)
        requires
            self.property_resolvable(key@),
        ensures
            r@ == match self.property_spec(key@) {
                Some(v) => v,
                None => default_value@,
            },
    {
        match self.get_property(key) {
            Some(value) => value,
            None => default_value.to_owned(),
        }
    }

    /// Returns the resolved value of the property with the given key, or an
    /// error naming the key when the property is absent.
    pub fn get_required_property(&self, key: &str) -> (r: Result<String, UnresolvablePlaceholderError>)
        requires
            self.property_resolvable(key@),
        ensures
            self.property_spec(key@) is Some <==> r is Ok,
            r matches Ok(v) ==> Some(v@) == self.property_spec(key@),
            r matches Err(e) ==> e.message_spec() == "Could not resolve placeholder '"@ + key@ + "'"@,
    {
        match self.get_property(key) {
            Some(value) => Ok(value),
            None => Err(UnresolvablePlaceholderError {
                message: join3("Could not resolve placeholder '", key, "'"),
            }),
        }
    }

    /// Resolves the placeholders of the given text; a placeholder that cannot
    /// be resolved is kept as-is.
    pub fn resolve_placeholders(&self, text: &str) -> (r: String)
        requires
            self.resolvable(text@),
        ensures
            r@ == self.resolved(text@).0,
    {
        self.resolve_text(text).0
    }

    /// Resolves the placeholders of the given text, which must all be
    /// resolvable.
    pub fn resolve_required_placeholders(&self, text: &str) -> (r: Result<String, UnresolvablePlaceholderError>)
        requires
            self.resolvable(text@),
        ensures
            r is Ok <==> self.resolved(text@).1,
            r matches Ok(v) ==> v@ == self.resolved(text@).0,
            r matches Err(e) ==> e.message_spec() == "Could not resolve placeholder in \""@ + text@ + "\""@,
    {
        let (resolved, all_resolved) = self.resolve_text(text);
        if all_resolved {
            Ok(resolved)
        } else {
            Err(UnresolvablePlaceholderError {
                message: join3("Could not resolve placeholder in \"", text, "\""),
            })
        }
    }

    /// Resolves the placeholders of the given text with at most the given
    /// number of nested resolutions, or returns `None` when the text needs
    /// more, as the text of a property that refers to itself does.
    ///
    /// A text that this resolves is resolvable, so that
    /// [`Self::resolve_placeholders`] may then be called on it.
    pub fn try_resolve_placeholders(&self, text: &str, max_nesting: u64) -> (r: Option<String>)
        ensures
            match self.resolution(text@, 0, max_nesting as nat) {
                Some(p) => r matches Some(s) && s@ == p.0,
                None => r is None,
            },
            r is Some ==> self.resolvable(text@),
    {
        let prefix = chars_of(self.placeholder_prefix.as_str());
        let suffix = chars_of(self.placeholder_suffix.as_str());
        let chars = chars_of(text);
        match self.resolve_bounded_at(&chars, &prefix, &suffix, 0, max_nesting) {
            Some((resolved, _)) => {
                assert(self.resolution(text@, 0, max_nesting as nat) is Some);
                Some(string_of(&resolved))
            },
            None => None,
        }
    }

    /// Sets the prefix of placeholders, `${` by default.
    pub fn set_placeholder_prefix(&mut self, placeholder_prefix: String)
        ensures
            final(self).prefix_spec() == placeholder_prefix@,
            final(self).suffix_spec() == old(self).suffix_spec(),
            final(self).ignore_spec() == old(self).ignore_spec(),
            final(self).sources_spec() == old(self).sources_spec(),
    {
        self.placeholder_prefix = placeholder_prefix;
    }

    /// Sets the suffix of placeholders, `}` by default.
    pub fn set_placeholder_suffix(&mut self, placeholder_suffix: String)
        ensures
            final(self).suffix_spec() == placeholder_suffix@,
            final(self).prefix_spec() == old(self).prefix_spec(),
            final(self).ignore_spec() == old(self).ignore_spec(),
            final(self).sources_spec() == old(self).sources_spec(),
    {
        self.placeholder_suffix = placeholder_suffix;
    }

    /// Sets whether placeholders inside a placeholder that cannot be resolved
    /// are ignored.
    pub fn set_ignore_unresolvable_nested_placeholders(&mut self, ignore: bool)
        ensures
            final(self).ignore_spec() == ignore,
            final(self).prefix_spec() == old(self).prefix_spec(),
            final(self).suffix_spec() == old(self).suffix_spec(),
            final(self).sources_spec() == old(self).sources_spec(),
    {
        self.ignore_unresolvable_nested_placeholders = ignore;
    }

    /// Resolves the placeholders of the given text at the given depth.
    fn resolve_at(
        &self,
        text: &Vec<char>,
        prefix: &Vec<char>,
        suffix: &Vec<char>,
        depth: usize,
        Ghost(fuel): Ghost<nat>,
    ) -> (r: (Vec<char>, bool))
        requires
            prefix@ == self.prefix_spec(),
            suffix@ == self.suffix_spec(),
            depth <= MAX_PLACEHOLDER_DEPTH,
            self.resolution(text@, depth as nat, fuel) is Some,
        ensures
            self.resolution(text@, depth as nat, fuel) == Some((r.0@, r.1)),
        decreases fuel, text@.len(),
    {
        if prefix.len() == 0 {
            return (Vec::new(), true);
        }
        let mut result: Vec<char> = Vec::new();
        let mut all_resolved = true;
        let mut remaining = slice(text, 0, text.len());
        let ghost whole = self.resolution(text@, depth as nat, fuel)->0;
        proof {
            assert(remaining@ =~= text@);
            assert(result@ + whole.0 =~= whole.0);
        }
        loop
            invariant
                prefix@ == self.prefix_spec(),
                suffix@ == self.suffix_spec(),
                prefix@.len() > 0,
                depth <= MAX_PLACEHOLDER_DEPTH,
                self.resolution(text@, depth as nat, fuel) == Some(whole),
                self.resolution(remaining@, depth as nat, fuel) is Some,
                remaining@.len() <= text@.len(),
                whole == (
                    result@ + text_of(self.resolution(remaining@, depth as nat, fuel)),
                    all_resolved && flag_of(self.resolution(remaining@, depth as nat, fuel)),
                ),
            decreases remaining@.len(),
        {
            let ghost rem = remaining@;
            proof {
                lemma_find_str(rem, prefix@);
            }
            let start = match find_str(&remaining, prefix) {
                Some(start) => start,
                None => {
                    let r = concat(&result, &remaining);
                    return (r, all_resolved);
                },
            };
            let prefix_len = prefix.len();
            assert(start + prefix_len <= remaining.len());
            let after = slice(&remaining, start + prefix_len, remaining.len());
            assert(after@ =~= rem.skip(start + prefix@.len()));
            let end = match self.find_placeholder_end(&after, prefix, suffix) {
                Some(end) => end,
                None => {
                    let r = concat(&result, &remaining);
                    return (r, all_resolved);
                },
            };
            proof {
                lemma_placeholder_end(after@, prefix@, suffix@, 0, 1);
            }
            let placeholder = slice(&after, 0, end);
            let plen = end + suffix.len();
            let original = slice(&remaining, start, start + prefix.len() + plen);
            let rest = slice(&after, plen, after.len());
            let (piece, piece_resolved) = self.resolve_piece(
                placeholder,
                original,
                prefix,
                suffix,
                depth,
                Ghost(fuel),
            );
            let joined = concat(&result, &slice(&remaining, 0, start));
            result = concat(&joined, &piece);
            all_resolved = all_resolved && piece_resolved;
            proof {
                assert(rest@ =~= after@.skip(plen as int));
                assert(rest@.len() < rem.len());

            }
            remaining = rest;
        }
    }
}


/// A resolution that follows the given text and whether it was fully
/// resolved, or none.
pub open spec fn after_text(text: Seq<char>, all: bool, r: Option<(Seq<char>, bool)>) -> Option<(Seq<char>, bool)> {
    match r {
        Some(p) => Some((text + p.0, all && p.1)),
        None => None,
    }
}

/// The resolution with a fuel, as plain text, when it ends.
pub open spec fn views_of(r: Option<(Vec<char>, bool)>) -> Option<(Seq<char>, bool)> {
    match r {
        Some(p) => Some((p.0@, p.1)),
        None => None,
    }
}

impl ConfigurationPropertySourcesPropertyResolver {
    /// Returns the text a single placeholder is replaced with, and whether it
    /// could be resolved, or `None` when the fuel runs out.
    fn resolve_bounded_piece(
        &self,
        placeholder: Vec<char>,
        original: Vec<char>,
        prefix: &Vec<char>,
        suffix: &Vec<char>,
        depth: usize,
        fuel: u64,
    ) -> (r: Option<(Vec<char>, bool)>)
        requires
            prefix@ == self.prefix_spec(),
            suffix@ == self.suffix_spec(),
            prefix@.len() > 0,
            depth <= MAX_PLACEHOLDER_DEPTH,
        ensures
            views_of(r) == self.piece(placeholder@, original@, depth as nat, fuel as nat),
        decreases fuel, 0nat,
    {
        let next: usize = if depth < MAX_PLACEHOLDER_DEPTH {
            depth + 1
        } else {
            depth
        };
        let (resolved_placeholder, nested_resolved) = if depth < MAX_PLACEHOLDER_DEPTH {
            if fuel == 0 {
                return None;
            }
            match self.resolve_bounded_at(&placeholder, prefix, suffix, next, fuel - 1) {
                Some(n) => n,
                None => return None,
            }
        } else {
            (placeholder, true)
        };
        if !nested_resolved && !self.ignore_unresolvable_nested_placeholders {
            return Some((original, false));
        }
        let sep = find(&resolved_placeholder, DEFAULT_VALUE_SEPARATOR);
        proof {
            lemma_find(resolved_placeholder@, DEFAULT_VALUE_SEPARATOR);
        }
        let key = match sep {
            Some(i) => slice(&resolved_placeholder, 0, i),
            None => slice(&resolved_placeholder, 0, resolved_placeholder.len()),
        };
        proof {
            if sep is None {
                assert(key@ =~= resolved_placeholder@);
            }
        }
        let key_text = string_of(&key);
        match self.lookup_property(key_text.as_str()) {
            Some(value) => {
                if fuel == 0 {
                    return None;
                }
                let value_chars = chars_of(value.as_str());
                self.resolve_bounded_at(&value_chars, prefix, suffix, next, fuel - 1)
            },
            None => match sep {
                Some(i) => Some((slice(&resolved_placeholder, i + 1, resolved_placeholder.len()), true)),
                None => Some((original, false)),
            },
        }
    }

    /// Returns the resolution of the placeholders of a text with the given
    /// fuel, or `None` when the fuel runs out.
    fn resolve_bounded_at(
        &self,
        text: &Vec<char>,
        prefix: &Vec<char>,
        suffix: &Vec<char>,
        depth: usize,
        fuel: u64,
    ) -> (r: Option<(Vec<char>, bool)>)
        requires
            prefix@ == self.prefix_spec(),
            suffix@ == self.suffix_spec(),
            depth <= MAX_PLACEHOLDER_DEPTH,
        ensures
            views_of(r) == self.resolution(text@, depth as nat, fuel as nat),
        decreases fuel, text@.len(),
    {
        if prefix.len() == 0 {
            if text.len() == 0 {
                return Some((Vec::new(), true));
            }
            return None;
        }
        let mut result: Vec<char> = Vec::new();
        let mut all_resolved = true;
        let mut remaining = slice(text, 0, text.len());
        let ghost whole = self.resolution(text@, depth as nat, fuel as nat);
        proof {
            assert(remaining@ =~= text@);
            assert(after_text(result@, all_resolved, whole) =~= whole) by {
                if whole is Some {
                    assert(result@ + text_of(whole) =~= text_of(whole));
                }
            }
        }
        loop
            invariant
                prefix@ == self.prefix_spec(),
                suffix@ == self.suffix_spec(),
                prefix@.len() > 0,
                depth <= MAX_PLACEHOLDER_DEPTH,
                self.resolution(text@, depth as nat, fuel as nat) == whole,
                remaining@.len() <= text@.len(),
                whole == after_text(result@, all_resolved, self.resolution(remaining@, depth as nat, fuel as nat)),
            decreases remaining@.len(),
        {
            let ghost rem = remaining@;
            proof {
                lemma_find_str(rem, prefix@);
            }
            let start = match find_str(&remaining, prefix) {
                Some(start) => start,
                None => {
                    let r = concat(&result, &remaining);
                    return Some((r, all_resolved));
                },
            };
            let prefix_len = prefix.len();
            assert(start + prefix_len <= remaining.len());
            let after = slice(&remaining, start + prefix_len, remaining.len());
            assert(after@ =~= rem.skip(start + prefix@.len()));
            let end = match self.find_placeholder_end(&after, prefix, suffix) {
                Some(end) => end,
                None => {
                    let r = concat(&result, &remaining);
                    return Some((r, all_resolved));
                },
            };
            proof {
                lemma_placeholder_end(after@, prefix@, suffix@, 0, 1);
            }
            let placeholder = slice(&after, 0, end);
            let plen = end + suffix.len();
            let original = slice(&remaining, start, start + prefix.len() + plen);
            let rest = slice(&after, plen, after.len());
            let (piece, piece_resolved) = match self.resolve_bounded_piece(
                placeholder,
                original,
                prefix,
                suffix,
                depth,
                fuel,
            ) {
                Some(p) => p,
                None => return None,
            };
            let joined = concat(&result, &slice(&remaining, 0, start));
            let ghost before = result@;
            result = concat(&joined, &piece);
            all_resolved = all_resolved && piece_resolved;
            proof {
                assert(rest@ =~= after@.skip(plen as int));
                assert(rest@.len() < rem.len());
                let tail = self.resolution(rest@, depth as nat, fuel as nat);
                if tail is Some {
                    assert(before + (rem.take(start as int) + piece@ + text_of(tail)) =~= result@ + text_of(tail));
                }
            }
            remaining = rest;
        }
    }
}

/// A text that holds no placeholder prefix resolves to itself, and counts as
/// fully resolved.
pub proof fn lemma_plain_text_resolves_to_itself(
    resolver: ConfigurationPropertySourcesPropertyResolver,
    text: Seq<char>,
)
    requires
        resolver.prefix_spec().len() > 0,
        find_str_spec(text, resolver.prefix_spec()) < 0,
    ensures
        resolver.resolvable(text),
        resolver.resolved(text) == (text, true),
{
    assert(resolver.resolution(text, 0, 0) is Some);
    let fuel = choose|fuel: nat| #[trigger] resolver.resolution(text, 0, fuel) is Some;
    assert(resolver.resolution(text, 0, fuel) == Some((text, true)));
}

/// A placeholder that opens at the start of a text closes at the first
/// suffix when no prefix or suffix occurs before it.
proof fn lemma_placeholder_end_plain(text: Seq<char>, prefix: Seq<char>, suffix: Seq<char>, e: int, index: int)
    requires
        prefix.len() > 0,
        suffix.len() > 0,
        0 <= index <= e,
        e + suffix.len() <= text.len(),
        forall|j: int|
            index <= j < e ==> !starts_with_spec(#[trigger] text.skip(j), prefix) && !starts_with_spec(
                text.skip(j),
                suffix,
            ),
        !starts_with_spec(text.skip(e), prefix),
        starts_with_spec(text.skip(e), suffix),
    ensures
        placeholder_end_spec(text, prefix, suffix, index, 1) == Some(e),
    decreases e - index,
{
    if index < e {
        assert(!starts_with_spec(text.skip(index), prefix));
        assert(!starts_with_spec(text.skip(index), suffix));
        lemma_placeholder_end_plain(text, prefix, suffix, e, index + 1);
    }
}

/// The resolution of a placeholder `prefix key:default suffix` whose key
/// holds no `:` and is absent from the sources, and whose key and default
/// hold no prefix or suffix: none without fuel, else the default.
proof fn lemma_default_value_resolution(
    resolver: ConfigurationPropertySourcesPropertyResolver,
    key: Seq<char>,
    default: Seq<char>,
    fuel: nat,
)
    requires
        resolver.prefix_spec().len() > 0,
        resolver.suffix_spec().len() > 0,
        !key.contains(DEFAULT_VALUE_SEPARATOR),
        configuration_property_spec(resolver.sources_spec(), key) is None,
        !starts_with_spec(resolver.suffix_spec(), resolver.prefix_spec()),
        forall|j: int|
            0 <= j < key.len() + 1 + default.len() ==> !starts_with_spec(
                #[trigger] (key + seq![DEFAULT_VALUE_SEPARATOR] + default + resolver.suffix_spec()).skip(j),
                resolver.prefix_spec(),
            ) && !starts_with_spec(
                (key + seq![DEFAULT_VALUE_SEPARATOR] + default + resolver.suffix_spec()).skip(j),
                resolver.suffix_spec(),
            ),
    ensures
        resolver.resolution(
            resolver.prefix_spec() + key + seq![DEFAULT_VALUE_SEPARATOR] + default + resolver.suffix_spec(),
            0,
            fuel,
        ) == (if fuel == 0 {
            None
        } else {
            Some((default, true))
        }),
{
    let prefix = resolver.prefix_spec();
    let suffix = resolver.suffix_spec();
    let body = key + seq![DEFAULT_VALUE_SEPARATOR] + default;
    let after = body + suffix;
    let text = prefix + key + seq![DEFAULT_VALUE_SEPARATOR] + default + suffix;
    assert(text =~= prefix + after);
    assert(text.skip(0) =~= text);
    assert(text.take(prefix.len() as int) =~= prefix);
    assert(find_str_spec(text, prefix) == 0);
    assert(text.skip(prefix.len() as int) =~= after);
    assert(after.skip(body.len() as int) =~= suffix);
    assert(suffix.take(suffix.len() as int) =~= suffix);
    assert forall|j: int| 0 <= j < body.len() implies !starts_with_spec(#[trigger] after.skip(j), prefix)
        && !starts_with_spec(after.skip(j), suffix) by {
        assert(after =~= key + seq![DEFAULT_VALUE_SEPARATOR] + default + suffix);
    }
    lemma_placeholder_end_plain(after, prefix, suffix, body.len() as int, 0);
    assert(after.take(body.len() as int) =~= body);
    let plen: int = body.len() + suffix.len() as int;
    assert(text.subrange(0, prefix.len() + plen) =~= text);
    assert(after.skip(plen) =~= Seq::<char>::empty());
    // The placeholder holds no prefix, so it resolves to itself.
    assert forall|j: int| 0 <= j <= body.len() implies !starts_with_spec(#[trigger] body.skip(j), prefix) by {
        if j < body.len() && starts_with_spec(body.skip(j), prefix) {
            assert(after.skip(j).take(prefix.len() as int) =~= body.skip(j).take(prefix.len() as int));
            assert(starts_with_spec(after.skip(j), prefix));
        }
    }
    lemma_find_str_is(body, prefix, -1);
    // The key is what stands before the first separator.
    assert(body[key.len() as int] == DEFAULT_VALUE_SEPARATOR);
    assert forall|j: int| 0 <= j < body.len() && j < key.len() implies body[j] != DEFAULT_VALUE_SEPARATOR by {
        assert(body[j] == key[j]);
    }
    lemma_find_is(body, DEFAULT_VALUE_SEPARATOR, key.len() as int);
    assert(body.take(key.len() as int) =~= key);
    assert(body.skip(key.len() + 1int) =~= default);
    assert(find_str_spec(Seq::<char>::empty(), prefix) == -1);
    assert(resolver.resolution(Seq::<char>::empty(), 0, fuel) == Some((Seq::<char>::empty(), true)));
    if fuel > 0 {
        assert(next_depth(0) == 1);
        assert(resolver.resolution(body, 1, (fuel - 1) as nat) == Some((body, true)));
        assert(find_spec(body, DEFAULT_VALUE_SEPARATOR) == key.len());
        assert(resolver.piece(body, text, 0, fuel) == Some((default, true)));
        assert(text.take(0) + default + Seq::<char>::empty() =~= default);
    } else {
        assert(resolver.piece(body, text, 0, fuel) is None);
    }
    assert(placeholder_end_spec(text.skip(0 + prefix.len() as int), prefix, suffix, 0, 1) == Some(body.len() as int));
}

/// The key of a placeholder is what stands before its first `:`, and its
/// default value is everything that follows that `:`, more `:` included: a
/// placeholder `${key:default}` whose key is absent from the sources
/// resolves to exactly its default, such as `http://localhost:8080` for
/// `${server.url:http://localhost:8080}`.
///
/// The key must hold no `:`, and the key and the default no placeholder
/// prefix or suffix.
pub proof fn lemma_default_follows_the_first_separator(
    resolver: ConfigurationPropertySourcesPropertyResolver,
    key: Seq<char>,
    default: Seq<char>,
)
    requires
        resolver.prefix_spec().len() > 0,
        resolver.suffix_spec().len() > 0,
        !key.contains(DEFAULT_VALUE_SEPARATOR),
        configuration_property_spec(resolver.sources_spec(), key) is None,
        !starts_with_spec(resolver.suffix_spec(), resolver.prefix_spec()),
        forall|j: int|
            0 <= j < key.len() + 1 + default.len() ==> !starts_with_spec(
                #[trigger] (key + seq![DEFAULT_VALUE_SEPARATOR] + default + resolver.suffix_spec()).skip(j),
                resolver.prefix_spec(),
            ) && !starts_with_spec(
                (key + seq![DEFAULT_VALUE_SEPARATOR] + default + resolver.suffix_spec()).skip(j),
                resolver.suffix_spec(),
            ),
    ensures
        resolver.resolvable(
            resolver.prefix_spec() + key + seq![DEFAULT_VALUE_SEPARATOR] + default + resolver.suffix_spec(),
        ),
        resolver.resolved(
            resolver.prefix_spec() + key + seq![DEFAULT_VALUE_SEPARATOR] + default + resolver.suffix_spec(),
        ) == (default, true),
{
    let text = resolver.prefix_spec() + key + seq![DEFAULT_VALUE_SEPARATOR] + default + resolver.suffix_spec();
    lemma_default_value_resolution(resolver, key, default, 1);
    assert(resolver.resolution(text, 0, 1) is Some);
    let fuel = choose|fuel: nat| #[trigger] resolver.resolution(text, 0, fuel) is Some;
    lemma_default_value_resolution(resolver, key, default, fuel);
}

/// The resolution of a placeholder `prefix key:default suffix` whose key
/// holds no `:` and is present in the sources with a value that holds no
/// prefix: none without fuel, else the value.
proof fn lemma_present_value_resolution(
    resolver: ConfigurationPropertySourcesPropertyResolver,
    key: Seq<char>,
    default: Seq<char>,
    value: Seq<char>,
    fuel: nat,
)
    requires
        resolver.prefix_spec().len() > 0,
        resolver.suffix_spec().len() > 0,
        !key.contains(DEFAULT_VALUE_SEPARATOR),
        configuration_property_spec(resolver.sources_spec(), key) == Some(value),
        find_str_spec(value, resolver.prefix_spec()) < 0,
        !starts_with_spec(resolver.suffix_spec(), resolver.prefix_spec()),
        forall|j: int|
            0 <= j < key.len() + 1 + default.len() ==> !starts_with_spec(
                #[trigger] (key + seq![DEFAULT_VALUE_SEPARATOR] + default + resolver.suffix_spec()).skip(j),
                resolver.prefix_spec(),
            ) && !starts_with_spec(
                (key + seq![DEFAULT_VALUE_SEPARATOR] + default + resolver.suffix_spec()).skip(j),
                resolver.suffix_spec(),
            ),
    ensures
        resolver.resolution(
            resolver.prefix_spec() + key + seq![DEFAULT_VALUE_SEPARATOR] + default + resolver.suffix_spec(),
            0,
            fuel,
        ) == (if fuel == 0 {
            None
        } else {
            Some((value, true))
        }),
{
    let prefix = resolver.prefix_spec();
    let suffix = resolver.suffix_spec();
    let body = key + seq![DEFAULT_VALUE_SEPARATOR] + default;
    let after = body + suffix;
    let text = prefix + key + seq![DEFAULT_VALUE_SEPARATOR] + default + suffix;
    assert(text =~= prefix + after);
    assert(text.skip(0) =~= text);
    assert(text.take(prefix.len() as int) =~= prefix);
    assert(find_str_spec(text, prefix) == 0);
    assert(text.skip(prefix.len() as int) =~= after);
    assert(after.skip(body.len() as int) =~= suffix);
    assert(suffix.take(suffix.len() as int) =~= suffix);
    assert forall|j: int| 0 <= j < body.len() implies !starts_with_spec(#[trigger] after.skip(j), prefix)
        && !starts_with_spec(after.skip(j), suffix) by {
        assert(after =~= key + seq![DEFAULT_VALUE_SEPARATOR] + default + suffix);
    }
    lemma_placeholder_end_plain(after, prefix, suffix, body.len() as int, 0);
    assert(after.take(body.len() as int) =~= body);
    let plen: int = body.len() + suffix.len() as int;
    assert(text.subrange(0, prefix.len() + plen) =~= text);
    assert(after.skip(plen) =~= Seq::<char>::empty());
    assert forall|j: int| 0 <= j <= body.len() implies !starts_with_spec(#[trigger] body.skip(j), prefix) by {
        if j < body.len() && starts_with_spec(body.skip(j), prefix) {
            assert(after.skip(j).take(prefix.len() as int) =~= body.skip(j).take(prefix.len() as int));
            assert(starts_with_spec(after.skip(j), prefix));
        }
    }
    lemma_find_str_is(body, prefix, -1);
    assert(body[key.len() as int] == DEFAULT_VALUE_SEPARATOR);
    assert forall|j: int| 0 <= j < body.len() && j < key.len() implies body[j] != DEFAULT_VALUE_SEPARATOR by {
        assert(body[j] == key[j]);
    }
    lemma_find_is(body, DEFAULT_VALUE_SEPARATOR, key.len() as int);
    assert(body.take(key.len() as int) =~= key);
    assert(find_str_spec(Seq::<char>::empty(), prefix) == -1);
    assert(resolver.resolution(Seq::<char>::empty(), 0, fuel) == Some((Seq::<char>::empty(), true)));
    if fuel > 0 {
        assert(next_depth(0) == 1);
        assert(resolver.resolution(body, 1, (fuel - 1) as nat) == Some((body, true)));
        assert(resolver.resolution(value, 1, (fuel - 1) as nat) == Some((value, true)));
        assert(find_spec(body, DEFAULT_VALUE_SEPARATOR) == key.len());
        assert(resolver.piece(body, text, 0, fuel) == Some((value, true)));
        assert(text.take(0) + value + Seq::<char>::empty() =~= value);
    } else {
        assert(resolver.piece(body, text, 0, fuel) is None);
    }
    assert(placeholder_end_spec(text.skip(0 + prefix.len() as int), prefix, suffix, 0, 1) == Some(body.len() as int));
}

/// A placeholder `${key:default}` whose key is present in the sources
/// resolves to the value of the key, whatever its default: the default is
/// only used for an absent key. The key must hold no `:`, the key and the
/// default no placeholder prefix or suffix, and the value no prefix.
pub proof fn lemma_present_key_ignores_default(
    resolver: ConfigurationPropertySourcesPropertyResolver,
    key: Seq<char>,
    default: Seq<char>,
    value: Seq<char>,
)
    requires
        resolver.prefix_spec().len() > 0,
        resolver.suffix_spec().len() > 0,
        !key.contains(DEFAULT_VALUE_SEPARATOR),
        configuration_property_spec(resolver.sources_spec(), key) == Some(value),
        find_str_spec(value, resolver.prefix_spec()) < 0,
        !starts_with_spec(resolver.suffix_spec(), resolver.prefix_spec()),
        forall|j: int|
            0 <= j < key.len() + 1 + default.len() ==> !starts_with_spec(
                #[trigger] (key + seq![DEFAULT_VALUE_SEPARATOR] + default + resolver.suffix_spec()).skip(j),
                resolver.prefix_spec(),
            ) && !starts_with_spec(
                (key + seq![DEFAULT_VALUE_SEPARATOR] + default + resolver.suffix_spec()).skip(j),
                resolver.suffix_spec(),
            ),
    ensures
        resolver.resolvable(
            resolver.prefix_spec() + key + seq![DEFAULT_VALUE_SEPARATOR] + default + resolver.suffix_spec(),
        ),
        resolver.resolved(
            resolver.prefix_spec() + key + seq![DEFAULT_VALUE_SEPARATOR] + default + resolver.suffix_spec(),
        ) == (value, true),
{
    let text = resolver.prefix_spec() + key + seq![DEFAULT_VALUE_SEPARATOR] + default + resolver.suffix_spec();
    lemma_present_value_resolution(resolver, key, default, value, 1);
    assert(resolver.resolution(text, 0, 1) is Some);
    let fuel = choose|fuel: nat| #[trigger] resolver.resolution(text, 0, fuel) is Some;
    lemma_present_value_resolution(resolver, key, default, value, fuel);
}

} // verus!
