//! The profiles that are in use while config data is processed.

use vstd::prelude::*;

use crate::text::{chars_of, copy_strings, split, split_spec, string_of, trim, trim_spec};

verus! {

broadcast use vstd::string::group_string_axioms;

/// The property that declares the profiles that are active.
pub const ACTIVE_PROFILE_PROPERTY: &'static str = "next.profiles.active";

/// The property that declares the profiles that are active by default.
pub const DEFAULT_PROFILE_PROPERTY: &'static str = "next.profiles.default";

/// The property that declares profiles to activate in addition to the active
/// profiles.
pub const INCLUDE_PROFILES: &'static str = "next.profiles.include";

/// The texts of the given strings.
pub open spec fn views(v: Seq<String>) -> Seq<Seq<char>> {
    v.map_values(|s: String| s@)
}

/// The names of profiles with empty and duplicate names dropped: every name
/// is trimmed, and kept once, where it first occurs.
pub open spec fn dedupe_spec(names: Seq<Seq<char>>) -> Seq<Seq<char>>
    decreases names.len(),
{
    if names.len() == 0 {
        Seq::empty()
    } else {
        let kept = dedupe_spec(names.drop_last());
        let name = trim_spec(names.last());
        if name.len() == 0 || kept.contains(name) {
            kept
        } else {
            kept.push(name)
        }
    }
}

/// The profiles of a comma separated profile property value.
pub open spec fn profiles_from_value_spec(value: Seq<char>) -> Seq<Seq<char>> {
    split_spec(value, ',').map_values(|p: Seq<char>| trim_spec(p)).filter(
        |p: Seq<char>| p.len() > 0,
    )
}

/// Whether the given profile expressions match the active profiles, or `None`
/// when an expression cannot be parsed.
///
/// The expressions hold profile names and the `!`, `&` and `|` operators, and
/// they match when one of them matches.
pub uninterp spec fn profile_expressions_match(
    expressions: Seq<Seq<char>>,
    active: Seq<Seq<char>>,
) -> Option<bool>;

/// Returns whether the given profile is one of the given active profiles.
pub fn contains_profile(active: &Vec<String>, profile: &str) -> (r: bool)
    ensures
        r == views(active@).contains(profile@),
{
    let name = profile.to_owned();
    let mut i: usize = 0;
    while i < active.len()
        invariant
            i <= active.len(),
            name@ == profile@,
            forall|j: int| 0 <= j < i ==> active@[j]@ != profile@,
        decreases active.len() - i,
    {
        if active[i] == name {
            assert(views(active@)[i as int] == profile@);
            return true;
        }
        i = i + 1;
    }
    proof {
        if views(active@).contains(profile@) {
            let j = choose|j: int| 0 <= j < views(active@).len() && views(active@)[j] == profile@;
            assert(active@[j]@ == profile@);
        }
    }
    false
}

/// Parses the given profile expressions with `next_web_core::env::profiles_of`
/// and matches them against the given active profiles.
///
/// Claims that the result depends on the expressions and on the active
/// profiles alone, and that a parse failure is `None`, which the parser
/// reports for an empty list and for an expression that holds no text; what
/// the other expressions mean is left to the parser.
#[verifier::external_body]
fn match_profile_expressions(expressions: &Vec<String>, active: &Vec<String>) -> (r: Option<bool>)
    ensures
        r == profile_expressions_match(views(expressions@), views(active@)),
        expressions@.len() == 0 ==> r is None,
        (exists|i: int| 0 <= i < expressions@.len() && #[trigger] trim_spec(expressions@[i]@).len() == 0)
            ==> r is None,
{
    let expressions: Vec<&str> = expressions.iter().map(|e| e.as_str()).collect();
    match next_web_core::env::profiles_of(&expressions) {
        Ok(profiles) => Some(profiles.matches(&|profile: &str| contains_profile(active, profile))),
        Err(_) => None,
    }
}

/// The profiles that are in use while config data is processed: the active
/// profiles, in ascending precedence order, and the profiles that are active
/// by default.
#[derive(Debug, Clone, PartialEq, Eq)]
pub struct ConfigDataProfiles {
    active: Vec<String>,
    default: Vec<String>,
}

/// Returns the given profile names with empty and duplicate names dropped.
pub fn dedupe(profiles: &Vec<String>) -> (r: Vec<String>)
    ensures
        views(r@) == dedupe_spec(views(profiles@)),
{
    let mut result: Vec<String> = Vec::new();
    let mut i: usize = 0;
    while i < profiles.len()
        invariant
            i <= profiles.len(),
            views(result@) == dedupe_spec(views(profiles@).take(i as int)),
        decreases profiles.len() - i,
    {
        let name = string_of(&trim(&chars_of(profiles[i].as_str())));
        proof {
            assert(views(profiles@).take(i + 1).drop_last() =~= views(profiles@).take(i as int));
            assert(views(profiles@).take(i + 1).last() == profiles@[i as int]@);
        }
        if !name.as_str().is_empty() && !contains_profile(&result, name.as_str()) {
            let ghost prev = result@;
            result.push(name);
            assert(views(result@) =~= views(prev).push(name@));
        }
        i = i + 1;
    }
    assert(views(profiles@).take(i as int) =~= views(profiles@));
    result
}

/// Splits a comma separated profile property value into profiles: every part
/// is trimmed, and the empty parts are dropped.
pub fn profiles_from_value(value: &str) -> (r: Vec<String>)
    ensures
        views(r@) == profiles_from_value_spec(value@),
{
    let parts = split(&chars_of(value), ',');
    let ghost trimmed = split_spec(value@, ',').map_values(|p: Seq<char>| trim_spec(p));
    let mut result: Vec<String> = Vec::new();
    let mut i: usize = 0;
    while i < parts.len()
        invariant
            i <= parts@.len(),
            parts@.len() == split_spec(value@, ',').len(),
            forall|k: int| 0 <= k < parts@.len() ==> #[trigger] parts@[k]@ == split_spec(value@, ',')[k],
            trimmed == split_spec(value@, ',').map_values(|p: Seq<char>| trim_spec(p)),
            views(result@) == trimmed.take(i as int).filter(|p: Seq<char>| p.len() > 0),
        decreases parts.len() - i,
    {
        let part = trim(&parts[i]);
        proof {
            reveal_with_fuel(Seq::<_>::filter, 1);
            assert(trimmed.take(i + 1).drop_last() =~= trimmed.take(i as int));
            assert(trimmed.take(i + 1).last() == part@);
        }
        if part.len() > 0 {
            let ghost prev = result@;
            let s = string_of(&part);
            result.push(s);
            assert(views(result@) =~= views(prev).push(s@));
        }
        i = i + 1;
    }
    assert(trimmed.take(i as int) =~= trimmed);
    result
}

impl Default for ConfigDataProfiles {
    /// Profiles with no active and no default profile.
    fn default() -> (r: Self)
        ensures
            r.active_spec().len() == 0,
            r.default_spec().len() == 0,
    {
        let r = ConfigDataProfiles { active: Vec::new(), default: Vec::new() };
        assert(r.active_spec() =~= Seq::<Seq<char>>::empty());
        assert(r.default_spec() =~= Seq::<Seq<char>>::empty());
        r
    }
}

impl ConfigDataProfiles {
    /// The active profiles, in ascending precedence order.
    pub closed spec fn active_spec(&self) -> Seq<Seq<char>> {
        views(self.active@)
    }

    /// The profiles that are active when none is active.
    pub closed spec fn default_spec(&self) -> Seq<Seq<char>> {
        views(self.default@)
    }

    /// Whether the given expressions match the active profiles.
    pub open spec fn accepts_spec(&self, expressions: Seq<Seq<char>>) -> bool {
        let kept = expressions.map_values(|e: Seq<char>| trim_spec(e)).filter(
            |e: Seq<char>| e.len() > 0,
        );
        kept.len() > 0 && profile_expressions_match(kept, self.active_spec()) == Some(true)
    }

    /// Creates profiles for the given active and default profiles: empty
    /// names are dropped and a name is kept once, where it first occurs.
    pub fn new(active: Vec<String>, default: Vec<String>) -> (r: Self)
        ensures
            r.active_spec() == dedupe_spec(views(active@)),
            r.default_spec() == dedupe_spec(views(default@)),
    {
        ConfigDataProfiles { active: dedupe(&active), default: dedupe(&default) }
    }

    /// Returns a copy of these profiles.
    pub fn copy(&self) -> (r: Self)
        ensures
            r.active_spec() == self.active_spec(),
            r.default_spec() == self.default_spec(),
    {
        ConfigDataProfiles { active: copy_strings(&self.active), default: copy_strings(&self.default) }
    }

    /// Returns the active profiles, in ascending precedence order.
    pub fn active(&self) -> (r: &Vec<String>)
        ensures
            views(r@) == self.active_spec(),
    {
        &self.active
    }

    /// Returns the profiles that are active when none is active.
    pub fn default_profiles(&self) -> (r: &Vec<String>)
        ensures
            views(r@) == self.default_spec(),
    {
        &self.default
    }

    /// Returns whether the given profile is active.
    pub fn is_active(&self, profile: &str) -> (r: bool)
        ensures
            r == self.active_spec().contains(profile@),
    {
        contains_profile(&self.active, profile)
    }

    /// Returns whether one of the given profile expressions matches the
    /// active profiles. The expressions are trimmed and the empty ones are
    /// dropped; nothing matches when none is left or when an expression
    /// cannot be parsed.
    pub fn accepts(&self, profile_expressions: &Vec<String>) -> (r: bool)
        ensures
            r == self.accepts_spec(views(profile_expressions@)),
    {
        let ghost trimmed = views(profile_expressions@).map_values(|e: Seq<char>| trim_spec(e));
        let mut expressions: Vec<String> = Vec::new();
        let mut i: usize = 0;
        while i < profile_expressions.len()
            invariant
                i <= profile_expressions.len(),
                trimmed == views(profile_expressions@).map_values(|e: Seq<char>| trim_spec(e)),
                views(expressions@) == trimmed.take(i as int).filter(|e: Seq<char>| e.len() > 0),
            decreases profile_expressions.len() - i,
        {
            let e = trim(&chars_of(profile_expressions[i].as_str()));
            proof {
                reveal_with_fuel(Seq::<_>::filter, 1);
                assert(trimmed.take(i + 1).drop_last() =~= trimmed.take(i as int));
                assert(trimmed.take(i + 1).last() == e@);
            }
            if e.len() > 0 {
                let ghost prev = expressions@;
                let s = string_of(&e);
                expressions.push(s);
                assert(views(expressions@) =~= views(prev).push(s@));
            }
            i = i + 1;
        }
        assert(trimmed.take(i as int) =~= trimmed);
        if expressions.len() == 0 {
            return false;
        }
        match match_profile_expressions(&expressions, &self.active) {
            Some(matched) => matched,
            None => false,
        }
    }
}


/// Whether the names are trimmed, not empty, and each occurs once.
pub open spec fn clean_names(names: Seq<Seq<char>>) -> bool {
    &&& forall|i: int| 0 <= i < names.len() ==> trim_spec(#[trigger] names[i]) == names[i] && names[i].len() > 0
    &&& forall|i: int, j: int| 0 <= i < j < names.len() ==> names[i] != names[j]
}

/// The names that are kept are trimmed, not empty, and each occurs once.
pub proof fn lemma_dedupe_clean(names: Seq<Seq<char>>)
    ensures
        clean_names(dedupe_spec(names)),
    decreases names.len(),
{
    if names.len() > 0 {
        lemma_dedupe_clean(names.drop_last());
        crate::text::lemma_trim_idempotent(names.last());
    }
}

/// Names that are already clean are kept as they are.
pub proof fn lemma_dedupe_of_clean(names: Seq<Seq<char>>)
    requires
        clean_names(names),
    ensures
        dedupe_spec(names) == names,
    decreases names.len(),
{
    if names.len() > 0 {
        let rest = names.drop_last();
        assert(clean_names(rest));
        lemma_dedupe_of_clean(rest);
        assert(!rest.contains(names.last())) by {
            if rest.contains(names.last()) {
                let i = choose|i: int| 0 <= i < rest.len() && rest[i] == names.last();
                assert(names[i] == names[names.len() - 1]);
            }
        }
        assert(rest.push(names.last()) =~= names);
    }
}

/// Dropping the empty and repeated names a second time changes nothing.
pub proof fn lemma_dedupe_idempotent(names: Seq<Seq<char>>)
    ensures
        dedupe_spec(dedupe_spec(names)) == dedupe_spec(names),
{
    lemma_dedupe_clean(names);
    lemma_dedupe_of_clean(dedupe_spec(names));
}

} // verus!
