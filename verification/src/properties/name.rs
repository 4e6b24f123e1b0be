//! A configuration property name, consisting of one or more elements.

use vstd::prelude::*;

use crate::text::{chars_of, copy_strings, joined, lemma_split_joined, split, split_spec, string_of};

verus! {

/// Whether a character may start an element: a lowercase ASCII letter.
pub open spec fn is_lower_spec(c: char) -> bool {
    'a' <= c && c <= 'z'
}

/// Whether a character may follow the first character of an element.
pub open spec fn is_element_char_spec(c: char) -> bool {
    is_lower_spec(c) || ('0' <= c && c <= '9') || c == '-'
}

/// Whether an element of a name is valid: it starts with a lowercase letter
/// and holds lowercase letters, digits and dashes.
pub open spec fn valid_element_spec(e: Seq<char>) -> bool {
    &&& e.len() > 0
    &&& is_lower_spec(e[0])
    &&& forall|i: int| 1 <= i < e.len() ==> is_element_char_spec(#[trigger] e[i])
}

/// Whether a value is a valid configuration property name: it is not empty
/// and every element between its dots is valid.
pub open spec fn valid_name_spec(s: Seq<char>) -> bool {
    &&& s.len() > 0
    &&& forall|i: int|
        0 <= i < split_spec(s, '.').len() ==> valid_element_spec(#[trigger] split_spec(s, '.')[i])
}

/// Error returned when a value is not a valid configuration property name.
#[derive(Debug, Clone, PartialEq, Eq)]
pub struct InvalidConfigurationPropertyNameError {
    invalid_name: String,
}

impl InvalidConfigurationPropertyNameError {
    /// The value that is not a valid name.
    pub closed spec fn invalid_name_spec(&self) -> Seq<char> {
        self.invalid_name@
    }

    /// Returns the value that is not a valid configuration property name.
    pub fn invalid_name(&self) -> (r: &str)
        ensures
            r@ == self.invalid_name_spec(),
    {
        self.invalid_name.as_str()
    }

    /// The message of the error.
    pub open spec fn message_spec(&self) -> Seq<char> {
        "Invalid configuration property name '"@ + self.invalid_name_spec() + "'"@
    }

    /// Returns the message of the error, which names the invalid value.
    pub fn to_string(&self) -> (r: String)
        ensures
            r@ == self.message_spec(),
    {
        let mut m = chars_of("Invalid configuration property name '");
        let name = chars_of(self.invalid_name.as_str());
        let mut i: usize = 0;
        let ghost prefix = m@;
        while i < name.len()
            invariant
                i <= name.len(),
                m@ == prefix + name@.take(i as int),
            decreases name.len() - i,
        {
            m.push(name[i]);
            i = i + 1;
            assert(m@ =~= prefix + name@.take(i as int));
        }
        m.push('\'');
        proof {
            reveal_strlit("Invalid configuration property name '");
            reveal_strlit("'");
            assert(name@.take(i as int) =~= name@);
            assert(m@ =~= self.message_spec());
        }
        string_of(&m)
    }
}

/// The name of a configuration property: one or more elements separated by
/// dots, every element made of lowercase letters, digits and dashes and
/// starting with a letter.
#[derive(Debug, Clone, PartialEq, Eq)]
pub struct ConfigurationPropertyName {
    name: String,
    elements: Vec<String>,
}

impl ConfigurationPropertyName {
    /// The text of the name.
    pub closed spec fn name_spec(&self) -> Seq<char> {
        self.name@
    }

    /// The elements of the name.
    pub closed spec fn elements_spec(&self) -> Seq<Seq<char>> {
        self.elements@.map_values(|e: String| e@)
    }

    /// A name holds the elements of its text.
    pub open spec fn well_formed(&self) -> bool {
        &&& valid_name_spec(self.name_spec())
        &&& self.elements_spec() == split_spec(self.name_spec(), '.')
    }

    /// Returns whether the given element is valid.
    fn is_valid_element(element: &Vec<char>) -> (r: bool)
        ensures
            r == valid_element_spec(element@),
    {
        if element.len() == 0 || !('a' <= element[0] && element[0] <= 'z') {
            return false;
        }
        let mut i: usize = 1;
        while i < element.len()
            invariant
                1 <= i <= element.len(),
                forall|j: int| 1 <= j < i ==> is_element_char_spec(#[trigger] element@[j]),
            decreases element.len() - i,
        {
            let c = element[i];
            if !(('a' <= c && c <= 'z') || ('0' <= c && c <= '9') || c == '-') {
                return false;
            }
            i = i + 1;
        }
        true
    }

    /// Returns whether the given value is a valid configuration property name.
    pub fn is_valid(name: &str) -> (r: bool)
        ensures
            r == valid_name_spec(name@),
    {
        let chars = chars_of(name);
        if chars.len() == 0 {
            return false;
        }
        let parts = split(&chars, '.');
        let mut i: usize = 0;
        while i < parts.len()
            invariant
                i <= parts@.len(),
                chars@ == name@,
                parts@.len() == split_spec(name@, '.').len(),
                forall|k: int| 0 <= k < parts@.len() ==> #[trigger] parts@[k]@ == split_spec(name@, '.')[k],
                forall|k: int| 0 <= k < i ==> valid_element_spec(#[trigger] split_spec(name@, '.')[k]),
            decreases parts.len() - i,
        {
            if !Self::is_valid_element(&parts[i]) {
                assert(!valid_element_spec(split_spec(name@, '.')[i as int]));
                return false;
            }
            i = i + 1;
        }
        true
    }

    /// Returns a name for the given value, or the error that names the value
    /// when it is not a valid configuration property name.
    pub fn of(name: &str) -> (r: Result<Self, InvalidConfigurationPropertyNameError>)
        ensures
            valid_name_spec(name@) <==> r is Ok,
            r matches Ok(n) ==> n.well_formed() && n.name_spec() == name@ && n.elements_spec()
                == split_spec(name@, '.'),
            r matches Err(e) ==> e.invalid_name_spec() == name@,
    {
        if !Self::is_valid(name) {
            return Err(InvalidConfigurationPropertyNameError { invalid_name: name.to_owned() });
        }
        let chars = chars_of(name);
        let parts = split(&chars, '.');
        let mut elements: Vec<String> = Vec::new();
        let mut i: usize = 0;
        while i < parts.len()
            invariant
                i <= parts@.len(),
                parts@.len() == split_spec(name@, '.').len(),
                forall|k: int| 0 <= k < parts@.len() ==> #[trigger] parts@[k]@ == split_spec(name@, '.')[k],
                elements@.map_values(|e: String| e@) == split_spec(name@, '.').take(i as int),
            decreases parts.len() - i,
        {
            let element = string_of(&parts[i]);
            let ghost prev = elements@;
            elements.push(element);
            proof {
                assert(elements@ == prev.push(element));
                assert(elements@.map_values(|e: String| e@) =~= prev.map_values(|e: String| e@).push(element@));
                assert(split_spec(name@, '.').take(i + 1) =~= split_spec(name@, '.').take(i as int).push(split_spec(name@, '.')[i as int]));
            }
            i = i + 1;
        }
        assert(split_spec(name@, '.').take(i as int) =~= split_spec(name@, '.'));
        Ok(ConfigurationPropertyName { name: name.to_owned(), elements })
    }

    /// Returns a copy of this name.
    pub fn copy(&self) -> (r: Self)
        ensures
            r.name_spec() == self.name_spec(),
            r.elements_spec() == self.elements_spec(),
            r.well_formed() == self.well_formed(),
    {
        ConfigurationPropertyName { name: self.name.clone(), elements: copy_strings(&self.elements) }
    }

    /// Returns the elements of this name, in order.
    pub fn elements(&self) -> (r: &Vec<String>)
        ensures
            r@.map_values(|e: String| e@) == self.elements_spec(),
    {
        &self.elements
    }

    /// Returns the number of elements of this name.
    pub fn number_of_elements(&self) -> (r: usize)
        ensures
            r == self.elements_spec().len(),
    {
        self.elements.len()
    }

    /// Returns the text of this name.
    pub fn to_string(&self) -> (r: String)
        ensures
            r@ == self.name_spec(),
    {
        self.name.clone()
    }

    /// Returns this name as a string.
    pub fn as_str(&self) -> (r: &str)
        ensures
            r@ == self.name_spec(),
    {
        self.name.as_str()
    }
}

/// The elements of a name are not empty, and joined with dots they give the
/// text of the name.
pub proof fn lemma_name_elements(n: ConfigurationPropertyName)
    requires
        n.well_formed(),
    ensures
        n.elements_spec().len() >= 1,
        joined(n.elements_spec(), '.') == n.name_spec(),
        forall|k: int| 0 <= k < n.elements_spec().len() ==> (#[trigger] n.elements_spec()[k]).len() > 0,
{
    lemma_split_joined(n.name_spec(), '.');
    assert forall|k: int| 0 <= k < n.elements_spec().len() implies (#[trigger] n.elements_spec()[k]).len() > 0 by {
        assert(valid_element_spec(split_spec(n.name_spec(), '.')[k]));
    }
}

} // verus!
