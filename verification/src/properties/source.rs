//! Property sources and the configuration property sources adapted from
//! them.

use vstd::prelude::*;

use crate::properties::name::{valid_name_spec, ConfigurationPropertyName};
use crate::text::{copy_pairs, opt_view};

verus! {

/// The name of the property source that adapts the configuration property
/// sources of an environment.
pub const ATTACHED_PROPERTY_SOURCE_NAME: &'static str = "configurationProperties";

/// The properties of a source as plain text pairs.
pub open spec fn pairs_view(properties: Seq<(String, String)>) -> Seq<(Seq<char>, Seq<char>)> {
    properties.map_values(|p: (String, String)| (p.0@, p.1@))
}

/// The value of the first property of the given name.
pub open spec fn lookup_spec(pairs: Seq<(Seq<char>, Seq<char>)>, key: Seq<char>) -> Option<Seq<char>>
    decreases pairs.len(),
{
    if pairs.len() == 0 {
        None
    } else if pairs[0].0 == key {
        Some(pairs[0].1)
    } else {
        lookup_spec(pairs.drop_first(), key)
    }
}

/// Returns the value of the first property of the given name.
pub fn lookup(properties: &Vec<(String, String)>, key: &String) -> (r: Option<String>)
    ensures
        opt_view(r) == lookup_spec(pairs_view(properties@), key@),
{
    let ghost pairs = pairs_view(properties@);
    let mut i: usize = 0;
    assert(pairs.skip(0) =~= pairs);
    while i < properties.len()
        invariant
            i <= properties.len(),
            pairs == pairs_view(properties@),
            lookup_spec(pairs, key@) == lookup_spec(pairs.skip(i as int), key@),
        decreases properties.len() - i,
    {
        assert(pairs.skip(i as int).drop_first() =~= pairs.skip(i + 1));
        if properties[i].0 == *key {
            return Some(properties[i].1.clone());
        }
        i = i + 1;
    }
    None
}

/// The index of the first property of the given name, or -1.
pub open spec fn position_spec(pairs: Seq<(Seq<char>, Seq<char>)>, key: Seq<char>) -> int
    decreases pairs.len(),
{
    if pairs.len() == 0 {
        -1
    } else if pairs[0].0 == key {
        0
    } else {
        let r = position_spec(pairs.drop_first(), key);
        if r < 0 {
            -1
        } else {
            r + 1
        }
    }
}

/// Whether no two properties have the same name.
pub open spec fn distinct_keys(pairs: Seq<(Seq<char>, Seq<char>)>) -> bool {
    forall|i: int, j: int|
        0 <= i < j < pairs.len() ==> #[trigger] pairs[i].0 != #[trigger] pairs[j].0
}

/// The properties with one more put in: a property of a name already there
/// takes its value in its place, any other property comes last.
pub open spec fn put_spec(
    pairs: Seq<(Seq<char>, Seq<char>)>,
    p: (Seq<char>, Seq<char>),
) -> Seq<(Seq<char>, Seq<char>)> {
    let i = position_spec(pairs, p.0);
    if i < 0 {
        pairs.push(p)
    } else {
        pairs.update(i, p)
    }
}

/// The properties put in one after the other: each name once, where it
/// occurs first, with the value it was given last.
pub open spec fn indexed_spec(pairs: Seq<(Seq<char>, Seq<char>)>) -> Seq<(Seq<char>, Seq<char>)>
    decreases pairs.len(),
{
    if pairs.len() == 0 {
        Seq::empty()
    } else {
        put_spec(indexed_spec(pairs.drop_last()), pairs.last())
    }
}

/// The value the given name is given last, if any.
pub open spec fn last_value_spec(pairs: Seq<(Seq<char>, Seq<char>)>, key: Seq<char>) -> Option<Seq<char>>
    decreases pairs.len(),
{
    if pairs.len() == 0 {
        None
    } else if pairs.last().0 == key {
        Some(pairs.last().1)
    } else {
        last_value_spec(pairs.drop_last(), key)
    }
}

/// The first property of a name is at its position, and none before it has
/// that name.
pub proof fn lemma_position(pairs: Seq<(Seq<char>, Seq<char>)>, key: Seq<char>)
    ensures
        -1 <= position_spec(pairs, key) < pairs.len(),
        position_spec(pairs, key) >= 0 ==> pairs[position_spec(pairs, key)].0 == key,
        forall|j: int|
            0 <= j < pairs.len() && (position_spec(pairs, key) < 0 || j < position_spec(pairs, key))
                ==> #[trigger] pairs[j].0 != key,
    decreases pairs.len(),
{
    if pairs.len() > 0 && pairs[0].0 != key {
        lemma_position(pairs.drop_first(), key);
        let r = position_spec(pairs, key);
        assert forall|j: int|
            0 <= j < pairs.len() && (r < 0 || j < r) implies #[trigger] pairs[j].0 != key by {
            if j > 0 {
                assert(pairs[j] == pairs.drop_first()[j - 1]);
            }
        }
    }
}

/// An index that is the first of a name is the position of the name.
pub proof fn lemma_position_is(pairs: Seq<(Seq<char>, Seq<char>)>, key: Seq<char>, i: int)
    requires
        -1 <= i < pairs.len(),
        i >= 0 ==> pairs[i].0 == key,
        forall|j: int| 0 <= j < pairs.len() && (i < 0 || j < i) ==> #[trigger] pairs[j].0 != key,
    ensures
        position_spec(pairs, key) == i,
{
    lemma_position(pairs, key);
    let r = position_spec(pairs, key);
    if r >= 0 {
        assert(pairs[r].0 == key);
    }
    if i >= 0 {
        assert(pairs[i].0 == key);
    }
}

/// Looking a name up gives the value at its position.
pub proof fn lemma_lookup_position(pairs: Seq<(Seq<char>, Seq<char>)>, key: Seq<char>)
    ensures
        lookup_spec(pairs, key) == (if position_spec(pairs, key) < 0 {
            None
        } else {
            Some(pairs[position_spec(pairs, key)].1)
        }),
    decreases pairs.len(),
{
    if pairs.len() > 0 && pairs[0].0 != key {
        lemma_lookup_position(pairs.drop_first(), key);
        lemma_position(pairs.drop_first(), key);
    }
}

/// Looking a name up after a put gives the value put in for that name, and
/// what was there before for any other name.
proof fn lemma_put_lookup(
    pairs: Seq<(Seq<char>, Seq<char>)>,
    p: (Seq<char>, Seq<char>),
    key: Seq<char>,
)
    ensures
        lookup_spec(put_spec(pairs, p), key) == (if p.0 == key {
            Some(p.1)
        } else {
            lookup_spec(pairs, key)
        }),
{
    let put = put_spec(pairs, p);
    let i = position_spec(pairs, p.0);
    let k = position_spec(pairs, key);
    lemma_position(pairs, p.0);
    lemma_position(pairs, key);
    lemma_lookup_position(pairs, key);
    lemma_lookup_position(put, key);
    if p.0 == key {
        if i < 0 {
            assert forall|j: int| 0 <= j < put.len() && j < pairs.len() implies #[trigger] put[j].0 != key by {
                assert(put[j] == pairs[j]);
            }
            lemma_position_is(put, key, pairs.len() as int);
        } else {
            assert forall|j: int| 0 <= j < put.len() && j < i implies #[trigger] put[j].0 != key by {
                assert(put[j] == pairs[j]);
            }
            lemma_position_is(put, key, i);
        }
    } else {
        if k >= 0 {
            assert(k != i);
            assert(put[k] == pairs[k]);
            assert forall|j: int| 0 <= j < put.len() && j < k implies #[trigger] put[j].0 != key by {
                if j != i {
                    assert(put[j] == pairs[j]);
                }
            }
        } else {
            assert forall|j: int| 0 <= j < put.len() implies #[trigger] put[j].0 != key by {
                if j < pairs.len() && j != i {
                    assert(put[j] == pairs[j]);
                }
            }
        }
        lemma_position_is(put, key, k);
    }
}

/// A put keeps the names apart.
proof fn lemma_put_distinct(pairs: Seq<(Seq<char>, Seq<char>)>, p: (Seq<char>, Seq<char>))
    requires
        distinct_keys(pairs),
    ensures
        distinct_keys(put_spec(pairs, p)),
{
    let put = put_spec(pairs, p);
    let i = position_spec(pairs, p.0);
    lemma_position(pairs, p.0);
    assert forall|a: int, b: int| 0 <= a < b < put.len() implies #[trigger] put[a].0 != #[trigger] put[b].0 by {
        if i < 0 {
            if b == pairs.len() {
                assert(put[a] == pairs[a]);
            } else {
                assert(put[a] == pairs[a] && put[b] == pairs[b]);
            }
        } else {
            assert(put[a].0 == pairs[a].0 && put[b].0 == pairs[b].0);
        }
    }
}

/// Properties put in one after the other keep one property per name, and
/// looking a name up gives the value it was given last.
pub proof fn lemma_indexed(pairs: Seq<(Seq<char>, Seq<char>)>)
    ensures
        distinct_keys(indexed_spec(pairs)),
        forall|key: Seq<char>| #[trigger] lookup_spec(indexed_spec(pairs), key) == last_value_spec(pairs, key),
    decreases pairs.len(),
{
    if pairs.len() > 0 {
        lemma_indexed(pairs.drop_last());
        lemma_put_distinct(indexed_spec(pairs.drop_last()), pairs.last());
        assert forall|key: Seq<char>| #[trigger] lookup_spec(indexed_spec(pairs), key) == last_value_spec(pairs, key) by {
            lemma_put_lookup(indexed_spec(pairs.drop_last()), pairs.last(), key);
        }
    }
}

/// Returns the index of the first property of the given name.
fn position(properties: &Vec<(String, String)>, key: &String) -> (r: Option<usize>)
    ensures
        match r {
            Some(i) => i < properties@.len() && position_spec(pairs_view(properties@), key@) == i,
            None => position_spec(pairs_view(properties@), key@) == -1,
        },
{
    let ghost pairs = pairs_view(properties@);
    let mut i: usize = 0;
    while i < properties.len()
        invariant
            i <= properties.len(),
            pairs == pairs_view(properties@),
            forall|j: int| 0 <= j < i ==> #[trigger] pairs[j].0 != key@,
        decreases properties.len() - i,
    {
        if properties[i].0 == *key {
            proof {
                lemma_position_is(pairs, key@, i as int);
            }
            return Some(i);
        }
        i = i + 1;
    }
    proof {
        lemma_position_is(pairs, key@, -1);
    }
    None
}

/// Returns the properties put in one after the other: each name once,
/// where it occurs first, with the value it is given last.
fn index_pairs(properties: &Vec<(String, String)>) -> (r: Vec<(String, String)>)
    ensures
        pairs_view(r@) == indexed_spec(pairs_view(properties@)),
{
    let ghost input = pairs_view(properties@);
    let mut r: Vec<(String, String)> = Vec::new();
    let mut i: usize = 0;
    assert(input.take(0) =~= Seq::<(Seq<char>, Seq<char>)>::empty());
    assert(pairs_view(r@) =~= Seq::<(Seq<char>, Seq<char>)>::empty());
    while i < properties.len()
        invariant
            i <= properties.len(),
            input == pairs_view(properties@),
            pairs_view(r@) == indexed_spec(input.take(i as int)),
        decreases properties.len() - i,
    {
        let key = properties[i].0.clone();
        let value = properties[i].1.clone();
        let ghost before = pairs_view(r@);
        match position(&r, &key) {
            Some(j) => {
                r.set(j, (key, value));
                proof {
                    assert(pairs_view(r@) =~= before.update(j as int, input[i as int]));
                }
            },
            None => {
                r.push((key, value));
                proof {
                    assert(pairs_view(r@) =~= before.push(input[i as int]));
                }
            },
        }
        proof {
            assert(input.take(i + 1).drop_last() =~= input.take(i as int));
            assert(input.take(i + 1).last() == input[i as int]);
        }
        i = i + 1;
    }
    assert(input.take(i as int) =~= input);
    r
}

/// A named source of properties, such as the properties of a configuration
/// file or of the command line.
///
/// A stub only reserves the position of a source and holds no property.
#[derive(Debug, Clone)]
pub struct PropertySource {
    name: String,
    properties: Vec<(String, String)>,
    stub: bool,
}

/// The name, the properties and the stub flag of a property source.
pub type PropertySourceView = (Seq<char>, Seq<(Seq<char>, Seq<char>)>, bool);

impl View for PropertySource {
    type V = PropertySourceView;

    closed spec fn view(&self) -> PropertySourceView {
        (self.name@, pairs_view(self.properties@), self.stub)
    }
}

/// The views of the given sources.
pub open spec fn source_views(sources: Seq<PropertySource>) -> Seq<PropertySourceView> {
    sources.map_values(|s: PropertySource| s@)
}

impl PropertySource {
    /// The name of the source.
    pub open spec fn name_spec(&self) -> Seq<char> {
        self@.0
    }

    /// The properties of the source, in order.
    pub open spec fn pairs(&self) -> Seq<(Seq<char>, Seq<char>)> {
        self@.1
    }

    /// Whether the source is a stub.
    pub open spec fn is_stub_spec(&self) -> bool {
        self@.2
    }

    /// The value of the given property of the source.
    pub open spec fn property_spec(&self, name: Seq<char>) -> Option<Seq<char>> {
        lookup_spec(self.pairs(), name)
    }

    /// Creates a source holding the given properties. A name given twice is
    /// held once, where it occurs first, with the value it is given last.
    pub fn new(name: String, properties: Vec<(String, String)>) -> (r: Self)
        ensures
            r.name_spec() == name@,
            r.pairs() == indexed_spec(pairs_view(properties@)),
            distinct_keys(r.pairs()),
            forall|key: Seq<char>| #[trigger] r.property_spec(key) == last_value_spec(
                pairs_view(properties@),
                key,
            ),
            !r.is_stub_spec(),
    {
        proof {
            lemma_indexed(pairs_view(properties@));
        }
        PropertySource { name, properties: index_pairs(&properties), stub: false }
    }

    /// Creates a stub source, which only reserves a position.
    pub fn stub(name: String) -> (r: Self)
        ensures
            r.name_spec() == name@,
            r.pairs() == Seq::<(Seq<char>, Seq<char>)>::empty(),
            distinct_keys(r.pairs()),
            r.is_stub_spec(),
    {
        let properties: Vec<(String, String)> = Vec::new();
        proof {
            assert(pairs_view(properties@) =~= Seq::<(Seq<char>, Seq<char>)>::empty());
        }
        PropertySource { name, properties, stub: true }
    }

    /// Returns a copy of this source.
    pub fn copy(&self) -> (r: Self)
        ensures
            r@ == self@,
    {
        PropertySource { name: self.name.clone(), properties: copy_pairs(&self.properties), stub: self.stub }
    }

    /// Returns the name of the source.
    pub fn name(&self) -> (r: &str)
        ensures
            r@ == self.name_spec(),
    {
        self.name.as_str()
    }

    /// Returns whether the source is a stub.
    pub fn is_stub(&self) -> (r: bool)
        ensures
            r == self.is_stub_spec(),
    {
        self.stub
    }

    /// Returns the properties of the source.
    pub fn properties(&self) -> (r: &Vec<(String, String)>)
        ensures
            pairs_view(r@) == self.pairs(),
    {
        &self.properties
    }

    /// Returns the value of the given property.
    pub fn property(&self, name: &str) -> (r: Option<String>)
        ensures
            opt_view(r) == self.property_spec(name@),
    {
        lookup(&self.properties, &name.to_owned())
    }

    /// Returns whether the source holds the given property.
    pub fn contains_property(&self, name: &str) -> (r: bool)
        ensures
            r == self.property_spec(name@) is Some,
    {
        self.property(name).is_some()
    }
}

/// A single configuration property: a name and its value.
#[derive(Debug, Clone)]
pub struct ConfigurationProperty {
    name: ConfigurationPropertyName,
    value: String,
}

impl ConfigurationProperty {
    /// The name of the property.
    pub closed spec fn name_spec(&self) -> Seq<char> {
        self.name.name_spec()
    }

    /// The value of the property.
    pub closed spec fn value_spec(&self) -> Seq<char> {
        self.value@
    }

    /// Creates a new configuration property.
    pub fn new(name: ConfigurationPropertyName, value: String) -> (r: Self)
        ensures
            r.name_spec() == name.name_spec(),
            r.value_spec() == value@,
    {
        ConfigurationProperty { name, value }
    }

    /// Returns the name of this property.
    pub fn name(&self) -> (r: &ConfigurationPropertyName)
        ensures
            r.name_spec() == self.name_spec(),
    {
        &self.name
    }

    /// Returns the value of this property.
    pub fn get_value(&self) -> (r: &str)
        ensures
            r@ == self.value_spec(),
    {
        self.value.as_str()
    }
}

/// A configuration property source adapted from a property source: a
/// snapshot of the properties the source holds.
#[derive(Debug, Clone)]
pub struct NextConfigurationPropertySource {
    properties: Vec<(String, String)>,
}

impl NextConfigurationPropertySource {
    /// The properties of the adapted source.
    pub closed spec fn pairs(&self) -> Seq<(Seq<char>, Seq<char>)> {
        pairs_view(self.properties@)
    }

    /// Adapts the given property source, or returns `None` for a stub, which
    /// holds no property.
    pub fn from(source: &PropertySource) -> (r: Option<Self>)
        ensures
            source.is_stub_spec() <==> r is None,
            r matches Some(adapted) ==> adapted.pairs() == source.pairs(),
    {
        if source.is_stub() {
            return None;
        }
        Some(NextConfigurationPropertySource { properties: copy_pairs(source.properties()) })
    }

    /// Returns whether this source contains a property with the given name.
    pub fn contains_property(&self, name: &str) -> (r: bool)
        ensures
            r == lookup_spec(self.pairs(), name@) is Some,
    {
        lookup(&self.properties, &name.to_owned()).is_some()
    }

    /// Returns the names of the properties of this source, in order.
    pub fn property_names(&self) -> (r: Vec<String>)
        ensures
            r@.map_values(|n: String| n@) == self.pairs().map_values(
                |p: (Seq<char>, Seq<char>)| p.0,
            ),
    {
        let mut names: Vec<String> = Vec::new();
        let mut i: usize = 0;
        while i < self.properties.len()
            invariant
                i <= self.properties.len(),
                names@.map_values(|n: String| n@) == self.pairs().take(i as int).map_values(
                    |p: (Seq<char>, Seq<char>)| p.0,
                ),
            decreases self.properties.len() - i,
        {
            let ghost prev = names@;
            let n = self.properties[i].0.clone();
            names.push(n);
            proof {
                assert(names@.map_values(|n: String| n@) =~= prev.map_values(|n: String| n@).push(n@));
                assert(self.pairs().take(i + 1) =~= self.pairs().take(i as int).push(self.pairs()[i as int]));
                assert(self.pairs().take(i + 1).map_values(|p: (Seq<char>, Seq<char>)| p.0) =~= self.pairs().take(i as int).map_values(|p: (Seq<char>, Seq<char>)| p.0).push(self.pairs()[i as int].0));
            }
            i = i + 1;
        }
        assert(self.pairs().take(i as int) =~= self.pairs());
        names
    }

    /// Returns the configuration property of the given name, when this source
    /// holds one.
    pub fn get_configuration_property(&self, name: &ConfigurationPropertyName) -> (r: Option<
        ConfigurationProperty,
    >)
        ensures
            r is Some <==> lookup_spec(self.pairs(), name.name_spec()) is Some,
            r matches Some(p) ==> p.name_spec() == name.name_spec() && Some(p.value_spec()) == lookup_spec(
                self.pairs(),
                name.name_spec(),
            ),
    {
        match lookup(&self.properties, &name.as_str().to_owned()) {
            Some(value) => Some(ConfigurationProperty::new(name.copy(), value)),
            None => None,
        }
    }
}

/// Whether a property source takes part in the configuration property
/// sources: it is not a stub and not the adapter of the sources itself.
pub open spec fn is_included_spec(source: PropertySourceView) -> bool {
    !source.2 && source.0 != ATTACHED_PROPERTY_SOURCE_NAME@
}

/// The sources that take part in the configuration property sources.
pub open spec fn included_spec(sources: Seq<PropertySourceView>) -> Seq<PropertySourceView> {
    sources.filter(|s: PropertySourceView| is_included_spec(s))
}

/// Returns whether the given source is the adapter of the configuration
/// property sources.
pub fn is_attached_name(name: &str) -> (r: bool)
    ensures
        r == (name@ == ATTACHED_PROPERTY_SOURCE_NAME@),
{
    let attached = ATTACHED_PROPERTY_SOURCE_NAME.to_owned();
    name.to_owned() == attached
}

/// Returns the sources that take part in the configuration property sources.
pub fn stream_property_sources(sources: &Vec<PropertySource>) -> (r: Vec<PropertySource>)
    ensures
        source_views(r@) == included_spec(source_views(sources@)),
{
    let ghost all = source_views(sources@);
    let mut r: Vec<PropertySource> = Vec::new();
    let mut i: usize = 0;
    while i < sources.len()
        invariant
            i <= sources.len(),
            all == source_views(sources@),
            source_views(r@) == included_spec(all.take(i as int)),
        decreases sources.len() - i,
    {
        let source = &sources[i];
        let ghost prev = r@;
        proof {
            reveal_with_fuel(Seq::<_>::filter, 1);
            assert(all.take(i + 1).drop_last() =~= all.take(i as int));
            assert(all.take(i + 1).last() == source@);
        }
        if !source.is_stub() && !is_attached_name(source.name()) {
            let c = source.copy();
            r.push(c);
            assert(source_views(r@) =~= source_views(prev).push(c@));
        }
        i = i + 1;
    }
    assert(all.take(i as int) =~= all);
    r
}

/// The names of the given sources.
pub open spec fn names_spec(sources: Seq<PropertySourceView>) -> Seq<Seq<char>> {
    sources.map_values(|s: PropertySourceView| s.0)
}

/// The configuration property sources adapted from the property sources of
/// an environment: every source that is not a stub and not the adapter
/// itself, in order.
#[derive(Debug)]
pub struct NextConfigurationPropertySources {
    source_names: Vec<String>,
    sources: Vec<NextConfigurationPropertySource>,
}

impl NextConfigurationPropertySources {
    /// The names of the adapted sources.
    pub closed spec fn source_names_spec(&self) -> Seq<Seq<char>> {
        self.source_names@.map_values(|n: String| n@)
    }

    /// The properties of the adapted sources, in precedence order.
    pub closed spec fn sources_spec(&self) -> Seq<Seq<(Seq<char>, Seq<char>)>> {
        self.sources@.map_values(|s: NextConfigurationPropertySource| s.pairs())
    }

    /// Adapts the given property sources.
    pub fn new(sources: &Vec<PropertySource>) -> (r: Self)
        ensures
            r.source_names_spec() == names_spec(included_spec(source_views(sources@))),
            r.sources_spec() == included_spec(source_views(sources@)).map_values(
                |s: PropertySourceView| s.1,
            ),
    {
        let included = stream_property_sources(sources);
        let ghost inc = source_views(included@);
        let mut source_names: Vec<String> = Vec::new();
        let mut adapted: Vec<NextConfigurationPropertySource> = Vec::new();
        let mut i: usize = 0;
        while i < included.len()
            invariant
                i <= included.len(),
                inc == source_views(included@),
                inc == included_spec(source_views(sources@)),
                source_names@.map_values(|n: String| n@) == names_spec(inc.take(i as int)),
                adapted@.map_values(|s: NextConfigurationPropertySource| s.pairs())
                    == inc.take(i as int).map_values(|s: PropertySourceView| s.1),
            decreases included.len() - i,
        {
            proof {
                source_views(sources@).lemma_filter_pred(|s: PropertySourceView| is_included_spec(s), i as int);
                assert(inc[i as int] == included@[i as int]@);
            }
            let ghost prev_names = source_names@;
            let ghost prev_adapted = adapted@;
            let n = included[i].name().to_owned();
            source_names.push(n);
            let source = NextConfigurationPropertySource::from(&included[i]);
            match source {
                Some(s) => {
                    adapted.push(s);
                    proof {
                        assert(adapted@.map_values(|s: NextConfigurationPropertySource| s.pairs())
                            =~= prev_adapted.map_values(|s: NextConfigurationPropertySource| s.pairs()).push(s.pairs()));
                    }
                },
                None => {},
            }
            proof {
                assert(inc.take(i + 1) =~= inc.take(i as int).push(inc[i as int]));
                assert(source_names@.map_values(|n: String| n@) =~= prev_names.map_values(|n: String| n@).push(n@));
                assert(names_spec(inc.take(i + 1)) =~= names_spec(inc.take(i as int)).push(n@));
                assert(inc.take(i + 1).map_values(|s: PropertySourceView| s.1) =~= inc.take(i as int).map_values(|s: PropertySourceView| s.1).push(inc[i as int].1));
            }
            i = i + 1;
        }
        assert(inc.take(i as int) =~= inc);
        NextConfigurationPropertySources { source_names, sources: adapted }
    }

    /// Returns whether this collection was adapted from sources that have the
    /// same names as the given ones.
    pub fn is_using_sources(&self, sources: &Vec<PropertySource>) -> (r: bool)
        ensures
            r == (self.source_names_spec() == names_spec(included_spec(source_views(sources@)))),
    {
        let included = stream_property_sources(sources);
        let ghost inc = source_views(included@);
        if included.len() != self.source_names.len() {
            assert(self.source_names_spec().len() != names_spec(inc).len());
            return false;
        }
        let mut i: usize = 0;
        while i < included.len()
            invariant
                i <= included.len(),
                included.len() == self.source_names.len(),
                inc == source_views(included@),
                inc == included_spec(source_views(sources@)),
                forall|k: int| 0 <= k < i ==> self.source_names_spec()[k] == names_spec(inc)[k],
            decreases included.len() - i,
        {
            if self.source_names[i] != included[i].name().to_owned() {
                assert(self.source_names_spec()[i as int] != names_spec(inc)[i as int]);
                return false;
            }
            i = i + 1;
        }
        assert(self.source_names_spec() =~= names_spec(inc));
        true
    }

    /// Returns the adapted sources, in precedence order.
    pub fn sources(&self) -> (r: &Vec<NextConfigurationPropertySource>)
        ensures
            r@.map_values(|s: NextConfigurationPropertySource| s.pairs()) == self.sources_spec(),
    {
        &self.sources
    }

    /// Returns the number of adapted sources.
    pub fn len(&self) -> (r: usize)
        ensures
            r == self.sources_spec().len(),
    {
        self.sources.len()
    }

    /// Returns whether no source was adapted.
    pub fn is_empty(&self) -> (r: bool)
        ensures
            r == (self.sources_spec().len() == 0),
    {
        self.sources.len() == 0
    }
}

/// The value of a property in the first source that holds it.
pub open spec fn first_value_spec(sources: Seq<Seq<(Seq<char>, Seq<char>)>>, key: Seq<char>) -> Option<
    Seq<char>,
>
    decreases sources.len(),
{
    if sources.len() == 0 {
        None
    } else {
        match lookup_spec(sources[0], key) {
            Some(v) => Some(v),
            None => first_value_spec(sources.drop_first(), key),
        }
    }
}

/// The value of a configuration property of the given sources: the key must
/// be a valid name, and the first source that holds it wins.
pub open spec fn configuration_property_spec(sources: Seq<Seq<(Seq<char>, Seq<char>)>>, key: Seq<char>) -> Option<Seq<char>> {
    if valid_name_spec(key) {
        first_value_spec(sources, key)
    } else {
        None
    }
}

/// The sources are searched in their order and the first one that holds a
/// property wins: when the source at `i` holds the key with the value `v`,
/// and no source before it holds the key, the property is `v`, whatever the
/// sources after it hold.
pub proof fn lemma_first_source_wins(
    sources: Seq<Seq<(Seq<char>, Seq<char>)>>,
    key: Seq<char>,
    i: int,
    v: Seq<char>,
)
    requires
        valid_name_spec(key),
        0 <= i < sources.len(),
        lookup_spec(sources[i], key) == Some(v),
        forall|j: int| 0 <= j < i ==> #[trigger] lookup_spec(sources[j], key) is None,
    ensures
        configuration_property_spec(sources, key) == Some(v),
    decreases i,
{
    if i > 0 {
        let rest = sources.drop_first();
        assert(lookup_spec(sources[0], key) is None);
        assert(rest[i - 1] == sources[i]);
        assert forall|j: int| 0 <= j < i - 1 implies #[trigger] lookup_spec(rest[j], key) is None by {
            assert(rest[j] == sources[j + 1]);
        }
        lemma_first_source_wins(rest, key, i - 1, v);
    }
}

/// A property that no source holds is absent.
pub proof fn lemma_no_source_holds(sources: Seq<Seq<(Seq<char>, Seq<char>)>>, key: Seq<char>)
    requires
        forall|j: int| 0 <= j < sources.len() ==> #[trigger] lookup_spec(sources[j], key) is None,
    ensures
        configuration_property_spec(sources, key) is None,
    decreases sources.len(),
{
    if sources.len() > 0 {
        let rest = sources.drop_first();
        assert(lookup_spec(sources[0], key) is None);
        assert forall|j: int| 0 <= j < rest.len() implies #[trigger] lookup_spec(rest[j], key) is None by {
            assert(rest[j] == sources[j + 1]);
        }
        lemma_no_source_holds(rest, key);
    }
}

/// Returns the value of a configuration property of the given sources.
pub fn configuration_property(sources: &NextConfigurationPropertySources, key: &str) -> (r: Option<String>)
    ensures
        opt_view(r) == configuration_property_spec(sources.sources_spec(), key@),
{
    let name = match ConfigurationPropertyName::of(key) {
        Ok(name) => name,
        Err(_) => return None,
    };
    let list = sources.sources();
    let ghost all = sources.sources_spec();
    let mut i: usize = 0;
    assert(all.skip(0) =~= all);
    while i < list.len()
        invariant
            i <= list.len(),
            all == list@.map_values(|s: NextConfigurationPropertySource| s.pairs()),
            name.name_spec() == key@,
            valid_name_spec(key@),
            all == sources.sources_spec(),
            first_value_spec(all, key@) == first_value_spec(all.skip(i as int), key@),
        decreases list.len() - i,
    {
        assert(all.skip(i as int).drop_first() =~= all.skip(i + 1));
        assert(all.skip(i as int)[0] == list@[i as int].pairs());
        match list[i].get_configuration_property(&name) {
            Some(property) => {
                return Some(property.get_value().to_owned());
            },
            None => {},
        }
        i = i + 1;
    }
    None
}

/// The property source that adapts the configuration property sources of an
/// environment, looking its properties up by configuration property name.
#[derive(Debug)]
pub struct ConfigurationPropertySourcesPropertySource {
    name: String,
    sources: NextConfigurationPropertySources,
}

impl ConfigurationPropertySourcesPropertySource {
    /// The name of the source.
    pub closed spec fn name_spec(&self) -> Seq<char> {
        self.name@
    }

    /// The adapted sources.
    pub closed spec fn sources_spec(&self) -> Seq<Seq<(Seq<char>, Seq<char>)>> {
        self.sources.sources_spec()
    }

    /// Creates the adapter of the given sources.
    pub fn new(name: String, sources: NextConfigurationPropertySources) -> (r: Self)
        ensures
            r.name_spec() == name@,
            r.sources_spec() == sources.sources_spec(),
    {
        ConfigurationPropertySourcesPropertySource { name, sources }
    }

    /// Returns the adapted sources.
    pub fn get_source(&self) -> (r: &NextConfigurationPropertySources)
        ensures
            r.sources_spec() == self.sources_spec(),
    {
        &self.sources
    }

    /// Returns the name of the source.
    pub fn name(&self) -> (r: &str)
        ensures
            r@ == self.name_spec(),
    {
        self.name.as_str()
    }

    /// Returns the value of the given property, looked up by configuration
    /// property name.
    pub fn property(&self, name: &str) -> (r: Option<String>)
        ensures
            opt_view(r) == configuration_property_spec(self.sources_spec(), name@),
    {
        configuration_property(&self.sources, name)
    }

    /// Returns whether the given property can be looked up.
    pub fn contains_property(&self, name: &str) -> (r: bool)
        ensures
            r == configuration_property_spec(self.sources_spec(), name@) is Some,
    {
        self.property(name).is_some()
    }
}

} // verus!
