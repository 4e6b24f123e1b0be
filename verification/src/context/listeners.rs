//! The listeners registered on an application context, keyed by an id that
//! names their concrete type.

use vstd::prelude::*;

use crate::text::{chars_of, equals};

verus! {

broadcast use vstd::string::group_string_axioms;

/// Whether no id occurs twice.
pub open spec fn distinct_ids<L>(entries: Seq<(Seq<char>, L)>) -> bool {
    forall|i: int, j: int|
        0 <= i < j < entries.len() ==> #[trigger] entries[i].0 != #[trigger] entries[j].0
}

/// Whether an entry has the given id.
pub open spec fn has_id<L>(entries: Seq<(Seq<char>, L)>, id: Seq<char>) -> bool {
    exists|i: int| 0 <= i < entries.len() && #[trigger] entries[i].0 == id
}

/// The entries after a listener is added under an id: it replaces the
/// listener of that id in its place, or comes last when the id is new.
pub open spec fn added_spec<L>(entries: Seq<(Seq<char>, L)>, id: Seq<char>, listener: L) -> Seq<
    (Seq<char>, L),
> {
    if has_id(entries, id) {
        let i = choose|i: int| 0 <= i < entries.len() && #[trigger] entries[i].0 == id;
        entries.update(i, (id, listener))
    } else {
        entries.push((id, listener))
    }
}

/// The entries after the listener of an id is removed: the others, in
/// their order.
pub open spec fn removed_spec<L>(entries: Seq<(Seq<char>, L)>, id: Seq<char>) -> Seq<(Seq<char>, L)>
    decreases entries.len(),
{
    if entries.len() == 0 {
        entries
    } else {
        let kept = removed_spec(entries.drop_last(), id);
        if entries.last().0 != id {
            kept.push(entries.last())
        } else {
            kept
        }
    }
}

/// The listeners of an application context, in registration order, each
/// under its id: no id occurs twice.
#[derive(Debug)]
pub struct ListenerRegistry<L> {
    entries: Vec<(String, L)>,
}

impl<L> ListenerRegistry<L> {
    /// The entries, each id taken by its characters.
    pub closed spec fn view_entries(&self) -> Seq<(Seq<char>, L)> {
        self.entries@.map_values(|e: (String, L)| (e.0@, e.1))
    }

    /// No id occurs twice.
    #[verifier::type_invariant]
    closed spec fn wf(&self) -> bool {
        distinct_ids(self.view_entries())
    }

    /// Creates an empty registry.
    pub fn new() -> (r: Self)
        ensures
            r.view_entries() == Seq::<(Seq<char>, L)>::empty(),
            distinct_ids(r.view_entries()),
    {
        let r = ListenerRegistry { entries: Vec::new() };
        assert(r.view_entries() =~= Seq::<(Seq<char>, L)>::empty());
        r
    }

    /// Returns the number of listeners.
    pub fn len(&self) -> (r: usize)
        ensures
            r == self.view_entries().len(),
    {
        self.entries.len()
    }

    /// Returns the entries, in registration order.
    pub fn entries(&self) -> (r: &Vec<(String, L)>)
        ensures
            r@.map_values(|e: (String, L)| (e.0@, e.1)) == self.view_entries(),
    {
        &self.entries
    }

    /// Returns the position of the listener of the given id, if there is one.
    fn position(&self, id: &str) -> (r: Option<usize>)
        ensures
            match r {
                Some(i) => i < self.view_entries().len() && self.view_entries()[i as int].0 == id@,
                None => !has_id(self.view_entries(), id@),
            },
    {
        let wanted = chars_of(id);
        let mut i: usize = 0;
        while i < self.entries.len()
            invariant
                i <= self.entries.len(),
                wanted@ == id@,
                forall|k: int| 0 <= k < i ==> #[trigger] self.view_entries()[k].0 != id@,
            decreases self.entries.len() - i,
        {
            if equals(&chars_of(self.entries[i].0.as_str()), &wanted) {
                assert(self.view_entries()[i as int].0 == self.entries@[i as int].0@);
                return Some(i);
            }
            assert(self.view_entries()[i as int].0 == self.entries@[i as int].0@);
            i = i + 1;
        }
        None
    }

    /// Returns the listener of the given id, if there is one.
    pub fn get(&self, id: &str) -> (r: Option<&L>)
        ensures
            match r {
                Some(l) => exists|i: int|
                    0 <= i < self.view_entries().len() && #[trigger] self.view_entries()[i] == (
                        id@,
                        *l,
                    ),
                None => !has_id(self.view_entries(), id@),
            },
    {
        match self.position(id) {
            Some(i) => {
                let l = &self.entries[i].1;
                assert(self.view_entries()[i as int] == (id@, *l));
                Some(l)
            },
            None => None,
        }
    }

    /// Adds a listener under the given id: a listener of the same id is
    /// replaced in its place, a new id comes last.
    pub fn add(&mut self, id: String, listener: L)
        ensures
            final(self).view_entries() == added_spec(old(self).view_entries(), id@, listener),
            distinct_ids(final(self).view_entries()),
    {
        proof {
            use_type_invariant(&*self);
        }
        let ghost old_entries = self.view_entries();
        match self.position(id.as_str()) {
            Some(i) => {
                let ghost j = choose|j: int|
                    0 <= j < old_entries.len() && #[trigger] old_entries[j].0 == id@;
                assert(j == i) by {
                    if j != i {
                        if j < i {
                            assert(old_entries[j].0 != old_entries[i as int].0);
                        } else {
                            assert(old_entries[i as int].0 != old_entries[j].0);
                        }
                    }
                }
                let ghost idv = id@;
                let mut entries: Vec<(String, L)> = Vec::new();
                std::mem::swap(&mut entries, &mut self.entries);
                entries.set(i, (id, listener));
                assert(entries@.map_values(|e: (String, L)| (e.0@, e.1)) =~= old_entries.update(
                    i as int,
                    (idv, listener),
                ));
                self.entries = entries;
            },
            None => {
                let ghost idv = id@;
                let mut entries: Vec<(String, L)> = Vec::new();
                std::mem::swap(&mut entries, &mut self.entries);
                entries.push((id, listener));
                assert(entries@.map_values(|e: (String, L)| (e.0@, e.1)) =~= old_entries.push(
                    (idv, listener),
                ));
                self.entries = entries;
            },
        }
    }

    /// Removes the listener of the given id, if there is one.
    pub fn remove(&mut self, id: &str)
        ensures
            final(self).view_entries() == removed_spec(old(self).view_entries(), id@),
            distinct_ids(final(self).view_entries()),
    {
        proof {
            use_type_invariant(&*self);
        }
        let ghost old_entries = self.view_entries();
        let mut rest: Vec<(String, L)> = Vec::new();
        std::mem::swap(&mut rest, &mut self.entries);
        let wanted = chars_of(id);
        let mut kept: Vec<(String, L)> = Vec::new();
        let ghost mut n: int = 0;
        while rest.len() > 0
            invariant
                wanted@ == id@,
                0 <= n <= old_entries.len(),
                rest@.map_values(|e: (String, L)| (e.0@, e.1)) == old_entries.skip(n),
                kept@.map_values(|e: (String, L)| (e.0@, e.1)) == removed_spec(
                    old_entries.take(n),
                    id@,
                ),
            decreases rest.len(),
        {
            let ghost pre = rest@;
            assert(pre.map_values(|e: (String, L)| (e.0@, e.1)).len() == pre.len());
            assert(pre.map_values(|e: (String, L)| (e.0@, e.1))[0] == (pre[0].0@, pre[0].1));
            let entry = rest.remove(0);
            proof {
                assert(old_entries.skip(n)[0] == (entry.0@, entry.1));
                assert(old_entries[n] == (entry.0@, entry.1));
                assert(old_entries.take(n + 1).drop_last() =~= old_entries.take(n));
                assert(old_entries.take(n + 1).last() == (entry.0@, entry.1));
                assert(old_entries.skip(n + 1) =~= old_entries.skip(n).drop_first());
            }
            let ghost before = kept@;
            if !equals(&chars_of(entry.0.as_str()), &wanted) {
                kept.push(entry);
                assert(kept@.map_values(|e: (String, L)| (e.0@, e.1)) =~= before.map_values(
                    |e: (String, L)| (e.0@, e.1),
                ).push((kept@.last().0@, kept@.last().1)));
            }
            proof {
                n = n + 1;
            }
            assert(rest@.map_values(|e: (String, L)| (e.0@, e.1)) =~= old_entries.skip(n));
        }
        assert(old_entries.take(n) =~= old_entries);
        proof {
            lemma_filter_keeps_distinct(old_entries, id@);
        }
        self.entries = kept;
    }

    /// Removes every listener.
    pub fn clear(&mut self)
        ensures
            final(self).view_entries() == Seq::<(Seq<char>, L)>::empty(),
    {
        self.entries = Vec::new();
        assert(self.view_entries() =~= Seq::<(Seq<char>, L)>::empty());
    }
}

/// The entries that removing an id keeps were entries before, with
/// another id.
proof fn lemma_removed_elements<L>(entries: Seq<(Seq<char>, L)>, id: Seq<char>)
    ensures
        forall|k: int|
            0 <= k < removed_spec(entries, id).len() ==> entries.contains(
                #[trigger] removed_spec(entries, id)[k],
            ) && removed_spec(entries, id)[k].0 != id,
    decreases entries.len(),
{
    if entries.len() > 0 {
        let init = entries.drop_last();
        lemma_removed_elements(init, id);
        let f = removed_spec(entries, id);
        assert forall|k: int| 0 <= k < f.len() implies entries.contains(#[trigger] f[k]) && f[k].0
            != id by {
            if k < removed_spec(init, id).len() {
                let x = removed_spec(init, id)[k];
                assert(init.contains(x));
                let j = choose|j: int| 0 <= j < init.len() && init[j] == x;
                assert(entries[j] == init[j]);
            } else {
                assert(f[k] == entries.last());
                assert(entries[entries.len() - 1] == entries.last());
            }
        }
    }
}

/// Removing entries keeps the ids of the others distinct.
proof fn lemma_filter_keeps_distinct<L>(entries: Seq<(Seq<char>, L)>, id: Seq<char>)
    requires
        distinct_ids(entries),
    ensures
        distinct_ids(removed_spec(entries, id)),
    decreases entries.len(),
{
    if entries.len() > 0 {
        let init = entries.drop_last();
        assert forall|i: int, j: int| 0 <= i < j < init.len() implies #[trigger] init[i].0
            != #[trigger] init[j].0 by {
            assert(entries[i] == init[i] && entries[j] == init[j]);
        }
        lemma_filter_keeps_distinct(init, id);
        lemma_removed_elements(init, id);
        let f = removed_spec(init, id);
        if entries.last().0 != id {
            assert forall|k: int| 0 <= k < f.len() implies #[trigger] f[k].0 != entries.last().0 by {
                assert(init.contains(f[k]));
                let j = choose|j: int| 0 <= j < init.len() && init[j] == f[k];
                assert(entries[j] == init[j]);
                assert(entries[entries.len() - 1] == entries.last());
            }
            let g = f.push(entries.last());
            assert forall|i: int, j: int| 0 <= i < j < g.len() implies #[trigger] g[i].0
                != #[trigger] g[j].0 by {
                if j == g.len() - 1 {
                    assert(g[i] == f[i]);
                } else {
                    assert(g[i] == f[i] && g[j] == f[j]);
                }
            }
        }
    }
}

/// Replacing an entry of an id by another of the same id leaves the entries
/// of the other ids as they were.
proof fn lemma_removed_update<L>(entries: Seq<(Seq<char>, L)>, i: int, id: Seq<char>, listener: L)
    requires
        0 <= i < entries.len(),
        entries[i].0 == id,
    ensures
        removed_spec(entries.update(i, (id, listener)), id) == removed_spec(entries, id),
    decreases entries.len(),
{
    let updated = entries.update(i, (id, listener));
    if i == entries.len() - 1 {
        assert(updated.drop_last() =~= entries.drop_last());
    } else {
        assert(updated.drop_last() =~= entries.drop_last().update(i, (id, listener)));
        lemma_removed_update(entries.drop_last(), i, id, listener);
    }
}

/// Adding a listener under an id registers it under that id, once, and
/// leaves the listeners of the other ids, and their order, as they were.
pub proof fn lemma_add_registers_once<L>(entries: Seq<(Seq<char>, L)>, id: Seq<char>, listener: L)
    requires
        distinct_ids(entries),
    ensures
        ({
            let added = added_spec(entries, id, listener);
            &&& distinct_ids(added)
            &&& exists|k: int| 0 <= k < added.len() && #[trigger] added[k] == (id, listener)
            &&& removed_spec(added, id) == removed_spec(entries, id)
        }),
{
    let added = added_spec(entries, id, listener);
    if has_id(entries, id) {
        let i = choose|i: int| 0 <= i < entries.len() && #[trigger] entries[i].0 == id;
        assert(added[i] == (id, listener));
        lemma_removed_update(entries, i, id, listener);
        assert forall|a: int, b: int| 0 <= a < b < added.len() implies #[trigger] added[a].0
            != #[trigger] added[b].0 by {
            assert(entries[a].0 != entries[b].0);
        }
    } else {
        assert(added[entries.len() as int] == (id, listener));
        assert(added.drop_last() =~= entries);
        assert forall|a: int, b: int| 0 <= a < b < added.len() implies #[trigger] added[a].0
            != #[trigger] added[b].0 by {
            if b == entries.len() {
                assert(added[a] == entries[a]);
            } else {
                assert(added[a] == entries[a] && added[b] == entries[b]);
            }
        }
    }
}

/// Once the listener of an id is removed, no listener has that id.
pub proof fn lemma_remove_unregisters<L>(entries: Seq<(Seq<char>, L)>, id: Seq<char>)
    ensures
        !has_id(removed_spec(entries, id), id),
{
    lemma_removed_elements(entries, id);
}

} // verus!
