//! A map from names to values, kept in the order in which names were first set.

use vstd::prelude::*;

use crate::text::str_eq;

verus! {

/// The members of a table in the order in which they were set. A later member
/// hides an earlier one of the same name.
#[derive(Debug)]
pub struct Table<V> {
    pub entries: Vec<(String, V)>,
}

/// The map that results from setting the members one after the other.
pub open spec fn table_model<V: DeepView>(entries: Seq<(String, V)>) -> Map<Seq<char>, V::V>
    decreases entries.len(),
{
    if entries.len() == 0 {
        Map::empty()
    } else {
        table_model(entries.drop_last()).insert(entries.last().0@, entries.last().1.deep_view())
    }
}

impl<V: DeepView> View for Table<V> {
    type V = Map<Seq<char>, V::V>;

    open spec fn view(&self) -> Map<Seq<char>, V::V> {
        table_model(self.entries@)
    }
}

impl<V: DeepView> DeepView for Table<V> {
    type V = Map<Seq<char>, V::V>;

    open spec fn deep_view(&self) -> Map<Seq<char>, V::V> {
        table_model(self.entries@)
    }
}

/// The names of a table are the names of its members.
pub proof fn lemma_table_dom<V: DeepView>(entries: Seq<(String, V)>, key: Seq<char>)
    ensures
        table_model(entries).dom().contains(key) <==> exists|i: int|
            0 <= i < entries.len() && (#[trigger] entries[i]).0@ == key,
    decreases entries.len(),
{
    if entries.len() > 0 {
        let rest = entries.drop_last();
        lemma_table_dom(rest, key);
        if table_model(rest).dom().contains(key) {
            let i = choose|i: int| 0 <= i < rest.len() && (#[trigger] rest[i]).0@ == key;
            assert(entries[i].0@ == key);
        }
        if exists|i: int| 0 <= i < entries.len() && (#[trigger] entries[i]).0@ == key {
            let i = choose|i: int| 0 <= i < entries.len() && (#[trigger] entries[i]).0@ == key;
            if i < rest.len() {
                assert(rest[i].0@ == key);
            }
        }
    }
}

/// The last member of a name is the one that is seen.
pub proof fn lemma_table_value<V: DeepView>(entries: Seq<(String, V)>, i: int)
    requires
        0 <= i < entries.len(),
        forall|j: int| i < j < entries.len() ==> (#[trigger] entries[j]).0@ != entries[i].0@,
    ensures
        table_model(entries).dom().contains(entries[i].0@),
        table_model(entries)[entries[i].0@] == entries[i].1.deep_view(),
    decreases entries.len(),
{
    if i < entries.len() - 1 {
        assert(entries.drop_last()[i] == entries[i]);
        assert forall|j: int| i < j < entries.drop_last().len() implies (#[trigger] entries.drop_last()[j]).0@
            != entries.drop_last()[i].0@ by {
            assert(entries.drop_last()[j] == entries[j]);
        }
        lemma_table_value(entries.drop_last(), i);
        assert(entries[entries.len() - 1].0@ != entries[i].0@);
    }
}

/// Replacing the value of the last member of a name sets that name.
pub proof fn lemma_table_update<V: DeepView>(entries: Seq<(String, V)>, i: int, value: V)
    requires
        0 <= i < entries.len(),
        forall|j: int| i < j < entries.len() ==> (#[trigger] entries[j]).0@ != entries[i].0@,
    ensures
        table_model(entries.update(i, (entries[i].0, value))) == table_model(entries).insert(
            entries[i].0@,
            value.deep_view(),
        ),
    decreases entries.len(),
{
    let after = entries.update(i, (entries[i].0, value));
    let key = entries[i].0@;
    if i == entries.len() - 1 {
        assert(after.drop_last() =~= entries.drop_last());
        assert(table_model(after) =~= table_model(entries).insert(key, value.deep_view()));
    } else {
        let rest = entries.drop_last();
        assert(rest[i] == entries[i]);
        assert forall|j: int| i < j < rest.len() implies (#[trigger] rest[j]).0@ != rest[i].0@ by {
            assert(rest[j] == entries[j]);
        }
        lemma_table_update(rest, i, value);
        assert(after.drop_last() =~= rest.update(i, (rest[i].0, value)));
        assert(after.last() == entries.last());
        assert(entries[entries.len() - 1].0@ != key);
        assert(table_model(after) =~= table_model(entries).insert(key, value.deep_view()));
    }
}

/// Whether no name occurs twice.
pub open spec fn distinct_names<V>(entries: Seq<(String, V)>) -> bool {
    forall|i: int, j: int| 0 <= i < j < entries.len() ==> (#[trigger] entries[i]).0@ != (#[trigger] entries[j]).0@
}

/// Where no name occurs twice there are as many names as members.
pub proof fn lemma_table_len<V: DeepView>(entries: Seq<(String, V)>)
    requires
        distinct_names(entries),
    ensures
        table_model(entries).dom().finite(),
        table_model(entries).dom().len() == entries.len(),
    decreases entries.len(),
{
    if entries.len() > 0 {
        let rest = entries.drop_last();
        assert forall|i: int, j: int| 0 <= i < j < rest.len() implies (#[trigger] rest[i]).0@ != (#[trigger] rest[j]).0@ by {
            assert(rest[i] == entries[i] && rest[j] == entries[j]);
        }
        lemma_table_len(rest);
        lemma_table_dom(rest, entries.last().0@);
        if table_model(rest).dom().contains(entries.last().0@) {
            let i = choose|i: int| 0 <= i < rest.len() && (#[trigger] rest[i]).0@ == entries.last().0@;
            assert(entries[i].0@ == entries[entries.len() - 1].0@);
        }
        assert(table_model(entries).dom() =~= table_model(rest).dom().insert(entries.last().0@));
    } else {
        assert(table_model(entries).dom() =~= Set::empty());
    }
}

/// Where no name occurs twice, taking a member out takes its name out.
pub proof fn lemma_table_remove<V: DeepView>(entries: Seq<(String, V)>, i: int)
    requires
        0 <= i < entries.len(),
        distinct_names(entries),
    ensures
        distinct_names(entries.remove(i)),
        table_model(entries.remove(i)) == table_model(entries).remove(entries[i].0@),
    decreases entries.len(),
{
    let after = entries.remove(i);
    let key = entries[i].0@;
    assert forall|a: int, b: int| 0 <= a < b < after.len() implies (#[trigger] after[a]).0@ != (#[trigger] after[b]).0@ by {
        let a2 = if a < i {
            a
        } else {
            a + 1
        };
        let b2 = if b < i {
            b
        } else {
            b + 1
        };
        assert(after[a] == entries[a2] && after[b] == entries[b2]);
    }
    let rest = entries.drop_last();
    if i == entries.len() - 1 {
        assert(after =~= rest);
        lemma_table_dom(rest, key);
        if table_model(rest).dom().contains(key) {
            let k = choose|k: int| 0 <= k < rest.len() && (#[trigger] rest[k]).0@ == key;
            assert(entries[k].0@ == entries[i].0@);
        }
        assert(table_model(after) =~= table_model(entries).remove(key));
    } else {
        assert forall|a: int, b: int| 0 <= a < b < rest.len() implies (#[trigger] rest[a]).0@ != (#[trigger] rest[b]).0@ by {
            assert(rest[a] == entries[a] && rest[b] == entries[b]);
        }
        assert(rest[i] == entries[i]);
        lemma_table_remove(rest, i);
        assert(after.drop_last() =~= rest.remove(i));
        assert(after.last() == entries.last());
        assert(entries[i].0@ != entries[entries.len() - 1].0@);
        assert(table_model(after) =~= table_model(entries).remove(key));
    }
}

impl<V> Table<V> {
    /// Whether no name occurs twice.
    pub open spec fn distinct(&self) -> bool {
        distinct_names(self.entries@)
    }
}

impl<V: DeepView> Table<V> {
    /// A table without members.
    pub fn new() -> (table: Self)
        ensures
            table.distinct(),
            table@ == Map::<Seq<char>, V::V>::empty(),
    {
        Table { entries: Vec::new() }
    }

    /// Whether the table has no member.
    pub fn is_empty(&self) -> (empty: bool)
        ensures
            empty == (self@ == Map::<Seq<char>, V::V>::empty()),
    {
        proof {
            if self.entries@.len() > 0 {
                let key = self.entries@.last().0@;
                assert(self@.dom().contains(key));
                assert(!Map::<Seq<char>, V::V>::empty().dom().contains(key));
            }
        }
        self.entries.len() == 0
    }

    /// The position of the member that is seen under `key`.
    fn position(&self, key: &str) -> (found: Option<usize>)
        ensures
            match found {
                Some(i) => {
                    &&& i < self.entries@.len()
                    &&& self.entries@[i as int].0@ == key@
                    &&& forall|j: int| i < j < self.entries@.len() ==> (#[trigger] self.entries@[j]).0@ != key@
                },
                None => forall|j: int| 0 <= j < self.entries@.len() ==> (#[trigger] self.entries@[j]).0@ != key@,
            },
    {
        let mut i: usize = self.entries.len();
        while i > 0
            invariant
                i <= self.entries@.len(),
                forall|j: int| i <= j < self.entries@.len() ==> (#[trigger] self.entries@[j]).0@ != key@,
            decreases i,
        {
            i -= 1;
            if str_eq(self.entries[i].0.as_str(), key) {
                return Some(i);
            }
        }
        None
    }

    /// Set the member `key` to `value`.
    pub fn insert(&mut self, key: &str, value: V)
        ensures
            old(self).distinct() ==> final(self).distinct(),
            final(self)@ == old(self)@.insert(key@, value.deep_view()),
    {
        let ghost before = self.entries@;
        match self.position(key) {
            Some(i) => {
                let old_entry = self.entries.remove(i);
                self.entries.insert(i, (old_entry.0, value));
                proof {
                    assert(self.entries@ =~= before.update(i as int, (before[i as int].0, value)));
                    lemma_table_update(before, i as int, value);
                }
            },
            None => {
                self.entries.push((key.to_owned(), value));
                assert(self.entries@.drop_last() =~= before);
            },
        }
    }

    /// The number of members.
    pub fn len(&self) -> (n: usize)
        requires
            self.distinct(),
        ensures
            n == self@.dom().len(),
            self@.dom().finite(),
    {
        proof {
            lemma_table_len(self.entries@);
        }
        self.entries.len()
    }

    /// Remove the member `key`, if there is one.
    pub fn remove(&mut self, key: &str)
        requires
            old(self).distinct(),
        ensures
            final(self).distinct(),
            final(self)@ == old(self)@.remove(key@),
    {
        let ghost before = self.entries@;
        match self.position(key) {
            Some(i) => {
                self.entries.remove(i);
                proof {
                    assert(self.entries@ =~= before.remove(i as int));
                    lemma_table_remove(before, i as int);
                }
            },
            None => {
                proof {
                    lemma_table_dom(before, key@);
                    assert(self@.remove(key@) =~= self@);
                }
            },
        }
    }

    /// The value of the member `key`.
    pub fn get(&self, key: &str) -> (found: Option<&V>)
        ensures
            match found {
                Some(value) => self@.dom().contains(key@) && self@[key@] == value.deep_view(),
                None => !self@.dom().contains(key@),
            },
    {
        match self.position(key) {
            Some(i) => {
                proof {
                    lemma_table_value(self.entries@, i as int);
                }
                Some(&self.entries[i].1)
            },
            None => {
                proof {
                    lemma_table_dom(self.entries@, key@);
                }
                None
            },
        }
    }
}

/// Values by an index, in the order in which they were set. A later value hides
/// an earlier one of the same index.
#[derive(Debug)]
pub struct IndexTable<V> {
    pub entries: Vec<(u32, V)>,
}

/// The map that results from setting the values one after the other.
pub open spec fn index_model<V: DeepView>(entries: Seq<(u32, V)>) -> Map<u32, V::V>
    decreases entries.len(),
{
    if entries.len() == 0 {
        Map::empty()
    } else {
        index_model(entries.drop_last()).insert(entries.last().0, entries.last().1.deep_view())
    }
}

impl<V: DeepView> View for IndexTable<V> {
    type V = Map<u32, V::V>;

    open spec fn view(&self) -> Map<u32, V::V> {
        index_model(self.entries@)
    }
}

impl<V: DeepView> IndexTable<V> {
    /// A table without values.
    pub fn new() -> (table: Self)
        ensures
            table@ == Map::<u32, V::V>::empty(),
    {
        IndexTable { entries: Vec::new() }
    }

    /// Set the value at an index.
    pub fn insert(&mut self, index: u32, value: V)
        ensures
            final(self)@ == old(self)@.insert(index, value.deep_view()),
    {
        let ghost before = self.entries@;
        self.entries.push((index, value));
        assert(self.entries@.drop_last() =~= before);
    }

    /// The value at an index.
    pub fn get(&self, index: u32) -> (found: Option<&V>)
        ensures
            match found {
                Some(value) => self@.dom().contains(index) && self@[index] == value.deep_view(),
                None => !self@.dom().contains(index),
            },
    {
        let mut i: usize = self.entries.len();
        assert(self.entries@.take(i as int) =~= self.entries@);
        while i > 0
            invariant
                i <= self.entries@.len(),
                index_model(self.entries@.take(i as int)).dom().contains(index) <==> self@.dom().contains(index),
                self@.dom().contains(index) ==> index_model(self.entries@.take(i as int))[index] == self@[index],
            decreases i,
        {
            let ghost prefix = self.entries@.take(i as int);
            i -= 1;
            assert(prefix.drop_last() =~= self.entries@.take(i as int));
            if self.entries[i].0 == index {
                return Some(&self.entries[i].1);
            }
        }
        None
    }
}

} // verus!
