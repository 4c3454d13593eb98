//! Values by name.

use vstd::prelude::*;
use crate::text::same;

verus! {

/// A value for each of some names, in the order in which the names came.
#[derive(Debug)]
pub struct Named<T> {
    entries: Vec<(String, T)>,
}

/// The value that stands first for a name.
pub open spec fn lookup<T>(entries: Seq<(String, T)>, key: Seq<char>) -> Option<T>
    decreases entries.len(),
{
    if entries.len() == 0 {
        None
    } else if entries[0].0@ == key {
        Some(entries[0].1)
    } else {
        lookup(entries.drop_first(), key)
    }
}

/// No name stands twice in a list.
pub open spec fn names_distinct<T>(entries: Seq<(String, T)>) -> bool {
    forall|i: int, j: int|
        0 <= i < j < entries.len() ==> (#[trigger] entries[i]).0@ != (#[trigger] entries[j]).0@
}

impl<T> View for Named<T> {
    type V = Map<Seq<char>, T>;

    open spec fn view(&self) -> Map<Seq<char>, T> {
        Map::new(
            |key: Seq<char>| lookup(self.list(), key) is Some,
            |key: Seq<char>| lookup(self.list(), key)->0,
        )
    }
}

/// Where a name stands first; behind all others if it does not stand there.
pub open spec fn name_index<T>(entries: Seq<(String, T)>, key: Seq<char>) -> int
    decreases entries.len(),
{
    if entries.len() == 0 || entries[0].0@ == key {
        0
    } else {
        1 + name_index(entries.drop_first(), key)
    }
}

/// The entries with a value for a name in place of the one it may have. A new name comes last.
pub open spec fn with_entry<T>(entries: Seq<(String, T)>, key: String, value: T) -> Seq<(String, T)> {
    let i = name_index(entries, key@);
    if i < entries.len() {
        entries.update(i, (key, value))
    } else {
        entries.push((key, value))
    }
}

/// The entries without that of a name.
pub open spec fn without_entry<T>(entries: Seq<(String, T)>, key: Seq<char>) -> Seq<(String, T)> {
    let i = name_index(entries, key);
    if i < entries.len() {
        entries.remove(i)
    } else {
        entries
    }
}

/// What stands first for a name stands at its place.
pub proof fn lemma_name_index<T>(entries: Seq<(String, T)>, key: Seq<char>)
    ensures
        0 <= name_index(entries, key) <= entries.len(),
        name_index(entries, key) < entries.len() ==> entries[name_index(entries, key)].0@ == key
            && lookup(entries, key) == Some(entries[name_index(entries, key)].1),
        name_index(entries, key) == entries.len() ==> lookup(entries, key) is None,
        forall|i: int| 0 <= i < name_index(entries, key) ==> (#[trigger] entries[i]).0@ != key,
    decreases entries.len(),
{
    if entries.len() > 0 && entries[0].0@ != key {
        let rest = entries.drop_first();
        lemma_name_index(rest, key);
        assert forall|i: int| 0 <= i < name_index(entries, key) implies (#[trigger] entries[i]).0@
            != key by {
            if i > 0 {
                assert(rest[i - 1] == entries[i]);
            }
        }
    }
}

/// In lists of the same names, a name stands at the same place.
pub proof fn lemma_same_names<T, U>(a: Seq<(String, T)>, b: Seq<(String, U)>, key: Seq<char>)
    requires
        a.len() == b.len(),
        forall|i: int| 0 <= i < a.len() ==> (#[trigger] a[i]).0@ == b[i].0@,
    ensures
        name_index(a, key) == name_index(b, key),
        lookup(a, key) is Some <==> lookup(b, key) is Some,
    decreases a.len(),
{
    if a.len() > 0 {
        assert(a[0].0@ == b[0].0@);
        assert forall|i: int| 0 <= i < a.drop_first().len() implies (
        #[trigger] a.drop_first()[i]).0@ == b.drop_first()[i].0@ by {
            assert(a[i + 1].0@ == b[i + 1].0@);
        }
        lemma_same_names(a.drop_first(), b.drop_first(), key);
    }
}

/// In a list without a name twice, every entry is what stands for its name.
pub proof fn lemma_entries_are_found<T>(entries: Seq<(String, T)>, i: int)
    requires
        names_distinct(entries),
        0 <= i < entries.len(),
    ensures
        lookup(entries, entries[i].0@) == Some(entries[i].1),
        name_index(entries, entries[i].0@) == i,
{
    let key = entries[i].0@;
    lemma_name_index(entries, key);
    lemma_lookup(entries, key, i);
    if name_index(entries, key) < i {
        assert(entries[name_index(entries, key)].0@ != entries[i].0@);
    }
}

proof fn lemma_lookup<T>(entries: Seq<(String, T)>, key: Seq<char>, i: int)
    requires
        names_distinct(entries),
        0 <= i < entries.len(),
        entries[i].0@ == key,
    ensures
        lookup(entries, key) == Some(entries[i].1),
    decreases i,
{
    if i > 0 {
        assert(entries[0].0@ != entries[i].0@);
        let rest = entries.drop_first();
        assert forall|a: int, b: int| 0 <= a < b < rest.len() implies (#[trigger] rest[a]).0@ != (
        #[trigger] rest[b]).0@ by {
            assert(entries[a + 1].0@ != entries[b + 1].0@);
        }
        lemma_lookup(rest, key, i - 1);
    }
}

proof fn lemma_lookup_none<T>(entries: Seq<(String, T)>, key: Seq<char>)
    requires
        forall|i: int| 0 <= i < entries.len() ==> (#[trigger] entries[i]).0@ != key,
    ensures
        lookup(entries, key) is None,
    decreases entries.len(),
{
    if entries.len() > 0 {
        assert(entries[0].0@ != key);
        let rest = entries.drop_first();
        assert forall|i: int| 0 <= i < rest.len() implies (#[trigger] rest[i]).0@ != key by {
            assert(rest[i] == entries[i + 1]);
        }
        lemma_lookup_none(rest, key);
    }
}

/// What is looked up is one of the entries.
pub proof fn lemma_lookup_found<T>(entries: Seq<(String, T)>, key: Seq<char>)
    ensures
        lookup(entries, key) matches Some(v) ==> exists|i: int|
            0 <= i < entries.len() && (#[trigger] entries[i]).0@ == key && entries[i].1 == v,
        lookup(entries, key) is None ==> forall|i: int|
            0 <= i < entries.len() ==> (#[trigger] entries[i]).0@ != key,
    decreases entries.len(),
{
    if entries.len() > 0 {
        let rest = entries.drop_first();
        if entries[0].0@ != key {
            lemma_lookup_found(rest, key);
            if lookup(rest, key) is Some {
                let i = choose|i: int|
                    0 <= i < rest.len() && (#[trigger] rest[i]).0@ == key && rest[i].1 == lookup(
                        rest,
                        key,
                    )->0;
                assert(entries[i + 1] == rest[i]);
            } else {
                assert forall|i: int| 0 <= i < entries.len() implies (#[trigger] entries[i]).0@
                    != key by {
                    if i > 0 {
                        assert(rest[i - 1] == entries[i]);
                    }
                }
            }
        } else {
            assert(entries[0].0@ == key);
        }
    }
}

impl<T> Named<T> {
    #[verifier::type_invariant]
    spec fn inv(self) -> bool {
        names_distinct(self.entries@)
    }

    /// The entries, in the order in which the names came.
    pub closed spec fn list(self) -> Seq<(String, T)> {
        self.entries@
    }

    /// There is no name.
    pub fn new() -> (r: Named<T>)
        ensures
            r@ == Map::<Seq<char>, T>::empty(),
            r.list() == Seq::<(String, T)>::empty(),
    {
        let r = Named { entries: Vec::new() };
        assert(r@ =~= Map::<Seq<char>, T>::empty());
        r
    }

    /// The number of names.
    pub fn len(&self) -> (r: usize)
        ensures
            r == self.list().len(),
            names_distinct(self.list()),
    {
        proof {
            use_type_invariant(self);
        }
        self.entries.len()
    }

    /// The name and the value at a position.
    pub fn at(&self, i: usize) -> (r: &(String, T))
        requires
            i < self.list().len(),
        ensures
            *r == self.list()[i as int],
            self@.dom().contains(r.0@),
            self@[r.0@] == r.1,
            names_distinct(self.list()),
    {
        proof {
            use_type_invariant(self);
            lemma_lookup(self.entries@, self.entries@[i as int].0@, i as int);
        }
        &self.entries[i]
    }

    fn find(&self, key: &str) -> (r: usize)
        ensures
            r <= self.entries@.len(),
            r == name_index(self.entries@, key@),
            r < self.entries@.len() ==> self.entries@[r as int].0@ == key@ && lookup(
                self.entries@,
                key@,
            ) == Some(self.entries@[r as int].1),
            r == self.entries@.len() ==> lookup(self.entries@, key@) is None && forall|i: int|
                0 <= i < self.entries@.len() ==> (#[trigger] self.entries@[i]).0@ != key@,
    {
        proof {
            use_type_invariant(self);
        }
        let mut i: usize = 0;
        while i < self.entries.len()
            invariant
                i <= self.entries@.len(),
                names_distinct(self.entries@),
                forall|j: int| 0 <= j < i ==> (#[trigger] self.entries@[j]).0@ != key@,
            decreases self.entries@.len() - i,
        {
            if same(self.entries[i].0.as_str(), key) {
                proof {
                    lemma_lookup(self.entries@, key@, i as int);
                    lemma_entries_are_found(self.entries@, i as int);
                }
                return i;
            }
            i = i + 1;
        }
        proof {
            lemma_lookup_none(self.entries@, key@);
            lemma_name_index(self.entries@, key@);
        }
        i
    }

    /// The value for a name.
    pub fn get(&self, key: &str) -> (r: Option<&T>)
        ensures
            match r {
                Some(v) => self@.dom().contains(key@) && self@[key@] == *v,
                None => !self@.dom().contains(key@),
            },
    {
        let i = self.find(key);
        if i < self.entries.len() {
            Some(&self.entries[i].1)
        } else {
            None
        }
    }

    /// Whether a name has a value.
    pub fn contains_key(&self, key: &str) -> (r: bool)
        ensures
            r == self@.dom().contains(key@),
    {
        self.get(key).is_some()
    }

    /// Gives a name a value, in place of the one it may have.
    pub fn insert(&mut self, key: String, value: T)
        ensures
            final(self)@ == old(self)@.insert(key@, value),
            final(self).list() == with_entry(old(self).list(), key, value),
    {
        proof {
            use_type_invariant(&*self);
        }
        let ghost map = self@;
        let i = self.find(key.as_str());
        let mut entries: Vec<(String, T)> = Vec::new();
        std::mem::swap(&mut entries, &mut self.entries);
        let ghost before = entries@;
        if i < entries.len() {
            entries.set(i, (key, value));
        } else {
            entries.push((key, value));
        }
        proof {
            let after = entries@;
            assert(names_distinct(after));
            lemma_lookup(after, key@, i as int);
            assert forall|other: Seq<char>| other != key@ implies #[trigger] lookup(after, other)
                == lookup(before, other) by {
                lemma_lookup_found(before, other);
                if lookup(before, other) is Some {
                    let k = choose|k: int|
                        0 <= k < before.len() && (#[trigger] before[k]).0@ == other && before[k].1
                            == lookup(before, other)->0;
                    assert(after[k] == before[k]);
                    lemma_lookup(after, other, k);
                } else {
                    assert forall|k: int| 0 <= k < after.len() implies (#[trigger] after[k]).0@
                        != other by {
                        if k < before.len() {
                            assert(before[k].0@ != other);
                        }
                    }
                    lemma_lookup_none(after, other);
                }
            }
        }
        self.entries = entries;
        assert(self@ =~= map.insert(key@, value));
    }

    /// Gives a name that is new a value, after all others.
    pub fn append(&mut self, key: String, value: T)
        requires
            forall|k: int|
                0 <= k < old(self).list().len() ==> (#[trigger] old(self).list()[k]).0@ != key@,
        ensures
            final(self)@ == old(self)@.insert(key@, value),
            final(self).list() == old(self).list().push((key, value)),
    {
        proof {
            use_type_invariant(&*self);
        }
        let ghost map = self@;
        let mut entries: Vec<(String, T)> = Vec::new();
        std::mem::swap(&mut entries, &mut self.entries);
        let ghost before = entries@;
        entries.push((key, value));
        proof {
            let after = entries@;
            assert forall|i: int, j: int| 0 <= i < j < after.len() implies (
            #[trigger] after[i]).0@ != (#[trigger] after[j]).0@ by {
                assert(old(self).list()[i] == before[i]);
                if j < before.len() {
                    assert(before[i].0@ != before[j].0@);
                }
            }
            lemma_lookup(after, key@, before.len() as int);
            assert forall|other: Seq<char>| other != key@ implies #[trigger] lookup(after, other)
                == lookup(before, other) by {
                lemma_lookup_found(before, other);
                if lookup(before, other) is Some {
                    let k = choose|k: int|
                        0 <= k < before.len() && (#[trigger] before[k]).0@ == other && before[k].1
                            == lookup(before, other)->0;
                    assert(after[k] == before[k]);
                    lemma_lookup(after, other, k);
                } else {
                    assert forall|k: int| 0 <= k < after.len() implies (#[trigger] after[k]).0@
                        != other by {
                        if k < before.len() {
                            assert(before[k].0@ != other);
                        }
                    }
                    lemma_lookup_none(after, other);
                }
            }
        }
        self.entries = entries;
        assert(self@ =~= map.insert(key@, value));
    }

    /// Takes away the value of a name.
    pub fn remove(&mut self, key: &str) -> (r: Option<T>)
        ensures
            final(self)@ == old(self)@.remove(key@),
            final(self).list() == without_entry(old(self).list(), key@),
            match r {
                Some(v) => old(self)@.dom().contains(key@) && old(self)@[key@] == v,
                None => !old(self)@.dom().contains(key@),
            },
    {
        proof {
            use_type_invariant(&*self);
        }
        let ghost map = self@;
        let i = self.find(key);
        if i >= self.entries.len() {
            assert(self@ =~= map.remove(key@));
            return None;
        }
        let mut entries: Vec<(String, T)> = Vec::new();
        std::mem::swap(&mut entries, &mut self.entries);
        let ghost before = entries@;
        let taken = entries.remove(i);
        proof {
            let after = entries@;
            assert forall|a: int, b: int| 0 <= a < b < after.len() implies (
            #[trigger] after[a]).0@ != (#[trigger] after[b]).0@ by {
                let x = if a < i {
                    a
                } else {
                    a + 1
                };
                let y = if b < i {
                    b
                } else {
                    b + 1
                };
                assert(before[x].0@ != before[y].0@);
            }
            assert forall|k: int| 0 <= k < after.len() implies (#[trigger] after[k]).0@ != key@ by {
                let x = if k < i {
                    k
                } else {
                    k + 1
                };
                if x < i {
                    assert(before[x].0@ != before[i as int].0@);
                } else {
                    assert(before[i as int].0@ != before[x].0@);
                }
            }
            lemma_lookup_none(after, key@);
            assert forall|other: Seq<char>| other != key@ implies #[trigger] lookup(after, other)
                == lookup(before, other) by {
                lemma_lookup_found(before, other);
                if lookup(before, other) is Some {
                    let k = choose|k: int|
                        0 <= k < before.len() && (#[trigger] before[k]).0@ == other && before[k].1
                            == lookup(before, other)->0;
                    let x = if k < i {
                        k
                    } else {
                        k - 1
                    };
                    assert(after[x] == before[k]);
                    lemma_lookup(after, other, x);
                } else {
                    assert forall|k: int| 0 <= k < after.len() implies (#[trigger] after[k]).0@
                        != other by {
                        let x = if k < i {
                            k
                        } else {
                            k + 1
                        };
                        assert(before[x].0@ != other);
                    }
                    lemma_lookup_none(after, other);
                }
            }
        }
        self.entries = entries;
        assert(self@ =~= map.remove(key@));
        Some(taken.1)
    }

    /// The names with their values, in the order in which they came.
    pub fn into_entries(self) -> (r: Vec<(String, T)>)
        ensures
            r@ == self.list(),
            names_distinct(r@),
    {
        proof {
            use_type_invariant(&self);
        }
        self.entries
    }

    /// The names, in the order in which they came.
    pub fn names(&self) -> (r: Vec<String>)
        ensures
            r@.len() == self.list().len(),
            forall|i: int| 0 <= i < r@.len() ==> (#[trigger] r@[i]) == self.list()[i].0,
            forall|key: Seq<char>|
                self@.dom().contains(key) <==> crate::text::views(r@).contains(key),
            crate::text::views(r@).no_duplicates(),
    {
        let mut r: Vec<String> = Vec::new();
        let mut i: usize = 0;
        while i < self.entries.len()
            invariant
                i <= self.entries@.len(),
                r@.len() == i,
                forall|k: int| 0 <= k < i ==> (#[trigger] r@[k]) == self.entries@[k].0,
            decreases self.entries@.len() - i,
        {
            r.push(self.entries[i].0.clone());
            i = i + 1;
        }
        proof {
            use_type_invariant(self);
            let list = crate::text::views(r@);
            assert forall|a: int, b: int| 0 <= a < b < list.len() implies list[a] != list[b] by {
                assert(self.entries@[a].0@ != self.entries@[b].0@);
            }
            assert forall|key: Seq<char>| self@.dom().contains(key) <==> list.contains(key) by {
                lemma_lookup_found(self.entries@, key);
                if self@.dom().contains(key) {
                    let k = choose|k: int|
                        0 <= k < self.entries@.len() && (#[trigger] self.entries@[k]).0@ == key
                            && self.entries@[k].1 == lookup(self.entries@, key)->0;
                    assert(list[k] == key);
                }
                if list.contains(key) {
                    let k = choose|k: int| 0 <= k < list.len() && list[k] == key;
                    assert(self.entries@[k].0@ == key);
                }
            }
        }
        r
    }
}

/// A value that is put under a new name comes last; under a known name it takes the place of the
/// old. All others stay where they are.
pub proof fn entries_keep_their_places<T>(entries: Seq<(String, T)>, key: String, value: T, i: int)
    requires
        names_distinct(entries),
        0 <= i < entries.len(),
    ensures
        entries[i].0@ != key@ ==> with_entry(entries, key, value)[i] == entries[i],
        entries[i].0@ == key@ ==> with_entry(entries, key, value) == entries.update(i, (key, value)),
        entries[i].0@ == key@ ==> without_entry(entries, key@) == entries.remove(i),
        (forall|k: int| 0 <= k < entries.len() ==> (#[trigger] entries[k]).0@ != key@) ==> with_entry(
            entries,
            key,
            value,
        ) == entries.push((key, value)) && without_entry(entries, key@) == entries,
{
    lemma_name_index(entries, key@);
    let n = name_index(entries, key@);
    if n < entries.len() && entries[i].0@ == key@ {
        lemma_entries_are_found(entries, i);
    }
}

} // verus!
