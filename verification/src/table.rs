//! A table from names to values that keeps the order in which names came in.
use vstd::prelude::*;

verus! {

/// A table's entries, in insertion order: each a name and what it holds.
pub type Entries<T> = Seq<(Seq<char>, T)>;

/// `i` is the first place in `entries` that carries `name`.
pub open spec fn found_at<T>(entries: Entries<T>, name: Seq<char>, i: int) -> bool {
    &&& 0 <= i < entries.len()
    &&& entries[i].0 == name
    &&& forall|j: int| 0 <= j < i ==> (#[trigger] entries[j]).0 != name
}

/// No entry carries `name`.
pub open spec fn absent<T>(entries: Entries<T>, name: Seq<char>) -> bool {
    forall|j: int| 0 <= j < entries.len() ==> (#[trigger] entries[j]).0 != name
}

/// The first place that carries `name`, if there is one.
pub open spec fn position<T>(entries: Entries<T>, name: Seq<char>) -> Option<int> {
    if exists|i: int| found_at(entries, name, i) {
        Some(choose|i: int| found_at(entries, name, i))
    } else {
        None
    }
}

/// What `name` holds, if it is there.
pub open spec fn lookup<T>(entries: Entries<T>, name: Seq<char>) -> Option<T> {
    match position(entries, name) {
        Some(i) => Some(entries[i].1),
        None => None,
    }
}

/// The entries after `name` is set to `value`: an entry that is there keeps
/// its place and gets the new value, a new one goes to the end.
pub open spec fn assign<T>(entries: Entries<T>, name: Seq<char>, value: T) -> Entries<T> {
    match position(entries, name) {
        Some(i) => entries.update(i, (name, value)),
        None => entries.push((name, value)),
    }
}

/// The names, in insertion order.
pub open spec fn names<T>(entries: Entries<T>) -> Seq<Seq<char>> {
    Seq::new(entries.len(), |i: int| entries[i].0)
}

/// No name occurs twice.
pub open spec fn distinct<T>(entries: Entries<T>) -> bool {
    forall|i: int, j: int|
        0 <= i < j < entries.len() ==> (#[trigger] entries[i]).0 != (#[trigger] entries[j]).0
}

/// A first place is the only first place.
pub proof fn lemma_found_position<T>(entries: Entries<T>, name: Seq<char>, i: int)
    requires
        found_at(entries, name, i),
    ensures
        position(entries, name) == Some(i),
{
}

/// Where no entry carries the name, there is no place for it.
pub proof fn lemma_absent_position<T>(entries: Entries<T>, name: Seq<char>)
    requires
        absent(entries, name),
    ensures
        position(entries, name).is_none(),
{
}

/// Whatever the entries, a name is either absent or has a first place.
pub proof fn lemma_position_cases<T>(entries: Entries<T>, name: Seq<char>)
    ensures
        match position(entries, name) {
            Some(i) => found_at(entries, name, i),
            None => absent(entries, name),
        },
    decreases entries.len(),
{
    if !absent(entries, name) {
        let j = choose|j: int| 0 <= j < entries.len() && (#[trigger] entries[j]).0 == name;
        lemma_first_exists(entries, name, j);
    }
}

proof fn lemma_first_exists<T>(entries: Entries<T>, name: Seq<char>, j: int)
    requires
        0 <= j < entries.len(),
        entries[j].0 == name,
    ensures
        exists|i: int| found_at(entries, name, i),
    decreases j,
{
    if forall|k: int| 0 <= k < j ==> (#[trigger] entries[k]).0 != name {
        assert(found_at(entries, name, j));
    } else {
        let k = choose|k: int| 0 <= k < j && (#[trigger] entries[k]).0 == name;
        lemma_first_exists(entries, name, k);
    }
}

/// After a name is set it holds the new value, at the place the name had if
/// it was there and at the end if it was not.
pub proof fn lemma_assign_same<T>(entries: Entries<T>, name: Seq<char>, value: T)
    ensures
        lookup(assign(entries, name, value), name) == Some(value),
        match position(entries, name) {
            Some(i) => position(assign(entries, name, value), name) == Some(i) && assign(
                entries,
                name,
                value,
            ).len() == entries.len(),
            None => position(assign(entries, name, value), name) == Some(entries.len() as int)
                && assign(entries, name, value).len() == entries.len() + 1,
        },
{
    let after = assign(entries, name, value);
    lemma_position_cases(entries, name);
    match position(entries, name) {
        Some(i) => {
            lemma_found_position(after, name, i);
        },
        None => {
            lemma_found_position(after, name, entries.len() as int);
        },
    }
}

/// Setting a name keeps the names distinct: no name ever occurs twice in a
/// table that was filled by setting names.
pub proof fn lemma_assign_distinct<T>(entries: Entries<T>, name: Seq<char>, value: T)
    requires
        distinct(entries),
    ensures
        distinct(assign(entries, name, value)),
{
    let after = assign(entries, name, value);
    lemma_position_cases(entries, name);
}

/// Setting one name leaves what every other name holds.
pub proof fn lemma_assign_other<T>(
    entries: Entries<T>,
    name: Seq<char>,
    value: T,
    other: Seq<char>,
)
    requires
        other != name,
    ensures
        lookup(assign(entries, name, value), other) == lookup(entries, other),
        position(assign(entries, name, value), other) == position(entries, other),
{
    let after = assign(entries, name, value);
    lemma_position_cases(entries, other);
    match position(entries, other) {
        Some(k) => {
            lemma_found_position(after, other, k);
        },
        None => {
            lemma_absent_position(after, other);
        },
    }
}

/// Two tables that carry the same names in the same places find a name at
/// the same place.
pub proof fn lemma_same_names<A, B>(a: Entries<A>, b: Entries<B>, name: Seq<char>)
    requires
        a.len() == b.len(),
        forall|i: int| 0 <= i < a.len() ==> (#[trigger] a[i]).0 == b[i].0,
    ensures
        position(a, name) == position(b, name),
{
    lemma_position_cases(a, name);
    match position(a, name) {
        Some(k) => {
            assert forall|j: int| 0 <= j < k implies (#[trigger] b[j]).0 != name by {
                assert(a[j].0 == b[j].0);
            }
            lemma_found_position(b, name, k);
        },
        None => {
            assert forall|j: int| 0 <= j < b.len() implies (#[trigger] b[j]).0 != name by {
                assert(a[j].0 == b[j].0);
            }
        },
    }
}

/// An insertion-ordered table from names to values of type `V`.
#[derive(Debug, Clone)]
pub struct Table<V> {
    /// Each name with what it holds, in the order the names came in.
    pub entries: Vec<(String, V)>,
}

impl<V> Table<V> {
    /// The entries, names by their characters.
    pub open spec fn entries(&self) -> Entries<V> {
        Seq::new(self.entries@.len(), |i: int| (self.entries@[i].0@, self.entries@[i].1))
    }

    /// An empty table.
    pub fn new() -> (r: Self)
        ensures
            r.entries() == Seq::<(Seq<char>, V)>::empty(),
            distinct(r.entries()),
    {
        Table { entries: Vec::new() }
    }

    /// How many names the table holds.
    pub fn len(&self) -> (r: usize)
        ensures
            r == self.entries().len(),
    {
        self.entries.len()
    }

    /// The first place that carries `name`.
    pub fn find(&self, name: &String) -> (r: Option<usize>)
        ensures
            match r {
                Some(i) => position(self.entries(), name@) == Some(i as int),
                None => position(self.entries(), name@).is_none(),
            },
    {
        let mut i: usize = 0;
        while i < self.entries.len()
            invariant
                i <= self.entries.len(),
                forall|j: int| 0 <= j < i ==> (#[trigger] self.entries()[j]).0 != name@,
            decreases self.entries.len() - i,
        {
            if self.entries[i].0 == *name {
                proof {
                    lemma_found_position(self.entries(), name@, i as int);
                }
                return Some(i);
            }
            i += 1;
        }
        None
    }

    /// What `name` holds; `None` where the name is not there, which differs
    /// from a name that holds an empty value.
    pub fn get(&self, name: &String) -> (r: Option<&V>)
        ensures
            match r {
                Some(v) => lookup(self.entries(), name@) == Some(*v),
                None => lookup(self.entries(), name@).is_none(),
            },
    {
        match self.find(name) {
            Some(i) => {
                Some(&self.entries[i].1)
            },
            None => None,
        }
    }

    /// Sets `name` to `value`. A name that is there keeps its place.
    pub fn set(&mut self, name: String, value: V)
        ensures
            final(self).entries() == assign(old(self).entries(), name@, value),
            distinct(old(self).entries()) ==> distinct(final(self).entries()),
    {
        proof {
            if distinct(self.entries()) {
                lemma_assign_distinct(self.entries(), name@, value);
            }
        }
        match self.find(&name) {
            Some(i) => {
                self.entries.set(i, (name, value));
                assert(self.entries() =~= assign(old(self).entries(), name@, value));
            },
            None => {
                self.entries.push((name, value));
                assert(self.entries() =~= assign(old(self).entries(), name@, value));
            },
        }
    }

    /// The names in insertion order.
    pub fn keys(&self) -> (r: Vec<String>)
        ensures
            r@.len() == names(self.entries()).len(),
            forall|i: int| 0 <= i < r@.len() ==> (#[trigger] r@[i])@ == names(self.entries())[i],
    {
        let mut out: Vec<String> = Vec::new();
        let mut i: usize = 0;
        while i < self.entries.len()
            invariant
                i <= self.entries.len(),
                out@.len() == i,
                forall|j: int| 0 <= j < i ==> (#[trigger] out@[j])@ == self.entries()[j].0,
            decreases self.entries.len() - i,
        {
            out.push(self.entries[i].0.clone());
            i += 1;
        }
        out
    }
}

} // verus!
