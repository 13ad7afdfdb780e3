use vstd::prelude::*;

verus! {

/// A finite map keyed by text, kept as a list of entries with distinct keys.
///
/// Its view is the mathematical map from each key's characters to the view
/// of the value stored under it.
#[derive(Debug, PartialEq, Eq)]
pub struct StrMap<V> {
    entries: Vec<(String, V)>,
}

/// Entry `i` of `entries` is stored under `key`.
spec fn keyed_at<V>(entries: Seq<(String, V)>, key: Seq<char>, i: int) -> bool {
    0 <= i < entries.len() && entries[i].0@ == key
}

/// No two entries share a key.
spec fn keys_distinct<V>(entries: Seq<(String, V)>) -> bool {
    forall|i: int, j: int|
        0 <= i < entries.len() && 0 <= j < entries.len() && i != j ==> #[trigger] entries[i].0@
            != #[trigger] entries[j].0@
}

/// The map that a list of entries stands for.
spec fn entries_map<V: View>(entries: Seq<(String, V)>) -> Map<Seq<char>, V::V> {
    Map::new(
        |k: Seq<char>| exists|i: int| keyed_at(entries, k, i),
        |k: Seq<char>| entries[choose|i: int| keyed_at(entries, k, i)].1@,
    )
}

proof fn lemma_entry_in_map<V: View>(entries: Seq<(String, V)>, i: int)
    requires
        keys_distinct(entries),
        0 <= i < entries.len(),
    ensures
        entries_map(entries).contains_key(entries[i].0@),
        entries_map(entries)[entries[i].0@] == entries[i].1@,
{
    let k = entries[i].0@;
    assert(keyed_at(entries, k, i));
    let j = choose|j: int| keyed_at(entries, k, j);
    assert(j == i);
}

proof fn lemma_absent_key<V: View>(entries: Seq<(String, V)>, key: Seq<char>)
    requires
        forall|i: int| 0 <= i < entries.len() ==> (#[trigger] entries[i]).0@ != key,
    ensures
        !entries_map(entries).contains_key(key),
{
    if entries_map(entries).contains_key(key) {
        let j = choose|j: int| keyed_at(entries, key, j);
        assert(entries[j].0@ == key);
    }
}

impl<V: View> View for StrMap<V> {
    type V = Map<Seq<char>, V::V>;

    closed spec fn view(&self) -> Map<Seq<char>, V::V> {
        entries_map(self.entries@)
    }
}

impl<V> StrMap<V> {
    #[verifier::type_invariant]
    spec fn well_formed(self) -> bool {
        keys_distinct(self.entries@)
    }
}

/// A value that can be copied without a change in what it says.
pub trait Duplicate: View + Sized {
    /// A copy with the same view.
    fn duplicate(&self) -> (copy: Self)
        ensures
            copy@ == self@,
    ;
}

impl Duplicate for u32 {
    fn duplicate(&self) -> (copy: Self) {
        *self
    }
}

impl Duplicate for () {
    fn duplicate(&self) -> (copy: Self) {
        ()
    }
}

proof fn lemma_same_entries<V: View>(a: Seq<(String, V)>, b: Seq<(String, V)>)
    requires
        keys_distinct(a),
        a.len() == b.len(),
        forall|i: int|
            0 <= i < a.len() ==> (#[trigger] b[i]).0@ == a[i].0@ && b[i].1@ == a[i].1@,
    ensures
        keys_distinct(b),
        entries_map(b) == entries_map(a),
{
    assert(keys_distinct(b)) by {
        assert forall|i: int, j: int|
            0 <= i < b.len() && 0 <= j < b.len() && i != j implies #[trigger] b[i].0@
            != #[trigger] b[j].0@ by {
            assert(b[i].0@ == a[i].0@);
            assert(b[j].0@ == a[j].0@);
        }
    }
    assert forall|k: Seq<char>|
        entries_map(b).contains_key(k) <==> #[trigger] entries_map(a).contains_key(k) by {
        if entries_map(b).contains_key(k) {
            let j = choose|j: int| keyed_at(b, k, j);
            assert(keyed_at(a, k, j));
        }
        if entries_map(a).contains_key(k) {
            let j = choose|j: int| keyed_at(a, k, j);
            assert(b[j].0@ == a[j].0@);
            assert(keyed_at(b, k, j));
        }
    }
    assert forall|k: Seq<char>| #[trigger] entries_map(b).contains_key(k) implies entries_map(b)[k]
        == entries_map(a)[k] by {
        let j = choose|j: int| keyed_at(b, k, j);
        lemma_entry_in_map(b, j);
        lemma_entry_in_map(a, j);
    }
    assert(entries_map(b) =~= entries_map(a));
}

impl<V: Duplicate> Clone for StrMap<V> {
    fn clone(&self) -> (copy: Self)
        ensures
            copy@ == self@,
    {
        proof {
            use_type_invariant(self);
        }
        let mut entries: Vec<(String, V)> = Vec::new();
        let mut i: usize = 0;
        while i < self.entries.len()
            invariant
                i <= self.entries@.len(),
                entries@.len() == i,
                forall|j: int|
                    0 <= j < i ==> (#[trigger] entries@[j]).0@ == self.entries@[j].0@
                        && entries@[j].1@ == self.entries@[j].1@,
            decreases self.entries@.len() - i,
        {
            let key = self.entries[i].0.clone();
            let value = self.entries[i].1.duplicate();
            entries.push((key, value));
            i = i + 1;
        }
        proof {
            lemma_same_entries(self.entries@, entries@);
        }
        StrMap { entries }
    }
}

impl<V: Duplicate> Duplicate for StrMap<V> {
    fn duplicate(&self) -> (copy: Self) {
        self.clone()
    }
}

impl<V: View> StrMap<V> {
    /// The empty map.
    pub fn new() -> (map: Self)
        ensures
            map@ == Map::<Seq<char>, V::V>::empty(),
    {
        let map = StrMap { entries: Vec::new() };
        proof {
            lemma_absent_all::<V>(map.entries@);
            assert(map@ =~= Map::<Seq<char>, V::V>::empty());
        }
        map
    }

    /// The position of `key` among the entries, if it is present.
    fn position(&self, key: &String) -> (found: Option<usize>)
        ensures
            match found {
                Some(i) => keyed_at(self.entries@, key@, i as int),
                None => forall|i: int|
                    0 <= i < self.entries@.len() ==> (#[trigger] self.entries@[i]).0@ != key@,
            },
    {
        let mut i: usize = 0;
        while i < self.entries.len()
            invariant
                i <= self.entries@.len(),
                forall|j: int| 0 <= j < i ==> (#[trigger] self.entries@[j]).0@ != key@,
            decreases self.entries@.len() - i,
        {
            if self.entries[i].0 == *key {
                return Some(i);
            }
            i = i + 1;
        }
        None
    }

    /// Whether `key` has a value.
    pub fn contains_key(&self, key: &String) -> (present: bool)
        ensures
            present == self@.contains_key(key@),
    {
        proof {
            use_type_invariant(self);
        }
        match self.position(key) {
            Some(i) => {
                proof {
                    lemma_entry_in_map(self.entries@, i as int);
                }
                true
            },
            None => {
                proof {
                    lemma_absent_key(self.entries@, key@);
                }
                false
            },
        }
    }

    /// The value stored under `key`, if any.
    pub fn get(&self, key: &String) -> (value: Option<&V>)
        ensures
            match value {
                Some(v) => self@.contains_key(key@) && v@ == self@[key@],
                None => !self@.contains_key(key@),
            },
    {
        proof {
            use_type_invariant(self);
        }
        match self.position(key) {
            Some(i) => {
                proof {
                    lemma_entry_in_map(self.entries@, i as int);
                }
                Some(&self.entries[i].1)
            },
            None => {
                proof {
                    lemma_absent_key(self.entries@, key@);
                }
                None
            },
        }
    }

    /// Stores `value` under `key`, replacing what was stored there.
    pub fn insert(&mut self, key: String, value: V)
        ensures
            final(self)@ == old(self)@.insert(key@, value@),
    {
        proof {
            use_type_invariant(&*self);
        }
        let found = self.position(&key);
        let mut entries: Vec<(String, V)> = Vec::new();
        std::mem::swap(&mut entries, &mut self.entries);
        match found {
            Some(i) => {
                proof {
                    lemma_replace_entry(entries@, i as int, (key, value));
                }
                entries.set(i, (key, value));
            },
            None => {
                proof {
                    lemma_push_entry(entries@, (key, value));
                }
                entries.push((key, value));
            },
        }
        self.entries = entries;
    }

    /// Removes `key` and hands back what was stored under it.
    pub fn remove(&mut self, key: &String) -> (removed: Option<V>)
        ensures
            final(self)@ == old(self)@.remove(key@),
            match removed {
                Some(v) => old(self)@.contains_key(key@) && v@ == old(self)@[key@],
                None => !old(self)@.contains_key(key@),
            },
    {
        proof {
            use_type_invariant(&*self);
        }
        match self.position(key) {
            Some(i) => {
                let mut entries: Vec<(String, V)> = Vec::new();
                std::mem::swap(&mut entries, &mut self.entries);
                proof {
                    lemma_entry_in_map(entries@, i as int);
                    lemma_swap_remove_entry(entries@, i as int);
                }
                let entry = entries.swap_remove(i);
                self.entries = entries;
                Some(entry.1)
            },
            None => {
                proof {
                    lemma_absent_key(self.entries@, key@);
                    assert(self@.remove(key@) =~= self@);
                }
                None
            },
        }
    }

    /// The keys of the map, each of them once.
    pub fn keys(&self) -> (keys: Vec<String>)
        ensures
            forall|k: Seq<char>|
                self@.contains_key(k) <==> exists|i: int|
                    0 <= i < keys@.len() && (#[trigger] keys@[i])@ == k,
            forall|i: int, j: int|
                0 <= i < keys@.len() && 0 <= j < keys@.len() && i != j ==> (#[trigger] keys@[i])@
                    != (#[trigger] keys@[j])@,
    {
        proof {
            use_type_invariant(self);
        }
        let mut keys: Vec<String> = Vec::new();
        let mut i: usize = 0;
        while i < self.entries.len()
            invariant
                i <= self.entries@.len(),
                keys@.len() == i,
                forall|j: int| 0 <= j < i ==> (#[trigger] keys@[j])@ == self.entries@[j].0@,
            decreases self.entries@.len() - i,
        {
            keys.push(self.entries[i].0.clone());
            i = i + 1;
        }
        proof {
            assert forall|k: Seq<char>|
                self@.contains_key(k) <==> exists|i: int|
                    0 <= i < keys@.len() && (#[trigger] keys@[i])@ == k by {
                if self@.contains_key(k) {
                    let j = choose|j: int| keyed_at(self.entries@, k, j);
                    assert(keys@[j]@ == k);
                }
                if exists|i: int| 0 <= i < keys@.len() && (#[trigger] keys@[i])@ == k {
                    let j = choose|j: int| 0 <= j < keys@.len() && (#[trigger] keys@[j])@ == k;
                    assert(keyed_at(self.entries@, k, j));
                }
            }
        }
        keys
    }
}

proof fn lemma_push_entry<V: View>(entries: Seq<(String, V)>, entry: (String, V))
    requires
        keys_distinct(entries),
        forall|i: int| 0 <= i < entries.len() ==> (#[trigger] entries[i]).0@ != entry.0@,
    ensures
        keys_distinct(entries.push(entry)),
        entries_map(entries.push(entry)) == entries_map(entries).insert(entry.0@, entry.1@),
{
    let after = entries.push(entry);
    assert(keys_distinct(after));
    let last = entries.len() as int;
    assert forall|k: Seq<char>|
        entries_map(after).contains_key(k) <==> #[trigger] entries_map(entries).insert(
            entry.0@,
            entry.1@,
        ).contains_key(k) by {
        if entries_map(after).contains_key(k) {
            let j = choose|j: int| keyed_at(after, k, j);
            if j < last {
                assert(keyed_at(entries, k, j));
            }
        }
        if entries_map(entries).contains_key(k) {
            let j = choose|j: int| keyed_at(entries, k, j);
            assert(keyed_at(after, k, j));
        }
        if k == entry.0@ {
            assert(keyed_at(after, k, last));
        }
    }
    assert forall|k: Seq<char>| #[trigger] entries_map(after).contains_key(k) implies entries_map(
        after,
    )[k] == entries_map(entries).insert(entry.0@, entry.1@)[k] by {
        let j = choose|j: int| keyed_at(after, k, j);
        lemma_entry_in_map(after, j);
        if j < last {
            lemma_entry_in_map(entries, j);
        }
    }
    assert(entries_map(after) =~= entries_map(entries).insert(entry.0@, entry.1@));
}

proof fn lemma_replace_entry<V: View>(entries: Seq<(String, V)>, i: int, entry: (String, V))
    requires
        keys_distinct(entries),
        keyed_at(entries, entry.0@, i),
    ensures
        keys_distinct(entries.update(i, entry)),
        entries_map(entries.update(i, entry)) == entries_map(entries).insert(entry.0@, entry.1@),
{
    let after = entries.update(i, entry);
    assert(keys_distinct(after)) by {
        assert forall|a: int, b: int|
            0 <= a < after.len() && 0 <= b < after.len() && a != b implies #[trigger] after[a].0@
            != #[trigger] after[b].0@ by {
            assert(after[a].0@ == entries[a].0@);
            assert(after[b].0@ == entries[b].0@);
        }
    }
    assert forall|k: Seq<char>|
        entries_map(after).contains_key(k) <==> #[trigger] entries_map(entries).insert(
            entry.0@,
            entry.1@,
        ).contains_key(k) by {
        if entries_map(after).contains_key(k) {
            let j = choose|j: int| keyed_at(after, k, j);
            assert(keyed_at(entries, k, j));
        }
        if entries_map(entries).contains_key(k) {
            let j = choose|j: int| keyed_at(entries, k, j);
            assert(keyed_at(after, k, j));
        }
        if k == entry.0@ {
            assert(keyed_at(after, k, i));
        }
    }
    assert forall|k: Seq<char>| #[trigger] entries_map(after).contains_key(k) implies entries_map(
        after,
    )[k] == entries_map(entries).insert(entry.0@, entry.1@)[k] by {
        let j = choose|j: int| keyed_at(after, k, j);
        lemma_entry_in_map(after, j);
        if j != i {
            lemma_entry_in_map(entries, j);
        }
    }
    assert(entries_map(after) =~= entries_map(entries).insert(entry.0@, entry.1@));
}

proof fn lemma_swap_remove_entry<V: View>(entries: Seq<(String, V)>, i: int)
    requires
        keys_distinct(entries),
        0 <= i < entries.len(),
    ensures
        keys_distinct(entries.update(i, entries.last()).drop_last()),
        entries_map(entries.update(i, entries.last()).drop_last()) == entries_map(entries).remove(
            entries[i].0@,
        ),
{
    let after = entries.update(i, entries.last()).drop_last();
    let last = entries.len() - 1;
    let gone = entries[i].0@;
    // Where entry `j` of `after` stood in `entries`.
    let origin = |j: int| if j == i { last } else { j };
    assert forall|j: int| 0 <= j < after.len() implies (#[trigger] after[j]) == entries[origin(j)]
        && origin(j) != i by {}
    assert(keys_distinct(after)) by {
        assert forall|a: int, b: int|
            0 <= a < after.len() && 0 <= b < after.len() && a != b implies #[trigger] after[a].0@
            != #[trigger] after[b].0@ by {
            assert(after[a] == entries[origin(a)]);
            assert(after[b] == entries[origin(b)]);
            assert(origin(a) != origin(b));
        }
    }
    assert forall|k: Seq<char>|
        entries_map(after).contains_key(k) <==> #[trigger] entries_map(entries).remove(
            gone,
        ).contains_key(k) by {
        if entries_map(after).contains_key(k) {
            let j = choose|j: int| keyed_at(after, k, j);
            assert(after[j] == entries[origin(j)]);
            assert(keyed_at(entries, k, origin(j)));
            assert(entries[origin(j)].0@ != entries[i].0@);
        }
        if entries_map(entries).contains_key(k) && k != gone {
            let j = choose|j: int| keyed_at(entries, k, j);
            if j == last {
                assert(after[i] == entries[last]);
                assert(keyed_at(after, k, i));
            } else {
                assert(after[j] == entries[j]);
                assert(keyed_at(after, k, j));
            }
        }
    }
    assert forall|k: Seq<char>| #[trigger] entries_map(after).contains_key(k) implies entries_map(
        after,
    )[k] == entries_map(entries).remove(gone)[k] by {
        let j = choose|j: int| keyed_at(after, k, j);
        lemma_entry_in_map(after, j);
        assert(after[j] == entries[origin(j)]);
        lemma_entry_in_map(entries, origin(j));
    }
    assert(entries_map(after) =~= entries_map(entries).remove(gone));
}

proof fn lemma_absent_all<V: View>(entries: Seq<(String, V)>)
    requires
        entries.len() == 0,
    ensures
        forall|k: Seq<char>| !entries_map(entries).contains_key(k),
{
    assert forall|k: Seq<char>| !entries_map(entries).contains_key(k) by {
        lemma_absent_key(entries, k);
    }
}

} // verus!
