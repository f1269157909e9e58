//! A map from strings to values, in order of first insertion.

use vstd::prelude::*;

use crate::text;

verus! {

/// A map with strings for keys. Each key stands once, in order of first insertion.
#[derive(Debug)]
pub struct StringMap<V> {
    entries: Vec<(String, V)>,
}

/// The entry at `i` holds `key`.
spec fn holds<V>(entries: Seq<(String, V)>, key: Seq<char>, i: int) -> bool {
    0 <= i < entries.len() && entries[i].0@ == key
}

/// No two entries have the same key.
spec fn distinct_keys<V>(entries: Seq<(String, V)>) -> bool {
    forall|i: int, j: int|
        0 <= i < entries.len() && 0 <= j < entries.len() && (#[trigger] entries[i]).0@ == (
        #[trigger] entries[j]).0@ ==> i == j
}

spec fn entries_map<V>(entries: Seq<(String, V)>) -> Map<Seq<char>, V> {
    Map::new(
        |key: Seq<char>| exists|i: int| holds(entries, key, i),
        |key: Seq<char>| entries[choose|i: int| holds(entries, key, i)].1,
    )
}

spec fn entries_keys<V>(entries: Seq<(String, V)>) -> Seq<Seq<char>> {
    Seq::new(entries.len(), |i: int| entries[i].0@)
}

proof fn lemma_holds<V>(entries: Seq<(String, V)>, key: Seq<char>, i: int)
    requires
        distinct_keys(entries),
        holds(entries, key, i),
    ensures
        entries_map(entries).dom().contains(key),
        entries_map(entries)[key] == entries[i].1,
{
    let c = choose|c: int| holds(entries, key, c);
    assert(holds(entries, key, c));
    assert(entries[c].0@ == entries[i].0@);
}

impl<V> View for StringMap<V> {
    type V = Map<Seq<char>, V>;

    closed spec fn view(&self) -> Map<Seq<char>, V> {
        entries_map(self.entries@)
    }
}

impl<V> StringMap<V> {
    #[verifier::type_invariant]
    spec fn keys_are_distinct(self) -> bool {
        distinct_keys(self.entries@)
    }

    /// The keys in order of first insertion.
    pub closed spec fn keys(&self) -> Seq<Seq<char>> {
        entries_keys(self.entries@)
    }

    /// The keys are those of the map, each once.
    pub proof fn lemma_keys(&self)
        requires
            self.wf(),
        ensures
            self.keys().no_duplicates(),
            self@.dom().finite(),
            self.keys().to_set() == self@.dom(),
            self@.len() == self.keys().len(),
    {
        let keys = self.keys();
        let entries = self.entries@;
        assert forall|i: int, j: int|
            0 <= i < keys.len() && 0 <= j < keys.len() && i != j implies keys[i] != keys[j] by {
            assert(entries[i].0@ == keys[i]);
            assert(entries[j].0@ == keys[j]);
        }
        assert(keys.to_set() =~= self@.dom()) by {
            assert forall|k: Seq<char>| keys.to_set().contains(k) <==> self@.dom().contains(k) by {
                if keys.contains(k) {
                    let i = choose|i: int| 0 <= i < keys.len() && keys[i] == k;
                    assert(holds(entries, k, i));
                }
                if self@.dom().contains(k) {
                    let i = choose|i: int| holds(entries, k, i);
                    assert(keys[i] == k);
                }
            }
        }
        keys.unique_seq_to_set();
    }

    /// Each key stands once. It holds of every map.
    pub closed spec fn wf(&self) -> bool {
        distinct_keys(self.entries@)
    }

    /// An empty map.
    pub fn new() -> (m: StringMap<V>)
        ensures
            m@ == Map::<Seq<char>, V>::empty(),
            m.keys() == Seq::<Seq<char>>::empty(),
            m.wf(),
    {
        let m = StringMap { entries: Vec::new() };
        assert(m@ =~= Map::<Seq<char>, V>::empty());
        assert(m.keys() =~= Seq::<Seq<char>>::empty());
        m
    }

    /// The number of entries.
    pub fn len(&self) -> (n: usize)
        ensures
            n == self@.len(),
            n == self.keys().len(),
            self@.dom().finite(),
            self.wf(),
    {
        proof {
            use_type_invariant(self);
            self.lemma_keys();
        }
        self.entries.len()
    }

    /// Whether there is no entry.
    pub fn is_empty(&self) -> (b: bool)
        ensures
            b == (self@ == Map::<Seq<char>, V>::empty()),
    {
        proof {
            use_type_invariant(self);
            self.lemma_keys();
            if self.entries@.len() == 0 {
                assert(self@ =~= Map::<Seq<char>, V>::empty());
            } else {
                assert(holds(self.entries@, self.entries@[0].0@, 0));
                lemma_holds(self.entries@, self.entries@[0].0@, 0);
            }
        }
        self.entries.len() == 0
    }

    /// The place of a key.
    fn place(&self, key: &str) -> (at: Option<usize>)
        ensures
            match at {
                Some(i) => i < self.entries@.len() && self.entries@[i as int].0@ == key@
                    && self@.dom().contains(key@) && self@[key@] == self.entries@[i as int].1,
                None => !self@.dom().contains(key@),
            },
    {
        proof {
            use_type_invariant(self);
        }
        let mut i: usize = 0;
        while i < self.entries.len()
            invariant
                0 <= i <= self.entries@.len(),
                distinct_keys(self.entries@),
                forall|j: int| 0 <= j < i ==> (#[trigger] self.entries@[j]).0@ != key@,
            decreases self.entries@.len() - i,
        {
            if text::str_eq(self.entries[i].0.as_str(), key) {
                proof {
                    assert(holds(self.entries@, key@, i as int));
                    lemma_holds(self.entries@, key@, i as int);
                }
                return Some(i);
            }
            i += 1;
        }
        None
    }

    /// The value of a key.
    pub fn get(&self, key: &str) -> (r: Option<&V>)
        ensures
            match r {
                Some(v) => self@.dom().contains(key@) && self@[key@] == *v,
                None => !self@.dom().contains(key@),
            },
    {
        match self.place(key) {
            Some(i) => Some(&self.entries[i].1),
            None => None,
        }
    }

    /// Whether the key has a value.
    pub fn contains_key(&self, key: &str) -> (b: bool)
        ensures
            b == self@.dom().contains(key@),
    {
        self.place(key).is_some()
    }

    /// The key at a place in the order of insertion.
    pub fn key_at(&self, i: usize) -> (key: &str)
        requires
            i < self.keys().len(),
        ensures
            key@ == self.keys()[i as int],
            self@.dom().contains(key@),
    {
        proof {
            use_type_invariant(self);
            assert(holds(self.entries@, self.entries@[i as int].0@, i as int));
        }
        self.entries[i].0.as_str()
    }

    /// The value at a place in the order of insertion.
    pub fn value_at(&self, i: usize) -> (value: &V)
        requires
            i < self.keys().len(),
        ensures
            *value == self@[self.keys()[i as int]],
    {
        proof {
            use_type_invariant(self);
            assert(holds(self.entries@, self.entries@[i as int].0@, i as int));
            lemma_holds(self.entries@, self.entries@[i as int].0@, i as int);
        }
        &self.entries[i].1
    }

    /// Gives a key a value. Returns the value it had.
    pub fn insert(&mut self, key: String, value: V) -> (previous: Option<V>)
        ensures
            final(self)@ == old(self)@.insert(key@, value),
            final(self).keys() == (if old(self)@.dom().contains(key@) {
                old(self).keys()
            } else {
                old(self).keys().push(key@)
            }),
            previous == (if old(self)@.dom().contains(key@) {
                Some(old(self)@[key@])
            } else {
                None
            }),
            final(self).wf(),
    {
        proof {
            use_type_invariant(&*self);
        }
        let at = self.place(key.as_str());
        let ghost before = self.entries@;
        let mut entries: Vec<(String, V)> = Vec::new();
        std::mem::swap(&mut entries, &mut self.entries);
        let previous = match at {
            Some(i) => {
                entries.push((key, value));
                let (_, old_value) = entries.swap_remove(i);
                proof {
                    let now = entries@;
                    assert(now =~= before.update(i as int, (key, value)));
                    lemma_update(before, i as int, key, value);
                }
                Some(old_value)
            },
            None => {
                entries.push((key, value));
                proof {
                    lemma_push(before, key, value);
                }
                None
            },
        };
        self.entries = entries;
        previous
    }

    /// Takes a key and its value out. Returns the value.
    pub fn remove(&mut self, key: &str) -> (previous: Option<V>)
        ensures
            final(self)@ == old(self)@.remove(key@),
            previous == (if old(self)@.dom().contains(key@) {
                Some(old(self)@[key@])
            } else {
                None
            }),
            final(self).wf(),
    {
        proof {
            use_type_invariant(&*self);
        }
        let at = self.place(key);
        let ghost before = self.entries@;
        match at {
            Some(i) => {
                let mut entries: Vec<(String, V)> = Vec::new();
                std::mem::swap(&mut entries, &mut self.entries);
                let (_, value) = entries.remove(i);
                proof {
                    lemma_remove(before, i as int);
                }
                self.entries = entries;
                Some(value)
            },
            None => {
                assert(self@ =~= old(self)@.remove(key@));
                None
            },
        }
    }
}

impl<V: Clone> Clone for StringMap<V> {
    /// A map with the same keys, each with a clone of its value.
    fn clone(&self) -> (m: StringMap<V>)
        ensures
            m.keys() == self.keys(),
            m@.dom() == self@.dom(),
            forall|key: Seq<char>| #[trigger]
                self@.dom().contains(key) ==> cloned(self@[key], m@[key]),
    {
        proof {
            use_type_invariant(self);
        }
        let ghost all = self.entries@;
        let mut entries: Vec<(String, V)> = Vec::new();
        let mut i: usize = 0;
        while i < self.entries.len()
            invariant
                0 <= i <= self.entries@.len(),
                all == self.entries@,
                entries@.len() == i,
                forall|j: int|
                    0 <= j < i ==> (#[trigger] entries@[j]).0@ == all[j].0@ && cloned(
                        all[j].1,
                        entries@[j].1,
                    ),
            decreases self.entries@.len() - i,
        {
            entries.push((self.entries[i].0.clone(), self.entries[i].1.clone()));
            i += 1;
        }
        proof {
            assert forall|a: int, b: int|
                0 <= a < entries@.len() && 0 <= b < entries@.len() && (#[trigger] entries@[a]).0@
                    == (#[trigger] entries@[b]).0@ implies a == b by {
                assert(all[a].0@ == all[b].0@);
            }
            assert(entries_keys(entries@) =~= entries_keys(all));
            assert forall|key: Seq<char>| entries_map(entries@).dom().contains(key)
                == entries_map(all).dom().contains(key) by {
                if entries_map(entries@).dom().contains(key) {
                    let c = choose|c: int| holds(entries@, key, c);
                    assert(holds(all, key, c));
                }
                if entries_map(all).dom().contains(key) {
                    let c = choose|c: int| holds(all, key, c);
                    assert(entries@[c].0@ == all[c].0@);
                    assert(holds(entries@, key, c));
                }
            }
            assert(entries_map(entries@).dom() =~= entries_map(all).dom());
            assert forall|key: Seq<char>| #[trigger] entries_map(all).dom().contains(key)
                implies cloned(entries_map(all)[key], entries_map(entries@)[key]) by {
                let c = choose|c: int| holds(all, key, c);
                lemma_holds(all, key, c);
                assert(entries@[c].0@ == all[c].0@);
                assert(holds(entries@, key, c));
                lemma_holds(entries@, key, c);
            }
        }
        StringMap { entries }
    }
}

/// What a map from strings to strings says.
pub open spec fn text_map(m: Map<Seq<char>, String>) -> Map<Seq<char>, Seq<char>> {
    m.map_values(|s: String| s@)
}

/// A copy of a map from strings to strings.
pub fn copy_text_map(m: &StringMap<String>) -> (out: StringMap<String>)
    ensures
        text_map(out@) == text_map(m@),
        out.keys() == m.keys(),
{
    let mut out: StringMap<String> = StringMap::new();
    let n: usize = m.len();
    proof {
        m.lemma_keys();
    }
    let ghost keys = m.keys();
    let mut i: usize = 0;
    while i < n
        invariant
            0 <= i <= n,
            n == keys.len(),
            keys == m.keys(),
            keys.no_duplicates(),
            keys.to_set() == m@.dom(),
            out.keys() == keys.take(i as int),
            out@.dom() =~= keys.take(i as int).to_set(),
            forall|j: int|
                0 <= j < i ==> out@.dom().contains(#[trigger] keys[j]) && out@[keys[j]]@
                    == m@[keys[j]]@,
        decreases n - i,
    {
        proof {
            let k = keys[i as int];
            let done = keys.take(i as int);
            let more = keys.take(i + 1);
            assert(more =~= done.push(k));
            if done.contains(k) {
                let j = choose|j: int| 0 <= j < done.len() && done[j] == k;
                assert(keys[j] == keys[i as int]);
            }
            assert forall|x: Seq<char>| more.to_set().contains(x) == done.to_set().insert(
                k,
            ).contains(x) by {
                if more.contains(x) {
                    let j = choose|j: int| 0 <= j < more.len() && more[j] == x;
                    if j < i {
                        assert(done[j] == x);
                    }
                }
                if done.contains(x) {
                    let j = choose|j: int| 0 <= j < done.len() && done[j] == x;
                    assert(more[j] == x);
                }
                if x == k {
                    assert(more[i as int] == x);
                }
            }
            assert(more.to_set() =~= done.to_set().insert(k));
        }
        out.insert(m.key_at(i).to_owned(), m.value_at(i).clone());
        i += 1;
    }
    proof {
        assert(keys.take(n as int) =~= keys);
        assert(out@.dom() =~= m@.dom());
        assert forall|x: Seq<char>| m@.dom().contains(x) implies out@[x]@ == m@[x]@ by {
            assert(keys.to_set().contains(x));
            let j = choose|j: int| 0 <= j < keys.len() && keys[j] == x;
            assert(out@[keys[j]]@ == m@[keys[j]]@);
        }
        assert(text_map(out@) =~= text_map(m@));
    }
    out
}

/// The lengths of the lists under the given keys, added up.
pub open spec fn sum_lens<V>(m: Map<Seq<char>, Vec<V>>, keys: Seq<Seq<char>>) -> nat
    decreases keys.len(),
{
    if keys.len() == 0 {
        0
    } else {
        sum_lens(m, keys.drop_last()) + m[keys.last()]@.len()
    }
}

proof fn lemma_sum_lens_grows<V>(m: Map<Seq<char>, Vec<V>>, keys: Seq<Seq<char>>, i: int)
    requires
        0 <= i <= keys.len(),
    ensures
        sum_lens(m, keys.take(i)) <= sum_lens(m, keys),
    decreases keys.len() - i,
{
    if i < keys.len() {
        lemma_sum_lens_grows(m, keys, i + 1);
        assert(keys.take(i + 1).drop_last() =~= keys.take(i));
    } else {
        assert(keys.take(i) =~= keys);
    }
}

/// The number of items in all lists of a map.
pub open spec fn items_in<T>(m: Map<Seq<char>, Seq<T>>) -> nat
    decreases m.dom().len(),
{
    if m.dom().finite() && m.dom().len() > 0 {
        let key = m.dom().choose();
        m[key].len() + items_in(m.remove(key))
    } else {
        0
    }
}

/// Each list of a map adds its items to their number, and a map without lists has none.
pub proof fn items_add_up<T>(m: Map<Seq<char>, Seq<T>>, key: Seq<char>)
    requires
        m.dom().finite(),
    ensures
        m.dom().len() == 0 ==> items_in(m) == 0,
        m.dom().contains(key) ==> items_in(m) == m[key].len() + items_in(m.remove(key)),
    decreases m.dom().len(),
{
    if m.dom().contains(key) {
        let first = m.dom().choose();
        if first != key {
            items_add_up(m.remove(first), key);
            items_add_up(m.remove(key), first);
            assert(m.remove(first).remove(key) =~= m.remove(key).remove(first));
        }
    }
}

/// Giving a key another list changes the number of items by the difference of the two.
pub proof fn items_after_insert<T>(m: Map<Seq<char>, Seq<T>>, key: Seq<char>, list: Seq<T>)
    requires
        m.dom().finite(),
    ensures
        items_in(m.insert(key, list)) == items_in(m.remove(key)) + list.len(),
{
    items_add_up(m.insert(key, list), key);
    assert(m.insert(key, list).remove(key) =~= m.remove(key));
}

proof fn lemma_other_keys<V>(m: Map<Seq<char>, Vec<V>>, keys: Seq<Seq<char>>, key: Seq<char>)
    requires
        !keys.contains(key),
    ensures
        sum_lens(m.remove(key), keys) == sum_lens(m, keys),
    decreases keys.len(),
{
    if keys.len() > 0 {
        assert(keys.contains(keys.last()));
        assert forall|k: Seq<char>| keys.drop_last().contains(k) implies keys.contains(k) by {
            let i = choose|i: int| 0 <= i < keys.len() - 1 && keys.drop_last()[i] == k;
            assert(keys[i] == k);
        }
        lemma_other_keys(m, keys.drop_last(), key);
    }
}

/// The lengths of the lists of a map, added up key by key, are the number of items in what
/// the lists say.
pub proof fn lemma_items_in<V, T>(
    m: Map<Seq<char>, Vec<V>>,
    said: Map<Seq<char>, Seq<T>>,
    keys: Seq<Seq<char>>,
)
    requires
        keys.no_duplicates(),
        keys.to_set() == m.dom(),
        said.dom() == m.dom(),
        forall|key: Seq<char>| #[trigger]
            m.dom().contains(key) ==> said[key].len() == m[key]@.len(),
    ensures
        said.dom().finite(),
        sum_lens(m, keys) == items_in(said),
    decreases keys.len(),
{
    keys.unique_seq_to_set();
    if keys.len() > 0 {
        let last = keys.last();
        let rest = keys.drop_last();
        assert(keys.to_set().contains(last));
        if rest.contains(last) {
            let i = choose|i: int| 0 <= i < rest.len() && rest[i] == last;
            assert(keys[i] == keys[keys.len() - 1]);
        }
        assert forall|k: Seq<char>| rest.to_set().contains(k) == m.remove(last).dom().contains(
            k,
        ) by {
            if rest.contains(k) {
                let i = choose|i: int| 0 <= i < rest.len() && rest[i] == k;
                assert(keys[i] == k);
                assert(keys.to_set().contains(k));
            }
            if m.remove(last).dom().contains(k) {
                assert(keys.to_set().contains(k));
                let i = choose|i: int| 0 <= i < keys.len() && keys[i] == k;
                assert(rest[i] == k);
            }
        }
        assert(rest.to_set() =~= m.remove(last).dom());
        lemma_other_keys(m, rest, last);
        assert forall|k: Seq<char>| #[trigger] m.remove(last).dom().contains(k) implies said.remove(
            last,
        )[k].len() == m.remove(last)[k]@.len() by {
            assert(m.dom().contains(k));
        }
        lemma_items_in(m.remove(last), said.remove(last), rest);
        items_add_up(said, last);
    } else {
        items_add_up(said, seq![]);
    }
}

impl<V> StringMap<Vec<V>> {
    /// The lengths of all lists, added up.
    pub fn total_len(&self) -> (n: usize)
        requires
            sum_lens(self@, self.keys()) <= usize::MAX,
        ensures
            n == sum_lens(self@, self.keys()),
    {
        let count: usize = self.len();
        let ghost keys = self.keys();
        let mut n: usize = 0;
        let mut i: usize = 0;
        assert(keys.take(0) =~= seq![]);
        while i < count
            invariant
                0 <= i <= count,
                count == keys.len(),
                keys == self.keys(),
                sum_lens(self@, keys) <= usize::MAX,
                n == sum_lens(self@, keys.take(i as int)),
            decreases count - i,
        {
            proof {
                lemma_sum_lens_grows(self@, keys, i + 1);
                assert(keys.take(i + 1).drop_last() =~= keys.take(i as int));
            }
            n = n + self.value_at(i).len();
            i += 1;
        }
        assert(keys.take(i as int) =~= keys);
        n
    }
}

proof fn lemma_update<V>(entries: Seq<(String, V)>, i: int, key: String, value: V)
    requires
        distinct_keys(entries),
        holds(entries, key@, i),
    ensures
        distinct_keys(entries.update(i, (key, value))),
        entries_map(entries.update(i, (key, value))) == entries_map(entries).insert(key@, value),
        entries_keys(entries.update(i, (key, value))) == entries_keys(entries),
{
    let now = entries.update(i, (key, value));
    assert forall|a: int, b: int|
        0 <= a < now.len() && 0 <= b < now.len() && (#[trigger] now[a]).0@ == (
        #[trigger] now[b]).0@ implies a == b by {
        assert(now[a].0@ == entries[a].0@);
        assert(now[b].0@ == entries[b].0@);
    }
    assert(entries_keys(now) =~= entries_keys(entries));
    assert(entries_map(now) =~= entries_map(entries).insert(key@, value)) by {
        assert forall|k: Seq<char>|
            entries_map(now).dom().contains(k) == entries_map(entries).insert(
                key@,
                value,
            ).dom().contains(k) by {
            if exists|c: int| holds(entries, k, c) {
                let c = choose|c: int| holds(entries, k, c);
                assert(holds(now, k, c));
            }
            if exists|c: int| holds(now, k, c) {
                let c = choose|c: int| holds(now, k, c);
                assert(holds(entries, k, c));
            }
        }
        assert forall|k: Seq<char>| entries_map(now).dom().contains(k) implies entries_map(now)[k]
            == entries_map(entries).insert(key@, value)[k] by {
            let c = choose|c: int| holds(now, k, c);
            lemma_holds(now, k, c);
            assert(holds(entries, k, c));
            lemma_holds(entries, k, c);
        }
    }
}

proof fn lemma_push<V>(entries: Seq<(String, V)>, key: String, value: V)
    requires
        distinct_keys(entries),
        !entries_map(entries).dom().contains(key@),
    ensures
        distinct_keys(entries.push((key, value))),
        entries_map(entries.push((key, value))) == entries_map(entries).insert(key@, value),
        entries_keys(entries.push((key, value))) == entries_keys(entries).push(key@),
{
    let now = entries.push((key, value));
    assert forall|a: int| 0 <= a < entries.len() implies (#[trigger] entries[a]).0@ != key@ by {
        if entries[a].0@ == key@ {
            assert(holds(entries, key@, a));
        }
    }
    assert(entries_keys(now) =~= entries_keys(entries).push(key@));
    assert(entries_map(now) =~= entries_map(entries).insert(key@, value)) by {
        assert(holds(now, key@, entries.len() as int));
        assert forall|k: Seq<char>|
            entries_map(now).dom().contains(k) == entries_map(entries).insert(
                key@,
                value,
            ).dom().contains(k) by {
            if exists|c: int| holds(entries, k, c) {
                let c = choose|c: int| holds(entries, k, c);
                assert(holds(now, k, c));
            }
            if exists|c: int| holds(now, k, c) {
                let c = choose|c: int| holds(now, k, c);
                if c < entries.len() {
                    assert(holds(entries, k, c));
                }
            }
        }
        assert forall|k: Seq<char>| entries_map(now).dom().contains(k) implies entries_map(now)[k]
            == entries_map(entries).insert(key@, value)[k] by {
            let c = choose|c: int| holds(now, k, c);
            lemma_holds(now, k, c);
            if c < entries.len() {
                assert(holds(entries, k, c));
                lemma_holds(entries, k, c);
            }
        }
    }
}

proof fn lemma_remove<V>(entries: Seq<(String, V)>, i: int)
    requires
        distinct_keys(entries),
        0 <= i < entries.len(),
    ensures
        distinct_keys(entries.remove(i)),
        entries_map(entries.remove(i)) == entries_map(entries).remove(entries[i].0@),
{
    let now = entries.remove(i);
    let key = entries[i].0@;
    assert forall|a: int| 0 <= a < now.len() implies (#[trigger] now[a]) == entries[if a < i {
        a
    } else {
        a + 1
    }] by {}
    assert forall|a: int, b: int|
        0 <= a < now.len() && 0 <= b < now.len() && (#[trigger] now[a]).0@ == (
        #[trigger] now[b]).0@ implies a == b by {
        let x = if a < i {
            a
        } else {
            a + 1
        };
        let y = if b < i {
            b
        } else {
            b + 1
        };
        assert(entries[x].0@ == entries[y].0@);
    }
    assert(entries_map(now) =~= entries_map(entries).remove(key)) by {
        assert forall|k: Seq<char>|
            entries_map(now).dom().contains(k) == entries_map(entries).remove(
                key,
            ).dom().contains(k) by {
            if exists|c: int| holds(entries, k, c) {
                let c = choose|c: int| holds(entries, k, c);
                if c < i {
                    assert(holds(now, k, c));
                } else if c > i {
                    assert(now[c - 1] == entries[c]);
                    assert(holds(now, k, c - 1));
                }
            }
            if exists|c: int| holds(now, k, c) {
                let c = choose|c: int| holds(now, k, c);
                let x = if c < i {
                    c
                } else {
                    c + 1
                };
                assert(holds(entries, k, x));
                if k == key {
                    assert(entries[x].0@ == entries[i].0@);
                }
            }
        }
        assert forall|k: Seq<char>| entries_map(now).dom().contains(k) implies entries_map(now)[k]
            == entries_map(entries).remove(key)[k] by {
            let c = choose|c: int| holds(now, k, c);
            lemma_holds(now, k, c);
            let x = if c < i {
                c
            } else {
                c + 1
            };
            assert(holds(entries, k, x));
            lemma_holds(entries, k, x);
        }
    }
}

/// A set of strings.
#[derive(Clone, Debug)]
pub struct StringSet {
    items: StringMap<()>,
}

impl View for StringSet {
    type V = Set<Seq<char>>;

    closed spec fn view(&self) -> Set<Seq<char>> {
        self.items@.dom()
    }
}

impl StringSet {
    /// An empty set.
    pub fn new() -> (s: StringSet)
        ensures
            s@ == Set::<Seq<char>>::empty(),
    {
        let s = StringSet { items: StringMap::new() };
        assert(s@ =~= Set::<Seq<char>>::empty());
        s
    }

    /// Adds a string. Returns whether it is new.
    pub fn insert(&mut self, item: String) -> (new: bool)
        ensures
            final(self)@ == old(self)@.insert(item@),
            new == !old(self)@.contains(item@),
    {
        let new = self.items.insert(item, ()).is_none();
        assert(self@ =~= old(self)@.insert(item@));
        new
    }

    /// Whether the string is in the set.
    pub fn contains(&self, item: &str) -> (b: bool)
        ensures
            b == self@.contains(item@),
    {
        self.items.contains_key(item)
    }

    /// Whether the set is empty.
    pub fn is_empty(&self) -> (b: bool)
        ensures
            b == (self@ == Set::<Seq<char>>::empty()),
    {
        proof {
            if self@ == Set::<Seq<char>>::empty() {
                assert(self.items@ =~= Map::<Seq<char>, ()>::empty());
            }
        }
        self.items.is_empty()
    }
}

} // verus!
