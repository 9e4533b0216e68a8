//! Maps and sets keyed by strings, seen as mathematical maps and sets of
//! character sequences.

use vstd::prelude::*;

use crate::text::same;

verus! {

/// The keys of an entry list, in order.
pub open spec fn keys_of<V>(entries: Seq<(String, V)>) -> Seq<Seq<char>> {
    entries.map_values(|e: (String, V)| e.0@)
}

/// The map that an entry list without repeated keys stands for.
pub open spec fn listed<V>(entries: Seq<(String, V)>) -> Map<Seq<char>, V> {
    Map::new(
        |k: Seq<char>| keys_of(entries).contains(k),
        |k: Seq<char>| entries[keys_of(entries).index_of(k)].1,
    )
}

proof fn lemma_listed_at<V>(entries: Seq<(String, V)>, i: int)
    requires
        keys_of(entries).no_duplicates(),
        0 <= i < entries.len(),
    ensures
        listed(entries).contains_pair(entries[i].0@, entries[i].1),
{
    let keys = keys_of(entries);
    assert(keys[i] == entries[i].0@);
    assert(keys.contains(keys[i]));
    let j = keys.index_of(keys[i]);
    assert(keys[j] == keys[i]);
    assert(i == j);
}

/// A map from strings to values of `V`.
pub struct StrMap<V> {
    entries: Vec<(String, V)>,
}

impl<V> View for StrMap<V> {
    type V = Map<Seq<char>, V>;

    closed spec fn view(&self) -> Map<Seq<char>, V> {
        listed(self.entries@)
    }
}

impl<V> StrMap<V> {
    #[verifier::type_invariant]
    closed spec fn wf(self) -> bool {
        keys_of(self.entries@).no_duplicates()
    }

    /// The map without entries.
    pub fn new() -> (m: Self)
        ensures
            m@ == Map::<Seq<char>, V>::empty(),
    {
        let m = StrMap { entries: Vec::new() };
        assert(m@ =~= Map::<Seq<char>, V>::empty());
        m
    }

    fn position(&self, key: &str) -> (r: Option<usize>)
        ensures
            match r {
                Some(i) => i < self.entries.len() && self.entries@[i as int].0@ == key@,
                None => !keys_of(self.entries@).contains(key@),
            },
    {
        let mut i: usize = 0;
        while i < self.entries.len()
            invariant
                i <= self.entries.len(),
                forall|j: int| 0 <= j < i ==> self.entries@[j].0@ != key@,
            decreases self.entries.len() - i,
        {
            if same(self.entries[i].0.as_str(), key) {
                return Some(i);
            }
            i += 1;
        }
        None
    }

    /// The value stored for `key`.
    pub fn get(&self, key: &str) -> (r: Option<&V>)
        ensures
            match r {
                Some(v) => self@.contains_pair(key@, *v),
                None => !self@.contains_key(key@),
            },
    {
        proof {
            use_type_invariant(self);
        }
        match self.position(key) {
            Some(i) => {
                proof {
                    lemma_listed_at(self.entries@, i as int);
                }
                Some(&self.entries[i].1)
            },
            None => None,
        }
    }

    /// Whether a value is stored for `key`.
    pub fn contains_key(&self, key: &str) -> (r: bool)
        ensures
            r == self@.contains_key(key@),
    {
        self.get(key).is_some()
    }

    /// Whether the map has no entry.
    pub fn is_empty(&self) -> (r: bool)
        ensures
            r == (self@ == Map::<Seq<char>, V>::empty()),
    {
        proof {
            use_type_invariant(self);
            if self.entries@.len() > 0 {
                lemma_listed_at(self.entries@, 0);
                assert(self@.contains_key(self.entries@[0].0@));
                assert(self@ != Map::<Seq<char>, V>::empty());
            } else {
                assert(self@ =~= Map::<Seq<char>, V>::empty());
            }
        }
        self.entries.is_empty()
    }

    /// Drops the entry for `key` and hands out its value.
    pub fn remove(&mut self, key: &str) -> (r: Option<V>)
        ensures
            final(self)@ == old(self)@.remove(key@),
            match r {
                Some(v) => old(self)@.contains_pair(key@, v),
                None => !old(self)@.contains_key(key@),
            },
    {
        proof {
            use_type_invariant(&*self);
        }
        match self.position(key) {
            Some(i) => {
                let ghost before = self.entries@;
                let mut rest: Vec<(String, V)> = Vec::new();
                std::mem::swap(&mut rest, &mut self.entries);
                let gone = rest.remove(i);
                proof {
                    lemma_listed_at(before, i as int);
                    lemma_removed(before, i as int);
                }
                self.entries = rest;
                Some(gone.1)
            },
            None => {
                assert(self@ =~= self@.remove(key@));
                None
            },
        }
    }

    /// Stores `value` for `key` and hands out the value it replaces.
    pub fn insert(&mut self, key: String, value: V) -> (r: Option<V>)
        ensures
            final(self)@ == old(self)@.insert(key@, value),
            match r {
                Some(v) => old(self)@.contains_pair(key@, v),
                None => !old(self)@.contains_key(key@),
            },
    {
        let earlier = self.remove(key.as_str());
        proof {
            use_type_invariant(&*self);
        }
        let ghost before = self.entries@;
        let ghost added = (key, value);
        let mut rest: Vec<(String, V)> = Vec::new();
        std::mem::swap(&mut rest, &mut self.entries);
        rest.push((key, value));
        proof {
            assert(!listed(before).contains_key(added.0@));
            lemma_pushed(before, added);
            assert(old(self)@.remove(added.0@).insert(added.0@, added.1) =~= old(self)@.insert(
                added.0@,
                added.1,
            ));
        }
        self.entries = rest;
        earlier
    }

    /// The entries, each key once.
    pub fn entries(&self) -> (r: &Vec<(String, V)>)
        ensures
            keys_of(r@).no_duplicates(),
            listed(r@) == self@,
    {
        proof {
            use_type_invariant(self);
        }
        &self.entries
    }
}

proof fn lemma_removed<V>(entries: Seq<(String, V)>, i: int)
    requires
        keys_of(entries).no_duplicates(),
        0 <= i < entries.len(),
    ensures
        keys_of(entries.remove(i)).no_duplicates(),
        listed(entries.remove(i)) == listed(entries).remove(entries[i].0@),
{
    let rest = entries.remove(i);
    let keys = keys_of(entries);
    let left = keys_of(rest);
    assert(left =~= keys.remove(i));
    assert(left.no_duplicates());
    assert forall|k: Seq<char>| left.contains(k) <==> keys.contains(k) && k != keys[i] by {
        if left.contains(k) {
            let j = choose|j: int| 0 <= j < left.len() && left[j] == k;
            let j2 = if j < i {
                j
            } else {
                j + 1
            };
            assert(keys[j2] == k);
        }
        if keys.contains(k) && k != keys[i] {
            let j = choose|j: int| 0 <= j < keys.len() && keys[j] == k;
            let j2 = if j < i {
                j
            } else {
                j - 1
            };
            assert(left[j2] == k);
        }
    }
    let a = listed(rest);
    let b = listed(entries).remove(entries[i].0@);
    assert forall|k: Seq<char>| a.contains_key(k) implies a[k] == b[k] by {
        let j = left.index_of(k);
        assert(left[j] == k);
        let j2 = if j < i {
            j
        } else {
            j + 1
        };
        assert(entries[j2] == rest[j]);
        lemma_listed_at(rest, j);
        lemma_listed_at(entries, j2);
    }
    assert(a =~= b);
}

proof fn lemma_pushed<V>(entries: Seq<(String, V)>, e: (String, V))
    requires
        keys_of(entries).no_duplicates(),
        !listed(entries).contains_key(e.0@),
    ensures
        keys_of(entries.push(e)).no_duplicates(),
        listed(entries.push(e)) == listed(entries).insert(e.0@, e.1),
{
    let more = entries.push(e);
    let keys = keys_of(entries);
    assert(keys_of(more) =~= keys.push(e.0@));
    let n = entries.len() as int;
    assert(keys_of(more)[n] == e.0@);
    assert forall|k: Seq<char>| keys_of(more).contains(k) <==> keys.contains(k) || k == e.0@ by {
        if keys.contains(k) {
            let j = choose|j: int| 0 <= j < keys.len() && keys[j] == k;
            assert(keys_of(more)[j] == k);
        }
        if keys_of(more).contains(k) {
            let j = choose|j: int| 0 <= j < more.len() && keys_of(more)[j] == k;
            if j < n {
                assert(keys[j] == k);
            }
        }
    }
    let a = listed(more);
    let b = listed(entries).insert(e.0@, e.1);
    assert forall|k: Seq<char>| a.contains_key(k) implies a[k] == b[k] by {
        let j = keys_of(more).index_of(k);
        assert(keys_of(more)[j] == k);
        lemma_listed_at(more, j);
        if j < n {
            assert(more[j] == entries[j]);
            lemma_listed_at(entries, j);
            assert(k != e.0@);
        }
    }
    assert(a =~= b);
}

/// The values of a map of strings as character sequences.
pub open spec fn text_map(m: Map<Seq<char>, String>) -> Map<Seq<char>, Seq<char>> {
    m.map_values(|s: String| s@)
}

/// A set of strings.
pub struct StrSet {
    items: Vec<String>,
}

/// The character sequences of a list of strings.
pub open spec fn texts(items: Seq<String>) -> Seq<Seq<char>> {
    items.map_values(|s: String| s@)
}

impl View for StrSet {
    type V = Set<Seq<char>>;

    closed spec fn view(&self) -> Set<Seq<char>> {
        texts(self.items@).to_set()
    }
}

impl StrSet {
    #[verifier::type_invariant]
    closed spec fn wf(self) -> bool {
        texts(self.items@).no_duplicates()
    }

    /// The set without members.
    pub fn new() -> (s: Self)
        ensures
            s@ == Set::<Seq<char>>::empty(),
    {
        let s = StrSet { items: Vec::new() };
        assert(s@ =~= Set::<Seq<char>>::empty());
        s
    }

    /// Whether `item` is a member.
    pub fn contains(&self, item: &str) -> (r: bool)
        ensures
            r == self@.contains(item@),
    {
        let mut i: usize = 0;
        while i < self.items.len()
            invariant
                i <= self.items.len(),
                forall|j: int| 0 <= j < i ==> self.items@[j]@ != item@,
            decreases self.items.len() - i,
        {
            if same(self.items[i].as_str(), item) {
                assert(texts(self.items@)[i as int] == item@);
                return true;
            }
            i += 1;
        }
        false
    }

    /// Adds `item`; true when it was not a member before.
    pub fn insert(&mut self, item: String) -> (fresh: bool)
        ensures
            final(self)@ == old(self)@.insert(item@),
            fresh == !old(self)@.contains(item@),
    {
        proof {
            use_type_invariant(&*self);
        }
        if self.contains(item.as_str()) {
            assert(self@ =~= self@.insert(item@));
            return false;
        }
        let ghost before = self.items@;
        let ghost added = item;
        let mut rest: Vec<String> = Vec::new();
        std::mem::swap(&mut rest, &mut self.items);
        rest.push(item);
        proof {
            let a = texts(before);
            assert(texts(rest@) =~= a.push(added@));
            assert(!a.contains(added@));
            assert forall|x: Seq<char>| a.push(added@).contains(x) <==> a.contains(x) || x
                == added@ by {
                assert(a.push(added@)[a.len() as int] == added@);
                if a.contains(x) {
                    let j = choose|j: int| 0 <= j < a.len() && a[j] == x;
                    assert(a.push(added@)[j] == x);
                }
            }
            assert(texts(rest@).to_set() =~= a.to_set().insert(added@));
        }
        self.items = rest;
        true
    }

    /// The number of members.
    pub fn len(&self) -> (n: usize)
        ensures
            n == self@.len(),
            self@.finite(),
    {
        proof {
            use_type_invariant(self);
            texts(self.items@).unique_seq_to_set();
        }
        self.items.len()
    }

    /// The members, each once.
    pub fn items(&self) -> (r: &Vec<String>)
        ensures
            texts(r@).no_duplicates(),
            texts(r@).to_set() == self@,
    {
        proof {
            use_type_invariant(self);
        }
        &self.items
    }
}

/// Texts and maps of texts stand for their strings one for one.
pub proof fn law_texts_one_for_one(
    items: Seq<String>,
    i: int,
    m: Map<Seq<char>, String>,
    k: Seq<char>,
)
    ensures
        texts(items).len() == items.len(),
        0 <= i < items.len() ==> texts(items)[i] == items[i]@,
        text_map(m).contains_key(k) <==> m.contains_key(k),
        m.contains_key(k) ==> text_map(m)[k] == m[k]@,
{
}

} // verus!
