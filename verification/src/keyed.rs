//! An insertion-ordered table keyed by strings, each key present at most once.

use vstd::prelude::*;

verus! {

/// The map that a list of `(key, value)` entries stands for: a later entry
/// for a key shadows an earlier one (with unique keys there is none).
pub open spec fn to_map<V>(s: Seq<(Seq<char>, V)>) -> Map<Seq<char>, V>
    decreases s.len(),
{
    if s.len() == 0 {
        Map::empty()
    } else {
        to_map(s.drop_last()).insert(s.last().0, s.last().1)
    }
}

/// No key occurs twice.
pub open spec fn unique_keys<V>(s: Seq<(Seq<char>, V)>) -> bool {
    forall|i: int, j: int| 0 <= i < j < s.len() ==> #[trigger] s[i].0 != #[trigger] s[j].0
}

/// The keys in order of entry.
pub open spec fn key_order<V>(s: Seq<(Seq<char>, V)>) -> Seq<Seq<char>> {
    s.map_values(|e: (Seq<char>, V)| e.0)
}

/// A key is in the map exactly when some entry carries it.
pub proof fn lemma_to_map_dom<V>(s: Seq<(Seq<char>, V)>, k: Seq<char>)
    ensures
        to_map(s).dom().contains(k) <==> exists|i: int| 0 <= i < s.len() && #[trigger] s[i].0 == k,
    decreases s.len(),
{
    if s.len() > 0 {
        lemma_to_map_dom(s.drop_last(), k);
        if to_map(s.drop_last()).dom().contains(k) {
            let i = choose|i: int| 0 <= i < s.drop_last().len() && #[trigger] s.drop_last()[i].0 == k;
            assert(s[i].0 == k);
        }
        if exists|i: int| 0 <= i < s.len() && #[trigger] s[i].0 == k {
            let i = choose|i: int| 0 <= i < s.len() && #[trigger] s[i].0 == k;
            if i < s.len() - 1 {
                assert(s.drop_last()[i].0 == k);
            }
        }
    }
}

/// With unique keys, each entry's value is what the map holds for its key.
pub proof fn lemma_to_map_value<V>(s: Seq<(Seq<char>, V)>, i: int)
    requires
        unique_keys(s),
        0 <= i < s.len(),
    ensures
        to_map(s).dom().contains(s[i].0),
        to_map(s)[s[i].0] == s[i].1,
    decreases s.len(),
{
    if i < s.len() - 1 {
        assert(unique_keys(s.drop_last()));
        lemma_to_map_value(s.drop_last(), i);
        assert(s.drop_last()[i] == s[i]);
        assert(s[i].0 != s[s.len() - 1].0);
    }
}

/// With unique keys, the map has as many keys as there are entries.
pub proof fn lemma_to_map_len<V>(s: Seq<(Seq<char>, V)>)
    requires
        unique_keys(s),
    ensures
        to_map(s).dom().finite(),
        to_map(s).dom().len() == s.len(),
    decreases s.len(),
{
    if s.len() > 0 {
        let t = s.drop_last();
        assert(unique_keys(t));
        lemma_to_map_len(t);
        lemma_to_map_dom(t, s.last().0);
        if to_map(t).dom().contains(s.last().0) {
            let i = choose|i: int| 0 <= i < t.len() && #[trigger] t[i].0 == s.last().0;
            assert(s[i].0 == s[s.len() - 1].0);
        }
    }
}

/// Two entry lists with unique keys that carry the same key/value pairs
/// stand for a map that `m` equals when `m` has exactly those keys and values.
proof fn lemma_to_map_equals<V>(s: Seq<(Seq<char>, V)>, m: Map<Seq<char>, V>)
    requires
        unique_keys(s),
        forall|k: Seq<char>| #[trigger] m.dom().contains(k) <==> exists|i: int| 0 <= i < s.len() && #[trigger] s[i].0 == k,
        forall|i: int| 0 <= i < s.len() ==> #[trigger] m[s[i].0] == s[i].1,
    ensures
        to_map(s) == m,
{
    assert forall|k: Seq<char>| #[trigger] to_map(s).dom().contains(k) <==> m.dom().contains(k) by {
        lemma_to_map_dom(s, k);
    }
    assert forall|k: Seq<char>| to_map(s).dom().contains(k) implies #[trigger] to_map(s)[k] == m[k] by {
        lemma_to_map_dom(s, k);
        let i = choose|i: int| 0 <= i < s.len() && #[trigger] s[i].0 == k;
        lemma_to_map_value(s, i);
    }
    assert(to_map(s) =~= m);
}

/// A table of values keyed by strings, in the order the keys were first
/// entered; each key occurs once.
pub struct KeyedTable<V> {
    entries: Vec<(String, V)>,
}

impl<V> View for KeyedTable<V> {
    type V = Seq<(Seq<char>, V)>;

    closed spec fn view(&self) -> Seq<(Seq<char>, V)> {
        self.entries@.map_values(|e: (String, V)| (e.0@, e.1))
    }
}

impl<V> KeyedTable<V> {
    /// The table's invariant: no key occurs twice.
    pub open spec fn wf(&self) -> bool {
        unique_keys(self@)
    }

    /// The map the table stands for.
    pub open spec fn as_map(&self) -> Map<Seq<char>, V> {
        to_map(self@)
    }

    /// An empty table.
    pub fn new() -> (res: Self)
        ensures
            res.wf(),
            res@ == Seq::<(Seq<char>, V)>::empty(),
            res.as_map() == Map::<Seq<char>, V>::empty(),
    {
        let res = KeyedTable { entries: Vec::new() };
        assert(res@ =~= Seq::<(Seq<char>, V)>::empty());
        res
    }

    /// The number of entries.
    pub fn len(&self) -> (n: usize)
        requires
            self.wf(),
        ensures
            n == self@.len(),
            n == self.as_map().dom().len(),
    {
        proof {
            lemma_to_map_len(self@);
        }
        self.entries.len()
    }

    /// The position of `key`, if present.
    fn position(&self, key: &str) -> (res: Option<usize>)
        ensures
            match res {
                Some(i) => i < self@.len() && self@[i as int].0 == key@,
                None => forall|j: int| 0 <= j < self@.len() ==> #[trigger] self@[j].0 != key@,
            },
    {
        let wanted: String = key.to_owned();
        let mut i: usize = 0;
        while i < self.entries.len()
            invariant
                wanted@ == key@,
                i <= self@.len() == self.entries@.len(),
                forall|j: int| 0 <= j < i ==> #[trigger] self@[j].0 != key@,
            decreases self.entries.len() - i,
        {
            let candidate: &String = &self.entries[i].0;
            if *candidate == wanted {
                return Some(i);
            }
            i = i + 1;
        }
        None
    }

    /// Whether `key` has an entry.
    pub fn contains_key(&self, key: &str) -> (res: bool)
        ensures
            res == self.as_map().dom().contains(key@),
    {
        proof {
            lemma_to_map_dom(self@, key@);
        }
        self.position(key).is_some()
    }

    /// The value entered for `key`, if any.
    pub fn get(&self, key: &str) -> (res: Option<&V>)
        requires
            self.wf(),
        ensures
            match res {
                Some(v) => self.as_map().dom().contains(key@) && *v == self.as_map()[key@],
                None => !self.as_map().dom().contains(key@),
            },
    {
        proof {
            lemma_to_map_dom(self@, key@);
        }
        match self.position(key) {
            Some(i) => {
                proof {
                    lemma_to_map_value(self@, i as int);
                }
                Some(&self.entries[i].1)
            },
            None => None,
        }
    }

    /// Enters `value` under `key`: an existing entry keeps its place and
    /// takes the new value; a new key goes last.
    pub fn insert(&mut self, key: String, value: V)
        requires
            old(self).wf(),
        ensures
            final(self).wf(),
            final(self).as_map() == old(self).as_map().insert(key@, value),
            forall|j: int| 0 <= j < old(self)@.len() && old(self)@[j].0 == key@
                ==> final(self)@ == old(self)@.update(j, (key@, value)),
            !old(self).as_map().dom().contains(key@) ==> final(self)@ == old(self)@.push((key@, value)),
    {
        let ghost old_s = self@;
        proof {
            lemma_to_map_dom(old_s, key@);
        }
        match self.position(key.as_str()) {
            Some(i) => {
                let ghost k = key@;
                self.entries.set(i, (key, value));
                assert(self@ =~= old_s.update(i as int, (k, value)));
                proof {
                    let m = to_map(old_s).insert(k, value);
                    assert forall|kk: Seq<char>| #[trigger] m.dom().contains(kk) <==> exists|j: int| 0 <= j < self@.len() && #[trigger] self@[j].0 == kk by {
                        lemma_to_map_dom(old_s, kk);
                        if kk == k {
                            assert(self@[i as int].0 == kk);
                        }
                        if exists|j: int| 0 <= j < old_s.len() && #[trigger] old_s[j].0 == kk {
                            let j = choose|j: int| 0 <= j < old_s.len() && #[trigger] old_s[j].0 == kk;
                            assert(self@[j].0 == kk);
                        }
                        if exists|j: int| 0 <= j < self@.len() && #[trigger] self@[j].0 == kk {
                            let j = choose|j: int| 0 <= j < self@.len() && #[trigger] self@[j].0 == kk;
                            assert(old_s[j].0 == kk);
                        }
                    }
                    assert forall|j: int| 0 <= j < self@.len() implies #[trigger] m[self@[j].0] == self@[j].1 by {
                        if j != i {
                            lemma_to_map_value(old_s, j);
                        }
                    }
                    lemma_to_map_equals(self@, m);
                    assert forall|j: int| 0 <= j < old_s.len() && old_s[j].0 == k
                        implies self@ == old_s.update(j, (k, value)) by {
                        assert(j == i);
                    }
                }
            },
            None => {
                let ghost k = key@;
                self.entries.push((key, value));
                assert(self@ =~= old_s.push((k, value)));
                assert(self@.drop_last() =~= old_s);
            },
        }
    }

    /// Removes the entry for `key` and hands back its value; the other
    /// entries keep their order.
    pub fn remove(&mut self, key: &str) -> (res: Option<V>)
        requires
            old(self).wf(),
        ensures
            final(self).wf(),
            final(self).as_map() == old(self).as_map().remove(key@),
            match res {
                Some(v) => old(self).as_map().dom().contains(key@) && v == old(self).as_map()[key@],
                None => !old(self).as_map().dom().contains(key@),
            },
            forall|j: int| 0 <= j < old(self)@.len() && old(self)@[j].0 == key@
                ==> final(self)@ == old(self)@.remove(j),
            !old(self).as_map().dom().contains(key@) ==> final(self)@ == old(self)@,
    {
        let ghost old_s = self@;
        proof {
            lemma_to_map_dom(old_s, key@);
        }
        match self.position(key) {
            Some(i) => {
                proof {
                    lemma_to_map_value(old_s, i as int);
                }
                let (_, v) = self.entries.remove(i);
                assert(self@ =~= old_s.remove(i as int));
                proof {
                    let m = to_map(old_s).remove(key@);
                    assert forall|kk: Seq<char>| #[trigger] m.dom().contains(kk) <==> exists|j: int| 0 <= j < self@.len() && #[trigger] self@[j].0 == kk by {
                        lemma_to_map_dom(old_s, kk);
                        if m.dom().contains(kk) {
                            let j = choose|j: int| 0 <= j < old_s.len() && #[trigger] old_s[j].0 == kk;
                            if j < i {
                                assert(self@[j].0 == kk);
                            } else {
                                assert(j != i);
                                assert(self@[j - 1].0 == kk);
                            }
                        }
                        if exists|j: int| 0 <= j < self@.len() && #[trigger] self@[j].0 == kk {
                            let j = choose|j: int| 0 <= j < self@.len() && #[trigger] self@[j].0 == kk;
                            if j < i {
                                assert(old_s[j].0 == kk);
                            } else {
                                assert(old_s[j + 1].0 == kk);
                            }
                        }
                    }
                    assert forall|j: int| 0 <= j < self@.len() implies #[trigger] m[self@[j].0] == self@[j].1 by {
                        if j < i {
                            lemma_to_map_value(old_s, j);
                        } else {
                            lemma_to_map_value(old_s, j + 1);
                        }
                    }
                    lemma_to_map_equals(self@, m);
                    assert forall|j: int| 0 <= j < old_s.len() && old_s[j].0 == key@
                        implies self@ == old_s.remove(j) by {
                        assert(j == i);
                    }
                }
                Some(v)
            },
            None => {
                assert(to_map(old_s).remove(key@) =~= to_map(old_s));
                None
            },
        }
    }

    /// Removes every entry.
    pub fn clear(&mut self)
        ensures
            final(self).wf(),
            final(self)@ == Seq::<(Seq<char>, V)>::empty(),
            final(self).as_map() == Map::<Seq<char>, V>::empty(),
    {
        self.entries.clear();
        assert(self@ =~= Seq::<(Seq<char>, V)>::empty());
    }

    /// The key of the entry at position `i`.
    pub fn key_at(&self, i: usize) -> (res: &String)
        requires
            i < self@.len(),
        ensures
            res@ == self@[i as int].0,
    {
        &self.entries[i].0
    }

    /// The value of the entry at position `i`.
    pub fn value_at(&self, i: usize) -> (res: &V)
        requires
            i < self@.len(),
        ensures
            *res == self@[i as int].1,
    {
        &self.entries[i].1
    }
}

} // verus!
