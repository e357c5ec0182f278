use vstd::prelude::*;

verus! {

/// The map that a list of keyed entries describes: a later entry for a key
/// overrides an earlier one.
pub open spec fn entries_map<V>(s: Seq<(String, V)>) -> Map<Seq<char>, V>
    decreases s.len(),
{
    if s.len() == 0 {
        Map::empty()
    } else {
        entries_map(s.drop_last()).insert(s.last().0@, s.last().1)
    }
}

/// No two entries share a key.
pub open spec fn unique_keys<V>(s: Seq<(String, V)>) -> bool {
    forall|i: int, j: int| 0 <= i < j < s.len() ==> (#[trigger] s[i]).0@ != (#[trigger] s[j]).0@
}

/// A map from player ids to values, keeping the order in which keys first
/// arrived.
#[derive(Debug, PartialEq, Eq)]
pub struct PlayerMap<V> {
    entries: Vec<(String, V)>,
}

impl<V> View for PlayerMap<V> {
    type V = Map<Seq<char>, V>;

    closed spec fn view(&self) -> Map<Seq<char>, V> {
        entries_map(self.entries@)
    }
}

/// A key is in the map exactly when some entry carries it, and then the map
/// gives that entry's value.
pub proof fn lemma_entries_map<V>(s: Seq<(String, V)>)
    requires
        unique_keys(s),
    ensures
        forall|k: Seq<char>|
            #![trigger entries_map(s).contains_key(k)]
            entries_map(s).contains_key(k) <==> exists|i: int|
                0 <= i < s.len() && (#[trigger] s[i]).0@ == k,
        forall|i: int|
            0 <= i < s.len() ==> #[trigger] entries_map(s).contains_key(s[i].0@) && entries_map(
                s,
            )[s[i].0@] == s[i].1,
    decreases s.len(),
{
    if s.len() > 0 {
        let t = s.drop_last();
        assert(unique_keys(t)) by {
            assert forall|i: int, j: int| 0 <= i < j < t.len() implies (#[trigger] t[i]).0@ != (
            #[trigger] t[j]).0@ by {
                assert(t[i] == s[i] && t[j] == s[j]);
            }
        }
        lemma_entries_map(t);
        assert forall|k: Seq<char>|
            #![trigger entries_map(s).contains_key(k)]
            entries_map(s).contains_key(k) <==> exists|i: int|
                0 <= i < s.len() && (#[trigger] s[i]).0@ == k by {
            if entries_map(s).contains_key(k) {
                if k == s.last().0@ {
                    assert(s[s.len() - 1].0@ == k);
                } else {
                    assert(entries_map(t).contains_key(k));
                    let i = choose|i: int| 0 <= i < t.len() && (#[trigger] t[i]).0@ == k;
                    assert(s[i] == t[i]);
                    assert(s[i].0@ == k);
                }
            }
            if exists|i: int| 0 <= i < s.len() && (#[trigger] s[i]).0@ == k {
                let i = choose|i: int| 0 <= i < s.len() && (#[trigger] s[i]).0@ == k;
                if i < s.len() - 1 {
                    assert(t[i] == s[i]);
                    assert(entries_map(t).contains_key(t[i].0@));
                } else {
                    assert(k == s.last().0@);
                }
            }
        }
        assert forall|i: int| 0 <= i < s.len() implies #[trigger] entries_map(s).contains_key(
            s[i].0@,
        ) && entries_map(s)[s[i].0@] == s[i].1 by {
            if i < s.len() - 1 {
                assert(t[i] == s[i]);
                assert(s[i].0@ != s[s.len() - 1].0@);
                assert(entries_map(t).contains_key(t[i].0@));
                assert(entries_map(t)[t[i].0@] == t[i].1);
            }
        }
    }
}

proof fn lemma_entries_map_update<V>(s: Seq<(String, V)>, i: int, e: (String, V))
    requires
        unique_keys(s),
        0 <= i < s.len(),
        s[i].0@ == e.0@,
    ensures
        entries_map(s.update(i, e)) == entries_map(s).insert(e.0@, e.1),
        unique_keys(s.update(i, e)),
{
    let u = s.update(i, e);
    assert(unique_keys(u)) by {
        assert forall|a: int, b: int| 0 <= a < b < u.len() implies (#[trigger] u[a]).0@ != (
        #[trigger] u[b]).0@ by {
            if a == i {
                assert(u[b] == s[b]);
            } else if b == i {
                assert(u[a] == s[a]);
            } else {
                assert(u[a] == s[a] && u[b] == s[b]);
            }
        }
    }
    lemma_entries_map(s);
    lemma_entries_map(u);
    let m1 = entries_map(u);
    let m2 = entries_map(s).insert(e.0@, e.1);
    assert forall|k: Seq<char>| m1.contains_key(k) <==> m2.contains_key(k) by {
        if m1.contains_key(k) {
            assert(entries_map(u).contains_key(k));
            let j = choose|j: int| 0 <= j < u.len() && (#[trigger] u[j]).0@ == k;
            if j != i {
                assert(u[j] == s[j]);
                assert(entries_map(s).contains_key(s[j].0@));
            }
        }
        if m2.contains_key(k) && k != e.0@ {
            assert(entries_map(s).contains_key(k));
            let j = choose|j: int| 0 <= j < s.len() && (#[trigger] s[j]).0@ == k;
            assert(u[j] == s[j]);
            assert(entries_map(u).contains_key(u[j].0@));
        }
        if k == e.0@ {
            assert(u[i] == e);
            assert(entries_map(u).contains_key(u[i].0@));
        }
    }
    assert forall|k: Seq<char>| m1.contains_key(k) implies m1[k] == m2[k] by {
        assert(entries_map(u).contains_key(k));
        let j = choose|j: int| 0 <= j < u.len() && (#[trigger] u[j]).0@ == k;
        assert(entries_map(u)[u[j].0@] == u[j].1);
        if j != i {
            assert(u[j] == s[j]);
            assert(entries_map(s)[s[j].0@] == s[j].1);
        }
    }
    assert(m1 =~= m2);
}

impl<V> PlayerMap<V> {
    #[verifier::type_invariant]
    spec fn inv(self) -> bool {
        unique_keys(self.entries@)
    }

    /// The entries in arrival order.
    pub closed spec fn entry_seq(&self) -> Seq<(String, V)> {
        self.entries@
    }

    /// An empty map.
    pub fn new() -> (m: Self)
        ensures
            m@ == Map::<Seq<char>, V>::empty(),
            m.entry_seq() == Seq::<(String, V)>::empty(),
    {
        PlayerMap { entries: Vec::new() }
    }

    /// The entries in arrival order.
    pub fn entries(&self) -> (e: &[(String, V)])
        ensures
            e@ == self.entry_seq(),
            unique_keys(e@),
            entries_map(e@) == self@,
    {
        proof {
            use_type_invariant(self);
        }
        self.entries.as_slice()
    }

    /// Number of keys.
    pub fn len(&self) -> (n: usize)
        ensures
            n == self.entry_seq().len(),
    {
        self.entries.len()
    }

    fn index_of(&self, key: &String) -> (r: Option<usize>)
        ensures
            match r {
                Some(i) => i < self.entries@.len() && self.entries@[i as int].0@ == key@,
                None => forall|j: int| 0 <= j < self.entries@.len() ==> (#[trigger] self.entries@[j]).0@ != key@,
            },
    {
        let mut i: usize = 0;
        while i < self.entries.len()
            invariant
                0 <= i <= self.entries@.len(),
                forall|j: int| 0 <= j < i ==> (#[trigger] self.entries@[j]).0@ != key@,
            decreases self.entries@.len() - i,
        {
            if self.entries[i].0 == *key {
                return Some(i);
            }
            i = i + 1;
        }
        None
    }

    /// The value stored for `key`.
    pub fn get(&self, key: &String) -> (r: Option<&V>)
        ensures
            match r {
                Some(v) => self@.contains_key(key@) && *v == self@[key@],
                None => !self@.contains_key(key@),
            },
    {
        proof {
            use_type_invariant(self);
            lemma_entries_map(self.entries@);
        }
        match self.index_of(key) {
            Some(i) => {
                assert(entries_map(self.entries@).contains_key(self.entries@[i as int].0@));
                Some(&self.entries[i].1)
            },
            None => None,
        }
    }

    /// Stores `value` for `key`, replacing an earlier value in place.
    pub fn insert(&mut self, key: String, value: V)
        ensures
            final(self)@ == old(self)@.insert(key@, value),
    {
        proof {
            use_type_invariant(&*self);
        }
        let found = self.index_of(&key);
        let mut entries: Vec<(String, V)> = Vec::new();
        std::mem::swap(&mut entries, &mut self.entries);
        let ghost s = entries@;
        match found {
            Some(i) => {
                proof {
                    lemma_entries_map_update(s, i as int, (key, value));
                }
                entries[i] = (key, value);
            },
            None => {
                entries.push((key, value));
                proof {
                    assert(entries@.drop_last() =~= s);
                    assert(unique_keys(entries@)) by {
                        assert forall|a: int, b: int| 0 <= a < b < entries@.len() implies (
                        #[trigger] entries@[a]).0@ != (#[trigger] entries@[b]).0@ by {
                            if b < s.len() {
                                assert(entries@[a] == s[a] && entries@[b] == s[b]);
                            } else {
                                assert(entries@[a] == s[a]);
                            }
                        }
                    }
                }
            },
        }
        self.entries = entries;
    }
}

} // verus!
