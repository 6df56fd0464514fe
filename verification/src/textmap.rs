use vstd::prelude::*;

verus! {

/// The keys of an entry sequence, as character sequences.
pub open spec fn keys_of<V>(s: Seq<(String, V)>) -> Seq<Seq<char>> {
    s.map_values(|e: (String, V)| e.0@)
}

/// No key occurs twice among the entries.
pub open spec fn unique_keys<V>(s: Seq<(String, V)>) -> bool {
    forall|i: int, j: int|
        0 <= i < s.len() && 0 <= j < s.len() && i != j ==> #[trigger] s[i].0@ != #[trigger] s[j].0@
}

/// The map that an entry sequence with unique keys stands for.
pub open spec fn entries_map<V>(s: Seq<(String, V)>) -> Map<Seq<char>, V> {
    Map::new(
        |k: Seq<char>| exists|i: int| 0 <= i < s.len() && s[i].0@ == k,
        |k: Seq<char>| s[choose|i: int| 0 <= i < s.len() && s[i].0@ == k].1,
    )
}

/// Each entry's key maps to that entry's value when keys are unique.
pub proof fn lemma_entries_map_at<V>(s: Seq<(String, V)>, i: int)
    requires
        unique_keys(s),
        0 <= i < s.len(),
    ensures
        entries_map(s).contains_key(s[i].0@),
        entries_map(s)[s[i].0@] == s[i].1,
{
    let k = s[i].0@;
    assert(exists|j: int| 0 <= j < s.len() && s[j].0@ == k);
    let j = choose|j: int| 0 <= j < s.len() && s[j].0@ == k;
    assert(j == i);
}

/// With unique keys, the map has as many keys as there are entries.
pub proof fn lemma_entries_map_len<V>(s: Seq<(String, V)>)
    requires
        unique_keys(s),
    ensures
        entries_map(s).dom() == keys_of(s).to_set(),
        entries_map(s).len() == s.len(),
{
    let ks = keys_of(s);
    assert forall|k: Seq<char>| entries_map(s).dom().contains(k) <==> ks.to_set().contains(k) by {
        if entries_map(s).dom().contains(k) {
            let i = choose|i: int| 0 <= i < s.len() && s[i].0@ == k;
            assert(ks[i] == k);
        }
        if ks.to_set().contains(k) {
            let i = choose|i: int| 0 <= i < ks.len() && ks[i] == k;
            assert(s[i].0@ == k);
        }
    }
    assert(entries_map(s).dom() =~= ks.to_set());
    assert(ks.no_duplicates()) by {
        assert forall|i: int, j: int| 0 <= i < ks.len() && 0 <= j < ks.len() && i != j implies ks[i]
            != ks[j] by {
            assert(s[i].0@ != s[j].0@);
        }
    }
    ks.unique_seq_to_set();
}

/// Appending an entry with a new key inserts that key.
pub proof fn lemma_entries_map_push<V>(s: Seq<(String, V)>, e: (String, V))
    requires
        unique_keys(s.push(e)),
    ensures
        entries_map(s.push(e)) == entries_map(s).insert(e.0@, e.1),
{
    let t = s.push(e);
    assert(unique_keys(s)) by {
        assert forall|i: int, j: int|
            0 <= i < s.len() && 0 <= j < s.len() && i != j implies #[trigger] s[i].0@
            != #[trigger] s[j].0@ by {
            assert(t[i] == s[i] && t[j] == s[j]);
        }
    }
    lemma_entries_map_at(t, s.len() as int);
    assert forall|k: Seq<char>|
        #![auto]
        entries_map(t).contains_key(k) <==> entries_map(s).insert(e.0@, e.1).contains_key(k) by {
        if entries_map(t).contains_key(k) && k != e.0@ {
            let j = choose|j: int| 0 <= j < t.len() && t[j].0@ == k;
            assert(t[j] == s[j]);
            lemma_entries_map_at(s, j);
        }
        if entries_map(s).contains_key(k) {
            let j = choose|j: int| 0 <= j < s.len() && s[j].0@ == k;
            assert(t[j] == s[j]);
            lemma_entries_map_at(t, j);
        }
    }
    assert forall|k: Seq<char>|
        #![auto]
        entries_map(t).contains_key(k) implies entries_map(t)[k] == entries_map(s).insert(
            e.0@,
            e.1,
        )[k] by {
        let j = choose|j: int| 0 <= j < t.len() && t[j].0@ == k;
        lemma_entries_map_at(t, j);
        if j < s.len() {
            assert(t[j] == s[j]);
            lemma_entries_map_at(s, j);
        }
    }
    assert(entries_map(t) =~= entries_map(s).insert(e.0@, e.1));
}

/// The entries after the first `n` still have unique keys.
pub proof fn lemma_unique_keys_skip<V>(s: Seq<(String, V)>, n: int)
    requires
        unique_keys(s),
        0 <= n <= s.len(),
    ensures
        unique_keys(s.skip(n)),
{
    let t = s.skip(n);
    assert forall|i: int, j: int|
        0 <= i < t.len() && 0 <= j < t.len() && i != j implies #[trigger] t[i].0@
        != #[trigger] t[j].0@ by {
        assert(t[i] == s[i + n] && t[j] == s[j + n]);
    }
}

/// Dropping the first entry removes its key.
pub proof fn lemma_entries_map_drop_first<V>(s: Seq<(String, V)>)
    requires
        unique_keys(s),
        s.len() > 0,
    ensures
        entries_map(s.drop_first()) == entries_map(s).remove(s[0].0@),
{
    let t = s.drop_first();
    lemma_unique_keys_skip(s, 1);
    assert(t =~= s.skip(1));
    assert forall|k: Seq<char>|
        #![auto]
        entries_map(t).contains_key(k) <==> entries_map(s).remove(s[0].0@).contains_key(k) by {
        if entries_map(t).contains_key(k) {
            let j = choose|j: int| 0 <= j < t.len() && t[j].0@ == k;
            assert(t[j] == s[j + 1]);
            lemma_entries_map_at(s, j + 1);
            assert(s[j + 1].0@ != s[0].0@);
        }
        if entries_map(s).contains_key(k) && k != s[0].0@ {
            let j = choose|j: int| 0 <= j < s.len() && s[j].0@ == k;
            assert(t[j - 1] == s[j]);
            lemma_entries_map_at(t, j - 1);
        }
    }
    assert forall|k: Seq<char>|
        #![auto]
        entries_map(t).contains_key(k) implies entries_map(t)[k] == entries_map(s).remove(
            s[0].0@,
        )[k] by {
        let j = choose|j: int| 0 <= j < t.len() && t[j].0@ == k;
        lemma_entries_map_at(t, j);
        assert(t[j] == s[j + 1]);
        lemma_entries_map_at(s, j + 1);
    }
    assert(entries_map(t) =~= entries_map(s).remove(s[0].0@));
}

/// A map keyed by text, kept as a list of entries in which no key occurs twice.
#[derive(Debug)]
pub struct TextMap<V> {
    entries: Vec<(String, V)>,
}

impl<V> View for TextMap<V> {
    type V = Map<Seq<char>, V>;

    closed spec fn view(&self) -> Map<Seq<char>, V> {
        entries_map(self.entries@)
    }
}

impl<V> TextMap<V> {
    #[verifier::type_invariant]
    closed spec fn keys_are_unique(self) -> bool {
        unique_keys(self.entries@)
    }

    /// The entries in their stored order.
    pub closed spec fn entry_seq(self) -> Seq<(String, V)> {
        self.entries@
    }

    /// An empty map.
    pub fn new() -> (m: Self)
        ensures
            m@ == Map::<Seq<char>, V>::empty(),
            m.entry_seq().len() == 0,
    {
        let m = TextMap { entries: Vec::new() };
        assert(m@ =~= Map::<Seq<char>, V>::empty());
        m
    }

    /// The number of keys.
    pub fn len(&self) -> (n: usize)
        ensures
            n == self@.len(),
    {
        proof {
            use_type_invariant(self);
            lemma_entries_map_len(self.entries@);
        }
        self.entries.len()
    }

    /// Whether there are no keys.
    pub fn is_empty(&self) -> (b: bool)
        ensures
            b == (self@.len() == 0),
            b == (self@.dom() == Set::<Seq<char>>::empty()),
    {
        proof {
            use_type_invariant(self);
            lemma_entries_map_len(self.entries@);
            if self.entries@.len() > 0 {
                lemma_entries_map_at(self.entries@, 0);
            }
        }
        assert(self.entries.len() == 0 ==> self@.dom() =~= Set::<Seq<char>>::empty());
        self.entries.len() == 0
    }

    /// The entries in their stored order: each key once.
    pub fn entries(&self) -> (r: &Vec<(String, V)>)
        ensures
            r@ == self.entry_seq(),
            unique_keys(r@),
            self@ == entries_map(r@),
    {
        proof {
            use_type_invariant(self);
        }
        &self.entries
    }

    /// The position of `key` among the entries.
    fn position(&self, key: &str) -> (r: Option<usize>)
        ensures
            match r {
                Some(i) => i < self.entries@.len() && self.entries@[i as int].0@ == key@,
                None => forall|i: int|
                    0 <= i < self.entries@.len() ==> self.entries@[i].0@ != key@,
            },
    {
        let k: String = key.to_owned();
        let mut i: usize = 0;
        while i < self.entries.len()
            invariant
                i <= self.entries@.len(),
                k@ == key@,
                forall|j: int| 0 <= j < i ==> self.entries@[j].0@ != key@,
            decreases self.entries.len() - i,
        {
            if self.entries[i].0 == k {
                return Some(i);
            }
            i += 1;
        }
        None
    }

    /// Whether `key` has a value.
    pub fn contains_key(&self, key: &str) -> (b: bool)
        ensures
            b == self@.contains_key(key@),
    {
        proof {
            use_type_invariant(self);
        }
        match self.position(key) {
            Some(i) => {
                proof {
                    lemma_entries_map_at(self.entries@, i as int);
                }
                true
            },
            None => false,
        }
    }

    /// The value of `key`, if it has one.
    pub fn get(&self, key: &str) -> (r: Option<&V>)
        ensures
            match r {
                Some(v) => self@.contains_key(key@) && self@[key@] == *v,
                None => !self@.contains_key(key@),
            },
    {
        proof {
            use_type_invariant(self);
        }
        match self.position(key) {
            Some(i) => {
                proof {
                    lemma_entries_map_at(self.entries@, i as int);
                }
                Some(&self.entries[i].1)
            },
            None => None,
        }
    }

    /// Sets the value of `key`, replacing the one it had; a new key goes last.
    pub fn insert(&mut self, key: String, value: V)
        ensures
            final(self)@ == old(self)@.insert(key@, value),
            !old(self)@.contains_key(key@) ==> final(self).entry_seq() == old(self).entry_seq().push(
                (key, value),
            ),
            old(self)@.contains_key(key@) ==> exists|i: int|
                0 <= i < old(self).entry_seq().len() && (#[trigger] old(self).entry_seq()[i]).0@
                    == key@ && final(self).entry_seq() == old(self).entry_seq().update(i, (key, value)),
    {
        proof {
            use_type_invariant(&*self);
        }
        let ghost old_entries = self.entries@;
        let ghost kv = (key, value);
        match self.position(key.as_str()) {
            Some(i) => {
                let mut entries: Vec<(String, V)> = Vec::new();
                std::mem::swap(&mut entries, &mut self.entries);
                entries.set(i, (key, value));
                let ghost e = entries@;
                assert(e =~= old_entries.update(i as int, kv));
                assert(old(self).entry_seq()[i as int].0@ == kv.0@);
                assert(unique_keys(e)) by {
                    assert forall|a: int, b: int|
                        0 <= a < e.len() && 0 <= b < e.len() && a != b implies #[trigger] e[a].0@
                        != #[trigger] e[b].0@ by {
                        assert(old_entries[a].0@ != old_entries[b].0@);
                    }
                }
                proof {
                    lemma_entries_map_at(e, i as int);
                    assert forall|k: Seq<char>|
                        #![auto]
                        entries_map(e).contains_key(k) <==> entries_map(
                            old_entries,
                        ).insert(key@, value).contains_key(k) by {
                        if entries_map(e).contains_key(k) {
                            let j = choose|j: int| 0 <= j < e.len() && e[j].0@ == k;
                            if j != i {
                                lemma_entries_map_at(old_entries, j);
                            }
                        }
                        if entries_map(old_entries).contains_key(k) && k != key@ {
                            let j = choose|j: int| 0 <= j < old_entries.len() && old_entries[j].0@ == k;
                            lemma_entries_map_at(e, j);
                        }
                    }
                    assert forall|k: Seq<char>|
                        #![auto]
                        entries_map(e).contains_key(k) implies entries_map(e)[k] == entries_map(
                            old_entries,
                        ).insert(key@, value)[k] by {
                        let j = choose|j: int| 0 <= j < e.len() && e[j].0@ == k;
                        lemma_entries_map_at(e, j);
                        if j != i {
                            lemma_entries_map_at(old_entries, j);
                        }
                    }
                    assert(entries_map(e) =~= entries_map(old_entries).insert(key@, value));
                }
                self.entries = entries;
            },
            None => {
                let mut entries: Vec<(String, V)> = Vec::new();
                std::mem::swap(&mut entries, &mut self.entries);
                entries.push((key, value));
                let ghost e = entries@;
                assert(e =~= old_entries.push(kv));
                assert(!entries_map(old_entries).contains_key(kv.0@));
                let ghost n = old_entries.len() as int;
                assert(unique_keys(e)) by {
                    assert forall|a: int, b: int|
                        0 <= a < e.len() && 0 <= b < e.len() && a != b implies #[trigger] e[a].0@
                        != #[trigger] e[b].0@ by {
                        if a < n && b < n {
                            assert(old_entries[a].0@ != old_entries[b].0@);
                        }
                    }
                }
                proof {
                    lemma_entries_map_at(e, n);
                    assert forall|k: Seq<char>|
                        #![auto]
                        entries_map(e).contains_key(k) <==> entries_map(
                            old_entries,
                        ).insert(key@, value).contains_key(k) by {
                        if entries_map(e).contains_key(k) {
                            let j = choose|j: int| 0 <= j < e.len() && e[j].0@ == k;
                            if j != n {
                                lemma_entries_map_at(old_entries, j);
                            }
                        }
                        if entries_map(old_entries).contains_key(k) && k != key@ {
                            let j = choose|j: int| 0 <= j < old_entries.len() && old_entries[j].0@ == k;
                            lemma_entries_map_at(e, j);
                        }
                    }
                    assert forall|k: Seq<char>|
                        #![auto]
                        entries_map(e).contains_key(k) implies entries_map(e)[k] == entries_map(
                            old_entries,
                        ).insert(key@, value)[k] by {
                        let j = choose|j: int| 0 <= j < e.len() && e[j].0@ == k;
                        lemma_entries_map_at(e, j);
                        if j != n {
                            lemma_entries_map_at(old_entries, j);
                        }
                    }
                    assert(entries_map(e) =~= entries_map(old_entries).insert(key@, value));
                }
                self.entries = entries;
            },
        }
    }

    /// Removes `key` and gives back its value, if it had one.
    pub fn remove(&mut self, key: &str) -> (r: Option<V>)
        ensures
            final(self)@ == old(self)@.remove(key@),
            match r {
                Some(v) => old(self)@.contains_key(key@) && old(self)@[key@] == v,
                None => !old(self)@.contains_key(key@),
            },
            match r {
                Some(_) => exists|i: int|
                    0 <= i < old(self).entry_seq().len() && (#[trigger] old(self).entry_seq()[i]).0@
                        == key@ && final(self).entry_seq() == old(self).entry_seq().remove(i),
                None => final(self).entry_seq() == old(self).entry_seq(),
            },
    {
        proof {
            use_type_invariant(&*self);
        }
        let ghost old_entries = self.entries@;
        match self.position(key) {
            Some(i) => {
                proof {
                    lemma_entries_map_at(old_entries, i as int);
                }
                let mut entries: Vec<(String, V)> = Vec::new();
                std::mem::swap(&mut entries, &mut self.entries);
                let (_, v) = entries.remove(i);
                let ghost e = entries@;
                assert(e =~= old_entries.remove(i as int));
                assert(old(self).entry_seq()[i as int].0@ == key@);
                assert forall|j: int| 0 <= j < e.len() implies #[trigger] e[j] == (if j < i {
                    old_entries[j]
                } else {
                    old_entries[j + 1]
                }) by {}
                assert(unique_keys(e)) by {
                    assert forall|a: int, b: int|
                        0 <= a < e.len() && 0 <= b < e.len() && a != b implies #[trigger] e[a].0@
                        != #[trigger] e[b].0@ by {
                        let oa = if a < i { a } else { a + 1 };
                        let ob = if b < i { b } else { b + 1 };
                        assert(old_entries[oa].0@ != old_entries[ob].0@);
                    }
                }
                proof {
                    assert forall|k: Seq<char>|
                        #![auto]
                        entries_map(e).contains_key(k) <==> entries_map(old_entries).remove(
                            key@,
                        ).contains_key(k) by {
                        if entries_map(e).contains_key(k) {
                            let j = choose|j: int| 0 <= j < e.len() && e[j].0@ == k;
                            let oj = if j < i { j } else { j + 1 };
                            lemma_entries_map_at(old_entries, oj);
                            assert(old_entries[oj].0@ != old_entries[i as int].0@);
                        }
                        if entries_map(old_entries).contains_key(k) && k != key@ {
                            let j = choose|j: int| 0 <= j < old_entries.len() && old_entries[j].0@ == k;
                            let nj = if j < i { j } else { j - 1 };
                            lemma_entries_map_at(e, nj);
                        }
                    }
                    assert forall|k: Seq<char>|
                        #![auto]
                        entries_map(e).contains_key(k) implies entries_map(e)[k] == entries_map(
                            old_entries,
                        ).remove(key@)[k] by {
                        let j = choose|j: int| 0 <= j < e.len() && e[j].0@ == k;
                        lemma_entries_map_at(e, j);
                        let oj = if j < i { j } else { j + 1 };
                        lemma_entries_map_at(old_entries, oj);
                    }
                    assert(entries_map(e) =~= entries_map(old_entries).remove(key@));
                }
                self.entries = entries;
                Some(v)
            },
            None => {
                proof {
                    assert(entries_map(old_entries) =~= entries_map(old_entries).remove(key@));
                }
                None
            },
        }
    }
}

} // verus!
