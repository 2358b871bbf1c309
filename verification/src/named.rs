use vstd::prelude::*;

verus! {

/// A table of values keyed by name, in insertion order, with each name at
/// most once.
#[derive(Debug)]
pub struct NamedTable<V> {
    entries: Vec<(String, V)>,
}

/// No name occurs twice in the list.
pub open spec fn names_distinct<V>(s: Seq<(String, V)>) -> bool {
    forall|i: int, j: int| 0 <= i < s.len() && 0 <= j < s.len() && i != j ==> s[i].0@ != s[j].0@
}

/// Whether some entry of the list carries the name `k`.
pub open spec fn has_name<V>(s: Seq<(String, V)>, k: Seq<char>) -> bool {
    exists|i: int| 0 <= i < s.len() && s[i].0@ == k
}

/// The map from names to values that a list of distinct names stands for.
pub open spec fn table_map<V>(s: Seq<(String, V)>) -> Map<Seq<char>, V> {
    Map::new(
        |k: Seq<char>| has_name(s, k),
        |k: Seq<char>| s[choose|i: int| 0 <= i < s.len() && s[i].0@ == k].1,
    )
}

/// In a list of distinct names, the map holds at a name the value of the
/// entry with that name.
pub proof fn lemma_table_map_at<V>(s: Seq<(String, V)>, i: int)
    requires
        names_distinct(s),
        0 <= i < s.len(),
    ensures
        table_map(s).contains_key(s[i].0@),
        table_map(s)[s[i].0@] == s[i].1,
{
    let k = s[i].0@;
    assert(has_name(s, k));
    let j = choose|j: int| 0 <= j < s.len() && s[j].0@ == k;
    assert(j == i);
}

impl<V> NamedTable<V> {
    #[verifier::type_invariant]
    spec fn inv(self) -> bool {
        names_distinct(self.entries@)
    }

    /// The table as a map from names to values.
    pub closed spec fn map(&self) -> Map<Seq<char>, V> {
        table_map(self.entries@)
    }

    /// The names in insertion order.
    pub closed spec fn order(&self) -> Seq<Seq<char>> {
        self.entries@.map_values(|e: (String, V)| e.0@)
    }

    /// An empty table.
    pub fn new() -> (res: Self)
        ensures
            res.map() == Map::<Seq<char>, V>::empty(),
            res.order().len() == 0,
    {
        let res = NamedTable { entries: Vec::new() };
        assert(res.map() =~= Map::<Seq<char>, V>::empty());
        res
    }

    /// The position of the entry with the given name, if any.
    fn position(&self, name: &String) -> (res: Option<usize>)
        ensures
            match res {
                Some(i) => i < self.entries@.len() && self.entries@[i as int].0@ == name@,
                None => !has_name(self.entries@, name@),
            },
    {
        let mut i: usize = 0;
        while i < self.entries.len()
            invariant
                i <= self.entries@.len(),
                forall|j: int| 0 <= j < i ==> self.entries@[j].0@ != name@,
            decreases self.entries.len() - i,
        {
            if self.entries[i].0 == *name {
                return Some(i);
            }
            i = i + 1;
        }
        None
    }

    /// Whether the table has an entry with the given name.
    pub fn contains(&self, name: &String) -> (res: bool)
        ensures
            res == self.map().contains_key(name@),
    {
        self.position(name).is_some()
    }

    /// The value stored under the given name, if any.
    pub fn get(&self, name: &String) -> (res: Option<&V>)
        ensures
            match res {
                Some(v) => self.map().contains_key(name@) && *v == self.map()[name@],
                None => !self.map().contains_key(name@),
            },
    {
        proof {
            use_type_invariant(self);
        }
        match self.position(name) {
            Some(i) => {
                proof {
                    lemma_table_map_at(self.entries@, i as int);
                }
                Some(&self.entries[i].1)
            },
            None => None,
        }
    }

    /// Stores `value` under `name`, replacing the value stored there before;
    /// a new name goes after all others.
    pub fn insert(&mut self, name: String, value: V)
        ensures
            final(self).map() == old(self).map().insert(name@, value),
            old(self).map().contains_key(name@) ==> final(self).order() == old(self).order(),
            !old(self).map().contains_key(name@) ==> final(self).order() == old(self).order().push(name@),
    {
        proof {
            use_type_invariant(&*self);
        }
        let ghost old_entries = self.entries@;
        match self.position(&name) {
            Some(i) => {
                let mut entries: Vec<(String, V)> = Vec::new();
                std::mem::swap(&mut entries, &mut self.entries);
                let ghost taken = entries@;
                entries.set(i, (name, value));
                proof {
                    assert(names_distinct(entries@));
                    assert forall|k: Seq<char>| #[trigger] table_map(entries@).contains_key(k)
                        == old(self).map().insert(name@, value).contains_key(k) by {
                        assert(taken == old_entries);
                        assert(entries@[i as int].0@ == name@);
                        if k != name@ && has_name(taken, k) {
                            let j = choose|j: int| 0 <= j < taken.len() && taken[j].0@ == k;
                            assert(entries@[j].0@ == k);
                        }
                    }
                    assert forall|k: Seq<char>| #[trigger] table_map(entries@).contains_key(k) implies
                        table_map(entries@)[k] == old(self).map().insert(name@, value)[k] by {
                        let j = choose|j: int| 0 <= j < entries@.len() && entries@[j].0@ == k;
                        lemma_table_map_at(entries@, j);
                        if j != i {
                            lemma_table_map_at(taken, j);
                        }
                    }
                    assert(table_map(entries@) =~= old(self).map().insert(name@, value));
                    assert(entries@.map_values(|e: (String, V)| e.0@) =~= taken.map_values(|e: (String, V)| e.0@));
                }
                self.entries = entries;
            },
            None => {
                let mut entries: Vec<(String, V)> = Vec::new();
                std::mem::swap(&mut entries, &mut self.entries);
                let ghost taken = entries@;
                entries.push((name, value));
                proof {
                    assert(names_distinct(entries@));
                    assert forall|k: Seq<char>| #[trigger] table_map(entries@).contains_key(k)
                        == old(self).map().insert(name@, value).contains_key(k) by {
                        assert(taken == old_entries);
                        assert(entries@[taken.len() as int].0@ == name@);
                        if has_name(entries@, k) && k != name@ {
                            let j = choose|j: int| 0 <= j < entries@.len() && entries@[j].0@ == k;
                            assert(taken[j].0@ == k);
                        }
                        if has_name(taken, k) {
                            let j = choose|j: int| 0 <= j < taken.len() && taken[j].0@ == k;
                            assert(entries@[j].0@ == k);
                        }
                    }
                    assert forall|k: Seq<char>| #[trigger] table_map(entries@).contains_key(k) implies
                        table_map(entries@)[k] == old(self).map().insert(name@, value)[k] by {
                        let j = choose|j: int| 0 <= j < entries@.len() && entries@[j].0@ == k;
                        lemma_table_map_at(entries@, j);
                        if j != taken.len() {
                            lemma_table_map_at(taken, j);
                        }
                    }
                    assert(table_map(entries@) =~= old(self).map().insert(name@, value));
                    assert(entries@.map_values(|e: (String, V)| e.0@) =~= taken.map_values(|e: (String, V)| e.0@).push(name@));
                }
                self.entries = entries;
            },
        }
    }
}

} // verus!
