use vstd::prelude::*;

verus! {

/// A hero as it is stored outside the battle field.
#[derive(Debug)]
pub struct PackedUnit {
    pub name: String,
    pub hp: i32,
    pub atk: i32,
    pub stacks: i32,
    pub level: i32,
    pub houses: String,
    pub description: String,
    /// Status names with their charges, in the order they were added.
    pub statuses: Vec<(String, i32)>,
}

/// The mathematical value of a [`PackedUnit`].
pub ghost struct PackedUnitView {
    pub name: Seq<char>,
    pub hp: i32,
    pub atk: i32,
    pub stacks: i32,
    pub level: i32,
    pub houses: Seq<char>,
    pub description: Seq<char>,
    pub statuses: Seq<(Seq<char>, i32)>,
}

/// The value of a list of status charges.
pub open spec fn status_list_view(v: Seq<(String, i32)>) -> Seq<(Seq<char>, i32)> {
    v.map_values(|p: (String, i32)| (p.0@, p.1))
}

impl View for PackedUnit {
    type V = PackedUnitView;

    open spec fn view(&self) -> PackedUnitView {
        PackedUnitView {
            name: self.name@,
            hp: self.hp,
            atk: self.atk,
            stacks: self.stacks,
            level: self.level,
            houses: self.houses@,
            description: self.description@,
            statuses: status_list_view(self.statuses@),
        }
    }
}

/// The value of a list of units.
pub open spec fn units_view(v: Seq<PackedUnit>) -> Seq<PackedUnitView> {
    v.map_values(|u: PackedUnit| u@)
}

/// Viewing a list of units commutes with appending a unit.
pub proof fn lemma_units_view_push(s: Seq<PackedUnit>, u: PackedUnit)
    ensures
        units_view(s.push(u)) == units_view(s).push(u@),
{
    assert(units_view(s.push(u)) =~= units_view(s).push(u@));
}

/// Copies a list of status charges element by element.
pub fn clone_status_list(v: &Vec<(String, i32)>) -> (res: Vec<(String, i32)>)
    ensures
        status_list_view(res@) == status_list_view(v@),
{
    let mut res: Vec<(String, i32)> = Vec::new();
    let mut i: usize = 0;
    while i < v.len()
        invariant
            i <= v.len(),
            res.len() == i,
            forall|j: int| 0 <= j < i ==> (#[trigger] res@[j]).0@ == v@[j].0@ && res@[j].1 == v@[j].1,
        decreases v.len() - i,
    {
        let (name, charges) = &v[i];
        res.push((name.clone(), *charges));
        i = i + 1;
    }
    assert(status_list_view(res@) =~= status_list_view(v@));
    res
}

/// The position of the first entry for status `name`, if any.
pub open spec fn find_status(s: Seq<(Seq<char>, i32)>, name: Seq<char>) -> Option<int>
    decreases s.len(),
{
    if s.len() == 0 {
        None
    } else if s[0].0 == name {
        Some(0)
    } else {
        match find_status(s.drop_first(), name) {
            Some(i) => Some(i + 1),
            None => None,
        }
    }
}

/// The charges listed for status `name`: those of its first entry, or none.
pub open spec fn charges_of(s: Seq<(Seq<char>, i32)>, name: Seq<char>) -> int {
    match find_status(s, name) {
        Some(i) => s[i].1 as int,
        None => 0,
    }
}

/// The status list after one charge of status `name` is added: its first
/// entry gets one more charge, or a new entry with one charge comes last.
pub open spec fn spec_add_status(s: Seq<(Seq<char>, i32)>, name: Seq<char>) -> Seq<(Seq<char>, i32)> {
    match find_status(s, name) {
        Some(i) => s.update(i, (name, (s[i].1 + 1) as i32)),
        None => s.push((name, 1i32)),
    }
}

/// A found entry is in the list and carries the name, and no earlier entry
/// does.
proof fn lemma_find_status(s: Seq<(Seq<char>, i32)>, name: Seq<char>)
    ensures
        match find_status(s, name) {
            Some(i) => 0 <= i < s.len() && s[i].0 == name && forall|j: int| 0 <= j < i ==> s[j].0 != name,
            None => forall|j: int| 0 <= j < s.len() ==> s[j].0 != name,
        },
    decreases s.len(),
{
    if s.len() > 0 && s[0].0 != name {
        lemma_find_status(s.drop_first(), name);
        match find_status(s.drop_first(), name) {
            Some(i) => {
                assert forall|j: int| 0 <= j < i + 1 implies s[j].0 != name by {
                    if j > 0 {
                        assert(s[j] == s.drop_first()[j - 1]);
                    }
                }
            },
            None => {
                assert forall|j: int| 0 <= j < s.len() implies s[j].0 != name by {
                    if j > 0 {
                        assert(s[j] == s.drop_first()[j - 1]);
                    }
                }
            },
        }
    }
}

/// Adding a charge of a status gives that status one more charge and
/// leaves the charges of every other status as they were.
pub proof fn law_add_status_charges(s: Seq<(Seq<char>, i32)>, name: Seq<char>, other: Seq<char>)
    requires
        charges_of(s, name) < i32::MAX,
    ensures
        charges_of(spec_add_status(s, name), name) == charges_of(s, name) + 1,
        other != name ==> charges_of(spec_add_status(s, name), other) == charges_of(s, other),
{
    let t = spec_add_status(s, name);
    lemma_find_status(s, name);
    lemma_find_status(t, name);
    lemma_find_status(s, other);
    lemma_find_status(t, other);
    match find_status(s, name) {
        Some(i) => {
            assert(t[i].0 == name);
            match find_status(t, name) {
                Some(k) => {
                    if k < i {
                        assert(t[k] == s[k]);
                    }
                },
                None => {},
            }
            if other != name {
                match find_status(s, other) {
                    Some(k) => {
                        assert(t[k] == s[k]);
                        match find_status(t, other) {
                            Some(m) => {
                                if m < k {
                                    assert(t[m] == s[m]);
                                }
                            },
                            None => {},
                        }
                    },
                    None => {
                        match find_status(t, other) {
                            Some(m) => {
                                assert(t[m] == s[m]);
                            },
                            None => {},
                        }
                    },
                }
            }
        },
        None => {
            assert(t[s.len() as int].0 == name);
            match find_status(t, name) {
                Some(k) => {
                    if k < s.len() {
                        assert(t[k] == s[k]);
                    }
                },
                None => {},
            }
            if other != name {
                match find_status(s, other) {
                    Some(k) => {
                        assert(t[k] == s[k]);
                        match find_status(t, other) {
                            Some(m) => {
                                if m < k {
                                    assert(t[m] == s[m]);
                                }
                            },
                            None => {},
                        }
                    },
                    None => {
                        match find_status(t, other) {
                            Some(m) => {
                                if m < s.len() {
                                    assert(t[m] == s[m]);
                                }
                            },
                            None => {},
                        }
                    },
                }
            }
        },
    }
}

impl PackedUnit {
    /// Adds one charge of status `name`: its first entry gets one more
    /// charge, or it is listed last with one charge.
    pub fn add_status(&mut self, name: String)
        requires
            charges_of(old(self)@.statuses, name@) < i32::MAX,
        ensures
            final(self)@ == (PackedUnitView { statuses: spec_add_status(old(self)@.statuses, name@), ..old(self)@ }),
    {
        let ghost s = self@.statuses;
        proof {
            lemma_find_status(s, name@);
        }
        let mut i: usize = 0;
        while i < self.statuses.len()
            invariant
                i <= self.statuses@.len(),
                s == status_list_view(self.statuses@),
                self@ == old(self)@,
                charges_of(s, name@) < i32::MAX,
                forall|j: int| 0 <= j < i ==> s[j].0 != name@,
            decreases self.statuses.len() - i,
        {
            if self.statuses[i].0 == name {
                assert(s[i as int].0 == name@);
                assert(find_status(s, name@) == Some(i as int)) by {
                    lemma_find_status(s, name@);
                    match find_status(s, name@) {
                        Some(k) => {
                            if k < i {
                                assert(s[k].0 != name@);
                            } else if k > i {
                                assert(s[i as int].0 != name@);
                            }
                        },
                        None => {},
                    }
                }
                let c = self.statuses[i].1;
                assert(c == s[i as int].1);
                self.statuses.set(i, (name, c + 1));
                assert(status_list_view(self.statuses@) =~= spec_add_status(s, name@));
                return;
            }
            i = i + 1;
        }
        assert(find_status(s, name@) is None) by {
            lemma_find_status(s, name@);
            match find_status(s, name@) {
                Some(k) => {
                    assert(s[k].0 != name@);
                },
                None => {},
            }
        }
        let ghost nv = name@;
        self.statuses.push((name, 1));
        assert(status_list_view(self.statuses@) =~= s.push((nv, 1i32)));
    }

    /// An exact copy of the unit.
    pub fn clone(&self) -> (res: PackedUnit)
        ensures
            res@ == self@,
    {
        PackedUnit {
            name: self.name.clone(),
            hp: self.hp,
            atk: self.atk,
            stacks: self.stacks,
            level: self.level,
            houses: self.houses.clone(),
            description: self.description.clone(),
            statuses: clone_status_list(&self.statuses),
        }
    }
}

/// Copies a list of units element by element.
pub fn clone_units(v: &Vec<PackedUnit>) -> (res: Vec<PackedUnit>)
    ensures
        units_view(res@) == units_view(v@),
{
    let mut res: Vec<PackedUnit> = Vec::new();
    let mut i: usize = 0;
    while i < v.len()
        invariant
            i <= v.len(),
            res.len() == i,
            forall|j: int| 0 <= j < i ==> (#[trigger] res@[j])@ == v@[j]@,
        decreases v.len() - i,
    {
        res.push(v[i].clone());
        i = i + 1;
    }
    assert(units_view(res@) =~= units_view(v@));
    res
}

} // verus!
