use vstd::prelude::*;

use crate::faction::Faction;
use crate::seq_facts::lemma_filter_from;
use crate::unit::PackedUnit;
use crate::vars::{VarName, VarState, VarValue, VarValueView};

verus! {

/// What an entity of the field is.
#[derive(Debug)]
pub enum EntityKind {
    /// A team, whose state names its faction.
    Team,
    /// A hero, child of its team.
    Unit(PackedUnit),
    /// An empty place a hero can stand in: its number and side.
    Slot(usize, Faction),
}

/// One entity of the field: its id, its parent, what it is and the values it
/// carries.
#[derive(Debug)]
pub struct EntityRecord {
    pub entity: u64,
    pub parent: Option<u64>,
    pub kind: EntityKind,
    pub state: VarState,
}

/// The entities of the field, in the order they were created.
#[derive(Debug)]
pub struct World {
    pub next_entity: u64,
    pub entities: Vec<EntityRecord>,
}

/// Whether the record is a team of the given faction.
pub open spec fn is_team_of(r: EntityRecord, faction: Faction) -> bool {
    &&& r.kind is Team
    &&& r.state@.contains_key(VarName::Faction)
    &&& r.state@[VarName::Faction] == VarValueView::Faction(faction)
}

/// Whether `i` is the first team of the faction among the records.
pub open spec fn first_team_at(s: Seq<EntityRecord>, faction: Faction, i: int) -> bool {
    &&& 0 <= i < s.len()
    &&& is_team_of(s[i], faction)
    &&& forall|j: int| 0 <= j < i ==> !is_team_of(#[trigger] s[j], faction)
}

/// Whether the records hold no team of the faction.
pub open spec fn no_team_of(s: Seq<EntityRecord>, faction: Faction) -> bool {
    forall|j: int| 0 <= j < s.len() ==> !is_team_of(#[trigger] s[j], faction)
}

impl World {
    /// Ids, and the ids of parents, are below the next id to hand out, and
    /// every team names its faction.
    pub open spec fn wf(&self) -> bool {
        &&& forall|i: int| 0 <= i < self.entities@.len() ==> (#[trigger] self.entities@[i]).entity < self.next_entity
        &&& forall|i: int| 0 <= i < self.entities@.len() && (#[trigger] self.entities@[i]).parent is Some
            ==> self.entities@[i].parent->0 < self.next_entity
        &&& forall|i: int| 0 <= i < self.entities@.len() && (#[trigger] self.entities@[i]).kind is Team ==> {
            &&& self.entities@[i].state@.contains_key(VarName::Faction)
            &&& self.entities@[i].state@[VarName::Faction] is Faction
        }
    }

    /// A field with no entities.
    pub fn new() -> (res: World)
        ensures
            res.wf(),
            res.entities@.len() == 0,
            res.next_entity == 0,
    {
        World { next_entity: 0, entities: Vec::new() }
    }

    /// The first team of the faction, by position.
    pub fn find_team(&self, faction: Faction) -> (res: Option<usize>)
        requires
            self.wf(),
        ensures
            match res {
                Some(i) => first_team_at(self.entities@, faction, i as int),
                None => no_team_of(self.entities@, faction),
            },
    {
        let mut i: usize = 0;
        while i < self.entities.len()
            invariant
                i <= self.entities@.len(),
                self.wf(),
                forall|j: int| 0 <= j < i ==> !is_team_of(#[trigger] self.entities@[j], faction),
            decreases self.entities.len() - i,
        {
            let r = &self.entities[i];
            match r.kind {
                EntityKind::Team => {
                    match r.state.get(VarName::Faction) {
                        Some(VarValue::Faction(f)) => {
                            if *f == faction {
                                return Some(i);
                            }
                        },
                        _ => {},
                    }
                },
                _ => {},
            }
            i = i + 1;
        }
        None
    }

    /// Removes the entity `e` and all its descendants, at any depth, keeping
    /// the other records in order.
    pub fn despawn_recursive(&mut self, e: u64)
        requires
            old(self).wf(),
        ensures
            final(self).wf(),
            final(self).next_entity == old(self).next_entity,
            final(self).entities@ == old(self).entities@.filter(|r: EntityRecord| !descends_from(old(self).entities@, e, r.entity)),
    {
        let gone = self.descendants(e);
        let mut src: Vec<EntityRecord> = Vec::new();
        std::mem::swap(&mut src, &mut self.entities);
        let ghost taken = src@;
        let ghost pred = |r: EntityRecord| !descends_from(taken, e, r.entity);
        let n = src.len();
        let mut k: usize = 0;
        while k < n
            invariant
                k <= n,
                n == taken.len(),
                taken == old(self).entities@,
                pred == (|r: EntityRecord| !descends_from(taken, e, r.entity)),
                forall|x: u64| gone@.contains(x) <==> descends_from(taken, e, x),
                src@ == taken.subrange(k as int, n as int),
                self.entities@ == taken.subrange(0, k as int).filter(pred),
                self.next_entity == old(self).next_entity,
                forall|i: int| 0 <= i < taken.len() ==> (#[trigger] taken[i]).entity < self.next_entity,
                forall|i: int| 0 <= i < taken.len() && (#[trigger] taken[i]).parent is Some
                    ==> taken[i].parent->0 < self.next_entity,
                forall|i: int| 0 <= i < taken.len() && (#[trigger] taken[i]).kind is Team ==> {
                    &&& taken[i].state@.contains_key(VarName::Faction)
                    &&& taken[i].state@[VarName::Faction] is Faction
                },
            decreases n - k,
        {
            proof {
                reveal_with_fuel(Seq::<_>::filter, 1);
                assert(taken.subrange(0, k as int + 1).drop_last() =~= taken.subrange(0, k as int));
            }
            let r = src.remove(0);
            assert(r == taken[k as int]);
            if !holds(&gone, r.entity) {
                self.entities.push(r);
            }
            k = k + 1;
            assert(src@ =~= taken.subrange(k as int, n as int));
        }
        assert(taken.subrange(0, n as int) =~= taken);
        proof {
            let f = taken.filter(pred);
            lemma_filter_from(taken, pred);
            assert forall|i: int| 0 <= i < f.len() implies (#[trigger] f[i]).entity < self.next_entity
                && (f[i].parent is Some ==> f[i].parent->0 < self.next_entity)
                && (f[i].kind is Team ==> f[i].state@.contains_key(VarName::Faction) && f[i].state@[VarName::Faction] is Faction) by {
                assert(taken.contains(f[i]));
                let j = choose|j: int| 0 <= j < taken.len() && taken[j] == f[i];
                assert(taken[j].entity < self.next_entity);
            }
        }
    }

    /// The ids of `e` and of all its descendants.
    fn descendants(&self, e: u64) -> (res: Vec<u64>)
        ensures
            forall|x: u64| res@.contains(x) <==> descends_from(self.entities@, e, x),
    {
        let ghost s = self.entities@;
        let mut found: Vec<u64> = Vec::new();
        found.push(e);
        proof {
            assert(found@[0] == e);
        }
        loop
            invariant
                s == self.entities@,
                found@.contains(e),
                forall|x: u64| found@.contains(x) ==> descends_from(s, e, x),
            decreases count_outside(s, found@.to_set()),
        {
            match self.new_child(&found) {
                None => {
                    proof {
                        let d = found@.to_set();
                        assert(d.contains(e));
                        assert(closed_under(s, d)) by {
                            assert forall|i: int| 0 <= i < s.len() && (#[trigger] s[i]).parent is Some
                                && d.contains(s[i].parent->0) implies d.contains(s[i].entity) by {
                                assert(found@.contains(s[i].parent->0));
                            }
                        }
                        assert forall|x: u64| descends_from(s, e, x) implies found@.contains(x) by {
                            assert(d.contains(x));
                        }
                    }
                    return found;
                },
                Some(i) => {
                    let ghost d0 = found@.to_set();
                    let ghost f0 = found@;
                    let x = self.entities[i].entity;
                    let ghost p = s[i as int].parent->0;
                    proof {
                        assert(descends_from(s, e, p));
                        assert forall|d: Set<u64>| #[trigger] closed_under(s, d) && d.contains(e) implies d.contains(x) by {
                            assert(d.contains(p));
                        }
                    }
                    found.push(x);
                    proof {
                        let d1 = found@.to_set();
                        assert(found@ == f0.push(x));
                        assert forall|y: u64| d1.contains(y) <==> d0.insert(x).contains(y) by {
                            if f0.contains(y) {
                                let m = choose|m: int| 0 <= m < f0.len() && f0[m] == y;
                                assert(found@[m] == y);
                            }
                            if found@.contains(y) && y != x {
                                let m = choose|m: int| 0 <= m < found@.len() && found@[m] == y;
                                assert(f0[m] == y);
                            }
                            if y == x {
                                assert(found@[f0.len() as int] == x);
                            }
                        }
                        assert(d1 =~= d0.insert(x));
                        assert(found@.contains(e)) by {
                            let m = choose|m: int| 0 <= m < f0.len() && f0[m] == e;
                            assert(found@[m] == e);
                        }
                        lemma_count_outside_shrinks(s, d0, d1, i as int);
                        assert forall|y: u64| found@.contains(y) implies descends_from(s, e, y) by {
                            if y != x {
                                let m = choose|m: int| 0 <= m < found@.len() && found@[m] == y;
                                assert(found@.drop_last()[m] == y);
                            }
                        }
                    }
                },
            }
        }
    }

    /// A record whose parent is among `found` and whose own id is not.
    fn new_child(&self, found: &Vec<u64>) -> (res: Option<usize>)
        ensures
            match res {
                Some(i) => i < self.entities@.len()
                    && self.entities@[i as int].parent is Some
                    && found@.contains(self.entities@[i as int].parent->0)
                    && !found@.contains(self.entities@[i as int].entity),
                None => forall|i: int| 0 <= i < self.entities@.len() && (#[trigger] self.entities@[i]).parent is Some
                    && found@.contains(self.entities@[i].parent->0) ==> found@.contains(self.entities@[i].entity),
            },
    {
        let mut i: usize = 0;
        while i < self.entities.len()
            invariant
                i <= self.entities@.len(),
                forall|j: int| 0 <= j < i && (#[trigger] self.entities@[j]).parent is Some
                    && found@.contains(self.entities@[j].parent->0) ==> found@.contains(self.entities@[j].entity),
            decreases self.entities.len() - i,
        {
            match self.entities[i].parent {
                Some(p) => {
                    if holds(found, p) && !holds(found, self.entities[i].entity) {
                        return Some(i);
                    }
                },
                None => {},
            }
            i = i + 1;
        }
        None
    }
}

/// Whether `x` is among the ids.
fn holds(ids: &Vec<u64>, x: u64) -> (res: bool)
    ensures
        res == ids@.contains(x),
{
    let mut i: usize = 0;
    while i < ids.len()
        invariant
            i <= ids@.len(),
            forall|j: int| 0 <= j < i ==> ids@[j] != x,
        decreases ids.len() - i,
    {
        if ids[i] == x {
            return true;
        }
        i = i + 1;
    }
    false
}

/// Whether every record whose parent is in `d` has its own id in `d`.
pub open spec fn closed_under(s: Seq<EntityRecord>, d: Set<u64>) -> bool {
    forall|i: int| 0 <= i < s.len() && (#[trigger] s[i]).parent is Some && d.contains(s[i].parent->0)
        ==> d.contains(s[i].entity)
}

/// Whether `x` is `e` or a descendant of `e`: it lies in every set of ids
/// that holds `e` and, with a record's parent, holds the record.
pub open spec fn descends_from(s: Seq<EntityRecord>, e: u64, x: u64) -> bool {
    forall|d: Set<u64>| #[trigger] closed_under(s, d) && d.contains(e) ==> d.contains(x)
}

/// How many records have an id outside `d`.
spec fn count_outside(s: Seq<EntityRecord>, d: Set<u64>) -> nat
    decreases s.len(),
{
    if s.len() == 0 {
        0
    } else {
        count_outside(s.drop_last(), d) + if d.contains(s.last().entity) { 0nat } else { 1nat }
    }
}

/// Growing the set by the id of a record outside it counts fewer records.
proof fn lemma_count_outside_shrinks(s: Seq<EntityRecord>, d0: Set<u64>, d1: Set<u64>, i: int)
    requires
        d0.subset_of(d1),
        0 <= i < s.len(),
        !d0.contains(s[i].entity),
        d1.contains(s[i].entity),
    ensures
        count_outside(s, d1) < count_outside(s, d0),
    decreases s.len(),
{
    lemma_count_outside_mono(s.drop_last(), d0, d1);
    if i < s.len() - 1 {
        assert(s.drop_last()[i] == s[i]);
        lemma_count_outside_shrinks(s.drop_last(), d0, d1, i);
    }
}

/// A larger set counts no more records outside it.
proof fn lemma_count_outside_mono(s: Seq<EntityRecord>, d0: Set<u64>, d1: Set<u64>)
    requires
        d0.subset_of(d1),
    ensures
        count_outside(s, d1) <= count_outside(s, d0),
    decreases s.len(),
{
    if s.len() > 0 {
        lemma_count_outside_mono(s.drop_last(), d0, d1);
    }
}

} // verus!
