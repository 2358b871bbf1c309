use vstd::prelude::*;

use crate::faction::Faction;
use crate::plugins::HeroEditorPlugin;
use crate::resourses::packed_team::{unpacked, PackedTeam, MAX_SLOTS};
use crate::unit::{clone_units, units_view, PackedUnit, PackedUnitView};
use crate::world::World;

verus! {

/// What the hero editor keeps between frames, camera aside: the hero being
/// edited with its entity, the heroes of the two sides, the hovered hero's
/// id, and the teams saved with the Save button.
#[derive(Debug)]
pub struct HeroEditorData {
    pub active: Option<(u64, PackedUnit)>,
    pub teams: (Vec<PackedUnit>, Vec<PackedUnit>),
    pub hovered_id: Option<String>,
    pub saved_teams: (Vec<PackedUnit>, Vec<PackedUnit>),
}

/// The colour a shown value is written in.
#[derive(Debug, Clone, Copy, PartialEq, Eq, Structural)]
pub enum ValueColor {
    LightGray,
    Red,
}

/// A hero of the field as the editor saves it: its side, its slot, and the
/// hero.
pub ghost struct FieldHeroView {
    pub faction: Faction,
    pub slot: i32,
    pub unit: PackedUnitView,
}

/// The values of a list of field heroes.
pub open spec fn field_view(s: Seq<(Faction, i32, PackedUnit)>) -> Seq<FieldHeroView> {
    s.map_values(|h: (Faction, i32, PackedUnit)| FieldHeroView { faction: h.0, slot: h.1, unit: h.2@ })
}

/// `x` placed into `s`, which is ordered by slot, after every hero whose
/// slot is not greater.
pub open spec fn insert_by_slot(s: Seq<FieldHeroView>, x: FieldHeroView) -> Seq<FieldHeroView>
    decreases s.len(),
{
    if s.len() == 0 {
        seq![x]
    } else if s[0].slot > x.slot {
        seq![x] + s
    } else {
        seq![s[0]] + insert_by_slot(s.drop_first(), x)
    }
}

/// The heroes sorted by slot, heroes of equal slot keeping their order.
pub open spec fn sort_by_slot(s: Seq<FieldHeroView>) -> Seq<FieldHeroView>
    decreases s.len(),
{
    if s.len() == 0 {
        Seq::empty()
    } else {
        insert_by_slot(sort_by_slot(s.drop_last()), s.last())
    }
}

/// The heroes of one side, in the order given: the left side, or every
/// other side.
pub open spec fn side_units(s: Seq<FieldHeroView>, left: bool) -> Seq<PackedUnitView> {
    s.filter(|h: FieldHeroView| (h.faction == Faction::Left) == left).map_values(|h: FieldHeroView| h.unit)
}

/// Inserting at the first hero with a greater slot is inserting by slot.
proof fn lemma_insert_by_slot(s: Seq<FieldHeroView>, x: FieldHeroView, p: int)
    requires
        0 <= p <= s.len(),
        forall|i: int| 0 <= i < p ==> s[i].slot <= x.slot,
        p < s.len() ==> s[p].slot > x.slot,
    ensures
        insert_by_slot(s, x) == s.take(p).push(x) + s.skip(p),
    decreases p,
{
    if p == 0 {
        if s.len() == 0 {
            assert(s.take(0).push(x) + s.skip(0) =~= seq![x]);
        } else {
            assert(s.take(0).push(x) + s.skip(0) =~= seq![x] + s);
        }
    } else {
        lemma_insert_by_slot(s.drop_first(), x, p - 1);
        assert(seq![s[0]] + (s.drop_first().take(p - 1).push(x) + s.drop_first().skip(p - 1)) =~= s.take(p).push(x) + s.skip(p));
    }
}

/// Whether the heroes are in slot order.
pub open spec fn sorted_by_slot(s: Seq<FieldHeroView>) -> bool {
    forall|i: int, j: int| 0 <= i <= j < s.len() ==> s[i].slot <= s[j].slot
}

/// Inserting by slot into heroes in slot order keeps them in order and adds
/// exactly the one hero.
proof fn lemma_insert_by_slot_sorted(s: Seq<FieldHeroView>, x: FieldHeroView)
    requires
        sorted_by_slot(s),
    ensures
        sorted_by_slot(insert_by_slot(s, x)),
        insert_by_slot(s, x).to_multiset() =~= s.to_multiset().insert(x),
    decreases s.len(),
{
    broadcast use vstd::seq_lib::group_to_multiset_ensures;
    if s.len() == 0 {
        assert(seq![x] =~= Seq::<FieldHeroView>::empty().push(x));
    } else if s[0].slot > x.slot {
        assert(seq![x] + s =~= s.insert(0, x));
    } else {
        let rest = s.drop_first();
        let r = insert_by_slot(rest, x);
        lemma_insert_by_slot_sorted(rest, x);
        assert(seq![s[0]] + r =~= r.insert(0, s[0]));
        assert(s =~= rest.insert(0, s[0]));
        let res = seq![s[0]] + r;
        assert forall|i: int, j: int| 0 <= i <= j < res.len() implies res[i].slot <= res[j].slot by {
            if i == 0 && j > 0 {
                let e = r[j - 1];
                assert(r.contains(e));
                assert(r.to_multiset().count(e) > 0);
                if e != x {
                    assert(rest.to_multiset().count(e) > 0);
                    assert(rest.contains(e));
                    let k = choose|k: int| 0 <= k < rest.len() && rest[k] == e;
                    assert(s[k + 1] == e);
                }
            }
        }
    }
}

/// Sorting by slot orders the heroes and keeps exactly the same heroes.
proof fn lemma_sort_by_slot(s: Seq<FieldHeroView>)
    ensures
        sorted_by_slot(sort_by_slot(s)),
        sort_by_slot(s).to_multiset() =~= s.to_multiset(),
    decreases s.len(),
{
    broadcast use vstd::seq_lib::group_to_multiset_ensures;
    if s.len() > 0 {
        lemma_sort_by_slot(s.drop_last());
        lemma_insert_by_slot_sorted(sort_by_slot(s.drop_last()), s.last());
        assert(s =~= s.drop_last().push(s.last()));
    }
}

/// Splitting heroes by side keeps each of them on exactly one side.
proof fn lemma_sides(s: Seq<FieldHeroView>)
    ensures
        side_units(s, true).len() + side_units(s, false).len() == s.len(),
    decreases s.len(),
{
    reveal_with_fuel(Seq::<_>::filter, 1);
    if s.len() > 0 {
        lemma_sides(s.drop_last());
    }
}

/// Saving the field (see [`HeroEditorData::save`]) loses no hero and adds
/// none: the heroes, sorted by slot, are exactly the field's heroes in slot
/// order, and the two teams together hold as many heroes as the field.
pub proof fn law_save_keeps_heroes(heroes: Seq<FieldHeroView>)
    ensures
        sorted_by_slot(sort_by_slot(heroes)),
        sort_by_slot(heroes).to_multiset() == heroes.to_multiset(),
        side_units(sort_by_slot(heroes), true).len() + side_units(sort_by_slot(heroes), false).len() == heroes.len(),
{
    broadcast use vstd::seq_lib::group_to_multiset_ensures;
    lemma_sort_by_slot(heroes);
    lemma_sides(sort_by_slot(heroes));
    assert(sort_by_slot(heroes).len() == sort_by_slot(heroes).to_multiset().len());
    assert(heroes.len() == heroes.to_multiset().len());
}

/// The heroes sorted by slot; heroes of equal slot keep their order.
fn sort_heroes(src: Vec<(Faction, i32, PackedUnit)>) -> (res: Vec<(Faction, i32, PackedUnit)>)
    ensures
        field_view(res@) == sort_by_slot(field_view(src@)),
{
    let ghost all = field_view(src@);
    let mut src = src;
    let n = src.len();
    let mut sorted: Vec<(Faction, i32, PackedUnit)> = Vec::new();
    let mut k: usize = 0;
    while k < n
        invariant
            k <= n,
            n == all.len(),
            src@.len() == n - k,
            field_view(src@) == all.subrange(k as int, n as int),
            field_view(sorted@) == sort_by_slot(all.subrange(0, k as int)),
        decreases n - k,
    {
        assert(field_view(src@)[0] == all[k as int]);
        let ghost src0 = src@;
        let x = src.remove(0);
        let ghost xv = FieldHeroView { faction: x.0, slot: x.1, unit: x.2@ };
        assert(xv == all[k as int]);
        assert(field_view(src@) =~= field_view(src0).subrange(1, src0.len() as int));
        let mut p: usize = 0;
        while p < sorted.len() && sorted[p].1 <= x.1
            invariant
                p <= sorted@.len(),
                forall|i: int| 0 <= i < p ==> sorted@[i].1 <= x.1,
            decreases sorted.len() - p,
        {
            p = p + 1;
        }
        let ghost before = field_view(sorted@);
        proof {
            assert(forall|i: int| 0 <= i < sorted@.len() ==> before[i].slot == sorted@[i].1);
            lemma_insert_by_slot(before, xv, p as int);
            assert(all.subrange(0, k as int + 1).drop_last() =~= all.subrange(0, k as int));
        }
        sorted.insert(p, x);
        k = k + 1;
        proof {
            assert(field_view(sorted@) =~= before.take(p as int).push(xv) + before.skip(p as int));
            assert(field_view(src@) =~= all.subrange(k as int, n as int));
        }
    }
    assert(all.subrange(0, n as int) =~= all);
    sorted
}

impl Default for HeroEditorData {
    /// Nothing edited, no heroes, nothing hovered and nothing saved.
    fn default() -> (res: HeroEditorData)
        ensures
            res.active is None,
            res.teams.0@.len() == 0,
            res.teams.1@.len() == 0,
            res.hovered_id is None,
            res.saved_teams.0@.len() == 0,
            res.saved_teams.1@.len() == 0,
    {
        HeroEditorData {
            active: None,
            teams: (Vec::new(), Vec::new()),
            hovered_id: None,
            saved_teams: (Vec::new(), Vec::new()),
        }
    }
}

impl HeroEditorData {
    /// Takes the heroes of the field, given with their side and slot, as the
    /// two teams: sorted by slot, heroes of equal slot keeping their order,
    /// left heroes for the first team and the others for the second.
    pub fn save(&mut self, heroes: Vec<(Faction, i32, PackedUnit)>)
        ensures
            units_view(final(self).teams.0@) == side_units(sort_by_slot(field_view(heroes@)), true),
            units_view(final(self).teams.1@) == side_units(sort_by_slot(field_view(heroes@)), false),
            final(self).active == old(self).active,
            final(self).hovered_id == old(self).hovered_id,
            final(self).saved_teams == old(self).saved_teams,
    {
        let sorted = Self::sort_for_save(heroes);
        let ghost sv = field_view(sorted@);
        let mut left: Vec<PackedUnit> = Vec::new();
        let mut right: Vec<PackedUnit> = Vec::new();
        let mut rest = sorted;
        let n = rest.len();
        let mut k: usize = 0;
        while k < n
            invariant
                k <= n,
                n == sv.len(),
                rest@.len() == n - k,
                field_view(rest@) == sv.subrange(k as int, n as int),
                units_view(left@) == side_units(sv.subrange(0, k as int), true),
                units_view(right@) == side_units(sv.subrange(0, k as int), false),
            decreases n - k,
        {
            assert(field_view(rest@)[0] == sv[k as int]);
            let ghost rest0 = rest@;
            let (faction, _slot, unit) = rest.remove(0);
            assert(field_view(rest@) =~= field_view(rest0).subrange(1, rest0.len() as int));
            proof {
                reveal_with_fuel(Seq::<_>::filter, 1);
                assert(sv.subrange(0, k as int + 1).drop_last() =~= sv.subrange(0, k as int));
            }
            let ghost uv = unit@;
            let ghost l0 = left@;
            let ghost r0 = right@;
            if faction == Faction::Left {
                left.push(unit);
                proof {
                    let f = sv.subrange(0, k as int).filter(|h: FieldHeroView| (h.faction == Faction::Left) == true);
                    assert(f.push(sv[k as int]).map_values(|h: FieldHeroView| h.unit) =~= f.map_values(|h: FieldHeroView| h.unit).push(uv));
                    assert(units_view(left@) =~= units_view(l0).push(uv));
                }
            } else {
                right.push(unit);
                proof {
                    let f = sv.subrange(0, k as int).filter(|h: FieldHeroView| (h.faction == Faction::Left) == false);
                    assert(f.push(sv[k as int]).map_values(|h: FieldHeroView| h.unit) =~= f.map_values(|h: FieldHeroView| h.unit).push(uv));
                    assert(units_view(right@) =~= units_view(r0).push(uv));
                }
            }
            k = k + 1;
            assert(field_view(rest@) =~= sv.subrange(k as int, n as int));
        }
        assert(sv.subrange(0, n as int) =~= sv);
        self.teams = (left, right);
    }

    /// The heroes sorted by slot for saving.
    fn sort_for_save(heroes: Vec<(Faction, i32, PackedUnit)>) -> (res: Vec<(Faction, i32, PackedUnit)>)
        ensures
            field_view(res@) == sort_by_slot(field_view(heroes@)),
    {
        sort_heroes(heroes)
    }

    /// Puts the editor's teams on the field: the first team as the left
    /// side and the second as the right side (see [`PackedTeam::unpack`]),
    /// each replacing the side's team on the field, with empty team states.
    pub fn load(&self, world: &mut World)
        requires
            old(world).wf(),
            old(world).next_entity + 2 + 2 * MAX_SLOTS + self.teams.0@.len() + self.teams.1@.len() <= u64::MAX,
            self.teams.0@.len() < i32::MAX,
            self.teams.1@.len() < i32::MAX,
        ensures
            final(world).wf(),
            exists|mid: World, left: Seq<PackedUnit>, right: Seq<PackedUnit>| {
                &&& units_view(left) == units_view(self.teams.0@)
                &&& units_view(right) == units_view(self.teams.1@)
                &&& unpacked(*old(world), left, Map::empty(), Faction::Left, mid)
                &&& unpacked(mid, right, Map::empty(), Faction::Right, *final(world))
            },
    {
        let left = PackedTeam::new(clone_units(&self.teams.0));
        assert(units_view(left.units@).len() == units_view(self.teams.0@).len());
        let ghost lu = left.units@;
        left.unpack(Faction::Left, world);
        let ghost mid = *world;
        let right = PackedTeam::new(clone_units(&self.teams.1));
        assert(units_view(right.units@).len() == units_view(self.teams.1@).len());
        let ghost ru = right.units@;
        right.unpack(Faction::Right, world);
        assert(unpacked(mid, ru, Map::empty(), Faction::Right, *world));
    }

    /// Empties both teams and forgets the hovered hero.
    pub fn clear(&mut self)
        ensures
            final(self).teams.0@.len() == 0,
            final(self).teams.1@.len() == 0,
            final(self).hovered_id is None,
            final(self).active == old(self).active,
            final(self).saved_teams == old(self).saved_teams,
    {
        self.teams.0.clear();
        self.teams.1.clear();
        self.hovered_id = None;
    }

    /// The Save button: the current teams are kept aside.
    pub fn save_teams(&mut self)
        ensures
            units_view(final(self).saved_teams.0@) == units_view(old(self).teams.0@),
            units_view(final(self).saved_teams.1@) == units_view(old(self).teams.1@),
            final(self).teams == old(self).teams,
            final(self).active == old(self).active,
            final(self).hovered_id == old(self).hovered_id,
    {
        self.saved_teams = (clone_units(&self.teams.0), clone_units(&self.teams.1));
    }

    /// The Load button: the teams kept aside come back.
    pub fn load_teams(&mut self)
        ensures
            units_view(final(self).teams.0@) == units_view(old(self).saved_teams.0@),
            units_view(final(self).teams.1@) == units_view(old(self).saved_teams.1@),
            final(self).saved_teams == old(self).saved_teams,
            final(self).active == old(self).active,
            final(self).hovered_id == old(self).hovered_id,
    {
        self.teams = (clone_units(&self.saved_teams.0), clone_units(&self.saved_teams.1));
    }

    /// The Clear Statuses button: every hero of both teams loses all its
    /// statuses, and nothing else changes.
    pub fn clear_statuses(&mut self)
        ensures
            units_view(final(self).teams.0@) == units_view(old(self).teams.0@).map_values(
                |u: PackedUnitView| PackedUnitView { statuses: Seq::empty(), ..u }),
            units_view(final(self).teams.1@) == units_view(old(self).teams.1@).map_values(
                |u: PackedUnitView| PackedUnitView { statuses: Seq::empty(), ..u }),
            final(self).saved_teams == old(self).saved_teams,
            final(self).active == old(self).active,
            final(self).hovered_id == old(self).hovered_id,
    {
        let mut left: Vec<PackedUnit> = Vec::new();
        let mut right: Vec<PackedUnit> = Vec::new();
        std::mem::swap(&mut left, &mut self.teams.0);
        std::mem::swap(&mut right, &mut self.teams.1);
        self.teams.0 = Self::without_statuses(left);
        self.teams.1 = Self::without_statuses(right);
    }

    /// The heroes with their statuses removed.
    fn without_statuses(units: Vec<PackedUnit>) -> (res: Vec<PackedUnit>)
        ensures
            units_view(res@) == units_view(units@).map_values(|u: PackedUnitView| PackedUnitView { statuses: Seq::empty(), ..u }),
    {
        let ghost orig = units_view(units@);
        let mut units = units;
        let mut i: usize = 0;
        while i < units.len()
            invariant
                i <= units@.len(),
                units@.len() == orig.len(),
                forall|j: int| 0 <= j < i ==> (#[trigger] units@[j])@ == (PackedUnitView { statuses: Seq::empty(), ..orig[j] }),
                forall|j: int| i <= j < units@.len() ==> (#[trigger] units@[j])@ == orig[j],
            decreases units.len() - i,
        {
            let mut u = units.remove(i);
            u.statuses.clear();
            assert(u@.statuses =~= Seq::<(Seq<char>, i32)>::empty());
            units.insert(i, u);
            i = i + 1;
        }
        assert(units_view(units@) =~= orig.map_values(|u: PackedUnitView| PackedUnitView { statuses: Seq::empty(), ..u }));
        units
    }
}

impl HeroEditorPlugin {
    /// Entering the editor: no hero is being edited.
    pub fn on_enter(data: &mut HeroEditorData)
        ensures
            final(data).active is None,
            final(data).teams == old(data).teams,
            final(data).hovered_id == old(data).hovered_id,
            final(data).saved_teams == old(data).saved_teams,
    {
        data.active = None;
    }

    /// Saves the heroes on the field into the editor's teams (see
    /// [`HeroEditorData::save`]).
    pub fn save(data: &mut HeroEditorData, heroes: Vec<(Faction, i32, PackedUnit)>)
        ensures
            units_view(final(data).teams.0@) == side_units(sort_by_slot(field_view(heroes@)), true),
            units_view(final(data).teams.1@) == side_units(sort_by_slot(field_view(heroes@)), false),
            final(data).active == old(data).active,
            final(data).hovered_id == old(data).hovered_id,
            final(data).saved_teams == old(data).saved_teams,
    {
        data.save(heroes);
    }

    /// Leaving the editor saves the heroes on the field (see
    /// [`HeroEditorPlugin::save`]); the field is then emptied by the caller.
    pub fn on_exit(data: &mut HeroEditorData, heroes: Vec<(Faction, i32, PackedUnit)>)
        ensures
            units_view(final(data).teams.0@) == side_units(sort_by_slot(field_view(heroes@)), true),
            units_view(final(data).teams.1@) == side_units(sort_by_slot(field_view(heroes@)), false),
            final(data).active == old(data).active,
            final(data).hovered_id == old(data).hovered_id,
            final(data).saved_teams == old(data).saved_teams,
    {
        Self::save(data, heroes);
    }

    /// The Clear button: both teams are emptied, the hovered hero forgotten,
    /// and the editor entered afresh, with no hero being edited.
    pub fn clear(data: &mut HeroEditorData)
        ensures
            final(data).teams.0@.len() == 0,
            final(data).teams.1@.len() == 0,
            final(data).hovered_id is None,
            final(data).active is None,
            final(data).saved_teams == old(data).saved_teams,
    {
        data.clear();
        Self::on_enter(data);
    }
}

/// A value as the editor shows it: its text in light gray, or the error's
/// text in red.
pub fn show_value(value: Result<String, String>) -> (res: (String, ValueColor))
    ensures
        match value {
            Ok(v) => res.0@ == v@ && res.1 == ValueColor::LightGray,
            Err(e) => res.0@ == e@ && res.1 == ValueColor::Red,
        },
{
    match value {
        Ok(v) => (v, ValueColor::LightGray),
        Err(e) => (e, ValueColor::Red),
    }
}

} // verus!
