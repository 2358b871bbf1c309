use vstd::prelude::*;

use crate::logic::deaths::statuses_fire;
use crate::logic::effects::QueuedEffectView;
use crate::faction::Faction;
use crate::resources::evaluate::{find_unit, find_unit_at};
use crate::logic::model::{lemma_unit_views_push, lemma_unit_views_remove_first, unit_views, EffectId, Position, Unit, UnitView};
use crate::logic::{fire_status, fires, lemma_push_all_concat, push_all, Logic, TriggerQuery, TriggerQueryView};

verus! {

/// The units whose flag equals `want`, in order; units and flags are paired
/// by position.
pub open spec fn pick(units: Seq<UnitView>, done: Seq<bool>, want: bool) -> Seq<UnitView>
    decreases units.len(),
{
    if units.len() == 0 {
        Seq::empty()
    } else {
        let k = units.len() - 1;
        pick(units.drop_last(), done, want) + if done[k] == want { seq![units[k]] } else { Seq::empty() }
    }
}

/// The queues after the spawn effects of each arriving unit are queued at
/// the back, unit after unit, each unit being owner, creator and target.
pub open spec fn spawn_queues(q: Seq<(Seq<char>, Seq<QueuedEffectView<EffectId>>)>, arrived: Seq<UnitView>) -> Seq<(Seq<char>, Seq<QueuedEffectView<EffectId>>)>
    decreases arrived.len(),
{
    if arrived.len() == 0 {
        q
    } else {
        let u = arrived.last();
        push_all(spawn_queues(q, arrived.drop_last()), statuses_fire(u.statuses, TriggerQueryView::Spawn, u.id, u.id, u.id), false)
    }
}

/// Processing spawns loses and duplicates no unit (see
/// [`Logic::process_spawns`]): the units that arrive and those that keep
/// waiting are, together, exactly the units that were waiting.
pub proof fn law_spawns_partition(units: Seq<UnitView>, done: Seq<bool>)
    requires
        done.len() == units.len(),
    ensures
        pick(units, done, true).to_multiset().add(pick(units, done, false).to_multiset()) == units.to_multiset(),
        pick(units, done, true).len() + pick(units, done, false).len() == units.len(),
{
    lemma_pick_partition(units, done);
}

/// Picking by flag splits the units, given at most as many units as flags.
proof fn lemma_pick_partition(units: Seq<UnitView>, done: Seq<bool>)
    requires
        units.len() <= done.len(),
    ensures
        pick(units, done, true).to_multiset().add(pick(units, done, false).to_multiset()) == units.to_multiset(),
        pick(units, done, true).len() + pick(units, done, false).len() == units.len(),
    decreases units.len(),
{
    broadcast use vstd::seq_lib::group_to_multiset_ensures;
    broadcast use vstd::multiset::group_multiset_axioms;
    if units.len() == 0 {
        assert(pick(units, done, true).to_multiset() =~= vstd::multiset::Multiset::empty());
        assert(pick(units, done, false).to_multiset() =~= vstd::multiset::Multiset::empty());
        assert(units.to_multiset() =~= vstd::multiset::Multiset::empty());
    } else {
        let k = units.len() - 1;
        let dl = units.drop_last();
        lemma_pick_partition(dl, done);
        let t = pick(dl, done, true);
        let f = pick(dl, done, false);
        assert(units =~= dl.push(units[k]));
        if done[k] {
            assert(pick(units, done, true) =~= t.push(units[k]));
            assert(pick(units, done, false) =~= f);
        } else {
            assert(pick(units, done, true) =~= t);
            assert(pick(units, done, false) =~= f.push(units[k]));
        }
        assert(pick(units, done, true).to_multiset().add(pick(units, done, false).to_multiset())
            =~= units.to_multiset());
    }
}

/// The unit with id `id`: the first on the field with it, else the first
/// among the dead.
pub open spec fn live_or_dead(units: Seq<UnitView>, dead: Seq<UnitView>, id: u64) -> Option<UnitView> {
    match find_unit(units, id, units.len() as int) {
        Some(u) => Some(u),
        None => find_unit(dead, id, dead.len() as int),
    }
}

/// The place of the first unit with id `id`, if any.
pub open spec fn first_with_id(units: Seq<UnitView>, id: u64) -> Option<int> {
    first_with_id_upto(units, id, units.len() as int)
}

/// The place of the first of the first `k` units with id `id`, if any.
pub open spec fn first_with_id_upto(units: Seq<UnitView>, id: u64, k: int) -> Option<int>
    decreases k,
{
    if k <= 0 {
        None
    } else {
        match first_with_id_upto(units, id, k - 1) {
            Some(i) => Some(i),
            None => if units[k - 1].id == id { Some(k - 1) } else { None },
        }
    }
}

/// Once found among the first `k` units, a place stays the one found.
proof fn lemma_first_with_id_stays(units: Seq<UnitView>, id: u64, k: int, m: int)
    requires
        0 <= k <= m,
        first_with_id_upto(units, id, k) is Some,
    ensures
        first_with_id_upto(units, id, m) == first_with_id_upto(units, id, k),
    decreases m - k,
{
    if m > k {
        lemma_first_with_id_stays(units, id, k, m - 1);
    }
}

/// Unit templates by type name, as names and values.
pub open spec fn templates_view(t: Seq<(String, Unit)>) -> Seq<(Seq<char>, UnitView)> {
    t.map_values(|p: (String, Unit)| (p.0@, p.1@))
}

/// The template of the first of the first `k` entries named `unit_type`.
pub open spec fn template_of(t: Seq<(Seq<char>, UnitView)>, unit_type: Seq<char>, k: int) -> Option<UnitView>
    decreases k,
{
    if k <= 0 {
        None
    } else {
        match template_of(t, unit_type, k - 1) {
            Some(u) => Some(u),
            None => if t[k - 1].0 == unit_type { Some(t[k - 1].1) } else { None },
        }
    }
}

/// Once found among the first `k` entries, a template stays the one found.
proof fn lemma_template_stays(t: Seq<(Seq<char>, UnitView)>, unit_type: Seq<char>, k: int, m: int)
    requires
        0 <= k <= m,
        template_of(t, unit_type, k) is Some,
    ensures
        template_of(t, unit_type, m) == template_of(t, unit_type, k),
    decreases m - k,
{
    if m > k {
        lemma_template_stays(t, unit_type, k, m - 1);
    }
}

impl Logic {
    /// Spawns a unit of the type `unit_type` and returns its id: a copy of
    /// the type's template (the first of `templates` with that name) that
    /// gets the next id, the faction and the position, and waits among the
    /// units coming onto the field. The type must have a template.
    pub fn spawn_unit(&mut self, templates: &Vec<(String, Unit)>, unit_type: &String, faction: Faction, position: Position) -> (res: u64)
        requires
            old(self).model.next_id < u64::MAX,
            template_of(templates_view(templates@), unit_type@, templates@.len() as int) is Some,
        ensures
            res == old(self).model.next_id,
            final(self).model.next_id == old(self).model.next_id + 1,
            unit_views(final(self).model.spawning_units@) == unit_views(old(self).model.spawning_units@).push(UnitView {
                id: res,
                faction,
                position,
                ..template_of(templates_view(templates@), unit_type@, templates@.len() as int)->0
            }),
            final(self).model.units == old(self).model.units,
            final(self).model.dead_units == old(self).model.dead_units,
            final(self).model.vars == old(self).model.vars,
            final(self).effects == old(self).effects,
    {
        let ghost tv = templates_view(templates@);
        let mut i: usize = 0;
        while i < templates.len()
            invariant
                i <= templates@.len(),
                tv == templates_view(templates@),
                tv.len() == templates@.len(),
                template_of(tv, unit_type@, i as int) is None,
                template_of(tv, unit_type@, templates@.len() as int) is Some,
                *self == *old(self),
                old(self).model.next_id < u64::MAX,
            decreases templates.len() - i,
        {
            assert(tv[i as int] == (templates@[i as int].0@, templates@[i as int].1@));
            if templates[i].0 == *unit_type {
                proof {
                    lemma_template_stays(tv, unit_type@, i + 1, tv.len() as int);
                }
                let mut unit = templates[i].1.clone();
                let id = self.model.next_id;
                unit.id = id;
                unit.faction = faction;
                unit.position = position;
                self.model.next_id = self.model.next_id + 1;
                proof {
                    lemma_unit_views_push(self.model.spawning_units@, unit);
                }
                self.model.spawning_units.push(unit);
                return id;
            }
            i = i + 1;
        }
        proof {
            assert(false);
        }
        vstd::pervasive::unreached()
    }

    /// The unit with id `id`: the first on the field with it, else the first
    /// among the dead.
    fn find_live_or_dead(&self, id: u64) -> (res: Option<&Unit>)
        ensures
            match res {
                Some(u) => live_or_dead(unit_views(self.model.units@), unit_views(self.model.dead_units@), id) == Some(u@),
                None => live_or_dead(unit_views(self.model.units@), unit_views(self.model.dead_units@), id) is None,
            },
    {
        assert(unit_views(self.model.units@).len() == self.model.units@.len());
        assert(unit_views(self.model.dead_units@).len() == self.model.dead_units@.len());
        match find_unit_at(&self.model.units, id) {
            Some(i) => {
                assert(unit_views(self.model.units@)[i as int] == self.model.units@[i as int]@);
                Some(&self.model.units[i])
            },
            None => match find_unit_at(&self.model.dead_units, id) {
                Some(i) => {
                    assert(unit_views(self.model.dead_units@)[i as int] == self.model.dead_units@[i as int]@);
                    Some(&self.model.dead_units[i])
                },
                None => None,
            },
        }
    }

    /// Carries out a spawn effect cast by `caster` on `target`: a unit of the
    /// type `unit_type` is spawned (see [`Logic::spawn_unit`]) on the
    /// caster's side at the target's position; caster and target are looked
    /// for on the field, then among the dead. Returns the new unit's id.
    pub fn process_spawn_effect(&mut self, templates: &Vec<(String, Unit)>, unit_type: &String, caster: u64, target: u64) -> (res: u64)
        requires
            old(self).model.next_id < u64::MAX,
            template_of(templates_view(templates@), unit_type@, templates@.len() as int) is Some,
            live_or_dead(unit_views(old(self).model.units@), unit_views(old(self).model.dead_units@), caster) is Some,
            live_or_dead(unit_views(old(self).model.units@), unit_views(old(self).model.dead_units@), target) is Some,
        ensures
            res == old(self).model.next_id,
            final(self).model.next_id == old(self).model.next_id + 1,
            unit_views(final(self).model.spawning_units@) == unit_views(old(self).model.spawning_units@).push(UnitView {
                id: res,
                faction: live_or_dead(unit_views(old(self).model.units@), unit_views(old(self).model.dead_units@), caster)->0.faction,
                position: live_or_dead(unit_views(old(self).model.units@), unit_views(old(self).model.dead_units@), target)->0.position,
                ..template_of(templates_view(templates@), unit_type@, templates@.len() as int)->0
            }),
            final(self).model.units == old(self).model.units,
            final(self).model.dead_units == old(self).model.dead_units,
            final(self).model.vars == old(self).model.vars,
            final(self).effects == old(self).effects,
    {
        let faction = match self.find_live_or_dead(caster) {
            Some(u) => u.faction,
            None => vstd::pervasive::unreached(),
        };
        let position = match self.find_live_or_dead(target) {
            Some(u) => u.position,
            None => vstd::pervasive::unreached(),
        };
        self.spawn_unit(templates, unit_type, faction, position)
    }

    /// Carries out a suicide effect cast by `caster`: the first unit on the
    /// field with the caster's id is left with no health; without a caster,
    /// or with no such unit on the field, nothing changes.
    pub fn process_suicide_effect(&mut self, caster: Option<u64>)
        ensures
            match caster {
                Some(id) => match first_with_id(unit_views(old(self).model.units@), id) {
                    Some(i) => unit_views(final(self).model.units@)
                        == unit_views(old(self).model.units@).update(i, UnitView { health: 0, ..unit_views(old(self).model.units@)[i] }),
                    None => final(self).model.units == old(self).model.units,
                },
                None => final(self).model.units == old(self).model.units,
            },
            final(self).model.dead_units == old(self).model.dead_units,
            final(self).model.spawning_units == old(self).model.spawning_units,
            final(self).model.vars == old(self).model.vars,
            final(self).model.next_id == old(self).model.next_id,
            final(self).effects == old(self).effects,
    {
        let id = match caster {
            Some(id) => id,
            None => return,
        };
        let ghost uv = unit_views(self.model.units@);
        let mut i: usize = 0;
        while i < self.model.units.len()
            invariant
                i <= self.model.units@.len(),
                *self == *old(self),
                uv == unit_views(self.model.units@),
                uv.len() == self.model.units@.len(),
                first_with_id_upto(uv, id, i as int) is None,
                caster == Some(id),
            decreases self.model.units.len() - i,
        {
            assert(uv[i as int] == self.model.units@[i as int]@);
            if self.model.units[i].id == id {
                proof {
                    assert(first_with_id_upto(uv, id, i + 1) == Some(i as int));
                    lemma_first_with_id_stays(uv, id, i + 1, uv.len() as int);
                }
                let mut units: Vec<Unit> = Vec::new();
                std::mem::swap(&mut units, &mut self.model.units);
                let mut u = units.remove(i);
                u.health = 0;
                let ghost uh = u@;
                units.insert(i, u);
                proof {
                    assert(unit_views(units@) =~= uv.update(i as int, UnitView { health: 0, ..uv[i as int] })) by {
                        assert forall|j: int| 0 <= j < units@.len() implies #[trigger] unit_views(units@)[j]
                            == uv.update(i as int, UnitView { health: 0, ..uv[i as int] })[j] by {
                            if j == i {
                                assert(units@[j]@ == uh);
                            }
                        }
                    }
                }
                self.model.units = units;
                return;
            }
            i = i + 1;
        }
    }

    /// Brings onto the field the spawning units whose arrival has finished,
    /// `done` telling for each spawning unit, in order, whether it has. Each
    /// arriving unit, in order, has the spawn effects of its statuses queued
    /// at the back of their queues and joins the units on the field; the
    /// others keep waiting, in order.
    pub fn process_spawns(&mut self, done: &Vec<bool>)
        requires
            done@.len() == old(self).model.spawning_units@.len(),
        ensures
            ({
                let waiting = unit_views(old(self).model.spawning_units@);
                let arrived = pick(waiting, done@, true);
                &&& unit_views(final(self).model.units@) == unit_views(old(self).model.units@) + arrived
                &&& unit_views(final(self).model.spawning_units@) == pick(waiting, done@, false)
                &&& final(self).effects.queues() == spawn_queues(old(self).effects.queues(), arrived)
            }),
            final(self).model.dead_units == old(self).model.dead_units,
            final(self).model.vars == old(self).model.vars,
            final(self).model.next_id == old(self).model.next_id,
    {
        let ghost waiting = unit_views(self.model.spawning_units@);
        let ghost units0 = unit_views(self.model.units@);
        let ghost q0 = self.effects.queues();
        let mut src: Vec<Unit> = Vec::new();
        std::mem::swap(&mut src, &mut self.model.spawning_units);
        let n = src.len();
        let mut k: usize = 0;
        while k < n
            invariant
                k <= n,
                n == waiting.len(),
                done@.len() == n,
                src@.len() == n - k,
                unit_views(src@) == waiting.subrange(k as int, n as int),
                unit_views(self.model.units@) == units0 + pick(waiting.subrange(0, k as int), done@, true),
                unit_views(self.model.spawning_units@) == pick(waiting.subrange(0, k as int), done@, false),
                self.effects.queues() == spawn_queues(q0, pick(waiting.subrange(0, k as int), done@, true)),
                self.model.dead_units == old(self).model.dead_units,
                self.model.vars == old(self).model.vars,
                self.model.next_id == old(self).model.next_id,
            decreases n - k,
        {
            proof {
                lemma_unit_views_remove_first(src@);
            }
            let ghost src0 = src@;
            let unit = src.remove(0);
            let ghost uv = unit@;
            assert(uv == waiting[k as int]);
            assert(unit_views(src@) =~= waiting.subrange(k as int + 1, n as int));
            let ghost pre = waiting.subrange(0, k as int);
            assert(waiting.subrange(0, k as int + 1).drop_last() =~= pre);
            assert(waiting.subrange(0, k as int + 1)[k as int] == uv);
            if done[k] {
                let ghost qa = self.effects.queues();
                let id = unit.id;
                let mut si: usize = 0;
                while si < unit.all_statuses.len()
                    invariant
                        si <= unit.all_statuses@.len(),
                        uv == unit@,
                        id == uv.id,
                        self.model.dead_units == old(self).model.dead_units,
                        self.model.vars == old(self).model.vars,
                        self.model.next_id == old(self).model.next_id,
                        unit_views(self.model.units@) == units0 + pick(pre, done@, true),
                        unit_views(self.model.spawning_units@) == pick(pre, done@, false),
                        self.effects.queues() == push_all(qa, statuses_fire(uv.statuses.subrange(0, si as int), TriggerQueryView::Spawn, id, id, id), false),
                    decreases unit.all_statuses.len() - si,
                {
                    fire_status(&mut self.effects, &unit.all_statuses[si], &TriggerQuery::Spawn, id, id, id, false);
                    proof {
                        let sp = uv.statuses.subrange(0, si as int);
                        assert(uv.statuses.subrange(0, si as int + 1).drop_last() =~= sp);
                        lemma_push_all_concat(qa, statuses_fire(sp, TriggerQueryView::Spawn, id, id, id),
                            fires(uv.statuses[si as int], TriggerQueryView::Spawn, id, id, id), false);
                    }
                    si = si + 1;
                }
                assert(uv.statuses.subrange(0, uv.statuses.len() as int) =~= uv.statuses);
                proof {
                    lemma_unit_views_push(self.model.units@, unit);
                    assert(pick(pre, done@, true) + seq![uv] =~= pick(pre, done@, true).push(uv));
                    let picked = pick(pre, done@, true).push(uv);
                    assert(pick(waiting.subrange(0, k as int + 1), done@, true) == picked);
                    assert(picked.drop_last() =~= pick(pre, done@, true));
                    assert(picked.last() == uv);
                    assert(pick(pre, done@, false) + Seq::<UnitView>::empty() =~= pick(pre, done@, false));
                    assert(units0 + pick(pre, done@, true).push(uv) =~= (units0 + pick(pre, done@, true)).push(uv));
                }
                self.model.units.push(unit);
            } else {
                proof {
                    lemma_unit_views_push(self.model.spawning_units@, unit);
                    assert(pick(pre, done@, false) + seq![uv] =~= pick(pre, done@, false).push(uv));
                    assert(pick(pre, done@, true) + Seq::<UnitView>::empty() =~= pick(pre, done@, true));
                }
                self.model.spawning_units.push(unit);
            }
            k = k + 1;
        }
        assert(waiting.subrange(0, n as int) =~= waiting);
    }
}

} // verus!
