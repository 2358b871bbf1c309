use vstd::prelude::*;

use crate::logic::effects::QueuedEffectView;
use crate::logic::model::{lemma_unit_views_push, lemma_unit_views_remove_first, unit_views, AttachedStatusView, EffectId, Position, Unit, UnitView};
use crate::logic::{fire_status, fires, lemma_push_all_concat, push_all, Logic, TriggerQuery, TriggerQueryView};

verus! {

/// The units after a unit at `pos` leaves the field: every unit on the same
/// side further out moves one place in.
pub open spec fn shift_in(units: Seq<UnitView>, pos: Position) -> Seq<UnitView> {
    units.map_values(|u: UnitView|
        if u.position.side == pos.side && u.position.x > pos.x {
            UnitView { position: Position { side: u.position.side, x: (u.position.x - 1) as i64 }, ..u }
        } else {
            u
        }
    )
}

/// The effects that a list of statuses fires for the query, status after
/// status.
pub open spec fn statuses_fire(sts: Seq<AttachedStatusView>, q: TriggerQueryView, owner: u64, creator: u64, target: u64) -> Seq<QueuedEffectView<EffectId>>
    decreases sts.len(),
{
    if sts.len() == 0 {
        Seq::empty()
    } else {
        statuses_fire(sts.drop_last(), q, owner, creator, target) + fires(sts.last(), q, owner, creator, target)
    }
}

/// The dead units after `u` dies: it replaces the first dead unit with its
/// id, or is added after all of them.
pub open spec fn insert_dead(dead: Seq<UnitView>, u: UnitView) -> Seq<UnitView> {
    if exists|i: int| 0 <= i < dead.len() && dead[i].id == u.id {
        let i = choose|i: int| 0 <= i < dead.len() && dead[i].id == u.id && forall|j: int| 0 <= j < i ==> dead[j].id != u.id;
        dead.update(i, u)
    } else {
        dead.push(u)
    }
}

/// The state of the battle while deaths are processed.
pub ghost struct DeathState {
    pub units: Seq<UnitView>,
    pub dead: Seq<UnitView>,
    pub queues: Seq<(Seq<char>, Seq<QueuedEffectView<EffectId>>)>,
}

/// The battle after the first `k` units have been looked at: each one with
/// no health left is recorded as dead as it is, its statuses' death effects
/// are queued at the back, and the units beyond it on its side move in.
pub open spec fn deaths_upto(s0: DeathState, k: nat) -> DeathState
    decreases k,
{
    if k == 0 {
        s0
    } else {
        let s = deaths_upto(s0, (k - 1) as nat);
        let u = s.units[k - 1];
        if u.health <= 0 {
            DeathState {
                units: shift_in(s.units, u.position),
                dead: insert_dead(s.dead, u),
                queues: push_all(s.queues, statuses_fire(u.statuses, TriggerQueryView::Death, u.id, u.id, u.id), false),
            }
        } else {
            s
        }
    }
}

/// Looking at units keeps their number.
proof fn lemma_deaths_len(s0: DeathState, k: nat)
    ensures
        deaths_upto(s0, k).units.len() == s0.units.len(),
    decreases k,
{
    if k > 0 {
        lemma_deaths_len(s0, (k - 1) as nat);
    }
}

/// Whether some dead unit has id `id`.
pub open spec fn has_dead_id(dead: Seq<UnitView>, id: u64) -> bool {
    exists|j: int| 0 <= j < dead.len() && dead[j].id == id
}

/// Looking at units keeps each unit's id and health in its place.
proof fn lemma_deaths_keep(s0: DeathState, k: nat)
    ensures
        deaths_upto(s0, k).units.len() == s0.units.len(),
        forall|i: int| 0 <= i < s0.units.len() ==> (#[trigger] deaths_upto(s0, k).units[i]).id == s0.units[i].id
            && deaths_upto(s0, k).units[i].health == s0.units[i].health,
    decreases k,
{
    if k > 0 {
        lemma_deaths_keep(s0, (k - 1) as nat);
    }
}

/// Recording a death adds the unit's id to the dead and keeps every id
/// already there.
proof fn lemma_insert_dead_ids(dead: Seq<UnitView>, u: UnitView)
    ensures
        has_dead_id(insert_dead(dead, u), u.id),
        forall|id: u64| has_dead_id(dead, id) ==> #[trigger] has_dead_id(insert_dead(dead, u), id),
{
    if exists|i: int| 0 <= i < dead.len() && dead[i].id == u.id {
        let i = choose|i: int| 0 <= i < dead.len() && dead[i].id == u.id && forall|j: int| 0 <= j < i ==> dead[j].id != u.id;
        assert(0 <= i < dead.len() && dead[i].id == u.id && forall|j: int| 0 <= j < i ==> dead[j].id != u.id) by {
            let w = choose|w: int| 0 <= w < dead.len() && dead[w].id == u.id;
            lemma_first_with_id(dead, u.id, w);
        }
        let d2 = dead.update(i, u);
        assert(d2[i].id == u.id);
        assert forall|id: u64| has_dead_id(dead, id) implies #[trigger] has_dead_id(d2, id) by {
            let j = choose|j: int| 0 <= j < dead.len() && dead[j].id == id;
            assert(d2[j].id == id);
        }
    } else {
        let d2 = dead.push(u);
        assert(d2[dead.len() as int].id == u.id);
        assert forall|id: u64| has_dead_id(dead, id) implies #[trigger] has_dead_id(d2, id) by {
            let j = choose|j: int| 0 <= j < dead.len() && dead[j].id == id;
            assert(d2[j].id == id);
        }
    }
}

/// When some dead unit has the id, there is a first one.
proof fn lemma_first_with_id(dead: Seq<UnitView>, id: u64, w: int)
    requires
        0 <= w < dead.len(),
        dead[w].id == id,
    ensures
        exists|i: int| 0 <= i < dead.len() && dead[i].id == id && forall|j: int| 0 <= j < i ==> dead[j].id != id,
    decreases w,
{
    if exists|j: int| 0 <= j < w && dead[j].id == id {
        let j = choose|j: int| 0 <= j < w && dead[j].id == id;
        lemma_first_with_id(dead, id, j);
    } else {
        assert(forall|j: int| 0 <= j < w ==> dead[j].id != id);
    }
}

/// Every unit looked at that had no health left is among the dead.
proof fn lemma_deaths_recorded(s0: DeathState, k: nat)
    ensures
        forall|m: int| 0 <= m < k && m < s0.units.len() && s0.units[m].health <= 0
            ==> #[trigger] has_dead_id(deaths_upto(s0, k).dead, s0.units[m].id),
    decreases k,
{
    if k > 0 {
        let k1 = (k - 1) as nat;
        lemma_deaths_recorded(s0, k1);
        lemma_deaths_keep(s0, k1);
        let s = deaths_upto(s0, k1);
        let u = s.units[k - 1];
        if u.health <= 0 {
            lemma_insert_dead_ids(s.dead, u);
        }
        assert forall|m: int| 0 <= m < k && m < s0.units.len() && s0.units[m].health <= 0
            implies #[trigger] has_dead_id(deaths_upto(s0, k).dead, s0.units[m].id) by {
            if m < k1 {
                assert(has_dead_id(s.dead, s0.units[m].id));
            } else {
                assert(m == k - 1);
                assert(u.id == s0.units[m].id);
            }
        }
    }
}

/// After the deaths of a battle are processed (see [`Logic::process_deaths`]),
/// no unit with health at zero or below is left on the field, and every unit
/// that stood on the field with no health left is among the dead, found by
/// its id.
pub proof fn law_deaths_processed(s0: DeathState)
    ensures
        ({
            let s = deaths_upto(s0, s0.units.len() as nat);
            let left = s.units.filter(|u: UnitView| u.health > 0);
            &&& forall|i: int| 0 <= i < left.len() ==> #[trigger] left[i].health > 0
            &&& forall|m: int| 0 <= m < s0.units.len() && #[trigger] s0.units[m].health <= 0
                ==> has_dead_id(s.dead, s0.units[m].id)
        }),
{
    let s = deaths_upto(s0, s0.units.len() as nat);
    let pred = |u: UnitView| u.health > 0;
    assert forall|i: int| 0 <= i < s.units.filter(pred).len() implies #[trigger] s.units.filter(pred)[i].health > 0 by {
        s.units.lemma_filter_pred(pred, i);
    }
    lemma_deaths_recorded(s0, s0.units.len() as nat);
}

/// How many of the first `k` units are without health, stand on `side`,
/// and stood at a place from `lo` up to, not including, `hi`.
pub open spec fn dead_between(u: Seq<UnitView>, k: int, side: crate::faction::Faction, lo: int, hi: int) -> nat
    decreases k,
{
    if k <= 0 {
        0
    } else {
        dead_between(u, k - 1, side, lo, hi) + if u[k - 1].health <= 0 && u[k - 1].position.side == side
            && lo <= u[k - 1].position.x < hi { 1nat } else { 0nat }
    }
}

/// How many units without health stood before `u[m]` on its side, among
/// all the units.
pub open spec fn dead_before(u: Seq<UnitView>, m: int) -> nat {
    dead_between(u, u.len() as int, u[m].position.side, i64::MIN as int, u[m].position.x as int)
}

/// The unit `u` moved `n` places in on its side.
pub open spec fn moved_in(u: UnitView, n: int) -> UnitView {
    UnitView { position: Position { side: u.position.side, x: (u.position.x - n) as i64 }, ..u }
}

/// Whether no two units stand at the same place on the same side.
pub open spec fn places_distinct(u: Seq<UnitView>) -> bool {
    forall|a: int, b: int| 0 <= a < u.len() && 0 <= b < u.len() && a != b && #[trigger] u[a].position.side == #[trigger] u[b].position.side
        ==> u[a].position.x != u[b].position.x
}

/// Counting over two adjacent ranges of places adds up.
proof fn lemma_dead_between_split(u: Seq<UnitView>, k: int, side: crate::faction::Faction, lo: int, mid: int, hi: int)
    requires
        lo <= mid <= hi,
    ensures
        dead_between(u, k, side, lo, hi) == dead_between(u, k, side, lo, mid) + dead_between(u, k, side, mid, hi),
    decreases k,
{
    if k > 0 {
        lemma_dead_between_split(u, k - 1, side, lo, mid, hi);
    }
}

/// With distinct places, at most one unit counts at any one place, and one
/// place the unit `j` (not among the first `k`) stands at counts none.
proof fn lemma_dead_at_one_place(u: Seq<UnitView>, k: int, side: crate::faction::Faction, x: int)
    requires
        places_distinct(u),
        k <= u.len(),
    ensures
        dead_between(u, k, side, x, x + 1) <= 1,
        dead_between(u, k, side, x, x + 1) == 1 ==> exists|i: int| 0 <= i < k && u[i].position.side == side && u[i].position.x == x,
        forall|j: int| k <= j < u.len() && u[j].position.side == side && u[j].position.x == x
            ==> dead_between(u, k, side, x, x + 1) == 0,
    decreases k,
{
    if k > 0 {
        lemma_dead_at_one_place(u, k - 1, side, x);
        let i = k - 1;
        if u[i].health <= 0 && u[i].position.side == side && x <= u[i].position.x < x + 1 {
            if dead_between(u, k - 1, side, x, x + 1) == 1 {
                let w = choose|w: int| 0 <= w < k - 1 && u[w].position.side == side && u[w].position.x == x;
                assert(u[w].position.side == u[i].position.side);
            }
            assert forall|j: int| k <= j < u.len() && u[j].position.side == side && u[j].position.x == x
                implies dead_between(u, k, side, x, x + 1) == 0 by {
                assert(u[j].position.side == u[i].position.side);
            }
        }
    }
}

/// With distinct places, no more units count over a range of places than
/// the range has places; when a unit `j` beyond the first `k` stands at the
/// range's lowest place, one fewer.
proof fn lemma_dead_between_bound(u: Seq<UnitView>, k: int, side: crate::faction::Faction, lo: int, hi: int)
    requires
        places_distinct(u),
        k <= u.len(),
        lo <= hi,
    ensures
        dead_between(u, k, side, lo, hi) <= hi - lo,
    decreases hi - lo,
{
    if lo < hi {
        lemma_dead_between_split(u, k, side, lo, lo + 1, hi);
        lemma_dead_at_one_place(u, k, side, lo);
        lemma_dead_between_bound(u, k, side, lo + 1, hi);
    } else {
        lemma_dead_between_empty(u, k, side, lo, hi);
    }
}

/// With distinct places, when a unit `j` beyond the first `k` stands at the
/// lowest place of a range, fewer units count over the range than it has
/// places.
proof fn lemma_dead_between_bound_after(u: Seq<UnitView>, k: int, side: crate::faction::Faction, lo: int, hi: int, j: int)
    requires
        places_distinct(u),
        k <= j < u.len(),
        u[j].position.side == side,
        u[j].position.x == lo,
        lo < hi,
    ensures
        dead_between(u, k, side, lo, hi) <= hi - lo - 1,
{
    lemma_dead_between_split(u, k, side, lo, lo + 1, hi);
    lemma_dead_at_one_place(u, k, side, lo);
    lemma_dead_between_bound(u, k, side, lo + 1, hi);
}

/// An empty range of places counts no unit.
proof fn lemma_dead_between_empty(u: Seq<UnitView>, k: int, side: crate::faction::Faction, lo: int, hi: int)
    requires
        hi <= lo,
    ensures
        dead_between(u, k, side, lo, hi) == 0,
    decreases k,
{
    if k > 0 {
        lemma_dead_between_empty(u, k - 1, side, lo, hi);
    }
}

/// After the first `k` units are looked at, every unit is as it was but for
/// its place, which is its old place less the units without health among
/// the first `k` that stood before it on its side.
proof fn lemma_deaths_places(s0: DeathState, k: int)
    requires
        places_distinct(s0.units),
        0 <= k <= s0.units.len(),
    ensures
        deaths_upto(s0, k as nat).units.len() == s0.units.len(),
        forall|a: int| 0 <= a < s0.units.len() ==> #[trigger] deaths_upto(s0, k as nat).units[a]
            == moved_in(s0.units[a], dead_between(s0.units, k, s0.units[a].position.side, i64::MIN as int, s0.units[a].position.x as int) as int),
    decreases k,
{
    let u0 = s0.units;
    if k > 0 {
        lemma_deaths_places(s0, k - 1);
        let s = deaths_upto(s0, (k - 1) as nat);
        let j = k - 1;
        let uj = s.units[j];
        let side = u0[j].position.side;
        let xj = u0[j].position.x as int;
        let lo = i64::MIN as int;
        assert forall|a: int| 0 <= a < u0.len() implies #[trigger] deaths_upto(s0, k as nat).units[a]
            == moved_in(u0[a], dead_between(u0, k, u0[a].position.side, lo, u0[a].position.x as int) as int) by {
            let xa = u0[a].position.x as int;
            let sa = u0[a].position.side;
            let ca = dead_between(u0, k - 1, sa, lo, xa);
            let cj = dead_between(u0, k - 1, side, lo, xj);
            lemma_dead_between_bound(u0, k - 1, sa, lo, xa);
            lemma_dead_between_bound(u0, k - 1, side, lo, xj);
            assert(s.units[a] == moved_in(u0[a], ca as int));
            assert(uj == moved_in(u0[j], cj as int));
            if uj.health <= 0 && sa == side && a != j {
                if xj < xa {
                    lemma_dead_between_split(u0, k - 1, side, lo, xj, xa);
                    lemma_dead_between_bound_after(u0, k - 1, side, xj, xa, j);
                    assert(s.units[a].position.x > uj.position.x);
                } else {
                    assert(xa != xj);
                    lemma_dead_between_split(u0, k - 1, side, lo, xa, xj);
                    lemma_dead_between_bound(u0, k - 1, side, xa, xj);
                    assert(!(s.units[a].position.x > uj.position.x));
                }
            }
        }
    }
}

/// After the deaths of a battle are processed (see [`Logic::process_deaths`])
/// on a field where no two units share a place on a side, every unit is as
/// it was, except that it moved in by as many places as there were units
/// without health before it on its side; those with health left are the
/// ones that stay on the field.
pub proof fn law_survivor_places(s0: DeathState)
    requires
        places_distinct(s0.units),
    ensures
        ({
            let s = deaths_upto(s0, s0.units.len() as nat);
            &&& s.units.len() == s0.units.len()
            &&& forall|m: int| 0 <= m < s0.units.len() ==> #[trigger] s.units[m] == moved_in(s0.units[m], dead_before(s0.units, m) as int)
        }),
{
    lemma_deaths_places(s0, s0.units.len() as int);
}

impl Logic {
    /// Moves every unit on the side of `pos` that stands further out one
    /// place in.
    fn update_positions(&mut self, pos: Position)
        ensures
            unit_views(final(self).model.units@) == shift_in(unit_views(old(self).model.units@), pos),
            final(self).model.dead_units == old(self).model.dead_units,
            final(self).model.vars == old(self).model.vars,
            final(self).model.spawning_units == old(self).model.spawning_units,
            final(self).model.next_id == old(self).model.next_id,
            final(self).effects == old(self).effects,
    {
        let mut src: Vec<Unit> = Vec::new();
        std::mem::swap(&mut src, &mut self.model.units);
        let ghost orig = unit_views(src@);
        let n = src.len();
        assert(orig.len() == n);
        let mut k: usize = 0;
        while k < n
            invariant
                k <= n,
                n == orig.len(),
                unit_views(src@) == orig.subrange(k as int, n as int),
                src@.len() == n - k,
                unit_views(self.model.units@) == shift_in(orig, pos).subrange(0, k as int),
                self.model.dead_units == old(self).model.dead_units,
                self.model.vars == old(self).model.vars,
                self.model.spawning_units == old(self).model.spawning_units,
                self.model.next_id == old(self).model.next_id,
                self.effects == old(self).effects,
            decreases n - k,
        {
            proof {
                lemma_unit_views_remove_first(src@);
            }
            let ghost src0 = src@;
            let mut u = src.remove(0);
            assert(u@ == orig[k as int]);
            if u.position.side == pos.side && u.position.x > pos.x {
                u.position.x = u.position.x - 1;
            }
            let ghost before = self.model.units@;
            let ghost uv = u@;
            proof {
                lemma_unit_views_push(before, u);
            }
            self.model.units.push(u);
            k = k + 1;
            proof {
                assert(unit_views(src@) =~= orig.subrange(k as int, n as int));
                assert(unit_views(self.model.units@) == unit_views(before).push(uv));
                assert(unit_views(self.model.units@) =~= shift_in(orig, pos).subrange(0, k as int));
            }
        }
        assert(shift_in(orig, pos).subrange(0, n as int) =~= shift_in(orig, pos));
    }

    /// Records `u` as dead: it replaces the dead unit with its id, or is
    /// added after all dead units.
    fn record_dead(&mut self, u: Unit)
        ensures
            unit_views(final(self).model.dead_units@) == insert_dead(unit_views(old(self).model.dead_units@), u@),
            final(self).model.units == old(self).model.units,
            final(self).model.vars == old(self).model.vars,
            final(self).model.spawning_units == old(self).model.spawning_units,
            final(self).model.next_id == old(self).model.next_id,
            final(self).effects == old(self).effects,
    {
        let ghost d0 = unit_views(self.model.dead_units@);
        let mut i: usize = 0;
        while i < self.model.dead_units.len()
            invariant
                i <= self.model.dead_units@.len(),
                d0 == unit_views(self.model.dead_units@),
                d0 == unit_views(old(self).model.dead_units@),
                forall|j: int| 0 <= j < i ==> d0[j].id != u.id,
                self.model.units == old(self).model.units,
                self.model.vars == old(self).model.vars,
                self.model.spawning_units == old(self).model.spawning_units,
                self.model.next_id == old(self).model.next_id,
                self.effects == old(self).effects,
            decreases self.model.dead_units.len() - i,
        {
            if self.model.dead_units[i].id == u.id {
                let ghost uv = u@;
                self.model.dead_units.set(i, u);
                proof {
                    let c = choose|c: int| 0 <= c < d0.len() && d0[c].id == uv.id && forall|j: int| 0 <= j < c ==> d0[j].id != uv.id;
                    assert(0 <= i < d0.len() && d0[i as int].id == uv.id);
                    if c < i {
                        assert(d0[c].id != uv.id);
                    } else if c > i {
                        assert(d0[i as int].id != uv.id);
                    }
                    assert(unit_views(self.model.dead_units@) =~= d0.update(i as int, uv));
                }
                return;
            }
            i = i + 1;
        }
        let ghost uv = u@;
        self.model.dead_units.push(u);
        assert(unit_views(self.model.dead_units@) =~= d0.push(uv));
    }

    /// Processes the deaths of the battle. Each unit, in field order, that has
    /// no health left is recorded among the dead as it is at that moment, the
    /// death effects of its statuses are queued at the back of their queues,
    /// and the units further out on its side move one place in; then the dead
    /// are taken off the field.
    pub fn process_deaths(&mut self)
        ensures
            ({
                let s0 = DeathState {
                    units: unit_views(old(self).model.units@),
                    dead: unit_views(old(self).model.dead_units@),
                    queues: old(self).effects.queues(),
                };
                let s = deaths_upto(s0, old(self).model.units@.len() as nat);
                &&& unit_views(final(self).model.units@) == s.units.filter(|u: UnitView| u.health > 0)
                &&& unit_views(final(self).model.dead_units@) == s.dead
                &&& final(self).effects.queues() == s.queues
            }),
            final(self).model.vars == old(self).model.vars,
            final(self).model.spawning_units == old(self).model.spawning_units,
            final(self).model.next_id == old(self).model.next_id,
    {
        let ghost s0 = DeathState {
            units: unit_views(self.model.units@),
            dead: unit_views(self.model.dead_units@),
            queues: self.effects.queues(),
        };
        let n = self.model.units.len();
        let mut k: usize = 0;
        while k < n
            invariant
                k <= n,
                n == s0.units.len(),
                unit_views(self.model.units@) == deaths_upto(s0, k as nat).units,
                unit_views(self.model.dead_units@) == deaths_upto(s0, k as nat).dead,
                self.effects.queues() == deaths_upto(s0, k as nat).queues,
                self.model.vars == old(self).model.vars,
                self.model.spawning_units == old(self).model.spawning_units,
                self.model.next_id == old(self).model.next_id,
            decreases n - k,
        {
            proof {
                lemma_deaths_len(s0, k as nat);
            }
            if self.model.units[k].health <= 0 {
                let unit = self.model.units[k].clone();
                let ghost uv = unit@;
                assert(unit_views(self.model.units@)[k as int] == self.model.units@[k as int]@);
                assert(uv == deaths_upto(s0, k as nat).units[k as int]);
                let ghost q0 = self.effects.queues();
                let pos = unit.position;
                let id = unit.id;
                let mut si: usize = 0;
                while si < unit.all_statuses.len()
                    invariant
                        si <= unit.all_statuses@.len(),
                        uv == unit@,
                        id == uv.id,
                        unit_views(self.model.units@) == deaths_upto(s0, k as nat).units,
                        unit_views(self.model.dead_units@) == deaths_upto(s0, k as nat).dead,
                        self.model.vars == old(self).model.vars,
                        self.model.spawning_units == old(self).model.spawning_units,
                        self.model.next_id == old(self).model.next_id,
                        self.effects.queues() == push_all(q0, statuses_fire(uv.statuses.subrange(0, si as int), TriggerQueryView::Death, id, id, id), false),
                    decreases unit.all_statuses.len() - si,
                {
                    fire_status(&mut self.effects, &unit.all_statuses[si], &TriggerQuery::Death, id, id, id, false);
                    proof {
                        let pre = uv.statuses.subrange(0, si as int);
                        let st = uv.statuses[si as int];
                        assert(uv.statuses.subrange(0, si as int + 1).drop_last() =~= pre);
                        lemma_push_all_concat(q0, statuses_fire(pre, TriggerQueryView::Death, id, id, id), fires(st, TriggerQueryView::Death, id, id, id), false);
                    }
                    si = si + 1;
                }
                assert(uv.statuses.subrange(0, uv.statuses.len() as int) =~= uv.statuses);
                let ghost sk = deaths_upto(s0, k as nat);
                self.record_dead(unit);
                self.update_positions(pos);
                proof {
                    assert(deaths_upto(s0, (k + 1) as nat) == DeathState {
                        units: shift_in(sk.units, uv.position),
                        dead: insert_dead(sk.dead, uv),
                        queues: push_all(sk.queues, statuses_fire(uv.statuses, TriggerQueryView::Death, uv.id, uv.id, uv.id), false),
                    });
                    assert(unit_views(self.model.units@) == deaths_upto(s0, (k + 1) as nat).units);
                    assert(unit_views(self.model.dead_units@) == deaths_upto(s0, (k + 1) as nat).dead);
                }
            } else {
                assert(unit_views(self.model.units@)[k as int] == self.model.units@[k as int]@);
                assert(deaths_upto(s0, (k + 1) as nat) == deaths_upto(s0, k as nat));
            }
            k = k + 1;
        }
        let mut src: Vec<Unit> = Vec::new();
        std::mem::swap(&mut src, &mut self.model.units);
        let ghost all = unit_views(src@);
        let m = src.len();
        assert(all.len() == m);
        let mut j: usize = 0;
        while j < m
            invariant
                j <= m,
                m == all.len(),
                unit_views(src@) == all.subrange(j as int, m as int),
                src@.len() == m - j,
                unit_views(self.model.units@) == all.subrange(0, j as int).filter(|u: UnitView| u.health > 0),
                unit_views(self.model.dead_units@) == deaths_upto(s0, n as nat).dead,
                self.effects.queues() == deaths_upto(s0, n as nat).queues,
                self.model.vars == old(self).model.vars,
                self.model.spawning_units == old(self).model.spawning_units,
                self.model.next_id == old(self).model.next_id,
            decreases m - j,
        {
            proof {
                reveal_with_fuel(Seq::<_>::filter, 1);
                assert(all.subrange(0, j as int + 1).drop_last() =~= all.subrange(0, j as int));
            }
            proof {
                lemma_unit_views_remove_first(src@);
            }
            let u = src.remove(0);
            assert(u@ == all[j as int]);
            if u.health > 0 {
                let ghost before = self.model.units@;
                proof {
                    lemma_unit_views_push(before, u);
                }
                self.model.units.push(u);
            }
            j = j + 1;
            assert(unit_views(src@) =~= all.subrange(j as int, m as int));
        }
        assert(all.subrange(0, m as int) =~= all);
    }
}

} // verus!
