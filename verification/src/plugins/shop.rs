use vstd::prelude::*;

use crate::module_bindings::arena_pool::ArenaPool;
use crate::module_bindings::arena_run::{ArenaRun, ShopOffer, TableUnit, TeamUnit};
use crate::seq_facts::lemma_filter_from;
use crate::unit::PackedUnit;

verus! {

/// The shop screen.
#[derive(Debug, Clone, Copy, PartialEq, Eq, Structural)]
pub struct ShopPlugin;

/// What the player is doing in the shop. Entities are given by their ids.
#[derive(Debug)]
pub enum ShopPhase {
    /// Nothing chosen yet; for each hero, the heroes it can be stacked onto
    /// and fused with.
    Initial { stack: Vec<(u64, Vec<u64>)>, fuse: Vec<(u64, Vec<u64>)> },
    /// A hero chosen to fuse, waiting for its partner.
    FuseStart { source: u64, targets: Vec<u64> },
    /// Both heroes chosen; the fused heroes to pick from.
    FuseEnd { source: u64, target: u64, candidates: Vec<PackedUnit> },
    /// A hero chosen to stack, waiting for its target.
    Stack { source: u64, targets: Vec<u64> },
}

/// The shop's state while the screen is open.
#[derive(Debug)]
pub struct ShopData {
    /// Handle of the subscription to run updates.
    pub update_callback: u64,
    pub phase: ShopPhase,
}

/// Price of a reroll in gold.
pub const REROLL_PRICE: i32 = 1;

impl ShopData {
    /// Whether nothing is chosen yet.
    pub fn is_initial_phase(&self) -> (res: bool)
        ensures
            res == (self.phase is Initial),
    {
        match self.phase {
            ShopPhase::Initial { .. } => true,
            _ => false,
        }
    }

    /// Whether the rest of the shop is shown: everywhere but while fused
    /// heroes are offered.
    pub fn show_other_ui(&self) -> (res: bool)
        ensures
            res == !(self.phase is FuseEnd),
    {
        match self.phase {
            ShopPhase::Initial { .. } | ShopPhase::FuseStart { .. } | ShopPhase::Stack { .. } => true,
            ShopPhase::FuseEnd { .. } => false,
        }
    }
}

/// The heroes that a sync must create and remove so that the field matches
/// the server.
#[derive(Debug)]
pub struct SyncPlan {
    /// Positions, in the server's list, of the heroes to create.
    pub spawn: Vec<usize>,
    /// Entities to remove.
    pub despawn: Vec<u64>,
}

/// Whether some hero of the list has server id `id`.
pub open spec fn has_unit_id(units: Seq<TeamUnit>, id: u64) -> bool {
    exists|i: int| 0 <= i < units.len() && units[i].id == id
}

/// Whether some entity on the field carries server id `id`.
pub open spec fn has_field_id(field: Seq<(u64, u64)>, id: u64) -> bool {
    exists|i: int| 0 <= i < field.len() && field[i].0 == id
}

/// Positions of the server's heroes that are not on the field, in order.
pub open spec fn spawn_positions(units: Seq<TeamUnit>, field: Seq<(u64, u64)>) -> Seq<usize> {
    Seq::new(units.len(), |i: int| i as usize).filter(|i: usize| !has_field_id(field, units[i as int].id))
}

/// Entities on the field whose id the server no longer lists, in order.
pub open spec fn stale_entities(units: Seq<TeamUnit>, field: Seq<(u64, u64)>) -> Seq<u64> {
    field.filter(|e: (u64, u64)| !has_unit_id(units, e.0)).map_values(|e: (u64, u64)| e.1)
}

/// Whether `spawn` and `despawn` are what a sync of the field `field` with
/// the server's list `units` creates and removes: every listed hero not on
/// the field is created, by position in the list; and when the field then
/// holds more heroes than the list, every entity whose id is not listed is
/// removed.
pub open spec fn is_sync_plan(spawn: Seq<usize>, despawn: Seq<u64>, units: Seq<TeamUnit>, field: Seq<(u64, u64)>) -> bool {
    &&& spawn == spawn_positions(units, field)
    &&& despawn == (if field.len() + spawn_positions(units, field).len() > units.len() {
        stale_entities(units, field)
    } else {
        Seq::empty()
    })
}

/// The heroes of the run's shop that can still be bought, in shop order.
pub open spec fn case_units(run: ArenaRun) -> Seq<TeamUnit> {
    run.state.case@.filter(|o: ShopOffer| o.available).map_values(|o: ShopOffer| o.unit)
}

/// Whether `e` is the entity of a field hero whose id the server does not
/// list.
pub open spec fn is_unlisted_entity(units: Seq<TeamUnit>, field: Seq<(u64, u64)>, e: u64) -> bool {
    exists|j: int| 0 <= j < field.len() && field[j].1 == e && !has_unit_id(units, field[j].0)
}

/// A sync (see [`ShopPlugin::sync_units`]) creates exactly the listed
/// heroes that are not on the field, and its list of stale entities holds
/// exactly the entities whose server id is no longer listed: every listed
/// hero is either on the field already or created, no hero already on the
/// field is created again, and an entity is stale exactly when the server
/// does not list its id.
pub proof fn law_sync_plan(units: Seq<TeamUnit>, field: Seq<(u64, u64)>)
    requires
        units.len() <= usize::MAX,
    ensures
        forall|i: int| 0 <= i < units.len() ==>
            (has_field_id(field, (#[trigger] units[i]).id) || spawn_positions(units, field).contains(i as usize)),
        forall|k: int| 0 <= k < spawn_positions(units, field).len() ==>
            (#[trigger] spawn_positions(units, field)[k]) < units.len()
            && !has_field_id(field, units[spawn_positions(units, field)[k] as int].id),
        forall|i: int| 0 <= i < field.len() && !has_unit_id(units, (#[trigger] field[i]).0) ==> stale_entities(units, field).contains(field[i].1),
        forall|k: int| 0 <= k < stale_entities(units, field).len()
            ==> is_unlisted_entity(units, field, #[trigger] stale_entities(units, field)[k]),
{
    let all = Seq::new(units.len(), |i: int| i as usize);
    let sp = |i: usize| !has_field_id(field, units[i as int].id);
    let spawn = all.filter(sp);
    assert forall|i: int| 0 <= i < units.len() implies
        (has_field_id(field, (#[trigger] units[i]).id) || spawn_positions(units, field).contains(i as usize)) by {
        if !has_field_id(field, units[i].id) {
            assert(all[i] == i as usize);
            all.lemma_filter_contains(sp, i);
        }
    }
    lemma_filter_from(all, sp);
    assert forall|k: int| 0 <= k < spawn.len() implies (#[trigger] spawn[k]) < units.len()
        && !has_field_id(field, units[spawn[k] as int].id) by {
        all.lemma_filter_pred(sp, k);
        assert(all.contains(spawn[k]));
        let j = choose|j: int| 0 <= j < all.len() && all[j] == spawn[k];
        assert(all[j] == j as usize);
    }
    let stp = |e: (u64, u64)| !has_unit_id(units, e.0);
    let kept = field.filter(stp);
    let stale = kept.map_values(|e: (u64, u64)| e.1);
    assert forall|i: int| 0 <= i < field.len() && !has_unit_id(units, (#[trigger] field[i]).0) implies stale.contains(field[i].1) by {
        field.lemma_filter_contains(stp, i);
        let j = choose|j: int| 0 <= j < kept.len() && kept[j] == field[i];
        assert(stale[j] == field[i].1);
    }
    lemma_filter_from(field, stp);
    assert(stale == stale_entities(units, field));
    assert forall|k: int| 0 <= k < stale_entities(units, field).len()
        implies is_unlisted_entity(units, field, #[trigger] stale_entities(units, field)[k]) by {
        field.lemma_filter_pred(stp, k);
        assert(field.contains(kept[k]));
        let j = choose|j: int| 0 <= j < field.len() && field[j] == kept[k];
        assert(field[j].1 == stale[k]);
    }
}

/// The state values that a sync writes onto one entity.
#[derive(Debug)]
pub struct StateUpdate {
    pub entity: u64,
    pub hp: i32,
    pub atk: i32,
    pub stacks: i32,
    pub level: i32,
    pub houses: String,
}

/// The teams a battle is fought between: the player's run team and, when
/// the run has an enemy for this round, that enemy's pool team.
#[derive(Debug)]
pub struct BattleTeams {
    pub run_id: u64,
    pub left: Vec<TableUnit>,
    pub right: Option<String>,
}

/// The server's heroes that are not yet on the field, by position.
fn missing_units(units: &Vec<TeamUnit>, field: &Vec<(u64, u64)>) -> (res: Vec<usize>)
    ensures
        res@ == spawn_positions(units@, field@),
{
    let ghost all = Seq::new(units@.len(), |i: int| i as usize);
    let mut res: Vec<usize> = Vec::new();
    let mut i: usize = 0;
    while i < units.len()
        invariant
            i <= units@.len(),
            all == Seq::new(units@.len(), |i: int| i as usize),
            res@ == all.subrange(0, i as int).filter(|k: usize| !has_field_id(field@, units@[k as int].id)),
        decreases units.len() - i,
    {
        let id = units[i].id;
        let mut found = false;
        let mut j: usize = 0;
        while j < field.len()
            invariant
                j <= field@.len(),
                found == exists|k: int| 0 <= k < j && field@[k].0 == id,
            decreases field.len() - j,
        {
            if field[j].0 == id {
                found = true;
            }
            j = j + 1;
        }
        proof {
            reveal_with_fuel(Seq::<_>::filter, 1);
            assert(all.subrange(0, i as int + 1).drop_last() =~= all.subrange(0, i as int));
        }
        if !found {
            res.push(i);
        }
        i = i + 1;
    }
    assert(all.subrange(0, units@.len() as int) =~= all);
    res
}

/// The field entities whose server id is not among `units`.
fn stale_field(units: &Vec<TeamUnit>, field: &Vec<(u64, u64)>) -> (res: Vec<u64>)
    ensures
        res@ == stale_entities(units@, field@),
{
    let mut res: Vec<u64> = Vec::new();
    let mut i: usize = 0;
    while i < field.len()
        invariant
            i <= field@.len(),
            res@ == field@.subrange(0, i as int).filter(|e: (u64, u64)| !has_unit_id(units@, e.0)).map_values(|e: (u64, u64)| e.1),
        decreases field.len() - i,
    {
        let (id, entity) = field[i];
        let mut found = false;
        let mut j: usize = 0;
        while j < units.len()
            invariant
                j <= units@.len(),
                found == exists|k: int| 0 <= k < j && units@[k].id == id,
            decreases units.len() - j,
        {
            if units[j].id == id {
                found = true;
            }
            j = j + 1;
        }
        proof {
            reveal_with_fuel(Seq::<_>::filter, 1);
            assert(field@.subrange(0, i as int + 1).drop_last() =~= field@.subrange(0, i as int));
        }
        let ghost before = res@;
        if !found {
            res.push(entity);
            proof {
                let f = field@.subrange(0, i as int).filter(|e: (u64, u64)| !has_unit_id(units@, e.0));
                assert(f.push(field@[i as int]).map_values(|e: (u64, u64)| e.1) =~= f.map_values(|e: (u64, u64)| e.1).push(entity));
            }
        }
        i = i + 1;
    }
    assert(field@.subrange(0, field@.len() as int) =~= field@);
    res
}

impl ShopPlugin {
    /// Offers the fused heroes made from `source` and `target`.
    pub fn start_fuse(source: u64, target: u64, candidates: Vec<PackedUnit>, data: &mut ShopData)
        ensures
            final(data).phase == (ShopPhase::FuseEnd { source, target, candidates }),
            final(data).update_callback == old(data).update_callback,
    {
        data.phase = ShopPhase::FuseEnd { source, target, candidates };
    }

    /// What to create and remove so that the field's heroes of one side, given
    /// as (server id, entity), match the server's list `units`: every listed
    /// hero not on the field is created; and when the field then holds more
    /// heroes than the list, every entity whose id is not listed is removed.
    pub fn sync_units(units: &Vec<TeamUnit>, field: &Vec<(u64, u64)>) -> (res: SyncPlan)
        ensures
            is_sync_plan(res.spawn@, res.despawn@, units@, field@),
    {
        let spawn = missing_units(units, field);
        let despawn = if field.len() as u128 + spawn.len() as u128 > units.len() as u128 {
            stale_field(units, field)
        } else {
            Vec::new()
        };
        SyncPlan { spawn, despawn }
    }

    /// The state each listed hero's entity gets from the server row; every
    /// listed id must be on the field, given as (server id, entity).
    pub fn sync_units_state(units: &Vec<TeamUnit>, field: &Vec<(u64, u64)>) -> (res: Vec<StateUpdate>)
        requires
            forall|i: int| 0 <= i < units@.len() ==> has_field_id(field@, #[trigger] units@[i].id),
        ensures
            res@.len() == units@.len(),
            forall|i: int| 0 <= i < units@.len() ==> {
                &&& (exists|k: int| 0 <= k < field@.len() && field@[k].0 == units@[i].id && field@[k].1 == (#[trigger] res@[i]).entity)
                &&& res@[i].hp == units@[i].unit.hp
                &&& res@[i].atk == units@[i].unit.atk
                &&& res@[i].stacks == units@[i].unit.stacks
                &&& res@[i].level == units@[i].unit.level
                &&& res@[i].houses == units@[i].unit.houses
            },
    {
        let mut res: Vec<StateUpdate> = Vec::new();
        let mut i: usize = 0;
        while i < units.len()
            invariant
                i <= units@.len(),
                res@.len() == i,
                forall|i: int| 0 <= i < units@.len() ==> has_field_id(field@, #[trigger] units@[i].id),
                forall|k: int| 0 <= k < i ==> {
                    &&& (exists|m: int| 0 <= m < field@.len() && field@[m].0 == units@[k].id && field@[m].1 == (#[trigger] res@[k]).entity)
                    &&& res@[k].hp == units@[k].unit.hp
                    &&& res@[k].atk == units@[k].unit.atk
                    &&& res@[k].stacks == units@[k].unit.stacks
                    &&& res@[k].level == units@[k].unit.level
                    &&& res@[k].houses == units@[k].unit.houses
                },
            decreases units.len() - i,
        {
            let u = &units[i];
            assert(has_field_id(field@, units@[i as int].id));
            let mut j: usize = 0;
            while j < field.len() && field[j].0 != u.id
                invariant
                    j <= field@.len(),
                    has_field_id(field@, u.id),
                    forall|m: int| 0 <= m < j ==> field@[m].0 != u.id,
                decreases field.len() - j,
            {
                j = j + 1;
            }
            res.push(StateUpdate {
                entity: field[j].1,
                hp: u.unit.hp,
                atk: u.unit.atk,
                stacks: u.unit.stacks,
                level: u.unit.level,
                houses: u.unit.houses.clone(),
            });
            i = i + 1;
        }
        res
    }

    /// The teams of the battle that ends a shop visit: the run's team against
    /// the pool team the run meets in this round (wins plus losses), or no
    /// enemy when the run lists none for it. The listed enemy must be in the
    /// pool.
    pub fn transition_to_battle(run: &ArenaRun, pool: &Vec<ArenaPool>) -> (res: BattleTeams)
        requires
            run.state.wins + run.state.loses <= u32::MAX,
            (run.state.wins + run.state.loses) < run.enemies@.len() ==> exists|i: int| 0 <= i < pool@.len()
                && pool@[i].id == run.enemies@[(run.state.wins + run.state.loses) as int],
        ensures
            res.run_id == run.id,
            res.left@.len() == run.state.team@.len(),
            forall|i: int| 0 <= i < run.state.team@.len() ==> (#[trigger] res.left@[i]) == run.state.team@[i].unit,
            match res.right {
                Some(team) => (run.state.wins + run.state.loses) < run.enemies@.len() && exists|i: int| 0 <= i < pool@.len()
                    && pool@[i].id == run.enemies@[(run.state.wins + run.state.loses) as int] && pool@[i].team == team
                    && forall|j: int| 0 <= j < i ==> (#[trigger] pool@[j]).id != pool@[i].id,
                None => (run.state.wins + run.state.loses) >= run.enemies@.len(),
            },
    {
        let round = run.state.wins + run.state.loses;
        let mut left: Vec<TableUnit> = Vec::new();
        let mut i: usize = 0;
        while i < run.state.team.len()
            invariant
                i <= run.state.team@.len(),
                left@.len() == i,
                forall|k: int| 0 <= k < i ==> (#[trigger] left@[k]) == run.state.team@[k].unit,
            decreases run.state.team.len() - i,
        {
            left.push(run.state.team[i].unit.clone());
            i = i + 1;
        }
        let right = if (round as usize) < run.enemies.len() {
            let id = run.enemies[round as usize];
            match ArenaPool::filter_by_id(pool, id) {
                Some(row) => Some(row.team),
                None => vstd::pervasive::unreached(),
            }
        } else {
            None
        };
        BattleTeams { run_id: run.id, left, right }
    }
}

/// Queries on run rows.
pub trait ArenaRunExt: Sized {
    /// The heroes of the run's shop that can still be bought, in shop order.
    fn get_case_units(self) -> Vec<TeamUnit>;

    /// The first active run among the rows.
    fn current(rows: &Vec<Self>) -> Option<&Self>;
}

/// Whether some earlier row is active.
pub open spec fn active_before(rows: Seq<ArenaRun>, i: int) -> bool {
    exists|j: int| 0 <= j < i && rows[j].active
}

impl ArenaRunExt for ArenaRun {
    fn get_case_units(self) -> (res: Vec<TeamUnit>)
        ensures
            res@ == self.state.case@.filter(|o: ShopOffer| o.available).map_values(|o: ShopOffer| o.unit),
    {
        let case = self.state.case;
        let ghost all = case@;
        let mut res: Vec<TeamUnit> = Vec::new();
        let mut rest = case;
        let mut i: usize = 0;
        let n = rest.len();
        while i < n
            invariant
                i <= n,
                n == all.len(),
                rest@.len() == n,
                forall|k: int| i <= k < n ==> rest@[k] == all[k],
                res@ == all.subrange(0, i as int).filter(|o: ShopOffer| o.available).map_values(|o: ShopOffer| o.unit),
            decreases n - i,
        {
            proof {
                reveal_with_fuel(Seq::<_>::filter, 1);
                assert(all.subrange(0, i as int + 1).drop_last() =~= all.subrange(0, i as int));
            }
            let available = rest[i].available;
            if available {
                let unit = rest[i].unit.clone();
                proof {
                    let f = all.subrange(0, i as int).filter(|o: ShopOffer| o.available);
                    assert(f.push(all[i as int]).map_values(|o: ShopOffer| o.unit) =~= f.map_values(|o: ShopOffer| o.unit).push(unit));
                }
                res.push(unit);
            }
            i = i + 1;
        }
        assert(all.subrange(0, n as int) =~= all);
        res
    }

    fn current(rows: &Vec<ArenaRun>) -> (res: Option<&ArenaRun>)
        ensures
            match res {
                Some(r) => exists|i: int| 0 <= i < rows@.len() && rows@[i] == *r && r.active && !active_before(rows@, i),
                None => !active_before(rows@, rows@.len() as int),
            },
    {
        let mut i: usize = 0;
        while i < rows.len()
            invariant
                i <= rows@.len(),
                !active_before(rows@, i as int),
            decreases rows.len() - i,
        {
            if rows[i].active {
                return Some(&rows[i]);
            }
            i = i + 1;
        }
        None
    }
}

} // verus!
