use vstd::prelude::*;

use crate::faction::Faction;
use crate::unit::{lemma_units_view_push, units_view, PackedUnit, PackedUnitView};
use crate::vars::{VarName, VarState, VarValue, VarValueView};
use crate::seq_facts::{lemma_filter_all, lemma_filter_from, lemma_filter_none};
use crate::world::{closed_under, descends_from, first_team_at, is_team_of, no_team_of, EntityKind, EntityRecord, World};

verus! {

/// A team as it travels between the field and storage: its heroes in slot
/// order and the values its team entity carries.
#[derive(Debug)]
pub struct PackedTeam {
    pub units: Vec<PackedUnit>,
    pub state: VarState,
}

/// Marker of team entities.
#[derive(Debug, Clone, Copy, PartialEq, Eq, Structural)]
pub struct Team;

/// Number of slots the player's team has on the field.
pub const MAX_SLOTS: usize = 6;

/// The entity of the first team of the faction, if any.
pub open spec fn team_entity(s: Seq<EntityRecord>, faction: Faction) -> Option<u64> {
    if exists|i: int| first_team_at(s, faction, i) {
        Some(s[choose|i: int| first_team_at(s, faction, i)].entity)
    } else {
        None
    }
}

/// The records left once the first team of the faction and all its
/// descendants are removed.
pub open spec fn without_team(s: Seq<EntityRecord>, faction: Faction) -> Seq<EntityRecord> {
    match team_entity(s, faction) {
        Some(e) => s.filter(|r: EntityRecord| !descends_from(s, e, r.entity)),
        None => s,
    }
}

/// The hero a unit record holds.
pub open spec fn unit_of(r: EntityRecord) -> PackedUnitView {
    match r.kind {
        EntityKind::Unit(u) => u@,
        _ => arbitrary(),
    }
}

/// The heroes whose parent is the entity `e`, in field order.
pub open spec fn children_units(s: Seq<EntityRecord>, e: u64) -> Seq<PackedUnitView> {
    s.filter(|r: EntityRecord| r.parent == Some(e) && r.kind is Unit).map_values(|r: EntityRecord| unit_of(r))
}

/// There is at most one first team: any two witnesses agree.
proof fn lemma_first_team_unique(s: Seq<EntityRecord>, faction: Faction, i: int, j: int)
    requires
        first_team_at(s, faction, i),
        first_team_at(s, faction, j),
    ensures
        i == j,
{
    if i < j {
        assert(!is_team_of(s[i], faction));
    } else if j < i {
        assert(!is_team_of(s[j], faction));
    }
}

/// The number of slot entities made with a team of the faction: the
/// player's team has its slots, other teams none.
pub open spec fn slots_of(faction: Faction) -> int {
    if faction == Faction::Team { MAX_SLOTS as int } else { 0 }
}

/// The field `after` is the field `before` once a team with heroes `units`
/// and state `state` is put on it for the faction (see
/// [`PackedTeam::unpack`]).
pub open spec fn unpacked(before: World, units: Seq<PackedUnit>, state: Map<VarName, VarValueView>, faction: Faction, after: World) -> bool {
    {
        let kept = without_team(before.entities@, faction);
        let extra: int = slots_of(faction);
        let base = kept.len() + 1 + extra;
        let team = before.next_entity;
        &&& after.next_entity == team + 1 + extra + units.len()
        &&& after.entities@.len() == base + units.len()
        &&& after.entities@.subrange(0, kept.len() as int) == kept
        &&& after.entities@[kept.len() as int].entity == team
        &&& after.entities@[kept.len() as int].parent is None
        &&& after.entities@[kept.len() as int].kind is Team
        &&& after.entities@[kept.len() as int].state@
            == state.insert(VarName::Faction, VarValueView::Faction(faction))
        &&& forall|k: int| 1 <= k <= extra ==> {
            &&& (#[trigger] after.entities@[kept.len() + k]).entity == team + k
            &&& after.entities@[kept.len() + k].parent is None
            &&& after.entities@[kept.len() + k].kind == EntityKind::Slot(k as usize, Faction::Team)
        }
        &&& forall|k: int| 0 <= k < units.len() ==> {
            &&& (#[trigger] after.entities@[base + k]).entity == team + 1 + extra + k
            &&& after.entities@[base + k].parent == Some(team)
            &&& after.entities@[base + k].kind == EntityKind::Unit(units[k])
            &&& after.entities@[base + k].state@
                == Map::<VarName, VarValueView>::empty().insert(VarName::Slot, VarValueView::Int((k + 1) as i32))
        }
    }
}

/// The field `after` is the field `before` once the faction's team is
/// replaced by a new, empty team (see [`PackedTeam::spawn`]).
pub open spec fn spawned(before: World, faction: Faction, after: World) -> bool {
    let kept = without_team(before.entities@, faction);
    let extra: int = slots_of(faction);
    let team = before.next_entity;
    &&& after.next_entity == team + 1 + extra
    &&& after.entities@.len() == kept.len() + 1 + extra
    &&& after.entities@.subrange(0, kept.len() as int) == kept
    &&& after.entities@[kept.len() as int].entity == team
    &&& after.entities@[kept.len() as int].parent is None
    &&& after.entities@[kept.len() as int].kind is Team
    &&& after.entities@[kept.len() as int].state@
        == Map::<VarName, VarValueView>::empty().insert(VarName::Faction, VarValueView::Faction(faction))
    &&& forall|k: int| 1 <= k <= extra ==> {
        &&& (#[trigger] after.entities@[kept.len() + k]).entity == team + k
        &&& after.entities@[kept.len() + k].parent is None
        &&& after.entities@[kept.len() + k].kind == EntityKind::Slot(k as usize, Faction::Team)
        &&& after.entities@[kept.len() + k].state@ == Map::<VarName, VarValueView>::empty()
    }
}

/// After a team is spawned for the faction on a field with at most one team
/// of that faction (see [`PackedTeam::spawn`]), the new team entity is the
/// faction's only team, its state names just the faction, and every record
/// that did not descend from the old team is still there, in its place.
/// A team of another faction that has no parent, and whose id no other
/// record has, stays on the field as it was.
pub proof fn law_spawn_single_team(before: World, faction: Faction, after: World)
    requires
        before.wf(),
        forall|i: int, j: int| 0 <= i < before.entities@.len() && 0 <= j < before.entities@.len()
            && is_team_of(#[trigger] before.entities@[i], faction) && is_team_of(#[trigger] before.entities@[j], faction) ==> i == j,
        spawned(before, faction, after),
    ensures
        team_entity(after.entities@, faction) == Some(before.next_entity),
        forall|i: int| 0 <= i < after.entities@.len() && is_team_of(#[trigger] after.entities@[i], faction)
            ==> after.entities@[i].entity == before.next_entity
                && after.entities@[i].state@ == Map::<VarName, VarValueView>::empty().insert(VarName::Faction, VarValueView::Faction(faction)),
        after.entities@.subrange(0, without_team(before.entities@, faction).len() as int) == without_team(before.entities@, faction),
        forall|i: int| #![trigger before.entities@[i]]
            0 <= i < before.entities@.len() && before.entities@[i].kind is Team && !is_team_of(before.entities@[i], faction)
            && before.entities@[i].parent is None
            && (forall|j: int| 0 <= j < before.entities@.len() && before.entities@[j].entity == before.entities@[i].entity ==> j == i)
            ==> after.entities@.contains(before.entities@[i]),
{
    let b = before.entities@;
    let a = after.entities@;
    let kept = without_team(b, faction);
    let extra: int = slots_of(faction);
    lemma_without_team(b, faction);
    assert forall|j: int| 0 <= j < kept.len() implies !is_team_of(#[trigger] a[j], faction) by {
        assert(a.subrange(0, kept.len() as int)[j] == a[j]);
        assert(kept[j] == a[j]);
    }
    assert(first_team_at(a, faction, kept.len() as int));
    assert forall|j: int| first_team_at(a, faction, j) implies j == kept.len() by {
        lemma_first_team_unique(a, faction, kept.len() as int, j);
    }
    assert forall|i: int| #![trigger b[i]]
        0 <= i < b.len() && b[i].kind is Team && !is_team_of(b[i], faction) && b[i].parent is None
        && (forall|j: int| 0 <= j < b.len() && b[j].entity == b[i].entity ==> j == i)
        implies a.contains(b[i]) by {
        lemma_other_team_kept(b, faction, i);
        assert(kept.contains(b[i]));
        let k = choose|k: int| 0 <= k < kept.len() && kept[k] == b[i];
        assert(a.subrange(0, kept.len() as int)[k] == a[k]);
    }
    assert forall|i: int| 0 <= i < a.len() && is_team_of(#[trigger] a[i], faction)
        implies a[i].entity == before.next_entity
            && a[i].state@ == Map::<VarName, VarValueView>::empty().insert(VarName::Faction, VarValueView::Faction(faction)) by {
        if i > kept.len() {
            let k = i - kept.len();
            assert(a[kept.len() + k].kind == EntityKind::Slot(k as usize, Faction::Team));
        }
    }
}

/// A team of another faction with no parent, whose id no other record has,
/// is not removed with the faction's team.
proof fn lemma_other_team_kept(b: Seq<EntityRecord>, faction: Faction, i: int)
    requires
        0 <= i < b.len(),
        b[i].kind is Team,
        !is_team_of(b[i], faction),
        b[i].parent is None,
        forall|j: int| 0 <= j < b.len() && b[j].entity == b[i].entity ==> j == i,
    ensures
        without_team(b, faction).contains(b[i]),
{
    match team_entity(b, faction) {
        Some(e) => {
            let i0 = choose|i0: int| first_team_at(b, faction, i0);
            assert(b[i0].entity == e);
            assert(i0 != i);
            let x = b[i].entity;
            assert(x != e);
            let d = Set::new(|y: u64| y != x);
            assert(closed_under(b, d)) by {
                assert forall|k: int| 0 <= k < b.len() && (#[trigger] b[k]).parent is Some && d.contains(b[k].parent->0)
                    implies d.contains(b[k].entity) by {
                    if b[k].entity == x {
                        assert(k == i);
                    }
                }
            }
            assert(!descends_from(b, e, x));
            let pred = |r: EntityRecord| !descends_from(b, e, r.entity);
            b.lemma_filter_contains(pred, i);
        },
        None => {
            assert(b.contains(b[i]));
        },
    }
}

/// When some record is a team of the faction, there is a first one.
proof fn lemma_first_team_exists(s: Seq<EntityRecord>, faction: Faction, w: int)
    requires
        0 <= w < s.len(),
        is_team_of(s[w], faction),
    ensures
        exists|i: int| first_team_at(s, faction, i),
    decreases w,
{
    if exists|j: int| 0 <= j < w && is_team_of(s[j], faction) {
        let j = choose|j: int| 0 <= j < w && is_team_of(s[j], faction);
        lemma_first_team_exists(s, faction, j);
    } else {
        assert(first_team_at(s, faction, w));
    }
}

/// With at most one team of the faction on the field, removing its team
/// leaves records that all come from the field and none of which is a team
/// of the faction.
proof fn lemma_without_team(b: Seq<EntityRecord>, faction: Faction)
    requires
        forall|i: int, j: int| 0 <= i < b.len() && 0 <= j < b.len()
            && is_team_of(#[trigger] b[i], faction) && is_team_of(#[trigger] b[j], faction) ==> i == j,
    ensures
        forall|r: EntityRecord| without_team(b, faction).contains(r) ==> b.contains(r),
        no_team_of(without_team(b, faction), faction),
{
    let kept = without_team(b, faction);
    assert(forall|r: EntityRecord| kept.contains(r) ==> b.contains(r)) by {
        match team_entity(b, faction) {
            Some(e) => {
                lemma_filter_from(b, |r: EntityRecord| !descends_from(b, e, r.entity));
            },
            None => {},
        }
    }
    assert forall|j: int| 0 <= j < kept.len() implies !is_team_of(#[trigger] kept[j], faction) by {
        if is_team_of(kept[j], faction) {
            assert(kept.contains(kept[j]));
            let k = choose|k: int| 0 <= k < b.len() && b[k] == kept[j];
            lemma_first_team_exists(b, faction, k);
            let i0 = choose|i: int| first_team_at(b, faction, i);
            assert(k == i0);
            assert(team_entity(b, faction) == Some(b[i0].entity));
            let e = b[i0].entity;
            let pred = |r: EntityRecord| !descends_from(b, e, r.entity);
            b.lemma_filter_pred(pred, j);
            assert(descends_from(b, e, kept[j].entity));
        }
    }
}

/// No record left once the faction's team is removed has the next id to
/// hand out as parent.
proof fn lemma_kept_parents(before: World, faction: Faction)
    requires
        before.wf(),
        forall|r: EntityRecord| without_team(before.entities@, faction).contains(r) ==> before.entities@.contains(r),
    ensures
        forall|i: int| 0 <= i < without_team(before.entities@, faction).len()
            ==> (#[trigger] without_team(before.entities@, faction)[i]).parent != Some(before.next_entity),
{
    let b = before.entities@;
    let kept = without_team(b, faction);
    assert forall|i: int| 0 <= i < kept.len() implies (#[trigger] kept[i]).parent != Some(before.next_entity) by {
        assert(kept.contains(kept[i]));
        assert(b.contains(kept[i]));
        let k = choose|k: int| 0 <= k < b.len() && b[k] == kept[i];
        assert(b[k].parent is Some ==> b[k].parent->0 < before.next_entity);
    }
}

/// After an unpack, the heroes of the new team are the unpacked heroes.
#[verifier::spinoff_prover]
#[verifier::rlimit(40)]
proof fn lemma_unpacked_children(before: World, units: Seq<PackedUnit>, state: Map<VarName, VarValueView>, faction: Faction, after: World)
    requires
        before.wf(),
        forall|r: EntityRecord| without_team(before.entities@, faction).contains(r) ==> before.entities@.contains(r),
        unpacked(before, units, state, faction, after),
    ensures
        children_units(after.entities@, before.next_entity) == units_view(units),
{
    let b = before.entities@;
    let a = after.entities@;
    let kept = without_team(b, faction);
    let team = before.next_entity;
    let extra: int = slots_of(faction);
    let base = kept.len() + 1 + extra;
    let pred = |r: EntityRecord| r.parent == Some(team) && r.kind is Unit;
    let head = a.subrange(0, base);
    let tail = a.subrange(base, a.len() as int);
    assert(a =~= head + tail);
    Seq::filter_distributes_over_add(head, tail, pred);
    lemma_kept_parents(before, faction);
    assert forall|i: int| 0 <= i < head.len() implies !pred(#[trigger] head[i]) by {
        if i < kept.len() {
            assert(a.subrange(0, kept.len() as int)[i] == a[i]);
            assert(kept[i] == a[i]);
            assert(kept[i].parent != Some(team));
        } else if i > kept.len() {
            let m = i - kept.len();
            assert(a[kept.len() + m].parent is None);
        }
    }
    lemma_filter_none(head, pred);
    assert forall|i: int| 0 <= i < tail.len() implies pred(#[trigger] tail[i]) by {
        assert(tail[i] == a[base + i]);
        assert(a[base + i].parent == Some(team));
    }
    lemma_filter_all(tail, pred);
    assert(head.filter(pred) + tail.filter(pred) =~= tail);
    let mapped = tail.map_values(|r: EntityRecord| unit_of(r));
    assert forall|k: int| 0 <= k < units.len() implies #[trigger] mapped[k] == units_view(units)[k] by {
        assert(tail[k] == a[base + k]);
        assert(a[base + k].kind == EntityKind::Unit(units[k]));
    }
    assert(mapped =~= units_view(units));
}

/// Packing a faction's team right after a team was unpacked for it (see
/// [`PackedTeam::unpack`] and [`PackedTeam::pack`]) gives that team back: the
/// faction's team is the new team entity, its state is the team's state with
/// the faction set, and its heroes are the team's heroes in order. This holds
/// on a field with at most one team of the faction.
pub proof fn law_pack_after_unpack(before: World, units: Seq<PackedUnit>, state: Map<VarName, VarValueView>, faction: Faction, after: World)
    requires
        before.wf(),
        forall|i: int, j: int| 0 <= i < before.entities@.len() && 0 <= j < before.entities@.len()
            && is_team_of(#[trigger] before.entities@[i], faction) && is_team_of(#[trigger] before.entities@[j], faction) ==> i == j,
        unpacked(before, units, state, faction, after),
    ensures
        team_entity(after.entities@, faction) == Some(before.next_entity),
        exists|i: int| first_team_at(after.entities@, faction, i)
            && after.entities@[i].state@ == state.insert(VarName::Faction, VarValueView::Faction(faction)),
        children_units(after.entities@, before.next_entity) == units_view(units),
{
    let b = before.entities@;
    let a = after.entities@;
    let kept = without_team(b, faction);
    lemma_without_team(b, faction);
    assert(first_team_at(a, faction, kept.len() as int)) by {
        assert forall|j: int| 0 <= j < kept.len() implies !is_team_of(#[trigger] a[j], faction) by {
            assert(a.subrange(0, kept.len() as int)[j] == a[j]);
            assert(kept[j] == a[j]);
        }
    }
    assert forall|j: int| first_team_at(a, faction, j) implies j == kept.len() by {
        lemma_first_team_unique(a, faction, kept.len() as int, j);
    }
    assert(team_entity(a, faction) == Some(before.next_entity));
    lemma_unpacked_children(before, units, state, faction, after);
}

impl PackedTeam {
    /// A team of the given heroes with an empty state.
    pub fn new(units: Vec<PackedUnit>) -> (res: PackedTeam)
        ensures
            res.units@ == units@,
            res.state@ == Map::<VarName, VarValueView>::empty(),
    {
        PackedTeam { units, state: VarState::new() }
    }

    /// The entity of the first team of the faction on the field, if any.
    pub fn entity(faction: Faction, world: &World) -> (res: Option<u64>)
        requires
            world.wf(),
        ensures
            res == team_entity(world.entities@, faction),
    {
        match world.find_team(faction) {
            Some(i) => {
                proof {
                    assert forall|j: int| first_team_at(world.entities@, faction, j) implies j == i by {
                        lemma_first_team_unique(world.entities@, faction, i as int, j);
                    }
                }
                Some(world.entities[i].entity)
            },
            None => None,
        }
    }

    /// The state of the first team of the faction, if any.
    pub fn state(faction: Faction, world: &World) -> (res: Option<&VarState>)
        requires
            world.wf(),
        ensures
            match res {
                Some(s) => exists|i: int| first_team_at(world.entities@, faction, i) && *s == world.entities@[i].state,
                None => no_team_of(world.entities@, faction),
            },
    {
        match world.find_team(faction) {
            Some(i) => Some(&world.entities[i].state),
            None => None,
        }
    }

    /// Mutable access to the state of the first team of the faction, if any;
    /// the rest of the field stays as it was.
    pub fn state_mut(faction: Faction, world: &mut World) -> (res: Option<&mut VarState>)
        requires
            old(world).wf(),
        ensures
            match res {
                Some(s) => exists|i: int| {
                    &&& first_team_at(old(world).entities@, faction, i)
                    &&& *s == old(world).entities@[i].state
                    &&& final(world).next_entity == old(world).next_entity
                    &&& final(world).entities@.len() == old(world).entities@.len()
                    &&& forall|j: int| 0 <= j < old(world).entities@.len() && j != i ==> #[trigger] final(world).entities@[j] == old(world).entities@[j]
                    &&& final(world).entities@[i].entity == old(world).entities@[i].entity
                    &&& final(world).entities@[i].parent == old(world).entities@[i].parent
                    &&& final(world).entities@[i].kind == old(world).entities@[i].kind
                    &&& final(world).entities@[i].state == *final(s)
                },
                None => no_team_of(old(world).entities@, faction) && *final(world) == *old(world),
            },
    {
        match world.find_team(faction) {
            Some(i) => Some(&mut world.entities[i].state),
            None => None,
        }
    }

    /// Removes the first team of the faction with all its descendants: its
    /// heroes and whatever hangs below them.
    pub fn despawn(faction: Faction, world: &mut World)
        requires
            old(world).wf(),
        ensures
            final(world).wf(),
            final(world).next_entity == old(world).next_entity,
            final(world).entities@ == without_team(old(world).entities@, faction),
    {
        match Self::entity(faction, world) {
            Some(team) => world.despawn_recursive(team),
            None => {},
        }
    }

    /// Replaces the faction's team by a new, empty team entity, whose state
    /// names the faction; for the player's team the six slots are created
    /// after it. Returns the new team's entity.
    pub fn spawn(faction: Faction, world: &mut World) -> (res: u64)
        requires
            old(world).wf(),
            old(world).next_entity + 1 + MAX_SLOTS <= u64::MAX,
        ensures
            final(world).wf(),
            res == old(world).next_entity,
            spawned(*old(world), faction, *final(world)),
    {
        Self::despawn(faction, world);
        let ghost kept = world.entities@;
        let team = world.next_entity;
        let state = VarState::new_with(VarName::Faction, VarValue::Faction(faction));
        world.entities.push(EntityRecord { entity: team, parent: None, kind: EntityKind::Team, state });
        world.next_entity = world.next_entity + 1;
        if faction == Faction::Team {
            let mut slot: usize = 1;
            while slot <= MAX_SLOTS
                invariant
                    1 <= slot <= MAX_SLOTS + 1,
                    world.next_entity == team + slot,
                    team + 1 + MAX_SLOTS <= u64::MAX,
                    world.entities@.len() == kept.len() + slot,
                    world.entities@.subrange(0, kept.len() as int) == kept,
                    world.entities@[kept.len() as int].entity == team,
                    world.entities@[kept.len() as int].parent is None,
                    world.entities@[kept.len() as int].kind is Team,
                    world.entities@[kept.len() as int].state@
                        == Map::<VarName, VarValueView>::empty().insert(VarName::Faction, VarValueView::Faction(faction)),
                    forall|k: int| 1 <= k < slot ==> {
                        &&& (#[trigger] world.entities@[kept.len() + k]).entity == team + k
                        &&& world.entities@[kept.len() + k].parent is None
                        &&& world.entities@[kept.len() + k].kind == EntityKind::Slot(k as usize, Faction::Team)
                        &&& world.entities@[kept.len() + k].state@ == Map::<VarName, VarValueView>::empty()
                    },
                    world.wf(),
                decreases MAX_SLOTS + 1 - slot,
            {
                let e = world.next_entity;
                world.entities.push(EntityRecord {
                    entity: e,
                    parent: None,
                    kind: EntityKind::Slot(slot, Faction::Team),
                    state: VarState::new(),
                });
                world.next_entity = world.next_entity + 1;
                slot = slot + 1;
                proof {
                    assert(world.entities@.subrange(0, kept.len() as int) =~= kept);
                }
            }
        }
        proof {
            assert(world.entities@.subrange(0, kept.len() as int) =~= kept);
        }
        team
    }

    /// The faction's team as stored: a copy of its team state and copies of
    /// its heroes in field order. The faction must have a team on the field.
    pub fn pack(faction: Faction, world: &World) -> (res: PackedTeam)
        requires
            world.wf(),
            team_entity(world.entities@, faction) is Some,
        ensures
            exists|i: int| first_team_at(world.entities@, faction, i) && res.state@ == world.entities@[i].state@,
            units_view(res.units@) == children_units(world.entities@, team_entity(world.entities@, faction)->0),
    {
        let idx = match world.find_team(faction) {
            Some(i) => i,
            None => vstd::pervasive::unreached(),
        };
        proof {
            assert forall|j: int| first_team_at(world.entities@, faction, j) implies j == idx by {
                lemma_first_team_unique(world.entities@, faction, idx as int, j);
            }
        }
        let te = world.entities[idx].entity;
        let state = world.entities[idx].state.clone();
        let ghost pred = |r: EntityRecord| r.parent == Some(te) && r.kind is Unit;
        let mut units: Vec<PackedUnit> = Vec::new();
        let mut i: usize = 0;
        while i < world.entities.len()
            invariant
                i <= world.entities@.len(),
                pred == (|r: EntityRecord| r.parent == Some(te) && r.kind is Unit),
                units_view(units@) == world.entities@.subrange(0, i as int).filter(pred).map_values(|r: EntityRecord| unit_of(r)),
            decreases world.entities.len() - i,
        {
            proof {
                reveal_with_fuel(Seq::<_>::filter, 1);
                assert(world.entities@.subrange(0, i as int + 1).drop_last() =~= world.entities@.subrange(0, i as int));
            }
            let r = &world.entities[i];
            if r.parent == Some(te) {
                match &r.kind {
                    EntityKind::Unit(u) => {
                        let c = u.clone();
                        proof {
                            let f = world.entities@.subrange(0, i as int).filter(pred);
                            lemma_units_view_push(units@, c);
                            assert(f.push(world.entities@[i as int]).map_values(|r: EntityRecord| unit_of(r))
                                =~= f.map_values(|r: EntityRecord| unit_of(r)).push(c@));
                        }
                        units.push(c);
                    },
                    _ => {},
                }
            }
            i = i + 1;
        }
        assert(world.entities@.subrange(0, world.entities@.len() as int) =~= world.entities@);
        PackedTeam { units, state }
    }

    /// Puts the team on the field for the faction: its state gets the
    /// faction, the faction's old team is replaced (see [`PackedTeam::spawn`])
    /// and takes this state, and each hero becomes a child of the new team in
    /// slot order, slots counted from one.
    pub fn unpack(self, faction: Faction, world: &mut World)
        requires
            old(world).wf(),
            old(world).next_entity + 1 + MAX_SLOTS + self.units@.len() <= u64::MAX,
            self.units@.len() < i32::MAX,
        ensures
            final(world).wf(),
            unpacked(*old(world), self.units@, self.state@, faction, *final(world)),
    {
        let ghost units0 = self.units@;
        let ghost state0 = self.state@;
        let mut state = self.state;
        state.set(VarName::Faction, VarValue::Faction(faction));
        let team = Self::spawn(faction, world);
        let ghost kept = without_team(old(world).entities@, faction);
        let ghost extra: int = slots_of(faction);
        let idx = world.entities.len() - 1 - (if faction == Faction::Team { MAX_SLOTS } else { 0 });
        assert(idx == kept.len());
        world.entities.set(idx, EntityRecord { entity: team, parent: None, kind: EntityKind::Team, state });
        proof {
            assert(world.entities@.subrange(0, kept.len() as int) =~= kept);
        }
        let mut units = self.units;
        let n = units.len();
        let mut k: usize = 0;
        while k < n
            invariant
                k <= n,
                n == units0.len(),
                kept == without_team(old(world).entities@, faction),
                extra == (slots_of(faction)),
                units@ == units0.subrange(k as int, n as int),
                n + team + 1 + MAX_SLOTS <= u64::MAX,
                n < i32::MAX,
                world.next_entity == team + 1 + extra + k,
                world.entities@.len() == kept.len() + 1 + extra + k,
                world.entities@.subrange(0, kept.len() as int) == kept,
                world.entities@[kept.len() as int].entity == team,
                world.entities@[kept.len() as int].parent is None,
                world.entities@[kept.len() as int].kind is Team,
                world.entities@[kept.len() as int].state@ == state0.insert(VarName::Faction, VarValueView::Faction(faction)),
                forall|m: int| 1 <= m <= extra ==> {
                    &&& (#[trigger] world.entities@[kept.len() + m]).entity == team + m
                    &&& world.entities@[kept.len() + m].parent is None
                    &&& world.entities@[kept.len() + m].kind == EntityKind::Slot(m as usize, Faction::Team)
                },
                forall|m: int| 0 <= m < k ==> {
                    &&& (#[trigger] world.entities@[kept.len() + 1 + extra + m]).entity == team + 1 + extra + m
                    &&& world.entities@[kept.len() + 1 + extra + m].parent == Some(team)
                    &&& world.entities@[kept.len() + 1 + extra + m].kind == EntityKind::Unit(units0[m])
                    &&& world.entities@[kept.len() + 1 + extra + m].state@
                        == Map::<VarName, VarValueView>::empty().insert(VarName::Slot, VarValueView::Int((m + 1) as i32))
                },
                world.wf(),
            decreases n - k,
        {
            let unit = units.remove(0);
            let slot = (k + 1) as i32;
            let e = world.next_entity;
            world.entities.push(EntityRecord {
                entity: e,
                parent: Some(team),
                kind: EntityKind::Unit(unit),
                state: VarState::new_with(VarName::Slot, VarValue::Int(slot)),
            });
            world.next_entity = world.next_entity + 1;
            k = k + 1;
            proof {
                assert(units@ =~= units0.subrange(k as int, n as int));
                assert(world.entities@.subrange(0, kept.len() as int) =~= kept);
            }
        }
    }
}

} // verus!
