use arena_of_ideas::faction::Faction;
use arena_of_ideas::resourses::packed_team::{PackedTeam, MAX_SLOTS};
use arena_of_ideas::unit::PackedUnit;
use arena_of_ideas::vars::{VarName, VarState, VarValue};
use arena_of_ideas::world::{EntityKind, EntityRecord, World};

fn hero(name: &str) -> PackedUnit {
    PackedUnit {
        name: name.to_string(),
        hp: 2,
        atk: 3,
        stacks: 1,
        level: 1,
        houses: "h".to_string(),
        description: String::new(),
        statuses: vec![("s".to_string(), 1)],
    }
}

fn int_of(state: &VarState, var: VarName) -> Option<i32> {
    match state.get(var) {
        Some(VarValue::Int(x)) => Some(*x),
        _ => None,
    }
}

#[test]
fn spawn_player_team_makes_slots() {
    let mut world = World::new();
    let team = PackedTeam::spawn(Faction::Team, &mut world);
    assert_eq!(team, 0);
    assert_eq!(world.next_entity, 1 + MAX_SLOTS as u64);
    assert_eq!(world.entities.len(), 1 + MAX_SLOTS);
    for k in 1..=MAX_SLOTS {
        assert!(matches!(world.entities[k].kind, EntityKind::Slot(s, Faction::Team) if s == k));
        assert_eq!(world.entities[k].entity, k as u64);
    }
    assert_eq!(PackedTeam::entity(Faction::Team, &world), Some(0));
}

#[test]
fn spawn_other_team_makes_no_slots() {
    let mut world = World::new();
    let team = PackedTeam::spawn(Faction::Left, &mut world);
    assert_eq!(team, 0);
    assert_eq!(world.entities.len(), 1);
    assert_eq!(PackedTeam::entity(Faction::Left, &world), Some(0));
    assert_eq!(PackedTeam::entity(Faction::Right, &world), None);
}

#[test]
fn pack_after_unpack_gives_the_team_back() {
    let mut world = World::new();
    let mut state = VarState::new();
    state.set(VarName::Level, VarValue::Int(4));
    let team = PackedTeam { units: vec![hero("a"), hero("b"), hero("c")], state };
    team.unpack(Faction::Right, &mut world);
    let packed = PackedTeam::pack(Faction::Right, &world);
    let names: Vec<String> = packed.units.iter().map(|u| u.name.clone()).collect();
    assert_eq!(names, vec!["a", "b", "c"]);
    assert_eq!(int_of(&packed.state, VarName::Level), Some(4));
    assert!(matches!(packed.state.get(VarName::Faction), Some(VarValue::Faction(Faction::Right))));
}

#[test]
fn unpack_numbers_slots_from_one() {
    let mut world = World::new();
    let team = PackedTeam { units: vec![hero("a"), hero("b")], state: VarState::new() };
    team.unpack(Faction::Left, &mut world);
    assert_eq!(world.entities.len(), 3);
    assert_eq!(int_of(&world.entities[1].state, VarName::Slot), Some(1));
    assert_eq!(int_of(&world.entities[2].state, VarName::Slot), Some(2));
    assert_eq!(world.entities[1].parent, Some(0));
}

#[test]
fn unpack_replaces_the_old_team() {
    let mut world = World::new();
    PackedTeam { units: vec![hero("old")], state: VarState::new() }.unpack(Faction::Left, &mut world);
    PackedTeam { units: vec![hero("new")], state: VarState::new() }.unpack(Faction::Left, &mut world);
    let packed = PackedTeam::pack(Faction::Left, &world);
    assert_eq!(packed.units.len(), 1);
    assert_eq!(packed.units[0].name, "new");
    assert_eq!(world.entities.len(), 2);
    assert_eq!(PackedTeam::entity(Faction::Left, &world), Some(2));
}

#[test]
fn despawn_removes_team_and_heroes() {
    let mut world = World::new();
    PackedTeam { units: vec![hero("a")], state: VarState::new() }.unpack(Faction::Left, &mut world);
    PackedTeam { units: vec![hero("b")], state: VarState::new() }.unpack(Faction::Right, &mut world);
    PackedTeam::despawn(Faction::Left, &mut world);
    assert_eq!(world.entities.len(), 2);
    assert_eq!(PackedTeam::entity(Faction::Left, &world), None);
    assert!(PackedTeam::entity(Faction::Right, &world).is_some());
}

#[test]
fn state_and_state_mut_reach_the_team_state() {
    let mut world = World::new();
    PackedTeam::spawn(Faction::Shop, &mut world);
    assert!(PackedTeam::state(Faction::Team, &world).is_none());
    match PackedTeam::state_mut(Faction::Shop, &mut world) {
        Some(s) => s.set(VarName::Hp, VarValue::Int(9)),
        None => panic!("the shop team is on the field"),
    }
    let s = PackedTeam::state(Faction::Shop, &world).unwrap();
    assert_eq!(int_of(s, VarName::Hp), Some(9));
    assert!(PackedTeam::state_mut(Faction::Right, &mut world).is_none());
}

#[test]
fn new_team_has_empty_state() {
    let t = PackedTeam::new(vec![hero("a")]);
    assert_eq!(t.units.len(), 1);
    assert!(t.state.get(VarName::Faction).is_none());
}

#[test]
fn despawn_removes_descendants_at_any_depth() {
    let mut world = World::new();
    let team = PackedTeam::spawn(Faction::Left, &mut world);
    let hero_id = world.next_entity;
    world.entities.push(EntityRecord { entity: hero_id, parent: Some(team), kind: EntityKind::Unit(hero("a")), state: VarState::new() });
    let status_id = hero_id + 1;
    world.entities.push(EntityRecord { entity: status_id, parent: Some(hero_id), kind: EntityKind::Slot(1, Faction::Left), state: VarState::new() });
    let deeper = hero_id + 2;
    world.entities.push(EntityRecord { entity: deeper, parent: Some(status_id), kind: EntityKind::Slot(2, Faction::Left), state: VarState::new() });
    let other = hero_id + 3;
    world.entities.push(EntityRecord { entity: other, parent: None, kind: EntityKind::Slot(3, Faction::Right), state: VarState::new() });
    world.next_entity = hero_id + 4;
    PackedTeam::despawn(Faction::Left, &mut world);
    let left: Vec<u64> = world.entities.iter().map(|r| r.entity).collect();
    assert_eq!(left, vec![other]);
}

#[test]
fn spawning_again_leaves_one_team_of_the_faction() {
    let mut world = World::new();
    let first = PackedTeam::spawn(Faction::Team, &mut world);
    let second = PackedTeam::spawn(Faction::Team, &mut world);
    assert_ne!(first, second);
    let teams: Vec<u64> = world
        .entities
        .iter()
        .filter(|r| matches!(r.kind, EntityKind::Team))
        .map(|r| r.entity)
        .collect();
    assert_eq!(teams, vec![second]);
    assert_eq!(PackedTeam::entity(Faction::Team, &world), Some(second));
    assert_eq!(world.entities.len(), 1 + 2 * MAX_SLOTS);
}
