use arena_of_ideas::faction::Faction;
use arena_of_ideas::logic::effects::EffectOrchestrator;
use arena_of_ideas::logic::model::{
    AttachedStatus, EffectId, Position, StatusAction, StatusDef, StatusTrigger, TargetFilter, Unit,
};
use arena_of_ideas::logic::{Logic, Model};
use arena_of_ideas::vars::{VarName, VarState, VarValue};

fn status(id: u64, name: &str, order: i32, time: Option<u32>, inited: bool, triggers: Vec<(StatusTrigger, EffectId)>, flags: Vec<u32>) -> AttachedStatus {
    AttachedStatus {
        id,
        owner: 1,
        creator: 9,
        time,
        vars: VarState::new(),
        is_inited: inited,
        status: StatusDef { name: name.to_string(), order, flags, color: 7, triggers },
    }
}

fn unit(id: u64, faction: Faction, x: i64, health: i32, statuses: Vec<AttachedStatus>) -> Unit {
    Unit { id, faction, position: Position { side: faction, x }, health, all_statuses: statuses, flags: Vec::new() }
}

fn logic(units: Vec<Unit>) -> Logic {
    Logic {
        model: Model { units, dead_units: Vec::new(), vars: VarState::new(), spawning_units: Vec::new(), next_id: 0 },
        effects: EffectOrchestrator::new(),
    }
}

fn drain(l: &mut Logic) -> Vec<(String, EffectId, u64, u64, u64)> {
    let mut out = Vec::new();
    while let Some((q, x)) = l.effects.get_next_effect(&vec![]) {
        out.push((q, x.effect, x.context.owner, x.context.creator, x.context.target));
    }
    out
}

fn names(u: &Unit) -> Vec<String> {
    u.all_statuses.iter().map(|s| s.status.name.clone()).collect()
}

#[test]
fn status_expires_at_zero_time_or_no_stacks() {
    assert!(Logic::is_status_expired(&status(1, "a", 0, Some(0), true, vec![], vec![])));
    assert!(!Logic::is_status_expired(&status(1, "a", 0, Some(1), true, vec![], vec![])));
    assert!(!Logic::is_status_expired(&status(1, "a", 0, None, true, vec![], vec![])));
    let mut s = status(1, "a", 0, None, true, vec![], vec![]);
    s.vars.set(VarName::StackCounter, VarValue::Int(0));
    assert!(Logic::is_status_expired(&s));
    s.vars.set(VarName::StackCounter, VarValue::Int(-2));
    assert!(Logic::is_status_expired(&s));
    s.vars.set(VarName::StackCounter, VarValue::Int(1));
    assert!(!Logic::is_status_expired(&s));
}

#[test]
fn turn_sorts_attaches_counts_down_and_drops_statuses() {
    let a = status(1, "A", 2, None, false, vec![(StatusTrigger::Init, 100)], vec![1]);
    let b = status(2, "B", 1, Some(1), true, vec![(StatusTrigger::Break, 200)], vec![2]);
    let c = status(3, "C", 2, Some(3), true, vec![], vec![3]);
    let mut u = unit(1, Faction::Left, 1, 5, vec![a, b, c]);
    let mut l = logic(Vec::new());
    l.process_unit_statuses(&mut u);
    assert_eq!(names(&u), vec!["A", "C"]);
    assert!(u.all_statuses.iter().all(|s| s.is_inited));
    assert_eq!(u.all_statuses[0].time, None);
    assert_eq!(u.all_statuses[1].time, Some(2));
    assert_eq!(u.flags, vec![1, 3]);
    let fired = drain(&mut l);
    assert_eq!(fired, vec![("1".to_string(), 100, 1, 9, 1), ("1".to_string(), 200, 1, 1, 1)]);
}

#[test]
fn turn_keeps_order_of_equal_statuses() {
    let a = status(1, "A", 5, None, true, vec![], vec![]);
    let b = status(2, "B", 5, None, true, vec![], vec![]);
    let c = status(3, "C", 0, None, true, vec![], vec![]);
    let mut u = unit(1, Faction::Left, 1, 5, vec![a, b, c]);
    let mut l = logic(Vec::new());
    l.process_unit_statuses(&mut u);
    assert_eq!(names(&u), vec!["C", "A", "B"]);
    assert!(drain(&mut l).is_empty());
}

#[test]
fn time_does_not_go_below_zero() {
    let a = status(1, "A", 0, Some(0), true, vec![], vec![]);
    let mut u = unit(1, Faction::Left, 1, 5, vec![a]);
    let mut l = logic(Vec::new());
    l.process_unit_statuses(&mut u);
    assert!(u.all_statuses.is_empty());
    assert!(u.flags.is_empty());
}

#[test]
fn dropped_status_is_announced_to_watchers() {
    let b = status(2, "B", 1, Some(1), true, vec![], vec![]);
    let e = status(5, "E", 3, None, true, vec![(StatusTrigger::SelfDetectAttach { status_name: "B".to_string(), status_action: StatusAction::Remove }, 400)], vec![]);
    let mut u = unit(1, Faction::Left, 1, 5, vec![b, e]);
    let d = status(6, "D", 0, None, true, vec![(StatusTrigger::DetectAttach { status_name: "B".to_string(), filter: TargetFilter::Enemies, status_action: StatusAction::Remove }, 300)], vec![]);
    let friend = status(7, "F", 0, None, true, vec![(StatusTrigger::DetectAttach { status_name: "B".to_string(), filter: TargetFilter::Enemies, status_action: StatusAction::Remove }, 301)], vec![]);
    let other = unit(2, Faction::Right, 1, 5, vec![d]);
    let ally = unit(3, Faction::Left, 2, 5, vec![friend]);
    let mut l = logic(vec![other, ally]);
    l.process_unit_statuses(&mut u);
    assert_eq!(names(&u), vec!["E"]);
    let fired = drain(&mut l);
    assert_eq!(fired, vec![("1".to_string(), 400, 1, 1, 1), ("2".to_string(), 300, 2, 1, 1)]);
}

#[test]
fn trigger_status_drop_uses_the_given_creator() {
    let e = status(5, "E", 3, None, true, vec![(StatusTrigger::SelfDetectAttach { status_name: "X".to_string(), status_action: StatusAction::Remove }, 400)], vec![]);
    let u = unit(4, Faction::Left, 1, 5, vec![e]);
    let mut l = logic(Vec::new());
    l.trigger_status_drop(&u, 77, 0, &"X".to_string());
    assert_eq!(drain(&mut l), vec![("4".to_string(), 400, 4, 77, 4)]);
    l.trigger_status_drop(&u, 77, 0, &"Y".to_string());
    assert!(drain(&mut l).is_empty());
}

#[test]
fn deaths_are_recorded_and_the_side_moves_in() {
    let dying = unit(1, Faction::Left, 1, 0, vec![status(1, "S", 0, None, true, vec![(StatusTrigger::Death, 500)], vec![])]);
    let behind = unit(2, Faction::Left, 2, 5, vec![]);
    let enemy = unit(3, Faction::Right, 1, 3, vec![]);
    let mut l = logic(vec![dying, behind, enemy]);
    l.process_deaths();
    let ids: Vec<u64> = l.model.units.iter().map(|u| u.id).collect();
    assert_eq!(ids, vec![2, 3]);
    assert_eq!(l.model.units[0].position.x, 1);
    assert_eq!(l.model.units[1].position.x, 1);
    assert_eq!(l.model.dead_units.len(), 1);
    assert_eq!(l.model.dead_units[0].id, 1);
    assert_eq!(drain(&mut l), vec![("1".to_string(), 500, 1, 1, 1)]);
}

#[test]
fn no_deaths_change_nothing() {
    let mut l = logic(vec![unit(1, Faction::Left, 1, 1, vec![]), unit(2, Faction::Right, 1, 2, vec![])]);
    l.process_deaths();
    assert_eq!(l.model.units.len(), 2);
    assert!(l.model.dead_units.is_empty());
}

#[test]
fn a_unit_dying_again_replaces_its_record() {
    let mut l = logic(vec![unit(1, Faction::Left, 1, -1, vec![])]);
    l.model.dead_units.push(unit(1, Faction::Left, 4, 0, vec![]));
    l.process_deaths();
    assert!(l.model.units.is_empty());
    assert_eq!(l.model.dead_units.len(), 1);
    assert_eq!(l.model.dead_units[0].health, -1);
}

#[test]
fn spawned_units_get_ids_and_arrive_when_done() {
    let mut l = logic(Vec::new());
    let templates = vec![
        ("knight".to_string(), unit(99, Faction::Shop, 0, 5, vec![status(1, "S", 0, None, true, vec![(StatusTrigger::Spawn, 600)], vec![])])),
        ("archer".to_string(), unit(98, Faction::Shop, 0, 5, vec![])),
        ("knight".to_string(), unit(97, Faction::Shop, 0, 9, vec![])),
    ];
    let a = l.spawn_unit(&templates, &"knight".to_string(), Faction::Left, Position { side: Faction::Left, x: 1 });
    let b = l.spawn_unit(&templates, &"archer".to_string(), Faction::Right, Position { side: Faction::Right, x: 2 });
    assert_eq!((a, b), (0, 1));
    assert_eq!(l.model.spawning_units[0].faction, Faction::Left);
    assert_eq!(l.model.spawning_units[0].health, 5);
    assert_eq!(l.model.spawning_units[1].position.x, 2);
    assert_eq!(l.model.next_id, 2);
    l.process_spawns(&vec![true, false]);
    assert_eq!(l.model.units.len(), 1);
    assert_eq!(l.model.units[0].id, 0);
    assert_eq!(l.model.spawning_units.len(), 1);
    assert_eq!(l.model.spawning_units[0].id, 1);
    assert_eq!(drain(&mut l), vec![("0".to_string(), 600, 0, 0, 0)]);
    l.process_spawns(&vec![true]);
    assert_eq!(l.model.units.len(), 2);
    assert!(l.model.spawning_units.is_empty());
}

#[test]
fn survivors_move_in_by_the_dead_before_them() {
    let units = vec![
        unit(1, Faction::Left, 4, 5, vec![]),
        unit(2, Faction::Left, 3, 0, vec![]),
        unit(3, Faction::Left, 2, 5, vec![]),
        unit(4, Faction::Left, 1, -1, vec![]),
        unit(5, Faction::Right, 2, 5, vec![]),
    ];
    let mut l = logic(units);
    l.process_deaths();
    let places: Vec<(u64, i64)> = l.model.units.iter().map(|u| (u.id, u.position.x)).collect();
    assert_eq!(places, vec![(1, 2), (3, 1), (5, 2)]);
}

#[test]
fn spawn_effect_uses_caster_side_and_target_place() {
    let caster = unit(1, Faction::Right, 3, 5, vec![]);
    let target = unit(2, Faction::Left, 4, 0, vec![]);
    let mut l = logic(vec![caster]);
    l.model.dead_units.push(target);
    l.model.next_id = 10;
    let templates = vec![("imp".to_string(), unit(0, Faction::Shop, 0, 2, vec![]))];
    let id = l.process_spawn_effect(&templates, &"imp".to_string(), 1, 2);
    assert_eq!(id, 10);
    assert_eq!(l.model.next_id, 11);
    let s = &l.model.spawning_units[0];
    assert_eq!((s.id, s.faction, s.position.side, s.position.x, s.health), (10, Faction::Right, Faction::Left, 4, 2));
}

#[test]
fn suicide_empties_the_casters_health() {
    let mut l = logic(vec![unit(1, Faction::Left, 1, 5, vec![]), unit(2, Faction::Left, 2, 7, vec![])]);
    l.process_suicide_effect(Some(2));
    assert_eq!((l.model.units[0].health, l.model.units[1].health), (5, 0));
    l.process_suicide_effect(None);
    l.process_suicide_effect(Some(9));
    assert_eq!((l.model.units[0].health, l.model.units[1].health), (5, 0));
}
