use arena_of_ideas::faction::Faction;
use arena_of_ideas::plugins::hero_editor::{show_value, HeroEditorData, ValueColor};
use arena_of_ideas::plugins::HeroEditorPlugin;
use arena_of_ideas::unit::PackedUnit;
use arena_of_ideas::world::{EntityKind, World};

fn hero(name: &str) -> PackedUnit {
    PackedUnit {
        name: name.to_string(),
        hp: 1,
        atk: 1,
        stacks: 1,
        level: 1,
        houses: String::new(),
        description: String::new(),
        statuses: vec![("burn".to_string(), 2)],
    }
}

fn names(v: &Vec<PackedUnit>) -> Vec<String> {
    v.iter().map(|u| u.name.clone()).collect()
}

#[test]
fn save_sorts_by_slot_and_splits_sides() {
    let mut d = HeroEditorData::default();
    let heroes = vec![
        (Faction::Left, 2, hero("l2")),
        (Faction::Right, 1, hero("r1")),
        (Faction::Left, 1, hero("l1")),
        (Faction::Left, 2, hero("l2b")),
        (Faction::Right, 3, hero("r3")),
    ];
    d.save(heroes);
    assert_eq!(names(&d.teams.0), vec!["l1", "l2", "l2b"]);
    assert_eq!(names(&d.teams.1), vec!["r1", "r3"]);
}

#[test]
fn editor_save_and_exit_save_the_field() {
    let mut d = HeroEditorData::default();
    HeroEditorPlugin::save(&mut d, vec![(Faction::Right, 1, hero("r"))]);
    assert_eq!(names(&d.teams.1), vec!["r"]);
    HeroEditorPlugin::on_exit(&mut d, vec![(Faction::Left, 1, hero("l"))]);
    assert_eq!(names(&d.teams.0), vec!["l"]);
    assert!(d.teams.1.is_empty());
}

#[test]
fn clear_empties_teams_and_hover() {
    let mut d = HeroEditorData::default();
    d.save(vec![(Faction::Left, 1, hero("a"))]);
    d.hovered_id = Some("a".to_string());
    d.save_teams();
    d.clear();
    assert!(d.teams.0.is_empty() && d.teams.1.is_empty());
    assert_eq!(d.hovered_id, None);
    assert_eq!(names(&d.saved_teams.0), vec!["a"]);
}

#[test]
fn plugin_clear_also_drops_the_active_hero() {
    let mut d = HeroEditorData::default();
    d.active = Some((4, hero("a")));
    HeroEditorPlugin::clear(&mut d);
    assert!(d.active.is_none());
    d.active = Some((4, hero("a")));
    HeroEditorPlugin::on_enter(&mut d);
    assert!(d.active.is_none());
}

#[test]
fn load_brings_back_saved_teams() {
    let mut d = HeroEditorData::default();
    d.save(vec![(Faction::Left, 1, hero("a")), (Faction::Right, 1, hero("b"))]);
    d.save_teams();
    d.save(vec![]);
    assert!(d.teams.0.is_empty());
    d.load_teams();
    assert_eq!(names(&d.teams.0), vec!["a"]);
    assert_eq!(names(&d.teams.1), vec!["b"]);
}

#[test]
fn clear_statuses_keeps_heroes() {
    let mut d = HeroEditorData::default();
    d.save(vec![(Faction::Left, 1, hero("a")), (Faction::Right, 1, hero("b"))]);
    d.clear_statuses();
    assert_eq!(names(&d.teams.0), vec!["a"]);
    assert!(d.teams.0[0].statuses.is_empty());
    assert!(d.teams.1[0].statuses.is_empty());
}

#[test]
fn add_status_counts_charges() {
    let mut u = hero("a");
    u.add_status("burn".to_string());
    u.add_status("freeze".to_string());
    u.add_status("freeze".to_string());
    assert_eq!(u.statuses, vec![("burn".to_string(), 3), ("freeze".to_string(), 2)]);
}

#[test]
fn shown_values() {
    assert_eq!(show_value(Ok("5".to_string())), ("5".to_string(), ValueColor::LightGray));
    assert_eq!(show_value(Err("no var".to_string())), ("no var".to_string(), ValueColor::Red));
}

#[test]
fn load_puts_both_teams_on_the_field() {
    let mut d = HeroEditorData::default();
    d.save(vec![
        (Faction::Left, 1, hero("a")),
        (Faction::Left, 2, hero("c")),
        (Faction::Right, 1, hero("b")),
    ]);
    let mut world = World::new();
    d.load(&mut world);
    let heroes: Vec<String> = world
        .entities
        .iter()
        .filter_map(|r| match &r.kind {
            EntityKind::Unit(u) => Some(u.name.clone()),
            _ => None,
        })
        .collect();
    assert_eq!(heroes, vec!["a", "c", "b"]);
    assert!(world.find_team(Faction::Left).is_some());
    assert!(world.find_team(Faction::Right).is_some());
}
