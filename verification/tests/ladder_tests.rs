use arena_of_ideas::resources::ladder::Ladder;
use arena_of_ideas::resources::packed_team::{default_team_name, default_team_slots, PackedTeam, ReplicatedTeam};
use arena_of_ideas::resources::status_library::{Definitions, StatusLibrary};
use arena_of_ideas::resources::Resources;
use arena_of_ideas::unit::PackedUnit;

fn hero(name: &str) -> PackedUnit {
    PackedUnit {
        name: name.to_string(),
        hp: 1,
        atk: 1,
        stacks: 1,
        level: 1,
        houses: String::new(),
        description: String::new(),
        statuses: Vec::new(),
    }
}

fn level(names: &[&str], replications: usize) -> ReplicatedTeam {
    let units = names.iter().map(|n| hero(n)).collect();
    ReplicatedTeam { team: PackedTeam::new("level".to_string(), units), replications }
}

fn resources(base: Vec<ReplicatedTeam>) -> Resources {
    Resources { ladder: Ladder::new(base), status_library: StatusLibrary::new(), definitions: Definitions::new() }
}

fn names(team: &PackedTeam) -> Vec<String> {
    team.units.iter().map(|u| u.name.clone()).collect()
}

#[test]
fn ladder_starts_at_first_level() {
    let r = resources(vec![level(&["a"], 1), level(&["b"], 1)]);
    assert_eq!(Ladder::current_ind(&r), 0);
    assert_eq!(Ladder::count(&r), 2);
    assert!(!Ladder::is_last_level(&r));
    assert!(!Ladder::need_new_level(&r));
}

#[test]
fn ladder_next_runs_past_the_last_level() {
    let mut r = resources(vec![level(&["a"], 1), level(&["b"], 1)]);
    assert!(Ladder::next(&mut r));
    assert_eq!(Ladder::current_ind(&r), 1);
    assert!(Ladder::is_last_level(&r));
    assert!(!Ladder::next(&mut r));
    assert_eq!(Ladder::current_ind(&r), 2);
    assert!(Ladder::need_new_level(&r));
}

#[test]
fn ladder_pushed_level_is_played_when_needed() {
    let mut r = resources(vec![level(&["a"], 1)]);
    assert!(!Ladder::next(&mut r));
    assert!(Ladder::need_new_level(&r));
    Ladder::push_level(level(&["x", "y"], 1), &mut r);
    assert!(!Ladder::need_new_level(&r));
    assert!(Ladder::is_last_level(&r));
    let team = Ladder::current_team(&r);
    assert_eq!(names(&team), vec!["x".to_string(), "y".to_string()]);
}

#[test]
fn ladder_current_team_repeats_units() {
    let r = resources(vec![level(&["a", "b"], 3)]);
    let team = Ladder::current_team(&r);
    assert_eq!(names(&team), vec!["a", "b", "a", "b", "a", "b"]);
    assert_eq!(team.slots, 6);
    assert_eq!(team.name, "level");
}

#[test]
fn ladder_team_with_no_replications_is_fielded_once() {
    let r = resources(vec![level(&["a", "b"], 0)]);
    let team = Ladder::current_team(&r);
    assert_eq!(names(&team), vec!["a", "b"]);
    assert_eq!(team.slots, 2);
}

#[test]
fn ladder_current_team_reads_added_levels() {
    let mut r = resources(vec![level(&["a"], 1)]);
    Ladder::set_levels(vec![level(&["b"], 2), level(&["c"], 1)], &mut r);
    Ladder::set_level(2, &mut r);
    assert_eq!(names(&Ladder::current_team(&r)), vec!["c"]);
    Ladder::set_level(1, &mut r);
    assert_eq!(names(&Ladder::current_team(&r)), vec!["b", "b"]);
    Ladder::reset(&mut r);
    assert_eq!(Ladder::current_ind(&r), 0);
    assert_eq!(names(&Ladder::current_team(&r)), vec!["a"]);
}

#[test]
fn ladder_get_levels_copies_added_levels() {
    let mut r = resources(vec![level(&["a"], 1)]);
    Ladder::set_levels(vec![level(&["b"], 2)], &mut r);
    let levels = Ladder::get_levels(&r);
    assert_eq!(levels.len(), 1);
    assert_eq!(levels[0].replications, 2);
    assert_eq!(names(&levels[0].team), vec!["b"]);
    assert_eq!(Ladder::count(&r), 2);
}

#[test]
fn ladder_save_hands_over_the_ladder() {
    let r = resources(vec![level(&["a"], 1)]);
    let saved = Ladder::save(&r);
    assert_eq!(saved.current, 0);
    assert_eq!(saved.base.len(), 1);
}

#[test]
fn team_defaults() {
    assert_eq!(default_team_name(), "unnamed");
    assert_eq!(default_team_slots(), 3);
}

#[test]
fn replicated_team_clone_keeps_everything() {
    let r = level(&["a", "b"], 2);
    let c = r.clone();
    assert_eq!(c.replications, 2);
    assert_eq!(names(&c.team), vec!["a", "b"]);
    let t = c.into_team();
    assert_eq!(names(&t), vec!["a", "b", "a", "b"]);
}
