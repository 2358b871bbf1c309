use arena_of_ideas::module_bindings::arena_pool::ArenaPool;
use arena_of_ideas::module_bindings::arena_run::{ArenaRun, RunState, ShopOffer, TableUnit, TeamUnit};
use arena_of_ideas::plugins::shop::{ArenaRunExt, ShopData, ShopPhase, ShopPlugin, REROLL_PRICE};
use arena_of_ideas::plugins::shop_actions::{ButtonColor, EnterStep, FusionChoice, HeroButton, ShopAction, ShopCommand, ShopError};
use arena_of_ideas::unit::PackedUnit;

fn table_unit(name: &str, hp: i32) -> TableUnit {
    TableUnit { name: name.to_string(), hp, atk: hp + 1, stacks: 1, level: 2, houses: "h".to_string() }
}

fn team_unit(id: u64, name: &str) -> TeamUnit {
    TeamUnit { id, unit: table_unit(name, id as i32) }
}

fn run(wins: u32, loses: u32, enemies: Vec<u64>) -> ArenaRun {
    ArenaRun {
        id: 5,
        active: true,
        state: RunState {
            team: vec![team_unit(1, "a"), team_unit(2, "b")],
            case: vec![
                ShopOffer { available: true, unit: team_unit(10, "x") },
                ShopOffer { available: false, unit: team_unit(11, "y") },
                ShopOffer { available: true, unit: team_unit(12, "z") },
            ],
            wins,
            loses,
            g: 3,
        },
        enemies,
    }
}

fn data(phase: ShopPhase) -> ShopData {
    ShopData { update_callback: 1, phase }
}

fn hero(name: &str) -> PackedUnit {
    PackedUnit {
        name: name.to_string(),
        hp: 1,
        atk: 1,
        stacks: 1,
        level: 1,
        houses: String::new(),
        description: String::new(),
        statuses: Vec::new(),
    }
}

fn initial() -> ShopPhase {
    ShopPhase::initial(vec![(1, vec![2]), (3, vec![1, 2])], vec![(1, vec![2, 3]), (4, vec![])])
}

#[test]
fn phase_queries() {
    assert!(data(initial()).is_initial_phase());
    assert!(data(initial()).show_other_ui());
    assert!(!data(ShopPhase::FuseStart { source: 1, targets: vec![] }).is_initial_phase());
    assert!(data(ShopPhase::Stack { source: 1, targets: vec![] }).show_other_ui());
    assert!(!data(ShopPhase::FuseEnd { source: 1, target: 2, candidates: vec![] }).show_other_ui());
    assert_eq!(REROLL_PRICE, 1);
}

#[test]
fn sync_creates_missing_and_removes_unlisted_heroes() {
    let units = vec![team_unit(1, "a"), team_unit(2, "b"), team_unit(3, "c")];
    let field = vec![(2, 20), (9, 90)];
    let plan = ShopPlugin::sync_units(&units, &field);
    assert_eq!(plan.spawn, vec![0, 2]);
    assert_eq!(plan.despawn, vec![90]);
}

#[test]
fn sync_removes_nothing_when_not_over_count() {
    let units = vec![team_unit(1, "a"), team_unit(2, "b")];
    let field = vec![(1, 10)];
    let plan = ShopPlugin::sync_units(&units, &field);
    assert_eq!(plan.spawn, vec![1]);
    assert!(plan.despawn.is_empty());
}

#[test]
fn sync_state_writes_server_values() {
    let units = vec![team_unit(1, "a"), team_unit(2, "b")];
    let field = vec![(2, 20), (1, 10)];
    let updates = ShopPlugin::sync_units_state(&units, &field);
    assert_eq!(updates.len(), 2);
    assert_eq!(updates[0].entity, 10);
    assert_eq!(updates[0].hp, 1);
    assert_eq!(updates[0].atk, 2);
    assert_eq!(updates[1].entity, 20);
    assert_eq!(updates[1].level, 2);
    assert_eq!(updates[1].houses, "h");
}

#[test]
fn battle_teams_take_the_round_enemy() {
    let pool = vec![
        ArenaPool { id: 7, owner: 1, round: 0, team: "seven".to_string() },
        ArenaPool { id: 8, owner: 1, round: 1, team: "eight".to_string() },
    ];
    let teams = ShopPlugin::transition_to_battle(&run(1, 0, vec![7, 8]), &pool);
    assert_eq!(teams.run_id, 5);
    assert_eq!(teams.left.len(), 2);
    assert_eq!(teams.left[0].name, "a");
    assert_eq!(teams.right, Some("eight".to_string()));
    let none = ShopPlugin::transition_to_battle(&run(1, 1, vec![7, 8]), &pool);
    assert_eq!(none.right, None);
}

#[test]
fn case_units_are_the_available_offers() {
    let units = run(0, 0, vec![]).get_case_units();
    let ids: Vec<u64> = units.iter().map(|u| u.id).collect();
    assert_eq!(ids, vec![10, 12]);
}

#[test]
fn current_run_is_the_first_active_one() {
    let mut a = run(0, 0, vec![]);
    a.active = false;
    a.id = 1;
    let mut b = run(0, 0, vec![]);
    b.id = 2;
    let mut c = run(0, 0, vec![]);
    c.id = 3;
    let rows = vec![a, b, c];
    assert_eq!(ArenaRun::current(&rows).map(|r| r.id), Some(2));
    let empty: Vec<ArenaRun> = vec![];
    assert!(ArenaRun::current(&empty).is_none());
}

#[test]
fn start_fuse_offers_candidates() {
    let mut d = data(initial());
    ShopPlugin::start_fuse(1, 2, vec![hero("f")], &mut d);
    match &d.phase {
        ShopPhase::FuseEnd { source, target, candidates } => {
            assert_eq!((*source, *target), (1, 2));
            assert_eq!(candidates[0].name, "f");
        },
        _ => panic!("the fuse has started"),
    }
    assert_eq!(d.update_callback, 1);
}

#[test]
fn fuse_front_fuses_slots_one_and_two() {
    let mut d = data(initial());
    ShopPlugin::fuse_front(&vec![(30, 2), (40, 1), (50, 3)], vec![], &mut d);
    assert!(matches!(d.phase, ShopPhase::FuseEnd { source: 40, target: 30, .. }));
}

#[test]
fn buttons_with_nothing_chosen() {
    let p = initial();
    assert_eq!(ShopPlugin::hero_buttons(&p, 1, false, true, true), vec![HeroButton::Stack, HeroButton::Fuse, HeroButton::Sell]);
    assert_eq!(ShopPlugin::hero_buttons(&p, 1, false, true, false), vec![HeroButton::Stack, HeroButton::Fuse]);
    assert_eq!(ShopPlugin::hero_buttons(&p, 3, true, true, false), vec![HeroButton::Stack, HeroButton::Buy]);
    assert_eq!(ShopPlugin::hero_buttons(&p, 4, true, false, true), vec![]);
}

#[test]
fn buttons_while_choosing_a_partner() {
    let p = ShopPhase::Stack { source: 1, targets: vec![2, 3] };
    assert_eq!(ShopPlugin::hero_buttons(&p, 1, false, true, true), vec![HeroButton::Cancel]);
    assert_eq!(ShopPlugin::hero_buttons(&p, 3, false, true, true), vec![HeroButton::Choose]);
    assert_eq!(ShopPlugin::hero_buttons(&p, 4, false, true, true), vec![]);
    let f = ShopPhase::FuseEnd { source: 1, target: 2, candidates: vec![] };
    assert_eq!(ShopPlugin::hero_buttons(&f, 1, false, true, true), vec![]);
}

#[test]
fn button_looks() {
    let stack = ShopPlugin::button_look(HeroButton::Stack, true, false);
    assert_eq!(stack.text, "Stack -2 g");
    assert_eq!(stack.color, ButtonColor::Orange);
    assert_eq!(stack.hover.as_deref(), Some("Stack heroes together,\nget +1 HP and +1 ATK per stack\nand increase Level"));
    assert_eq!(ShopPlugin::button_look(HeroButton::Stack, false, false).text, "Stack");
    let buy = ShopPlugin::button_look(HeroButton::Buy, true, false);
    assert_eq!((buy.text.as_str(), buy.label.as_deref(), buy.color), ("-3 g", Some("buy"), ButtonColor::Yellow));
    let sell = ShopPlugin::button_look(HeroButton::Sell, false, false);
    assert_eq!((sell.text.as_str(), sell.label.as_deref()), ("+1 g", Some("sell")));
    assert_eq!(ShopPlugin::button_look(HeroButton::Cancel, false, true).text, "Cancel Stack");
    assert_eq!(ShopPlugin::button_look(HeroButton::Cancel, false, false).text, "Cancel Fuse");
    assert_eq!(ShopPlugin::button_look(HeroButton::Fuse, false, false).color, ButtonColor::Red);
    assert_eq!(ShopPlugin::button_look(HeroButton::Choose, false, false).label, None);
}

#[test]
fn pressing_stack_with_one_partner_stacks_at_once() {
    let p = initial();
    assert!(matches!(ShopPlugin::press_hero_button(&p, 1, 0, HeroButton::Stack), ShopAction::StackUnits { target: 2, source: 1 }));
    match ShopPlugin::press_hero_button(&p, 3, 0, HeroButton::Stack) {
        ShopAction::SetPhase(ShopPhase::Stack { source, targets }) => {
            assert_eq!(source, 3);
            assert_eq!(targets, vec![1, 2]);
        },
        _ => panic!("two partners to choose from"),
    }
    assert!(matches!(ShopPlugin::press_hero_button(&p, 9, 0, HeroButton::Stack), ShopAction::Nothing));
}

#[test]
fn pressing_other_buttons() {
    let p = initial();
    match ShopPlugin::press_hero_button(&p, 1, 0, HeroButton::Fuse) {
        ShopAction::SetPhase(ShopPhase::FuseStart { source, targets }) => {
            assert_eq!(source, 1);
            assert_eq!(targets, vec![2, 3]);
        },
        _ => panic!("fuse waits for a partner"),
    }
    assert!(matches!(ShopPlugin::press_hero_button(&p, 1, 77, HeroButton::Buy), ShopAction::Send(ShopCommand::Buy(77))));
    assert!(matches!(ShopPlugin::press_hero_button(&p, 1, 78, HeroButton::Sell), ShopAction::Send(ShopCommand::Sell(78))));
    assert!(matches!(ShopPlugin::press_hero_button(&p, 1, 0, HeroButton::Cancel), ShopAction::Nothing));
    let s = ShopPhase::Stack { source: 1, targets: vec![2] };
    assert!(matches!(ShopPlugin::press_hero_button(&s, 2, 0, HeroButton::Choose), ShopAction::StackUnits { target: 2, source: 1 }));
    assert!(matches!(ShopPlugin::press_hero_button(&s, 1, 0, HeroButton::Cancel), ShopAction::ResetPhase));
    let f = ShopPhase::FuseStart { source: 1, targets: vec![2] };
    assert!(matches!(ShopPlugin::press_hero_button(&f, 2, 0, HeroButton::Choose), ShopAction::StartFuse { source: 1, target: 2 }));
    assert!(matches!(ShopPlugin::press_hero_button(&f, 1, 0, HeroButton::Cancel), ShopAction::ResetPhase));
}

#[test]
fn shop_commands() {
    assert_eq!(ShopPlugin::win(), ShopCommand::SubmitResult(true));
    assert_eq!(ShopPlugin::buy_reroll(), ShopCommand::Reroll(false));
    assert_eq!(ShopPlugin::input(true), Some(ShopCommand::ChangeG(10)));
    assert_eq!(ShopPlugin::input(false), None);
}

#[test]
fn entering_the_shop_retries_once() {
    assert_eq!(ShopPlugin::on_enter(0, true), EnterStep::Done);
    assert_eq!(ShopPlugin::on_enter(0, false), EnterStep::PauseAndRetry);
    assert_eq!(ShopPlugin::on_enter(1, false), EnterStep::ToMainMenu);
    assert_eq!(ShopPlugin::on_enter(1, true), EnterStep::Done);
}

#[test]
fn info_table_counts_wins_and_losses() {
    let rows = ShopPlugin::show_info_table(&run(12, 3, vec![]));
    assert_eq!(rows, vec![("wins".to_string(), "12".to_string()), ("loses".to_string(), "3".to_string())]);
}

fn fuse_end(names: &[&str]) -> ShopData {
    data(ShopPhase::FuseEnd { source: 1, target: 2, candidates: names.iter().map(|n| hero(n)).collect() })
}

fn left_candidates(d: &ShopData) -> usize {
    match &d.phase {
        ShopPhase::FuseEnd { candidates, .. } => candidates.len(),
        _ => panic!("still offering fused heroes"),
    }
}

#[test]
fn accepting_a_fusion_sends_it_and_ends_the_offer() {
    let mut d = fuse_end(&["p", "q"]);
    let step = ShopPlugin::show_fusion_options(&mut d, Some(FusionChoice::Accept(1)));
    let (a, b, u) = step.fused.unwrap();
    assert_eq!((a, b, u.name.as_str()), (1, 2, "q"));
    assert!(step.reset);
    assert_eq!(left_candidates(&d), 0);
}

#[test]
fn cancelling_a_fusion_ends_the_offer() {
    let mut d = fuse_end(&["p", "q"]);
    let step = ShopPlugin::show_fusion_options(&mut d, Some(FusionChoice::Cancel));
    assert!(step.fused.is_none());
    assert!(step.reset);
}

#[test]
fn fusion_offer_waits_for_a_choice() {
    let mut d = fuse_end(&["p", "q"]);
    let step = ShopPlugin::show_fusion_options(&mut d, None);
    assert!(step.fused.is_none());
    assert!(!step.reset);
    assert_eq!(left_candidates(&d), 2);
    let mut empty = fuse_end(&[]);
    assert!(ShopPlugin::show_fusion_options(&mut empty, None).reset);
}

#[test]
fn fusion_choice_outside_an_offer_does_nothing() {
    let mut d = data(initial());
    let step = ShopPlugin::show_fusion_options(&mut d, Some(FusionChoice::Cancel));
    assert!(step.fused.is_none() && !step.reset);
    assert!(d.is_initial_phase());
}

#[test]
fn loading_the_shop_syncs_team_and_offers() {
    let mut a = run(0, 0, vec![]);
    a.active = false;
    a.id = 1;
    let b = run(0, 0, vec![]);
    let rows = vec![a, b];
    let team_field = vec![(1, 100), (7, 700)];
    let shop_field = vec![(12, 120)];
    let load = ShopPlugin::load_state(&rows, &team_field, &shop_field).unwrap();
    assert_eq!(load.run_id, 5);
    assert_eq!(load.team.spawn, vec![1]);
    assert_eq!(load.team.despawn, vec![700]);
    assert_eq!(load.shop.spawn, vec![0]);
    assert!(load.shop.despawn.is_empty());
}

#[test]
fn loading_the_shop_needs_an_active_run() {
    let mut a = run(0, 0, vec![]);
    a.active = false;
    assert!(matches!(ShopPlugin::load_state(&vec![a], &vec![], &vec![]), Err(ShopError::NoActiveRun)));
    assert!(matches!(ShopPlugin::load_state(&vec![], &vec![], &vec![]), Err(ShopError::NoActiveRun)));
}
