use arena_of_ideas::plugins::main_menu::{ClimbMode, MainMenuState, MenuAction, MenuButton, MenuLine, MenuScreen, Tower};
use arena_of_ideas::plugins::{MainMenuPlugin, RestartPlugin};
use arena_of_ideas::systems::game_state_system::{BattleRequest, DownKeys, GameState, GameStateSystem, TransitionStep};

fn keys() -> DownKeys {
    DownKeys { r: false, space: false, g: false, o: false, enter: false }
}

#[test]
fn main_menu_moves_on_to_the_shop() {
    let f = GameStateSystem::update(GameState::MainMenu, GameState::MainMenu, keys(), false);
    assert_eq!(f.transition, GameState::Shop);
    assert!(f.battle.is_empty());
}

#[test]
fn shop_keys_choose_the_next_screen() {
    let space = DownKeys { space: true, ..keys() };
    assert_eq!(GameStateSystem::update(GameState::Shop, GameState::Shop, space, false).transition, GameState::Battle);
    let g = DownKeys { g: true, ..keys() };
    assert_eq!(GameStateSystem::update(GameState::Shop, GameState::Shop, g, false).transition, GameState::Gallery);
    let all = DownKeys { space: true, g: true, o: true, ..keys() };
    assert_eq!(GameStateSystem::update(GameState::Shop, GameState::Shop, all, false).transition, GameState::GameOver);
    assert_eq!(GameStateSystem::update(GameState::Shop, GameState::Shop, keys(), false).transition, GameState::Shop);
}

#[test]
fn gallery_and_game_over_return_to_the_shop() {
    let g = DownKeys { g: true, ..keys() };
    assert_eq!(GameStateSystem::update(GameState::Gallery, GameState::Gallery, g, false).transition, GameState::Shop);
    let enter = DownKeys { enter: true, ..keys() };
    assert_eq!(GameStateSystem::update(GameState::GameOver, GameState::GameOver, enter, false).transition, GameState::Shop);
    assert_eq!(GameStateSystem::update(GameState::GameOver, GameState::GameOver, g, false).transition, GameState::GameOver);
}

#[test]
fn battle_requests_replay_and_finish() {
    let r = DownKeys { r: true, ..keys() };
    let f = GameStateSystem::update(GameState::Battle, GameState::Battle, r, true);
    assert_eq!(f.transition, GameState::Battle);
    assert_eq!(f.battle, vec![BattleRequest::Replay, BattleRequest::Finish]);
    let f2 = GameStateSystem::update(GameState::Battle, GameState::Battle, keys(), false);
    assert!(f2.battle.is_empty());
}

#[test]
fn transition_leaves_then_enters() {
    let (s, steps) = GameStateSystem::transition(GameState::Shop, GameState::Battle);
    assert_eq!(s, GameState::Battle);
    assert_eq!(steps, vec![
        TransitionStep::ClearCassette,
        TransitionStep::ClearShop,
        TransitionStep::StartBattleFlag,
        TransitionStep::RunBattle,
    ]);
    let (s2, steps2) = GameStateSystem::transition(GameState::Gallery, GameState::GameOver);
    assert_eq!(s2, GameState::GameOver);
    assert_eq!(steps2, vec![
        TransitionStep::ClearCassette,
        TransitionStep::ClearActionQueue,
        TransitionStep::ResetCameraFov,
        TransitionStep::LowerField,
        TransitionStep::ZoomOnTeam,
        TransitionStep::InitGameOver,
    ]);
}

#[test]
fn transition_to_the_same_screen_does_nothing() {
    let (s, steps) = GameStateSystem::transition(GameState::Battle, GameState::Battle);
    assert_eq!(s, GameState::Battle);
    assert!(steps.is_empty());
}

#[test]
fn menu_lines_when_connected() {
    let lines = MainMenuPlugin::ui(true, false, true, false);
    assert_eq!(lines, vec![
        MenuLine::Button(MenuButton::RandomTower, false),
        MenuLine::Button(MenuButton::Continue, true),
        MenuLine::Button(MenuButton::NewTower, true),
        MenuLine::Button(MenuButton::HeroGallery, true),
    ]);
}

#[test]
fn menu_lines_when_disconnected_in_debug() {
    let lines = MainMenuPlugin::ui(false, true, false, true);
    assert_eq!(lines.len(), 8);
    assert_eq!(lines[0], MenuLine::Disconnected);
    assert_eq!(lines[1], MenuLine::Button(MenuButton::Connect, true));
    assert_eq!(lines[2], MenuLine::Button(MenuButton::Continue, false));
    assert_eq!(lines[7], MenuLine::Button(MenuButton::Tests, true));
}

#[test]
fn connection_is_handled_once() {
    let mut st = MainMenuState { connected: false };
    assert!(!MainMenuPlugin::update(&mut st, false, true));
    assert!(!MainMenuPlugin::update(&mut st, true, false));
    assert!(MainMenuPlugin::update(&mut st, true, true));
    assert!(st.connected);
    assert!(!MainMenuPlugin::update(&mut st, true, true));
}

#[test]
fn random_tower_is_never_the_players_own() {
    let me = vec![1u8, 2];
    let towers = vec![
        Tower { id: 1, owner: vec![1, 2] },
        Tower { id: 2, owner: vec![3] },
        Tower { id: 3, owner: vec![1, 2] },
    ];
    assert_eq!(MainMenuPlugin::others_towers(&towers, &me), vec![2]);
    for _ in 0..20 {
        assert_eq!(MainMenuPlugin::random_tower(&towers, &me), Some(2));
    }
    let mine = vec![Tower { id: 1, owner: vec![1, 2] }];
    assert_eq!(MainMenuPlugin::random_tower(&mine, &me), None);
}

#[test]
fn random_tower_picks_among_others() {
    let me = vec![0u8];
    let towers = vec![Tower { id: 4, owner: vec![1] }, Tower { id: 5, owner: vec![2] }];
    for _ in 0..20 {
        let t = MainMenuPlugin::random_tower(&towers, &me).unwrap();
        assert!(t == 4 || t == 5);
    }
}

#[test]
fn tower_at_reads_the_choice() {
    assert_eq!(MainMenuPlugin::tower_at(&vec![7, 8], Some(1)), Some(8));
    assert_eq!(MainMenuPlugin::tower_at(&vec![7, 8], None), None);
}

#[test]
fn restart_returns_to_the_menu() {
    assert_eq!(RestartPlugin::restart(), GameState::MainMenu);
}

#[test]
fn menu_buttons_lead_where_they_say() {
    assert_eq!(MainMenuPlugin::press(MenuButton::RandomTower, Some(7)), MenuAction::StartClimb(ClimbMode::RandomTower(7)));
    assert_eq!(MainMenuPlugin::press(MenuButton::RandomTower, None), MenuAction::Nothing);
    assert_eq!(MainMenuPlugin::press(MenuButton::NewTower, None), MenuAction::StartClimb(ClimbMode::NewTower));
    assert_eq!(MainMenuPlugin::press(MenuButton::Continue, None), MenuAction::GoTo(MenuScreen::Shop));
    assert_eq!(MainMenuPlugin::press(MenuButton::Connect, None), MenuAction::Connect);
    assert_eq!(MainMenuPlugin::press(MenuButton::HeroGallery, None), MenuAction::GoTo(MenuScreen::HeroGallery));
    assert_eq!(MainMenuPlugin::press(MenuButton::Custom, None), MenuAction::GoTo(MenuScreen::CustomBattle));
    assert_eq!(MainMenuPlugin::press(MenuButton::Editor, None), MenuAction::GoTo(MenuScreen::HeroEditor));
    assert_eq!(MainMenuPlugin::press(MenuButton::Tests, None), MenuAction::GoTo(MenuScreen::TestsLoading));
}
