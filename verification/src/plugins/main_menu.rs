use vstd::prelude::*;

use crate::plugins::{MainMenuPlugin, RestartPlugin};
use crate::systems::game_state_system::GameState;

verus! {

/// What the main menu remembers between frames.
#[derive(Debug, Clone, Copy, PartialEq, Eq, Structural)]
pub struct MainMenuState {
    /// Whether the connection to the server has been handled.
    pub connected: bool,
}

/// A button of the main menu.
#[derive(Debug, Clone, Copy, PartialEq, Eq, Structural)]
pub enum MenuButton {
    /// Play a tower of another, randomly picked player.
    RandomTower,
    /// Connect to the server.
    Connect,
    /// Go on with the saved climb.
    Continue,
    /// Start a new tower.
    NewTower,
    /// Look at the heroes.
    HeroGallery,
    /// Set up a battle by hand.
    Custom,
    /// Edit heroes.
    Editor,
    /// Run the game's own checks.
    Tests,
}

/// A screen the main menu leads to.
#[derive(Debug, Clone, Copy, PartialEq, Eq, Structural)]
pub enum MenuScreen {
    Shop,
    HeroGallery,
    CustomBattle,
    HeroEditor,
    TestsLoading,
}

/// The kind of climb a menu button saves before the shop opens.
#[derive(Debug, Clone, Copy, PartialEq, Eq, Structural)]
pub enum ClimbMode {
    /// Climbing the tower with this id, owned by another player.
    RandomTower(u64),
    /// Climbing a new tower of the player's own.
    NewTower,
}

/// What pressing a menu button does.
#[derive(Debug, Clone, Copy, PartialEq, Eq, Structural)]
pub enum MenuAction {
    /// Save a fresh climb of the mode, then open the shop.
    StartClimb(ClimbMode),
    /// Go to the screen.
    GoTo(MenuScreen),
    /// Connect to the server.
    Connect,
    /// Nothing happens.
    Nothing,
}

/// What pressing `button` does, `tower` being the tower the random pick
/// gave (see [`MainMenuPlugin::random_tower`]).
pub open spec fn spec_press(button: MenuButton, tower: Option<u64>) -> MenuAction {
    match button {
        MenuButton::RandomTower => match tower {
            Some(id) => MenuAction::StartClimb(ClimbMode::RandomTower(id)),
            None => MenuAction::Nothing,
        },
        MenuButton::Connect => MenuAction::Connect,
        MenuButton::Continue => MenuAction::GoTo(MenuScreen::Shop),
        MenuButton::NewTower => MenuAction::StartClimb(ClimbMode::NewTower),
        MenuButton::HeroGallery => MenuAction::GoTo(MenuScreen::HeroGallery),
        MenuButton::Custom => MenuAction::GoTo(MenuScreen::CustomBattle),
        MenuButton::Editor => MenuAction::GoTo(MenuScreen::HeroEditor),
        MenuButton::Tests => MenuAction::GoTo(MenuScreen::TestsLoading),
    }
}

/// A line of the main menu: a button with whether it can be pressed, or
/// the note that the server is not connected.
#[derive(Debug, Clone, Copy, PartialEq, Eq, Structural)]
pub enum MenuLine {
    Button(MenuButton, bool),
    Disconnected,
}

/// The lines of the main menu, top to bottom. Connected, it offers a random
/// tower, which can be played once the player owns a tower; otherwise it
/// says it is disconnected and offers to connect. Then come Continue, which
/// needs a saved climb, New Tower and Hero Gallery, and in debug builds the
/// Custom, Editor and Tests buttons.
pub open spec fn spec_menu_lines(connected: bool, owns_tower: bool, has_save: bool, debug: bool) -> Seq<MenuLine> {
    (if connected {
        seq![MenuLine::Button(MenuButton::RandomTower, owns_tower)]
    } else {
        seq![MenuLine::Disconnected, MenuLine::Button(MenuButton::Connect, true)]
    })
    + seq![
        MenuLine::Button(MenuButton::Continue, has_save),
        MenuLine::Button(MenuButton::NewTower, true),
        MenuLine::Button(MenuButton::HeroGallery, true),
    ]
    + if debug {
        seq![
            MenuLine::Button(MenuButton::Custom, true),
            MenuLine::Button(MenuButton::Editor, true),
            MenuLine::Button(MenuButton::Tests, true),
        ]
    } else {
        Seq::empty()
    }
}

/// A tower a player built: its id and its owner's identity.
#[derive(Debug)]
pub struct Tower {
    pub id: u64,
    pub owner: Vec<u8>,
}

/// The ids of the towers that `me` does not own, in order.
pub open spec fn others_towers(towers: Seq<Tower>, me: Seq<u8>) -> Seq<u64> {
    towers.filter(|t: Tower| t.owner@ != me).map_values(|t: Tower| t.id)
}

/// Picks one of the positions `0..len` with `rand`'s
/// `IteratorRandom::choose` on the thread's generator: none when `len` is
/// zero, otherwise a position below `len`. Which one is left to chance.
#[verifier::external_body]
fn choose_index(len: usize) -> (res: Option<usize>)
    ensures
        match res {
            Some(i) => i < len,
            None => len == 0,
        },
{
    rand::seq::IteratorRandom::choose(0..len, &mut rand::thread_rng())
}

/// Whether two identities are the same.
fn same_identity(a: &Vec<u8>, b: &Vec<u8>) -> (res: bool)
    ensures
        res == (a@ == b@),
{
    if a.len() != b.len() {
        return false;
    }
    let mut i: usize = 0;
    while i < a.len()
        invariant
            i <= a@.len(),
            a@.len() == b@.len(),
            forall|j: int| 0 <= j < i ==> a@[j] == b@[j],
        decreases a.len() - i,
    {
        if a[i] != b[i] {
            return false;
        }
        i = i + 1;
    }
    assert(a@ =~= b@);
    true
}

impl MainMenuPlugin {
    /// The ids of the towers that `me` does not own, in order.
    pub fn others_towers(towers: &Vec<Tower>, me: &Vec<u8>) -> (res: Vec<u64>)
        ensures
            res@ == others_towers(towers@, me@),
    {
        let mut res: Vec<u64> = Vec::new();
        let mut i: usize = 0;
        while i < towers.len()
            invariant
                i <= towers@.len(),
                res@ == others_towers(towers@.subrange(0, i as int), me@),
            decreases towers.len() - i,
        {
            proof {
                reveal_with_fuel(Seq::<_>::filter, 1);
                assert(towers@.subrange(0, i as int + 1).drop_last() =~= towers@.subrange(0, i as int));
            }
            if !same_identity(&towers[i].owner, me) {
                res.push(towers[i].id);
                proof {
                    let f = towers@.subrange(0, i as int).filter(|t: Tower| t.owner@ != me@);
                    assert(f.push(towers@[i as int]).map_values(|t: Tower| t.id) =~= f.map_values(|t: Tower| t.id).push(towers@[i as int].id));
                }
            }
            i = i + 1;
        }
        assert(towers@.subrange(0, towers@.len() as int) =~= towers@);
        res
    }

    /// The tower at the chosen position among the candidates, if a position
    /// was chosen.
    pub fn tower_at(candidates: &Vec<u64>, choice: Option<usize>) -> (res: Option<u64>)
        requires
            match choice {
                Some(i) => i < candidates@.len(),
                None => true,
            },
        ensures
            res == match choice {
                Some(i) => Some(candidates@[i as int]),
                None => None::<u64>,
            },
    {
        match choice {
            Some(i) => Some(candidates[i]),
            None => None,
        }
    }

    /// The tower the Random Tower button plays: one of the towers that `me`
    /// does not own, picked at random; none when every tower is the
    /// player's own.
    pub fn random_tower(towers: &Vec<Tower>, me: &Vec<u8>) -> (res: Option<u64>)
        ensures
            match res {
                Some(id) => others_towers(towers@, me@).contains(id),
                None => others_towers(towers@, me@).len() == 0,
            },
    {
        let candidates = Self::others_towers(towers, me);
        let choice = choose_index(candidates.len());
        let res = Self::tower_at(&candidates, choice);
        proof {
            match choice {
                Some(i) => {
                    assert(candidates@[i as int] == others_towers(towers@, me@)[i as int]);
                },
                None => {},
            }
        }
        res
    }

    /// One frame of the menu: once the server is connected and credentials
    /// are at hand, the connection is handled, once. Returns whether it is to
    /// be handled now.
    pub fn update(state: &mut MainMenuState, online: bool, has_credentials: bool) -> (res: bool)
        ensures
            res == (online && has_credentials && !old(state).connected),
            final(state).connected == (old(state).connected || res),
    {
        if online && has_credentials && !state.connected {
            state.connected = true;
            true
        } else {
            false
        }
    }

    /// What pressing `button` does (see [`spec_press`]): Random Tower starts
    /// a climb of the tower picked, or does nothing when there was none to
    /// pick; New Tower starts a climb of a new tower; both then open the
    /// shop. Continue opens the shop on the saved climb, Connect connects,
    /// and the other buttons go to their screens.
    pub fn press(button: MenuButton, tower: Option<u64>) -> (res: MenuAction)
        ensures
            res == spec_press(button, tower),
    {
        match button {
            MenuButton::RandomTower => match tower {
                Some(id) => MenuAction::StartClimb(ClimbMode::RandomTower(id)),
                None => MenuAction::Nothing,
            },
            MenuButton::Connect => MenuAction::Connect,
            MenuButton::Continue => MenuAction::GoTo(MenuScreen::Shop),
            MenuButton::NewTower => MenuAction::StartClimb(ClimbMode::NewTower),
            MenuButton::HeroGallery => MenuAction::GoTo(MenuScreen::HeroGallery),
            MenuButton::Custom => MenuAction::GoTo(MenuScreen::CustomBattle),
            MenuButton::Editor => MenuAction::GoTo(MenuScreen::HeroEditor),
            MenuButton::Tests => MenuAction::GoTo(MenuScreen::TestsLoading),
        }
    }

    /// The lines of the menu; see [`spec_menu_lines`].
    pub fn ui(connected: bool, owns_tower: bool, has_save: bool, debug: bool) -> (res: Vec<MenuLine>)
        ensures
            res@ == spec_menu_lines(connected, owns_tower, has_save, debug),
    {
        let mut res: Vec<MenuLine> = Vec::new();
        if connected {
            res.push(MenuLine::Button(MenuButton::RandomTower, owns_tower));
        } else {
            res.push(MenuLine::Disconnected);
            res.push(MenuLine::Button(MenuButton::Connect, true));
        }
        let ghost a = res@;
        res.push(MenuLine::Button(MenuButton::Continue, has_save));
        res.push(MenuLine::Button(MenuButton::NewTower, true));
        res.push(MenuLine::Button(MenuButton::HeroGallery, true));
        let ghost b = res@;
        if debug {
            res.push(MenuLine::Button(MenuButton::Custom, true));
            res.push(MenuLine::Button(MenuButton::Editor, true));
            res.push(MenuLine::Button(MenuButton::Tests, true));
        }
        proof {
            let head = if connected {
                seq![MenuLine::Button(MenuButton::RandomTower, owns_tower)]
            } else {
                seq![MenuLine::Disconnected, MenuLine::Button(MenuButton::Connect, true)]
            };
            assert(a =~= head);
            let mid = seq![
                MenuLine::Button(MenuButton::Continue, has_save),
                MenuLine::Button(MenuButton::NewTower, true),
                MenuLine::Button(MenuButton::HeroGallery, true),
            ];
            assert(b =~= head + mid);
            assert(res@ =~= spec_menu_lines(connected, owns_tower, has_save, debug));
        }
        res
    }
}

impl RestartPlugin {
    /// Restarting clears the field and the clocks, then returns to the main
    /// menu: the screen to go to.
    pub fn restart() -> (res: GameState)
        ensures
            res == GameState::MainMenu,
    {
        GameState::MainMenu
    }
}

} // verus!
