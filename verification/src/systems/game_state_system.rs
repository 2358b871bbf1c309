use vstd::prelude::*;

verus! {

/// The screens of the game.
#[derive(Debug, Clone, Copy, PartialEq, Eq, Hash, Structural)]
pub enum GameState {
    MainMenu,
    Shop,
    Battle,
    Gallery,
    GameOver,
}

/// The keys the screens react to, each telling whether it went down this
/// frame.
#[derive(Debug, Clone, Copy, PartialEq, Eq, Structural)]
pub struct DownKeys {
    pub r: bool,
    pub space: bool,
    pub g: bool,
    pub o: bool,
    pub enter: bool,
}

/// What the battle screen asks for in a frame.
#[derive(Debug, Clone, Copy, PartialEq, Eq, Structural)]
pub enum BattleRequest {
    /// Play the last round's battle once more.
    Replay,
    /// The replay has ended; close the battle.
    Finish,
}

/// The outcome of a frame of the state system: the screen to move to and
/// the battle screen's requests, in order.
#[derive(Debug)]
pub struct FrameOutcome {
    pub transition: GameState,
    pub battle: Vec<BattleRequest>,
}

/// One step of moving from a screen to another.
#[derive(Debug, Clone, Copy, PartialEq, Eq, Structural)]
pub enum TransitionStep {
    /// Drop the recorded replay.
    ClearCassette,
    /// Take the shop's heroes off the field.
    ClearShop,
    /// Mark the world as out of battle.
    EndBattleFlag,
    /// Tell everyone the battle is over.
    SendBattleOver,
    /// Drop the queued actions.
    ClearActionQueue,
    /// Put the camera's field of view back to the configured one.
    ResetCameraFov,
    /// Put the field back at its resting place.
    LowerField,
    /// Centre the camera again.
    ResetCameraCenter,
    /// Mark the world as in battle.
    StartBattleFlag,
    /// Play the battle.
    RunBattle,
    /// Fill the shop.
    InitShop,
    /// Move the field up, out of the gallery's way.
    RaiseField,
    /// Empty the slots.
    ClearSlots,
    /// Zoom the camera in on the middle of the team.
    ZoomOnTeam,
    /// Prepare the game-over screen.
    InitGameOver,
}

/// The steps of leaving a screen.
pub open spec fn exit_steps(s: GameState) -> Seq<TransitionStep> {
    match s {
        GameState::MainMenu => Seq::empty(),
        GameState::Shop => seq![TransitionStep::ClearCassette, TransitionStep::ClearShop],
        GameState::Battle => seq![TransitionStep::ClearCassette, TransitionStep::EndBattleFlag, TransitionStep::SendBattleOver],
        GameState::Gallery => seq![
            TransitionStep::ClearCassette,
            TransitionStep::ClearActionQueue,
            TransitionStep::ResetCameraFov,
            TransitionStep::LowerField,
        ],
        GameState::GameOver => seq![TransitionStep::ResetCameraFov, TransitionStep::ResetCameraCenter],
    }
}

/// The steps of entering a screen.
pub open spec fn enter_steps(s: GameState) -> Seq<TransitionStep> {
    match s {
        GameState::MainMenu => Seq::empty(),
        GameState::Battle => seq![TransitionStep::StartBattleFlag, TransitionStep::RunBattle],
        GameState::Shop => seq![TransitionStep::InitShop],
        GameState::Gallery => seq![TransitionStep::RaiseField, TransitionStep::ClearSlots],
        GameState::GameOver => seq![TransitionStep::ZoomOnTeam, TransitionStep::InitGameOver],
    }
}

/// The steps of moving from screen `current` to screen `target`: none when
/// they are the same, else the steps of leaving the one, then those of
/// entering the other.
pub open spec fn transition_steps(current: GameState, target: GameState) -> Seq<TransitionStep> {
    if current == target { Seq::empty() } else { exit_steps(current) + enter_steps(target) }
}

/// Moving to another screen sets the new screen up last: entering the shop
/// ends by filling it, entering a battle by running it, entering the
/// game-over screen by setting it up, and entering the gallery by clearing
/// its slots. Leaving a battle reports it over, and leaving the shop clears
/// it, before anything of the new screen is done. Staying on a screen does
/// nothing.
pub proof fn law_transition_steps(current: GameState, target: GameState)
    ensures
        transition_steps(current, current).len() == 0,
        current != GameState::Shop ==> transition_steps(current, GameState::Shop).len() > 0
            && transition_steps(current, GameState::Shop).last() == TransitionStep::InitShop,
        current != GameState::Battle ==> transition_steps(current, GameState::Battle).len() >= 2
            && transition_steps(current, GameState::Battle).last() == TransitionStep::RunBattle
            && transition_steps(current, GameState::Battle)[transition_steps(current, GameState::Battle).len() - 2]
                == TransitionStep::StartBattleFlag,
        current != GameState::GameOver ==> transition_steps(current, GameState::GameOver).len() > 0
            && transition_steps(current, GameState::GameOver).last() == TransitionStep::InitGameOver,
        current != GameState::Gallery ==> transition_steps(current, GameState::Gallery).len() > 0
            && transition_steps(current, GameState::Gallery).last() == TransitionStep::ClearSlots,
        target != GameState::Battle ==> transition_steps(GameState::Battle, target).len() >= 3
            && transition_steps(GameState::Battle, target).subrange(0, 3)
                == seq![TransitionStep::ClearCassette, TransitionStep::EndBattleFlag, TransitionStep::SendBattleOver],
        target != GameState::Shop ==> transition_steps(GameState::Shop, target).len() >= 2
            && transition_steps(GameState::Shop, target)[1] == TransitionStep::ClearShop,
{
    let e = exit_steps(current);
    assert((e + enter_steps(GameState::Shop)).last() == TransitionStep::InitShop);
    assert((e + enter_steps(GameState::Battle)).last() == TransitionStep::RunBattle);
    assert((e + enter_steps(GameState::Battle))[e.len() + 2 - 2] == TransitionStep::StartBattleFlag);
    assert((e + enter_steps(GameState::GameOver)).last() == TransitionStep::InitGameOver);
    assert((e + enter_steps(GameState::Gallery)).last() == TransitionStep::ClearSlots);
    let b = exit_steps(GameState::Battle) + enter_steps(target);
    assert(b.subrange(0, 3) =~= seq![TransitionStep::ClearCassette, TransitionStep::EndBattleFlag, TransitionStep::SendBattleOver]);
    let sh = exit_steps(GameState::Shop) + enter_steps(target);
    assert(sh[1] == TransitionStep::ClearShop);
}

/// The screen a frame moves to. The main menu goes on to the shop. In the
/// shop, space starts the battle, G opens the gallery and O ends the game,
/// the later of these keys winning. The gallery goes back to the shop on G,
/// and the game-over screen on enter. Otherwise the screen already chosen
/// stays chosen.
pub open spec fn next_transition(current: GameState, transition: GameState, keys: DownKeys) -> GameState {
    match current {
        GameState::MainMenu => GameState::Shop,
        GameState::Battle => transition,
        GameState::Shop => if keys.o {
            GameState::GameOver
        } else if keys.g {
            GameState::Gallery
        } else if keys.space {
            GameState::Battle
        } else {
            transition
        },
        GameState::Gallery => if keys.g { GameState::Shop } else { transition },
        GameState::GameOver => if keys.enter { GameState::Shop } else { transition },
    }
}

/// Switches screens.
#[derive(Debug, Clone, Copy, PartialEq, Eq, Structural)]
pub struct GameStateSystem;

/// The steps as a list.
fn steps(a: &[TransitionStep]) -> (res: Vec<TransitionStep>)
    ensures
        res@ == a@,
{
    let mut v: Vec<TransitionStep> = Vec::new();
    let mut i: usize = 0;
    while i < a.len()
        invariant
            i <= a@.len(),
            v@ == a@.subrange(0, i as int),
        decreases a.len() - i,
    {
        v.push(a[i]);
        i = i + 1;
        assert(v@ =~= a@.subrange(0, i as int));
    }
    assert(a@.subrange(0, a@.len() as int) =~= a@);
    v
}

impl GameStateSystem {
    /// One frame of the state system on screen `current`, with `transition`
    /// the screen chosen so far: the screen to move to (see
    /// [`next_transition`]) and, on the battle screen, a replay request when
    /// R went down and a finish request when the replay has run to its end.
    pub fn update(current: GameState, transition: GameState, keys: DownKeys, replay_over: bool) -> (res: FrameOutcome)
        ensures
            res.transition == next_transition(current, transition, keys),
            res.battle@ == if current == GameState::Battle {
                (if keys.r { seq![BattleRequest::Replay] } else { Seq::empty() })
                    + (if replay_over { seq![BattleRequest::Finish] } else { Seq::empty() })
            } else {
                Seq::empty()
            },
    {
        let mut battle: Vec<BattleRequest> = Vec::new();
        let next = match current {
            GameState::MainMenu => GameState::Shop,
            GameState::Battle => {
                if keys.r {
                    battle.push(BattleRequest::Replay);
                }
                let ghost b1 = battle@;
                if replay_over {
                    battle.push(BattleRequest::Finish);
                }
                proof {
                    let a = if keys.r { seq![BattleRequest::Replay] } else { Seq::<BattleRequest>::empty() };
                    assert(b1 =~= a);
                    assert(battle@ =~= a + if replay_over { seq![BattleRequest::Finish] } else { Seq::<BattleRequest>::empty() });
                }
                transition
            },
            GameState::Shop => {
                let mut t = transition;
                if keys.space {
                    t = GameState::Battle;
                }
                if keys.g {
                    t = GameState::Gallery;
                }
                if keys.o {
                    t = GameState::GameOver;
                }
                t
            },
            GameState::Gallery => if keys.g { GameState::Shop } else { transition },
            GameState::GameOver => if keys.enter { GameState::Shop } else { transition },
        };
        proof {
            if current != GameState::Battle {
                assert(battle@ =~= Seq::<BattleRequest>::empty());
            }
        }
        FrameOutcome { transition: next, battle }
    }

    /// Moves from screen `current` to screen `target`: nothing happens when
    /// they are the same; otherwise the steps of leaving `current` and then
    /// those of entering `target` are taken, and `target` becomes the
    /// current screen.
    pub fn transition(current: GameState, target: GameState) -> (res: (GameState, Vec<TransitionStep>))
        ensures
            res.0 == target,
            res.1@ == transition_steps(current, target),
    {
        if current == target {
            return (current, Vec::new());
        }
        let mut out = match current {
            GameState::MainMenu => Vec::new(),
            GameState::Shop => steps(&[TransitionStep::ClearCassette, TransitionStep::ClearShop]),
            GameState::Battle => steps(&[
                TransitionStep::ClearCassette,
                TransitionStep::EndBattleFlag,
                TransitionStep::SendBattleOver,
            ]),
            GameState::Gallery => steps(&[
                TransitionStep::ClearCassette,
                TransitionStep::ClearActionQueue,
                TransitionStep::ResetCameraFov,
                TransitionStep::LowerField,
            ]),
            GameState::GameOver => steps(&[TransitionStep::ResetCameraFov, TransitionStep::ResetCameraCenter]),
        };
        let mut enter = match target {
            GameState::MainMenu => Vec::new(),
            GameState::Battle => steps(&[TransitionStep::StartBattleFlag, TransitionStep::RunBattle]),
            GameState::Shop => steps(&[TransitionStep::InitShop]),
            GameState::Gallery => steps(&[TransitionStep::RaiseField, TransitionStep::ClearSlots]),
            GameState::GameOver => steps(&[TransitionStep::ZoomOnTeam, TransitionStep::InitGameOver]),
        };
        assert(out@ =~= exit_steps(current));
        assert(enter@ =~= enter_steps(target));
        out.append(&mut enter);
        (target, out)
    }
}

} // verus!
