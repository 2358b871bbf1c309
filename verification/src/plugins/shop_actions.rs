use vstd::prelude::*;

use crate::decimal::{decimal, u64_to_string};
use crate::module_bindings::arena_run::{ArenaRun, ShopOffer, TeamUnit};
use crate::plugins::shop::{active_before, case_units, is_sync_plan, ArenaRunExt, ShopData, ShopPhase, ShopPlugin, SyncPlan};
use crate::unit::{units_view, PackedUnit};

verus! {

/// A button drawn over a hero in the shop.
#[derive(Debug, Clone, Copy, PartialEq, Eq, Structural)]
pub enum HeroButton {
    /// Stack this hero onto another one.
    Stack,
    /// Fuse this hero with another one.
    Fuse,
    /// Buy this hero from the shop.
    Buy,
    /// Sell this hero of the team.
    Sell,
    /// Give up the stack or fuse this hero started.
    Cancel,
    /// Pick this hero as the partner of a stack or fuse.
    Choose,
}

/// The colour of a hero button.
#[derive(Debug, Clone, Copy, PartialEq, Eq, Structural)]
pub enum ButtonColor {
    Orange,
    Red,
    Yellow,
}

/// How a hero button is drawn: its text, the small label above it, its
/// colour and the text shown while the pointer is over it.
#[derive(Debug)]
pub struct ButtonLook {
    pub text: String,
    pub label: Option<String>,
    pub color: ButtonColor,
    pub hover: Option<String>,
}

/// A request the shop sends to the server.
#[derive(Debug, Clone, Copy, PartialEq, Eq, Structural)]
pub enum ShopCommand {
    /// Report the result of the run's battle.
    SubmitResult(bool),
    /// Roll new heroes for the shop; the flag asks for a free roll.
    Reroll(bool),
    /// Change the run's gold by the amount.
    ChangeG(i32),
    /// Buy the shop hero with this id.
    Buy(u64),
    /// Sell the team hero with this id.
    Sell(u64),
}

/// What pressing a hero button does.
#[derive(Debug)]
pub enum ShopAction {
    /// Stack hero `source` onto hero `target`.
    StackUnits { target: u64, source: u64 },
    /// The shop enters this phase.
    SetPhase(ShopPhase),
    /// The shop goes back to its initial phase, worked out from the field.
    ResetPhase,
    /// The fused heroes of `source` and `target` are offered.
    StartFuse { source: u64, target: u64 },
    /// A request goes to the server.
    Send(ShopCommand),
    /// Nothing happens.
    Nothing,
}

/// How a visit of the shop goes on after an attempt to load its state.
#[derive(Debug, Clone, Copy, PartialEq, Eq, Structural)]
pub enum EnterStep {
    /// The state is loaded; the shop is open.
    Done,
    /// Wait a moment for the subscription, then try once more.
    PauseAndRetry,
    /// Give up and go back to the main menu.
    ToMainMenu,
}

/// What the player does with the offered fused heroes.
#[derive(Debug, Clone, Copy, PartialEq, Eq, Structural)]
pub enum FusionChoice {
    /// Take the fused hero at this position.
    Accept(usize),
    /// Take none of them.
    Cancel,
}

/// The outcome of a frame of the fusion offer: the fused hero to send to
/// the server with the two heroes it is made of, and whether the offer is
/// over so that the shop goes back to its initial phase.
#[derive(Debug)]
pub struct FusionStep {
    pub fused: Option<(u64, u64, PackedUnit)>,
    pub reset: bool,
}

/// Why the shop could not be loaded.
#[derive(Debug, Clone, Copy, PartialEq, Eq, Structural)]
pub enum ShopError {
    /// The player has no active run.
    NoActiveRun,
}

/// What loading the shop does: the run it shows, and how the team's and the
/// shop's heroes on the field are brought in line with it.
#[derive(Debug)]
pub struct ShopLoad {
    pub run_id: u64,
    pub team: SyncPlan,
    pub shop: SyncPlan,
}

/// Copies of the heroes of the run's shop that can still be bought, in shop
/// order.
fn case_units_of(run: &ArenaRun) -> (res: Vec<TeamUnit>)
    ensures
        res@ == case_units(*run),
{
    let case = &run.state.case;
    let ghost all = case@;
    let mut res: Vec<TeamUnit> = Vec::new();
    let mut i: usize = 0;
    while i < case.len()
        invariant
            i <= all.len(),
            all == case@,
            res@ == all.subrange(0, i as int).filter(|o: ShopOffer| o.available).map_values(|o: ShopOffer| o.unit),
        decreases case.len() - i,
    {
        proof {
            reveal_with_fuel(Seq::<_>::filter, 1);
            assert(all.subrange(0, i as int + 1).drop_last() =~= all.subrange(0, i as int));
        }
        if case[i].available {
            let unit = case[i].unit.clone();
            proof {
                let f = all.subrange(0, i as int).filter(|o: ShopOffer| o.available);
                assert(f.push(all[i as int]).map_values(|o: ShopOffer| o.unit) =~= f.map_values(|o: ShopOffer| o.unit).push(unit));
            }
            res.push(unit);
        }
        i = i + 1;
    }
    assert(all.subrange(0, all.len() as int) =~= all);
    res
}

/// The heroes listed for hero `e`, in the first entry for `e`.
pub open spec fn targets_of(list: Seq<(u64, Vec<u64>)>, e: u64) -> Option<Seq<u64>>
    decreases list.len(),
{
    if list.len() == 0 {
        None
    } else if list[0].0 == e {
        Some(list[0].1@)
    } else {
        targets_of(list.drop_first(), e)
    }
}

/// Whether hero `e` is listed with at least one partner.
pub open spec fn has_targets(list: Seq<(u64, Vec<u64>)>, e: u64) -> bool {
    match targets_of(list, e) {
        Some(t) => t.len() > 0,
        None => false,
    }
}

/// The buttons drawn over hero `entity`, top to bottom. With nothing chosen,
/// a hero with stack partners gets a stack button and one with fuse partners
/// a fuse button; a shop hero whose server id is known gets a buy button, and
/// a team hero standing in the slot nearest the pointer a sell button. While
/// a stack or fuse is being set up, its first hero gets a cancel button and
/// each possible partner a choose button. While fused heroes are offered,
/// no hero gets a button.
pub open spec fn spec_hero_buttons(phase: ShopPhase, entity: u64, is_shop: bool, has_id: bool, at_pointer: bool) -> Seq<HeroButton> {
    match phase {
        ShopPhase::Initial { stack, fuse } => {
            (if has_targets(stack@, entity) { seq![HeroButton::Stack] } else { Seq::empty() })
            + (if has_targets(fuse@, entity) { seq![HeroButton::Fuse] } else { Seq::empty() })
            + (if is_shop {
                if has_id { seq![HeroButton::Buy] } else { Seq::empty() }
            } else {
                if at_pointer { seq![HeroButton::Sell] } else { Seq::empty() }
            })
        },
        ShopPhase::FuseStart { source, targets } | ShopPhase::Stack { source, targets } => {
            if entity == source {
                seq![HeroButton::Cancel]
            } else if targets@.contains(entity) {
                seq![HeroButton::Choose]
            } else {
                Seq::empty()
            }
        },
        ShopPhase::FuseEnd { .. } => Seq::empty(),
    }
}

/// While a stack or a fuse is being set up, the hero it started from is
/// offered only to cancel, every other hero among the possible partners is
/// offered only to be chosen, and every other hero gets no button, whatever
/// it is in the shop. While fused heroes are offered, no hero gets a button.
pub proof fn law_partner_buttons(phase: ShopPhase, entity: u64, is_shop: bool, has_id: bool, at_pointer: bool)
    ensures
        match phase {
            ShopPhase::FuseStart { source, targets } | ShopPhase::Stack { source, targets } => {
                &&& entity == source ==> spec_hero_buttons(phase, entity, is_shop, has_id, at_pointer) == seq![HeroButton::Cancel]
                &&& entity != source && targets@.contains(entity)
                    ==> spec_hero_buttons(phase, entity, is_shop, has_id, at_pointer) == seq![HeroButton::Choose]
                &&& entity != source && !targets@.contains(entity)
                    ==> spec_hero_buttons(phase, entity, is_shop, has_id, at_pointer).len() == 0
            },
            ShopPhase::FuseEnd { .. } => spec_hero_buttons(phase, entity, is_shop, has_id, at_pointer).len() == 0,
            ShopPhase::Initial { .. } => true,
        },
{
}

/// Before anything is chosen, a hero can be stacked or fused exactly when
/// it has partners for that, a hero of the shop with an id can be bought and
/// a hero of the team under the pointer can be sold; the buttons come in
/// that order and nothing is offered to choose or cancel.
pub proof fn law_initial_buttons(stack: Vec<(u64, Vec<u64>)>, fuse: Vec<(u64, Vec<u64>)>, entity: u64, is_shop: bool, has_id: bool, at_pointer: bool)
    ensures
        ({
            let b = spec_hero_buttons(ShopPhase::Initial { stack, fuse }, entity, is_shop, has_id, at_pointer);
            &&& b.contains(HeroButton::Stack) <==> has_targets(stack@, entity)
            &&& b.contains(HeroButton::Fuse) <==> has_targets(fuse@, entity)
            &&& b.contains(HeroButton::Buy) <==> (is_shop && has_id)
            &&& b.contains(HeroButton::Sell) <==> (!is_shop && at_pointer)
            &&& !b.contains(HeroButton::Choose)
            &&& !b.contains(HeroButton::Cancel)
        }),
{
    let b = spec_hero_buttons(ShopPhase::Initial { stack, fuse }, entity, is_shop, has_id, at_pointer);
    let s1: Seq<HeroButton> = if has_targets(stack@, entity) { seq![HeroButton::Stack] } else { Seq::empty() };
    let s2: Seq<HeroButton> = if has_targets(fuse@, entity) { seq![HeroButton::Fuse] } else { Seq::empty() };
    let s3: Seq<HeroButton> = if is_shop {
        if has_id { seq![HeroButton::Buy] } else { Seq::empty() }
    } else {
        if at_pointer { seq![HeroButton::Sell] } else { Seq::empty() }
    };
    assert(b == s1 + s2 + s3);
    assert forall|x: HeroButton| b.contains(x) <==> (s1.contains(x) || s2.contains(x) || s3.contains(x)) by {
        if b.contains(x) {
            let i = choose|i: int| 0 <= i < b.len() && b[i] == x;
            if i < s1.len() {
                assert(s1[i] == x);
            } else if i < s1.len() + s2.len() {
                assert(s2[i - s1.len()] == x);
            } else {
                assert(s3[i - s1.len() - s2.len()] == x);
            }
        }
        if s1.contains(x) {
            let i = choose|i: int| 0 <= i < s1.len() && s1[i] == x;
            assert(b[i] == x);
        }
        if s2.contains(x) {
            let i = choose|i: int| 0 <= i < s2.len() && s2[i] == x;
            assert(b[s1.len() + i] == x);
        }
        if s3.contains(x) {
            let i = choose|i: int| 0 <= i < s3.len() && s3[i] == x;
            assert(b[s1.len() + s2.len() + i] == x);
        }
    }
    if has_targets(stack@, entity) {
        assert(s1[0] == HeroButton::Stack);
    }
    if has_targets(fuse@, entity) {
        assert(s2[0] == HeroButton::Fuse);
    }
    if is_shop && has_id {
        assert(s3[0] == HeroButton::Buy);
    }
    if !is_shop && at_pointer {
        assert(s3[0] == HeroButton::Sell);
    }
}

/// The partners listed for hero `e`, as stored.
fn find_targets(list: &Vec<(u64, Vec<u64>)>, e: u64) -> (res: Option<&Vec<u64>>)
    ensures
        match res {
            Some(t) => targets_of(list@, e) == Some(t@),
            None => targets_of(list@, e) is None,
        },
{
    assert(list@.subrange(0, list@.len() as int) =~= list@);
    let mut i: usize = 0;
    while i < list.len()
        invariant
            i <= list@.len(),
            targets_of(list@, e) == targets_of(list@.subrange(i as int, list@.len() as int), e),
        decreases list.len() - i,
    {
        assert(list@.subrange(i as int, list@.len() as int).drop_first() =~= list@.subrange(i as int + 1, list@.len() as int));
        if list[i].0 == e {
            return Some(&list[i].1);
        }
        i = i + 1;
    }
    None
}

/// Whether `e` is among the ids.
fn contains_id(v: &Vec<u64>, e: u64) -> (res: bool)
    ensures
        res == v@.contains(e),
{
    let mut i: usize = 0;
    while i < v.len()
        invariant
            i <= v@.len(),
            forall|j: int| 0 <= j < i ==> v@[j] != e,
        decreases v.len() - i,
    {
        if v[i] == e {
            assert(v@[i as int] == e);
            return true;
        }
        i = i + 1;
    }
    false
}

/// A copy of the ids.
fn copy_ids(v: &Vec<u64>) -> (res: Vec<u64>)
    ensures
        res@ == v@,
{
    let mut res: Vec<u64> = Vec::new();
    let mut i: usize = 0;
    while i < v.len()
        invariant
            i <= v@.len(),
            res@ == v@.subrange(0, i as int),
        decreases v.len() - i,
    {
        res.push(v[i]);
        i = i + 1;
        assert(res@ =~= v@.subrange(0, i as int));
    }
    assert(v@.subrange(0, v@.len() as int) =~= v@);
    res
}

/// A text written out.
fn text(s: &str) -> (res: String)
    ensures
        res@ == s@,
{
    s.to_string()
}

impl ShopPhase {
    /// The phase with nothing chosen, for the heroes' stack and fuse
    /// partners as worked out from the field.
    pub fn initial(stack: Vec<(u64, Vec<u64>)>, fuse: Vec<(u64, Vec<u64>)>) -> (res: ShopPhase)
        ensures
            res == (ShopPhase::Initial { stack, fuse }),
    {
        ShopPhase::Initial { stack, fuse }
    }
}

impl ShopPlugin {
    /// The rows of the run's info table: the wins and the losses, each with
    /// its count written in decimal.
    pub fn show_info_table(run: &ArenaRun) -> (res: Vec<(String, String)>)
        ensures
            res@.len() == 2,
            res@[0].0@ == "wins"@,
            res@[0].1@ == decimal(run.state.wins as nat),
            res@[1].0@ == "loses"@,
            res@[1].1@ == decimal(run.state.loses as nat),
    {
        let mut rows: Vec<(String, String)> = Vec::new();
        rows.push((text("wins"), u64_to_string(run.state.wins as u64)));
        rows.push((text("loses"), u64_to_string(run.state.loses as u64)));
        rows
    }

    /// A frame of the fusion offer. Accepting a fused hero takes it out of
    /// the offer to be sent with the two heroes it fuses, and ends the offer;
    /// cancelling ends the offer; without a choice the offer stays. The offer
    /// is over once no fused hero is left in it. Outside a fusion offer
    /// nothing happens.
    pub fn show_fusion_options(data: &mut ShopData, choice: Option<FusionChoice>) -> (res: FusionStep)
        requires
            match (old(data).phase, choice) {
                (ShopPhase::FuseEnd { candidates, .. }, Some(FusionChoice::Accept(i))) => i < candidates@.len(),
                _ => true,
            },
        ensures
            final(data).update_callback == old(data).update_callback,
            match old(data).phase {
                ShopPhase::FuseEnd { source, target, candidates } => {
                    &&& final(data).phase matches ShopPhase::FuseEnd { source: s, target: t, candidates: left }
                        && s == source && t == target
                        && res.reset == (left@.len() == 0)
                        && (match choice {
                            Some(FusionChoice::Accept(i)) => left@.len() == 0 && (res.fused matches Some((a, b, u))
                                && a == source && b == target && u@ == candidates@[i as int]@),
                            Some(FusionChoice::Cancel) => left@.len() == 0 && res.fused is None,
                            None => units_view(left@) == units_view(candidates@) && res.fused is None,
                        })
                },
                _ => res.fused is None && !res.reset && final(data).phase == old(data).phase,
            },
    {
        let mut phase = ShopPhase::Stack { source: 0, targets: Vec::new() };
        std::mem::swap(&mut phase, &mut data.phase);
        match phase {
            ShopPhase::FuseEnd { source, target, candidates } => {
                let mut candidates = candidates;
                let mut fused: Option<(u64, u64, PackedUnit)> = None;
                let ghost c0 = candidates@;
                match choice {
                    Some(FusionChoice::Accept(i)) => {
                        let u = candidates.remove(i);
                        assert(u@ == c0[i as int]@);
                        fused = Some((source, target, u));
                        candidates.clear();
                    },
                    Some(FusionChoice::Cancel) => {
                        candidates.clear();
                    },
                    None => {},
                }
                let reset = candidates.len() == 0;
                data.phase = ShopPhase::FuseEnd { source, target, candidates };
                FusionStep { fused, reset }
            },
            other => {
                data.phase = other;
                FusionStep { fused: None, reset: false }
            },
        }
    }

    /// Loads the shop for the player's first active run: the team's heroes
    /// on the field, given as (server id, entity), are synced with the run's
    /// team, and the shop's with the heroes that can still be bought (see
    /// [`ShopPlugin::sync_units`]). Fails when no run is active.
    pub fn load_state(rows: &Vec<ArenaRun>, team_field: &Vec<(u64, u64)>, shop_field: &Vec<(u64, u64)>) -> (res: Result<ShopLoad, ShopError>)
        ensures
            match res {
                Ok(l) => exists|i: int| {
                    &&& 0 <= i < rows@.len()
                    &&& rows@[i].active
                    &&& !active_before(rows@, i)
                    &&& l.run_id == rows@[i].id
                    &&& is_sync_plan(l.team.spawn@, l.team.despawn@, rows@[i].state.team@, team_field@)
                    &&& is_sync_plan(l.shop.spawn@, l.shop.despawn@, case_units(rows@[i]), shop_field@)
                },
                Err(e) => e == ShopError::NoActiveRun && !active_before(rows@, rows@.len() as int),
            },
    {
        match ArenaRun::current(rows) {
            Some(run) => {
                let team = Self::sync_units(&run.state.team, team_field);
                let offers = case_units_of(run);
                let shop = Self::sync_units(&offers, shop_field);
                Ok(ShopLoad { run_id: run.id, team, shop })
            },
            None => Err(ShopError::NoActiveRun),
        }
    }

    /// Reports a won battle; the shop is then left and entered again.
    pub fn win() -> (res: ShopCommand)
        ensures
            res == ShopCommand::SubmitResult(true),
    {
        ShopCommand::SubmitResult(true)
    }

    /// Asks for new heroes in the shop, paid for.
    pub fn buy_reroll() -> (res: ShopCommand)
        ensures
            res == ShopCommand::Reroll(false),
    {
        ShopCommand::Reroll(false)
    }

    /// The key G gives the run ten gold.
    pub fn input(g_pressed: bool) -> (res: Option<ShopCommand>)
        ensures
            res == (if g_pressed { Some(ShopCommand::ChangeG(10)) } else { None }),
    {
        if g_pressed {
            Some(ShopCommand::ChangeG(10))
        } else {
            None
        }
    }

    /// How entering the shop goes on after load attempt `attempt`, counted
    /// from zero: once the state is loaded the shop is open; a first failure
    /// is retried after a pause, for the subscription to arrive; a second one
    /// sends the player back to the main menu.
    pub fn on_enter(attempt: u32, loaded: bool) -> (res: EnterStep)
        ensures
            res == (if loaded { EnterStep::Done } else if attempt == 0 { EnterStep::PauseAndRetry } else { EnterStep::ToMainMenu }),
    {
        if loaded {
            EnterStep::Done
        } else if attempt == 0 {
            EnterStep::PauseAndRetry
        } else {
            EnterStep::ToMainMenu
        }
    }

    /// Starts fusing the team's heroes in slots one and two, given the
    /// team's heroes as (entity, slot) and the fused heroes offered for them.
    /// Both slots must hold a hero.
    pub fn fuse_front(team: &Vec<(u64, i32)>, candidates: Vec<PackedUnit>, data: &mut ShopData)
        requires
            exists|i: int| 0 <= i < team@.len() && team@[i].1 == 1,
            exists|i: int| 0 <= i < team@.len() && team@[i].1 == 2,
        ensures
            final(data).update_callback == old(data).update_callback,
            exists|a: int, b: int| {
                &&& 0 <= a < team@.len() && team@[a].1 == 1 && forall|j: int| 0 <= j < a ==> #[trigger] team@[j].1 != 1
                &&& 0 <= b < team@.len() && team@[b].1 == 2 && forall|j: int| 0 <= j < b ==> #[trigger] team@[j].1 != 2
                &&& final(data).phase == (ShopPhase::FuseEnd { source: team@[a].0, target: team@[b].0, candidates })
            },
    {
        let a = Self::find_in_slot(team, 1);
        let b = Self::find_in_slot(team, 2);
        Self::start_fuse(team[a].0, team[b].0, candidates, data);
    }

    /// Position of the first hero in the slot; there must be one.
    fn find_in_slot(team: &Vec<(u64, i32)>, slot: i32) -> (res: usize)
        requires
            exists|i: int| 0 <= i < team@.len() && team@[i].1 == slot,
        ensures
            res < team@.len(),
            team@[res as int].1 == slot,
            forall|j: int| 0 <= j < res ==> #[trigger] team@[j].1 != slot,
    {
        let mut i: usize = 0;
        while i < team.len()
            invariant
                i <= team@.len(),
                exists|k: int| i <= k < team@.len() && team@[k].1 == slot,
                forall|j: int| 0 <= j < i ==> #[trigger] team@[j].1 != slot,
            decreases team.len() - i,
        {
            if team[i].1 == slot {
                return i;
            }
            i = i + 1;
        }
        i
    }

    /// The buttons drawn over hero `entity` in the current phase; see
    /// [`spec_hero_buttons`].
    pub fn hero_buttons(phase: &ShopPhase, entity: u64, is_shop: bool, has_id: bool, at_pointer: bool) -> (res: Vec<HeroButton>)
        ensures
            res@ == spec_hero_buttons(*phase, entity, is_shop, has_id, at_pointer),
    {
        let mut res: Vec<HeroButton> = Vec::new();
        match phase {
            ShopPhase::Initial { stack, fuse } => {
                match find_targets(stack, entity) {
                    Some(t) => {
                        if t.len() > 0 {
                            res.push(HeroButton::Stack);
                        }
                    },
                    None => {},
                }
                let ghost r1 = res@;
                match find_targets(fuse, entity) {
                    Some(t) => {
                        if t.len() > 0 {
                            res.push(HeroButton::Fuse);
                        }
                    },
                    None => {},
                }
                let ghost r2 = res@;
                if is_shop {
                    if has_id {
                        res.push(HeroButton::Buy);
                    }
                } else {
                    if at_pointer {
                        res.push(HeroButton::Sell);
                    }
                }
                proof {
                    let a = if has_targets(stack@, entity) { seq![HeroButton::Stack] } else { Seq::<HeroButton>::empty() };
                    let b = if has_targets(fuse@, entity) { seq![HeroButton::Fuse] } else { Seq::<HeroButton>::empty() };
                    assert(r1 =~= a);
                    assert(r2 =~= a + b);
                    assert(res@ =~= spec_hero_buttons(*phase, entity, is_shop, has_id, at_pointer));
                }
            },
            ShopPhase::FuseStart { source, targets } | ShopPhase::Stack { source, targets } => {
                if entity == *source {
                    res.push(HeroButton::Cancel);
                } else if contains_id(targets, entity) {
                    res.push(HeroButton::Choose);
                }
                assert(res@ =~= spec_hero_buttons(*phase, entity, is_shop, has_id, at_pointer));
            },
            ShopPhase::FuseEnd { .. } => {
                assert(res@ =~= spec_hero_buttons(*phase, entity, is_shop, has_id, at_pointer));
            },
        }
        res
    }

    /// How a hero button is drawn. A stack button of a shop hero shows its
    /// price; a cancel button names what it cancels (`stacking` tells whether
    /// a stack is being set up).
    pub fn button_look(button: HeroButton, is_shop: bool, stacking: bool) -> (res: ButtonLook)
        ensures
            res.text@ == match button {
                HeroButton::Stack => if is_shop { "Stack -2 g"@ } else { "Stack"@ },
                HeroButton::Fuse => "Fuse"@,
                HeroButton::Buy => "-3 g"@,
                HeroButton::Sell => "+1 g"@,
                HeroButton::Cancel => if stacking { "Cancel Stack"@ } else { "Cancel Fuse"@ },
                HeroButton::Choose => "Choose"@,
            },
            match res.label {
                Some(l) => (button == HeroButton::Buy && l@ == "buy"@) || (button == HeroButton::Sell && l@ == "sell"@),
                None => button != HeroButton::Buy && button != HeroButton::Sell,
            },
            res.color == match button {
                HeroButton::Stack => ButtonColor::Orange,
                HeroButton::Fuse | HeroButton::Cancel => ButtonColor::Red,
                _ => ButtonColor::Yellow,
            },
            match res.hover {
                Some(h) => (button == HeroButton::Stack
                    && h@ == "Stack heroes together,\nget +1 HP and +1 ATK per stack\nand increase Level"@)
                    || (button == HeroButton::Fuse
                    && h@ == "Fuse heroes together, combining their abilities\nHeroes of Level greater than 1 can be fused"@),
                None => button != HeroButton::Stack && button != HeroButton::Fuse,
            },
    {
        match button {
            HeroButton::Stack => ButtonLook {
                text: if is_shop { text("Stack -2 g") } else { text("Stack") },
                label: None,
                color: ButtonColor::Orange,
                hover: Some(text("Stack heroes together,\nget +1 HP and +1 ATK per stack\nand increase Level")),
            },
            HeroButton::Fuse => ButtonLook {
                text: text("Fuse"),
                label: None,
                color: ButtonColor::Red,
                hover: Some(text("Fuse heroes together, combining their abilities\nHeroes of Level greater than 1 can be fused")),
            },
            HeroButton::Buy => ButtonLook { text: text("-3 g"), label: Some(text("buy")), color: ButtonColor::Yellow, hover: None },
            HeroButton::Sell => ButtonLook { text: text("+1 g"), label: Some(text("sell")), color: ButtonColor::Yellow, hover: None },
            HeroButton::Cancel => ButtonLook {
                text: if stacking { text("Cancel Stack") } else { text("Cancel Fuse") },
                label: None,
                color: ButtonColor::Red,
                hover: None,
            },
            HeroButton::Choose => ButtonLook { text: text("Choose"), label: None, color: ButtonColor::Yellow, hover: None },
        }
    }

    /// What pressing `button` over hero `entity` does; `id` is the hero's
    /// server id. With nothing chosen: stacking onto the only partner stacks
    /// at once, otherwise the stack waits for a partner to be chosen; fusing
    /// waits for a partner; buying and selling go to the server. While a
    /// stack or fuse is set up: cancelling goes back to the initial phase,
    /// and choosing a partner stacks the first hero onto it or offers their
    /// fused heroes. Any other press does nothing.
    pub fn press_hero_button(phase: &ShopPhase, entity: u64, id: u64, button: HeroButton) -> (res: ShopAction)
        ensures
            match (*phase, button) {
                (ShopPhase::Initial { stack, .. }, HeroButton::Stack) => match targets_of(stack@, entity) {
                    Some(t) => if t.len() == 1 {
                        res == (ShopAction::StackUnits { target: t[0], source: entity })
                    } else {
                        res matches ShopAction::SetPhase(ShopPhase::Stack { source, targets }) && source == entity && targets@ == t
                    },
                    None => res is Nothing,
                },
                (ShopPhase::Initial { fuse, .. }, HeroButton::Fuse) => match targets_of(fuse@, entity) {
                    Some(t) => res matches ShopAction::SetPhase(ShopPhase::FuseStart { source, targets }) && source == entity && targets@ == t,
                    None => res is Nothing,
                },
                (ShopPhase::Initial { .. }, HeroButton::Buy) => res == ShopAction::Send(ShopCommand::Buy(id)),
                (ShopPhase::Initial { .. }, HeroButton::Sell) => res == ShopAction::Send(ShopCommand::Sell(id)),
                (ShopPhase::FuseStart { .. }, HeroButton::Cancel) => res is ResetPhase,
                (ShopPhase::Stack { .. }, HeroButton::Cancel) => res is ResetPhase,
                (ShopPhase::Stack { source, .. }, HeroButton::Choose) => res == (ShopAction::StackUnits { target: entity, source }),
                (ShopPhase::FuseStart { source, .. }, HeroButton::Choose) => res == (ShopAction::StartFuse { source, target: entity }),
                _ => res is Nothing,
            },
    {
        match phase {
            ShopPhase::Initial { stack, fuse } => match button {
                HeroButton::Stack => match find_targets(stack, entity) {
                    Some(t) => {
                        if t.len() == 1 {
                            ShopAction::StackUnits { target: t[0], source: entity }
                        } else {
                            ShopAction::SetPhase(ShopPhase::Stack { source: entity, targets: copy_ids(t) })
                        }
                    },
                    None => ShopAction::Nothing,
                },
                HeroButton::Fuse => match find_targets(fuse, entity) {
                    Some(t) => ShopAction::SetPhase(ShopPhase::FuseStart { source: entity, targets: copy_ids(t) }),
                    None => ShopAction::Nothing,
                },
                HeroButton::Buy => ShopAction::Send(ShopCommand::Buy(id)),
                HeroButton::Sell => ShopAction::Send(ShopCommand::Sell(id)),
                _ => ShopAction::Nothing,
            },
            ShopPhase::FuseStart { source, .. } => match button {
                HeroButton::Cancel => ShopAction::ResetPhase,
                HeroButton::Choose => ShopAction::StartFuse { source: *source, target: entity },
                _ => ShopAction::Nothing,
            },
            ShopPhase::Stack { source, .. } => match button {
                HeroButton::Cancel => ShopAction::ResetPhase,
                HeroButton::Choose => ShopAction::StackUnits { target: entity, source: *source },
                _ => ShopAction::Nothing,
            },
            ShopPhase::FuseEnd { .. } => ShopAction::Nothing,
        }
    }
}

} // verus!
