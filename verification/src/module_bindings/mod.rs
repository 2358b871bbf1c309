use vstd::prelude::*;

pub mod arena_pool;
pub mod reducers;
pub mod arena_run;

use reducers::{LogoutArgs, RunStackArgs};

verus! {

/// A reducer call reported by the server, with its arguments.
#[derive(Debug, Clone, Copy, PartialEq, Eq, Structural)]
pub enum ReducerEvent {
    Logout(LogoutArgs),
    RunStack(RunStackArgs),
}

/// The reducers whose calls the client recognises in server events.
#[derive(Debug, Clone, Copy, PartialEq, Eq, Structural)]
pub enum ReducerKind {
    GiveRight,
    Login,
    LoginByIdentity,
    Logout,
    Register,
    RegisterEmpty,
    RunBuy,
    RunChangeG,
    RunFuse,
    RunReroll,
    RunSell,
    RunStack,
    RunStart,
    RunSubmitResult,
    RunTeamReorder,
    SetName,
    SetPassword,
    SyncData,
}

/// The tables whose updates the client keeps in its cache.
#[derive(Debug, Clone, Copy, PartialEq, Eq, Structural)]
pub enum TableKind {
    Ability,
    ArenaPool,
    ArenaRun,
    GlobalData,
    House,
    Statuses,
    Summon,
    TableUnit,
    User,
    UserAccess,
    Vfx,
}

/// The client's description of the server module.
#[derive(Debug, Clone, Copy, PartialEq, Eq, Structural)]
pub struct Module;

/// The reducer a server event names, by its wire name.
pub open spec fn spec_reducer_kind(name: Seq<char>) -> Option<ReducerKind> {
    if name == "give_right"@ { Some(ReducerKind::GiveRight) }
    else if name == "login"@ { Some(ReducerKind::Login) }
    else if name == "login_by_identity"@ { Some(ReducerKind::LoginByIdentity) }
    else if name == "logout"@ { Some(ReducerKind::Logout) }
    else if name == "register"@ { Some(ReducerKind::Register) }
    else if name == "register_empty"@ { Some(ReducerKind::RegisterEmpty) }
    else if name == "run_buy"@ { Some(ReducerKind::RunBuy) }
    else if name == "run_change_g"@ { Some(ReducerKind::RunChangeG) }
    else if name == "run_fuse"@ { Some(ReducerKind::RunFuse) }
    else if name == "run_reroll"@ { Some(ReducerKind::RunReroll) }
    else if name == "run_sell"@ { Some(ReducerKind::RunSell) }
    else if name == "run_stack"@ { Some(ReducerKind::RunStack) }
    else if name == "run_start"@ { Some(ReducerKind::RunStart) }
    else if name == "run_submit_result"@ { Some(ReducerKind::RunSubmitResult) }
    else if name == "run_team_reorder"@ { Some(ReducerKind::RunTeamReorder) }
    else if name == "set_name"@ { Some(ReducerKind::SetName) }
    else if name == "set_password"@ { Some(ReducerKind::SetPassword) }
    else if name == "sync_data"@ { Some(ReducerKind::SyncData) }
    else { None }
}

/// The table an update names, by its wire name.
pub open spec fn spec_table_kind(name: Seq<char>) -> Option<TableKind> {
    if name == "Ability"@ { Some(TableKind::Ability) }
    else if name == "ArenaPool"@ { Some(TableKind::ArenaPool) }
    else if name == "ArenaRun"@ { Some(TableKind::ArenaRun) }
    else if name == "GlobalData"@ { Some(TableKind::GlobalData) }
    else if name == "House"@ { Some(TableKind::House) }
    else if name == "Statuses"@ { Some(TableKind::Statuses) }
    else if name == "Summon"@ { Some(TableKind::Summon) }
    else if name == "TableUnit"@ { Some(TableKind::TableUnit) }
    else if name == "User"@ { Some(TableKind::User) }
    else if name == "UserAccess"@ { Some(TableKind::UserAccess) }
    else if name == "Vfx"@ { Some(TableKind::Vfx) }
    else { None }
}

/// Whether `name` spells out the literal `lit`.
fn spells(name: &String, lit: &str) -> (res: bool)
    ensures
        res == (name@ == lit@),
{
    *name == lit.to_string()
}

impl Module {
    /// The reducer that a server event names; `None` for a name the client
    /// does not know, which it reports and skips.
    pub fn reducer_kind(name: &String) -> (res: Option<ReducerKind>)
        ensures
            res == spec_reducer_kind(name@),
    {
        if spells(name, "give_right") { Some(ReducerKind::GiveRight) }
        else if spells(name, "login") { Some(ReducerKind::Login) }
        else if spells(name, "login_by_identity") { Some(ReducerKind::LoginByIdentity) }
        else if spells(name, "logout") { Some(ReducerKind::Logout) }
        else if spells(name, "register") { Some(ReducerKind::Register) }
        else if spells(name, "register_empty") { Some(ReducerKind::RegisterEmpty) }
        else if spells(name, "run_buy") { Some(ReducerKind::RunBuy) }
        else if spells(name, "run_change_g") { Some(ReducerKind::RunChangeG) }
        else if spells(name, "run_fuse") { Some(ReducerKind::RunFuse) }
        else if spells(name, "run_reroll") { Some(ReducerKind::RunReroll) }
        else if spells(name, "run_sell") { Some(ReducerKind::RunSell) }
        else if spells(name, "run_stack") { Some(ReducerKind::RunStack) }
        else if spells(name, "run_start") { Some(ReducerKind::RunStart) }
        else if spells(name, "run_submit_result") { Some(ReducerKind::RunSubmitResult) }
        else if spells(name, "run_team_reorder") { Some(ReducerKind::RunTeamReorder) }
        else if spells(name, "set_name") { Some(ReducerKind::SetName) }
        else if spells(name, "set_password") { Some(ReducerKind::SetPassword) }
        else if spells(name, "sync_data") { Some(ReducerKind::SyncData) }
        else { None }
    }

    /// The table that an update names; `None` for a table the client does
    /// not know, which it reports and skips.
    pub fn table_kind(name: &String) -> (res: Option<TableKind>)
        ensures
            res == spec_table_kind(name@),
    {
        if spells(name, "Ability") { Some(TableKind::Ability) }
        else if spells(name, "ArenaPool") { Some(TableKind::ArenaPool) }
        else if spells(name, "ArenaRun") { Some(TableKind::ArenaRun) }
        else if spells(name, "GlobalData") { Some(TableKind::GlobalData) }
        else if spells(name, "House") { Some(TableKind::House) }
        else if spells(name, "Statuses") { Some(TableKind::Statuses) }
        else if spells(name, "Summon") { Some(TableKind::Summon) }
        else if spells(name, "TableUnit") { Some(TableKind::TableUnit) }
        else if spells(name, "User") { Some(TableKind::User) }
        else if spells(name, "UserAccess") { Some(TableKind::UserAccess) }
        else if spells(name, "Vfx") { Some(TableKind::Vfx) }
        else { None }
    }
}

} // verus!
