use vstd::prelude::*;

use crate::module_bindings::arena_pool::ArenaPool;

verus! {

/// Arguments of the server call that appends levels to a ladder.
#[derive(Debug)]
pub struct AddLadderLevelsArgs {
    pub ladder_id: u64,
    pub levels: Vec<String>,
}

/// Arguments of the server call that registers the caller as a user.
#[derive(Debug, Clone, Copy, PartialEq, Eq, Structural)]
pub struct AddUserArgs {}

/// Arguments of the server call that records a beaten tower.
#[derive(Debug)]
pub struct BeatTowerArgs {
    pub tower_id: u64,
    pub levels: Vec<String>,
    pub owner_team: String,
}

/// Arguments of the server call that publishes a newly built tower.
#[derive(Debug)]
pub struct FinishBuildingTowerArgs {
    pub levels: Vec<String>,
    pub owner_team: String,
}

/// Arguments of the server call that ends the caller's session.
#[derive(Debug, Clone, Copy, PartialEq, Eq, Structural)]
pub struct LogoutArgs {}

/// Arguments of the server call that moves archived arenas, pool rows and
/// users into the current tables; archive rows and users are whatever row
/// types the server defines.
#[derive(Debug)]
pub struct MigrateDataArgs<Archive, User> {
    pub arena_archive: Vec<Archive>,
    pub arena_pool: Vec<ArenaPool>,
    pub users: Vec<User>,
}

/// Arguments of the server call that stacks one hero of the run onto another.
#[derive(Debug, Clone, Copy, PartialEq, Eq, Structural)]
pub struct RunStackArgs {
    pub target: u64,
    pub source: u64,
}

/// Arguments of the server call that uploads status rows.
#[derive(Debug)]
pub struct SyncStatusesArgs<Statuses> {
    pub statuses: Vec<Statuses>,
}

/// Arguments of the server call that uploads unit rows.
#[derive(Debug)]
pub struct SyncUnitsArgs<Unit> {
    pub units: Vec<Unit>,
}

/// The request that appends `levels` to the ladder `ladder_id`.
pub fn add_ladder_levels(ladder_id: u64, levels: Vec<String>) -> (res: AddLadderLevelsArgs)
    ensures
        res.ladder_id == ladder_id,
        res.levels == levels,
{
    AddLadderLevelsArgs { ladder_id, levels }
}

/// The request that registers the caller.
pub fn add_user() -> (res: AddUserArgs)
    ensures
        res == (AddUserArgs {}),
{
    AddUserArgs {}
}

/// The request that records tower `tower_id` as beaten.
pub fn beat_tower(tower_id: u64, levels: Vec<String>, owner_team: String) -> (res: BeatTowerArgs)
    ensures
        res.tower_id == tower_id,
        res.levels == levels,
        res.owner_team == owner_team,
{
    BeatTowerArgs { tower_id, levels, owner_team }
}

/// The request that publishes a tower of `levels` guarded by `owner_team`.
pub fn finish_building_tower(levels: Vec<String>, owner_team: String) -> (res: FinishBuildingTowerArgs)
    ensures
        res.levels == levels,
        res.owner_team == owner_team,
{
    FinishBuildingTowerArgs { levels, owner_team }
}

/// The request that ends the caller's session.
pub fn logout() -> (res: LogoutArgs)
    ensures
        res == (LogoutArgs {}),
{
    LogoutArgs {}
}

/// The request that migrates the given rows.
pub fn migrate_data<Archive, User>(arena_archive: Vec<Archive>, arena_pool: Vec<ArenaPool>, users: Vec<User>) -> (res: MigrateDataArgs<Archive, User>)
    ensures
        res.arena_archive == arena_archive,
        res.arena_pool == arena_pool,
        res.users == users,
{
    MigrateDataArgs { arena_archive, arena_pool, users }
}

/// The request that stacks hero `source` onto hero `target`.
pub fn run_stack(target: u64, source: u64) -> (res: RunStackArgs)
    ensures
        res == (RunStackArgs { target, source }),
{
    RunStackArgs { target, source }
}

/// The request that uploads `statuses`.
pub fn sync_statuses<Statuses>(statuses: Vec<Statuses>) -> (res: SyncStatusesArgs<Statuses>)
    ensures
        res.statuses == statuses,
{
    SyncStatusesArgs { statuses }
}

/// The request that uploads `units`.
pub fn sync_units<Unit>(units: Vec<Unit>) -> (res: SyncUnitsArgs<Unit>)
    ensures
        res.units == units,
{
    SyncUnitsArgs { units }
}

} // verus!
