use vstd::prelude::*;

verus! {

/// A hero row as the server stores it.
#[derive(Debug)]
pub struct TableUnit {
    pub name: String,
    pub hp: i32,
    pub atk: i32,
    pub stacks: i32,
    pub level: i32,
    pub houses: String,
}

impl TableUnit {
    /// An exact copy of the row.
    pub fn clone(&self) -> (res: TableUnit)
        ensures
            res == *self,
    {
        TableUnit {
            name: self.name.clone(),
            hp: self.hp,
            atk: self.atk,
            stacks: self.stacks,
            level: self.level,
            houses: self.houses.clone(),
        }
    }
}

/// A hero of a run, with the id the server gave it.
#[derive(Debug)]
pub struct TeamUnit {
    pub id: u64,
    pub unit: TableUnit,
}

impl TeamUnit {
    /// An exact copy of the hero.
    pub fn clone(&self) -> (res: TeamUnit)
        ensures
            res == *self,
    {
        TeamUnit { id: self.id, unit: self.unit.clone() }
    }
}

/// A hero offered in the shop, and whether it can still be bought.
#[derive(Debug)]
pub struct ShopOffer {
    pub available: bool,
    pub unit: TeamUnit,
}

/// The state of a player's run through the arena.
#[derive(Debug)]
pub struct RunState {
    pub team: Vec<TeamUnit>,
    pub case: Vec<ShopOffer>,
    pub wins: u32,
    pub loses: u32,
    pub g: i32,
}

/// A row of the server's table of runs.
#[derive(Debug)]
pub struct ArenaRun {
    pub id: u64,
    pub active: bool,
    pub state: RunState,
    /// Ids of the pool teams met in each round.
    pub enemies: Vec<u64>,
}

} // verus!
