use vstd::prelude::*;

verus! {

/// A row of the server's table of teams that players can be matched against.
#[derive(Debug)]
pub struct ArenaPool {
    pub id: u64,
    pub owner: u64,
    pub round: u8,
    pub team: String,
}

impl ArenaPool {
    /// An exact copy of the row.
    pub fn clone(&self) -> (res: ArenaPool)
        ensures
            res == *self,
    {
        ArenaPool { id: self.id, owner: self.owner, round: self.round, team: self.team.clone() }
    }

    /// The first row with the given id, if any.
    pub fn filter_by_id(rows: &Vec<ArenaPool>, id: u64) -> (res: Option<ArenaPool>)
        ensures
            match res {
                Some(r) => exists|i: int| 0 <= i < rows@.len() && rows@[i] == r && r.id == id
                    && forall|j: int| 0 <= j < i ==> (#[trigger] rows@[j]).id != id,
                None => forall|i: int| 0 <= i < rows@.len() ==> (#[trigger] rows@[i]).id != id,
            },
    {
        let mut i: usize = 0;
        while i < rows.len()
            invariant
                i <= rows@.len(),
                forall|j: int| 0 <= j < i ==> (#[trigger] rows@[j]).id != id,
            decreases rows.len() - i,
        {
            if rows[i].id == id {
                let r = rows[i].clone();
                assert(rows@[i as int] == r);
                return Some(r);
            }
            i = i + 1;
        }
        None
    }

    /// The rows of the given owner, in table order.
    pub fn filter_by_owner(rows: &Vec<ArenaPool>, owner: u64) -> (res: Vec<ArenaPool>)
        ensures
            res@ == rows@.filter(|r: ArenaPool| r.owner == owner),
    {
        let mut res: Vec<ArenaPool> = Vec::new();
        let mut i: usize = 0;
        while i < rows.len()
            invariant
                i <= rows@.len(),
                res@ == rows@.subrange(0, i as int).filter(|r: ArenaPool| r.owner == owner),
            decreases rows.len() - i,
        {
            proof {
                reveal_with_fuel(Seq::<_>::filter, 1);
                assert(rows@.subrange(0, i as int + 1).drop_last() =~= rows@.subrange(0, i as int));
            }
            if rows[i].owner == owner {
                res.push(rows[i].clone());
            }
            i = i + 1;
        }
        assert(rows@.subrange(0, rows@.len() as int) =~= rows@);
        res
    }

    /// The rows of the given round, in table order.
    pub fn filter_by_round(rows: &Vec<ArenaPool>, round: u8) -> (res: Vec<ArenaPool>)
        ensures
            res@ == rows@.filter(|r: ArenaPool| r.round == round),
    {
        let mut res: Vec<ArenaPool> = Vec::new();
        let mut i: usize = 0;
        while i < rows.len()
            invariant
                i <= rows@.len(),
                res@ == rows@.subrange(0, i as int).filter(|r: ArenaPool| r.round == round),
            decreases rows.len() - i,
        {
            proof {
                reveal_with_fuel(Seq::<_>::filter, 1);
                assert(rows@.subrange(0, i as int + 1).drop_last() =~= rows@.subrange(0, i as int));
            }
            if rows[i].round == round {
                res.push(rows[i].clone());
            }
            i = i + 1;
        }
        assert(rows@.subrange(0, rows@.len() as int) =~= rows@);
        res
    }

    /// The rows of the given team, in table order.
    pub fn filter_by_team(rows: &Vec<ArenaPool>, team: String) -> (res: Vec<ArenaPool>)
        ensures
            res@ == rows@.filter(|r: ArenaPool| r.team@ == team@),
    {
        let mut res: Vec<ArenaPool> = Vec::new();
        let mut i: usize = 0;
        while i < rows.len()
            invariant
                i <= rows@.len(),
                res@ == rows@.subrange(0, i as int).filter(|r: ArenaPool| r.team@ == team@),
            decreases rows.len() - i,
        {
            proof {
                reveal_with_fuel(Seq::<_>::filter, 1);
                assert(rows@.subrange(0, i as int + 1).drop_last() =~= rows@.subrange(0, i as int));
            }
            if rows[i].team == team {
                res.push(rows[i].clone());
            }
            i = i + 1;
        }
        assert(rows@.subrange(0, rows@.len() as int) =~= rows@);
        res
    }
}

} // verus!
