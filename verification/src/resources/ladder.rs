use vstd::prelude::*;

use crate::resources::packed_team::{expand_team, PackedTeam, PackedTeamView, ReplicatedTeam, ReplicatedTeamView};
use crate::resources::Resources;

verus! {

/// The sequence of teams a player climbs, and how far the climb has come.
#[derive(Debug)]
pub struct Ladder {
    /// The index of the level being played.
    pub current: usize,
    /// The fixed levels every ladder starts with.
    pub base: Vec<ReplicatedTeam>,
    /// Levels appended during the climb.
    pub levels: Vec<ReplicatedTeam>,
}

/// The value of a list of ladder teams.
pub open spec fn replicated_view(v: Seq<ReplicatedTeam>) -> Seq<ReplicatedTeamView> {
    v.map_values(|t: ReplicatedTeam| t@)
}

impl Ladder {
    /// The index of the level being played.
    pub open spec fn spec_current(&self) -> usize {
        self.current
    }

    /// All levels in climbing order: the base levels, then the added ones.
    pub open spec fn all_levels(&self) -> Seq<ReplicatedTeamView> {
        replicated_view(self.base@) + replicated_view(self.levels@)
    }

    /// The number of levels fits in a machine word.
    pub open spec fn wf(&self) -> bool {
        self.base@.len() + self.levels@.len() <= usize::MAX
    }

    /// A ladder at its first level with the given base levels and no added ones.
    pub fn new(base: Vec<ReplicatedTeam>) -> (res: Ladder)
        ensures
            res.spec_current() == 0,
            res.base@ == base@,
            res.levels@.len() == 0,
    {
        Ladder { current: 0, base, levels: Vec::new() }
    }

    /// Writes the ladder to persistent storage: the ladder itself is handed
    /// to the storage layer unchanged.
    pub fn save(resources: &Resources) -> (res: &Ladder)
        ensures
            res == &resources.ladder,
    {
        &resources.ladder
    }

    /// The team of the level being played, with its units written out.
    pub fn current_team(resources: &Resources) -> (res: PackedTeam)
        requires
            resources.ladder.spec_current() < resources.ladder.all_levels().len(),
        ensures
            res@ == expand_team(resources.ladder.all_levels()[resources.ladder.spec_current() as int]),
    {
        let ladder = &resources.ladder;
        let ind = Self::current_ind(resources);
        let entry = if ind < ladder.base.len() {
            ladder.base[ind].clone()
        } else {
            ladder.levels[ind - ladder.base.len()].clone()
        };
        entry.into_team()
    }

    /// Replaces the added levels.
    pub fn set_levels(teams: Vec<ReplicatedTeam>, resources: &mut Resources)
        ensures
            final(resources).ladder.levels@ == teams@,
            final(resources).ladder.base == old(resources).ladder.base,
            final(resources).ladder.spec_current() == old(resources).ladder.spec_current(),
            final(resources).status_library == old(resources).status_library,
            final(resources).definitions == old(resources).definitions,
    {
        resources.ladder.levels = teams;
    }

    /// A copy of the added levels.
    pub fn get_levels(resources: &Resources) -> (res: Vec<ReplicatedTeam>)
        ensures
            replicated_view(res@) == replicated_view(resources.ladder.levels@),
    {
        let levels = &resources.ladder.levels;
        let mut res: Vec<ReplicatedTeam> = Vec::new();
        let mut i: usize = 0;
        while i < levels.len()
            invariant
                i <= levels.len(),
                res.len() == i,
                forall|j: int| 0 <= j < i ==> (#[trigger] res@[j])@ == levels@[j]@,
            decreases levels.len() - i,
        {
            res.push(levels[i].clone());
            i = i + 1;
        }
        assert(replicated_view(res@) =~= replicated_view(levels@));
        res
    }

    /// The index of the level being played.
    pub fn current_ind(resources: &Resources) -> (res: usize)
        ensures
            res == resources.ladder.spec_current(),
    {
        resources.ladder.current
    }

    /// Goes back to the first level.
    pub fn reset(resources: &mut Resources)
        ensures
            final(resources).ladder.spec_current() == 0,
            final(resources).ladder.base == old(resources).ladder.base,
            final(resources).ladder.levels == old(resources).ladder.levels,
            final(resources).status_library == old(resources).status_library,
            final(resources).definitions == old(resources).definitions,
    {
        resources.ladder.current = 0;
    }

    /// Whether the level being played is the last one.
    pub fn is_last_level(resources: &Resources) -> (res: bool)
        requires
            resources.ladder.wf(),
            resources.ladder.spec_current() < usize::MAX,
        ensures
            res == (resources.ladder.spec_current() + 1 == resources.ladder.all_levels().len()),
    {
        resources.ladder.current + 1 == Self::count(resources)
    }

    /// Moves on to the next level and tells whether that level exists.
    pub fn next(resources: &mut Resources) -> (res: bool)
        requires
            old(resources).ladder.wf(),
            old(resources).ladder.spec_current() < usize::MAX,
        ensures
            final(resources).ladder.spec_current() == old(resources).ladder.spec_current() + 1,
            final(resources).ladder.base == old(resources).ladder.base,
            final(resources).ladder.levels == old(resources).ladder.levels,
            final(resources).status_library == old(resources).status_library,
            final(resources).definitions == old(resources).definitions,
            res == (final(resources).ladder.spec_current() < final(resources).ladder.all_levels().len()),
    {
        resources.ladder.current = resources.ladder.current + 1;
        resources.ladder.current < Self::count(resources)
    }

    /// Whether the climb has gone past every level, so that a new one must be
    /// made.
    pub fn need_new_level(resources: &Resources) -> (res: bool)
        requires
            resources.ladder.wf(),
        ensures
            res == (resources.ladder.spec_current() == resources.ladder.all_levels().len()),
    {
        resources.ladder.current == Self::count(resources)
    }

    /// The number of levels, base and added.
    pub fn count(resources: &Resources) -> (res: usize)
        requires
            resources.ladder.wf(),
        ensures
            res == resources.ladder.all_levels().len(),
    {
        resources.ladder.levels.len() + resources.ladder.base.len()
    }

    /// Jumps to the given level.
    pub fn set_level(ind: usize, resources: &mut Resources)
        ensures
            final(resources).ladder.spec_current() == ind,
            final(resources).ladder.base == old(resources).ladder.base,
            final(resources).ladder.levels == old(resources).ladder.levels,
            final(resources).status_library == old(resources).status_library,
            final(resources).definitions == old(resources).definitions,
    {
        resources.ladder.current = ind;
    }

    /// Appends a level after all others.
    pub fn push_level(team: ReplicatedTeam, resources: &mut Resources)
        ensures
            final(resources).ladder.levels@ == old(resources).ladder.levels@.push(team),
            final(resources).ladder.base == old(resources).ladder.base,
            final(resources).ladder.spec_current() == old(resources).ladder.spec_current(),
            final(resources).status_library == old(resources).status_library,
            final(resources).definitions == old(resources).definitions,
    {
        resources.ladder.levels.push(team);
    }
}

/// When the climb has gone past every level (see [`Ladder::need_new_level`]),
/// pushing a level (see [`Ladder::push_level`]) makes that level the one
/// being played, and the level before the new one is the ladder's last.
pub proof fn law_push_when_needed(l: Ladder, team: ReplicatedTeamView)
    requires
        l.spec_current() == l.all_levels().len(),
    ensures
        ({
            let grown = l.all_levels().push(team);
            &&& l.spec_current() < grown.len()
            &&& grown[l.spec_current() as int] == team
            &&& l.spec_current() + 1 == grown.len()
        }),
{
}

/// Moving on from the last level (see [`Ladder::is_last_level`] and
/// [`Ladder::next`]) reports that no level is left, and the climb then needs
/// a new level (see [`Ladder::need_new_level`]).
pub proof fn law_next_after_last(before: Ladder, after: Ladder)
    requires
        before.spec_current() + 1 == before.all_levels().len(),
        after.spec_current() == before.spec_current() + 1,
        after.base == before.base,
        after.levels == before.levels,
    ensures
        !(after.spec_current() < after.all_levels().len()),
        after.spec_current() == after.all_levels().len(),
{
}

} // verus!
