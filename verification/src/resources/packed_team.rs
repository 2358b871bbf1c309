use vstd::prelude::*;

use crate::unit::{lemma_units_view_push, clone_status_list, clone_units, status_list_view, units_view, PackedUnit, PackedUnitView};

verus! {

/// A team as it is stored between battles: its units in slot order and the
/// team-wide values that travel with it.
#[derive(Debug)]
pub struct PackedTeam {
    pub units: Vec<PackedUnit>,
    pub name: String,
    /// Team variables by name.
    pub vars: Vec<(String, i32)>,
    /// Per-ability variables, keyed by ability name.
    pub ability_vars: Vec<(String, Vec<(String, i32)>)>,
    /// Team statuses with their charges.
    pub statuses: Vec<(String, i32)>,
    pub slots: usize,
}

/// The mathematical value of a [`PackedTeam`].
pub ghost struct PackedTeamView {
    pub units: Seq<PackedUnitView>,
    pub name: Seq<char>,
    pub vars: Seq<(Seq<char>, i32)>,
    pub ability_vars: Seq<(Seq<char>, Seq<(Seq<char>, i32)>)>,
    pub statuses: Seq<(Seq<char>, i32)>,
    pub slots: usize,
}

/// Whether no two entries of a named list share a name.
pub open spec fn names_distinct_in<T>(s: Seq<(Seq<char>, T)>) -> bool {
    forall|i: int, j: int| 0 <= i < s.len() && 0 <= j < s.len() && i != j ==> s[i].0 != s[j].0
}

impl PackedTeamView {
    /// The named lists act as maps: team variables, abilities, the
    /// variables of each ability, and statuses each name an entry once.
    pub open spec fn wf(self) -> bool {
        &&& names_distinct_in(self.vars)
        &&& names_distinct_in(self.ability_vars)
        &&& forall|i: int| 0 <= i < self.ability_vars.len() ==> names_distinct_in(#[trigger] self.ability_vars[i].1)
        &&& names_distinct_in(self.statuses)
    }
}

/// The value of a list of per-ability variables.
pub open spec fn ability_vars_view(v: Seq<(String, Vec<(String, i32)>)>) -> Seq<(Seq<char>, Seq<(Seq<char>, i32)>)> {
    v.map_values(|p: (String, Vec<(String, i32)>)| (p.0@, status_list_view(p.1@)))
}

impl View for PackedTeam {
    type V = PackedTeamView;

    open spec fn view(&self) -> PackedTeamView {
        PackedTeamView {
            units: units_view(self.units@),
            name: self.name@,
            vars: status_list_view(self.vars@),
            ability_vars: ability_vars_view(self.ability_vars@),
            statuses: status_list_view(self.statuses@),
            slots: self.slots,
        }
    }
}

/// A team of the ladder whose units are repeated `replications` times when it
/// is fielded.
#[derive(Debug)]
pub struct ReplicatedTeam {
    pub team: PackedTeam,
    pub replications: usize,
}

/// The mathematical value of a [`ReplicatedTeam`].
pub ghost struct ReplicatedTeamView {
    pub team: PackedTeamView,
    pub replications: usize,
}

impl View for ReplicatedTeam {
    type V = ReplicatedTeamView;

    open spec fn view(&self) -> ReplicatedTeamView {
        ReplicatedTeamView { team: self.team@, replications: self.replications }
    }
}

/// The sequence `s` written out `n` times in a row.
pub open spec fn repeat<T>(s: Seq<T>, n: nat) -> Seq<T>
    decreases n,
{
    if n == 0 {
        Seq::empty()
    } else {
        repeat(s, (n - 1) as nat) + s
    }
}

/// How many copies of its units a replicated team fields: at least one.
pub open spec fn copies(replications: usize) -> nat {
    if replications <= 1 {
        1
    } else {
        replications as nat
    }
}

/// The team that a replicated team fields: its units repeated, and as many
/// slots as units.
pub open spec fn expand_team(r: ReplicatedTeamView) -> PackedTeamView {
    let units = repeat(r.team.units, copies(r.replications));
    PackedTeamView { units, slots: units.len() as usize, ..r.team }
}

/// A sequence written out `n` times has `n` times its length, and its
/// element at `k` is the element of the sequence at `k` modulo its length.
proof fn lemma_repeat<T>(s: Seq<T>, n: nat)
    ensures
        repeat(s, n).len() == n * s.len(),
        forall|k: int| 0 <= k < n * s.len() ==> #[trigger] repeat(s, n)[k] == s[k % (s.len() as int)],
    decreases n,
{
    if n > 0 {
        let m = (n - 1) as nat;
        lemma_repeat(s, m);
        let len = s.len() as int;
        assert(n * s.len() == m * s.len() + s.len()) by (nonlinear_arith)
            requires
                n == m + 1,
        ;
        assert forall|k: int| 0 <= k < n * s.len() implies #[trigger] repeat(s, n)[k] == s[k % len] by {
            if k < m * s.len() {
                assert(repeat(s, n)[k] == repeat(s, m)[k]);
            } else {
                let r = k - m * len;
                assert(repeat(s, n)[k] == s[r]);
                vstd::arithmetic::div_mod::lemma_fundamental_div_mod_converse(k, len, m as int, r);
            }
        }
    } else {
        assert(n * s.len() == 0) by (nonlinear_arith)
            requires
                n == 0,
        ;
    }
}

/// The team a ladder level fields holds the level's units written out as
/// many times as the level says, and at least once: that many times as many
/// units, unit `k` being the level's unit at `k` modulo their number.
pub proof fn law_expanded_team(r: ReplicatedTeamView)
    ensures
        expand_team(r).units.len() == copies(r.replications) * r.team.units.len(),
        copies(r.replications) >= 1,
        forall|k: int| 0 <= k < expand_team(r).units.len()
            ==> #[trigger] expand_team(r).units[k] == r.team.units[k % (r.team.units.len() as int)],
{
    lemma_repeat(r.team.units, copies(r.replications));
}

/// The name a team gets when none is given.
pub fn default_team_name() -> (res: String)
    ensures
        res@ == "unnamed"@,
{
    "unnamed".to_string()
}

/// The number of slots a team gets when none is given.
pub fn default_team_slots() -> (res: usize)
    ensures
        res == 3,
{
    3
}

/// Copies a list of per-ability variables element by element.
fn clone_ability_vars(v: &Vec<(String, Vec<(String, i32)>)>) -> (res: Vec<(String, Vec<(String, i32)>)>)
    ensures
        ability_vars_view(res@) == ability_vars_view(v@),
{
    let mut res: Vec<(String, Vec<(String, i32)>)> = Vec::new();
    let mut i: usize = 0;
    while i < v.len()
        invariant
            i <= v.len(),
            res.len() == i,
            forall|j: int| 0 <= j < i ==> (#[trigger] res@[j]).0@ == v@[j].0@
                && status_list_view(res@[j].1@) == status_list_view(v@[j].1@),
        decreases v.len() - i,
    {
        let (name, vars) = &v[i];
        res.push((name.clone(), clone_status_list(vars)));
        i = i + 1;
    }
    assert(ability_vars_view(res@) =~= ability_vars_view(v@));
    res
}

impl PackedTeam {
    /// A team of the given units with default values elsewhere: no
    /// variables, no statuses and no slots.
    pub fn new(name: String, units: Vec<PackedUnit>) -> (res: PackedTeam)
        ensures
            res.units@ == units@,
            res.name@ == name@,
            res.vars@.len() == 0,
            res.ability_vars@.len() == 0,
            res.statuses@.len() == 0,
            res.slots == 0,
            res@.wf(),
    {
        PackedTeam { units, name, vars: Vec::new(), ability_vars: Vec::new(), statuses: Vec::new(), slots: 0 }
    }

    /// An exact copy of the team.
    pub fn clone(&self) -> (res: PackedTeam)
        ensures
            res@ == self@,
    {
        PackedTeam {
            units: clone_units(&self.units),
            name: self.name.clone(),
            vars: clone_status_list(&self.vars),
            ability_vars: clone_ability_vars(&self.ability_vars),
            statuses: clone_status_list(&self.statuses),
            slots: self.slots,
        }
    }
}

impl ReplicatedTeam {
    /// An exact copy of the replicated team.
    pub fn clone(&self) -> (res: ReplicatedTeam)
        ensures
            res@ == self@,
    {
        ReplicatedTeam { team: self.team.clone(), replications: self.replications }
    }

    /// The team this entry fields: the units are written out once, then
    /// again for each further replication, and the team gets one slot per
    /// unit.
    pub fn into_team(self) -> (res: PackedTeam)
        ensures
            res@ == expand_team(self@),
            self@.team.wf() ==> res@.wf(),
    {
        let mut team = self.team;
        let ghost orig = team.units@;
        let size = team.units.len();
        let mut r: usize = 1;
        proof {
            reveal_with_fuel(repeat, 2);
            assert(Seq::<PackedUnitView>::empty() + units_view(orig) =~= units_view(orig));
        }
        while r < self.replications
            invariant
                1 <= r,
                r <= self.replications || r == 1,
                size == orig.len(),
                team.units.len() >= size,
                forall|j: int| 0 <= j < size ==> (#[trigger] team.units@[j])@ == orig[j]@,
                units_view(team.units@) == repeat(units_view(orig), r as nat),
                team.name == self.team.name,
                team.vars == self.team.vars,
                team.ability_vars == self.team.ability_vars,
                team.statuses == self.team.statuses,
                team.slots == self.team.slots,
            decreases self.replications - r,
        {
            let mut i: usize = 0;
            while i < size
                invariant
                    i <= size,
                    size == orig.len(),
                    units_view(team.units@) == repeat(units_view(orig), r as nat) + units_view(orig).subrange(0, i as int),
                    team.units.len() >= size,
                    forall|j: int| 0 <= j < size ==> (#[trigger] team.units@[j])@ == orig[j]@,
                    team.name == self.team.name,
                    team.vars == self.team.vars,
                    team.ability_vars == self.team.ability_vars,
                    team.statuses == self.team.statuses,
                    team.slots == self.team.slots,
                decreases size - i,
            {
                let u = team.units[i].clone();
                proof {
                    lemma_units_view_push(team.units@, u);
                    assert(units_view(orig).subrange(0, i as int + 1) =~= units_view(orig).subrange(0, i as int).push(u@));
                }
                team.units.push(u);
                i = i + 1;
                assert(units_view(team.units@) =~= repeat(units_view(orig), r as nat) + units_view(orig).subrange(0, i as int));
            }
            assert(units_view(orig).subrange(0, size as int) =~= units_view(orig));
            r = r + 1;
            proof {
                reveal_with_fuel(repeat, 2);
            }
        }
        team.slots = team.units.len();
        proof {
            assert(r as nat == copies(self.replications));
            assert(units_view(team.units@).len() == team.units@.len());
        }
        team
    }
}

} // verus!
