use vstd::prelude::*;

use crate::faction::Faction;

verus! {

/// Names of the values that entities carry.
#[derive(Debug, Clone, Copy, PartialEq, Eq, Hash, Structural)]
pub enum VarName {
    Name,
    Faction,
    Slot,
    Slots,
    Id,
    Hp,
    Atk,
    Stacks,
    Level,
    Houses,
    Charges,
    Index,
    Position,
    StackCounter,
}

/// A value an entity carries.
#[derive(Debug)]
pub enum VarValue {
    Int(i32),
    Bool(bool),
    String(String),
    Faction(Faction),
    Entity(u64),
    EntityList(Vec<u64>),
}

/// The mathematical value of a [`VarValue`].
pub ghost enum VarValueView {
    Int(i32),
    Bool(bool),
    String(Seq<char>),
    Faction(Faction),
    Entity(u64),
    EntityList(Seq<u64>),
}

impl View for VarValue {
    type V = VarValueView;

    open spec fn view(&self) -> VarValueView {
        match self {
            VarValue::Int(x) => VarValueView::Int(*x),
            VarValue::Bool(x) => VarValueView::Bool(*x),
            VarValue::String(x) => VarValueView::String(x@),
            VarValue::Faction(x) => VarValueView::Faction(*x),
            VarValue::Entity(x) => VarValueView::Entity(*x),
            VarValue::EntityList(x) => VarValueView::EntityList(x@),
        }
    }
}

impl VarValue {
    /// An exact copy of the value.
    pub fn clone(&self) -> (res: VarValue)
        ensures
            res@ == self@,
    {
        match self {
            VarValue::Int(x) => VarValue::Int(*x),
            VarValue::Bool(x) => VarValue::Bool(*x),
            VarValue::String(x) => VarValue::String(x.clone()),
            VarValue::Faction(x) => VarValue::Faction(*x),
            VarValue::Entity(x) => VarValue::Entity(*x),
            VarValue::EntityList(x) => {
                let mut v: Vec<u64> = Vec::new();
                let mut i: usize = 0;
                while i < x.len()
                    invariant
                        i <= x@.len(),
                        v@ == x@.subrange(0, i as int),
                    decreases x.len() - i,
                {
                    v.push(x[i]);
                    i = i + 1;
                    assert(v@ =~= x@.subrange(0, i as int));
                }
                assert(x@.subrange(0, x@.len() as int) =~= x@);
                VarValue::EntityList(v)
            },
        }
    }
}

/// The values an entity carries, by name.
#[derive(Debug)]
pub struct VarState {
    vars: Vec<(VarName, VarValue)>,
}

/// No name occurs twice.
pub open spec fn var_names_distinct(s: Seq<(VarName, VarValue)>) -> bool {
    forall|i: int, j: int| 0 <= i < s.len() && 0 <= j < s.len() && i != j ==> s[i].0 != s[j].0
}

/// The values of a list of distinct names, as a map.
pub open spec fn var_map(s: Seq<(VarName, VarValue)>) -> Map<VarName, VarValueView> {
    Map::new(
        |k: VarName| exists|i: int| 0 <= i < s.len() && s[i].0 == k,
        |k: VarName| s[choose|i: int| 0 <= i < s.len() && s[i].0 == k].1@,
    )
}

/// In a list of distinct names, the map holds at a name the value of the
/// entry with that name.
proof fn lemma_var_map_at(s: Seq<(VarName, VarValue)>, i: int)
    requires
        var_names_distinct(s),
        0 <= i < s.len(),
    ensures
        var_map(s).contains_key(s[i].0),
        var_map(s)[s[i].0] == s[i].1@,
{
    let k = s[i].0;
    let j = choose|j: int| 0 <= j < s.len() && s[j].0 == k;
    assert(j == i);
}

impl View for VarState {
    type V = Map<VarName, VarValueView>;

    closed spec fn view(&self) -> Map<VarName, VarValueView> {
        var_map(self.vars@)
    }
}

impl VarState {
    #[verifier::type_invariant]
    spec fn inv(self) -> bool {
        var_names_distinct(self.vars@)
    }

    /// A state with no values.
    pub fn new() -> (res: VarState)
        ensures
            res@ == Map::<VarName, VarValueView>::empty(),
    {
        let res = VarState { vars: Vec::new() };
        assert(res@ =~= Map::<VarName, VarValueView>::empty());
        res
    }

    /// A state with one value.
    pub fn new_with(var: VarName, value: VarValue) -> (res: VarState)
        ensures
            res@ == Map::<VarName, VarValueView>::empty().insert(var, value@),
    {
        let mut res = VarState::new();
        res.set(var, value);
        res
    }

    fn position(&self, var: VarName) -> (res: Option<usize>)
        ensures
            match res {
                Some(i) => i < self.vars@.len() && self.vars@[i as int].0 == var,
                None => forall|i: int| 0 <= i < self.vars@.len() ==> self.vars@[i].0 != var,
            },
    {
        let mut i: usize = 0;
        while i < self.vars.len()
            invariant
                i <= self.vars@.len(),
                forall|j: int| 0 <= j < i ==> self.vars@[j].0 != var,
            decreases self.vars.len() - i,
        {
            if self.vars[i].0 == var {
                return Some(i);
            }
            i = i + 1;
        }
        None
    }

    /// The value of `var`, if the state has one.
    pub fn get(&self, var: VarName) -> (res: Option<&VarValue>)
        ensures
            match res {
                Some(v) => self@.contains_key(var) && v@ == self@[var],
                None => !self@.contains_key(var),
            },
    {
        proof {
            use_type_invariant(self);
        }
        match self.position(var) {
            Some(i) => {
                proof {
                    lemma_var_map_at(self.vars@, i as int);
                }
                Some(&self.vars[i].1)
            },
            None => None,
        }
    }

    /// Sets `var` to `value`.
    pub fn set(&mut self, var: VarName, value: VarValue)
        ensures
            final(self)@ == old(self)@.insert(var, value@),
    {
        proof {
            use_type_invariant(&*self);
        }
        let ghost old_vars = self.vars@;
        let mut vars: Vec<(VarName, VarValue)> = Vec::new();
        std::mem::swap(&mut vars, &mut self.vars);
        match self.position_in(&vars, var) {
            Some(i) => {
                vars.set(i, (var, value));
                proof {
                    assert(var_names_distinct(vars@));
                    assert forall|k: VarName| #[trigger] var_map(vars@).contains_key(k)
                        == var_map(old_vars).insert(var, value@).contains_key(k) by {
                        assert(vars@[i as int].0 == var);
                        if k != var && var_map(old_vars).contains_key(k) {
                            let j = choose|j: int| 0 <= j < old_vars.len() && old_vars[j].0 == k;
                            assert(vars@[j].0 == k);
                        }
                    }
                    assert forall|k: VarName| #[trigger] var_map(vars@).contains_key(k) implies
                        var_map(vars@)[k] == var_map(old_vars).insert(var, value@)[k] by {
                        let j = choose|j: int| 0 <= j < vars@.len() && vars@[j].0 == k;
                        lemma_var_map_at(vars@, j);
                        if j != i {
                            lemma_var_map_at(old_vars, j);
                        }
                    }
                    assert(var_map(vars@) =~= var_map(old_vars).insert(var, value@));
                }
            },
            None => {
                vars.push((var, value));
                proof {
                    assert(var_names_distinct(vars@));
                    assert forall|k: VarName| #[trigger] var_map(vars@).contains_key(k)
                        == var_map(old_vars).insert(var, value@).contains_key(k) by {
                        assert(vars@[old_vars.len() as int].0 == var);
                        if var_map(old_vars).contains_key(k) {
                            let j = choose|j: int| 0 <= j < old_vars.len() && old_vars[j].0 == k;
                            assert(vars@[j].0 == k);
                        }
                        if k != var && var_map(vars@).contains_key(k) {
                            let j = choose|j: int| 0 <= j < vars@.len() && vars@[j].0 == k;
                            assert(old_vars[j].0 == k);
                        }
                    }
                    assert forall|k: VarName| #[trigger] var_map(vars@).contains_key(k) implies
                        var_map(vars@)[k] == var_map(old_vars).insert(var, value@)[k] by {
                        let j = choose|j: int| 0 <= j < vars@.len() && vars@[j].0 == k;
                        lemma_var_map_at(vars@, j);
                        if j != old_vars.len() {
                            lemma_var_map_at(old_vars, j);
                        }
                    }
                    assert(var_map(vars@) =~= var_map(old_vars).insert(var, value@));
                }
            },
        }
        self.vars = vars;
    }

    fn position_in(&self, vars: &Vec<(VarName, VarValue)>, var: VarName) -> (res: Option<usize>)
        ensures
            match res {
                Some(i) => i < vars@.len() && vars@[i as int].0 == var,
                None => forall|i: int| 0 <= i < vars@.len() ==> vars@[i].0 != var,
            },
    {
        let mut i: usize = 0;
        while i < vars.len()
            invariant
                i <= vars@.len(),
                forall|j: int| 0 <= j < i ==> vars@[j].0 != var,
            decreases vars.len() - i,
        {
            if vars[i].0 == var {
                return Some(i);
            }
            i = i + 1;
        }
        None
    }

    /// An exact copy of the state.
    pub fn clone(&self) -> (res: VarState)
        ensures
            res@ == self@,
    {
        proof {
            use_type_invariant(self);
        }
        let mut vars: Vec<(VarName, VarValue)> = Vec::new();
        let mut i: usize = 0;
        while i < self.vars.len()
            invariant
                i <= self.vars@.len(),
                vars@.len() == i,
                forall|j: int| 0 <= j < i ==> (#[trigger] vars@[j]).0 == self.vars@[j].0 && vars@[j].1@ == self.vars@[j].1@,
            decreases self.vars.len() - i,
        {
            let (name, value) = &self.vars[i];
            vars.push((*name, value.clone()));
            i = i + 1;
        }
        let res = VarState { vars };
        proof {
            assert(var_names_distinct(res.vars@));
            assert forall|k: VarName| #[trigger] var_map(res.vars@).contains_key(k) == var_map(self.vars@).contains_key(k) by {
                if var_map(self.vars@).contains_key(k) {
                    let j = choose|j: int| 0 <= j < self.vars@.len() && self.vars@[j].0 == k;
                    assert(res.vars@[j].0 == k);
                }
                if var_map(res.vars@).contains_key(k) {
                    let j = choose|j: int| 0 <= j < res.vars@.len() && res.vars@[j].0 == k;
                    assert(self.vars@[j].0 == k);
                }
            }
            assert forall|k: VarName| #[trigger] var_map(res.vars@).contains_key(k) implies var_map(res.vars@)[k] == var_map(self.vars@)[k] by {
                let j = choose|j: int| 0 <= j < res.vars@.len() && res.vars@[j].0 == k;
                lemma_var_map_at(res.vars@, j);
                lemma_var_map_at(self.vars@, j);
            }
            assert(var_map(res.vars@) =~= var_map(self.vars@));
        }
        res
    }

    /// Adds every value of `other` whose name this state lacks; values this
    /// state already has stay.
    pub fn merge_missing(&mut self, other: &VarState)
        ensures
            final(self)@ == other@.union_prefer_right(old(self)@),
    {
        proof {
            use_type_invariant(&*self);
            use_type_invariant(other);
        }
        let mut i: usize = 0;
        while i < other.vars.len()
            invariant
                i <= other.vars@.len(),
                var_names_distinct(other.vars@),
                forall|k: VarName| #[trigger] self@.contains_key(k) == (old(self)@.contains_key(k)
                    || exists|j: int| 0 <= j < i && other.vars@[j].0 == k),
                forall|k: VarName| #[trigger] self@.contains_key(k) && old(self)@.contains_key(k) ==> self@[k] == old(self)@[k],
                forall|j: int| 0 <= j < i && !old(self)@.contains_key(other.vars@[j].0)
                    ==> #[trigger] self@[other.vars@[j].0] == other.vars@[j].1@,
            decreases other.vars.len() - i,
        {
            let (name, value) = &other.vars[i];
            if self.get(*name).is_none() {
                let v = value.clone();
                self.set(*name, v);
                proof {
                    assert forall|j: int| 0 <= j < i && !old(self)@.contains_key(other.vars@[j].0)
                        implies #[trigger] self@[other.vars@[j].0] == other.vars@[j].1@ by {
                        assert(other.vars@[j].0 != *name);
                    }
                }
            } else {
                proof {
                    assert forall|k: VarName| #[trigger] self@.contains_key(k) == (old(self)@.contains_key(k)
                        || exists|j: int| 0 <= j < i + 1 && other.vars@[j].0 == k) by {
                        if k == *name {
                        } else if exists|j: int| 0 <= j < i + 1 && other.vars@[j].0 == k {
                            let j = choose|j: int| 0 <= j < i + 1 && other.vars@[j].0 == k;
                            assert(j < i);
                        }
                    }
                }
            }
            i = i + 1;
        }
        proof {
            assert forall|k: VarName| #[trigger] self@.contains_key(k) == other@.union_prefer_right(old(self)@).contains_key(k) by {
                if other@.contains_key(k) {
                    let j = choose|j: int| 0 <= j < other.vars@.len() && other.vars@[j].0 == k;
                }
                if exists|j: int| 0 <= j < other.vars@.len() && other.vars@[j].0 == k {
                    let j = choose|j: int| 0 <= j < other.vars@.len() && other.vars@[j].0 == k;
                    lemma_var_map_at(other.vars@, j);
                }
            }
            assert forall|k: VarName| #[trigger] self@.contains_key(k) implies self@[k] == other@.union_prefer_right(old(self)@)[k] by {
                if !old(self)@.contains_key(k) {
                    let j = choose|j: int| 0 <= j < other.vars@.len() && other.vars@[j].0 == k;
                    lemma_var_map_at(other.vars@, j);
                }
            }
            assert(self@ =~= other@.union_prefer_right(old(self)@));
        }
    }
}

/// Reading a variable right after it is set gives the value set, and
/// setting one variable leaves every other variable as it was (see
/// [`VarState::set`] and [`VarState::get`]).
pub proof fn law_get_after_set(state: Map<VarName, VarValueView>, var: VarName, value: VarValueView, other: VarName)
    ensures
        state.insert(var, value).contains_key(var),
        state.insert(var, value)[var] == value,
        other != var ==> state.insert(var, value).contains_key(other) == state.contains_key(other),
        other != var && state.contains_key(other) ==> state.insert(var, value)[other] == state[other],
{
}

/// Filling in missing variables from another state keeps every variable the
/// state already had, and takes every other one from the other state (see
/// [`VarState::merge_missing`]).
pub proof fn law_merge_keeps_own(own: Map<VarName, VarValueView>, other: Map<VarName, VarValueView>, var: VarName)
    ensures
        own.contains_key(var) ==> other.union_prefer_right(own)[var] == own[var],
        !own.contains_key(var) && other.contains_key(var) ==> other.union_prefer_right(own)[var] == other[var],
        other.union_prefer_right(own).contains_key(var) == (own.contains_key(var) || other.contains_key(var)),
{
}

} // verus!
