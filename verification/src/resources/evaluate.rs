use vstd::prelude::*;

use crate::decimal::{decimal, u64_to_string};
use crate::faction::Faction;
use crate::logic::model::{unit_views, Unit, UnitView};
use crate::resources::expression::{Expression, ExpressionView};
use crate::vars::{VarName, VarState, VarValue, VarValueView};

verus! {

/// Why an expression has no value.
#[derive(Debug, Clone, Copy, PartialEq, Eq, Structural)]
pub enum EvalError {
    /// The expression reads the clock, the music, the slots' places on
    /// screen, a random draw or a number with a fraction, which the caller
    /// works out.
    Unsupported,
    /// A value it needs is not there: no such variable, unit or target.
    Missing,
    /// A value is of another kind than the expression needs.
    WrongKind,
}

/// What an expression is evaluated for: the unit that owns it, the units
/// that cast it and that it targets, its status, and its variables.
#[derive(Debug)]
pub struct EvalContext {
    pub owner: u64,
    pub caster: Option<u64>,
    pub target: Option<u64>,
    pub status: Option<u64>,
    pub vars: VarState,
}

/// The mathematical value of an [`EvalContext`].
pub ghost struct EvalContextView {
    pub owner: u64,
    pub caster: Option<u64>,
    pub target: Option<u64>,
    pub status: Option<u64>,
    pub vars: Map<VarName, VarValueView>,
}

impl View for EvalContext {
    type V = EvalContextView;

    open spec fn view(&self) -> EvalContextView {
        EvalContextView {
            owner: self.owner,
            caster: self.caster,
            target: self.target,
            status: self.status,
            vars: self.vars@,
        }
    }
}

/// The context of an expression evaluated for the unit `id` alone.
pub open spec fn owner_context(id: u64) -> EvalContextView {
    EvalContextView { owner: id, caster: None, target: None, status: None, vars: Map::empty() }
}

/// The value of a result.
pub open spec fn result_view(r: Result<VarValue, EvalError>) -> Result<VarValueView, EvalError> {
    match r {
        Ok(v) => Ok(v@),
        Err(e) => Err(e),
    }
}

/// The first of the first `k` units with id `id`.
pub open spec fn find_unit(units: Seq<UnitView>, id: u64, k: int) -> Option<UnitView>
    decreases k,
{
    if k <= 0 {
        None
    } else {
        match find_unit(units, id, k - 1) {
            Some(u) => Some(u),
            None => if units[k - 1].id == id { Some(units[k - 1]) } else { None },
        }
    }
}

/// The faction of the unit that owns the context.
pub open spec fn owner_faction(c: EvalContextView, units: Seq<UnitView>) -> Result<Faction, EvalError> {
    match find_unit(units, c.owner, units.len() as int) {
        Some(u) => Ok(u.faction),
        None => Err(EvalError::Missing),
    }
}

/// A variable of the context; the faction, when the context does not set
/// it, is the owner's.
pub open spec fn context_var(c: EvalContextView, units: Seq<UnitView>, var: VarName) -> Result<VarValueView, EvalError> {
    if c.vars.contains_key(var) {
        Ok(c.vars[var])
    } else if var == VarName::Faction {
        match owner_faction(c, units) {
            Ok(f) => Ok(VarValueView::Faction(f)),
            Err(e) => Err(e),
        }
    } else {
        Err(EvalError::Missing)
    }
}

/// An entity named by an optional id.
pub open spec fn entity_of(id: Option<u64>) -> Result<VarValueView, EvalError> {
    match id {
        Some(x) => Ok(VarValueView::Entity(x)),
        None => Err(EvalError::Missing),
    }
}

/// The text `to_string` gives a 32-bit integer.
pub open spec fn int_text(x: i32) -> Seq<char> {
    if x < 0 { seq!['-'] + decimal((-x) as nat) } else { decimal(x as nat) }
}

/// The charges of the status named `name` on the first `k` statuses of a
/// unit: those of the first status of that name, zero when there is none.
pub open spec fn charges_upto(sts: Seq<crate::logic::model::AttachedStatusView>, name: Seq<char>, k: int) -> Result<VarValueView, EvalError>
    decreases k,
{
    if k <= 0 {
        Ok(VarValueView::Int(0))
    } else {
        let earlier = charges_upto(sts, name, k - 1);
        if has_status_upto(sts, name, k - 1) {
            earlier
        } else if sts[k - 1].status.name == name {
            if sts[k - 1].vars.contains_key(VarName::Charges) && sts[k - 1].vars[VarName::Charges] is Int {
                Ok(sts[k - 1].vars[VarName::Charges])
            } else {
                Err(EvalError::WrongKind)
            }
        } else {
            earlier
        }
    }
}

/// Whether one of the first `k` statuses is named `name`.
pub open spec fn has_status_upto(sts: Seq<crate::logic::model::AttachedStatusView>, name: Seq<char>, k: int) -> bool {
    exists|i: int| 0 <= i < k && i < sts.len() && sts[i].status.name == name
}

/// The charges of the owner's status named `name`.
pub open spec fn status_charges(c: EvalContextView, units: Seq<UnitView>, name: Seq<char>) -> Result<VarValueView, EvalError> {
    match find_unit(units, c.owner, units.len() as int) {
        Some(u) => charges_upto(u.statuses, name, u.statuses.len() as int),
        None => Ok(VarValueView::Int(0)),
    }
}

/// The value of `e` in the context, over the units on the field.
pub open spec fn spec_value(e: ExpressionView, c: EvalContextView, units: Seq<UnitView>) -> Result<VarValueView, EvalError>
    decreases e, 0nat,
{
    match e {
        ExpressionView::Zero => Ok(VarValueView::Int(0)),
        ExpressionView::Int(x) => Ok(VarValueView::Int(x)),
        ExpressionView::Bool(x) => Ok(VarValueView::Bool(x)),
        ExpressionView::String(x) => Ok(VarValueView::String(x)),
        ExpressionView::Faction(f) => Ok(VarValueView::Faction(f)),
        ExpressionView::Value(v) => Ok(v),
        ExpressionView::Owner => Ok(VarValueView::Entity(c.owner)),
        ExpressionView::Caster => entity_of(c.caster),
        ExpressionView::Target => entity_of(c.target),
        ExpressionView::Status => entity_of(c.status),
        ExpressionView::OwnerFaction => match owner_faction(c, units) {
            Ok(f) => Ok(VarValueView::Faction(f)),
            Err(err) => Err(err),
        },
        ExpressionView::Context(var) => context_var(c, units, var),
        ExpressionView::Index => context_var(c, units, VarName::Index),
        ExpressionView::StringInt(x) => match spec_value(*x, c, units) {
            Ok(VarValueView::Int(i)) => Ok(VarValueView::String(int_text(i))),
            Ok(_) => Err(EvalError::WrongKind),
            Err(err) => Err(err),
        },
        ExpressionView::ToInt(x) => match spec_value(*x, c, units) {
            Ok(VarValueView::Int(i)) => Ok(VarValueView::Int(i)),
            _ => Ok(VarValueView::Int(0)),
        },
        ExpressionView::Even(x) => match spec_value(*x, c, units) {
            Ok(VarValueView::Int(i)) => Ok(VarValueView::Bool(i % 2 == 0)),
            Ok(_) => Err(EvalError::WrongKind),
            Err(err) => Err(err),
        },
        ExpressionView::Equals(a, b) => match spec_value(*a, c, units) {
            Err(err) => Err(err),
            Ok(va) => match spec_value(*b, c, units) {
                Err(err) => Err(err),
                Ok(vb) => Ok(VarValueView::Bool(va == vb)),
            },
        },
        ExpressionView::GreaterThen(a, b) => int_pair(spec_value(*a, c, units), spec_value(*b, c, units), 0),
        ExpressionView::LessThen(a, b) => int_pair(spec_value(*a, c, units), spec_value(*b, c, units), 1),
        ExpressionView::Min(a, b) => int_pair(spec_value(*a, c, units), spec_value(*b, c, units), 2),
        ExpressionView::Max(a, b) => int_pair(spec_value(*a, c, units), spec_value(*b, c, units), 3),
        ExpressionView::And(a, b) => match spec_value(*a, c, units) {
            Ok(VarValueView::Bool(false)) => Ok(VarValueView::Bool(false)),
            Ok(VarValueView::Bool(true)) => match spec_value(*b, c, units) {
                Ok(VarValueView::Bool(y)) => Ok(VarValueView::Bool(y)),
                Ok(_) => Err(EvalError::WrongKind),
                Err(err) => Err(err),
            },
            Ok(_) => Err(EvalError::WrongKind),
            Err(err) => Err(err),
        },
        ExpressionView::Or(a, b) => match spec_value(*a, c, units) {
            Ok(VarValueView::Bool(true)) => Ok(VarValueView::Bool(true)),
            Ok(VarValueView::Bool(false)) => match spec_value(*b, c, units) {
                Ok(VarValueView::Bool(y)) => Ok(VarValueView::Bool(y)),
                Ok(_) => Err(EvalError::WrongKind),
                Err(err) => Err(err),
            },
            Ok(_) => Err(EvalError::WrongKind),
            Err(err) => Err(err),
        },
        ExpressionView::If(cond, th, el) => match spec_value(*cond, c, units) {
            Ok(VarValueView::Bool(true)) => spec_value(*th, c, units),
            Ok(VarValueView::Bool(false)) => spec_value(*el, c, units),
            Ok(_) => Err(EvalError::WrongKind),
            Err(err) => Err(err),
        },
        ExpressionView::WithVar(var, value, body) => match spec_value(*value, c, units) {
            Ok(v) => spec_value(*body, EvalContextView { vars: c.vars.insert(var, v), ..c }, units),
            Err(err) => Err(err),
        },
        ExpressionView::FactionCount(f) => match spec_value(*f, c, units) {
            Ok(VarValueView::Faction(fa)) => Ok(VarValueView::Int(faction_count(units, fa, units.len() as int) as i32)),
            Ok(_) => Err(EvalError::WrongKind),
            Err(err) => Err(err),
        },
        ExpressionView::AllAllyUnits => match owner_faction(c, units) {
            Ok(f) => Ok(VarValueView::EntityList(faction_ids(units, f, units.len() as int))),
            Err(err) => Err(err),
        },
        ExpressionView::UnitCount(cond) => match context_var(c, units, VarName::Faction) {
            Ok(VarValueView::Faction(f)) => match count_where(*cond, units, f, units.len() as int) {
                Ok(n) => Ok(VarValueView::Int(n as i32)),
                Err(err) => Err(err),
            },
            Ok(_) => Err(EvalError::WrongKind),
            Err(err) => Err(err),
        },
        ExpressionView::FilterUnits(cond) => match owner_faction(c, units) {
            Ok(f) => Ok(VarValueView::EntityList(filter_where(*cond, units, f, units.len() as int))),
            Err(err) => Err(err),
        },
        ExpressionView::StatusCharges(name) => match spec_value(*name, c, units) {
            Ok(VarValueView::String(n)) => status_charges(c, units, n),
            Ok(_) => Err(EvalError::WrongKind),
            Err(err) => Err(err),
        },
        ExpressionView::HasStatus(name) => match status_charges(c, units, name) {
            Ok(VarValueView::Int(n)) => Ok(VarValueView::Bool(n > 0)),
            Ok(_) => Err(EvalError::WrongKind),
            Err(err) => Err(err),
        },
        ExpressionView::AllStatusAllies(name) => match owner_faction(c, units) {
            Ok(f) => Ok(VarValueView::EntityList(status_ids(units, f, name, units.len() as int))),
            Err(err) => Err(err),
        },
        _ => Err(EvalError::Unsupported),
    }
}

/// Two integer values compared or chosen between: `op` 0 asks whether the
/// first is greater, 1 whether it is less, 2 takes the smaller and 3 the
/// larger. The first error wins; values other than integers are compared by
/// rules the caller works out.
pub open spec fn int_pair(a: Result<VarValueView, EvalError>, b: Result<VarValueView, EvalError>, op: int) -> Result<VarValueView, EvalError> {
    match a {
        Err(err) => Err(err),
        Ok(va) => match b {
            Err(err) => Err(err),
            Ok(vb) => match (va, vb) {
                (VarValueView::Int(x), VarValueView::Int(y)) =>
                    if op == 0 {
                        Ok(VarValueView::Bool(x > y))
                    } else if op == 1 {
                        Ok(VarValueView::Bool(x < y))
                    } else if op == 2 {
                        Ok(VarValueView::Int(if x < y { x } else { y }))
                    } else {
                        Ok(VarValueView::Int(if x < y { y } else { x }))
                    },
                _ => Err(EvalError::Unsupported),
            },
        },
    }
}

/// How many of the first `k` units are of the faction.
pub open spec fn faction_count(units: Seq<UnitView>, f: Faction, k: int) -> nat
    decreases k,
{
    if k <= 0 { 0 } else { faction_count(units, f, k - 1) + if units[k - 1].faction == f { 1nat } else { 0nat } }
}

/// The ids of the first `k` units that are of the faction, in order.
pub open spec fn faction_ids(units: Seq<UnitView>, f: Faction, k: int) -> Seq<u64>
    decreases k,
{
    if k <= 0 {
        Seq::empty()
    } else if units[k - 1].faction == f {
        faction_ids(units, f, k - 1).push(units[k - 1].id)
    } else {
        faction_ids(units, f, k - 1)
    }
}

/// How many of the first `k` units of the faction `cond` holds for, each
/// evaluated for itself; the first error met stops the count.
pub open spec fn count_where(cond: ExpressionView, units: Seq<UnitView>, f: Faction, k: int) -> Result<nat, EvalError>
    decreases cond, 1nat + (if k > 0 { k as nat } else { 0nat }),
{
    if k <= 0 {
        Ok(0)
    } else {
        match count_where(cond, units, f, k - 1) {
            Err(err) => Err(err),
            Ok(n) => if units[k - 1].faction != f {
                Ok(n)
            } else {
                match spec_value(cond, owner_context(units[k - 1].id), units) {
                    Ok(VarValueView::Bool(b)) => Ok(if b { n + 1 } else { n }),
                    Ok(_) => Err(EvalError::WrongKind),
                    Err(err) => Err(err),
                }
            },
        }
    }
}

/// The ids of the first `k` units of the faction that `cond` holds for,
/// each evaluated for itself, in order.
pub open spec fn filter_where(cond: ExpressionView, units: Seq<UnitView>, f: Faction, k: int) -> Seq<u64>
    decreases cond, 1nat + (if k > 0 { k as nat } else { 0nat }),
{
    if k <= 0 {
        Seq::empty()
    } else if units[k - 1].faction == f
        && spec_value(cond, owner_context(units[k - 1].id), units) == Ok::<VarValueView, EvalError>(VarValueView::Bool(true)) {
        filter_where(cond, units, f, k - 1).push(units[k - 1].id)
    } else {
        filter_where(cond, units, f, k - 1)
    }
}

/// Whether unit `u` has a status named `name` with charges left, as
/// evaluated for itself.
pub open spec fn has_charges(units: Seq<UnitView>, u: UnitView, name: Seq<char>) -> bool {
    status_charges(owner_context(u.id), units, name) matches Ok(VarValueView::Int(n)) && n > 0
}

/// The ids of the first `k` units of the faction that have a status named
/// `name` with charges left, in order.
pub open spec fn status_ids(units: Seq<UnitView>, f: Faction, name: Seq<char>, k: int) -> Seq<u64>
    decreases k,
{
    if k <= 0 {
        Seq::empty()
    } else if units[k - 1].faction == f && has_charges(units, units[k - 1], name) {
        status_ids(units, f, name, k - 1).push(units[k - 1].id)
    } else {
        status_ids(units, f, name, k - 1)
    }
}


impl EvalContext {
    /// The context of an expression evaluated for the unit `id` alone.
    pub fn from_owner(id: u64) -> (res: EvalContext)
        ensures
            res@ == owner_context(id),
    {
        EvalContext { owner: id, caster: None, target: None, status: None, vars: VarState::new() }
    }
}

/// The place of the first unit with id `id`.
pub fn find_unit_at(units: &Vec<Unit>, id: u64) -> (res: Option<usize>)
    ensures
        match res {
            Some(i) => i < units@.len() && find_unit(unit_views(units@), id, units@.len() as int) == Some(unit_views(units@)[i as int]),
            None => find_unit(unit_views(units@), id, units@.len() as int) is None,
        },
{
    let ghost uv = unit_views(units@);
    let mut i: usize = 0;
    while i < units.len()
        invariant
            i <= units@.len(),
            uv == unit_views(units@),
            uv.len() == units@.len(),
            find_unit(uv, id, i as int) is None,
        decreases units.len() - i,
    {
        assert(uv[i as int] == units@[i as int]@);
        if units[i].id == id {
            assert(find_unit(uv, id, i + 1) == Some(uv[i as int]));
            proof {
                lemma_find_unit_stays(uv, id, i + 1, units@.len() as int);
            }
            return Some(i);
        }
        i = i + 1;
    }
    None
}

/// Once found among the first `k` units, a unit stays the one found.
proof fn lemma_find_unit_stays(units: Seq<UnitView>, id: u64, k: int, m: int)
    requires
        0 <= k <= m,
        find_unit(units, id, k) is Some,
    ensures
        find_unit(units, id, m) == find_unit(units, id, k),
    decreases m - k,
{
    if m > k {
        lemma_find_unit_stays(units, id, k, m - 1);
    }
}

/// The faction of the unit that owns the context.
fn get_owner_faction(c: &EvalContext, units: &Vec<Unit>) -> (res: Result<Faction, EvalError>)
    ensures
        res == owner_faction(c@, unit_views(units@)),
{
    match find_unit_at(units, c.owner) {
        Some(i) => {
            assert(unit_views(units@)[i as int] == units@[i as int]@);
            Ok(units[i].faction)
        },
        None => Err(EvalError::Missing),
    }
}

/// A variable of the context (see [`context_var`]).
fn get_context_var(c: &EvalContext, units: &Vec<Unit>, var: VarName) -> (res: Result<VarValue, EvalError>)
    ensures
        result_view(res) == context_var(c@, unit_views(units@), var),
{
    match c.vars.get(var) {
        Some(v) => Ok(v.clone()),
        None => {
            if var == VarName::Faction {
                match get_owner_faction(c, units) {
                    Ok(f) => Ok(VarValue::Faction(f)),
                    Err(e) => Err(e),
                }
            } else {
                Err(EvalError::Missing)
            }
        },
    }
}

/// An entity named by an optional id.
fn get_entity(id: Option<u64>) -> (res: Result<VarValue, EvalError>)
    ensures
        result_view(res) == entity_of(id),
{
    match id {
        Some(x) => Ok(VarValue::Entity(x)),
        None => Err(EvalError::Missing),
    }
}

/// The text `to_string` gives a 32-bit integer.
pub fn int_to_string(x: i32) -> (res: String)
    ensures
        res@ == int_text(x),
{
    if x < 0 {
        let m: i64 = -(x as i64);
        let digits = u64_to_string(m as u64);
        let mut s = "-".to_string();
        proof {
            reveal_strlit("-");
        }
        s.append(digits.as_str());
        assert(s@ =~= seq!['-'] + decimal((-x) as nat));
        s
    } else {
        u64_to_string(x as u64)
    }
}

/// Whether two lists of ids are the same.
fn ids_equal(a: &Vec<u64>, b: &Vec<u64>) -> (res: bool)
    ensures
        res == (a@ == b@),
{
    if a.len() != b.len() {
        return false;
    }
    let mut i: usize = 0;
    while i < a.len()
        invariant
            i <= a@.len(),
            a@.len() == b@.len(),
            forall|j: int| 0 <= j < i ==> a@[j] == b@[j],
        decreases a.len() - i,
    {
        if a[i] != b[i] {
            return false;
        }
        i = i + 1;
    }
    assert(a@ =~= b@);
    true
}

/// Whether two values are the same.
pub fn values_equal(a: &VarValue, b: &VarValue) -> (res: bool)
    ensures
        res == (a@ == b@),
{
    match (a, b) {
        (VarValue::Int(x), VarValue::Int(y)) => *x == *y,
        (VarValue::Bool(x), VarValue::Bool(y)) => *x == *y,
        (VarValue::String(x), VarValue::String(y)) => {
            let r = *x == *y;
            r
        },
        (VarValue::Faction(x), VarValue::Faction(y)) => *x == *y,
        (VarValue::Entity(x), VarValue::Entity(y)) => *x == *y,
        (VarValue::EntityList(x), VarValue::EntityList(y)) => ids_equal(x, y),
        _ => false,
    }
}

/// Two integer values compared or chosen between (see [`int_pair`]).
fn compare_ints(a: Result<VarValue, EvalError>, b: Result<VarValue, EvalError>, op: u8) -> (res: Result<VarValue, EvalError>)
    ensures
        result_view(res) == int_pair(result_view(a), result_view(b), op as int),
{
    match a {
        Err(e) => Err(e),
        Ok(va) => match b {
            Err(e) => Err(e),
            Ok(vb) => match (va, vb) {
                (VarValue::Int(x), VarValue::Int(y)) => {
                    if op == 0 {
                        Ok(VarValue::Bool(x > y))
                    } else if op == 1 {
                        Ok(VarValue::Bool(x < y))
                    } else if op == 2 {
                        Ok(VarValue::Int(if x < y { x } else { y }))
                    } else {
                        Ok(VarValue::Int(if x < y { y } else { x }))
                    }
                },
                _ => Err(EvalError::Unsupported),
            },
        },
    }
}

/// How many units are of the faction.
fn count_faction(units: &Vec<Unit>, f: Faction) -> (res: usize)
    ensures
        res == faction_count(unit_views(units@), f, units@.len() as int),
{
    let ghost uv = unit_views(units@);
    let mut n: usize = 0;
    let mut i: usize = 0;
    while i < units.len()
        invariant
            i <= units@.len(),
            uv == unit_views(units@),
            uv.len() == units@.len(),
            n == faction_count(uv, f, i as int),
            n <= i,
        decreases units.len() - i,
    {
        assert(uv[i as int] == units@[i as int]@);
        if units[i].faction == f {
            n = n + 1;
        }
        i = i + 1;
    }
    n
}

/// The ids of the units of the faction, in order.
fn ids_of_faction(units: &Vec<Unit>, f: Faction) -> (res: Vec<u64>)
    ensures
        res@ == faction_ids(unit_views(units@), f, units@.len() as int),
{
    let ghost uv = unit_views(units@);
    let mut out: Vec<u64> = Vec::new();
    let mut i: usize = 0;
    while i < units.len()
        invariant
            i <= units@.len(),
            uv == unit_views(units@),
            uv.len() == units@.len(),
            out@ == faction_ids(uv, f, i as int),
        decreases units.len() - i,
    {
        assert(uv[i as int] == units@[i as int]@);
        if units[i].faction == f {
            out.push(units[i].id);
        }
        i = i + 1;
    }
    out
}

/// The charges of the owner's status named `name` (see
/// [`status_charges`]).
fn get_status_charges(c: &EvalContext, units: &Vec<Unit>, name: &String) -> (res: Result<VarValue, EvalError>)
    ensures
        result_view(res) == status_charges(c@, unit_views(units@), name@),
{
    assert(unit_views(units@).len() == units@.len());
    match find_unit_at(units, c.owner) {
        None => Ok(VarValue::Int(0)),
        Some(u) => {
            let sts = &units[u].all_statuses;
            let ghost sv = unit_views(units@)[u as int].statuses;
            assert(unit_views(units@)[u as int] == units@[u as int]@);
            let mut i: usize = 0;
            while i < sts.len()
                invariant
                    i <= sts@.len(),
                    u < units@.len(),
                    unit_views(units@).len() == units@.len(),
                    sv == unit_views(units@)[u as int].statuses,
                    find_unit(unit_views(units@), c.owner, units@.len() as int) == Some(unit_views(units@)[u as int]),
                    *sts == units@[u as int].all_statuses,
                    sv.len() == sts@.len(),
                    forall|j: int| 0 <= j < sts@.len() ==> #[trigger] sv[j] == sts@[j]@,
                    !has_status_upto(sv, name@, i as int),
                    charges_upto(sv, name@, i as int) == Ok::<VarValueView, EvalError>(VarValueView::Int(0)),
                decreases sts.len() - i,
            {
                assert(sv[i as int] == sts@[i as int]@);
                if sts[i].status.name == *name {
                    let r = match sts[i].vars.get(VarName::Charges) {
                        Some(VarValue::Int(n)) => Ok(VarValue::Int(*n)),
                        _ => Err(EvalError::WrongKind),
                    };
                    proof {
                        assert(sv[i as int].status.name == name@);
                        assert(sv[i as int].vars == sts@[i as int].vars@);
                        assert(result_view(r) == charges_upto(sv, name@, i + 1));
                        assert(has_status_upto(sv, name@, i + 1));
                        lemma_charges_stay(sv, name@, i + 1, sv.len() as int);
                        assert(result_view(r) == charges_upto(sv, name@, sv.len() as int));
                        let uvs = unit_views(units@);
                        assert(find_unit(uvs, c.owner, uvs.len() as int) == Some(uvs[u as int]));
                        assert(uvs[u as int].statuses == sv);
                        assert(status_charges(c@, uvs, name@) == charges_upto(sv, name@, sv.len() as int));
                    }
                    return r;
                }
                proof {
                    assert forall|j: int| 0 <= j < i + 1 && j < sv.len() implies sv[j].status.name != name@ by {
                        if j < i {
                            if sv[j].status.name == name@ {
                                assert(has_status_upto(sv, name@, i as int));
                            }
                        }
                    }
                }
                i = i + 1;
            }
            Ok(VarValue::Int(0))
        },
    }
}

/// Once a status of the name is among the first `k`, later statuses change
/// nothing.
proof fn lemma_charges_stay(sts: Seq<crate::logic::model::AttachedStatusView>, name: Seq<char>, k: int, m: int)
    requires
        0 <= k <= m,
        has_status_upto(sts, name, k),
    ensures
        charges_upto(sts, name, m) == charges_upto(sts, name, k),
    decreases m - k,
{
    if m > k {
        lemma_charges_stay(sts, name, k, m - 1);
        let w = choose|i: int| 0 <= i < k && i < sts.len() && sts[i].status.name == name;
        assert(has_status_upto(sts, name, m - 1));
    }
}

/// The ids of the units of the faction with a status named `name` that has
/// charges left, in order.
fn ids_with_status(units: &Vec<Unit>, f: Faction, name: &String) -> (res: Vec<u64>)
    ensures
        res@ == status_ids(unit_views(units@), f, name@, units@.len() as int),
{
    let ghost uv = unit_views(units@);
    let mut out: Vec<u64> = Vec::new();
    let mut i: usize = 0;
    while i < units.len()
        invariant
            i <= units@.len(),
            uv == unit_views(units@),
            uv.len() == units@.len(),
            out@ == status_ids(uv, f, name@, i as int),
        decreases units.len() - i,
    {
        assert(uv[i as int] == units@[i as int]@);
        if units[i].faction == f {
            let c = EvalContext::from_owner(units[i].id);
            let charged = match get_status_charges(&c, units, name) {
                Ok(VarValue::Int(n)) => n > 0,
                _ => false,
            };
            if charged {
                out.push(units[i].id);
            }
        }
        i = i + 1;
    }
    out
}

impl Expression {
    /// The value of the expression in the context `context`, over the
    /// units on the field (see [`spec_value`]). An expression that reads the
    /// clock, the music, places on screen, a random draw or a number with a
    /// fraction gives [`EvalError::Unsupported`], for the caller to work out.
    #[verifier::spinoff_prover]
    #[verifier::rlimit(100)]
    pub fn get_value(&self, context: &EvalContext, units: &Vec<Unit>) -> (res: Result<VarValue, EvalError>)
        requires
            units@.len() <= i32::MAX,
        ensures
            result_view(res) == spec_value(self@, context@, unit_views(units@)),
        decreases self, 2nat,
    {
        let ghost uv = unit_views(units@);
        match self {
            Expression::Zero => Ok(VarValue::Int(0)),
            Expression::Int(x) => Ok(VarValue::Int(*x)),
            Expression::Bool(x) => Ok(VarValue::Bool(*x)),
            Expression::String(x) => Ok(VarValue::String(x.clone())),
            Expression::Faction(f) => Ok(VarValue::Faction(*f)),
            Expression::Value(v) => Ok(v.clone()),
            Expression::Owner => Ok(VarValue::Entity(context.owner)),
            Expression::Caster => get_entity(context.caster),
            Expression::Target => get_entity(context.target),
            Expression::Status => get_entity(context.status),
            Expression::OwnerFaction => match get_owner_faction(context, units) {
                Ok(f) => Ok(VarValue::Faction(f)),
                Err(e) => Err(e),
            },
            Expression::Context(var) => get_context_var(context, units, *var),
            Expression::Index => get_context_var(context, units, VarName::Index),
            Expression::StringInt(x) => match x.get_value(context, units) {
                Ok(VarValue::Int(i)) => Ok(VarValue::String(int_to_string(i))),
                Ok(_) => Err(EvalError::WrongKind),
                Err(e) => Err(e),
            },
            Expression::ToInt(x) => match x.get_value(context, units) {
                Ok(VarValue::Int(i)) => Ok(VarValue::Int(i)),
                _ => Ok(VarValue::Int(0)),
            },
            Expression::Even(x) => match x.get_value(context, units) {
                Ok(VarValue::Int(i)) => Ok(VarValue::Bool(i % 2 == 0)),
                Ok(_) => Err(EvalError::WrongKind),
                Err(e) => Err(e),
            },
            Expression::Equals(a, b) => match a.get_value(context, units) {
                Err(e) => Err(e),
                Ok(va) => match b.get_value(context, units) {
                    Err(e) => Err(e),
                    Ok(vb) => Ok(VarValue::Bool(values_equal(&va, &vb))),
                },
            },
            Expression::GreaterThen(..) | Expression::LessThen(..) | Expression::Min(..) | Expression::Max(..)
            | Expression::And(..) | Expression::Or(..) | Expression::If(..)
            | Expression::WithVar(..) => self.get_logic_value(context, units),
            Expression::FactionCount(..) | Expression::AllAllyUnits | Expression::UnitCount(..)
            | Expression::FilterUnits(..) | Expression::StatusCharges(..) | Expression::HasStatus(..)
            | Expression::AllStatusAllies(..) => self.get_unit_value(context, units),
            _ => Err(EvalError::Unsupported),
        }
    }
    /// The value of a comparison, a choice or a logical expression.
    #[verifier::spinoff_prover]
    #[verifier::rlimit(100)]
    fn get_logic_value(&self, context: &EvalContext, units: &Vec<Unit>) -> (res: Result<VarValue, EvalError>)
        requires
            units@.len() <= i32::MAX,
            self@ is GreaterThen || self@ is LessThen || self@ is Min || self@ is Max
                || self@ is And || self@ is Or || self@ is If || self@ is WithVar,
        ensures
            result_view(res) == spec_value(self@, context@, unit_views(units@)),
        decreases self, 1nat,
    {
        match self {
            Expression::GreaterThen(a, b) => {
                let va = a.get_value(context, units);
                let vb = b.get_value(context, units);
                compare_ints(va, vb, 0)
            },
            Expression::LessThen(a, b) => {
                let va = a.get_value(context, units);
                let vb = b.get_value(context, units);
                compare_ints(va, vb, 1)
            },
            Expression::Min(a, b) => {
                let va = a.get_value(context, units);
                let vb = b.get_value(context, units);
                compare_ints(va, vb, 2)
            },
            Expression::Max(a, b) => {
                let va = a.get_value(context, units);
                let vb = b.get_value(context, units);
                compare_ints(va, vb, 3)
            },
            Expression::And(a, b) => match a.get_value(context, units) {
                Ok(VarValue::Bool(false)) => Ok(VarValue::Bool(false)),
                Ok(VarValue::Bool(true)) => match b.get_value(context, units) {
                    Ok(VarValue::Bool(y)) => Ok(VarValue::Bool(y)),
                    Ok(_) => Err(EvalError::WrongKind),
                    Err(e) => Err(e),
                },
                Ok(_) => Err(EvalError::WrongKind),
                Err(e) => Err(e),
            },
            Expression::Or(a, b) => match a.get_value(context, units) {
                Ok(VarValue::Bool(true)) => Ok(VarValue::Bool(true)),
                Ok(VarValue::Bool(false)) => match b.get_value(context, units) {
                    Ok(VarValue::Bool(y)) => Ok(VarValue::Bool(y)),
                    Ok(_) => Err(EvalError::WrongKind),
                    Err(e) => Err(e),
                },
                Ok(_) => Err(EvalError::WrongKind),
                Err(e) => Err(e),
            },
            Expression::If(cond, th, el) => match cond.get_value(context, units) {
                Ok(VarValue::Bool(true)) => th.get_value(context, units),
                Ok(VarValue::Bool(false)) => el.get_value(context, units),
                Ok(_) => Err(EvalError::WrongKind),
                Err(e) => Err(e),
            },
            Expression::WithVar(var, value, body) => match value.get_value(context, units) {
                Ok(v) => {
                    let mut vars = context.vars.clone();
                    vars.set(*var, v);
                    let inner = EvalContext {
                        owner: context.owner,
                        caster: context.caster,
                        target: context.target,
                        status: context.status,
                        vars,
                    };
                    body.get_value(&inner, units)
                },
                Err(e) => Err(e),
            },
            _ => vstd::pervasive::unreached(),
        }
    }

    /// The value of an expression about the units on the field.
    #[verifier::spinoff_prover]
    #[verifier::rlimit(100)]
    fn get_unit_value(&self, context: &EvalContext, units: &Vec<Unit>) -> (res: Result<VarValue, EvalError>)
        requires
            units@.len() <= i32::MAX,
            self@ is FactionCount || self@ is AllAllyUnits || self@ is UnitCount || self@ is FilterUnits
                || self@ is StatusCharges || self@ is HasStatus || self@ is AllStatusAllies,
        ensures
            result_view(res) == spec_value(self@, context@, unit_views(units@)),
        decreases self, 1nat,
    {
        match self {
            Expression::FactionCount(f) => match f.get_value(context, units) {
                Ok(VarValue::Faction(fa)) => {
                    let n = count_faction(units, fa);
                    Ok(VarValue::Int(n as i32))
                },
                Ok(_) => Err(EvalError::WrongKind),
                Err(e) => Err(e),
            },
            Expression::AllAllyUnits => match get_owner_faction(context, units) {
                Ok(f) => Ok(VarValue::EntityList(ids_of_faction(units, f))),
                Err(e) => Err(e),
            },
            Expression::UnitCount(cond) => match get_context_var(context, units, VarName::Faction) {
                Ok(VarValue::Faction(f)) => match count_units_where(cond, units, f) {
                    Ok(n) => Ok(VarValue::Int(n as i32)),
                    Err(e) => Err(e),
                },
                Ok(_) => Err(EvalError::WrongKind),
                Err(e) => Err(e),
            },
            Expression::FilterUnits(cond) => match get_owner_faction(context, units) {
                Ok(f) => Ok(VarValue::EntityList(units_where(cond, units, f))),
                Err(e) => Err(e),
            },
            Expression::StatusCharges(name) => match name.get_value(context, units) {
                Ok(VarValue::String(n)) => get_status_charges(context, units, &n),
                Ok(_) => Err(EvalError::WrongKind),
                Err(e) => Err(e),
            },
            Expression::HasStatus(name) => match get_status_charges(context, units, name) {
                Ok(VarValue::Int(n)) => Ok(VarValue::Bool(n > 0)),
                Ok(_) => Err(EvalError::WrongKind),
                Err(e) => Err(e),
            },
            Expression::AllStatusAllies(name) => match get_owner_faction(context, units) {
                Ok(f) => Ok(VarValue::EntityList(ids_with_status(units, f, name))),
                Err(e) => Err(e),
            },
            _ => vstd::pervasive::unreached(),
        }
    }
}

/// How many units of the faction `cond` holds for, each evaluated for
/// itself (see [`count_where`]).
fn count_units_where(cond: &Expression, units: &Vec<Unit>, f: Faction) -> (res: Result<usize, EvalError>)
    requires
        units@.len() <= i32::MAX,
    ensures
        match res {
            Ok(n) => count_where(cond@, unit_views(units@), f, units@.len() as int) == Ok::<nat, EvalError>(n as nat)
                && n <= units@.len(),
            Err(e) => count_where(cond@, unit_views(units@), f, units@.len() as int) == Err::<nat, EvalError>(e),
        },
    decreases cond, 3nat + units@.len(),
{
    let ghost uv = unit_views(units@);
    let mut n: usize = 0;
    let mut i: usize = 0;
    while i < units.len()
        invariant
            i <= units@.len(),
            units@.len() <= i32::MAX,
            uv == unit_views(units@),
            uv.len() == units@.len(),
            n <= i,
            count_where(cond@, uv, f, i as int) == Ok::<nat, EvalError>(n as nat),
        decreases units.len() - i,
    {
        assert(uv[i as int] == units@[i as int]@);
        if units[i].faction == f {
            let c = EvalContext::from_owner(units[i].id);
            match cond.get_value(&c, units) {
                Ok(VarValue::Bool(b)) => {
                    if b {
                        n = n + 1;
                    }
                },
                Ok(_) => {
                    proof {
                        lemma_count_error_stays(cond@, uv, f, i + 1, uv.len() as int);
                    }
                    return Err(EvalError::WrongKind);
                },
                Err(e) => {
                    proof {
                        lemma_count_error_stays(cond@, uv, f, i + 1, uv.len() as int);
                    }
                    return Err(e);
                },
            }
        }
        i = i + 1;
    }
    Ok(n)
}

/// Once the count meets an error, it keeps it.
proof fn lemma_count_error_stays(cond: ExpressionView, units: Seq<UnitView>, f: Faction, k: int, m: int)
    requires
        0 <= k <= m,
        count_where(cond, units, f, k) is Err,
    ensures
        count_where(cond, units, f, m) == count_where(cond, units, f, k),
    decreases m - k,
{
    if m > k {
        lemma_count_error_stays(cond, units, f, k, m - 1);
    }
}

/// The ids of the units of the faction that `cond` holds for, each
/// evaluated for itself (see [`filter_where`]).
fn units_where(cond: &Expression, units: &Vec<Unit>, f: Faction) -> (res: Vec<u64>)
    requires
        units@.len() <= i32::MAX,
    ensures
        res@ == filter_where(cond@, unit_views(units@), f, units@.len() as int),
    decreases cond, 3nat + units@.len(),
{
    let ghost uv = unit_views(units@);
    let mut out: Vec<u64> = Vec::new();
    let mut i: usize = 0;
    while i < units.len()
        invariant
            i <= units@.len(),
            units@.len() <= i32::MAX,
            uv == unit_views(units@),
            uv.len() == units@.len(),
            out@ == filter_where(cond@, uv, f, i as int),
        decreases units.len() - i,
    {
        assert(uv[i as int] == units@[i as int]@);
        if units[i].faction == f {
            let c = EvalContext::from_owner(units[i].id);
            let holds = match cond.get_value(&c, units) {
                Ok(VarValue::Bool(b)) => b,
                _ => false,
            };
            if holds {
                out.push(units[i].id);
            }
        }
        i = i + 1;
    }
    out
}


/// A choice takes its first branch exactly when its condition is true and
/// its second exactly when it is false: the value of `If(cond, th, el)` is
/// the value of `th` when `cond` is true and that of `el` when it is false,
/// whatever the branches are; a condition that fails makes the choice fail
/// the same way.
pub proof fn law_if_branches(cond: ExpressionView, th: ExpressionView, el: ExpressionView, c: EvalContextView, units: Seq<UnitView>)
    ensures
        spec_value(cond, c, units) == Ok::<VarValueView, EvalError>(VarValueView::Bool(true))
            ==> spec_value(ExpressionView::If(Box::new(cond), Box::new(th), Box::new(el)), c, units) == spec_value(th, c, units),
        spec_value(cond, c, units) == Ok::<VarValueView, EvalError>(VarValueView::Bool(false))
            ==> spec_value(ExpressionView::If(Box::new(cond), Box::new(th), Box::new(el)), c, units) == spec_value(el, c, units),
        spec_value(cond, c, units) is Err
            ==> spec_value(ExpressionView::If(Box::new(cond), Box::new(th), Box::new(el)), c, units) == spec_value(cond, c, units),
{
}

/// Conjunction and disjunction follow their truth tables on true and
/// false operands: `And` is true exactly when both are, `Or` exactly when
/// either is; a false first operand decides `And` and a true one decides
/// `Or` whatever the second operand is.
pub proof fn law_and_or(a: ExpressionView, b: ExpressionView, c: EvalContextView, units: Seq<UnitView>, x: bool, y: bool)
    ensures
        spec_value(a, c, units) == Ok::<VarValueView, EvalError>(VarValueView::Bool(x))
            && spec_value(b, c, units) == Ok::<VarValueView, EvalError>(VarValueView::Bool(y)) ==> {
            &&& spec_value(ExpressionView::And(Box::new(a), Box::new(b)), c, units) == Ok::<VarValueView, EvalError>(VarValueView::Bool(x && y))
            &&& spec_value(ExpressionView::Or(Box::new(a), Box::new(b)), c, units) == Ok::<VarValueView, EvalError>(VarValueView::Bool(x || y))
        },
        spec_value(a, c, units) == Ok::<VarValueView, EvalError>(VarValueView::Bool(false))
            ==> spec_value(ExpressionView::And(Box::new(a), Box::new(b)), c, units) == Ok::<VarValueView, EvalError>(VarValueView::Bool(false)),
        spec_value(a, c, units) == Ok::<VarValueView, EvalError>(VarValueView::Bool(true))
            ==> spec_value(ExpressionView::Or(Box::new(a), Box::new(b)), c, units) == Ok::<VarValueView, EvalError>(VarValueView::Bool(true)),
{
}

/// An expression equals itself: `Equals(a, a)` is true whenever `a` has a
/// value; and `Equals` is symmetric.
pub proof fn law_equals(a: ExpressionView, b: ExpressionView, c: EvalContextView, units: Seq<UnitView>)
    ensures
        spec_value(a, c, units) is Ok ==> spec_value(ExpressionView::Equals(Box::new(a), Box::new(a)), c, units)
            == Ok::<VarValueView, EvalError>(VarValueView::Bool(true)),
        spec_value(a, c, units) is Ok && spec_value(b, c, units) is Ok
            ==> spec_value(ExpressionView::Equals(Box::new(a), Box::new(b)), c, units)
                == spec_value(ExpressionView::Equals(Box::new(b), Box::new(a)), c, units),
{
}

/// On integers, the smaller of two values is no larger than either and is
/// one of them, the larger likewise the other way; `GreaterThen` and
/// `LessThen` tell which is larger, and swapping the operands swaps them.
pub proof fn law_compare_ints(a: ExpressionView, b: ExpressionView, c: EvalContextView, units: Seq<UnitView>, x: i32, y: i32)
    requires
        spec_value(a, c, units) == Ok::<VarValueView, EvalError>(VarValueView::Int(x)),
        spec_value(b, c, units) == Ok::<VarValueView, EvalError>(VarValueView::Int(y)),
    ensures
        ({
            let lo = spec_value(ExpressionView::Min(Box::new(a), Box::new(b)), c, units);
            let hi = spec_value(ExpressionView::Max(Box::new(a), Box::new(b)), c, units);
            &&& lo matches Ok(VarValueView::Int(m)) && m <= x && m <= y && (m == x || m == y)
            &&& hi matches Ok(VarValueView::Int(m)) && m >= x && m >= y && (m == x || m == y)
        }),
        spec_value(ExpressionView::GreaterThen(Box::new(a), Box::new(b)), c, units) == Ok::<VarValueView, EvalError>(VarValueView::Bool(x > y)),
        spec_value(ExpressionView::LessThen(Box::new(a), Box::new(b)), c, units) == Ok::<VarValueView, EvalError>(VarValueView::Bool(x < y)),
        spec_value(ExpressionView::LessThen(Box::new(b), Box::new(a)), c, units)
            == spec_value(ExpressionView::GreaterThen(Box::new(a), Box::new(b)), c, units),
{
}

/// Binding a variable makes it readable in the body: `WithVar(var, value,
/// Context(var))` has the value of `value`.
pub proof fn law_with_var(var: VarName, value: ExpressionView, c: EvalContextView, units: Seq<UnitView>)
    ensures
        spec_value(ExpressionView::WithVar(var, Box::new(value), Box::new(ExpressionView::Context(var))), c, units)
            == spec_value(value, c, units),
{
    match spec_value(value, c, units) {
        Ok(v) => {
            let inner = EvalContextView { vars: c.vars.insert(var, v), ..c };
            assert(spec_value(ExpressionView::Context(var), inner, units) == Ok::<VarValueView, EvalError>(v));
        },
        Err(_) => {},
    }
}

/// A unit has a status exactly when its charges of it are above zero.
pub proof fn law_has_status(name: Seq<char>, c: EvalContextView, units: Seq<UnitView>, n: i32)
    requires
        spec_value(ExpressionView::StatusCharges(Box::new(ExpressionView::String(name))), c, units)
            == Ok::<VarValueView, EvalError>(VarValueView::Int(n)),
    ensures
        spec_value(ExpressionView::HasStatus(name), c, units) == Ok::<VarValueView, EvalError>(VarValueView::Bool(n > 0)),
{
    assert(spec_value(ExpressionView::String(name), c, units) == Ok::<VarValueView, EvalError>(VarValueView::String(name)));
}


/// Every unit counted or listed by side is of that side, and none is
/// missed: the ids listed for a side are exactly the ids of its units, in
/// field order, and there are as many as the side's count.
pub proof fn law_faction_units(units: Seq<UnitView>, f: Faction, k: int)
    requires
        0 <= k <= units.len(),
    ensures
        faction_ids(units, f, k).len() == faction_count(units, f, k),
        forall|i: int| 0 <= i < faction_ids(units, f, k).len()
            ==> exists|j: int| 0 <= j < k && units[j].faction == f && #[trigger] faction_ids(units, f, k)[i] == units[j].id,
        forall|j: int| 0 <= j < k && units[j].faction == f ==> faction_ids(units, f, k).contains(#[trigger] units[j].id),
        faction_count(units, f, k) <= k,
    decreases k,
{
    if k > 0 {
        law_faction_units(units, f, k - 1);
        let prev = faction_ids(units, f, k - 1);
        let cur = faction_ids(units, f, k);
        assert forall|i: int| 0 <= i < cur.len()
            implies exists|j: int| 0 <= j < k && units[j].faction == f && #[trigger] cur[i] == units[j].id by {
            if i < prev.len() {
                assert(cur[i] == prev[i]);
            } else {
                assert(cur[i] == units[k - 1].id);
            }
        }
        assert forall|j: int| 0 <= j < k && units[j].faction == f implies cur.contains(#[trigger] units[j].id) by {
            if j < k - 1 {
                let i = choose|i: int| 0 <= i < prev.len() && prev[i] == units[j].id;
                assert(cur[i] == units[j].id);
            } else {
                assert(cur[cur.len() - 1] == units[j].id);
            }
        }
    }
}

/// A condition counted over a side's units counts no more units than the
/// side has; and a unit listed by a filter is a unit of the side for which
/// the condition is true.
pub proof fn law_counted_and_filtered(cond: ExpressionView, units: Seq<UnitView>, f: Faction, k: int)
    requires
        0 <= k <= units.len(),
    ensures
        count_where(cond, units, f, k) matches Ok(n) ==> n <= faction_count(units, f, k),
        forall|i: int| 0 <= i < filter_where(cond, units, f, k).len() ==> exists|j: int| {
            &&& 0 <= j < k
            &&& units[j].faction == f
            &&& #[trigger] filter_where(cond, units, f, k)[i] == units[j].id
            &&& spec_value(cond, owner_context(units[j].id), units) == Ok::<VarValueView, EvalError>(VarValueView::Bool(true))
        },
        filter_where(cond, units, f, k).len() <= faction_count(units, f, k),
    decreases k,
{
    if k > 0 {
        law_counted_and_filtered(cond, units, f, k - 1);
        let prev = filter_where(cond, units, f, k - 1);
        let cur = filter_where(cond, units, f, k);
        assert forall|i: int| 0 <= i < cur.len() implies exists|j: int| {
            &&& 0 <= j < k
            &&& units[j].faction == f
            &&& #[trigger] cur[i] == units[j].id
            &&& spec_value(cond, owner_context(units[j].id), units) == Ok::<VarValueView, EvalError>(VarValueView::Bool(true))
        } by {
            if i < prev.len() {
                assert(cur[i] == prev[i]);
            } else {
                assert(cur[i] == units[k - 1].id);
            }
        }
    }
}

/// Literals are their own values, and what reads the clock, the music, a
/// random draw or a number with a fraction is left to the caller.
pub proof fn law_literals(x: i32, b: bool, s: Seq<char>, f: Faction, bits: u32, c: EvalContextView, units: Seq<UnitView>)
    ensures
        spec_value(ExpressionView::Int(x), c, units) == Ok::<VarValueView, EvalError>(VarValueView::Int(x)),
        spec_value(ExpressionView::Bool(b), c, units) == Ok::<VarValueView, EvalError>(VarValueView::Bool(b)),
        spec_value(ExpressionView::String(s), c, units) == Ok::<VarValueView, EvalError>(VarValueView::String(s)),
        spec_value(ExpressionView::Faction(f), c, units) == Ok::<VarValueView, EvalError>(VarValueView::Faction(f)),
        spec_value(ExpressionView::Zero, c, units) == Ok::<VarValueView, EvalError>(VarValueView::Int(0)),
        spec_value(ExpressionView::Owner, c, units) == Ok::<VarValueView, EvalError>(VarValueView::Entity(c.owner)),
        spec_value(ExpressionView::Float(bits), c, units) == Err::<VarValueView, EvalError>(EvalError::Unsupported),
        spec_value(ExpressionView::GameTime, c, units) == Err::<VarValueView, EvalError>(EvalError::Unsupported),
        spec_value(ExpressionView::Beat, c, units) == Err::<VarValueView, EvalError>(EvalError::Unsupported),
{
}

} // verus!
