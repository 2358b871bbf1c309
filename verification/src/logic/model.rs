use vstd::prelude::*;

use crate::faction::Faction;
use crate::vars::{VarName, VarState, VarValueView};

verus! {

/// Effects are referred to by their index in the game's effect table.
pub type EffectId = u64;

/// Whether a status is being attached or removed.
#[derive(Debug, Clone, Copy, PartialEq, Eq, Structural)]
pub enum StatusAction {
    Add,
    Remove,
}

/// Which units, relative to a reference unit, an effect applies to.
#[derive(Debug, Clone, Copy, PartialEq, Eq, Structural)]
pub enum TargetFilter {
    Allies,
    Enemies,
    All,
}

impl TargetFilter {
    /// Whether a unit of faction `a` passes the filter seen from faction `b`.
    pub open spec fn spec_matches(self, a: Faction, b: Faction) -> bool {
        match self {
            TargetFilter::Allies => a == b,
            TargetFilter::Enemies => a != b,
            TargetFilter::All => true,
        }
    }

    /// Whether a unit of faction `a` passes the filter seen from faction `b`.
    pub fn matches(&self, a: Faction, b: Faction) -> (res: bool)
        ensures
            res == self.spec_matches(a, b),
    {
        match self {
            TargetFilter::Allies => a == b,
            TargetFilter::Enemies => a != b,
            TargetFilter::All => true,
        }
    }
}

/// The event a status reacts to.
#[derive(Debug)]
pub enum StatusTrigger {
    /// The status has just been attached.
    Init,
    /// The status's unit died.
    Death,
    /// The status's unit came onto the field.
    Spawn,
    /// The status ran out.
    Break,
    /// A status of the given name was attached to or removed from this unit.
    SelfDetectAttach { status_name: String, status_action: StatusAction },
    /// A status of the given name was attached to or removed from another
    /// unit that passes the filter.
    DetectAttach { status_name: String, filter: TargetFilter, status_action: StatusAction },
}

/// The mathematical value of a [`StatusTrigger`].
pub ghost enum StatusTriggerView {
    Init,
    Death,
    Spawn,
    Break,
    SelfDetectAttach { status_name: Seq<char>, status_action: StatusAction },
    DetectAttach { status_name: Seq<char>, filter: TargetFilter, status_action: StatusAction },
}

impl View for StatusTrigger {
    type V = StatusTriggerView;

    open spec fn view(&self) -> StatusTriggerView {
        match self {
            StatusTrigger::Init => StatusTriggerView::Init,
            StatusTrigger::Death => StatusTriggerView::Death,
            StatusTrigger::Spawn => StatusTriggerView::Spawn,
            StatusTrigger::Break => StatusTriggerView::Break,
            StatusTrigger::SelfDetectAttach { status_name, status_action } =>
                StatusTriggerView::SelfDetectAttach { status_name: status_name@, status_action: *status_action },
            StatusTrigger::DetectAttach { status_name, filter, status_action } =>
                StatusTriggerView::DetectAttach { status_name: status_name@, filter: *filter, status_action: *status_action },
        }
    }
}

impl StatusTrigger {
    /// An exact copy of the trigger.
    pub fn clone(&self) -> (res: StatusTrigger)
        ensures
            res@ == self@,
    {
        match self {
            StatusTrigger::Init => StatusTrigger::Init,
            StatusTrigger::Death => StatusTrigger::Death,
            StatusTrigger::Spawn => StatusTrigger::Spawn,
            StatusTrigger::Break => StatusTrigger::Break,
            StatusTrigger::SelfDetectAttach { status_name, status_action } =>
                StatusTrigger::SelfDetectAttach { status_name: status_name.clone(), status_action: *status_action },
            StatusTrigger::DetectAttach { status_name, filter, status_action } =>
                StatusTrigger::DetectAttach { status_name: status_name.clone(), filter: *filter, status_action: *status_action },
        }
    }
}

/// A status as defined: its name, its place in processing order, the flags
/// it gives its unit, its colour and its triggers with their effects.
#[derive(Debug)]
pub struct StatusDef {
    pub name: String,
    pub order: i32,
    pub flags: Vec<u32>,
    /// Colour as 0xRRGGBBAA.
    pub color: u32,
    pub triggers: Vec<(StatusTrigger, EffectId)>,
}

/// The mathematical value of a [`StatusDef`].
pub ghost struct StatusDefView {
    pub name: Seq<char>,
    pub order: i32,
    pub flags: Seq<u32>,
    pub color: u32,
    pub triggers: Seq<(StatusTriggerView, EffectId)>,
}

/// The values of a list of triggers.
pub open spec fn triggers_view(s: Seq<(StatusTrigger, EffectId)>) -> Seq<(StatusTriggerView, EffectId)> {
    s.map_values(|p: (StatusTrigger, EffectId)| (p.0@, p.1))
}

impl View for StatusDef {
    type V = StatusDefView;

    open spec fn view(&self) -> StatusDefView {
        StatusDefView {
            name: self.name@,
            order: self.order,
            flags: self.flags@,
            color: self.color,
            triggers: triggers_view(self.triggers@),
        }
    }
}

/// Copies a list of numbers.
pub fn clone_u32s(v: &Vec<u32>) -> (res: Vec<u32>)
    ensures
        res@ == v@,
{
    let mut res: Vec<u32> = Vec::new();
    let mut i: usize = 0;
    while i < v.len()
        invariant
            i <= v@.len(),
            res@ == v@.subrange(0, i as int),
        decreases v.len() - i,
    {
        res.push(v[i]);
        i = i + 1;
        assert(res@ =~= v@.subrange(0, i as int));
    }
    assert(v@.subrange(0, v@.len() as int) =~= v@);
    res
}

impl StatusDef {
    /// An exact copy of the definition.
    pub fn clone(&self) -> (res: StatusDef)
        ensures
            res@ == self@,
    {
        let mut triggers: Vec<(StatusTrigger, EffectId)> = Vec::new();
        let mut i: usize = 0;
        while i < self.triggers.len()
            invariant
                i <= self.triggers@.len(),
                triggers@.len() == i,
                forall|j: int| 0 <= j < i ==> (#[trigger] triggers@[j]).0@ == self.triggers@[j].0@
                    && triggers@[j].1 == self.triggers@[j].1,
            decreases self.triggers.len() - i,
        {
            let (t, e) = &self.triggers[i];
            triggers.push((t.clone(), *e));
            i = i + 1;
        }
        assert(triggers_view(triggers@) =~= triggers_view(self.triggers@));
        StatusDef {
            name: self.name.clone(),
            order: self.order,
            flags: clone_u32s(&self.flags),
            color: self.color,
            triggers,
        }
    }
}

/// A status attached to a unit.
#[derive(Debug)]
pub struct AttachedStatus {
    pub id: u64,
    pub owner: u64,
    pub creator: u64,
    /// Turns left, for a status that runs out.
    pub time: Option<u32>,
    pub vars: VarState,
    pub is_inited: bool,
    pub status: StatusDef,
}

/// The mathematical value of an [`AttachedStatus`].
pub ghost struct AttachedStatusView {
    pub id: u64,
    pub owner: u64,
    pub creator: u64,
    pub time: Option<u32>,
    pub vars: Map<VarName, VarValueView>,
    pub is_inited: bool,
    pub status: StatusDefView,
}

impl View for AttachedStatus {
    type V = AttachedStatusView;

    open spec fn view(&self) -> AttachedStatusView {
        AttachedStatusView {
            id: self.id,
            owner: self.owner,
            creator: self.creator,
            time: self.time,
            vars: self.vars@,
            is_inited: self.is_inited,
            status: self.status@,
        }
    }
}

impl AttachedStatus {
    /// An exact copy of the status.
    pub fn clone(&self) -> (res: AttachedStatus)
        ensures
            res@ == self@,
    {
        AttachedStatus {
            id: self.id,
            owner: self.owner,
            creator: self.creator,
            time: self.time,
            vars: self.vars.clone(),
            is_inited: self.is_inited,
            status: self.status.clone(),
        }
    }
}

/// Where a unit stands: its side of the field and its place counted from
/// the middle.
#[derive(Debug, Clone, Copy, PartialEq, Eq, Structural)]
pub struct Position {
    pub side: Faction,
    pub x: i64,
}

/// A unit in battle.
#[derive(Debug)]
pub struct Unit {
    pub id: u64,
    pub faction: Faction,
    pub position: Position,
    /// Health without temporary modifiers; the unit dies at zero or below.
    pub health: i32,
    pub all_statuses: Vec<AttachedStatus>,
    /// Flags its statuses give it.
    pub flags: Vec<u32>,
}

/// The mathematical value of a [`Unit`].
pub ghost struct UnitView {
    pub id: u64,
    pub faction: Faction,
    pub position: Position,
    pub health: i32,
    pub statuses: Seq<AttachedStatusView>,
    pub flags: Seq<u32>,
}

/// The values of a list of statuses.
pub open spec fn statuses_view(s: Seq<AttachedStatus>) -> Seq<AttachedStatusView> {
    s.map_values(|x: AttachedStatus| x@)
}

impl View for Unit {
    type V = UnitView;

    open spec fn view(&self) -> UnitView {
        UnitView {
            id: self.id,
            faction: self.faction,
            position: self.position,
            health: self.health,
            statuses: statuses_view(self.all_statuses@),
            flags: self.flags@,
        }
    }
}

/// The values of a list of units.
pub open spec fn unit_views(s: Seq<Unit>) -> Seq<UnitView> {
    s.map_values(|u: Unit| u@)
}

/// Viewing units commutes with taking the first one away.
pub proof fn lemma_unit_views_remove_first(s: Seq<Unit>)
    requires
        s.len() > 0,
    ensures
        unit_views(s.remove(0)) == unit_views(s).subrange(1, s.len() as int),
        unit_views(s)[0] == s[0]@,
        unit_views(s).len() == s.len(),
{
    assert(unit_views(s.remove(0)) =~= unit_views(s).subrange(1, s.len() as int));
}

/// Viewing units commutes with appending one.
pub proof fn lemma_unit_views_push(s: Seq<Unit>, u: Unit)
    ensures
        unit_views(s.push(u)) == unit_views(s).push(u@),
{
    assert(unit_views(s.push(u)) =~= unit_views(s).push(u@));
}

impl Unit {
    /// An exact copy of the unit.
    pub fn clone(&self) -> (res: Unit)
        ensures
            res@ == self@,
    {
        let mut all_statuses: Vec<AttachedStatus> = Vec::new();
        let mut i: usize = 0;
        while i < self.all_statuses.len()
            invariant
                i <= self.all_statuses@.len(),
                all_statuses@.len() == i,
                forall|j: int| 0 <= j < i ==> (#[trigger] all_statuses@[j])@ == self.all_statuses@[j]@,
            decreases self.all_statuses.len() - i,
        {
            all_statuses.push(self.all_statuses[i].clone());
            i = i + 1;
        }
        assert(statuses_view(all_statuses@) =~= statuses_view(self.all_statuses@));
        Unit {
            id: self.id,
            faction: self.faction,
            position: self.position,
            health: self.health,
            all_statuses,
            flags: clone_u32s(&self.flags),
        }
    }
}

} // verus!
