use vstd::prelude::*;

pub mod effects;
pub mod model;
pub mod deaths;
pub mod statuses;
pub mod process;
pub mod spawn;

use crate::faction::Faction;
use crate::vars::VarState;
use effects::{spec_push_back, spec_push_front, EffectContext, EffectContextView, EffectOrchestrator, QueuedEffectView};
use model::{AttachedStatus, AttachedStatusView, EffectId, StatusAction, StatusTrigger, StatusTriggerView, TargetFilter, Unit};

verus! {

/// The battle's units.
#[derive(Debug)]
pub struct Model {
    /// Units on the field, in the order they came.
    pub units: Vec<Unit>,
    /// Units that died, as they were when they died, one per id.
    pub dead_units: Vec<Unit>,
    /// Battle-wide variables every effect sees unless its context sets them.
    pub vars: VarState,
    /// Units still coming onto the field, in the order they were spawned.
    pub spawning_units: Vec<Unit>,
    /// The id the next spawned unit gets.
    pub next_id: u64,
}

/// The battle: its units and the queues of effects waiting to run.
#[derive(Debug)]
pub struct Logic {
    pub model: Model,
    pub effects: EffectOrchestrator<EffectId>,
}

/// Which triggers of a status fire.
#[derive(Debug)]
pub enum TriggerQuery {
    Init,
    Death,
    Spawn,
    Break,
    /// A status of this name was removed from the status's own unit.
    SelfDetectRemove(String),
    /// A status of this name was removed from a unit of the first faction;
    /// the status's unit is of the second.
    DetectRemove(String, Faction, Faction),
}

/// The mathematical value of a [`TriggerQuery`].
pub ghost enum TriggerQueryView {
    Init,
    Death,
    Spawn,
    Break,
    SelfDetectRemove(Seq<char>),
    DetectRemove(Seq<char>, Faction, Faction),
}

impl View for TriggerQuery {
    type V = TriggerQueryView;

    open spec fn view(&self) -> TriggerQueryView {
        match self {
            TriggerQuery::Init => TriggerQueryView::Init,
            TriggerQuery::Death => TriggerQueryView::Death,
            TriggerQuery::Spawn => TriggerQueryView::Spawn,
            TriggerQuery::Break => TriggerQueryView::Break,
            TriggerQuery::SelfDetectRemove(n) => TriggerQueryView::SelfDetectRemove(n@),
            TriggerQuery::DetectRemove(n, a, b) => TriggerQueryView::DetectRemove(n@, *a, *b),
        }
    }
}

/// Whether a trigger fires for the query.
pub open spec fn trigger_fires(t: StatusTriggerView, q: TriggerQueryView) -> bool {
    match q {
        TriggerQueryView::Init => t is Init,
        TriggerQueryView::Death => t is Death,
        TriggerQueryView::Spawn => t is Spawn,
        TriggerQueryView::Break => t is Break,
        TriggerQueryView::SelfDetectRemove(n) => match t {
            StatusTriggerView::SelfDetectAttach { status_name, status_action } =>
                status_name == n && status_action == StatusAction::Remove,
            _ => false,
        },
        TriggerQueryView::DetectRemove(n, a, b) => match t {
            StatusTriggerView::DetectAttach { status_name, filter, status_action } =>
                status_name == n && status_action == StatusAction::Remove && filter.spec_matches(a, b),
            _ => false,
        },
    }
}

/// Filters pick units by side: seen from any side `b`, allies are the units
/// of that side, enemies the units of any other side, and all are all.
/// So a watcher of removals with the allies filter fires exactly when the
/// status leaves a unit of its own side, with the enemies filter exactly
/// when it leaves a unit of another side, and with no filter always.
pub proof fn law_target_filter(name: Seq<char>, a: Faction, b: Faction)
    ensures
        TargetFilter::Allies.spec_matches(a, b) == (a == b),
        TargetFilter::Enemies.spec_matches(a, b) == (a != b),
        TargetFilter::All.spec_matches(a, b),
        trigger_fires(
            StatusTriggerView::DetectAttach { status_name: name, filter: TargetFilter::Allies, status_action: StatusAction::Remove },
            TriggerQueryView::DetectRemove(name, a, b),
        ) == (a == b),
        trigger_fires(
            StatusTriggerView::DetectAttach { status_name: name, filter: TargetFilter::Enemies, status_action: StatusAction::Remove },
            TriggerQueryView::DetectRemove(name, a, b),
        ) == (a != b),
        trigger_fires(
            StatusTriggerView::DetectAttach { status_name: name, filter: TargetFilter::All, status_action: StatusAction::Remove },
            TriggerQueryView::DetectRemove(name, a, b),
        ),
{
}

/// The context of an effect fired by status `st`.
pub open spec fn fired_context(st: AttachedStatusView, owner: u64, creator: u64, target: u64) -> EffectContextView {
    EffectContextView {
        queue_id: None,
        owner,
        creator,
        target,
        vars: st.vars,
        status_id: Some(st.id),
        color: st.status.color,
    }
}

/// The effects status `st` fires for the query, in trigger order, each with
/// its context.
pub open spec fn fires(st: AttachedStatusView, q: TriggerQueryView, owner: u64, creator: u64, target: u64) -> Seq<QueuedEffectView<EffectId>> {
    st.status.triggers.filter(|p: (StatusTriggerView, EffectId)| trigger_fires(p.0, q)).map_values(
        |p: (StatusTriggerView, EffectId)| QueuedEffectView { effect: p.1, context: fired_context(st, owner, creator, target) },
    )
}

/// The queues after each effect is put, in order, at the front or at the
/// back of its queue.
pub open spec fn push_all(v: Seq<(Seq<char>, Seq<QueuedEffectView<EffectId>>)>, xs: Seq<QueuedEffectView<EffectId>>, front: bool) -> Seq<(Seq<char>, Seq<QueuedEffectView<EffectId>>)>
    decreases xs.len(),
{
    if xs.len() == 0 {
        v
    } else {
        let v1 = push_all(v, xs.drop_last(), front);
        if front {
            spec_push_front(v1, xs.last())
        } else {
            spec_push_back(v1, xs.last())
        }
    }
}

/// Pushing two lists in turn is pushing their concatenation.
pub proof fn lemma_push_all_concat(v: Seq<(Seq<char>, Seq<QueuedEffectView<EffectId>>)>, a: Seq<QueuedEffectView<EffectId>>, b: Seq<QueuedEffectView<EffectId>>, front: bool)
    ensures
        push_all(v, a + b, front) == push_all(push_all(v, a, front), b, front),
    decreases b.len(),
{
    if b.len() == 0 {
        assert(a + b =~= a);
    } else {
        lemma_push_all_concat(v, a, b.drop_last(), front);
        assert((a + b).drop_last() =~= a + b.drop_last());
    }
}

/// Whether the query fires the trigger.
fn query_fires(t: &StatusTrigger, q: &TriggerQuery) -> (res: bool)
    ensures
        res == trigger_fires(t@, q@),
{
    match q {
        TriggerQuery::Init => match t {
            StatusTrigger::Init => true,
            _ => false,
        },
        TriggerQuery::Death => match t {
            StatusTrigger::Death => true,
            _ => false,
        },
        TriggerQuery::Spawn => match t {
            StatusTrigger::Spawn => true,
            _ => false,
        },
        TriggerQuery::Break => match t {
            StatusTrigger::Break => true,
            _ => false,
        },
        TriggerQuery::SelfDetectRemove(n) => match t {
            StatusTrigger::SelfDetectAttach { status_name, status_action } =>
                *status_name == *n && *status_action == StatusAction::Remove,
            _ => false,
        },
        TriggerQuery::DetectRemove(n, a, b) => match t {
            StatusTrigger::DetectAttach { status_name, filter, status_action } =>
                *status_name == *n && *status_action == StatusAction::Remove && filter.matches(*a, *b),
            _ => false,
        },
    }
}

/// Queues the effects that status `st` fires for the query, with the given
/// owner, creator and target, each at the front or at the back of its queue.
pub fn fire_status(effects: &mut EffectOrchestrator<EffectId>, st: &AttachedStatus, q: &TriggerQuery, owner: u64, creator: u64, target: u64, front: bool)
    ensures
        final(effects).queues() == push_all(old(effects).queues(), fires(st@, q@, owner, creator, target), front),
{
    let ghost trig = st@.status.triggers;
    let ghost pred = |p: (StatusTriggerView, EffectId)| trigger_fires(p.0, q@);
    let ghost mk = |p: (StatusTriggerView, EffectId)| QueuedEffectView { effect: p.1, context: fired_context(st@, owner, creator, target) };
    let mut j: usize = 0;
    while j < st.status.triggers.len()
        invariant
            j <= st.status.triggers@.len(),
            trig == st@.status.triggers,
            trig.len() == st.status.triggers@.len(),
            pred == (|p: (StatusTriggerView, EffectId)| trigger_fires(p.0, q@)),
            mk == (|p: (StatusTriggerView, EffectId)| QueuedEffectView { effect: p.1, context: fired_context(st@, owner, creator, target) }),
            effects.queues() == push_all(old(effects).queues(), trig.subrange(0, j as int).filter(pred).map_values(mk), front),
        decreases st.status.triggers.len() - j,
    {
        proof {
            reveal_with_fuel(Seq::<_>::filter, 1);
            assert(trig.subrange(0, j as int + 1).drop_last() =~= trig.subrange(0, j as int));
        }
        let (t, e) = &st.status.triggers[j];
        if query_fires(t, q) {
            let ctx = EffectContext {
                queue_id: None,
                owner,
                creator,
                target,
                vars: st.vars.clone(),
                status_id: Some(st.id),
                color: st.status.color,
            };
            proof {
                let f = trig.subrange(0, j as int).filter(pred);
                assert(trig[j as int] == (t@, *e));
                assert(f.push(trig[j as int]).map_values(mk) =~= f.map_values(mk).push(mk(trig[j as int])));
                assert(f.map_values(mk).push(mk(trig[j as int])).drop_last() =~= f.map_values(mk));
            }
            if front {
                effects.push_front(ctx, *e);
            } else {
                effects.push_back(ctx, *e);
            }
        }
        j = j + 1;
    }
    assert(trig.subrange(0, trig.len() as int) =~= trig);
}

} // verus!
