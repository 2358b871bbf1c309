use arena_of_ideas::logic::effects::{EffectContext, EffectOrchestrator, Who};
use arena_of_ideas::logic::model::{EffectId, Unit};
use arena_of_ideas::logic::process::{EffectStep, MAX_ITERATIONS};
use arena_of_ideas::logic::{Logic, Model};
use arena_of_ideas::vars::{VarName, VarState, VarValue};

fn context(owner: u64, queue: Option<&str>) -> EffectContext {
    EffectContext {
        queue_id: queue.map(|q| q.to_string()),
        owner,
        creator: owner + 100,
        target: owner + 200,
        vars: VarState::new(),
        status_id: None,
        color: 0,
    }
}

fn logic() -> Logic {
    Logic {
        model: Model {
            units: Vec::<Unit>::new(),
            dead_units: Vec::new(),
            vars: VarState::new(),
            spawning_units: Vec::new(),
            next_id: 0,
        },
        effects: EffectOrchestrator::new(),
    }
}

fn int_of(state: &VarState, var: VarName) -> Option<i32> {
    match state.get(var) {
        Some(VarValue::Int(x)) => Some(*x),
        _ => None,
    }
}

#[test]
fn queue_id_is_explicit_queue_or_owner_in_decimal() {
    assert_eq!(context(42, None).get_q_id(), "42");
    assert_eq!(context(0, None).get_q_id(), "0");
    assert_eq!(context(18446744073709551615, None).get_q_id(), "18446744073709551615");
    assert_eq!(context(42, Some("visual")).get_q_id(), "visual");
}

#[test]
fn owners_get_distinct_queues() {
    assert_ne!(context(1, None).get_q_id(), context(10, None).get_q_id());
    assert_ne!(context(12, None).get_q_id(), context(21, None).get_q_id());
}

#[test]
fn get_id_picks_the_named_unit() {
    let c = context(5, None);
    assert_eq!(c.get_id(Who::Owner), 5);
    assert_eq!(c.get_id(Who::Creator), 105);
    assert_eq!(c.get_id(Who::Target), 205);
}

#[test]
fn push_back_is_first_in_first_out() {
    let mut q: EffectOrchestrator<EffectId> = EffectOrchestrator::new();
    q.push_back(context(1, None), 10);
    q.push_back(context(1, None), 11);
    let (name, first) = q.get_next_effect(&vec![]).unwrap();
    assert_eq!(name, "1");
    assert_eq!(first.effect, 10);
    assert_eq!(q.get_next_effect(&vec![]).unwrap().1.effect, 11);
    assert!(q.get_next_effect(&vec![]).is_none());
    assert!(q.is_empty());
}

#[test]
fn push_front_goes_ahead_of_waiting_effects() {
    let mut q: EffectOrchestrator<EffectId> = EffectOrchestrator::new();
    q.push_back(context(1, None), 10);
    q.push_front(context(1, None), 20);
    assert_eq!(q.get_next_effect(&vec![]).unwrap().1.effect, 20);
    assert_eq!(q.get_next_effect(&vec![]).unwrap().1.effect, 10);
}

#[test]
fn held_queue_gives_nothing() {
    let mut q: EffectOrchestrator<EffectId> = EffectOrchestrator::new();
    q.push_back(context(1, None), 10);
    q.push_back(context(2, None), 20);
    let held = vec!["1".to_string()];
    let (name, x) = q.get_next_effect(&held).unwrap();
    assert_eq!(name, "2");
    assert_eq!(x.effect, 20);
    assert!(q.get_next_effect(&held).is_none());
    assert!(!q.is_empty());
    assert_eq!(q.get_next_effect(&vec![]).unwrap().1.effect, 10);
}

#[test]
fn first_opened_queue_goes_first() {
    let mut q: EffectOrchestrator<EffectId> = EffectOrchestrator::new();
    q.push_back(context(7, None), 70);
    q.push_back(context(3, None), 30);
    assert_eq!(q.get_next_effect(&vec![]).unwrap().1.effect, 70);
    assert_eq!(q.get_next_effect(&vec![]).unwrap().1.effect, 30);
}

#[test]
fn empty_orchestrator_is_empty() {
    let mut q: EffectOrchestrator<EffectId> = EffectOrchestrator::new();
    assert!(q.is_empty());
    assert!(q.get_next_effect(&vec![]).is_none());
}

#[test]
fn next_effect_adds_missing_battle_vars() {
    let mut l = logic();
    l.model.vars.set(VarName::Hp, VarValue::Int(5));
    l.model.vars.set(VarName::Atk, VarValue::Int(6));
    let mut c = context(1, None);
    c.vars.set(VarName::Atk, VarValue::Int(1));
    l.effects.push_back(c, 3);
    let (_, x) = l.next_effect(&vec![]).unwrap();
    assert_eq!(int_of(&x.context.vars, VarName::Hp), Some(5));
    assert_eq!(int_of(&x.context.vars, VarName::Atk), Some(1));
    assert!(l.next_effect(&vec![]).is_none());
}

/// Runs a round of effects: each one is recorded and, with `again`, queues
/// a follow-up effect in its context. Returns the effects run and how the
/// round ended.
fn run_round(l: &mut Logic, again: bool) -> (Vec<EffectId>, EffectStep) {
    let mut seen = Vec::new();
    let held: Vec<String> = Vec::new();
    loop {
        match l.process_effects(&held, seen.len()) {
            EffectStep::Run(_, x) => {
                seen.push(x.effect);
                if again {
                    l.effects.push_back(x.context, x.effect + 1);
                }
            }
            end => return (seen, end),
        }
    }
}

#[test]
fn process_effects_runs_every_queued_effect() {
    let mut l = logic();
    l.effects.push_back(context(1, None), 1);
    l.effects.push_back(context(2, None), 2);
    l.effects.push_back(context(1, None), 3);
    let (seen, end) = run_round(&mut l, false);
    assert_eq!(seen, vec![1, 3, 2]);
    assert!(matches!(end, EffectStep::Done));
    assert!(l.effects.is_empty());
}

#[test]
fn process_effects_stops_after_the_limit() {
    let mut l = logic();
    l.effects.push_back(context(1, None), 0);
    let (seen, end) = run_round(&mut l, true);
    assert_eq!(seen.len(), MAX_ITERATIONS + 1);
    assert!(matches!(end, EffectStep::Limit));
    assert!(!l.effects.is_empty());
}

#[test]
fn process_effects_merges_battle_variables() {
    let mut l = logic();
    l.model.vars.set(VarName::Hp, VarValue::Int(7));
    let mut c = context(1, None);
    c.vars.set(VarName::Atk, VarValue::Int(2));
    l.effects.push_back(c, 9);
    match l.process_effects(&Vec::new(), 0) {
        EffectStep::Run(q, x) => {
            assert_eq!(q, "1");
            assert_eq!(x.effect, 9);
            assert_eq!(int_of(&x.context.vars, VarName::Hp), Some(7));
            assert_eq!(int_of(&x.context.vars, VarName::Atk), Some(2));
        }
        _ => panic!("an effect was queued"),
    }
    assert!(matches!(l.process_effects(&Vec::new(), 1), EffectStep::Done));
}

#[test]
fn two_at_the_back_one_at_the_front_come_out_in_order() {
    let mut o: EffectOrchestrator<EffectId> = EffectOrchestrator::new();
    let c = context(3, None);
    o.push_back(context(3, None), 1);
    o.push_back(context(3, None), 2);
    o.push_front(context(3, None), 0);
    let held: Vec<String> = Vec::new();
    for expected in [0u64, 1, 2] {
        let (q, x) = o.get_next_effect(&held).unwrap();
        assert_eq!(q, c.get_q_id());
        assert_eq!(x.effect, expected);
        assert_eq!(x.context.owner, 3);
    }
    assert!(o.get_next_effect(&held).is_none());
}
