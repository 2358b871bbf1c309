use vstd::prelude::*;

use crate::logic::effects::{available, first_available, names_of, queue_names_distinct, take_at, EffectContextView, QueuedEffect, QueuedEffectView};
use crate::vars::{VarName, VarValueView};
use crate::logic::model::EffectId;
use crate::logic::Logic;

verus! {

/// How many effects one call of [`Logic::process_effects`] runs at most
/// before it stops; one more is run before the count is checked.
pub const MAX_ITERATIONS: usize = 1000;

/// What processing the battle's effects calls for next (see
/// [`Logic::process_effects`]).
#[derive(Debug)]
pub enum EffectStep {
    /// Carry out this effect, taken from the named queue, then ask again
    /// with one more effect counted as run.
    Run(String, QueuedEffect<EffectId>),
    /// No queue can give an effect with the held-back queues: this round of
    /// processing is over.
    Done,
    /// More than [`MAX_ITERATIONS`] effects ran this round: it stops here.
    Limit,
}

/// The queues of effects, as [`Logic::next_effect`] sees them.
pub type Queues = Seq<(Seq<char>, Seq<QueuedEffectView<EffectId>>)>;

/// Whether `x` is the effect [`Logic::next_effect`] takes from the queues
/// `v` of a battle whose variables are `vars`, with the queues named in
/// `held` held back: the front effect of the first queue that is neither
/// empty nor held, its context given the battle's variables wherever it does
/// not set them itself.
pub open spec fn next_taken(v: Queues, vars: Map<VarName, VarValueView>, held: Seq<Seq<char>>, x: QueuedEffectView<EffectId>) -> bool {
    exists|i: int| {
        &&& #[trigger] available(v, held, i)
        &&& forall|j: int| 0 <= j < i ==> !#[trigger] available(v, held, j)
        &&& x == QueuedEffectView {
            context: EffectContextView { vars: vars.union_prefer_right(v[i].1[0].context.vars), ..v[i].1[0].context },
            ..v[i].1[0]
        }
    }
}

impl Logic {
    /// Takes the next effect to run: the front effect of the first queue that
    /// is neither empty nor held back, with that queue's name. The battle's
    /// variables are added to the effect's context wherever the context does
    /// not set them itself. `None`, with the queues unchanged, when no queue
    /// can give an effect.
    pub fn next_effect(&mut self, held: &Vec<String>) -> (res: Option<(String, QueuedEffect<EffectId>)>)
        ensures
            final(self).model == old(self).model,
            queue_names_distinct(final(self).effects.queues()),
            match res {
                Some((q, x)) => exists|i: int| {
                    &&& #[trigger] available(old(self).effects.queues(), names_of(held@), i)
                    &&& forall|j: int| 0 <= j < i ==> !#[trigger] available(old(self).effects.queues(), names_of(held@), j)
                    &&& q@ == old(self).effects.queues()[i].0
                    &&& x@ == QueuedEffectView {
                        context: crate::logic::effects::EffectContextView {
                            vars: old(self).model.vars@.union_prefer_right(old(self).effects.queues()[i].1[0].context.vars),
                            ..old(self).effects.queues()[i].1[0].context
                        },
                        ..old(self).effects.queues()[i].1[0]
                    }
                    &&& final(self).effects.queues() == old(self).effects.queues().update(i, (q@, old(self).effects.queues()[i].1.drop_first()))
                },
                None => final(self).effects.queues() == old(self).effects.queues()
                    && forall|i: int| !#[trigger] available(old(self).effects.queues(), names_of(held@), i),
            },
    {
        match self.effects.get_next_effect(held) {
            Some((q, x)) => {
                let QueuedEffect { effect, context } = x;
                let mut context = context;
                context.vars.merge_missing(&self.model.vars);
                Some((q, QueuedEffect { effect, context }))
            },
            None => None,
        }
    }

    /// One step of processing the battle's effects, `ran` of them having
    /// run so far this round. Once more than [`MAX_ITERATIONS`] ran, the
    /// round stops with nothing taken. Otherwise the step is the effect
    /// [`Logic::next_effect`] takes, with the battle's variables merged under
    /// its context's own, to be carried out by the caller before the next
    /// step; or the end of the round when no queue can give an effect with
    /// the queues named in `held` held back, the queues unchanged.
    pub fn process_effects(&mut self, held: &Vec<String>, ran: usize) -> (res: EffectStep)
        ensures
            final(self).model == old(self).model,
            ran <= MAX_ITERATIONS ==> queue_names_distinct(final(self).effects.queues()),
            ran > MAX_ITERATIONS ==> res is Limit && final(self).effects.queues() == old(self).effects.queues(),
            ran <= MAX_ITERATIONS ==> match res {
                EffectStep::Run(q, x) => next_taken(old(self).effects.queues(), old(self).model.vars@, names_of(held@), x@)
                    && exists|i: int| {
                        &&& #[trigger] first_available(old(self).effects.queues(), names_of(held@), i)
                        &&& q@ == old(self).effects.queues()[i].0
                        &&& final(self).effects.queues() == take_at(old(self).effects.queues(), i)
                    },
                EffectStep::Done => final(self).effects.queues() == old(self).effects.queues()
                    && forall|i: int| !#[trigger] available(old(self).effects.queues(), names_of(held@), i),
                EffectStep::Limit => false,
            },
    {
        if ran > MAX_ITERATIONS {
            return EffectStep::Limit;
        }
        match self.next_effect(held) {
            Some((q, x)) => {
                proof {
                    let i = choose|i: int| {
                        &&& #[trigger] available(old(self).effects.queues(), names_of(held@), i)
                        &&& forall|j: int| 0 <= j < i ==> !#[trigger] available(old(self).effects.queues(), names_of(held@), j)
                        &&& q@ == old(self).effects.queues()[i].0
                        &&& x@ == QueuedEffectView {
                            context: EffectContextView {
                                vars: old(self).model.vars@.union_prefer_right(old(self).effects.queues()[i].1[0].context.vars),
                                ..old(self).effects.queues()[i].1[0].context
                            },
                            ..old(self).effects.queues()[i].1[0]
                        }
                        &&& self.effects.queues() == old(self).effects.queues().update(i, (q@, old(self).effects.queues()[i].1.drop_first()))
                    };
                    assert(first_available(old(self).effects.queues(), names_of(held@), i));
                }
                EffectStep::Run(q, x)
            },
            None => EffectStep::Done,
        }
    }
}

} // verus!
