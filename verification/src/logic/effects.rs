use vstd::prelude::*;

use crate::decimal::{decimal, u64_to_string};
use crate::named::names_distinct;
use crate::vars::{VarName, VarState, VarValueView};

verus! {

/// Which unit of an effect's context is meant.
#[derive(Debug, Clone, Copy, PartialEq, Eq, Structural)]
pub enum Who {
    Owner,
    Creator,
    Target,
}

/// The circumstances an effect runs in.
#[derive(Debug)]
pub struct EffectContext {
    /// The queue the effect goes to; by default the owner's own queue.
    pub queue_id: Option<String>,
    pub owner: u64,
    pub creator: u64,
    pub target: u64,
    pub vars: VarState,
    pub status_id: Option<u64>,
    /// Colour as 0xRRGGBBAA.
    pub color: u32,
}

/// The mathematical value of an [`EffectContext`].
pub ghost struct EffectContextView {
    pub queue_id: Option<Seq<char>>,
    pub owner: u64,
    pub creator: u64,
    pub target: u64,
    pub vars: Map<VarName, VarValueView>,
    pub status_id: Option<u64>,
    pub color: u32,
}

impl EffectContextView {
    /// The name of the queue the effect goes to: the explicit queue, or the
    /// owner's id written in decimal.
    pub open spec fn q_id(&self) -> Seq<char> {
        match self.queue_id {
            Some(q) => q,
            None => decimal(self.owner as nat),
        }
    }
}

impl View for EffectContext {
    type V = EffectContextView;

    open spec fn view(&self) -> EffectContextView {
        EffectContextView {
            queue_id: match self.queue_id {
                Some(q) => Some(q@),
                None => None,
            },
            owner: self.owner,
            creator: self.creator,
            target: self.target,
            vars: self.vars@,
            status_id: self.status_id,
            color: self.color,
        }
    }
}

impl EffectContext {
    /// The name of the queue the effect goes to.
    pub open spec fn q_id(&self) -> Seq<char> {
        self@.q_id()
    }

    /// The name of the queue the effect goes to.
    pub fn get_q_id(&self) -> (res: String)
        ensures
            res@ == self.q_id(),
    {
        match &self.queue_id {
            Some(q) => q.clone(),
            None => u64_to_string(self.owner),
        }
    }

    /// The unit of the context that `who` names.
    pub fn get_id(&self, who: Who) -> (res: u64)
        ensures
            res == match who {
                Who::Owner => self.owner,
                Who::Creator => self.creator,
                Who::Target => self.target,
            },
    {
        match who {
            Who::Owner => self.owner,
            Who::Creator => self.creator,
            Who::Target => self.target,
        }
    }
}

/// An effect waiting in a queue, with its context.
#[derive(Debug)]
pub struct QueuedEffect<E> {
    pub effect: E,
    pub context: EffectContext,
}

/// The mathematical value of a [`QueuedEffect`].
pub ghost struct QueuedEffectView<E> {
    pub effect: E,
    pub context: EffectContextView,
}

impl<E> View for QueuedEffect<E> {
    type V = QueuedEffectView<E>;

    open spec fn view(&self) -> QueuedEffectView<E> {
        QueuedEffectView { effect: self.effect, context: self.context@ }
    }
}

/// The values of a queue's effects.
pub open spec fn effects_view<E>(s: Seq<QueuedEffect<E>>) -> Seq<QueuedEffectView<E>> {
    s.map_values(|x: QueuedEffect<E>| x@)
}

/// The effect queues, one per queue name, in the order the queues were
/// opened. How long a queue is held back is kept by the caller.
#[derive(Debug)]
pub struct EffectOrchestrator<E> {
    effects: Vec<(String, Vec<QueuedEffect<E>>)>,
}

/// The queues as names and contents.
pub open spec fn queues_view<E>(s: Seq<(String, Vec<QueuedEffect<E>>)>) -> Seq<(Seq<char>, Seq<QueuedEffectView<E>>)> {
    s.map_values(|p: (String, Vec<QueuedEffect<E>>)| (p.0@, effects_view(p.1@)))
}

/// Whether queue `i` is the one named `q`.
pub open spec fn queue_at<E>(v: Seq<(Seq<char>, Seq<QueuedEffectView<E>>)>, q: Seq<char>, i: int) -> bool {
    0 <= i < v.len() && v[i].0 == q
}

/// Whether a queue is named `q`.
pub open spec fn has_queue<E>(v: Seq<(Seq<char>, Seq<QueuedEffectView<E>>)>, q: Seq<char>) -> bool {
    exists|i: int| queue_at(v, q, i)
}

/// The queues after `x` is put at the back of its queue; a queue not yet
/// open is opened after all others.
pub open spec fn spec_push_back<E>(v: Seq<(Seq<char>, Seq<QueuedEffectView<E>>)>, x: QueuedEffectView<E>) -> Seq<(Seq<char>, Seq<QueuedEffectView<E>>)> {
    let q = x.context.q_id();
    if has_queue(v, q) {
        let i = choose|i: int| queue_at(v, q, i);
        v.update(i, (q, v[i].1.push(x)))
    } else {
        v.push((q, seq![x]))
    }
}

/// The queues after `x` is put at the front of its queue; a queue not yet
/// open is opened after all others.
pub open spec fn spec_push_front<E>(v: Seq<(Seq<char>, Seq<QueuedEffectView<E>>)>, x: QueuedEffectView<E>) -> Seq<(Seq<char>, Seq<QueuedEffectView<E>>)> {
    let q = x.context.q_id();
    if has_queue(v, q) {
        let i = choose|i: int| queue_at(v, q, i);
        v.update(i, (q, seq![x] + v[i].1))
    } else {
        v.push((q, seq![x]))
    }
}

/// The names a list of strings spells.
pub open spec fn names_of(s: Seq<String>) -> Seq<Seq<char>> {
    s.map_values(|x: String| x@)
}

/// Whether queue `i` can give an effect: it is not empty and not held back.
pub open spec fn available<E>(v: Seq<(Seq<char>, Seq<QueuedEffectView<E>>)>, held: Seq<Seq<char>>, i: int) -> bool {
    0 <= i < v.len() && v[i].1.len() > 0 && !held.contains(v[i].0)
}

/// No two queues share a name.
pub open spec fn queue_names_distinct<E>(v: Seq<(Seq<char>, Seq<QueuedEffectView<E>>)>) -> bool {
    forall|i: int, j: int| 0 <= i < v.len() && 0 <= j < v.len() && i != j ==> v[i].0 != v[j].0
}

/// With distinct names, the queue chosen by name is the one at `i`.
proof fn lemma_queue_unique<E>(v: Seq<(Seq<char>, Seq<QueuedEffectView<E>>)>, q: Seq<char>, i: int)
    requires
        queue_names_distinct(v),
        queue_at(v, q, i),
    ensures
        (choose|j: int| queue_at(v, q, j)) == i,
{
    let j = choose|j: int| queue_at(v, q, j);
    assert(queue_at(v, q, j));
}

/// Distinct names in the stored queues are distinct names in their view.
proof fn lemma_view_distinct<E>(s: Seq<(String, Vec<QueuedEffect<E>>)>)
    requires
        names_distinct(s),
    ensures
        queue_names_distinct(queues_view(s)),
{
    let v = queues_view(s);
    assert forall|a: int, b: int| 0 <= a < v.len() && 0 <= b < v.len() && a != b implies v[a].0 != v[b].0 by {
        assert(v[a].0 == s[a].0@);
        assert(v[b].0 == s[b].0@);
    }
}

/// The effects waiting in the queue named `q`, first to leave first; none
/// when no queue has that name.
pub open spec fn queue_of<E>(v: Seq<(Seq<char>, Seq<QueuedEffectView<E>>)>, q: Seq<char>) -> Seq<QueuedEffectView<E>> {
    if has_queue(v, q) {
        v[choose|i: int| queue_at(v, q, i)].1
    } else {
        Seq::empty()
    }
}

/// Changing the contents of queue `i` only changes what the queue of that
/// name holds.
proof fn lemma_queue_of_update<E>(v: Seq<(Seq<char>, Seq<QueuedEffectView<E>>)>, i: int, c: Seq<QueuedEffectView<E>>, r: Seq<char>)
    requires
        queue_names_distinct(v),
        0 <= i < v.len(),
    ensures
        queue_names_distinct(v.update(i, (v[i].0, c))),
        queue_of(v.update(i, (v[i].0, c)), r) == if r == v[i].0 { c } else { queue_of(v, r) },
{
    let w = v.update(i, (v[i].0, c));
    assert forall|a: int, b: int| 0 <= a < w.len() && 0 <= b < w.len() && a != b implies w[a].0 != w[b].0 by {
        assert(w[a].0 == v[a].0 && w[b].0 == v[b].0);
    }
    if r == v[i].0 {
        assert(queue_at(w, r, i));
        lemma_queue_unique(w, r, i);
    } else if has_queue(v, r) {
        let j = choose|j: int| queue_at(v, r, j);
        assert(queue_at(w, r, j));
        lemma_queue_unique(w, r, j);
    } else {
        assert forall|j: int| !queue_at(w, r, j) by {
            if queue_at(w, r, j) {
                assert(queue_at(v, r, j));
            }
        }
    }
}

/// Putting an effect into its queue keeps the queue names distinct. At the
/// back, the effect waits behind every effect already in its queue; at the
/// front, ahead of all of them; every other queue keeps its effects.
pub proof fn law_push_queue<E>(v: Seq<(Seq<char>, Seq<QueuedEffectView<E>>)>, x: QueuedEffectView<E>, r: Seq<char>)
    requires
        queue_names_distinct(v),
    ensures
        queue_names_distinct(spec_push_back(v, x)),
        queue_names_distinct(spec_push_front(v, x)),
        queue_of(spec_push_back(v, x), x.context.q_id()) == queue_of(v, x.context.q_id()).push(x),
        queue_of(spec_push_front(v, x), x.context.q_id()) == seq![x] + queue_of(v, x.context.q_id()),
        r != x.context.q_id() ==> queue_of(spec_push_back(v, x), r) == queue_of(v, r),
        r != x.context.q_id() ==> queue_of(spec_push_front(v, x), r) == queue_of(v, r),
{
    let q = x.context.q_id();
    if has_queue(v, q) {
        let i = choose|i: int| queue_at(v, q, i);
        lemma_queue_of_update(v, i, v[i].1.push(x), r);
        lemma_queue_of_update(v, i, v[i].1.push(x), q);
        lemma_queue_of_update(v, i, seq![x] + v[i].1, r);
        lemma_queue_of_update(v, i, seq![x] + v[i].1, q);
    } else {
        let w = v.push((q, seq![x]));
        assert(queue_names_distinct(w)) by {
            assert forall|a: int, b: int| 0 <= a < w.len() && 0 <= b < w.len() && a != b implies w[a].0 != w[b].0 by {
                if a == v.len() {
                    assert(!queue_at(v, q, b));
                } else if b == v.len() {
                    assert(!queue_at(v, q, a));
                }
            }
        }
        assert(queue_at(w, q, v.len() as int));
        lemma_queue_unique(w, q, v.len() as int);
        assert(seq![x] =~= Seq::<QueuedEffectView<E>>::empty().push(x));
        assert(seq![x] + Seq::<QueuedEffectView<E>>::empty() =~= seq![x]);
        if r != q {
            if has_queue(v, r) {
                let j = choose|j: int| queue_at(v, r, j);
                assert(queue_at(w, r, j));
                lemma_queue_unique(w, r, j);
            } else {
                assert forall|j: int| !queue_at(w, r, j) by {
                    if queue_at(w, r, j) {
                        assert(queue_at(v, r, j));
                    }
                }
            }
        }
    }
}

/// Taking the front effect of queue `i` gives the first effect waiting in
/// the queue of that name and leaves the rest of that queue in order; every
/// other queue keeps its effects.
pub proof fn law_take_front<E>(v: Seq<(Seq<char>, Seq<QueuedEffectView<E>>)>, i: int, r: Seq<char>)
    requires
        queue_names_distinct(v),
        0 <= i < v.len(),
        v[i].1.len() > 0,
    ensures
        queue_names_distinct(v.update(i, (v[i].0, v[i].1.drop_first()))),
        v[i].1[0] == queue_of(v, v[i].0)[0],
        queue_of(v.update(i, (v[i].0, v[i].1.drop_first())), v[i].0) == queue_of(v, v[i].0).drop_first(),
        r != v[i].0 ==> queue_of(v.update(i, (v[i].0, v[i].1.drop_first())), r) == queue_of(v, r),
{
    assert(queue_at(v, v[i].0, i));
    lemma_queue_unique(v, v[i].0, i);
    lemma_queue_of_update(v, i, v[i].1.drop_first(), r);
    lemma_queue_of_update(v, i, v[i].1.drop_first(), v[i].0);
}

/// The queues once the front effect of queue `i` is taken.
pub open spec fn take_at<E>(v: Seq<(Seq<char>, Seq<QueuedEffectView<E>>)>, i: int) -> Seq<(Seq<char>, Seq<QueuedEffectView<E>>)> {
    v.update(i, (v[i].0, v[i].1.drop_first()))
}

/// Whether queue `i` is the first one that can give an effect, the one
/// [`EffectOrchestrator::get_next_effect`] takes from.
pub open spec fn first_available<E>(v: Seq<(Seq<char>, Seq<QueuedEffectView<E>>)>, held: Seq<Seq<char>>, i: int) -> bool {
    available(v, held, i) && forall|j: int| 0 <= j < i ==> !#[trigger] available(v, held, j)
}

/// The queues after `x` is put at the back of its queue: opened after all
/// others, holding `x` alone, when no queue had its name; otherwise that
/// queue gets `x` at its back.
proof fn lemma_push_back_at<E>(v: Seq<(Seq<char>, Seq<QueuedEffectView<E>>)>, x: QueuedEffectView<E>, i: int)
    requires
        queue_names_distinct(v),
        queue_at(v, x.context.q_id(), i) || (i == v.len() && !has_queue(v, x.context.q_id())),
    ensures
        spec_push_back(v, x) == if i < v.len() {
            v.update(i, (x.context.q_id(), v[i].1.push(x)))
        } else {
            v.push((x.context.q_id(), seq![x]))
        },
{
    if i < v.len() {
        lemma_queue_unique(v, x.context.q_id(), i);
    }
}

/// Three effects of one context, on queues that all wait empty and with that
/// context's queue not held back: two put at the back, then one at the front.
/// Taking the next effect three times gives the one put at the front, then
/// the two put at the back in the order they were put; then no queue can
/// give an effect.
pub proof fn law_three_in_order<E>(
    v: Seq<(Seq<char>, Seq<QueuedEffectView<E>>)>,
    x0: QueuedEffectView<E>,
    x1: QueuedEffectView<E>,
    x2: QueuedEffectView<E>,
    held: Seq<Seq<char>>,
)
    requires
        queue_names_distinct(v),
        forall|j: int| 0 <= j < v.len() ==> (#[trigger] v[j]).1.len() == 0,
        x1.context.q_id() == x0.context.q_id(),
        x2.context.q_id() == x0.context.q_id(),
        !held.contains(x0.context.q_id()),
    ensures
        ({
            let v3 = spec_push_front(spec_push_back(spec_push_back(v, x1), x2), x0);
            exists|i: int| {
                &&& #[trigger] first_available(v3, held, i)
                &&& v3[i].1[0] == x0
                &&& first_available(take_at(v3, i), held, i)
                &&& take_at(v3, i)[i].1[0] == x1
                &&& first_available(take_at(take_at(v3, i), i), held, i)
                &&& take_at(take_at(v3, i), i)[i].1[0] == x2
                &&& forall|j: int| !#[trigger] available(take_at(take_at(take_at(v3, i), i), i), held, j)
            }
        }),
{
    let q = x0.context.q_id();
    let i: int = if has_queue(v, q) { choose|i: int| queue_at(v, q, i) } else { v.len() as int };
    let v1 = spec_push_back(v, x1);
    lemma_push_back_at(v, x1, i);
    law_push_queue(v, x1, q);
    if i < v.len() {
        assert(v[i].1.push(x1) =~= seq![x1]);
    }
    assert(v1[i] == (q, seq![x1]));
    assert(queue_at(v1, q, i));
    let v2 = spec_push_back(v1, x2);
    lemma_push_back_at(v1, x2, i);
    law_push_queue(v1, x2, q);
    assert(v2[i] == (q, seq![x1, x2]));
    assert(queue_at(v2, q, i));
    lemma_queue_unique(v2, q, i);
    let v3 = spec_push_front(v2, x0);
    assert(seq![x0] + seq![x1, x2] =~= seq![x0, x1, x2]);
    assert(v3 == v2.update(i, (q, seq![x0, x1, x2])));
    assert forall|j: int| 0 <= j < v3.len() && j != i implies (#[trigger] v3[j]).1.len() == 0 by {
        assert(v3[j] == v2[j]);
        assert(v2[j] == v1[j]);
        if j < v.len() {
            assert(v1[j] == v[j]);
        }
    }
    let v4 = take_at(v3, i);
    let v5 = take_at(v4, i);
    let v6 = take_at(v5, i);
    assert(v4[i].1 =~= seq![x1, x2]);
    assert(v5[i].1 =~= seq![x2]);
    assert(v6[i].1 =~= Seq::<QueuedEffectView<E>>::empty());
    assert(first_available(v3, held, i));
    assert(first_available(v4, held, i));
    assert(first_available(v5, held, i));
    assert forall|j: int| !#[trigger] available(v6, held, j) by {
        if 0 <= j < v6.len() && j != i {
            assert(v6[j] == v3[j]);
        }
    }
}

/// Effects that name no queue of their own go to their owner's queue, and
/// different owners have different queues.
pub proof fn law_owner_queues_distinct(a: EffectContextView, b: EffectContextView)
    requires
        a.queue_id is None,
        b.queue_id is None,
        a.owner != b.owner,
    ensures
        a.q_id() != b.q_id(),
{
    crate::decimal::lemma_decimal_injective(a.owner as nat, b.owner as nat);
}

impl<E> EffectOrchestrator<E> {
    #[verifier::type_invariant]
    spec fn inv(self) -> bool {
        names_distinct(self.effects@)
    }

    /// The queues, in the order they were opened.
    pub closed spec fn queues(&self) -> Seq<(Seq<char>, Seq<QueuedEffectView<E>>)> {
        queues_view(self.effects@)
    }

    /// No queues.
    pub fn new() -> (res: Self)
        ensures
            res.queues() == Seq::<(Seq<char>, Seq<QueuedEffectView<E>>)>::empty(),
            queue_names_distinct(res.queues()),
    {
        let res = EffectOrchestrator { effects: Vec::new() };
        assert(res.queues() =~= Seq::<(Seq<char>, Seq<QueuedEffectView<E>>)>::empty());
        res
    }

    /// Puts `x` into its queue: at the front or at the back of it; a queue
    /// not yet open is opened after all others with `x` alone.
    fn enqueue(&mut self, x: QueuedEffect<E>, front: bool)
        ensures
            front ==> final(self).queues() == spec_push_front(old(self).queues(), x@),
            !front ==> final(self).queues() == spec_push_back(old(self).queues(), x@),
    {
        proof {
            use_type_invariant(&*self);
        }
        let ghost v0 = self.queues();
        let ghost q0 = x@.context.q_id();
        let ghost xv = x@;
        proof {
            assert(queue_names_distinct(v0)) by {
                assert forall|a: int, b: int| 0 <= a < v0.len() && 0 <= b < v0.len() && a != b implies v0[a].0 != v0[b].0 by {
                    assert(v0[a].0 == self.effects@[a].0@);
                    assert(v0[b].0 == self.effects@[b].0@);
                }
            }
        }
        let q = x.context.get_q_id();
        let mut taken: Vec<(String, Vec<QueuedEffect<E>>)> = Vec::new();
        std::mem::swap(&mut taken, &mut self.effects);
        let ghost t = taken@;
        match self.find_queue_in(&taken, &q) {
            Some(i) => {
                let (name, mut queue) = taken.remove(i);
                if front {
                    queue.insert(0, x);
                } else {
                    queue.push(x);
                }
                taken.insert(i, (name, queue));
                proof {
                    assert(names_distinct(taken@)) by {
                        assert forall|a: int, b: int| 0 <= a < taken@.len() && 0 <= b < taken@.len() && a != b
                            implies taken@[a].0@ != taken@[b].0@ by {
                            assert(taken@[a].0@ == t[a].0@);
                            assert(taken@[b].0@ == t[b].0@);
                        }
                    }
                    lemma_queue_unique(v0, q0, i as int);
                    if front {
                        assert(effects_view(taken@[i as int].1@) =~= seq![xv] + v0[i as int].1);
                        assert(queues_view(taken@) =~= v0.update(i as int, (q0, seq![xv] + v0[i as int].1)));
                    } else {
                        assert(effects_view(taken@[i as int].1@) =~= v0[i as int].1.push(xv));
                        assert(queues_view(taken@) =~= v0.update(i as int, (q0, v0[i as int].1.push(xv))));
                    }
                }
            },
            None => {
                let mut queue: Vec<QueuedEffect<E>> = Vec::new();
                queue.push(x);
                taken.push((q, queue));
                proof {
                    assert(names_distinct(taken@)) by {
                        assert forall|a: int, b: int| 0 <= a < taken@.len() && 0 <= b < taken@.len() && a != b
                            implies taken@[a].0@ != taken@[b].0@ by {
                            if a < t.len() && b < t.len() {
                            } else if a < t.len() {
                                assert(!queue_at(v0, q0, a));
                            } else {
                                assert(!queue_at(v0, q0, b));
                            }
                        }
                    }
                    assert(effects_view(queue@) =~= seq![xv]);
                    assert(queues_view(taken@) =~= v0.push((q0, seq![xv])));
                }
            },
        }
        self.effects = taken;
    }

    fn find_queue_in(&self, v: &Vec<(String, Vec<QueuedEffect<E>>)>, q: &String) -> (res: Option<usize>)
        ensures
            match res {
                Some(i) => queue_at(queues_view(v@), q@, i as int) && i < v@.len(),
                None => !has_queue(queues_view(v@), q@),
            },
    {
        let mut i: usize = 0;
        while i < v.len()
            invariant
                i <= v@.len(),
                forall|j: int| 0 <= j < i ==> v@[j].0@ != q@,
            decreases v.len() - i,
        {
            if v[i].0 == *q {
                return Some(i);
            }
            i = i + 1;
        }
        proof {
            assert forall|j: int| !queue_at(queues_view(v@), q@, j) by {
                if 0 <= j < v@.len() {
                    assert(queues_view(v@)[j].0 == v@[j].0@);
                }
            }
        }
        None
    }

    /// Puts `effect` at the front of its context's queue.
    pub fn push_front(&mut self, context: EffectContext, effect: E)
        ensures
            final(self).queues() == spec_push_front(old(self).queues(), QueuedEffectView { effect, context: context@ }),
            queue_names_distinct(final(self).queues()),
    {
        self.enqueue(QueuedEffect { effect, context }, true);
        proof {
            use_type_invariant(&*self);
            lemma_view_distinct(self.effects@);
        }
    }

    /// Puts `effect` at the back of its context's queue.
    pub fn push_back(&mut self, context: EffectContext, effect: E)
        ensures
            final(self).queues() == spec_push_back(old(self).queues(), QueuedEffectView { effect, context: context@ }),
            queue_names_distinct(final(self).queues()),
    {
        self.enqueue(QueuedEffect { effect, context }, false);
        proof {
            use_type_invariant(&*self);
            lemma_view_distinct(self.effects@);
        }
    }

    /// The first queue that is neither empty nor among the `held` ones.
    fn get_available_q_id(&self, held: &Vec<String>) -> (res: Option<usize>)
        ensures
            match res {
                Some(i) => available(self.queues(), names_of(held@), i as int)
                    && forall|j: int| 0 <= j < i ==> !#[trigger] available(self.queues(), names_of(held@), j),
                None => forall|i: int| !#[trigger] available(self.queues(), names_of(held@), i),
            },
    {
        let ghost held_names = names_of(held@);
        let ghost v0 = self.queues();
        let mut i: usize = 0;
        while i < self.effects.len()
            invariant
                i <= self.effects@.len(),
                v0 == self.queues(),
                held_names == names_of(held@),
                forall|j: int| 0 <= j < i ==> !available(v0, held_names, j),
            decreases self.effects.len() - i,
        {
            let mut is_held = false;
            let mut k: usize = 0;
            while k < held.len()
                invariant
                    k <= held@.len(),
                    i < self.effects@.len(),
                    is_held == exists|m: int| 0 <= m < k && held@[m]@ == self.effects@[i as int].0@,
                decreases held.len() - k,
            {
                if held[k] == self.effects[i].0 {
                    is_held = true;
                }
                k = k + 1;
            }
            proof {
                assert(v0[i as int].0 == self.effects@[i as int].0@);
                if is_held {
                    let m = choose|m: int| 0 <= m < held@.len() && held@[m]@ == self.effects@[i as int].0@;
                    assert(held_names[m] == v0[i as int].0);
                } else {
                    assert forall|m: int| 0 <= m < held_names.len() implies held_names[m] != v0[i as int].0 by {
                        assert(held_names[m] == held@[m]@);
                    }
                }
            }
            if !is_held && self.effects[i].1.len() > 0 {
                assert(available(v0, held_names, i as int));
                return Some(i);
            }
            i = i + 1;
        }
        None
    }

    /// Takes the front effect of the first queue that is neither empty nor
    /// among the `held` ones, with that queue's name; `None` when there is no
    /// such queue.
    pub fn get_next_effect(&mut self, held: &Vec<String>) -> (res: Option<(String, QueuedEffect<E>)>)
        ensures
            match res {
                Some((q, x)) => exists|i: int| {
                    &&& #[trigger] available(old(self).queues(), names_of(held@), i)
                    &&& forall|j: int| 0 <= j < i ==> !#[trigger] available(old(self).queues(), names_of(held@), j)
                    &&& q@ == old(self).queues()[i].0
                    &&& x@ == old(self).queues()[i].1[0]
                    &&& final(self).queues() == old(self).queues().update(i, (q@, old(self).queues()[i].1.drop_first()))
                },
                None => final(self).queues() == old(self).queues()
                    && forall|i: int| !#[trigger] available(old(self).queues(), names_of(held@), i),
            },
            queue_names_distinct(final(self).queues()),
    {
        proof {
            use_type_invariant(&*self);
            lemma_view_distinct(self.effects@);
        }
        let ghost v0 = old(self).queues();
        match self.get_available_q_id(held) {
            None => None,
            Some(i) => {
                let mut taken: Vec<(String, Vec<QueuedEffect<E>>)> = Vec::new();
                std::mem::swap(&mut taken, &mut self.effects);
                let ghost t = taken@;
                let (name, mut queue) = taken.remove(i);
                let x = queue.remove(0);
                let q = name.clone();
                taken.insert(i, (name, queue));
                proof {
                    assert(names_distinct(taken@)) by {
                        assert forall|a: int, b: int| 0 <= a < taken@.len() && 0 <= b < taken@.len() && a != b
                            implies taken@[a].0@ != taken@[b].0@ by {
                            assert(taken@[a].0@ == t[a].0@);
                            assert(taken@[b].0@ == t[b].0@);
                        }
                    }
                    assert(effects_view(t[i as int].1@.remove(0)) =~= effects_view(t[i as int].1@).drop_first());
                    assert(queues_view(taken@) =~= v0.update(i as int, (q@, v0[i as int].1.drop_first())));
                }
                self.effects = taken;
                proof {
                    lemma_view_distinct(self.effects@);
                }
                Some((q, x))
            },
        }
    }

    /// Whether every queue is empty.
    pub fn is_empty(&self) -> (res: bool)
        ensures
            res == forall|i: int| 0 <= i < self.queues().len() ==> #[trigger] self.queues()[i].1.len() == 0,
    {
        let mut i: usize = 0;
        while i < self.effects.len()
            invariant
                i <= self.effects@.len(),
                forall|j: int| 0 <= j < i ==> #[trigger] self.queues()[j].1.len() == 0,
            decreases self.effects.len() - i,
        {
            if self.effects[i].1.len() > 0 {
                assert(self.queues()[i as int].1.len() > 0);
                return false;
            }
            i = i + 1;
        }
        true
    }
}

} // verus!
