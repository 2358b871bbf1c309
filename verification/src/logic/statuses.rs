use vstd::prelude::*;

use crate::logic::deaths::statuses_fire;
use crate::logic::effects::QueuedEffectView;
use crate::logic::model::{statuses_view, unit_views, AttachedStatus, AttachedStatusView, EffectId, Unit, UnitView};
use crate::logic::{fire_status, fires, lemma_push_all_concat, push_all, Logic, TriggerQuery, TriggerQueryView};
use crate::vars::{VarName, VarValue, VarValueView};

verus! {

/// A status has run out when its time is down to zero or its stack counter
/// is down to zero or below.
pub open spec fn spec_expired(st: AttachedStatusView) -> bool {
    st.time == Some(0u32) || (st.vars.contains_key(VarName::StackCounter)
        && match st.vars[VarName::StackCounter] {
            VarValueView::Int(c) => c <= 0,
            _ => false,
        })
}

/// The effects that other units' statuses fire when a status named `name`
/// is removed from `unit`: for every other unit in order, its statuses that
/// detect such removals on units passing their filter.
pub open spec fn others_fire(others: Seq<UnitView>, unit: UnitView, creator: u64, name: Seq<char>) -> Seq<QueuedEffectView<EffectId>>
    decreases others.len(),
{
    if others.len() == 0 {
        Seq::empty()
    } else {
        let o = others.last();
        others_fire(others.drop_last(), unit, creator, name) + if o.id != unit.id {
            statuses_fire(o.statuses, TriggerQueryView::DetectRemove(name, unit.faction, o.faction), o.id, creator, unit.id)
        } else {
            Seq::empty()
        }
    }
}

/// The effects fired when a status named `name` is removed from `unit`:
/// first the unit's own statuses that watch for it, then other units'.
pub open spec fn drop_fires(units: Seq<UnitView>, unit: UnitView, creator: u64, name: Seq<char>) -> Seq<QueuedEffectView<EffectId>> {
    statuses_fire(unit.statuses, TriggerQueryView::SelfDetectRemove(name), unit.id, creator, unit.id)
        + others_fire(units, unit, creator, name)
}

/// `x` placed into `s`, which is ordered by processing order, after every
/// status that does not come later than it.
pub open spec fn insert_by_order(s: Seq<AttachedStatusView>, x: AttachedStatusView) -> Seq<AttachedStatusView>
    decreases s.len(),
{
    if s.len() == 0 {
        seq![x]
    } else if s[0].status.order > x.status.order {
        seq![x] + s
    } else {
        seq![s[0]] + insert_by_order(s.drop_first(), x)
    }
}

/// The statuses sorted by processing order, keeping the given order among
/// statuses of equal order.
pub open spec fn sort_by_order(s: Seq<AttachedStatusView>) -> Seq<AttachedStatusView>
    decreases s.len(),
{
    if s.len() == 0 {
        Seq::empty()
    } else {
        insert_by_order(sort_by_order(s.drop_last()), s.last())
    }
}

/// Inserting at the first later status is inserting by order.
proof fn lemma_insert_by_order(s: Seq<AttachedStatusView>, x: AttachedStatusView, p: int)
    requires
        0 <= p <= s.len(),
        forall|i: int| 0 <= i < p ==> s[i].status.order <= x.status.order,
        p < s.len() ==> s[p].status.order > x.status.order,
    ensures
        insert_by_order(s, x) == s.take(p).push(x) + s.skip(p),
    decreases p,
{
    if p == 0 {
        if s.len() == 0 {
            assert(s.take(0).push(x) + s.skip(0) =~= seq![x]);
        } else {
            assert(s.take(0).push(x) + s.skip(0) =~= seq![x] + s);
        }
    } else {
        lemma_insert_by_order(s.drop_first(), x, p - 1);
        assert(seq![s[0]] + (s.drop_first().take(p - 1).push(x) + s.drop_first().skip(p - 1)) =~= s.take(p).push(x) + s.skip(p));
    }
}

/// A status after a turn: it counts as attached, and its time, if any, is
/// one less, but not below zero.
pub open spec fn step_status(st: AttachedStatusView) -> AttachedStatusView {
    AttachedStatusView {
        is_inited: true,
        time: match st.time {
            Some(t) => Some(if t == 0 { 0u32 } else { (t - 1) as u32 }),
            None => None,
        },
        ..st
    }
}

/// The queues after the turn of one status of unit `uid`: a status not yet
/// attached fires its attach effects at the front of their queues; a status
/// that runs out this turn fires its break effects at the back.
pub open spec fn turn_step(q: Seq<(Seq<char>, Seq<QueuedEffectView<EffectId>>)>, st: AttachedStatusView, uid: u64) -> Seq<(Seq<char>, Seq<QueuedEffectView<EffectId>>)> {
    let q1 = if !st.is_inited { push_all(q, fires(st, TriggerQueryView::Init, uid, st.creator, uid), true) } else { q };
    if spec_expired(step_status(st)) {
        push_all(q1, fires(step_status(st), TriggerQueryView::Break, uid, uid, uid), false)
    } else {
        q1
    }
}

/// The queues after a turn of the statuses of unit `uid`, status after
/// status.
pub open spec fn turn_queues(q: Seq<(Seq<char>, Seq<QueuedEffectView<EffectId>>)>, sts: Seq<AttachedStatusView>, uid: u64) -> Seq<(Seq<char>, Seq<QueuedEffectView<EffectId>>)>
    decreases sts.len(),
{
    if sts.len() == 0 {
        q
    } else {
        turn_step(turn_queues(q, sts.drop_last(), uid), sts.last(), uid)
    }
}

/// The statuses that last through a turn, as they are after it, in order.
pub open spec fn survivors(sts: Seq<AttachedStatusView>) -> Seq<AttachedStatusView>
    decreases sts.len(),
{
    if sts.len() == 0 {
        Seq::empty()
    } else {
        let st = step_status(sts.last());
        survivors(sts.drop_last()) + if spec_expired(st) { Seq::empty() } else { seq![st] }
    }
}

/// The statuses that run out in a turn, as they are after it, in order.
pub open spec fn expirees(sts: Seq<AttachedStatusView>) -> Seq<AttachedStatusView>
    decreases sts.len(),
{
    if sts.len() == 0 {
        Seq::empty()
    } else {
        let st = step_status(sts.last());
        expirees(sts.drop_last()) + if spec_expired(st) { seq![st] } else { Seq::empty() }
    }
}

/// The flags of the statuses, status after status.
pub open spec fn all_flags(sts: Seq<AttachedStatusView>) -> Seq<u32>
    decreases sts.len(),
{
    if sts.len() == 0 {
        Seq::empty()
    } else {
        all_flags(sts.drop_last()) + sts.last().status.flags
    }
}

/// The queues after the removal of each of the `gone` statuses is announced
/// in turn, each with the status's owner as creator.
pub open spec fn drop_queues(q: Seq<(Seq<char>, Seq<QueuedEffectView<EffectId>>)>, units: Seq<UnitView>, unit: UnitView, gone: Seq<AttachedStatusView>) -> Seq<(Seq<char>, Seq<QueuedEffectView<EffectId>>)>
    decreases gone.len(),
{
    if gone.len() == 0 {
        q
    } else {
        let g = gone.last();
        push_all(drop_queues(q, units, unit, gone.drop_last()), drop_fires(units, unit, g.owner, g.status.name), false)
    }
}

/// Whether the statuses are in processing order.
pub open spec fn sorted_by_order(s: Seq<AttachedStatusView>) -> bool {
    forall|i: int, j: int| 0 <= i <= j < s.len() ==> s[i].status.order <= s[j].status.order
}

/// Inserting by order into statuses in processing order keeps them in order
/// and adds exactly the one status.
proof fn lemma_insert_sorted(s: Seq<AttachedStatusView>, x: AttachedStatusView)
    requires
        sorted_by_order(s),
    ensures
        sorted_by_order(insert_by_order(s, x)),
        insert_by_order(s, x).to_multiset() =~= s.to_multiset().insert(x),
    decreases s.len(),
{
    broadcast use vstd::seq_lib::group_to_multiset_ensures;
    if s.len() == 0 {
        assert(seq![x] =~= Seq::<AttachedStatusView>::empty().push(x));
    } else if s[0].status.order > x.status.order {
        assert(seq![x] + s =~= s.insert(0, x));
    } else {
        let rest = s.drop_first();
        let r = insert_by_order(rest, x);
        lemma_insert_sorted(rest, x);
        assert(seq![s[0]] + r =~= r.insert(0, s[0]));
        assert(s =~= rest.insert(0, s[0]));
        let res = seq![s[0]] + r;
        assert forall|i: int, j: int| 0 <= i <= j < res.len() implies res[i].status.order <= res[j].status.order by {
            if i == 0 && j > 0 {
                let e = r[j - 1];
                assert(r.contains(e));
                assert(r.to_multiset().count(e) > 0);
                if e != x {
                    assert(rest.to_multiset().count(e) > 0);
                    assert(rest.contains(e));
                    let k = choose|k: int| 0 <= k < rest.len() && rest[k] == e;
                    assert(s[k + 1] == e);
                }
            }
        }
    }
}

/// Sorting by order puts the statuses in processing order and keeps exactly
/// the same statuses.
proof fn lemma_sort_sorted(s: Seq<AttachedStatusView>)
    ensures
        sorted_by_order(sort_by_order(s)),
        sort_by_order(s).to_multiset() =~= s.to_multiset(),
    decreases s.len(),
{
    broadcast use vstd::seq_lib::group_to_multiset_ensures;
    if s.len() > 0 {
        lemma_sort_sorted(s.drop_last());
        lemma_insert_sorted(sort_by_order(s.drop_last()), s.last());
        assert(s =~= s.drop_last().push(s.last()));
    }
}

/// The statuses that last through a turn have not run out and count as
/// attached; each keeps the definition of a status it came from, so order is
/// kept; and every status either lasts or runs out.
proof fn lemma_survivors(s: Seq<AttachedStatusView>)
    ensures
        forall|i: int| 0 <= i < survivors(s).len() ==> !spec_expired(#[trigger] survivors(s)[i]) && survivors(s)[i].is_inited,
        forall|i: int| 0 <= i < survivors(s).len() ==> exists|j: int| 0 <= j < s.len() && (#[trigger] survivors(s)[i]).status == s[j].status,
        sorted_by_order(s) ==> sorted_by_order(survivors(s)),
        survivors(s).len() + expirees(s).len() == s.len(),
    decreases s.len(),
{
    if s.len() > 0 {
        let dl = s.drop_last();
        lemma_survivors(dl);
        let st = step_status(s.last());
        let prev = survivors(dl);
        let cur = survivors(s);
        assert forall|i: int| 0 <= i < cur.len() implies exists|j: int| 0 <= j < s.len() && (#[trigger] cur[i]).status == s[j].status by {
            if i < prev.len() {
                assert(cur[i] == prev[i]);
                let j = choose|j: int| 0 <= j < dl.len() && prev[i].status == dl[j].status;
                assert(s[j] == dl[j]);
            } else {
                assert(cur[i] == st);
                assert(st.status == s[s.len() - 1].status);
            }
        }
        if sorted_by_order(s) {
            assert(sorted_by_order(dl));
            assert forall|i: int, j: int| 0 <= i <= j < cur.len() implies cur[i].status.order <= cur[j].status.order by {
                if j < prev.len() {
                    assert(cur[i] == prev[i] && cur[j] == prev[j]);
                } else if i < prev.len() {
                    assert(cur[i] == prev[i]);
                    let k = choose|k: int| 0 <= k < dl.len() && prev[i].status == dl[k].status;
                    assert(s[k] == dl[k]);
                    assert(cur[j] == st);
                }
            }
        }
    }
}

/// After a turn of a unit's statuses (see [`Logic::process_unit_statuses`]),
/// the statuses the unit keeps are in processing order, none of them has
/// run out and all count as attached; sorting keeps exactly the unit's
/// statuses, and every one of them either stays or runs out.
pub proof fn law_statuses_after_turn(sts: Seq<AttachedStatusView>)
    ensures
        ({
            let sorted = sort_by_order(sts);
            let kept = survivors(sorted);
            &&& sorted_by_order(kept)
            &&& forall|i: int| 0 <= i < kept.len() ==> !spec_expired(#[trigger] kept[i]) && kept[i].is_inited
            &&& sorted.to_multiset() == sts.to_multiset()
            &&& kept.len() + expirees(sorted).len() == sts.len()
        }),
{
    broadcast use vstd::seq_lib::group_to_multiset_ensures;
    lemma_sort_sorted(sts);
    lemma_survivors(sort_by_order(sts));
    assert(sort_by_order(sts).len() == sort_by_order(sts).to_multiset().len());
    assert(sts.len() == sts.to_multiset().len());
}

impl Logic {
    /// Whether the status has run out.
    pub fn is_status_expired(status: &AttachedStatus) -> (res: bool)
        ensures
            res == spec_expired(status@),
    {
        if status.time == Some(0u32) {
            return true;
        }
        match status.vars.get(VarName::StackCounter) {
            Some(VarValue::Int(c)) => *c <= 0,
            _ => false,
        }
    }

    /// Queues at the back of their queues the effects fired by removing a
    /// status named `status_name` from `unit`; `creator_id` becomes their
    /// creator. The unit's own statuses that watch for the removal fire with
    /// the unit as owner and target; then every other unit on the field whose
    /// statuses watch for such removals on units passing their filter fires
    /// with itself as owner and `unit` as target.
    pub fn trigger_status_drop(&mut self, unit: &Unit, creator_id: u64, status_id: u64, status_name: &String)
        ensures
            final(self).effects.queues() == push_all(old(self).effects.queues(),
                drop_fires(unit_views(old(self).model.units@), unit@, creator_id, status_name@), false),
            final(self).model == old(self).model,
    {
        let ghost q0 = self.effects.queues();
        let ghost uv = unit@;
        let mut si: usize = 0;
        while si < unit.all_statuses.len()
            invariant
                si <= unit.all_statuses@.len(),
                uv == unit@,
                self.model == old(self).model,
                self.effects.queues() == push_all(q0, statuses_fire(uv.statuses.subrange(0, si as int),
                    TriggerQueryView::SelfDetectRemove(status_name@), uv.id, creator_id, uv.id), false),
            decreases unit.all_statuses.len() - si,
        {
            let q = TriggerQuery::SelfDetectRemove(status_name.clone());
            fire_status(&mut self.effects, &unit.all_statuses[si], &q, unit.id, creator_id, unit.id, false);
            proof {
                let pre = uv.statuses.subrange(0, si as int);
                assert(uv.statuses.subrange(0, si as int + 1).drop_last() =~= pre);
                lemma_push_all_concat(q0, statuses_fire(pre, q@, uv.id, creator_id, uv.id),
                    fires(uv.statuses[si as int], q@, uv.id, creator_id, uv.id), false);
            }
            si = si + 1;
        }
        assert(uv.statuses.subrange(0, uv.statuses.len() as int) =~= uv.statuses);
        let ghost q1 = self.effects.queues();
        let ghost others = unit_views(self.model.units@);
        let mut oi: usize = 0;
        while oi < self.model.units.len()
            invariant
                oi <= self.model.units@.len(),
                uv == unit@,
                self.model == old(self).model,
                others == unit_views(self.model.units@),
                self.effects.queues() == push_all(q1, others_fire(others.subrange(0, oi as int), uv, creator_id, status_name@), false),
            decreases self.model.units.len() - oi,
        {
            let other = &self.model.units[oi];
            let ghost ov = other@;
            assert(others[oi as int] == ov);
            let ghost qa = self.effects.queues();
            if other.id != unit.id {
                let mut si: usize = 0;
                while si < other.all_statuses.len()
                    invariant
                        si <= other.all_statuses@.len(),
                        ov == other@,
                        uv == unit@,
                        self.model == old(self).model,
                        other == &self.model.units@[oi as int],
                        self.effects.queues() == push_all(qa, statuses_fire(ov.statuses.subrange(0, si as int),
                            TriggerQueryView::DetectRemove(status_name@, uv.faction, ov.faction), ov.id, creator_id, uv.id), false),
                    decreases other.all_statuses.len() - si,
                {
                    let q = TriggerQuery::DetectRemove(status_name.clone(), unit.faction, other.faction);
                    fire_status(&mut self.effects, &other.all_statuses[si], &q, other.id, creator_id, unit.id, false);
                    proof {
                        let pre = ov.statuses.subrange(0, si as int);
                        assert(ov.statuses.subrange(0, si as int + 1).drop_last() =~= pre);
                        lemma_push_all_concat(qa, statuses_fire(pre, q@, ov.id, creator_id, uv.id),
                            fires(ov.statuses[si as int], q@, ov.id, creator_id, uv.id), false);
                    }
                    si = si + 1;
                }
                assert(ov.statuses.subrange(0, ov.statuses.len() as int) =~= ov.statuses);
            }
            proof {
                let pre = others.subrange(0, oi as int);
                assert(others.subrange(0, oi as int + 1).drop_last() =~= pre);
                let extra = if ov.id != uv.id {
                    statuses_fire(ov.statuses, TriggerQueryView::DetectRemove(status_name@, uv.faction, ov.faction), ov.id, creator_id, uv.id)
                } else {
                    Seq::empty()
                };
                lemma_push_all_concat(q1, others_fire(pre, uv, creator_id, status_name@), extra, false);
                if ov.id == uv.id {
                    assert(others_fire(pre, uv, creator_id, status_name@) + extra =~= others_fire(pre, uv, creator_id, status_name@));
                }
            }
            oi = oi + 1;
        }
        proof {
            assert(others.subrange(0, others.len() as int) =~= others);
            lemma_push_all_concat(q0, statuses_fire(uv.statuses, TriggerQueryView::SelfDetectRemove(status_name@), uv.id, creator_id, uv.id),
                others_fire(others, uv, creator_id, status_name@), false);
        }
    }

    /// The statuses in processing order; statuses of equal order keep their
    /// order.
    fn sort_statuses(src: Vec<AttachedStatus>) -> (res: Vec<AttachedStatus>)
        ensures
            statuses_view(res@) == sort_by_order(statuses_view(src@)),
    {
        let ghost all = statuses_view(src@);
        let mut src = src;
        let n = src.len();
        let mut sorted: Vec<AttachedStatus> = Vec::new();
        let mut k: usize = 0;
        while k < n
            invariant
                k <= n,
                n == all.len(),
                src@.len() == n - k,
                statuses_view(src@) == all.subrange(k as int, n as int),
                statuses_view(sorted@) == sort_by_order(all.subrange(0, k as int)),
            decreases n - k,
        {
            assert(statuses_view(src@)[0] == src@[0]@);
            let ghost src0 = src@;
            let x = src.remove(0);
            assert(x@ == all[k as int]);
            assert(statuses_view(src@) =~= statuses_view(src0).subrange(1, src0.len() as int));
            let mut p: usize = 0;
            while p < sorted.len() && sorted[p].status.order <= x.status.order
                invariant
                    p <= sorted@.len(),
                    forall|i: int| 0 <= i < p ==> sorted@[i].status.order <= x.status.order,
                decreases sorted.len() - p,
            {
                p = p + 1;
            }
            let ghost before = statuses_view(sorted@);
            proof {
                assert(forall|i: int| 0 <= i < sorted@.len() ==> before[i] == sorted@[i]@);
                lemma_insert_by_order(before, x@, p as int);
                assert(all.subrange(0, k as int + 1).drop_last() =~= all.subrange(0, k as int));
            }
            let ghost xv = x@;
            sorted.insert(p, x);
            k = k + 1;
            proof {
                assert(statuses_view(sorted@) =~= before.take(p as int).push(xv) + before.skip(p as int));
                assert(statuses_view(src@) =~= all.subrange(k as int, n as int));
            }
        }
        assert(all.subrange(0, n as int) =~= all);
        sorted
    }

    /// A turn of the unit's statuses. They are put in processing order; each
    /// status not yet attached fires its attach effects at the front of their
    /// queues and counts as attached; a status with a time has one turn less,
    /// not below zero; a status that runs out fires its break effects at the
    /// back of their queues. Statuses that ran out leave the unit, the unit's
    /// flags become those of the statuses left, and the removal of each status
    /// that ran out is announced, in order, with its owner as creator.
    pub fn process_unit_statuses(&mut self, unit: &mut Unit)
        ensures
            ({
                let sorted = sort_by_order(old(unit)@.statuses);
                let kept = survivors(sorted);
                &&& final(unit)@ == UnitView { statuses: kept, flags: all_flags(kept), ..old(unit)@ }
                &&& final(self).model == old(self).model
                &&& final(self).effects.queues() == drop_queues(
                    turn_queues(old(self).effects.queues(), sorted, old(unit).id),
                    unit_views(old(self).model.units@), final(unit)@, expirees(sorted))
            }),
    {
        let ghost q0 = self.effects.queues();
        let mut all: Vec<AttachedStatus> = Vec::new();
        std::mem::swap(&mut all, &mut unit.all_statuses);
        let mut rest = Self::sort_statuses(all);
        let ghost sorted = statuses_view(rest@);
        let n = rest.len();
        let uid = unit.id;
        let mut kept: Vec<AttachedStatus> = Vec::new();
        let mut gone: Vec<AttachedStatus> = Vec::new();
        let mut i: usize = 0;
        while i < n
            invariant
                i <= n,
                n == sorted.len(),
                uid == old(unit).id,
                rest@.len() == n - i,
                statuses_view(rest@) == sorted.subrange(i as int, n as int),
                statuses_view(kept@) == survivors(sorted.subrange(0, i as int)),
                statuses_view(gone@) == expirees(sorted.subrange(0, i as int)),
                self.model == old(self).model,
                self.effects.queues() == turn_queues(q0, sorted.subrange(0, i as int), uid),
            decreases n - i,
        {
            assert(statuses_view(rest@)[0] == rest@[0]@);
            let ghost rest0 = rest@;
            let mut st = rest.remove(0);
            let ghost orig = st@;
            assert(orig == sorted[i as int]);
            assert(statuses_view(rest@) =~= statuses_view(rest0).subrange(1, rest0.len() as int));
            let ghost qa = self.effects.queues();
            if !st.is_inited {
                let creator = st.creator;
                fire_status(&mut self.effects, &st, &TriggerQuery::Init, uid, creator, uid, true);
                st.is_inited = true;
            }
            match st.time {
                Some(t) => {
                    st.time = Some(t.saturating_sub(1));
                },
                None => {},
            }
            assert(st@ == step_status(orig));
            let expired = Self::is_status_expired(&st);
            if expired {
                fire_status(&mut self.effects, &st, &TriggerQuery::Break, uid, uid, uid, false);
            }
            proof {
                let pre = sorted.subrange(0, i as int);
                assert(sorted.subrange(0, i as int + 1).drop_last() =~= pre);
                assert(sorted.subrange(0, i as int + 1).last() == orig);
            }
            let ghost sv = st@;
            let ghost kept0 = kept@;
            let ghost gone0 = gone@;
            if expired {
                gone.push(st);
                assert(statuses_view(gone@) =~= statuses_view(gone0).push(sv));
                assert(statuses_view(kept@) =~= statuses_view(kept0));
            } else {
                kept.push(st);
                assert(statuses_view(kept@) =~= statuses_view(kept0).push(sv));
                assert(statuses_view(gone@) =~= statuses_view(gone0));
            }
            i = i + 1;
            assert(statuses_view(rest@) =~= sorted.subrange(i as int, n as int));
        }
        assert(sorted.subrange(0, n as int) =~= sorted);
        let ghost keptv = statuses_view(kept@);
        let mut flags: Vec<u32> = Vec::new();
        let mut k: usize = 0;
        while k < kept.len()
            invariant
                k <= kept@.len(),
                keptv == statuses_view(kept@),
                flags@ == all_flags(keptv.subrange(0, k as int)),
            decreases kept.len() - k,
        {
            let fs = &kept[k].status.flags;
            let ghost f0 = flags@;
            let mut j: usize = 0;
            while j < fs.len()
                invariant
                    j <= fs@.len(),
                    flags@ == f0 + fs@.subrange(0, j as int),
                decreases fs.len() - j,
            {
                flags.push(fs[j]);
                j = j + 1;
                assert(flags@ =~= f0 + fs@.subrange(0, j as int));
            }
            proof {
                assert(fs@.subrange(0, fs@.len() as int) =~= fs@);
                assert(keptv.subrange(0, k as int + 1).drop_last() =~= keptv.subrange(0, k as int));
                assert(keptv[k as int] == kept@[k as int]@);
            }
            k = k + 1;
        }
        assert(keptv.subrange(0, keptv.len() as int) =~= keptv);
        unit.all_statuses = kept;
        unit.flags = flags;
        let ghost q1 = self.effects.queues();
        let ghost units = unit_views(self.model.units@);
        let ghost gonev = statuses_view(gone@);
        let mut g: usize = 0;
        while g < gone.len()
            invariant
                g <= gone@.len(),
                gonev == statuses_view(gone@),
                units == unit_views(self.model.units@),
                self.model == old(self).model,
                self.effects.queues() == drop_queues(q1, units, unit@, gonev.subrange(0, g as int)),
            decreases gone.len() - g,
        {
            let st = &gone[g];
            assert(gonev[g as int] == st@);
            self.trigger_status_drop(&*unit, st.owner, st.id, &st.status.name);
            assert(gonev.subrange(0, g as int + 1).drop_last() =~= gonev.subrange(0, g as int));
            g = g + 1;
        }
        assert(gonev.subrange(0, gonev.len() as int) =~= gonev);
    }
}

} // verus!
