//! The insights of a strategy, and what a batch of broker reports does to them.
use rustc_hash::FxHashSet;
use vstd::prelude::*;

use crate::ids::{id_set, id_set_holds, id_set_insert, uuid_chars};
use crate::insight::{Insight, InsightState, InsightView, TradeUpdateEvent};
use crate::number::Number;
use crate::text::{list_holds, listed, text_eq};
use crate::time::UtcTime;
use crate::trade::{
    apply_step, event_matches, step_of, stepped, trade_event_matches_insight, trade_step, Order,
    OrderView, TradeStep,
};

verus! {

/// The insights of a strategy, each under its own id, with the ids of those whose state is not
/// yet written out.
pub struct InsightCollection {
    insights: Vec<Insight>,
    dirty: Vec<u128>,
}

/// The models of a list of insights.
pub open spec fn views(insights: Seq<Insight>) -> Seq<InsightView> {
    insights.map_values(|i: Insight| i@)
}

/// Whether no two insights have the same id.
pub open spec fn ids_distinct(insights: Seq<InsightView>) -> bool {
    forall|i: int, j: int|
        0 <= i < j < insights.len() ==> (#[trigger] insights[i]).insight_id != (
        #[trigger] insights[j]).insight_id
}

/// Whether an insight with the id `id` stands at `at`.
pub open spec fn at_id(insights: Seq<InsightView>, id: u128, at: int) -> bool {
    0 <= at < insights.len() && insights[at].insight_id == id
}

/// Whether some insight has the id `id`.
pub open spec fn has_id(insights: Seq<InsightView>, id: u128) -> bool {
    exists|at: int| at_id(insights, id, at)
}

/// The ids of a list of insights.
pub open spec fn ids_of(insights: Seq<InsightView>) -> Seq<u128> {
    insights.map_values(|i: InsightView| i.insight_id)
}

/// The ids of the insights that `keep` holds of, in order.
pub open spec fn ids_where(
    insights: Seq<InsightView>,
    keep: spec_fn(InsightView) -> bool,
) -> Seq<u128>
    decreases insights.len(),
{
    if insights.len() == 0 {
        Seq::empty()
    } else {
        let rest = ids_where(insights.drop_last(), keep);
        if keep(insights.last()) {
            rest.push(insights.last().insight_id)
        } else {
            rest
        }
    }
}

/// The insights that `keep` holds of, in order.
pub open spec fn insights_where(
    insights: Seq<InsightView>,
    keep: spec_fn(InsightView) -> bool,
) -> Seq<InsightView>
    decreases insights.len(),
{
    if insights.len() == 0 {
        Seq::empty()
    } else {
        let rest = insights_where(insights.drop_last(), keep);
        if keep(insights.last()) {
            rest.push(insights.last())
        } else {
            rest
        }
    }
}

proof fn kept_ids_stay_distinct(insights: Seq<InsightView>, keep: spec_fn(InsightView) -> bool)
    requires
        ids_distinct(insights),
    ensures
        ids_distinct(insights_where(insights, keep)),
        forall|k: int|
            0 <= k < insights_where(insights, keep).len() ==> has_id(
                insights,
                (#[trigger] insights_where(insights, keep)[k]).insight_id,
            ),
    decreases insights.len(),
{
    if insights.len() > 0 {
        let shorter = insights.drop_last();
        let rest = insights_where(shorter, keep);
        kept_ids_stay_distinct(shorter, keep);
        let kept = insights_where(insights, keep);
        assert forall|k: int| 0 <= k < kept.len() implies has_id(
            insights,
            (#[trigger] kept[k]).insight_id,
        ) by {
            if k < rest.len() {
                assert(has_id(shorter, rest[k].insight_id));
                let at = choose|at: int| at_id(shorter, rest[k].insight_id, at);
                assert(at_id(insights, kept[k].insight_id, at));
            } else {
                assert(at_id(insights, kept[k].insight_id, insights.len() - 1));
            }
        }
        assert forall|i: int, j: int| 0 <= i < j < kept.len() implies (
        #[trigger] kept[i]).insight_id != (#[trigger] kept[j]).insight_id by {
            if j == rest.len() {
                assert(has_id(shorter, rest[i].insight_id));
                let at = choose|at: int| at_id(shorter, rest[i].insight_id, at);
                assert(insights[at].insight_id != insights[insights.len() - 1].insight_id);
            }
        }
    }
}

proof fn views_of_rest(waiting: Seq<Insight>, all: Seq<InsightView>, i: int)
    requires
        0 <= i < all.len(),
        views(waiting) == all.skip(i),
    ensures
        views(waiting.remove(0)) == all.skip(i + 1),
{
    assert(waiting.len() == views(waiting).len());
    let rest = waiting.remove(0);
    assert forall|k: int| 0 <= k < rest.len() implies views(rest)[k] == all.skip(i + 1)[k] by {
        assert(rest[k] == waiting[k + 1]);
        assert(views(waiting)[k + 1] == all.skip(i)[k + 1]);
    }
    assert(views(rest) =~= all.skip(i + 1));
}

/// Whether `after` is `before` with `insight`: in the place of the one that has its id, or at the
/// end.
pub open spec fn took_in(
    before: Seq<InsightView>,
    after: Seq<InsightView>,
    insight: InsightView,
) -> bool {
    if has_id(before, insight.insight_id) {
        exists|at: int| #[trigger]
            at_id(before, insight.insight_id, at) && after == before.update(at, insight)
    } else {
        after == before.push(insight)
    }
}

/// `dirty` without `id`.
pub open spec fn unmarked(dirty: Seq<u128>, id: u128) -> Seq<u128>
    decreases dirty.len(),
{
    if dirty.len() == 0 {
        Seq::empty()
    } else if dirty.last() == id {
        unmarked(dirty.drop_last(), id)
    } else {
        unmarked(dirty.drop_last(), id).push(dirty.last())
    }
}

proof fn unmarked_holds_others(dirty: Seq<u128>, id: u128)
    requires
        dirty.no_duplicates(),
    ensures
        unmarked(dirty, id).no_duplicates(),
        forall|d: u128| #[trigger]
            unmarked(dirty, id).contains(d) <==> dirty.contains(d) && d != id,
    decreases dirty.len(),
{
    if dirty.len() > 0 {
        let shorter = dirty.drop_last();
        let rest = unmarked(shorter, id);
        unmarked_holds_others(shorter, id);
        let all = unmarked(dirty, id);
        assert forall|d: u128| #[trigger] all.contains(d) <==> dirty.contains(d) && d != id by {
            assert(rest.contains(d) <==> shorter.contains(d) && d != id);
            if all.contains(d) {
                let k = choose|k: int| 0 <= k < all.len() && all[k] == d;
                if k < rest.len() {
                    assert(rest[k] == d);
                    let m = choose|m: int| 0 <= m < shorter.len() && shorter[m] == d;
                    assert(dirty[m] == d);
                } else {
                    assert(dirty[dirty.len() - 1] == d);
                }
            }
            if dirty.contains(d) && d != id {
                let m = choose|m: int| 0 <= m < dirty.len() && dirty[m] == d;
                if m < shorter.len() {
                    assert(shorter[m] == d);
                    let k = choose|k: int| 0 <= k < rest.len() && rest[k] == d;
                    assert(all[k] == d);
                } else {
                    assert(all[all.len() - 1] == d);
                }
            }
        }
        if dirty.last() != id {
            assert(!rest.contains(dirty.last())) by {
                if shorter.contains(dirty.last()) {
                    let m = choose|m: int| 0 <= m < shorter.len() && shorter[m] == dirty.last();
                    assert(dirty[m] == dirty[dirty.len() - 1]);
                }
            }
            assert forall|i: int, j: int| 0 <= i < all.len() && 0 <= j < all.len() && i
                != j implies all[i] != all[j] by {
                if i == rest.len() {
                    assert(rest.contains(all[j]));
                } else if j == rest.len() {
                    assert(rest.contains(all[i]));
                }
            }
        }
    }
}

/// `dirty` with `id`, listed once.
pub open spec fn marked(dirty: Seq<u128>, id: u128) -> Seq<u128> {
    if dirty.contains(id) {
        dirty
    } else {
        dirty.push(id)
    }
}

impl InsightCollection {
    /// The models of the insights, in the order in which they were added.
    pub closed spec fn insights_view(&self) -> Seq<InsightView> {
        views(self.insights@)
    }

    /// The ids of the insights to write out, in the order in which they changed.
    pub closed spec fn dirty_view(&self) -> Seq<u128> {
        self.dirty@
    }

    /// Each insight has an id of its own, and each changed id is listed once.
    pub open spec fn wf(&self) -> bool {
        &&& ids_distinct(self.insights_view())
        &&& self.dirty_view().no_duplicates()
    }

    /// No insights.
    pub fn new() -> (r: InsightCollection)
        ensures
            r.wf(),
            r.insights_view() == Seq::<InsightView>::empty(),
            r.dirty_view() == Seq::<u128>::empty(),
    {
        let r = InsightCollection { insights: Vec::new(), dirty: Vec::new() };
        proof {
            assert(r.insights_view() =~= Seq::<InsightView>::empty());
        }
        r
    }

    /// The number of insights.
    pub fn len(&self) -> (r: usize)
        ensures
            r == self.insights_view().len(),
    {
        self.insights.len()
    }

    /// The insight at `at`.
    pub fn at(&self, at: usize) -> (r: &Insight)
        requires
            at < self.insights_view().len(),
        ensures
            r@ == self.insights_view()[at as int],
    {
        &self.insights[at]
    }

    /// The place of the insight with the id `id`.
    pub fn position(&self, id: u128) -> (r: Option<usize>)
        ensures
            match r {
                Some(at) => at_id(self.insights_view(), id, at as int),
                None => !has_id(self.insights_view(), id),
            },
    {
        let mut i: usize = 0;
        while i < self.insights.len()
            invariant
                i <= self.insights.len(),
                forall|k: int| 0 <= k < i ==> !at_id(self.insights_view(), id, k),
            decreases self.insights.len() - i,
        {
            if self.insights[i].insight_id == id {
                return Some(i);
            }
            i = i + 1;
        }
        None
    }

    /// The insight with the id `id`.
    pub fn get(&self, id: u128) -> (r: Option<&Insight>)
        ensures
            match r {
                Some(insight) => exists|at: int|
                    #[trigger] at_id(self.insights_view(), id, at) && insight@
                        == self.insights_view()[at],
                None => !has_id(self.insights_view(), id),
            },
    {
        match self.position(id) {
            Some(at) => {
                proof {
                    assert(at_id(self.insights_view(), id, at as int));
                }
                Some(&self.insights[at])
            },
            None => None,
        }
    }

    /// The ids of all insights.
    pub fn ids(&self) -> (r: Vec<u128>)
        ensures
            r@ == ids_of(self.insights_view()),
    {
        let mut out: Vec<u128> = Vec::new();
        let mut i: usize = 0;
        while i < self.insights.len()
            invariant
                i <= self.insights.len(),
                out@ == ids_of(self.insights_view().take(i as int)),
            decreases self.insights.len() - i,
        {
            out.push(self.insights[i].insight_id);
            i = i + 1;
            proof {
                assert(out@ =~= ids_of(self.insights_view().take(i as int)));
            }
        }
        proof {
            assert(self.insights_view().take(i as int) =~= self.insights_view());
        }
        out
    }

    /// The ids of the insights that are not yet closed, cancelled or rejected.
    pub fn active_insight_ids(&self) -> (r: Vec<u128>)
        ensures
            r@ == ids_where(self.insights_view(), |i: InsightView| !i.state.inactive()),
    {
        let ghost keep = |i: InsightView| !i.state.inactive();
        let mut out: Vec<u128> = Vec::new();
        let mut i: usize = 0;
        while i < self.insights.len()
            invariant
                i <= self.insights.len(),
                keep == (|i: InsightView| !i.state.inactive()),
                out@ == ids_where(self.insights_view().take(i as int), keep),
            decreases self.insights.len() - i,
        {
            proof {
                assert(self.insights_view().take(i + 1).drop_last()
                    =~= self.insights_view().take(i as int));
            }
            if !self.insights[i].state.is_inactive() {
                out.push(self.insights[i].insight_id);
            }
            i = i + 1;
        }
        proof {
            assert(self.insights_view().take(i as int) =~= self.insights_view());
        }
        out
    }

    /// The number of insights in `state`.
    pub fn count_in_state(&self, state: InsightState) -> (r: usize)
        ensures
            r == ids_where(self.insights_view(), |i: InsightView| i.state == state).len(),
    {
        let ghost keep = |i: InsightView| i.state == state;
        let mut n: usize = 0;
        let mut i: usize = 0;
        while i < self.insights.len()
            invariant
                n <= i <= self.insights.len(),
                keep == (|i: InsightView| i.state == state),
                n == ids_where(self.insights_view().take(i as int), keep).len(),
            decreases self.insights.len() - i,
        {
            proof {
                assert(self.insights_view().take(i + 1).drop_last()
                    =~= self.insights_view().take(i as int));
            }
            if self.insights[i].state == state {
                n = n + 1;
            }
            i = i + 1;
        }
        proof {
            assert(self.insights_view().take(i as int) =~= self.insights_view());
        }
        n
    }

    /// The ids of the insights whose parent is one of `parents`.
    pub fn child_ids_for_parents(&self, parents: &FxHashSet<u128>) -> (r: Vec<u128>)
        ensures
            r@ == ids_where(
                self.insights_view(),
                |i: InsightView| i.parent_id matches Some(p) && parents@.contains(p),
            ),
    {
        let ghost keep = |i: InsightView| i.parent_id matches Some(p) && parents@.contains(p);
        let mut out: Vec<u128> = Vec::new();
        let mut i: usize = 0;
        while i < self.insights.len()
            invariant
                i <= self.insights.len(),
                keep == (|i: InsightView| i.parent_id matches Some(p) && parents@.contains(p)),
                out@ == ids_where(self.insights_view().take(i as int), keep),
            decreases self.insights.len() - i,
        {
            proof {
                assert(self.insights_view().take(i + 1).drop_last()
                    =~= self.insights_view().take(i as int));
            }
            match self.insights[i].parent_id {
                Some(p) => {
                    if id_set_holds(parents, p) {
                        out.push(self.insights[i].insight_id);
                    }
                },
                None => {},
            }
            i = i + 1;
        }
        proof {
            assert(self.insights_view().take(i as int) =~= self.insights_view());
        }
        out
    }

    /// Marks the insight `id` as changed.
    pub fn refresh_runtime_tracking(&mut self, id: u128)
        requires
            old(self).wf(),
        ensures
            final(self).wf(),
            final(self).insights_view() == old(self).insights_view(),
            final(self).dirty_view() == marked(old(self).dirty_view(), id),
    {
        let mut i: usize = 0;
        while i < self.dirty.len()
            invariant
                i <= self.dirty.len(),
                old(self).wf(),
                *self == *old(self),
                forall|k: int| 0 <= k < i ==> self.dirty@[k] != id,
            decreases self.dirty.len() - i,
        {
            if self.dirty[i] == id {
                return;
            }
            i = i + 1;
        }
        self.dirty.push(id);
    }

    /// Whether any insight is marked as changed.
    pub fn has_dirty_insights(&self) -> (r: bool)
        ensures
            r == (self.dirty_view().len() > 0),
    {
        self.dirty.len() > 0
    }

    /// The ids of the insights to write to the cloud: all of them, or those that are marked as
    /// changed.
    pub fn insight_ids_for_live_sync(&self, full: bool) -> (r: Vec<u128>)
        ensures
            r@ == (if full {
                ids_of(self.insights_view())
            } else {
                self.dirty_view()
            }),
    {
        if full {
            return self.ids();
        }
        let mut out: Vec<u128> = Vec::new();
        let mut i: usize = 0;
        while i < self.dirty.len()
            invariant
                i <= self.dirty.len(),
                out@ == self.dirty@.take(i as int),
            decreases self.dirty.len() - i,
        {
            out.push(self.dirty[i]);
            i = i + 1;
            proof {
                assert(out@ =~= self.dirty@.take(i as int));
            }
        }
        proof {
            assert(self.dirty@.take(i as int) =~= self.dirty@);
        }
        out
    }

    /// Forgets that the insight `id` was changed.
    pub fn remove_dirty(&mut self, id: u128)
        requires
            old(self).wf(),
        ensures
            final(self).wf(),
            final(self).insights_view() == old(self).insights_view(),
            final(self).dirty_view() == unmarked(old(self).dirty_view(), id),
    {
        let mut kept: Vec<u128> = Vec::new();
        let mut i: usize = 0;
        while i < self.dirty.len()
            invariant
                i <= self.dirty.len(),
                *self == *old(self),
                kept@ == unmarked(self.dirty@.take(i as int), id),
            decreases self.dirty.len() - i,
        {
            proof {
                assert(self.dirty@.take(i + 1).drop_last() =~= self.dirty@.take(i as int));
            }
            if self.dirty[i] != id {
                kept.push(self.dirty[i]);
            }
            i = i + 1;
        }
        proof {
            assert(self.dirty@.take(i as int) =~= self.dirty@);
            unmarked_holds_others(self.dirty@, id);
        }
        self.dirty = kept;
    }

    /// Takes the insight `id` out, if it is closed, cancelled or rejected.
    pub fn prune_terminal_insight(&mut self, id: u128)
        requires
            old(self).wf(),
        ensures
            final(self).wf(),
            final(self).dirty_view() == old(self).dirty_view(),
            final(self).insights_view() == insights_where(
                old(self).insights_view(),
                |i: InsightView| !(i.insight_id == id && i.state.inactive()),
            ),
    {
        let ghost keep = |i: InsightView| !(i.insight_id == id && i.state.inactive());
        let ghost all = self.insights_view();
        let mut waiting: Vec<Insight> = Vec::new();
        waiting.append(&mut self.insights);
        let mut kept: Vec<Insight> = Vec::new();
        let n = waiting.len();
        let mut i: usize = 0;
        proof {
            assert(views(waiting@) =~= all.skip(0));
            assert(views(kept@) =~= Seq::<InsightView>::empty());
        }
        while i < n
            invariant
                i <= n,
                n == all.len(),
                all == old(self).insights_view(),
                self.dirty_view() == old(self).dirty_view(),
                keep == (|i: InsightView| !(i.insight_id == id && i.state.inactive())),
                views(waiting@) == all.skip(i as int),
                views(kept@) == insights_where(all.take(i as int), keep),
            decreases n - i,
        {
            proof {
                assert(waiting@.len() == views(waiting@).len());
                assert(all.take(i + 1).drop_last() =~= all.take(i as int));
            }
            let ghost before = waiting@;
            let insight = waiting.remove(0);
            proof {
                assert(insight@ == views(before)[0]);
                views_of_rest(before, all, i as int);
            }
            if !(insight.insight_id == id && insight.state.is_inactive()) {
                let ghost so_far = views(kept@);
                let ghost v = insight@;
                kept.push(insight);
                proof {
                    assert(views(kept@) =~= so_far.push(v));
                }
            }
            i = i + 1;
        }
        proof {
            assert(all.take(i as int) =~= all);
            kept_ids_stay_distinct(all, keep);
        }
        self.insights = kept;
    }

    /// Takes out all insights that are closed, cancelled or rejected, and hands out their ids.
    pub fn prune_terminal_insights_without_aqs(&mut self) -> (r: Vec<u128>)
        requires
            old(self).wf(),
        ensures
            final(self).wf(),
            final(self).dirty_view() == old(self).dirty_view(),
            final(self).insights_view() == insights_where(
                old(self).insights_view(),
                |i: InsightView| !i.state.inactive(),
            ),
            r@ == ids_where(old(self).insights_view(), |i: InsightView| i.state.inactive()),
    {
        let ghost keep = |i: InsightView| !i.state.inactive();
        let ghost drop = |i: InsightView| i.state.inactive();
        let ghost all = self.insights_view();
        let mut waiting: Vec<Insight> = Vec::new();
        waiting.append(&mut self.insights);
        let mut kept: Vec<Insight> = Vec::new();
        let mut pruned: Vec<u128> = Vec::new();
        let n = waiting.len();
        let mut i: usize = 0;
        proof {
            assert(views(waiting@) =~= all.skip(0));
            assert(views(kept@) =~= Seq::<InsightView>::empty());
        }
        while i < n
            invariant
                i <= n,
                n == all.len(),
                all == old(self).insights_view(),
                self.dirty_view() == old(self).dirty_view(),
                keep == (|i: InsightView| !i.state.inactive()),
                drop == (|i: InsightView| i.state.inactive()),
                views(waiting@) == all.skip(i as int),
                views(kept@) == insights_where(all.take(i as int), keep),
                pruned@ == ids_where(all.take(i as int), drop),
            decreases n - i,
        {
            proof {
                assert(waiting@.len() == views(waiting@).len());
                assert(all.take(i + 1).drop_last() =~= all.take(i as int));
            }
            let ghost before = waiting@;
            let insight = waiting.remove(0);
            proof {
                assert(insight@ == views(before)[0]);
                views_of_rest(before, all, i as int);
            }
            if insight.state.is_inactive() {
                pruned.push(insight.insight_id);
            } else {
                let ghost so_far = views(kept@);
                let ghost v = insight@;
                kept.push(insight);
                proof {
                    assert(views(kept@) =~= so_far.push(v));
                }
            }
            i = i + 1;
        }
        proof {
            assert(all.take(i as int) =~= all);
            kept_ids_stay_distinct(all, keep);
        }
        self.insights = kept;
        pruned
    }

    /// Hands out the ids of the changed insights and forgets them.
    pub fn take_dirty_insight_ids(&mut self) -> (r: Vec<u128>)
        requires
            old(self).wf(),
        ensures
            final(self).wf(),
            r@ == old(self).dirty_view(),
            final(self).insights_view() == old(self).insights_view(),
            final(self).dirty_view() == Seq::<u128>::empty(),
    {
        let mut taken: Vec<u128> = Vec::new();
        taken.append(&mut self.dirty);
        taken
    }

    /// Adds `insight`, in the place of the one that has its id, and marks it as changed.
    pub fn add_insight(&mut self, insight: Insight)
        requires
            old(self).wf(),
        ensures
            final(self).wf(),
            took_in(old(self).insights_view(), final(self).insights_view(), insight@),
            final(self).dirty_view() == marked(old(self).dirty_view(), insight.insight_id),
    {
        let id = insight.insight_id;
        let ghost before = self.insights_view();
        let ghost added = insight@;
        match self.position(id) {
            Some(at) => {
                self.insights.set(at, insight);
                proof {
                    assert(self.insights_view() =~= before.update(at as int, added));
                    assert(at_id(before, id, at as int));
                }
            },
            None => {
                self.insights.push(insight);
                proof {
                    assert(self.insights_view() =~= before.push(added));
                    assert forall|k: int| 0 <= k < before.len() implies (
                    #[trigger] before[k]).insight_id != id by {
                        assert(!at_id(before, id, k));
                    }
                }
            },
        }
        self.refresh_runtime_tracking(id);
    }

    /// Cancels the insight at `at`.
    pub fn cancel_at(&mut self, at: usize, message: &str, now: UtcTime)
        requires
            old(self).wf(),
            at < old(self).insights_view().len(),
        ensures
            final(self).wf(),
            final(self).dirty_view() == old(self).dirty_view(),
            final(self).insights_view() == old(self).insights_view().update(
                at as int,
                old(self).insights_view()[at as int].cancelled(message@, now),
            ),
    {
        let ghost before = self.insights_view();
        self.insights[at].order_cancelled(message, now);
        proof {
            assert(self.insights_view() =~= before.update(
                at as int,
                before[at as int].cancelled(message@, now),
            ));
        }
    }

    /// Marks the insight at `at` as being closed, or as being cancelled.
    pub(crate) fn mark_at(&mut self, at: usize, close: bool)
        requires
            old(self).wf(),
            at < old(self).insights_view().len(),
        ensures
            final(self).wf(),
            final(self).dirty_view() == old(self).dirty_view(),
            final(self).insights_view() == old(self).insights_view().update(
                at as int,
                old(self).insights_view()[at as int].requested(close),
            ),
    {
        let ghost before = self.insights_view();
        if close {
            self.insights[at].mark_closing();
        } else {
            self.insights[at].mark_cancelling();
        }
        proof {
            assert(self.insights_view() =~= before.update(
                at as int,
                before[at as int].requested(close),
            ));
        }
    }

    /// Takes the insight at `at` out.
    pub(crate) fn remove_at(&mut self, at: usize) -> (r: Insight)
        requires
            old(self).wf(),
            at < old(self).insights_view().len(),
        ensures
            final(self).wf(),
            final(self).dirty_view() == old(self).dirty_view(),
            final(self).insights_view() == old(self).insights_view().remove(at as int),
            r@ == old(self).insights_view()[at as int],
    {
        let ghost before = self.insights_view();
        let insight = self.insights.remove(at);
        proof {
            assert(self.insights_view() =~= before.remove(at as int));
        }
        insight
    }

    /// Puts `insight` in at `at`.
    pub(crate) fn insert_at(&mut self, at: usize, insight: Insight)
        requires
            old(self).wf(),
            at <= old(self).insights_view().len(),
            !has_id(old(self).insights_view(), insight.insight_id),
        ensures
            final(self).wf(),
            final(self).dirty_view() == old(self).dirty_view(),
            final(self).insights_view() == old(self).insights_view().insert(at as int, insight@),
    {
        let ghost before = self.insights_view();
        let ghost added = insight@;
        self.insights.insert(at, insight);
        proof {
            let after = self.insights_view();
            assert(after =~= before.insert(at as int, added));
            assert forall|k: int| 0 <= k < before.len() implies (#[trigger] before[k]).insight_id
                != added.insight_id by {
                assert(!at_id(before, added.insight_id, k));
            }
            assert forall|i: int, j: int| 0 <= i < j < after.len() implies (
            #[trigger] after[i]).insight_id != (#[trigger] after[j]).insight_id by {
                let a = if i < at {
                    i
                } else {
                    i - 1
                };
                let b = if j < at {
                    j
                } else {
                    j - 1
                };
                if i != at {
                    assert(after[i] == before[a]);
                }
                if j != at {
                    assert(after[j] == before[b]);
                }
            }
        }
    }

    /// Takes the insight with the id `id` out.
    pub fn remove_insight(&mut self, id: u128) -> (r: Option<Insight>)
        requires
            old(self).wf(),
        ensures
            final(self).wf(),
            final(self).dirty_view() == old(self).dirty_view(),
            match r {
                Some(insight) => exists|at: int|
                    #[trigger] at_id(old(self).insights_view(), id, at) && insight@
                        == old(self).insights_view()[at] && final(self).insights_view() == old(
                        self,
                    ).insights_view().remove(at),
                None => !has_id(old(self).insights_view(), id) && final(self).insights_view()
                    == old(self).insights_view(),
            },
    {
        let ghost before = self.insights_view();
        match self.position(id) {
            Some(at) => {
                let insight = self.insights.remove(at);
                proof {
                    assert(self.insights_view() =~= before.remove(at as int));
                    assert(at_id(before, id, at as int));
                }
                Some(insight)
            },
            None => None,
        }
    }
}

/// What a batch of reports has brought about so far.
#[verifier::ext_equal]
pub struct TradeState {
    pub insights: Seq<InsightView>,
    pub children: Seq<u128>,
    pub parents: Seq<u128>,
    pub touched: Set<u128>,
}

/// Whether the report changes `insight`: the symbol agrees, the order is one of the insight's,
/// and the insight's state gives the report a meaning.
pub open spec fn hits(insight: InsightView, order: OrderView, event: TradeUpdateEvent) -> bool {
    &&& insight.symbol == order.symbol
    &&& event_matches(insight, order)
    &&& step_of(insight.state, event, order.side == insight.side) is Some
}

/// The first insight that the report changes, counted from `from`.
pub open spec fn first_hit(
    insights: Seq<InsightView>,
    order: OrderView,
    event: TradeUpdateEvent,
    from: int,
) -> Option<int>
    decreases insights.len() - from,
{
    if from < 0 || from >= insights.len() {
        None
    } else if hits(insights[from], order, event) {
        Some(from)
    } else {
        first_hit(insights, order, event, from + 1)
    }
}

/// The children that a step lets go: those of an insight that was waiting for its fill.
pub open spec fn released(insight: InsightView, step: TradeStep) -> Seq<u128> {
    if step is AcceptAndFill || step is Fill {
        insight.children
    } else {
        Seq::empty()
    }
}

/// The parent whose children a step calls into question: the insight's own parent after a fill,
/// the insight itself once it is cancelled, rejected or closed.
pub open spec fn questioned(insight: InsightView, step: TradeStep) -> Seq<u128> {
    if step is AcceptAndFill || step is Fill || step is LateFill {
        match insight.parent_id {
            Some(parent) => seq![parent],
            None => Seq::empty(),
        }
    } else if step is Cancel || step is Reject || step is Close {
        seq![insight.insight_id]
    } else {
        Seq::empty()
    }
}

/// The state of affairs after one report. A report on a symbol outside the universe is dropped.
pub open spec fn after_event(
    s: TradeState,
    universe: Seq<String>,
    order: OrderView,
    event: TradeUpdateEvent,
    now: UtcTime,
) -> TradeState {
    if !listed(universe, order.symbol) {
        s
    } else {
        match first_hit(s.insights, order, event, 0) {
            None => s,
            Some(at) => {
                let insight = s.insights[at];
                let step = step_of(insight.state, event, order.side == insight.side)->Some_0;
                TradeState {
                    insights: s.insights.update(at, stepped(insight, order, step, now)),
                    children: s.children + released(insight, step),
                    parents: s.parents + questioned(insight, step),
                    touched: s.touched.insert(insight.insight_id),
                }
            },
        }
    }
}

/// The state of affairs after a batch of reports.
pub open spec fn after_events(
    s: TradeState,
    universe: Seq<String>,
    events: Seq<(Order, TradeUpdateEvent)>,
    now: UtcTime,
) -> TradeState
    decreases events.len(),
{
    if events.len() == 0 {
        s
    } else {
        after_event(
            after_events(s, universe, events.drop_last(), now),
            universe,
            events.last().0@,
            events.last().1,
            now,
        )
    }
}

/// What a batch of reports asks to be done besides the insights it changed.
pub struct TradeEffects {
    /// The insights to submit now that their parents are filled, in order.
    pub children_to_submit: Vec<u128>,
    /// The insights whose children may have to be closed or cancelled.
    pub parents_to_reconcile: Vec<u128>,
    /// The insights that changed.
    pub touched: FxHashSet<u128>,
}

/// A step keeps the insights' ids.
pub proof fn event_keeps_ids(
    s: TradeState,
    universe: Seq<String>,
    order: OrderView,
    event: TradeUpdateEvent,
    now: UtcTime,
)
    ensures
        ids_of(after_event(s, universe, order, event, now).insights) == ids_of(s.insights),
{
    first_hit_is_hit(s.insights, order, event, 0);
    assert(ids_of(after_event(s, universe, order, event, now).insights) =~= ids_of(s.insights));
}

proof fn first_hit_is_hit(
    insights: Seq<InsightView>,
    order: OrderView,
    event: TradeUpdateEvent,
    from: int,
)
    requires
        0 <= from,
    ensures
        match first_hit(insights, order, event, from) {
            Some(at) => from <= at < insights.len() && hits(insights[at], order, event) && (forall|
                k: int,
            |
                from <= k < at ==> !hits(#[trigger] insights[k], order, event)),
            None => forall|k: int|
                from <= k < insights.len() ==> !hits(#[trigger] insights[k], order, event),
        },
    decreases insights.len() - from,
{
    if from < insights.len() && !hits(insights[from], order, event) {
        first_hit_is_hit(insights, order, event, from + 1);
    }
}

/// One report changes at most one insight: all others are as they were.
pub proof fn event_changes_one_insight(
    s: TradeState,
    universe: Seq<String>,
    order: OrderView,
    event: TradeUpdateEvent,
    now: UtcTime,
    i: int,
    j: int,
)
    requires
        0 <= i < s.insights.len(),
        0 <= j < s.insights.len(),
        i != j,
    ensures
        after_event(s, universe, order, event, now).insights.len() == s.insights.len(),
        after_event(s, universe, order, event, now).insights[i] == s.insights[i] || after_event(
            s,
            universe,
            order,
            event,
            now,
        ).insights[j] == s.insights[j],
{
    first_hit_is_hit(s.insights, order, event, 0);
}

/// What changes is marked: an insight that a batch of reports leaves unmarked is as it was.
pub proof fn unmarked_insights_are_unchanged(
    s: TradeState,
    universe: Seq<String>,
    events: Seq<(Order, TradeUpdateEvent)>,
    now: UtcTime,
    i: int,
)
    requires
        0 <= i < s.insights.len(),
    ensures
        ids_of(after_events(s, universe, events, now).insights) == ids_of(s.insights),
        after_events(s, universe, events, now).insights.len() == s.insights.len(),
        s.touched.subset_of(after_events(s, universe, events, now).touched),
        !after_events(s, universe, events, now).touched.contains(s.insights[i].insight_id)
            ==> after_events(s, universe, events, now).insights[i] == s.insights[i],
    decreases events.len(),
{
    if events.len() > 0 {
        let mid = after_events(s, universe, events.drop_last(), now);
        unmarked_insights_are_unchanged(s, universe, events.drop_last(), now, i);
        let order = events.last().0@;
        let event = events.last().1;
        event_keeps_ids(mid, universe, order, event, now);
        first_hit_is_hit(mid.insights, order, event, 0);
        assert(ids_of(mid.insights)[i] == ids_of(s.insights)[i]);
        assert(mid.insights[i].insight_id == s.insights[i].insight_id);
    }
}

/// Reports on symbols outside the universe change nothing.
pub proof fn foreign_events_change_nothing(
    s: TradeState,
    universe: Seq<String>,
    events: Seq<(Order, TradeUpdateEvent)>,
    now: UtcTime,
)
    requires
        forall|i: int|
            0 <= i < events.len() ==> !listed(universe, (#[trigger] events[i]).0.symbol@),
    ensures
        after_events(s, universe, events, now) == s,
    decreases events.len(),
{
    if events.len() > 0 {
        assert(!listed(universe, events[events.len() - 1].0.symbol@));
        assert forall|i: int| 0 <= i < events.drop_last().len() implies !listed(
            universe,
            (#[trigger] events.drop_last()[i]).0.symbol@,
        ) by {
            assert(events.drop_last()[i] == events[i]);
        }
        foreign_events_change_nothing(s, universe, events.drop_last(), now);
    }
}

fn find_hit(
    insights: &InsightCollection,
    order: &Order,
    event: TradeUpdateEvent,
) -> (r: Option<(usize, TradeStep)>)
    ensures
        match r {
            Some((at, step)) => first_hit(insights.insights_view(), order@, event, 0) == Some(
                at as int,
            ) && at < insights.insights_view().len() && step_of(
                insights.insights_view()[at as int].state,
                event,
                order.side == insights.insights_view()[at as int].side,
            ) == Some(step),
            None => first_hit(insights.insights_view(), order@, event, 0) is None,
        },
{
    let mut i: usize = 0;
    while i < insights.insights.len()
        invariant
            i <= insights.insights.len(),
            first_hit(insights.insights_view(), order@, event, 0) == first_hit(
                insights.insights_view(),
                order@,
                event,
                i as int,
            ),
        decreases insights.insights.len() - i,
    {
        let insight = &insights.insights[i];
        proof {
            assert(insights.insights_view()[i as int] == insight@);
        }
        if text_eq(insight.symbol.as_str(), order.symbol.as_str()) && trade_event_matches_insight(
            insight,
            order,
        ) {
            match trade_step(insight.state, event, order.side == insight.side) {
                Some(step) => {
                    return Some((i, step));
                },
                None => {},
            }
        }
        i = i + 1;
    }
    None
}

impl TradeEffects {
    /// The batch's result, as a state of affairs.
    pub open spec fn state(&self, insights: Seq<InsightView>) -> TradeState {
        TradeState {
            insights,
            children: self.children_to_submit@,
            parents: self.parents_to_reconcile@,
            touched: self.touched@,
        }
    }
}

fn apply_event(
    insights: &mut InsightCollection,
    effects: &mut TradeEffects,
    universe: &Vec<String>,
    order: &Order,
    event: TradeUpdateEvent,
    now: UtcTime,
)
    requires
        old(insights).wf(),
    ensures
        final(insights).wf(),
        final(insights).dirty_view() == old(insights).dirty_view(),
        final(effects).state(final(insights).insights_view()) == after_event(
            old(effects).state(old(insights).insights_view()),
            universe@,
            order@,
            event,
            now,
        ),
{
    if !list_holds(universe, order.symbol.as_str()) {
        return;
    }
    let ghost before = insights.insights_view();
    match find_hit(insights, order, event) {
        None => {},
        Some((at, step)) => {
            let id = insights.insights[at].insight_id;
            match step {
                TradeStep::AcceptAndFill | TradeStep::Fill => {
                    let ghost children = effects.children_to_submit@;
                    let mut k: usize = 0;
                    while k < insights.insights[at].children.len()
                        invariant
                            at < insights.insights.len(),
                            k <= insights.insights@[at as int].children.len(),
                            effects.children_to_submit@ == children
                                + insights.insights@[at as int].children@.take(k as int),
                            effects.parents_to_reconcile@ == old(effects).parents_to_reconcile@,
                            effects.touched == old(effects).touched,
                        decreases insights.insights@[at as int].children.len() - k,
                    {
                        effects.children_to_submit.push(insights.insights[at].children[k]);
                        k = k + 1;
                        proof {
                            assert(effects.children_to_submit@ =~= children
                                + insights.insights@[at as int].children@.take(k as int));
                        }
                    }
                    proof {
                        assert(insights.insights@[at as int].children@.take(k as int)
                            =~= insights.insights@[at as int].children@);
                    }
                },
                _ => {},
            }
            match step {
                TradeStep::AcceptAndFill | TradeStep::Fill | TradeStep::LateFill => {
                    match insights.insights[at].parent_id {
                        Some(parent) => {
                            effects.parents_to_reconcile.push(parent);
                        },
                        None => {},
                    }
                },
                TradeStep::Cancel | TradeStep::Reject | TradeStep::Close => {
                    effects.parents_to_reconcile.push(id);
                },
                _ => {},
            }
            id_set_insert(&mut effects.touched, id);
            apply_step(&mut insights.insights[at], order, step, now);
            proof {
                let after = after_event(
                    old(effects).state(before),
                    universe@,
                    order@,
                    event,
                    now,
                );
                assert(insights.insights_view() =~= after.insights);
                event_keeps_ids(old(effects).state(before), universe@, order@, event, now);
                assert forall|i: int, j: int|
                    0 <= i < j < insights.insights_view().len() implies (
                #[trigger] insights.insights_view()[i]).insight_id != (
                #[trigger] insights.insights_view()[j]).insight_id by {
                    assert(ids_of(before)[i] != ids_of(before)[j]);
                    assert(ids_of(insights.insights_view())[i] == ids_of(before)[i]);
                    assert(ids_of(insights.insights_view())[j] == ids_of(before)[j]);
                }
                assert(effects.children_to_submit@ =~= after.children);
                assert(effects.parents_to_reconcile@ =~= after.parents);
                assert(effects.state(insights.insights_view()) =~= after);
            }
        },
    }
}

/// Takes a batch of broker reports over into the insights. Each report goes to the first insight
/// that it changes. The children of insights that were filled, the parents whose children have to
/// be looked at and the changed insights come back, for `reconcile_children` and the caller.
pub fn on_trade_update(
    insights: &mut InsightCollection,
    universe: &Vec<String>,
    events: &Vec<(Order, TradeUpdateEvent)>,
    now: UtcTime,
) -> (r: TradeEffects)
    requires
        old(insights).wf(),
    ensures
        final(insights).wf(),
        final(insights).dirty_view() == old(insights).dirty_view(),
        r.state(final(insights).insights_view()) == after_events(
            TradeState {
                insights: old(insights).insights_view(),
                children: Seq::empty(),
                parents: Seq::empty(),
                touched: Set::empty(),
            },
            universe@,
            events@,
            now,
        ),
{
    let mut effects = TradeEffects {
        children_to_submit: Vec::new(),
        parents_to_reconcile: Vec::new(),
        touched: id_set(),
    };
    let ghost start = effects.state(insights.insights_view());
    proof {
        assert(start =~= TradeState {
            insights: old(insights).insights_view(),
            children: Seq::empty(),
            parents: Seq::empty(),
            touched: Set::empty(),
        });
        assert(events@.take(0) =~= Seq::<(Order, TradeUpdateEvent)>::empty());
    }
    let mut i: usize = 0;
    while i < events.len()
        invariant
            i <= events.len(),
            insights.wf(),
            insights.dirty_view() == old(insights).dirty_view(),
            effects.state(insights.insights_view()) == after_events(
                start,
                universe@,
                events@.take(i as int),
                now,
            ),
        decreases events.len() - i,
    {
        proof {
            assert(events@.take(i + 1).drop_last() =~= events@.take(i as int));
        }
        apply_event(insights, &mut effects, universe, &events[i].0, events[i].1, now);
        i = i + 1;
    }
    proof {
        assert(events@.take(i as int) =~= events@);
    }
    effects
}

/// Whether the insight at `at` is the first that a report on `order` may be about: the universe holds
/// the symbol, no insight before it has that symbol, and the order names the insight, or the insight
/// holds the order as its own, as its closing order or as one of its legs.
pub open spec fn is_reached(
    s: TradeState,
    universe: Seq<String>,
    order: OrderView,
    at: int,
) -> bool {
    &&& exists|u: int| 0 <= u < universe.len() && (#[trigger] universe[u])@ == order.symbol
    &&& 0 <= at < s.insights.len()
    &&& s.insights[at].symbol == order.symbol
    &&& forall|k: int| 0 <= k < at ==> (#[trigger] s.insights[k]).symbol != order.symbol
    &&& {
        ||| order.insight_id == Some(uuid_chars(s.insights[at].insight_id))
        ||| s.insights[at].order_id == Some(order.order_id)
        ||| s.insights[at].close_order_id == Some(order.order_id)
        ||| (s.insights[at].legs.take_profit matches Some(leg) && leg.order_id == Some(
            order.order_id,
        ))
        ||| (s.insights[at].legs.stop_loss matches Some(leg) && leg.order_id == Some(
            order.order_id,
        ))
        ||| (s.insights[at].legs.trailing_stop matches Some(leg) && leg.order_id == Some(
            order.order_id,
        ))
    }
}

proof fn reached_is_hit(
    s: TradeState,
    universe: Seq<String>,
    order: OrderView,
    event: TradeUpdateEvent,
    at: int,
)
    requires
        is_reached(s, universe, order, at),
    ensures
        listed(universe, order.symbol),
        step_of(s.insights[at].state, event, order.side == s.insights[at].side) is Some
            ==> first_hit(s.insights, order, event, 0) == Some(at),
        step_of(s.insights[at].state, event, order.side == s.insights[at].side) is None
            ==> first_hit(s.insights, order, event, 0) != Some(at),
{
    first_hit_is_hit(s.insights, order, event, 0);
    assert(event_matches(s.insights[at], order));
    if step_of(s.insights[at].state, event, order.side == s.insights[at].side) is Some {
        assert(hits(s.insights[at], order, event));
        let found = first_hit(s.insights, order, event, 0);
        assert(found is Some);
        assert(s.insights[found->Some_0].symbol == order.symbol);
    }
}

/// A report that an order was taken makes a new insight an executed one that holds the order, and
/// nothing else: no child is released, and no parent is asked about.
pub proof fn accepted_orders_are_executed(
    s: TradeState,
    universe: Seq<String>,
    order: OrderView,
    event: TradeUpdateEvent,
    now: UtcTime,
    at: int,
)
    requires
        is_reached(s, universe, order, at),
        s.insights[at].state is New,
        event is Accepted || event is PendingNew || event is New,
    ensures
        ({
            let from = s.insights[at];
            let after = after_event(s, universe, order, event, now);
            let to = after.insights[at];
            &&& to.state is Executed
            &&& to.order_id == Some(order.order_id)
            &&& to.filled_price == from.filled_price
            &&& to.filled_at == from.filled_at
            &&& to.partial_fills == from.partial_fills
            &&& to.quantity == from.quantity
            &&& to.limit_price == from.limit_price
            &&& to.history.len() == from.history.len() + 1
            &&& to.history.last().state is Executed
            &&& to.updated_at == now
            &&& after.children == s.children
            &&& after.parents == s.parents
            &&& after.touched == s.touched.insert(from.insight_id)
        }),
{
    reached_is_hit(s, universe, order, event, at);
    let after = after_event(s, universe, order, event, now);
    assert(after.children =~= s.children);
    assert(after.parents =~= s.parents);
}

/// A report that an order was filled makes an insight that holds no position yet a filled one, at the
/// price of the fill, else at the limit, else at zero. Its children are released, unless the insight
/// was cancelled or rejected before, and its parent is asked about.
pub proof fn fills_make_whole_positions(
    s: TradeState,
    universe: Seq<String>,
    order: OrderView,
    now: UtcTime,
    at: int,
)
    requires
        is_reached(s, universe, order, at),
        s.insights[at].state is New || s.insights[at].state is Executed
            || s.insights[at].state is Cancelled || s.insights[at].state is Rejected,
    ensures
        ({
            let from = s.insights[at];
            let after = after_event(s, universe, order, TradeUpdateEvent::Filled, now);
            let to = after.insights[at];
            &&& to.state is Filled
            &&& order.filled_price matches Some(p) ==> to.filled_price == Some(p.rounded)
            &&& order.filled_price is None && order.limit_price is Some ==> to.filled_price == Some(
                order.limit_price->Some_0.rounded,
            )
            &&& order.filled_price is None && order.limit_price is None ==> to.filled_price == Some(
                Number { bits: 0 },
            )
            &&& to.filled_at == Some(now)
            &&& to.order_id == Some(order.order_id)
            &&& order.commission matches Some(c) ==> to.commission == Some(c.rounded)
            &&& order.commission is None ==> to.commission == from.commission
            &&& to.close_price == from.close_price
            &&& to.closed_at == from.closed_at
            &&& to.close_order_id == from.close_order_id
            &&& to.partial_fills == from.partial_fills
            &&& to.partial_closes == from.partial_closes
            &&& to.quantity == from.quantity
            &&& to.history.last().state is Filled
            &&& to.updated_at == now
            &&& after.children == (if from.state is New || from.state is Executed {
                s.children + from.children
            } else {
                s.children
            })
            &&& after.parents == (match from.parent_id {
                Some(parent) => s.parents.push(parent),
                None => s.parents,
            })
            &&& after.touched == s.touched.insert(from.insight_id)
        }),
{
    reached_is_hit(s, universe, order, TradeUpdateEvent::Filled, at);
    let after = after_event(s, universe, order, TradeUpdateEvent::Filled, now);
    let from = s.insights[at];
    assert(s.children + Seq::<u128>::empty() =~= s.children);
    assert(s.parents + Seq::<u128>::empty() =~= s.parents);
    if let Some(parent) = from.parent_id {
        assert(s.parents + seq![parent] =~= s.parents.push(parent));
    }
}

/// A report that part of an order was filled never makes a position whole. Of an insight that holds
/// none yet it notes exactly one part more, with the filled quantity and its price; of one that does
/// it notes exactly one part that was closed. No child is released.
pub proof fn part_fills_note_one_part(
    s: TradeState,
    universe: Seq<String>,
    order: OrderView,
    now: UtcTime,
    at: int,
)
    requires
        is_reached(s, universe, order, at),
        s.insights[at].state is New || s.insights[at].state is Executed
            || s.insights[at].state is Filled,
    ensures
        ({
            let from = s.insights[at];
            let after = after_event(s, universe, order, TradeUpdateEvent::PartialFilled, now);
            let to = after.insights[at];
            let opening = from.state is New || from.state is Executed;
            &&& to.state is Filled <==> from.state is Filled
            &&& to.state is Executed <==> opening
            &&& to.filled_price == from.filled_price
            &&& to.filled_at == from.filled_at
            &&& to.close_price == from.close_price
            &&& to.closed_at == from.closed_at
            &&& to.quantity == from.quantity
            &&& opening ==> {
                &&& to.order_id == Some(order.order_id)
                &&& to.partial_closes == from.partial_closes
                &&& to.partial_fills.len() == from.partial_fills.len() + 1
                &&& to.partial_fills.drop_last() == from.partial_fills
                &&& to.partial_fills.last().quantity == order.filled_qty
                &&& to.partial_fills.last().order_id == order.order_id
                &&& order.filled_price matches Some(p) ==> to.partial_fills.last().price
                    == p.rounded
                &&& order.filled_price is None && order.limit_price is Some
                    ==> to.partial_fills.last().price == order.limit_price->Some_0.rounded
                &&& order.filled_price is None && order.limit_price is None
                    ==> to.partial_fills.last().price == (Number { bits: 0 })
                &&& to.partial_fills.last().commission == (match order.commission {
                    Some(c) => Some(c.rounded),
                    None => None,
                })
            }
            &&& !opening ==> {
                &&& to.order_id == from.order_id
                &&& to.partial_fills == from.partial_fills
                &&& to.partial_closes.len() == from.partial_closes.len() + 1
                &&& to.partial_closes.drop_last() == from.partial_closes
                &&& to.partial_closes.last().quantity == order.filled_qty
                &&& to.partial_closes.last().order_id == order.order_id
                &&& order.legs is None && order.filled_price is Some
                    ==> to.partial_closes.last().price == order.filled_price->Some_0.rounded
                &&& to.legs == from.legs
                &&& to.take_profit_levels == from.take_profit_levels
                &&& to.stop_loss_levels == from.stop_loss_levels
            }
            &&& to.updated_at == now
            &&& after.children == s.children
            &&& after.parents == s.parents
            &&& after.touched == s.touched.insert(from.insight_id)
        }),
{
    reached_is_hit(s, universe, order, TradeUpdateEvent::PartialFilled, at);
    let after = after_event(s, universe, order, TradeUpdateEvent::PartialFilled, now);
    let from = s.insights[at];
    let to = after.insights[at];
    assert(after.children =~= s.children);
    assert(after.parents =~= s.parents);
    if from.state is Filled {
        assert(to.partial_closes.drop_last() =~= from.partial_closes);
    } else {
        assert(to.partial_fills.drop_last() =~= from.partial_fills);
    }
}

/// A report that an order was cancelled or rejected ends an insight that holds no position, says why,
/// and has its children looked after. It leaves a position as it is.
pub proof fn cancels_and_rejects_end_open_orders(
    s: TradeState,
    universe: Seq<String>,
    order: OrderView,
    event: TradeUpdateEvent,
    now: UtcTime,
    at: int,
)
    requires
        is_reached(s, universe, order, at),
        event is Cancelled || event is Rejected,
    ensures
        ({
            let from = s.insights[at];
            let after = after_event(s, universe, order, event, now);
            let to = after.insights[at];
            let open = from.state is New || from.state is Executed;
            &&& open && event is Cancelled ==> to.state is Cancelled && !to.cancelling
            &&& open && event is Rejected ==> to.state is Rejected
            &&& open ==> {
                &&& to.filled_price == from.filled_price
                &&& to.filled_at == from.filled_at
                &&& to.closed_at == from.closed_at
                &&& to.partial_fills == from.partial_fills
                &&& to.quantity == from.quantity
                &&& to.order_id == from.order_id
                &&& to.history.len() == from.history.len() + 1
                &&& to.history.last().state == to.state
                &&& to.history.last().message is Some
                &&& to.updated_at == now
                &&& after.children == s.children
                &&& after.parents == s.parents.push(from.insight_id)
                &&& after.touched == s.touched.insert(from.insight_id)
            }
            &&& !open ==> to == from
        }),
{
    reached_is_hit(s, universe, order, event, at);
    first_hit_is_hit(s.insights, order, event, 0);
    let after = after_event(s, universe, order, event, now);
    let from = s.insights[at];
    assert(s.children + Seq::<u128>::empty() =~= s.children);
    assert(s.parents + seq![from.insight_id] =~= s.parents.push(from.insight_id));
}

/// A report that an order was changed gives an executed insight the order's quantity and limit, and
/// leaves its state; it leaves any other insight as it is.
pub proof fn replaced_orders_change_terms(
    s: TradeState,
    universe: Seq<String>,
    order: OrderView,
    now: UtcTime,
    at: int,
)
    requires
        is_reached(s, universe, order, at),
    ensures
        ({
            let from = s.insights[at];
            let after = after_event(s, universe, order, TradeUpdateEvent::Replaced, now);
            let to = after.insights[at];
            &&& !(from.state is Executed) ==> to == from
            &&& from.state is Executed ==> {
                &&& to.state is Executed
                &&& to.quantity == Some(order.qty) || (to.quantity == from.quantity
                    && from.quantity is Some && from.quantity->Some_0.eq_value(order.qty))
                &&& order.limit_price is None ==> to.limit_price is None
                &&& order.limit_price matches Some(l) ==> to.limit_price == Some(l.rounded) || (
                to.limit_price == from.limit_price && from.limit_price is Some
                    && l.reported.eq_value(from.limit_price->Some_0))
                &&& to.filled_price == from.filled_price
                &&& to.partial_fills == from.partial_fills
                &&& to.order_id == from.order_id
                &&& to.history == from.history
                &&& after.children == s.children
                &&& after.parents == s.parents
                &&& after.touched == s.touched.insert(from.insight_id)
            }
        }),
{
    reached_is_hit(s, universe, order, TradeUpdateEvent::Replaced, at);
    first_hit_is_hit(s.insights, order, TradeUpdateEvent::Replaced, 0);
    assert(s.children + Seq::<u128>::empty() =~= s.children);
    assert(s.parents + Seq::<u128>::empty() =~= s.parents);
}

/// A position is closed by a report that it was, or by a fill of the other side; a fill of its own
/// side only repeats its entry. Its children are then looked after. What holds no position is not
/// closed.
pub proof fn positions_are_closed_once(
    s: TradeState,
    universe: Seq<String>,
    order: OrderView,
    event: TradeUpdateEvent,
    now: UtcTime,
    at: int,
)
    requires
        is_reached(s, universe, order, at),
        event is Closed || (event is Filled && (s.insights[at].state is Filled
            || s.insights[at].state is Closed)),
    ensures
        ({
            let from = s.insights[at];
            let after = after_event(s, universe, order, event, now);
            let to = after.insights[at];
            let closes = from.state is Filled && (event is Closed || order.side != from.side);
            &&& !closes ==> to == from
            &&& closes ==> {
                &&& to.state is Closed
                &&& to.closed_at == Some(now)
                &&& to.close_order_id == Some(order.order_id)
                &&& order.legs is None && order.filled_price is Some ==> to.close_price == Some(
                    order.filled_price->Some_0.rounded,
                )
                &&& to.close_price is Some
                &&& order.realized_pnl matches Some(x) ==> to.broker_realized_pnl == Some(x.rounded)
                &&& order.realized_pnl is None ==> to.broker_realized_pnl
                    == from.broker_realized_pnl
                &&& order.commission matches Some(x) ==> to.commission == Some(x.rounded)
                &&& order.commission is None ==> to.commission == from.commission
                &&& order.swap matches Some(x) ==> to.swap == Some(x.rounded)
                &&& order.swap is None ==> to.swap == from.swap
                &&& !to.closing
                &&& to.filled_price == from.filled_price
                &&& to.filled_at == from.filled_at
                &&& to.order_id == from.order_id
                &&& to.partial_closes == from.partial_closes
                &&& to.quantity == from.quantity
                &&& to.history.last().state is Closed
                &&& to.updated_at == now
                &&& after.children == s.children
                &&& after.parents == s.parents.push(from.insight_id)
                &&& after.touched == s.touched.insert(from.insight_id)
            }
        }),
{
    reached_is_hit(s, universe, order, event, at);
    first_hit_is_hit(s.insights, order, event, 0);
    let from = s.insights[at];
    assert(s.children + Seq::<u128>::empty() =~= s.children);
    assert(s.parents + seq![from.insight_id] =~= s.parents.push(from.insight_id));
}

/// Every other report leaves an insight as it is: one that an order is pending or has expired, one
/// that an order was taken where it was before, and any but a fill on an insight that is over.
pub proof fn other_reports_change_nothing(
    s: TradeState,
    universe: Seq<String>,
    order: OrderView,
    event: TradeUpdateEvent,
    now: UtcTime,
    at: int,
)
    requires
        is_reached(s, universe, order, at),
        event is Pending || event is Expired || s.insights[at].state is Closed || (!(
        s.insights[at].state is New) && (event is Accepted || event is PendingNew || event is New))
            || ((s.insights[at].state is Cancelled || s.insights[at].state is Rejected) && !(
        event is Filled)),
    ensures
        after_event(s, universe, order, event, now).insights[at] == s.insights[at],
{
    reached_is_hit(s, universe, order, event, at);
    first_hit_is_hit(s.insights, order, event, 0);
}

/// A report changes only an insight of its symbol that it is about, takes in the levels that the
/// broker manages, and keeps what an insight is: its id, parent, symbol, side, profile and children.
pub proof fn reports_change_only_what_they_are_about(
    s: TradeState,
    universe: Seq<String>,
    order: OrderView,
    event: TradeUpdateEvent,
    now: UtcTime,
    i: int,
)
    requires
        0 <= i < s.insights.len(),
    ensures
        ({
            let from = s.insights[i];
            let to = after_event(s, universe, order, event, now).insights[i];
            &&& to.insight_id == from.insight_id
            &&& to.parent_id == from.parent_id
            &&& to.symbol == from.symbol
            &&& to.side == from.side
            &&& to.profile == from.profile
            &&& to.children == from.children
            &&& to.legs == from.legs || order.legs == Some(to.legs)
            &&& to != from ==> {
                &&& from.symbol == order.symbol
                &&& exists|u: int|
                    0 <= u < universe.len() && (#[trigger] universe[u])@ == order.symbol
                &&& {
                    ||| order.insight_id == Some(uuid_chars(from.insight_id))
                    ||| from.order_id == Some(order.order_id)
                    ||| from.close_order_id == Some(order.order_id)
                    ||| (from.legs.take_profit matches Some(leg) && leg.order_id == Some(
                        order.order_id,
                    ))
                    ||| (from.legs.stop_loss matches Some(leg) && leg.order_id == Some(
                        order.order_id,
                    ))
                    ||| (from.legs.trailing_stop matches Some(leg) && leg.order_id == Some(
                        order.order_id,
                    ))
                }
            }
        }),
{
    first_hit_is_hit(s.insights, order, event, 0);
}

/// An insight becomes filled only by a report that its order was filled, and closed only by one that
/// its position was closed or filled from the other side; it is never new again.
pub proof fn states_are_reached_only_by_their_reports(
    s: TradeState,
    universe: Seq<String>,
    order: OrderView,
    event: TradeUpdateEvent,
    now: UtcTime,
    i: int,
)
    requires
        0 <= i < s.insights.len(),
        after_event(s, universe, order, event, now).insights[i].state != s.insights[i].state,
    ensures
        ({
            let from = s.insights[i].state;
            let to = after_event(s, universe, order, event, now).insights[i].state;
            &&& !(to is New)
            &&& to is Executed ==> from is New
            &&& to is Filled ==> event is Filled && !(from is Closed)
            &&& to is Closed ==> from is Filled && (event is Closed || event is Filled)
            &&& to is Cancelled ==> event is Cancelled && (from is New || from is Executed)
            &&& to is Rejected ==> event is Rejected && (from is New || from is Executed)
        }),
{
    first_hit_is_hit(s.insights, order, event, 0);
}

/// Reports are worked in one after the other: two batches are one.
pub proof fn reports_are_worked_in_in_turn(
    s: TradeState,
    universe: Seq<String>,
    first: Seq<(Order, TradeUpdateEvent)>,
    second: Seq<(Order, TradeUpdateEvent)>,
    now: UtcTime,
)
    ensures
        after_events(after_events(s, universe, first, now), universe, second, now) == after_events(
            s,
            universe,
            first + second,
            now,
        ),
        first.len() == 1 ==> after_events(s, universe, first, now) == after_event(
            s,
            universe,
            first[0].0@,
            first[0].1,
            now,
        ),
    decreases second.len(),
{
    if second.len() > 0 {
        reports_are_worked_in_in_turn(s, universe, first, second.drop_last(), now);
        assert((first + second).drop_last() =~= first + second.drop_last());
    } else {
        assert(first + second =~= first);
    }
    if first.len() == 1 {
        assert(first.drop_last() =~= Seq::empty());
        assert(after_events(s, universe, first.drop_last(), now) == s);
    }
}

/// What is kept of a list is exactly what is to be kept, in order.
pub proof fn kept_insights_are_those_to_keep(
    insights: Seq<InsightView>,
    insight: InsightView,
    keep: spec_fn(InsightView) -> bool,
)
    ensures
        keep(insight) ==> ids_where(insights.push(insight), keep) == ids_where(insights, keep).push(
            insight.insight_id,
        ),
        !keep(insight) ==> ids_where(insights.push(insight), keep) == ids_where(insights, keep),
        keep(insight) ==> insights_where(insights.push(insight), keep) == insights_where(
            insights,
            keep,
        ).push(insight),
        !keep(insight) ==> insights_where(insights.push(insight), keep) == insights_where(
            insights,
            keep,
        ),
        ids_where(Seq::empty(), keep).len() == 0,
        insights_where(Seq::empty(), keep).len() == 0,
{
    assert(insights.push(insight).drop_last() =~= insights);
}

/// An insight is active exactly while it is not over, and every active one is told.
pub proof fn active_insights_are_told(insights: &InsightCollection, r: Vec<u128>, i: int)
    requires
        call_ensures(InsightCollection::active_insight_ids, (insights,), r),
        0 <= i < insights.insights_view().len(),
        ids_distinct(insights.insights_view()),
    ensures
        r@.contains(insights.insights_view()[i].insight_id) <==> insights.insights_view()[i].state
            is New || insights.insights_view()[i].state is Executed || insights.insights_view()[i].state
            is Filled,
{
    let keep = |v: InsightView| !v.state.inactive();
    ids_of_kept(insights.insights_view(), keep, i);
}

proof fn ids_of_kept(insights: Seq<InsightView>, keep: spec_fn(InsightView) -> bool, i: int)
    requires
        0 <= i < insights.len(),
        ids_distinct(insights),
    ensures
        ids_where(insights, keep).contains(insights[i].insight_id) <==> keep(insights[i]),
    decreases insights.len(),
{
    let rest = insights.drop_last();
    let before = ids_where(rest, keep);
    let all = ids_where(insights, keep);
    let last = insights.len() - 1;
    let id = insights[i].insight_id;
    assert(ids_distinct(rest)) by {
        assert forall|a: int, b: int| 0 <= a < b < rest.len() implies (
        #[trigger] rest[a]).insight_id != (#[trigger] rest[b]).insight_id by {
            assert(insights[a].insight_id != insights[b].insight_id);
        }
    }
    if i < last {
        ids_of_kept(rest, keep, i);
        assert(insights[i].insight_id != insights[last].insight_id);
        if before.contains(id) {
            let k = choose|k: int| 0 <= k < before.len() && before[k] == id;
            assert(all[k] == id);
        }
        if all.contains(id) {
            let k = choose|k: int| 0 <= k < all.len() && all[k] == id;
            if k < before.len() {
                assert(before[k] == id);
            }
        }
    } else {
        if keep(insights[i]) {
            assert(all[before.len() as int] == id);
        } else if all.contains(id) {
            kept_ids_are_there(rest, keep, id);
            let k = choose|k: int| 0 <= k < rest.len() && (#[trigger] rest[k]).insight_id == id;
            assert(insights[k].insight_id != insights[last].insight_id);
        }
    }
}

proof fn kept_ids_are_there(
    insights: Seq<InsightView>,
    keep: spec_fn(InsightView) -> bool,
    id: u128,
)
    requires
        ids_where(insights, keep).contains(id),
    ensures
        exists|k: int| 0 <= k < insights.len() && (#[trigger] insights[k]).insight_id == id,
    decreases insights.len(),
{
    if insights.len() > 0 {
        let rest = insights.drop_last();
        let before = ids_where(rest, keep);
        let all = ids_where(insights, keep);
        let k = choose|k: int| 0 <= k < all.len() && all[k] == id;
        if k < before.len() {
            assert(before[k] == id);
            kept_ids_are_there(rest, keep, id);
            let j = choose|j: int| 0 <= j < rest.len() && (#[trigger] rest[j]).insight_id == id;
            assert(insights[j].insight_id == id);
        } else {
            assert(insights[insights.len() - 1].insight_id == id);
        }
    }
}

/// An insight that is taken in is there, under its id, in the place of the one that had it, or else
/// behind all others; the others stay, and it is to be written out.
pub proof fn insights_are_taken_in_under_their_id(i: int)
    ensures
        forall|c: &mut InsightCollection, insight: Insight| #[trigger]
            call_ensures(InsightCollection::add_insight, (c, insight), ()) ==> {
                let before = c.insights_view();
                let after = final(c).insights_view();
                &&& has_id(after, insight@.insight_id)
                &&& !has_id(before, insight@.insight_id) ==> after == before.push(insight@)
                &&& has_id(before, insight@.insight_id) ==> after.len() == before.len()
                &&& 0 <= i < before.len() && before[i].insight_id != insight@.insight_id
                    ==> after[i] == before[i]
                &&& 0 <= i < before.len() && before[i].insight_id == insight@.insight_id
                    && ids_distinct(before) ==> after[i] == insight@
                &&& final(c).dirty_view().contains(insight@.insight_id)
            },
{
    assert forall|c: &mut InsightCollection, insight: Insight| #[trigger]
        call_ensures(InsightCollection::add_insight, (c, insight), ()) implies {
        let before = c.insights_view();
        let after = final(c).insights_view();
        &&& has_id(after, insight@.insight_id)
        &&& has_id(before, insight@.insight_id) ==> after.len() == before.len()
        &&& 0 <= i < before.len() && before[i].insight_id != insight@.insight_id ==> after[i]
            == before[i]
        &&& 0 <= i < before.len() && before[i].insight_id == insight@.insight_id && ids_distinct(
            before,
        ) ==> after[i] == insight@
        &&& final(c).dirty_view().contains(insight@.insight_id)
    } by {
        let before = c.insights_view();
        let after = final(c).insights_view();
        let id = insight@.insight_id;
        let dirty = c.dirty_view();
        if !dirty.contains(id) {
            assert(dirty.push(id)[dirty.len() as int] == id);
        }
        if has_id(before, id) {
            let at = choose|at: int| #[trigger]
                at_id(before, id, at) && after == before.update(at, insight@);
            assert(at_id(after, id, at));
            if 0 <= i < before.len() && before[i].insight_id == id && ids_distinct(before) {
                if i < at {
                    assert(before[i].insight_id != before[at].insight_id);
                } else if at < i {
                    assert(before[at].insight_id != before[i].insight_id);
                }
            }
        } else {
            assert(at_id(after, id, before.len() as int));
            if 0 <= i < before.len() {
                assert(!at_id(before, id, i));
            }
        }
    }
}

/// Marks are kept once each: what is marked is there, what is unmarked is not, and all else stays.
pub proof fn marks_are_kept_once(dirty: Seq<u128>, id: u128, other: u128)
    requires
        other != id,
    ensures
        marked(dirty, id).contains(id),
        marked(dirty, id).contains(other) <==> dirty.contains(other),
        !unmarked(dirty, id).contains(id),
        unmarked(dirty, id).contains(other) <==> dirty.contains(other),
        dirty.contains(id) ==> marked(dirty, id) == dirty,
    decreases dirty.len(),
{
    let more = dirty.push(id);
    assert(more[dirty.len() as int] == id);
    if dirty.contains(other) {
        let k = choose|k: int| 0 <= k < dirty.len() && dirty[k] == other;
        assert(more[k] == other);
    }
    if more.contains(other) {
        let k = choose|k: int| 0 <= k < more.len() && more[k] == other;
        assert(dirty[k] == other);
    }
    if dirty.len() > 0 {
        let rest = dirty.drop_last();
        marks_are_kept_once(rest, id, other);
        let fewer = unmarked(rest, id);
        assert(dirty =~= rest.push(dirty.last()));
        if dirty.last() != id {
            let all = fewer.push(dirty.last());
            assert(unmarked(dirty, id) == all);
            if all.contains(id) {
                let k = choose|k: int| 0 <= k < all.len() && all[k] == id;
                assert(fewer[k] == id);
            }
            if fewer.contains(other) {
                let k = choose|k: int| 0 <= k < fewer.len() && fewer[k] == other;
                assert(all[k] == other);
            }
            if dirty.last() == other {
                assert(all[fewer.len() as int] == other);
                assert(dirty[dirty.len() - 1] == other);
            }
            if all.contains(other) && other != dirty.last() {
                let k = choose|k: int| 0 <= k < all.len() && all[k] == other;
                assert(fewer[k] == other);
            }
        }
        if rest.contains(other) {
            let k = choose|k: int| 0 <= k < rest.len() && rest[k] == other;
            assert(dirty[k] == other);
        }
        if dirty.contains(other) && dirty.last() != other {
            let k = choose|k: int| 0 <= k < dirty.len() && dirty[k] == other;
            assert(rest[k] == other);
        }
    }
}

/// An insight that is over is forgotten when it is asked for, and no other one; where the cloud is
/// not written to, all that are over are, and their ids are told.
pub proof fn only_finished_insights_are_forgotten(v: InsightView)
    ensures
        forall|c: &mut InsightCollection, id: u128, r: ()| #[trigger]
            call_ensures(InsightCollection::prune_terminal_insight, (c, id), r) ==> {
                let over = v.state is Closed || v.state is Cancelled || v.state is Rejected;
                &&& final(c).dirty_view() == c.dirty_view()
                &&& final(c).insights_view().contains(v) <==> c.insights_view().contains(v) && !(
                v.insight_id == id && over)
            },
        forall|c: &mut InsightCollection, r: Vec<u128>| #[trigger]
            call_ensures(InsightCollection::prune_terminal_insights_without_aqs, (c,), r) ==> {
                let over = v.state is Closed || v.state is Cancelled || v.state is Rejected;
                &&& final(c).dirty_view() == c.dirty_view()
                &&& final(c).insights_view().contains(v) <==> c.insights_view().contains(v)
                    && !over
                &&& c.insights_view().contains(v) && over ==> r@.contains(v.insight_id)
            },
{
    assert forall|c: &mut InsightCollection, id: u128, r: ()| #[trigger]
        call_ensures(InsightCollection::prune_terminal_insight, (c, id), r) implies (
    final(c).insights_view().contains(v) <==> c.insights_view().contains(v) && !(v.insight_id == id
        && (v.state is Closed || v.state is Cancelled || v.state is Rejected))) by {
        kept_insights_hold(
            c.insights_view(),
            v,
            |i: InsightView| !(i.insight_id == id && i.state.inactive()),
        );
    }
    assert forall|c: &mut InsightCollection, r: Vec<u128>| #[trigger]
        call_ensures(InsightCollection::prune_terminal_insights_without_aqs, (c,), r) implies {
        let over = v.state is Closed || v.state is Cancelled || v.state is Rejected;
        &&& final(c).insights_view().contains(v) <==> c.insights_view().contains(v) && !over
        &&& c.insights_view().contains(v) && over ==> r@.contains(v.insight_id)
    } by {
        kept_insights_hold(
            c.insights_view(),
            v,
            |i: InsightView| !i.state.inactive(),
        );
        if c.insights_view().contains(v) && v.state.inactive() {
            ids_of_kept_are_told(c.insights_view(), |i: InsightView| i.state.inactive(), v);
        }
    }
}

proof fn kept_insights_hold(
    insights: Seq<InsightView>,
    v: InsightView,
    keep: spec_fn(InsightView) -> bool,
)
    ensures
        insights_where(insights, keep).contains(v) <==> insights.contains(v) && keep(v),
    decreases insights.len(),
{
    if insights.len() > 0 {
        let rest = insights.drop_last();
        let last = insights.last();
        kept_insights_hold(rest, v, keep);
        let kept = insights_where(rest, keep);
        let all = insights_where(insights, keep);
        assert(insights[insights.len() - 1] == last);
        if rest.contains(v) {
            let k = choose|k: int| 0 <= k < rest.len() && rest[k] == v;
            assert(insights[k] == v);
        }
        if insights.contains(v) && v != last {
            let k = choose|k: int| 0 <= k < insights.len() && insights[k] == v;
            assert(rest[k] == v);
        }
        if kept.contains(v) {
            let k = choose|k: int| 0 <= k < kept.len() && kept[k] == v;
            assert(all[k] == v);
        }
        if keep(last) {
            assert(all[kept.len() as int] == last);
        }
        if all.contains(v) && v != last {
            let k = choose|k: int| 0 <= k < all.len() && all[k] == v;
            assert(kept[k] == v);
        }
        if all.contains(v) && !keep(last) {
            assert(kept.contains(v));
        }
    }
}

proof fn ids_of_kept_are_told(
    insights: Seq<InsightView>,
    keep: spec_fn(InsightView) -> bool,
    v: InsightView,
)
    requires
        insights.contains(v),
        keep(v),
    ensures
        ids_where(insights, keep).contains(v.insight_id),
    decreases insights.len(),
{
    let k = choose|k: int| 0 <= k < insights.len() && insights[k] == v;
    let rest = ids_where(insights.drop_last(), keep);
    let all = ids_where(insights, keep);
    if k == insights.len() - 1 {
        assert(all[rest.len() as int] == v.insight_id);
    } else {
        assert(insights.drop_last()[k] == v);
        ids_of_kept_are_told(insights.drop_last(), keep, v);
        let at = choose|at: int| 0 <= at < rest.len() && rest[at] == v.insight_id;
        assert(all[at] == v.insight_id);
    }
}

/// The marks are handed out once. An insight is taken out under its id, or nothing is; one that is
/// cancelled in its place changes no other.
pub proof fn insights_are_changed_in_their_place(k: int)
    ensures
        forall|c: &mut InsightCollection, r: Vec<u128>| #[trigger]
            call_ensures(InsightCollection::take_dirty_insight_ids, (c,), r) ==> {
                &&& r@ == c.dirty_view()
                &&& final(c).dirty_view().len() == 0
                &&& final(c).insights_view() == c.insights_view()
            },
        forall|c: &mut InsightCollection, at: usize, message: &str, now: UtcTime, r: ()| #[trigger]
            call_ensures(InsightCollection::cancel_at, (c, at, message, now), r) && at
                < c.insights_view().len() && 0 <= k < c.insights_view().len() ==> {
                &&& final(c).insights_view().len() == c.insights_view().len()
                &&& k != at ==> final(c).insights_view()[k] == c.insights_view()[k]
                &&& k == at ==> final(c).insights_view()[k].state is Cancelled
                &&& final(c).dirty_view() == c.dirty_view()
            },
        forall|c: &mut InsightCollection, id: u128, r: Option<Insight>| #[trigger]
            call_ensures(InsightCollection::remove_insight, (c, id), r) ==> {
                &&& final(c).dirty_view() == c.dirty_view()
                &&& r is None ==> final(c).insights_view() == c.insights_view()
                &&& r is None && 0 <= k < c.insights_view().len()
                    ==> c.insights_view()[k].insight_id != id
                &&& r is Some ==> r->Some_0.insight_id == id && final(c).insights_view().len()
                    == c.insights_view().len() - 1
            },
{
    assert forall|c: &mut InsightCollection, id: u128, r: Option<Insight>| #[trigger]
        call_ensures(InsightCollection::remove_insight, (c, id), r) && r is None && 0 <= k
            < c.insights_view().len() implies c.insights_view()[k].insight_id != id by {
        assert(!at_id(c.insights_view(), id, k));
    }
}

/// Reports are worked in for insights that are known by their order: ids, their number and their
/// marks stay.
pub proof fn reports_change_no_ids()
    ensures
        forall|
            c: &mut InsightCollection,
            universe: Vec<String>,
            events: Vec<(Order, TradeUpdateEvent)>,
            now: UtcTime,
            r: TradeEffects,
        | #[trigger]
            call_ensures(on_trade_update, (c, &universe, &events, now), r) ==> {
                &&& final(c).dirty_view() == c.dirty_view()
                &&& events@.len() == 0 ==> final(c).insights_view() == c.insights_view()
                &&& r.state(final(c).insights_view()).insights == final(c).insights_view()
                &&& r.state(final(c).insights_view()) == after_events(
                    TradeState {
                        insights: c.insights_view(),
                        children: Seq::empty(),
                        parents: Seq::empty(),
                        touched: Set::empty(),
                    },
                    universe@,
                    events@,
                    now,
                )
            },
{
}

} // verus!
