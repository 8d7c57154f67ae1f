//! What becomes of the children of insights that are over.
use rustc_hash::FxHashSet;
use vstd::prelude::*;

use crate::collection::{at_id, InsightCollection};
use crate::ids::{id_set, id_set_holds, id_set_insert};
use crate::insight::{Insight, InsightState, InsightView};
use crate::text::{option_copy, option_view};
use crate::time::UtcTime;

verus! {

/// The message under which an unsent child of a finished parent is cancelled.
pub open spec fn unsent_message() -> Seq<char> {
    "Parent insight is terminal before child submission"@
}

/// What has to be done with the child of a finished parent.
#[derive(Clone, Copy, Debug, PartialEq, Eq, Structural, Hash)]
pub enum ChildStep {
    /// Ask the broker to close the position.
    Close,
    /// Cancel the insight; the broker knows nothing of it.
    CancelUnsent,
    /// Ask the broker to cancel the order.
    Cancel,
    /// The child is over too.
    Leave,
}

/// What has to be done with a child of a finished parent.
pub open spec fn child_step(child: InsightView) -> ChildStep {
    match child.state {
        InsightState::Filled => ChildStep::Close,
        InsightState::New => if child.order_id is None {
            ChildStep::CancelUnsent
        } else {
            ChildStep::Cancel
        },
        InsightState::Executed => ChildStep::Cancel,
        _ => ChildStep::Leave,
    }
}

fn step_of_child(child: &Insight) -> (r: ChildStep)
    ensures
        r == child_step(child@),
{
    match child.state {
        InsightState::Filled => ChildStep::Close,
        InsightState::New => if child.order_id.is_none() {
            ChildStep::CancelUnsent
        } else {
            ChildStep::Cancel
        },
        InsightState::Executed => ChildStep::Cancel,
        _ => ChildStep::Leave,
    }
}

/// Whether `insight` has a parent among `parents`.
pub open spec fn child_of(insight: InsightView, parents: Set<u128>) -> bool {
    insight.parent_id matches Some(p) && parents.contains(p)
}

/// Whether the insight `id` is there and is over.
pub open spec fn is_over(insights: Seq<InsightView>, id: u128) -> bool {
    exists|at: int| #[trigger] at_id(insights, id, at) && insights[at].state.inactive()
}

/// Those of `parents` that are over.
pub open spec fn finished(insights: Seq<InsightView>, parents: Seq<u128>) -> Set<u128> {
    Set::new(|p: u128| parents.contains(p) && is_over(insights, p))
}

/// The insights, once the unsent children of `parents` are cancelled.
pub open spec fn unsent_cancelled(
    insights: Seq<InsightView>,
    parents: Set<u128>,
    now: UtcTime,
) -> Seq<InsightView> {
    insights.map_values(
        |i: InsightView|
            if child_of(i, parents) && child_step(i) is CancelUnsent {
                i.cancelled(unsent_message(), now)
            } else {
                i
            },
    )
}

/// A request to the broker on behalf of a child.
pub struct ChildRequest {
    pub insight_id: u128,
    pub order_id: Option<String>,
    pub close: bool,
}

/// The model of a request.
#[verifier::ext_equal]
pub struct RequestView {
    pub insight_id: u128,
    pub order_id: Option<Seq<char>>,
    pub close: bool,
}

impl View for ChildRequest {
    type V = RequestView;

    open spec fn view(&self) -> RequestView {
        RequestView {
            insight_id: self.insight_id,
            order_id: option_view(self.order_id),
            close: self.close,
        }
    }
}

/// The requests to the broker for the children of `parents`, in the insights' order.
pub open spec fn requests_for(insights: Seq<InsightView>, parents: Set<u128>) -> Seq<RequestView>
    decreases insights.len(),
{
    if insights.len() == 0 {
        Seq::empty()
    } else {
        let rest = requests_for(insights.drop_last(), parents);
        let last = insights.last();
        if child_of(last, parents) && (child_step(last) is Close || child_step(last) is Cancel) {
            rest.push(
                RequestView {
                    insight_id: last.insight_id,
                    order_id: last.order_id,
                    close: child_step(last) is Close,
                },
            )
        } else {
            rest
        }
    }
}

/// The children of `parents` that are not over.
pub open spec fn stirred(insights: Seq<InsightView>, parents: Set<u128>) -> Set<u128> {
    Set::new(
        |id: u128|
            exists|at: int|
                #[trigger] at_id(insights, id, at) && child_of(insights[at], parents)
                    && !(child_step(insights[at]) is Leave),
    )
}

fn finished_parents(insights: &InsightCollection, parents: &Vec<u128>) -> (r: FxHashSet<u128>)
    requires
        insights.wf(),
    ensures
        r@ == finished(insights.insights_view(), parents@),
{
    let ghost all = insights.insights_view();
    let mut out = id_set();
    let mut i: usize = 0;
    while i < parents.len()
        invariant
            i <= parents.len(),
            insights.wf(),
            all == insights.insights_view(),
            out@ == finished(all, parents@.take(i as int)),
        decreases parents.len() - i,
    {
        let id = parents[i];
        let ghost before = out@;
        match insights.position(id) {
            Some(at) => {
                if insights.at(at).state.is_inactive() {
                    id_set_insert(&mut out, id);
                    proof {
                        assert(at_id(all, id, at as int));
                    }
                } else {
                    proof {
                        assert forall|k: int| #[trigger] at_id(all, id, k) implies k == at by {
                            assert(all[k].insight_id == all[at as int].insight_id);
                        }
                    }
                }
            },
            None => {
                proof {
                    assert(forall|k: int| !at_id(all, id, k));
                }
            },
        }
        proof {
            let next = parents@.take(i + 1);
            assert(next =~= parents@.take(i as int).push(id));
            assert forall|p: u128| out@.contains(p) == finished(all, next).contains(p) by {
                if p != id {
                    if parents@.take(i as int).contains(p) {
                        let k = choose|k: int|
                            0 <= k < i && #[trigger] parents@.take(i as int)[k] == p;
                        assert(next[k] == p);
                    }
                    if next.contains(p) {
                        let k = choose|k: int| 0 <= k < next.len() && #[trigger] next[k] == p;
                        assert(parents@.take(i as int)[k] == p);
                    }
                } else {
                    assert(next[i as int] == p);
                }
            }
            assert(out@ =~= finished(all, next));
        }
        i = i + 1;
    }
    proof {
        assert(parents@.take(i as int) =~= parents@);
    }
    out
}

/// Looks after the children of those `parents` that are over. A child that was never sent is
/// cancelled here; for one that is open the request to the broker comes back. All of them are
/// added to `touched`.
pub fn reconcile_children(
    insights: &mut InsightCollection,
    parents: &Vec<u128>,
    touched: &mut FxHashSet<u128>,
    now: UtcTime,
) -> (r: Vec<ChildRequest>)
    requires
        old(insights).wf(),
    ensures
        final(insights).wf(),
        final(insights).dirty_view() == old(insights).dirty_view(),
        final(insights).insights_view() == unsent_cancelled(
            old(insights).insights_view(),
            finished(old(insights).insights_view(), parents@),
            now,
        ),
        r@.map_values(|q: ChildRequest| q@) == requests_for(
            old(insights).insights_view(),
            finished(old(insights).insights_view(), parents@),
        ),
        final(touched)@ == old(touched)@.union(
            stirred(
                old(insights).insights_view(),
                finished(old(insights).insights_view(), parents@),
            ),
        ),
{
    let over = finished_parents(insights, parents);
    let ghost set = over@;
    let ghost all = insights.insights_view();
    let mut requests: Vec<ChildRequest> = Vec::new();
    let mut i: usize = 0;
    while i < insights.len()
        invariant
            i <= all.len(),
            insights.wf(),
            crate::collection::ids_distinct(all),
            set == over@,
            insights.dirty_view() == old(insights).dirty_view(),
            insights.insights_view().len() == all.len(),
            forall|k: int|
                0 <= k < i ==> #[trigger] insights.insights_view()[k] == unsent_cancelled(
                    all,
                    set,
                    now,
                )[k],
            forall|k: int| i <= k < all.len() ==> #[trigger] insights.insights_view()[k] == all[k],
            requests@.map_values(|q: ChildRequest| q@) == requests_for(all.take(i as int), set),
            touched@ == old(touched)@.union(stirred(all.take(i as int), set)),
        decreases all.len() - i,
    {
        let ghost child = all[i as int];
        let ghost touched_before = touched@;
        let id = insights.at(i).insight_id;
        let is_child = match insights.at(i).parent_id {
            Some(p) => id_set_holds(&over, p),
            None => false,
        };
        proof {
            assert(all.take(i + 1).drop_last() =~= all.take(i as int));
            assert(all.take(i + 1).last() == child);
        }
        let step = step_of_child(insights.at(i));
        if is_child {
            match step {
                ChildStep::Close | ChildStep::Cancel => {
                    let ghost requests_before = requests@.map_values(|q: ChildRequest| q@);
                    let request = ChildRequest {
                        insight_id: id,
                        order_id: option_copy(&insights.at(i).order_id),
                        close: step == ChildStep::Close,
                    };
                    let ghost request_view = request@;
                    requests.push(request);
                    proof {
                        assert(requests@.map_values(|q: ChildRequest| q@)
                            =~= requests_before.push(request_view));
                    }
                },
                ChildStep::CancelUnsent => {
                    insights.cancel_at(
                        i,
                        "Parent insight is terminal before child submission",
                        now,
                    );
                },
                ChildStep::Leave => {},
            }
            match step {
                ChildStep::Leave => {},
                _ => {
                    id_set_insert(touched, id);
                },
            }
        }
        proof {
            let now_stirred = stirred(all.take(i + 1), set);
            let was_stirred = stirred(all.take(i as int), set);
            let adds = child_of(child, set) && !(child_step(child) is Leave);
            assert forall|x: u128| now_stirred.contains(x) == (was_stirred.contains(x) || (adds && x
                == child.insight_id)) by {
                if was_stirred.contains(x) {
                    let at = choose|at: int|
                        #[trigger] at_id(all.take(i as int), x, at) && child_of(
                            all.take(i as int)[at],
                            set,
                        ) && !(child_step(all.take(i as int)[at]) is Leave);
                    assert(at_id(all.take(i + 1), x, at));
                }
                if adds && x == child.insight_id {
                    assert(at_id(all.take(i + 1), x, i as int));
                }
                if now_stirred.contains(x) {
                    let at = choose|at: int|
                        #[trigger] at_id(all.take(i + 1), x, at) && child_of(
                            all.take(i + 1)[at],
                            set,
                        ) && !(child_step(all.take(i + 1)[at]) is Leave);
                    if at < i {
                        assert(at_id(all.take(i as int), x, at));
                    }
                }
            }
            assert(touched@ =~= old(touched)@.union(now_stirred));
        }
        i = i + 1;
    }
    proof {
        assert(all.take(i as int) =~= all);
        assert(insights.insights_view() =~= unsent_cancelled(all, set, now));
    }
    requests
}

/// The insights, once the broker took the request for the insight `id`.
pub open spec fn noted(insights: Seq<InsightView>, id: u128, close: bool) -> Seq<InsightView> {
    insights.map_values(
        |i: InsightView|
            if i.insight_id == id {
                i.requested(close)
            } else {
                i
            },
    )
}

/// Notes on the insight that the broker took the request for it.
pub fn note_request(insights: &mut InsightCollection, request: &ChildRequest)
    requires
        old(insights).wf(),
    ensures
        final(insights).wf(),
        final(insights).dirty_view() == old(insights).dirty_view(),
        final(insights).insights_view() == noted(
            old(insights).insights_view(),
            request.insight_id,
            request.close,
        ),
{
    let ghost all = insights.insights_view();
    match insights.position(request.insight_id) {
        Some(at) => {
            insights.mark_at(at, request.close);
            proof {
                assert forall|k: int| 0 <= k < all.len() && k != at implies (
                #[trigger] all[k]).insight_id != request.insight_id by {
                    assert(all[k].insight_id != all[at as int].insight_id);
                }
            }
        },
        None => {
            proof {
                assert forall|k: int| 0 <= k < all.len() implies (#[trigger] all[k]).insight_id
                    != request.insight_id by {
                    assert(!at_id(all, request.insight_id, k));
                }
            }
        },
    }
    proof {
        assert(insights.insights_view() =~= noted(all, request.insight_id, request.close));
    }
}

/// No child of a finished parent is passed over: one that is not over is cancelled here or has
/// its request to the broker.
pub proof fn every_open_child_is_looked_after(
    insights: Seq<InsightView>,
    parents: Set<u128>,
    now: UtcTime,
    i: int,
)
    requires
        0 <= i < insights.len(),
        child_of(insights[i], parents),
        !insights[i].state.inactive(),
    ensures
        unsent_cancelled(insights, parents, now)[i].state is Cancelled || exists|k: int|
            0 <= k < requests_for(insights, parents).len() && (#[trigger] requests_for(
                insights,
                parents,
            )[k]).insight_id == insights[i].insight_id,
    decreases insights.len(),
{
    if child_step(insights[i]) is CancelUnsent {
    } else if i == insights.len() - 1 {
        let all = requests_for(insights, parents);
        assert(all[all.len() - 1].insight_id == insights[i].insight_id);
    } else {
        every_open_child_is_looked_after(insights.drop_last(), parents, now, i);
        let rest = requests_for(insights.drop_last(), parents);
        let all = requests_for(insights, parents);
        let k = choose|k: int|
            0 <= k < rest.len() && (#[trigger] rest[k]).insight_id == insights[i].insight_id;
        assert(all[k] == rest[k]);
    }
}

/// Insights that have no finished parent are left alone.
pub proof fn other_insights_are_left_alone(
    insights: Seq<InsightView>,
    parents: Set<u128>,
    now: UtcTime,
    i: int,
)
    requires
        0 <= i < insights.len(),
        !child_of(insights[i], parents),
    ensures
        unsent_cancelled(insights, parents, now)[i] == insights[i],
{
}

/// What is asked of the broker for one child: it is asked last where it stands last.
proof fn requests_come_one_by_one(insights: Seq<InsightView>, parents: Set<u128>, i: int)
    requires
        0 <= i < insights.len(),
    ensures
        child_of(insights[i], parents) && (child_step(insights[i]) is Close || child_step(
            insights[i],
        ) is Cancel) ==> exists|k: int|
            0 <= k < requests_for(insights, parents).len() && #[trigger] requests_for(
                insights,
                parents,
            )[k] == (RequestView {
                insight_id: insights[i].insight_id,
                order_id: insights[i].order_id,
                close: child_step(insights[i]) is Close,
            }),
    decreases insights.len(),
{
    let all = requests_for(insights, parents);
    if child_of(insights[i], parents) && (child_step(insights[i]) is Close || child_step(
        insights[i],
    ) is Cancel) {
        if i == insights.len() - 1 {
            assert(all[all.len() - 1].insight_id == insights[i].insight_id);
        } else {
            requests_come_one_by_one(insights.drop_last(), parents, i);
            let rest = requests_for(insights.drop_last(), parents);
            let k = choose|k: int|
                0 <= k < rest.len() && #[trigger] rest[k] == (RequestView {
                    insight_id: insights[i].insight_id,
                    order_id: insights[i].order_id,
                    close: child_step(insights[i]) is Close,
                });
            assert(all[k] == rest[k]);
        }
    }
}

proof fn requests_have_their_children(insights: Seq<InsightView>, parents: Set<u128>, k: int)
    requires
        0 <= k < requests_for(insights, parents).len(),
    ensures
        exists|i: int|
            {
                &&& 0 <= i < insights.len()
                &&& (#[trigger] insights[i]).insight_id == requests_for(
                    insights,
                    parents,
                )[k].insight_id
                &&& child_of(insights[i], parents)
                &&& child_step(insights[i]) is Close || child_step(insights[i]) is Cancel
                &&& requests_for(insights, parents)[k].close == (child_step(insights[i]) is Close)
                &&& requests_for(insights, parents)[k].order_id == insights[i].order_id
            },
    decreases insights.len(),
{
    if insights.len() > 0 {
        let rest = requests_for(insights.drop_last(), parents);
        if k < rest.len() {
            requests_have_their_children(insights.drop_last(), parents, k);
            let i = choose|i: int|
                {
                    &&& 0 <= i < insights.drop_last().len()
                    &&& (#[trigger] insights.drop_last()[i]).insight_id == rest[k].insight_id
                    &&& child_of(insights.drop_last()[i], parents)
                    &&& child_step(insights.drop_last()[i]) is Close || child_step(
                        insights.drop_last()[i],
                    ) is Cancel
                    &&& rest[k].close == (child_step(insights.drop_last()[i]) is Close)
                    &&& rest[k].order_id == insights.drop_last()[i].order_id
                };
            assert(insights[i] == insights.drop_last()[i]);
        } else {
            assert(insights[insights.len() - 1].insight_id == requests_for(
                insights,
                parents,
            )[k].insight_id);
        }
    }
}

/// Once a parent is over, cancelled, rejected or closed, its children are seen to: a position is asked
/// to be closed and an order to be cancelled, each by its own id and order, and are left until the
/// broker reports; a child that was never sent is cancelled here, with no request; a child that is over
/// is left.
pub proof fn children_follow_their_parents(
    insights: Seq<InsightView>,
    parents: Seq<u128>,
    now: UtcTime,
    i: int,
    p: int,
)
    requires
        0 <= i < insights.len(),
        0 <= p < insights.len(),
        insights[i].parent_id == Some(insights[p].insight_id),
        parents.contains(insights[p].insight_id),
        insights[p].state is Closed || insights[p].state is Cancelled || insights[p].state is Rejected,
        forall|a: int, b: int|
            0 <= a < b < insights.len() ==> (#[trigger] insights[a]).insight_id != (
            #[trigger] insights[b]).insight_id,
    ensures
        ({
            let over = finished(insights, parents);
            let child = insights[i];
            let to = unsent_cancelled(insights, over, now)[i];
            let asked = |close: bool|
                exists|k: int|
                    0 <= k < requests_for(insights, over).len() && #[trigger] requests_for(
                        insights,
                        over,
                    )[k] == (RequestView {
                        insight_id: child.insight_id,
                        order_id: child.order_id,
                        close,
                    });
            let named = exists|k: int|
                0 <= k < requests_for(insights, over).len() && (#[trigger] requests_for(
                    insights,
                    over,
                )[k]).insight_id == child.insight_id;
            let sent = child.state is Executed || (child.state is New && child.order_id is Some);
            let unsent = child.state is New && child.order_id is None;
            &&& child.state is Filled ==> asked(true) && to == child
            &&& sent ==> asked(false) && to == child
            &&& unsent ==> to.state is Cancelled && !named
            &&& child.state is Closed || child.state is Cancelled || child.state is Rejected ==> to
                == child && !named
        }),
{
    let over = finished(insights, parents);
    assert(at_id(insights, insights[p].insight_id, p));
    assert(over.contains(insights[p].insight_id));
    assert(child_of(insights[i], over));
    requests_come_one_by_one(insights, over, i);
    if insights[i].state.inactive() || child_step(insights[i]) is CancelUnsent {
        assert forall|k: int| 0 <= k < requests_for(insights, over).len() implies (
        #[trigger] requests_for(insights, over)[k]).insight_id != insights[i].insight_id by {
            requests_have_their_children(insights, over, k);
        }
    }
}

/// An insight without a parent, or whose parent goes on, is neither changed nor asked about.
pub proof fn insights_of_open_parents_are_left(
    insights: Seq<InsightView>,
    parents: Seq<u128>,
    now: UtcTime,
    i: int,
    k: int,
)
    requires
        0 <= i < insights.len(),
        insights[i].parent_id matches Some(id) ==> forall|p: int|
            0 <= p < insights.len() && (#[trigger] insights[p]).insight_id == id
                ==> insights[p].state is New || insights[p].state is Executed
                || insights[p].state is Filled,
        forall|a: int, b: int|
            0 <= a < b < insights.len() ==> (#[trigger] insights[a]).insight_id != (
            #[trigger] insights[b]).insight_id,
        0 <= k < requests_for(insights, finished(insights, parents)).len(),
    ensures
        unsent_cancelled(insights, finished(insights, parents), now)[i] == insights[i],
        requests_for(insights, finished(insights, parents))[k].insight_id != insights[i].insight_id,
{
    let over = finished(insights, parents);
    if child_of(insights[i], over) {
        let id = insights[i].parent_id->Some_0;
        let p = choose|p: int| #[trigger] at_id(insights, id, p) && insights[p].state.inactive();
        assert(insights[p].insight_id == id);
    }
    requests_have_their_children(insights, over, k);
}

/// A request that the broker took is noted on its own insight, to close or to cancel, and on no other.
pub proof fn requests_are_noted_on_their_insight(
    insights: Seq<InsightView>,
    id: u128,
    close: bool,
    i: int,
)
    requires
        0 <= i < insights.len(),
    ensures
        ({
            let to = noted(insights, id, close)[i];
            &&& insights[i].insight_id != id ==> to == insights[i]
            &&& insights[i].insight_id == id ==> {
                &&& to.closing == (insights[i].closing || close)
                &&& to.cancelling == (insights[i].cancelling || !close)
                &&& to.state == insights[i].state
                &&& to.history == insights[i].history
            }
        }),
{
}

/// Looking after the children changes no mark and no insight but those that were not sent yet;
/// those are cancelled.
pub proof fn only_unsent_children_are_cancelled(k: int)
    ensures
        forall|
            insights: &mut InsightCollection,
            parents: Vec<u128>,
            touched: &mut FxHashSet<u128>,
            now: UtcTime,
            r: Vec<ChildRequest>,
        | #[trigger]
            call_ensures(reconcile_children, (insights, &parents, touched, now), r) && 0 <= k
                < insights.insights_view().len() ==> {
                let before = insights.insights_view()[k];
                let after = final(insights).insights_view()[k];
                &&& final(insights).insights_view().len() == insights.insights_view().len()
                &&& final(insights).dirty_view() == insights.dirty_view()
                &&& after == before || after.state is Cancelled
                &&& before.parent_id is None ==> after == before
                &&& before.parent_id is Some && !parents@.contains(before.parent_id->Some_0)
                    ==> after == before
            },
        forall|insights: &mut InsightCollection, request: ChildRequest, r: ()| #[trigger]
            call_ensures(note_request, (insights, &request), r) && 0 <= k
                < insights.insights_view().len() ==> {
                let before = insights.insights_view()[k];
                let after = final(insights).insights_view()[k];
                &&& before.insight_id != request.insight_id ==> after == before
                &&& before.insight_id == request.insight_id && request.close ==> after
                    == InsightView { closing: true, ..before }
                &&& before.insight_id == request.insight_id && !request.close ==> after
                    == InsightView { cancelling: true, ..before }
            },
{
}

} // verus!
