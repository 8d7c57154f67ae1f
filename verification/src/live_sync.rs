//! How the insights of a live run are written to the cloud.
use vstd::prelude::*;
use vstd::string::StringExecFns;

use crate::cloud::{is_transient_surreal_error, queued, transient, PendingAqsSyncOp, PendingOps};
use crate::collection::{unmarked, InsightCollection};
use crate::ids::{uuid_chars, uuid_text};
use crate::insight::{EntryView, Insight, InsightState, InsightView, OrderSide};
use crate::json::{add_member, add_text, members_view, object_of, Json, JsonNumber, JsonView};
use crate::records::{EventView, StrategyEventRecord};
use crate::snapshot::{counted_state, runtime_insight_counts};
use crate::startup::json_views;
use crate::table::{value_at, Table};
use crate::text::{begins, text_begins};
use crate::time::UtcTime;

verus! {

/// The insights that are written at most in one go, unless all are.
pub const LIVE_SYNC_MAX_INSIGHTS_PER_FLUSH: usize = 128;

/// The label of a side.
pub open spec fn side_label(side: OrderSide) -> Seq<char> {
    match side {
        OrderSide::Buy => "Buy"@,
        OrderSide::Sell => "Sell"@,
    }
}

fn side_text(side: OrderSide) -> (r: &'static str)
    ensures
        r@ == side_label(side),
{
    match side {
        OrderSide::Buy => "Buy",
        OrderSide::Sell => "Sell",
    }
}

/// Whether an entry of an insight's history tells of a change of its state.
pub open spec fn is_transition(entry: EntryView) -> bool {
    match entry.message {
        Some(message) => begins(message, "State changed from "@),
        None => false,
    }
}

/// The event about the entry `index` of an insight's history, which is shown as `shown`.
pub open spec fn transition_event(insight: InsightView, index: int, shown: JsonView) -> EventView {
    let entry = insight.history[index];
    EventView {
        event_type: "insight_state"@,
        level: "info"@,
        title: "Insight "@ + entry.state.spec_label(),
        message: entry.message->Some_0,
        payload: Some(
            JsonView::Object(
                seq![
                    ("insight_id"@, JsonView::Text(uuid_chars(insight.insight_id))),
                    ("symbol"@, JsonView::Text(insight.symbol)),
                    ("state"@, JsonView::Text(entry.state.spec_label())),
                    ("side"@, JsonView::Text(side_label(insight.side))),
                    ("history_index"@, JsonView::Unsigned(index as u64)),
                    ("history"@, shown),
                ],
            ),
        ),
        created_at: Some(entry.at),
    }
}

/// The events about the entries of an insight's history from `from` to `to`.
pub open spec fn transition_events(
    insight: InsightView,
    shown: Seq<JsonView>,
    from: int,
    to: int,
) -> Seq<EventView>
    decreases to - from,
{
    if from >= to {
        Seq::empty()
    } else {
        let before = transition_events(insight, shown, from, to - 1);
        if is_transition(insight.history[to - 1]) {
            before.push(transition_event(insight, to - 1, shown[to - 1]))
        } else {
            before
        }
    }
}

/// The models of events.
pub open spec fn event_views(events: Seq<StrategyEventRecord>) -> Seq<EventView> {
    events.map_values(|e: StrategyEventRecord| e@)
}

fn event_about(insight: &Insight, index: usize, message: &str, shown: Json) -> (r:
    StrategyEventRecord)
    requires
        index < insight.state_history@.len(),
        insight@.history[index as int].message == Some(message@),
    ensures
        r@ == transition_event(insight@, index as int, shown@),
{
    let ghost show = shown@;
    let entry = &insight.state_history[index];
    proof {
        assert(insight@.history[index as int] == entry@);
    }
    let state = entry.state.label();
    let at = entry.at;
    let mut title = "Insight ".to_owned();
    title.append(state);
    let mut members: Vec<(String, Json)> = Vec::new();
    proof {
        assert(members_view(members@) =~= Seq::<(Seq<char>, JsonView)>::empty());
    }
    add_text(&mut members, "insight_id", uuid_text(insight.insight_id).as_str());
    add_text(&mut members, "symbol", insight.symbol.as_str());
    add_text(&mut members, "state", state);
    add_text(&mut members, "side", side_text(insight.side));
    add_member(&mut members, "history_index", Json::Number(JsonNumber::Unsigned(index as u64)));
    add_member(&mut members, "history", shown);
    proof {
        assert(members_view(members@) =~= transition_event(
            insight@,
            index as int,
            show,
        ).payload->Some_0->Object_0);
    }
    StrategyEventRecord::new(
        "insight_state",
        "info",
        title.as_str(),
        message,
        Some(object_of(members)),
        at,
    )
}

/// The events about the changes of an insight's state that are not written yet: those behind the
/// first `from` entries of its history. `shown` are the entries as JSON values.
pub fn unsynced_transitions(insight: &Insight, shown: &Vec<Json>, from: usize) -> (r: Vec<
    StrategyEventRecord,
>)
    requires
        shown@.len() == insight@.history.len(),
    ensures
        event_views(r@) == transition_events(
            insight@,
            json_views(shown@),
            from as int,
            insight@.history.len() as int,
        ),
{
    let mut out: Vec<StrategyEventRecord> = Vec::new();
    let n = insight.state_history.len();
    proof {
        assert(insight@.history.len() == n);
        assert(event_views(out@) =~= Seq::<EventView>::empty());
    }
    let mut i: usize = from;
    while i < n
        invariant
            from <= i,
            from < n ==> i <= n,
            from >= n ==> i == from,
            n == insight@.history.len(),
            n == insight.state_history@.len(),
            shown@.len() == n,
            event_views(out@) == transition_events(
                insight@,
                json_views(shown@),
                from as int,
                i as int,
            ),
        decreases n - i,
    {
        proof {
            assert(insight@.history[i as int] == insight.state_history@[i as int]@);
        }
        match &insight.state_history[i].message {
            Some(message) => {
                if text_begins(message.as_str(), "State changed from ") {
                    let ghost before = event_views(out@);
                    let event = event_about(insight, i, message.as_str(), shown[i].duplicate());
                    let ghost v = event@;
                    out.push(event);
                    proof {
                        assert(event_views(out@) =~= before.push(v));
                    }
                }
            },
            None => {},
        }
        i = i + 1;
    }
    out
}

/// How far an insight's history is written once its changes behind `from` are.
pub open spec fn written_to(insight: InsightView, from: int) -> int {
    if insight.history.len() > from {
        insight.history.len() as int
    } else {
        from
    }
}

/// Notes that the changes of an insight's state are written.
pub fn mark_transitions(offsets: &mut Table<usize>, insight: &Insight)
    ensures
        final(offsets)@ == old(offsets)@.insert(
            uuid_chars(insight@.insight_id),
            written_to(
                insight@,
                synced_offset(old(offsets)@, insight@.insight_id),
            ) as usize,
        ),
{
    let id = uuid_text(insight.insight_id);
    let from = match offsets.get(id.as_str()) {
        Some(from) => from,
        None => 0,
    };
    let n = insight.state_history.len();
    proof {
        assert(insight@.history.len() == n);
    }
    let to = if n > from {
        n
    } else {
        from
    };
    offsets.insert(id.as_str(), to);
}

/// How far an insight's history is written.
pub open spec fn synced_offset(offsets: Map<Seq<char>, usize>, id: u128) -> int {
    match value_at(offsets, uuid_chars(id)) {
        Some(from) => from as int,
        None => 0,
    }
}

/// How far an insight's history is written.
pub fn offset_of(offsets: &Table<usize>, id: u128) -> (r: usize)
    ensures
        r == synced_offset(offsets@, id),
{
    match offsets.get(uuid_text(id).as_str()) {
        Some(from) => from,
        None => 0,
    }
}

/// Every change of an insight's state is told to the cloud: whatever was told before, the newest
/// event is about the change.
pub proof fn changes_of_state_are_told(
    insight: InsightView,
    shown: Seq<JsonView>,
    from: int,
    state: InsightState,
    now: UtcTime,
    reason: Option<Seq<char>>,
)
    requires
        0 <= from <= insight.history.len(),
    ensures
        ({
            let after = insight.moved(state, now, reason);
            let events = transition_events(after, shown, from, after.history.len() as int);
            let index = insight.history.len() as int;
            events.len() > 0 && events.last() == transition_event(after, index, shown[index])
        }),
{
    let after = insight.moved(state, now, reason);
    let index = insight.history.len() as int;
    let message = after.history[index].message->Some_0;
    let prefix = "State changed from "@;
    assert(message.subrange(0, prefix.len() as int) =~= prefix);
    assert(is_transition(after.history[index]));
}

/// Once an insight's changes are written, none is left to write.
pub proof fn written_transitions_stay_written(
    insight: InsightView,
    shown: Seq<JsonView>,
    from: int,
)
    ensures
        transition_events(
            insight,
            shown,
            written_to(insight, from),
            insight.history.len() as int,
        ).len() == 0,
{
}

/// Each change of an insight's state is written once, however the writing is cut into pieces: what
/// is written up to some entry and what is written from it on make up what is written at once.
pub proof fn transitions_are_written_once(
    insight: InsightView,
    shown: Seq<JsonView>,
    from: int,
    middle: int,
    to: int,
)
    requires
        from <= middle <= to,
    ensures
        transition_events(insight, shown, from, to) == transition_events(
            insight,
            shown,
            from,
            middle,
        ) + transition_events(insight, shown, middle, to),
    decreases to - middle,
{
    if middle < to {
        transitions_are_written_once(insight, shown, from, middle, to - 1);
        assert(transition_events(insight, shown, from, to) =~= transition_events(
            insight,
            shown,
            from,
            middle,
        ) + transition_events(insight, shown, middle, to));
    } else {
        assert(transition_events(insight, shown, middle, to) =~= Seq::<EventView>::empty());
    }
}

/// What becomes of an event that was to be written: with a transient error it waits with what is
/// written later, and the error is returned.
pub fn settle_event(
    pending: &mut PendingOps,
    event: StrategyEventRecord,
    reply: Result<(), String>,
) -> (r: Result<(), String>)
    ensures
        match reply {
            Err(error) if transient(error@) => {
                &&& r == Err::<(), String>(error)
                &&& queued(*old(pending), *final(pending), PendingAqsSyncOp::StrategyEvent(event))
            },
            _ => r is Ok && *final(pending) == *old(pending),
        },
{
    match reply {
        Err(error) => {
            if is_transient_surreal_error(error.as_str()) {
                pending.enqueue_pending_aqs_sync_op(PendingAqsSyncOp::StrategyEvent(event));
                Err(error)
            } else {
                Ok(())
            }
        },
        Ok(_) => Ok(()),
    }
}

/// What is to be written to the cloud.
#[derive(Debug)]
pub enum SyncPlan {
    /// Nothing.
    Nothing,
    /// Only how the run does.
    OnlyMetrics,
    /// These insights.
    Insights { ids: Vec<u128> },
}

/// The insights that are written: all of them in a full reconcile, else at most so many.
pub open spec fn chosen_ids(ids: Seq<u128>, full: bool, max_insights: Option<usize>) -> Seq<u128> {
    match max_insights {
        Some(max) => if !full && ids.len() > max {
            ids.take(max as int)
        } else {
            ids
        },
        None => ids,
    }
}

/// What is to be written: the insights `ids`, where there are any, or anything waits, or the cloud
/// is reconciled in full; else how the run does, where that changed.
pub fn plan_sync(
    ids: Vec<u128>,
    full: bool,
    max_insights: Option<usize>,
    ops_wait: bool,
    metrics_changed: bool,
) -> (r: SyncPlan)
    ensures
        match r {
            SyncPlan::Insights { ids: chosen } => {
                &&& full || chosen_ids(ids@, full, max_insights).len() > 0 || ops_wait
                &&& chosen@ == chosen_ids(ids@, full, max_insights)
            },
            SyncPlan::OnlyMetrics => {
                &&& !full && chosen_ids(ids@, full, max_insights).len() == 0 && !ops_wait
                &&& metrics_changed
            },
            SyncPlan::Nothing => {
                &&& !full && chosen_ids(ids@, full, max_insights).len() == 0 && !ops_wait
                &&& !metrics_changed
            },
        },
{
    let mut chosen = ids;
    if !full {
        match max_insights {
            Some(max) => {
                if chosen.len() > max {
                    chosen.truncate(max);
                    proof {
                        assert(chosen@ =~= ids@.take(max as int));
                    }
                }
            },
            None => {},
        }
    }
    if full || chosen.len() > 0 || ops_wait {
        SyncPlan::Insights { ids: chosen }
    } else if metrics_changed {
        SyncPlan::OnlyMetrics
    } else {
        SyncPlan::Nothing
    }
}

/// What writing an insight brought about.
#[derive(Clone, Copy, Debug, PartialEq, Eq, Structural)]
pub struct Settled {
    /// Whether the cloud did not know its state yet.
    pub changed: bool,
    /// Whether it is newly closed, so that its result is to be counted.
    pub closed: bool,
    /// Whether nothing is open any more, so that it can be forgotten.
    pub terminal: bool,
}

/// What writing an insight in the state `state` brings about, where the cloud knew `synced`.
pub open spec fn settled_as(synced: Option<InsightState>, state: InsightState) -> Settled {
    Settled {
        changed: synced != Some(state),
        closed: synced != Some(state) && state == InsightState::Closed,
        terminal: state.inactive(),
    }
}

/// Notes that the insight at `at` and its changes are written.
pub fn settle_insight(
    insights: &mut InsightCollection,
    synced: &mut Table<InsightState>,
    at: usize,
) -> (r: Settled)
    requires
        old(insights).wf(),
        at < old(insights).insights_view().len(),
    ensures
        final(insights).wf(),
        final(insights).insights_view() == old(insights).insights_view(),
        final(insights).dirty_view() == unmarked(
            old(insights).dirty_view(),
            old(insights).insights_view()[at as int].insight_id,
        ),
        final(synced)@ == old(synced)@.insert(
            uuid_chars(old(insights).insights_view()[at as int].insight_id),
            old(insights).insights_view()[at as int].state,
        ),
        r == settled_as(
            value_at(
                old(synced)@,
                uuid_chars(old(insights).insights_view()[at as int].insight_id),
            ),
            old(insights).insights_view()[at as int].state,
        ),
{
    let id = insights.at(at).insight_id;
    let state = insights.at(at).state;
    let key = uuid_text(id);
    let same = match synced.get(key.as_str()) {
        Some(known) => known == state,
        None => false,
    };
    synced.insert(key.as_str(), state);
    insights.remove_dirty(id);
    Settled {
        changed: !same,
        closed: !same && state == InsightState::Closed,
        terminal: state.is_inactive(),
    }
}

/// A table without the keys of `ids`.
pub open spec fn without_ids<V>(table: Map<Seq<char>, V>, ids: Seq<u128>) -> Map<Seq<char>, V>
    decreases ids.len(),
{
    if ids.len() == 0 {
        table
    } else {
        without_ids(table, ids.drop_last()).remove(uuid_chars(ids.last()))
    }
}

/// Insights without those of `ids` that are closed, cancelled or rejected.
pub open spec fn pruned(insights: Seq<InsightView>, ids: Seq<u128>) -> Seq<InsightView>
    decreases ids.len(),
{
    if ids.len() == 0 {
        insights
    } else {
        crate::collection::insights_where(
            pruned(insights, ids.drop_last()),
            |i: InsightView| !(i.insight_id == ids.last() && i.state.inactive()),
        )
    }
}

/// Forgets what was written of the insights `ids`.
pub fn forget_synced(
    synced: &mut Table<InsightState>,
    offsets: &mut Table<usize>,
    ids: &Vec<u128>,
)
    ensures
        final(synced)@ == without_ids(old(synced)@, ids@),
        final(offsets)@ == without_ids(old(offsets)@, ids@),
{
    let mut i: usize = 0;
    while i < ids.len()
        invariant
            i <= ids.len(),
            synced@ == without_ids(old(synced)@, ids@.take(i as int)),
            offsets@ == without_ids(old(offsets)@, ids@.take(i as int)),
        decreases ids.len() - i,
    {
        proof {
            assert(ids@.take(i + 1).drop_last() =~= ids@.take(i as int));
        }
        let key = uuid_text(ids[i]);
        synced.remove(key.as_str());
        offsets.remove(key.as_str());
        i = i + 1;
    }
    proof {
        assert(ids@.take(i as int) =~= ids@);
    }
}

/// Forgets the insights `ids`, which have come to their end and are written.
pub fn prune_synced(
    insights: &mut InsightCollection,
    synced: &mut Table<InsightState>,
    offsets: &mut Table<usize>,
    ids: &Vec<u128>,
)
    requires
        old(insights).wf(),
    ensures
        final(insights).wf(),
        final(insights).insights_view() == pruned(old(insights).insights_view(), ids@),
        final(insights).dirty_view() == old(insights).dirty_view(),
        final(synced)@ == without_ids(old(synced)@, ids@),
        final(offsets)@ == without_ids(old(offsets)@, ids@),
{
    let mut i: usize = 0;
    while i < ids.len()
        invariant
            i <= ids.len(),
            insights.wf(),
            insights.insights_view() == pruned(old(insights).insights_view(), ids@.take(i as int)),
            insights.dirty_view() == old(insights).dirty_view(),
        decreases ids.len() - i,
    {
        proof {
            assert(ids@.take(i + 1).drop_last() =~= ids@.take(i as int));
        }
        insights.prune_terminal_insight(ids[i]);
        i = i + 1;
    }
    proof {
        assert(ids@.take(i as int) =~= ids@);
    }
    forget_synced(synced, offsets, ids);
}

/// Only what has come to its end is forgotten: an insight that is still open stays.
pub proof fn open_insights_are_not_pruned(insights: Seq<InsightView>, ids: Seq<u128>, open: InsightView)
    requires
        insights.contains(open),
        !open.state.inactive(),
    ensures
        pruned(insights, ids).contains(open),
    decreases ids.len(),
{
    if ids.len() > 0 {
        open_insights_are_not_pruned(insights, ids.drop_last(), open);
        kept_if_it_holds(
            pruned(insights, ids.drop_last()),
            |i: InsightView| !(i.insight_id == ids.last() && i.state.inactive()),
            open,
        );
    }
}

proof fn kept_if_it_holds(
    insights: Seq<InsightView>,
    keep: spec_fn(InsightView) -> bool,
    one: InsightView,
)
    requires
        insights.contains(one),
        keep(one),
    ensures
        crate::collection::insights_where(insights, keep).contains(one),
    decreases insights.len(),
{
    let at = choose|at: int| 0 <= at < insights.len() && insights[at] == one;
    let shorter = insights.drop_last();
    let kept = crate::collection::insights_where(insights, keep);
    let rest = crate::collection::insights_where(shorter, keep);
    if at == insights.len() - 1 {
        assert(kept[kept.len() - 1] == one);
    } else {
        assert(shorter[at] == one);
        kept_if_it_holds(shorter, keep, one);
        let k = choose|k: int| 0 <= k < rest.len() && rest[k] == one;
        assert(kept[k] == one);
    }
}

/// What is to be done next while the insights are written.
#[derive(Debug)]
pub enum SyncStep {
    /// Write the summary of the strategy, before the insights.
    Opening,
    /// Write the `at`th insight.
    Insight { at: usize },
    /// Write the changes of the `at`th insight's state.
    Transitions { at: usize },
    /// Forget the insights that have come to their end; then reconcile the cloud, in full.
    Reconcile,
    /// Write the summary of the strategy, after the insights.
    Closing,
    /// All is written. Says whether how the run does is to be written too.
    Done { metrics: bool },
    /// The connection is lost.
    Lost { error: String },
}

/// The model of a step.
pub enum SyncView {
    Opening,
    Insight { at: int },
    Transitions { at: int },
    Reconcile,
    Closing,
    Done { metrics: bool },
    Lost { error: Seq<char> },
}

/// What came of a step.
#[derive(Debug)]
pub enum SyncReply {
    /// It was done. Says whether the cloud learned something new of the insights.
    Done { changed: bool },
    /// There is no such insight any more.
    Gone,
    /// It was refused.
    Refused { error: String },
}

/// The model of what came of a step.
pub enum SyncReplyView {
    Done { changed: bool },
    Gone,
    Refused { error: Seq<char> },
}

impl View for SyncStep {
    type V = SyncView;

    open spec fn view(&self) -> SyncView {
        match self {
            SyncStep::Opening => SyncView::Opening,
            SyncStep::Insight { at } => SyncView::Insight { at: *at as int },
            SyncStep::Transitions { at } => SyncView::Transitions { at: *at as int },
            SyncStep::Reconcile => SyncView::Reconcile,
            SyncStep::Closing => SyncView::Closing,
            SyncStep::Done { metrics } => SyncView::Done { metrics: *metrics },
            SyncStep::Lost { error } => SyncView::Lost { error: error@ },
        }
    }
}

impl View for SyncReply {
    type V = SyncReplyView;

    open spec fn view(&self) -> SyncReplyView {
        match self {
            SyncReply::Done { changed } => SyncReplyView::Done { changed: *changed },
            SyncReply::Gone => SyncReplyView::Gone,
            SyncReply::Refused { error } => SyncReplyView::Refused { error: error@ },
        }
    }
}

/// How far the insights are written.
#[derive(Debug)]
pub struct LiveSync {
    pub total: usize,
    pub full: bool,
    pub metrics: bool,
    pub step: SyncStep,
}

/// The model of how far the insights are written.
pub struct LiveSyncView {
    pub total: int,
    pub full: bool,
    pub metrics: bool,
    pub step: SyncView,
}

impl View for LiveSync {
    type V = LiveSyncView;

    open spec fn view(&self) -> LiveSyncView {
        LiveSyncView {
            total: self.total as int,
            full: self.full,
            metrics: self.metrics,
            step: self.step@,
        }
    }
}

impl LiveSyncView {
    /// The place is one of the insights.
    pub open spec fn wf(self) -> bool {
        match self.step {
            SyncView::Insight { at } => 0 <= at < self.total,
            SyncView::Transitions { at } => 0 <= at < self.total,
            _ => true,
        }
    }

    /// From the insight `at` on, or what follows the last one.
    pub open spec fn from_insight(self, at: int) -> LiveSyncView {
        LiveSyncView {
            step: if at < self.total {
                SyncView::Insight { at }
            } else if self.full {
                SyncView::Reconcile
            } else {
                SyncView::Closing
            },
            ..self
        }
    }

    /// With the connection lost.
    pub open spec fn lost(self, error: Seq<char>) -> LiveSyncView {
        LiveSyncView { step: SyncView::Lost { error }, ..self }
    }

    /// After `reply` came of the step. A transient error ends it all; another error is passed
    /// over, with the insight that it was about. Writing an insight's changes and reconciling end
    /// with any error.
    pub open spec fn next(self, reply: SyncReplyView) -> LiveSyncView {
        match self.step {
            SyncView::Opening => match reply {
                SyncReplyView::Refused { error } if transient(error) => self.lost(error),
                _ => self.from_insight(0),
            },
            SyncView::Insight { at } => match reply {
                SyncReplyView::Done { .. } => LiveSyncView {
                    step: SyncView::Transitions { at },
                    ..self
                },
                SyncReplyView::Refused { error } if transient(error) => self.lost(error),
                _ => self.from_insight(at + 1),
            },
            SyncView::Transitions { at } => match reply {
                SyncReplyView::Done { changed } => (LiveSyncView {
                    metrics: self.metrics || changed,
                    ..self
                }).from_insight(at + 1),
                SyncReplyView::Gone => self.from_insight(at + 1),
                SyncReplyView::Refused { error } => self.lost(error),
            },
            SyncView::Reconcile => match reply {
                SyncReplyView::Done { changed } => LiveSyncView {
                    metrics: self.metrics || changed,
                    step: SyncView::Closing,
                    ..self
                },
                SyncReplyView::Gone => LiveSyncView { step: SyncView::Closing, ..self },
                SyncReplyView::Refused { error } => self.lost(error),
            },
            SyncView::Closing => match reply {
                SyncReplyView::Refused { error } if transient(error) => self.lost(error),
                _ => LiveSyncView { step: SyncView::Done { metrics: self.metrics }, ..self },
            },
            _ => self,
        }
    }
}

impl LiveSync {
    /// At the start of `total` insights.
    pub fn start(total: usize, full: bool) -> (r: LiveSync)
        ensures
            r@ == (LiveSyncView {
                total: total as int,
                full,
                metrics: false,
                step: SyncView::Opening,
            }),
            r@.wf(),
    {
        LiveSync { total, full, metrics: false, step: SyncStep::Opening }
    }

    fn step_from(total: usize, full: bool, at: usize) -> (r: SyncStep)
        requires
            at <= total,
        ensures
            forall|v: LiveSyncView|
                v.total == total && v.full == full ==> r@ == (#[trigger] v.from_insight(
                    at as int,
                )).step,
    {
        if at < total {
            SyncStep::Insight { at }
        } else if full {
            SyncStep::Reconcile
        } else {
            SyncStep::Closing
        }
    }

    /// After `reply` came of the step.
    pub fn next(self, reply: SyncReply) -> (r: LiveSync)
        requires
            self@.wf(),
        ensures
            r@ == self@.next(reply@),
            r@.wf(),
    {
        let ghost before = self@;
        let total = self.total;
        let full = self.full;
        let mut metrics = self.metrics;
        let step = match self.step {
            SyncStep::Opening => match reply {
                SyncReply::Refused { error } => {
                    if is_transient_surreal_error(error.as_str()) {
                        SyncStep::Lost { error }
                    } else {
                        LiveSync::step_from(total, full, 0)
                    }
                },
                _ => LiveSync::step_from(total, full, 0),
            },
            SyncStep::Insight { at } => match reply {
                SyncReply::Done { .. } => SyncStep::Transitions { at },
                SyncReply::Refused { error } => {
                    if is_transient_surreal_error(error.as_str()) {
                        SyncStep::Lost { error }
                    } else {
                        LiveSync::step_from(total, full, at + 1)
                    }
                },
                SyncReply::Gone => LiveSync::step_from(total, full, at + 1),
            },
            SyncStep::Transitions { at } => match reply {
                SyncReply::Done { changed } => {
                    metrics = metrics || changed;
                    LiveSync::step_from(total, full, at + 1)
                },
                SyncReply::Gone => LiveSync::step_from(total, full, at + 1),
                SyncReply::Refused { error } => SyncStep::Lost { error },
            },
            SyncStep::Reconcile => match reply {
                SyncReply::Done { changed } => {
                    metrics = metrics || changed;
                    SyncStep::Closing
                },
                SyncReply::Gone => SyncStep::Closing,
                SyncReply::Refused { error } => SyncStep::Lost { error },
            },
            SyncStep::Closing => match reply {
                SyncReply::Refused { error } => {
                    if is_transient_surreal_error(error.as_str()) {
                        SyncStep::Lost { error }
                    } else {
                        SyncStep::Done { metrics }
                    }
                },
                _ => SyncStep::Done { metrics },
            },
            SyncStep::Done { metrics: due } => SyncStep::Done { metrics: due },
            SyncStep::Lost { error } => SyncStep::Lost { error },
        };
        proof {
            if let SyncView::Insight { at } = before.step {
                let skipped = before.from_insight(at + 1);
                assert(skipped.total == total);
            }
            if let SyncView::Transitions { at } = before.step {
                let v = LiveSyncView { metrics, ..before };
                let next = v.from_insight(at + 1);
                let skipped = before.from_insight(at + 1);
                assert(next.total == total && skipped.total == total);
            }
            let first = before.from_insight(0);
            assert(first.total == total);
        }
        LiveSync { total, full, metrics, step }
    }
}

/// The state after replies came one after the other.
pub open spec fn sync_after(sync: LiveSyncView, replies: Seq<SyncReplyView>) -> LiveSyncView
    decreases replies.len(),
{
    if replies.len() == 0 {
        sync
    } else {
        sync_after(sync.next(replies[0]), replies.drop_first())
    }
}

/// The steps that are still to come, at most.
pub open spec fn steps_left(sync: LiveSyncView) -> int {
    match sync.step {
        SyncView::Opening => 2 * sync.total + 3,
        SyncView::Insight { at } => 2 * (sync.total - at) + 2,
        SyncView::Transitions { at } => 2 * (sync.total - at) + 1,
        SyncView::Reconcile => 2,
        SyncView::Closing => 1,
        _ => 0,
    }
}

/// Writing the insights comes to an end, whatever the cloud replies.
pub proof fn syncing_ends(sync: LiveSyncView, replies: Seq<SyncReplyView>)
    requires
        sync.wf(),
        0 <= sync.total,
        replies.len() >= steps_left(sync),
    ensures
        sync_after(sync, replies).step is Done || sync_after(sync, replies).step is Lost,
    decreases replies.len(),
{
    if replies.len() > 0 {
        let next = sync.next(replies[0]);
        assert(steps_left(sync) > 0 ==> steps_left(next) < steps_left(sync));
        assert(steps_left(sync) == 0 ==> next == sync);
        syncing_ends(next, replies.drop_first());
    }
}

/// The numbers of insights in each state, as a JSON object.
pub fn insights_state_counts_json(insights: &InsightCollection) -> (r: Json)
    ensures
        r@ matches JsonView::Object(members) && members.len() == 6 && forall|i: int|
            0 <= i < 6 ==> (#[trigger] members[i]).0 == counted_state(i).spec_label()
                && members[i].1 == JsonView::Unsigned(
                crate::collection::ids_where(
                    insights.insights_view(),
                    |v: InsightView| v.state == counted_state(i),
                ).len() as u64,
            ),
{
    let counts = runtime_insight_counts(insights);
    let mut members: Vec<(String, Json)> = Vec::new();
    proof {
        assert(members_view(members@) =~= Seq::<(Seq<char>, JsonView)>::empty());
    }
    let mut i: usize = 0;
    while i < counts.len()
        invariant
            i <= counts.len(),
            members_view(members@).len() == i,
            forall|k: int|
                0 <= k < i ==> #[trigger] members_view(members@)[k] == (
                    counts@[k].0@,
                    JsonView::Unsigned(counts@[k].1 as u64),
                ),
        decreases counts.len() - i,
    {
        let ghost before = members_view(members@);
        add_member(
            &mut members,
            counts[i].0.as_str(),
            Json::Number(JsonNumber::Unsigned(counts[i].1 as u64)),
        );
        proof {
            assert forall|k: int| 0 <= k < i + 1 implies #[trigger] members_view(members@)[k] == (
                counts@[k].0@,
                JsonView::Unsigned(counts@[k].1 as u64),
            ) by {
                if k < i {
                    assert(members_view(members@)[k] == before[k]);
                }
            }
        }
        i = i + 1;
    }
    object_of(members)
}

/// A willing cloud is told everything, in order: the summary, then each insight and its changes of
/// state, then, where the sync is full, it is reconciled, then the summary again; and how the run does
/// is to be written where the cloud learned something.
pub proof fn syncs_write_every_insight(sync: LiveSyncView, changed: bool)
    requires
        sync.total >= 0,
    ensures
        ({
            let next = sync.next(SyncReplyView::Done { changed });
            let first = |at: int, v: LiveSyncView|
                if at < sync.total {
                    v.step == (SyncView::Insight { at })
                } else if sync.full {
                    v.step is Reconcile
                } else {
                    v.step is Closing
                };
            &&& sync.step is Opening ==> first(0, next) && next.metrics == sync.metrics
            &&& sync.step matches SyncView::Insight { at } ==> next.step == (
            SyncView::Transitions { at }) && next.metrics == sync.metrics
            &&& sync.step matches SyncView::Transitions { at } ==> first(at + 1, next)
                && next.metrics == (sync.metrics || changed)
            &&& sync.step is Reconcile ==> next.step is Closing && next.metrics == (sync.metrics
                || changed)
            &&& sync.step is Closing ==> next.step == (SyncView::Done { metrics: sync.metrics })
            &&& sync.step is Done || sync.step is Lost ==> next == sync
            &&& next.total == sync.total
            &&& next.full == sync.full
        }),
{
}

/// An insight that is gone is passed over; trouble with the connection ends a sync, with its error, and
/// any other error with the summary or an insight is passed over too. Changes of state that could not
/// be written, or a reconcile that failed, end it.
pub proof fn syncs_end_with_the_connection(sync: LiveSyncView, error: Seq<char>)
    requires
        sync.total >= 0,
    ensures
        ({
            let refused = sync.next(SyncReplyView::Refused { error });
            let gone = sync.next(SyncReplyView::Gone);
            let summary = sync.step is Opening || sync.step is Insight || sync.step is Closing;
            let strict = sync.step is Transitions || sync.step is Reconcile;
            &&& strict || (summary && transient(error)) ==> refused.step == (SyncView::Lost { error })
            &&& summary && !transient(error) ==> !(refused.step is Lost)
            &&& sync.step is Insight && !transient(error) && sync.step->Insight_at + 1 < sync.total
                ==> refused.step == (SyncView::Insight { at: sync.step->Insight_at + 1 })
            &&& sync.step is Insight && sync.step->Insight_at + 1 < sync.total ==> gone.step == (
            SyncView::Insight { at: sync.step->Insight_at + 1 })
            &&& !(gone.step is Lost) || sync.step is Lost
            &&& gone.metrics == sync.metrics && refused.metrics == sync.metrics
        }),
{
}

/// A full sync takes every insight, and any other at most as many as it may, the first of them.
pub proof fn syncs_take_the_first_insights(ids: Seq<u128>, full: bool, max: Option<usize>)
    ensures
        full || max is None ==> chosen_ids(ids, full, max) == ids,
        !full && max is Some && ids.len() <= max->Some_0 ==> chosen_ids(ids, full, max) == ids,
        !full && max is Some && ids.len() > max->Some_0 ==> chosen_ids(ids, full, max).len()
            == max->Some_0 && chosen_ids(ids, full, max) == ids.take(max->Some_0 as int),
{
}

/// An insight has changed exactly where the cloud does not know its state; it is newly closed where it
/// is closed and the cloud does not know that yet, and can be forgotten once it is over.
pub proof fn changed_insights_are_settled(synced: Option<InsightState>, state: InsightState)
    ensures
        settled_as(synced, state).changed <==> synced != Some(state),
        settled_as(synced, state).closed <==> state is Closed && synced != Some(
            InsightState::Closed,
        ),
        settled_as(synced, state).terminal <==> state is Closed || state is Cancelled || state
            is Rejected,
{
}

/// A change of state is told once: one is told exactly of each entry from the first one that was not
/// yet written whose message says that the state changed.
pub proof fn entries_are_told_from_the_first_unwritten(
    insight: InsightView,
    shown: Seq<JsonView>,
    from: int,
    to: int,
)
    requires
        0 <= from <= to < insight.history.len(),
    ensures
        ({
            let now = transition_events(insight, shown, from, to);
            let more = transition_events(insight, shown, from, to + 1);
            let entry = insight.history[to];
            let told = entry.message matches Some(m) && begins(m, "State changed from "@);
            &&& !told ==> more == now
            &&& told ==> more.len() == now.len() + 1 && more.drop_last() == now
                && more.last().created_at == Some(entry.at) && more.last().message
                == entry.message->Some_0 && more.last().payload is Some
                && more.last().payload->Some_0 is Object
                && more.last().payload->Some_0->Object_0.contains(
                ("insight_id"@, JsonView::Text(uuid_chars(insight.insight_id))),
            ) && more.last().payload->Some_0->Object_0.contains(
                ("history_index"@, JsonView::Unsigned(to as u64)),
            ) && more.last().payload->Some_0->Object_0.contains(("history"@, shown[to]))
            &&& from == to ==> now.len() == 0
        }),
{
    let now = transition_events(insight, shown, from, to);
    let more = transition_events(insight, shown, from, to + 1);
    if is_transition(insight.history[to]) {
        assert(more.drop_last() =~= now);
        let members = more.last().payload->Some_0->Object_0;
        assert(members[0] == ("insight_id"@, JsonView::Text(uuid_chars(insight.insight_id))));
        assert(members[4] == ("history_index"@, JsonView::Unsigned(to as u64)));
        assert(members[5] == ("history"@, shown[to]));
    }
}

/// What was forgotten is gone, and everything else stays.
pub proof fn only_those_named_are_forgotten<V>(
    table: Map<Seq<char>, V>,
    ids: Seq<u128>,
    key: Seq<char>,
)
    ensures
        without_ids(table, ids).dom().contains(key) <==> table.dom().contains(key) && forall|i: int|
            0 <= i < ids.len() ==> uuid_chars(#[trigger] ids[i]) != key,
        without_ids(table, ids).dom().contains(key) ==> without_ids(table, ids)[key] == table[key],
    decreases ids.len(),
{
    if ids.len() > 0 {
        only_those_named_are_forgotten(table, ids.drop_last(), key);
        let rest = without_ids(table, ids.drop_last());
        if without_ids(table, ids).dom().contains(key) {
            assert forall|i: int| 0 <= i < ids.len() implies uuid_chars(#[trigger] ids[i])
                != key by {
                if i < ids.len() - 1 {
                    assert(ids.drop_last()[i] == ids[i]);
                }
            }
        } else if table.dom().contains(key) && rest.dom().contains(key) {
            assert(uuid_chars(ids[ids.len() - 1]) == key);
        } else if table.dom().contains(key) {
            let i = choose|i: int|
                0 <= i < ids.drop_last().len() && uuid_chars(#[trigger] ids.drop_last()[i]) == key;
            assert(uuid_chars(ids[i]) == key);
        }
    }
}

/// What is told of an insight waits again where the connection was lost, and the loss is passed on;
/// any other answer ends it.
pub proof fn lost_events_wait_again()
    ensures
        forall|
            p: &mut PendingOps,
            event: StrategyEventRecord,
            reply: Result<(), String>,
            r: Result<(), String>,
        | #[trigger]
            call_ensures(settle_event, (p, event, reply), r) ==> {
                let passes = reply is Err && transient(reply->Err_0@);
                &&& !passes ==> r is Ok && *final(p) == *p
                &&& passes ==> r == reply
                &&& passes && p.ops@.len() < 512 ==> final(p).ops@ == p.ops@.push(
                    PendingAqsSyncOp::StrategyEvent(event),
                ) && final(p).dropped == p.dropped
                &&& passes && p.ops@.len() >= 512 ==> final(p).ops@.len() == p.ops@.len()
                    && final(p).ops@.last() == PendingAqsSyncOp::StrategyEvent(event)
            },
{
}

/// Once an insight is written, its state is known as written and its mark is gone; the insights
/// themselves do not change.
pub proof fn written_insights_are_no_longer_marked()
    ensures
        forall|
            insights: &mut InsightCollection,
            synced: &mut Table<InsightState>,
            at: usize,
            r: Settled,
        | #[trigger]
            call_ensures(settle_insight, (insights, synced, at), r) && at
                < insights.insights_view().len() ==> {
                let v = insights.insights_view()[at as int];
                &&& final(insights).insights_view() == insights.insights_view()
                &&& !final(insights).dirty_view().contains(v.insight_id)
                &&& final(synced)@ == synced@.insert(uuid_chars(v.insight_id), v.state)
            },
{
    assert forall|
        insights: &mut InsightCollection,
        synced: &mut Table<InsightState>,
        at: usize,
        r: Settled,
    | #[trigger]
        call_ensures(settle_insight, (insights, synced, at), r) && at
            < insights.insights_view().len() implies {
        let v = insights.insights_view()[at as int];
        &&& final(insights).insights_view() == insights.insights_view()
        &&& !final(insights).dirty_view().contains(v.insight_id)
        &&& final(synced)@ == synced@.insert(uuid_chars(v.insight_id), v.state)
    } by {
        let v = insights.insights_view()[at as int];
        let other: u128 = if v.insight_id == 0 {
            1
        } else {
            0
        };
        crate::collection::marks_are_kept_once(insights.dirty_view(), v.insight_id, other);
    }
}

/// A sync begins at the opening, with as many insights as it is given and no figures yet.
pub proof fn syncs_begin_at_the_opening(total: usize, full: bool, r: LiveSync)
    requires
        call_ensures(LiveSync::start, (total, full), r),
    ensures
        r@.total == total,
        r@.full == full,
        !r@.metrics,
        r@.step is Opening,
{
}

/// A change of an insight is told with its id, its symbol, its side, the state that it reached and
/// when it reached it.
pub proof fn changes_are_told_with_their_state(insight: InsightView, index: int, shown: JsonView)
    requires
        0 <= index < insight.history.len(),
        insight.history[index].message is Some,
        index <= u64::MAX,
    ensures
        ({
            let e = transition_event(insight, index, shown);
            let entry = insight.history[index];
            let members = e.payload->Some_0->Object_0;
            &&& e.event_type == "insight_state"@
            &&& e.level == "info"@
            &&& e.title == "Insight "@ + entry.state.spec_label()
            &&& Some(e.message) == entry.message
            &&& e.created_at == Some(entry.at)
            &&& e.payload is Some && e.payload->Some_0 is Object && members.len() == 6
            &&& members[0] == ("insight_id"@, JsonView::Text(uuid_chars(insight.insight_id)))
            &&& members[1] == ("symbol"@, JsonView::Text(insight.symbol))
            &&& members[2] == ("state"@, JsonView::Text(entry.state.spec_label()))
            &&& members[3].0 == "side"@
            &&& members[4] == ("history_index"@, JsonView::Unsigned(index as u64))
            &&& members[5] == ("history"@, shown)
        }),
{
}

} // verus!
