//! What is shown of a running strategy.
use vstd::prelude::*;

use crate::collection::InsightCollection;
use crate::ids::{uuid_chars, uuid_text};
use crate::insight::{levels_view, EntryView, Insight, InsightState, InsightView, OrderSide};
use crate::json::{Json, JsonView};
use crate::metrics::LiveMetricsSnapshot;
use crate::number::Number;
use crate::text::{option_copy, option_view, text_at_most, text_eq, text_le};
use crate::time::UtcTime;
use crate::types::{StrategyMode, StrategyStatus};
use crate::variables::{summarise_value, summary, RuntimeVariableSnapshot, VariableView};

verus! {

/// The variables that are shown at most.
pub const SHOWN_VARIABLES: usize = 64;

/// The insights that are shown at most.
pub const SHOWN_INSIGHTS: usize = 128;

/// The history entries that are shown of an insight.
pub const SHOWN_HISTORY: usize = 5;

/// How far a backtest has come.
#[derive(Clone, Debug)]
pub struct BacktestProgressSnapshot {
    pub processed_steps: usize,
    pub total_steps: usize,
    pub progress_pct: Number,
    pub current_time: Option<UtcTime>,
    pub stream_count: usize,
    pub tradable_stream_count: usize,
}

/// An entry of an insight's history, as it is shown.
#[derive(Clone, Debug)]
pub struct RuntimeInsightStateSnapshot {
    pub at: UtcTime,
    pub state: String,
    pub message: Option<String>,
}

/// An insight, as it is shown.
#[derive(Clone, Debug)]
pub struct RuntimeInsightSnapshot {
    pub insight_id: String,
    pub parent_id: Option<String>,
    pub symbol: String,
    pub state: String,
    pub side: String,
    pub strategy_type: String,
    pub order_id: Option<String>,
    pub close_order_id: Option<String>,
    pub quantity: Option<Number>,
    pub contracts: Option<Number>,
    pub order_type: String,
    pub order_class: String,
    pub limit_price: Option<Number>,
    pub stop_price: Option<Number>,
    pub take_profit_levels: Option<Vec<Number>>,
    pub stop_loss_levels: Option<Vec<Number>>,
    pub filled_price: Option<Number>,
    pub close_price: Option<Number>,
    pub confidence: u8,
    pub created_at: Option<UtcTime>,
    pub updated_at: Option<UtcTime>,
    pub filled_at: Option<UtcTime>,
    pub closed_at: Option<UtcTime>,
    pub state_history: Vec<RuntimeInsightStateSnapshot>,
}

/// A strategy's results so far, as they are shown.
#[derive(Clone, Debug)]
pub struct RuntimeMetricsSnapshot {
    pub final_equity: Number,
    pub total_return_pct: Number,
    pub total_trades: usize,
    pub open_positions_count: usize,
    pub open_insights_count: usize,
    pub updated_at: Option<UtcTime>,
    pub summary_lines: Vec<String>,
}

/// What is shown of how a live run does.
pub fn runtime_live_metrics(live: &LiveMetricsSnapshot) -> (r: RuntimeMetricsSnapshot)
    ensures
        r.final_equity == live.figures.final_equity,
        r.total_return_pct == live.figures.total_return_pct,
        r.total_trades == live.counts.total_trades,
        r.open_positions_count == live.counts.open_positions_count,
        r.open_insights_count == live.counts.open_insights_count,
        r.updated_at == Some(live.updated_at),
        r.summary_lines@.len() == 0,
{
    RuntimeMetricsSnapshot {
        final_equity: live.figures.final_equity,
        total_return_pct: live.figures.total_return_pct,
        total_trades: live.counts.total_trades,
        open_positions_count: live.counts.open_positions_count,
        open_insights_count: live.counts.open_insights_count,
        updated_at: Some(live.updated_at),
        summary_lines: Vec::new(),
    }
}

/// Something that happened, as it is shown.
#[derive(Clone, Debug)]
pub struct RuntimeEventSnapshot {
    pub created_at: UtcTime,
    pub level: String,
    pub message: String,
}

/// All that is shown of a running strategy.
#[derive(Debug)]
pub struct RuntimeSnapshot {
    pub mode: StrategyMode,
    pub strategy_name: String,
    pub strategy_id: String,
    pub status: String,
    pub current_time: Option<UtcTime>,
    pub universe: Vec<String>,
    pub variables: Vec<RuntimeVariableSnapshot>,
    pub insight_counts: Vec<(String, usize)>,
    pub active_insights: Vec<RuntimeInsightSnapshot>,
    pub metrics: Option<RuntimeMetricsSnapshot>,
    pub backtest_progress: Option<BacktestProgressSnapshot>,
    pub aqs_sync_status: String,
    pub broker_status: String,
    pub datafeed_status: String,
    pub saved_result_path: Option<String>,
    pub dropped_events: u64,
    pub events: Vec<RuntimeEventSnapshot>,
    pub updated_at: UtcTime,
}

/// Whether a snapshot shows that nothing is known yet.
pub open spec fn blank(r: RuntimeSnapshot, now: UtcTime) -> bool {
    &&& r.mode is Backtest
    &&& r.strategy_name@.len() == 0
    &&& r.strategy_id@.len() == 0
    &&& r.status@ == StrategyStatus::Initialised.spec_label()
    &&& r.current_time is None
    &&& r.universe@.len() == 0
    &&& r.variables@.len() == 0
    &&& r.insight_counts@.len() == 0
    &&& r.active_insights@.len() == 0
    &&& r.metrics is None
    &&& r.backtest_progress is None
    &&& r.aqs_sync_status@ == "not configured"@
    &&& r.broker_status@ == "unknown"@
    &&& r.datafeed_status@ == "unknown"@
    &&& r.saved_result_path is None
    &&& r.dropped_events == 0
    &&& r.events@.len() == 0
    &&& r.updated_at == now
}

impl RuntimeSnapshot {
    /// What is shown before anything is known.
    pub fn initial(now: UtcTime) -> (r: RuntimeSnapshot)
        ensures
            blank(r, now),
    {
        RuntimeSnapshot {
            mode: StrategyMode::Backtest,
            strategy_name: String::new(),
            strategy_id: String::new(),
            status: StrategyStatus::Initialised.label().to_owned(),
            current_time: None,
            universe: Vec::new(),
            variables: Vec::new(),
            insight_counts: Vec::new(),
            active_insights: Vec::new(),
            metrics: None,
            backtest_progress: None,
            aqs_sync_status: "not configured".to_owned(),
            broker_status: "unknown".to_owned(),
            datafeed_status: "unknown".to_owned(),
            saved_result_path: None,
            dropped_events: 0,
            events: Vec::new(),
            updated_at: now,
        }
    }
}

/// What a strategy reports of itself at one time.
pub struct RuntimeUpdate {
    pub mode: StrategyMode,
    pub strategy_name: String,
    pub strategy_id: u128,
    pub status: StrategyStatus,
    pub current_time: UtcTime,
    pub universe: Vec<String>,
    pub variables: Vec<RuntimeVariableSnapshot>,
    pub insight_counts: Vec<(String, usize)>,
    pub active_insights: Vec<RuntimeInsightSnapshot>,
    pub metrics: Option<RuntimeMetricsSnapshot>,
    pub backtest_progress: Option<BacktestProgressSnapshot>,
    pub aqs_sync_status: String,
    pub broker_connected: bool,
    pub datafeed_connected: bool,
    pub saved_result_path: Option<String>,
}

/// The word for a connection that stands or does not.
pub open spec fn connection_word(connected: bool) -> Seq<char> {
    if connected {
        "connected"@
    } else {
        "disconnected"@
    }
}

/// Whether `after` shows what `update` reports; results and the path of saved results stay where
/// the report has none.
pub open spec fn applied(
    before: RuntimeSnapshot,
    update: RuntimeUpdate,
    after: RuntimeSnapshot,
) -> bool {
    &&& after.mode == update.mode
    &&& after.strategy_name == update.strategy_name
    &&& after.strategy_id@ == uuid_chars(update.strategy_id)
    &&& after.status@ == update.status.spec_label()
    &&& after.current_time == Some(update.current_time)
    &&& after.universe == update.universe
    &&& after.variables == update.variables
    &&& after.insight_counts == update.insight_counts
    &&& after.active_insights == update.active_insights
    &&& after.metrics == (if update.metrics is Some {
        update.metrics
    } else {
        before.metrics
    })
    &&& after.backtest_progress == update.backtest_progress
    &&& after.aqs_sync_status == update.aqs_sync_status
    &&& after.broker_status@ == connection_word(update.broker_connected)
    &&& after.datafeed_status@ == connection_word(update.datafeed_connected)
    &&& after.saved_result_path == (if update.saved_result_path is Some {
        update.saved_result_path
    } else {
        before.saved_result_path
    })
}

/// Whether two snapshots show the same report, whatever their events.
pub open spec fn same_report(a: RuntimeSnapshot, b: RuntimeSnapshot) -> bool {
    b == RuntimeSnapshot {
        dropped_events: b.dropped_events,
        events: b.events,
        updated_at: b.updated_at,
        ..a
    }
}

fn connection_text(connected: bool) -> (r: String)
    ensures
        r@ == connection_word(connected),
{
    if connected {
        "connected".to_owned()
    } else {
        "disconnected".to_owned()
    }
}

impl RuntimeSnapshot {
    /// Takes a strategy's report over. Results and the path of saved results stay where the report
    /// has none; the events are left alone.
    pub fn apply(&mut self, update: RuntimeUpdate)
        ensures
            applied(*old(self), update, *final(self)),
            final(self).dropped_events == old(self).dropped_events,
            final(self).events == old(self).events,
            final(self).updated_at == old(self).updated_at,
    {
        self.mode = update.mode;
        self.strategy_name = update.strategy_name;
        self.strategy_id = uuid_text(update.strategy_id);
        self.status = update.status.label().to_owned();
        self.current_time = Some(update.current_time);
        self.universe = update.universe;
        self.variables = update.variables;
        self.insight_counts = update.insight_counts;
        self.active_insights = update.active_insights;
        if update.metrics.is_some() {
            self.metrics = update.metrics;
        }
        self.backtest_progress = update.backtest_progress;
        self.aqs_sync_status = update.aqs_sync_status;
        self.broker_status = connection_text(update.broker_connected);
        self.datafeed_status = connection_text(update.datafeed_connected);
        if update.saved_result_path.is_some() {
            self.saved_result_path = update.saved_result_path;
        }
    }
}

/// `variable` put behind those whose keys come no later.
pub open spec fn with_variable(
    variables: Seq<(Seq<char>, JsonView)>,
    variable: (Seq<char>, JsonView),
) -> Seq<(Seq<char>, JsonView)>
    decreases variables.len(),
{
    if variables.len() == 0 {
        seq![variable]
    } else if text_le(variables[0].0, variable.0) {
        seq![variables[0]] + with_variable(variables.drop_first(), variable)
    } else {
        seq![variable] + variables
    }
}

/// Variables in the order of their keys.
pub open spec fn variables_by_key(variables: Seq<(Seq<char>, JsonView)>) -> Seq<
    (Seq<char>, JsonView),
>
    decreases variables.len(),
{
    if variables.len() == 0 {
        Seq::empty()
    } else {
        with_variable(variables_by_key(variables.drop_last()), variables.last())
    }
}

/// The models of a list of variables.
pub open spec fn entries_view(variables: Seq<(String, Json)>) -> Seq<(Seq<char>, JsonView)> {
    Seq::new(variables.len(), |i: int| (variables[i].0@, variables[i].1@))
}

/// The places of `items` read from a list.
pub open spec fn picked<T>(all: Seq<T>, places: Seq<usize>) -> Seq<T> {
    Seq::new(places.len(), |i: int| all[places[i] as int])
}

/// A strategy's variables as they are shown: in the order of their keys, the first ones only.
pub fn runtime_variable_snapshot(variables: &Vec<(String, Json)>) -> (r: Vec<
    RuntimeVariableSnapshot,
>)
    ensures
        ({
            let ordered = variables_by_key(entries_view(variables@));
            &&& r@.len() == (if ordered.len() <= SHOWN_VARIABLES {
                ordered.len()
            } else {
                SHOWN_VARIABLES as nat
            })
            &&& forall|i: int|
                0 <= i < r@.len() ==> (#[trigger] r@[i])@ == (VariableView {
                    key: ordered[i].0,
                    ..summary(Seq::empty(), ordered[i].1, 0)
                })
        }),
{
    let ghost all = entries_view(variables@);
    let mut order: Vec<usize> = Vec::new();
    let mut n: usize = 0;
    proof {
        assert(picked(all, order@) =~= variables_by_key(all.take(0)));
    }
    while n < variables.len()
        invariant
            n <= variables.len(),
            all == entries_view(variables@),
            forall|k: int| 0 <= k < order@.len() ==> #[trigger] order@[k] < n,
            picked(all, order@) == variables_by_key(all.take(n as int)),
        decreases variables.len() - n,
    {
        let ghost sorted = picked(all, order@);
        let ghost added = all[n as int];
        let mut i: usize = 0;
        proof {
            assert(all.take(n + 1).drop_last() =~= all.take(n as int));
            assert(sorted.skip(0) =~= sorted);
            assert(sorted.take(0) + with_variable(sorted, added) =~= with_variable(
                sorted,
                added,
            ));
        }
        while i < order.len() && text_at_most(
            variables[order[i]].0.as_str(),
            variables[n].0.as_str(),
        )
            invariant
                i <= order@.len(),
                n < variables.len(),
                all == entries_view(variables@),
                sorted == picked(all, order@),
                added == all[n as int],
                forall|k: int| 0 <= k < order@.len() ==> #[trigger] order@[k] < n,
                with_variable(sorted, added) == sorted.take(i as int) + with_variable(
                    sorted.skip(i as int),
                    added,
                ),
            ensures
                i <= order@.len(),
                with_variable(sorted, added) == sorted.take(i as int) + (seq![added]
                    + sorted.skip(i as int)),
            decreases order@.len() - i,
        {
            proof {
                assert(sorted.skip(i as int)[0] == sorted[i as int]);
                assert(sorted.skip(i as int).drop_first() =~= sorted.skip(i + 1));
                assert(sorted.take(i as int) + (seq![sorted[i as int]] + with_variable(
                    sorted.skip(i + 1),
                    added,
                )) =~= sorted.take(i + 1) + with_variable(sorted.skip(i + 1), added));
            }
            i = i + 1;
        }
        let ghost places = order@;
        order.insert(i, n);
        proof {
            assert(order@ =~= places.insert(i as int, n));
            assert(picked(all, order@) =~= sorted.take(i as int) + (seq![added] + sorted.skip(
                i as int,
            )));
        }
        n = n + 1;
    }
    proof {
        assert(all.take(n as int) =~= all);
    }
    let ghost ordered = picked(all, order@);
    let mut out: Vec<RuntimeVariableSnapshot> = Vec::new();
    let mut i: usize = 0;
    while i < order.len() && i < SHOWN_VARIABLES
        invariant
            i <= order@.len(),
            i <= SHOWN_VARIABLES,
            out@.len() == i,
            all == entries_view(variables@),
            ordered == picked(all, order@),
            forall|k: int| 0 <= k < order@.len() ==> #[trigger] order@[k] < variables.len(),
            forall|k: int|
                0 <= k < i ==> (#[trigger] out@[k])@ == (VariableView {
                    key: ordered[k].0,
                    ..summary(Seq::empty(), ordered[k].1, 0)
                }),
        decreases order@.len() - i,
    {
        let variable = &variables[order[i]];
        let mut shown = summarise_value(&variable.1);
        let ghost before = shown@;
        shown.key = variable.0.clone();
        proof {
            assert(shown@.children =~= before.children);
        }
        out.push(shown);
        i = i + 1;
    }
    out
}

/// The numbers of insights in each state, under the states' labels.
pub fn runtime_insight_counts(insights: &InsightCollection) -> (r: Vec<(String, usize)>)
    ensures
        r@.len() == 6,
        forall|i: int|
            0 <= i < 6 ==> (#[trigger] r@[i]).0@ == counted_state(i).spec_label() && r@[i].1
                == crate::collection::ids_where(
                insights.insights_view(),
                |v: InsightView| v.state == counted_state(i),
            ).len(),
{
    let mut out: Vec<(String, usize)> = Vec::new();
    let mut i: usize = 0;
    while i < 6
        invariant
            i <= 6,
            out@.len() == i,
            forall|k: int|
                0 <= k < i ==> (#[trigger] out@[k]).0@ == counted_state(k).spec_label() && out@[k].1
                    == crate::collection::ids_where(
                    insights.insights_view(),
                    |v: InsightView| v.state == counted_state(k),
                ).len(),
        decreases 6 - i,
    {
        let state = match i {
            0 => InsightState::New,
            1 => InsightState::Executed,
            2 => InsightState::Filled,
            3 => InsightState::Closed,
            4 => InsightState::Cancelled,
            _ => InsightState::Rejected,
        };
        let n: usize = insights.count_in_state(state);
        out.push((state.label().to_owned(), n));
        i = i + 1;
    }
    out
}

/// The states in the order in which they are counted.
pub open spec fn counted_state(i: int) -> InsightState {
    if i == 0 {
        InsightState::New
    } else if i == 1 {
        InsightState::Executed
    } else if i == 2 {
        InsightState::Filled
    } else if i == 3 {
        InsightState::Closed
    } else if i == 4 {
        InsightState::Cancelled
    } else {
        InsightState::Rejected
    }
}

impl OrderSide {
    /// The label of the side.
    pub open spec fn spec_label(self) -> Seq<char> {
        match self {
            OrderSide::Buy => "Buy"@,
            OrderSide::Sell => "Sell"@,
        }
    }

    /// The label of the side.
    pub fn label(&self) -> (r: &'static str)
        ensures
            r@ == self.spec_label(),
    {
        match self {
            OrderSide::Buy => "Buy",
            OrderSide::Sell => "Sell",
        }
    }
}

/// Whether an entry is shown as `r`.
pub open spec fn shows_entry(r: RuntimeInsightStateSnapshot, e: EntryView) -> bool {
    r.at == e.at && r.state@ == e.state.spec_label() && option_view(r.message) == e.message
}

/// Whether an insight is shown as `r`; of its history the latest entries, the last one first.
pub open spec fn shows(r: RuntimeInsightSnapshot, i: InsightView) -> bool {
    &&& r.insight_id@ == uuid_chars(i.insight_id)
    &&& match (r.parent_id, i.parent_id) {
        (Some(text), Some(id)) => text@ == uuid_chars(id),
        (None, None) => true,
        _ => false,
    }
    &&& r.symbol@ == i.symbol
    &&& r.state@ == i.state.spec_label()
    &&& r.side@ == i.side.spec_label()
    &&& r.strategy_type == i.profile.strategy_type
    &&& option_view(r.order_id) == i.order_id
    &&& option_view(r.close_order_id) == i.close_order_id
    &&& r.quantity == i.quantity
    &&& r.contracts == i.profile.contracts
    &&& r.order_type == i.profile.order_type
    &&& r.order_class == i.profile.order_class
    &&& r.limit_price == i.limit_price
    &&& r.stop_price == i.profile.stop_price
    &&& levels_view(r.take_profit_levels) == i.take_profit_levels
    &&& levels_view(r.stop_loss_levels) == i.stop_loss_levels
    &&& r.filled_price == i.filled_price
    &&& r.close_price == i.close_price
    &&& r.confidence == i.profile.confidence
    &&& r.created_at == Some(i.profile.created_at)
    &&& r.updated_at == Some(i.updated_at)
    &&& r.filled_at == i.filled_at
    &&& r.closed_at == i.closed_at
    &&& r.state_history@.len() == (if i.history.len() <= SHOWN_HISTORY {
        i.history.len()
    } else {
        SHOWN_HISTORY as nat
    })
    &&& forall|k: int|
        0 <= k < r.state_history@.len() ==> shows_entry(
            #[trigger] r.state_history@[k],
            i.history[i.history.len() - 1 - k],
        )
}

fn show_insight(insight: &Insight) -> (r: RuntimeInsightSnapshot)
    ensures
        shows(r, insight@),
{
    let total: usize = insight.state_history.len();
    let mut history: Vec<RuntimeInsightStateSnapshot> = Vec::new();
    let mut k: usize = 0;
    while k < total && k < SHOWN_HISTORY
        invariant
            total == insight.state_history@.len(),
            k <= total,
            k <= SHOWN_HISTORY,
            history@.len() == k,
            forall|j: int|
                0 <= j < k ==> shows_entry(
                    #[trigger] history@[j],
                    insight@.history[total - 1 - j],
                ),
        decreases total - k,
    {
        let entry = &insight.state_history[total - 1 - k];
        history.push(
            RuntimeInsightStateSnapshot {
                at: entry.at,
                state: entry.state.label().to_owned(),
                message: option_copy(&entry.message),
            },
        );
        k = k + 1;
    }
    let copy = insight.duplicate();
    RuntimeInsightSnapshot {
        insight_id: uuid_text(insight.insight_id),
        parent_id: match insight.parent_id {
            Some(id) => Some(uuid_text(id)),
            None => None,
        },
        symbol: insight.symbol.clone(),
        state: insight.state.label().to_owned(),
        side: insight.side.label().to_owned(),
        strategy_type: insight.profile.strategy_type.clone(),
        order_id: option_copy(&insight.order_id),
        close_order_id: option_copy(&insight.close_order_id),
        quantity: insight.quantity,
        contracts: insight.profile.contracts,
        order_type: insight.profile.order_type.clone(),
        order_class: insight.profile.order_class.clone(),
        limit_price: insight.limit_price,
        stop_price: insight.profile.stop_price,
        take_profit_levels: copy.take_profit_levels,
        stop_loss_levels: copy.stop_loss_levels,
        filled_price: insight.filled_price,
        close_price: insight.close_price,
        confidence: insight.profile.confidence,
        created_at: Some(insight.profile.created_at),
        updated_at: Some(insight.updated_at),
        filled_at: insight.filled_at,
        closed_at: insight.closed_at,
        state_history: history,
    }
}

/// Whether `a` is shown no later than `b`: by symbol, then by the time of the last change, then by
/// id.
pub open spec fn shown_before(a: InsightView, b: InsightView) -> bool {
    if a.symbol != b.symbol {
        text_le(a.symbol, b.symbol)
    } else if a.updated_at != b.updated_at {
        a.updated_at.before(b.updated_at)
    } else {
        text_le(uuid_chars(a.insight_id), uuid_chars(b.insight_id))
    }
}

fn is_shown_before(a: &Insight, b: &Insight) -> (r: bool)
    ensures
        r == shown_before(a@, b@),
{
    if !text_eq(a.symbol.as_str(), b.symbol.as_str()) {
        text_at_most(a.symbol.as_str(), b.symbol.as_str())
    } else if a.updated_at != b.updated_at {
        a.updated_at.is_before(b.updated_at)
    } else {
        text_at_most(uuid_text(a.insight_id).as_str(), uuid_text(b.insight_id).as_str())
    }
}

/// `insight` put behind those that are shown no later.
pub open spec fn with_shown(insights: Seq<InsightView>, insight: InsightView) -> Seq<InsightView>
    decreases insights.len(),
{
    if insights.len() == 0 {
        seq![insight]
    } else if shown_before(insights[0], insight) {
        seq![insights[0]] + with_shown(insights.drop_first(), insight)
    } else {
        seq![insight] + insights
    }
}

/// The insights that are not over, in the order in which they are shown.
pub open spec fn shown_order(insights: Seq<InsightView>) -> Seq<InsightView>
    decreases insights.len(),
{
    if insights.len() == 0 {
        Seq::empty()
    } else if insights.last().state.inactive() {
        shown_order(insights.drop_last())
    } else {
        with_shown(shown_order(insights.drop_last()), insights.last())
    }
}

/// The insights that are not over, as they are shown: in order, the first ones only.
pub fn runtime_active_insights(insights: &InsightCollection) -> (r: Vec<RuntimeInsightSnapshot>)
    ensures
        ({
            let ordered = shown_order(insights.insights_view());
            &&& r@.len() == (if ordered.len() <= SHOWN_INSIGHTS {
                ordered.len()
            } else {
                SHOWN_INSIGHTS as nat
            })
            &&& forall|i: int| 0 <= i < r@.len() ==> shows(#[trigger] r@[i], ordered[i])
        }),
{
    let ghost all = insights.insights_view();
    let mut order: Vec<usize> = Vec::new();
    let mut n: usize = 0;
    proof {
        assert(picked(all, order@) =~= shown_order(all.take(0)));
    }
    while n < insights.len()
        invariant
            n <= all.len(),
            all == insights.insights_view(),
            forall|k: int| 0 <= k < order@.len() ==> #[trigger] order@[k] < n,
            picked(all, order@) == shown_order(all.take(n as int)),
        decreases all.len() - n,
    {
        let ghost sorted = picked(all, order@);
        let ghost added = all[n as int];
        proof {
            assert(all.take(n + 1).drop_last() =~= all.take(n as int));
        }
        if !insights.at(n).state.is_inactive() {
            let mut i: usize = 0;
            proof {
                assert(sorted.skip(0) =~= sorted);
                assert(sorted.take(0) + with_shown(sorted, added) =~= with_shown(sorted, added));
            }
            while i < order.len() && is_shown_before(insights.at(order[i]), insights.at(n))
                invariant
                    i <= order@.len(),
                    n < all.len(),
                    all == insights.insights_view(),
                    sorted == picked(all, order@),
                    added == all[n as int],
                    forall|k: int| 0 <= k < order@.len() ==> #[trigger] order@[k] < n,
                    with_shown(sorted, added) == sorted.take(i as int) + with_shown(
                        sorted.skip(i as int),
                        added,
                    ),
                ensures
                    i <= order@.len(),
                    with_shown(sorted, added) == sorted.take(i as int) + (seq![added]
                        + sorted.skip(i as int)),
                decreases order@.len() - i,
            {
                proof {
                    assert(sorted.skip(i as int)[0] == sorted[i as int]);
                    assert(sorted.skip(i as int).drop_first() =~= sorted.skip(i + 1));
                    assert(sorted.take(i as int) + (seq![sorted[i as int]] + with_shown(
                        sorted.skip(i + 1),
                        added,
                    )) =~= sorted.take(i + 1) + with_shown(sorted.skip(i + 1), added));
                }
                i = i + 1;
            }
            let ghost places = order@;
            order.insert(i, n);
            proof {
                assert(order@ =~= places.insert(i as int, n));
                assert(picked(all, order@) =~= sorted.take(i as int) + (seq![added]
                    + sorted.skip(i as int)));
            }
        }
        n = n + 1;
    }
    proof {
        assert(all.take(n as int) =~= all);
    }
    let ghost ordered = picked(all, order@);
    let mut out: Vec<RuntimeInsightSnapshot> = Vec::new();
    let mut i: usize = 0;
    while i < order.len() && i < SHOWN_INSIGHTS
        invariant
            i <= order@.len(),
            i <= SHOWN_INSIGHTS,
            out@.len() == i,
            all == insights.insights_view(),
            ordered == picked(all, order@),
            forall|k: int| 0 <= k < order@.len() ==> #[trigger] order@[k] < all.len(),
            forall|k: int| 0 <= k < i ==> shows(#[trigger] out@[k], ordered[k]),
        decreases order@.len() - i,
    {
        out.push(show_insight(insights.at(order[i])));
        i = i + 1;
    }
    out
}

proof fn with_shown_holds(insights: Seq<InsightView>, insight: InsightView, v: InsightView)
    ensures
        with_shown(insights, insight).len() == insights.len() + 1,
        with_shown(insights, insight).contains(v) <==> v == insight || insights.contains(v),
    decreases insights.len(),
{
    let r = with_shown(insights, insight);
    if insights.len() == 0 {
        assert(r[0] == insight);
    } else if shown_before(insights[0], insight) {
        let rest = insights.drop_first();
        with_shown_holds(rest, insight, v);
        let w = with_shown(rest, insight);
        if w.contains(v) {
            let k = choose|k: int| 0 <= k < w.len() && w[k] == v;
            assert(r[k + 1] == v);
        }
        if r.contains(v) {
            let k = choose|k: int| 0 <= k < r.len() && r[k] == v;
            if k > 0 {
                assert(w[k - 1] == v);
            } else {
                assert(insights[0] == v);
            }
        }
        if insights.contains(v) {
            let k = choose|k: int| 0 <= k < insights.len() && insights[k] == v;
            if k > 0 {
                assert(rest[k - 1] == v);
            } else {
                assert(r[0] == v);
            }
        }
        if rest.contains(v) {
            let k = choose|k: int| 0 <= k < rest.len() && rest[k] == v;
            assert(insights[k + 1] == v);
        }
    } else {
        assert(r[0] == insight);
        if insights.contains(v) {
            let k = choose|k: int| 0 <= k < insights.len() && insights[k] == v;
            assert(r[k + 1] == v);
        }
        if r.contains(v) && v != insight {
            let k = choose|k: int| 0 <= k < r.len() && r[k] == v;
            assert(insights[k - 1] == v);
        }
    }
}

/// An insight is shown until it is closed, cancelled or rejected.
pub proof fn insights_are_shown_until_they_are_over(insights: Seq<InsightView>, v: InsightView)
    ensures
        shown_order(insights).contains(v) <==> insights.contains(v) && !(v.state is Closed)
            && !(v.state is Cancelled) && !(v.state is Rejected),
    decreases insights.len(),
{
    if insights.len() > 0 {
        let rest = insights.drop_last();
        let last = insights.last();
        insights_are_shown_until_they_are_over(rest, v);
        if !last.state.inactive() {
            with_shown_holds(shown_order(rest), last, v);
        }
        if rest.contains(v) {
            let k = choose|k: int| 0 <= k < rest.len() && rest[k] == v;
            assert(insights[k] == v);
        }
        assert(insights[insights.len() - 1] == last);
        if insights.contains(v) && v != last {
            let k = choose|k: int| 0 <= k < insights.len() && insights[k] == v;
            assert(rest[k] == v);
        }
    }
}

proof fn shown_before_goes_on(a: InsightView, b: InsightView, c: InsightView)
    requires
        shown_before(a, b),
        shown_before(b, c),
    ensures
        shown_before(a, c),
{
    if a.symbol != b.symbol && b.symbol != c.symbol {
        crate::text::text_le_transitive(a.symbol, b.symbol, c.symbol);
        if a.symbol == c.symbol {
            crate::text::text_le_antisymmetric(a.symbol, b.symbol);
        }
    } else if a.symbol == b.symbol && b.symbol == c.symbol && a.updated_at == b.updated_at
        && b.updated_at == c.updated_at {
        crate::text::text_le_transitive(
            uuid_chars(a.insight_id),
            uuid_chars(b.insight_id),
            uuid_chars(c.insight_id),
        );
    }
}

proof fn shown_before_one_way(a: InsightView, b: InsightView)
    ensures
        shown_before(a, b) || shown_before(b, a),
{
    crate::text::text_le_total(a.symbol, b.symbol);
    crate::text::text_le_total(uuid_chars(a.insight_id), uuid_chars(b.insight_id));
}

spec fn in_shown_order(insights: Seq<InsightView>) -> bool {
    forall|i: int, j: int|
        0 <= i < j < insights.len() ==> #[trigger] shown_before(insights[i], insights[j])
}

proof fn with_shown_orders(insights: Seq<InsightView>, insight: InsightView)
    requires
        in_shown_order(insights),
    ensures
        in_shown_order(with_shown(insights, insight)),
    decreases insights.len(),
{
    let r = with_shown(insights, insight);
    if insights.len() > 0 {
        let first = insights[0];
        let rest = insights.drop_first();
        assert forall|i: int, j: int| 0 <= i < j < rest.len() implies #[trigger] shown_before(
            rest[i],
            rest[j],
        ) by {
            assert(shown_before(insights[i + 1], insights[j + 1]));
        }
        if shown_before(first, insight) {
            with_shown_orders(rest, insight);
            let w = with_shown(rest, insight);
            assert forall|i: int, j: int| 0 <= i < j < r.len() implies #[trigger] shown_before(
                r[i],
                r[j],
            ) by {
                with_shown_holds(rest, insight, r[j]);
                assert(r[j] == w[j - 1]);
                assert(w.contains(r[j]));
                if i > 0 {
                    assert(shown_before(w[i - 1], w[j - 1]));
                } else if r[j] != insight {
                    let k = choose|k: int| 0 <= k < rest.len() && rest[k] == r[j];
                    assert(shown_before(insights[0], insights[k + 1]));
                }
            }
        } else {
            shown_before_one_way(first, insight);
            assert forall|i: int, j: int| 0 <= i < j < r.len() implies #[trigger] shown_before(
                r[i],
                r[j],
            ) by {
                if i > 0 {
                    assert(shown_before(insights[i - 1], insights[j - 1]));
                } else if j > 1 {
                    assert(shown_before(insights[0], insights[j - 1]));
                    shown_before_goes_on(insight, first, insights[j - 1]);
                }
            }
        }
    }
}

proof fn shown_order_orders(insights: Seq<InsightView>)
    ensures
        in_shown_order(shown_order(insights)),
    decreases insights.len(),
{
    if insights.len() > 0 {
        shown_order_orders(insights.drop_last());
        if !insights.last().state.inactive() {
            with_shown_orders(shown_order(insights.drop_last()), insights.last());
        }
    }
}

/// Insights are shown by their symbol, of one symbol by the time at which they changed, and of one
/// time by their id.
pub proof fn shown_insights_are_ordered(insights: Seq<InsightView>, i: int, j: int)
    requires
        0 <= i < j < shown_order(insights).len(),
    ensures
        ({
            let a = shown_order(insights)[i];
            let b = shown_order(insights)[j];
            &&& text_le(a.symbol, b.symbol)
            &&& a.symbol == b.symbol ==> !b.updated_at.before(a.updated_at)
            &&& a.symbol == b.symbol && a.updated_at == b.updated_at ==> text_le(
                uuid_chars(a.insight_id),
                uuid_chars(b.insight_id),
            )
        }),
{
    shown_order_orders(insights);
    let a = shown_order(insights)[i];
    let b = shown_order(insights)[j];
    assert(shown_before(a, b));
    crate::text::text_le_reflexive(a.symbol);
}

/// Up to 128 insights are shown, each as it stands; of its history the five newest entries, the
/// newest first.
pub proof fn insights_are_shown_as_they_stand(
    insights: InsightCollection,
    r: Vec<RuntimeInsightSnapshot>,
    k: int,
)
    requires
        call_ensures(runtime_active_insights, (&insights,), r),
        0 <= k < r@.len(),
    ensures
        r@.len() <= 128,
        r@.len() == 128 || r@.len() == shown_order(insights.insights_view()).len(),
        ({
            let s = r@[k];
            let v = shown_order(insights.insights_view())[k];
            &&& insights.insights_view().contains(v)
            &&& !(v.state is Closed) && !(v.state is Cancelled) && !(v.state is Rejected)
            &&& s.insight_id@ == uuid_chars(v.insight_id)
            &&& s.parent_id is Some <==> v.parent_id is Some
            &&& v.parent_id is Some ==> s.parent_id->Some_0@ == uuid_chars(v.parent_id->Some_0)
            &&& s.symbol@ == v.symbol
            &&& s.state@ == v.state.spec_label()
            &&& v.side is Buy ==> s.side@ == "Buy"@
            &&& v.side is Sell ==> s.side@ == "Sell"@
            &&& s.strategy_type == v.profile.strategy_type
            &&& option_view(s.order_id) == v.order_id
            &&& option_view(s.close_order_id) == v.close_order_id
            &&& s.quantity == v.quantity
            &&& s.contracts == v.profile.contracts
            &&& s.order_type == v.profile.order_type
            &&& s.order_class == v.profile.order_class
            &&& s.limit_price == v.limit_price
            &&& s.stop_price == v.profile.stop_price
            &&& levels_view(s.take_profit_levels) == v.take_profit_levels
            &&& levels_view(s.stop_loss_levels) == v.stop_loss_levels
            &&& s.filled_price == v.filled_price
            &&& s.close_price == v.close_price
            &&& s.confidence == v.profile.confidence
            &&& s.created_at == Some(v.profile.created_at)
            &&& s.updated_at == Some(v.updated_at)
            &&& s.filled_at == v.filled_at
            &&& s.closed_at == v.closed_at
            &&& v.history.len() >= 5 ==> s.state_history@.len() == 5
            &&& v.history.len() < 5 ==> s.state_history@.len() == v.history.len()
            &&& forall|h: int|
                0 <= h < s.state_history@.len() ==> {
                    let e = v.history[v.history.len() - 1 - h];
                    &&& (#[trigger] s.state_history@[h]).at == e.at
                    &&& s.state_history@[h].state@ == e.state.spec_label()
                    &&& option_view(s.state_history@[h].message) == e.message
                }
        }),
{
    let all = insights.insights_view();
    let v = shown_order(all)[k];
    assert(shown_order(all).contains(v));
    insights_are_shown_until_they_are_over(all, v);
    assert(shows(r@[k], v));
}

/// Insights are counted by their state: the new, the executed, the filled, the closed, the cancelled
/// and the rejected ones, each under the name of the state.
pub proof fn insights_are_counted_by_state(
    insights: InsightCollection,
    r: Vec<(String, usize)>,
    state: InsightState,
)
    requires
        call_ensures(runtime_insight_counts, (&insights,), r),
    ensures
        r@.len() == 6,
        ({
            let n = crate::collection::ids_where(
                insights.insights_view(),
                |v: InsightView| v.state == state,
            ).len();
            &&& state is New ==> r@[0].0@ == state.spec_label() && r@[0].1 == n
            &&& state is Executed ==> r@[1].0@ == state.spec_label() && r@[1].1 == n
            &&& state is Filled ==> r@[2].0@ == state.spec_label() && r@[2].1 == n
            &&& state is Closed ==> r@[3].0@ == state.spec_label() && r@[3].1 == n
            &&& state is Cancelled ==> r@[4].0@ == state.spec_label() && r@[4].1 == n
            &&& state is Rejected ==> r@[5].0@ == state.spec_label() && r@[5].1 == n
        }),
{
    assert forall|i: int| 0 <= i < 6 && state == counted_state(i) implies #[trigger] r@[i].1
        == crate::collection::ids_where(
        insights.insights_view(),
        |v: InsightView| v.state == state,
    ).len() by {
        assert((|v: InsightView| v.state == counted_state(i)) =~= (|v: InsightView|
            v.state == state));
    }
    assert(r@[0].0@ == counted_state(0).spec_label());
    assert(r@[1].0@ == counted_state(1).spec_label());
    assert(r@[2].0@ == counted_state(2).spec_label());
    assert(r@[3].0@ == counted_state(3).spec_label());
    assert(r@[4].0@ == counted_state(4).spec_label());
    assert(r@[5].0@ == counted_state(5).spec_label());
}

/// A report takes over what an update says; where it says nothing of the figures or of a written
/// result, what was known of them stays.
pub proof fn reports_take_their_updates_over()
    ensures
        forall|s: &mut RuntimeSnapshot, u: RuntimeUpdate, r: ()| #[trigger]
            call_ensures(RuntimeSnapshot::apply, (s, u), r) ==> {
                &&& final(s).mode == u.mode
                &&& final(s).strategy_name == u.strategy_name
                &&& final(s).strategy_id@ == uuid_chars(u.strategy_id)
                &&& final(s).status@ == u.status.spec_label()
                &&& final(s).current_time == Some(u.current_time)
                &&& final(s).universe == u.universe
                &&& final(s).variables == u.variables
                &&& final(s).insight_counts == u.insight_counts
                &&& final(s).active_insights == u.active_insights
                &&& u.metrics is Some ==> final(s).metrics == u.metrics
                &&& u.metrics is None ==> final(s).metrics == s.metrics
                &&& u.saved_result_path is Some ==> final(s).saved_result_path
                    == u.saved_result_path
                &&& u.saved_result_path is None ==> final(s).saved_result_path
                    == s.saved_result_path
                &&& final(s).backtest_progress == u.backtest_progress
                &&& final(s).aqs_sync_status == u.aqs_sync_status
                &&& u.broker_connected ==> final(s).broker_status@ == "connected"@
                &&& !u.broker_connected ==> final(s).broker_status@ == "disconnected"@
                &&& u.datafeed_connected ==> final(s).datafeed_status@ == "connected"@
                &&& !u.datafeed_connected ==> final(s).datafeed_status@ == "disconnected"@
                &&& final(s).events == s.events
                &&& final(s).dropped_events == s.dropped_events
                &&& final(s).updated_at == s.updated_at
            },
{
}

/// A report begins with nothing known: a backtest without a name that has only been set up.
pub proof fn reports_begin_empty(now: UtcTime, r: RuntimeSnapshot)
    requires
        call_ensures(RuntimeSnapshot::initial, (now,), r),
    ensures
        r.mode is Backtest,
        r.strategy_name@.len() == 0,
        r.strategy_id@.len() == 0,
        r.status@ == "Initialised"@,
        r.current_time is None,
        r.universe@.len() == 0 && r.variables@.len() == 0 && r.insight_counts@.len() == 0,
        r.active_insights@.len() == 0 && r.events@.len() == 0 && r.dropped_events == 0,
        r.metrics is None && r.backtest_progress is None && r.saved_result_path is None,
        r.aqs_sync_status@ == "not configured"@,
        r.broker_status@ == "unknown"@ && r.datafeed_status@ == "unknown"@,
        r.updated_at == now,
{
}

/// The figures of a live run are shown under their own names.
pub proof fn live_figures_are_shown(live: LiveMetricsSnapshot, r: RuntimeMetricsSnapshot)
    requires
        call_ensures(runtime_live_metrics, (&live,), r),
    ensures
        r.final_equity == live.figures.final_equity,
        r.total_return_pct == live.figures.total_return_pct,
        r.total_trades == live.counts.total_trades,
        r.open_positions_count == live.counts.open_positions_count,
        r.open_insights_count == live.counts.open_insights_count,
        r.updated_at == Some(live.updated_at),
        r.summary_lines@.len() == 0,
{
}

proof fn with_variable_holds(
    variables: Seq<(Seq<char>, JsonView)>,
    variable: (Seq<char>, JsonView),
    v: (Seq<char>, JsonView),
)
    ensures
        with_variable(variables, variable).len() == variables.len() + 1,
        with_variable(variables, variable).contains(v) <==> v == variable || variables.contains(v),
    decreases variables.len(),
{
    let r = with_variable(variables, variable);
    if variables.len() == 0 {
        assert(r[0] == variable);
    } else if text_le(variables[0].0, variable.0) {
        let rest = variables.drop_first();
        with_variable_holds(rest, variable, v);
        let w = with_variable(rest, variable);
        if w.contains(v) {
            let k = choose|k: int| 0 <= k < w.len() && w[k] == v;
            assert(r[k + 1] == v);
        }
        if r.contains(v) {
            let k = choose|k: int| 0 <= k < r.len() && r[k] == v;
            if k > 0 {
                assert(w[k - 1] == v);
            } else {
                assert(variables[0] == v);
            }
        }
        if variables.contains(v) {
            let k = choose|k: int| 0 <= k < variables.len() && variables[k] == v;
            if k > 0 {
                assert(rest[k - 1] == v);
            } else {
                assert(r[0] == v);
            }
        }
        if rest.contains(v) {
            let k = choose|k: int| 0 <= k < rest.len() && rest[k] == v;
            assert(variables[k + 1] == v);
        }
    } else {
        assert(r[0] == variable);
        if variables.contains(v) {
            let k = choose|k: int| 0 <= k < variables.len() && variables[k] == v;
            assert(r[k + 1] == v);
        }
        if r.contains(v) && v != variable {
            let k = choose|k: int| 0 <= k < r.len() && r[k] == v;
            assert(variables[k - 1] == v);
        }
    }
}

proof fn with_variable_orders(
    variables: Seq<(Seq<char>, JsonView)>,
    variable: (Seq<char>, JsonView),
)
    requires
        forall|i: int, j: int|
            0 <= i < j < variables.len() ==> #[trigger] text_le(variables[i].0, variables[j].0),
    ensures
        forall|i: int, j: int|
            0 <= i < j < variables.len() + 1 ==> #[trigger] text_le(
                with_variable(variables, variable)[i].0,
                with_variable(variables, variable)[j].0,
            ),
    decreases variables.len(),
{
    let r = with_variable(variables, variable);
    with_variable_holds(variables, variable, variable);
    if variables.len() > 0 {
        let first = variables[0];
        let rest = variables.drop_first();
        assert forall|i: int, j: int| 0 <= i < j < rest.len() implies #[trigger] text_le(
            rest[i].0,
            rest[j].0,
        ) by {
            assert(text_le(variables[i + 1].0, variables[j + 1].0));
        }
        if text_le(first.0, variable.0) {
            with_variable_orders(rest, variable);
            let w = with_variable(rest, variable);
            assert forall|i: int, j: int| 0 <= i < j < r.len() implies #[trigger] text_le(
                r[i].0,
                r[j].0,
            ) by {
                with_variable_holds(rest, variable, r[j]);
                assert(r[j] == w[j - 1]);
                assert(w.contains(r[j]));
                if i > 0 {
                    assert(text_le(w[i - 1].0, w[j - 1].0));
                } else if r[j] != variable {
                    let k = choose|k: int| 0 <= k < rest.len() && rest[k] == r[j];
                    assert(text_le(variables[0].0, variables[k + 1].0));
                }
            }
        } else {
            crate::text::text_le_total(first.0, variable.0);
            assert forall|i: int, j: int| 0 <= i < j < r.len() implies #[trigger] text_le(
                r[i].0,
                r[j].0,
            ) by {
                if i > 0 {
                    assert(text_le(variables[i - 1].0, variables[j - 1].0));
                } else if j > 1 {
                    assert(text_le(variables[0].0, variables[j - 1].0));
                    crate::text::text_le_transitive(variable.0, first.0, variables[j - 1].0);
                }
            }
        }
    }
}

/// Variables are shown in the order of their names: each of them, and no other.
pub proof fn variables_are_shown_by_name(
    variables: Seq<(Seq<char>, JsonView)>,
    v: (Seq<char>, JsonView),
)
    ensures
        variables_by_key(variables).len() == variables.len(),
        variables_by_key(variables).contains(v) <==> variables.contains(v),
        forall|i: int, j: int|
            0 <= i < j < variables.len() ==> #[trigger] text_le(
                variables_by_key(variables)[i].0,
                variables_by_key(variables)[j].0,
            ),
    decreases variables.len(),
{
    if variables.len() > 0 {
        let rest = variables.drop_last();
        let last = variables.last();
        variables_are_shown_by_name(rest, v);
        with_variable_holds(variables_by_key(rest), last, v);
        with_variable_orders(variables_by_key(rest), last);
        assert(variables[variables.len() - 1] == last);
        if rest.contains(v) {
            let k = choose|k: int| 0 <= k < rest.len() && rest[k] == v;
            assert(variables[k] == v);
        }
        if variables.contains(v) && v != last {
            let k = choose|k: int| 0 <= k < variables.len() && variables[k] == v;
            assert(rest[k] == v);
        }
    }
}

/// Up to 64 variables are shown, each under its name with the summary of its value.
pub proof fn variables_are_shown_with_their_value(
    variables: Vec<(String, Json)>,
    r: Vec<RuntimeVariableSnapshot>,
    i: int,
)
    requires
        call_ensures(runtime_variable_snapshot, (&variables,), r),
    ensures
        variables@.len() <= 64 ==> r@.len() == variables@.len(),
        variables@.len() > 64 ==> r@.len() == 64,
        0 <= i < r@.len() ==> exists|k: int|
            0 <= k < variables@.len() && r@[i]@.key == (#[trigger] variables@[k]).0@ && r@[i]@.value
                == summary(Seq::empty(), variables@[k].1@, 0).value && r@[i]@.children == summary(
                Seq::empty(),
                variables@[k].1@,
                0,
            ).children,
{
    let all = entries_view(variables@);
    let ordered = variables_by_key(all);
    variables_are_shown_by_name(all, ordered[i]);
    if 0 <= i < r@.len() {
        assert(ordered.contains(ordered[i]));
        let k = choose|k: int| 0 <= k < all.len() && all[k] == ordered[i];
        assert(all[k] == (variables@[k].0@, variables@[k].1@));
    }
}

} // verus!
