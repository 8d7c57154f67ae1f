//! Insights, the broker's reports on them, and the pipeline.
use aq_engine::asset::{Asset, AssetExchange, AssetStatus, AssetType, Rounding};
use aq_engine::children::{note_request, reconcile_children, ChildRequest};
use aq_engine::collection::{on_trade_update, InsightCollection};
use aq_engine::insight::{
    Insight, InsightProfile, InsightState, OrderLeg, OrderLegs, OrderSide, TradeUpdateEvent,
};
use aq_engine::number::{Amount, Number};
use aq_engine::pipeline::{
    run_insight_pipeline, InsightPipe, InsightPipeResult, InsightPipeline, PipelineContext,
    WrappedInsightPipe,
};
use aq_engine::state::StrategyState;
use aq_engine::teardown::{
    cleanup_active_insights_for_teardown, teardown_cancel_reply, teardown_close_reply,
    teardown_requests, teardown_step, CancelReply, TeardownCleanupReport, TeardownReply,
    TeardownRequest,
};
use aq_engine::time::UtcTime;
use aq_engine::timeframe::{TimeFrame, TimeFrameUnit};
use aq_engine::tools::{filled_insights_from_collection, StrategyTools};
use aq_engine::trade::{submit_insight, trade_step, Order, TradeStep};
use aq_engine::types::{StrategyMode, StrategyStatus};
use aq_engine::universe::{
    check_result, model_name, universe_symbols, UniverseModel, UniverseModelBuilder, UniverseResult,
    WrappedUniverseModel,
};
use rustc_hash::FxHashSet;
use uuid::Uuid;

const NOW: UtcTime = UtcTime { secs: 1_700_000_000, nanos: 0 };

fn number(x: f64) -> Number {
    Number { bits: x.to_bits() }
}

/// A price as an asset with two decimal places has it.
fn cents(x: f64) -> f64 {
    (x * 100.0).round() / 100.0
}

fn amount(x: f64) -> Amount {
    Amount { reported: number(x), rounded: number(cents(x)) }
}

fn profile() -> InsightProfile {
    InsightProfile {
        strategy_type: "TESTING".to_string(),
        order_type: "Market".to_string(),
        order_class: "Simple".to_string(),
        contracts: None,
        stop_price: None,
        confidence: 90,
        created_at: NOW,
    }
}

fn insight(id: u128, parent: Option<u128>) -> Insight {
    let mut made = Insight::new(id, parent, "AAPL".to_string(), OrderSide::Buy, profile());
    made.quantity = Some(number(1.0));
    made
}

fn test_order(
    order_id: &str,
    insight: &Insight,
    event: TradeUpdateEvent,
    side: OrderSide,
    filled_price: Option<f64>,
) -> Order {
    let qty = insight.quantity.unwrap_or(number(1.0));
    Order {
        order_id: order_id.to_string(),
        insight_id: Some(Uuid::from_u128(insight.insight_id).to_string()),
        symbol: insight.symbol.clone(),
        side,
        status: event,
        qty,
        filled_qty: qty,
        limit_price: insight.limit_price.map(|p| Amount { reported: p, rounded: p }),
        filled_price: filled_price.map(amount),
        stop_price: None,
        realized_pnl: None,
        commission: None,
        swap: None,
        rejection_reason: None,
        legs: None,
    }
}

/// A running strategy's insights with a broker that takes every request.
struct Harness {
    insights: InsightCollection,
    events: Vec<(Order, TradeUpdateEvent)>,
    close_requests: Vec<String>,
    cancel_requests: Vec<String>,
}

fn trade_update_state() -> Harness {
    Harness {
        insights: InsightCollection::new(),
        events: Vec::new(),
        close_requests: Vec::new(),
        cancel_requests: Vec::new(),
    }
}

impl Harness {
    fn emit(&mut self, order: Order, event: TradeUpdateEvent) {
        self.events.push((order, event));
    }

    fn on_trade_update(&mut self) {
        let events = std::mem::take(&mut self.events);
        let universe = vec!["AAPL".to_string()];
        let mut effects = on_trade_update(&mut self.insights, &universe, &events, NOW);
        let requests: Vec<ChildRequest> = reconcile_children(
            &mut self.insights,
            &effects.parents_to_reconcile,
            &mut effects.touched,
            NOW,
        );
        for request in requests {
            let order_id = request.order_id.clone().unwrap();
            if request.close {
                self.close_requests.push(order_id);
            } else {
                self.cancel_requests.push(order_id);
            }
            note_request(&mut self.insights, &request);
        }
    }
}

#[test]
fn test_mt5_fill_with_changed_ticket_updates_insight_order_id() {
    let mut state = trade_update_state();
    let mut insight = insight(1, None);
    insight.quantity = Some(number(2.0));
    insight.order_id = Some("client-order".to_string());
    insight.state = InsightState::Executed;
    let insight_id = insight.insight_id;
    state.insights.add_insight(insight.clone());

    let fill = test_order(
        "mt5-position-123",
        &insight,
        TradeUpdateEvent::Filled,
        OrderSide::Buy,
        Some(101.25),
    );
    state.emit(fill, TradeUpdateEvent::Filled);

    state.on_trade_update();

    let updated = state.insights.get(insight_id).unwrap();
    assert_eq!(updated.state, InsightState::Filled);
    assert_eq!(updated.order_id.as_deref(), Some("mt5-position-123"));
    assert_eq!(updated.filled_price, Some(number(101.25)));
}

#[test]
fn trade_update_rounds_insight_fee_fields_before_snapshot() {
    let mut state = trade_update_state();
    let mut insight = insight(1, None);
    insight.quantity = Some(number(2.0));
    insight.order_id = Some("position-123".to_string());
    insight.state = InsightState::Filled;
    insight.filled_price = Some(number(100.0));
    let insight_id = insight.insight_id;
    state.insights.add_insight(insight.clone());

    let mut close = test_order(
        "position-123",
        &insight,
        TradeUpdateEvent::Closed,
        OrderSide::Sell,
        Some(110.237),
    );
    close.realized_pnl = Some(amount(20.236));
    close.commission = Some(amount(1.234));
    close.swap = Some(amount(-0.345));
    state.emit(close, TradeUpdateEvent::Closed);

    state.on_trade_update();

    let updated = state.insights.get(insight_id).unwrap();
    assert_eq!(updated.state, InsightState::Closed);
    assert_eq!(updated.close_price, Some(number(cents(110.237))));
    assert_eq!(updated.broker_realized_pnl, Some(number(cents(20.236))));
    assert_eq!(updated.commission, Some(number(cents(1.234))));
    assert_eq!(updated.swap, Some(number(cents(-0.345))));
}

#[test]
fn test_mt5_late_fill_corrects_cancelled_insight() {
    let mut state = trade_update_state();
    let mut insight = insight(1, None);
    insight.order_id = Some("client-order".to_string());
    insight.state = InsightState::Cancelled;
    let insight_id = insight.insight_id;
    state.insights.add_insight(insight.clone());

    let fill = test_order(
        "mt5-position-after-cancel",
        &insight,
        TradeUpdateEvent::Filled,
        OrderSide::Buy,
        Some(102.0),
    );
    state.emit(fill, TradeUpdateEvent::Filled);

    state.on_trade_update();

    let updated = state.insights.get(insight_id).unwrap();
    assert_eq!(updated.state, InsightState::Filled);
    assert_eq!(updated.order_id.as_deref(), Some("mt5-position-after-cancel"));
    assert_eq!(updated.filled_price, Some(number(102.0)));
}

#[test]
fn test_parent_closed_does_not_cancel_children_without_event_trigger() {
    let mut state = trade_update_state();
    let mut parent = insight(1, None);
    parent.state = InsightState::Closed;
    let parent_id = parent.insight_id;
    let mut child = insight(2, Some(parent_id));
    let child_id = child.insight_id;
    child.state = InsightState::New;
    state.insights.add_insight(parent);
    state.insights.add_insight(child);

    state.on_trade_update();

    let child = state.insights.get(child_id).unwrap();
    assert_eq!(child.state, InsightState::New);

    let parents = vec![parent_id].into_iter().collect::<FxHashSet<_>>();
    assert_eq!(state.insights.child_ids_for_parents(&parents), vec![child_id]);
}

#[test]
fn test_child_fill_after_parent_closed_is_queued_to_close() {
    let mut state = trade_update_state();
    let mut parent = insight(1, None);
    parent.state = InsightState::Closed;
    let parent_id = parent.insight_id;
    let mut child = insight(2, Some(parent_id));
    child.order_id = Some("client-child".to_string());
    child.state = InsightState::Executed;
    let child_id = child.insight_id;
    state.insights.add_insight(parent);
    state.insights.add_insight(child.clone());

    let fill = test_order(
        "mt5-child-position",
        &child,
        TradeUpdateEvent::Filled,
        OrderSide::Buy,
        Some(99.5),
    );
    state.emit(fill, TradeUpdateEvent::Filled);

    state.on_trade_update();

    let child = state.insights.get(child_id).unwrap();
    assert_eq!(child.state, InsightState::Filled);
    assert!(child.closing, "filled child should be queued to close");
    assert_eq!(child.order_id.as_deref(), Some("mt5-child-position"));
    assert_eq!(state.close_requests.as_slice(), ["mt5-child-position"]);
}

#[test]
fn test_parent_close_event_cancels_unfilled_child() {
    let mut state = trade_update_state();
    let mut parent = insight(1, None);
    parent.order_id = Some("parent-position".to_string());
    parent.state = InsightState::Filled;
    parent.filled_price = Some(number(100.0));
    let parent_id = parent.insight_id;
    let mut child = insight(2, Some(parent_id));
    child.order_id = Some("child-pending".to_string());
    child.state = InsightState::Executed;
    let child_id = child.insight_id;
    state.insights.add_insight(parent.clone());
    state.insights.add_insight(child);

    let close = test_order(
        "parent-close",
        &parent,
        TradeUpdateEvent::Closed,
        OrderSide::Sell,
        Some(105.0),
    );
    state.emit(close, TradeUpdateEvent::Closed);

    state.on_trade_update();

    let parent = state.insights.get(parent_id).unwrap();
    assert_eq!(parent.state, InsightState::Closed);
    let child = state.insights.get(child_id).unwrap();
    assert_eq!(child.state, InsightState::Executed);
    assert!(child.cancelling, "unfilled child should be queued to cancel");
    assert_eq!(state.cancel_requests.as_slice(), ["child-pending"]);
}

#[test]
fn test_parent_close_event_closes_filled_child_and_cancels_pending_child() {
    let mut state = trade_update_state();
    let mut parent = insight(1, None);
    parent.order_id = Some("parent-position".to_string());
    parent.state = InsightState::Filled;
    parent.filled_price = Some(number(100.0));
    let parent_id = parent.insight_id;

    let mut market_child = insight(2, Some(parent_id));
    market_child.order_id = Some("market-child-position".to_string());
    market_child.state = InsightState::Filled;
    market_child.filled_price = Some(number(100.0));
    let market_child_id = market_child.insight_id;

    let mut limit_child = insight(3, Some(parent_id));
    limit_child.order_id = Some("limit-child-pending".to_string());
    limit_child.limit_price = Some(number(95.0));
    limit_child.state = InsightState::Executed;
    let limit_child_id = limit_child.insight_id;

    state.insights.add_insight(parent.clone());
    state.insights.add_insight(market_child);
    state.insights.add_insight(limit_child);

    let parent_close = test_order(
        "parent-position",
        &parent,
        TradeUpdateEvent::Closed,
        OrderSide::Sell,
        Some(101.0),
    );
    state.emit(parent_close, TradeUpdateEvent::Closed);
    state.on_trade_update();

    let parent = state.insights.get(parent_id).unwrap();
    assert_eq!(parent.state, InsightState::Closed);

    let market_child = state.insights.get(market_child_id).unwrap().clone();
    assert_eq!(market_child.state, InsightState::Filled);
    assert!(
        market_child.closing,
        "filled market child should be queued to close when parent closes"
    );
    assert_eq!(state.close_requests.as_slice(), ["market-child-position"]);

    let limit_child = state.insights.get(limit_child_id).unwrap().clone();
    assert_eq!(limit_child.state, InsightState::Executed);
    assert!(
        limit_child.cancelling,
        "pending limit child should be queued to cancel when parent closes"
    );
    assert_eq!(state.cancel_requests.as_slice(), ["limit-child-pending"]);

    let market_child_close = test_order(
        "market-child-position",
        &market_child,
        TradeUpdateEvent::Closed,
        OrderSide::Sell,
        Some(101.0),
    );
    let limit_child_cancel = test_order(
        "limit-child-pending",
        &limit_child,
        TradeUpdateEvent::Cancelled,
        OrderSide::Buy,
        None,
    );
    state.emit(market_child_close, TradeUpdateEvent::Closed);
    state.emit(limit_child_cancel, TradeUpdateEvent::Cancelled);
    state.on_trade_update();

    let market_child = state.insights.get(market_child_id).unwrap();
    assert_eq!(
        market_child.state,
        InsightState::Closed,
        "filled market child should become Closed after broker close event"
    );

    let limit_child = state.insights.get(limit_child_id).unwrap();
    assert_eq!(
        limit_child.state,
        InsightState::Cancelled,
        "pending limit child should become Cancelled after broker cancel event"
    );
}

struct PipeContext;

impl PipelineContext for PipeContext {
    fn can_expire(&self, insight: &Insight) -> bool {
        insight.state == InsightState::New || insight.state == InsightState::Executed
    }

    fn has_expired(&mut self, _insight: &mut Insight) -> bool {
        false
    }

    fn fingerprint(&self, insight: &Insight) -> u64 {
        format!("{:?}", insight).bytes().fold(7u64, |h, b| h.wrapping_mul(31).wrapping_add(b as u64))
    }

    fn now(&self) -> UtcTime {
        NOW
    }
}

enum TestPipe {
    AlwaysFail { passed: bool, success: bool, message: &'static str },
    PassThrough,
    LifecycleHalt,
}

impl InsightPipe<PipeContext> for TestPipe {
    fn should_run(&self, _insight: &Insight) -> bool {
        true
    }

    fn run(&mut self, _context: &mut PipeContext, insight: &mut Insight) -> InsightPipeResult {
        match self {
            TestPipe::AlwaysFail { passed, success, message } => InsightPipeResult::new(
                *passed,
                *success,
                Some(message.to_string()),
                "AlwaysFailPipe".to_string(),
            ),
            TestPipe::PassThrough => InsightPipeResult::new(
                true,
                true,
                Some("ok".to_string()),
                "PassThroughPipe".to_string(),
            ),
            TestPipe::LifecycleHalt => {
                insight.closing = true;
                InsightPipeResult::new(
                    false,
                    true,
                    Some("close requested".to_string()),
                    "LifecycleHaltPipe".to_string(),
                )
            }
        }
    }
}

fn run_pipe(target_state: InsightState, pipe: TestPipe, insights: &mut InsightCollection) {
    let mut pipeline = InsightPipeline::new();
    pipeline.add_pipe(WrappedInsightPipe { target_state, pipe });
    run_insight_pipeline(&mut pipeline, &mut PipeContext, insights);
}

fn has_entry(insight: &Insight, state: InsightState, part: &str) -> bool {
    insight
        .state_history
        .iter()
        .any(|entry| entry.state == state && entry.message.as_deref().is_some_and(|m| m.contains(part)))
}

#[test]
fn test_run_insight_pipeline_rejects_when_pipe_execution_fails() {
    let mut insights = InsightCollection::new();
    insights.add_insight(insight(1, None));
    run_pipe(
        InsightState::New,
        TestPipe::AlwaysFail {
            passed: false,
            success: false,
            message: "forced execution failure",
        },
        &mut insights,
    );
    let insight = insights.get(1).expect("insight should still exist after rejection");
    assert_eq!(insight.state, InsightState::Rejected);
    assert!(has_entry(insight, InsightState::Rejected, "forced execution failure"));
}

#[test]
fn test_run_insight_pipeline_rejects_when_pipe_does_not_pass() {
    let mut insights = InsightCollection::new();
    insights.add_insight(insight(1, None));
    run_pipe(
        InsightState::New,
        TestPipe::AlwaysFail { passed: false, success: true, message: "risk check did not pass" },
        &mut insights,
    );
    let insight = insights.get(1).expect("insight should still exist after rejection");
    assert_eq!(insight.state, InsightState::Rejected);
    assert!(has_entry(insight, InsightState::Rejected, "risk check did not pass"));
}

fn just_filled() -> Insight {
    let mut made = insight(1, None);
    made.state = InsightState::Filled;
    made.order_id = Some("filled-order".to_string());
    made.filled_price = Some(number(123.45));
    made.set_first_on_fill(true, NOW);
    made
}

#[test]
fn test_run_insight_pipeline_does_not_reject_when_pipe_starts_close() {
    let mut insights = InsightCollection::new();
    insights.add_insight(just_filled());
    run_pipe(InsightState::Filled, TestPipe::LifecycleHalt, &mut insights);
    let insight = insights.get(1).expect("filled insight should still exist after lifecycle halt");
    assert_eq!(insight.state, InsightState::Filled);
    assert!(insight.closing);
    assert!(!insight.first_on_fill);
    assert!(!insight.state_history.iter().any(|entry| entry.state == InsightState::Rejected));
}

#[test]
fn test_run_insight_pipeline_clears_first_on_fill_after_filled_pipes_complete() {
    let mut insights = InsightCollection::new();
    insights.add_insight(just_filled());
    run_pipe(InsightState::Filled, TestPipe::PassThrough, &mut insights);
    let insight = insights.get(1).expect("filled insight should still exist after pipeline run");
    assert!(!insight.first_on_fill);
    assert!(has_entry(insight, InsightState::Filled, "first_on_fill set to false"));
}

#[test]
fn pipes_of_another_state_are_not_run() {
    let mut insights = InsightCollection::new();
    insights.add_insight(insight(1, None));
    run_pipe(
        InsightState::Executed,
        TestPipe::AlwaysFail { passed: false, success: false, message: "no" },
        &mut insights,
    );
    assert_eq!(insights.get(1).unwrap().state, InsightState::New);
}

fn strategy_state() -> StrategyState<u8, &'static str> {
    StrategyState::new(
        "HistoryRetention".to_string(),
        "1.0".to_string(),
        7u8,
        "paper",
        StrategyMode::Backtest,
        TimeFrame::new(1, TimeFrameUnit::Day),
    )
}

#[test]
fn test_max_history_rows_respects_warm_up_floor() {
    let mut state = strategy_state();

    assert_eq!(state.max_history_rows(), 2000);

    state.set_warm_up_bars(2500);
    assert_eq!(state.max_history_rows(), 2501);

    state.update_max_history_rows(50);
    assert_eq!(state.max_history_rows(), 2501);

    state.update_max_history_rows(3000);
    assert_eq!(state.max_history_rows(), 3000);
}

#[test]
fn teardown_blocks_new_insights_from_strategy_context() {
    let mut state = strategy_state();
    state.status = StrategyStatus::Running;

    state.begin_teardown();
    state.add_insight(insight(1, None));

    assert_eq!(state.status, StrategyStatus::Stopping);
    assert_eq!(state.insights.len(), 0);
}

#[test]
fn a_running_strategy_takes_insights_and_names_the_children_of_filled_ones() {
    let mut state = strategy_state();
    assert!(state.add_insight(insight(1, None)).is_empty());
    assert_eq!(state.insights.len(), 0);
    state.status = StrategyStatus::Running;
    assert!(state.add_insight(insight(1, None)).is_empty());
    let mut filled = just_filled();
    filled.insight_id = 2;
    filled.children = vec![3, 4];
    assert_eq!(state.add_insight(filled), vec![3, 4]);
    assert_eq!(state.insights.ids(), vec![1, 2]);
    assert_eq!(state.take_changed_insights(), vec![1, 2]);
    assert!(state.take_changed_insights().is_empty());
}

#[test]
fn filters_filled_insights() {
    let mut insights = InsightCollection::new();
    let mut filled = Insight::new(1, None, "TSLA".to_string(), OrderSide::Buy, profile());
    filled.state = InsightState::Filled;
    insights.add_insight(filled.clone());
    insights.add_insight(Insight::new(2, None, "AAPL".to_string(), OrderSide::Sell, profile()));

    let result = filled_insights_from_collection(&insights);
    assert_eq!(result.len(), 1);
    assert_eq!(result[0].symbol, "TSLA");
}

struct EmptyUniverse;

impl UniverseModel<()> for EmptyUniverse {
    fn name(&self) -> String {
        "EmptyUniverse".to_string()
    }

    fn version(&self) -> String {
        "1.0".to_string()
    }

    fn run(&mut self, _context: &mut ()) -> UniverseResult {
        UniverseResult::passed(Vec::new(), self.name())
    }
}

#[test]
fn universe_model_defaults_to_strict_failure() {
    let wrapper = UniverseModelBuilder::new(EmptyUniverse).build();

    assert!(!wrapper.can_fail());
}

#[test]
fn models_count_their_runs() {
    let mut model: WrappedUniverseModel<EmptyUniverse> =
        WrappedUniverseModel::builder(EmptyUniverse).can_fail(true).build();
    assert!(model.can_fail());
    assert!(model.run(&mut ()).is_ok());
    assert_eq!((model.runs_count, model.success_count), (1, 1));
    assert_eq!(model.name::<()>(), "EmptyUniverse");
    assert_eq!(model.version::<()>(), "1.0");
    assert_eq!(model_name("models::equity::Screener"), "Screener");
    assert_eq!(model_name("Screener"), "Screener");
}

#[test]
fn a_strict_model_fails_with_its_message() {
    let failed = UniverseResult::new(
        Vec::new(),
        false,
        Some("no data".to_string()),
        "Screener".to_string(),
    );
    assert!(check_result(&failed, true).is_ok());
    let error = check_result(&failed, false).unwrap_err();
    assert!(error.contains("no data"), "{}", error);
}

#[test]
fn symbols_of_a_universe_are_merged() {
    let merged = universe_symbols(
        &vec!["TSLA".to_string(), "AAPL".to_string()],
        &vec![UniverseResult::passed(
            vec!["MSFT".to_string(), "AAPL".to_string()],
            "Screener".to_string(),
        )],
    );
    let mut sorted = merged.clone();
    sorted.sort();
    sorted.dedup();
    assert_eq!(sorted, vec!["AAPL", "MSFT", "TSLA"]);
    assert_eq!(merged.len(), 3);
}

fn asset() -> Asset {
    Asset {
        id: "1".to_string(),
        symbol: "AAPL".to_string(),
        name: "Apple".to_string(),
        asset_type: AssetType::Stock,
        status: AssetStatus::Active,
        exchange: AssetExchange::NASDAQ,
        tradable: true,
        marginable: true,
        shortable: true,
        fractional: true,
        min_order_size: None,
        quantity_base: Some(3),
        max_order_size: None,
        min_price_increment: None,
        price_base: Some(2),
        contract_size: None,
    }
}

#[test]
fn tools_round_as_the_asset_says() {
    let insights = InsightCollection::new();
    let assets = vec![asset()];
    let tools = StrategyTools::new(&assets, &insights, &());
    assert!(tools.price_rounding("TSLA").is_none());
    assert!(matches!(tools.price_rounding("AAPL"), Some(Rounding::Digits(2))));
    assert!(matches!(tools.quantity_rounding("AAPL"), Some(Rounding::Digits(3))));
    assert!(tools.get_filled_insights().is_empty());
}

#[test]
fn only_tradable_assets_are_taken_in() {
    let mut state = strategy_state();
    let mut closed = asset();
    closed.tradable = false;
    assert!(!state.admit_asset(closed));
    assert!(state.admit_asset(asset()));
    let mut again = asset();
    again.name = "Apple Inc".to_string();
    assert!(state.admit_asset(again));
    assert_eq!(state.universe.len(), 1);
    assert_eq!(state.universe[0].name, "Apple Inc");
}

#[test]
fn the_strategy_can_be_changed_in_place() {
    let mut state = strategy_state();
    *state.strategy_mut() += 1;
    assert_eq!(*state.strategy(), 8);
}

#[test]
fn confidences_over_one_are_percentages() {
    let mut state = strategy_state();
    state.set_base_confidence(number(0.4), number(0.004));
    assert_eq!(state.base_confidence(), number(0.4));
    state.set_base_confidence(number(80.0), number(0.8));
    assert_eq!(state.base_confidence(), number(0.8));
    state.set_base_confidence(number(500.0), number(5.0));
    assert_eq!(state.base_confidence(), number(1.0));
    state.set_base_confidence(number(-3.0), number(-0.03));
    assert_eq!(state.base_confidence(), number(0.0));
}

#[test]
fn events_of_other_symbols_change_nothing() {
    let mut state = trade_update_state();
    let mut open = insight(1, None);
    open.state = InsightState::Executed;
    open.order_id = Some("one".to_string());
    state.insights.add_insight(open.clone());
    let mut order =
        test_order("one", &open, TradeUpdateEvent::Filled, OrderSide::Buy, Some(10.0));
    order.symbol = "TSLA".to_string();
    state.emit(order, TradeUpdateEvent::Filled);
    state.on_trade_update();
    assert_eq!(state.insights.get(1).unwrap().state, InsightState::Executed);
}

#[test]
fn only_a_late_fill_leaves_a_terminal_state() {
    for state in [InsightState::Closed, InsightState::Cancelled, InsightState::Rejected] {
        for event in [
            TradeUpdateEvent::Accepted,
            TradeUpdateEvent::Cancelled,
            TradeUpdateEvent::Closed,
            TradeUpdateEvent::Rejected,
            TradeUpdateEvent::Replaced,
            TradeUpdateEvent::Filled,
        ] {
            let step = trade_step(state, event, true);
            let late =
                state != InsightState::Closed && event == TradeUpdateEvent::Filled;
            assert_eq!(step.is_some(), late);
            if late {
                assert_eq!(step, Some(TradeStep::LateFill));
            }
        }
    }
}

#[test]
fn a_submitted_insight_has_its_order() {
    let mut sent = insight(1, None);
    let mut order =
        test_order("order-1", &sent, TradeUpdateEvent::Accepted, OrderSide::Buy, None);
    order.legs = Some(OrderLegs {
        take_profit: Some(OrderLeg {
            order_id: Some("tp".to_string()),
            limit_price: Some(amount(120.0)),
            filled_price: None,
            trail_price: None,
            status: TradeUpdateEvent::Accepted,
        }),
        stop_loss: None,
        trailing_stop: None,
    });
    submit_insight(&mut sent, &order, NOW);
    assert_eq!(sent.order_id.as_deref(), Some("order-1"));
    assert_eq!(sent.state, InsightState::Executed);
}

#[test]
fn unsent_children_of_finished_parents_are_cancelled() {
    let mut insights = InsightCollection::new();
    let mut parent = insight(1, None);
    parent.state = InsightState::Rejected;
    insights.add_insight(parent);
    insights.add_insight(insight(2, Some(1)));
    insights.add_insight(insight(3, None));
    let mut touched = FxHashSet::default();
    let requests = reconcile_children(&mut insights, &vec![1], &mut touched, NOW);
    assert!(requests.is_empty());
    assert_eq!(insights.get(2).unwrap().state, InsightState::Cancelled);
    assert_eq!(insights.get(3).unwrap().state, InsightState::New);
    assert!(touched.contains(&2) && touched.len() == 1);
}

#[test]
fn terminal_insights_are_pruned() {
    let mut insights = InsightCollection::new();
    let mut over = insight(1, None);
    over.state = InsightState::Closed;
    insights.add_insight(over);
    insights.add_insight(insight(2, None));
    assert_eq!(insights.active_insight_ids(), vec![2]);
    assert_eq!(insights.count_in_state(InsightState::Closed), 1);
    assert_eq!(insights.prune_terminal_insights_without_aqs(), vec![1]);
    assert_eq!(insights.ids(), vec![2]);
    assert!(insights.has_dirty_insights());
    assert_eq!(insights.insight_ids_for_live_sync(true), vec![2]);
    assert!(insights.insight_ids_for_live_sync(false).contains(&2));
}

#[test]
fn a_teardown_deals_with_every_insight() {
    let mut report = TeardownCleanupReport::default();
    let mut fresh = insight(1, None);
    assert!(matches!(teardown_step(&mut fresh, &mut report, NOW), TeardownRequest::Nothing));
    assert_eq!(fresh.state, InsightState::Rejected);
    let mut open = insight(2, None);
    open.state = InsightState::Executed;
    open.order_id = Some("open".to_string());
    assert!(matches!(
        teardown_step(&mut open, &mut report, NOW),
        TeardownRequest::CancelOrder(order) if order == "open"
    ));
    teardown_cancel_reply(&mut open, "open", &CancelReply::Refused, &mut report, NOW);
    assert_eq!(open.state, InsightState::Executed);
    let failed = CancelReply::Failed("offline".to_string());
    teardown_cancel_reply(&mut open, "open", &failed, &mut report, NOW);
    assert_eq!(report.failures.len(), 2);
    assert!(report.failures[1].ends_with("failed to cancel order open: offline"));
    teardown_cancel_reply(&mut open, "open", &CancelReply::Cancelled, &mut report, NOW);
    assert_eq!(open.state, InsightState::Cancelled);
    let mut filled = just_filled();
    assert!(matches!(
        teardown_step(&mut filled, &mut report, NOW),
        TeardownRequest::ClosePosition
    ));
    teardown_close_reply(&filled, true, "1", &mut report);
    assert_eq!(report.failures.len(), 3);
    filled.mark_closing();
    teardown_close_reply(&filled, true, "1", &mut report);
    assert_eq!(report.rejected_new, 1);
    assert_eq!(report.cancelled_executed, 1);
    assert_eq!(report.closed_filled, 1);
    assert!(report.has_failures());
    assert_eq!(report.total_actions(), 3);
}

#[test]
fn a_whole_teardown_counts_every_open_insight() {
    let mut insights = InsightCollection::new();
    insights.add_insight(insight(1, None));
    for (id, order) in [(2, Some("two")), (3, None), (4, Some("four"))] {
        let mut open = insight(id, None);
        open.state = InsightState::Executed;
        open.order_id = order.map(str::to_string);
        insights.add_insight(open);
    }
    for id in [5, 6] {
        let mut filled = just_filled();
        filled.insight_id = id;
        insights.add_insight(filled);
    }
    let mut over = insight(7, None);
    over.state = InsightState::Closed;
    insights.add_insight(over);
    let before = insights.ids();

    let requests = teardown_requests(&insights);
    assert_eq!(requests.len(), 7);
    let close = |taken: bool| TeardownReply::Close { taken, remaining: "1.0000".to_string() };
    let mut replies: Vec<TeardownReply> = Vec::new();
    for (at, request) in requests.iter().enumerate() {
        let id = insights.at(at).insight_id;
        replies.push(match (id, request) {
            (2, TeardownRequest::CancelOrder(order)) => {
                assert_eq!(order, "two");
                TeardownReply::Cancel(CancelReply::Cancelled)
            }
            (4, TeardownRequest::CancelOrder(_)) => TeardownReply::Cancel(CancelReply::Refused),
            (5, TeardownRequest::ClosePosition) => close(true),
            (6, TeardownRequest::ClosePosition) => close(false),
            (1 | 3 | 7, TeardownRequest::Nothing) => TeardownReply::Nothing,
            _ => panic!("not what insight {id} asks for"),
        });
    }
    let report = cleanup_active_insights_for_teardown(&mut insights, &replies, NOW);
    assert_eq!(insights.ids(), before);
    assert_eq!(report.rejected_new, 1);
    assert_eq!(report.cancelled_executed, 1);
    assert_eq!(report.closed_filled, 1);
    assert_eq!(report.total_actions() + report.failures.len(), 6);
    let state = |id: u128| insights.get(id).unwrap().state;
    assert_eq!(state(1), InsightState::Rejected);
    assert_eq!(state(2), InsightState::Cancelled);
    assert_eq!(state(3), InsightState::Executed);
    assert_eq!(state(4), InsightState::Executed);
    assert_eq!(state(7), InsightState::Closed);
    assert!(insights.has_dirty_insights());
}
