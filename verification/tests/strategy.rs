//! A strategy's settings, its events and what it is asked.
use aq_engine::alpha::{generate_insights, AlphaModel};
use aq_engine::cloud::Link;
use aq_engine::events::{EventStreamOptions, EventStreamRequest, EventStreamType};
use aq_engine::insight::{Insight, InsightProfile, InsightState, OrderSide};
use aq_engine::live_loop::{LiveEvent, LiveLoop, LivePhase};
use aq_engine::metrics::{LivePerformanceTracker, OpenMetrics};
use aq_engine::number::Number;
use aq_engine::startup::{reconciled_event, RemoteStartupInsight};
use aq_engine::state::{
    log_filter, logic_due, price_of_quote, rejoin, AlphaResult, BarQuote, LifecycleTiming, Quote,
    StrategyContext, StrategyState,
};
use aq_engine::time::UtcTime;
use aq_engine::timeframe::{TimeFrame, TimeFrameUnit};
use aq_engine::types::{StrategyMode, StrategyStatus};
use aq_engine::universe::{
    run_universe_models, UniverseModel, UniverseResult, WrappedUniverseModel,
};

const NOW: UtcTime = UtcTime { secs: 1_700_000_000, nanos: 0 };

fn number(x: f64) -> Number {
    Number { bits: x.to_bits() }
}

fn minutes(n: u8) -> TimeFrame {
    TimeFrame::new(n, TimeFrameUnit::Minute)
}

fn strategy(mode: StrategyMode) -> StrategyState<u8, &'static str> {
    StrategyState::new("sma".to_string(), "1".to_string(), 7, "paper", mode, minutes(5))
}

fn insight(id: u128) -> Insight {
    let profile = InsightProfile {
        strategy_type: "TESTING".to_string(),
        order_type: "Market".to_string(),
        order_class: "Simple".to_string(),
        contracts: None,
        stop_price: None,
        confidence: 90,
        created_at: NOW,
    };
    Insight::new(id, None, "AAPL".to_string(), OrderSide::Buy, profile)
}

#[test]
fn settings_are_kept() {
    let mut state = strategy(StrategyMode::Live);
    assert_eq!(state.execution_risk, number(0.02));
    assert_eq!(state.min_reward_risk_ratio, number(2.0));
    assert_eq!(state.base_confidence(), number(1.0));
    state.set_execution_risk(number(0.01));
    state.set_min_reward_risk_ratio(number(1.5));
    state.set_timeframe(minutes(15));
    assert_eq!(state.execution_risk, number(0.01));
    assert_eq!(state.min_reward_risk_ratio, number(1.5));
    assert!(state.timeframe() == minutes(15));
    assert_eq!(state.warm_up_bars(), 0);
    state.set_warm_up_bars(20);
    state.set_warm_up_bars(10);
    assert_eq!(state.warm_up_bars(), 20);
}

#[test]
fn confidence_is_taken_as_a_share() {
    let mut state = strategy(StrategyMode::Live);
    let cases = [(0.5, 0.5), (1.0, 1.0), (75.0, 0.75), (0.0, 0.0), (-3.0, 0.0), (400.0, 1.0)];
    for (given, kept) in cases {
        state.set_base_confidence(number(given), number(given / 100.0));
        assert_eq!(state.base_confidence(), number(kept));
    }
}

#[test]
fn requested_streams_come_behind_the_own_one() {
    let mut state = strategy(StrategyMode::Live);
    state.add_events(EventStreamType::Bar, Some(minutes(15)));
    state.add_events_with_options(EventStreamRequest {
        event_type: EventStreamType::Bar,
        timeframe: Some(minutes(30)),
        options: EventStreamOptions { allow_trading: true },
    });
    let streams = state.streams_for_symbol("AAPL");
    let shown: Vec<(String, bool, bool)> = streams
        .iter()
        .map(|s| (s.history_key.clone(), s.is_feature, s.allow_trading))
        .collect();
    assert_eq!(
        shown,
        vec![
            ("AAPL".to_string(), false, true),
            ("AAPL:15m".to_string(), true, false),
            ("AAPL:30m".to_string(), true, true),
        ]
    );
    assert_eq!(state.preseed_streams("AAPL", 10).len(), 3);
    assert!(state.preseed_streams("AAPL", 0).is_empty());
    assert!(state.preseed_streams("AAPL", -1).is_empty());
}

#[test]
fn events_are_entered_and_left() {
    let mut state = strategy(StrategyMode::Live);
    let stream = &state.streams_for_symbol("AAPL")[0];
    let outer = stream.context_at(NOW);
    let inner = stream.context_at(UtcTime { secs: NOW.secs + 60, nanos: 0 });
    assert!(state.current_event_context().is_none());
    state.enter_event(outer);
    state.enter_event(inner);
    assert_eq!(state.current_event_context().unwrap().timestamp.secs, NOW.secs + 60);
    state.leave_event();
    assert_eq!(state.current_event_context().unwrap().timestamp.secs, NOW.secs);
    state.leave_event();
    state.leave_event();
    assert!(state.current_event_context().is_none());
}

#[test]
fn a_backtest_quotes_its_bars() {
    let bar = BarQuote { close: number(12.5), volume: number(300.0), timestamp: NOW };
    let quote = strategy(StrategyMode::Backtest).replayed_quote("AAPL", Some(bar)).unwrap();
    assert_eq!((quote.bid, quote.ask, quote.last), (bar.close, bar.close, Some(bar.close)));
    assert_eq!(quote.symbol, "AAPL");
    assert!(strategy(StrategyMode::Backtest).replayed_quote("AAPL", None).is_none());
    assert!(strategy(StrategyMode::Live).replayed_quote("AAPL", Some(bar)).is_none());
}

#[test]
fn a_backtest_has_its_own_time() {
    let broker_time = UtcTime { secs: 9, nanos: 0 };
    let mut state = strategy(StrategyMode::Backtest);
    assert_eq!(state.current_time(None, broker_time).secs, 9);
    state.history_seed_anchor = Some(NOW);
    assert_eq!(state.current_time(None, broker_time).secs, NOW.secs);
    let replayed = Some(UtcTime { secs: 5, nanos: 0 });
    assert_eq!(state.current_time(replayed, broker_time).secs, 5);
    assert_eq!(strategy(StrategyMode::Live).current_time(replayed, broker_time).secs, 9);
}

#[test]
fn the_last_trade_gives_the_price() {
    let mut quote = Quote {
        symbol: "AAPL".to_string(),
        bid: number(10.0),
        ask: number(12.0),
        bid_size: number(1.0),
        ask_size: number(1.0),
        last: Some(number(11.5)),
        last_size: None,
        timestamp: NOW,
    };
    assert_eq!(price_of_quote(&quote, number(11.0)), Some(number(11.5)));
    quote.last = None;
    assert_eq!(price_of_quote(&quote, number(11.0)), Some(number(11.0)));
    assert_eq!(price_of_quote(&quote, number(f64::NAN)), None);
    assert_eq!(price_of_quote(&quote, number(f64::INFINITY)), None);
}

#[test]
fn only_a_model_that_succeeded_is_heard() {
    let result = |success: bool| AlphaResult { success, message: None, insight: Some(insight(3)) };
    assert_eq!(result(true).accepted().unwrap().insight_id, 3);
    assert!(result(false).accepted().is_none());
}

#[test]
fn logic_runs_at_its_time_and_is_kept() {
    let before = LifecycleTiming::BeforeGenerated;
    let after = LifecycleTiming::AfterGenerated;
    let timings = vec![after, before, after];
    assert_eq!(logic_due(&timings, after), vec![0, 2]);
    assert_eq!(logic_due(&timings, before), vec![1]);
    assert_eq!(rejoin(vec!["a", "b"], vec!["c"]), vec!["a", "b", "c"]);
}

#[test]
fn log_levels_are_read_loosely() {
    assert_eq!(log_filter("  DEBUG "), "debug,tracing::span=warn,turso=warn,libsql=warn");
    assert_eq!(log_filter(" "), "info,tracing::span=warn,turso=warn,libsql=warn");
}

#[test]
fn statuses_are_told_apart() {
    assert!(StrategyStatus::Initialised.is_initialised());
    assert!(StrategyStatus::Running.is_running() && !StrategyStatus::Stopping.is_running());
    assert!(StrategyStatus::Paused.is_paused());
    assert!(StrategyStatus::Completed.is_finished() && StrategyStatus::Stopped.is_finished());
    assert!(!StrategyStatus::Stopping.is_finished());
}

#[test]
fn insights_are_refused_during_teardown() {
    let mut state = strategy(StrategyMode::Live);
    let _ = state.add_insight(insight(9));
    state.status = StrategyStatus::Running;
    let _ = state.add_insight(insight(1));
    state.begin_teardown();
    let _ = state.add_insight(insight(2));
    let _ = state.add_insight_internal(insight(3), true);
    assert_eq!(state.insights.ids(), vec![1, 3]);
    assert!(state.insights.get(1).is_some() && state.insights.get(2).is_none());
    assert_eq!(state.insights.remove_insight(1).unwrap().state, InsightState::New);
    assert_eq!(state.insights.ids(), vec![3]);
}

#[test]
fn a_tracker_takes_over_what_is_open() {
    let mut tracker = LivePerformanceTracker::new();
    let (cash, fall) = (number(100.0), number(0.0));
    assert!(tracker.update_equity(cash, fall, NOW));
    assert!(!tracker.update_equity(cash, fall, UtcTime { secs: NOW.secs + 5, nanos: 0 }));
    assert_eq!(tracker.executed_at.unwrap().secs, NOW.secs);
    assert_eq!(tracker.updated_at.unwrap().secs, NOW.secs + 5);
    let open = OpenMetrics {
        positions: 2,
        insights: 3,
        profitable: 1,
        losing: 1,
        symbols: vec!["AAPL".to_string()],
    };
    tracker.update_open_position_metrics(open, NOW);
    assert_eq!(tracker.open_positions_count, 2);
    assert_eq!(tracker.open_insights_count, 3);
    assert_eq!(tracker.open_positions_profitable_count, 1);
    assert_eq!(tracker.symbols, vec!["AAPL".to_string()]);
}

#[test]
fn a_reconcile_writes_everything() {
    let link = Link { connected: true, actions: false };
    let mut run = LiveLoop::begin("s".to_string(), true, link);
    let waiting = || LiveEvent::Waiting {
        ops: true,
        dirty: false,
        metrics: false,
        account_due: false,
    };
    run.step(LiveEvent::SyncTick);
    run.step(waiting());
    run.step(LiveEvent::Written);
    assert_eq!(run.sync_scope(), (false, Some(128)));
    run.step(LiveEvent::Synced { metrics: false });
    assert!(run.phase == LivePhase::Idle);
    run.step(LiveEvent::ReconcileTick);
    run.step(waiting());
    run.step(LiveEvent::Written);
    assert_eq!(run.sync_scope(), (true, None));
    run.step(LiveEvent::Synced { metrics: false });
    assert!(!run.full);
}

#[test]
fn a_reconciled_insight_is_told_of() {
    let remote = RemoteStartupInsight {
        insight_id: "i".to_string(),
        symbol: "AAPL".to_string(),
        previous_state: "Filled".to_string(),
        side: "Buy".to_string(),
        order_id: None,
        live_session_id: None,
    };
    let event = reconciled_event(&remote, NOW);
    assert_eq!(event.event_type, "insight_reconcile");
    assert_eq!(event.level, "warn");
    assert_eq!(event.title, "Stale insight cancelled");
    assert_eq!(
        event.message,
        "AQS reconciliation marked stale active insight as Cancelled; AQE no longer has active insight i"
    );
    assert!(event.payload.is_some());
}

/// What was done, in order.
struct Log {
    done: Vec<String>,
}

impl StrategyContext for Log {
    fn add_insight(&mut self, insight: Insight) {
        self.done.push(format!("take {}", insight.insight_id));
    }
}

struct Alpha {
    id: u128,
    symbol: &'static str,
    success: bool,
}

impl AlphaModel<Log> for Alpha {
    fn is_allowed_asset(&self, symbol: &str) -> bool {
        self.symbol == symbol
    }

    fn generate_insights(&mut self, log: &mut Log, symbol: &str) -> AlphaResult {
        log.done.push(format!("ask {} {}", self.id, symbol));
        AlphaResult { success: self.success, message: None, insight: Some(insight(self.id)) }
    }
}

#[test]
fn models_are_asked_one_after_the_other() {
    let mut alphas = vec![
        Alpha { id: 1, symbol: "AAPL", success: true },
        Alpha { id: 2, symbol: "TSLA", success: true },
        Alpha { id: 3, symbol: "AAPL", success: false },
        Alpha { id: 4, symbol: "AAPL", success: true },
    ];
    let mut log = Log { done: Vec::new() };
    generate_insights(&mut alphas, &mut log, "AAPL");
    assert_eq!(log.done, vec!["ask 1 AAPL", "take 1", "ask 3 AAPL", "ask 4 AAPL", "take 4"]);
}

struct Universe {
    name: &'static str,
    success: bool,
}

impl UniverseModel<Log> for Universe {
    fn name(&self) -> String {
        self.name.to_string()
    }

    fn version(&self) -> String {
        "1".to_string()
    }

    fn run(&mut self, log: &mut Log) -> UniverseResult {
        log.done.push(self.name.to_string());
        UniverseResult::new(vec![self.name.to_string()], self.success, None, self.name.to_string())
    }
}

fn universe(name: &'static str, success: bool, can_fail: bool) -> WrappedUniverseModel<Universe> {
    WrappedUniverseModel::builder(Universe { name, success }).can_fail(can_fail).build()
}

#[test]
fn universe_models_run_in_order_until_one_fails() {
    let mut log = Log { done: Vec::new() };
    let mut models = vec![universe("a", true, false), universe("b", false, true)];
    let results = run_universe_models(&mut models, &mut log).unwrap();
    let names: Vec<String> = results.iter().map(|r| r.model_name.clone()).collect();
    assert_eq!(names, vec!["a", "b"]);
    assert_eq!((models[0].runs_count, models[0].success_count), (1, 1));
    assert_eq!((models[1].runs_count, models[1].success_count), (1, 0));

    let mut models = vec![universe("c", false, false), universe("d", true, false)];
    let failure = run_universe_models(&mut models, &mut log).err().unwrap();
    assert_eq!(
        failure,
        "Universe model c failed: universe model returned an unsuccessful result"
    );
    assert_eq!(log.done, vec!["a", "b", "c"]);
    assert_eq!(models[1].runs_count, 0);
}
