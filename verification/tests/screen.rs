//! What the terminal shows of a run.
use aq_engine::detail::{insight_detail_lines, levels_value, time_value, ShownNumbers};
use aq_engine::json::{Json, JsonNumber};
use aq_engine::snapshot::{
    runtime_active_insights, runtime_insight_counts, runtime_variable_snapshot, RuntimeSnapshot,
    RuntimeEventSnapshot, RuntimeMetricsSnapshot, RuntimeUpdate,
};
use aq_engine::collection::InsightCollection;
use aq_engine::insight::{Insight, InsightProfile, InsightState, OrderSide};
use aq_engine::number::Number;
use aq_engine::telemetry::{LogQueue, RuntimeTelemetry, TuiLogWriter, GLOBAL_LOG_CAPACITY};
use aq_engine::text::trim;
use aq_engine::time::UtcTime;
use aq_engine::tui::{
    action_message, event_line, events_title, handle_key, header_title, insight_line,
    is_terminal_status, key_action, may_start_tui, metrics_lines, normalise_ui_state, option_value,
    pane_title, progress_label, settle_events_scroll, short_id, toggle_watch_path, variable_line,
    visible_events, watch_items, TuiAction, TuiConfig, TuiFocusPane, TuiKey, TuiUiState,
};
use aq_engine::types::{StrategyMode, StrategyStatus};
use aq_engine::variables::{
    find_variable_by_key_path, format_variable_path, summarise_value, variable_key_path,
    variable_scope, VARIABLE_CHILD_LIMIT, VARIABLE_VALUE_LIMIT,
};

const NOW: UtcTime = UtcTime { secs: 1_700_000_000, nanos: 0 };

fn whole(n: u64) -> Json {
    Json::Number(JsonNumber::Unsigned(n))
}

fn text(s: &str) -> Json {
    Json::Text(s.to_string())
}

fn args(items: &[&str]) -> Vec<String> {
    items.iter().map(|s| s.to_string()).collect()
}

fn nested() -> Json {
    Json::Object(vec![(
        "alpha".to_string(),
        Json::Object(vec![
            ("scores".to_string(), Json::Array(vec![whole(1), whole(2), whole(3)])),
            ("state".to_string(), text("ready")),
        ]),
    )])
}

#[test]
fn no_tui_arg_disables_tui() {
    let config = TuiConfig::from_args(&args(&["strategy", "--no-tui", "--tui"]), true, true);
    assert!(!config.enabled);
    assert!(config.forced);
}

#[test]
fn runtime_telemetry_tracks_dropped_events() {
    let mut telemetry = RuntimeTelemetry::new(NOW);
    telemetry.event_capacity = 2;
    telemetry.push_event(Vec::new(), "info".to_string(), "one".to_string(), NOW);
    telemetry.push_event(Vec::new(), "info".to_string(), "two".to_string(), NOW);
    telemetry.push_event(Vec::new(), "info".to_string(), "three".to_string(), NOW);
    telemetry.update_snapshot(Vec::new(), None, NOW);
    let snapshot = &telemetry.snapshot;
    assert_eq!(snapshot.events.len(), 2);
    assert_eq!(snapshot.dropped_events, 1);
    assert_eq!(snapshot.events[0].message, "two");
}

#[test]
fn summarises_large_values() {
    let summary = summarise_value(&text(&"x".repeat(VARIABLE_VALUE_LIMIT + 10)));
    assert!(summary.truncated);
    assert!(summary.value.ends_with("..."));
}

#[test]
fn summarises_nested_variables_for_browsing() {
    let summary = summarise_value(&nested());

    assert_eq!(summary.value, "{1 fields}");
    assert_eq!(summary.children[0].key, "alpha");
    assert_eq!(summary.children[0].value, "{2 fields}");
    assert_eq!(summary.children[0].children[0].key, "scores");
    assert_eq!(summary.children[0].children[0].value, "[3 items]");
}

#[test]
fn terminal_status_allows_tui_close() {
    assert!(is_terminal_status("Stopped"));
    assert!(is_terminal_status("Completed"));
    assert!(!is_terminal_status("Running"));
    assert!(!is_terminal_status("Stopping"));
    assert!(!is_terminal_status("Initialised"));
}

#[test]
fn watch_paths_resolve_nested_variables_by_key() {
    let summary = summarise_value(&nested());
    let variables = summary.children;
    let path = vec!["alpha".to_string(), "scores".to_string(), "[1]".to_string()];

    let watched = find_variable_by_key_path(&variables, &path).unwrap();
    assert_eq!(format_variable_path(&path), "alpha.scores[1]");
    assert_eq!(watched.value, "2");
}

#[test]
fn a_terminal_is_used_only_where_there_is_one() {
    assert!(TuiConfig::from_args(&args(&["run"]), true, true).enabled);
    assert!(!TuiConfig::from_args(&args(&["run"]), false, true).enabled);
    assert!(!TuiConfig::from_args(&args(&["run", "--tui"]), true, false).enabled);
    let config = TuiConfig::disabled();
    assert!(!config.enabled);
    assert_eq!(config.render_interval_ms, 250);
    assert!(!may_start_tui(&config, false));
    assert!(!may_start_tui(&TuiConfig::from_args(&args(&["run"]), true, true), true));
}

#[test]
fn panes_form_a_ring_of_five() {
    let mut pane = TuiFocusPane::Metrics;
    for _ in 0..5 {
        assert_eq!(pane.next().previous(), pane);
        pane = pane.next();
    }
    assert_eq!(pane, TuiFocusPane::Metrics);
}

#[test]
fn quitting_a_run_takes_two_steps() {
    assert_eq!(key_action(TuiKey::Quit, "Running", false), TuiAction::RequestStop);
    assert_eq!(key_action(TuiKey::Quit, "Stopping", true), TuiAction::StopAlreadyRequested);
    assert_eq!(key_action(TuiKey::Quit, "Stopped", true), TuiAction::Close);
    assert_eq!(key_action(TuiKey::Up, "Stopped", true), TuiAction::Nothing);
    assert!(action_message(TuiAction::RequestStop).unwrap().starts_with("Stop requested from TUI"));
    assert!(action_message(TuiAction::Close).is_none());
}

fn scene() -> RuntimeSnapshot {
    let mut snapshot = RuntimeSnapshot::initial(NOW);
    snapshot.variables = summarise_value(&nested()).children;
    snapshot
}

#[test]
fn variables_are_browsed_and_watched() {
    let snapshot = scene();
    let mut ui = TuiUiState::default();
    handle_key(&mut ui, &snapshot, 0, TuiKey::Variables);
    handle_key(&mut ui, &snapshot, 0, TuiKey::Enter);
    assert_eq!(ui.variable_path, vec![0]);
    handle_key(&mut ui, &snapshot, 0, TuiKey::Down);
    handle_key(&mut ui, &snapshot, 0, TuiKey::Watch);
    assert_eq!(ui.watch_paths, vec![args(&["alpha", "state"])]);
    let lines = watch_items(&snapshot.variables, &ui.watch_paths);
    assert_eq!(lines, vec!["alpha.state: ready"]);
    handle_key(&mut ui, &snapshot, 0, TuiKey::Watch);
    assert!(ui.watch_paths.is_empty());
    handle_key(&mut ui, &snapshot, 0, TuiKey::Backspace);
    assert!(ui.variable_path.is_empty());
    let (scope, title) = variable_scope(&snapshot.variables, &vec![0]);
    assert_eq!(scope.len(), 2);
    assert!(title.contains("alpha"), "{}", title);
    assert_eq!(variable_key_path(&snapshot.variables, &vec![0], 1), Some(args(&["alpha", "state"])));
    assert_eq!(variable_key_path(&snapshot.variables, &vec![], 9), None);
}

#[test]
fn views_are_brought_back_to_what_there_is() {
    let snapshot = scene();
    let mut ui = TuiUiState::default();
    ui.variable_path = vec![0, 7];
    ui.insight_index = 3;
    ui.events_scroll = 9;
    normalise_ui_state(&mut ui, &snapshot);
    assert_eq!(ui.variable_path, vec![0]);
    assert_eq!(ui.insight_index, 0);
    assert_eq!(ui.events_scroll, 0);
}

#[test]
fn toggling_a_path_twice_takes_it_out() {
    let mut watches = vec![args(&["a"]), args(&["b"])];
    toggle_watch_path(&mut watches, args(&["c"]));
    toggle_watch_path(&mut watches, args(&["a"]));
    assert_eq!(watches, vec![args(&["b"]), args(&["c"])]);
    toggle_watch_path(&mut watches, args(&["c"]));
    assert_eq!(watches, vec![args(&["b"])]);
}

#[test]
fn a_new_path_puts_the_whole_list_in_order() {
    let mut watches = vec![args(&["b"]), args(&["a"])];
    toggle_watch_path(&mut watches, args(&["c"]));
    assert_eq!(watches, vec![args(&["a"]), args(&["b"]), args(&["c"])]);
}

#[test]
fn nothing_is_known_at_first() {
    let shown = RuntimeTelemetry::new(NOW).snapshot;
    assert_eq!(shown.strategy_name, "");
    assert_eq!(shown.aqs_sync_status, "not configured");
    assert_eq!(shown.broker_status, "unknown");
    assert_eq!(shown.dropped_events, 0);
    assert!(shown.events.is_empty() && shown.universe.is_empty());
    assert_eq!(shown.updated_at, NOW);
}

#[test]
fn texts_of_the_view() {
    assert_eq!(short_id("0123456789"), "01234567");
    assert_eq!(short_id("é"), "é");
    assert_eq!(option_value(&None), "-");
    assert_eq!(option_value(&Some("x".to_string())), "x");
    assert_eq!(events_title(3), "Events (dropped=3)");
    let focused = pane_title("Insights", TuiFocusPane::Insights, TuiFocusPane::Insights);
    let other = pane_title("Insights", TuiFocusPane::Insights, TuiFocusPane::Metrics);
    assert_ne!(focused, other);
    let mut snapshot = scene();
    snapshot.strategy_name = "sma".to_string();
    snapshot.mode = StrategyMode::Backtest;
    snapshot.status = "Running".to_string();
    assert_eq!(header_title(&snapshot), "AQE Backtest - sma [Running]");
    assert_eq!(progress_label(&snapshot, "12.5"), "live run");
    assert_eq!(variable_line(&snapshot.variables[0]), "> alpha: {2 fields}");
    assert_eq!(visible_events(7, 1), vec![5, 4, 3, 2, 1]);
    assert_eq!(visible_events(2, 1), vec![0]);
    assert!(visible_events(2, 5).is_empty());
}

#[test]
fn long_lists_are_cut_off() {
    let items = Json::Array((0..100).map(whole).collect());
    let summary = summarise_value(&items);
    assert_eq!(summary.value, "[100 items]");
    assert_eq!(summary.children.len(), VARIABLE_CHILD_LIMIT + 1);
    assert_eq!(summary.children[VARIABLE_CHILD_LIMIT].value, "36 more entries");
    assert!(summary.truncated);
    let shown = runtime_variable_snapshot(&vec![("k".to_string(), whole(3))]);
    assert_eq!((shown[0].key.as_str(), shown[0].value.as_str()), ("k", "3"));
}

#[test]
fn log_queues_lose_their_oldest_line() {
    let mut queue = LogQueue::new();
    queue.push_global_log_line("   \n", NOW);
    assert!(queue.events.is_empty());
    for i in 0..GLOBAL_LOG_CAPACITY + 1 {
        queue.push_global_log_line(&format!("line {}\r\n", i), NOW);
    }
    let events = queue.drain();
    assert_eq!(events.len(), GLOBAL_LOG_CAPACITY);
    assert_eq!(events[0].message, "line 1");
    assert_eq!(events[0].level, "log");
    assert!(queue.events.is_empty());
}

#[test]
fn log_writers_make_lines() {
    let mut writer = TuiLogWriter::new();
    assert!(writer.write(b"one tw").iter().all(|line| line.is_empty()) || writer.line_buffer.len() == 6);
    let lines = writer.write(b"o\nthree");
    assert_eq!(lines, vec!["one two"]);
    assert_eq!(writer.flush_line(), Some("three".to_string()));
    assert_eq!(writer.flush_line(), None);
    assert_eq!(writer.write(&[0xff, b'\n']), vec!["\u{fffd}"]);
}

fn insight(id: u128, state: InsightState) -> Insight {
    let profile = InsightProfile {
        strategy_type: "TESTING".to_string(),
        order_type: "Market".to_string(),
        order_class: "Simple".to_string(),
        contracts: None,
        stop_price: None,
        confidence: 90,
        created_at: NOW,
    };
    let mut made = Insight::new(id, None, "AAPL".to_string(), OrderSide::Buy, profile);
    made.state = state;
    made
}

#[test]
fn insights_are_shown() {
    let mut insights = InsightCollection::new();
    insights.add_insight(insight(1, InsightState::New));
    insights.add_insight(insight(2, InsightState::Closed));
    let counts = runtime_insight_counts(&insights);
    assert_eq!(counts.iter().map(|(_, n)| n).sum::<usize>(), 2);
    let active = runtime_active_insights(&insights);
    assert_eq!(active.len(), 1);
    assert_eq!(active[0].insight_id, "00000000-0000-0000-0000-000000000001");
    assert_eq!(insight_line(&active[0]), format!("AAPL {} {} 00000000", active[0].side, active[0].state));

    let numbers = ShownNumbers {
        quantity: Some("2".to_string()),
        contracts: None,
        limit_price: None,
        stop_price: None,
        take_profit_levels: vec!["1.5".to_string(), "2".to_string()],
        stop_loss_levels: Vec::new(),
        filled_price: None,
        close_price: None,
    };
    let lines = insight_detail_lines(Some(&active[0]), &numbers);
    assert!(lines.iter().any(|line| line.value.contains("2023-11-14 22:13:20")));
    let hint = insight_detail_lines(None, &numbers);
    assert_eq!(hint.len(), 1);
    assert_eq!(hint[0].value, "Select an active insight to inspect it.");
    assert_eq!(levels_value(&Vec::new()), "-");
    assert_eq!(time_value(None), "-");
    assert_eq!(time_value(Some(NOW)), "2023-11-14 22:13:20");
}

#[test]
fn reports_are_taken_over() {
    let mut telemetry = RuntimeTelemetry::new(NOW);
    telemetry.update_snapshot(
        Vec::new(),
        Some(RuntimeUpdate {
            mode: StrategyMode::Live,
            strategy_name: "test".to_string(),
            strategy_id: 1,
            status: StrategyStatus::Running,
            current_time: NOW,
            universe: args(&["AAPL"]),
            variables: Vec::new(),
            insight_counts: Vec::new(),
            active_insights: Vec::new(),
            metrics: None,
            backtest_progress: None,
            aqs_sync_status: "local".to_string(),
            broker_connected: true,
            datafeed_connected: false,
            saved_result_path: None,
        }),
        NOW,
    );
    let snapshot = &telemetry.snapshot;
    assert_eq!(snapshot.strategy_name, "test");
    assert_eq!(snapshot.status, "Running");
    assert_eq!(snapshot.universe, args(&["AAPL"]));
    assert_ne!(snapshot.broker_status, snapshot.datafeed_status);
}

#[test]
fn numbers_are_ordered_by_value() {
    let number = |x: f64| Number { bits: x.to_bits() };
    assert!(number(-1.0).less_than(number(0.5)));
    assert!(number(0.0).equals(number(-0.0)));
    assert!(!number(f64::NAN).equals(number(f64::NAN)));
}

#[test]
fn metrics_are_shown_with_or_without_a_summary() {
    assert_eq!(metrics_lines(&None, "", ""), vec!["No metrics yet"]);
    let number = |x: f64| Number { bits: x.to_bits() };
    let mut metrics = RuntimeMetricsSnapshot {
        final_equity: number(110.0),
        total_return_pct: number(10.0),
        total_trades: 3,
        open_positions_count: 1,
        open_insights_count: 2,
        updated_at: None,
        summary_lines: Vec::new(),
    };
    let lines = metrics_lines(&Some(metrics.clone()), "110.00", "10.00");
    assert_eq!(
        lines,
        vec!["Equity: 110.00", "Return: 10.00%", "Trades: 3", "Open positions: 1", "Open insights: 2"]
    );
    metrics.summary_lines = args(&["done"]);
    assert_eq!(metrics_lines(&Some(metrics), "", ""), vec!["done"]);
}

#[test]
fn logged_lines_are_shown_by_their_text_alone() {
    let event = |level: &str| RuntimeEventSnapshot {
        created_at: NOW,
        level: level.to_string(),
        message: "text".to_string(),
    };
    let logged = event_line(&event("log"));
    assert!(logged.time.is_none() && logged.level.is_none());
    let warned = event_line(&event("warn"));
    assert_eq!(warned.time.as_deref(), Some("22:13:20 "));
    assert_eq!(warned.level.as_deref(), Some("[warn] "));
    assert_eq!(warned.message, "text");
}

#[test]
fn keys_keep_to_what_there_is() {
    let snapshot = scene();
    let mut ui = TuiUiState::default();
    ui.events_scroll = 4;
    settle_events_scroll(&mut ui, 6, 1);
    assert_eq!(ui.events_scroll, 2);
    for key in [TuiKey::Events, TuiKey::End, TuiKey::Down, TuiKey::PageDown] {
        handle_key(&mut ui, &snapshot, 7, key);
    }
    assert_eq!(ui.events_scroll, 2);
    for key in [TuiKey::Insights, TuiKey::Down, TuiKey::Down] {
        handle_key(&mut ui, &snapshot, 0, key);
    }
    assert_eq!(ui.insight_index, 0);
}

#[test]
fn white_space_is_trimmed() {
    for code in 0..=0x10ffffu32 {
        if let Some(c) = char::from_u32(code) {
            let text = format!("{c}x{c}");
            assert_eq!(trim(&text), text.trim(), "U+{code:04X}");
        }
    }
    assert_eq!(trim(" \t\u{3000} "), "");
    assert_eq!(trim("a b"), "a b");
}

#[test]
fn a_leap_second_is_the_sixtieth() {
    let mut event = RuntimeEventSnapshot {
        level: "info".to_string(),
        message: "m".to_string(),
        created_at: UtcTime { secs: 59, nanos: 1_500_000_000 },
    };
    assert_eq!(event_line(&event).time.unwrap(), "00:00:60 ");
    event.created_at = UtcTime { secs: NOW.secs, nanos: 0 };
    assert_eq!(event_line(&event).time.unwrap(), "22:13:20 ");
}
