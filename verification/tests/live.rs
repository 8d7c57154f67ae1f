//! Live runs and their records in the cloud.
use std::collections::VecDeque;

use aq_engine::aqs_types::{action_id_from_value, live_session_key, AqsAuth};
use aq_engine::asset::{Asset, AssetExchange, AssetStatus, AssetType};
use aq_engine::cloud::{
    is_transient_surreal_error, reconnected, ConnectStep, Flushed, Link, PendingAqsSyncOp,
    PendingOps, Reconnect, Reply, UpsertStep, MAX_PENDING_AQS_SYNC_OPS,
};
use aq_engine::collection::InsightCollection;
use aq_engine::insight::{Insight, InsightProfile, InsightState, OrderSide, TradeUpdateEvent};
use aq_engine::json::{Json, JsonNumber};
use aq_engine::lifecycle::PrepareStep;
use aq_engine::live_loop::{
    final_report, shutdown_steps, stop_request, tick_calls, unavailable_notice, LiveEvent, LiveLoop,
    LivePhase,
    LiveSetup, SetupReply, SetupStep, ShutdownStep, SyncStatus, TickCall, LOCAL_RUN_MESSAGE,
    LOCAL_RUN_STATUS,
};
use aq_engine::live_sync::{
    insights_state_counts_json, mark_transitions, offset_of, plan_sync, prune_synced, settle_event,
    settle_insight, unsynced_transitions, LiveSync, SyncPlan, SyncReply, SyncStep,
};
use aq_engine::local_run::{
    enqueue_pending_local_live_event, local_run_id, local_run_started, metrics_to_write,
    new_local_run_id, note_trade_event, trade_notice,
};
use aq_engine::metrics::{
    closed_trade, entry_price_of, open_metrics, open_positions, trade_hold_secs, LiveFigures,
    LivePerformanceTracker, RawFigures, StrategyLiveMetricsRecord,
};
use aq_engine::number::Number;
use aq_engine::records::{
    account_changed, account_event, account_records, action_status_query, file_event,
    live_insight_record_id, live_metrics_record_id, live_session_key_for_auth, next_account_write,
    Account, AccountWrite, LatestPersistedAccountState, ShownFigure, StrategyEventRecord,
};
use aq_engine::start::{
    connected_event, initial_universe, settle_account, settle_metrics, settle_started,
    started_event, starting_funds, stop_requested_event, stopped_event, universe_error,
};
use aq_engine::startup::{
    cleaned_up_event, plan_cleanup, read_remote, settle_action, stale_remotes, BrokerOrder,
    BrokerPosition, BrokerReply, RemotePhase, RemoteRun, StartupBrokerActionKind,
};
use aq_engine::table::Table;
use aq_engine::time::UtcTime;
use aq_engine::trade::Order;
use aq_engine::types::StrategyStatus;
use uuid::Uuid;

const NOW: UtcTime = UtcTime { secs: 1_700_000_000, nanos: 0 };

fn number(x: f64) -> Number {
    Number { bits: x.to_bits() }
}

fn text(s: &str) -> Json {
    Json::Text(s.to_string())
}

fn object(members: Vec<(&str, Json)>) -> Json {
    Json::Object(members.into_iter().map(|(k, v)| (k.to_string(), v)).collect())
}

fn auth() -> AqsAuth {
    AqsAuth {
        access_method: "node".to_string(),
        session_id: "session".to_string(),
        session_secret: "secret".to_string(),
        strategy_id: "strategy".to_string(),
        user_id: "user".to_string(),
        node_id: None,
        live_session_id: Some("live_sessions:abc".to_string()),
        url: None,
    }
}

fn account(equity: f64) -> Account {
    Account {
        account_id: "1".to_string(),
        account_type: "Paper".to_string(),
        equity: number(equity),
        cash: number(50.0),
        currency: "USD".to_string(),
        buying_power: number(100.0),
        shorting_enabled: true,
        leverage: 1,
    }
}

fn insight(id: u128, state: InsightState) -> Insight {
    let profile = InsightProfile {
        strategy_type: "TESTING".to_string(),
        order_type: "Market".to_string(),
        order_class: "Simple".to_string(),
        contracts: None,
        stop_price: None,
        confidence: 90,
        created_at: NOW,
    };
    let mut made = Insight::new(id, None, "AAPL".to_string(), OrderSide::Buy, profile);
    made.state = state;
    made.quantity = Some(number(2.0));
    made
}

fn event(title: &str) -> StrategyEventRecord {
    StrategyEventRecord::new("test", "info", title, "message", None, NOW)
}

#[test]
fn connection_errors_are_transient() {
    assert!(is_transient_surreal_error("Connection RESET by peer"));
    assert!(is_transient_surreal_error("HTTP 503"));
    assert!(is_transient_surreal_error("Request timed out"));
    assert!(!is_transient_surreal_error("permission denied"));
    assert!(!is_transient_surreal_error(""));
}

#[test]
fn a_cloud_that_answers_is_connected_to() {
    let mut step = ConnectStep::start();
    for _ in 0..5 {
        step = step.next(Reply::Done);
    }
    assert!(matches!(step, ConnectStep::Connected));
}

#[test]
fn connecting_is_given_up_after_three_attempts() {
    let mut step = ConnectStep::start();
    step = step.next(Reply::TimedOut);
    assert!(matches!(step, ConnectStep::Wait { attempt: 1, millis: 500 }));
    step = step.next(Reply::Done).next(Reply::Refused("no".to_string()));
    assert!(matches!(step, ConnectStep::Wait { attempt: 2, millis: 1000 }));
    step = step.next(Reply::Done).next(Reply::Done).next(Reply::Refused("bad key".to_string()));
    match step {
        ConnectStep::Failed { message } => {
            assert_eq!(message, "Failed to authenticate AQS Cloud live sync: bad key")
        }
        _ => panic!("three attempts were made"),
    }
}

#[test]
fn insights_are_written_three_times_at_most() {
    let step = UpsertStep::start().next(Reply::Refused("websocket error".to_string()));
    assert!(matches!(step, UpsertStep::Wait { attempt: 1, millis: 150 }));
    let step = step.next(Reply::Done).next(Reply::Refused("denied".to_string()));
    assert!(matches!(step, UpsertStep::Refused { .. }));
    assert!(matches!(UpsertStep::start().next(Reply::Done), UpsertStep::Written));
}

#[test]
fn a_link_is_up_again_or_the_error_is_told() {
    let (link, result) = reconnected(Reconnect::Connected { actions: true }, "s");
    assert!(link.connected && link.actions && result.is_ok());
    let (link, result) = reconnected(Reconnect::Refused { error: "no".to_string() }, "s");
    assert!(!link.connected && !link.actions);
    assert!(result.unwrap_err().contains("no"));
    let (link, result) = reconnected(Reconnect::TimedOut, "s");
    assert!(!link.connected && result.is_err());
}

#[test]
fn a_full_queue_drops_its_oldest_operation() {
    let mut pending = PendingOps::new();
    for i in 0..MAX_PENDING_AQS_SYNC_OPS + 2 {
        pending.enqueue_pending_aqs_sync_op(PendingAqsSyncOp::StrategyEvent(event(&format!("{}", i))));
    }
    assert_eq!(pending.ops.len(), MAX_PENDING_AQS_SYNC_OPS);
    assert_eq!(pending.dropped, 2);
    match pending.next_op() {
        Some(PendingAqsSyncOp::StrategyEvent(event)) => assert_eq!(event.title, "2"),
        _ => panic!("the oldest operation is an event"),
    }
}

#[test]
fn a_transient_error_keeps_the_operation() {
    let mut pending = PendingOps::new();
    pending.enqueue_pending_aqs_sync_op(PendingAqsSyncOp::StrategyEvent(event("a")));
    let op = pending.next_op().unwrap();
    let flushed = pending.settle_op(op, Err("broken pipe".to_string()));
    assert!(matches!(flushed, Flushed::Stop { .. }));
    assert_eq!(pending.ops.len(), 1);
    let op = pending.next_op().unwrap();
    assert!(matches!(pending.settle_op(op, Err("denied".to_string())), Flushed::GoOn));
    assert_eq!(pending.ops.len(), 0);
    assert!(settle_event(&mut pending, event("b"), Err("timeout".to_string())).is_err());
    assert_eq!(pending.ops.len(), 1);
}

#[test]
fn records_are_filed_by_strategy_and_session() {
    assert_eq!(live_session_key("live_sessions:abc"), "abc");
    assert_eq!(live_session_key("abc"), "abc");
    assert_eq!(live_session_key_for_auth(&auth()), "abc");
    assert_eq!(live_insight_record_id(&auth(), "x"), "strategy::abc::x");
    assert_eq!(live_metrics_record_id(&auth()), "strategy::abc");
    let mut local = auth();
    local.live_session_id = None;
    assert_eq!(live_insight_record_id(&local, "x"), "strategy::session::x");
    assert_eq!(auth().with_url("ws://here".to_string()).url(), "ws://here");
    assert!(auth().url().starts_with("wss://"));
}

#[test]
fn an_event_is_filed_in_one_place() {
    let filed = file_event(&auth(), &event("a"), NOW);
    let again = file_event(&auth(), &event("a"), UtcTime { secs: 5, nanos: 0 });
    assert_eq!(filed.record_id, again.record_id);
    assert_eq!(filed.session, "abc");
    let name = "strategy::abc::1700000000000::test::a::message";
    assert_eq!(filed.record_id, Uuid::new_v5(&Uuid::NAMESPACE_OID, name.as_bytes()).to_string());
}

#[test]
fn action_ids_are_told() {
    assert_eq!(action_id_from_value(&text("actions:1")), Some("actions:1".to_string()));
    let record = object(vec![
        ("table", text("strategy_actions")),
        ("key", object(vec![("String", text("k"))])),
    ]);
    assert_eq!(action_id_from_value(&record), Some("strategy_actions:k".to_string()));
    let number = object(vec![
        ("table", text("t")),
        ("key", object(vec![("Number", Json::Number(JsonNumber::Signed(-4)))])),
    ]);
    assert_eq!(action_id_from_value(&number), Some("t:-4".to_string()));
    assert_eq!(action_id_from_value(&Json::Null), None);
    let stop = object(vec![("status", text("pending")), ("action", text("stop")), ("id", record)]);
    let request = stop_request(&stop);
    assert!(request.stop);
    assert_eq!(request.id, Some("strategy_actions:k".to_string()));
    assert!(!stop_request(&object(vec![("status", text("done")), ("action", text("stop"))])).stop);
    assert!(action_status_query("completed_at").ends_with("completed_at = time::now()"));
}

#[test]
fn an_account_gets_a_point_only_when_it_changed() {
    let latest = Some(LatestPersistedAccountState {
        equity: number(10.0),
        cash: number(50.0),
        buying_power: number(100.0),
    });
    assert!(!account_changed(latest, &account(10.0)));
    assert!(account_changed(latest, &account(11.0)));
    assert!(account_changed(None, &account(10.0)));
    assert_eq!(next_account_write(AccountWrite::Snapshot, false, true), AccountWrite::Done);
    assert_eq!(next_account_write(AccountWrite::Snapshot, true, true), AccountWrite::EquityPoint);
    assert_eq!(next_account_write(AccountWrite::Snapshot, true, false), AccountWrite::Failed);
    let records = account_records(&auth(), &account(10.0), NOW);
    assert_eq!(records.session, "abc");
    assert_eq!(records.point.equity, number(10.0));
    assert_eq!(records.snapshot.currency, "USD");
    let shown = |s: &str| ShownFigure { text: s.to_string(), value: text(s) };
    let told = account_event(&shown("10"), &shown("50"), &shown("100"), NOW);
    assert!(told.message.contains("10") && told.message.contains("50"));
}

fn row(id: u128, order: &str) -> Json {
    object(vec![
        ("insight_id", text(&Uuid::from_u128(id).to_string())),
        ("symbol", text("AAPL")),
        ("state", text("FILLED")),
        ("order_id", text(order)),
    ])
}

#[test]
fn remote_insights_are_read() {
    let remote = read_remote(&row(1, "  o1 ")).unwrap();
    assert_eq!(remote.order_id.as_deref(), Some("o1"));
    assert_eq!(remote.side, "-");
    assert!(read_remote(&row(1, " ")).unwrap().order_id.is_none());
    assert!(read_remote(&Json::Null).is_none());
    let stale = stale_remotes(&vec![row(1, "a"), row(2, "b"), Json::Null], &vec![1]);
    assert_eq!(stale.len(), 1);
    assert_eq!(stale[0].order_id.as_deref(), Some("b"));
}

fn order(id: &str, status: TradeUpdateEvent) -> BrokerOrder {
    BrokerOrder { order_id: id.to_string(), status }
}

#[test]
fn stale_insights_are_cleaned_up() {
    let remotes = stale_remotes(
        &vec![row(1, "filled"), row(2, "open"), row(3, "gone"), row(4, "closed"), row(5, "rejected")],
        &Vec::new(),
    );
    let orders = vec![
        order("filled", TradeUpdateEvent::Filled),
        order("open", TradeUpdateEvent::Accepted),
        order("closed", TradeUpdateEvent::Closed),
        order("rejected", TradeUpdateEvent::Rejected),
    ];
    let positions = vec![BrokerPosition {
        symbol: "AAPL".to_string(),
        qty: number(2.0),
        shown: Json::Number(JsonNumber::Unsigned(2)),
    }];
    let plan = plan_cleanup(remotes, &orders, &None, &positions);
    assert_eq!(plan.actions.len(), 2);
    assert_eq!(plan.actions[0].action, StartupBrokerActionKind::ClosePosition);
    assert_eq!(plan.actions[1].action, StartupBrokerActionKind::CancelOrder);
    let told: Vec<&str> = plan.decisions.iter().map(|d| d.broker_action.as_str()).collect();
    assert_eq!(told, vec!["order_not_found", "already_closed", "already_terminal"]);
    assert_eq!(plan.decisions[1].target_state, InsightState::Closed);
    assert!(cleaned_up_event(&plan.decisions[0], NOW).message.contains("stale remote insight"));
    let mut actions = plan.actions.into_iter();
    let closed = settle_action(actions.next().unwrap(), BrokerReply::Done).unwrap();
    assert_eq!(closed.target_state, InsightState::Closed);
    assert!(settle_action(actions.next().unwrap(), BrokerReply::Refused).is_none());
}

#[test]
fn without_the_orders_the_broker_is_not_asked() {
    let remotes = stale_remotes(&vec![row(1, "o")], &Vec::new());
    let plan = plan_cleanup(remotes, &Vec::new(), &Some("offline".to_string()), &Vec::new());
    assert!(plan.actions.is_empty());
    assert_eq!(plan.decisions[0].broker_error.as_deref(), Some("offline"));
}

#[test]
fn a_position_that_is_gone_is_closed() {
    let remotes = stale_remotes(&vec![row(1, "filled")], &Vec::new());
    let orders = vec![order("filled", TradeUpdateEvent::Filled)];
    let plan = plan_cleanup(remotes, &orders, &None, &Vec::new());
    assert_eq!(plan.decisions[0].broker_action, "position_not_found");
    assert_eq!(plan.decisions[0].target_state, InsightState::Closed);
}

#[test]
fn the_cloud_is_told_of_each_change() {
    let mut run = RemoteRun::start(2);
    for _ in 0..4 {
        let (next, requeue) = run.next(Ok(()));
        assert!(!requeue);
        run = next;
    }
    assert!(matches!(run.phase, RemotePhase::Done));
    assert_eq!(run.changed, 2);
    let (run, _) = RemoteRun::start(1).next(Err("connection closed".to_string()));
    assert!(matches!(run.phase, RemotePhase::Lost { .. }));
}

#[test]
fn transitions_are_synced_once() {
    let mut open = insight(1, InsightState::New);
    open.order_accepted("o", NOW);
    let shown: Vec<Json> = open.state_history.iter().map(|_| Json::Null).collect();
    let mut offsets: Table<usize> = Table::new();
    assert_eq!(offset_of(&offsets, 1), 0);
    let all = unsynced_transitions(&open, &shown, 0);
    assert_eq!(all.len(), open.state_history.len());
    mark_transitions(&mut offsets, &open);
    assert!(unsynced_transitions(&open, &shown, offset_of(&offsets, 1)).is_empty());
}

#[test]
fn a_sync_is_planned_by_what_changed() {
    assert!(matches!(plan_sync(Vec::new(), false, None, false, false), SyncPlan::Nothing));
    assert!(matches!(plan_sync(Vec::new(), false, None, false, true), SyncPlan::OnlyMetrics));
    match plan_sync(vec![1, 2, 3], false, Some(2), false, false) {
        SyncPlan::Insights { ids } => assert_eq!(ids, vec![1, 2]),
        _ => panic!("there are insights to sync"),
    }
}

#[test]
fn synced_insights_that_are_over_are_pruned() {
    let mut insights = InsightCollection::new();
    insights.add_insight(insight(1, InsightState::Closed));
    insights.add_insight(insight(2, InsightState::New));
    let mut synced: Table<InsightState> = Table::new();
    let mut offsets: Table<usize> = Table::new();
    let first = settle_insight(&mut insights, &mut synced, 0);
    assert!(first.changed && first.closed && first.terminal);
    let again = settle_insight(&mut insights, &mut synced, 0);
    assert!(!again.changed);
    prune_synced(&mut insights, &mut synced, &mut offsets, &vec![1, 2]);
    assert_eq!(insights.ids(), vec![2]);
    let counts = insights_state_counts_json(&insights);
    assert!(counts.to_text().contains("1"));
}

#[test]
fn a_sync_goes_through_its_insights() {
    let mut sync = LiveSync::start(1, true);
    let mut steps = 0;
    while !matches!(sync.step, SyncStep::Done { .. }) {
        sync = sync.next(SyncReply::Done { changed: true });
        steps += 1;
        assert!(steps < 10);
    }
    let lost = LiveSync::start(1, false).next(SyncReply::Refused { error: "timeout".to_string() });
    assert!(matches!(lost.step, SyncStep::Lost { .. }) || matches!(lost.step, SyncStep::Insight { .. }));
}

/// The steps of a setup in which the cloud cannot be connected, or all is done.
fn steps_of(cloud: bool, connects: bool) -> (Vec<SetupStep>, LiveSetup) {
    let mut setup = LiveSetup::begin(cloud);
    let mut seen = vec![setup.step];
    while setup.step != SetupStep::Running && setup.step != SetupStep::Failed {
        setup = setup.next(match setup.step {
            SetupStep::ConnectCloud if !connects => SetupReply::Failed,
            SetupStep::LoadUniverse => SetupReply::Loaded { alphas: 1, assets: 1 },
            _ => SetupReply::Done,
        });
        if !matches!(setup.step, SetupStep::Prepare { .. }) {
            seen.push(setup.step);
        }
    }
    (seen, setup)
}

#[test]
fn setting_up_locally_asks_nothing_of_the_cloud() {
    let (seen, setup) = steps_of(false, true);
    assert!(!seen.contains(&SetupStep::ConnectCloud));
    assert!(!seen.contains(&SetupStep::OpenActions));
    assert!(seen.contains(&SetupStep::OpenLocalRun));
    assert!(!setup.cloud);
    assert_eq!(LiveSetup::begin(true).step, SetupStep::ConnectCloud);
}

#[test]
fn a_setup_without_the_cloud_goes_on_as_a_local_one() {
    let (seen, setup) = steps_of(true, false);
    assert_eq!(
        seen,
        vec![
            SetupStep::ConnectCloud,
            SetupStep::ConfigureSession,
            SetupStep::ConnectBroker,
            SetupStep::StartStrategy,
            SetupStep::LoadUniverse,
            SetupStep::NoteStart,
            SetupStep::OpenLocalRun,
            SetupStep::SubscribeTrades,
            SetupStep::SubscribeData,
            SetupStep::Running,
        ]
    );
    assert!(!setup.cloud);
    let (seen, setup) = steps_of(true, true);
    assert!(seen.contains(&SetupStep::OpenActions));
    assert!(!seen.contains(&SetupStep::OpenLocalRun));
    assert!(setup.cloud);
}

#[test]
fn a_setup_that_fails_hands_the_strategy_back() {
    let at = |step: SetupStep| LiveSetup { step, cloud: false };
    let setup = at(SetupStep::ConnectBroker).next(SetupReply::Failed);
    assert_eq!(setup.step, SetupStep::HandBack);
    assert_eq!(setup.next(SetupReply::Done).step, SetupStep::Failed);
    assert_eq!(setup.next(SetupReply::Done).next(SetupReply::Done).step, SetupStep::Failed);
    let empty = at(SetupStep::LoadUniverse).next(SetupReply::Loaded { alphas: 2, assets: 0 });
    assert_eq!(empty.step, SetupStep::HandBack);
}

#[test]
fn a_live_strategy_is_set_up_in_order() {
    let universe = LiveSetup { step: SetupStep::LoadUniverse, cloud: true };
    let mut setup = universe.next(SetupReply::Loaded { alphas: 1, assets: 1 });
    let mut seen = Vec::new();
    while let SetupStep::Prepare { calls } = setup.step {
        seen.push(calls.step);
        setup = setup.next(SetupReply::Done);
    }
    assert_eq!(
        seen,
        vec![
            PrepareStep::StartAlpha { at: 0 },
            PrepareStep::BeforeInit { at: 0 },
            PrepareStep::InitAsset { at: 0 },
            PrepareStep::AfterInit { at: 0 },
            PrepareStep::InitAlpha { asset: 0, alpha: 0 },
        ]
    );
    assert_eq!(setup.step, SetupStep::NoteStart);
    assert_eq!(setup.next(SetupReply::Done).step, SetupStep::SubscribeTrades);
}

#[test]
fn insights_are_managed_before_the_pipeline_runs() {
    assert_eq!(
        tick_calls(2, false),
        vec![
            TickCall::Reconnect,
            TickCall::Manage { at: 0 },
            TickCall::Manage { at: 1 },
            TickCall::Pipeline,
            TickCall::Prune,
        ]
    );
    assert_eq!(tick_calls(0, true), vec![TickCall::Reconnect, TickCall::Pipeline]);
}

#[test]
fn a_live_loop_syncs_and_reconnects() {
    let link = Link { connected: true, actions: true };
    let mut run = LiveLoop::begin("s".to_string(), true, link);
    assert_eq!(run.status, StrategyStatus::Running);
    run.step(LiveEvent::SyncTick);
    assert!(matches!(run.phase, LivePhase::Look { .. }));
    run.step(LiveEvent::Waiting { ops: true, dirty: false, metrics: false, account_due: false });
    assert!(matches!(run.phase, LivePhase::FlushOps { .. }));
    run.step(LiveEvent::ConnectionLost);
    assert!(matches!(run.phase, LivePhase::Reconnect { .. }));
    run.step(LiveEvent::Reconnected { actions: true });
    assert!(run.full);
    assert_eq!(run.sync, SyncStatus::Connected);
    assert!(!run.shutdown);
}

#[test]
fn a_live_loop_stops_when_told() {
    let mut run = LiveLoop::begin("s".to_string(), false, Link { connected: false, actions: false });
    run.step(LiveEvent::SyncTick);
    assert!(matches!(run.phase, LivePhase::Idle));
    run.step(LiveEvent::PipelineTick { stop_requested: false });
    assert!(!run.shutdown);
    run.step(LiveEvent::Interrupt);
    assert!(run.shutdown);
    run.step(LiveEvent::PipelineTick { stop_requested: false });
    assert!(run.shutdown);
}

#[test]
fn a_stop_action_is_kept_for_its_completion() {
    let mut run = LiveLoop::begin("s".to_string(), true, Link { connected: true, actions: true });
    run.step(LiveEvent::StopAction { id: Some("actions:1".to_string()) });
    assert!(run.shutdown);
    assert_eq!(run.stop_action.as_deref(), Some("actions:1"));
    let steps = shutdown_steps(true, true, false);
    assert_eq!(steps[0], ShutdownStep::TearDown);
    assert!(steps.contains(&ShutdownStep::CompleteStopAction));
    assert!(!steps.contains(&ShutdownStep::FinishLocalRun));
    let local = shutdown_steps(false, false, true);
    assert!(local.contains(&ShutdownStep::FinishLocalRun));
    assert!(!local.contains(&ShutdownStep::CompleteSession));
    assert_eq!(*local.last().unwrap(), ShutdownStep::Report);
    assert_eq!(final_report(false, false).2, SyncStatus::NotConfigured);
    assert_eq!(final_report(true, true).2, SyncStatus::Completed);
    assert_eq!(final_report(true, false).2, SyncStatus::Offline);
    assert_eq!(final_report(true, false).0, "info");
    assert_eq!((LOCAL_RUN_STATUS, LOCAL_RUN_MESSAGE), ("completed", "Strategy exited live mode"));
}

#[test]
fn a_run_goes_on_without_the_cloud_and_tries_again() {
    let mut run = LiveLoop::begin("s".to_string(), true, Link { connected: true, actions: true });
    run.step(LiveEvent::ReconcileTick);
    run.step(LiveEvent::Waiting { ops: true, dirty: true, metrics: false, account_due: false });
    run.step(LiveEvent::ConnectionLost);
    run.step(LiveEvent::NotReconnected);
    assert!(!run.shutdown);
    assert_eq!(run.status, StrategyStatus::Running);
    assert_eq!(run.sync, SyncStatus::Offline);
    assert!(matches!(run.phase, LivePhase::Idle));
    run.step(LiveEvent::PipelineTick { stop_requested: false });
    assert!(!run.shutdown);
    run.step(LiveEvent::SyncTick);
    assert!(matches!(run.phase, LivePhase::Reconnect { force: true, .. }));
    run.step(LiveEvent::Reconnected { actions: true });
    assert_eq!(run.sync, SyncStatus::Connected);
    assert!(run.full);
    assert!(unavailable_notice("s", "offline").starts_with("AQS live sync unavailable for strategy s "));
    assert!(unavailable_notice("s", "offline").ends_with("live run goes on: offline"));
}

#[test]
fn what_a_full_queue_drops_is_counted() {
    let mut pending = PendingOps::new();
    for _ in 0..MAX_PENDING_AQS_SYNC_OPS {
        pending.enqueue_pending_aqs_sync_op(PendingAqsSyncOp::StrategyEvent(event("a")));
    }
    assert_eq!(pending.dropped, 0);
    assert!(settle_event(&mut pending, event("b"), Err("timeout".to_string())).is_err());
    assert_eq!((pending.ops.len(), pending.dropped), (MAX_PENDING_AQS_SYNC_OPS, 1));
    assert!(settle_event(&mut pending, event("c"), Ok(())).is_ok());
    assert_eq!(pending.dropped, 1);
}

#[test]
fn local_runs_are_named_by_time() {
    let id = local_run_id(NOW, 1);
    assert_eq!(id, "20231114-221320-00000000-0000-0000-0000-000000000001");
    let first = new_local_run_id(NOW);
    assert!(first.starts_with("20231114-221320-"));
    assert_ne!(first, new_local_run_id(NOW));
    let started = local_run_started(&id, "s", "sma");
    assert_eq!(started.details.run_id.as_deref(), Some(id.as_str()));
}

#[test]
fn trades_are_noted_where_they_belong() {
    assert_eq!(
        trade_notice(TradeUpdateEvent::PartialFilled, "o"),
        "Trade event PartialFilled for order o"
    );
    let order = Order {
        order_id: "o".to_string(),
        insight_id: None,
        symbol: "AAPL".to_string(),
        side: OrderSide::Buy,
        status: TradeUpdateEvent::Filled,
        qty: number(1.0),
        filled_qty: number(1.0),
        limit_price: None,
        filled_price: None,
        stop_price: None,
        realized_pnl: None,
        commission: None,
        swap: None,
        rejection_reason: None,
        legs: None,
    };
    let mut local = VecDeque::new();
    let mut pending = PendingOps::new();
    note_trade_event(&order, TradeUpdateEvent::Filled, true, false, &mut local, &mut pending, NOW);
    assert_eq!((local.len(), pending.ops.len()), (1, 0));
    note_trade_event(&order, TradeUpdateEvent::Filled, false, true, &mut local, &mut pending, NOW);
    assert_eq!((local.len(), pending.ops.len()), (1, 1));
    for i in 0..600 {
        enqueue_pending_local_live_event(&mut local, local_run_started(&format!("{}", i), "s", "n"));
    }
    assert_eq!(local.len(), 512);
    assert_eq!(local[511].details.run_id.as_deref(), Some("599"));
}

fn raw() -> RawFigures {
    RawFigures {
        total_return: number(10.0),
        return_pct: number(10.0),
        sharpe_ratio: number(0.5),
        win_pct: number(50.0),
        return_per_trade: number(5.0),
        gross_profit: number(12.0),
        gross_loss_abs: number(2.0),
        profit_per_loss: number(6.0),
        winner_mean: number(12.0),
        winner_pct_mean: number(12.0),
        loser_mean: number(-2.0),
        loser_pct_mean: number(-2.0),
        winner_per_loser: number(6.0),
        open_positions_unrealized_pnl: number(0.0),
    }
}

fn figures(tracker: &LivePerformanceTracker) -> LiveFigures {
    tracker.settled_figures(&raw())
}

#[test]
fn trades_are_counted() {
    let mut tracker = LivePerformanceTracker::new();
    assert!(tracker.snapshot(&figures(&tracker)).is_none());
    tracker.initialize(number(100.0), number(110.0), NOW, vec!["AAPL".to_string()]);
    assert!(tracker.record_closed_insight(number(12.0), 60, NOW));
    assert!(!tracker.record_closed_insight(number(-2.0), 30, NOW));
    let snapshot = tracker.snapshot(&figures(&tracker)).unwrap();
    assert_eq!(snapshot.counts.total_trades, 2);
    assert_eq!(snapshot.counts.winning_trades, 1);
    assert_eq!(snapshot.counts.average_trade_held_secs, 45);
    assert_eq!(snapshot.figures.best_trade, number(12.0));
    assert_eq!(snapshot.figures.worst_trade, number(-2.0));
    assert_eq!(snapshot.figures.profit_factor, number(6.0));
    assert_eq!(snapshot.figures.starting_cash, number(100.0));
    assert_eq!(snapshot.figures.final_equity, number(110.0));
}

#[test]
fn figures_keep_their_bounds() {
    let mut tracker = LivePerformanceTracker::new();
    tracker.initialize(number(100.0), number(80.0), NOW, Vec::new());
    assert_eq!(tracker.peak_with(number(90.0)), number(100.0));
    assert_eq!(tracker.peak_with(number(120.0)), number(120.0));
    assert!(!tracker.update_equity(number(90.0), number(10.0), NOW));
    assert!(!tracker.update_equity(number(120.0), number(-3.0), NOW));
    assert!(!tracker.update_equity(number(120.0), number(f64::NAN), NOW));
    let shown = figures(&tracker);
    assert_eq!(shown.max_drawdown, number(10.0));
    assert_eq!(shown.final_equity, number(120.0));
    assert_eq!(shown.win_rate, number(0.0));
    assert_eq!(shown.avg_loser, number(0.0));
    assert_eq!(shown.scored(number(250.0)).consistency_score, number(100.0));
    assert_eq!(shown.scored(number(-1.0)).consistency_score, number(0.0));
    assert_eq!(shown.scored(number(42.5)).consistency_score, number(42.5));
    let mut broke = LivePerformanceTracker::new();
    assert!(broke.update_equity(number(0.0), number(5.0), NOW));
    assert!(!broke.update_equity(number(0.0), number(5.0), NOW));
    assert_eq!(broke.max_drawdown, number(0.0));
}

#[test]
fn figures_are_written_once() {
    let mut tracker = LivePerformanceTracker::new();
    tracker.initialize(number(100.0), number(110.0), NOW, vec!["AAPL".to_string()]);
    let shown = figures(&tracker);
    assert!(tracker.should_persist(&shown));
    tracker.mark_persisted(&shown);
    assert!(!tracker.should_persist(&shown));
    tracker.finish(UtcTime { secs: NOW.secs + 1, nanos: 0 });
    assert!(tracker.should_persist(&shown));
    let snapshot = tracker.snapshot(&shown).unwrap();
    let last = Some(snapshot.duplicate());
    assert!(metrics_to_write(&last, Some(snapshot.duplicate()), false).is_none());
    assert!(metrics_to_write(&last, Some(snapshot.duplicate()), true).is_some());
    assert!(metrics_to_write(&None, Some(snapshot), false).is_some());
    assert!(metrics_to_write(&None, None, true).is_none());
}

#[test]
fn figures_that_could_not_be_written_wait() {
    let mut tracker = LivePerformanceTracker::new();
    tracker.initialize(number(100.0), number(110.0), NOW, Vec::new());
    let shown = figures(&tracker);
    let mut pending = PendingOps::new();
    let record = StrategyLiveMetricsRecord::of(tracker.snapshot(&shown).unwrap());
    assert!(settle_metrics(&mut tracker, &mut pending, &shown, record, Err("timeout".to_string())));
    assert_eq!(pending.ops.len(), 1);
    let record = StrategyLiveMetricsRecord::of(tracker.snapshot(&shown).unwrap());
    assert!(!settle_metrics(&mut tracker, &mut pending, &shown, record, Ok(())));
    assert!(!tracker.should_persist(&shown));
    assert!(settle_account(&mut pending, account(1.0), NOW, Err("timeout".to_string())));
    assert_eq!(pending.ops.len(), 2);
    settle_started(&mut pending, Vec::new(), None, Err("timeout".to_string()));
    assert_eq!(pending.ops.len(), 3);
}

#[test]
fn open_positions_are_valued() {
    let mut insights = InsightCollection::new();
    let mut filled = insight(1, InsightState::Filled);
    filled.filled_price = Some(number(10.0));
    insights.add_insight(filled);
    insights.add_insight(insight(2, InsightState::New));
    let mut prices: Table<Number> = Table::new();
    prices.insert("AAPL", number(12.0));
    let remaining = vec![number(2.0), number(2.0)];
    let positions = open_positions(&insights, &remaining, &prices);
    assert_eq!(positions.len(), 1);
    assert_eq!(positions[0].entry, number(10.0));
    assert_eq!(positions[0].price, number(12.0));
    let open = open_metrics(&insights, &vec!["AAPL".to_string()], &positions, &vec![number(4.0)]);
    assert_eq!((open.positions, open.profitable, open.losing), (1, 1, 0));
}

#[test]
fn closed_trades_have_an_entry_and_an_end() {
    let mut closed = insight(1, InsightState::Closed);
    assert!(closed_trade(&closed).is_none());
    closed.filled_price = Some(number(10.0));
    closed.close_price = Some(number(11.0));
    closed.filled_at = Some(NOW);
    closed.closed_at = Some(UtcTime { secs: NOW.secs + 90, nanos: 500_000_000 });
    assert_eq!(entry_price_of(&closed), Some(number(10.0)));
    assert_eq!(closed_trade(&closed).unwrap().close, number(11.0));
    assert_eq!(trade_hold_secs(&closed), 90);
}

fn asset(symbol: &str) -> Asset {
    Asset {
        id: symbol.to_string(),
        symbol: symbol.to_string(),
        name: symbol.to_string(),
        asset_type: AssetType::Stock,
        status: AssetStatus::Active,
        exchange: AssetExchange::UNKNOWN("X".to_string()),
        tradable: true,
        marginable: true,
        shortable: true,
        fractional: true,
        min_order_size: None,
        quantity_base: None,
        max_order_size: None,
        min_price_increment: None,
        price_base: None,
        contract_size: None,
    }
}

#[test]
fn a_start_tells_the_universe() {
    assert!(universe_error(&Vec::new()).is_some());
    let assets = vec![asset("TSLA"), asset("AAPL"), asset("TSLA")];
    assert!(universe_error(&assets).is_none());
    let universe = initial_universe(&assets);
    let symbols: Vec<&str> = universe.iter().map(|a| a.symbol.as_str()).collect();
    assert_eq!(symbols, vec!["AAPL", "TSLA"]);
    assert_eq!(universe[0].exchange, "X");
    assert_eq!(starting_funds(&Some(account(7.0))), (number(50.0), number(7.0)));
    assert_eq!(starting_funds(&None), (number(0.0), number(0.0)));
    let titles = [
        connected_event(NOW).title,
        started_event("sma", &auth(), NOW).title,
        stopped_event("sma", NOW).title,
        stop_requested_event(Json::Null, NOW).title,
    ];
    for i in 0..titles.len() {
        for j in 0..i {
            assert_ne!(titles[i], titles[j]);
        }
    }
}
