//! The history of bars.
use aq_engine::backtest::{summary_lines, Backtest, BacktestPhase, BacktestReply};
use aq_engine::events::{
    event_streams_for_symbol, history_key, resolve_event_streams, sorted_symbols, stream_of_bar,
    symbols_of, time_frames, EventStreamOptions, EventStreamRequest, EventStreamType,
};
use aq_engine::history::{
    append_bars, bar_calls, indicator_window, note_seeded, on_bar, seed_anchor, seed_history,
    seed_start, warm_up, BarCall, IndicatorWindow, WarmUp,
};
use aq_engine::indicator::{
    apply_indicators_to_history, backfill, update_indicators, Indicator,
};
use aq_engine::lifecycle::{Preparation, PrepareStep};
use aq_engine::number::Number;
use aq_engine::state::StrategyState;
use aq_engine::table::Table;
use aq_engine::time::UtcTime;
use aq_engine::timeframe::{TimeFrame, TimeFrameUnit};
use aq_engine::types::{StrategyMode, StrategyStatus};
use polars::prelude::{Column, DataFrame, NamedFrom, Series};

fn minutes(n: u8) -> TimeFrame {
    TimeFrame::new(n, TimeFrameUnit::Minute)
}

fn bars(closes: Vec<f64>, from: i64) -> DataFrame {
    let times: Vec<i64> = (0..closes.len() as i64).map(|i| from + 60_000 * i).collect();
    DataFrame::new_infer_height(vec![
        Column::new("timestamp".into(), times),
        Column::new("close".into(), closes),
    ])
    .unwrap()
}

fn closes(frame: &DataFrame) -> Vec<f64> {
    frame.column("close").unwrap().f64().unwrap().into_no_null_iter().collect()
}

#[test]
fn bars_are_put_behind_the_history() {
    let history = append_bars(bars(vec![1.0, 2.0], 0), bars(vec![3.0], 120_000), 10);
    assert_eq!(closes(&history), vec![1.0, 2.0, 3.0]);
    let cut = append_bars(history, bars(vec![4.0], 180_000), 2);
    assert_eq!(closes(&cut), vec![3.0, 4.0]);
}

#[test]
fn bars_that_do_not_fit_leave_the_history() {
    let odd = DataFrame::new_infer_height(vec![Column::new("other".into(), vec![1i64])]).unwrap();
    let history = append_bars(bars(vec![1.0, 2.0], 0), odd, 10);
    assert_eq!(closes(&history), vec![1.0, 2.0]);
    let odd = DataFrame::new_infer_height(vec![Column::new("other".into(), vec![1i64])]).unwrap();
    assert!(matches!(indicator_window(&history, &odd, 0, 2), IndicatorWindow::Misfit));
    let mut progress: Table<i32> = Table::new();
    let (history, calls) = on_bar(history, Some(odd), "AAPL", 10, 2, true, &mut progress);
    assert_eq!(closes(&history), vec![1.0, 2.0]);
    assert_eq!(calls.len(), 2);
}

#[test]
fn an_indicator_sees_the_last_rows_up_to_its_bar() {
    let history = bars(vec![1.0, 2.0], 0);
    let new = bars(vec![3.0, 4.0], 120_000);
    match indicator_window(&history, &new, 0, 2) {
        IndicatorWindow::Ready(window) => assert_eq!(closes(&window), vec![2.0, 3.0]),
        _ => panic!("there are enough rows"),
    }
    assert!(matches!(indicator_window(&history, &new, 0, 4), IndicatorWindow::Wait));
    match indicator_window(&history, &new, 1, 4) {
        IndicatorWindow::Ready(window) => assert_eq!(closes(&window), vec![1.0, 2.0, 3.0, 4.0]),
        _ => panic!("there are enough rows"),
    }
}

#[test]
fn a_seed_ends_before_the_start() {
    let read = bars(vec![1.0, 2.0, 3.0, 4.0], 0);
    let seed = seed_history(read, UtcTime { secs: 180, nanos: 0 }, 2).unwrap();
    assert_eq!(closes(&seed), vec![2.0, 3.0]);
    let empty = seed_history(bars(vec![], 0), UtcTime { secs: 0, nanos: 0 }, 2).unwrap();
    assert_eq!(empty.height(), 0);
    let unreadable = DataFrame::new_infer_height(vec![
        Column::new("timestamp".into(), vec![Series::new("times".into(), vec![1i64, 2])]),
        Column::new("close".into(), vec![1.0]),
    ])
    .unwrap();
    assert!(seed_history(unreadable, UtcTime { secs: 180, nanos: 0 }, 2).is_err());
}

/// An indicator that notes what it was run along, and adds a column.
struct Ones {
    fails: bool,
    heights: Vec<usize>,
    last_run: Option<UtcTime>,
}

impl Ones {
    fn new(fails: bool) -> Ones {
        Ones { fails, heights: Vec::new(), last_run: None }
    }
}

impl Indicator for Ones {
    fn name(&self) -> String {
        "ones".to_string()
    }

    fn run(&mut self, history: &mut DataFrame) -> Result<(), String> {
        self.heights.push(history.height());
        if self.fails {
            return Err(format!("{} rows", history.height()));
        }
        let ones = vec![1.0; history.height()];
        history.with_column(Column::new("ones".into(), ones)).unwrap();
        Ok(())
    }

    fn window_size(&self) -> usize {
        2
    }

    fn run_bar(&mut self, window: &DataFrame) -> Result<Vec<(String, Number)>, String> {
        self.heights.push(window.height());
        let sum: f64 = closes(window).iter().sum();
        if self.fails {
            return Err("no figure".to_string());
        }
        let value = Number { bits: sum.to_bits() };
        Ok(vec![
            ("ones".to_string(), value),
            ("missing".to_string(), value),
            ("timestamp".to_string(), value),
        ])
    }

    fn set_last_run_time(&mut self, time: UtcTime) {
        self.last_run = Some(time);
    }
}

fn reals(frame: &DataFrame, name: &str) -> Vec<Option<f64>> {
    frame.column(name).unwrap().f64().unwrap().to_vec()
}

#[test]
fn indicators_are_brought_up_to_new_rows() {
    let at = UtcTime { secs: 60, nanos: 0 };
    let mut indicators = vec![Ones::new(false)];
    let empty = DataFrame::default();
    let first = bars(vec![10.0, 20.0, 40.0], 0);
    let rows = update_indicators(&mut indicators, &empty, first, at);
    assert_eq!(reals(&rows, "ones"), vec![None, Some(30.0), Some(60.0)]);
    assert_eq!(closes(&rows), vec![10.0, 20.0, 40.0]);
    assert!(rows.column("missing").is_err());
    assert_eq!(rows.column("timestamp").unwrap().i64().unwrap().get(1), Some(60_000));
    assert_eq!(indicators[0].heights, vec![2, 2]);
    assert_eq!(indicators[0].last_run, Some(at));
    let more = update_indicators(&mut indicators, &rows, bars(vec![5.0], 180_000), at);
    assert_eq!(reals(&more, "ones"), vec![Some(45.0)]);
    let mut failing = vec![Ones::new(true)];
    let rows = update_indicators(&mut failing, &empty, bars(vec![1.0, 2.0], 0), at);
    assert_eq!(reals(&rows, "ones"), vec![None, None]);
    assert_eq!(failing[0].last_run, Some(at));
}

#[test]
fn a_run_is_updated_and_taken_in_bar_by_bar() {
    let at = UtcTime { secs: 60, nanos: 0 };
    let mut progress: Table<i32> = Table::new();
    let mut indicators = vec![Ones::new(false)];
    let mut history = DataFrame::default();
    for (i, close) in [10.0, 20.0, 40.0].into_iter().enumerate() {
        let rows = bars(vec![close], 60_000 * i as i64);
        let rows = update_indicators(&mut indicators, &history, rows, at);
        (history, _) = on_bar(history, Some(rows), "AAPL", 10, 0, true, &mut progress);
    }
    assert_eq!(reals(&history, "ones"), vec![None, Some(30.0), Some(60.0)]);
}

#[test]
fn a_later_column_that_does_not_fit_adds_no_row() {
    let whole = DataFrame::new_infer_height(vec![
        Column::new("timestamp".into(), vec![120_000i64]),
        Column::new("close".into(), vec![3i64]),
    ])
    .unwrap();
    let history = append_bars(bars(vec![1.0, 2.0], 0), whole, 10);
    assert_eq!(history.height(), 2);
    assert_eq!(history.column("timestamp").unwrap().len(), 3);
    assert_eq!(closes(&history), vec![1.0, 2.0]);
    let cut = append_bars(history, bars(vec![4.0], 180_000), 2);
    assert_eq!(cut.height(), 2);
    assert_eq!(closes(&cut), vec![2.0, 4.0]);
    let times = cut.column("timestamp").unwrap().i64().unwrap().to_vec();
    assert_eq!(times, vec![Some(120_000), Some(180_000)]);
}

#[test]
fn a_new_indicator_is_run_along_each_history_with_rows() {
    let mut state = StrategyState::new(
        "Indicators".to_string(),
        "1.0".to_string(),
        0u8,
        "paper",
        StrategyMode::Backtest,
        minutes(1),
    );
    let mut histories = vec![bars(vec![1.0, 2.0], 0), bars(vec![], 0), bars(vec![3.0], 0)];
    let mut first = Ones::new(false);
    let failures = state.register_indicator(&mut first, &mut histories).unwrap();
    assert!(failures.is_empty());
    assert_eq!(first.heights, vec![2, 1]);
    assert!(histories[0].column("ones").is_ok() && histories[2].column("ones").is_ok());
    assert!(histories[1].column("ones").is_err());
    let mut second = Ones::new(false);
    assert!(state.register_indicator(&mut second, &mut histories).is_none());
    assert!(second.heights.is_empty());
}

#[test]
fn an_indicator_whose_runs_fail_is_kept() {
    let mut state = StrategyState::new(
        "Indicators".to_string(),
        "1.0".to_string(),
        0u8,
        "paper",
        StrategyMode::Backtest,
        minutes(1),
    );
    let mut histories = vec![bars(vec![1.0, 2.0], 0), bars(vec![3.0], 0)];
    let mut failing = Ones::new(true);
    let failures = state.register_indicator(&mut failing, &mut histories).unwrap();
    assert_eq!(failures, vec!["2 rows", "1 rows"]);
    assert!(state.register_indicator(&mut Ones::new(false), &mut histories).is_none());
    assert_eq!(backfill(&mut failing, &mut vec![bars(vec![], 0)]), Vec::<String>::new());
}

#[test]
fn indicators_are_told_when_they_were_run() {
    let at = UtcTime { secs: 60, nanos: 0 };
    let mut indicators = vec![Ones::new(true), Ones::new(false)];
    let mut history = bars(vec![1.0, 2.0], 0);
    assert_eq!(apply_indicators_to_history(&mut indicators, &mut history, at), vec!["2 rows"]);
    assert!(indicators.iter().all(|one| one.last_run == Some(at) && one.heights == vec![2]));
    assert!(history.column("ones").is_ok());
    let mut indicators = vec![Ones::new(true)];
    assert!(apply_indicators_to_history(&mut indicators, &mut bars(vec![], 0), at).is_empty());
    assert_eq!(indicators[0].last_run, None);
}

#[test]
fn strategies_warm_up_first() {
    let mut progress: Table<i32> = Table::new();
    let first = warm_up(3, &bars(vec![1.0], 0), "AAPL", &mut progress);
    assert!(matches!(first, WarmUp::Waiting { loaded: 1, news: true }));
    assert!(bar_calls(first, true).is_empty());
    let again = warm_up(3, &bars(vec![1.0], 0), "AAPL", &mut progress);
    assert!(matches!(again, WarmUp::Waiting { loaded: 1, news: false }));
    note_seeded(&mut progress, "TSLA", 2, 3);
    assert_eq!(progress.get("TSLA"), Some(2));
    note_seeded(&mut progress, "TSLA", 7, 3);
    assert_eq!(progress.get("TSLA"), None);
}

#[test]
fn a_bar_is_traded_only_on_streams_that_may() {
    let mut progress: Table<i32> = Table::new();
    let (history, calls) =
        on_bar(bars(vec![1.0], 0), Some(bars(vec![2.0], 60_000)), "AAPL", 10, 2, true, &mut progress);
    assert_eq!(closes(&history), vec![1.0, 2.0]);
    assert_eq!(calls.len(), 2);
    assert!(matches!(calls[0], BarCall::OnBar) && matches!(calls[1], BarCall::GenerateInsights));
    let (_, calls) = on_bar(history, None, "AAPL", 10, 2, false, &mut progress);
    assert_eq!(calls.len(), 1);
    let (_, calls) = on_bar(bars(vec![1.0], 0), None, "AAPL", 10, 2, true, &mut progress);
    assert!(calls.is_empty());
}

#[test]
fn seeds_begin_enough_bars_before() {
    let anchor = UtcTime { secs: 6000, nanos: 0 };
    let start = seed_start(&minutes(5), anchor, 10, "AAPL").unwrap();
    assert_eq!(start, UtcTime { secs: 3000, nanos: 0 });
    assert_eq!(seed_anchor(None, anchor), anchor);
    assert_eq!(seed_anchor(Some(start), anchor), start);
}

#[test]
fn streams_are_keyed_by_symbol_and_frame() {
    assert_eq!(history_key("AAPL", minutes(1), minutes(1)), "AAPL");
    assert_eq!(history_key("AAPL", minutes(15), minutes(1)), "AAPL:15m");
}

#[test]
fn streams_are_resolved_once() {
    let requests = vec![
        EventStreamRequest::new(EventStreamType::Bar, Some(minutes(15))),
        EventStreamRequest::new(EventStreamType::Bar, Some(minutes(15))),
        EventStreamRequest {
            event_type: EventStreamType::Bar,
            timeframe: None,
            options: EventStreamOptions { allow_trading: false },
        },
    ];
    let symbols = sorted_symbols(&vec!["TSLA".to_string(), "AAPL".to_string(), "TSLA".to_string()]);
    assert_eq!(symbols, vec!["AAPL", "TSLA"]);
    let streams = resolve_event_streams(&symbols, minutes(1), &requests);
    assert_eq!(streams.len(), 4);
    assert!(streams.iter().all(|s| s.allow_trading == (s.key.timeframe == minutes(1))));
    assert_eq!(time_frames(&streams), vec![minutes(1), minutes(15)]);
    assert_eq!(symbols_of(&streams, minutes(15)), vec!["AAPL", "TSLA"]);
    let at = stream_of_bar(&streams, minutes(15), "TSLA").unwrap();
    assert_eq!(streams[at].history_key, "TSLA:15m");
    assert!(stream_of_bar(&streams, minutes(5), "TSLA").is_none());
    assert_eq!(event_streams_for_symbol("AAPL", minutes(1), &requests).len(), 2);
    let context = streams[at].context_at(UtcTime { secs: 1, nanos: 0 });
    assert_eq!(context.symbol, "TSLA");
    assert!(!context.moves_broker());
}

#[test]
fn a_strategy_is_set_up_in_order() {
    let mut calls = Preparation::begin(2, 2);
    let mut seen = Vec::new();
    while calls.step != PrepareStep::Done {
        seen.push(calls.step);
        calls = calls.next();
    }
    assert_eq!(
        seen,
        vec![
            PrepareStep::StartAlpha { at: 0 },
            PrepareStep::StartAlpha { at: 1 },
            PrepareStep::BeforeInit { at: 0 },
            PrepareStep::InitAsset { at: 0 },
            PrepareStep::AfterInit { at: 0 },
            PrepareStep::BeforeInit { at: 1 },
            PrepareStep::InitAsset { at: 1 },
            PrepareStep::AfterInit { at: 1 },
            PrepareStep::InitAlpha { asset: 0, alpha: 0 },
            PrepareStep::InitAlpha { asset: 0, alpha: 1 },
            PrepareStep::InitAlpha { asset: 1, alpha: 0 },
            PrepareStep::InitAlpha { asset: 1, alpha: 1 },
        ]
    );
    assert_eq!(Preparation::begin(1, 0).next().step, PrepareStep::Done);
    assert_eq!(Preparation::begin(0, 1).step, PrepareStep::BeforeInit { at: 0 });
}

#[test]
fn a_backtest_goes_through_its_stages() {
    let mut run = Backtest::start();
    assert_eq!(run.status, StrategyStatus::Initialised);
    run = run.next(BacktestReply::Done).next(BacktestReply::Done);
    assert_eq!(run.phase, BacktestPhase::LoadUniverse);
    run = run.next(BacktestReply::Loaded { alphas: 1, assets: 1 });
    let mut calls = 0;
    while let BacktestPhase::Prepare { .. } = run.phase {
        run = run.next(BacktestReply::Done);
        calls += 1;
    }
    assert_eq!(calls, 5);
    let mut seen = vec![run.phase];
    for reply in [
        BacktestReply::Done,
        BacktestReply::Stepped { tradable: true },
        BacktestReply::Handled { active: 2 },
        BacktestReply::Done,
        BacktestReply::Done,
        BacktestReply::Done,
        BacktestReply::EndOfData,
        BacktestReply::Done,
        BacktestReply::Closing { requests: 1 },
        BacktestReply::Done,
        BacktestReply::Closing { requests: 0 },
        BacktestReply::Done,
        BacktestReply::Done,
    ] {
        run = run.next(reply);
        seen.push(run.phase);
    }
    assert_eq!(
        seen,
        vec![
            BacktestPhase::LoadStreams,
            BacktestPhase::Step,
            BacktestPhase::Events { tradable: true },
            BacktestPhase::Manage { at: 0, active: 2 },
            BacktestPhase::Manage { at: 1, active: 2 },
            BacktestPhase::Pipeline,
            BacktestPhase::Step,
            BacktestPhase::TearDown,
            BacktestPhase::CloseOut,
            BacktestPhase::Drain,
            BacktestPhase::CloseOut,
            BacktestPhase::Finish,
            BacktestPhase::HandBack { failed: false },
            BacktestPhase::Completed,
        ]
    );
    assert_eq!(run.status, StrategyStatus::Completed);
}

#[test]
fn a_backtest_that_fails_hands_the_strategy_back() {
    let lost = Backtest::start().next(BacktestReply::Error);
    assert_eq!(lost.phase, BacktestPhase::HandBack { failed: true });
    assert_eq!(lost.next(BacktestReply::Done).phase, BacktestPhase::Failed);
    assert_eq!(lost.next(BacktestReply::Done).next(BacktestReply::Done).phase, BacktestPhase::Failed);
    let empty = Backtest::start()
        .next(BacktestReply::Done)
        .next(BacktestReply::Done)
        .next(BacktestReply::Loaded { alphas: 3, assets: 0 });
    assert_eq!(empty.phase, BacktestPhase::HandBack { failed: true });
}

#[test]
fn results_are_summed_up() {
    let lines = summary_lines(
        vec!["Return: 1%".to_string()],
        3,
        vec!["Closed=3".to_string()],
        &Some("results/run.json".to_string()),
    );
    assert_eq!(lines[0], "Return: 1%");
    assert!(lines.iter().any(|line| line.contains("results/run.json")));
}
