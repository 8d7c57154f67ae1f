//! The course of a backtest.
use vstd::prelude::*;
use vstd::string::StringExecFns;

use crate::lifecycle::{
    call_at, calls_come_in_order, prepared, preparation_begun, preparation_next, PrepareStep,
    Preparation,
};
use crate::text::{decimal, decimal_text, option_view};
use crate::types::{torn_down, StrategyStatus};

verus! {

/// What a backtest does at the moment.
#[derive(Clone, Copy, Debug, PartialEq, Eq, Structural)]
pub enum BacktestPhase {
    /// It connects to the broker.
    Connect,
    /// It starts the strategy.
    StartStrategy,
    /// It looks up what the strategy trades.
    LoadUniverse,
    /// It starts and sets up the models and the strategy, call by call.
    Prepare { calls: Preparation },
    /// It reads the data.
    LoadStreams,
    /// It takes the next step of the market.
    Step,
    /// It hands the events of a step to the strategy. Says whether one of them may be traded on.
    Events { tradable: bool },
    /// It asks the strategy about the active insight at `at`, of so many.
    Manage { at: usize, active: usize },
    /// It works on the insights.
    Pipeline,
    /// It tears the strategy down.
    TearDown,
    /// It closes what is still open, at the last prices.
    CloseOut,
    /// It takes in what the closing brought about.
    Drain,
    /// It disconnects.
    Finish,
    /// It hands the strategy back. Says whether the backtest failed.
    HandBack { failed: bool },
    /// It is done.
    Completed,
    /// It failed.
    Failed,
}

/// What came of a phase.
#[derive(Clone, Copy, Debug, PartialEq, Eq, Structural)]
pub enum BacktestReply {
    /// It was done.
    Done,
    /// It could not be done.
    Error,
    /// So many assets can be traded, and the strategy has so many models.
    Loaded { alphas: usize, assets: usize },
    /// Somebody at the terminal wants to stop.
    StopRequested,
    /// The market took a step. Says whether its events may be traded on.
    Stepped { tradable: bool },
    /// The strategy has seen the events, and so many insights are active.
    Handled { active: usize },
    /// The data has come to its end.
    EndOfData,
    /// So many positions are being closed.
    Closing { requests: usize },
}

/// A backtest.
#[derive(Clone, Copy, Debug, PartialEq, Eq, Structural)]
pub struct Backtest {
    pub phase: BacktestPhase,
    pub status: StrategyStatus,
}

/// The phase in which the strategy is set up, or the one behind it.
pub open spec fn preparing(calls: Preparation) -> BacktestPhase {
    if calls.step is Done {
        BacktestPhase::LoadStreams
    } else {
        BacktestPhase::Prepare { calls }
    }
}

/// The phase in which the strategy is asked about the active insights from `at` on.
pub open spec fn managing(at: int, active: usize) -> BacktestPhase {
    if at < active {
        BacktestPhase::Manage { at: at as usize, active }
    } else {
        BacktestPhase::Pipeline
    }
}

/// A backtest after `reply` came of its phase.
pub open spec fn backtest_next(b: Backtest, reply: BacktestReply) -> Backtest {
    let at = |phase: BacktestPhase| Backtest { phase, ..b };
    match (b.phase, reply) {
        (BacktestPhase::Completed, _) => b,
        (BacktestPhase::Failed, _) => b,
        (BacktestPhase::HandBack { failed }, _) => if failed {
            at(BacktestPhase::Failed)
        } else {
            Backtest { phase: BacktestPhase::Completed, status: StrategyStatus::Completed }
        },
        (_, BacktestReply::Error) => at(BacktestPhase::HandBack { failed: true }),
        (BacktestPhase::Connect, BacktestReply::Done) => Backtest {
            phase: BacktestPhase::StartStrategy,
            status: StrategyStatus::Running,
        },
        (BacktestPhase::StartStrategy, BacktestReply::Done) => at(BacktestPhase::LoadUniverse),
        (BacktestPhase::LoadUniverse, BacktestReply::Loaded { alphas, assets }) => if assets == 0 {
            at(BacktestPhase::HandBack { failed: true })
        } else {
            at(preparing(preparation_begun(alphas, assets)))
        },
        (BacktestPhase::Prepare { calls }, BacktestReply::Done) => at(
            preparing(preparation_next(calls)),
        ),
        (BacktestPhase::LoadStreams, BacktestReply::Done) => at(BacktestPhase::Step),
        (BacktestPhase::Step, BacktestReply::StopRequested) => Backtest {
            phase: BacktestPhase::TearDown,
            status: torn_down(b.status),
        },
        (BacktestPhase::Step, BacktestReply::EndOfData) => Backtest {
            phase: BacktestPhase::TearDown,
            status: torn_down(b.status),
        },
        (BacktestPhase::Step, BacktestReply::Stepped { tradable }) => at(
            BacktestPhase::Events { tradable },
        ),
        (BacktestPhase::Events { tradable }, BacktestReply::Handled { active }) => at(
            if tradable {
                managing(0, active)
            } else {
                BacktestPhase::Step
            },
        ),
        (BacktestPhase::Manage { at: k, active }, BacktestReply::Done) => at(
            managing(k + 1, active),
        ),
        (BacktestPhase::Pipeline, BacktestReply::Done) => at(BacktestPhase::Step),
        (BacktestPhase::TearDown, BacktestReply::Done) => at(BacktestPhase::CloseOut),
        (BacktestPhase::CloseOut, BacktestReply::Closing { requests }) => at(
            if requests == 0 {
                BacktestPhase::Finish
            } else {
                BacktestPhase::Drain
            },
        ),
        (BacktestPhase::Drain, BacktestReply::Done) => at(BacktestPhase::CloseOut),
        (BacktestPhase::Finish, BacktestReply::Done) => at(
            BacktestPhase::HandBack { failed: false },
        ),
        _ => b,
    }
}

impl Backtest {
    /// Whether the calls and insights that the phase names are there.
    pub open spec fn wf(self) -> bool {
        match self.phase {
            BacktestPhase::Prepare { calls } => calls.wf() && !(calls.step is Done),
            BacktestPhase::Manage { at, active } => at < active,
            _ => true,
        }
    }

    /// A backtest that has not begun.
    pub fn start() -> (r: Backtest)
        ensures
            r == (Backtest { phase: BacktestPhase::Connect, status: StrategyStatus::Initialised }),
            r.wf(),
    {
        Backtest { phase: BacktestPhase::Connect, status: StrategyStatus::Initialised }
    }

    fn at(self, phase: BacktestPhase) -> (r: Backtest)
        ensures
            r == (Backtest { phase, ..self }),
    {
        Backtest { phase, status: self.status }
    }

    fn prepare(self, calls: Preparation) -> (r: Backtest)
        ensures
            r == (Backtest { phase: preparing(calls), ..self }),
    {
        if calls.step == PrepareStep::Done {
            self.at(BacktestPhase::LoadStreams)
        } else {
            self.at(BacktestPhase::Prepare { calls })
        }
    }

    fn manage(self, at: usize, active: usize) -> (r: Backtest)
        ensures
            r == (Backtest { phase: managing(at as int, active), ..self }),
    {
        if at < active {
            self.at(BacktestPhase::Manage { at, active })
        } else {
            self.at(BacktestPhase::Pipeline)
        }
    }

    fn tear_down(self) -> (r: Backtest)
        ensures
            r == (Backtest { phase: BacktestPhase::TearDown, status: torn_down(self.status) }),
    {
        Backtest {
            phase: BacktestPhase::TearDown,
            status: crate::types::begin_teardown(self.status),
        }
    }

    /// The backtest after `reply` came of its phase.
    pub fn next(self, reply: BacktestReply) -> (r: Backtest)
        requires
            self.wf(),
        ensures
            r == backtest_next(self, reply),
            r.wf(),
    {
        match (self.phase, reply) {
            (BacktestPhase::Completed, _) => self,
            (BacktestPhase::Failed, _) => self,
            (BacktestPhase::HandBack { failed }, _) => {
                if failed {
                    self.at(BacktestPhase::Failed)
                } else {
                    Backtest { phase: BacktestPhase::Completed, status: StrategyStatus::Completed }
                }
            },
            (_, BacktestReply::Error) => self.at(BacktestPhase::HandBack { failed: true }),
            (BacktestPhase::Connect, BacktestReply::Done) => Backtest {
                phase: BacktestPhase::StartStrategy,
                status: StrategyStatus::Running,
            },
            (BacktestPhase::StartStrategy, BacktestReply::Done) => self.at(
                BacktestPhase::LoadUniverse,
            ),
            (BacktestPhase::LoadUniverse, BacktestReply::Loaded { alphas, assets }) => {
                if assets == 0 {
                    self.at(BacktestPhase::HandBack { failed: true })
                } else {
                    self.prepare(Preparation::begin(alphas, assets))
                }
            },
            (BacktestPhase::Prepare { calls }, BacktestReply::Done) => self.prepare(calls.next()),
            (BacktestPhase::LoadStreams, BacktestReply::Done) => self.at(BacktestPhase::Step),
            (BacktestPhase::Step, BacktestReply::StopRequested) => self.tear_down(),
            (BacktestPhase::Step, BacktestReply::EndOfData) => self.tear_down(),
            (BacktestPhase::Step, BacktestReply::Stepped { tradable }) => self.at(
                BacktestPhase::Events { tradable },
            ),
            (BacktestPhase::Events { tradable }, BacktestReply::Handled { active }) => {
                if tradable {
                    self.manage(0, active)
                } else {
                    self.at(BacktestPhase::Step)
                }
            },
            (BacktestPhase::Manage { at, active }, BacktestReply::Done) => self.manage(
                at + 1,
                active,
            ),
            (BacktestPhase::Pipeline, BacktestReply::Done) => self.at(BacktestPhase::Step),
            (BacktestPhase::TearDown, BacktestReply::Done) => self.at(BacktestPhase::CloseOut),
            (BacktestPhase::CloseOut, BacktestReply::Closing { requests }) => self.at(
                if requests == 0 {
                    BacktestPhase::Finish
                } else {
                    BacktestPhase::Drain
                },
            ),
            (BacktestPhase::Drain, BacktestReply::Done) => self.at(BacktestPhase::CloseOut),
            (BacktestPhase::Finish, BacktestReply::Done) => self.at(
                BacktestPhase::HandBack { failed: false },
            ),
            _ => self,
        }
    }
}

/// A backtest after replies came one after the other.
pub open spec fn backtest_after(b: Backtest, replies: Seq<BacktestReply>) -> Backtest
    decreases replies.len(),
{
    if replies.len() == 0 {
        b
    } else {
        backtest_next(backtest_after(b, replies.drop_last()), replies.last())
    }
}

/// How far a backtest has come, as a number that only grows.
pub open spec fn stage(phase: BacktestPhase) -> int {
    match phase {
        BacktestPhase::Connect => 0,
        BacktestPhase::StartStrategy => 1,
        BacktestPhase::LoadUniverse => 2,
        BacktestPhase::Prepare { .. } => 3,
        BacktestPhase::LoadStreams => 4,
        BacktestPhase::Step
        | BacktestPhase::Events { .. }
        | BacktestPhase::Manage { .. }
        | BacktestPhase::Pipeline => 5,
        BacktestPhase::TearDown => 6,
        BacktestPhase::CloseOut | BacktestPhase::Drain => 7,
        BacktestPhase::Finish => 8,
        BacktestPhase::HandBack { .. } => 9,
        BacktestPhase::Completed | BacktestPhase::Failed => 10,
    }
}

/// The stages of a backtest come one after the other, and none is passed over except by a failure,
/// which hands the strategy back: a strategy that was started is torn down before the results are
/// made up.
pub proof fn stages_come_in_order(b: Backtest, reply: BacktestReply)
    requires
        b.wf(),
    ensures
        stage(b.phase) <= stage(backtest_next(b, reply).phase),
        backtest_next(b, reply).phase != (BacktestPhase::HandBack { failed: true }) ==> stage(
            backtest_next(b, reply).phase,
        ) <= stage(b.phase) + 1,
{
}

/// So many replies that a call was made.
pub open spec fn calls_made(n: nat) -> Seq<BacktestReply> {
    Seq::new(n, |i: int| BacktestReply::Done)
}

/// While a strategy is set up the calls come in their order: every model starts; then, asset by
/// asset, comes what was asked for before the strategy is set up, the strategy, and what was asked
/// for after it; then, asset by asset, every model is set up; and then the data is read.
pub proof fn preparations_come_in_order(b: Backtest, alphas: usize, assets: usize, n: nat)
    requires
        b.phase is LoadUniverse,
        assets > 0,
        n <= alphas + 3 * assets + assets * alphas,
    ensures
        backtest_after(
            backtest_next(b, BacktestReply::Loaded { alphas, assets }),
            calls_made(n),
        ).phase == (if n < alphas + 3 * assets + assets * alphas {
            BacktestPhase::Prepare {
                calls: Preparation { alphas, assets, step: call_at(alphas, assets, n as int) },
            }
        } else {
            BacktestPhase::LoadStreams
        }),
    decreases n,
{
    calls_come_in_order(alphas, assets, n);
    assert(0 <= assets * alphas) by (nonlinear_arith)
        requires
            0 <= assets,
            0 <= alphas,
    ;
    let loaded = backtest_next(b, BacktestReply::Loaded { alphas, assets });
    if n > 0 {
        preparations_come_in_order(b, alphas, assets, (n - 1) as nat);
        calls_come_in_order(alphas, assets, (n - 1) as nat);
        assert(calls_made(n).drop_last() =~= calls_made((n - 1) as nat));
        assert(prepared(alphas, assets, n) == preparation_next(
            prepared(alphas, assets, (n - 1) as nat),
        ));
    }
}

/// After the strategy has seen the events of a step that may be traded on, it is asked about each
/// active insight, one after the other, and then the insights are worked on.
pub proof fn every_active_insight_is_asked_about(b: Backtest, active: usize, n: nat)
    requires
        b.phase == (BacktestPhase::Events { tradable: true }),
        n <= active,
    ensures
        backtest_after(backtest_next(b, BacktestReply::Handled { active }), calls_made(n)).phase
            == managing(n as int, active),
    decreases n,
{
    if n > 0 {
        every_active_insight_is_asked_about(b, active, (n - 1) as nat);
        assert(calls_made(n).drop_last() =~= calls_made((n - 1) as nat));
    }
}

/// The strategy is asked about insights, and the insights are worked on, only after a step with
/// events that may be traded on.
pub proof fn insights_follow_tradable_events(b: Backtest, reply: BacktestReply)
    requires
        backtest_next(b, reply).phase is Pipeline || backtest_next(b, reply).phase is Manage,
        !(b.phase is Pipeline) && !(b.phase is Manage),
    ensures
        b.phase == (BacktestPhase::Events { tradable: true }),
{
}

/// The market is left for the teardown only at a step, where the data has come to its end or somebody
/// wants to stop, and the teardown begins then.
pub proof fn markets_are_left_only_at_their_end(b: Backtest, reply: BacktestReply)
    requires
        b.wf(),
    ensures
        backtest_next(b, reply).phase is TearDown && !(b.phase is TearDown) ==> b.phase is Step && (
        reply is EndOfData || reply is StopRequested),
        b.phase is Step && (reply is EndOfData || reply is StopRequested) ==> backtest_next(
            b,
            reply,
        ).phase is TearDown && (b.status is Running ==> backtest_next(b, reply).status is Stopping),
{
}

/// Events that may not be traded on lead back to the next step of the market, as does the work on the
/// insights after those that may: while nothing fails, a backtest comes back to the market, as often
/// as it takes, and its status stays.
pub proof fn backtests_come_back_to_the_market(b: Backtest, tradable: bool, active: usize)
    requires
        b.phase is Step,
    ensures
        ({
            let stepped = backtest_next(b, BacktestReply::Stepped { tradable });
            let handled = backtest_next(stepped, BacktestReply::Handled { active });
            let asked = backtest_after(handled, calls_made(active as nat));
            &&& stepped.phase == (BacktestPhase::Events { tradable })
            &&& stepped.status == b.status
            &&& !tradable ==> handled == b
            &&& tradable ==> asked.phase is Pipeline && asked.status == b.status && backtest_next(
                asked,
                BacktestReply::Done,
            ) == b
        }),
{
    let stepped = backtest_next(b, BacktestReply::Stepped { tradable });
    if tradable {
        every_active_insight_is_asked_about(stepped, active, active as nat);
        asking_keeps_the_status(
            backtest_next(stepped, BacktestReply::Handled { active }),
            active as nat,
        );
    }
}

proof fn asking_keeps_the_status(b: Backtest, n: nat)
    requires
        b.phase is Manage || b.phase is Pipeline,
        b.phase matches BacktestPhase::Manage { at, active } ==> at == 0 && n <= active,
        b.phase is Pipeline ==> n == 0,
    ensures
        backtest_after(b, calls_made(n)).status == b.status,
        n > 0 ==> backtest_after(b, calls_made(n)).phase == managing(
            n as int,
            b.phase->Manage_active,
        ),
    decreases n,
{
    if n > 0 {
        asking_keeps_the_status(b, (n - 1) as nat);
        assert(calls_made(n).drop_last() =~= calls_made((n - 1) as nat));
        if n == 1 {
            assert(calls_made(0) =~= Seq::<BacktestReply>::empty());
        }
    }
}

/// What begins a backtest: the broker is connected, the strategy starts, says what it trades, is set
/// up, and the data is read; then the market takes its first step. The strategy runs from the start
/// on. With nothing to trade the backtest fails.
pub proof fn backtests_begin_in_order(alphas: usize, assets: usize)
    ensures
        ({
            let begun = Backtest {
                phase: BacktestPhase::Connect,
                status: StrategyStatus::Initialised,
            };
            let connected = backtest_next(begun, BacktestReply::Done);
            let started = backtest_next(connected, BacktestReply::Done);
            let loaded = backtest_next(started, BacktestReply::Loaded { alphas, assets });
            &&& connected.phase is StartStrategy
            &&& connected.status is Running
            &&& started.phase is LoadUniverse
            &&& started.status is Running
            &&& assets == 0 ==> loaded.phase == (BacktestPhase::HandBack { failed: true })
            &&& assets > 0 ==> loaded.phase is Prepare && loaded.status is Running
        }),
        forall|b: Backtest|
            (#[trigger] b.phase) is LoadStreams ==> backtest_next(b, BacktestReply::Done).phase
                is Step && backtest_next(b, BacktestReply::Done).status == b.status,
{
}

/// After the teardown what is open is closed for as long as anything is: each round takes in what it
/// brought about. Then the backtest is finished, hands the strategy back, and is completed.
pub proof fn backtests_end_in_order(b: Backtest, requests: usize)
    requires
        b.phase is TearDown,
    ensures
        ({
            let closing = backtest_next(b, BacktestReply::Done);
            let asked = backtest_next(closing, BacktestReply::Closing { requests });
            let finished = backtest_next(closing, BacktestReply::Closing { requests: 0 });
            let handed = backtest_next(finished, BacktestReply::Done);
            &&& closing.phase is CloseOut
            &&& requests > 0 ==> asked.phase is Drain && backtest_next(asked, BacktestReply::Done)
                == closing
            &&& finished.phase is Finish
            &&& handed.phase == (BacktestPhase::HandBack { failed: false })
            &&& backtest_next(handed, BacktestReply::Done).phase is Completed
            &&& backtest_next(handed, BacktestReply::Done).status is Completed
        }),
{
}

/// What fails ends a backtest: it hands the strategy back and has failed, whatever it did. One that
/// has ended stays so, and none is completed in any other way.
pub proof fn failures_end_backtests(b: Backtest, reply: BacktestReply)
    ensures
        !(b.phase is HandBack) && !ended(b) ==> backtest_next(b, BacktestReply::Error).phase == (
        BacktestPhase::HandBack { failed: true }),
        b.phase == (BacktestPhase::HandBack { failed: true }) ==> backtest_next(b, reply).phase
            is Failed,
        b.phase is Completed || b.phase is Failed ==> backtest_next(b, reply) == b,
        backtest_next(b, reply).phase is Completed && !(b.phase is Completed) ==> b.phase == (
        BacktestPhase::HandBack { failed: false }),
        backtest_next(b, reply).phase is Failed && !(b.phase is Failed) ==> b.phase == (
        BacktestPhase::HandBack { failed: true }),
{
}

/// Whether a backtest has come to its end.
pub open spec fn ended(b: Backtest) -> bool {
    b.phase is Completed || b.phase is Failed
}

/// However a backtest ends, it handed the strategy back before.
pub proof fn every_end_hands_the_strategy_back(b: Backtest, replies: Seq<BacktestReply>)
    requires
        !ended(b),
        ended(backtest_after(b, replies)),
    ensures
        exists|n: int|
            0 <= n < replies.len() && (#[trigger] backtest_after(b, replies.take(n))).phase
                is HandBack,
    decreases replies.len(),
{
    let before = replies.drop_last();
    if ended(backtest_after(b, before)) {
        every_end_hands_the_strategy_back(b, before);
        let n = choose|n: int|
            0 <= n < before.len() && (#[trigger] backtest_after(b, before.take(n))).phase
                is HandBack;
        assert(before.take(n) =~= replies.take(n));
    } else {
        assert(replies.take(replies.len() - 1) =~= before);
    }
}

/// Whether the status of a backtest fits its phase.
pub open spec fn sound_backtest(b: Backtest) -> bool {
    match b.phase {
        BacktestPhase::Connect => b.status == StrategyStatus::Initialised,
        BacktestPhase::StartStrategy
        | BacktestPhase::LoadUniverse
        | BacktestPhase::Prepare { .. }
        | BacktestPhase::LoadStreams
        | BacktestPhase::Step
        | BacktestPhase::Events { .. }
        | BacktestPhase::Manage { .. }
        | BacktestPhase::Pipeline => b.status == StrategyStatus::Running,
        BacktestPhase::TearDown
        | BacktestPhase::CloseOut
        | BacktestPhase::Drain
        | BacktestPhase::Finish => b.status == StrategyStatus::Stopping,
        BacktestPhase::HandBack { failed } => !failed ==> b.status == StrategyStatus::Stopping,
        BacktestPhase::Completed => b.status == StrategyStatus::Completed,
        BacktestPhase::Failed => true,
    }
}

/// A backtest runs from its start to its teardown, is stopping from there on, and is completed once
/// its results are made up, whatever happens.
pub proof fn backtests_stay_sound(replies: Seq<BacktestReply>)
    ensures
        sound_backtest(
            backtest_after(
                Backtest { phase: BacktestPhase::Connect, status: StrategyStatus::Initialised },
                replies,
            ),
        ),
    decreases replies.len(),
{
    if replies.len() > 0 {
        backtests_stay_sound(replies.drop_last());
    }
}

/// The lines that sum a backtest up: its figures, the number of insights, their states, and where
/// the results were saved.
pub open spec fn summary(
    figures: Seq<Seq<char>>,
    insights: nat,
    states: Seq<Seq<char>>,
    saved: Option<Seq<char>>,
) -> Seq<Seq<char>> {
    figures + seq!["Insights generated: "@ + decimal(insights)] + states + (match saved {
        Some(path) => seq!["RESULTS_SAVED_TO: "@ + path],
        None => Seq::empty(),
    })
}

/// The models of texts.
pub open spec fn text_views(items: Seq<String>) -> Seq<Seq<char>> {
    items.map_values(|s: String| s@)
}

/// The lines that sum a backtest up.
pub fn summary_lines(
    figures: Vec<String>,
    insights: usize,
    states: Vec<String>,
    saved: &Option<String>,
) -> (r: Vec<String>)
    ensures
        text_views(r@) == summary(
            text_views(figures@),
            insights as nat,
            text_views(states@),
            option_view(*saved),
        ),
{
    let ghost first = text_views(figures@);
    let ghost third = text_views(states@);
    let mut lines = figures;
    let mut count = "Insights generated: ".to_owned();
    count.append(decimal_text(insights as u64).as_str());
    let ghost second = count@;
    lines.push(count);
    proof {
        assert(text_views(lines@) =~= first + seq![second]);
    }
    let mut rest = states;
    lines.append(&mut rest);
    proof {
        assert(text_views(lines@) =~= first + seq![second] + third);
    }
    match saved {
        Some(path) => {
            let mut line = "RESULTS_SAVED_TO: ".to_owned();
            line.append(path.as_str());
            let ghost last = line@;
            lines.push(line);
            proof {
                assert(text_views(lines@) =~= first + seq![second] + third + seq![last]);
            }
        },
        None => {
            proof {
                assert(first + seq![second] + third + Seq::<Seq<char>>::empty() =~= first
                    + seq![second] + third);
            }
        },
    }
    lines
}

/// A backtest begins by connecting, with a strategy that has only been set up.
pub proof fn backtests_begin_by_connecting(r: Backtest)
    requires
        call_ensures(Backtest::start, (), r),
    ensures
        r.phase is Connect,
        r.status is Initialised,
{
}

} // verus!
