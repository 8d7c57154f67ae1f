//! How a live run does: its trades, its open positions, and the figures that are written of them.
use vstd::prelude::*;

use crate::collection::InsightCollection;
use crate::events::listed_grown;
use crate::insight::{Insight, InsightState, InsightView, OrderSide};
use crate::number::Number;
use crate::table::{value_at, Table};
use crate::text::{listed, text_eq};
use crate::time::{nanos_between, seconds_between, whole_seconds, UtcTime};
use crate::universe::{insert_symbol, strictly_sorted};

verus! {

/// The figures of a live run that are computed in floating point.
#[derive(Clone, Copy, Debug)]
pub struct LiveFigures {
    pub starting_cash: Number,
    pub final_equity: Number,
    pub total_return: Number,
    pub total_return_pct: Number,
    pub win_rate: Number,
    pub max_drawdown: Number,
    pub sharpe_ratio: Number,
    pub expectancy: Number,
    pub profit_factor: Number,
    pub payoff_ratio: Number,
    pub avg_winner: Number,
    pub avg_loser: Number,
    pub avg_winner_pct: Number,
    pub avg_loser_pct: Number,
    pub best_trade: Number,
    pub worst_trade: Number,
    pub consistency_score: Number,
    pub open_positions_unrealized_pnl: Number,
}

/// The counts of a live run.
#[derive(Clone, Copy, Debug, PartialEq, Eq, Structural)]
pub struct LiveCounts {
    pub total_trades: usize,
    pub winning_trades: usize,
    pub losing_trades: usize,
    pub longest_winning_trade_held_secs: i64,
    pub longest_losing_trade_held_secs: i64,
    pub average_trade_held_secs: i64,
    pub open_positions_count: usize,
    pub open_insights_count: usize,
    pub open_positions_profitable_count: usize,
    pub open_positions_losing_count: usize,
}

/// How a live run does at one time.
#[derive(Debug)]
pub struct LiveMetricsSnapshot {
    pub figures: LiveFigures,
    pub counts: LiveCounts,
    pub symbols: Vec<String>,
    pub executed_at: UtcTime,
    pub finished_at: Option<UtcTime>,
    pub updated_at: UtcTime,
}

/// How a live run does, as it is written to the cloud.
#[derive(Debug)]
pub struct StrategyLiveMetricsRecord {
    pub figures: LiveFigures,
    pub counts: LiveCounts,
    pub symbols: Vec<String>,
    pub executed_at: UtcTime,
    pub finished_at: Option<UtcTime>,
    pub updated_at: UtcTime,
}

/// Whether two lists hold the same texts in the same order.
pub open spec fn same_texts(a: Seq<String>, b: Seq<String>) -> bool {
    &&& a.len() == b.len()
    &&& forall|i: int| 0 <= i < a.len() ==> (#[trigger] a[i])@ == b[i]@
}

fn texts_equal(a: &Vec<String>, b: &Vec<String>) -> (r: bool)
    ensures
        r == same_texts(a@, b@),
{
    if a.len() != b.len() {
        return false;
    }
    let mut i: usize = 0;
    while i < a.len()
        invariant
            i <= a.len(),
            a.len() == b.len(),
            forall|k: int| 0 <= k < i ==> (#[trigger] a@[k])@ == b@[k]@,
        decreases a.len() - i,
    {
        if !text_eq(a[i].as_str(), b[i].as_str()) {
            return false;
        }
        i = i + 1;
    }
    true
}

fn copy_texts(a: &Vec<String>) -> (r: Vec<String>)
    ensures
        same_texts(a@, r@),
{
    let mut out: Vec<String> = Vec::new();
    let mut i: usize = 0;
    while i < a.len()
        invariant
            i <= a.len(),
            out.len() == i,
            forall|k: int| 0 <= k < i ==> (#[trigger] a@[k])@ == out@[k]@,
        decreases a.len() - i,
    {
        out.push(a[i].clone());
        i = i + 1;
    }
    out
}

/// Whether two sets of figures compare equal.
pub open spec fn same_figures(a: LiveFigures, b: LiveFigures) -> bool {
    &&& a.starting_cash.eq_value(b.starting_cash)
    &&& a.final_equity.eq_value(b.final_equity)
    &&& a.total_return.eq_value(b.total_return)
    &&& a.total_return_pct.eq_value(b.total_return_pct)
    &&& a.win_rate.eq_value(b.win_rate)
    &&& a.max_drawdown.eq_value(b.max_drawdown)
    &&& a.sharpe_ratio.eq_value(b.sharpe_ratio)
    &&& a.expectancy.eq_value(b.expectancy)
    &&& a.profit_factor.eq_value(b.profit_factor)
    &&& a.payoff_ratio.eq_value(b.payoff_ratio)
    &&& a.avg_winner.eq_value(b.avg_winner)
    &&& a.avg_loser.eq_value(b.avg_loser)
    &&& a.avg_winner_pct.eq_value(b.avg_winner_pct)
    &&& a.avg_loser_pct.eq_value(b.avg_loser_pct)
    &&& a.best_trade.eq_value(b.best_trade)
    &&& a.worst_trade.eq_value(b.worst_trade)
    &&& a.consistency_score.eq_value(b.consistency_score)
    &&& a.open_positions_unrealized_pnl.eq_value(b.open_positions_unrealized_pnl)
}

fn figures_equal(a: &LiveFigures, b: &LiveFigures) -> (r: bool)
    ensures
        r == same_figures(*a, *b),
{
    a.starting_cash.equals(b.starting_cash)
        && a.final_equity.equals(b.final_equity)
        && a.total_return.equals(b.total_return)
        && a.total_return_pct.equals(b.total_return_pct)
        && a.win_rate.equals(b.win_rate)
        && a.max_drawdown.equals(b.max_drawdown)
        && a.sharpe_ratio.equals(b.sharpe_ratio)
        && a.expectancy.equals(b.expectancy)
        && a.profit_factor.equals(b.profit_factor)
        && a.payoff_ratio.equals(b.payoff_ratio)
        && a.avg_winner.equals(b.avg_winner)
        && a.avg_loser.equals(b.avg_loser)
        && a.avg_winner_pct.equals(b.avg_winner_pct)
        && a.avg_loser_pct.equals(b.avg_loser_pct)
        && a.best_trade.equals(b.best_trade)
        && a.worst_trade.equals(b.worst_trade)
        && a.consistency_score.equals(b.consistency_score)
        && a.open_positions_unrealized_pnl.equals(b.open_positions_unrealized_pnl)
}

/// Whether every figure is a number.
pub open spec fn all_numbers(f: LiveFigures) -> bool {
    &&& !f.starting_cash.is_nan()
    &&& !f.final_equity.is_nan()
    &&& !f.total_return.is_nan()
    &&& !f.total_return_pct.is_nan()
    &&& !f.win_rate.is_nan()
    &&& !f.max_drawdown.is_nan()
    &&& !f.sharpe_ratio.is_nan()
    &&& !f.expectancy.is_nan()
    &&& !f.profit_factor.is_nan()
    &&& !f.payoff_ratio.is_nan()
    &&& !f.avg_winner.is_nan()
    &&& !f.avg_loser.is_nan()
    &&& !f.avg_winner_pct.is_nan()
    &&& !f.avg_loser_pct.is_nan()
    &&& !f.best_trade.is_nan()
    &&& !f.worst_trade.is_nan()
    &&& !f.consistency_score.is_nan()
    &&& !f.open_positions_unrealized_pnl.is_nan()
}

/// Whether two snapshots compare equal.
pub open spec fn same_snapshot(a: LiveMetricsSnapshot, b: LiveMetricsSnapshot) -> bool {
    &&& same_figures(a.figures, b.figures)
    &&& a.counts == b.counts
    &&& same_texts(a.symbols@, b.symbols@)
    &&& a.executed_at == b.executed_at
    &&& a.finished_at == b.finished_at
    &&& a.updated_at == b.updated_at
}

fn times_equal(a: Option<UtcTime>, b: Option<UtcTime>) -> (r: bool)
    ensures
        r == (a == b),
{
    match (a, b) {
        (Some(a), Some(b)) => a == b,
        (None, None) => true,
        _ => false,
    }
}

impl LiveMetricsSnapshot {
    /// Whether two snapshots compare equal.
    pub fn equals(&self, other: &LiveMetricsSnapshot) -> (r: bool)
        ensures
            r == same_snapshot(*self, *other),
    {
        figures_equal(&self.figures, &other.figures) && self.counts == other.counts && texts_equal(
            &self.symbols,
            &other.symbols,
        ) && self.executed_at == other.executed_at && times_equal(
            self.finished_at,
            other.finished_at,
        ) && self.updated_at == other.updated_at
    }

    /// A copy of the snapshot.
    pub fn duplicate(&self) -> (r: LiveMetricsSnapshot)
        ensures
            copies(*self, r),
    {
        LiveMetricsSnapshot {
            figures: self.figures,
            counts: self.counts,
            symbols: copy_texts(&self.symbols),
            executed_at: self.executed_at,
            finished_at: self.finished_at,
            updated_at: self.updated_at,
        }
    }
}

/// Whether `b` holds what `a` holds.
pub open spec fn copies(a: LiveMetricsSnapshot, b: LiveMetricsSnapshot) -> bool {
    &&& a.figures == b.figures
    &&& a.counts == b.counts
    &&& same_texts(a.symbols@, b.symbols@)
    &&& a.executed_at == b.executed_at
    &&& a.finished_at == b.finished_at
    &&& a.updated_at == b.updated_at
}

impl StrategyLiveMetricsRecord {
    /// The record of a snapshot.
    pub fn of(value: LiveMetricsSnapshot) -> (r: StrategyLiveMetricsRecord)
        ensures
            r == (StrategyLiveMetricsRecord {
                figures: value.figures,
                counts: value.counts,
                symbols: value.symbols,
                executed_at: value.executed_at,
                finished_at: value.finished_at,
                updated_at: value.updated_at,
            }),
    {
        StrategyLiveMetricsRecord {
            figures: value.figures,
            counts: value.counts,
            symbols: value.symbols,
            executed_at: value.executed_at,
            finished_at: value.finished_at,
            updated_at: value.updated_at,
        }
    }
}

/// What a run's accumulated sums give when they are divided, before it is asked whether there is
/// anything to divide by.
#[derive(Clone, Copy, Debug)]
pub struct RawFigures {
    pub total_return: Number,
    /// The total return in percent of the starting cash.
    pub return_pct: Number,
    pub sharpe_ratio: Number,
    /// The winning trades in percent of all trades.
    pub win_pct: Number,
    /// The total return divided by the number of trades.
    pub return_per_trade: Number,
    pub gross_profit: Number,
    pub gross_loss_abs: Number,
    /// The gross profit divided by the gross loss.
    pub profit_per_loss: Number,
    /// The average of the winning trades.
    pub winner_mean: Number,
    pub winner_pct_mean: Number,
    /// The average of the losing trades, a negative number.
    pub loser_mean: Number,
    pub loser_pct_mean: Number,
    /// The average winner divided by the size of the average loser.
    pub winner_per_loser: Number,
    pub open_positions_unrealized_pnl: Number,
}

/// `n` where there is anything that it is an average of, else zero.
pub open spec fn mean_of(count: usize, n: Number) -> Number {
    if count > 0 {
        n
    } else {
        Number::spec_zero()
    }
}

fn mean_if(count: usize, n: Number) -> (r: Number)
    ensures
        r == mean_of(count, n),
{
    if count > 0 {
        n
    } else {
        Number::zero()
    }
}

/// The gain for what was lost: their quotient, the gain itself where nothing was lost, and zero
/// where nothing was gained either.
pub open spec fn gain_ratio(gain: Number, lost: bool, quotient: Number) -> Number {
    if lost {
        quotient
    } else if Number::spec_zero().lt_value(gain) {
        gain
    } else {
        Number::spec_zero()
    }
}

fn gain_ratio_of(gain: Number, lost: bool, quotient: Number) -> (r: Number)
    ensures
        r == gain_ratio(gain, lost, quotient),
{
    if lost {
        quotient
    } else if Number::zero().less_than(gain) {
        gain
    } else {
        Number::zero()
    }
}

/// The bits of the number 100.
pub const HUNDRED: u64 = 0x4059_0000_0000_0000;

/// A score, brought within 0 and 100.
pub open spec fn clamped(score: Number) -> Number {
    if score.lt_value(Number::spec_zero()) {
        Number::spec_zero()
    } else if (Number { bits: HUNDRED }).lt_value(score) {
        Number { bits: HUNDRED }
    } else {
        score
    }
}

/// Whether a number is none below zero.
pub open spec fn not_negative(n: Number) -> bool {
    !n.is_nan() && !n.lt_value(Number::spec_zero())
}

/// Whether a number lies within 0 and 100.
pub open spec fn is_percentage(n: Number) -> bool {
    not_negative(n) && !(Number { bits: HUNDRED }).lt_value(n)
}

impl LiveFigures {
    /// The figures with a score, which is brought within 0 and 100.
    pub fn scored(self, score: Number) -> (r: LiveFigures)
        ensures
            r == (LiveFigures { consistency_score: clamped(score), ..self }),
    {
        let within = if score.less_than(Number::zero()) {
            Number::zero()
        } else if (Number { bits: HUNDRED }).less_than(score) {
            Number { bits: HUNDRED }
        } else {
            score
        };
        LiveFigures { consistency_score: within, ..self }
    }
}

/// The equity, trades and open positions of a live run.
#[derive(Debug)]
pub struct LivePerformanceTracker {
    pub starting_cash: Number,
    pub current_equity: Number,
    pub peak_equity: Number,
    /// How far the equity fell below its peak at most, in percent of the peak.
    pub max_drawdown: Number,
    pub previous_equity: Option<Number>,
    pub total_trades: usize,
    pub winning_trades: usize,
    pub losing_trades: usize,
    pub best_trade: Number,
    pub worst_trade: Number,
    pub sum_hold_secs: i64,
    pub longest_winning_trade_held_secs: i64,
    pub longest_losing_trade_held_secs: i64,
    pub open_positions_count: usize,
    pub open_insights_count: usize,
    pub open_positions_profitable_count: usize,
    pub open_positions_losing_count: usize,
    pub symbols: Vec<String>,
    pub executed_at: Option<UtcTime>,
    pub finished_at: Option<UtcTime>,
    pub updated_at: Option<UtcTime>,
    pub last_persisted: Option<LiveMetricsSnapshot>,
}

impl LivePerformanceTracker {
    /// Every trade is counted as won or as lost, none is held for less than no time, and the equity
    /// does not fall below its peak by less than nothing.
    pub open spec fn wf(&self) -> bool {
        &&& not_negative(self.max_drawdown)
        &&& self.winning_trades + self.losing_trades == self.total_trades
        &&& self.sum_hold_secs >= 0
        &&& 0 <= self.longest_winning_trade_held_secs <= self.sum_hold_secs
        &&& 0 <= self.longest_losing_trade_held_secs <= self.sum_hold_secs
    }

    /// Whether nothing was counted yet.
    pub open spec fn fresh(&self) -> bool {
        &&& self.max_drawdown == Number::spec_zero()
        &&& self.total_trades == 0
        &&& self.winning_trades == 0
        &&& self.losing_trades == 0
        &&& self.best_trade == Number::spec_zero()
        &&& self.worst_trade == Number::spec_zero()
        &&& self.sum_hold_secs == 0
        &&& self.longest_winning_trade_held_secs == 0
        &&& self.longest_losing_trade_held_secs == 0
        &&& self.open_positions_count == 0
        &&& self.open_insights_count == 0
        &&& self.open_positions_profitable_count == 0
        &&& self.open_positions_losing_count == 0
        &&& self.finished_at is None
        &&& self.last_persisted is None
    }

    /// A run that has not begun.
    pub fn new() -> (r: LivePerformanceTracker)
        ensures
            r.wf(),
            r.fresh(),
            r.symbols@.len() == 0,
            r.executed_at is None,
            r.updated_at is None,
            r.starting_cash == Number::spec_zero(),
            r.current_equity == Number::spec_zero(),
            r.peak_equity == Number::spec_zero(),
            r.previous_equity is None,
    {
        LivePerformanceTracker {
            starting_cash: Number::zero(),
            current_equity: Number::zero(),
            peak_equity: Number::zero(),
            max_drawdown: Number::zero(),
            previous_equity: None,
            total_trades: 0,
            winning_trades: 0,
            losing_trades: 0,
            best_trade: Number::zero(),
            worst_trade: Number::zero(),
            sum_hold_secs: 0,
            longest_winning_trade_held_secs: 0,
            longest_losing_trade_held_secs: 0,
            open_positions_count: 0,
            open_insights_count: 0,
            open_positions_profitable_count: 0,
            open_positions_losing_count: 0,
            symbols: Vec::new(),
            executed_at: None,
            finished_at: None,
            updated_at: None,
            last_persisted: None,
        }
    }

    /// Whether the run was begun anew with these funds, at `at`.
    pub open spec fn begun(&self, cash: Number, equity: Number, at: UtcTime) -> bool {
        &&& self.fresh()
        &&& self.starting_cash == cash
        &&& self.current_equity == equity
        &&& self.peak_equity == equity.larger(cash)
        &&& self.previous_equity == Some(equity)
        &&& self.executed_at == Some(at)
        &&& self.updated_at == Some(at)
    }

    /// Begins to count anew at `executed_at`.
    pub fn initialize(
        &mut self,
        starting_cash: Number,
        current_equity: Number,
        executed_at: UtcTime,
        symbols: Vec<String>,
    )
        ensures
            final(self).wf(),
            final(self).begun(starting_cash, current_equity, executed_at),
            final(self).symbols == symbols,
    {
        let mut next = LivePerformanceTracker::new();
        next.starting_cash = starting_cash;
        next.current_equity = current_equity;
        next.peak_equity = current_equity.larger_of(starting_cash);
        next.previous_equity = Some(current_equity);
        next.symbols = symbols;
        next.executed_at = Some(executed_at);
        next.updated_at = Some(executed_at);
        *self = next;
    }

    /// The peak of the equity, once it is `equity`.
    pub fn peak_with(&self, equity: Number) -> (r: Number)
        ensures
            r == self.peak_equity.larger(equity),
    {
        self.peak_equity.larger_of(equity)
    }

    /// Takes in the equity of the account, as it was read at `at`, where `drawdown` is how far it
    /// lies below the peak, in percent of the peak. A run that has not begun begins with it, and
    /// `true` is returned.
    pub fn update_equity(&mut self, equity: Number, drawdown: Number, at: UtcTime) -> (r: bool)
        requires
            old(self).wf(),
        ensures
            final(self).wf(),
            r == (old(self).executed_at is None),
            old(self).equity_read(*final(self), equity, drawdown, at),
            r ==> final(self).begun(equity, equity, at) && final(self).symbols@.len() == 0,
            !r ==> *final(self) == (LivePerformanceTracker {
                current_equity: equity,
                previous_equity: Some(equity),
                peak_equity: old(self).peak_equity.larger(equity),
                max_drawdown: if old(self).peak_equity.larger(equity).off_zero() {
                    old(self).max_drawdown.larger(drawdown)
                } else {
                    old(self).max_drawdown
                },
                updated_at: Some(at),
                ..*old(self)
            }),
    {
        match self.executed_at {
            None => {
                self.initialize(equity, equity, at, Vec::new());
                true
            },
            Some(_) => {
                self.current_equity = equity;
                self.previous_equity = Some(equity);
                self.peak_equity = self.peak_equity.larger_of(equity);
                if self.peak_equity.is_off_zero() {
                    self.max_drawdown = self.max_drawdown.larger_of(drawdown);
                }
                self.updated_at = Some(at);
                false
            },
        }
    }

    /// The run once a trade that earned `pnl` and was held for `hold_secs` is counted.
    pub open spec fn recorded(
        self,
        pnl: Number,
        hold_secs: i64,
        now: UtcTime,
    ) -> LivePerformanceTracker {
        let counted = LivePerformanceTracker {
            total_trades: (self.total_trades + 1) as usize,
            sum_hold_secs: (self.sum_hold_secs + hold_secs) as i64,
            updated_at: Some(now),
            ..self
        };
        if pnl.is_nan() || pnl.lt_value(Number::spec_zero()) {
            LivePerformanceTracker {
                losing_trades: (self.losing_trades + 1) as usize,
                worst_trade: if self.total_trades == 0 {
                    pnl
                } else {
                    self.worst_trade.smaller(pnl)
                },
                longest_losing_trade_held_secs: longer(
                    self.longest_losing_trade_held_secs,
                    hold_secs,
                ),
                ..counted
            }
        } else {
            LivePerformanceTracker {
                winning_trades: (self.winning_trades + 1) as usize,
                best_trade: if self.total_trades == 0 {
                    pnl
                } else {
                    self.best_trade.larger(pnl)
                },
                longest_winning_trade_held_secs: longer(
                    self.longest_winning_trade_held_secs,
                    hold_secs,
                ),
                ..counted
            }
        }
    }

    /// Whether `after` is the run once the equity of the account was read at `at`.
    pub open spec fn equity_read(
        self,
        after: LivePerformanceTracker,
        equity: Number,
        drawdown: Number,
        at: UtcTime,
    ) -> bool {
        if self.executed_at is None {
            after.begun(equity, equity, at) && after.symbols@.len() == 0
        } else {
            after == (LivePerformanceTracker {
                current_equity: equity,
                previous_equity: Some(equity),
                peak_equity: self.peak_equity.larger(equity),
                max_drawdown: if self.peak_equity.larger(equity).off_zero() {
                    self.max_drawdown.larger(drawdown)
                } else {
                    self.max_drawdown
                },
                updated_at: Some(at),
                ..self
            })
        }
    }

    /// Counts a trade that earned `pnl` and was held for `hold_secs`. Says whether it was won.
    pub fn record_closed_insight(&mut self, pnl: Number, hold_secs: i64, now: UtcTime) -> (r: bool)
        requires
            old(self).wf(),
            hold_secs >= 0,
            old(self).total_trades < usize::MAX,
            old(self).sum_hold_secs + hold_secs <= i64::MAX,
        ensures
            final(self).wf(),
            r == !(pnl.is_nan() || pnl.lt_value(Number::spec_zero())),
            *final(self) == old(self).recorded(pnl, hold_secs, now),
            *final(self) == (if r {
                LivePerformanceTracker {
                    total_trades: (old(self).total_trades + 1) as usize,
                    winning_trades: (old(self).winning_trades + 1) as usize,
                    best_trade: if old(self).total_trades == 0 {
                        pnl
                    } else {
                        old(self).best_trade.larger(pnl)
                    },
                    sum_hold_secs: (old(self).sum_hold_secs + hold_secs) as i64,
                    longest_winning_trade_held_secs: longer(
                        old(self).longest_winning_trade_held_secs,
                        hold_secs,
                    ),
                    updated_at: Some(now),
                    ..*old(self)
                }
            } else {
                LivePerformanceTracker {
                    total_trades: (old(self).total_trades + 1) as usize,
                    losing_trades: (old(self).losing_trades + 1) as usize,
                    worst_trade: if old(self).total_trades == 0 {
                        pnl
                    } else {
                        old(self).worst_trade.smaller(pnl)
                    },
                    sum_hold_secs: (old(self).sum_hold_secs + hold_secs) as i64,
                    longest_losing_trade_held_secs: longer(
                        old(self).longest_losing_trade_held_secs,
                        hold_secs,
                    ),
                    updated_at: Some(now),
                    ..*old(self)
                }
            }),
    {
        let won = !(pnl.not_a_number() || pnl.less_than(Number::zero()));
        let first = self.total_trades == 0;
        self.total_trades = self.total_trades + 1;
        self.sum_hold_secs = self.sum_hold_secs + hold_secs;
        if won {
            self.winning_trades = self.winning_trades + 1;
            self.best_trade = if first {
                pnl
            } else {
                self.best_trade.larger_of(pnl)
            };
            if hold_secs > self.longest_winning_trade_held_secs {
                self.longest_winning_trade_held_secs = hold_secs;
            }
        } else {
            self.losing_trades = self.losing_trades + 1;
            self.worst_trade = if first {
                pnl
            } else {
                self.worst_trade.smaller_of(pnl)
            };
            if hold_secs > self.longest_losing_trade_held_secs {
                self.longest_losing_trade_held_secs = hold_secs;
            }
        }
        self.updated_at = Some(now);
        won
    }

    /// Takes over what is open at `at`.
    pub fn update_open_position_metrics(&mut self, open: OpenMetrics, at: UtcTime)
        requires
            old(self).wf(),
        ensures
            final(self).wf(),
            *final(self) == (LivePerformanceTracker {
                open_positions_count: open.positions,
                open_insights_count: open.insights,
                open_positions_profitable_count: open.profitable,
                open_positions_losing_count: open.losing,
                symbols: open.symbols,
                updated_at: Some(at),
                ..*old(self)
            }),
    {
        self.open_positions_count = open.positions;
        self.open_insights_count = open.insights;
        self.open_positions_profitable_count = open.profitable;
        self.open_positions_losing_count = open.losing;
        self.symbols = open.symbols;
        self.updated_at = Some(at);
    }

    /// Notes that the run ended at `at`.
    pub fn finish(&mut self, at: UtcTime)
        ensures
            *final(self) == (LivePerformanceTracker {
                finished_at: Some(at),
                updated_at: Some(at),
                ..*old(self)
            }),
    {
        self.finished_at = Some(at);
        self.updated_at = Some(at);
    }

    /// The counts of the run.
    pub open spec fn counts(&self) -> LiveCounts {
        LiveCounts {
            total_trades: self.total_trades,
            winning_trades: self.winning_trades,
            losing_trades: self.losing_trades,
            longest_winning_trade_held_secs: self.longest_winning_trade_held_secs,
            longest_losing_trade_held_secs: self.longest_losing_trade_held_secs,
            average_trade_held_secs: if self.total_trades > 0 {
                (self.sum_hold_secs as int / self.total_trades as int) as i64
            } else {
                0
            },
            open_positions_count: self.open_positions_count,
            open_insights_count: self.open_insights_count,
            open_positions_profitable_count: self.open_positions_profitable_count,
            open_positions_losing_count: self.open_positions_losing_count,
        }
    }

    /// The figures of the run, without its score.
    pub open spec fn figures(&self, raw: RawFigures) -> LiveFigures {
        let avg_winner = mean_of(self.winning_trades, raw.winner_mean);
        let avg_loser = mean_of(self.losing_trades, raw.loser_mean);
        LiveFigures {
            starting_cash: self.starting_cash,
            final_equity: self.current_equity,
            total_return: raw.total_return,
            total_return_pct: if self.starting_cash.off_zero() {
                raw.return_pct
            } else {
                Number::spec_zero()
            },
            win_rate: mean_of(self.total_trades, raw.win_pct),
            max_drawdown: self.max_drawdown,
            sharpe_ratio: raw.sharpe_ratio,
            expectancy: mean_of(self.total_trades, raw.return_per_trade),
            profit_factor: gain_ratio(
                raw.gross_profit,
                raw.gross_loss_abs.above_step(),
                raw.profit_per_loss,
            ),
            payoff_ratio: gain_ratio(avg_winner, avg_loser.off_zero(), raw.winner_per_loser),
            avg_winner,
            avg_loser,
            avg_winner_pct: mean_of(self.winning_trades, raw.winner_pct_mean),
            avg_loser_pct: mean_of(self.losing_trades, raw.loser_pct_mean),
            best_trade: mean_of(self.total_trades, self.best_trade),
            worst_trade: mean_of(self.total_trades, self.worst_trade),
            consistency_score: Number::spec_zero(),
            open_positions_unrealized_pnl: raw.open_positions_unrealized_pnl,
        }
    }

    /// The figures of the run. What has nothing to be computed from is zero. The score, which is
    /// computed from the others, is left at zero.
    pub fn settled_figures(&self, raw: &RawFigures) -> (r: LiveFigures)
        ensures
            r == self.figures(*raw),
    {
        let avg_winner = mean_if(self.winning_trades, raw.winner_mean);
        let avg_loser = mean_if(self.losing_trades, raw.loser_mean);
        LiveFigures {
            starting_cash: self.starting_cash,
            final_equity: self.current_equity,
            total_return: raw.total_return,
            total_return_pct: if self.starting_cash.is_off_zero() {
                raw.return_pct
            } else {
                Number::zero()
            },
            win_rate: mean_if(self.total_trades, raw.win_pct),
            max_drawdown: self.max_drawdown,
            sharpe_ratio: raw.sharpe_ratio,
            expectancy: mean_if(self.total_trades, raw.return_per_trade),
            profit_factor: gain_ratio_of(
                raw.gross_profit,
                raw.gross_loss_abs.is_above_step(),
                raw.profit_per_loss,
            ),
            payoff_ratio: gain_ratio_of(avg_winner, avg_loser.is_off_zero(), raw.winner_per_loser),
            avg_winner,
            avg_loser,
            avg_winner_pct: mean_if(self.winning_trades, raw.winner_pct_mean),
            avg_loser_pct: mean_if(self.losing_trades, raw.loser_pct_mean),
            best_trade: mean_if(self.total_trades, self.best_trade),
            worst_trade: mean_if(self.total_trades, self.worst_trade),
            consistency_score: Number::zero(),
            open_positions_unrealized_pnl: raw.open_positions_unrealized_pnl,
        }
    }

    /// Whether `s` tells how the run does, with `figures`.
    pub open spec fn tells(&self, figures: LiveFigures, s: LiveMetricsSnapshot) -> bool {
        &&& s.figures == figures
        &&& s.counts == self.counts()
        &&& same_texts(self.symbols@, s.symbols@)
        &&& Some(s.executed_at) == self.executed_at
        &&& s.finished_at == self.finished_at
        &&& s.updated_at == (match self.updated_at {
            Some(at) => at,
            None => s.executed_at,
        })
    }

    /// How the run does, or `None` where it has not begun.
    pub fn snapshot(&self, figures: &LiveFigures) -> (r: Option<LiveMetricsSnapshot>)
        requires
            self.wf(),
        ensures
            match r {
                Some(s) => self.tells(*figures, s),
                None => self.executed_at is None,
            },
    {
        let executed_at = match self.executed_at {
            Some(at) => at,
            None => {
                return None;
            },
        };
        let updated_at = match self.updated_at {
            Some(at) => at,
            None => executed_at,
        };
        let average_trade_held_secs = self.average_held();
        Some(
            LiveMetricsSnapshot {
                figures: *figures,
                counts: LiveCounts {
                    total_trades: self.total_trades,
                    winning_trades: self.winning_trades,
                    losing_trades: self.losing_trades,
                    longest_winning_trade_held_secs: self.longest_winning_trade_held_secs,
                    longest_losing_trade_held_secs: self.longest_losing_trade_held_secs,
                    average_trade_held_secs,
                    open_positions_count: self.open_positions_count,
                    open_insights_count: self.open_insights_count,
                    open_positions_profitable_count: self.open_positions_profitable_count,
                    open_positions_losing_count: self.open_positions_losing_count,
                },
                symbols: copy_texts(&self.symbols),
                executed_at,
                finished_at: self.finished_at,
                updated_at,
            },
        )
    }

    fn average_held(&self) -> (r: i64)
        requires
            self.wf(),
        ensures
            r == self.counts().average_trade_held_secs,
    {
        if self.total_trades > 0 {
            let sum: u64 = self.sum_hold_secs as u64;
            let average: u64 = sum / self.total_trades as u64;
            proof {
                let n = self.total_trades as int;
                assert(0 <= sum as int / n <= sum as int) by (nonlinear_arith)
                    requires
                        n > 0,
                        sum >= 0,
                ;
            }
            average as i64
        } else {
            0
        }
    }

    /// Whether the run does otherwise than what was written last.
    pub open spec fn unwritten(&self, now: LiveMetricsSnapshot) -> bool {
        match self.last_persisted {
            Some(last) => !same_snapshot(last, now),
            None => true,
        }
    }

    /// Whether the run has begun and does otherwise than what was written last.
    pub fn should_persist(&self, figures: &LiveFigures) -> (r: bool)
        requires
            self.wf(),
        ensures
            self.executed_at is None ==> !r,
            forall|s: LiveMetricsSnapshot| #[trigger]
                self.tells(*figures, s) ==> r == self.unwritten(s),
    {
        match self.snapshot(figures) {
            None => false,
            Some(now) => {
                let r = match &self.last_persisted {
                    Some(last) => !last.equals(&now),
                    None => true,
                };
                proof {
                    assert forall|s: LiveMetricsSnapshot| #[trigger]
                        self.tells(*figures, s) implies r == self.unwritten(s) by {
                        assert(self.tells(*figures, now));
                        if let Some(last) = self.last_persisted {
                            assert(same_snapshot(last, s) == same_snapshot(last, now)) by {
                                assert forall|i: int| 0 <= i < s.symbols@.len() implies (
                                #[trigger] s.symbols@[i])@ == now.symbols@[i]@ by {
                                    assert(self.symbols@[i]@ == s.symbols@[i]@);
                                    assert(self.symbols@[i]@ == now.symbols@[i]@);
                                }
                                assert(same_texts(last.symbols@, s.symbols@) == same_texts(
                                    last.symbols@,
                                    now.symbols@,
                                )) by {
                                    if same_texts(last.symbols@, s.symbols@) {
                                        assert forall|i: int|
                                            0 <= i < last.symbols@.len() implies (
                                        #[trigger] last.symbols@[i])@ == now.symbols@[i]@ by {
                                            assert(s.symbols@[i]@ == now.symbols@[i]@);
                                        }
                                    }
                                }
                            }
                        }
                    }
                }
                r
            },
        }
    }

    /// Notes that how the run does was written.
    pub fn mark_persisted(&mut self, figures: &LiveFigures)
        requires
            old(self).wf(),
        ensures
            final(self).wf(),
            *final(self) == (LivePerformanceTracker {
                last_persisted: final(self).last_persisted,
                ..*old(self)
            }),
            match final(self).last_persisted {
                Some(s) => old(self).tells(*figures, s),
                None => old(self).executed_at is None,
            },
    {
        self.last_persisted = self.snapshot(figures);
    }
}

/// The longer of two spans.
pub open spec fn longer(a: i64, b: i64) -> i64 {
    if b > a {
        b
    } else {
        a
    }
}

/// A run counts every trade as won or lost, has never fallen below its peak by less than nothing,
/// and is scored within 0 and 100. Its rate and its averages lie where those lie that are handed in,
/// and are zero without trades.
pub proof fn snapshots_keep_their_bounds(
    tracker: LivePerformanceTracker,
    raw: RawFigures,
    score: Number,
    s: LiveMetricsSnapshot,
)
    requires
        tracker.wf(),
        tracker.tells(
            (LiveFigures { consistency_score: clamped(score), ..tracker.figures(raw) }),
            s,
        ),
    ensures
        s.counts.total_trades == s.counts.winning_trades + s.counts.losing_trades,
        not_negative(s.figures.max_drawdown),
        !score.is_nan() ==> is_percentage(s.figures.consistency_score),
        s.figures.starting_cash == tracker.starting_cash,
        s.figures.final_equity == tracker.current_equity,
        s.figures.total_return == raw.total_return,
        is_percentage(raw.win_pct) || s.counts.total_trades == 0 ==> is_percentage(
            s.figures.win_rate,
        ),
        not_negative(raw.winner_mean) || s.counts.winning_trades == 0 ==> not_negative(
            s.figures.avg_winner,
        ),
        !Number::spec_zero().lt_value(raw.loser_mean) || s.counts.losing_trades == 0
            ==> !Number::spec_zero().lt_value(s.figures.avg_loser),
{
}

/// What was just written need not be written again, while nothing changes and every figure is a
/// number.
pub proof fn what_was_written_stays_written(
    tracker: LivePerformanceTracker,
    figures: LiveFigures,
    written: LiveMetricsSnapshot,
    now: LiveMetricsSnapshot,
)
    requires
        all_numbers(figures),
        tracker.last_persisted == Some(written),
        tracker.tells(figures, written),
        tracker.tells(figures, now),
    ensures
        !tracker.unwritten(now),
{
    assert forall|i: int| 0 <= i < written.symbols@.len() implies (#[trigger] written.symbols@[i])@
        == now.symbols@[i]@ by {
        assert(tracker.symbols@[i]@ == written.symbols@[i]@);
        assert(tracker.symbols@[i]@ == now.symbols@[i]@);
    }
}

/// The seconds that a trade was held: from its fill, or from its creation, to its close, or to its
/// last change; none where that lies before.
pub open spec fn held_secs(insight: InsightView) -> int {
    let start = match insight.filled_at {
        Some(at) => at,
        None => insight.profile.created_at,
    };
    let end = match insight.closed_at {
        Some(at) => at,
        None => insight.updated_at,
    };
    let secs = whole_seconds(nanos_between(start, end));
    if secs > 0 {
        secs
    } else {
        0
    }
}

/// Whether the times of an insight can be told.
pub open spec fn has_times(insight: InsightView) -> bool {
    &&& insight.profile.created_at.wf()
    &&& insight.updated_at.wf()
    &&& insight.filled_at matches Some(at) ==> at.wf()
    &&& insight.closed_at matches Some(at) ==> at.wf()
}

/// The seconds that a trade was held.
pub fn trade_hold_secs(insight: &Insight) -> (r: i64)
    requires
        has_times(insight@),
    ensures
        r == held_secs(insight@),
{
    let start = match insight.filled_at {
        Some(at) => at,
        None => insight.profile.created_at,
    };
    let end = match insight.closed_at {
        Some(at) => at,
        None => insight.updated_at,
    };
    let secs = seconds_between(start, end);
    if secs > 0 {
        secs
    } else {
        0
    }
}

/// The price that an insight was entered at: what it was filled at, or else its limit, or else its
/// stop.
pub open spec fn entry_price(insight: InsightView) -> Option<Number> {
    match insight.filled_price {
        Some(price) => Some(price),
        None => match insight.limit_price {
            Some(price) => Some(price),
            None => insight.profile.stop_price,
        },
    }
}

/// The price that an insight was entered at.
pub fn entry_price_of(insight: &Insight) -> (r: Option<Number>)
    ensures
        r == entry_price(insight@),
{
    match insight.filled_price {
        Some(price) => Some(price),
        None => match insight.limit_price {
            Some(price) => Some(price),
            None => insight.profile.stop_price,
        },
    }
}

/// A trade that is closed, as far as its result depends on it.
#[derive(Clone, Copy, Debug, PartialEq, Eq, Structural)]
pub struct ClosedTrade {
    pub side: OrderSide,
    pub entry: Number,
    pub close: Number,
    pub quantity: Number,
}

/// What the result of a closed insight is computed from, or `None` where it earned nothing that
/// can be told.
pub fn closed_trade(insight: &Insight) -> (r: Option<ClosedTrade>)
    ensures
        r == (match (entry_price(insight@), insight@.close_price) {
            (Some(entry), Some(close)) => Some(
                ClosedTrade {
                    side: insight@.side,
                    entry,
                    close,
                    quantity: match insight@.quantity {
                        Some(quantity) => quantity,
                        None => Number::spec_zero(),
                    },
                },
            ),
            _ => None,
        }),
{
    match (entry_price_of(insight), insight.close_price) {
        (Some(entry), Some(close)) => Some(
            ClosedTrade {
                side: insight.side,
                entry,
                close,
                quantity: match insight.quantity {
                    Some(quantity) => quantity,
                    None => Number::zero(),
                },
            },
        ),
        _ => None,
    }
}

/// A position that is open: what its result is computed from.
#[derive(Clone, Copy, Debug, PartialEq, Eq, Structural)]
pub struct OpenPosition {
    /// The place of the insight.
    pub at: usize,
    pub side: OrderSide,
    pub entry: Number,
    pub price: Number,
    pub remaining: Number,
    pub swap: Option<Number>,
    pub commission: Option<Number>,
}

/// The position of an insight, or `None` where it has none: it is not filled, nothing of it
/// remains, or one of its prices is not known.
pub open spec fn position_of(
    at: int,
    insight: InsightView,
    remaining: Number,
    prices: Map<Seq<char>, Number>,
) -> Option<OpenPosition> {
    if insight.state != InsightState::Filled || remaining.within_step() {
        None
    } else {
        match (entry_price(insight), value_at(prices, insight.symbol)) {
            (Some(entry), Some(price)) => Some(
                OpenPosition {
                    at: at as usize,
                    side: insight.side,
                    entry,
                    price,
                    remaining,
                    swap: insight.swap,
                    commission: insight.commission,
                },
            ),
            _ => None,
        }
    }
}

/// The open positions of the first `n` insights.
pub open spec fn positions_of(
    insights: Seq<InsightView>,
    remaining: Seq<Number>,
    prices: Map<Seq<char>, Number>,
    n: nat,
) -> Seq<OpenPosition>
    decreases n,
{
    if n == 0 {
        Seq::empty()
    } else {
        let before = positions_of(insights, remaining, prices, (n - 1) as nat);
        match position_of(n - 1, insights[n - 1], remaining[n - 1], prices) {
            Some(position) => before.push(position),
            None => before,
        }
    }
}

/// The open positions, where `remaining` is what remains of each insight and `prices` are the
/// latest prices.
pub fn open_positions(
    insights: &InsightCollection,
    remaining: &Vec<Number>,
    prices: &Table<Number>,
) -> (r: Vec<OpenPosition>)
    requires
        remaining@.len() == insights.insights_view().len(),
    ensures
        r@ == positions_of(
            insights.insights_view(),
            remaining@,
            prices@,
            insights.insights_view().len(),
        ),
        forall|i: int| 0 <= i < r@.len() ==> (#[trigger] r@[i]).at < insights.insights_view().len(),
        r@.len() <= insights.insights_view().len(),
{
    let mut out: Vec<OpenPosition> = Vec::new();
    let mut i: usize = 0;
    let n = insights.len();
    while i < n
        invariant
            i <= n,
            n == insights.insights_view().len(),
            remaining@.len() == n,
            out@ == positions_of(insights.insights_view(), remaining@, prices@, i as nat),
            out@.len() <= i,
            forall|k: int| 0 <= k < out@.len() ==> (#[trigger] out@[k]).at < n,
        decreases n - i,
    {
        let insight = insights.at(i);
        if insight.state == InsightState::Filled && !remaining[i].is_within_step() {
            match (entry_price_of(insight), prices.get(insight.symbol.as_str())) {
                (Some(entry), Some(price)) => {
                    out.push(
                        OpenPosition {
                            at: i,
                            side: insight.side,
                            entry,
                            price,
                            remaining: remaining[i],
                            swap: insight.swap,
                            commission: insight.commission,
                        },
                    );
                },
                _ => {},
            }
        }
        i = i + 1;
    }
    out
}

/// What is open: counts, and the symbols that the run deals with.
#[derive(Debug)]
pub struct OpenMetrics {
    pub positions: usize,
    pub insights: usize,
    pub profitable: usize,
    pub losing: usize,
    pub symbols: Vec<String>,
}

/// How many of the numbers are above zero.
pub open spec fn gains(results: Seq<Number>) -> nat
    decreases results.len(),
{
    if results.len() == 0 {
        0
    } else {
        gains(results.drop_last()) + (if Number::spec_zero().lt_value(results.last()) {
            1nat
        } else {
            0
        })
    }
}

/// How many of the numbers are below zero.
pub open spec fn losses(results: Seq<Number>) -> nat
    decreases results.len(),
{
    if results.len() == 0 {
        0
    } else {
        losses(results.drop_last()) + (if results.last().lt_value(Number::spec_zero()) {
            1nat
        } else {
            0
        })
    }
}

/// Whether a position of `insights` is in the symbol `s`.
pub open spec fn traded(
    insights: Seq<InsightView>,
    positions: Seq<OpenPosition>,
    s: Seq<char>,
) -> bool {
    exists|i: int|
        0 <= i < positions.len() && insights[(#[trigger] positions[i]).at as int].symbol == s
}

/// No position is counted both as a gain and as a loss.
pub proof fn gains_and_losses_are_apart(results: Seq<Number>)
    ensures
        gains(results) + losses(results) <= results.len(),
    decreases results.len(),
{
    if results.len() > 0 {
        gains_and_losses_are_apart(results.drop_last());
    }
}

/// What is open, where `results` are the results of the positions one by one. The symbols are
/// those of the universe and of the positions, in order, each once.
pub fn open_metrics(
    insights: &InsightCollection,
    universe: &Vec<String>,
    positions: &Vec<OpenPosition>,
    results: &Vec<Number>,
) -> (r: OpenMetrics)
    requires
        results@.len() == positions@.len(),
        forall|i: int|
            0 <= i < positions@.len() ==> (#[trigger] positions@[i]).at
                < insights.insights_view().len(),
    ensures
        r.positions == positions@.len(),
        r.insights == crate::collection::ids_where(
            insights.insights_view(),
            |i: InsightView| !i.state.inactive(),
        ).len(),
        r.profitable == gains(results@),
        r.losing == losses(results@),
        r.profitable + r.losing <= r.positions,
        strictly_sorted(r.symbols@),
        forall|s: Seq<char>| #[trigger]
            listed(r.symbols@, s) <==> listed(universe@, s) || traded(
                insights.insights_view(),
                positions@,
                s,
            ),
{
    let mut symbols: Vec<String> = Vec::new();
    let mut i: usize = 0;
    while i < universe.len()
        invariant
            i <= universe.len(),
            strictly_sorted(symbols@),
            forall|s: Seq<char>| #[trigger]
                listed(symbols@, s) <==> listed(universe@.take(i as int), s),
        decreases universe.len() - i,
    {
        let ghost before = symbols@;
        insert_symbol(&mut symbols, universe[i].as_str());
        i = i + 1;
        proof {
            assert forall|s: Seq<char>| #[trigger]
                listed(symbols@, s) <==> listed(universe@.take(i as int), s) by {
                assert(listed(symbols@, s) <==> listed(before, s) || s == universe@[i - 1]@);
                listed_grown(universe@, i as int, s);
            }
        }
    }
    proof {
        assert(universe@.take(i as int) =~= universe@);
    }
    let mut profitable: usize = 0;
    let mut losing: usize = 0;
    let mut k: usize = 0;
    while k < positions.len()
        invariant
            k <= positions.len(),
            results@.len() == positions@.len(),
            profitable <= k,
            losing <= k,
            profitable == gains(results@.take(k as int)),
            losing == losses(results@.take(k as int)),
            strictly_sorted(symbols@),
            forall|i: int|
                0 <= i < positions@.len() ==> (#[trigger] positions@[i]).at
                    < insights.insights_view().len(),
            forall|s: Seq<char>| #[trigger]
                listed(symbols@, s) <==> listed(universe@, s) || traded(
                    insights.insights_view(),
                    positions@.take(k as int),
                    s,
                ),
        decreases positions.len() - k,
    {
        proof {
            assert(results@.take(k + 1).drop_last() =~= results@.take(k as int));
        }
        if Number::zero().less_than(results[k]) {
            profitable = profitable + 1;
        } else if results[k].less_than(Number::zero()) {
            losing = losing + 1;
        }
        let ghost before = symbols@;
        let insight = insights.at(positions[k].at);
        insert_symbol(&mut symbols, insight.symbol.as_str());
        k = k + 1;
        proof {
            assert forall|s: Seq<char>| #[trigger]
                listed(symbols@, s) <==> listed(universe@, s) || traded(
                    insights.insights_view(),
                    positions@.take(k as int),
                    s,
                ) by {
                assert(listed(symbols@, s) <==> listed(before, s) || s == insight@.symbol);
                traded_grown(insights.insights_view(), positions@, k as int, s);
            }
        }
    }
    proof {
        assert(results@.take(k as int) =~= results@);
        assert(positions@.take(k as int) =~= positions@);
        gains_and_losses_are_apart(results@);
    }
    OpenMetrics {
        positions: positions.len(),
        insights: insights.active_insight_ids().len(),
        profitable,
        losing,
        symbols,
    }
}

proof fn traded_grown(
    insights: Seq<InsightView>,
    positions: Seq<OpenPosition>,
    n: int,
    s: Seq<char>,
)
    requires
        0 < n <= positions.len(),
    ensures
        traded(insights, positions.take(n), s) <==> traded(insights, positions.take(n - 1), s)
            || insights[positions[n - 1].at as int].symbol == s,
{
    let shorter = positions.take(n - 1);
    let all = positions.take(n);
    if traded(insights, shorter, s) {
        let i = choose|i: int|
            0 <= i < shorter.len() && insights[(#[trigger] shorter[i]).at as int].symbol == s;
        assert(all[i] == shorter[i]);
    }
    if insights[positions[n - 1].at as int].symbol == s {
        assert(all[n - 1] == positions[n - 1]);
    }
    if traded(insights, all, s) {
        let i = choose|i: int|
            0 <= i < all.len() && insights[(#[trigger] all[i]).at as int].symbol == s;
        if i < n - 1 {
            assert(shorter[i] == all[i]);
        }
    }
}

/// Each figure is the quotient of its own name where there is something to divide by, and zero, or for
/// the two factors the gain alone, where there is not: with trades the expectancy is the return per
/// trade and the win rate the winners in percent; with winners or losers their averages are theirs.
pub proof fn figures_are_their_own_quotients(tracker: LivePerformanceTracker, raw: RawFigures)
    ensures
        ({
            let f = tracker.figures(raw);
            let zero = Number { bits: 0 };
            let step = 0x3cb0_0000_0000_0000int;
            &&& tracker.total_trades > 0 ==> {
                &&& f.expectancy == raw.return_per_trade
                &&& f.win_rate == raw.win_pct
                &&& f.best_trade == tracker.best_trade
                &&& f.worst_trade == tracker.worst_trade
            }
            &&& tracker.total_trades == 0 ==> {
                &&& f.expectancy == zero
                &&& f.win_rate == zero
                &&& f.best_trade == zero
                &&& f.worst_trade == zero
            }
            &&& tracker.winning_trades > 0 ==> {
                &&& f.avg_winner == raw.winner_mean
                &&& f.avg_winner_pct == raw.winner_pct_mean
            }
            &&& tracker.winning_trades == 0 ==> f.avg_winner == zero && f.avg_winner_pct == zero
            &&& tracker.losing_trades > 0 ==> {
                &&& f.avg_loser == raw.loser_mean
                &&& f.avg_loser_pct == raw.loser_pct_mean
            }
            &&& tracker.losing_trades == 0 ==> f.avg_loser == zero && f.avg_loser_pct == zero
            &&& !raw.gross_loss_abs.is_nan() && raw.gross_loss_abs.rank() > step
                ==> f.profit_factor == raw.profit_per_loss
            &&& !raw.gross_loss_abs.is_nan() && raw.gross_loss_abs.rank() <= step
                && !raw.gross_profit.is_nan() ==> f.profit_factor == (if raw.gross_profit.rank()
                > 0 {
                raw.gross_profit
            } else {
                zero
            })
            &&& tracker.losing_trades > 0 && !raw.loser_mean.is_nan() && (raw.loser_mean.rank()
                > step || raw.loser_mean.rank() < -step) ==> f.payoff_ratio == raw.winner_per_loser
            &&& tracker.losing_trades == 0 && tracker.winning_trades > 0
                && !raw.winner_mean.is_nan() ==> f.payoff_ratio == (if raw.winner_mean.rank() > 0 {
                raw.winner_mean
            } else {
                zero
            })
            &&& tracker.losing_trades == 0 && tracker.winning_trades == 0 ==> f.payoff_ratio == zero
            &&& f.starting_cash == tracker.starting_cash
            &&& f.final_equity == tracker.current_equity
            &&& f.max_drawdown == tracker.max_drawdown
            &&& f.total_return == raw.total_return
            &&& f.sharpe_ratio == raw.sharpe_ratio
            &&& f.open_positions_unrealized_pnl == raw.open_positions_unrealized_pnl
            &&& !tracker.starting_cash.is_nan() && (tracker.starting_cash.rank() > step
                || tracker.starting_cash.rank() < -step) ==> f.total_return_pct == raw.return_pct
            &&& -step <= tracker.starting_cash.rank() <= step ==> f.total_return_pct == zero
        }),
{
}

/// A trade is counted once: as won where it earned nothing less than zero, and as lost otherwise. What
/// was best of the winners stays the best of them, and what was worst of the losers the worst.
pub proof fn trades_are_counted_once(
    tracker: LivePerformanceTracker,
    pnl: Number,
    hold_secs: i64,
    now: UtcTime,
)
    requires
        tracker.wf(),
        0 <= hold_secs,
        tracker.total_trades < usize::MAX,
        tracker.sum_hold_secs + hold_secs <= i64::MAX,
    ensures
        ({
            let after = tracker.recorded(pnl, hold_secs, now);
            let won = !pnl.is_nan() && pnl.rank() >= 0;
            &&& after.total_trades == tracker.total_trades + 1
            &&& after.winning_trades == tracker.winning_trades + (if won {
                1int
            } else {
                0
            })
            &&& after.losing_trades == tracker.losing_trades + (if won {
                0int
            } else {
                1
            })
            &&& after.sum_hold_secs == tracker.sum_hold_secs + hold_secs
            &&& won ==> {
                &&& after.worst_trade == tracker.worst_trade
                &&& after.longest_losing_trade_held_secs
                    == tracker.longest_losing_trade_held_secs
                &&& after.longest_winning_trade_held_secs >= hold_secs
                &&& after.longest_winning_trade_held_secs
                    >= tracker.longest_winning_trade_held_secs
                &&& after.longest_winning_trade_held_secs == hold_secs
                    || after.longest_winning_trade_held_secs
                    == tracker.longest_winning_trade_held_secs
                &&& after.best_trade == pnl || after.best_trade == tracker.best_trade
                &&& after.best_trade.rank() >= pnl.rank()
                &&& tracker.total_trades > 0 && !tracker.best_trade.is_nan()
                    ==> after.best_trade.rank() >= tracker.best_trade.rank()
            }
            &&& !won ==> {
                &&& after.best_trade == tracker.best_trade
                &&& after.longest_winning_trade_held_secs
                    == tracker.longest_winning_trade_held_secs
                &&& after.longest_losing_trade_held_secs >= hold_secs
                &&& after.longest_losing_trade_held_secs
                    >= tracker.longest_losing_trade_held_secs
                &&& after.longest_losing_trade_held_secs == hold_secs
                    || after.longest_losing_trade_held_secs
                    == tracker.longest_losing_trade_held_secs
                &&& after.worst_trade == pnl || after.worst_trade == tracker.worst_trade
                &&& !pnl.is_nan() ==> after.worst_trade.rank() <= pnl.rank()
                &&& !pnl.is_nan() && tracker.total_trades > 0 && !tracker.worst_trade.is_nan()
                    ==> after.worst_trade.rank() <= tracker.worst_trade.rank()
            }
            &&& after.starting_cash == tracker.starting_cash
            &&& after.current_equity == tracker.current_equity
            &&& after.max_drawdown == tracker.max_drawdown
            &&& after.executed_at == tracker.executed_at
            &&& after.updated_at == Some(now)
        }),
{
}

/// Whatever the equity is, a run knows the latest of it, its peak lies no lower than before nor than
/// that, and the deepest fall is no less than before. A run begins with the first equity that it
/// reads, and later ones leave where it started and what it counted.
pub proof fn equity_is_followed(
    tracker: LivePerformanceTracker,
    after: LivePerformanceTracker,
    equity: Number,
    drawdown: Number,
    at: UtcTime,
)
    requires
        tracker.wf(),
        tracker.equity_read(after, equity, drawdown, at),
    ensures
        after.current_equity == equity,
        after.previous_equity == Some(equity),
        after.updated_at == Some(at),
        !equity.is_nan() ==> after.peak_equity.rank() >= equity.rank(),
        tracker.executed_at is None ==> {
            &&& after.starting_cash == equity
            &&& after.peak_equity == equity
            &&& after.max_drawdown == (Number { bits: 0 })
            &&& after.total_trades == 0
            &&& after.executed_at == Some(at)
        },
        tracker.executed_at is Some ==> {
            &&& after.starting_cash == tracker.starting_cash
            &&& after.executed_at == tracker.executed_at
            &&& after.total_trades == tracker.total_trades
            &&& after.winning_trades == tracker.winning_trades
            &&& after.peak_equity == equity || after.peak_equity == tracker.peak_equity
            &&& !tracker.peak_equity.is_nan() ==> after.peak_equity.rank()
                >= tracker.peak_equity.rank()
            &&& after.max_drawdown.rank() >= tracker.max_drawdown.rank()
            &&& after.max_drawdown == drawdown || after.max_drawdown == tracker.max_drawdown
            &&& !drawdown.is_nan() && !after.peak_equity.is_nan() && after.peak_equity.rank()
                > 0x3cb0_0000_0000_0000 ==> after.max_drawdown.rank() >= drawdown.rank()
        },
{
}

/// A run starts at the funds that it is begun with, with nothing counted, and its peak is the higher of
/// both.
pub proof fn runs_begin_with_their_funds(
    tracker: LivePerformanceTracker,
    cash: Number,
    equity: Number,
    at: UtcTime,
)
    requires
        tracker.begun(cash, equity, at),
    ensures
        tracker.starting_cash == cash,
        tracker.current_equity == equity,
        tracker.executed_at == Some(at),
        tracker.updated_at == Some(at),
        tracker.finished_at is None,
        tracker.last_persisted is None,
        tracker.total_trades == 0 && tracker.winning_trades == 0 && tracker.losing_trades == 0,
        tracker.sum_hold_secs == 0,
        tracker.open_positions_count == 0 && tracker.open_insights_count == 0,
        tracker.max_drawdown.bits == 0 && tracker.best_trade.bits == 0 && tracker.worst_trade.bits
            == 0,
        !cash.is_nan() ==> tracker.peak_equity.rank() >= cash.rank(),
        !equity.is_nan() ==> tracker.peak_equity.rank() >= equity.rank(),
        tracker.peak_equity == cash || tracker.peak_equity == equity,
{
}

/// What is told of a run is what it counted: the counts as they are, the average of the seconds that
/// its trades were held, rounded down, and its times.
pub proof fn snapshots_tell_what_was_counted(
    tracker: LivePerformanceTracker,
    figures: LiveFigures,
    s: LiveMetricsSnapshot,
)
    requires
        tracker.wf(),
        tracker.tells(figures, s),
    ensures
        s.figures == figures,
        s.counts.total_trades == tracker.total_trades,
        s.counts.winning_trades == tracker.winning_trades,
        s.counts.losing_trades == tracker.losing_trades,
        s.counts.longest_winning_trade_held_secs == tracker.longest_winning_trade_held_secs,
        s.counts.longest_losing_trade_held_secs == tracker.longest_losing_trade_held_secs,
        s.counts.open_positions_count == tracker.open_positions_count,
        s.counts.open_insights_count == tracker.open_insights_count,
        s.counts.open_positions_profitable_count == tracker.open_positions_profitable_count,
        s.counts.open_positions_losing_count == tracker.open_positions_losing_count,
        tracker.total_trades == 0 ==> s.counts.average_trade_held_secs == 0,
        tracker.total_trades > 0 ==> s.counts.average_trade_held_secs * tracker.total_trades
            <= tracker.sum_hold_secs < (s.counts.average_trade_held_secs + 1)
            * tracker.total_trades,
        tracker.executed_at == Some(s.executed_at),
        s.finished_at == tracker.finished_at,
        tracker.updated_at matches Some(at) ==> s.updated_at == at,
{
    if tracker.total_trades > 0 {
        let sum = tracker.sum_hold_secs as int;
        let n = tracker.total_trades as int;
        let q = sum / n;
        assert(0 <= q <= sum && q * n <= sum < (q + 1) * n) by (nonlinear_arith)
            requires
                n > 0,
                sum >= 0,
                q == sum / n,
        ;
    }
}

/// What is written again is what changed: a run that does as it did needs no writing, and one with
/// another figure that is a number, another count or another time does.
pub proof fn changed_runs_are_written_again(
    tracker: LivePerformanceTracker,
    last: LiveMetricsSnapshot,
    now: LiveMetricsSnapshot,
)
    requires
        tracker.last_persisted == Some(last),
        last.counts != now.counts || last.updated_at != now.updated_at || last.finished_at
            != now.finished_at || last.executed_at != now.executed_at
            || last.figures.final_equity.rank() != now.figures.final_equity.rank()
            || last.figures.total_return.rank() != now.figures.total_return.rank()
            || last.figures.max_drawdown.rank() != now.figures.max_drawdown.rank()
            || last.figures.sharpe_ratio.rank() != now.figures.sharpe_ratio.rank()
            || last.figures.expectancy.rank() != now.figures.expectancy.rank()
            || last.figures.win_rate.rank() != now.figures.win_rate.rank()
            || last.figures.profit_factor.rank() != now.figures.profit_factor.rank()
            || last.figures.payoff_ratio.rank() != now.figures.payoff_ratio.rank()
            || last.figures.open_positions_unrealized_pnl.rank()
            != now.figures.open_positions_unrealized_pnl.rank(),
    ensures
        tracker.unwritten(now),
{
}

/// A trade was held from its fill, or else from its creation, to its close, or else to its last
/// change, and never for less than no time.
pub proof fn trades_are_held_from_fill_to_close(insight: InsightView)
    requires
        has_times(insight),
    ensures
        held_secs(insight) >= 0,
        ({
            let start = match insight.filled_at {
                Some(at) => at,
                None => insight.profile.created_at,
            };
            let end = match insight.closed_at {
                Some(at) => at,
                None => insight.updated_at,
            };
            &&& !start.leap() && !end.leap() && start.nanos == end.nanos && end.secs >= start.secs
                ==> held_secs(insight) == end.secs - start.secs
            &&& !start.leap() && !end.leap() && end.secs < start.secs ==> held_secs(insight) == 0
        }),
{
}

/// What a closed trade earned is computed from its own side and quantity, the price that it was
/// entered at, its fill before its limit before its stop, and the price that it was closed at; without
/// either price it earned nothing that can be told.
pub proof fn closed_trades_have_both_prices(insight: &Insight, r: Option<ClosedTrade>)
    requires
        call_ensures(closed_trade, (insight,), r),
    ensures
        ({
            let i = insight@;
            let entered = i.filled_price is Some || i.limit_price is Some || i.profile.stop_price
                is Some;
            &&& r is Some <==> entered && i.close_price is Some
            &&& r matches Some(trade) ==> {
                &&& trade.side == i.side
                &&& Some(trade.close) == i.close_price
                &&& i.filled_price is Some ==> Some(trade.entry) == i.filled_price
                &&& i.filled_price is None && i.limit_price is Some ==> Some(trade.entry)
                    == i.limit_price
                &&& i.filled_price is None && i.limit_price is None ==> Some(trade.entry)
                    == i.profile.stop_price
                &&& i.quantity is Some ==> Some(trade.quantity) == i.quantity
                &&& i.quantity is None ==> trade.quantity.bits == 0
            }
        }),
{
}

proof fn positions_from(
    insights: Seq<InsightView>,
    remaining: Seq<Number>,
    prices: Map<Seq<char>, Number>,
    n: nat,
    i: int,
)
    requires
        0 <= i < n <= insights.len(),
        insights.len() == remaining.len(),
        n <= usize::MAX,
        position_of(i, insights[i], remaining[i], prices) is Some,
    ensures
        exists|k: int|
            0 <= k < positions_of(insights, remaining, prices, n).len() && (
            #[trigger] positions_of(insights, remaining, prices, n)[k])
                == position_of(i, insights[i], remaining[i], prices)->Some_0,
    decreases n,
{
    let all = positions_of(insights, remaining, prices, n);
    if i == n - 1 {
        assert(all[all.len() - 1] == position_of(i, insights[i], remaining[i], prices)->Some_0);
    } else {
        positions_from(insights, remaining, prices, (n - 1) as nat, i);
        let before = positions_of(insights, remaining, prices, (n - 1) as nat);
        let k = choose|k: int|
            0 <= k < before.len() && (#[trigger] before[k]) == position_of(
                i,
                insights[i],
                remaining[i],
                prices,
            )->Some_0;
        assert(all[k] == before[k]);
    }
}

/// Every filled insight of which something remains, with an entry and a latest price, is an open
/// position of its side, its prices and what remains of it.
pub proof fn filled_insights_are_open_positions(
    insights: Seq<InsightView>,
    remaining: Seq<Number>,
    prices: Map<Seq<char>, Number>,
    i: int,
)
    requires
        insights.len() == remaining.len(),
        insights.len() <= usize::MAX,
        0 <= i < insights.len(),
        insights[i].state is Filled,
        insights[i].filled_price is Some,
        !remaining[i].is_nan(),
        remaining[i].rank() > 0x3cb0_0000_0000_0000,
        prices.dom().contains(insights[i].symbol),
    ensures
        exists|k: int|
            {
                &&& 0 <= k < positions_of(insights, remaining, prices, insights.len()).len()
                &&& (#[trigger] positions_of(insights, remaining, prices, insights.len())[k]).at
                    == i
                &&& positions_of(insights, remaining, prices, insights.len())[k].side
                    == insights[i].side
                &&& Some(positions_of(insights, remaining, prices, insights.len())[k].entry)
                    == insights[i].filled_price
                &&& positions_of(insights, remaining, prices, insights.len())[k].price
                    == prices[insights[i].symbol]
                &&& positions_of(insights, remaining, prices, insights.len())[k].remaining
                    == remaining[i]
                &&& positions_of(insights, remaining, prices, insights.len())[k].swap
                    == insights[i].swap
                &&& positions_of(insights, remaining, prices, insights.len())[k].commission
                    == insights[i].commission
            },
{
    positions_from(insights, remaining, prices, insights.len(), i);
}

/// Every open position is one of a filled insight of which something remains.
pub proof fn open_positions_are_filled(
    insights: Seq<InsightView>,
    remaining: Seq<Number>,
    prices: Map<Seq<char>, Number>,
    n: nat,
    k: int,
)
    requires
        insights.len() == remaining.len(),
        n <= insights.len() <= usize::MAX,
        0 <= k < positions_of(insights, remaining, prices, n).len(),
    ensures
        ({
            let position = positions_of(insights, remaining, prices, n)[k];
            &&& position.at < n
            &&& insights[position.at as int].state is Filled
            &&& position.remaining == remaining[position.at as int]
            &&& position.remaining.is_nan() || position.remaining.rank() > 0x3cb0_0000_0000_0000
            &&& position.side == insights[position.at as int].side
            &&& prices.dom().contains(insights[position.at as int].symbol)
        }),
    decreases n,
{
    let before = positions_of(insights, remaining, prices, (n - 1) as nat);
    if k < before.len() {
        open_positions_are_filled(insights, remaining, prices, (n - 1) as nat, k);
    }
}

/// A position counts as a gain exactly where its result lies above zero, and as a loss where it lies
/// below: one result more counts one more of its kind.
pub proof fn results_are_counted_by_their_sign(results: Seq<Number>, result: Number)
    ensures
        gains(results.push(result)) == gains(results) + (if !result.is_nan() && result.rank() > 0 {
            1int
        } else {
            0
        }),
        losses(results.push(result)) == losses(results) + (if !result.is_nan() && result.rank()
            < 0 {
            1int
        } else {
            0
        }),
        gains(Seq::empty()) == 0,
        losses(Seq::empty()) == 0,
{
    assert(results.push(result).drop_last() =~= results);
}

/// A score is shown as it is within 0 and 100, and else as the end that it lies beyond.
pub proof fn scores_are_brought_within(figures: LiveFigures, score: Number, r: LiveFigures)
    requires
        !score.is_nan(),
        call_ensures(LiveFigures::scored, (figures, score), r),
    ensures
        score.rank() < 0 ==> r.consistency_score.bits == 0,
        score.rank() > 0x4059_0000_0000_0000 ==> r.consistency_score.bits == 0x4059_0000_0000_0000,
        0 <= score.rank() <= 0x4059_0000_0000_0000 ==> r.consistency_score == score,
        r.expectancy == figures.expectancy,
        r.win_rate == figures.win_rate,
        r.max_drawdown == figures.max_drawdown,
{
}

/// A run that begins anew has no trades and no open positions yet; its peak is the larger of its
/// cash and its equity.
pub proof fn runs_begin_anew()
    ensures
        forall|
            t: &mut LivePerformanceTracker,
            cash: Number,
            equity: Number,
            at: UtcTime,
            symbols: Vec<String>,
            r: (),
        | #[trigger]
            call_ensures(
                LivePerformanceTracker::initialize,
                (t, cash, equity, at, symbols),
                r,
            ) ==> {
                &&& final(t).starting_cash == cash
                &&& final(t).current_equity == equity
                &&& final(t).peak_equity == equity.larger(cash)
                &&& final(t).previous_equity == Some(equity)
                &&& final(t).executed_at == Some(at)
                &&& final(t).updated_at == Some(at)
                &&& final(t).symbols == symbols
                &&& final(t).total_trades == 0
                &&& final(t).winning_trades == 0
                &&& final(t).losing_trades == 0
                &&& final(t).open_positions_count == 0
                &&& final(t).open_insights_count == 0
                &&& final(t).finished_at is None
                &&& final(t).last_persisted is None
            },
{
}

/// The open positions are counted as they stand; the end of a run is written down once, and what was
/// written is remembered. None of these changes what was counted of the trades.
pub proof fn counts_of_trades_stay()
    ensures
        forall|t: &mut LivePerformanceTracker, open: OpenMetrics, at: UtcTime, r: ()| #[trigger]
            call_ensures(LivePerformanceTracker::update_open_position_metrics, (t, open, at), r)
                ==> {
                &&& final(t).open_positions_count == open.positions
                &&& final(t).open_insights_count == open.insights
                &&& final(t).open_positions_profitable_count == open.profitable
                &&& final(t).open_positions_losing_count == open.losing
                &&& final(t).symbols == open.symbols
                &&& final(t).updated_at == Some(at)
                &&& final(t).total_trades == t.total_trades
                &&& final(t).winning_trades == t.winning_trades
                &&& final(t).losing_trades == t.losing_trades
                &&& final(t).current_equity == t.current_equity
                &&& final(t).peak_equity == t.peak_equity
                &&& final(t).max_drawdown == t.max_drawdown
                &&& final(t).last_persisted == t.last_persisted
            },
        forall|t: &mut LivePerformanceTracker, at: UtcTime, r: ()| #[trigger]
            call_ensures(LivePerformanceTracker::finish, (t, at), r) ==> {
                &&& final(t).finished_at == Some(at)
                &&& final(t).updated_at == Some(at)
                &&& *final(t) == LivePerformanceTracker {
                    finished_at: final(t).finished_at,
                    updated_at: final(t).updated_at,
                    ..*t
                }
            },
        forall|t: &mut LivePerformanceTracker, figures: LiveFigures, r: ()| #[trigger]
            call_ensures(LivePerformanceTracker::mark_persisted, (t, &figures), r) ==> {
                &&& final(t).last_persisted is Some <==> t.executed_at is Some
                &&& final(t).last_persisted is Some ==> final(t).last_persisted->Some_0.figures
                    == figures
                &&& *final(t) == LivePerformanceTracker {
                    last_persisted: final(t).last_persisted,
                    ..*t
                }
            },
        forall|t: &mut LivePerformanceTracker, pnl: Number, held: i64, now: UtcTime, r: bool|
            #[trigger]
            call_ensures(LivePerformanceTracker::record_closed_insight, (t, pnl, held, now), r)
                && t.total_trades < usize::MAX && t.wf() && held >= 0 && t.sum_hold_secs + held
                <= i64::MAX ==> {
                &&& r <==> !pnl.is_nan() && !pnl.lt_value(Number::spec_zero())
                &&& final(t).total_trades == t.total_trades + 1
                &&& final(t).sum_hold_secs == t.sum_hold_secs + held
                &&& final(t).updated_at == Some(now)
                &&& r ==> final(t).losing_trades == t.losing_trades && final(t).worst_trade
                    == t.worst_trade
                &&& !r ==> final(t).winning_trades == t.winning_trades && final(t).best_trade
                    == t.best_trade
                &&& r && t.winning_trades < usize::MAX ==> final(t).winning_trades
                    == t.winning_trades + 1
                &&& !r && t.losing_trades < usize::MAX ==> final(t).losing_trades
                    == t.losing_trades + 1
                &&& t.total_trades == 0 && r ==> final(t).best_trade == pnl
                &&& t.total_trades == 0 && !r ==> final(t).worst_trade == pnl
                &&& final(t).open_positions_count == t.open_positions_count
                &&& final(t).current_equity == t.current_equity
            },
{
}

/// A position was entered at the price of its fill, else at its limit, else at its stop.
pub proof fn positions_are_entered_at_their_fill(insight: Insight, r: Option<Number>)
    requires
        call_ensures(entry_price_of, (&insight,), r),
    ensures
        insight.filled_price is Some ==> r == insight.filled_price,
        insight.filled_price is None && insight.limit_price is Some ==> r == insight.limit_price,
        insight.filled_price is None && insight.limit_price is None ==> r
            == insight.profile.stop_price,
{
}

/// What a run does is still to be written where nothing of it was written yet, and is written where
/// it is what was written last.
pub proof fn runs_are_written_from_their_start(
    tracker: LivePerformanceTracker,
    now: LiveMetricsSnapshot,
)
    ensures
        tracker.last_persisted is None ==> tracker.unwritten(now),
        tracker.last_persisted is Some && same_snapshot(tracker.last_persisted->Some_0, now)
            ==> !tracker.unwritten(now),
{
}

} // verus!
