//! The state of a strategy: its settings, what it deals with, and what it takes in.
use polars::prelude::DataFrame;
use vstd::prelude::*;
use vstd::string::StringExecFns;

use crate::asset::Asset;
use crate::collection::{at_id, has_id, marked, took_in, InsightCollection};
use crate::events::{
    event_streams_for_symbol, symbol_streams, EventStreamRequest, EventStreamType,
    ResolvedEventStream, StrategyEventContext,
};
use crate::ids::random_uuid;
use crate::indicator::{backfill, backfilled, BackfillState, Indicator};
use crate::insight::{Insight, InsightState, InsightView};
use crate::number::Number;
use crate::table::Table;
use crate::text::{list_holds, listed, lowercase, text_eq, to_lowercase, trim, trimmed};
use crate::time::UtcTime;
use crate::timeframe::TimeFrame;
use crate::types::{begin_teardown, torn_down, StrategyMode, StrategyStatus};

verus! {

/// The rows that a history holds at most, where nothing else is set.
pub const DEFAULT_MAX_HISTORY_ROWS: usize = 2000;

/// The bits of the number 0.02.
pub const TWO_HUNDREDTHS: u64 = 0x3f94_7ae1_47ae_147b;

/// The bits of the number 1.
pub const ONE: u64 = 0x3ff0_0000_0000_0000;

/// The bits of the number 2.
pub const TWO: u64 = 0x4000_0000_0000_0000;

/// A strategy, as its models see it.
pub trait StrategyContext {
    /// Whether adding `insight` may leave the strategy so; where nothing is said of it, it may leave
    /// anything.
    open spec fn may_add(&self, insight: Insight, after: &Self) -> bool {
        true
    }

    /// Takes in an insight.
    fn add_insight(&mut self, insight: Insight)
        ensures
            old(self).may_add(insight, final(self)),
    ;
}

/// Access to the broker of a strategy.
pub trait BrokerAccess<B> {
    /// The broker.
    fn broker(&self) -> &B;

    /// The broker, to be changed.
    fn broker_mut(&mut self) -> &mut B;
}

/// A strategy with its broker, its settings and its insights.
pub struct StrategyState<S, B> {
    pub strategy_id: u128,
    pub name: String,
    pub version: String,
    /// The strategy, except while it is at work.
    pub strategy: Option<S>,
    pub timeframe: TimeFrame,
    pub insights: InsightCollection,
    pub universe: Vec<Asset>,
    pub broker: B,
    pub status: StrategyStatus,
    pub mode: StrategyMode,
    pub event_stream_requests: Vec<EventStreamRequest>,
    pub event_context_stack: Vec<StrategyEventContext>,
    /// The names of the indicators.
    pub indicators: Vec<String>,
    pub warm_up_bars: i32,
    pub warm_up_progress: Table<i32>,
    pub execution_risk: Number,
    pub min_reward_risk_ratio: Number,
    pub base_confidence: Number,
    pub max_history_rows: usize,
    pub history_seed_anchor: Option<UtcTime>,
    /// Whether the strategy was told to shut down.
    pub shutdown: bool,
}

/// The rows that a history holds at least: those to warm up on, and one more.
pub open spec fn min_rows(warm_up_bars: i32) -> int {
    if warm_up_bars > 0 {
        warm_up_bars + 1
    } else {
        1
    }
}

/// The assets with `asset`, in the place of the one that has its symbol.
pub open spec fn with_asset(assets: Seq<Asset>, asset: Asset) -> Seq<Asset>
    decreases assets.len(),
{
    if assets.len() == 0 {
        seq![asset]
    } else if assets[0].symbol@ == asset.symbol@ {
        assets.update(0, asset)
    } else {
        seq![assets[0]] + with_asset(assets.drop_first(), asset)
    }
}

/// Whether no two assets have the same symbol.
pub open spec fn symbols_distinct(assets: Seq<Asset>) -> bool {
    forall|i: int, j: int|
        0 <= i < j < assets.len() ==> (#[trigger] assets[i]).symbol@ != (
        #[trigger] assets[j]).symbol@
}

/// The confidence as a share of one: what is above one is taken for percent, of which `hundredth`
/// is the share.
pub open spec fn confidence_share(confidence: Number, hundredth: Number) -> Number {
    let zero = Number::spec_zero();
    let one = Number { bits: ONE };
    if confidence.lt_value(zero) || confidence.eq_value(zero) {
        zero
    } else if confidence.lt_value(one) || confidence.eq_value(one) {
        confidence
    } else if hundredth.lt_value(zero) {
        zero
    } else if one.lt_value(hundredth) {
        one
    } else {
        hundredth
    }
}

/// The confidence as a share of one, where `hundredth` is the hundredth part of it.
pub fn normalize_base_confidence(confidence: Number, hundredth: Number) -> (r: Number)
    ensures
        r == confidence_share(confidence, hundredth),
{
    let zero = Number::zero();
    let one = Number { bits: ONE };
    if confidence.less_than(zero) || confidence.equals(zero) {
        zero
    } else if confidence.less_than(one) || confidence.equals(one) {
        confidence
    } else if hundredth.less_than(zero) {
        zero
    } else if one.less_than(hundredth) {
        one
    } else {
        hundredth
    }
}

/// A confidence that is a number is taken for a share between none and one, and taking it twice
/// changes nothing.
pub proof fn confidence_is_a_share(confidence: Number, hundredth: Number, again: Number)
    requires
        !confidence.is_nan(),
        !hundredth.is_nan(),
    ensures
        !confidence_share(confidence, hundredth).lt_value(Number::spec_zero()),
        !(Number { bits: ONE }).lt_value(confidence_share(confidence, hundredth)),
        confidence_share(confidence_share(confidence, hundredth), again).eq_value(
            confidence_share(confidence, hundredth),
        ),
{
}

impl<S, B> StrategyState<S, B> {
    /// A strategy that has not begun, with a random id.
    pub fn new(
        name: String,
        version: String,
        strategy: S,
        broker: B,
        mode: StrategyMode,
        timeframe: TimeFrame,
    ) -> (r: StrategyState<S, B>)
        ensures
            r.name == name,
            r.version == version,
            r.strategy == Some(strategy),
            r.broker == broker,
            r.mode == mode,
            r.timeframe == timeframe,
            r.status == StrategyStatus::Initialised,
            r.insights.wf(),
            r.insights.insights_view() == Seq::<InsightView>::empty(),
            r.insights.dirty_view() == Seq::<u128>::empty(),
            r.universe@.len() == 0,
            r.event_stream_requests@.len() == 0,
            r.event_context_stack@.len() == 0,
            r.indicators@.len() == 0,
            r.warm_up_bars == 0,
            r.warm_up_progress@ == Map::<Seq<char>, i32>::empty(),
            r.execution_risk == (Number { bits: TWO_HUNDREDTHS }),
            r.min_reward_risk_ratio == (Number { bits: TWO }),
            r.base_confidence == (Number { bits: ONE }),
            r.max_history_rows == DEFAULT_MAX_HISTORY_ROWS,
            r.history_seed_anchor is None,
            !r.shutdown,
    {
        StrategyState {
            strategy_id: random_uuid(),
            name,
            version,
            strategy: Some(strategy),
            timeframe,
            insights: InsightCollection::new(),
            universe: Vec::new(),
            broker,
            status: StrategyStatus::Initialised,
            mode,
            event_stream_requests: Vec::new(),
            event_context_stack: Vec::new(),
            indicators: Vec::new(),
            warm_up_bars: 0,
            warm_up_progress: Table::new(),
            execution_risk: Number { bits: TWO_HUNDREDTHS },
            min_reward_risk_ratio: Number { bits: TWO },
            base_confidence: Number { bits: ONE },
            max_history_rows: DEFAULT_MAX_HISTORY_ROWS,
            history_seed_anchor: None,
            shutdown: false,
        }
    }

    /// The strategy, while it is not at work.
    pub fn strategy(&self) -> (r: &S)
        requires
            self.strategy is Some,
        ensures
            Some(*r) == self.strategy,
    {
        self.strategy.as_ref().unwrap()
    }

    /// The strategy, to be changed, while it is not at work.
    pub fn strategy_mut(&mut self) -> (r: &mut S)
        requires
            old(self).strategy is Some,
        ensures
            Some(*r) == old(self).strategy,
            *final(self) == (StrategyState { strategy: Some(*final(r)), ..*old(self) }),
    {
        self.strategy.as_mut().unwrap()
    }

    /// Takes in an indicator and runs it along each history that is not empty, and gives what failed.
    /// One whose name is known is not taken in, nor run. One that is new is kept whatever its runs
    /// came to.
    pub fn register_indicator<I: Indicator>(
        &mut self,
        indicator: &mut I,
        histories: &mut Vec<DataFrame>,
    ) -> (r: Option<Vec<String>>)
        ensures
            exists|name: String|
                {
                    &&& #[trigger] call_ensures(
                        <I as Indicator>::name,
                        (&*old(indicator),),
                        name,
                    )
                    &&& r is None <==> listed(old(self).indicators@, name@)
                    &&& r is Some ==> final(self).indicators@ == old(self).indicators@.push(name)
                },
            *final(self) == (StrategyState { indicators: final(self).indicators, ..*old(self) }),
            r is None ==> *final(self) == *old(self) && *final(indicator) == *old(indicator)
                && *final(histories) == *old(histories),
            r matches Some(failures) ==> backfilled(
                (BackfillState {
                    indicator: *old(indicator),
                    histories: old(histories)@,
                    failures: Seq::empty(),
                }),
                (BackfillState {
                    indicator: *final(indicator),
                    histories: final(histories)@,
                    failures: failures@,
                }),
            ),
    {
        let name = indicator.name();
        if list_holds(&self.indicators, name.as_str()) {
            return None;
        }
        let failures = backfill(indicator, histories);
        self.indicators.push(name);
        Some(failures)
    }

    fn min_history_rows(&self) -> (r: usize)
        ensures
            r == min_rows(self.warm_up_bars),
    {
        if self.warm_up_bars > 0 {
            self.warm_up_bars as usize + 1
        } else {
            1
        }
    }

    /// The bars that the strategy is to see before it begins.
    pub fn warm_up_bars(&self) -> (r: i32)
        ensures
            r == self.warm_up_bars,
    {
        self.warm_up_bars
    }

    /// Sets the bars that the strategy is to see before it begins. The number is only raised, never
    /// lowered, so that each part of a strategy gets what it needs.
    pub fn set_warm_up_bars(&mut self, bars: i32)
        ensures
            *final(self) == (StrategyState {
                warm_up_bars: if bars > old(self).warm_up_bars {
                    bars
                } else {
                    old(self).warm_up_bars
                },
                ..*old(self)
            }),
    {
        if bars > self.warm_up_bars {
            self.warm_up_bars = bars;
        }
    }

    /// Sets the share of the account that a trade may risk.
    pub fn set_execution_risk(&mut self, risk: Number)
        ensures
            *final(self) == (StrategyState { execution_risk: risk, ..*old(self) }),
    {
        self.execution_risk = risk;
    }

    /// Sets the reward that a trade must promise for its risk.
    pub fn set_min_reward_risk_ratio(&mut self, ratio: Number)
        ensures
            *final(self) == (StrategyState { min_reward_risk_ratio: ratio, ..*old(self) }),
    {
        self.min_reward_risk_ratio = ratio;
    }

    /// Sets the confidence that insights begin with, where `hundredth` is the hundredth part of it.
    pub fn set_base_confidence(&mut self, confidence: Number, hundredth: Number)
        ensures
            *final(self) == (StrategyState {
                base_confidence: confidence_share(confidence, hundredth),
                ..*old(self)
            }),
    {
        self.base_confidence = normalize_base_confidence(confidence, hundredth);
    }

    /// The confidence that insights begin with.
    pub fn base_confidence(&self) -> (r: Number)
        ensures
            r == self.base_confidence,
    {
        self.base_confidence
    }

    /// The rows that a history holds at most: what was set, but no fewer than the strategy needs to
    /// warm up.
    pub fn max_history_rows(&self) -> (r: usize)
        ensures
            r == (if self.max_history_rows > min_rows(self.warm_up_bars) {
                self.max_history_rows as int
            } else {
                min_rows(self.warm_up_bars)
            }),
    {
        let min = self.min_history_rows();
        if self.max_history_rows > min {
            self.max_history_rows
        } else {
            min
        }
    }

    /// Sets the rows that a history holds at most.
    pub fn update_max_history_rows(&mut self, rows: usize)
        ensures
            *final(self) == (StrategyState { max_history_rows: rows, ..*old(self) }),
    {
        self.max_history_rows = rows;
    }

    /// Tells the strategy to shut down.
    pub fn shutdown(&mut self)
        ensures
            *final(self) == (StrategyState { shutdown: true, ..*old(self) }),
    {
        self.shutdown = true;
    }

    /// The time frame.
    pub fn timeframe(&self) -> (r: TimeFrame)
        ensures
            r == self.timeframe,
    {
        self.timeframe
    }

    /// Sets the time frame.
    pub fn set_timeframe(&mut self, timeframe: TimeFrame)
        ensures
            *final(self) == (StrategyState { timeframe, ..*old(self) }),
    {
        self.timeframe = timeframe;
    }

    /// Asks for a stream of market data that is only looked at.
    pub fn add_events(&mut self, event_type: EventStreamType, timeframe: Option<TimeFrame>)
        ensures
            final(self).event_stream_requests@ == old(self).event_stream_requests@.push(
                EventStreamRequest {
                    event_type,
                    timeframe,
                    options: crate::events::EventStreamOptions { allow_trading: false },
                },
            ),
            *final(self) == (StrategyState {
                event_stream_requests: final(self).event_stream_requests,
                ..*old(self)
            }),
    {
        self.add_events_with_options(EventStreamRequest::new(event_type, timeframe));
    }

    /// Asks for a stream of market data.
    pub fn add_events_with_options(&mut self, request: EventStreamRequest)
        ensures
            final(self).event_stream_requests@ == old(self).event_stream_requests@.push(request),
            *final(self) == (StrategyState {
                event_stream_requests: final(self).event_stream_requests,
                ..*old(self)
            }),
    {
        self.event_stream_requests.push(request);
    }

    /// The streams of a symbol.
    pub fn streams_for_symbol(&self, symbol: &str) -> (r: Vec<ResolvedEventStream>)
        ensures
            crate::events::stream_views(r@) == symbol_streams(
                Seq::empty(),
                symbol@,
                self.timeframe,
                self.event_stream_requests@,
            ),
    {
        event_streams_for_symbol(symbol, self.timeframe, &self.event_stream_requests)
    }

    /// The streams whose history is read before the strategy begins: none where it needs no bars.
    pub fn preseed_streams(&self, symbol: &str, warmup_bars: i32) -> (r: Vec<ResolvedEventStream>)
        ensures
            warmup_bars <= 0 ==> r@.len() == 0,
            warmup_bars > 0 ==> crate::events::stream_views(r@) == symbol_streams(
                Seq::empty(),
                symbol@,
                self.timeframe,
                self.event_stream_requests@,
            ),
    {
        if warmup_bars <= 0 {
            Vec::new()
        } else {
            self.streams_for_symbol(symbol)
        }
    }

    /// The event that the strategy is at.
    pub fn current_event_context(&self) -> (r: Option<&StrategyEventContext>)
        ensures
            match r {
                Some(context) => self.event_context_stack@.len() > 0 && *context
                    == self.event_context_stack@.last(),
                None => self.event_context_stack@.len() == 0,
            },
    {
        if self.event_context_stack.len() > 0 {
            Some(&self.event_context_stack[self.event_context_stack.len() - 1])
        } else {
            None
        }
    }

    /// The strategy comes to an event.
    pub fn enter_event(&mut self, context: StrategyEventContext)
        ensures
            final(self).event_context_stack@ == old(self).event_context_stack@.push(context),
            *final(self) == (StrategyState {
                event_context_stack: final(self).event_context_stack,
                ..*old(self)
            }),
    {
        self.event_context_stack.push(context);
    }

    /// The strategy is done with the event that it is at, and is back at the one before.
    pub fn leave_event(&mut self)
        ensures
            final(self).event_context_stack@ == (if old(self).event_context_stack@.len() > 0 {
                old(self).event_context_stack@.drop_last()
            } else {
                old(self).event_context_stack@
            }),
            *final(self) == (StrategyState {
                event_context_stack: final(self).event_context_stack,
                ..*old(self)
            }),
    {
        let _ = self.event_context_stack.pop();
    }

    /// Begins the teardown: a strategy that has not come to its end is stopping.
    pub fn begin_teardown(&mut self)
        ensures
            *final(self) == (StrategyState { status: torn_down(old(self).status), ..*old(self) }),
    {
        self.status = begin_teardown(self.status);
    }

    /// Takes in an insight, and hands out the ids of the children to submit: those of an insight
    /// that is filled already, outside the teardown. A strategy that is not running takes in no
    /// insights, but for those of its own teardown.
    pub fn add_insight_internal(&mut self, insight: Insight, allow_during_teardown: bool) -> (r: Vec<
        u128,
    >)
        requires
            old(self).insights.wf(),
        ensures
            final(self).insights.wf(),
            *final(self) == (StrategyState { insights: final(self).insights, ..*old(self) }),
            if !(old(self).status is Running) && !allow_during_teardown {
                &&& *final(self) == *old(self)
                &&& r@.len() == 0
            } else {
                &&& final(self).insights.dirty_view() == marked(
                    old(self).insights.dirty_view(),
                    insight@.insight_id,
                )
                &&& took_in(
                    old(self).insights.insights_view(),
                    final(self).insights.insights_view(),
                    insight@,
                )
                &&& r@ == (if !allow_during_teardown && insight@.state == InsightState::Filled {
                    insight@.children
                } else {
                    Seq::empty()
                })
            },
    {
        if !self.status.is_running() && !allow_during_teardown {
            return Vec::new();
        }
        let mut children: Vec<u128> = Vec::new();
        if !allow_during_teardown && insight.state == InsightState::Filled {
            let mut i: usize = 0;
            while i < insight.children.len()
                invariant
                    i <= insight.children.len(),
                    children@ == insight.children@.take(i as int),
                decreases insight.children.len() - i,
            {
                children.push(insight.children[i]);
                i = i + 1;
                proof {
                    assert(insight.children@.take(i as int) =~= insight.children@.take(
                        i - 1,
                    ).push(insight.children@[i - 1]));
                }
            }
            proof {
                assert(insight.children@.take(i as int) =~= insight.children@);
            }
        }
        self.insights.add_insight(insight);
        children
    }

    /// Takes in an insight, and hands out the ids of the children to submit.
    pub fn add_insight(&mut self, insight: Insight) -> (r: Vec<u128>)
        requires
            old(self).insights.wf(),
        ensures
            final(self).insights.wf(),
            *final(self) == (StrategyState { insights: final(self).insights, ..*old(self) }),
            !(old(self).status is Running) ==> *final(self) == *old(self) && r@.len() == 0,
            old(self).status is Running ==> {
                &&& final(self).insights.dirty_view() == marked(
                    old(self).insights.dirty_view(),
                    insight@.insight_id,
                )
                &&& took_in(
                    old(self).insights.insights_view(),
                    final(self).insights.insights_view(),
                    insight@,
                )
                &&& r@ == (if insight@.state == InsightState::Filled {
                    insight@.children
                } else {
                    Seq::empty()
                })
            },
    {
        self.add_insight_internal(insight, false)
    }

    /// Takes in an asset that was looked up, if it can be traded. Says whether it can.
    pub fn admit_asset(&mut self, asset: Asset) -> (r: bool)
        ensures
            r == asset.tradable,
            !r ==> *final(self) == *old(self),
            r ==> final(self).universe@ == with_asset(old(self).universe@, asset),
            *final(self) == (StrategyState { universe: final(self).universe, ..*old(self) }),
    {
        if !asset.tradable {
            return false;
        }
        let ghost before = self.universe@;
        let mut i: usize = 0;
        proof {
            assert(before.skip(0) =~= before);
            assert(before.take(0) + with_asset(before.skip(0), asset) =~= with_asset(
                before,
                asset,
            ));
        }
        while i < self.universe.len()
            invariant
                i <= self.universe.len(),
                *self == *old(self),
                before == self.universe@,
                asset.tradable,
                with_asset(before, asset) == before.take(i as int) + with_asset(
                    before.skip(i as int),
                    asset,
                ),
            decreases self.universe.len() - i,
        {
            proof {
                assert(before.skip(i as int).drop_first() =~= before.skip(i + 1));
                assert(before.skip(i as int)[0] == before[i as int]);
            }
            if text_eq(self.universe[i].symbol.as_str(), asset.symbol.as_str()) {
                self.universe.set(i, asset);
                proof {
                    assert(self.universe@ =~= before.take(i as int) + before.skip(
                        i as int,
                    ).update(0, asset));
                }
                return true;
            }
            proof {
                assert(before.take(i as int) + (seq![before[i as int]] + with_asset(
                    before.skip(i + 1),
                    asset,
                )) =~= before.take(i + 1) + with_asset(before.skip(i + 1), asset));
            }
            i = i + 1;
        }
        self.universe.push(asset);
        proof {
            assert(self.universe@ =~= before.take(i as int) + seq![asset]);
        }
        true
    }

    /// The ids of the changed insights that are still there, in the order in which they changed.
    /// The insights are then no longer marked as changed.
    pub fn take_changed_insights(&mut self) -> (r: Vec<u128>)
        requires
            old(self).insights.wf(),
        ensures
            final(self).insights.wf(),
            final(self).insights.insights_view() == old(self).insights.insights_view(),
            final(self).insights.dirty_view().len() == 0,
            *final(self) == (StrategyState { insights: final(self).insights, ..*old(self) }),
            r@ == present_ids(
                old(self).insights.insights_view(),
                old(self).insights.dirty_view(),
            ),
    {
        let dirty = self.insights.take_dirty_insight_ids();
        let mut out: Vec<u128> = Vec::new();
        let mut i: usize = 0;
        while i < dirty.len()
            invariant
                i <= dirty.len(),
                out@ == present_ids(self.insights.insights_view(), dirty@.take(i as int)),
            decreases dirty.len() - i,
        {
            proof {
                assert(dirty@.take(i + 1).drop_last() =~= dirty@.take(i as int));
            }
            match self.insights.position(dirty[i]) {
                Some(at) => {
                    proof {
                        assert(crate::collection::at_id(
                            self.insights.insights_view(),
                            dirty@[i as int],
                            at as int,
                        ));
                    }
                    out.push(dirty[i]);
                },
                None => {},
            }
            i = i + 1;
        }
        proof {
            assert(dirty@.take(i as int) =~= dirty@);
        }
        out
    }

    /// The time of the strategy: in a backtest the time that is replayed, or when the replay starts;
    /// else the time of the broker.
    pub fn current_time(&self, replayed: Option<UtcTime>, broker_time: UtcTime) -> (r: UtcTime)
        ensures
            r == (if self.mode == StrategyMode::Backtest {
                match replayed {
                    Some(time) => time,
                    None => match self.history_seed_anchor {
                        Some(anchor) => anchor,
                        None => broker_time,
                    },
                }
            } else {
                broker_time
            }),
    {
        if self.mode == StrategyMode::Backtest {
            match replayed {
                Some(time) => time,
                None => match self.history_seed_anchor {
                    Some(anchor) => anchor,
                    None => broker_time,
                },
            }
        } else {
            broker_time
        }
    }

    /// The quote that a replayed bar stands for in a backtest; without one the broker is asked.
    pub fn replayed_quote(&self, symbol: &str, bar: Option<BarQuote>) -> (r: Option<Quote>)
        ensures
            match r {
                Some(quote) => self.mode == StrategyMode::Backtest && (bar matches Some(bar)
                    && quote.symbol@ == symbol@ && quote.bid == bar.close && quote.ask == bar.close
                    && quote.bid_size == bar.volume && quote.ask_size == bar.volume && quote.last
                    == Some(bar.close) && quote.last_size == Some(bar.volume) && quote.timestamp
                    == bar.timestamp),
                None => self.mode != StrategyMode::Backtest || bar is None,
            },
    {
        if self.mode == StrategyMode::Backtest {
            match bar {
                Some(bar) => Some(
                    Quote {
                        symbol: symbol.to_owned(),
                        bid: bar.close,
                        ask: bar.close,
                        bid_size: bar.volume,
                        ask_size: bar.volume,
                        last: Some(bar.close),
                        last_size: Some(bar.volume),
                        timestamp: bar.timestamp,
                    },
                ),
                None => None,
            }
        } else {
            None
        }
    }
}

impl<S, B> BrokerAccess<B> for StrategyState<S, B> {
    /// The broker.
    fn broker(&self) -> (r: &B)
        ensures
            *r == self.broker,
    {
        &self.broker
    }

    /// The broker, to be changed.
    fn broker_mut(&mut self) -> (r: &mut B)
        ensures
            *r == old(self).broker,
            *final(self) == (StrategyState { broker: *final(r), ..*old(self) }),
    {
        &mut self.broker
    }
}

/// The ids of those insights that are there.
pub open spec fn present_ids(insights: Seq<InsightView>, ids: Seq<u128>) -> Seq<u128>
    decreases ids.len(),
{
    if ids.len() == 0 {
        Seq::empty()
    } else {
        let before = present_ids(insights, ids.drop_last());
        if has_id(insights, ids.last()) {
            before.push(ids.last())
        } else {
            before
        }
    }
}

/// The close of a bar that is replayed, with its volume and its time.
#[derive(Clone, Copy, Debug)]
pub struct BarQuote {
    pub close: Number,
    pub volume: Number,
    pub timestamp: UtcTime,
}

/// What a symbol is offered and asked for at.
#[derive(Clone, Debug)]
pub struct Quote {
    pub symbol: String,
    pub bid: Number,
    pub ask: Number,
    pub bid_size: Number,
    pub ask_size: Number,
    pub last: Option<Number>,
    pub last_size: Option<Number>,
    pub timestamp: UtcTime,
}

/// The price that a quote gives: that of the last trade, or the middle of bid and ask, `middle`,
/// if it is a finite number.
pub fn price_of_quote(quote: &Quote, middle: Number) -> (r: Option<Number>)
    ensures
        ({
            let price = match quote.last {
                Some(last) => last,
                None => middle,
            };
            r == (if price.magnitude() < crate::number::INFINITE {
                Some(price)
            } else {
                None
            })
        }),
{
    let price = match quote.last {
        Some(last) => last,
        None => middle,
    };
    if price.is_finite() {
        Some(price)
    } else {
        None
    }
}

/// Whether an asset has the symbol `s`.
pub open spec fn has_symbol(assets: Seq<Asset>, s: Seq<char>) -> bool {
    exists|k: int| 0 <= k < assets.len() && (#[trigger] assets[k]).symbol@ == s
}

proof fn symbols_grow(assets: Seq<Asset>, asset: Asset, s: Seq<char>)
    requires
        has_symbol(with_asset(assets, asset), s),
    ensures
        has_symbol(assets, s) || s == asset.symbol@,
    decreases assets.len(),
{
    let all = with_asset(assets, asset);
    let i = choose|i: int| 0 <= i < all.len() && (#[trigger] all[i]).symbol@ == s;
    if assets.len() > 0 {
        if assets[0].symbol@ == asset.symbol@ {
            if i > 0 {
                assert(assets[i].symbol@ == s);
            }
        } else if i == 0 {
            assert(assets[0].symbol@ == s);
        } else {
            let rest = assets.drop_first();
            assert(with_asset(rest, asset)[i - 1].symbol@ == s);
            symbols_grow(rest, asset, s);
            if has_symbol(rest, s) {
                let k = choose|k: int| 0 <= k < rest.len() && (#[trigger] rest[k]).symbol@ == s;
                assert(assets[k + 1].symbol@ == s);
            }
        }
    }
}

/// An asset that is taken in twice is there once.
pub proof fn assets_stay_distinct(assets: Seq<Asset>, asset: Asset)
    requires
        symbols_distinct(assets),
    ensures
        symbols_distinct(with_asset(assets, asset)),
    decreases assets.len(),
{
    let all = with_asset(assets, asset);
    if assets.len() > 0 {
        if assets[0].symbol@ == asset.symbol@ {
            assert forall|i: int, j: int| 0 <= i < j < all.len() implies (
            #[trigger] all[i]).symbol@ != (#[trigger] all[j]).symbol@ by {
                assert(assets[i].symbol@ == all[i].symbol@);
                assert(assets[j].symbol@ == all[j].symbol@);
            }
        } else {
            let rest = assets.drop_first();
            let grown = with_asset(rest, asset);
            assert forall|i: int, j: int| 0 <= i < j < rest.len() implies (
            #[trigger] rest[i]).symbol@ != (#[trigger] rest[j]).symbol@ by {
                assert(rest[i] == assets[i + 1] && rest[j] == assets[j + 1]);
            }
            assets_stay_distinct(rest, asset);
            assert forall|i: int, j: int| 0 <= i < j < all.len() implies (
            #[trigger] all[i]).symbol@ != (#[trigger] all[j]).symbol@ by {
                assert(all[j] == grown[j - 1]);
                if i == 0 {
                    let s = grown[j - 1].symbol@;
                    assert(has_symbol(grown, s));
                    symbols_grow(rest, asset, s);
                    if has_symbol(rest, s) {
                        let k = choose|k: int|
                            0 <= k < rest.len() && (#[trigger] rest[k]).symbol@ == s;
                        assert(assets[0].symbol@ != assets[k + 1].symbol@);
                    }
                } else {
                    assert(all[i] == grown[i - 1]);
                }
            }
        }
    }
}

/// What a model made of a symbol.
#[derive(Debug)]
pub struct AlphaResult {
    pub success: bool,
    pub message: Option<String>,
    pub insight: Option<Insight>,
}

impl AlphaResult {
    /// The insight that is taken in: the one of a model that succeeded.
    pub fn accepted(self) -> (r: Option<Insight>)
        ensures
            r == (if self.success {
                self.insight
            } else {
                None
            }),
    {
        if self.success {
            self.insight
        } else {
            None
        }
    }
}

/// When a block of logic runs: before or after the strategy's own.
#[derive(Clone, Copy, Debug, PartialEq, Eq, Structural, Hash)]
pub enum LifecycleTiming {
    BeforeGenerated,
    AfterGenerated,
}

/// The places at which `timing` stands.
pub open spec fn places_of(timings: Seq<LifecycleTiming>, timing: LifecycleTiming) -> Seq<usize>
    decreases timings.len(),
{
    if timings.len() == 0 {
        Seq::empty()
    } else {
        let before = places_of(timings.drop_last(), timing);
        if timings.last() == timing {
            before.push((timings.len() - 1) as usize)
        } else {
            before
        }
    }
}

/// The blocks of logic that run now, in the order in which they were added.
pub fn logic_due(timings: &Vec<LifecycleTiming>, timing: LifecycleTiming) -> (r: Vec<usize>)
    ensures
        r@ == places_of(timings@, timing),
{
    let mut out: Vec<usize> = Vec::new();
    let mut i: usize = 0;
    while i < timings.len()
        invariant
            i <= timings.len(),
            out@ == places_of(timings@.take(i as int), timing),
        decreases timings.len() - i,
    {
        proof {
            assert(timings@.take(i + 1).drop_last() =~= timings@.take(i as int));
        }
        if timings[i] == timing {
            out.push(i);
        }
        i = i + 1;
    }
    proof {
        assert(timings@.take(i as int) =~= timings@);
    }
    out
}

/// The blocks of logic once they have run: those that were there, and behind them those that were
/// added meanwhile.
pub fn rejoin<L>(ran: Vec<L>, added: Vec<L>) -> (r: Vec<L>)
    ensures
        r@ == ran@ + added@,
{
    let mut all = ran;
    let mut rest = added;
    all.append(&mut rest);
    all
}

/// What is logged: `level`, or `info` where it is empty, and less of what the libraries say.
pub fn log_filter(level: &str) -> (r: String)
    ensures
        r@ == (if lowercase(trimmed(level@)).len() == 0 {
            "info"@
        } else {
            lowercase(trimmed(level@))
        }) + ",tracing::span=warn,turso=warn,libsql=warn"@,
{
    let level = to_lowercase(trim(level).as_str());
    let mut filter = if level.as_str().unicode_len() == 0 {
        "info".to_owned()
    } else {
        level
    };
    filter.append(",tracing::span=warn,turso=warn,libsql=warn");
    filter
}

/// Only a running strategy takes an insight in. It then has exactly one insight of that id, that one,
/// keeps all others, is to write it out, and hands out the children of one that is filled.
pub proof fn running_strategies_take_insights_in<S, B>(i: int)
    ensures
        forall|state: &mut StrategyState<S, B>, insight: Insight, r: Vec<u128>| #[trigger]
            call_ensures(StrategyState::<S, B>::add_insight, (state, insight), r) ==> {
                let before = state.insights.insights_view();
                let after = final(state).insights.insights_view();
                &&& !(state.status is Running) ==> *final(state) == *state && r@.len() == 0
                &&& state.status is Running ==> {
                    &&& exists|k: int|
                        0 <= k < after.len() && (#[trigger] after[k]) == insight@
                    &&& 0 <= i < before.len() && before[i].insight_id != insight@.insight_id
                        ==> after[i] == before[i]
                    &&& final(state).insights.dirty_view().contains(insight@.insight_id)
                    &&& insight@.state is Filled ==> r@ == insight@.children
                    &&& !(insight@.state is Filled) ==> r@.len() == 0
                    &&& final(state).status == state.status
                }
            },
{
    assert forall|state: &mut StrategyState<S, B>, insight: Insight, r: Vec<u128>| #[trigger]
        call_ensures(StrategyState::<S, B>::add_insight, (state, insight), r)
            && state.status is Running implies {
        let before = state.insights.insights_view();
        let after = final(state).insights.insights_view();
        &&& exists|k: int| 0 <= k < after.len() && (#[trigger] after[k]) == insight@
        &&& 0 <= i < before.len() && before[i].insight_id != insight@.insight_id ==> after[i]
            == before[i]
        &&& final(state).insights.dirty_view().contains(insight@.insight_id)
    } by {
        let before = state.insights.insights_view();
        let after = final(state).insights.insights_view();
        let dirty = state.insights.dirty_view();
        let id = insight@.insight_id;
        if !dirty.contains(id) {
            assert(dirty.push(id)[dirty.len() as int] == id);
        }
        if has_id(before, id) {
            let at = choose|at: int| #[trigger]
                at_id(before, id, at) && after == before.update(at, insight@);
            assert(after[at] == insight@);
        } else {
            assert(after[before.len() as int] == insight@);
        }
    }
}

/// While a strategy is torn down its own insights come back to it: they are taken in whatever its
/// status is, and release no children.
pub proof fn insights_come_back_during_teardown<S, B>()
    ensures
        forall|state: &mut StrategyState<S, B>, insight: Insight, r: Vec<u128>| #[trigger]
            call_ensures(StrategyState::<S, B>::add_insight_internal, (state, insight, true), r)
                ==> r@.len() == 0 && has_id(
                final(state).insights.insights_view(),
                insight@.insight_id,
            ),
        forall|state: &mut StrategyState<S, B>, insight: Insight, r: Vec<u128>| #[trigger]
            call_ensures(StrategyState::<S, B>::add_insight_internal, (state, insight, false), r)
                && !(state.status is Running) ==> r@.len() == 0 && *final(state) == *state,
{
    assert forall|state: &mut StrategyState<S, B>, insight: Insight, r: Vec<u128>| #[trigger]
        call_ensures(
            StrategyState::<S, B>::add_insight_internal,
            (state, insight, true),
            r,
        ) implies has_id(final(state).insights.insights_view(), insight@.insight_id) by {
        let before = state.insights.insights_view();
        let after = final(state).insights.insights_view();
        let id = insight@.insight_id;
        if has_id(before, id) {
            let at = choose|at: int| #[trigger]
                at_id(before, id, at) && after == before.update(at, insight@);
            assert(at_id(after, id, at));
        } else {
            assert(at_id(after, id, before.len() as int));
        }
    }
}

/// The bars that a strategy warms up with are only raised, to the most that was asked for; the rows
/// that it keeps are as many as it set, and never too few to warm up with, nor none.
pub proof fn histories_hold_the_warm_up<S, B>(state: &StrategyState<S, B>, rows: usize)
    requires
        call_ensures(StrategyState::<S, B>::max_history_rows, (state,), rows),
    ensures
        rows >= 1,
        state.warm_up_bars > 0 ==> rows > state.warm_up_bars,
        rows >= state.max_history_rows,
        state.max_history_rows > 1 && state.max_history_rows > state.warm_up_bars + 1 ==> rows
            == state.max_history_rows,
        forall|s: &mut StrategyState<S, B>, bars: i32| #[trigger]
            call_ensures(StrategyState::<S, B>::set_warm_up_bars, (s, bars), ()) ==> {
                &&& final(s).warm_up_bars >= bars
                &&& final(s).warm_up_bars >= s.warm_up_bars
                &&& final(s).warm_up_bars == bars || final(s).warm_up_bars == s.warm_up_bars
            },
{
}

/// A confidence is a share of one: one above one is read as a percentage, one within stays, one that is
/// not above zero is none, and a percentage beyond a hundred is all.
pub proof fn confidences_are_shares(confidence: Number, hundredth: Number)
    requires
        !confidence.is_nan(),
        !hundredth.is_nan(),
    ensures
        confidence.rank() <= 0 ==> confidence_share(confidence, hundredth).bits == 0,
        0 < confidence.rank() <= 0x3ff0_0000_0000_0000 ==> confidence_share(confidence, hundredth)
            == confidence,
        confidence.rank() > 0x3ff0_0000_0000_0000 && 0 <= hundredth.rank()
            <= 0x3ff0_0000_0000_0000 ==> confidence_share(confidence, hundredth) == hundredth,
        confidence.rank() > 0x3ff0_0000_0000_0000 && hundredth.rank() > 0x3ff0_0000_0000_0000
            ==> confidence_share(confidence, hundredth).bits == 0x3ff0_0000_0000_0000,
{
}

/// A backtest lives in the time of the bars that it replays, before the first of them in that of its
/// start; a live run lives in the time of its broker.
pub proof fn strategies_live_in_their_time<S, B>(
    state: &StrategyState<S, B>,
    replayed: Option<UtcTime>,
    broker_time: UtcTime,
    r: UtcTime,
)
    requires
        call_ensures(StrategyState::<S, B>::current_time, (state, replayed, broker_time), r),
    ensures
        state.mode is Live ==> r == broker_time,
        state.mode is Backtest && replayed is Some ==> Some(r) == replayed,
        state.mode is Backtest && replayed is None && state.history_seed_anchor is Some ==> Some(r)
            == state.history_seed_anchor,
{
}

/// In a backtest the quote of a symbol is that of the bar that is replayed: all at its close, with its
/// volume and its time. A live run asks the broker.
pub proof fn backtests_quote_their_bars<S, B>(
    state: &StrategyState<S, B>,
    symbol: &str,
    bar: Option<BarQuote>,
    r: Option<Quote>,
)
    requires
        call_ensures(StrategyState::<S, B>::replayed_quote, (state, symbol, bar), r),
    ensures
        r is Some <==> state.mode is Backtest && bar is Some,
        r matches Some(quote) ==> {
            &&& quote.symbol@ == symbol@
            &&& quote.bid == bar->Some_0.close && quote.ask == bar->Some_0.close
            &&& quote.last == Some(bar->Some_0.close)
            &&& quote.bid_size == bar->Some_0.volume && quote.ask_size == bar->Some_0.volume
            &&& quote.timestamp == bar->Some_0.timestamp
        },
{
}

/// The price of a quote is its last one, else the middle, if that is finite.
pub proof fn quotes_have_their_last_price(quote: &Quote, middle: Number, r: Option<Number>)
    requires
        call_ensures(price_of_quote, (quote, middle), r),
    ensures
        r is Some ==> r == quote.last || (quote.last is None && r == Some(middle)),
        quote.last matches Some(last) && last.magnitude() < 0x7ff0_0000_0000_0000 ==> r
            == quote.last,
        quote.last is None && middle.magnitude() < 0x7ff0_0000_0000_0000 ==> r == Some(middle),
        r matches Some(price) ==> price.magnitude() < 0x7ff0_0000_0000_0000,
{
}

/// Only assets that can be traded are taken into the universe, each under its own symbol.
pub proof fn tradable_assets_are_admitted<S, B>(i: int)
    ensures
        forall|state: &mut StrategyState<S, B>, asset: Asset, r: bool| #[trigger]
            call_ensures(StrategyState::<S, B>::admit_asset, (state, asset), r) ==> {
                &&& r == asset.tradable
                &&& !asset.tradable ==> final(state).universe == state.universe
                &&& asset.tradable ==> has_symbol(final(state).universe@, asset.symbol@)
                &&& 0 <= i < state.universe@.len() && state.universe@[i].symbol@ != asset.symbol@
                    ==> final(state).universe@[i] == state.universe@[i]
                &&& final(state).universe@.len() <= state.universe@.len() + 1
            },
{
    assert forall|state: &mut StrategyState<S, B>, asset: Asset, r: bool| #[trigger]
        call_ensures(StrategyState::<S, B>::admit_asset, (state, asset), r) implies {
        &&& asset.tradable ==> has_symbol(final(state).universe@, asset.symbol@)
        &&& 0 <= i < state.universe@.len() && state.universe@[i].symbol@ != asset.symbol@
            ==> final(state).universe@[i] == state.universe@[i]
        &&& final(state).universe@.len() <= state.universe@.len() + 1
    } by {
        asset_is_there(state.universe@, asset, i);
    }
}

proof fn asset_is_there(assets: Seq<Asset>, asset: Asset, i: int)
    ensures
        has_symbol(with_asset(assets, asset), asset.symbol@),
        with_asset(assets, asset).contains(asset),
        assets.len() <= with_asset(assets, asset).len() <= assets.len() + 1,
        0 <= i < assets.len() && assets[i].symbol@ != asset.symbol@ ==> with_asset(
            assets,
            asset,
        )[i] == assets[i],
    decreases assets.len(),
{
    let all = with_asset(assets, asset);
    if assets.len() == 0 || assets[0].symbol@ == asset.symbol@ {
        assert(all[0] == asset);
    } else {
        let rest = with_asset(assets.drop_first(), asset);
        asset_is_there(assets.drop_first(), asset, i - 1);
        let k = choose|k: int| 0 <= k < rest.len() && rest[k] == asset;
        assert(all[k + 1] == asset);
    }
}

/// The blocks of logic that run at a time are those that were asked for then, each once and in order.
pub proof fn logic_runs_at_its_time(timings: Seq<LifecycleTiming>, timing: LifecycleTiming, i: int)
    requires
        timings.len() <= usize::MAX,
        0 <= i < timings.len(),
    ensures
        places_of(timings, timing).contains(i as usize) <==> timings[i] == timing,
        forall|a: int, b: int|
            0 <= a < b < places_of(timings, timing).len() ==> #[trigger] places_of(
                timings,
                timing,
            )[a] < #[trigger] places_of(timings, timing)[b],
        forall|a: int|
            0 <= a < places_of(timings, timing).len() ==> #[trigger] places_of(timings, timing)[a]
                < timings.len(),
    decreases timings.len(),
{
    let all = places_of(timings, timing);
    let before = places_of(timings.drop_last(), timing);
    let last = timings.len() - 1;
    if last > 0 {
        logic_runs_at_its_time(
            timings.drop_last(),
            timing,
            if i < last {
                i
            } else {
                0
            },
        );
    } else {
        assert(before.len() == 0);
    }
    if timings[last] == timing {
        assert(all =~= before.push(last as usize));
        assert(all[before.len() as int] == last as usize);
        if i < last && before.contains(i as usize) {
            let k = choose|k: int| 0 <= k < before.len() && before[k] == i as usize;
            assert(all[k] == i as usize);
        }
        if i < last && all.contains(i as usize) {
            let k = choose|k: int| 0 <= k < all.len() && all[k] == i as usize;
            assert(k < before.len());
            assert(before[k] == i as usize);
        }
    } else if i == last && all.contains(i as usize) {
        let k = choose|k: int| 0 <= k < all.len() && all[k] == i as usize;
        assert(before[k] < last);
    }
}

/// What changed is handed out once: the ids of those that changed and are still there, in order, and
/// then nothing is left to hand out.
pub proof fn changes_are_handed_out_once<S, B>(id: u128)
    ensures
        forall|state: &mut StrategyState<S, B>, r: Vec<u128>| #[trigger]
            call_ensures(StrategyState::<S, B>::take_changed_insights, (state,), r) ==> {
                &&& r@.contains(id) <==> state.insights.dirty_view().contains(id) && has_id(
                    state.insights.insights_view(),
                    id,
                )
                &&& final(state).insights.dirty_view().len() == 0
                &&& final(state).insights.insights_view() == state.insights.insights_view()
            },
{
    assert forall|state: &mut StrategyState<S, B>, r: Vec<u128>| #[trigger]
        call_ensures(StrategyState::<S, B>::take_changed_insights, (state,), r) implies (
    r@.contains(id) <==> state.insights.dirty_view().contains(id) && has_id(
        state.insights.insights_view(),
        id,
    )) by {
        present_ids_are_there(state.insights.insights_view(), state.insights.dirty_view(), id);
    }
}

proof fn present_ids_are_there(insights: Seq<InsightView>, ids: Seq<u128>, id: u128)
    ensures
        present_ids(insights, ids).contains(id) <==> ids.contains(id) && has_id(insights, id),
    decreases ids.len(),
{
    if ids.len() > 0 {
        let rest = ids.drop_last();
        present_ids_are_there(insights, rest, id);
        let before = present_ids(insights, rest);
        let all = present_ids(insights, ids);
        assert(ids =~= rest.push(ids.last()));
        if has_id(insights, ids.last()) {
            assert(all[before.len() as int] == ids.last());
            if before.contains(id) {
                let k = choose|k: int| 0 <= k < before.len() && before[k] == id;
                assert(all[k] == id);
            }
        }
        if rest.contains(id) {
            let k = choose|k: int| 0 <= k < rest.len() && rest[k] == id;
            assert(ids[k] == id);
        }
        if id == ids.last() {
            assert(ids[ids.len() - 1] == id);
        }
    }
}

/// A strategy is changed by its setters only in what they name.
pub proof fn strategies_change_by_name<S, B>()
    ensures
        forall|s: &mut StrategyState<S, B>, risk: Number, r: ()| #[trigger]
            call_ensures(StrategyState::<S, B>::set_execution_risk, (s, risk), r) ==> final(s).execution_risk == risk && *final(s) == (StrategyState {
                execution_risk: risk,
                ..*s
            }),
        forall|s: &mut StrategyState<S, B>, ratio: Number, r: ()| #[trigger]
            call_ensures(StrategyState::<S, B>::set_min_reward_risk_ratio, (s, ratio), r)
                ==> *final(s) == (StrategyState { min_reward_risk_ratio: ratio, ..*s }),
        forall|s: &mut StrategyState<S, B>, rows: usize, r: ()| #[trigger]
            call_ensures(StrategyState::<S, B>::update_max_history_rows, (s, rows), r)
                ==> *final(s) == (StrategyState { max_history_rows: rows, ..*s }),
        forall|s: &mut StrategyState<S, B>, r: ()| #[trigger]
            call_ensures(StrategyState::<S, B>::shutdown, (s,), r) ==> *final(s) == (
            StrategyState { shutdown: true, ..*s }),
        forall|s: &mut StrategyState<S, B>, frame: TimeFrame, r: ()| #[trigger]
            call_ensures(StrategyState::<S, B>::set_timeframe, (s, frame), r) ==> *final(s) == (
            StrategyState { timeframe: frame, ..*s }),
        forall|s: &mut StrategyState<S, B>, r: ()| #[trigger]
            call_ensures(StrategyState::<S, B>::begin_teardown, (s,), r) ==> {
                &&& s.status is Stopped || s.status is Completed ==> *final(s) == *s
                &&& !(s.status is Stopped) && !(s.status is Completed) ==> *final(s)
                    == StrategyState { status: StrategyStatus::Stopping, ..*s }
            },
{
}

/// Streams are asked for one behind another; without a word about it they do not trade. What an event
/// is about is known until it is left.
pub proof fn streams_are_asked_for_in_turn<S, B>()
    ensures
        forall|
            s: &mut StrategyState<S, B>,
            event_type: EventStreamType,
            frame: Option<TimeFrame>,
            r: (),
        | #[trigger]
            call_ensures(StrategyState::<S, B>::add_events, (s, event_type, frame), r) ==> {
                let asked = final(s).event_stream_requests@;
                &&& asked.len() == s.event_stream_requests@.len() + 1
                &&& asked.drop_last() == s.event_stream_requests@
                &&& asked.last().event_type == event_type
                &&& asked.last().timeframe == frame
                &&& !asked.last().options.allow_trading
            },
        forall|s: &mut StrategyState<S, B>, request: EventStreamRequest, r: ()| #[trigger]
            call_ensures(StrategyState::<S, B>::add_events_with_options, (s, request), r) ==> {
                let asked = final(s).event_stream_requests@;
                &&& asked.len() == s.event_stream_requests@.len() + 1
                &&& asked.drop_last() == s.event_stream_requests@
                &&& asked.last() == request
            },
        forall|s: &mut StrategyState<S, B>, context: StrategyEventContext, r: ()| #[trigger]
            call_ensures(StrategyState::<S, B>::enter_event, (s, context), r) ==> {
                &&& final(s).event_context_stack@.len() == s.event_context_stack@.len() + 1
                &&& final(s).event_context_stack@.last() == context
                &&& final(s).event_context_stack@.drop_last() == s.event_context_stack@
                &&& final(s).status == s.status
            },
        forall|s: &mut StrategyState<S, B>, r: ()| #[trigger]
            call_ensures(StrategyState::<S, B>::leave_event, (s,), r) ==> {
                &&& s.event_context_stack@.len() > 0 ==> final(s).event_context_stack@
                    == s.event_context_stack@.take(s.event_context_stack@.len() - 1)
                &&& s.event_context_stack@.len() == 0 ==> final(s).event_context_stack@.len() == 0
                &&& final(s).status == s.status
            },
{
    assert forall|a: Seq<EventStreamRequest>, x: EventStreamRequest| #[trigger]
        a.push(x).drop_last() == a by {
        assert(a.push(x).drop_last() =~= a);
    }
    assert forall|a: Seq<StrategyEventContext>, x: StrategyEventContext| #[trigger]
        a.push(x).drop_last() == a by {
        assert(a.push(x).drop_last() =~= a);
    }
    assert forall|a: Seq<StrategyEventContext>| a.len() > 0 implies #[trigger] a.drop_last()
        == a.take(a.len() - 1) by {
        assert(a.drop_last() =~= a.take(a.len() - 1));
    }
}

/// What an event is about is told by the innermost one that is being handled.
pub proof fn the_innermost_event_counts<S, B>(
    s: &StrategyState<S, B>,
    r: Option<&StrategyEventContext>,
)
    requires
        call_ensures(StrategyState::<S, B>::current_event_context, (s,), r),
    ensures
        s.event_context_stack@.len() == 0 ==> r is None,
        s.event_context_stack@.len() > 0 ==> r is Some && *r->Some_0
            == s.event_context_stack@[s.event_context_stack@.len() - 1],
{
}

} // verus!
