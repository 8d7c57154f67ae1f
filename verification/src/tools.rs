//! Tools that a strategy works with.
use vstd::prelude::*;

use crate::asset::{asset_at, find_asset, price_rounding, quantity_rounding, Asset, Rounding};
use crate::collection::InsightCollection;
use crate::insight::{Insight, InsightState, InsightView};

verus! {

/// What a strategy's tools look at: its universe, its insights and its broker.
pub struct StrategyTools<'a, B> {
    pub universe: &'a Vec<Asset>,
    pub insights: &'a InsightCollection,
    pub broker: &'a B,
}

impl<'a, B> StrategyTools<'a, B> {
    /// Tools that look at the given parts.
    pub fn new(
        universe: &'a Vec<Asset>,
        insights: &'a InsightCollection,
        broker: &'a B,
    ) -> (r: StrategyTools<'a, B>)
        ensures
            r.universe == universe,
            r.insights == insights,
            r.broker == broker,
    {
        StrategyTools { universe, insights, broker }
    }

    /// How prices of a symbol are rounded, or `None` for a symbol outside the universe.
    pub fn price_rounding(&self, symbol: &str) -> (r: Option<Rounding>)
        ensures
            match asset_at(self.universe@, symbol@, 0) {
                Some(at) => r == Some(
                    match self.universe@[at].price_base {
                        Some(base) => Rounding::Digits(base),
                        None => Rounding::Increment(self.universe@[at].min_price_increment),
                    },
                ),
                None => r is None,
            },
    {
        match find_asset(self.universe, symbol) {
            Some(at) => Some(price_rounding(&self.universe[at])),
            None => None,
        }
    }

    /// How quantities of a symbol are rounded, or `None` for a symbol outside the universe.
    pub fn quantity_rounding(&self, symbol: &str) -> (r: Option<Rounding>)
        ensures
            match asset_at(self.universe@, symbol@, 0) {
                Some(at) => r == Some(
                    match self.universe@[at].quantity_base {
                        Some(base) => Rounding::Digits(base),
                        None => Rounding::Increment(self.universe@[at].min_order_size),
                    },
                ),
                None => r is None,
            },
    {
        match find_asset(self.universe, symbol) {
            Some(at) => Some(quantity_rounding(&self.universe[at])),
            None => None,
        }
    }

    /// The insights with an open position.
    pub fn get_filled_insights(&self) -> (r: Vec<Insight>)
        ensures
            crate::collection::views(r@) == filled(self.insights.insights_view()),
    {
        filled_insights_from_collection(self.insights)
    }
}

/// The insights with an open position, in order.
pub open spec fn filled(insights: Seq<InsightView>) -> Seq<InsightView>
    decreases insights.len(),
{
    if insights.len() == 0 {
        Seq::empty()
    } else if insights.last().state is Filled {
        filled(insights.drop_last()).push(insights.last())
    } else {
        filled(insights.drop_last())
    }
}

/// Copies of the insights with an open position, in order.
pub fn filled_insights_from_collection(insights: &InsightCollection) -> (r: Vec<Insight>)
    ensures
        crate::collection::views(r@) == filled(insights.insights_view()),
{
    let ghost all = insights.insights_view();
    let mut out: Vec<Insight> = Vec::new();
    let mut i: usize = 0;
    proof {
        assert(crate::collection::views(out@) =~= filled(all.take(0)));
    }
    while i < insights.len()
        invariant
            i <= all.len(),
            all == insights.insights_view(),
            crate::collection::views(out@) == filled(all.take(i as int)),
        decreases all.len() - i,
    {
        proof {
            assert(all.take(i + 1).drop_last() =~= all.take(i as int));
        }
        if insights.at(i).state == InsightState::Filled {
            let ghost before = crate::collection::views(out@);
            let copy = insights.at(i).duplicate();
            let ghost added = copy@;
            out.push(copy);
            proof {
                assert(crate::collection::views(out@) =~= before.push(added));
            }
        }
        i = i + 1;
    }
    proof {
        assert(all.take(i as int) =~= all);
    }
    out
}

/// The filled insights are those in that state, all of them and in their order.
pub proof fn filled_insights_are_all_of_them(insights: Seq<InsightView>, insight: InsightView)
    ensures
        insight.state is Filled ==> filled(insights.push(insight)) == filled(insights).push(
            insight,
        ),
        !(insight.state is Filled) ==> filled(insights.push(insight)) == filled(insights),
        filled(Seq::empty()).len() == 0,
{
    assert(insights.push(insight).drop_last() =~= insights);
}

} // verus!
