//! Insights: what a strategy wants traded, and the orders, fills and closes it goes through.
use vstd::prelude::*;

use crate::number::{Amount, Number};
use crate::text::{option_copy, option_view};
use crate::time::UtcTime;

verus! {

/// Where an insight stands in its life.
#[derive(Clone, Copy, Debug, PartialEq, Eq, Structural, Hash)]
pub enum InsightState {
    New,
    Executed,
    Filled,
    Closed,
    Cancelled,
    Rejected,
}

impl InsightState {
    /// Whether nothing is open any more in this state.
    pub open spec fn inactive(self) -> bool {
        self is Closed || self is Cancelled || self is Rejected
    }

    /// Whether nothing is open any more in this state.
    pub fn is_inactive(&self) -> (r: bool)
        ensures
            r == self.inactive(),
    {
        match self {
            InsightState::Closed | InsightState::Cancelled | InsightState::Rejected => true,
            _ => false,
        }
    }

    /// The label of the state.
    pub open spec fn spec_label(self) -> Seq<char> {
        match self {
            InsightState::New => "New"@,
            InsightState::Executed => "Executed"@,
            InsightState::Filled => "Filled"@,
            InsightState::Closed => "Closed"@,
            InsightState::Cancelled => "Cancelled"@,
            InsightState::Rejected => "Rejected"@,
        }
    }

    /// The label of the state.
    pub fn label(&self) -> (r: &'static str)
        ensures
            r@ == self.spec_label(),
    {
        match self {
            InsightState::New => "New",
            InsightState::Executed => "Executed",
            InsightState::Filled => "Filled",
            InsightState::Closed => "Closed",
            InsightState::Cancelled => "Cancelled",
            InsightState::Rejected => "Rejected",
        }
    }
}

/// The side of an order.
#[derive(Clone, Copy, Debug, PartialEq, Eq, Structural, Hash)]
pub enum OrderSide {
    Buy,
    Sell,
}

/// What a broker reports of an order.
#[derive(Clone, Copy, Debug, PartialEq, Eq, Structural, Hash)]
pub enum TradeUpdateEvent {
    Accepted,
    New,
    PendingNew,
    Pending,
    Filled,
    PartialFilled,
    Cancelled,
    Rejected,
    Replaced,
    Closed,
    Expired,
}

impl TradeUpdateEvent {
    /// The label of the report.
    pub open spec fn spec_label(self) -> Seq<char> {
        match self {
            TradeUpdateEvent::Accepted => "Accepted"@,
            TradeUpdateEvent::New => "New"@,
            TradeUpdateEvent::PendingNew => "PendingNew"@,
            TradeUpdateEvent::Pending => "Pending"@,
            TradeUpdateEvent::Filled => "Filled"@,
            TradeUpdateEvent::PartialFilled => "PartialFilled"@,
            TradeUpdateEvent::Cancelled => "Cancelled"@,
            TradeUpdateEvent::Rejected => "Rejected"@,
            TradeUpdateEvent::Replaced => "Replaced"@,
            TradeUpdateEvent::Closed => "Closed"@,
            TradeUpdateEvent::Expired => "Expired"@,
        }
    }

    /// The label of the report.
    pub fn label(&self) -> (r: &'static str)
        ensures
            r@ == self.spec_label(),
    {
        match self {
            TradeUpdateEvent::Accepted => "Accepted",
            TradeUpdateEvent::New => "New",
            TradeUpdateEvent::PendingNew => "PendingNew",
            TradeUpdateEvent::Pending => "Pending",
            TradeUpdateEvent::Filled => "Filled",
            TradeUpdateEvent::PartialFilled => "PartialFilled",
            TradeUpdateEvent::Cancelled => "Cancelled",
            TradeUpdateEvent::Rejected => "Rejected",
            TradeUpdateEvent::Replaced => "Replaced",
            TradeUpdateEvent::Closed => "Closed",
            TradeUpdateEvent::Expired => "Expired",
        }
    }
}

/// One leg of a bracket order.
#[derive(Clone, Debug)]
pub struct OrderLeg {
    pub order_id: Option<String>,
    pub limit_price: Option<Amount>,
    pub filled_price: Option<Amount>,
    pub trail_price: Option<Amount>,
    pub status: TradeUpdateEvent,
}

/// The model of a leg.
#[verifier::ext_equal]
pub struct LegView {
    pub order_id: Option<Seq<char>>,
    pub limit_price: Option<Amount>,
    pub filled_price: Option<Amount>,
    pub trail_price: Option<Amount>,
    pub status: TradeUpdateEvent,
}

impl View for OrderLeg {
    type V = LegView;

    open spec fn view(&self) -> LegView {
        LegView {
            order_id: option_view(self.order_id),
            limit_price: self.limit_price,
            filled_price: self.filled_price,
            trail_price: self.trail_price,
            status: self.status,
        }
    }
}

/// The legs of a bracket order.
#[derive(Clone, Debug)]
pub struct OrderLegs {
    pub take_profit: Option<OrderLeg>,
    pub stop_loss: Option<OrderLeg>,
    pub trailing_stop: Option<OrderLeg>,
}

/// The model of a bracket order's legs.
#[verifier::ext_equal]
pub struct LegsView {
    pub take_profit: Option<LegView>,
    pub stop_loss: Option<LegView>,
    pub trailing_stop: Option<LegView>,
}

/// The view of an optional leg.
pub open spec fn leg_view(leg: Option<OrderLeg>) -> Option<LegView> {
    match leg {
        Some(l) => Some(l@),
        None => None,
    }
}

impl View for OrderLegs {
    type V = LegsView;

    open spec fn view(&self) -> LegsView {
        LegsView {
            take_profit: leg_view(self.take_profit),
            stop_loss: leg_view(self.stop_loss),
            trailing_stop: leg_view(self.trailing_stop),
        }
    }
}

fn copy_leg(leg: &Option<OrderLeg>) -> (r: Option<OrderLeg>)
    ensures
        leg_view(r) == leg_view(*leg),
{
    match leg {
        Some(l) => Some(
            OrderLeg {
                order_id: option_copy(&l.order_id),
                limit_price: l.limit_price,
                filled_price: l.filled_price,
                trail_price: l.trail_price,
                status: l.status,
            },
        ),
        None => None,
    }
}

impl OrderLegs {
    /// No legs.
    pub fn none() -> (r: OrderLegs)
        ensures
            r@ == (LegsView { take_profit: None, stop_loss: None, trailing_stop: None }),
    {
        OrderLegs { take_profit: None, stop_loss: None, trailing_stop: None }
    }

    /// A copy of the legs.
    pub fn duplicate(&self) -> (r: OrderLegs)
        ensures
            r@ == self@,
    {
        OrderLegs {
            take_profit: copy_leg(&self.take_profit),
            stop_loss: copy_leg(&self.stop_loss),
            trailing_stop: copy_leg(&self.trailing_stop),
        }
    }
}

/// A part of a position that was filled or closed.
#[derive(Clone, Debug)]
pub struct PartialTrade {
    pub quantity: Number,
    pub price: Number,
    pub order_id: String,
    pub commission: Option<Number>,
}

/// The model of a partial trade.
#[verifier::ext_equal]
pub struct PartialTradeView {
    pub quantity: Number,
    pub price: Number,
    pub order_id: Seq<char>,
    pub commission: Option<Number>,
}

impl View for PartialTrade {
    type V = PartialTradeView;

    open spec fn view(&self) -> PartialTradeView {
        PartialTradeView {
            quantity: self.quantity,
            price: self.price,
            order_id: self.order_id@,
            commission: self.commission,
        }
    }
}

/// One entry of an insight's history.
#[derive(Clone, Debug)]
pub struct StateEntry {
    pub at: UtcTime,
    pub state: InsightState,
    pub message: Option<String>,
}

/// The model of a history entry.
#[verifier::ext_equal]
pub struct EntryView {
    pub at: UtcTime,
    pub state: InsightState,
    pub message: Option<Seq<char>>,
}

impl View for StateEntry {
    type V = EntryView;

    open spec fn view(&self) -> EntryView {
        EntryView { at: self.at, state: self.state, message: option_view(self.message) }
    }
}

/// What an insight was created with and keeps for life.
#[derive(Clone, Debug)]
pub struct InsightProfile {
    pub strategy_type: String,
    pub order_type: String,
    pub order_class: String,
    pub contracts: Option<Number>,
    pub stop_price: Option<Number>,
    pub confidence: u8,
    pub created_at: UtcTime,
}

/// A trade that a strategy wants, with what has become of it.
#[derive(Clone, Debug)]
pub struct Insight {
    pub insight_id: u128,
    pub parent_id: Option<u128>,
    pub symbol: String,
    pub side: OrderSide,
    pub profile: InsightProfile,
    pub state: InsightState,
    pub order_id: Option<String>,
    pub close_order_id: Option<String>,
    pub legs: OrderLegs,
    pub quantity: Option<Number>,
    pub limit_price: Option<Number>,
    pub take_profit_levels: Option<Vec<Number>>,
    pub stop_loss_levels: Option<Vec<Number>>,
    pub trailing_stop_price: Option<Number>,
    pub filled_price: Option<Number>,
    pub close_price: Option<Number>,
    pub commission: Option<Number>,
    pub swap: Option<Number>,
    pub broker_realized_pnl: Option<Number>,
    pub partial_fills: Vec<PartialTrade>,
    pub partial_closes: Vec<PartialTrade>,
    /// The insights to submit once this one is filled.
    pub children: Vec<u128>,
    pub closing: bool,
    pub cancelling: bool,
    pub first_on_fill: bool,
    pub state_history: Vec<StateEntry>,
    pub updated_at: UtcTime,
    pub filled_at: Option<UtcTime>,
    pub closed_at: Option<UtcTime>,
}

/// The model of an insight.
#[verifier::ext_equal]
pub struct InsightView {
    pub insight_id: u128,
    pub parent_id: Option<u128>,
    pub symbol: Seq<char>,
    pub side: OrderSide,
    pub profile: InsightProfile,
    pub state: InsightState,
    pub order_id: Option<Seq<char>>,
    pub close_order_id: Option<Seq<char>>,
    pub legs: LegsView,
    pub quantity: Option<Number>,
    pub limit_price: Option<Number>,
    pub take_profit_levels: Option<Seq<Number>>,
    pub stop_loss_levels: Option<Seq<Number>>,
    pub trailing_stop_price: Option<Number>,
    pub filled_price: Option<Number>,
    pub close_price: Option<Number>,
    pub commission: Option<Number>,
    pub swap: Option<Number>,
    pub broker_realized_pnl: Option<Number>,
    pub partial_fills: Seq<PartialTradeView>,
    pub partial_closes: Seq<PartialTradeView>,
    pub children: Seq<u128>,
    pub closing: bool,
    pub cancelling: bool,
    pub first_on_fill: bool,
    pub history: Seq<EntryView>,
    pub updated_at: UtcTime,
    pub filled_at: Option<UtcTime>,
    pub closed_at: Option<UtcTime>,
}

/// The view of an optional list of levels.
pub open spec fn levels_view(levels: Option<Vec<Number>>) -> Option<Seq<Number>> {
    match levels {
        Some(v) => Some(v@),
        None => None,
    }
}

impl View for Insight {
    type V = InsightView;

    open spec fn view(&self) -> InsightView {
        InsightView {
            insight_id: self.insight_id,
            parent_id: self.parent_id,
            symbol: self.symbol@,
            side: self.side,
            profile: self.profile,
            state: self.state,
            order_id: option_view(self.order_id),
            close_order_id: option_view(self.close_order_id),
            legs: self.legs@,
            quantity: self.quantity,
            limit_price: self.limit_price,
            take_profit_levels: levels_view(self.take_profit_levels),
            stop_loss_levels: levels_view(self.stop_loss_levels),
            trailing_stop_price: self.trailing_stop_price,
            filled_price: self.filled_price,
            close_price: self.close_price,
            commission: self.commission,
            swap: self.swap,
            broker_realized_pnl: self.broker_realized_pnl,
            partial_fills: parts_view(self.partial_fills@),
            partial_closes: parts_view(self.partial_closes@),
            children: self.children@,
            closing: self.closing,
            cancelling: self.cancelling,
            first_on_fill: self.first_on_fill,
            history: history_view(self.state_history@),
            updated_at: self.updated_at,
            filled_at: self.filled_at,
            closed_at: self.closed_at,
        }
    }
}

/// `a`, or `b` where `a` is absent.
pub open spec fn number_or(a: Option<Number>, b: Option<Number>) -> Option<Number> {
    if a is Some {
        a
    } else {
        b
    }
}

fn keep_or(a: Option<Number>, b: Option<Number>) -> (r: Option<Number>)
    ensures
        r == number_or(a, b),
{
    if a.is_some() {
        a
    } else {
        b
    }
}

/// What the history says of a change of the state, with a reason where there is one.
pub open spec fn change_message(
    from: InsightState,
    to: InsightState,
    reason: Option<Seq<char>>,
) -> Seq<char> {
    let change = "State changed from "@ + from.spec_label() + " to "@ + to.spec_label();
    match reason {
        Some(reason) => change + ": "@ + reason,
        None => change,
    }
}

impl InsightView {
    /// Once the broker took a request to close the position, or to cancel the order.
    pub open spec fn requested(self, close: bool) -> InsightView {
        if close {
            InsightView { closing: true, ..self }
        } else {
            InsightView { cancelling: true, ..self }
        }
    }

    /// The insight with one more history entry for the state it is in.
    pub open spec fn noted(self, now: UtcTime, message: Option<Seq<char>>) -> InsightView {
        InsightView {
            history: self.history.push(EntryView { at: now, state: self.state, message }),
            updated_at: now,
            ..self
        }
    }

    /// The insight moved to `state`, with a history entry for it.
    pub open spec fn moved(
        self,
        state: InsightState,
        now: UtcTime,
        message: Option<Seq<char>>,
    ) -> InsightView {
        InsightView { state, ..self }.noted(now, Some(change_message(self.state, state, message)))
    }

    /// The broker accepted the order `order_id`.
    pub open spec fn accepted(self, order_id: Seq<char>, now: UtcTime) -> InsightView {
        InsightView { order_id: Some(order_id), ..self }.moved(InsightState::Executed, now, None)
    }

    /// The whole position was filled.
    pub open spec fn filled(
        self,
        price: Number,
        order_id: Seq<char>,
        commission: Option<Number>,
        now: UtcTime,
    ) -> InsightView {
        InsightView {
            order_id: Some(order_id),
            filled_price: Some(price),
            commission: number_or(commission, self.commission),
            filled_at: Some(now),
            ..self
        }.moved(InsightState::Filled, now, None)
    }

    /// A part of the position was filled.
    pub open spec fn part_filled(self, part: PartialTradeView, now: UtcTime) -> InsightView {
        InsightView {
            order_id: Some(part.order_id),
            partial_fills: self.partial_fills.push(part),
            ..self
        }.noted(now, None)
    }

    /// A part of the position was closed.
    pub open spec fn part_closed(self, part: PartialTradeView, now: UtcTime) -> InsightView {
        InsightView { partial_closes: self.partial_closes.push(part), ..self }.noted(now, None)
    }

    /// The position was closed.
    pub open spec fn closed(
        self,
        price: Number,
        order_id: Seq<char>,
        realized_pnl: Option<Number>,
        commission: Option<Number>,
        swap: Option<Number>,
        now: UtcTime,
    ) -> InsightView {
        InsightView {
            close_order_id: Some(order_id),
            close_price: Some(price),
            broker_realized_pnl: number_or(realized_pnl, self.broker_realized_pnl),
            commission: number_or(commission, self.commission),
            swap: number_or(swap, self.swap),
            closed_at: Some(now),
            closing: false,
            ..self
        }.moved(InsightState::Closed, now, None)
    }

    /// The order was cancelled.
    pub open spec fn cancelled(self, message: Seq<char>, now: UtcTime) -> InsightView {
        InsightView { cancelling: false, ..self }.moved(
            InsightState::Cancelled,
            now,
            Some(message),
        )
    }

    /// The order was rejected.
    pub open spec fn rejected(self, message: Seq<char>, now: UtcTime) -> InsightView {
        self.moved(InsightState::Rejected, now, Some(message))
    }

    /// The mark of a first fill, set or cleared.
    pub open spec fn first_fill_marked(self, on: bool, now: UtcTime) -> InsightView {
        InsightView { first_on_fill: on, ..self }.noted(
            now,
            Some(
                if on {
                    "first_on_fill set to true"@
                } else {
                    "first_on_fill set to false"@
                },
            ),
        )
    }

    /// The legs and levels that the broker manages, taken over from `legs`. A plan of several
    /// take-profit or stop-loss levels is the strategy's own and stays.
    pub open spec fn synced(self, legs: Option<LegsView>) -> InsightView {
        match legs {
            None => self,
            Some(legs) => InsightView {
                take_profit_levels: match legs.take_profit {
                    Some(LegView { limit_price: Some(tp), .. }) if single(
                        self.take_profit_levels,
                    ) => Some(seq![tp.rounded]),
                    _ => self.take_profit_levels,
                },
                stop_loss_levels: match legs.stop_loss {
                    Some(LegView { limit_price: Some(sl), .. }) if single(
                        self.stop_loss_levels,
                    ) => Some(seq![sl.rounded]),
                    _ => self.stop_loss_levels,
                },
                trailing_stop_price: match legs.trailing_stop {
                    Some(LegView { trail_price: Some(gap), .. }) => Some(gap.rounded),
                    _ => self.trailing_stop_price,
                },
                legs,
                ..self
            },
        }
    }
}

/// Whether levels are absent or at most one.
pub open spec fn single(levels: Option<Seq<Number>>) -> bool {
    match levels {
        Some(s) => s.len() <= 1,
        None => true,
    }
}

fn is_single(levels: &Option<Vec<Number>>) -> (r: bool)
    ensures
        r == single(levels_view(*levels)),
{
    match levels {
        Some(v) => v.len() <= 1,
        None => true,
    }
}

fn one_level(level: Number) -> (r: Option<Vec<Number>>)
    ensures
        levels_view(r) == Some(seq![level]),
{
    let mut v: Vec<Number> = Vec::new();
    v.push(level);
    proof {
        assert(v@ =~= seq![level]);
    }
    Some(v)
}

impl Insight {
    fn note(&mut self, now: UtcTime, message: Option<String>)
        ensures
            final(self)@ == old(self)@.noted(now, option_view(message)),
    {
        self.state_history.push(StateEntry { at: now, state: self.state, message });
        self.updated_at = now;
        proof {
            assert(self@.history =~= old(self)@.history.push(
                EntryView { at: now, state: old(self).state, message: option_view(message) },
            ));
        }
    }

    fn move_to(&mut self, state: InsightState, now: UtcTime, reason: Option<&str>)
        ensures
            final(self)@ == old(self)@.moved(
                state,
                now,
                match reason {
                    Some(reason) => Some(reason@),
                    None => None,
                },
            ),
    {
        let mut message = "State changed from ".to_owned();
        message.append(self.state.label());
        message.append(" to ");
        message.append(state.label());
        match reason {
            Some(reason) => {
                message.append(": ");
                message.append(reason);
            },
            None => {},
        }
        self.state = state;
        self.note(now, Some(message));
    }

    /// The broker accepted the order `order_id`.
    pub fn order_accepted(&mut self, order_id: &str, now: UtcTime)
        ensures
            final(self)@ == old(self)@.accepted(order_id@, now),
    {
        self.order_id = Some(order_id.to_owned());
        self.move_to(InsightState::Executed, now, None);
    }

    /// The whole position was filled.
    pub fn position_filled(
        &mut self,
        price: Number,
        order_id: &str,
        commission: Option<Number>,
        now: UtcTime,
    )
        ensures
            final(self)@ == old(self)@.filled(price, order_id@, commission, now),
    {
        self.order_id = Some(order_id.to_owned());
        self.filled_price = Some(price);
        self.commission = keep_or(commission, self.commission);
        self.filled_at = Some(now);
        self.move_to(InsightState::Filled, now, None);
    }

    /// A part of the position was filled.
    pub fn partial_filled(
        &mut self,
        quantity: Number,
        price: Number,
        order_id: &str,
        commission: Option<Number>,
        now: UtcTime,
    )
        ensures
            final(self)@ == old(self)@.part_filled(
                PartialTradeView { quantity, price, order_id: order_id@, commission },
                now,
            ),
    {
        self.order_id = Some(order_id.to_owned());
        let part = PartialTrade { quantity, price, order_id: order_id.to_owned(), commission };
        let ghost part_view = part@;
        self.partial_fills.push(part);
        proof {
            assert(self@.partial_fills =~= old(self)@.partial_fills.push(part_view));
        }
        self.note(now, None);
    }

    /// A part of the position was closed.
    pub fn partial_closed(
        &mut self,
        quantity: Number,
        price: Number,
        order_id: &str,
        commission: Option<Number>,
        now: UtcTime,
    )
        ensures
            final(self)@ == old(self)@.part_closed(
                PartialTradeView { quantity, price, order_id: order_id@, commission },
                now,
            ),
    {
        let part = PartialTrade { quantity, price, order_id: order_id.to_owned(), commission };
        let ghost part_view = part@;
        self.partial_closes.push(part);
        proof {
            assert(self@.partial_closes =~= old(self)@.partial_closes.push(part_view));
        }
        self.note(now, None);
    }

    /// The position was closed.
    pub fn position_closed(
        &mut self,
        price: Number,
        order_id: &str,
        realized_pnl: Option<Number>,
        commission: Option<Number>,
        swap: Option<Number>,
        now: UtcTime,
    )
        ensures
            final(self)@ == old(self)@.closed(
                price,
                order_id@,
                realized_pnl,
                commission,
                swap,
                now,
            ),
    {
        self.close_order_id = Some(order_id.to_owned());
        self.close_price = Some(price);
        self.broker_realized_pnl = keep_or(realized_pnl, self.broker_realized_pnl);
        self.commission = keep_or(commission, self.commission);
        self.swap = keep_or(swap, self.swap);
        self.closed_at = Some(now);
        self.closing = false;
        self.move_to(InsightState::Closed, now, None);
    }

    /// The order was cancelled.
    pub fn order_cancelled(&mut self, message: &str, now: UtcTime)
        ensures
            final(self)@ == old(self)@.cancelled(message@, now),
    {
        self.cancelling = false;
        self.move_to(InsightState::Cancelled, now, Some(message));
    }

    /// The order was rejected.
    pub fn order_rejected(&mut self, message: &str, now: UtcTime)
        ensures
            final(self)@ == old(self)@.rejected(message@, now),
    {
        self.move_to(InsightState::Rejected, now, Some(message));
    }

    /// Sets or clears the mark of a first fill.
    pub fn set_first_on_fill(&mut self, on: bool, now: UtcTime)
        ensures
            final(self)@ == old(self)@.first_fill_marked(on, now),
    {
        self.first_on_fill = on;
        let message = if on {
            "first_on_fill set to true"
        } else {
            "first_on_fill set to false"
        };
        self.note(now, Some(message.to_owned()));
    }

    /// Takes over the legs and levels that the broker manages.
    pub fn sync_broker_managed_levels(&mut self, legs: &Option<OrderLegs>)
        ensures
            final(self)@ == old(self)@.synced(legs_view(*legs)),
    {
        match legs {
            None => {},
            Some(legs) => {
                match &legs.take_profit {
                    Some(leg) => match leg.limit_price {
                        Some(tp) => {
                            if is_single(&self.take_profit_levels) {
                                self.take_profit_levels = one_level(tp.rounded);
                            }
                        },
                        None => {},
                    },
                    None => {},
                }
                match &legs.stop_loss {
                    Some(leg) => match leg.limit_price {
                        Some(sl) => {
                            if is_single(&self.stop_loss_levels) {
                                self.stop_loss_levels = one_level(sl.rounded);
                            }
                        },
                        None => {},
                    },
                    None => {},
                }
                match &legs.trailing_stop {
                    Some(leg) => match leg.trail_price {
                        Some(gap) => {
                            self.trailing_stop_price = Some(gap.rounded);
                        },
                        None => {},
                    },
                    None => {},
                }
                self.legs = legs.duplicate();
            },
        }
    }
}

fn copy_levels(levels: &Option<Vec<Number>>) -> (r: Option<Vec<Number>>)
    ensures
        levels_view(r) == levels_view(*levels),
{
    match levels {
        Some(v) => {
            let mut out: Vec<Number> = Vec::new();
            let mut i: usize = 0;
            while i < v.len()
                invariant
                    i <= v.len(),
                    out@ == v@.take(i as int),
                decreases v.len() - i,
            {
                out.push(v[i]);
                i = i + 1;
                proof {
                    assert(out@ =~= v@.take(i as int));
                }
            }
            proof {
                assert(v@.take(i as int) =~= v@);
            }
            Some(out)
        },
        None => None,
    }
}

/// The models of a list of partial trades.
pub open spec fn parts_view(parts: Seq<PartialTrade>) -> Seq<PartialTradeView> {
    parts.map_values(|p: PartialTrade| p@)
}

fn copy_parts(parts: &Vec<PartialTrade>) -> (r: Vec<PartialTrade>)
    ensures
        parts_view(r@) == parts_view(parts@),
{
    let mut out: Vec<PartialTrade> = Vec::new();
    let mut i: usize = 0;
    while i < parts.len()
        invariant
            i <= parts.len(),
            out@.len() == i,
            forall|k: int| 0 <= k < i ==> (#[trigger] out@[k])@ == parts@[k]@,
        decreases parts.len() - i,
    {
        let p = &parts[i];
        out.push(
            PartialTrade {
                quantity: p.quantity,
                price: p.price,
                order_id: p.order_id.clone(),
                commission: p.commission,
            },
        );
        i = i + 1;
    }
    proof {
        assert(parts_view(out@) =~= parts_view(parts@));
    }
    out
}

/// The models of a history.
pub open spec fn history_view(entries: Seq<StateEntry>) -> Seq<EntryView> {
    entries.map_values(|e: StateEntry| e@)
}

fn copy_history(entries: &Vec<StateEntry>) -> (r: Vec<StateEntry>)
    ensures
        history_view(r@) == history_view(entries@),
{
    let mut out: Vec<StateEntry> = Vec::new();
    let mut i: usize = 0;
    while i < entries.len()
        invariant
            i <= entries.len(),
            out@.len() == i,
            forall|k: int| 0 <= k < i ==> (#[trigger] out@[k])@ == entries@[k]@,
        decreases entries.len() - i,
    {
        let e = &entries[i];
        out.push(StateEntry { at: e.at, state: e.state, message: option_copy(&e.message) });
        i = i + 1;
    }
    proof {
        assert(history_view(out@) =~= history_view(entries@));
    }
    out
}

fn copy_ids(ids: &Vec<u128>) -> (r: Vec<u128>)
    ensures
        r@ == ids@,
{
    let mut out: Vec<u128> = Vec::new();
    let mut i: usize = 0;
    while i < ids.len()
        invariant
            i <= ids.len(),
            out@ == ids@.take(i as int),
        decreases ids.len() - i,
    {
        out.push(ids[i]);
        i = i + 1;
        proof {
            assert(out@ =~= ids@.take(i as int));
        }
    }
    proof {
        assert(ids@.take(i as int) =~= ids@);
    }
    out
}

impl InsightProfile {
    fn duplicate(&self) -> (r: InsightProfile)
        ensures
            r == *self,
    {
        InsightProfile {
            strategy_type: self.strategy_type.clone(),
            order_type: self.order_type.clone(),
            order_class: self.order_class.clone(),
            contracts: self.contracts,
            stop_price: self.stop_price,
            confidence: self.confidence,
            created_at: self.created_at,
        }
    }
}

impl Insight {
    /// A new insight, with nothing done for it yet.
    pub fn new(
        insight_id: u128,
        parent_id: Option<u128>,
        symbol: String,
        side: OrderSide,
        profile: InsightProfile,
    ) -> (r: Insight)
        ensures
            r.insight_id == insight_id,
            r.parent_id == parent_id,
            r.symbol == symbol,
            r.side == side,
            r.profile == profile,
            r.state is New,
            r.order_id is None,
            r.close_order_id is None,
            r@.legs == (LegsView { take_profit: None, stop_loss: None, trailing_stop: None }),
            r.quantity is None,
            r.limit_price is None,
            r.take_profit_levels is None,
            r.stop_loss_levels is None,
            r.trailing_stop_price is None,
            r.filled_price is None,
            r.close_price is None,
            r.commission is None,
            r.swap is None,
            r.broker_realized_pnl is None,
            r@.partial_fills.len() == 0,
            r@.partial_closes.len() == 0,
            r@.children.len() == 0,
            !r.closing,
            !r.cancelling,
            !r.first_on_fill,
            r@.history.len() == 0,
            r.updated_at == profile.created_at,
            r.filled_at is None,
            r.closed_at is None,
    {
        let created_at = profile.created_at;
        Insight {
            insight_id,
            parent_id,
            symbol,
            side,
            profile,
            state: InsightState::New,
            order_id: None,
            close_order_id: None,
            legs: OrderLegs::none(),
            quantity: None,
            limit_price: None,
            take_profit_levels: None,
            stop_loss_levels: None,
            trailing_stop_price: None,
            filled_price: None,
            close_price: None,
            commission: None,
            swap: None,
            broker_realized_pnl: None,
            partial_fills: Vec::new(),
            partial_closes: Vec::new(),
            children: Vec::new(),
            closing: false,
            cancelling: false,
            first_on_fill: false,
            state_history: Vec::new(),
            updated_at: created_at,
            filled_at: None,
            closed_at: None,
        }
    }

    /// A copy of the insight.
    pub fn duplicate(&self) -> (r: Insight)
        ensures
            r@ == self@,
    {
        Insight {
            insight_id: self.insight_id,
            parent_id: self.parent_id,
            symbol: self.symbol.clone(),
            side: self.side,
            profile: self.profile.duplicate(),
            state: self.state,
            order_id: option_copy(&self.order_id),
            close_order_id: option_copy(&self.close_order_id),
            legs: self.legs.duplicate(),
            quantity: self.quantity,
            limit_price: self.limit_price,
            take_profit_levels: copy_levels(&self.take_profit_levels),
            stop_loss_levels: copy_levels(&self.stop_loss_levels),
            trailing_stop_price: self.trailing_stop_price,
            filled_price: self.filled_price,
            close_price: self.close_price,
            commission: self.commission,
            swap: self.swap,
            broker_realized_pnl: self.broker_realized_pnl,
            partial_fills: copy_parts(&self.partial_fills),
            partial_closes: copy_parts(&self.partial_closes),
            children: copy_ids(&self.children),
            closing: self.closing,
            cancelling: self.cancelling,
            first_on_fill: self.first_on_fill,
            state_history: copy_history(&self.state_history),
            updated_at: self.updated_at,
            filled_at: self.filled_at,
            closed_at: self.closed_at,
        }
    }

    /// The broker took a request to close the position.
    pub fn mark_closing(&mut self)
        ensures
            final(self)@ == old(self)@.requested(true),
    {
        self.closing = true;
    }

    /// The broker took a request to cancel the order.
    pub fn mark_cancelling(&mut self)
        ensures
            final(self)@ == old(self)@.requested(false),
    {
        self.cancelling = true;
    }
}

/// The view of optional legs.
pub open spec fn legs_view(legs: Option<OrderLegs>) -> Option<LegsView> {
    match legs {
        Some(l) => Some(l@),
        None => None,
    }
}

/// States have different labels, and so have reports: a label tells which one it is.
pub proof fn labels_tell_states_apart(
    a: InsightState,
    b: InsightState,
    c: TradeUpdateEvent,
    d: TradeUpdateEvent,
)
    ensures
        a.spec_label() == b.spec_label() ==> a == b,
        c.spec_label() == d.spec_label() ==> c == d,
        a is New ==> a.spec_label() == "New"@,
        a is Executed ==> a.spec_label() == "Executed"@,
        a is Filled ==> a.spec_label() == "Filled"@,
        a is Closed ==> a.spec_label() == "Closed"@,
        a is Cancelled ==> a.spec_label() == "Cancelled"@,
        a is Rejected ==> a.spec_label() == "Rejected"@,
        c is Filled ==> c.spec_label() == "Filled"@,
        c is PartialFilled ==> c.spec_label() == "PartialFilled"@,
        c is Cancelled ==> c.spec_label() == "Cancelled"@,
        c is Rejected ==> c.spec_label() == "Rejected"@,
        c is Accepted ==> c.spec_label() == "Accepted"@,
        c is Closed ==> c.spec_label() == "Closed"@,
{
    reveal_strlit("New");
    reveal_strlit("Executed");
    reveal_strlit("Filled");
    reveal_strlit("Closed");
    reveal_strlit("Cancelled");
    reveal_strlit("Rejected");
    reveal_strlit("Accepted");
    reveal_strlit("PendingNew");
    reveal_strlit("Pending");
    reveal_strlit("PartialFilled");
    reveal_strlit("Replaced");
    reveal_strlit("Expired");
    assert("Rejected"@[0] == 'R' && "Rejected"@[2] == 'j' && "Rejected"@.len() == 8);
    assert("Replaced"@[0] == 'R' && "Replaced"@[2] == 'p' && "Replaced"@.len() == 8);
    assert("Accepted"@[0] == 'A' && "Accepted"@[2] == 'c' && "Accepted"@.len() == 8);
    assert("Executed"@[0] == 'E' && "Executed"@[2] == 'e' && "Executed"@.len() == 8);
    assert("Filled"@[0] == 'F' && "Filled"@[2] == 'l' && "Filled"@.len() == 6);
    assert("Closed"@[0] == 'C' && "Closed"@[2] == 'o' && "Closed"@.len() == 6);
    assert("Pending"@[0] == 'P' && "Pending"@[2] == 'n' && "Pending"@.len() == 7);
    assert("Expired"@[0] == 'E' && "Expired"@[2] == 'p' && "Expired"@.len() == 7);
    assert("New"@.len() == 3 && "Cancelled"@.len() == 9 && "PendingNew"@.len() == 10);
    assert("PartialFilled"@.len() == 13);
    let (x, y, z, w) = (a.spec_label(), b.spec_label(), c.spec_label(), d.spec_label());
    assert(x == y ==> x.len() == y.len() && x[0] == y[0] && x[2] == y[2]);
    assert(z == w ==> z.len() == w.len() && z[0] == w[0] && z[2] == w[2]);
}

/// An insight is over exactly where it is closed, cancelled or rejected.
pub proof fn insights_are_over_in_their_last_states(state: InsightState)
    ensures
        state.inactive() <==> !(state is New || state is Executed || state is Filled),
{
}

/// A new insight has no order, no prices and no history yet.
pub proof fn insights_begin_without_an_order(
    insight_id: u128,
    parent_id: Option<u128>,
    symbol: String,
    side: OrderSide,
    profile: InsightProfile,
    r: Insight,
)
    requires
        call_ensures(Insight::new, (insight_id, parent_id, symbol, side, profile), r),
    ensures
        r.insight_id == insight_id && r.parent_id == parent_id && r.symbol == symbol && r.side
            == side && r.profile == profile,
        r.state is New,
        r.order_id is None && r.close_order_id is None,
        r.filled_price is None && r.close_price is None && r.quantity is None && r.limit_price
            is None,
        r.take_profit_levels is None && r.stop_loss_levels is None && r.trailing_stop_price is None,
        r.commission is None && r.swap is None && r.broker_realized_pnl is None,
        r.filled_at is None && r.closed_at is None && r.updated_at == profile.created_at,
        !r.closing && !r.cancelling && !r.first_on_fill,
        r@.history.len() == 0 && r@.children.len() == 0 && r@.partial_fills.len() == 0
            && r@.partial_closes.len() == 0,
{
}

/// An accepted order is executed under its id; the change is written down with its time. Nothing
/// else changes.
pub proof fn accepted_insights_are_executed()
    ensures
        forall|i: &mut Insight, order_id: &str, now: UtcTime, r: ()| #[trigger]
            call_ensures(Insight::order_accepted, (i, order_id, now), r) ==> {
                &&& final(i).state is Executed
                &&& final(i)@.order_id == Some(order_id@)
                &&& final(i)@.history.len() == i@.history.len() + 1
                &&& final(i)@.history.drop_last() == i@.history
                &&& final(i)@.history.last().at == now
                &&& final(i)@.history.last().state == final(i).state
                &&& final(i).updated_at == now
                &&& final(i)@.history.last().message == Some(
                    "State changed from "@ + i.state.spec_label() + " to "@ + "Executed"@,
                )
                &&& final(i)@ == InsightView {
                    state: final(i).state,
                    order_id: final(i)@.order_id,
                    history: final(i)@.history,
                    updated_at: now,
                    ..i@
                }
            },
{
    assert forall|i: &mut Insight, order_id: &str, now: UtcTime, r: ()| #[trigger]
        call_ensures(Insight::order_accepted, (i, order_id, now), r) implies final(i)@.history.drop_last() == i@.history by {
        assert(final(i)@.history.drop_last() =~= i@.history);
    }
}

/// A filled insight has the price, the order and the time of its fill; a commission that is not told
/// stays as it was.
pub proof fn filled_insights_have_their_fill()
    ensures
        forall|
            i: &mut Insight,
            price: Number,
            order_id: &str,
            commission: Option<Number>,
            now: UtcTime,
            r: (),
        | #[trigger]
            call_ensures(Insight::position_filled, (i, price, order_id, commission, now), r) ==> {
                &&& final(i).state is Filled
                &&& final(i)@.order_id == Some(order_id@)
                &&& final(i).filled_price == Some(price)
                &&& final(i).filled_at == Some(now)
                &&& commission is Some ==> final(i).commission == commission
                &&& commission is None ==> final(i).commission == i.commission
                &&& final(i)@.history.len() == i@.history.len() + 1
                &&& final(i)@.history.drop_last() == i@.history
                &&& final(i)@.history.last().at == now
                &&& final(i)@.history.last().state == final(i).state
                &&& final(i).updated_at == now
                &&& final(i)@.history.last().message == Some(
                    "State changed from "@ + i.state.spec_label() + " to "@ + "Filled"@,
                )
                &&& final(i)@ == InsightView {
                    state: final(i).state,
                    order_id: final(i)@.order_id,
                    filled_price: final(i).filled_price,
                    filled_at: final(i).filled_at,
                    commission: final(i).commission,
                    history: final(i)@.history,
                    updated_at: now,
                    ..i@
                }
            },
{
    assert forall|
        i: &mut Insight,
        price: Number,
        order_id: &str,
        commission: Option<Number>,
        now: UtcTime,
        r: (),
    | #[trigger]
        call_ensures(Insight::position_filled, (i, price, order_id, commission, now), r) implies
        final(i)@.history.drop_last() == i@.history by {
        assert(final(i)@.history.drop_last() =~= i@.history);
    }
}

/// A part of a fill is written down behind the earlier ones, and one of a close behind the earlier
/// closes; the state stays.
pub proof fn parts_are_written_down_in_turn()
    ensures
        forall|
            i: &mut Insight,
            quantity: Number,
            price: Number,
            order_id: &str,
            commission: Option<Number>,
            now: UtcTime,
            r: (),
        | #[trigger]
            call_ensures(
                Insight::partial_filled,
                (i, quantity, price, order_id, commission, now),
                r,
            ) ==> {
                &&& final(i).state == i.state
                &&& final(i).filled_price == i.filled_price
                &&& final(i).filled_at == i.filled_at
                &&& final(i)@.order_id == Some(order_id@)
                &&& final(i)@.partial_closes == i@.partial_closes
                &&& final(i)@.partial_fills.len() == i@.partial_fills.len() + 1
                &&& final(i)@.partial_fills.last().quantity == quantity
                &&& final(i)@.partial_fills.last().price == price
                &&& final(i)@.partial_fills.last().order_id == order_id@
                &&& final(i)@.partial_fills.last().commission == commission
                &&& final(i)@.history.len() == i@.history.len() + 1
                &&& final(i)@.history.last().message is None
                &&& final(i).updated_at == now
            },
        forall|
            i: &mut Insight,
            quantity: Number,
            price: Number,
            order_id: &str,
            commission: Option<Number>,
            now: UtcTime,
            r: (),
        | #[trigger]
            call_ensures(
                Insight::partial_closed,
                (i, quantity, price, order_id, commission, now),
                r,
            ) ==> {
                &&& final(i).state == i.state
                &&& final(i).close_price == i.close_price
                &&& final(i).closed_at == i.closed_at
                &&& final(i)@.order_id == i@.order_id
                &&& final(i)@.partial_fills == i@.partial_fills
                &&& final(i)@.partial_closes.len() == i@.partial_closes.len() + 1
                &&& final(i)@.partial_closes.last().quantity == quantity
                &&& final(i)@.partial_closes.last().price == price
                &&& final(i)@.partial_closes.last().order_id == order_id@
                &&& final(i)@.partial_closes.last().commission == commission
                &&& final(i)@.history.len() == i@.history.len() + 1
                &&& final(i).updated_at == now
            },
{
}

/// A closed insight has the price, the order and the time of its close, and is no longer being
/// closed; what the broker does not tell of its costs and its result stays as it was.
pub proof fn closed_insights_have_their_close()
    ensures
        forall|
            i: &mut Insight,
            price: Number,
            order_id: &str,
            pnl: Option<Number>,
            commission: Option<Number>,
            swap: Option<Number>,
            now: UtcTime,
            r: (),
        | #[trigger]
            call_ensures(
                Insight::position_closed,
                (i, price, order_id, pnl, commission, swap, now),
                r,
            ) ==> {
                &&& final(i).state is Closed
                &&& final(i)@.close_order_id == Some(order_id@)
                &&& final(i)@.order_id == i@.order_id
                &&& final(i).close_price == Some(price)
                &&& final(i).closed_at == Some(now)
                &&& final(i).filled_price == i.filled_price
                &&& final(i).filled_at == i.filled_at
                &&& !final(i).closing
                &&& final(i).cancelling == i.cancelling
                &&& pnl is Some ==> final(i).broker_realized_pnl == pnl
                &&& pnl is None ==> final(i).broker_realized_pnl == i.broker_realized_pnl
                &&& commission is Some ==> final(i).commission == commission
                &&& commission is None ==> final(i).commission == i.commission
                &&& swap is Some ==> final(i).swap == swap
                &&& swap is None ==> final(i).swap == i.swap
                &&& final(i)@.history.len() == i@.history.len() + 1
                &&& final(i)@.history.last().at == now
                &&& final(i)@.history.last().state is Closed
                &&& final(i)@.history.last().message == Some(
                    "State changed from "@ + i.state.spec_label() + " to "@ + "Closed"@,
                )
                &&& final(i).updated_at == now
            },
{
}

/// A cancelled insight is no longer being cancelled, and the reason is written down; so it is of a
/// rejected one. Neither has anything filled or closed.
pub proof fn cancelled_and_rejected_insights_have_their_reason()
    ensures
        forall|i: &mut Insight, message: &str, now: UtcTime, r: ()| #[trigger]
            call_ensures(Insight::order_cancelled, (i, message, now), r) ==> {
                &&& final(i).state is Cancelled
                &&& !final(i).cancelling
                &&& final(i)@.history.len() == i@.history.len() + 1
                &&& final(i)@.history.last().at == now
                &&& final(i)@.history.last().state is Cancelled
                &&& final(i)@.history.last().message == Some(
                    "State changed from "@ + i.state.spec_label() + " to "@ + "Cancelled"@ + ": "@
                        + message@,
                )
                &&& final(i)@ == InsightView {
                    state: final(i).state,
                    cancelling: false,
                    history: final(i)@.history,
                    updated_at: now,
                    ..i@
                }
            },
        forall|i: &mut Insight, message: &str, now: UtcTime, r: ()| #[trigger]
            call_ensures(Insight::order_rejected, (i, message, now), r) ==> {
                &&& final(i).state is Rejected
                &&& final(i)@.history.len() == i@.history.len() + 1
                &&& final(i)@.history.last().at == now
                &&& final(i)@.history.last().state is Rejected
                &&& final(i)@.history.last().message == Some(
                    "State changed from "@ + i.state.spec_label() + " to "@ + "Rejected"@ + ": "@
                        + message@,
                )
                &&& final(i)@ == InsightView {
                    state: final(i).state,
                    history: final(i)@.history,
                    updated_at: now,
                    ..i@
                }
            },
{
}

/// Marks change nothing but themselves.
pub proof fn marks_change_nothing_else()
    ensures
        forall|i: &mut Insight, r: ()| #[trigger]
            call_ensures(Insight::mark_closing, (i,), r) ==> final(i)@ == (InsightView {
                closing: true,
                ..i@
            }),
        forall|i: &mut Insight, r: ()| #[trigger]
            call_ensures(Insight::mark_cancelling, (i,), r) ==> final(i)@ == (InsightView {
                cancelling: true,
                ..i@
            }),
        forall|i: &mut Insight, on: bool, now: UtcTime, r: ()| #[trigger]
            call_ensures(Insight::set_first_on_fill, (i, on, now), r) ==> {
                &&& final(i).first_on_fill == on
                &&& final(i).state == i.state
                &&& final(i).updated_at == now
                &&& final(i)@.history.len() == i@.history.len() + 1
                &&& on ==> final(i)@.history.last().message == Some("first_on_fill set to true"@)
                &&& !on ==> final(i)@.history.last().message == Some("first_on_fill set to false"@)
            },
{
}

/// The levels that the broker holds are taken over where the insight plans one of them at most; a
/// plan of several levels stays. Without any legs nothing changes.
pub proof fn levels_of_the_broker_are_taken_over()
    ensures
        forall|i: &mut Insight, legs: Option<OrderLegs>, r: ()| #[trigger]
            call_ensures(Insight::sync_broker_managed_levels, (i, &legs), r) ==> {
                &&& legs is None ==> final(i)@ == i@
                &&& legs is Some ==> {
                    let l = legs->Some_0@;
                    let tp = l.take_profit;
                    let sl = l.stop_loss;
                    let trail = l.trailing_stop;
                    let planned_tp = i@.take_profit_levels is Some
                        && i@.take_profit_levels->Some_0.len() > 1;
                    let planned_sl = i@.stop_loss_levels is Some
                        && i@.stop_loss_levels->Some_0.len() > 1;
                    &&& final(i)@.legs == l
                    &&& tp is Some && tp->Some_0.limit_price is Some && !planned_tp ==> final(i)@.take_profit_levels == Some(
                        seq![tp->Some_0.limit_price->Some_0.rounded],
                    )
                    &&& tp is None || tp->Some_0.limit_price is None || planned_tp ==> final(i)@.take_profit_levels == i@.take_profit_levels
                    &&& sl is Some && sl->Some_0.limit_price is Some && !planned_sl ==> final(i)@.stop_loss_levels == Some(
                        seq![sl->Some_0.limit_price->Some_0.rounded],
                    )
                    &&& sl is None || sl->Some_0.limit_price is None || planned_sl ==> final(i)@.stop_loss_levels == i@.stop_loss_levels
                    &&& trail is Some && trail->Some_0.trail_price is Some
                        ==> final(i)@.trailing_stop_price == Some(
                        trail->Some_0.trail_price->Some_0.rounded,
                    )
                    &&& trail is None || trail->Some_0.trail_price is None
                        ==> final(i)@.trailing_stop_price == i@.trailing_stop_price
                    &&& final(i)@.state == i@.state
                    &&& final(i)@.history == i@.history
                }
            },
{
}

} // verus!
