//! Orders as a broker reports them, and what each report does to an insight.
use vstd::prelude::*;

use crate::ids::{uuid_chars, uuid_text};
use crate::insight::{
    legs_view, Insight, InsightState, InsightView, LegView, LegsView, OrderLeg, OrderLegs,
    OrderSide, PartialTradeView, TradeUpdateEvent,
};
use crate::number::{
    first_of, first_present, option_eq, option_equals, reported, reported_of, rounded, rounded_of,
    Amount, Number,
};
use crate::text::{option_text_is, option_view};
use crate::time::UtcTime;

verus! {

/// An order, as the broker last reported it.
#[derive(Clone, Debug)]
pub struct Order {
    pub order_id: String,
    pub insight_id: Option<String>,
    pub symbol: String,
    pub side: OrderSide,
    pub status: TradeUpdateEvent,
    pub qty: Number,
    pub filled_qty: Number,
    pub limit_price: Option<Amount>,
    pub filled_price: Option<Amount>,
    pub stop_price: Option<Amount>,
    pub realized_pnl: Option<Amount>,
    pub commission: Option<Amount>,
    pub swap: Option<Amount>,
    pub rejection_reason: Option<String>,
    pub legs: Option<OrderLegs>,
}

/// The model of an order.
#[verifier::ext_equal]
pub struct OrderView {
    pub order_id: Seq<char>,
    pub insight_id: Option<Seq<char>>,
    pub symbol: Seq<char>,
    pub side: OrderSide,
    pub status: TradeUpdateEvent,
    pub qty: Number,
    pub filled_qty: Number,
    pub limit_price: Option<Amount>,
    pub filled_price: Option<Amount>,
    pub stop_price: Option<Amount>,
    pub realized_pnl: Option<Amount>,
    pub commission: Option<Amount>,
    pub swap: Option<Amount>,
    pub rejection_reason: Option<Seq<char>>,
    pub legs: Option<LegsView>,
}

impl View for Order {
    type V = OrderView;

    open spec fn view(&self) -> OrderView {
        OrderView {
            order_id: self.order_id@,
            insight_id: option_view(self.insight_id),
            symbol: self.symbol@,
            side: self.side,
            status: self.status,
            qty: self.qty,
            filled_qty: self.filled_qty,
            limit_price: self.limit_price,
            filled_price: self.filled_price,
            stop_price: self.stop_price,
            realized_pnl: self.realized_pnl,
            commission: self.commission,
            swap: self.swap,
            rejection_reason: option_view(self.rejection_reason),
            legs: legs_view(self.legs),
        }
    }
}

/// Whether a leg carries the order `order_id`.
pub open spec fn leg_has_order(leg: Option<LegView>, order_id: Seq<char>) -> bool {
    leg matches Some(l) && l.order_id == Some(order_id)
}

/// Whether a report on `order` is about `insight`: the order names it, or the insight holds the
/// order as its own, as its closing order or as one of its legs.
pub open spec fn event_matches(insight: InsightView, order: OrderView) -> bool {
    ||| order.insight_id == Some(uuid_chars(insight.insight_id))
    ||| insight.order_id == Some(order.order_id)
    ||| insight.close_order_id == Some(order.order_id)
    ||| leg_has_order(insight.legs.take_profit, order.order_id)
    ||| leg_has_order(insight.legs.stop_loss, order.order_id)
    ||| leg_has_order(insight.legs.trailing_stop, order.order_id)
}

fn leg_holds_order(leg: &Option<OrderLeg>, order_id: &str) -> (r: bool)
    ensures
        r == leg_has_order(crate::insight::leg_view(*leg), order_id@),
{
    match leg {
        Some(l) => option_text_is(&l.order_id, order_id),
        None => false,
    }
}

/// Whether a report on `order` is about `insight`.
pub fn trade_event_matches_insight(insight: &Insight, order: &Order) -> (r: bool)
    ensures
        r == event_matches(insight@, order@),
{
    let id = uuid_text(insight.insight_id);
    option_text_is(&order.insight_id, id.as_str()) || option_text_is(
        &insight.order_id,
        order.order_id.as_str(),
    ) || option_text_is(&insight.close_order_id, order.order_id.as_str()) || leg_holds_order(
        &insight.legs.take_profit,
        order.order_id.as_str(),
    ) || leg_holds_order(&insight.legs.stop_loss, order.order_id.as_str()) || leg_holds_order(
        &insight.legs.trailing_stop,
        order.order_id.as_str(),
    )
}

/// The price at which a leg was filled, or `None` where it was not.
pub open spec fn leg_fill(leg: Option<LegView>) -> Option<Amount> {
    match leg {
        Some(l) => if l.status is Filled {
            first_of(l.filled_price, l.limit_price)
        } else {
            None
        },
        None => None,
    }
}

/// The price at which a position was closed: that of the stop loss, the take profit or the
/// trailing stop, the first of them that was filled; else the order's own fill, stop or limit.
pub open spec fn closing_price(order: OrderView) -> Option<Amount> {
    let from_legs = match order.legs {
        Some(legs) => first_of(
            first_of(leg_fill(legs.stop_loss), leg_fill(legs.take_profit)),
            leg_fill(legs.trailing_stop),
        ),
        None => None,
    };
    first_of(first_of(first_of(from_legs, order.filled_price), order.stop_price), order.limit_price)
}

/// The rounded value of an optional amount, zero where there is none.
pub open spec fn rounded_or_zero(a: Option<Amount>) -> Number {
    match a {
        Some(x) => x.rounded,
        None => Number::spec_zero(),
    }
}

fn rounded_or_zero_of(a: Option<Amount>) -> (r: Number)
    ensures
        r == rounded_or_zero(a),
{
    match a {
        Some(x) => x.rounded,
        None => Number::zero(),
    }
}

/// The price of a fill: the fill price, else the limit, else zero.
pub open spec fn fill_price(order: OrderView) -> Number {
    rounded_or_zero(first_of(order.filled_price, order.limit_price))
}

fn fill_price_of(order: &Order) -> (r: Number)
    ensures
        r == fill_price(order@),
{
    rounded_or_zero_of(first_present(order.filled_price, order.limit_price))
}

fn leg_fill_of(leg: &Option<OrderLeg>) -> (r: Option<Amount>)
    ensures
        r == leg_fill(crate::insight::leg_view(*leg)),
{
    match leg {
        Some(l) => if l.status == TradeUpdateEvent::Filled {
            first_present(l.filled_price, l.limit_price)
        } else {
            None
        },
        None => None,
    }
}

/// The price at which a position was closed, or zero where the order reports none.
pub fn close_price_from_order(order: &Order) -> (r: Number)
    ensures
        r == rounded_or_zero(closing_price(order@)),
{
    let from_legs = match &order.legs {
        Some(legs) => first_present(
            first_present(leg_fill_of(&legs.stop_loss), leg_fill_of(&legs.take_profit)),
            leg_fill_of(&legs.trailing_stop),
        ),
        None => None,
    };
    rounded_or_zero_of(
        first_present(
            first_present(first_present(from_legs, order.filled_price), order.stop_price),
            order.limit_price,
        ),
    )
}

/// What a report does to the insight that it is about.
#[derive(Clone, Copy, Debug, PartialEq, Eq, Structural, Hash)]
pub enum TradeStep {
    Accept,
    AcceptAndFill,
    AcceptAndFillPart,
    Fill,
    FillPart,
    ClosePart,
    Cancel,
    Reject,
    Replace,
    Close,
    LateFill,
}

/// What the report `event` does to an insight in `state`; `same_side` says whether the order has
/// the insight's own side, in which case a fill of a filled insight only repeats its entry.
pub open spec fn step_of(state: InsightState, event: TradeUpdateEvent, same_side: bool) -> Option<
    TradeStep,
> {
    match (state, event) {
        (InsightState::New, TradeUpdateEvent::Accepted) => Some(TradeStep::Accept),
        (InsightState::New, TradeUpdateEvent::PendingNew) => Some(TradeStep::Accept),
        (InsightState::New, TradeUpdateEvent::New) => Some(TradeStep::Accept),
        (InsightState::New, TradeUpdateEvent::Filled) => Some(TradeStep::AcceptAndFill),
        (InsightState::New, TradeUpdateEvent::PartialFilled) => Some(TradeStep::AcceptAndFillPart),
        (InsightState::Executed, TradeUpdateEvent::Filled) => Some(TradeStep::Fill),
        (InsightState::Executed, TradeUpdateEvent::PartialFilled) => Some(TradeStep::FillPart),
        (InsightState::Filled, TradeUpdateEvent::PartialFilled) => Some(TradeStep::ClosePart),
        (InsightState::Executed, TradeUpdateEvent::Cancelled) => Some(TradeStep::Cancel),
        (InsightState::New, TradeUpdateEvent::Cancelled) => Some(TradeStep::Cancel),
        (InsightState::Executed, TradeUpdateEvent::Rejected) => Some(TradeStep::Reject),
        (InsightState::New, TradeUpdateEvent::Rejected) => Some(TradeStep::Reject),
        (InsightState::Executed, TradeUpdateEvent::Replaced) => Some(TradeStep::Replace),
        (InsightState::Filled, TradeUpdateEvent::Filled) => if same_side {
            None
        } else {
            Some(TradeStep::Close)
        },
        (InsightState::Filled, TradeUpdateEvent::Closed) => Some(TradeStep::Close),
        (InsightState::Cancelled, TradeUpdateEvent::Filled) => Some(TradeStep::LateFill),
        (InsightState::Rejected, TradeUpdateEvent::Filled) => Some(TradeStep::LateFill),
        _ => None,
    }
}

/// What the report `event` does to an insight in `state`.
pub fn trade_step(state: InsightState, event: TradeUpdateEvent, same_side: bool) -> (r: Option<
    TradeStep,
>)
    ensures
        r == step_of(state, event, same_side),
{
    match (state, event) {
        (
            InsightState::New,
            TradeUpdateEvent::Accepted | TradeUpdateEvent::PendingNew | TradeUpdateEvent::New,
        ) => Some(TradeStep::Accept),
        (InsightState::New, TradeUpdateEvent::Filled) => Some(TradeStep::AcceptAndFill),
        (InsightState::New, TradeUpdateEvent::PartialFilled) => Some(TradeStep::AcceptAndFillPart),
        (InsightState::Executed, TradeUpdateEvent::Filled) => Some(TradeStep::Fill),
        (InsightState::Executed, TradeUpdateEvent::PartialFilled) => Some(TradeStep::FillPart),
        (InsightState::Filled, TradeUpdateEvent::PartialFilled) => Some(TradeStep::ClosePart),
        (InsightState::Executed | InsightState::New, TradeUpdateEvent::Cancelled) => Some(
            TradeStep::Cancel,
        ),
        (InsightState::Executed | InsightState::New, TradeUpdateEvent::Rejected) => Some(
            TradeStep::Reject,
        ),
        (InsightState::Executed, TradeUpdateEvent::Replaced) => Some(TradeStep::Replace),
        (InsightState::Filled, TradeUpdateEvent::Filled) => if same_side {
            None
        } else {
            Some(TradeStep::Close)
        },
        (InsightState::Filled, TradeUpdateEvent::Closed) => Some(TradeStep::Close),
        (InsightState::Cancelled | InsightState::Rejected, TradeUpdateEvent::Filled) => Some(
            TradeStep::LateFill,
        ),
        _ => None,
    }
}

/// The part of a position that an order reports.
pub open spec fn part_of(order: OrderView, price: Number) -> PartialTradeView {
    PartialTradeView {
        quantity: order.filled_qty,
        price,
        order_id: order.order_id,
        commission: rounded(order.commission),
    }
}

/// `insight` filled by `order`.
pub open spec fn filled_by(insight: InsightView, order: OrderView, now: UtcTime) -> InsightView {
    insight.filled(fill_price(order), order.order_id, rounded(order.commission), now).synced(
        order.legs,
    )
}

/// `insight` filled in part by `order`.
pub open spec fn part_filled_by(
    insight: InsightView,
    order: OrderView,
    now: UtcTime,
) -> InsightView {
    insight.part_filled(part_of(order, fill_price(order)), now).synced(order.legs)
}

/// The reason that a rejected order gives.
pub open spec fn reason_of(order: OrderView) -> Seq<char> {
    match order.rejection_reason {
        Some(reason) => reason,
        None => "Order rejected"@,
    }
}

/// `insight` with the limit and the quantity that `order` was changed to.
pub open spec fn replaced_by(insight: InsightView, order: OrderView) -> InsightView {
    InsightView {
        limit_price: if option_eq(reported(order.limit_price), insight.limit_price) {
            insight.limit_price
        } else {
            rounded(order.limit_price)
        },
        quantity: if option_eq(insight.quantity, Some(order.qty)) {
            insight.quantity
        } else {
            Some(order.qty)
        },
        ..insight
    }
}

/// `insight` after `step` on `order`.
pub open spec fn stepped(
    insight: InsightView,
    order: OrderView,
    step: TradeStep,
    now: UtcTime,
) -> InsightView {
    match step {
        TradeStep::Accept => insight.accepted(order.order_id, now),
        TradeStep::AcceptAndFill => filled_by(
            insight.accepted(order.order_id, now),
            order,
            now,
        ),
        TradeStep::AcceptAndFillPart => part_filled_by(
            insight.accepted(order.order_id, now),
            order,
            now,
        ),
        TradeStep::Fill => filled_by(insight, order, now),
        TradeStep::LateFill => filled_by(insight, order, now),
        TradeStep::FillPart => part_filled_by(insight, order, now),
        TradeStep::ClosePart => insight.part_closed(
            part_of(order, rounded_or_zero(closing_price(order))),
            now,
        ),
        TradeStep::Cancel => insight.synced(order.legs).cancelled("Order cancelled"@, now),
        TradeStep::Reject => insight.synced(order.legs).rejected(reason_of(order), now),
        TradeStep::Replace => replaced_by(insight, order).synced(order.legs),
        TradeStep::Close => insight.synced(order.legs).closed(
            rounded_or_zero(closing_price(order)),
            order.order_id,
            rounded(order.realized_pnl),
            rounded(order.commission),
            rounded(order.swap),
            now,
        ),
    }
}

fn fill(insight: &mut Insight, order: &Order, now: UtcTime)
    ensures
        final(insight)@ == filled_by(old(insight)@, order@, now),
{
    let price = fill_price_of(order);
    insight.position_filled(price, order.order_id.as_str(), rounded_of(order.commission), now);
    insight.sync_broker_managed_levels(&order.legs);
}

fn fill_part(insight: &mut Insight, order: &Order, now: UtcTime)
    ensures
        final(insight)@ == part_filled_by(old(insight)@, order@, now),
{
    let price = fill_price_of(order);
    insight.partial_filled(
        order.filled_qty,
        price,
        order.order_id.as_str(),
        rounded_of(order.commission),
        now,
    );
    insight.sync_broker_managed_levels(&order.legs);
}

fn reject(insight: &mut Insight, order: &Order, now: UtcTime)
    ensures
        final(insight)@ == old(insight)@.rejected(reason_of(order@), now),
{
    match &order.rejection_reason {
        Some(reason) => insight.order_rejected(reason.as_str(), now),
        None => insight.order_rejected("Order rejected", now),
    }
}

/// Carries `step` on `order` out on `insight`.
pub fn apply_step(insight: &mut Insight, order: &Order, step: TradeStep, now: UtcTime)
    ensures
        final(insight)@ == stepped(old(insight)@, order@, step, now),
{
    match step {
        TradeStep::Accept => insight.order_accepted(order.order_id.as_str(), now),
        TradeStep::AcceptAndFill => {
            insight.order_accepted(order.order_id.as_str(), now);
            fill(insight, order, now);
        },
        TradeStep::AcceptAndFillPart => {
            insight.order_accepted(order.order_id.as_str(), now);
            fill_part(insight, order, now);
        },
        TradeStep::Fill | TradeStep::LateFill => fill(insight, order, now),
        TradeStep::FillPart => fill_part(insight, order, now),
        TradeStep::ClosePart => {
            let price = close_price_from_order(order);
            insight.partial_closed(
                order.filled_qty,
                price,
                order.order_id.as_str(),
                rounded_of(order.commission),
                now,
            );
        },
        TradeStep::Cancel => {
            insight.sync_broker_managed_levels(&order.legs);
            insight.order_cancelled("Order cancelled", now);
        },
        TradeStep::Reject => {
            insight.sync_broker_managed_levels(&order.legs);
            reject(insight, order, now);
        },
        TradeStep::Replace => {
            if !option_equals(reported_of(order.limit_price), insight.limit_price) {
                insight.limit_price = rounded_of(order.limit_price);
            }
            if !option_equals(insight.quantity, Some(order.qty)) {
                insight.quantity = Some(order.qty);
            }
            insight.sync_broker_managed_levels(&order.legs);
        },
        TradeStep::Close => {
            let price = close_price_from_order(order);
            insight.sync_broker_managed_levels(&order.legs);
            insight.position_closed(
                price,
                order.order_id.as_str(),
                rounded_of(order.realized_pnl),
                rounded_of(order.commission),
                rounded_of(order.swap),
                now,
            );
        },
    }
}

/// `insight` after a broker's answer to its submission. An answer without an order id leaves the
/// insight as it is.
pub open spec fn submitted(insight: InsightView, order: OrderView, now: UtcTime) -> InsightView {
    if order.order_id.len() == 0 {
        insight
    } else {
        match order.status {
            TradeUpdateEvent::Accepted | TradeUpdateEvent::PendingNew | TradeUpdateEvent::New
            | TradeUpdateEvent::Pending => insight.accepted(order.order_id, now),
            TradeUpdateEvent::Filled => filled_by(
                insight.accepted(order.order_id, now),
                order,
                now,
            ),
            TradeUpdateEvent::PartialFilled => part_filled_by(
                insight.accepted(order.order_id, now),
                order,
                now,
            ),
            TradeUpdateEvent::Rejected => insight.rejected(reason_of(order), now),
            TradeUpdateEvent::Cancelled | TradeUpdateEvent::Expired => insight.cancelled(
                "Order cancelled before acknowledgement"@,
                now,
            ),
            TradeUpdateEvent::Closed | TradeUpdateEvent::Replaced => InsightView {
                order_id: Some(order.order_id),
                ..insight
            },
        }
    }
}

/// Takes the broker's answer to a submission over into the insight.
pub fn submit_insight(insight: &mut Insight, order: &Order, now: UtcTime)
    ensures
        final(insight)@ == submitted(old(insight)@, order@, now),
{
    if order.order_id.as_str().is_empty() {
        return;
    }
    match order.status {
        TradeUpdateEvent::Accepted | TradeUpdateEvent::PendingNew | TradeUpdateEvent::New
        | TradeUpdateEvent::Pending => insight.order_accepted(order.order_id.as_str(), now),
        TradeUpdateEvent::Filled => {
            insight.order_accepted(order.order_id.as_str(), now);
            fill(insight, order, now);
        },
        TradeUpdateEvent::PartialFilled => {
            insight.order_accepted(order.order_id.as_str(), now);
            fill_part(insight, order, now);
        },
        TradeUpdateEvent::Rejected => reject(insight, order, now),
        TradeUpdateEvent::Cancelled | TradeUpdateEvent::Expired => insight.order_cancelled(
            "Order cancelled before acknowledgement",
            now,
        ),
        TradeUpdateEvent::Closed | TradeUpdateEvent::Replaced => {
            insight.order_id = Some(order.order_id.clone());
        },
    }
}

/// The state that each step leads to.
pub open spec fn state_after(state: InsightState, step: TradeStep) -> InsightState {
    match step {
        TradeStep::Accept | TradeStep::AcceptAndFillPart => InsightState::Executed,
        TradeStep::AcceptAndFill | TradeStep::Fill | TradeStep::LateFill => InsightState::Filled,
        TradeStep::FillPart | TradeStep::ClosePart | TradeStep::Replace => state,
        TradeStep::Cancel => InsightState::Cancelled,
        TradeStep::Reject => InsightState::Rejected,
        TradeStep::Close => InsightState::Closed,
    }
}

/// Every step leads to its state, and keeps the insight's identity: its id, its parent, its
/// symbol, its side, its profile and its children.
pub proof fn steps_keep_identity(
    insight: InsightView,
    order: OrderView,
    step: TradeStep,
    now: UtcTime,
)
    ensures
        stepped(insight, order, step, now).state == state_after(insight.state, step),
        stepped(insight, order, step, now).insight_id == insight.insight_id,
        stepped(insight, order, step, now).parent_id == insight.parent_id,
        stepped(insight, order, step, now).symbol == insight.symbol,
        stepped(insight, order, step, now).side == insight.side,
        stepped(insight, order, step, now).profile == insight.profile,
        stepped(insight, order, step, now).children == insight.children,
{
}

/// A closed insight takes no further step, and a cancelled or rejected one leaves its state only
/// by a fill that arrives late.
pub proof fn terminal_states_are_left_only_by_a_late_fill(
    state: InsightState,
    event: TradeUpdateEvent,
    same_side: bool,
)
    requires
        state.inactive(),
    ensures
        state is Closed ==> step_of(state, event, same_side) is None,
        step_of(state, event, same_side) is Some <==> !(state is Closed) && event is Filled,
        step_of(state, event, same_side) matches Some(step) ==> step is LateFill && state_after(
            state,
            step,
        ) is Filled,
{
}

/// A step never takes away from an insight's history: the entries before it stand at its start.
pub proof fn steps_keep_history(
    insight: InsightView,
    order: OrderView,
    step: TradeStep,
    now: UtcTime,
)
    ensures
        insight.history.len() <= stepped(insight, order, step, now).history.len(),
        stepped(insight, order, step, now).history.take(insight.history.len() as int)
            == insight.history,
{
    assert(stepped(insight, order, step, now).history.take(insight.history.len() as int)
        =~= insight.history);
}

/// Whether the step that a report calls for makes an insight in `state` a filled one.
pub open spec fn makes_filled(state: InsightState, event: TradeUpdateEvent, same_side: bool) -> bool {
    step_of(state, event, same_side) matches Some(step) && !(state is Filled) && state_after(
        state,
        step,
    ) is Filled
}

/// A report that part of an order was filled moves no insight but a new one, and that only to
/// executed: an executed insight becomes filled by a report of the whole fill, and by no other.
pub proof fn only_whole_fills_fill(
    insight: InsightView,
    order: OrderView,
    event: TradeUpdateEvent,
    now: UtcTime,
)
    ensures
        !(insight.state is Filled) && !(insight.state is Closed) ==> (makes_filled(
            insight.state,
            event,
            order.side == insight.side,
        ) <==> event is Filled),
        event is PartialFilled && insight.state is Executed ==> (step_of(
            insight.state,
            event,
            order.side == insight.side,
        ) matches Some(step) && {
            let to = stepped(insight, order, step, now);
            &&& to.state is Executed
            &&& to.filled_price == insight.filled_price
            &&& to.filled_at == insight.filled_at
            &&& to.partial_fills.len() == insight.partial_fills.len() + 1
            &&& to.partial_fills.drop_last() == insight.partial_fills
            &&& to.partial_fills.last().quantity == order.filled_qty
            &&& order.filled_price matches Some(p) ==> to.partial_fills.last().price == p.rounded
        }),
        event is PartialFilled ==> (step_of(insight.state, event, order.side == insight.side)
            matches Some(step) ==> (stepped(insight, order, step, now).state is Filled
            <==> insight.state is Filled)),
{
    if event is PartialFilled && insight.state is Executed {
        let step = step_of(insight.state, event, order.side == insight.side)->Some_0;
        assert(stepped(insight, order, step, now).partial_fills.drop_last()
            =~= insight.partial_fills);
    }
}

/// Which reports an insight takes in: a new one that its order was taken, filled, filled in part,
/// cancelled or rejected; an executed one the same but that it was taken, and that it was changed; a
/// filled one a part, its end, and a fill of the other side; one that was cancelled or rejected only a
/// fill; a closed one none.
pub proof fn states_say_which_reports_count(
    state: InsightState,
    event: TradeUpdateEvent,
    same_side: bool,
)
    ensures
        state is New ==> (step_of(state, event, same_side) is Some <==> !(event is Replaced || event
            is Closed || event is Expired || event is Pending)),
        state is Executed ==> (step_of(state, event, same_side) is Some <==> (event is Filled
            || event is PartialFilled || event is Cancelled || event is Rejected
            || event is Replaced)),
        state is Filled ==> (step_of(state, event, same_side) is Some <==> (event is PartialFilled
            || event is Closed || (event is Filled && !same_side))),
        state is Cancelled || state is Rejected ==> (step_of(state, event, same_side) is Some
            <==> event is Filled),
        state is Closed ==> step_of(state, event, same_side) is None,
{
}

/// The price of a fill is the one that the order was filled at, as the broker rounds it; without one
/// it is the limit, and without that zero.
pub proof fn fills_have_the_price_of_the_order(order: OrderView)
    ensures
        order.filled_price matches Some(p) ==> fill_price(order) == p.rounded,
        order.filled_price is None && order.limit_price is Some ==> fill_price(order)
            == order.limit_price->Some_0.rounded,
        order.filled_price is None && order.limit_price is None ==> fill_price(order).bits == 0,
{
}

/// The price of a close is that of the leg that was filled, stop loss before take profit before
/// trailing stop, and of such a leg the price of its fill, else its limit; where no leg was filled it
/// is that of the order, its fill before its stop before its limit, and without any it is zero.
pub proof fn closes_have_the_price_of_what_was_filled(order: OrderView)
    ensures
        ({
            let price = rounded_or_zero(closing_price(order));
            let none = LegView {
                order_id: None,
                limit_price: None,
                filled_price: None,
                trail_price: None,
                status: TradeUpdateEvent::New,
            };
            let leg_of = |leg: Option<LegView>|
                match leg {
                    Some(l) => l,
                    None => none,
                };
            let legs = match order.legs {
                Some(l) => l,
                None => LegsView { take_profit: None, stop_loss: None, trailing_stop: None },
            };
            let stop = leg_of(legs.stop_loss);
            let take = leg_of(legs.take_profit);
            let trail = leg_of(legs.trailing_stop);
            let told = |l: LegView|
                l.status is Filled && (l.filled_price is Some || l.limit_price is Some);
            let at = |l: LegView|
                match l.filled_price {
                    Some(p) => p.rounded,
                    None => l.limit_price->Some_0.rounded,
                };
            &&& told(stop) ==> price == at(stop)
            &&& !told(stop) && told(take) ==> price == at(take)
            &&& !told(stop) && !told(take) && told(trail) ==> price == at(trail)
            &&& !told(stop) && !told(take) && !told(trail) ==> {
                &&& order.filled_price matches Some(p) ==> price == p.rounded
                &&& order.filled_price is None && order.stop_price is Some ==> price
                    == order.stop_price->Some_0.rounded
                &&& order.filled_price is None && order.stop_price is None
                    && order.limit_price is Some ==> price == order.limit_price->Some_0.rounded
                &&& order.filled_price is None && order.stop_price is None
                    && order.limit_price is None ==> price.bits == 0
            }
        }),
{
}

/// What a broker answers to a submission: without an order nothing changes; an order that it took, or
/// that waits, makes the insight executed; a filled one fills it, and one filled in part notes the
/// part; a rejected one rejects it; a cancelled or expired one cancels it. Any other answer only gives
/// it the order.
pub proof fn answers_to_submissions_are_taken_over(
    insight: InsightView,
    order: OrderView,
    now: UtcTime,
)
    ensures
        ({
            let to = submitted(insight, order, now);
            let status = order.status;
            let taken = status is Accepted || status is PendingNew || status is New
                || status is Pending;
            &&& order.order_id.len() == 0 ==> to == insight
            &&& order.order_id.len() > 0 ==> {
                &&& taken ==> to.state is Executed && to.order_id == Some(order.order_id)
                    && to.partial_fills == insight.partial_fills && to.filled_at
                    == insight.filled_at
                &&& status is Filled ==> to.state is Filled && to.order_id == Some(order.order_id)
                    && to.filled_at == Some(now) && to.filled_price is Some && (
                order.filled_price matches Some(p) ==> to.filled_price == Some(p.rounded))
                &&& status is PartialFilled ==> to.state is Executed && to.order_id == Some(
                    order.order_id,
                ) && to.filled_at == insight.filled_at && to.filled_price == insight.filled_price
                    && to.partial_fills.len() == insight.partial_fills.len() + 1
                    && to.partial_fills.last().quantity == order.filled_qty
                &&& status is Rejected ==> to.state is Rejected && to.order_id == insight.order_id
                &&& status is Cancelled || status is Expired ==> to.state is Cancelled
                    && to.order_id == insight.order_id
                &&& status is Closed || status is Replaced ==> to.state == insight.state
                    && to.order_id == Some(order.order_id) && to.history == insight.history
            }
            &&& to.insight_id == insight.insight_id
            &&& to.symbol == insight.symbol
            &&& to.side == insight.side
            &&& to.quantity == insight.quantity
        }),
{
}

/// A report on an order is about the insights that it names or that hold the order, and no others.
pub proof fn reports_find_their_insights(insight: InsightView, order: OrderView)
    ensures
        order.insight_id == Some(uuid_chars(insight.insight_id)) ==> event_matches(insight, order),
        insight.order_id == Some(order.order_id) ==> event_matches(insight, order),
        insight.close_order_id == Some(order.order_id) ==> event_matches(insight, order),
        (insight.legs.take_profit matches Some(leg) && leg.order_id == Some(order.order_id))
            ==> event_matches(insight, order),
        (insight.legs.stop_loss matches Some(leg) && leg.order_id == Some(order.order_id))
            ==> event_matches(insight, order),
        (insight.legs.trailing_stop matches Some(leg) && leg.order_id == Some(order.order_id))
            ==> event_matches(insight, order),
        order.insight_id is None && insight.order_id != Some(order.order_id)
            && insight.close_order_id != Some(order.order_id) && insight.legs.take_profit is None
            && insight.legs.stop_loss is None && insight.legs.trailing_stop is None
            ==> !event_matches(insight, order),
{
}

/// The levels that a broker manages are taken over as it rounds them: the take profit and the stop
/// loss where the insight has at most one level of its own, and the trailing stop always. What the
/// broker does not name stays, and so do the terms of the insight.
pub proof fn managed_levels_are_taken_over(insight: InsightView, legs: Option<LegsView>)
    ensures
        legs is None ==> insight.synced(legs) == insight,
        legs matches Some(l) ==> {
            let to = insight.synced(legs);
            let one = |levels: Option<Seq<Number>>|
                match levels {
                    Some(v) => v.len() <= 1,
                    None => true,
                };
            let take = match l.take_profit {
                Some(leg) => leg.limit_price,
                None => None,
            };
            let stop = match l.stop_loss {
                Some(leg) => leg.limit_price,
                None => None,
            };
            let trail = match l.trailing_stop {
                Some(leg) => leg.trail_price,
                None => None,
            };
            &&& to.legs == l
            &&& to.take_profit_levels == (if take is Some && one(insight.take_profit_levels) {
                Some(seq![take->Some_0.rounded])
            } else {
                insight.take_profit_levels
            })
            &&& to.stop_loss_levels == (if stop is Some && one(insight.stop_loss_levels) {
                Some(seq![stop->Some_0.rounded])
            } else {
                insight.stop_loss_levels
            })
            &&& to.trailing_stop_price == (match trail {
                Some(gap) => Some(gap.rounded),
                None => insight.trailing_stop_price,
            })
            &&& to.state == insight.state
            &&& to.filled_price == insight.filled_price
            &&& to.quantity == insight.quantity
            &&& to.history == insight.history
        },
{
}

/// A step that is taken brings the insight to the state that the report names, with its order; what
/// the step does not speak of stays.
pub proof fn steps_that_are_taken_change_the_state()
    ensures
        forall|i: &mut Insight, order: Order, step: TradeStep, now: UtcTime, r: ()| #[trigger]
            call_ensures(apply_step, (i, &order, step, now), r) ==> {
                &&& step is Accept ==> final(i).state is Executed && final(i)@.order_id == Some(
                    order@.order_id,
                )
                &&& step is AcceptAndFill || step is Fill || step is LateFill ==> final(i).state is Filled && final(i)@.order_id == Some(order@.order_id)
                    && final(i).filled_at == Some(now) && final(i)@.partial_fills
                    == i@.partial_fills
                &&& step is AcceptAndFillPart ==> final(i).state is Executed && final(i).filled_at
                    == i.filled_at && final(i)@.partial_fills.len() == i@.partial_fills.len() + 1
                &&& step is FillPart ==> final(i).state == i.state && final(i).filled_at
                    == i.filled_at && final(i)@.partial_fills.len() == i@.partial_fills.len() + 1
                    && final(i)@.partial_fills.last().quantity == order@.filled_qty
                &&& step is ClosePart ==> final(i).state == i.state && final(i).closed_at
                    == i.closed_at && final(i)@.partial_closes.len() == i@.partial_closes.len() + 1
                &&& step is Cancel ==> final(i).state is Cancelled && !final(i).cancelling
                &&& step is Reject ==> final(i).state is Rejected
                &&& step is Replace ==> final(i).state == i.state
                &&& step is Close ==> final(i).state is Closed && final(i)@.close_order_id == Some(
                    order@.order_id,
                ) && final(i).closed_at == Some(now) && !final(i).closing
                &&& final(i).insight_id == i.insight_id
                &&& final(i)@.children == i@.children
            },
{
}

/// An answer without an order id changes nothing; with one, the insight is executed, filled or
/// rejected as the answer says.
pub proof fn answered_insights_have_their_order()
    ensures
        forall|i: &mut Insight, order: Order, now: UtcTime, r: ()| #[trigger]
            call_ensures(submit_insight, (i, &order, now), r) ==> {
                &&& order@.order_id.len() == 0 ==> final(i)@ == i@
                &&& order@.order_id.len() > 0 && (order@.status is Accepted
                    || order@.status is PendingNew || order@.status is New
                    || order@.status is Pending) ==> final(i).state is Executed
                    && final(i)@.order_id == Some(order@.order_id)
                &&& order@.order_id.len() > 0 && order@.status is Filled ==> final(i).state is Filled && final(i).filled_at == Some(now)
                &&& order@.order_id.len() > 0 && order@.status is PartialFilled ==> final(i).state is Executed && final(i)@.partial_fills.len()
                    == i@.partial_fills.len() + 1
            },
{
}

/// A rejected order rejects its insight for the reason that the broker gives, and else for being
/// rejected; a cancelled one is said to be.
pub proof fn reasons_are_those_of_the_broker(insight: InsightView, order: OrderView, now: UtcTime)
    ensures
        ({
            let rejected = stepped(insight, order, TradeStep::Reject, now);
            let cancelled = stepped(insight, order, TradeStep::Cancel, now);
            &&& order.rejection_reason is Some ==> rejected.history.last().message == Some(
                "State changed from "@ + insight.state.spec_label() + " to "@ + "Rejected"@
                    + ": "@ + order.rejection_reason->Some_0,
            )
            &&& order.rejection_reason is None ==> rejected.history.last().message == Some(
                "State changed from "@ + insight.state.spec_label() + " to "@ + "Rejected"@
                    + ": "@ + "Order rejected"@,
            )
            &&& cancelled.history.last().message == Some(
                "State changed from "@ + insight.state.spec_label() + " to "@ + "Cancelled"@
                    + ": "@ + "Order cancelled"@,
            )
        }),
{
}

} // verus!
