//! Insights that the cloud still holds for open and the run does not know: what becomes of them
//! when a live run starts, and while it goes on.
use vstd::prelude::*;
use vstd::string::StringExecFns;

use crate::cloud::{is_transient_surreal_error, transient};
use crate::ids::{uuid_chars, uuid_text};
use crate::insight::{InsightState, TradeUpdateEvent};
use crate::json::{
    add_member, add_text, members_view, object_of, option_json, optional_text, optional_value,
    text_at, text_of, text_or_null, value_or_null, Json, JsonView,
};
use crate::number::Number;
use crate::records::{EventView, StrategyEventRecord};
use crate::text::{option_copy, option_view, text_eq, trim, trimmed};
use crate::time::UtcTime;

verus! {

/// An insight as the cloud holds it.
#[derive(Debug)]
pub struct RemoteStartupInsight {
    pub insight_id: String,
    pub symbol: String,
    pub previous_state: String,
    pub side: String,
    pub order_id: Option<String>,
    pub live_session_id: Option<Json>,
}

/// The model of an insight as the cloud holds it.
#[verifier::ext_equal]
pub struct RemoteView {
    pub insight_id: Seq<char>,
    pub symbol: Seq<char>,
    pub previous_state: Seq<char>,
    pub side: Seq<char>,
    pub order_id: Option<Seq<char>>,
    pub live_session_id: Option<JsonView>,
}

impl View for RemoteStartupInsight {
    type V = RemoteView;

    open spec fn view(&self) -> RemoteView {
        RemoteView {
            insight_id: self.insight_id@,
            symbol: self.symbol@,
            previous_state: self.previous_state@,
            side: self.side@,
            order_id: option_view(self.order_id),
            live_session_id: option_json(self.live_session_id),
        }
    }
}

/// The text under `key`, or a dash.
pub open spec fn text_or_dash(row: JsonView, key: Seq<char>) -> Seq<char> {
    match text_at(row, key) {
        Some(s) => s,
        None => "-"@,
    }
}

fn dash_text(row: &Json, key: &str) -> (r: String)
    ensures
        r@ == text_or_dash(row@, key@),
{
    match text_of(row, key) {
        Some(s) => s,
        None => "-".to_owned(),
    }
}

/// The insight that a row tells of, or `None` where it has no id.
pub open spec fn remote_of(row: JsonView) -> Option<RemoteView> {
    match text_at(row, "insight_id"@) {
        Some(insight_id) => Some(
            RemoteView {
                insight_id,
                symbol: text_or_dash(row, "symbol"@),
                previous_state: text_or_dash(row, "state"@),
                side: text_or_dash(row, "side"@),
                order_id: match text_at(row, "order_id"@) {
                    Some(id) => if trimmed(id).len() > 0 {
                        Some(trimmed(id))
                    } else {
                        None
                    },
                    None => None,
                },
                live_session_id: row.get("live_session_id"@),
            },
        ),
        None => None,
    }
}

/// The model of an insight that may be there.
pub open spec fn remote_view(r: Option<RemoteStartupInsight>) -> Option<RemoteView> {
    match r {
        Some(r) => Some(r@),
        None => None,
    }
}

/// The insight that a row tells of.
pub fn read_remote(row: &Json) -> (r: Option<RemoteStartupInsight>)
    ensures
        remote_view(r) == remote_of(row@),
{
    let insight_id = match text_of(row, "insight_id") {
        Some(id) => id,
        None => {
            return None;
        },
    };
    let order_id = match text_of(row, "order_id") {
        Some(id) => {
            let id = trim(id.as_str());
            if id.as_str().unicode_len() > 0 {
                Some(id)
            } else {
                None
            }
        },
        None => None,
    };
    let live_session_id = match row.get("live_session_id") {
        Some(id) => Some(id.duplicate()),
        None => None,
    };
    Some(
        RemoteStartupInsight {
            insight_id,
            symbol: dash_text(row, "symbol"),
            previous_state: dash_text(row, "state"),
            side: dash_text(row, "side"),
            order_id,
            live_session_id,
        },
    )
}

/// Whether one of the ids is written as `s`.
pub open spec fn known(local: Seq<u128>, s: Seq<char>) -> bool {
    exists|i: int| 0 <= i < local.len() && uuid_chars(#[trigger] local[i]) == s
}

fn is_known(local: &Vec<u128>, s: &str) -> (r: bool)
    ensures
        r == known(local@, s@),
{
    let mut i: usize = 0;
    while i < local.len()
        invariant
            i <= local.len(),
            forall|k: int| 0 <= k < i ==> uuid_chars(#[trigger] local@[k]) != s@,
        decreases local.len() - i,
    {
        if text_eq(uuid_text(local[i]).as_str(), s) {
            return true;
        }
        i = i + 1;
    }
    false
}

/// The models of JSON values.
pub open spec fn json_views(rows: Seq<Json>) -> Seq<JsonView> {
    rows.map_values(|row: Json| row@)
}

/// The models of insights that the cloud holds.
pub open spec fn remote_views(remotes: Seq<RemoteStartupInsight>) -> Seq<RemoteView> {
    remotes.map_values(|r: RemoteStartupInsight| r@)
}

/// The insights that the rows tell of and that have none of the ids `local`, in order.
pub open spec fn stale(rows: Seq<JsonView>, local: Seq<u128>) -> Seq<RemoteView>
    decreases rows.len(),
{
    if rows.len() == 0 {
        Seq::empty()
    } else {
        let before = stale(rows.drop_last(), local);
        match remote_of(rows.last()) {
            Some(remote) => if known(local, remote.insight_id) {
                before
            } else {
                before.push(remote)
            },
            None => before,
        }
    }
}

/// The insights that the rows tell of and that are not among the `local` ones.
pub fn stale_remotes(rows: &Vec<Json>, local: &Vec<u128>) -> (r: Vec<RemoteStartupInsight>)
    ensures
        remote_views(r@) == stale(json_views(rows@), local@),
{
    let mut out: Vec<RemoteStartupInsight> = Vec::new();
    let mut i: usize = 0;
    proof {
        assert(remote_views(out@) =~= Seq::<RemoteView>::empty());
    }
    while i < rows.len()
        invariant
            i <= rows.len(),
            remote_views(out@) == stale(json_views(rows@).take(i as int), local@),
        decreases rows.len() - i,
    {
        proof {
            assert(json_views(rows@).take(i + 1).drop_last() =~= json_views(rows@).take(i as int));
        }
        match read_remote(&rows[i]) {
            Some(remote) => {
                if !is_known(local, remote.insight_id.as_str()) {
                    let ghost before = remote_views(out@);
                    let ghost v = remote@;
                    out.push(remote);
                    proof {
                        assert(remote_views(out@) =~= before.push(v));
                    }
                }
            },
            None => {},
        }
        i = i + 1;
    }
    proof {
        assert(json_views(rows@).take(i as int) =~= json_views(rows@));
    }
    out
}

/// What the run knows is left alone: none of the insights that are dealt with has the id of one
/// that the run holds.
pub proof fn known_insights_are_left_alone(rows: Seq<JsonView>, local: Seq<u128>)
    ensures
        forall|i: int|
            0 <= i < stale(rows, local).len() ==> !known(
                local,
                (#[trigger] stale(rows, local)[i]).insight_id,
            ),
    decreases rows.len(),
{
    if rows.len() > 0 {
        known_insights_are_left_alone(rows.drop_last(), local);
    }
}

/// An order that the broker knows.
#[derive(Debug)]
pub struct BrokerOrder {
    pub order_id: String,
    pub status: TradeUpdateEvent,
}

/// A position that the broker holds, with its quantity also as a JSON value.
#[derive(Debug)]
pub struct BrokerPosition {
    pub symbol: String,
    pub qty: Number,
    pub shown: Json,
}

/// The status of the order `id`: what the last order with that id says.
pub open spec fn status_of(orders: Seq<BrokerOrder>, id: Seq<char>) -> Option<TradeUpdateEvent>
    decreases orders.len(),
{
    if orders.len() == 0 {
        None
    } else if orders.last().order_id@ == id {
        Some(orders.last().status)
    } else {
        status_of(orders.drop_last(), id)
    }
}

fn order_status(orders: &Vec<BrokerOrder>, id: &str) -> (r: Option<TradeUpdateEvent>)
    ensures
        r == status_of(orders@, id@),
{
    let mut i: usize = orders.len();
    proof {
        assert(orders@.take(i as int) =~= orders@);
    }
    while i > 0
        invariant
            i <= orders.len(),
            status_of(orders@, id@) == status_of(orders@.take(i as int), id@),
        decreases i,
    {
        proof {
            assert(orders@.take(i as int).drop_last() =~= orders@.take(i - 1));
        }
        i = i - 1;
        if text_eq(orders[i].order_id.as_str(), id) {
            return Some(orders[i].status);
        }
    }
    None
}

/// The quantity that is held of a symbol: a number, and as a JSON value.
pub open spec fn held(positions: Seq<BrokerPosition>, symbol: Seq<char>) -> Option<
    (Number, JsonView),
>
    decreases positions.len(),
{
    if positions.len() == 0 {
        None
    } else if positions.last().symbol@ == symbol {
        Some((positions.last().qty, positions.last().shown@))
    } else {
        held(positions.drop_last(), symbol)
    }
}

fn held_of(positions: &Vec<BrokerPosition>, symbol: &str) -> (r: Option<(Number, Json)>)
    ensures
        match r {
            Some(h) => held(positions@, symbol@) == Some((h.0, h.1@)),
            None => held(positions@, symbol@) is None,
        },
{
    let mut i: usize = positions.len();
    proof {
        assert(positions@.take(i as int) =~= positions@);
    }
    while i > 0
        invariant
            i <= positions.len(),
            held(positions@, symbol@) == held(positions@.take(i as int), symbol@),
        decreases i,
    {
        proof {
            assert(positions@.take(i as int).drop_last() =~= positions@.take(i - 1));
        }
        i = i - 1;
        if text_eq(positions[i].symbol.as_str(), symbol) {
            return Some((positions[i].qty, positions[i].shown.duplicate()));
        }
    }
    None
}

/// What is asked of the broker.
#[derive(Clone, Copy, Debug, PartialEq, Eq, Structural)]
pub enum StartupBrokerActionKind {
    CancelOrder,
    ClosePosition,
}

/// Something to ask of the broker before an insight is settled.
#[derive(Debug)]
pub struct StartupBrokerAction {
    pub remote: RemoteStartupInsight,
    pub order_id: String,
    pub broker_order_status: TradeUpdateEvent,
    pub broker_position_qty: Option<Json>,
    pub action: StartupBrokerActionKind,
}

/// What an insight is settled as, and why.
#[derive(Debug)]
pub struct StartupCleanupDecision {
    pub remote: RemoteStartupInsight,
    pub target_state: InsightState,
    pub broker_order_status: Option<TradeUpdateEvent>,
    pub broker_action: String,
    pub broker_error: Option<String>,
    pub broker_position_qty: Option<Json>,
}

/// The model of an action.
#[verifier::ext_equal]
pub struct ActionView {
    pub remote: RemoteView,
    pub order_id: Seq<char>,
    pub broker_order_status: TradeUpdateEvent,
    pub broker_position_qty: Option<JsonView>,
    pub action: StartupBrokerActionKind,
}

/// The model of a decision.
#[verifier::ext_equal]
pub struct DecisionView {
    pub remote: RemoteView,
    pub target_state: InsightState,
    pub broker_order_status: Option<TradeUpdateEvent>,
    pub broker_action: Seq<char>,
    pub broker_error: Option<Seq<char>>,
    pub broker_position_qty: Option<JsonView>,
}

impl View for StartupBrokerAction {
    type V = ActionView;

    open spec fn view(&self) -> ActionView {
        ActionView {
            remote: self.remote@,
            order_id: self.order_id@,
            broker_order_status: self.broker_order_status,
            broker_position_qty: option_json(self.broker_position_qty),
            action: self.action,
        }
    }
}

impl View for StartupCleanupDecision {
    type V = DecisionView;

    open spec fn view(&self) -> DecisionView {
        DecisionView {
            remote: self.remote@,
            target_state: self.target_state,
            broker_order_status: self.broker_order_status,
            broker_action: self.broker_action@,
            broker_error: option_view(self.broker_error),
            broker_position_qty: option_json(self.broker_position_qty),
        }
    }
}

/// What becomes of an insight: it is settled, or the broker is asked first.
#[derive(Debug)]
pub enum Cleanup {
    Decide(StartupCleanupDecision),
    Act(StartupBrokerAction),
}

/// The model of what becomes of an insight.
pub enum CleanupView {
    Decide(DecisionView),
    Act(ActionView),
}

impl View for Cleanup {
    type V = CleanupView;

    open spec fn view(&self) -> CleanupView {
        match self {
            Cleanup::Decide(decision) => CleanupView::Decide(decision@),
            Cleanup::Act(action) => CleanupView::Act(action@),
        }
    }
}

/// The quantity of a position as a JSON value.
pub open spec fn shown_qty(position: Option<(Number, JsonView)>) -> Option<JsonView> {
    match position {
        Some(position) => Some(position.1),
        None => None,
    }
}

/// Whether nothing is held.
pub open spec fn flat(position: Option<(Number, JsonView)>) -> bool {
    match position {
        Some(position) => position.0.near_zero(),
        None => true,
    }
}

/// What becomes of an insight with an order in the status `status`, where `position` is held of
/// its symbol: a fill is closed where something is held of it, an order that is still open is
/// cancelled, and what has come to an end already is settled as it ended.
pub open spec fn by_order(
    remote: RemoteView,
    order_id: Seq<char>,
    status: TradeUpdateEvent,
    position: Option<(Number, JsonView)>,
) -> CleanupView {
    match status {
        TradeUpdateEvent::Filled | TradeUpdateEvent::PartialFilled => if flat(position) {
            CleanupView::Decide(
                DecisionView {
                    remote,
                    target_state: InsightState::Closed,
                    broker_order_status: Some(status),
                    broker_action: "position_not_found"@,
                    broker_error: None,
                    broker_position_qty: shown_qty(position),
                },
            )
        } else {
            CleanupView::Act(
                ActionView {
                    remote,
                    order_id,
                    broker_order_status: status,
                    broker_position_qty: shown_qty(position),
                    action: StartupBrokerActionKind::ClosePosition,
                },
            )
        },
        TradeUpdateEvent::Closed => CleanupView::Decide(
            DecisionView {
                remote,
                target_state: InsightState::Closed,
                broker_order_status: Some(status),
                broker_action: "already_closed"@,
                broker_error: None,
                broker_position_qty: None,
            },
        ),
        TradeUpdateEvent::Cancelled | TradeUpdateEvent::Rejected | TradeUpdateEvent::Expired =>
        CleanupView::Decide(
            DecisionView {
                remote,
                target_state: InsightState::Cancelled,
                broker_order_status: Some(status),
                broker_action: "already_terminal"@,
                broker_error: None,
                broker_position_qty: None,
            },
        ),
        _ => CleanupView::Act(
            ActionView {
                remote,
                order_id,
                broker_order_status: status,
                broker_position_qty: None,
                action: StartupBrokerActionKind::CancelOrder,
            },
        ),
    }
}

/// What becomes of an insight whose order the broker does not know: it is cancelled.
pub open spec fn without_order(
    remote: RemoteView,
    orders_error: Option<Seq<char>>,
    position: Option<(Number, JsonView)>,
) -> CleanupView {
    CleanupView::Decide(
        DecisionView {
            remote,
            target_state: InsightState::Cancelled,
            broker_order_status: None,
            broker_action: "order_not_found"@,
            broker_error: Some(
                match orders_error {
                    Some(error) => error,
                    None => "broker order not found in startup order snapshot"@,
                },
            ),
            broker_position_qty: shown_qty(position),
        },
    )
}

/// The status of an insight's order, where it has one that the broker knows.
pub open spec fn known_status(remote: RemoteView, orders: Seq<BrokerOrder>) -> Option<
    TradeUpdateEvent,
> {
    match remote.order_id {
        Some(id) => status_of(orders, id),
        None => None,
    }
}

/// What becomes of an insight that the run does not know.
pub open spec fn cleanup(
    remote: RemoteView,
    orders: Seq<BrokerOrder>,
    orders_error: Option<Seq<char>>,
    positions: Seq<BrokerPosition>,
) -> CleanupView {
    let position = held(positions, remote.symbol);
    match known_status(remote, orders) {
        Some(status) => by_order(remote, remote.order_id->Some_0, status, position),
        None => without_order(remote, orders_error, position),
    }
}

fn settled(
    remote: RemoteStartupInsight,
    target_state: InsightState,
    status: TradeUpdateEvent,
    broker_action: &str,
    broker_position_qty: Option<Json>,
) -> (r: Cleanup)
    ensures
        r@ == CleanupView::Decide(
            DecisionView {
                remote: remote@,
                target_state,
                broker_order_status: Some(status),
                broker_action: broker_action@,
                broker_error: None,
                broker_position_qty: option_json(broker_position_qty),
            },
        ),
{
    Cleanup::Decide(
        StartupCleanupDecision {
            remote,
            target_state,
            broker_order_status: Some(status),
            broker_action: broker_action.to_owned(),
            broker_error: None,
            broker_position_qty,
        },
    )
}

/// What becomes of an insight that the run does not know.
pub fn clean_up(
    remote: RemoteStartupInsight,
    orders: &Vec<BrokerOrder>,
    orders_error: &Option<String>,
    positions: &Vec<BrokerPosition>,
) -> (r: Cleanup)
    ensures
        r@ == cleanup(remote@, orders@, option_view(*orders_error), positions@),
{
    let position = held_of(positions, remote.symbol.as_str());
    let (nothing_held, qty) = match position {
        Some((qty, shown)) => (qty.is_near_zero(), Some(shown)),
        None => (true, None),
    };
    let order_id = option_copy(&remote.order_id);
    if let Some(order_id) = order_id {
        if let Some(status) = order_status(orders, order_id.as_str()) {
            return match status {
                TradeUpdateEvent::Filled | TradeUpdateEvent::PartialFilled => {
                    if nothing_held {
                        settled(remote, InsightState::Closed, status, "position_not_found", qty)
                    } else {
                        Cleanup::Act(
                            StartupBrokerAction {
                                remote,
                                order_id,
                                broker_order_status: status,
                                broker_position_qty: qty,
                                action: StartupBrokerActionKind::ClosePosition,
                            },
                        )
                    }
                },
                TradeUpdateEvent::Closed => settled(
                    remote,
                    InsightState::Closed,
                    status,
                    "already_closed",
                    None,
                ),
                TradeUpdateEvent::Cancelled
                | TradeUpdateEvent::Rejected
                | TradeUpdateEvent::Expired => settled(
                    remote,
                    InsightState::Cancelled,
                    status,
                    "already_terminal",
                    None,
                ),
                _ => Cleanup::Act(
                    StartupBrokerAction {
                        remote,
                        order_id,
                        broker_order_status: status,
                        broker_position_qty: None,
                        action: StartupBrokerActionKind::CancelOrder,
                    },
                ),
            };
        }
    }
    let error = match orders_error {
        Some(error) => error.clone(),
        None => "broker order not found in startup order snapshot".to_owned(),
    };
    Cleanup::Decide(
        StartupCleanupDecision {
            remote,
            target_state: InsightState::Cancelled,
            broker_order_status: None,
            broker_action: "order_not_found".to_owned(),
            broker_error: Some(error),
            broker_position_qty: qty,
        },
    )
}

/// The models of decisions.
pub open spec fn decision_views(items: Seq<StartupCleanupDecision>) -> Seq<DecisionView> {
    items.map_values(|d: StartupCleanupDecision| d@)
}

/// The models of actions.
pub open spec fn action_views(items: Seq<StartupBrokerAction>) -> Seq<ActionView> {
    items.map_values(|a: StartupBrokerAction| a@)
}

/// The decisions among what becomes of insights, in order.
pub open spec fn decisions_in(items: Seq<CleanupView>) -> Seq<DecisionView>
    decreases items.len(),
{
    if items.len() == 0 {
        Seq::empty()
    } else {
        match items.last() {
            CleanupView::Decide(d) => decisions_in(items.drop_last()).push(d),
            CleanupView::Act(_) => decisions_in(items.drop_last()),
        }
    }
}

/// The actions among what becomes of insights, in order.
pub open spec fn actions_in(items: Seq<CleanupView>) -> Seq<ActionView>
    decreases items.len(),
{
    if items.len() == 0 {
        Seq::empty()
    } else {
        match items.last() {
            CleanupView::Decide(_) => actions_in(items.drop_last()),
            CleanupView::Act(a) => actions_in(items.drop_last()).push(a),
        }
    }
}

/// What becomes of each insight.
pub open spec fn cleanups(
    remotes: Seq<RemoteView>,
    orders: Seq<BrokerOrder>,
    orders_error: Option<Seq<char>>,
    positions: Seq<BrokerPosition>,
) -> Seq<CleanupView> {
    remotes.map_values(|remote: RemoteView| cleanup(remote, orders, orders_error, positions))
}

/// What is to be done about insights that the run does not know.
#[derive(Debug)]
pub struct CleanupPlan {
    pub decisions: Vec<StartupCleanupDecision>,
    pub actions: Vec<StartupBrokerAction>,
}

/// What is to be done about insights that the run does not know.
pub fn plan_cleanup(
    remotes: Vec<RemoteStartupInsight>,
    orders: &Vec<BrokerOrder>,
    orders_error: &Option<String>,
    positions: &Vec<BrokerPosition>,
) -> (r: CleanupPlan)
    ensures
        decision_views(r.decisions@) == decisions_in(
            cleanups(remote_views(remotes@), orders@, option_view(*orders_error), positions@),
        ),
        action_views(r.actions@) == actions_in(
            cleanups(remote_views(remotes@), orders@, option_view(*orders_error), positions@),
        ),
{
    let ghost all = remotes@;
    let ghost items = cleanups(
        remote_views(remotes@),
        orders@,
        option_view(*orders_error),
        positions@,
    );
    let mut waiting = remotes;
    let mut decisions: Vec<StartupCleanupDecision> = Vec::new();
    let mut actions: Vec<StartupBrokerAction> = Vec::new();
    proof {
        assert(decision_views(decisions@) =~= Seq::<DecisionView>::empty());
        assert(action_views(actions@) =~= Seq::<ActionView>::empty());
        assert(waiting@ =~= all.skip(0));
    }
    let n = waiting.len();
    let mut i: usize = 0;
    while i < n
        invariant
            i <= n,
            n == all.len(),
            waiting@ == all.skip(i as int),
            items == cleanups(
                remote_views(all),
                orders@,
                option_view(*orders_error),
                positions@,
            ),
            decision_views(decisions@) == decisions_in(items.take(i as int)),
            action_views(actions@) == actions_in(items.take(i as int)),
        decreases n - i,
    {
        proof {
            assert(items.take(i + 1).drop_last() =~= items.take(i as int));
            assert(items[i as int] == cleanup(
                all[i as int]@,
                orders@,
                option_view(*orders_error),
                positions@,
            ));
        }
        let remote = waiting.remove(0);
        proof {
            assert(remote == all[i as int]);
            assert(waiting@ =~= all.skip(i + 1));
        }
        let ghost decided = decision_views(decisions@);
        let ghost asked = action_views(actions@);
        match clean_up(remote, orders, orders_error, positions) {
            Cleanup::Decide(decision) => {
                let ghost v = decision@;
                decisions.push(decision);
                proof {
                    assert(decision_views(decisions@) =~= decided.push(v));
                }
            },
            Cleanup::Act(action) => {
                let ghost v = action@;
                actions.push(action);
                proof {
                    assert(action_views(actions@) =~= asked.push(v));
                }
            },
        }
        i = i + 1;
    }
    proof {
        assert(items.take(i as int) =~= items);
    }
    CleanupPlan { decisions, actions }
}

/// Each insight is settled at once or the broker is asked first, and never both.
pub proof fn every_remote_is_dealt_with_once(items: Seq<CleanupView>)
    ensures
        decisions_in(items).len() + actions_in(items).len() == items.len(),
    decreases items.len(),
{
    if items.len() > 0 {
        every_remote_is_dealt_with_once(items.drop_last());
    }
}

/// The broker is only asked about orders that it knows, and a position is only closed where
/// something is held.
pub proof fn the_broker_is_asked_about_its_own(
    remote: RemoteView,
    orders: Seq<BrokerOrder>,
    orders_error: Option<Seq<char>>,
    positions: Seq<BrokerPosition>,
)
    ensures
        cleanup(remote, orders, orders_error, positions) matches CleanupView::Act(a) ==> {
            &&& remote.order_id == Some(a.order_id)
            &&& status_of(orders, a.order_id) == Some(a.broker_order_status)
            &&& a.action == StartupBrokerActionKind::ClosePosition ==> !flat(
                held(positions, remote.symbol),
            )
        },
{
}

/// Where the orders could not be read, the broker is asked for nothing and every insight is
/// cancelled, with the error.
pub proof fn without_orders_nothing_is_asked(
    remote: RemoteView,
    error: Seq<char>,
    positions: Seq<BrokerPosition>,
)
    ensures
        cleanup(remote, Seq::empty(), Some(error), positions) matches CleanupView::Decide(d)
            && d.target_state == InsightState::Cancelled && d.broker_error == Some(error),
{
}

/// What a broker said to what it was asked.
#[derive(Clone, Copy, Debug, PartialEq, Eq, Structural)]
pub enum BrokerReply {
    Done,
    Refused,
    Failed,
}

/// What an insight is settled as when the broker did what it was asked.
pub open spec fn acted(action: ActionView) -> DecisionView {
    match action.action {
        StartupBrokerActionKind::ClosePosition => DecisionView {
            remote: action.remote,
            target_state: InsightState::Closed,
            broker_order_status: Some(action.broker_order_status),
            broker_action: "close_position"@,
            broker_error: None,
            broker_position_qty: action.broker_position_qty,
        },
        StartupBrokerActionKind::CancelOrder => DecisionView {
            remote: action.remote,
            target_state: InsightState::Cancelled,
            broker_order_status: Some(action.broker_order_status),
            broker_action: "cancel_order"@,
            broker_error: None,
            broker_position_qty: None,
        },
    }
}

/// What an insight is settled as when the broker did what it was asked; it is left as it is when
/// the broker did not.
pub fn settle_action(action: StartupBrokerAction, reply: BrokerReply) -> (r: Option<
    StartupCleanupDecision,
>)
    ensures
        match r {
            Some(decision) => reply == BrokerReply::Done && decision@ == acted(action@),
            None => reply != BrokerReply::Done,
        },
{
    if reply != BrokerReply::Done {
        return None;
    }
    match action.action {
        StartupBrokerActionKind::ClosePosition => Some(
            StartupCleanupDecision {
                remote: action.remote,
                target_state: InsightState::Closed,
                broker_order_status: Some(action.broker_order_status),
                broker_action: "close_position".to_owned(),
                broker_error: None,
                broker_position_qty: action.broker_position_qty,
            },
        ),
        StartupBrokerActionKind::CancelOrder => Some(
            StartupCleanupDecision {
                remote: action.remote,
                target_state: InsightState::Cancelled,
                broker_order_status: Some(action.broker_order_status),
                broker_action: "cancel_order".to_owned(),
                broker_error: None,
                broker_position_qty: None,
            },
        ),
    }
}

/// Why an insight was settled when the run started.
pub open spec fn cleanup_reason(insight_id: Seq<char>) -> Seq<char> {
    "AQS live startup cleaned stale remote insight "@ + insight_id
        + "; AQE did not have this insight in local state"@
}

/// The label of a report that may be there.
pub open spec fn status_label(status: Option<TradeUpdateEvent>) -> Option<Seq<char>> {
    match status {
        Some(status) => Some(status.spec_label()),
        None => None,
    }
}

/// The event that an insight was settled when the run started.
pub open spec fn cleanup_event(d: DecisionView, now: UtcTime) -> EventView {
    let reason = cleanup_reason(d.remote.insight_id);
    EventView {
        event_type: "insight_startup_cleanup"@,
        level: "warn"@,
        title: "Stale remote insight cleaned up"@,
        message: reason,
        payload: Some(
            JsonView::Object(
                seq![
                    ("insight_id"@, JsonView::Text(d.remote.insight_id)),
                    ("symbol"@, JsonView::Text(d.remote.symbol)),
                    ("side"@, JsonView::Text(d.remote.side)),
                    ("order_id"@, text_or_null(d.remote.order_id)),
                    ("previous_state"@, JsonView::Text(d.remote.previous_state)),
                    ("state"@, JsonView::Text(d.target_state.spec_label())),
                    ("live_session_id"@, value_or_null(d.remote.live_session_id)),
                    ("broker_order_status"@, text_or_null(status_label(d.broker_order_status))),
                    ("broker_action"@, JsonView::Text(d.broker_action)),
                    ("broker_error"@, text_or_null(d.broker_error)),
                    ("broker_position_qty"@, value_or_null(d.broker_position_qty)),
                    ("reason"@, JsonView::Text(reason)),
                ],
            ),
        ),
        created_at: Some(now),
    }
}

/// The event that an insight was settled when the run started.
pub fn cleaned_up_event(d: &StartupCleanupDecision, now: UtcTime) -> (r: StrategyEventRecord)
    ensures
        r@ == cleanup_event(d@, now),
{
    let mut reason = "AQS live startup cleaned stale remote insight ".to_owned();
    reason.append(d.remote.insight_id.as_str());
    reason.append("; AQE did not have this insight in local state");
    let status = match d.broker_order_status {
        Some(status) => Some(status.label().to_owned()),
        None => None,
    };
    let mut members: Vec<(String, Json)> = Vec::new();
    proof {
        assert(members_view(members@) =~= Seq::<(Seq<char>, JsonView)>::empty());
    }
    add_text(&mut members, "insight_id", d.remote.insight_id.as_str());
    add_text(&mut members, "symbol", d.remote.symbol.as_str());
    add_text(&mut members, "side", d.remote.side.as_str());
    add_member(&mut members, "order_id", optional_text(&d.remote.order_id));
    add_text(&mut members, "previous_state", d.remote.previous_state.as_str());
    add_text(&mut members, "state", d.target_state.label());
    add_member(&mut members, "live_session_id", optional_value(&d.remote.live_session_id));
    add_member(&mut members, "broker_order_status", optional_text(&status));
    add_text(&mut members, "broker_action", d.broker_action.as_str());
    add_member(&mut members, "broker_error", optional_text(&d.broker_error));
    add_member(&mut members, "broker_position_qty", optional_value(&d.broker_position_qty));
    add_text(&mut members, "reason", reason.as_str());
    proof {
        assert(members_view(members@) =~= cleanup_event(d@, now).payload->Some_0->Object_0);
    }
    StrategyEventRecord::new(
        "insight_startup_cleanup",
        "warn",
        "Stale remote insight cleaned up",
        reason.as_str(),
        Some(object_of(members)),
        now,
    )
}

/// Why an insight was cancelled while the run went on.
pub open spec fn reconcile_reason(insight_id: Seq<char>) -> Seq<char> {
    "AQS reconciliation marked stale active insight as Cancelled; AQE no longer has active insight "@
        + insight_id
}

/// The event that an insight was cancelled while the run went on.
pub open spec fn reconcile_event(remote: RemoteView, now: UtcTime) -> EventView {
    let reason = reconcile_reason(remote.insight_id);
    EventView {
        event_type: "insight_reconcile"@,
        level: "warn"@,
        title: "Stale insight cancelled"@,
        message: reason,
        payload: Some(
            JsonView::Object(
                seq![
                    ("insight_id"@, JsonView::Text(remote.insight_id)),
                    ("symbol"@, JsonView::Text(remote.symbol)),
                    ("side"@, JsonView::Text(remote.side)),
                    ("previous_state"@, JsonView::Text(remote.previous_state)),
                    ("state"@, JsonView::Text("Cancelled"@)),
                    ("reason"@, JsonView::Text(reason)),
                ],
            ),
        ),
        created_at: Some(now),
    }
}

/// The event that an insight was cancelled while the run went on.
pub fn reconciled_event(remote: &RemoteStartupInsight, now: UtcTime) -> (r: StrategyEventRecord)
    ensures
        r@ == reconcile_event(remote@, now),
{
    let mut reason =
        "AQS reconciliation marked stale active insight as Cancelled; AQE no longer has active insight ".to_owned();
    reason.append(remote.insight_id.as_str());
    let mut members: Vec<(String, Json)> = Vec::new();
    proof {
        assert(members_view(members@) =~= Seq::<(Seq<char>, JsonView)>::empty());
    }
    add_text(&mut members, "insight_id", remote.insight_id.as_str());
    add_text(&mut members, "symbol", remote.symbol.as_str());
    add_text(&mut members, "side", remote.side.as_str());
    add_text(&mut members, "previous_state", remote.previous_state.as_str());
    add_text(&mut members, "state", "Cancelled");
    add_text(&mut members, "reason", reason.as_str());
    proof {
        assert(members_view(members@) =~= reconcile_event(remote@, now).payload->Some_0->Object_0);
    }
    StrategyEventRecord::new(
        "insight_reconcile",
        "warn",
        "Stale insight cancelled",
        reason.as_str(),
        Some(object_of(members)),
        now,
    )
}

/// How far the cloud has been told what became of a list of insights.
#[derive(Debug)]
pub enum RemotePhase {
    /// The insight at `at` is to be changed.
    Change { at: usize },
    /// The event about the insight at `at` is to be written.
    Record { at: usize },
    /// All is done.
    Done,
    /// The connection is lost.
    Lost { error: String },
}

/// How far the cloud has been told, and how many insights were changed.
#[derive(Debug)]
pub struct RemoteRun {
    pub total: usize,
    pub phase: RemotePhase,
    pub changed: usize,
}

/// The model of how far the cloud has been told.
pub enum PhaseView {
    Change { at: int },
    Record { at: int },
    Done,
    Lost { error: Seq<char> },
}

/// The model of a run over insights.
pub struct RunView {
    pub total: int,
    pub phase: PhaseView,
    pub changed: int,
}

impl View for RemoteRun {
    type V = RunView;

    open spec fn view(&self) -> RunView {
        RunView {
            total: self.total as int,
            phase: match self.phase {
                RemotePhase::Change { at } => PhaseView::Change { at: at as int },
                RemotePhase::Record { at } => PhaseView::Record { at: at as int },
                RemotePhase::Done => PhaseView::Done,
                RemotePhase::Lost { error } => PhaseView::Lost { error: error@ },
            },
            changed: self.changed as int,
        }
    }
}

/// The phase at the insight `at`, or the end.
pub open spec fn from_place(total: int, at: int) -> PhaseView {
    if at < total {
        PhaseView::Change { at }
    } else {
        PhaseView::Done
    }
}

impl RunView {
    /// The place is one of the list, and no more were changed than were come to.
    pub open spec fn wf(self) -> bool {
        match self.phase {
            PhaseView::Change { at } => 0 <= self.changed <= at < self.total,
            PhaseView::Record { at } => 0 < self.changed <= at + 1 <= self.total,
            _ => 0 <= self.changed <= self.total,
        }
    }

    /// The run after an error, or none, came of what was to be done.
    pub open spec fn next(self, error: Option<Seq<char>>) -> RunView {
        match self.phase {
            PhaseView::Change { at } => match error {
                None => RunView {
                    phase: PhaseView::Record { at },
                    changed: self.changed + 1,
                    ..self
                },
                Some(error) => if transient(error) {
                    RunView { phase: PhaseView::Lost { error }, ..self }
                } else {
                    RunView { phase: from_place(self.total, at + 1), ..self }
                },
            },
            PhaseView::Record { at } => match error {
                Some(error) if transient(error) => RunView {
                    phase: PhaseView::Lost { error },
                    ..self
                },
                _ => RunView { phase: from_place(self.total, at + 1), ..self },
            },
            _ => self,
        }
    }
}

/// The error of a result.
pub open spec fn error_of(result: Result<(), String>) -> Option<Seq<char>> {
    match result {
        Ok(_) => None,
        Err(error) => Some(error@),
    }
}

impl RemoteRun {
    /// At the start of `total` insights.
    pub fn start(total: usize) -> (r: RemoteRun)
        ensures
            r@ == (RunView { total: total as int, phase: from_place(total as int, 0), changed: 0 }),
            r@.wf(),
    {
        let phase = if total > 0 {
            RemotePhase::Change { at: 0 }
        } else {
            RemotePhase::Done
        };
        RemoteRun { total, phase, changed: 0 }
    }

    /// The run after `reply` came of what was to be done, and whether the event that was to be
    /// written is to wait with what is written later.
    pub fn next(self, reply: Result<(), String>) -> (r: (RemoteRun, bool))
        requires
            self@.wf(),
        ensures
            r.0@ == self@.next(error_of(reply)),
            r.0@.wf(),
            r.1 == (self@.phase is Record && r.0@.phase is Lost),
    {
        let total = self.total;
        let changed = self.changed;
        match self.phase {
            RemotePhase::Change { at } => match reply {
                Ok(_) => (
                    RemoteRun {
                        total,
                        phase: RemotePhase::Record { at },
                        changed: changed + 1,
                    },
                    false,
                ),
                Err(error) => {
                    let phase = if is_transient_surreal_error(error.as_str()) {
                        RemotePhase::Lost { error }
                    } else {
                        phase_at(total, at + 1)
                    };
                    (RemoteRun { total, phase, changed }, false)
                },
            },
            RemotePhase::Record { at } => {
                match reply {
                    Ok(_) => {},
                    Err(error) => {
                        if is_transient_surreal_error(error.as_str()) {
                            return (
                                RemoteRun { total, phase: RemotePhase::Lost { error }, changed },
                                true,
                            );
                        }
                    },
                }
                (RemoteRun { total, phase: phase_at(total, at + 1), changed }, false)
            },
            RemotePhase::Done => (RemoteRun { total, phase: RemotePhase::Done, changed }, false),
            RemotePhase::Lost { error } => (
                RemoteRun { total, phase: RemotePhase::Lost { error }, changed },
                false,
            ),
        }
    }
}

fn phase_at(total: usize, at: usize) -> (r: RemotePhase)
    requires
        at <= total,
    ensures
        match r {
            RemotePhase::Change { at: place } => at < total && place == at,
            RemotePhase::Done => at >= total,
            _ => false,
        },
{
    if at < total {
        RemotePhase::Change { at }
    } else {
        RemotePhase::Done
    }
}

/// The run after replies came one after the other.
pub open spec fn run_after(run: RunView, replies: Seq<Option<Seq<char>>>) -> RunView
    decreases replies.len(),
{
    if replies.len() == 0 {
        run
    } else {
        run_after(run.next(replies[0]), replies.drop_first())
    }
}

proof fn run_from(run: RunView, at: int, replies: Seq<Option<Seq<char>>>)
    requires
        run.wf(),
        0 <= at <= run.total,
        run.phase == from_place(run.total, at),
        replies.len() == 2 * (run.total - at),
        forall|i: int| 0 <= i < replies.len() ==> replies[i] is None,
    ensures
        run_after(run, replies).phase is Done,
        run_after(run, replies).changed == run.changed + (run.total - at),
    decreases run.total - at,
{
    if at < run.total {
        let recorded = run.next(replies[0]);
        let next = recorded.next(replies.drop_first()[0]);
        assert(run_after(run, replies) == run_after(recorded, replies.drop_first()));
        assert(run_after(recorded, replies.drop_first()) == run_after(
            next,
            replies.drop_first().drop_first(),
        ));
        run_from(next, at + 1, replies.drop_first().drop_first());
    }
}

/// Where the cloud refuses nothing, every insight is changed, and an event is written about each.
pub proof fn a_willing_cloud_is_told_all(total: nat, replies: Seq<Option<Seq<char>>>)
    requires
        replies.len() == 2 * total,
        forall|i: int| 0 <= i < replies.len() ==> replies[i] is None,
    ensures
        run_after(
            RunView { total: total as int, phase: from_place(total as int, 0), changed: 0 },
            replies,
        ).phase is Done,
        run_after(
            RunView { total: total as int, phase: from_place(total as int, 0), changed: 0 },
            replies,
        ).changed == total,
{
    run_from(
        RunView { total: total as int, phase: from_place(total as int, 0), changed: 0 },
        0,
        replies,
    );
}

proof fn last_order_counts(orders: Seq<BrokerOrder>, id: Seq<char>, k: int)
    requires
        0 <= k < orders.len(),
        orders[k].order_id@ == id,
        forall|j: int| k < j < orders.len() ==> (#[trigger] orders[j]).order_id@ != id,
    ensures
        status_of(orders, id) == Some(orders[k].status),
    decreases orders.len(),
{
    if k < orders.len() - 1 {
        assert(orders[orders.len() - 1].order_id@ != id);
        last_order_counts(orders.drop_last(), id, k);
    }
}

proof fn unknown_orders_have_no_status(orders: Seq<BrokerOrder>, id: Seq<char>)
    requires
        forall|j: int| 0 <= j < orders.len() ==> (#[trigger] orders[j]).order_id@ != id,
    ensures
        status_of(orders, id) is None,
    decreases orders.len(),
{
    if orders.len() > 0 {
        assert(orders[orders.len() - 1].order_id@ != id);
        assert forall|j: int| 0 <= j < orders.drop_last().len() implies (
        #[trigger] orders.drop_last()[j]).order_id@ != id by {
            assert(orders.drop_last()[j] == orders[j]);
        }
        unknown_orders_have_no_status(orders.drop_last(), id);
    }
}

/// What becomes of an insight that only the cloud knows, by what the broker last said of its order: a
/// filled one whose position is held is closed by the broker, and where nothing is held it is closed; a
/// closed one is closed; one that was cancelled, rejected or has expired is cancelled; any other order
/// is cancelled by the broker.
pub proof fn stale_insights_are_settled_by_their_order(
    remote: RemoteView,
    orders: Seq<BrokerOrder>,
    orders_error: Option<Seq<char>>,
    positions: Seq<BrokerPosition>,
    k: int,
)
    requires
        0 <= k < orders.len(),
        remote.order_id == Some(orders[k].order_id@),
        forall|j: int|
            k < j < orders.len() ==> (#[trigger] orders[j]).order_id@ != orders[k].order_id@,
    ensures
        ({
            let status = orders[k].status;
            let position = held(positions, remote.symbol);
            let holds = position matches Some(p) && p.0.magnitude() > 0x3cb0_0000_0000_0000;
            let r = cleanup(remote, orders, orders_error, positions);
            let filled = status is Filled || status is PartialFilled;
            let over = status is Cancelled || status is Rejected || status is Expired;
            &&& filled && holds ==> r is Act && r->Act_0.action is ClosePosition
            &&& filled && !holds ==> r is Decide && r->Decide_0.target_state is Closed
            &&& status is Closed ==> r is Decide && r->Decide_0.target_state is Closed
            &&& over ==> r is Decide && r->Decide_0.target_state is Cancelled
            &&& !filled && !over && !(status is Closed) ==> r is Act && r->Act_0.action
                is CancelOrder
            &&& r matches CleanupView::Act(a) ==> a.remote == remote && remote.order_id == Some(
                a.order_id,
            ) && a.broker_order_status == status
            &&& r matches CleanupView::Decide(d) ==> d.remote == remote && d.broker_order_status
                == Some(status) && d.broker_error is None
        }),
{
    last_order_counts(orders, orders[k].order_id@, k);
}

/// Without an order, or with one that the broker does not know, an insight that only the cloud knows is
/// cancelled, and why is told.
pub proof fn stale_insights_without_an_order_are_cancelled(
    remote: RemoteView,
    orders: Seq<BrokerOrder>,
    orders_error: Option<Seq<char>>,
    positions: Seq<BrokerPosition>,
)
    requires
        remote.order_id matches Some(id) ==> forall|j: int|
            0 <= j < orders.len() ==> (#[trigger] orders[j]).order_id@ != id,
    ensures
        cleanup(remote, orders, orders_error, positions) matches CleanupView::Decide(d) && {
            &&& d.target_state is Cancelled
            &&& d.remote == remote
            &&& d.broker_order_status is None
            &&& d.broker_error is Some
            &&& orders_error is Some ==> d.broker_error == orders_error
        },
{
    if let Some(id) = remote.order_id {
        unknown_orders_have_no_status(orders, id);
    }
}

/// What the broker did settles an insight: one whose position it closed is closed, and one whose order
/// it cancelled is cancelled. What it refused or failed to do settles nothing.
pub proof fn done_actions_settle(
    action: StartupBrokerAction,
    reply: BrokerReply,
    r: Option<StartupCleanupDecision>,
)
    requires
        call_ensures(settle_action, (action, reply), r),
    ensures
        r is Some <==> reply is Done,
        r matches Some(decision) ==> {
            &&& decision@.remote == action@.remote
            &&& action.action is ClosePosition ==> decision.target_state is Closed
            &&& action.action is CancelOrder ==> decision.target_state is Cancelled
            &&& decision@.broker_order_status == Some(action.broker_order_status)
            &&& decision@.broker_error is None
        },
{
}

/// Every insight that the cloud tells of and that is not among the local ones is stale, as the row
/// tells it.
pub proof fn unknown_insights_are_stale(
    rows: Seq<JsonView>,
    local: Seq<u128>,
    i: int,
    id: Seq<char>,
)
    requires
        0 <= i < rows.len(),
        rows[i].get("insight_id"@) == Some(JsonView::Text(id)),
        forall|k: int| 0 <= k < local.len() ==> uuid_chars(#[trigger] local[k]) != id,
    ensures
        exists|k: int|
            {
                &&& 0 <= k < stale(rows, local).len()
                &&& (#[trigger] stale(rows, local)[k]).insight_id == id
                &&& rows[i].get("symbol"@) matches Some(JsonView::Text(s)) ==> stale(
                    rows,
                    local,
                )[k].symbol == s
                &&& rows[i].get("state"@) matches Some(JsonView::Text(s)) ==> stale(
                    rows,
                    local,
                )[k].previous_state == s
                &&& rows[i].get("side"@) matches Some(JsonView::Text(s)) ==> stale(
                    rows,
                    local,
                )[k].side == s
                &&& rows[i].get("order_id"@) is None ==> stale(rows, local)[k].order_id is None
                &&& rows[i].get("order_id"@) matches Some(JsonView::Text(s)) ==> stale(
                    rows,
                    local,
                )[k].order_id == (if trimmed(s).len() > 0 {
                    Some(trimmed(s))
                } else {
                    None
                })
            },
    decreases rows.len(),
{
    let all = stale(rows, local);
    let remote = remote_of(rows[i])->Some_0;
    stale_holds(rows, local, i);
    let k = choose|k: int| 0 <= k < all.len() && #[trigger] all[k] == remote;
    assert(all[k].insight_id == id);
}

proof fn stale_holds(rows: Seq<JsonView>, local: Seq<u128>, i: int)
    requires
        0 <= i < rows.len(),
        remote_of(rows[i]) is Some,
        !known(local, remote_of(rows[i])->Some_0.insight_id),
    ensures
        exists|k: int|
            0 <= k < stale(rows, local).len() && #[trigger] stale(rows, local)[k] == remote_of(
                rows[i],
            )->Some_0,
    decreases rows.len(),
{
    let all = stale(rows, local);
    if i == rows.len() - 1 {
        assert(all[all.len() - 1] == remote_of(rows[i])->Some_0);
    } else {
        stale_holds(rows.drop_last(), local, i);
        let rest = stale(rows.drop_last(), local);
        let k = choose|k: int| 0 <= k < rest.len() && #[trigger] rest[k] == remote_of(
            rows[i],
        )->Some_0;
        assert(all[k] == rest[k]);
    }
}

/// An insight is changed in the cloud and then written down, one after the other, and each change is
/// counted; one that could not be changed is passed over and not counted, and trouble with the
/// connection ends it all.
pub proof fn remotes_are_changed_one_by_one(run: RunView, error: Seq<char>)
    ensures
        run.phase matches PhaseView::Change { at } ==> {
            let done = run.next(None);
            let refused = run.next(Some(error));
            &&& done.phase == (PhaseView::Record { at })
            &&& done.changed == run.changed + 1
            &&& transient(error) ==> refused.phase == (PhaseView::Lost { error })
            &&& !transient(error) && at + 1 < run.total ==> refused.phase == (PhaseView::Change {
                at: at + 1,
            })
            &&& !transient(error) && at + 1 >= run.total ==> refused.phase is Done
            &&& refused.changed == run.changed
        },
        run.phase matches PhaseView::Record { at } ==> {
            let done = run.next(None);
            let refused = run.next(Some(error));
            &&& at + 1 < run.total ==> done.phase == (PhaseView::Change { at: at + 1 })
            &&& at + 1 >= run.total ==> done.phase is Done
            &&& transient(error) ==> refused.phase == (PhaseView::Lost { error })
            &&& !transient(error) ==> refused == done
            &&& done.changed == run.changed
        },
        run.phase is Done || run.phase is Lost ==> run.next(None) == run && run.next(Some(error))
            == run,
{
}

/// A row is read by its names; without the id of an insight it tells of none. An order id of nothing
/// but white space is none, and what is missing is a dash.
pub proof fn rows_are_read_by_name(row: Json, r: Option<RemoteStartupInsight>)
    requires
        call_ensures(read_remote, (&row,), r),
    ensures
        r is Some <==> text_at(row@, "insight_id"@) is Some,
        r matches Some(remote) ==> {
            let v = remote@;
            &&& Some(v.insight_id) == text_at(row@, "insight_id"@)
            &&& text_at(row@, "symbol"@) is Some ==> Some(v.symbol) == text_at(row@, "symbol"@)
            &&& text_at(row@, "symbol"@) is None ==> v.symbol == "-"@
            &&& text_at(row@, "state"@) is Some ==> Some(v.previous_state) == text_at(
                row@,
                "state"@,
            )
            &&& text_at(row@, "state"@) is None ==> v.previous_state == "-"@
            &&& text_at(row@, "side"@) is Some ==> Some(v.side) == text_at(row@, "side"@)
            &&& text_at(row@, "side"@) is None ==> v.side == "-"@
            &&& v.order_id is Some <==> text_at(row@, "order_id"@) is Some && trimmed(
                text_at(row@, "order_id"@)->Some_0,
            ).len() > 0
            &&& v.order_id is Some ==> v.order_id == Some(
                trimmed(text_at(row@, "order_id"@)->Some_0),
            )
            &&& v.live_session_id == row@.get("live_session_id"@)
        },
{
}

/// The events of insights that were settled name the insight, what it was and what it became, and
/// why.
pub proof fn settled_insights_are_told(
    d: StartupCleanupDecision,
    remote: RemoteStartupInsight,
    now: UtcTime,
    cleaned: StrategyEventRecord,
    reconciled: StrategyEventRecord,
)
    requires
        call_ensures(cleaned_up_event, (&d, now), cleaned),
        call_ensures(reconciled_event, (&remote, now), reconciled),
    ensures
        ({
            let members = cleaned@.payload->Some_0->Object_0;
            &&& cleaned@.event_type == "insight_startup_cleanup"@
            &&& cleaned@.level == "warn"@
            &&& cleaned@.created_at == Some(now)
            &&& cleaned@.payload is Some && cleaned@.payload->Some_0 is Object
            &&& members.len() == 12
            &&& members[0] == ("insight_id"@, JsonView::Text(d@.remote.insight_id))
            &&& members[1] == ("symbol"@, JsonView::Text(d@.remote.symbol))
            &&& members[2] == ("side"@, JsonView::Text(d@.remote.side))
            &&& members[3].0 == "order_id"@
            &&& members[4] == ("previous_state"@, JsonView::Text(d@.remote.previous_state))
            &&& members[5] == ("state"@, JsonView::Text(d@.target_state.spec_label()))
            &&& members[8] == ("broker_action"@, JsonView::Text(d@.broker_action))
            &&& members[11] == ("reason"@, JsonView::Text(cleaned@.message))
            &&& cleaned@.message == "AQS live startup cleaned stale remote insight "@
                + d@.remote.insight_id + "; AQE did not have this insight in local state"@
        }),
        ({
            let members = reconciled@.payload->Some_0->Object_0;
            &&& reconciled@.event_type == "insight_reconcile"@
            &&& reconciled@.level == "warn"@
            &&& reconciled@.created_at == Some(now)
            &&& reconciled@.payload is Some && reconciled@.payload->Some_0 is Object
            &&& members.len() == 6
            &&& members[0] == ("insight_id"@, JsonView::Text(remote@.insight_id))
            &&& members[1] == ("symbol"@, JsonView::Text(remote@.symbol))
            &&& members[2] == ("side"@, JsonView::Text(remote@.side))
            &&& members[3] == ("previous_state"@, JsonView::Text(remote@.previous_state))
            &&& members[4] == ("state"@, JsonView::Text("Cancelled"@))
            &&& members[5] == ("reason"@, JsonView::Text(reconciled@.message))
        }),
{
}

} // verus!
