//! What a live run writes about itself: the broker's reports, and, where it is not written to the
//! cloud, its own database.
use std::collections::VecDeque;

use vstd::prelude::*;
use vstd::string::StringExecFns;

use crate::cloud::{queued, PendingAqsSyncOp, PendingOps};
use crate::ids::{random_uuid, uuid_chars, uuid_text};
use crate::insight::TradeUpdateEvent;
use crate::json::{add_text, members_view, object_of, Json, JsonView};
use crate::metrics::{same_snapshot, LiveMetricsSnapshot};
use crate::records::{EventView, StrategyEventRecord};
use crate::telemetry::pushed;
use crate::text::option_view;
use crate::time::{format_time, time_text, UtcTime};
use crate::trade::Order;

verus! {

/// The events that wait at most to be written to the local database.
pub const MAX_PENDING_LOCAL_LIVE_EVENTS: usize = 512;

/// What an event of a local run is about.
#[derive(Debug)]
pub struct LocalLiveEventDetails {
    pub run_id: Option<String>,
    pub strategy_id: Option<String>,
    pub strategy_name: Option<String>,
    pub node_id: Option<String>,
    pub order_id: Option<String>,
    pub symbol: Option<String>,
    pub broker_event: Option<String>,
}

/// The model of what an event is about.
#[verifier::ext_equal]
pub struct DetailsView {
    pub run_id: Option<Seq<char>>,
    pub strategy_id: Option<Seq<char>>,
    pub strategy_name: Option<Seq<char>>,
    pub node_id: Option<Seq<char>>,
    pub order_id: Option<Seq<char>>,
    pub symbol: Option<Seq<char>>,
    pub broker_event: Option<Seq<char>>,
}

/// An event that waits to be written to the local database.
#[derive(Debug)]
pub struct PendingLocalLiveEvent {
    pub event_type: String,
    pub level: String,
    pub title: String,
    pub message: String,
    pub details: LocalLiveEventDetails,
}

/// The model of an event of a local run.
#[verifier::ext_equal]
pub struct LocalEventView {
    pub event_type: Seq<char>,
    pub level: Seq<char>,
    pub title: Seq<char>,
    pub message: Seq<char>,
    pub details: DetailsView,
}

impl View for LocalLiveEventDetails {
    type V = DetailsView;

    open spec fn view(&self) -> DetailsView {
        DetailsView {
            run_id: option_view(self.run_id),
            strategy_id: option_view(self.strategy_id),
            strategy_name: option_view(self.strategy_name),
            node_id: option_view(self.node_id),
            order_id: option_view(self.order_id),
            symbol: option_view(self.symbol),
            broker_event: option_view(self.broker_event),
        }
    }
}

impl View for PendingLocalLiveEvent {
    type V = LocalEventView;

    open spec fn view(&self) -> LocalEventView {
        LocalEventView {
            event_type: self.event_type@,
            level: self.level@,
            title: self.title@,
            message: self.message@,
            details: self.details@,
        }
    }
}

impl DetailsView {
    /// About nothing in particular.
    pub open spec fn none() -> DetailsView {
        DetailsView {
            run_id: None,
            strategy_id: None,
            strategy_name: None,
            node_id: None,
            order_id: None,
            symbol: None,
            broker_event: None,
        }
    }
}

impl Default for LocalLiveEventDetails {
    fn default() -> (r: LocalLiveEventDetails)
        ensures
            r@ == DetailsView::none(),
    {
        LocalLiveEventDetails {
            run_id: None,
            strategy_id: None,
            strategy_name: None,
            node_id: None,
            order_id: None,
            symbol: None,
            broker_event: None,
        }
    }
}

/// The models of the events that wait.
pub open spec fn local_views(events: Seq<PendingLocalLiveEvent>) -> Seq<LocalEventView> {
    events.map_values(|e: PendingLocalLiveEvent| e@)
}

/// Puts an event behind those that wait. Where too many wait, the oldest is dropped.
pub fn enqueue_pending_local_live_event(
    pending: &mut VecDeque<PendingLocalLiveEvent>,
    event: PendingLocalLiveEvent,
)
    ensures
        final(pending)@ == pushed(old(pending)@, MAX_PENDING_LOCAL_LIVE_EVENTS as int, event),
        local_views(final(pending)@) == pushed(
            local_views(old(pending)@),
            MAX_PENDING_LOCAL_LIVE_EVENTS as int,
            event@,
        ),
{
    let ghost before = pending@;
    if pending.len() >= MAX_PENDING_LOCAL_LIVE_EVENTS {
        let _ = pending.pop_front();
    }
    pending.push_back(event);
    proof {
        if before.len() >= MAX_PENDING_LOCAL_LIVE_EVENTS {
            assert(before.subrange(1, before.len() as int) =~= before.drop_first());
        }
        assert(pending@ =~= pushed(before, MAX_PENDING_LOCAL_LIVE_EVENTS as int, event));
        assert(local_views(pending@) =~= pushed(
            local_views(before),
            MAX_PENDING_LOCAL_LIVE_EVENTS as int,
            event@,
        ));
    }
}

/// The id of a local run: when it started, and an identifier of its own.
pub fn local_run_id(started_at: UtcTime, id: u128) -> (r: String)
    requires
        started_at.wf(),
    ensures
        r@ == time_text(started_at.secs, started_at.nanos, "%Y%m%d-%H%M%S"@) + "-"@ + uuid_chars(
            id,
        ),
{
    let mut run_id = format_time(started_at, "%Y%m%d-%H%M%S");
    run_id.append("-");
    run_id.append(uuid_text(id).as_str());
    run_id
}

/// The id of a new local run, with a random identifier.
pub fn new_local_run_id(started_at: UtcTime) -> (r: String)
    requires
        started_at.wf(),
    ensures
        exists|id: u128|
            r@ == time_text(started_at.secs, started_at.nanos, "%Y%m%d-%H%M%S"@) + "-"@
                + #[trigger] uuid_chars(id),
{
    local_run_id(started_at, random_uuid())
}

/// The event that a local run started.
pub fn local_run_started(run_id: &str, strategy_id: &str, strategy_name: &str) -> (r:
    PendingLocalLiveEvent)
    ensures
        r@ == (LocalEventView {
            event_type: "lifecycle"@,
            level: "info"@,
            title: "Local live run started"@,
            message:
                "AQS Cloud auth was not provided; AQE is writing local live run artifacts"@,
            details: DetailsView {
                run_id: Some(run_id@),
                strategy_id: Some(strategy_id@),
                strategy_name: Some(strategy_name@),
                ..DetailsView::none()
            },
        }),
{
    PendingLocalLiveEvent {
        event_type: "lifecycle".to_owned(),
        level: "info".to_owned(),
        title: "Local live run started".to_owned(),
        message: "AQS Cloud auth was not provided; AQE is writing local live run artifacts".to_owned(),
        details: LocalLiveEventDetails {
            run_id: Some(run_id.to_owned()),
            strategy_id: Some(strategy_id.to_owned()),
            strategy_name: Some(strategy_name.to_owned()),
            node_id: None,
            order_id: None,
            symbol: None,
            broker_event: None,
        },
    }
}

/// What is to be written of how a local run does: nothing where it has not begun, or where nothing
/// changed since it was written last, unless it is to be written all the same.
pub fn metrics_to_write(
    last: &Option<LiveMetricsSnapshot>,
    snapshot: Option<LiveMetricsSnapshot>,
    force: bool,
) -> (r: Option<LiveMetricsSnapshot>)
    ensures
        r == (match snapshot {
            Some(now) => if !force && (*last matches Some(written) && same_snapshot(
                written,
                now,
            )) {
                None
            } else {
                Some(now)
            },
            None => None,
        }),
{
    match snapshot {
        Some(now) => {
            let unchanged = match last {
                Some(written) => written.equals(&now),
                None => false,
            };
            if !force && unchanged {
                None
            } else {
                Some(now)
            }
        },
        None => None,
    }
}

/// What is said of a report of the broker.
pub open spec fn trade_message(event: TradeUpdateEvent, order_id: Seq<char>) -> Seq<char> {
    "Received "@ + event.spec_label() + " for order "@ + order_id
}

/// What is shown of a report of the broker.
pub fn trade_notice(event: TradeUpdateEvent, order_id: &str) -> (r: String)
    ensures
        r@ == "Trade event "@ + event.spec_label() + " for order "@ + order_id@,
{
    let mut s = "Trade event ".to_owned();
    s.append(event.label());
    s.append(" for order ");
    s.append(order_id);
    s
}

/// The event about a report of the broker, for the cloud.
pub open spec fn trade_event(
    order_id: Seq<char>,
    symbol: Seq<char>,
    event: TradeUpdateEvent,
    now: UtcTime,
) -> EventView {
    EventView {
        event_type: "trade_event"@,
        level: "info"@,
        title: "Broker trade event"@,
        message: trade_message(event, order_id),
        payload: Some(
            JsonView::Object(
                seq![
                    ("order_id"@, JsonView::Text(order_id)),
                    ("symbol"@, JsonView::Text(symbol)),
                    ("event"@, JsonView::Text(event.spec_label())),
                ],
            ),
        ),
        created_at: Some(now),
    }
}

/// The event about a report of the broker, for the local database.
pub open spec fn local_trade_event(
    order_id: Seq<char>,
    symbol: Seq<char>,
    event: TradeUpdateEvent,
) -> LocalEventView {
    LocalEventView {
        event_type: "trade_event"@,
        level: "info"@,
        title: "Broker trade event"@,
        message: trade_message(event, order_id),
        details: DetailsView {
            order_id: Some(order_id),
            symbol: Some(symbol),
            broker_event: Some(event.spec_label()),
            ..DetailsView::none()
        },
    }
}

fn trade_message_of(event: TradeUpdateEvent, order_id: &str) -> (r: String)
    ensures
        r@ == trade_message(event, order_id@),
{
    let mut s = "Received ".to_owned();
    s.append(event.label());
    s.append(" for order ");
    s.append(order_id);
    s
}

/// The event about a report of the broker, for the cloud.
pub fn trade_event_record(order_id: &str, symbol: &str, event: TradeUpdateEvent, now: UtcTime) -> (r:
    StrategyEventRecord)
    ensures
        r@ == trade_event(order_id@, symbol@, event, now),
{
    let message = trade_message_of(event, order_id);
    let mut members: Vec<(String, Json)> = Vec::new();
    proof {
        assert(members_view(members@) =~= Seq::<(Seq<char>, JsonView)>::empty());
    }
    add_text(&mut members, "order_id", order_id);
    add_text(&mut members, "symbol", symbol);
    add_text(&mut members, "event", event.label());
    proof {
        assert(members_view(members@) =~= trade_event(
            order_id@,
            symbol@,
            event,
            now,
        ).payload->Some_0->Object_0);
    }
    StrategyEventRecord::new(
        "trade_event",
        "info",
        "Broker trade event",
        message.as_str(),
        Some(object_of(members)),
        now,
    )
}

/// The event about a report of the broker, for the local database.
pub fn local_trade_record(order_id: &str, symbol: &str, event: TradeUpdateEvent) -> (r:
    PendingLocalLiveEvent)
    ensures
        r@ == local_trade_event(order_id@, symbol@, event),
{
    let mut details = LocalLiveEventDetails::default();
    details.order_id = Some(order_id.to_owned());
    details.symbol = Some(symbol.to_owned());
    details.broker_event = Some(event.label().to_owned());
    PendingLocalLiveEvent {
        event_type: "trade_event".to_owned(),
        level: "info".to_owned(),
        title: "Broker trade event".to_owned(),
        message: trade_message_of(event, order_id),
        details,
    }
}

/// Notes a report of the broker: for the local database where there is one, and for the cloud where
/// the run is written to it.
pub fn note_trade_event(
    order: &Order,
    event: TradeUpdateEvent,
    has_local: bool,
    cloud: bool,
    local: &mut VecDeque<PendingLocalLiveEvent>,
    pending: &mut PendingOps,
    now: UtcTime,
)
    ensures
        local_views(final(local)@) == (if has_local {
            pushed(
                local_views(old(local)@),
                MAX_PENDING_LOCAL_LIVE_EVENTS as int,
                local_trade_event(order@.order_id, order@.symbol, event),
            )
        } else {
            local_views(old(local)@)
        }),
        if cloud {
            exists|record: StrategyEventRecord|
                record@ == trade_event(order@.order_id, order@.symbol, event, now)
                    && #[trigger] queued(
                    *old(pending),
                    *final(pending),
                    PendingAqsSyncOp::StrategyEvent(record),
                )
        } else {
            *final(pending) == *old(pending)
        },
{
    if has_local {
        enqueue_pending_local_live_event(
            local,
            local_trade_record(order.order_id.as_str(), order.symbol.as_str(), event),
        );
    }
    if cloud {
        let record = trade_event_record(
            order.order_id.as_str(),
            order.symbol.as_str(),
            event,
            now,
        );
        pending.enqueue_pending_aqs_sync_op(PendingAqsSyncOp::StrategyEvent(record));
    }
}

/// How a run does is written to the local database where it does otherwise than what was written last,
/// or where that is forced; never before it has begun.
pub proof fn changed_metrics_are_written(
    last: &Option<LiveMetricsSnapshot>,
    snapshot: Option<LiveMetricsSnapshot>,
    force: bool,
    r: Option<LiveMetricsSnapshot>,
)
    requires
        call_ensures(metrics_to_write, (last, snapshot, force), r),
    ensures
        snapshot is None ==> r is None,
        r is Some ==> r == snapshot,
        snapshot is Some && (force || *last is None) ==> r == snapshot,
        snapshot is Some && *last is Some && (*last)->Some_0.counts != snapshot->Some_0.counts ==> r
            == snapshot,
        snapshot is Some && *last is Some && !force && same_snapshot(
            (*last)->Some_0,
            snapshot->Some_0,
        ) ==> r is None,
{
}

/// What is told of a broker's report names the report and the order, and holds both, with the symbol.
pub proof fn trade_events_name_their_order(
    order_id: Seq<char>,
    symbol: Seq<char>,
    event: TradeUpdateEvent,
    now: UtcTime,
)
    ensures
        ({
            let cloud = trade_event(order_id, symbol, event, now);
            let local = local_trade_event(order_id, symbol, event);
            &&& cloud.created_at == Some(now)
            &&& cloud.payload matches Some(JsonView::Object(members)) && members.contains(
                ("order_id"@, JsonView::Text(order_id)),
            ) && members.contains(("symbol"@, JsonView::Text(symbol))) && members.contains(
                ("event"@, JsonView::Text(event.spec_label())),
            )
            &&& local.details.order_id == Some(order_id)
            &&& local.details.symbol == Some(symbol)
            &&& local.details.broker_event == Some(event.spec_label())
            &&& cloud.message == local.message
            &&& exists|before: Seq<char>| cloud.message == #[trigger] (before + order_id)
        }),
{
    let members = trade_event(order_id, symbol, event, now).payload->Some_0->Object_0;
    assert(members[0] == ("order_id"@, JsonView::Text(order_id)));
    assert(members[1] == ("symbol"@, JsonView::Text(symbol)));
    assert(members[2] == ("event"@, JsonView::Text(event.spec_label())));
    let before = "Received "@ + event.spec_label() + " for order "@;
    assert(trade_message(event, order_id) == before + order_id);
}

/// A report of the broker is noted where there is somewhere to note it: behind the others in the
/// local database, and in line for the cloud.
pub proof fn reports_are_noted_where_they_can_be()
    ensures
        forall|
            order: Order,
            event: TradeUpdateEvent,
            has_local: bool,
            cloud: bool,
            local: &mut VecDeque<PendingLocalLiveEvent>,
            pending: &mut PendingOps,
            now: UtcTime,
            r: (),
        | #[trigger]
            call_ensures(
                note_trade_event,
                (&order, event, has_local, cloud, local, pending, now),
                r,
            ) ==> {
                &&& !has_local ==> local_views(final(local)@) == local_views(local@)
                &&& has_local ==> local_views(final(local)@).last().details.order_id == Some(
                    order@.order_id,
                ) && local_views(final(local)@).last().details.broker_event == Some(
                    event.spec_label(),
                )
                &&& has_local && local@.len() < 512 ==> final(local)@.len() == local@.len() + 1
                &&& !cloud ==> *final(pending) == *pending
                &&& cloud ==> final(pending).ops@.last() is StrategyEvent
                &&& cloud && pending.ops@.len() < 512 ==> final(pending).ops@.len()
                    == pending.ops@.len() + 1
            },
{
    assert forall|
        order: Order,
        event: TradeUpdateEvent,
        has_local: bool,
        cloud: bool,
        local: &mut VecDeque<PendingLocalLiveEvent>,
        pending: &mut PendingOps,
        now: UtcTime,
        r: (),
    | #[trigger]
        call_ensures(
            note_trade_event,
            (&order, event, has_local, cloud, local, pending, now),
            r,
        ) implies {
        &&& has_local && local@.len() < 512 ==> final(local)@.len() == local@.len() + 1
    } by {
        assert(local_views(local@).len() == local@.len());
        assert(local_views(final(local)@).len() == final(local)@.len());
    }
}

} // verus!
