//! Clearing up the insights that are open when a strategy ends.
use vstd::prelude::*;
use vstd::string::StringExecFns;

use crate::collection::{at_id, ids_of, InsightCollection};
use crate::ids::{uuid_chars, uuid_text};
use crate::insight::{Insight, InsightState, InsightView};
use crate::pipeline::all_marked;
use crate::text::{decimal, decimal_text};
use crate::time::UtcTime;

verus! {

/// What the clearing up came to.
#[derive(Clone, Debug)]
pub struct TeardownCleanupReport {
    pub rejected_new: usize,
    pub cancelled_executed: usize,
    pub closed_filled: usize,
    pub failures: Vec<String>,
}

/// The model of a report.
#[verifier::ext_equal]
pub struct ReportView {
    pub rejected_new: int,
    pub cancelled_executed: int,
    pub closed_filled: int,
    pub failures: Seq<Seq<char>>,
}

impl View for TeardownCleanupReport {
    type V = ReportView;

    open spec fn view(&self) -> ReportView {
        ReportView {
            rejected_new: self.rejected_new as int,
            cancelled_executed: self.cancelled_executed as int,
            closed_filled: self.closed_filled as int,
            failures: self.failures@.map_values(|s: String| s@),
        }
    }
}

impl ReportView {
    /// The insights that were dealt with.
    pub open spec fn total(self) -> int {
        self.rejected_new + self.cancelled_executed + self.closed_filled
    }

    /// The report with one more failure.
    pub open spec fn failed(self, message: Seq<char>) -> ReportView {
        ReportView { failures: self.failures.push(message), ..self }
    }
}

impl Default for TeardownCleanupReport {
    fn default() -> (r: TeardownCleanupReport)
        ensures
            r@ == (ReportView {
                rejected_new: 0,
                cancelled_executed: 0,
                closed_filled: 0,
                failures: Seq::empty(),
            }),
    {
        let r = TeardownCleanupReport {
            rejected_new: 0,
            cancelled_executed: 0,
            closed_filled: 0,
            failures: Vec::new(),
        };
        proof {
            assert(r@.failures =~= Seq::<Seq<char>>::empty());
        }
        r
    }
}

impl TeardownCleanupReport {
    /// The insights that were dealt with.
    pub fn total_actions(&self) -> (r: usize)
        requires
            self@.total() <= usize::MAX,
        ensures
            r == self@.total(),
    {
        self.rejected_new + self.cancelled_executed + self.closed_filled
    }

    /// Whether anything went wrong.
    pub fn has_failures(&self) -> (r: bool)
        ensures
            r == (self@.failures.len() > 0),
    {
        self.failures.len() > 0
    }

    /// The report in one line.
    pub fn summary(&self) -> (r: String)
        ensures
            r@ == "rejected_new="@ + decimal(self.rejected_new as nat) + ", cancelled_executed="@
                + decimal(self.cancelled_executed as nat) + ", closed_filled="@ + decimal(
                self.closed_filled as nat,
            ),
    {
        let mut s = "rejected_new=".to_owned();
        s.append(decimal_text(self.rejected_new as u64).as_str());
        s.append(", cancelled_executed=");
        s.append(decimal_text(self.cancelled_executed as u64).as_str());
        s.append(", closed_filled=");
        s.append(decimal_text(self.closed_filled as u64).as_str());
        s
    }

    fn add_failure(&mut self, message: String)
        ensures
            final(self)@ == old(self)@.failed(message@),
    {
        let ghost before = self@.failures;
        let ghost added = message@;
        self.failures.push(message);
        proof {
            assert(self@.failures =~= before.push(added));
        }
    }
}

/// What clearing up an insight asks of the broker.
#[derive(Clone, Debug)]
pub enum TeardownRequest {
    /// Nothing: the insight is over, or was dealt with here.
    Nothing,
    /// To cancel the order.
    CancelOrder(String),
    /// To close what is left of the position.
    ClosePosition,
}

/// What clearing up an insight asks of the broker.
pub open spec fn request_for(insight: InsightView) -> Option<Option<Seq<char>>> {
    match insight.state {
        InsightState::Executed => match insight.order_id {
            Some(order_id) => Some(Some(order_id)),
            None => None,
        },
        InsightState::Filled => Some(None),
        _ => None,
    }
}

/// The symbol and the id of an insight, as its failures name it.
pub open spec fn name_of(insight: InsightView) -> Seq<char> {
    insight.symbol + " "@ + uuid_chars(insight.insight_id)
}

fn name_text(insight: &Insight) -> (r: String)
    ensures
        r@ == name_of(insight@),
{
    let mut s = insight.symbol.clone();
    s.append(" ");
    s.append(uuid_text(insight.insight_id).as_str());
    s
}

/// The insight after the first step of clearing it up: a new one is rejected.
pub open spec fn cleared(insight: InsightView, now: UtcTime) -> InsightView {
    if insight.state is New {
        insight.rejected("Teardown cleanup rejected new insight"@, now)
    } else {
        insight
    }
}

/// The report after the first step of clearing up an insight.
pub open spec fn report_after_step(report: ReportView, insight: InsightView) -> ReportView {
    match insight.state {
        InsightState::New => ReportView { rejected_new: report.rejected_new + 1, ..report },
        InsightState::Executed => if insight.order_id is None {
            report.failed(name_of(insight) + " is executed but has no order id"@)
        } else {
            report
        },
        _ => report,
    }
}

/// Takes the first step of clearing up an insight: rejects a new one, and says what to ask of the
/// broker for one that is open.
pub fn teardown_step(
    insight: &mut Insight,
    report: &mut TeardownCleanupReport,
    now: UtcTime,
) -> (r: TeardownRequest)
    requires
        old(report).rejected_new < usize::MAX,
    ensures
        final(insight)@ == cleared(old(insight)@, now),
        final(report)@ == report_after_step(old(report)@, old(insight)@),
        match (r, request_for(old(insight)@)) {
            (TeardownRequest::Nothing, None) => true,
            (TeardownRequest::CancelOrder(order_id), Some(Some(expected))) => order_id@ == expected,
            (TeardownRequest::ClosePosition, Some(None)) => true,
            _ => false,
        },
{
    match insight.state {
        InsightState::New => {
            insight.order_rejected("Teardown cleanup rejected new insight", now);
            report.rejected_new = report.rejected_new + 1;
            TeardownRequest::Nothing
        },
        InsightState::Executed => match &insight.order_id {
            Some(order_id) => TeardownRequest::CancelOrder(order_id.clone()),
            None => {
                let mut message = name_text(insight);
                message.append(" is executed but has no order id");
                report.add_failure(message);
                TeardownRequest::Nothing
            },
        },
        InsightState::Filled => TeardownRequest::ClosePosition,
        _ => TeardownRequest::Nothing,
    }
}

/// What the broker answered to a request to cancel an order.
pub enum CancelReply {
    Cancelled,
    Refused,
    Failed(String),
}

/// The report after the broker's answer to a request to cancel.
pub open spec fn report_after_cancel(
    report: ReportView,
    insight: InsightView,
    order_id: Seq<char>,
    reply: CancelReply,
) -> ReportView {
    match reply {
        CancelReply::Cancelled => ReportView {
            cancelled_executed: report.cancelled_executed + 1,
            ..report
        },
        CancelReply::Refused => report.failed(
            name_of(insight) + " cancel request returned false for order "@ + order_id,
        ),
        CancelReply::Failed(error) => report.failed(
            name_of(insight) + " failed to cancel order "@ + order_id + ": "@ + error@,
        ),
    }
}

/// Takes the broker's answer to a request to cancel over: only a cancelled order cancels the
/// insight.
pub fn teardown_cancel_reply(
    insight: &mut Insight,
    order_id: &str,
    reply: &CancelReply,
    report: &mut TeardownCleanupReport,
    now: UtcTime,
)
    requires
        old(report).cancelled_executed < usize::MAX,
    ensures
        final(insight)@ == (if *reply is Cancelled {
            old(insight)@.cancelled("Teardown cleanup cancelled executed insight"@, now)
        } else {
            old(insight)@
        }),
        final(report)@ == report_after_cancel(old(report)@, old(insight)@, order_id@, *reply),
{
    match reply {
        CancelReply::Cancelled => {
            insight.order_cancelled("Teardown cleanup cancelled executed insight", now);
            report.cancelled_executed = report.cancelled_executed + 1;
        },
        CancelReply::Refused => {
            let mut message = name_text(insight);
            message.append(" cancel request returned false for order ");
            message.append(order_id);
            report.add_failure(message);
        },
        CancelReply::Failed(error) => {
            let mut message = name_text(insight);
            message.append(" failed to cancel order ");
            message.append(order_id);
            message.append(": ");
            message.append(error.as_str());
            report.add_failure(message);
        },
    }
}

/// The report after an attempt to close what is left of a position; the quantity is told as
/// `remaining`.
pub open spec fn report_after_close(
    report: ReportView,
    insight: InsightView,
    had_order_id: bool,
    remaining: Seq<char>,
) -> ReportView {
    if had_order_id && insight.closing {
        ReportView { closed_filled: report.closed_filled + 1, ..report }
    } else {
        report.failed(
            name_of(insight) + " failed to queue filled close for remaining quantity "@ + remaining,
        )
    }
}

/// Takes the outcome of an attempt to close a position over: it counts where the insight had an
/// order and is now closing.
pub fn teardown_close_reply(
    insight: &Insight,
    had_order_id: bool,
    remaining: &str,
    report: &mut TeardownCleanupReport,
)
    requires
        old(report).closed_filled < usize::MAX,
    ensures
        final(report)@ == report_after_close(old(report)@, insight@, had_order_id, remaining@),
{
    if had_order_id && insight.closing {
        report.closed_filled = report.closed_filled + 1;
    } else {
        let mut message = name_text(insight);
        message.append(" failed to queue filled close for remaining quantity ");
        message.append(remaining);
        report.add_failure(message);
    }
}

/// Every insight that is not over is accounted for once: it counts as dealt with here, its failure
/// is noted, or a request goes to the broker, whose answer is then counted or noted.
pub proof fn every_open_insight_is_accounted_for(
    report: ReportView,
    insight: InsightView,
    order_id: Seq<char>,
    reply: CancelReply,
    had_order_id: bool,
    remaining: Seq<char>,
)
    ensures
        !insight.state.inactive() ==> (request_for(insight) is Some || report_after_step(
            report,
            insight,
        ).total() + report_after_step(report, insight).failures.len() == report.total()
            + report.failures.len() + 1),
        report_after_cancel(report, insight, order_id, reply).total() + report_after_cancel(
            report,
            insight,
            order_id,
            reply,
        ).failures.len() == report.total() + report.failures.len() + 1,
        report_after_close(report, insight, had_order_id, remaining).total() + report_after_close(
            report,
            insight,
            had_order_id,
            remaining,
        ).failures.len() == report.total() + report.failures.len() + 1,
{
}

/// Whether `r` is what clearing up an insight asks of the broker.
pub open spec fn asks(r: TeardownRequest, insight: InsightView) -> bool {
    match (r, request_for(insight)) {
        (TeardownRequest::Nothing, None) => true,
        (TeardownRequest::CancelOrder(order_id), Some(Some(expected))) => order_id@ == expected,
        (TeardownRequest::ClosePosition, Some(None)) => true,
        _ => false,
    }
}

/// What clearing up the insights asks of the broker, insight by insight.
pub fn teardown_requests(insights: &InsightCollection) -> (r: Vec<TeardownRequest>)
    ensures
        r@.len() == insights.insights_view().len(),
        forall|i: int|
            0 <= i < r@.len() ==> asks(#[trigger] r@[i], insights.insights_view()[i]),
{
    let mut out: Vec<TeardownRequest> = Vec::new();
    let mut i: usize = 0;
    while i < insights.len()
        invariant
            i <= insights.insights_view().len(),
            out@.len() == i,
            forall|k: int|
                0 <= k < i ==> asks(#[trigger] out@[k], insights.insights_view()[k]),
        decreases insights.insights_view().len() - i,
    {
        let insight = insights.at(i);
        let request = match insight.state {
            InsightState::Executed => match &insight.order_id {
                Some(order_id) => TeardownRequest::CancelOrder(order_id.clone()),
                None => TeardownRequest::Nothing,
            },
            InsightState::Filled => TeardownRequest::ClosePosition,
            _ => TeardownRequest::Nothing,
        };
        out.push(request);
        i = i + 1;
    }
    out
}

/// What came of what an insight asked of the broker.
pub enum TeardownReply {
    /// Nothing was asked.
    Nothing,
    /// The answer to a request to cancel.
    Cancel(CancelReply),
    /// Whether the broker took a request to close what is left, which is told as `remaining`.
    Close { taken: bool, remaining: String },
}

/// Whether a reply answers what an insight asked. A position without an order cannot be closed.
pub open spec fn answers(insight: InsightView, reply: TeardownReply) -> bool {
    match (request_for(insight), reply) {
        (None, TeardownReply::Nothing) => true,
        (Some(Some(_)), TeardownReply::Cancel(_)) => true,
        (Some(None), TeardownReply::Close { taken, .. }) => taken ==> insight.order_id is Some,
        _ => false,
    }
}

/// What becomes of an insight.
pub open spec fn torn(insight: InsightView, reply: TeardownReply, now: UtcTime) -> InsightView {
    match reply {
        TeardownReply::Nothing => cleared(insight, now),
        TeardownReply::Cancel(reply) => if reply is Cancelled {
            insight.cancelled("Teardown cleanup cancelled executed insight"@, now)
        } else {
            insight
        },
        TeardownReply::Close { taken, .. } => if taken {
            insight.requested(true)
        } else {
            insight
        },
    }
}

/// The report once an insight is dealt with.
pub open spec fn report_with(
    report: ReportView,
    insight: InsightView,
    reply: TeardownReply,
) -> ReportView {
    match reply {
        TeardownReply::Nothing => report_after_step(report, insight),
        TeardownReply::Cancel(cancel) => report_after_cancel(
            report,
            insight,
            insight.order_id->Some_0,
            cancel,
        ),
        TeardownReply::Close { taken, remaining } => report_after_close(
            report,
            if taken {
                insight.requested(true)
            } else {
                insight
            },
            insight.order_id is Some,
            remaining@,
        ),
    }
}

/// An empty report.
pub open spec fn nothing_reported() -> ReportView {
    ReportView { rejected_new: 0, cancelled_executed: 0, closed_filled: 0, failures: Seq::empty() }
}

/// The report once the first `n` insights are dealt with.
pub open spec fn reported(
    insights: Seq<InsightView>,
    replies: Seq<TeardownReply>,
    n: nat,
) -> ReportView
    decreases n,
{
    if n == 0 {
        nothing_reported()
    } else {
        report_with(
            reported(insights, replies, (n - 1) as nat),
            insights[n - 1],
            replies[n - 1],
        )
    }
}

/// The number of the first `n` insights that are open.
pub open spec fn open_among(insights: Seq<InsightView>, n: nat) -> int
    decreases n,
{
    if n == 0 {
        0
    } else {
        open_among(insights, (n - 1) as nat) + (if insights[n - 1].state.inactive() {
            0int
        } else {
            1
        })
    }
}

/// The number of the first `n` insights that are new.
pub open spec fn new_among(insights: Seq<InsightView>, n: nat) -> int
    decreases n,
{
    if n == 0 {
        0
    } else {
        new_among(insights, (n - 1) as nat) + (if insights[n - 1].state is New {
            1int
        } else {
            0
        })
    }
}

/// Over a whole teardown what was done and what failed counts every open insight once, and what was
/// rejected counts the new ones.
pub proof fn teardowns_count_every_open_insight(
    insights: Seq<InsightView>,
    replies: Seq<TeardownReply>,
    n: nat,
)
    requires
        n <= insights.len(),
        n <= replies.len(),
        forall|i: int| 0 <= i < n ==> answers(#[trigger] insights[i], replies[i]),
    ensures
        reported(insights, replies, n).total() + reported(insights, replies, n).failures.len()
            == open_among(insights, n),
        reported(insights, replies, n).rejected_new == new_among(insights, n),
        0 <= new_among(insights, n) <= open_among(insights, n) <= n,
    decreases n,
{
    if n > 0 {
        assert(answers(insights[n - 1], replies[n - 1]));
        teardowns_count_every_open_insight(insights, replies, (n - 1) as nat);
    }
}

/// What becomes of an insight in a teardown: a new one is rejected; an executed one is cancelled
/// exactly where it has an order that the broker cancelled; every one keeps its id.
pub proof fn teardowns_settle_insights(insight: InsightView, reply: TeardownReply, now: UtcTime)
    requires
        answers(insight, reply),
    ensures
        torn(insight, reply, now).insight_id == insight.insight_id,
        insight.state is New ==> torn(insight, reply, now).state is Rejected,
        insight.state is Executed ==> (torn(insight, reply, now).state is Cancelled <==> (
        insight.order_id is Some && reply == TeardownReply::Cancel(CancelReply::Cancelled))),
        insight.state.inactive() ==> torn(insight, reply, now) == insight,
{
}

proof fn counts_fit(insights: Seq<InsightView>, replies: Seq<TeardownReply>, n: nat)
    requires
        n <= insights.len(),
        n <= replies.len(),
    ensures
        0 <= reported(insights, replies, n).rejected_new <= n,
        0 <= reported(insights, replies, n).cancelled_executed <= n,
        0 <= reported(insights, replies, n).closed_filled <= n,
    decreases n,
{
    if n > 0 {
        counts_fit(insights, replies, (n - 1) as nat);
    }
}

fn tear_insight(
    insight: &mut Insight,
    reply: &TeardownReply,
    report: &mut TeardownCleanupReport,
    now: UtcTime,
)
    requires
        answers(old(insight)@, *reply),
        old(report).rejected_new < usize::MAX,
        old(report).cancelled_executed < usize::MAX,
        old(report).closed_filled < usize::MAX,
    ensures
        final(insight)@ == torn(old(insight)@, *reply, now),
        final(report)@ == report_with(old(report)@, old(insight)@, *reply),
{
    match reply {
        TeardownReply::Nothing => {
            let _ = teardown_step(insight, report, now);
        },
        TeardownReply::Cancel(cancel) => {
            let order_id = match &insight.order_id {
                Some(order_id) => order_id.clone(),
                None => String::new(),
            };
            teardown_cancel_reply(insight, order_id.as_str(), cancel, report, now);
        },
        TeardownReply::Close { taken, remaining } => {
            let had_order_id = insight.order_id.is_some();
            if *taken {
                insight.mark_closing();
            }
            teardown_close_reply(insight, had_order_id, remaining.as_str(), report);
        },
    }
}

/// Clears up all insights, where `replies` came of what they asked of the broker. Every insight
/// stays, in its place, and is written out.
pub fn cleanup_active_insights_for_teardown(
    insights: &mut InsightCollection,
    replies: &Vec<TeardownReply>,
    now: UtcTime,
) -> (r: TeardownCleanupReport)
    requires
        old(insights).wf(),
        replies@.len() == old(insights).insights_view().len(),
        forall|i: int|
            0 <= i < replies@.len() ==> answers(
                #[trigger] old(insights).insights_view()[i],
                replies@[i],
            ),
    ensures
        final(insights).wf(),
        ids_of(final(insights).insights_view()) == ids_of(old(insights).insights_view()),
        final(insights).insights_view() == Seq::new(
            old(insights).insights_view().len(),
            |i: int| torn(old(insights).insights_view()[i], replies@[i], now),
        ),
        final(insights).dirty_view() == all_marked(
            old(insights).dirty_view(),
            ids_of(old(insights).insights_view()),
        ),
        r@ == reported(old(insights).insights_view(), replies@, replies@.len()),
{
    let ghost all = insights.insights_view();
    let ghost dirty = insights.dirty_view();
    let mut report = TeardownCleanupReport::default();
    let mut i: usize = 0;
    proof {
        assert(ids_of(all).take(0) =~= Seq::<u128>::empty());
    }
    while i < insights.len()
        invariant
            i <= all.len(),
            all == old(insights).insights_view(),
            replies@.len() == all.len(),
            forall|k: int| 0 <= k < all.len() ==> answers(#[trigger] all[k], replies@[k]),
            insights.wf(),
            insights.insights_view().len() == all.len(),
            forall|k: int|
                0 <= k < i ==> #[trigger] insights.insights_view()[k] == torn(
                    all[k],
                    replies@[k],
                    now,
                ),
            forall|k: int| i <= k < all.len() ==> #[trigger] insights.insights_view()[k] == all[k],
            insights.dirty_view() == all_marked(dirty, ids_of(all).take(i as int)),
            report@ == reported(all, replies@, i as nat),
        decreases all.len() - i,
    {
        let ghost before = insights.insights_view();
        proof {
            counts_fit(all, replies@, i as nat);
            assert(before[i as int] == all[i as int]);
            teardowns_settle_insights(all[i as int], replies@[i as int], now);
        }
        let mut insight = insights.remove_at(i);
        let id = insight.insight_id;
        tear_insight(&mut insight, &replies[i], &mut report, now);
        let ghost end = insight@;
        proof {
            assert forall|k: int| !at_id(insights.insights_view(), id, k) by {
                if at_id(insights.insights_view(), id, k) {
                    let at = if k < i {
                        k
                    } else {
                        k + 1
                    };
                    assert(before[at].insight_id == before[i as int].insight_id);
                }
            }
        }
        insights.insert_at(i, insight);
        insights.refresh_runtime_tracking(id);
        proof {
            assert(insights.insights_view() =~= before.update(i as int, end));
            assert(ids_of(all).take(i + 1).drop_last() =~= ids_of(all).take(i as int));
            assert(ids_of(all).take(i + 1).last() == id);
        }
        i = i + 1;
    }
    proof {
        assert(ids_of(all).take(i as int) =~= ids_of(all));
        let after = insights.insights_view();
        assert forall|k: int| 0 <= k < all.len() implies #[trigger] ids_of(after)[k] == ids_of(
            all,
        )[k] by {
            assert(answers(all[k], replies@[k]));
            teardowns_settle_insights(all[k], replies@[k], now);
            assert(after[k] == torn(all[k], replies@[k], now));
        }
        assert(ids_of(after) =~= ids_of(all));
    }
    report
}

/// What a teardown asks of the broker for an insight: to cancel the order of one that is executed, to
/// close the position of one that is filled, and nothing for any other.
pub proof fn teardowns_ask_by_state(insight: InsightView, r: TeardownRequest)
    requires
        asks(r, insight),
    ensures
        insight.state is Filled <==> r is ClosePosition,
        insight.state is Executed && insight.order_id is Some <==> r is CancelOrder,
        r matches TeardownRequest::CancelOrder(order_id) ==> insight.order_id == Some(order_id@),
{
}

/// A teardown rejects what is new, cancels an executed insight whose order the broker cancelled, marks
/// a position as closing whose close the broker took, and leaves all else as it is: what failed, and
/// what is over. A position stays filled until the broker reports that it is closed.
pub proof fn teardowns_do_what_was_asked(insight: InsightView, reply: TeardownReply, now: UtcTime)
    requires
        answers(insight, reply),
    ensures
        ({
            let to = torn(insight, reply, now);
            let over = insight.state is Closed || insight.state is Cancelled || insight.state
                is Rejected;
            &&& insight.state is New ==> to.state is Rejected
            &&& reply matches TeardownReply::Cancel(answer) ==> if answer is Cancelled {
                to.state is Cancelled && !to.cancelling
            } else {
                to == insight
            }
            &&& reply matches TeardownReply::Close { taken, .. } ==> if taken {
                to.closing && to.state is Filled && to.history == insight.history
            } else {
                to == insight
            }
            &&& over ==> to == insight
            &&& to.insight_id == insight.insight_id
            &&& to.filled_price == insight.filled_price
            &&& to.close_price == insight.close_price
            &&& to.quantity == insight.quantity
        }),
{
}

/// A report counts each insight under what was done to it, and notes one failure more for each that
/// could not be dealt with: an executed one without an order or whose order was not cancelled, and a
/// position without an order or that is not being closed.
pub proof fn reports_count_by_what_was_done(
    report: ReportView,
    insight: InsightView,
    reply: TeardownReply,
)
    requires
        answers(insight, reply),
    ensures
        ({
            let to = report_with(report, insight, reply);
            let cancelled = reply == TeardownReply::Cancel(CancelReply::Cancelled);
            let closing = reply is Close && insight.order_id is Some && (insight.closing
                || reply->taken);
            let failed = (insight.state is Executed && !cancelled) || (insight.state is Filled
                && !closing);
            &&& to.rejected_new == report.rejected_new + (if insight.state is New {
                1int
            } else {
                0
            })
            &&& to.cancelled_executed == report.cancelled_executed + (if cancelled {
                1int
            } else {
                0
            })
            &&& to.closed_filled == report.closed_filled + (if closing {
                1int
            } else {
                0
            })
            &&& failed ==> to.failures.len() == report.failures.len() + 1 && to.failures.drop_last()
                == report.failures
            &&& !failed ==> to.failures == report.failures
        }),
{
    let to = report_with(report, insight, reply);
    if to.failures.len() > report.failures.len() {
        assert(to.failures.drop_last() =~= report.failures);
    }
}

/// The first step of a teardown rejects a new insight and counts it; it asks the broker to cancel
/// the order of an executed one and to close the position of a filled one, and nothing of one that
/// is over.
pub proof fn teardowns_begin_by_state()
    ensures
        forall|
            i: &mut Insight,
            report: &mut TeardownCleanupReport,
            now: UtcTime,
            r: TeardownRequest,
        | #[trigger]
            call_ensures(teardown_step, (i, report, now), r) ==> {
                &&& i.state is New ==> final(i).state is Rejected && r is Nothing
                    && final(report)@.rejected_new == report@.rejected_new + 1
                &&& !(i.state is New) ==> final(i)@ == i@ && final(report)@.rejected_new
                    == report@.rejected_new
                &&& i.state is Executed && i@.order_id is Some ==> r is CancelOrder
                    && r->CancelOrder_0@ == i@.order_id->Some_0 && final(report)@ == report@
                &&& i.state is Executed && i@.order_id is None ==> r is Nothing && final(report)@.failures.len() == report@.failures.len() + 1
                &&& i.state is Filled ==> r is ClosePosition && final(report)@ == report@
                &&& i.state is Closed || i.state is Cancelled || i.state is Rejected
                    ==> r is Nothing && final(report)@ == report@
                &&& final(report)@.cancelled_executed == report@.cancelled_executed
                &&& final(report)@.closed_filled == report@.closed_filled
            },
{
}

/// An order that was cancelled cancels its insight and is counted; a request that was refused or
/// failed leaves the insight and is told. A close counts where the insight had an order and is now
/// closing, and is told as a failure otherwise.
pub proof fn answers_are_counted_or_told()
    ensures
        forall|
            i: &mut Insight,
            order_id: &str,
            reply: CancelReply,
            report: &mut TeardownCleanupReport,
            now: UtcTime,
            r: (),
        | #[trigger]
            call_ensures(teardown_cancel_reply, (i, order_id, &reply, report, now), r) ==> {
                &&& reply is Cancelled ==> final(i).state is Cancelled
                    && final(report)@.cancelled_executed == report@.cancelled_executed + 1
                    && final(report)@.failures == report@.failures
                &&& !(reply is Cancelled) ==> final(i)@ == i@ && final(report)@.cancelled_executed
                    == report@.cancelled_executed && final(report)@.failures.len()
                    == report@.failures.len() + 1
                &&& final(report)@.closed_filled == report@.closed_filled
                &&& final(report)@.rejected_new == report@.rejected_new
            },
        forall|
            i: Insight,
            had: bool,
            remaining: &str,
            report: &mut TeardownCleanupReport,
            r: (),
        | #[trigger]
            call_ensures(teardown_close_reply, (&i, had, remaining, report), r) ==> {
                &&& had && i.closing ==> final(report)@.closed_filled == report@.closed_filled + 1
                    && final(report)@.failures == report@.failures
                &&& !had || !i.closing ==> final(report)@.closed_filled == report@.closed_filled
                    && final(report)@.failures.len() == report@.failures.len() + 1
                &&& final(report)@.cancelled_executed == report@.cancelled_executed
                &&& final(report)@.rejected_new == report@.rejected_new
            },
{
}

/// A teardown goes over every insight: one that nothing was asked for is rejected where it is new,
/// one whose order was cancelled is cancelled, one whose close was taken is closing, and any other
/// stays.
pub proof fn teardowns_go_over_every_insight(k: int)
    ensures
        forall|
            insights: &mut InsightCollection,
            replies: Vec<TeardownReply>,
            now: UtcTime,
            r: TeardownCleanupReport,
        | #[trigger]
            call_ensures(cleanup_active_insights_for_teardown, (insights, &replies, now), r) && 0
                <= k < insights.insights_view().len() ==> {
                let before = insights.insights_view()[k];
                let after = final(insights).insights_view()[k];
                let reply = replies@[k];
                let cancelled = reply is Cancel && reply->Cancel_0 is Cancelled;
                let closing = reply is Close && reply->taken;
                &&& final(insights).insights_view().len() == insights.insights_view().len()
                &&& after.insight_id == before.insight_id
                &&& reply is Nothing && before.state is New ==> after.state is Rejected
                &&& reply is Nothing && !(before.state is New) ==> after == before
                &&& cancelled ==> after.state is Cancelled
                &&& closing ==> after == InsightView { closing: true, ..before }
                &&& !(reply is Nothing) && !cancelled && !closing ==> after == before
            },
{
}

} // verus!
