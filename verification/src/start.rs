//! The start of a live run: what it deals with, and what is told of it.
use vstd::prelude::*;
use vstd::string::StringExecFns;

use crate::aqs_types::{records, AqsAuth, StrategyUniverseAssetRecord};
use crate::asset::Asset;
use crate::cloud::{
    is_transient_surreal_error, queued, transient, PendingAqsSyncOp, PendingOps,
};
use crate::json::{
    add_member, add_text, members_view, object_of, optional_text, text_or_null, Json, JsonView,
};
use crate::metrics::{LiveFigures, LivePerformanceTracker, StrategyLiveMetricsRecord};
use crate::number::Number;
use crate::records::{Account, EventView, StrategyEventRecord};
use crate::text::{
    option_view, text_at_most, text_eq, text_le, text_le_antisymmetric, text_le_total,
    text_le_transitive,
};
use crate::time::UtcTime;

verus! {

/// Whether records stand in the order of their symbols, each symbol once.
pub open spec fn by_symbol(items: Seq<StrategyUniverseAssetRecord>) -> bool {
    forall|i: int, j: int|
        0 <= i < j < items.len() ==> (#[trigger] items[i]).symbol@ != (
        #[trigger] items[j]).symbol@ && text_le(items[i].symbol@, items[j].symbol@)
}

/// Whether a record has the symbol `s`.
pub open spec fn recorded(items: Seq<StrategyUniverseAssetRecord>, s: Seq<char>) -> bool {
    exists|i: int| 0 <= i < items.len() && (#[trigger] items[i]).symbol@ == s
}

/// Whether an asset has the symbol `s`.
pub open spec fn in_universe(assets: Seq<Asset>, s: Seq<char>) -> bool {
    exists|i: int| 0 <= i < assets.len() && (#[trigger] assets[i]).symbol@ == s
}

/// Whether a record is that of one of the assets.
pub open spec fn of_universe(assets: Seq<Asset>, r: StrategyUniverseAssetRecord) -> bool {
    exists|i: int| 0 <= i < assets.len() && records(r, #[trigger] assets[i])
}

/// Puts the record of an asset in its place, unless its symbol is there.
fn insert_record(items: &mut Vec<StrategyUniverseAssetRecord>, asset: &Asset)
    requires
        by_symbol(old(items)@),
    ensures
        by_symbol(final(items)@),
        forall|s: Seq<char>| #[trigger]
            recorded(final(items)@, s) <==> recorded(old(items)@, s) || s == asset.symbol@,
        forall|k: int|
            0 <= k < final(items)@.len() ==> old(items)@.contains(#[trigger] final(items)@[k])
                || records(final(items)@[k], *asset),
{
    let ghost before = items@;
    let mut i: usize = 0;
    while i < items.len()
        invariant
            i <= items.len(),
            items@ == before,
            before == old(items)@,
            by_symbol(before),
            forall|k: int|
                0 <= k < i ==> (#[trigger] before[k]).symbol@ != asset.symbol@ && text_le(
                    before[k].symbol@,
                    asset.symbol@,
                ),
        decreases items.len() - i,
    {
        if text_eq(items[i].symbol.as_str(), asset.symbol.as_str()) {
            proof {
                assert(before[i as int].symbol@ == asset.symbol@);
                assert forall|k: int| 0 <= k < items@.len() implies before.contains(
                    #[trigger] items@[k],
                ) by {
                    assert(before[k] == items@[k]);
                }
            }
            return;
        }
        if !text_at_most(items[i].symbol.as_str(), asset.symbol.as_str()) {
            items.insert(i, StrategyUniverseAssetRecord::of(asset));
            proof {
                inserted(before, items@, i as int, *asset);
            }
            return;
        }
        i = i + 1;
    }
    items.push(StrategyUniverseAssetRecord::of(asset));
    proof {
        assert(items@ =~= before.insert(before.len() as int, items@.last()));
        inserted(before, items@, i as int, *asset);
    }
}

proof fn inserted(
    before: Seq<StrategyUniverseAssetRecord>,
    after: Seq<StrategyUniverseAssetRecord>,
    at: int,
    asset: Asset,
)
    requires
        by_symbol(before),
        0 <= at <= before.len(),
        after.len() == before.len() + 1,
        records(after[at], asset),
        after == before.insert(at, after[at]),
        forall|k: int|
            0 <= k < at ==> (#[trigger] before[k]).symbol@ != asset.symbol@ && text_le(
                before[k].symbol@,
                asset.symbol@,
            ),
        at < before.len() ==> before[at].symbol@ != asset.symbol@ && !text_le(
            before[at].symbol@,
            asset.symbol@,
        ),
    ensures
        by_symbol(after),
        forall|s: Seq<char>| #[trigger]
            recorded(after, s) <==> recorded(before, s) || s == asset.symbol@,
        forall|k: int|
            0 <= k < after.len() ==> before.contains(#[trigger] after[k]) || records(
                after[k],
                asset,
            ),
{
    let s0 = asset.symbol@;
    assert(after[at].symbol@ == s0);
    assert forall|k: int| at <= k < before.len() implies (#[trigger] before[k]).symbol@ != s0
        && text_le(s0, before[k].symbol@) by {
        text_le_total(before[at].symbol@, s0);
        if k > at {
            text_le_transitive(s0, before[at].symbol@, before[k].symbol@);
            if before[k].symbol@ == s0 {
                text_le_antisymmetric(s0, before[at].symbol@);
            }
        }
    }
    assert forall|i: int, j: int| 0 <= i < j < after.len() implies (
    #[trigger] after[i]).symbol@ != (#[trigger] after[j]).symbol@ && text_le(
        after[i].symbol@,
        after[j].symbol@,
    ) by {
        if j < at {
            assert(after[i] == before[i] && after[j] == before[j]);
        } else if j == at {
            assert(after[i] == before[i]);
        } else if i < at {
            assert(after[i] == before[i] && after[j] == before[j - 1]);
        } else if i == at {
            assert(after[j] == before[j - 1]);
        } else {
            assert(after[i] == before[i - 1] && after[j] == before[j - 1]);
        }
    }
    assert forall|s: Seq<char>| #[trigger]
        recorded(after, s) <==> recorded(before, s) || s == s0 by {
        if recorded(before, s) {
            let k = choose|k: int| 0 <= k < before.len() && (#[trigger] before[k]).symbol@ == s;
            if k < at {
                assert(after[k].symbol@ == s);
            } else {
                assert(after[k + 1].symbol@ == s);
            }
        }
        if s == s0 {
            assert(after[at].symbol@ == s);
        }
        if recorded(after, s) && s != s0 {
            let k = choose|k: int| 0 <= k < after.len() && (#[trigger] after[k]).symbol@ == s;
            if k < at {
                assert(before[k].symbol@ == s);
            } else {
                assert(before[k - 1].symbol@ == s);
            }
        }
    }
    assert forall|k: int| 0 <= k < after.len() implies before.contains(#[trigger] after[k])
        || records(after[k], asset) by {
        if k < at {
            assert(before[k] == after[k]);
        } else if k > at {
            assert(before[k - 1] == after[k]);
        }
    }
}

/// The records of the assets that a run deals with, in the order of their symbols, each symbol
/// once.
pub fn initial_universe(assets: &Vec<Asset>) -> (r: Vec<StrategyUniverseAssetRecord>)
    ensures
        by_symbol(r@),
        forall|s: Seq<char>| #[trigger] recorded(r@, s) <==> in_universe(assets@, s),
        forall|k: int| 0 <= k < r@.len() ==> of_universe(assets@, #[trigger] r@[k]),
{
    let mut items: Vec<StrategyUniverseAssetRecord> = Vec::new();
    let mut i: usize = 0;
    while i < assets.len()
        invariant
            i <= assets.len(),
            by_symbol(items@),
            forall|s: Seq<char>| #[trigger]
                recorded(items@, s) <==> in_universe(assets@.take(i as int), s),
            forall|k: int| 0 <= k < items@.len() ==> of_universe(assets@, #[trigger] items@[k]),
        decreases assets.len() - i,
    {
        let ghost before = items@;
        insert_record(&mut items, &assets[i]);
        i = i + 1;
        proof {
            assert forall|s: Seq<char>| #[trigger]
                recorded(items@, s) <==> in_universe(assets@.take(i as int), s) by {
                assert(recorded(items@, s) <==> recorded(before, s) || s
                    == assets@[i - 1].symbol@);
                universe_grown(assets@, i as int, s);
            }
            assert forall|k: int| 0 <= k < items@.len() implies of_universe(
                assets@,
                #[trigger] items@[k],
            ) by {
                if before.contains(items@[k]) {
                    let m = choose|m: int| 0 <= m < before.len() && before[m] == items@[k];
                    assert(of_universe(assets@, before[m]));
                } else {
                    assert(records(items@[k], assets@[i - 1]));
                }
            }
        }
    }
    proof {
        assert(assets@.take(i as int) =~= assets@);
    }
    items
}

proof fn universe_grown(assets: Seq<Asset>, n: int, s: Seq<char>)
    requires
        0 < n <= assets.len(),
    ensures
        in_universe(assets.take(n), s) <==> in_universe(assets.take(n - 1), s) || s
            == assets[n - 1].symbol@,
{
    let shorter = assets.take(n - 1);
    let all = assets.take(n);
    if in_universe(shorter, s) {
        let i = choose|i: int| 0 <= i < shorter.len() && (#[trigger] shorter[i]).symbol@ == s;
        assert(all[i].symbol@ == s);
    }
    if s == assets[n - 1].symbol@ {
        assert(all[n - 1].symbol@ == s);
    }
    if in_universe(all, s) {
        let i = choose|i: int| 0 <= i < all.len() && (#[trigger] all[i]).symbol@ == s;
        if i < n - 1 {
            assert(shorter[i].symbol@ == s);
        }
    }
}

/// Why a run without anything to trade does not start.
pub fn universe_error(assets: &Vec<Asset>) -> (r: Option<&'static str>)
    ensures
        assets@.len() > 0 ==> r is None,
        assets@.len() == 0 ==> (r matches Some(message) && message@
            == "No tradable universe assets were loaded; check data-feed connectivity, symbol mapping, and asset metadata responses"@),
{
    if assets.len() > 0 {
        None
    } else {
        Some(
            "No tradable universe assets were loaded; check data-feed connectivity, symbol mapping, and asset metadata responses",
        )
    }
}

/// The cash and the equity that a run starts with: those of the account, or none.
pub fn starting_funds(account: &Option<Account>) -> (r: (Number, Number))
    ensures
        r == (match account {
            Some(account) => (account.cash, account.equity),
            None => (Number::spec_zero(), Number::spec_zero()),
        }),
{
    match account {
        Some(account) => (account.cash, account.equity),
        None => (Number::zero(), Number::zero()),
    }
}

/// What becomes of telling the cloud that a run started: with a transient error it waits with what
/// is written later.
pub fn settle_started(
    pending: &mut PendingOps,
    universe: Vec<StrategyUniverseAssetRecord>,
    account: Option<Account>,
    reply: Result<(), String>,
)
    ensures
        match reply {
            Err(error) if transient(error@) => queued(
                *old(pending),
                *final(pending),
                PendingAqsSyncOp::StrategyStarted { universe, starting_account: account },
            ),
            _ => *final(pending) == *old(pending),
        },
{
    match reply {
        Err(error) => {
            if is_transient_surreal_error(error.as_str()) {
                pending.enqueue_pending_aqs_sync_op(
                    PendingAqsSyncOp::StrategyStarted { universe, starting_account: account },
                );
            }
        },
        Ok(_) => {},
    }
}

/// What becomes of writing the state of the account: with a transient error it waits with what is
/// written later, and the connection is lost.
pub fn settle_account(
    pending: &mut PendingOps,
    account: Account,
    captured_at: UtcTime,
    reply: Result<(), String>,
) -> (lost: bool)
    ensures
        lost == (reply matches Err(error) && transient(error@)),
        lost ==> queued(
                *old(pending),
                *final(pending),
                PendingAqsSyncOp::AccountState { account, captured_at },
        ),
        !lost ==> *final(pending) == *old(pending),
{
    match reply {
        Err(error) => {
            if is_transient_surreal_error(error.as_str()) {
                pending.enqueue_pending_aqs_sync_op(
                    PendingAqsSyncOp::AccountState { account, captured_at },
                );
                true
            } else {
                false
            }
        },
        Ok(_) => false,
    }
}

/// What becomes of writing how a run does: where it was written, that is noted; with a transient
/// error it waits with what is written later, and the connection is lost.
pub fn settle_metrics(
    tracker: &mut LivePerformanceTracker,
    pending: &mut PendingOps,
    figures: &LiveFigures,
    record: StrategyLiveMetricsRecord,
    reply: Result<(), String>,
) -> (lost: bool)
    requires
        old(tracker).wf(),
    ensures
        final(tracker).wf(),
        lost == (reply matches Err(error) && transient(error@)),
        lost ==> queued(
                *old(pending),
                *final(pending),
                PendingAqsSyncOp::LiveMetrics(record),
        ),
        !lost ==> *final(pending) == *old(pending),
        reply is Err ==> *final(tracker) == *old(tracker),
        reply is Ok ==> *final(tracker) == (LivePerformanceTracker {
            last_persisted: final(tracker).last_persisted,
            ..*old(tracker)
        }) && match final(tracker).last_persisted {
            Some(s) => old(tracker).tells(*figures, s),
            None => old(tracker).executed_at is None,
        },
{
    match reply {
        Ok(_) => {
            tracker.mark_persisted(figures);
            false
        },
        Err(error) => {
            if is_transient_surreal_error(error.as_str()) {
                pending.enqueue_pending_aqs_sync_op(PendingAqsSyncOp::LiveMetrics(record));
                true
            } else {
                false
            }
        },
    }
}

/// The event that a run is connected to the cloud.
pub fn connected_event(now: UtcTime) -> (r: StrategyEventRecord)
    ensures
        r@ == (EventView {
            event_type: "lifecycle"@,
            level: "info"@,
            title: "AQS live sync connected"@,
            message: "AQE authenticated and connected to AQS Cloud"@,
            payload: None,
            created_at: Some(now),
        }),
{
    StrategyEventRecord::new(
        "lifecycle",
        "info",
        "AQS live sync connected",
        "AQE authenticated and connected to AQS Cloud",
        None,
        now,
    )
}

/// The event that a run started.
pub fn started_event(name: &str, auth: &AqsAuth, now: UtcTime) -> (r: StrategyEventRecord)
    ensures
        r@ == (EventView {
            event_type: "lifecycle"@,
            level: "info"@,
            title: "Strategy started"@,
            message: "Strategy '"@ + name@ + "' entered live mode"@,
            payload: Some(
                JsonView::Object(
                    seq![
                        ("strategy_name"@, JsonView::Text(name@)),
                        ("node_id"@, text_or_null(option_view(auth.node_id))),
                    ],
                ),
            ),
            created_at: Some(now),
        }),
{
    let mut message = "Strategy '".to_owned();
    message.append(name);
    message.append("' entered live mode");
    let mut members: Vec<(String, Json)> = Vec::new();
    proof {
        assert(members_view(members@) =~= Seq::<(Seq<char>, JsonView)>::empty());
    }
    add_text(&mut members, "strategy_name", name);
    add_member(&mut members, "node_id", optional_text(&auth.node_id));
    proof {
        assert(members_view(members@) =~= seq![
            ("strategy_name"@, JsonView::Text(name@)),
            ("node_id"@, text_or_null(option_view(auth.node_id))),
        ]);
    }
    StrategyEventRecord::new(
        "lifecycle",
        "info",
        "Strategy started",
        message.as_str(),
        Some(object_of(members)),
        now,
    )
}

/// The event that a run stopped.
pub fn stopped_event(name: &str, now: UtcTime) -> (r: StrategyEventRecord)
    ensures
        r@ == (EventView {
            event_type: "lifecycle"@,
            level: "info"@,
            title: "Strategy stopped"@,
            message: "Strategy '"@ + name@ + "' exited live mode"@,
            payload: None,
            created_at: Some(now),
        }),
{
    let mut message = "Strategy '".to_owned();
    message.append(name);
    message.append("' exited live mode");
    StrategyEventRecord::new("lifecycle", "info", "Strategy stopped", message.as_str(), None, now)
}

/// The event that the cloud wants a run to stop, with its action.
pub fn stop_requested_event(action: Json, now: UtcTime) -> (r: StrategyEventRecord)
    ensures
        r@ == (EventView {
            event_type: "action"@,
            level: "warn"@,
            title: "Stop requested"@,
            message: "AQE received a remote stop action"@,
            payload: Some(action@),
            created_at: Some(now),
        }),
{
    StrategyEventRecord::new(
        "action",
        "warn",
        "Stop requested",
        "AQE received a remote stop action",
        Some(action),
        now,
    )
}

/// A run starts with the cash and the equity of its account, and with nothing where that could not be
/// read.
pub proof fn runs_start_with_the_funds_of_the_account(
    account: &Option<Account>,
    r: (Number, Number),
)
    requires
        call_ensures(starting_funds, (account,), r),
    ensures
        *account matches Some(a) ==> r.0 == a.cash && r.1 == a.equity,
        *account is None ==> r.0.bits == 0 && r.1.bits == 0,
{
}

/// The universe is refused exactly where it is empty.
pub proof fn empty_universes_are_refused(assets: &Vec<Asset>, r: Option<&'static str>)
    requires
        call_ensures(universe_error, (assets,), r),
    ensures
        r is Some <==> assets@.len() == 0,
{
}

/// What a lost connection kept from being written waits in line: the start of the strategy, the
/// state of its account and its figures; any other answer ends it.
pub proof fn lost_writes_wait_in_line()
    ensures
        forall|
            p: &mut PendingOps,
            universe: Vec<StrategyUniverseAssetRecord>,
            account: Option<Account>,
            reply: Result<(), String>,
            r: (),
        | #[trigger]
            call_ensures(settle_started, (p, universe, account, reply), r) ==> {
                let lost = reply is Err && transient(reply->Err_0@);
                &&& !lost ==> *final(p) == *p
                &&& lost && p.ops@.len() < 512 ==> final(p).ops@ == p.ops@.push(
                    PendingAqsSyncOp::StrategyStarted { universe, starting_account: account },
                )
                &&& lost ==> final(p).ops@.last() == (PendingAqsSyncOp::StrategyStarted {
                    universe,
                    starting_account: account,
                })
            },
        forall|
            p: &mut PendingOps,
            account: Account,
            captured_at: UtcTime,
            reply: Result<(), String>,
            r: bool,
        | #[trigger]
            call_ensures(settle_account, (p, account, captured_at, reply), r) ==> {
                let lost = reply is Err && transient(reply->Err_0@);
                &&& r == lost
                &&& !lost ==> *final(p) == *p
                &&& lost && p.ops@.len() < 512 ==> final(p).ops@ == p.ops@.push(
                    PendingAqsSyncOp::AccountState { account, captured_at },
                )
                &&& lost ==> final(p).ops@.last() == (PendingAqsSyncOp::AccountState {
                    account,
                    captured_at,
                })
            },
        forall|
            t: &mut LivePerformanceTracker,
            p: &mut PendingOps,
            figures: LiveFigures,
            record: StrategyLiveMetricsRecord,
            reply: Result<(), String>,
            r: bool,
        | #[trigger]
            call_ensures(settle_metrics, (t, p, &figures, record, reply), r) ==> {
                let lost = reply is Err && transient(reply->Err_0@);
                &&& r == lost
                &&& !lost ==> *final(p) == *p
                &&& lost && p.ops@.len() < 512 ==> final(p).ops@ == p.ops@.push(
                    PendingAqsSyncOp::LiveMetrics(record),
                )
                &&& reply is Err ==> *final(t) == *t
                &&& reply is Ok && t.executed_at is Some ==> final(t).last_persisted is Some
                &&& final(t).total_trades == t.total_trades
                &&& final(t).current_equity == t.current_equity
                &&& final(t).updated_at == t.updated_at
            },
{
}

/// The life of a strategy is told event by event: that it connected, started and stopped, and that a
/// stop was asked for, with the action that asked for it.
pub proof fn lives_are_told_event_by_event(
    name: &str,
    auth: AqsAuth,
    action: Json,
    now: UtcTime,
    connected: StrategyEventRecord,
    started: StrategyEventRecord,
    stopped: StrategyEventRecord,
    asked: StrategyEventRecord,
)
    requires
        call_ensures(connected_event, (now,), connected),
        call_ensures(started_event, (name, &auth, now), started),
        call_ensures(stopped_event, (name, now), stopped),
        call_ensures(stop_requested_event, (action, now), asked),
    ensures
        connected@.event_type == "lifecycle"@ && connected@.level == "info"@
            && connected@.created_at == Some(now) && connected@.payload is None,
        connected@.title == "AQS live sync connected"@,
        started@.event_type == "lifecycle"@ && started@.level == "info"@ && started@.created_at
            == Some(now),
        started@.message == "Strategy '"@ + name@ + "' entered live mode"@,
        started@.payload is Some && started@.payload->Some_0 is Object
            && started@.payload->Some_0->Object_0[0] == ("strategy_name"@, JsonView::Text(name@)),
        auth.node_id is Some ==> started@.payload->Some_0->Object_0[1] == (
            "node_id"@,
            JsonView::Text(auth.node_id->Some_0@),
        ),
        auth.node_id is None ==> started@.payload->Some_0->Object_0[1] == (
            "node_id"@,
            JsonView::Null,
        ),
        stopped@.event_type == "lifecycle"@ && stopped@.level == "info"@ && stopped@.created_at
            == Some(now) && stopped@.payload is None,
        stopped@.message == "Strategy '"@ + name@ + "' exited live mode"@,
        asked@.event_type == "action"@ && asked@.level == "warn"@ && asked@.created_at == Some(now),
        asked@.payload == Some(action@),
{
}

/// The universe that a run starts with holds each symbol once, in their order, and every record in it
/// is of an asset that the run deals with.
pub proof fn universes_start_in_order(
    assets: Vec<Asset>,
    r: Vec<StrategyUniverseAssetRecord>,
    i: int,
    j: int,
)
    requires
        call_ensures(initial_universe, (&assets,), r),
        0 <= i < j < r@.len(),
    ensures
        r@[i].symbol@ != r@[j].symbol@,
        text_le(r@[i].symbol@, r@[j].symbol@),
{
}

} // verus!
