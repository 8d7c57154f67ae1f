//! The events and account states that a live run writes to the cloud.
use vstd::prelude::*;
use vstd::string::StringExecFns;

use crate::aqs_types::{live_session_key, session_key, session_of, AqsAuth};
use crate::ids::{event_key, event_uuid, oid_uuid, uuid_chars, uuid_text};
use crate::json::{add_member, members_view, object_of, option_json, Json, JsonView};
use crate::number::Number;
use crate::text::{decimal_signed, join3, joined3, signed_text};
use crate::time::UtcTime;

verus! {

/// Something that happened in a live run.
#[derive(Debug)]
pub struct StrategyEventRecord {
    pub event_type: String,
    pub level: String,
    pub title: String,
    pub message: String,
    pub payload: Option<Json>,
    pub created_at: Option<UtcTime>,
}

/// The model of an event.
#[verifier::ext_equal]
pub struct EventView {
    pub event_type: Seq<char>,
    pub level: Seq<char>,
    pub title: Seq<char>,
    pub message: Seq<char>,
    pub payload: Option<JsonView>,
    pub created_at: Option<UtcTime>,
}

impl View for StrategyEventRecord {
    type V = EventView;

    open spec fn view(&self) -> EventView {
        EventView {
            event_type: self.event_type@,
            level: self.level@,
            title: self.title@,
            message: self.message@,
            payload: option_json(self.payload),
            created_at: self.created_at,
        }
    }
}

impl StrategyEventRecord {
    /// An event.
    pub fn new(
        event_type: &str,
        level: &str,
        title: &str,
        message: &str,
        payload: Option<Json>,
        created_at: UtcTime,
    ) -> (r: StrategyEventRecord)
        ensures
            r@ == (EventView {
                event_type: event_type@,
                level: level@,
                title: title@,
                message: message@,
                payload: option_json(payload),
                created_at: Some(created_at),
            }),
    {
        StrategyEventRecord {
            event_type: event_type.to_owned(),
            level: level.to_owned(),
            title: title.to_owned(),
            message: message.to_owned(),
            payload,
            created_at: Some(created_at),
        }
    }

    /// A copy of the event.
    pub fn duplicate(&self) -> (r: StrategyEventRecord)
        ensures
            r@ == self@,
    {
        StrategyEventRecord {
            event_type: self.event_type.clone(),
            level: self.level.clone(),
            title: self.title.clone(),
            message: self.message.clone(),
            payload: match &self.payload {
                Some(payload) => Some(payload.duplicate()),
                None => None,
            },
            created_at: self.created_at,
        }
    }
}

/// The live session of a run: its key, or the session that the run signed in with where there is
/// no key.
pub open spec fn sync_session(auth: AqsAuth) -> Seq<char> {
    match auth.live_session_id {
        Some(id) => if session_key(id@).len() > 0 {
            session_key(id@)
        } else {
            auth.session_id@
        },
        None => auth.session_id@,
    }
}

/// The live session that the records of a run belong to.
pub fn live_session_key_for_auth(auth: &AqsAuth) -> (r: String)
    ensures
        r@ == sync_session(*auth),
{
    match &auth.live_session_id {
        Some(id) => {
            let key = live_session_key(id.as_str());
            if key.as_str().unicode_len() > 0 {
                key
            } else {
                auth.session_id.clone()
            }
        },
        None => auth.session_id.clone(),
    }
}

/// The id under which an insight is filed.
pub fn live_insight_record_id(auth: &AqsAuth, insight_id: &str) -> (r: String)
    ensures
        r@ == joined3(auth.strategy_id@, sync_session(*auth), insight_id@),
{
    let session = live_session_key_for_auth(auth);
    join3(auth.strategy_id.as_str(), session.as_str(), insight_id)
}

/// The time that an event is filed under.
pub open spec fn event_time(event: EventView, now: UtcTime) -> UtcTime {
    match event.created_at {
        Some(at) => at,
        None => now,
    }
}

/// The identifier under which an event is filed.
pub open spec fn event_id(auth: AqsAuth, event: EventView, now: UtcTime) -> u128 {
    oid_uuid(
        vstd::utf8::encode_utf8(
            event_key(
                auth.strategy_id@,
                session_of(auth),
                event_time(event, now).millis(),
                event.event_type,
                event.title,
                event.message,
            ),
        ),
    )
}

/// Where an event is filed: its id, and the live session it belongs to, empty where there is none.
#[derive(Debug)]
pub struct FiledEvent {
    pub record_id: String,
    pub session: String,
}

/// Where an event is filed. The same event of the same run is always filed in the same place, so
/// that writing it again replaces it.
pub fn file_event(auth: &AqsAuth, event: &StrategyEventRecord, now: UtcTime) -> (r: FiledEvent)
    requires
        event_time(event@, now).wf(),
    ensures
        r.session@ == session_of(*auth),
        r.record_id@ == uuid_chars(event_id(*auth, event@, now)),
{
    let session = match &auth.live_session_id {
        Some(id) => live_session_key(id.as_str()),
        None => {
            let empty = String::new();
            proof {
                assert(empty@ =~= Seq::<char>::empty());
            }
            empty
        },
    };
    let at = match event.created_at {
        Some(at) => at,
        None => now,
    };
    let id = event_uuid(
        auth.strategy_id.as_str(),
        session.as_str(),
        at.timestamp_millis(),
        event.event_type.as_str(),
        event.title.as_str(),
        event.message.as_str(),
    );
    FiledEvent { record_id: uuid_text(id), session }
}

/// An event that has its own time is filed under the same id whenever it is written.
pub proof fn writing_again_replaces(
    auth: AqsAuth,
    event: EventView,
    first: UtcTime,
    second: UtcTime,
)
    requires
        event.created_at is Some,
    ensures
        event_id(auth, event, first) == event_id(auth, event, second),
{
}

/// What a broker says of an account.
#[derive(Clone, Debug)]
pub struct Account {
    pub account_id: String,
    pub account_type: String,
    pub equity: Number,
    pub cash: Number,
    pub currency: String,
    pub buying_power: Number,
    pub shorting_enabled: bool,
    pub leverage: i64,
}

/// The state of an account as it is written to the cloud.
#[derive(Clone, Debug)]
pub struct StrategyAccountSnapshotRecord {
    pub account_id: String,
    pub account_type: String,
    pub equity: Number,
    pub cash: Number,
    pub currency: String,
    pub buying_power: Number,
    pub shorting_enabled: bool,
    pub leverage: i64,
}

/// A point of the curve of an account's equity.
#[derive(Clone, Copy, Debug)]
pub struct StrategyEquityPointRecord {
    pub equity: Number,
    pub cash: Number,
    pub buying_power: Number,
}

/// The state of an account that was written last.
#[derive(Clone, Copy, Debug)]
pub struct LatestPersistedAccountState {
    pub equity: Number,
    pub cash: Number,
    pub buying_power: Number,
}

/// What is written of an account, and where.
#[derive(Debug)]
pub struct AccountRecords {
    pub session: String,
    pub account_record_id: String,
    pub equity_point_record_id: String,
    pub snapshot: StrategyAccountSnapshotRecord,
    pub point: StrategyEquityPointRecord,
}

/// The records of an account at one time.
pub fn account_records(auth: &AqsAuth, account: &Account, captured_at: UtcTime) -> (r:
    AccountRecords)
    requires
        captured_at.wf(),
    ensures
        r.session@ == sync_session(*auth),
        r.account_record_id@ == joined3(
            auth.strategy_id@,
            sync_session(*auth),
            account.account_id@,
        ),
        r.equity_point_record_id@ == joined3(
            auth.strategy_id@,
            sync_session(*auth),
            account.account_id@,
        ) + "::"@ + decimal_signed(captured_at.millis()),
        r.snapshot.account_id@ == account.account_id@,
        r.snapshot.account_type@ == account.account_type@,
        r.snapshot.equity == account.equity,
        r.snapshot.cash == account.cash,
        r.snapshot.currency@ == account.currency@,
        r.snapshot.buying_power == account.buying_power,
        r.snapshot.shorting_enabled == account.shorting_enabled,
        r.snapshot.leverage == account.leverage,
        r.point == (StrategyEquityPointRecord {
            equity: account.equity,
            cash: account.cash,
            buying_power: account.buying_power,
        }),
{
    let session = live_session_key_for_auth(auth);
    let account_record_id = join3(
        auth.strategy_id.as_str(),
        session.as_str(),
        account.account_id.as_str(),
    );
    let mut equity_point_record_id = account_record_id.clone();
    equity_point_record_id.append("::");
    equity_point_record_id.append(signed_text(captured_at.timestamp_millis()).as_str());
    AccountRecords {
        session,
        account_record_id,
        equity_point_record_id,
        snapshot: StrategyAccountSnapshotRecord {
            account_id: account.account_id.clone(),
            account_type: account.account_type.clone(),
            equity: account.equity,
            cash: account.cash,
            currency: account.currency.clone(),
            buying_power: account.buying_power,
            shorting_enabled: account.shorting_enabled,
            leverage: account.leverage,
        },
        point: StrategyEquityPointRecord {
            equity: account.equity,
            cash: account.cash,
            buying_power: account.buying_power,
        },
    }
}

/// Whether an account has another state than the one that was written last.
pub open spec fn changed_since(
    latest: Option<LatestPersistedAccountState>,
    account: Account,
) -> bool {
    match latest {
        Some(latest) => !(latest.equity.eq_value(account.equity) && latest.cash.eq_value(
            account.cash,
        ) && latest.buying_power.eq_value(account.buying_power)),
        None => true,
    }
}

/// Whether an account has another state than the one that was written last.
pub fn account_changed(latest: Option<LatestPersistedAccountState>, account: &Account) -> (r: bool)
    ensures
        r == changed_since(latest, *account),
{
    match latest {
        Some(latest) => !(latest.equity.equals(account.equity) && latest.cash.equals(account.cash)
            && latest.buying_power.equals(account.buying_power)),
        None => true,
    }
}

/// What is written next of an account: its state, then, where that changed, a point of its equity
/// curve and an event.
#[derive(Clone, Copy, Debug, PartialEq, Eq, Structural)]
pub enum AccountWrite {
    Snapshot,
    EquityPoint,
    Event,
    Done,
    Failed,
}

/// What is written after `step`, when it was written (`written`) or refused.
pub open spec fn after_write(step: AccountWrite, changed: bool, written: bool) -> AccountWrite {
    match step {
        AccountWrite::Done => AccountWrite::Done,
        AccountWrite::Failed => AccountWrite::Failed,
        _ => if !written {
            AccountWrite::Failed
        } else {
            match step {
                AccountWrite::Snapshot => if changed {
                    AccountWrite::EquityPoint
                } else {
                    AccountWrite::Done
                },
                AccountWrite::EquityPoint => AccountWrite::Event,
                _ => AccountWrite::Done,
            }
        },
    }
}

/// What is written after `step`, when it was written (`written`) or refused.
pub fn next_account_write(step: AccountWrite, changed: bool, written: bool) -> (r: AccountWrite)
    ensures
        r == after_write(step, changed, written),
{
    match step {
        AccountWrite::Done => AccountWrite::Done,
        AccountWrite::Failed => AccountWrite::Failed,
        _ => {
            if !written {
                return AccountWrite::Failed;
            }
            match step {
                AccountWrite::Snapshot => if changed {
                    AccountWrite::EquityPoint
                } else {
                    AccountWrite::Done
                },
                AccountWrite::EquityPoint => AccountWrite::Event,
                _ => AccountWrite::Done,
            }
        },
    }
}

/// An account that did not change gets no point on its equity curve: only its state is written.
/// One that changed gets all three records, where none is refused.
pub proof fn unchanged_accounts_get_no_point(changed: bool)
    ensures
        !changed ==> after_write(AccountWrite::Snapshot, changed, true) == AccountWrite::Done,
        changed ==> after_write(AccountWrite::Snapshot, changed, true) == AccountWrite::EquityPoint
            && after_write(AccountWrite::EquityPoint, changed, true) == AccountWrite::Event
            && after_write(AccountWrite::Event, changed, true) == AccountWrite::Done,
{
}

/// A figure of an account as it is shown: with two digits in a text, and as a JSON value.
#[derive(Debug)]
pub struct ShownFigure {
    pub text: String,
    pub value: Json,
}

/// The event that an account's state was written.
pub fn account_event(
    equity: &ShownFigure,
    cash: &ShownFigure,
    buying_power: &ShownFigure,
    captured_at: UtcTime,
) -> (r: StrategyEventRecord)
    ensures
        r@ == (EventView {
            event_type: "account_snapshot"@,
            level: "debug"@,
            title: "Account snapshot recorded"@,
            message: "Equity "@ + equity.text@ + ", cash "@ + cash.text@ + ", buying power "@
                + buying_power.text@,
            payload: Some(
                JsonView::Object(
                    seq![
                        ("equity"@, equity.value@),
                        ("cash"@, cash.value@),
                        ("buying_power"@, buying_power.value@),
                    ],
                ),
            ),
            created_at: Some(captured_at),
        }),
{
    let mut message = "Equity ".to_owned();
    message.append(equity.text.as_str());
    message.append(", cash ");
    message.append(cash.text.as_str());
    message.append(", buying power ");
    message.append(buying_power.text.as_str());
    let mut members: Vec<(String, Json)> = Vec::new();
    proof {
        assert(members_view(members@) =~= Seq::<(Seq<char>, JsonView)>::empty());
    }
    add_member(&mut members, "equity", equity.value.duplicate());
    add_member(&mut members, "cash", cash.value.duplicate());
    add_member(&mut members, "buying_power", buying_power.value.duplicate());
    proof {
        assert(members_view(members@) =~= seq![
            ("equity"@, equity.value@),
            ("cash"@, cash.value@),
            ("buying_power"@, buying_power.value@),
        ]);
    }
    StrategyEventRecord::new(
        "account_snapshot",
        "debug",
        "Account snapshot recorded",
        message.as_str(),
        Some(object_of(members)),
        captured_at,
    )
}

/// The query that says how far an action of the cloud has come, and when, in `timestamp_field`.
pub fn action_status_query(timestamp_field: &str) -> (r: String)
    ensures
        r@
            == "UPDATE <record<strategy_actions>> $id SET status = $status, message = $message, error = $error, processed_at = time::now(), "@
            + timestamp_field@ + " = time::now()"@,
{
    let mut query =
        "UPDATE <record<strategy_actions>> $id SET status = $status, message = $message, error = $error, processed_at = time::now(), ".to_owned();
    query.append(timestamp_field);
    query.append(" = time::now()");
    query
}

/// The id under which the figures of a live run are filed.
pub fn live_metrics_record_id(auth: &AqsAuth) -> (r: String)
    ensures
        r@ == auth.strategy_id@ + "::"@ + sync_session(*auth),
{
    let session = live_session_key_for_auth(auth);
    let mut id = auth.strategy_id.clone();
    id.append("::");
    id.append(session.as_str());
    id
}

/// An account has changed exactly where its equity, its cash or its buying power is another number than
/// what was written last; one of which nothing was written has.
pub proof fn accounts_change_with_their_figures(
    latest: Option<LatestPersistedAccountState>,
    account: Account,
)
    ensures
        latest is None ==> changed_since(latest, account),
        latest matches Some(last) && !account.equity.is_nan() && !account.cash.is_nan()
            && !account.buying_power.is_nan() && !last.equity.is_nan() && !last.cash.is_nan()
            && !last.buying_power.is_nan() ==> (changed_since(latest, account)
            <==> latest->Some_0.equity.rank() != account.equity.rank()
            || latest->Some_0.cash.rank() != account.cash.rank()
            || latest->Some_0.buying_power.rank() != account.buying_power.rank()),
{
}

/// The account is written first; where it changed, then a point of its equity and an event; and nothing
/// more once something could not be written.
pub proof fn accounts_are_written_in_order(changed: bool)
    ensures
        after_write(AccountWrite::Snapshot, true, true) is EquityPoint,
        after_write(AccountWrite::Snapshot, false, true) is Done,
        after_write(AccountWrite::EquityPoint, changed, true) is Event,
        after_write(AccountWrite::Event, changed, true) is Done,
        after_write(AccountWrite::Snapshot, changed, false) is Failed,
        after_write(AccountWrite::EquityPoint, changed, false) is Failed,
        after_write(AccountWrite::Event, changed, false) is Failed,
        after_write(AccountWrite::Done, changed, false) is Done,
        after_write(AccountWrite::Failed, changed, true) is Failed,
{
}

/// A record is filed under the live session where there is one, and else under the session; an event
/// under the time that it tells, and else under now.
pub proof fn records_are_filed_under_their_session(auth: AqsAuth, event: EventView, now: UtcTime)
    ensures
        auth.live_session_id is None ==> sync_session(auth) == auth.session_id@,
        auth.live_session_id matches Some(id) && session_key(id@).len() > 0 ==> sync_session(auth)
            == session_key(auth.live_session_id->Some_0@),
        event.created_at matches Some(at) ==> event_time(event, now) == at,
        event.created_at is None ==> event_time(event, now) == now,
{
}

/// What is written of an account is the account: its figures as they are, under its own id and session.
pub proof fn account_records_tell_the_account(
    auth: &AqsAuth,
    account: &Account,
    captured_at: UtcTime,
    r: AccountRecords,
)
    requires
        captured_at.wf(),
        call_ensures(account_records, (auth, account, captured_at), r),
    ensures
        r.snapshot.equity == account.equity && r.point.equity == account.equity,
        r.snapshot.cash == account.cash && r.point.cash == account.cash,
        r.snapshot.buying_power == account.buying_power && r.point.buying_power
            == account.buying_power,
        r.snapshot.account_id@ == account.account_id@,
        r.snapshot.currency@ == account.currency@,
        r.snapshot.leverage == account.leverage,
        r.equity_point_record_id@.len() > r.account_record_id@.len(),
        r.equity_point_record_id@.take(r.account_record_id@.len() as int) == r.account_record_id@,
{
    reveal_strlit("::");
    assert(r.equity_point_record_id@.take(r.account_record_id@.len() as int)
        =~= r.account_record_id@);
}

/// The event of an account tells its equity, its cash and its buying power, each under its name.
pub proof fn account_events_tell_the_figures(
    equity: ShownFigure,
    cash: ShownFigure,
    buying_power: ShownFigure,
    at: UtcTime,
    r: StrategyEventRecord,
)
    requires
        call_ensures(account_event, (&equity, &cash, &buying_power, at), r),
    ensures
        r@.event_type == "account_snapshot"@,
        r@.level == "debug"@,
        r@.created_at == Some(at),
        r@.message == "Equity "@ + equity.text@ + ", cash "@ + cash.text@ + ", buying power "@
            + buying_power.text@,
        r@.payload is Some && r@.payload->Some_0 is Object,
        r@.payload->Some_0->Object_0.len() == 3,
        r@.payload->Some_0->Object_0[0] == ("equity"@, equity.value@),
        r@.payload->Some_0->Object_0[1] == ("cash"@, cash.value@),
        r@.payload->Some_0->Object_0[2] == ("buying_power"@, buying_power.value@),
{
}

/// The records of a run belong to its live session, by its key, and to the session that it signed in
/// with where it has no live one or that has no key.
pub proof fn records_belong_to_the_live_session(auth: AqsAuth, r: String)
    requires
        call_ensures(live_session_key_for_auth, (&auth,), r),
    ensures
        auth.live_session_id is None ==> r@ == auth.session_id@,
        auth.live_session_id is Some && session_key(auth.live_session_id->Some_0@).len() == 0
            ==> r@ == auth.session_id@,
        auth.live_session_id is Some && session_key(auth.live_session_id->Some_0@).len() > 0
            ==> r@ == session_key(auth.live_session_id->Some_0@),
{
}

} // verus!
