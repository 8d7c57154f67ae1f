//! The connection to the cloud: signing in, trying again, and what waits to be written.
use std::collections::VecDeque;

use vstd::prelude::*;
use vstd::string::StringExecFns;

use crate::aqs_types::StrategyUniverseAssetRecord;
use crate::metrics::StrategyLiveMetricsRecord;
use crate::records::{Account, StrategyEventRecord};
use crate::telemetry::pushed;
use crate::text::{
    decimal, decimal_text, holds, lowercase, stands_at, text_holds, to_lowercase,
};
use crate::time::UtcTime;

verus! {

/// The operations that wait at most to be written to the cloud.
pub const MAX_PENDING_AQS_SYNC_OPS: usize = 512;

/// How often a connection is tried.
pub const LIVE_SYNC_CONNECT_MAX_ATTEMPTS: u64 = 3;

/// The milliseconds that are waited after the first attempt; after each later one, so much more.
pub const LIVE_SYNC_RETRY_BASE_MS: u64 = 500;

/// The seconds after which connecting and signing in are given up.
pub const LIVE_SYNC_CONNECT_TIMEOUT_SECS: u64 = 10;

/// The seconds after which a query is given up.
pub const LIVE_SYNC_QUERY_TIMEOUT_SECS: u64 = 10;

/// The seconds after which connecting anew is given up.
pub const LIVE_SYNC_RECONNECT_TIMEOUT_SECS: u64 = 40;

/// How often an insight is written.
pub const UPSERT_MAX_ATTEMPTS: u64 = 3;

/// The milliseconds that are waited after the first attempt to write an insight; after each later
/// one, so much more.
pub const UPSERT_RETRY_BASE_MS: u64 = 150;

/// Whether an error, in lower case, speaks of a connection that may come back.
pub open spec fn speaks_of_connection(message: Seq<char>) -> bool {
    ||| holds(message, "connection reset"@)
    ||| holds(message, "connection closed"@)
    ||| holds(message, "broken pipe"@)
    ||| holds(message, "timed out"@)
    ||| holds(message, "timeout"@)
    ||| holds(message, "transport"@)
    ||| holds(message, "503"@)
    ||| holds(message, "service unavailable"@)
    ||| holds(message, "temporarily unavailable"@)
    ||| holds(message, "websocket error"@)
    ||| holds(message, "http error"@)
}

/// Whether a text in lower case speaks of a connection that may come back.
pub fn names_connection_trouble(message: &str) -> (r: bool)
    ensures
        r == speaks_of_connection(message@),
{
    text_holds(message, "connection reset") || text_holds(message, "connection closed")
        || text_holds(message, "broken pipe") || text_holds(message, "timed out")
        || text_holds(message, "timeout") || text_holds(message, "transport") || text_holds(
        message,
        "503",
    ) || text_holds(message, "service unavailable") || text_holds(
        message,
        "temporarily unavailable",
    ) || text_holds(message, "websocket error") || text_holds(message, "http error")
}

/// Whether an error may go away by itself.
pub open spec fn transient(error: Seq<char>) -> bool {
    speaks_of_connection(lowercase(error))
}

/// Whether an error, by its text, may go away by itself.
pub fn is_transient_surreal_error(error: &str) -> (r: bool)
    ensures
        r == transient(error@),
{
    let message = to_lowercase(error);
    names_connection_trouble(message.as_str())
}

/// What came of something that was asked of the cloud.
#[derive(Debug)]
pub enum Reply {
    Done,
    Refused(String),
    TimedOut,
}

/// The model of a reply.
pub enum ReplyView {
    Done,
    Refused(Seq<char>),
    TimedOut,
}

impl View for Reply {
    type V = ReplyView;

    open spec fn view(&self) -> ReplyView {
        match self {
            Reply::Done => ReplyView::Done,
            Reply::Refused(error) => ReplyView::Refused(error@),
            Reply::TimedOut => ReplyView::TimedOut,
        }
    }
}

/// What is to be done next on the way to a connection.
#[derive(Debug)]
pub enum ConnectStep {
    /// Connect, for the `attempt`th time.
    Connect { attempt: u64 },
    /// Sign in.
    SignIn { attempt: u64 },
    /// Select the database.
    Select { attempt: u64 },
    /// Wait so many milliseconds before the next attempt.
    Wait { attempt: u64, millis: u64 },
    /// Mark the live session as active.
    Activate,
    /// Write down that the run is connected.
    Record,
    /// Nothing more: connected.
    Connected,
    /// Nothing more: it failed.
    Failed { message: String },
}

/// The model of a step on the way to a connection.
pub enum ConnectView {
    Connect { attempt: int },
    SignIn { attempt: int },
    Select { attempt: int },
    Wait { attempt: int, millis: int },
    Activate,
    Record,
    Connected,
    Failed { message: Seq<char> },
}

impl View for ConnectStep {
    type V = ConnectView;

    open spec fn view(&self) -> ConnectView {
        match self {
            ConnectStep::Connect { attempt } => ConnectView::Connect { attempt: *attempt as int },
            ConnectStep::SignIn { attempt } => ConnectView::SignIn { attempt: *attempt as int },
            ConnectStep::Select { attempt } => ConnectView::Select { attempt: *attempt as int },
            ConnectStep::Wait { attempt, millis } => ConnectView::Wait {
                attempt: *attempt as int,
                millis: *millis as int,
            },
            ConnectStep::Activate => ConnectView::Activate,
            ConnectStep::Record => ConnectView::Record,
            ConnectStep::Connected => ConnectView::Connected,
            ConnectStep::Failed { message } => ConnectView::Failed { message: message@ },
        }
    }
}

impl ConnectView {
    /// The attempt that a step belongs to, where it belongs to one.
    pub open spec fn attempt(self) -> Option<int> {
        match self {
            ConnectView::Connect { attempt } => Some(attempt),
            ConnectView::SignIn { attempt } => Some(attempt),
            ConnectView::Select { attempt } => Some(attempt),
            ConnectView::Wait { attempt, .. } => Some(attempt),
            _ => None,
        }
    }

    /// Whether the attempt is one of those that are made.
    pub open spec fn wf(self) -> bool {
        match self.attempt() {
            Some(attempt) => 1 <= attempt <= LIVE_SYNC_CONNECT_MAX_ATTEMPTS,
            None => true,
        }
    }

    /// Whether nothing is left to be done.
    pub open spec fn over(self) -> bool {
        self is Connected || self is Failed
    }

    /// A bound of the steps that are still to come.
    pub open spec fn left(self) -> int {
        let spare = |attempt: int| 5 * (LIVE_SYNC_CONNECT_MAX_ATTEMPTS - attempt);
        match self {
            ConnectView::Connect { attempt } => spare(attempt) + 6,
            ConnectView::SignIn { attempt } => spare(attempt) + 5,
            ConnectView::Select { attempt } => spare(attempt) + 4,
            ConnectView::Wait { attempt, .. } => spare(attempt) + 3,
            ConnectView::Activate => 2,
            ConnectView::Record => 1,
            _ => 0,
        }
    }
}

/// After an attempt that failed: another one, after a while, or none.
pub open spec fn tried(attempt: int, message: Seq<char>) -> ConnectView {
    if attempt < LIVE_SYNC_CONNECT_MAX_ATTEMPTS {
        ConnectView::Wait { attempt, millis: LIVE_SYNC_RETRY_BASE_MS * attempt }
    } else {
        ConnectView::Failed { message }
    }
}

/// `before`, a number of seconds and `s`.
pub open spec fn after_secs(before: Seq<char>, secs: u64) -> Seq<char> {
    before + decimal(secs as nat) + "s"@
}

/// The step after `step`, when `reply` came of it.
pub open spec fn connect_next(step: ConnectView, reply: ReplyView) -> ConnectView {
    match step {
        ConnectView::Connect { attempt } => match reply {
            ReplyView::Done => ConnectView::SignIn { attempt },
            ReplyView::Refused(error) => tried(
                attempt,
                "Failed to connect to AQS Cloud: "@ + error,
            ),
            ReplyView::TimedOut => tried(
                attempt,
                after_secs(
                    "Timed out connecting to AQS Cloud after "@,
                    LIVE_SYNC_CONNECT_TIMEOUT_SECS,
                ),
            ),
        },
        ConnectView::SignIn { attempt } => match reply {
            ReplyView::Done => ConnectView::Select { attempt },
            ReplyView::Refused(error) => tried(
                attempt,
                "Failed to authenticate AQS Cloud live sync: "@ + error,
            ),
            ReplyView::TimedOut => tried(attempt, sign_in_timed_out()),
        },
        ConnectView::Select { attempt } => match reply {
            ReplyView::Done => ConnectView::Activate,
            ReplyView::Refused(error) => tried(
                attempt,
                "Failed to select AQS database for live sync: "@ + error,
            ),
            ReplyView::TimedOut => tried(attempt, sign_in_timed_out()),
        },
        ConnectView::Wait { attempt, .. } => ConnectView::Connect { attempt: attempt + 1 },
        ConnectView::Activate => ConnectView::Record,
        ConnectView::Record => ConnectView::Connected,
        ConnectView::Connected => ConnectView::Connected,
        ConnectView::Failed { message } => ConnectView::Failed { message },
    }
}

/// What is said when signing in took too long.
pub open spec fn sign_in_timed_out() -> Seq<char> {
    after_secs(
        "Timed out authenticating AQS Cloud live sync after "@,
        LIVE_SYNC_CONNECT_TIMEOUT_SECS,
    )
}

/// The steps that are taken from `step` on, when `replies` come one after the other.
pub open spec fn connect_after(step: ConnectView, replies: Seq<ReplyView>) -> ConnectView
    decreases replies.len(),
{
    if replies.len() == 0 {
        step
    } else {
        connect_after(connect_next(step, replies[0]), replies.drop_first())
    }
}

fn with_text(before: &str, text: &str) -> (r: String)
    ensures
        r@ == before@ + text@,
{
    let mut s = before.to_owned();
    s.append(text);
    s
}

fn with_secs(before: &str, secs: u64) -> (r: String)
    ensures
        r@ == after_secs(before@, secs),
{
    let mut s = before.to_owned();
    s.append(decimal_text(secs).as_str());
    s.append("s");
    s
}

fn try_again(attempt: u64, message: String) -> (r: ConnectStep)
    requires
        1 <= attempt <= LIVE_SYNC_CONNECT_MAX_ATTEMPTS,
    ensures
        r@ == tried(attempt as int, message@),
{
    if attempt < LIVE_SYNC_CONNECT_MAX_ATTEMPTS {
        ConnectStep::Wait { attempt, millis: LIVE_SYNC_RETRY_BASE_MS * attempt }
    } else {
        ConnectStep::Failed { message }
    }
}

impl ConnectStep {
    /// The first step: to connect.
    pub fn start() -> (r: ConnectStep)
        ensures
            r@ == (ConnectView::Connect { attempt: 1 }),
            r@.wf(),
    {
        ConnectStep::Connect { attempt: 1 }
    }

    /// The step after this one, when `reply` came of it. Neither the session that could not be
    /// marked as active nor the event that could not be written keeps a run from its connection.
    pub fn next(self, reply: Reply) -> (r: ConnectStep)
        requires
            self@.wf(),
            self@ matches ConnectView::Wait { attempt, .. } ==> attempt
                < LIVE_SYNC_CONNECT_MAX_ATTEMPTS,
        ensures
            r@ == connect_next(self@, reply@),
            r@.wf(),
            r@ matches ConnectView::Wait { attempt, .. } ==> attempt
                < LIVE_SYNC_CONNECT_MAX_ATTEMPTS,
    {
        match self {
            ConnectStep::Connect { attempt } => match reply {
                Reply::Done => ConnectStep::SignIn { attempt },
                Reply::Refused(error) => try_again(
                    attempt,
                    with_text("Failed to connect to AQS Cloud: ", error.as_str()),
                ),
                Reply::TimedOut => try_again(
                    attempt,
                    with_secs(
                        "Timed out connecting to AQS Cloud after ",
                        LIVE_SYNC_CONNECT_TIMEOUT_SECS,
                    ),
                ),
            },
            ConnectStep::SignIn { attempt } => match reply {
                Reply::Done => ConnectStep::Select { attempt },
                Reply::Refused(error) => try_again(
                    attempt,
                    with_text("Failed to authenticate AQS Cloud live sync: ", error.as_str()),
                ),
                Reply::TimedOut => try_again(
                    attempt,
                    with_secs(
                        "Timed out authenticating AQS Cloud live sync after ",
                        LIVE_SYNC_CONNECT_TIMEOUT_SECS,
                    ),
                ),
            },
            ConnectStep::Select { attempt } => match reply {
                Reply::Done => ConnectStep::Activate,
                Reply::Refused(error) => try_again(
                    attempt,
                    with_text("Failed to select AQS database for live sync: ", error.as_str()),
                ),
                Reply::TimedOut => try_again(
                    attempt,
                    with_secs(
                        "Timed out authenticating AQS Cloud live sync after ",
                        LIVE_SYNC_CONNECT_TIMEOUT_SECS,
                    ),
                ),
            },
            ConnectStep::Wait { attempt, .. } => ConnectStep::Connect { attempt: attempt + 1 },
            ConnectStep::Activate => ConnectStep::Record,
            ConnectStep::Record => ConnectStep::Connected,
            ConnectStep::Connected => ConnectStep::Connected,
            ConnectStep::Failed { message } => ConnectStep::Failed { message },
        }
    }
}

/// Whether a step can be reached from the first one.
pub open spec fn on_the_way(step: ConnectView) -> bool {
    &&& step.wf()
    &&& step matches ConnectView::Wait { attempt, millis } ==> attempt
        < LIVE_SYNC_CONNECT_MAX_ATTEMPTS && millis == LIVE_SYNC_RETRY_BASE_MS * attempt
}

/// Connecting always comes to an end, connected or failed, whatever the cloud replies: no more
/// than so many steps are taken.
pub proof fn connecting_ends(replies: Seq<ReplyView>)
    requires
        replies.len() >= (ConnectView::Connect { attempt: 1 }).left(),
    ensures
        connect_after(ConnectView::Connect { attempt: 1 }, replies).over(),
{
    steps_run_out(ConnectView::Connect { attempt: 1 }, replies);
}

proof fn steps_run_out(step: ConnectView, replies: Seq<ReplyView>)
    requires
        on_the_way(step),
        replies.len() >= step.left(),
    ensures
        connect_after(step, replies).over(),
    decreases replies.len(),
{
    if replies.len() > 0 {
        let next = connect_next(step, replies[0]);
        assert(step.over() ==> next == step);
        assert(!step.over() ==> next.left() < step.left());
        steps_run_out(next, replies.drop_first());
    }
}

/// A connection fails only at the last attempt: each attempt before it that fails is followed by
/// another.
pub proof fn only_the_last_attempt_fails(step: ConnectView, reply: ReplyView)
    requires
        on_the_way(step),
        !step.over(),
        connect_next(step, reply) is Failed,
    ensures
        step.attempt() == Some(LIVE_SYNC_CONNECT_MAX_ATTEMPTS as int),
{
}

/// Where the cloud does what it is asked, the first attempt connects.
pub proof fn a_willing_cloud_connects(replies: Seq<ReplyView>)
    requires
        replies.len() == 5,
        forall|i: int| 0 <= i < replies.len() ==> replies[i] is Done,
    ensures
        connect_after(ConnectView::Connect { attempt: 1 }, replies) is Connected,
{
    reveal_with_fuel(connect_after, 6);
}

/// What is to be done next to write an insight.
#[derive(Debug)]
pub enum UpsertStep {
    /// Write it, for the `attempt`th time.
    Write { attempt: u64 },
    /// Wait so many milliseconds before the next attempt.
    Wait { attempt: u64, millis: u64 },
    /// Nothing more: written.
    Written,
    /// Nothing more: refused.
    Refused { error: String },
    /// Nothing more: it took too long each time.
    TimedOut,
}

/// The model of a step to write an insight.
pub enum UpsertView {
    Write { attempt: int },
    Wait { attempt: int, millis: int },
    Written,
    Refused { error: Seq<char> },
    TimedOut,
}

impl View for UpsertStep {
    type V = UpsertView;

    open spec fn view(&self) -> UpsertView {
        match self {
            UpsertStep::Write { attempt } => UpsertView::Write { attempt: *attempt as int },
            UpsertStep::Wait { attempt, millis } => UpsertView::Wait {
                attempt: *attempt as int,
                millis: *millis as int,
            },
            UpsertStep::Written => UpsertView::Written,
            UpsertStep::Refused { error } => UpsertView::Refused { error: error@ },
            UpsertStep::TimedOut => UpsertView::TimedOut,
        }
    }
}

impl UpsertView {
    /// Whether the attempt is one of those that are made.
    pub open spec fn wf(self) -> bool {
        match self {
            UpsertView::Write { attempt } => 1 <= attempt <= UPSERT_MAX_ATTEMPTS,
            UpsertView::Wait { attempt, .. } => 1 <= attempt < UPSERT_MAX_ATTEMPTS,
            _ => true,
        }
    }

    /// Whether nothing is left to be done.
    pub open spec fn over(self) -> bool {
        !(self is Write || self is Wait)
    }

    /// A bound of the steps that are still to come.
    pub open spec fn left(self) -> int {
        match self {
            UpsertView::Write { attempt } => 2 * (UPSERT_MAX_ATTEMPTS - attempt) + 2,
            UpsertView::Wait { attempt, .. } => 2 * (UPSERT_MAX_ATTEMPTS - attempt) + 1,
            _ => 0,
        }
    }
}

/// The step after `step`, when `reply` came of it. A write that took too long is tried again, as
/// is one that failed for a transient error.
pub open spec fn upsert_next(step: UpsertView, reply: ReplyView) -> UpsertView {
    match step {
        UpsertView::Write { attempt } => {
            let again = UpsertView::Wait { attempt, millis: UPSERT_RETRY_BASE_MS * attempt };
            match reply {
                ReplyView::Done => UpsertView::Written,
                ReplyView::Refused(error) => if attempt < UPSERT_MAX_ATTEMPTS && transient(error) {
                    again
                } else {
                    UpsertView::Refused { error }
                },
                ReplyView::TimedOut => if attempt < UPSERT_MAX_ATTEMPTS {
                    again
                } else {
                    UpsertView::TimedOut
                },
            }
        },
        UpsertView::Wait { attempt, .. } => UpsertView::Write { attempt: attempt + 1 },
        over => over,
    }
}

impl UpsertStep {
    /// The first step: to write it.
    pub fn start() -> (r: UpsertStep)
        ensures
            r@ == (UpsertView::Write { attempt: 1 }),
            r@.wf(),
    {
        UpsertStep::Write { attempt: 1 }
    }

    /// The step after this one, when `reply` came of it.
    pub fn next(self, reply: Reply) -> (r: UpsertStep)
        requires
            self@.wf(),
        ensures
            r@ == upsert_next(self@, reply@),
            r@.wf(),
            !self@.over() ==> r@.left() < self@.left(),
    {
        match self {
            UpsertStep::Write { attempt } => match reply {
                Reply::Done => UpsertStep::Written,
                Reply::Refused(error) => {
                    if attempt < UPSERT_MAX_ATTEMPTS && is_transient_surreal_error(
                        error.as_str(),
                    ) {
                        UpsertStep::Wait { attempt, millis: UPSERT_RETRY_BASE_MS * attempt }
                    } else {
                        UpsertStep::Refused { error }
                    }
                },
                Reply::TimedOut => {
                    if attempt < UPSERT_MAX_ATTEMPTS {
                        UpsertStep::Wait { attempt, millis: UPSERT_RETRY_BASE_MS * attempt }
                    } else {
                        UpsertStep::TimedOut
                    }
                },
            },
            UpsertStep::Wait { attempt, .. } => UpsertStep::Write { attempt: attempt + 1 },
            over => over,
        }
    }
}

/// Whether the cloud and its stream of actions are at hand.
#[derive(Clone, Copy, Debug, PartialEq, Eq, Structural)]
pub struct Link {
    pub connected: bool,
    pub actions: bool,
}

/// What came of connecting anew: the connection, with the stream of actions or without it, an
/// error, or nothing in time.
#[derive(Debug)]
pub enum Reconnect {
    Connected { actions: bool },
    Refused { error: String },
    TimedOut,
}

/// The link after connecting anew, and the error where there is none.
pub fn reconnected(outcome: Reconnect, strategy_id: &str) -> (r: (Link, Result<(), String>))
    ensures
        match outcome {
            Reconnect::Connected { actions } => r.0 == (Link { connected: true, actions }) && r.1
                is Ok,
            Reconnect::Refused { error } => r.0 == (Link { connected: false, actions: false })
                && r.1 == Err::<(), String>(error),
            Reconnect::TimedOut => {
                &&& r.0 == (Link { connected: false, actions: false })
                &&& r.1 matches Err(message)
                &&& message@ == after_secs(
                    "AQE live sync reconnect timed out for strategy "@ + strategy_id@ + " after "@,
                    LIVE_SYNC_RECONNECT_TIMEOUT_SECS,
                )
            },
        },
{
    match outcome {
        Reconnect::Connected { actions } => (Link { connected: true, actions }, Ok(())),
        Reconnect::Refused { error } => (Link { connected: false, actions: false }, Err(error)),
        Reconnect::TimedOut => {
            let mut message = "AQE live sync reconnect timed out for strategy ".to_owned();
            message.append(strategy_id);
            message.append(" after ");
            let message = with_secs(message.as_str(), LIVE_SYNC_RECONNECT_TIMEOUT_SECS);
            (Link { connected: false, actions: false }, Err(message))
        },
    }
}

/// Something that waits to be written to the cloud.
#[derive(Debug)]
pub enum PendingAqsSyncOp {
    StrategyStarted {
        universe: Vec<StrategyUniverseAssetRecord>,
        starting_account: Option<Account>,
    },
    AccountState { account: Account, captured_at: UtcTime },
    StrategyEvent(StrategyEventRecord),
    LiveMetrics(StrategyLiveMetricsRecord),
}

/// What waits to be written, and how much was dropped because too much waited.
#[derive(Debug)]
pub struct PendingOps {
    pub ops: VecDeque<PendingAqsSyncOp>,
    pub dropped: u64,
}

/// What became of an operation that was taken out of the queue.
#[derive(Debug)]
pub enum Flushed {
    /// It was written, or dropped for an error that stays: go on with the next.
    GoOn,
    /// It waits again, behind the others, for an error that may go away: stop.
    Stop { error: String },
}

/// Whether `to` is `from` with an operation put behind those that wait. Where too many wait, the
/// oldest is dropped and counted.
pub open spec fn queued(from: PendingOps, to: PendingOps, op: PendingAqsSyncOp) -> bool {
    &&& to.ops@ == pushed(from.ops@, MAX_PENDING_AQS_SYNC_OPS as int, op)
    &&& to.dropped == (if from.ops@.len() >= MAX_PENDING_AQS_SYNC_OPS {
        from.dropped.wrapping_add(1)
    } else {
        from.dropped
    })
}

impl PendingOps {
    /// Nothing waits.
    pub fn new() -> (r: PendingOps)
        ensures
            r.ops@ == Seq::<PendingAqsSyncOp>::empty(),
            r.dropped == 0,
    {
        PendingOps { ops: VecDeque::new(), dropped: 0 }
    }

    /// Puts an operation behind those that wait. Where too many wait, the oldest is dropped.
    pub fn enqueue_pending_aqs_sync_op(&mut self, op: PendingAqsSyncOp)
        ensures
            queued(*old(self), *final(self), op),
    {
        let ghost before = self.ops@;
        if self.ops.len() >= MAX_PENDING_AQS_SYNC_OPS {
            let _ = self.ops.pop_front();
            self.dropped = self.dropped.wrapping_add(1);
        }
        self.ops.push_back(op);
        proof {
            if before.len() >= MAX_PENDING_AQS_SYNC_OPS {
                assert(before.subrange(1, before.len() as int) =~= before.drop_first());
            }
            assert(self.ops@ =~= pushed(before, MAX_PENDING_AQS_SYNC_OPS as int, op));
        }
    }

    /// Takes out the operation that waited longest.
    pub fn next_op(&mut self) -> (r: Option<PendingAqsSyncOp>)
        ensures
            final(self).dropped == old(self).dropped,
            match r {
                Some(op) => {
                    &&& old(self).ops@.len() > 0
                    &&& op == old(self).ops@[0]
                    &&& final(self).ops@ == old(self).ops@.drop_first()
                },
                None => old(self).ops@.len() == 0 && final(self).ops@ == old(self).ops@,
            },
    {
        let ghost before = self.ops@;
        let op = self.ops.pop_front();
        proof {
            if before.len() > 0 {
                assert(self.ops@ =~= before.drop_first());
            }
        }
        op
    }

    /// What becomes of an operation that was taken out, when `reply` came of it.
    pub fn settle_op(&mut self, op: PendingAqsSyncOp, reply: Result<(), String>) -> (r: Flushed)
        ensures
            match reply {
                Err(error) if transient(error@) => {
                    &&& r == (Flushed::Stop { error })
                    &&& queued(*old(self), *final(self), op)
                },
                _ => r == Flushed::GoOn && *final(self) == *old(self),
            },
    {
        match reply {
            Err(error) => {
                if is_transient_surreal_error(error.as_str()) {
                    self.enqueue_pending_aqs_sync_op(op);
                    Flushed::Stop { error }
                } else {
                    Flushed::GoOn
                }
            },
            Ok(()) => Flushed::GoOn,
        }
    }
}

/// What is left of a queue when its operations are written one after the other and `replies` come
/// of them, an error or none: up to the first transient error, which puts its operation behind the
/// others.
pub open spec fn flushed_to<T>(
    queue: Seq<T>,
    capacity: int,
    replies: Seq<Option<Seq<char>>>,
) -> Seq<T>
    decreases replies.len(),
{
    if queue.len() == 0 || replies.len() == 0 {
        queue
    } else {
        match replies[0] {
            Some(error) if transient(error) => pushed(
                queue.drop_first(),
                capacity,
                queue[0],
            ),
            _ => flushed_to(queue.drop_first(), capacity, replies.drop_first()),
        }
    }
}

/// An operation that meets a transient error is not lost: it waits again, behind the others, and
/// as many operations wait as before.
pub proof fn transient_errors_lose_nothing<T>(queue: Seq<T>, capacity: int, error: Seq<char>)
    requires
        0 < queue.len() <= capacity,
        transient(error),
    ensures
        flushed_to(queue, capacity, seq![Some(error)]) == queue.drop_first().push(
            queue[0],
        ),
        flushed_to(queue, capacity, seq![Some(error)]).to_multiset()
            == queue.to_multiset(),
{
    broadcast use vstd::seq_lib::group_to_multiset_ensures;

    let left = flushed_to(queue, capacity, seq![Some(error)]);
    assert(left == queue.drop_first().push(queue[0]));
    assert(queue =~= seq![queue[0]] + queue.drop_first());
    vstd::seq_lib::lemma_multiset_commutative(seq![queue[0]], queue.drop_first());
    assert(queue.drop_first().push(queue[0]) =~= queue.drop_first() + seq![queue[0]]);
    vstd::seq_lib::lemma_multiset_commutative(queue.drop_first(), seq![queue[0]]);
}

/// Where every operation is written, none is left.
pub proof fn a_flush_empties_the_queue<T>(
    queue: Seq<T>,
    capacity: int,
    replies: Seq<Option<Seq<char>>>,
)
    requires
        replies.len() == queue.len(),
        forall|i: int| 0 <= i < replies.len() ==> replies[i] is None,
    ensures
        flushed_to(queue, capacity, replies).len() == 0,
    decreases queue.len(),
{
    if queue.len() > 0 {
        a_flush_empties_the_queue(queue.drop_first(), capacity, replies.drop_first());
    }
}

/// Connecting goes from the connection over signing in to the database, and then the session is made
/// active, the connection written down, and the run is connected, whatever comes of these two.
pub proof fn connecting_goes_step_by_step(attempt: int, reply: ReplyView)
    ensures
        connect_next(ConnectView::Connect { attempt }, ReplyView::Done) == (ConnectView::SignIn {
            attempt,
        }),
        connect_next(ConnectView::SignIn { attempt }, ReplyView::Done) == (ConnectView::Select {
            attempt,
        }),
        connect_next(ConnectView::Select { attempt }, ReplyView::Done) is Activate,
        connect_next(ConnectView::Activate, reply) is Record,
        connect_next(ConnectView::Record, reply) is Connected,
        connect_next(ConnectView::Connected, reply) is Connected,
{
}

/// An attempt that is refused or takes too long is followed by a pause, half a second longer each time,
/// and the next attempt, which begins from the start; the third one fails for good, and says why.
pub proof fn connecting_is_tried_three_times(step: ConnectView, reply: ReplyView)
    requires
        step is Connect || step is SignIn || step is Select,
        step.attempt() matches Some(n) && 1 <= n <= 3,
        !(reply is Done),
    ensures
        ({
            let n = step.attempt()->Some_0;
            let next = connect_next(step, reply);
            &&& n < 3 ==> next == (ConnectView::Wait { attempt: n, millis: 500 * n })
            &&& n < 3 ==> connect_next(next, reply) == (ConnectView::Connect { attempt: n + 1 })
            &&& n == 3 ==> next is Failed && connect_next(next, reply) == next
            &&& n == 3 && reply is Refused ==> exists|before: Seq<char>|
                next->message == #[trigger] (before + reply->Refused_0)
        }),
{
    if step.attempt() == Some(3int) && reply is Refused {
        let before = match step {
            ConnectView::Connect { .. } => "Failed to connect to AQS Cloud: "@,
            ConnectView::SignIn { .. } => "Failed to authenticate AQS Cloud live sync: "@,
            _ => "Failed to select AQS database for live sync: "@,
        };
        assert(connect_next(step, reply)->message == before + reply->Refused_0);
    }
}

/// What is written is tried three times while the trouble may pass, with longer and longer pauses; an
/// error that stays is told at once, and so is what happened the last time.
pub proof fn writing_is_tried_three_times(attempt: int, reply: ReplyView)
    requires
        1 <= attempt <= 3,
    ensures
        ({
            let next = upsert_next(UpsertView::Write { attempt }, reply);
            let passes = reply is TimedOut || (reply is Refused && transient(reply->Refused_0));
            &&& reply is Done ==> next is Written
            &&& !(reply is Done) && passes && attempt < 3 ==> next == (UpsertView::Wait {
                attempt,
                millis: 150 * attempt,
            }) && upsert_next(next, reply) == (UpsertView::Write { attempt: attempt + 1 })
            &&& reply is Refused && (!passes || attempt == 3) ==> next == (UpsertView::Refused {
                error: reply->Refused_0,
            })
            &&& reply is TimedOut && attempt == 3 ==> next is TimedOut
        }),
{
}

proof fn word_is_held(before: Seq<char>, word: Seq<char>, after: Seq<char>)
    ensures
        holds(before + word + after, word),
{
    let all = before + word + after;
    assert(all.subrange(before.len() as int, before.len() as int + word.len() as int) =~= word);
    assert(stands_at(all, word, before.len() as int));
}

/// An error may pass whose text, in small letters, speaks of a connection that was reset or closed, of
/// a broken pipe, of a timeout, of transport, or of a service that is not available.
pub proof fn connection_trouble_passes(error: Seq<char>, before: Seq<char>, after: Seq<char>)
    ensures
        lowercase(error) == before + "connection reset"@ + after ==> transient(error),
        lowercase(error) == before + "connection closed"@ + after ==> transient(error),
        lowercase(error) == before + "broken pipe"@ + after ==> transient(error),
        lowercase(error) == before + "timed out"@ + after ==> transient(error),
        lowercase(error) == before + "timeout"@ + after ==> transient(error),
        lowercase(error) == before + "transport"@ + after ==> transient(error),
        lowercase(error) == before + "503"@ + after ==> transient(error),
        lowercase(error) == before + "service unavailable"@ + after ==> transient(error),
        lowercase(error) == before + "temporarily unavailable"@ + after ==> transient(error),
        lowercase(error) == before + "websocket error"@ + after ==> transient(error),
        lowercase(error) == before + "http error"@ + after ==> transient(error),
        lowercase(error).len() == 0 ==> !transient(error),
{
    word_is_held(before, "connection reset"@, after);
    word_is_held(before, "connection closed"@, after);
    word_is_held(before, "broken pipe"@, after);
    word_is_held(before, "timed out"@, after);
    word_is_held(before, "timeout"@, after);
    word_is_held(before, "transport"@, after);
    word_is_held(before, "503"@, after);
    word_is_held(before, "service unavailable"@, after);
    word_is_held(before, "temporarily unavailable"@, after);
    word_is_held(before, "websocket error"@, after);
    word_is_held(before, "http error"@, after);
    reveal_strlit("connection reset");
    reveal_strlit("connection closed");
    reveal_strlit("broken pipe");
    reveal_strlit("timed out");
    reveal_strlit("timeout");
    reveal_strlit("transport");
    reveal_strlit("503");
    reveal_strlit("service unavailable");
    reveal_strlit("temporarily unavailable");
    reveal_strlit("websocket error");
    reveal_strlit("http error");
}

/// What is to be written waits behind all others. While fewer than 512 wait none is dropped; then the
/// oldest is, and that is counted.
pub proof fn operations_wait_in_line(from: PendingOps, to: PendingOps, op: PendingAqsSyncOp)
    requires
        queued(from, to, op),
    ensures
        to.ops@.len() > 0,
        to.ops@.last() == op,
        from.ops@.len() < 512 ==> to.ops@.drop_last() == from.ops@ && to.dropped == from.dropped,
        from.ops@.len() >= 512 ==> to.ops@.len() == from.ops@.len() && to.ops@.drop_last()
            == from.ops@.drop_first(),
        from.ops@.len() >= 512 && from.dropped < u64::MAX ==> to.dropped == from.dropped + 1,
{
    if from.ops@.len() < 512 {
        assert(to.ops@.drop_last() =~= from.ops@);
    } else {
        assert(to.ops@.drop_last() =~= from.ops@.drop_first());
    }
}

/// A connection made anew is up, with its actions or without them; one that could not be made is down,
/// and the reason is told.
pub proof fn reconnecting_tells_how_it_went(
    outcome: Reconnect,
    strategy_id: &str,
    r: (Link, Result<(), String>),
)
    requires
        call_ensures(reconnected, (outcome, strategy_id), r),
    ensures
        outcome is Connected <==> r.1 is Ok,
        outcome is Connected <==> r.0.connected,
        outcome matches Reconnect::Connected { actions } ==> r.0.actions == actions,
        !(outcome is Connected) ==> !r.0.actions,
        outcome matches Reconnect::Refused { error } ==> r.1 == Err::<(), String>(error),
{
}

/// Only an error that speaks of the connection passes.
pub proof fn other_errors_do_not_pass(error: Seq<char>)
    requires
        transient(error),
    ensures
        holds(lowercase(error), "connection reset"@) || holds(
            lowercase(error),
            "connection closed"@,
        ) || holds(lowercase(error), "broken pipe"@) || holds(lowercase(error), "timed out"@)
            || holds(lowercase(error), "timeout"@) || holds(lowercase(error), "transport"@)
            || holds(lowercase(error), "503"@) || holds(lowercase(error), "service unavailable"@)
            || holds(lowercase(error), "temporarily unavailable"@) || holds(
            lowercase(error),
            "websocket error"@,
        ) || holds(lowercase(error), "http error"@),
{
}

/// The operation that waited longest is written first. One that fails because the connection is
/// lost waits again, behind the others, and the writing stops; any other answer ends it.
pub proof fn operations_are_written_in_turn()
    ensures
        forall|p: &mut PendingOps, r: Option<PendingAqsSyncOp>| #[trigger]
            call_ensures(PendingOps::next_op, (p,), r) ==> {
                &&& final(p).dropped == p.dropped
                &&& p.ops@.len() == 0 ==> r is None && final(p).ops@ == p.ops@
                &&& p.ops@.len() > 0 ==> r == Some(p.ops@[0]) && final(p).ops@ == p.ops@.skip(1)
            },
        forall|p: &mut PendingOps, op: PendingAqsSyncOp, reply: Result<(), String>, r: Flushed|
            #[trigger]
            call_ensures(PendingOps::settle_op, (p, op, reply), r) ==> {
                let passes = reply is Err && transient(reply->Err_0@);
                &&& !passes ==> r == Flushed::GoOn && *final(p) == *p
                &&& passes ==> r == Flushed::Stop { error: reply->Err_0 }
                &&& passes && p.ops@.len() < 512 ==> final(p).ops@ == p.ops@.push(op)
                    && final(p).dropped == p.dropped
                &&& passes && p.ops@.len() >= 512 ==> final(p).ops@ == p.ops@.skip(1).push(op)
            },
        forall|p: &mut PendingOps, op: PendingAqsSyncOp, r: ()| #[trigger]
            call_ensures(PendingOps::enqueue_pending_aqs_sync_op, (p, op), r) ==> {
                &&& p.ops@.len() < 512 ==> final(p).ops@ == p.ops@.push(op) && final(p).dropped
                    == p.dropped
                &&& p.ops@.len() >= 512 ==> final(p).ops@ == p.ops@.skip(1).push(op)
                &&& p.ops@.len() >= 512 && p.dropped < u64::MAX ==> final(p).dropped == p.dropped
                    + 1
            },
{
    assert forall|s: Seq<PendingAqsSyncOp>| s.len() > 0 implies #[trigger] s.drop_first()
        == s.skip(1) by {
        assert(s.drop_first() =~= s.skip(1));
    }
}

/// Connecting and writing begin with their first attempt.
pub proof fn attempts_begin_with_the_first(c: ConnectStep, u: UpsertStep)
    requires
        call_ensures(ConnectStep::start, (), c),
        call_ensures(UpsertStep::start, (), u),
    ensures
        c@ is Connect && c@->Connect_attempt == 1,
        u@ is Write && u@->Write_attempt == 1,
{
}

} // verus!
