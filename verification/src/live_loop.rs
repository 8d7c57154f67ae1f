//! The loop of a live run: what it does when, and when it stops.
use vstd::prelude::*;
use vstd::string::StringExecFns;

use crate::aqs_types::{action_id, action_id_from_value};
use crate::cloud::{Link, LIVE_SYNC_CONNECT_MAX_ATTEMPTS};
use crate::json::{text_at, text_of, Json, JsonView};
use crate::lifecycle::{
    call_at, calls_come_in_order, prepared, preparation_begun, preparation_next, Preparation,
    PrepareStep,
};
use crate::live_sync::LIVE_SYNC_MAX_INSIGHTS_PER_FLUSH;
use crate::text::{decimal, decimal_text, option_view, text_eq};
use crate::types::StrategyStatus;

verus! {

/// The milliseconds after which what waits is written to the cloud.
pub const LIVE_SYNC_FLUSH_MS: u64 = 500;

/// The seconds after which the cloud is reconciled.
pub const LIVE_SYNC_RECONCILE_SECS: u64 = 900;

/// The seconds after which the state of the account is written to the cloud.
pub const LIVE_ACCOUNT_SYNC_SECS: u64 = 5;

/// The seconds after which how a local run does is written.
pub const LOCAL_LIVE_METRICS_WRITE_SECS: u64 = 5;

/// The seconds after which the insights are worked on.
pub const PIPELINE_SECS: u64 = 5;

/// The milliseconds after which the state of a run is shown anew.
pub const RUNTIME_PUBLISH_MS: u64 = 500;

/// How a run stands with the cloud.
#[derive(Clone, Copy, Debug, PartialEq, Eq, Structural, Hash)]
pub enum SyncStatus {
    NotConfigured,
    Connecting,
    Connected,
    Reconnecting,
    Offline,
    Completed,
}

impl SyncStatus {
    /// How the status is shown.
    pub open spec fn spec_label(self) -> Seq<char> {
        match self {
            SyncStatus::NotConfigured => "not configured"@,
            SyncStatus::Connecting => "connecting"@,
            SyncStatus::Connected => "connected"@,
            SyncStatus::Reconnecting => "reconnecting"@,
            SyncStatus::Offline => "offline"@,
            SyncStatus::Completed => "completed"@,
        }
    }

    /// How the status is shown.
    pub fn label(&self) -> (r: &'static str)
        ensures
            r@ == self.spec_label(),
    {
        match self {
            SyncStatus::NotConfigured => "not configured",
            SyncStatus::Connecting => "connecting",
            SyncStatus::Connected => "connected",
            SyncStatus::Reconnecting => "reconnecting",
            SyncStatus::Offline => "offline",
            SyncStatus::Completed => "completed",
        }
    }
}

/// What is done before a live run loops.
#[derive(Clone, Copy, Debug, PartialEq, Eq, Structural)]
pub enum SetupStep {
    ConnectCloud,
    ConfigureSession,
    ConnectBroker,
    OpenActions,
    StartStrategy,
    LoadUniverse,
    /// The models and the strategy are started and set up, call by call.
    Prepare { calls: Preparation },
    /// The funds are noted, and the cloud is told that the run starts.
    NoteStart,
    OpenLocalRun,
    SubscribeTrades,
    SubscribeData,
    Running,
    /// The strategy is handed back, because the run cannot begin.
    HandBack,
    Failed,
}

/// What came of a step.
#[derive(Clone, Copy, Debug, PartialEq, Eq, Structural)]
pub enum SetupReply {
    /// It was done.
    Done,
    /// It could not be done.
    Failed,
    /// So many assets can be traded, and the strategy has so many models.
    Loaded { alphas: usize, assets: usize },
}

/// How far a live run is set up, and whether it is written to the cloud: a run that could not be
/// connected goes on as a local one.
#[derive(Clone, Copy, Debug, PartialEq, Eq, Structural)]
pub struct LiveSetup {
    pub step: SetupStep,
    pub cloud: bool,
}

/// How a run is set up that is to be written to the cloud, or not.
pub open spec fn setup_begun(cloud: bool) -> LiveSetup {
    LiveSetup {
        step: if cloud {
            SetupStep::ConnectCloud
        } else {
            SetupStep::ConfigureSession
        },
        cloud,
    }
}

/// Whether a step asks something of the cloud before the run begins.
pub open spec fn asks_cloud(step: SetupStep) -> bool {
    step == SetupStep::ConnectCloud || step == SetupStep::OpenActions
}

/// The step in which models and strategy are set up, or the one behind it.
pub open spec fn setting_up(calls: Preparation) -> SetupStep {
    if calls.step is Done {
        SetupStep::NoteStart
    } else {
        SetupStep::Prepare { calls }
    }
}

/// How a run is set up after `reply` came of its step. Where the cloud cannot be connected, the run
/// goes on as a local one; without the stream of actions it goes on too; with anything else that
/// fails, or nothing to trade, it does not begin, and the strategy is handed back.
pub open spec fn setup_after(setup: LiveSetup, reply: SetupReply) -> LiveSetup {
    let at = |step: SetupStep| LiveSetup { step, ..setup };
    match (setup.step, reply) {
        (SetupStep::Running, _) => setup,
        (SetupStep::Failed, _) => setup,
        (SetupStep::HandBack, _) => at(SetupStep::Failed),
        (SetupStep::ConnectCloud, _) => LiveSetup {
            step: SetupStep::ConfigureSession,
            cloud: setup.cloud && reply == SetupReply::Done,
        },
        (SetupStep::OpenActions, _) => at(SetupStep::StartStrategy),
        (_, SetupReply::Failed) => at(SetupStep::HandBack),
        (SetupStep::ConfigureSession, _) => at(SetupStep::ConnectBroker),
        (SetupStep::ConnectBroker, _) => at(
            if setup.cloud {
                SetupStep::OpenActions
            } else {
                SetupStep::StartStrategy
            },
        ),
        (SetupStep::StartStrategy, _) => at(SetupStep::LoadUniverse),
        (SetupStep::LoadUniverse, SetupReply::Loaded { alphas, assets }) => if assets == 0 {
            at(SetupStep::HandBack)
        } else {
            at(setting_up(preparation_begun(alphas, assets)))
        },
        (SetupStep::LoadUniverse, SetupReply::Done) => setup,
        (SetupStep::Prepare { calls }, _) => at(setting_up(preparation_next(calls))),
        (SetupStep::NoteStart, _) => at(
            if setup.cloud {
                SetupStep::SubscribeTrades
            } else {
                SetupStep::OpenLocalRun
            },
        ),
        (SetupStep::OpenLocalRun, _) => at(SetupStep::SubscribeTrades),
        (SetupStep::SubscribeTrades, _) => at(SetupStep::SubscribeData),
        (SetupStep::SubscribeData, _) => at(SetupStep::Running),
    }
}

impl LiveSetup {
    /// Whether the calls of the step are there to be made.
    pub open spec fn wf(self) -> bool {
        self.step matches SetupStep::Prepare { calls } ==> calls.wf()
    }

    /// How a run is set up that is to be written to the cloud, or not.
    pub fn begin(cloud: bool) -> (r: LiveSetup)
        ensures
            r == setup_begun(cloud),
            r.wf(),
    {
        let step = if cloud {
            SetupStep::ConnectCloud
        } else {
            SetupStep::ConfigureSession
        };
        LiveSetup { step, cloud }
    }

    fn with_calls(calls: Preparation) -> (r: SetupStep)
        ensures
            r == setting_up(calls),
    {
        if calls.step == PrepareStep::Done {
            SetupStep::NoteStart
        } else {
            SetupStep::Prepare { calls }
        }
    }

    /// What is done next, after `reply` came of the step.
    pub fn next(self, reply: SetupReply) -> (r: LiveSetup)
        requires
            self.wf(),
        ensures
            r == setup_after(self, reply),
            r.wf(),
    {
        let cloud = self.cloud;
        let step = match (self.step, reply) {
            (SetupStep::Running, _) => SetupStep::Running,
            (SetupStep::Failed, _) => SetupStep::Failed,
            (SetupStep::HandBack, _) => SetupStep::Failed,
            (SetupStep::ConnectCloud, _) => {
                return LiveSetup {
                    step: SetupStep::ConfigureSession,
                    cloud: cloud && reply == SetupReply::Done,
                };
            },
            (SetupStep::OpenActions, _) => SetupStep::StartStrategy,
            (_, SetupReply::Failed) => SetupStep::HandBack,
            (SetupStep::ConfigureSession, _) => SetupStep::ConnectBroker,
            (SetupStep::ConnectBroker, _) => if cloud {
                SetupStep::OpenActions
            } else {
                SetupStep::StartStrategy
            },
            (SetupStep::StartStrategy, _) => SetupStep::LoadUniverse,
            (SetupStep::LoadUniverse, SetupReply::Loaded { alphas, assets }) => if assets == 0 {
                SetupStep::HandBack
            } else {
                LiveSetup::with_calls(Preparation::begin(alphas, assets))
            },
            (SetupStep::LoadUniverse, SetupReply::Done) => SetupStep::LoadUniverse,
            (SetupStep::Prepare { calls }, _) => LiveSetup::with_calls(calls.next()),
            (SetupStep::NoteStart, _) => if cloud {
                SetupStep::SubscribeTrades
            } else {
                SetupStep::OpenLocalRun
            },
            (SetupStep::OpenLocalRun, _) => SetupStep::SubscribeTrades,
            (SetupStep::SubscribeTrades, _) => SetupStep::SubscribeData,
            (SetupStep::SubscribeData, _) => SetupStep::Running,
        };
        LiveSetup { step, cloud }
    }
}

/// What a run meets that is set up: whether the cloud can be connected and its actions opened, and
/// how many models and assets there are.
pub struct Surroundings {
    pub connects: bool,
    pub opens: bool,
    pub alphas: usize,
    pub assets: usize,
}

/// How a run is set up after so many steps, where all that is not asked of the cloud was done.
pub open spec fn setup_steps(cloud: bool, met: Surroundings, n: nat) -> LiveSetup
    decreases n,
{
    if n == 0 {
        setup_begun(cloud)
    } else {
        let before = setup_steps(cloud, met, (n - 1) as nat);
        let of = |done: bool|
            if done {
                SetupReply::Done
            } else {
                SetupReply::Failed
            };
        setup_after(
            before,
            match before.step {
                SetupStep::ConnectCloud => of(met.connects),
                SetupStep::OpenActions => of(met.opens),
                SetupStep::LoadUniverse => SetupReply::Loaded {
                    alphas: met.alphas,
                    assets: met.assets,
                },
                _ => SetupReply::Done,
            },
        )
    }
}

/// The steps before the strategy starts.
pub open spec fn steps_before_start(cloud: bool, met: Surroundings) -> int {
    if !cloud {
        2
    } else if met.connects {
        4
    } else {
        3
    }
}

/// The calls that set models and strategy up.
pub open spec fn preparing_calls(met: Surroundings) -> int {
    met.alphas + 3 * met.assets + met.assets * met.alphas
}

/// The step that has `n` steps before it: the cloud, where it is used, the session and the broker;
/// the strategy starts, says what it trades, and is set up with its models, call by call; what starts
/// is noted, in the cloud or in a local run; and then come trades and data.
pub open spec fn setup_at(cloud: bool, met: Surroundings, n: int) -> SetupStep {
    let start = steps_before_start(cloud, met);
    let calls = preparing_calls(met);
    let synced = cloud && met.connects;
    if n < start {
        let k = if cloud {
            n
        } else {
            n + 1
        };
        if k == 0 {
            SetupStep::ConnectCloud
        } else if k == 1 {
            SetupStep::ConfigureSession
        } else if k == 2 {
            SetupStep::ConnectBroker
        } else {
            SetupStep::OpenActions
        }
    } else if n == start {
        SetupStep::StartStrategy
    } else if n == start + 1 {
        SetupStep::LoadUniverse
    } else if n < start + 2 + calls {
        SetupStep::Prepare {
            calls: Preparation {
                alphas: met.alphas,
                assets: met.assets,
                step: call_at(met.alphas, met.assets, n - start - 2),
            },
        }
    } else {
        let k = n - start - 2 - calls + (if synced {
            1int
        } else {
            0
        });
        if n == start + 2 + calls {
            SetupStep::NoteStart
        } else if k == 1 {
            SetupStep::OpenLocalRun
        } else if k == 2 {
            SetupStep::SubscribeTrades
        } else if k == 3 {
            SetupStep::SubscribeData
        } else {
            SetupStep::Running
        }
    }
}

/// Where there is something to trade, a run is set up in this order, whatever the cloud does, and
/// comes to loop: one that could not be connected as a local run.
pub proof fn setups_come_in_order(cloud: bool, met: Surroundings, n: nat)
    requires
        met.assets > 0,
    ensures
        setup_steps(cloud, met, n).step == setup_at(cloud, met, n as int),
        setup_steps(cloud, met, n).cloud == (cloud && (n == 0 || met.connects)),
        preparing_calls(met) >= 3,
    decreases n,
{
    let calls = preparing_calls(met);
    assert(0 <= met.assets * met.alphas) by (nonlinear_arith)
        requires
            0 <= met.assets,
            0 <= met.alphas,
    ;
    if n > 0 {
        setups_come_in_order(cloud, met, (n - 1) as nat);
        let k = n - 2 - steps_before_start(cloud, met);
        if k >= 0 {
            calls_come_in_order(met.alphas, met.assets, k as nat);
            if k > 0 {
                calls_come_in_order(met.alphas, met.assets, (k - 1) as nat);
                assert(prepared(met.alphas, met.assets, k as nat) == preparation_next(
                    prepared(met.alphas, met.assets, (k - 1) as nat),
                ));
            }
        }
    }
}

/// A run without the cloud never asks anything of it while it is set up.
pub proof fn local_setup_needs_no_cloud(met: Surroundings, n: nat)
    requires
        met.assets > 0,
    ensures
        !asks_cloud(setup_steps(false, met, n).step),
{
    setups_come_in_order(false, met, n);
}

/// Whatever the cloud does, a run with something to trade is set up and comes to loop.
pub proof fn the_cloud_cannot_fail_a_setup(cloud: bool, met: Surroundings, n: nat)
    requires
        met.assets > 0,
    ensures
        setup_steps(cloud, met, n).step != SetupStep::Failed,
        setup_steps(cloud, met, n).step != SetupStep::HandBack,
        n >= 10 + preparing_calls(met) ==> setup_steps(cloud, met, n).step == SetupStep::Running,
{
    setups_come_in_order(cloud, met, n);
}

/// A run that cannot begin hands the strategy back before it fails.
pub proof fn failed_setups_hand_the_strategy_back(setup: LiveSetup, reply: SetupReply)
    requires
        setup.step != SetupStep::Failed,
        setup_after(setup, reply).step == SetupStep::Failed,
    ensures
        setup.step == SetupStep::HandBack,
{
}

/// What is done when it is time to work on the insights.
#[derive(Clone, Copy, Debug, PartialEq, Eq, Structural)]
pub enum TickCall {
    /// What lost its connection is connected anew.
    Reconnect,
    /// The strategy is asked about the active insight at `at`.
    Manage { at: usize },
    /// The insights run through the pipeline.
    Pipeline,
    /// Insights that are over are forgotten.
    Prune,
}

/// What is done, in order, when it is time to work on the insights, `active` of them. Those that are
/// over are forgotten here where no cloud is to hear of them.
pub open spec fn tick_order(active: nat, cloud: bool) -> Seq<TickCall> {
    seq![TickCall::Reconnect] + Seq::new(active, |i: int| TickCall::Manage { at: i as usize })
        + seq![TickCall::Pipeline] + (if cloud {
        Seq::empty()
    } else {
        seq![TickCall::Prune]
    })
}

/// What is done when it is time to work on the insights.
pub fn tick_calls(active: usize, cloud: bool) -> (r: Vec<TickCall>)
    ensures
        r@ == tick_order(active as nat, cloud),
{
    let mut calls: Vec<TickCall> = Vec::new();
    calls.push(TickCall::Reconnect);
    let mut at: usize = 0;
    while at < active
        invariant
            at <= active,
            calls@ == seq![TickCall::Reconnect] + Seq::new(
                at as nat,
                |i: int| TickCall::Manage { at: i as usize },
            ),
        decreases active - at,
    {
        calls.push(TickCall::Manage { at });
        at = at + 1;
        proof {
            assert(calls@ =~= seq![TickCall::Reconnect] + Seq::new(
                at as nat,
                |i: int| TickCall::Manage { at: i as usize },
            ));
        }
    }
    calls.push(TickCall::Pipeline);
    if !cloud {
        calls.push(TickCall::Prune);
    }
    proof {
        assert(calls@ =~= tick_order(active as nat, cloud));
    }
    calls
}

/// Which of its two clocks made the run turn to the cloud.
#[derive(Clone, Copy, Debug, PartialEq, Eq, Structural)]
pub enum SyncKind {
    /// To write what waits.
    Flush,
    /// To reconcile what the cloud holds with what the run holds.
    Reconcile,
}

/// What the run does at the moment.
#[derive(Clone, Copy, Debug, PartialEq, Eq, Structural)]
pub enum LivePhase {
    /// It waits for what happens next.
    Idle,
    /// It connects anew. Where it succeeds, everything is reconciled if `force`, and the run goes
    /// on with `resume`.
    Reconnect { force: bool, resume: Option<SyncKind> },
    /// It looks what waits to be written.
    Look { kind: SyncKind },
    /// It writes what waits.
    FlushOps { kind: SyncKind },
    /// It writes the insights.
    SyncInsights { kind: SyncKind },
    /// It reads the state of the account.
    ReadAccount,
    /// It writes the state of the account.
    WriteAccount,
    /// It writes how the run does.
    WriteMetrics,
}

/// Something that happens in a live run.
#[derive(Debug)]
pub enum LiveEvent {
    /// It is time to write what waits.
    SyncTick,
    /// It is time to reconcile.
    ReconcileTick,
    /// It is time to work on the insights. Says whether somebody at the terminal wants to stop.
    PipelineTick { stop_requested: bool },
    /// The cloud wants the run to stop, with the id of the action where it can be told.
    StopAction { id: Option<String> },
    /// The stream of actions broke.
    ActionsBroke,
    /// The process is interrupted.
    Interrupt,
    /// The run is connected again, with the stream of actions or without it.
    Reconnected { actions: bool },
    /// The run could not be connected again.
    NotReconnected,
    /// What waits to be written.
    Waiting { ops: bool, dirty: bool, metrics: bool, account_due: bool },
    /// What was to be written is written, or refused for good.
    Written,
    /// The insights are written. Says whether how the run does is to be written too.
    Synced { metrics: bool },
    /// The state of the account was read, or could not be.
    AccountRead { read: bool },
    /// The connection is lost.
    ConnectionLost,
}

/// The model of what happens.
pub enum LiveEventView {
    SyncTick,
    ReconcileTick,
    PipelineTick { stop_requested: bool },
    StopAction { id: Option<Seq<char>> },
    ActionsBroke,
    Interrupt,
    Reconnected { actions: bool },
    NotReconnected,
    Waiting { ops: bool, dirty: bool, metrics: bool, account_due: bool },
    Written,
    Synced { metrics: bool },
    AccountRead { read: bool },
    ConnectionLost,
}

impl View for LiveEvent {
    type V = LiveEventView;

    open spec fn view(&self) -> LiveEventView {
        match self {
            LiveEvent::SyncTick => LiveEventView::SyncTick,
            LiveEvent::ReconcileTick => LiveEventView::ReconcileTick,
            LiveEvent::PipelineTick { stop_requested } => LiveEventView::PipelineTick {
                stop_requested: *stop_requested,
            },
            LiveEvent::StopAction { id } => LiveEventView::StopAction { id: option_view(*id) },
            LiveEvent::ActionsBroke => LiveEventView::ActionsBroke,
            LiveEvent::Interrupt => LiveEventView::Interrupt,
            LiveEvent::Reconnected { actions } => LiveEventView::Reconnected { actions: *actions },
            LiveEvent::NotReconnected => LiveEventView::NotReconnected,
            LiveEvent::Waiting { ops, dirty, metrics, account_due } => LiveEventView::Waiting {
                ops: *ops,
                dirty: *dirty,
                metrics: *metrics,
                account_due: *account_due,
            },
            LiveEvent::Written => LiveEventView::Written,
            LiveEvent::Synced { metrics } => LiveEventView::Synced { metrics: *metrics },
            LiveEvent::AccountRead { read } => LiveEventView::AccountRead { read: *read },
            LiveEvent::ConnectionLost => LiveEventView::ConnectionLost,
        }
    }
}

/// A live run.
#[derive(Debug)]
pub struct LiveLoop {
    pub strategy_id: String,
    /// Whether the run is written to the cloud at all.
    pub cloud: bool,
    pub link: Link,
    pub status: StrategyStatus,
    pub sync: SyncStatus,
    /// Whether everything is to be reconciled the next time.
    pub full: bool,
    /// Whether the state of the account is to be written in this turn.
    pub account_due: bool,
    /// Whether how the run does is to be written in this turn.
    pub metrics_due: bool,
    /// Whether the run was told to shut down.
    pub shutdown: bool,
    /// The action of the cloud that stopped the run.
    pub stop_action: Option<String>,
    pub phase: LivePhase,
}

/// The model of a live run.
#[verifier::ext_equal]
pub struct LoopView {
    pub strategy_id: Seq<char>,
    pub cloud: bool,
    pub link: Link,
    pub status: StrategyStatus,
    pub sync: SyncStatus,
    pub full: bool,
    pub account_due: bool,
    pub metrics_due: bool,
    pub shutdown: bool,
    pub stop_action: Option<Seq<char>>,
    pub phase: LivePhase,
}

impl View for LiveLoop {
    type V = LoopView;

    open spec fn view(&self) -> LoopView {
        LoopView {
            strategy_id: self.strategy_id@,
            cloud: self.cloud,
            link: self.link,
            status: self.status,
            sync: self.sync,
            full: self.full,
            account_due: self.account_due,
            metrics_due: self.metrics_due,
            shutdown: self.shutdown,
            stop_action: option_view(self.stop_action),
            phase: self.phase,
        }
    }
}

/// What is told when the cloud could not be reached again: the run goes on without it.
pub open spec fn unavailable(strategy_id: Seq<char>, error: Seq<char>) -> Seq<char> {
    "AQS live sync unavailable for strategy "@ + strategy_id + " after "@ + decimal(
        LIVE_SYNC_CONNECT_MAX_ATTEMPTS as nat,
    ) + " attempt(s); live run goes on: "@ + error
}

/// What is told when the cloud could not be reached again.
pub fn unavailable_notice(strategy_id: &str, error: &str) -> (r: String)
    ensures
        r@ == unavailable(strategy_id@, error@),
{
    let mut s = "AQS live sync unavailable for strategy ".to_owned();
    s.append(strategy_id);
    s.append(" after ");
    s.append(decimal_text(LIVE_SYNC_CONNECT_MAX_ATTEMPTS).as_str());
    s.append(" attempt(s); live run goes on: ");
    s.append(error);
    s
}

impl LoopView {
    /// A run that begins to loop.
    pub open spec fn begun(strategy_id: Seq<char>, cloud: bool, link: Link) -> LoopView {
        LoopView {
            strategy_id,
            cloud,
            link,
            status: StrategyStatus::Running,
            sync: if cloud {
                SyncStatus::Connected
            } else {
                SyncStatus::NotConfigured
            },
            full: true,
            account_due: false,
            metrics_due: false,
            shutdown: false,
            stop_action: None,
            phase: LivePhase::Idle,
        }
    }

    /// Whether what the run does fits the state of its connection: it writes only while it is
    /// connected, and connects anew only where it uses the cloud.
    pub open spec fn wf(self) -> bool {
        &&& self.phase is Idle || self.cloud
        &&& self.phase is Idle || self.phase is Reconnect || self.link.connected
        &&& !self.cloud ==> !self.link.connected && !self.link.actions && self.sync
            == SyncStatus::NotConfigured
        &&& self.shutdown ==> self.status == StrategyStatus::Stopping
    }

    /// Connects anew.
    pub open spec fn reconnecting(self, force: bool, resume: Option<SyncKind>) -> LoopView {
        LoopView {
            sync: SyncStatus::Reconnecting,
            phase: LivePhase::Reconnect { force, resume },
            ..self
        }
    }

    /// Turns to the cloud, where the run uses it and does nothing else.
    pub open spec fn turned(self, kind: SyncKind) -> LoopView {
        if !self.cloud || !(self.phase is Idle) {
            self
        } else if !self.link.connected {
            self.reconnecting(true, Some(kind))
        } else {
            LoopView { phase: LivePhase::Look { kind }, ..self }
        }
    }

    /// Goes on once the account is dealt with.
    pub open spec fn past_account(self) -> LoopView {
        LoopView {
            phase: if self.metrics_due {
                LivePhase::WriteMetrics
            } else {
                LivePhase::Idle
            },
            ..self
        }
    }

    /// Stops.
    pub open spec fn stopping(self) -> LoopView {
        LoopView { status: StrategyStatus::Stopping, shutdown: true, ..self }
    }

    /// After `event`.
    #[verifier::opaque]
    pub open spec fn next(self, event: LiveEventView) -> LoopView {
        match event {
            LiveEventView::SyncTick => self.turned(SyncKind::Flush),
            LiveEventView::ReconcileTick => self.turned(SyncKind::Reconcile),
            LiveEventView::PipelineTick { stop_requested } => if stop_requested && self.status
                != StrategyStatus::Stopping {
                self.stopping()
            } else {
                self
            },
            LiveEventView::StopAction { id } => LoopView {
                stop_action: if self.cloud && self.link.connected && id is Some {
                    id
                } else {
                    self.stop_action
                },
                ..self.stopping()
            },
            LiveEventView::Interrupt => self.stopping(),
            LiveEventView::ActionsBroke => if self.cloud && self.phase is Idle {
                self.reconnecting(false, None)
            } else {
                self
            },
            LiveEventView::Reconnected { actions } => match self.phase {
                LivePhase::Reconnect { force, resume } => LoopView {
                    link: Link { connected: true, actions },
                    sync: SyncStatus::Connected,
                    full: self.full || force,
                    phase: match resume {
                        Some(kind) => LivePhase::Look { kind },
                        None => LivePhase::Idle,
                    },
                    ..self
                },
                _ => self,
            },
            LiveEventView::NotReconnected => match self.phase {
                LivePhase::Reconnect { .. } => LoopView {
                    link: Link { connected: false, actions: false },
                    sync: SyncStatus::Offline,
                    phase: LivePhase::Idle,
                    ..self
                },
                _ => self,
            },
            LiveEventView::Waiting { ops, dirty, metrics, account_due } => match self.phase {
                LivePhase::Look { kind } => {
                    let work = match kind {
                        SyncKind::Flush => ops || dirty || metrics || account_due,
                        SyncKind::Reconcile => self.full || ops || dirty,
                    };
                    LoopView {
                        account_due: work && kind == SyncKind::Flush && account_due,
                        phase: if work {
                            LivePhase::FlushOps { kind }
                        } else {
                            LivePhase::Idle
                        },
                        ..self
                    }
                },
                _ => self,
            },
            LiveEventView::Written => match self.phase {
                LivePhase::FlushOps { kind } => LoopView {
                    phase: LivePhase::SyncInsights { kind },
                    ..self
                },
                LivePhase::WriteAccount => self.past_account(),
                LivePhase::WriteMetrics => LoopView { phase: LivePhase::Idle, ..self },
                _ => self,
            },
            LiveEventView::Synced { metrics } => match self.phase {
                LivePhase::SyncInsights { kind: SyncKind::Flush } => {
                    let due = LoopView { metrics_due: metrics, ..self };
                    if self.account_due {
                        LoopView { phase: LivePhase::ReadAccount, ..due }
                    } else {
                        due.past_account()
                    }
                },
                LivePhase::SyncInsights { kind: SyncKind::Reconcile } => LoopView {
                    full: false,
                    phase: LivePhase::Idle,
                    ..self
                },
                _ => self,
            },
            LiveEventView::AccountRead { read } => match self.phase {
                LivePhase::ReadAccount => if read {
                    LoopView { metrics_due: true, phase: LivePhase::WriteAccount, ..self }
                } else {
                    self.past_account()
                },
                _ => self,
            },
            LiveEventView::ConnectionLost => match self.phase {
                LivePhase::FlushOps { .. } => self.reconnecting(true, None),
                LivePhase::SyncInsights { .. } => self.reconnecting(true, None),
                LivePhase::WriteAccount => self.reconnecting(false, None),
                LivePhase::WriteMetrics => self.reconnecting(true, None),
                _ => self,
            },
        }
    }

    /// After events that happened one after the other.
    pub open spec fn after(self, events: Seq<LiveEventView>) -> LoopView
        decreases events.len(),
    {
        if events.len() == 0 {
            self
        } else {
            self.after(events.drop_last()).next(events.last())
        }
    }
}

impl LiveLoop {
    /// A run that begins to loop.
    pub fn begin(strategy_id: String, cloud: bool, link: Link) -> (r: LiveLoop)
        requires
            !cloud ==> !link.connected && !link.actions,
        ensures
            r@ == LoopView::begun(strategy_id@, cloud, link),
            r@.wf(),
    {
        LiveLoop {
            strategy_id,
            cloud,
            link,
            status: StrategyStatus::Running,
            sync: if cloud {
                SyncStatus::Connected
            } else {
                SyncStatus::NotConfigured
            },
            full: true,
            account_due: false,
            metrics_due: false,
            shutdown: false,
            stop_action: None,
            phase: LivePhase::Idle,
        }
    }

    fn reconnect(&mut self, force: bool, resume: Option<SyncKind>)
        ensures
            final(self)@ == old(self)@.reconnecting(force, resume),
    {
        self.sync = SyncStatus::Reconnecting;
        self.phase = LivePhase::Reconnect { force, resume };
    }

    fn turn(&mut self, kind: SyncKind)
        ensures
            final(self)@ == old(self)@.turned(kind),
    {
        if self.cloud && self.phase == LivePhase::Idle {
            if !self.link.connected {
                self.reconnect(true, Some(kind));
            } else {
                self.phase = LivePhase::Look { kind };
            }
        }
    }

    fn pass_account(&mut self)
        ensures
            final(self)@ == old(self)@.past_account(),
    {
        self.phase = if self.metrics_due {
            LivePhase::WriteMetrics
        } else {
            LivePhase::Idle
        };
    }

    fn stop(&mut self)
        ensures
            final(self)@ == old(self)@.stopping(),
    {
        self.status = StrategyStatus::Stopping;
        self.shutdown = true;
    }

    fn tick(&mut self, kind: SyncKind)
        ensures
            final(self)@ == old(self)@.next(
                match kind {
                    SyncKind::Flush => LiveEventView::SyncTick,
                    SyncKind::Reconcile => LiveEventView::ReconcileTick,
                },
            ),
    {
        proof {
            reveal(LoopView::next);
        }
        self.turn(kind);
    }

    fn interrupt(&mut self)
        ensures
            final(self)@ == old(self)@.next(LiveEventView::Interrupt),
    {
        proof {
            reveal(LoopView::next);
        }
        self.stop();
    }

    fn pipeline_tick(&mut self, stop_requested: bool)
        ensures
            final(self)@ == old(self)@.next(LiveEventView::PipelineTick { stop_requested }),
    {
        proof {
            reveal(LoopView::next);
        }
        if stop_requested && self.status != StrategyStatus::Stopping {
            self.stop();
        }
    }

    fn stop_for(&mut self, id: Option<String>)
        ensures
            final(self)@ == old(self)@.next(LiveEventView::StopAction { id: option_view(id) }),
    {
        proof {
            reveal(LoopView::next);
        }
        if self.cloud && self.link.connected && id.is_some() {
            self.stop_action = id;
        }
        self.stop();
    }

    fn actions_broke(&mut self)
        ensures
            final(self)@ == old(self)@.next(LiveEventView::ActionsBroke),
    {
        proof {
            reveal(LoopView::next);
        }
        if self.cloud && self.phase == LivePhase::Idle {
            self.reconnect(false, None);
        }
    }

    fn reconnected(&mut self, actions: bool)
        ensures
            final(self)@ == old(self)@.next(LiveEventView::Reconnected { actions }),
    {
        proof {
            reveal(LoopView::next);
        }
        if let LivePhase::Reconnect { force, resume } = self.phase {
            self.link = Link { connected: true, actions };
            self.sync = SyncStatus::Connected;
            self.full = self.full || force;
            self.phase = match resume {
                Some(kind) => LivePhase::Look { kind },
                None => LivePhase::Idle,
            };
        }
    }

    fn not_reconnected(&mut self)
        ensures
            final(self)@ == old(self)@.next(LiveEventView::NotReconnected),
    {
        proof {
            reveal(LoopView::next);
        }
        if let LivePhase::Reconnect { .. } = self.phase {
            self.link = Link { connected: false, actions: false };
            self.sync = SyncStatus::Offline;
            self.phase = LivePhase::Idle;
        }
    }

    fn waiting(&mut self, ops: bool, dirty: bool, metrics: bool, account_due: bool)
        ensures
            final(self)@ == old(self)@.next(
                LiveEventView::Waiting { ops, dirty, metrics, account_due },
            ),
    {
        proof {
            reveal(LoopView::next);
        }
        if let LivePhase::Look { kind } = self.phase {
            let work = match kind {
                SyncKind::Flush => ops || dirty || metrics || account_due,
                SyncKind::Reconcile => self.full || ops || dirty,
            };
            self.account_due = work && kind == SyncKind::Flush && account_due;
            self.phase = if work {
                LivePhase::FlushOps { kind }
            } else {
                LivePhase::Idle
            };
        }
    }

    fn written(&mut self)
        ensures
            final(self)@ == old(self)@.next(LiveEventView::Written),
    {
        proof {
            reveal(LoopView::next);
        }
        match self.phase {
            LivePhase::FlushOps { kind } => {
                self.phase = LivePhase::SyncInsights { kind };
            },
            LivePhase::WriteAccount => self.pass_account(),
            LivePhase::WriteMetrics => {
                self.phase = LivePhase::Idle;
            },
            _ => {},
        }
    }

    fn synced(&mut self, metrics: bool)
        ensures
            final(self)@ == old(self)@.next(LiveEventView::Synced { metrics }),
    {
        proof {
            reveal(LoopView::next);
        }
        if let LivePhase::SyncInsights { kind } = self.phase {
            match kind {
                SyncKind::Flush => {
                    self.metrics_due = metrics;
                    if self.account_due {
                        self.phase = LivePhase::ReadAccount;
                    } else {
                        self.pass_account();
                    }
                },
                SyncKind::Reconcile => {
                    self.full = false;
                    self.phase = LivePhase::Idle;
                },
            }
        }
    }

    fn account_read(&mut self, read: bool)
        ensures
            final(self)@ == old(self)@.next(LiveEventView::AccountRead { read }),
    {
        proof {
            reveal(LoopView::next);
        }
        if self.phase == LivePhase::ReadAccount {
            if read {
                self.metrics_due = true;
                self.phase = LivePhase::WriteAccount;
            } else {
                self.pass_account();
            }
        }
    }

    fn connection_lost(&mut self)
        ensures
            final(self)@ == old(self)@.next(LiveEventView::ConnectionLost),
    {
        proof {
            reveal(LoopView::next);
        }
        match self.phase {
            LivePhase::FlushOps { .. } => self.reconnect(true, None),
            LivePhase::SyncInsights { .. } => self.reconnect(true, None),
            LivePhase::WriteAccount => self.reconnect(false, None),
            LivePhase::WriteMetrics => self.reconnect(true, None),
            _ => {},
        }
    }

    fn take(&mut self, event: LiveEvent)
        ensures
            final(self)@ == old(self)@.next(event@),
    {
        match event {
            LiveEvent::SyncTick => self.tick(SyncKind::Flush),
            LiveEvent::ReconcileTick => self.tick(SyncKind::Reconcile),
            LiveEvent::PipelineTick { stop_requested } => self.pipeline_tick(stop_requested),
            LiveEvent::StopAction { id } => self.stop_for(id),
            LiveEvent::Interrupt => self.interrupt(),
            LiveEvent::ActionsBroke => self.actions_broke(),
            LiveEvent::Reconnected { actions } => self.reconnected(actions),
            LiveEvent::NotReconnected => self.not_reconnected(),
            LiveEvent::Waiting { ops, dirty, metrics, account_due } => self.waiting(
                ops,
                dirty,
                metrics,
                account_due,
            ),
            LiveEvent::Written => self.written(),
            LiveEvent::Synced { metrics } => self.synced(metrics),
            LiveEvent::AccountRead { read } => self.account_read(read),
            LiveEvent::ConnectionLost => self.connection_lost(),
        }
    }

    /// Takes in what happened. What the run does next is its phase.
    pub fn step(&mut self, event: LiveEvent)
        requires
            old(self)@.wf(),
        ensures
            final(self)@ == old(self)@.next(event@),
            final(self)@.wf(),
    {
        let ghost before = self@;
        let ghost what = event@;
        self.take(event);
        proof {
            event_keeps_run_sound(before, what);
        }
    }

    /// Whether all insights are written in this turn, and else at most how many.
    pub fn sync_scope(&self) -> (r: (bool, Option<usize>))
        ensures
            r == (match self@.phase {
                LivePhase::SyncInsights { kind: SyncKind::Reconcile } => (self@.full, None),
                _ => (false, Some(LIVE_SYNC_MAX_INSIGHTS_PER_FLUSH)),
            }),
    {
        match self.phase {
            LivePhase::SyncInsights { kind: SyncKind::Reconcile } => (self.full, None),
            _ => (false, Some(LIVE_SYNC_MAX_INSIGHTS_PER_FLUSH)),
        }
    }
}

proof fn event_keeps_run_sound(run: LoopView, event: LiveEventView)
    requires
        run.wf(),
    ensures
        run.next(event).wf(),
{
    reveal(LoopView::next);
}

/// Whatever happens, what a run does fits the state of its connection.
pub proof fn events_keep_runs_sound(run: LoopView, events: Seq<LiveEventView>)
    requires
        run.wf(),
    ensures
        run.after(events).wf(),
    decreases events.len(),
{
    if events.len() > 0 {
        events_keep_runs_sound(run, events.drop_last());
        event_keeps_run_sound(run.after(events.drop_last()), events.last());
    }
}

/// A run without the cloud does not depend on it: whatever happens, it never turns to the cloud.
pub proof fn local_runs_do_not_depend_on_the_cloud(
    strategy_id: Seq<char>,
    events: Seq<LiveEventView>,
)
    ensures
        ({
            let off = Link { connected: false, actions: false };
            let run = LoopView::begun(strategy_id, false, off).after(events);
            run.phase is Idle && run.sync == SyncStatus::NotConfigured
        }),
    decreases events.len(),
{
    let off = Link { connected: false, actions: false };
    let begun = LoopView::begun(strategy_id, false, off);
    events_keep_runs_sound(begun, events);
    cloud_stays(begun, events);
}

proof fn cloud_stays(run: LoopView, events: Seq<LiveEventView>)
    ensures
        run.after(events).cloud == run.cloud,
    decreases events.len(),
{
    reveal(LoopView::next);
    if events.len() > 0 {
        cloud_stays(run, events.drop_last());
    }
}

/// Once a run was told to shut down, nothing takes that back.
pub proof fn stopping_is_final(run: LoopView, events: Seq<LiveEventView>)
    requires
        run.wf(),
        run.shutdown,
    ensures
        run.after(events).shutdown,
        run.after(events).status == StrategyStatus::Stopping,
    decreases events.len(),
{
    reveal(LoopView::next);
    if events.len() > 0 {
        stopping_is_final(run, events.drop_last());
    }
}

/// Only an interrupt, a stop at the terminal or a stop from the cloud stops a run; that the cloud
/// cannot be reached does not.
pub proof fn runs_stop_only_when_told(run: LoopView, event: LiveEventView)
    requires
        run.wf(),
        !run.shutdown,
        run.next(event).shutdown,
    ensures
        event is Interrupt || event is StopAction || (event matches LiveEventView::PipelineTick {
            stop_requested,
        } && stop_requested),
{
    reveal(LoopView::next);
}

/// Whether an event tells a run to stop.
pub open spec fn tells_to_stop(event: LiveEventView) -> bool {
    match event {
        LiveEventView::Interrupt => true,
        LiveEventView::StopAction { .. } => true,
        LiveEventView::PipelineTick { stop_requested } => stop_requested,
        _ => false,
    }
}

/// Whatever becomes of the cloud, a run goes on until it is told to stop.
pub proof fn runs_do_not_depend_on_the_cloud(run: LoopView, events: Seq<LiveEventView>)
    requires
        !run.shutdown,
        forall|i: int| 0 <= i < events.len() ==> !tells_to_stop(#[trigger] events[i]),
    ensures
        !run.after(events).shutdown,
        run.after(events).status == run.status,
    decreases events.len(),
{
    reveal(LoopView::next);
    if events.len() > 0 {
        assert(!tells_to_stop(events[events.len() - 1]));
        assert forall|i: int| 0 <= i < events.drop_last().len() implies !tells_to_stop(
            #[trigger] events.drop_last()[i],
        ) by {
            assert(events.drop_last()[i] == events[i]);
        }
        runs_do_not_depend_on_the_cloud(run, events.drop_last());
    }
}

/// A run that could not reach the cloud tries again at the next turn of its clocks, and then
/// reconciles everything.
pub proof fn an_offline_run_tries_again(run: LoopView, again: LiveEventView, actions: bool)
    requires
        run.wf(),
        run.phase is Reconnect,
        again is SyncTick || again is ReconcileTick,
    ensures
        run.next(LiveEventView::NotReconnected).next(again).phase is Reconnect,
        run.next(LiveEventView::NotReconnected).next(again).next(
            LiveEventView::Reconnected { actions },
        ).full,
{
    reveal(LoopView::next);
}

/// What is to be reconciled stays so until it was: nothing else takes the mark back.
pub proof fn a_reconcile_stays_due(run: LoopView, event: LiveEventView)
    requires
        run.full,
        !run.next(event).full,
    ensures
        event is Synced,
        run.phase == (LivePhase::SyncInsights { kind: SyncKind::Reconcile }),
{
    reveal(LoopView::next);
}

/// A run that lost its connection while it wrote, and finds it again, reconciles everything, unless
/// it was writing the account alone.
pub proof fn a_lost_connection_is_reconciled(run: LoopView, actions: bool)
    requires
        run.wf(),
        run.phase is FlushOps || run.phase is SyncInsights || run.phase is WriteMetrics,
    ensures
        run.next(LiveEventView::ConnectionLost).next(
            LiveEventView::Reconnected { actions },
        ).full,
{
    reveal(LoopView::next);
}

/// What the cloud wants.
#[derive(Debug)]
pub struct StopRequest {
    /// Whether the run is to stop.
    pub stop: bool,
    /// The id of the action, where it can be told.
    pub id: Option<String>,
}

/// Whether an action of the cloud is to stop the run, and its id where it can be told.
pub fn stop_request(action: &Json) -> (r: StopRequest)
    ensures
        r.stop == (text_at(action@, "status"@) == Some("pending"@) && text_at(action@, "action"@)
            == Some("stop"@)),
        option_view(r.id) == (match action@.get("id"@) {
            Some(id) => action_id(id),
            None => None,
        }),
{
    let pending = match text_of(action, "status") {
        Some(status) => text_eq(status.as_str(), "pending"),
        None => false,
    };
    let stop = match text_of(action, "action") {
        Some(name) => text_eq(name.as_str(), "stop"),
        None => false,
    };
    let id = match action.get("id") {
        Some(id) => action_id_from_value(id),
        None => None,
    };
    StopRequest { stop: pending && stop, id }
}

/// What is done once a live run has stopped looping.
#[derive(Clone, Copy, Debug, PartialEq, Eq, Structural)]
pub enum ShutdownStep {
    TearDown,
    UnsubscribeTrades,
    UnsubscribeData,
    DisconnectBroker,
    FlushOps,
    SyncAllInsights,
    MarkStopped,
    CompleteSession,
    WriteAccount,
    FinishMetrics,
    WriteMetrics,
    CompleteStopAction,
    RecordStopped,
    FlushLocalEvents,
    FinishLocalRun,
    Report,
}

/// What is done with the strategy and the broker.
pub open spec fn broker_steps() -> Seq<ShutdownStep> {
    seq![
        ShutdownStep::TearDown,
        ShutdownStep::UnsubscribeTrades,
        ShutdownStep::UnsubscribeData,
        ShutdownStep::DisconnectBroker,
    ]
}

/// What is done with the cloud.
pub open spec fn cloud_steps(stop_action: bool) -> Seq<ShutdownStep> {
    if stop_action {
        seq![
            ShutdownStep::FlushOps,
            ShutdownStep::SyncAllInsights,
            ShutdownStep::MarkStopped,
            ShutdownStep::CompleteSession,
            ShutdownStep::WriteAccount,
            ShutdownStep::FinishMetrics,
            ShutdownStep::WriteMetrics,
            ShutdownStep::CompleteStopAction,
            ShutdownStep::RecordStopped,
        ]
    } else {
        seq![
            ShutdownStep::FlushOps,
            ShutdownStep::SyncAllInsights,
            ShutdownStep::MarkStopped,
            ShutdownStep::CompleteSession,
            ShutdownStep::WriteAccount,
            ShutdownStep::FinishMetrics,
            ShutdownStep::WriteMetrics,
            ShutdownStep::RecordStopped,
        ]
    }
}

/// What is done with the local run.
pub open spec fn local_steps() -> Seq<ShutdownStep> {
    seq![
        ShutdownStep::FlushLocalEvents,
        ShutdownStep::FinishMetrics,
        ShutdownStep::FinishLocalRun,
    ]
}

/// What is done once a live run has stopped looping, in order: first with the strategy and the
/// broker, then with the cloud where it is connected, then with the local run where there is one.
pub open spec fn shutdown_plan(connected: bool, stop_action: bool, local: bool) -> Seq<
    ShutdownStep,
> {
    let cloud = if connected {
        cloud_steps(stop_action)
    } else {
        Seq::empty()
    };
    let local = if local {
        local_steps()
    } else {
        Seq::empty()
    };
    broker_steps() + cloud + local + seq![ShutdownStep::Report]
}

fn add_cloud_steps(steps: &mut Vec<ShutdownStep>, stop_action: bool)
    ensures
        final(steps)@ == old(steps)@ + cloud_steps(stop_action),
{
    steps.push(ShutdownStep::FlushOps);
    steps.push(ShutdownStep::SyncAllInsights);
    steps.push(ShutdownStep::MarkStopped);
    steps.push(ShutdownStep::CompleteSession);
    steps.push(ShutdownStep::WriteAccount);
    steps.push(ShutdownStep::FinishMetrics);
    steps.push(ShutdownStep::WriteMetrics);
    if stop_action {
        steps.push(ShutdownStep::CompleteStopAction);
    }
    steps.push(ShutdownStep::RecordStopped);
    proof {
        assert(steps@ =~= old(steps)@ + cloud_steps(stop_action));
    }
}

/// What is done once a live run has stopped looping, in order.
pub fn shutdown_steps(connected: bool, stop_action: bool, local: bool) -> (r: Vec<ShutdownStep>)
    ensures
        r@ == shutdown_plan(connected, stop_action, local),
{
    let mut steps: Vec<ShutdownStep> = Vec::new();
    steps.push(ShutdownStep::TearDown);
    steps.push(ShutdownStep::UnsubscribeTrades);
    steps.push(ShutdownStep::UnsubscribeData);
    steps.push(ShutdownStep::DisconnectBroker);
    proof {
        assert(steps@ =~= broker_steps());
    }
    if connected {
        add_cloud_steps(&mut steps, stop_action);
    } else {
        proof {
            assert(steps@ =~= broker_steps() + Seq::<ShutdownStep>::empty());
        }
    }
    let ghost so_far = steps@;
    if local {
        steps.push(ShutdownStep::FlushLocalEvents);
        steps.push(ShutdownStep::FinishMetrics);
        steps.push(ShutdownStep::FinishLocalRun);
        proof {
            assert(steps@ =~= so_far + local_steps());
        }
    } else {
        proof {
            assert(steps@ =~= so_far + Seq::<ShutdownStep>::empty());
        }
    }
    let ghost before = steps@;
    steps.push(ShutdownStep::Report);
    proof {
        assert(steps@ =~= before + seq![ShutdownStep::Report]);
    }
    steps
}

/// How a local run ended.
pub const LOCAL_RUN_STATUS: &'static str = "completed";

/// What is told of a local run that ended.
pub const LOCAL_RUN_MESSAGE: &'static str = "Strategy exited live mode";

/// How a run reports its end: the level, the message, and how it stands with the cloud.
pub fn final_report(cloud: bool, connected: bool) -> (r: (&'static str, &'static str, SyncStatus))
    ensures
        r.0@ == "info"@,
        r.1@ == "Live strategy stopped"@,
        r.2 == (if !cloud {
            SyncStatus::NotConfigured
        } else if connected {
            SyncStatus::Completed
        } else {
            SyncStatus::Offline
        }),
{
    let status = if !cloud {
        SyncStatus::NotConfigured
    } else if connected {
        SyncStatus::Completed
    } else {
        SyncStatus::Offline
    };
    ("info", "Live strategy stopped", status)
}

/// Every event that tells a run to stop stops it: an interrupt, a stop that the cloud wants, and a stop
/// at the terminal at the next tick.
pub proof fn runs_stop_when_told(run: LoopView, event: LiveEventView)
    requires
        run.status is Running || run.status is Paused || run.status is Initialised,
        event is Interrupt || event is StopAction || (event matches LiveEventView::PipelineTick {
            stop_requested,
        } && stop_requested),
    ensures
        run.next(event).shutdown,
        run.next(event).status is Stopping,
        run.next(event).phase == run.phase,
        run.next(event).link == run.link,
        event matches LiveEventView::StopAction { id } && id is Some && run.cloud
            && run.link.connected ==> run.next(event).stop_action == event->StopAction_id,
        !(event is StopAction) ==> run.next(event).stop_action == run.stop_action,
{
    reveal(LoopView::next);
}

/// A run that begins is running, has everything to reconcile, and does nothing yet.
pub proof fn runs_begin_running(strategy_id: Seq<char>, cloud: bool, link: Link)
    ensures
        ({
            let run = LoopView::begun(strategy_id, cloud, link);
            &&& run.status is Running
            &&& !run.shutdown
            &&& run.full
            &&& run.phase is Idle
            &&& run.stop_action is None
            &&& run.cloud == cloud
            &&& run.link == link
            &&& run.strategy_id == strategy_id
            &&& cloud ==> run.sync is Connected
            &&& !cloud ==> run.sync is NotConfigured
        }),
{
}

/// Its clocks make an idle run that uses the cloud look what waits, each for its own purpose, or
/// connect anew first, to look then. A run that is busy, or local, does not turn to the cloud.
pub proof fn clocks_turn_runs_to_the_cloud(run: LoopView, actions: bool)
    requires
        run.wf(),
    ensures
        run.cloud && run.phase is Idle && run.link.connected ==> {
            &&& run.next(LiveEventView::SyncTick) == (LoopView {
                phase: LivePhase::Look { kind: SyncKind::Flush },
                ..run
            })
            &&& run.next(LiveEventView::ReconcileTick) == (LoopView {
                phase: LivePhase::Look { kind: SyncKind::Reconcile },
                ..run
            })
        },
        run.cloud && run.phase is Idle && !run.link.connected ==> {
            let back = LiveEventView::Reconnected { actions };
            let flush = run.next(LiveEventView::SyncTick);
            let reconcile = run.next(LiveEventView::ReconcileTick);
            &&& flush.phase is Reconnect && flush.sync is Reconnecting
            &&& reconcile.phase is Reconnect && reconcile.sync is Reconnecting
            &&& flush.next(back).phase == (LivePhase::Look { kind: SyncKind::Flush })
            &&& reconcile.next(back).phase == (LivePhase::Look { kind: SyncKind::Reconcile })
            &&& flush.next(back).link.connected && flush.next(back).link.actions == actions
            &&& flush.next(back).sync is Connected && flush.next(back).full
        },
        !run.cloud || !(run.phase is Idle) ==> run.next(LiveEventView::SyncTick) == run && run.next(
            LiveEventView::ReconcileTick,
        ) == run,
{
    reveal(LoopView::next);
}

/// Where anything waits, a flush writes it: what is queued, then the insights, then the account where
/// it is due, then how the run does where that is due; and then the run is idle again. Where nothing
/// waits, it is idle at once.
pub proof fn flushes_write_what_waits(
    run: LoopView,
    ops: bool,
    dirty: bool,
    metrics: bool,
    account_due: bool,
    metrics_due: bool,
)
    requires
        run.phase == (LivePhase::Look { kind: SyncKind::Flush }),
    ensures
        ({
            let looked = run.next(LiveEventView::Waiting { ops, dirty, metrics, account_due });
            let flushed = looked.next(LiveEventView::Written);
            let synced = flushed.next(LiveEventView::Synced { metrics: metrics_due });
            let read = synced.next(LiveEventView::AccountRead { read: true });
            let unread = synced.next(LiveEventView::AccountRead { read: false });
            &&& !ops && !dirty && !metrics && !account_due ==> looked.phase is Idle
            &&& ops || dirty || metrics || account_due ==> {
                &&& looked.phase == (LivePhase::FlushOps { kind: SyncKind::Flush })
                &&& flushed.phase == (LivePhase::SyncInsights { kind: SyncKind::Flush })
                &&& account_due ==> {
                    &&& synced.phase is ReadAccount
                    &&& read.phase is WriteAccount
                    &&& read.next(LiveEventView::Written).phase is WriteMetrics
                    &&& read.next(LiveEventView::Written).next(LiveEventView::Written).phase is Idle
                    &&& unread.phase is WriteMetrics <==> metrics_due
                    &&& unread.phase is Idle <==> !metrics_due
                }
                &&& !account_due && metrics_due ==> synced.phase is WriteMetrics && synced.next(
                    LiveEventView::Written,
                ).phase is Idle
                &&& !account_due && !metrics_due ==> synced.phase is Idle
                &&& synced.full == run.full
            }
        }),
{
    reveal(LoopView::next);
}

/// A reconcile writes what is queued and then the insights, all of them while everything is to be
/// reconciled; that mark is taken back once they are written, and then the run is idle.
pub proof fn reconciles_write_everything(
    run: LoopView,
    ops: bool,
    dirty: bool,
    metrics: bool,
    account_due: bool,
    metrics_due: bool,
)
    requires
        run.phase == (LivePhase::Look { kind: SyncKind::Reconcile }),
    ensures
        ({
            let looked = run.next(LiveEventView::Waiting { ops, dirty, metrics, account_due });
            let flushed = looked.next(LiveEventView::Written);
            let synced = flushed.next(LiveEventView::Synced { metrics: metrics_due });
            &&& !run.full && !ops && !dirty ==> looked.phase is Idle
            &&& run.full || ops || dirty ==> {
                &&& looked.phase == (LivePhase::FlushOps { kind: SyncKind::Reconcile })
                &&& flushed.phase == (LivePhase::SyncInsights { kind: SyncKind::Reconcile })
                &&& flushed.full == run.full
                &&& synced.phase is Idle
                &&& !synced.full
            }
        }),
{
    reveal(LoopView::next);
}

/// How many insights a turn writes: a reconcile all of them, in full where everything is to be
/// reconciled; a flush at most 128, and only those that changed.
pub proof fn turns_have_their_scope(run: &LiveLoop, r: (bool, Option<usize>))
    requires
        call_ensures(LiveLoop::sync_scope, (run,), r),
    ensures
        run@.phase == (LivePhase::SyncInsights { kind: SyncKind::Reconcile }) ==> r.0 == run@.full
            && r.1 is None,
        run@.phase == (LivePhase::SyncInsights { kind: SyncKind::Flush }) ==> !r.0 && r.1 == Some(
            128usize,
        ),
{
}

/// A connection that is lost while something is written is made anew, at once; where it cannot be, the
/// run is offline and idle. A broken stream of actions has it made anew too.
pub proof fn lost_connections_are_made_anew(run: LoopView)
    requires
        run.wf(),
    ensures
        run.phase is FlushOps || run.phase is SyncInsights || run.phase is WriteAccount || run.phase
            is WriteMetrics ==> {
            let lost = run.next(LiveEventView::ConnectionLost);
            let off = lost.next(LiveEventView::NotReconnected);
            &&& lost.phase is Reconnect
            &&& lost.sync is Reconnecting
            &&& off.phase is Idle
            &&& off.sync is Offline
            &&& !off.link.connected && !off.link.actions
            &&& off.shutdown == run.shutdown && off.status == run.status
        },
        run.cloud && run.phase is Idle ==> run.next(LiveEventView::ActionsBroke).phase is Reconnect,
        !run.cloud ==> run.next(LiveEventView::ActionsBroke) == run,
        run.next(LiveEventView::PipelineTick { stop_requested: false }) == run,
{
    reveal(LoopView::next);
}

/// Every step of a setup but those that ask the cloud fails the setup where it fails: the strategy is
/// handed back. So does a universe of nothing.
pub proof fn failing_steps_fail_setups(setup: LiveSetup, alphas: usize)
    requires
        !(setup.step is Running || setup.step is Failed || setup.step is HandBack || setup.step
            is ConnectCloud || setup.step is OpenActions),
    ensures
        setup_after(setup, SetupReply::Failed).step is HandBack,
        setup.step is LoadUniverse ==> setup_after(
            setup,
            SetupReply::Loaded { alphas, assets: 0 },
        ).step is HandBack,
{
}

/// What a setup goes through once what was asked is done: the cloud, where it is used, the session, the
/// broker, the actions of the cloud, the strategy, what it trades, the start, a local run where the
/// cloud is not used, the trades, the data, and the loop.
pub proof fn setups_go_on_from_step_to_step(setup: LiveSetup)
    ensures
        ({
            let next = setup_after(setup, SetupReply::Done);
            &&& setup.step is ConnectCloud ==> next.step is ConfigureSession && next.cloud
                == setup.cloud
            &&& setup.step is ConfigureSession ==> next.step is ConnectBroker
            &&& setup.step is ConnectBroker && setup.cloud ==> next.step is OpenActions
            &&& setup.step is ConnectBroker && !setup.cloud ==> next.step is StartStrategy
            &&& setup.step is OpenActions ==> next.step is StartStrategy
            &&& setup.step is StartStrategy ==> next.step is LoadUniverse
            &&& setup.step is NoteStart && setup.cloud ==> next.step is SubscribeTrades
            &&& setup.step is NoteStart && !setup.cloud ==> next.step is OpenLocalRun
            &&& setup.step is OpenLocalRun ==> next.step is SubscribeTrades
            &&& setup.step is SubscribeTrades ==> next.step is SubscribeData
            &&& setup.step is SubscribeData ==> next.step is Running
            &&& setup.step is Running ==> next == setup
            &&& !(setup.step is ConnectCloud) ==> next.cloud == setup.cloud
        }),
        setup.step is ConnectCloud ==> {
            let off = setup_after(setup, SetupReply::Failed);
            off.step is ConfigureSession && !off.cloud
        },
        setup_begun(true).step is ConnectCloud && setup_begun(true).cloud,
        setup_begun(false).step is ConfigureSession && !setup_begun(false).cloud,
{
}

/// The plan of a shutdown tears the strategy down first, before the broker is left, and reports last.
/// What the cloud is told comes where the run is connected, and a stop that it asked for is completed
/// there; what a local run is told comes where there is one. Each comes after the broker was left.
pub proof fn shutdowns_are_complete(connected: bool, stop_action: bool, local: bool)
    ensures
        ({
            let plan = shutdown_plan(connected, stop_action, local);
            let cloud = 4int;
            let last = plan.len() - 1;
            &&& plan[0] is TearDown
            &&& plan[1] is UnsubscribeTrades
            &&& plan[2] is UnsubscribeData
            &&& plan[3] is DisconnectBroker
            &&& plan[last] is Report
            &&& plan.len() == 5 + (if connected {
                8int
            } else {
                0
            }) + (if connected && stop_action {
                1int
            } else {
                0
            }) + (if local {
                3int
            } else {
                0
            })
            &&& connected ==> {
                &&& plan[cloud] is FlushOps
                &&& plan[cloud + 1] is SyncAllInsights
                &&& plan[cloud + 2] is MarkStopped
                &&& plan[cloud + 3] is CompleteSession
                &&& plan[cloud + 4] is WriteAccount
                &&& plan[cloud + 5] is FinishMetrics
                &&& plan[cloud + 6] is WriteMetrics
                &&& stop_action ==> plan[cloud + 7] is CompleteStopAction && plan[cloud + 8]
                    is RecordStopped
                &&& !stop_action ==> plan[cloud + 7] is RecordStopped
            }
            &&& local ==> {
                &&& plan[last - 3] is FlushLocalEvents
                &&& plan[last - 2] is FinishMetrics
                &&& plan[last - 1] is FinishLocalRun
            }
        }),
{
}

/// At a tick the connections are seen to first; then the strategy is asked about every active insight,
/// in order and once; then the pipeline runs; and without the cloud what is over is forgotten.
pub proof fn ticks_ask_about_every_insight(active: nat, cloud: bool, i: int)
    requires
        active <= usize::MAX,
    ensures
        ({
            let calls = tick_order(active, cloud);
            &&& calls[0] is Reconnect
            &&& 0 <= i < active ==> calls[i + 1] == (TickCall::Manage { at: i as usize })
            &&& calls[active as int + 1] is Pipeline
            &&& !cloud ==> calls.len() == active + 3 && calls[active as int + 2] is Prune
            &&& cloud ==> calls.len() == active + 2
        }),
{
}

/// An action of the cloud stops a run exactly where it is pending and is a stop.
pub proof fn pending_stops_stop(action: &Json, r: StopRequest)
    requires
        call_ensures(stop_request, (action,), r),
    ensures
        r.stop <==> action@.get("status"@) == Some(JsonView::Text("pending"@)) && action@.get(
            "action"@,
        ) == Some(JsonView::Text("stop"@)),
        action@.get("id"@) is None ==> r.id is None,
{
}

/// At the end it is told that the strategy stopped, and whether the cloud knows: not where it is not
/// used, completely where the connection is up, and not any more where it is lost.
pub proof fn ends_are_told(cloud: bool, connected: bool, r: (&'static str, &'static str, SyncStatus))
    requires
        call_ensures(final_report, (cloud, connected), r),
    ensures
        r.0@ == "info"@,
        r.1@ == "Live strategy stopped"@,
        !cloud ==> r.2 is NotConfigured,
        cloud && connected ==> r.2 is Completed,
        cloud && !connected ==> r.2 is Offline,
{
}

} // verus!
