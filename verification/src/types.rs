//! How a strategy runs, and where it stands.
use vstd::prelude::*;

verus! {

/// How a strategy runs.
#[derive(Clone, Copy, Debug, PartialEq, Eq, Structural, Hash)]
pub enum StrategyMode {
    Backtest,
    Live,
}

impl StrategyMode {
    /// The name of the mode.
    pub open spec fn name(self) -> Seq<char> {
        match self {
            StrategyMode::Backtest => "Backtest"@,
            StrategyMode::Live => "Live"@,
        }
    }

    /// The name of the mode.
    pub fn as_str(self) -> (r: &'static str)
        ensures
            r@ == self.name(),
    {
        match self {
            StrategyMode::Backtest => "Backtest",
            StrategyMode::Live => "Live",
        }
    }
}

/// Where a strategy stands.
#[derive(Clone, Copy, Debug, PartialEq, Eq, Structural, Hash)]
pub enum StrategyStatus {
    Initialised,
    Running,
    Stopping,
    Paused,
    Stopped,
    Completed,
}

impl StrategyStatus {
    /// The name of the status.
    pub open spec fn spec_label(self) -> Seq<char> {
        match self {
            StrategyStatus::Initialised => "Initialised"@,
            StrategyStatus::Running => "Running"@,
            StrategyStatus::Stopping => "Stopping"@,
            StrategyStatus::Paused => "Paused"@,
            StrategyStatus::Stopped => "Stopped"@,
            StrategyStatus::Completed => "Completed"@,
        }
    }

    /// Whether the strategy has come to its end.
    pub open spec fn finished(self) -> bool {
        self is Completed || self is Stopped
    }

    /// The name of the status.
    pub fn label(&self) -> (r: &'static str)
        ensures
            r@ == self.spec_label(),
    {
        match self {
            StrategyStatus::Initialised => "Initialised",
            StrategyStatus::Running => "Running",
            StrategyStatus::Stopping => "Stopping",
            StrategyStatus::Paused => "Paused",
            StrategyStatus::Stopped => "Stopped",
            StrategyStatus::Completed => "Completed",
        }
    }

    /// Whether the strategy has not been started.
    pub fn is_initialised(&self) -> (r: bool)
        ensures
            r == (self is Initialised),
    {
        match self {
            StrategyStatus::Initialised => true,
            _ => false,
        }
    }

    /// Whether the strategy is at work.
    pub fn is_running(&self) -> (r: bool)
        ensures
            r == (self is Running),
    {
        match self {
            StrategyStatus::Running => true,
            _ => false,
        }
    }

    /// Whether the strategy is halted for a time.
    pub fn is_paused(&self) -> (r: bool)
        ensures
            r == (self is Paused),
    {
        match self {
            StrategyStatus::Paused => true,
            _ => false,
        }
    }

    /// Whether the strategy has come to its end.
    pub fn is_finished(&self) -> (r: bool)
        ensures
            r == self.finished(),
    {
        match self {
            StrategyStatus::Completed | StrategyStatus::Stopped => true,
            _ => false,
        }
    }
}

impl Default for StrategyStatus {
    fn default() -> (r: StrategyStatus)
        ensures
            r is Initialised,
    {
        StrategyStatus::Initialised
    }
}

/// The status once the teardown begins: one that has come to its end stays.
pub open spec fn torn_down(status: StrategyStatus) -> StrategyStatus {
    if status.finished() {
        status
    } else {
        StrategyStatus::Stopping
    }
}

/// The status once the teardown begins.
pub fn begin_teardown(status: StrategyStatus) -> (r: StrategyStatus)
    ensures
        r == torn_down(status),
{
    if status.is_finished() {
        status
    } else {
        StrategyStatus::Stopping
    }
}

/// The teardown of a strategy that is not over makes it stop; one that is over stays as it ended.
pub proof fn teardowns_make_strategies_stop(status: StrategyStatus)
    ensures
        status is Stopped ==> torn_down(status) is Stopped,
        status is Completed ==> torn_down(status) is Completed,
        !(status is Stopped) && !(status is Completed) ==> torn_down(status) is Stopping,
{
}

/// What a strategy is asked about its status.
pub proof fn statuses_are_told_apart(
    status: StrategyStatus,
    initialised: bool,
    running: bool,
    paused: bool,
    over: bool,
)
    requires
        call_ensures(StrategyStatus::is_initialised, (&status,), initialised),
        call_ensures(StrategyStatus::is_running, (&status,), running),
        call_ensures(StrategyStatus::is_paused, (&status,), paused),
        call_ensures(StrategyStatus::is_finished, (&status,), over),
    ensures
        initialised <==> status is Initialised,
        running <==> status is Running,
        paused <==> status is Paused,
        over <==> status is Stopped || status is Completed,
        status.spec_label() == (match status {
            StrategyStatus::Initialised => "Initialised"@,
            StrategyStatus::Running => "Running"@,
            StrategyStatus::Stopping => "Stopping"@,
            StrategyStatus::Paused => "Paused"@,
            StrategyStatus::Stopped => "Stopped"@,
            StrategyStatus::Completed => "Completed"@,
        }),
{
}

} // verus!
