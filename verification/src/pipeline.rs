//! The insight pipeline: the pipes that each insight runs through in each of its states.
use vstd::prelude::*;
use vstd::string::StringExecFns;

use crate::collection::{at_id, ids_of, marked, InsightCollection};
use crate::insight::{Insight, InsightState, InsightView};
use crate::time::UtcTime;

verus! {

/// What a pipe says of the insight that it was run on.
pub struct InsightPipeResult {
    pub passed: bool,
    pub success: bool,
    pub message: Option<String>,
    pub pipe_name: String,
}

impl InsightPipeResult {
    /// A pipe's result.
    pub fn new(
        passed: bool,
        success: bool,
        message: Option<String>,
        pipe_name: String,
    ) -> (r: InsightPipeResult)
        ensures
            r == (InsightPipeResult { passed, success, message, pipe_name }),
    {
        InsightPipeResult { passed, success, message, pipe_name }
    }

    /// Whether the insight may go on to the next pipe.
    pub open spec fn goes_on(self) -> bool {
        self.success && self.passed
    }

    /// Why the insight is rejected after this result.
    pub open spec fn reason(self) -> Seq<char> {
        match self.message {
            Some(message) => message@,
            None => "Insight pipe "@ + self.pipe_name@ + (if !self.success {
                " failed"@
            } else {
                " did not pass"@
            }),
        }
    }

    fn reason_text(&self) -> (r: String)
        ensures
            r@ == self.reason(),
    {
        match &self.message {
            Some(message) => message.clone(),
            None => {
                let mut s = "Insight pipe ".to_owned();
                s.append(self.pipe_name.as_str());
                if !self.success {
                    s.append(" failed");
                } else {
                    s.append(" did not pass");
                }
                s
            },
        }
    }
}

/// A pipe, as a strategy's author writes it. `C` is what the pipes of a strategy work on.
pub trait InsightPipe<C> {
    /// Whether the pipe applies to the insight.
    fn should_run(&self, insight: &Insight) -> bool;

    /// Whether a run may leave the pipe, what it works on and the insight so, with this result;
    /// the author of a pipe decides, and else it may do anything.
    open spec fn may_run(
        &self,
        context: C,
        insight: Insight,
        pipe_after: &Self,
        context_after: C,
        insight_after: Insight,
        result: InsightPipeResult,
    ) -> bool {
        true
    }

    /// Runs the pipe on the insight.
    fn run(&mut self, context: &mut C, insight: &mut Insight) -> (r: InsightPipeResult)
        ensures
            old(self).may_run(
                *old(context),
                *old(insight),
                final(self),
                *final(context),
                *final(insight),
                r,
            ),
    ;
}

/// What the pipeline needs from the strategy that it runs in.
pub trait PipelineContext {
    /// Whether the insight can expire at all.
    fn can_expire(&self, insight: &Insight) -> bool;

    /// Whether asking may leave the strategy and the insight so, with this answer.
    open spec fn may_expire(
        &self,
        insight: Insight,
        context_after: &Self,
        insight_after: Insight,
        expired: bool,
    ) -> bool {
        true
    }

    /// Whether the insight has expired; one that has may be changed.
    fn has_expired(&mut self, insight: &mut Insight) -> (r: bool)
        ensures
            old(self).may_expire(*old(insight), final(self), *final(insight), r),
    ;

    /// A number that changes whenever the insight does.
    fn fingerprint(&self, insight: &Insight) -> u64;

    /// The current time.
    fn now(&self) -> UtcTime;
}

/// A pipe with the state that it is registered for.
pub struct WrappedInsightPipe<P> {
    pub target_state: InsightState,
    pub pipe: P,
}

/// The registered pipes, one list for each state.
pub struct InsightPipeline<P> {
    new_pipes: Vec<WrappedInsightPipe<P>>,
    executed_pipes: Vec<WrappedInsightPipe<P>>,
    filled_pipes: Vec<WrappedInsightPipe<P>>,
    closed_pipes: Vec<WrappedInsightPipe<P>>,
    cancelled_pipes: Vec<WrappedInsightPipe<P>>,
    rejected_pipes: Vec<WrappedInsightPipe<P>>,
}

impl<P> InsightPipeline<P> {
    /// The pipes for `state`, in the order of registration.
    pub closed spec fn bucket(&self, state: InsightState) -> Seq<WrappedInsightPipe<P>> {
        match state {
            InsightState::New => self.new_pipes@,
            InsightState::Executed => self.executed_pipes@,
            InsightState::Filled => self.filled_pipes@,
            InsightState::Closed => self.closed_pipes@,
            InsightState::Cancelled => self.cancelled_pipes@,
            InsightState::Rejected => self.rejected_pipes@,
        }
    }

    /// Whether each pipe stands in the list of its own state.
    pub open spec fn wf(&self) -> bool {
        forall|state: InsightState, i: int|
            0 <= i < self.bucket(state).len() ==> (#[trigger] self.bucket(state)[i]).target_state
                == state
    }

    /// No pipes.
    pub fn new() -> (r: InsightPipeline<P>)
        ensures
            r.wf(),
            forall|state: InsightState| (#[trigger] r.bucket(state)).len() == 0,
    {
        InsightPipeline {
            new_pipes: Vec::new(),
            executed_pipes: Vec::new(),
            filled_pipes: Vec::new(),
            closed_pipes: Vec::new(),
            cancelled_pipes: Vec::new(),
            rejected_pipes: Vec::new(),
        }
    }

    /// Registers a pipe behind those of its state.
    pub fn add_pipe(&mut self, pipe: WrappedInsightPipe<P>)
        requires
            old(self).wf(),
        ensures
            final(self).wf(),
            final(self).bucket(pipe.target_state) == old(self).bucket(pipe.target_state).push(pipe),
            forall|state: InsightState|
                state != pipe.target_state ==> #[trigger] final(self).bucket(state) == old(
                    self,
                ).bucket(state),
    {
        let ghost before = *self;
        let ghost added = pipe;
        match pipe.target_state {
            InsightState::New => self.new_pipes.push(pipe),
            InsightState::Executed => self.executed_pipes.push(pipe),
            InsightState::Filled => self.filled_pipes.push(pipe),
            InsightState::Closed => self.closed_pipes.push(pipe),
            InsightState::Cancelled => self.cancelled_pipes.push(pipe),
            InsightState::Rejected => self.rejected_pipes.push(pipe),
        }
        proof {
            assert forall|state: InsightState, i: int| 0 <= i < self.bucket(state).len() implies (
            #[trigger] self.bucket(state)[i]).target_state == state by {
                if state == added.target_state {
                    assert(self.bucket(state) == before.bucket(state).push(added));
                    if i < before.bucket(state).len() {
                        assert(before.bucket(state)[i].target_state == state);
                    }
                } else {
                    assert(self.bucket(state) == before.bucket(state));
                    assert(before.bucket(state)[i].target_state == state);
                }
            }
        }
    }

    /// Registers several pipes, one after the other.
    pub fn add_pipes(&mut self, pipes: Vec<WrappedInsightPipe<P>>)
        requires
            old(self).wf(),
        ensures
            final(self).wf(),
            forall|state: InsightState| #[trigger]
                final(self).bucket(state) == old(self).bucket(state) + pipes_for(pipes@, state),
    {
        let mut pipes = pipes;
        let ghost all = pipes@;
        let ghost before = *self;
        proof {
            assert forall|state: InsightState| #[trigger]
                self.bucket(state) == before.bucket(state) + pipes_for(all.take(0), state) by {
                assert(self.bucket(state) =~= before.bucket(state) + pipes_for(all.take(0), state));
            }
        }
        let ghost mut done: int = 0;
        while pipes.len() > 0
            invariant
                self.wf(),
                0 <= done <= all.len(),
                pipes@ == all.skip(done),
                forall|state: InsightState| #[trigger]
                    self.bucket(state) == before.bucket(state) + pipes_for(all.take(done), state),
            decreases pipes.len(),
        {
            let ghost mid = *self;
            let pipe = pipes.remove(0);
            let ghost added = pipe;
            self.add_pipe(pipe);
            proof {
                assert(added == all[done]);
                assert(all.take(done + 1).drop_last() =~= all.take(done));
                assert forall|state: InsightState| #[trigger]
                    self.bucket(state) == before.bucket(state) + pipes_for(
                        all.take(done + 1),
                        state,
                    ) by {
                    assert(mid.bucket(state) == before.bucket(state) + pipes_for(
                        all.take(done),
                        state,
                    ));
                    assert(self.bucket(state) =~= before.bucket(state) + pipes_for(
                        all.take(done + 1),
                        state,
                    ));
                }
                done = done + 1;
                assert(pipes@ =~= all.skip(done));
            }
        }
        proof {
            assert(all.take(done) =~= all);
        }
    }

    /// The pipes for `state`.
    pub fn get_pipes_for_state(&mut self, state: &InsightState) -> (r: Option<
        &mut Vec<WrappedInsightPipe<P>>,
    >)
        ensures
            r matches Some(pipes) && pipes@ == old(self).bucket(*state) && final(self).bucket(
                *state,
            ) == final(pipes)@ && forall|other: InsightState|
                other != *state ==> #[trigger] final(self).bucket(other) == old(self).bucket(other),
    {
        match state {
            InsightState::New => Some(&mut self.new_pipes),
            InsightState::Executed => Some(&mut self.executed_pipes),
            InsightState::Filled => Some(&mut self.filled_pipes),
            InsightState::Closed => Some(&mut self.closed_pipes),
            InsightState::Cancelled => Some(&mut self.cancelled_pipes),
            InsightState::Rejected => Some(&mut self.rejected_pipes),
        }
    }
}

impl<P> Default for InsightPipeline<P> {
    fn default() -> (r: InsightPipeline<P>)
        ensures
            r.wf(),
            forall|state: InsightState| (#[trigger] r.bucket(state)).len() == 0,
    {
        InsightPipeline::new()
    }
}

/// Those of `pipes` that are registered for `state`, in order.
pub open spec fn pipes_for<P>(pipes: Seq<WrappedInsightPipe<P>>, state: InsightState) -> Seq<
    WrappedInsightPipe<P>,
>
    decreases pipes.len(),
{
    if pipes.len() == 0 {
        Seq::empty()
    } else {
        let rest = pipes_for(pipes.drop_last(), state);
        if pipes.last().target_state == state {
            rest.push(pipes.last())
        } else {
            rest
        }
    }
}

/// How a run through the pipes of one state ended.
pub enum PipesVerdict {
    /// Every pipe that applied let the insight go on.
    Completed,
    /// A pipe stopped the run by closing, cancelling or ending the insight.
    Halted,
    /// A pipe failed or did not let the insight pass.
    Failed(String),
}

/// The results of a run through the pipes of one state, with how it ended.
pub struct PipesRun {
    pub results: Vec<InsightPipeResult>,
    pub verdict: PipesVerdict,
}

/// Whether an insight that did not pass is on its way out already and must not be rejected.
pub open spec fn halting(insight: InsightView) -> bool {
    insight.closing || insight.cancelling || insight.state.inactive()
}

/// Whether the results are those of a run that went on until the last one at most.
pub open spec fn orderly(results: Seq<InsightPipeResult>) -> bool {
    forall|i: int| 0 <= i < results.len() - 1 ==> (#[trigger] results[i]).goes_on()
}

/// How a run with these results ends, with the insight as the last pipe left it.
pub open spec fn ends_as(
    results: Seq<InsightPipeResult>,
    insight: InsightView,
    verdict: PipesVerdict,
) -> bool {
    if results.len() == 0 || results.last().goes_on() {
        verdict is Completed
    } else if results.last().success && halting(insight) {
        verdict is Halted
    } else {
        verdict matches PipesVerdict::Failed(reason) && reason@ == results.last().reason()
    }
}

fn is_halting(insight: &Insight) -> (r: bool)
    ensures
        r == halting(insight@),
{
    insight.closing || insight.cancelling || insight.state.is_inactive()
}

/// What a pipe's result means for the insight, as the pipe left it: go on, stop, or reject.
pub fn judge(result: &InsightPipeResult, insight: &Insight) -> (r: Option<PipesVerdict>)
    ensures
        match r {
            None => result.goes_on(),
            Some(verdict) => !result.goes_on() && ends_as(seq![*result], insight@, verdict),
        },
{
    if !result.success {
        Some(PipesVerdict::Failed(result.reason_text()))
    } else if !result.passed {
        if is_halting(insight) {
            Some(PipesVerdict::Halted)
        } else {
            Some(PipesVerdict::Failed(result.reason_text()))
        }
    } else {
        None
    }
}

/// Where a run through pipes stands.
pub struct PipesState<C, P> {
    pub pipes: Seq<WrappedInsightPipe<P>>,
    pub context: C,
    pub insight: Insight,
    pub results: Seq<InsightPipeResult>,
}

/// Whether the pipe at `k` may lead from one state of a run to the next: it does not apply, and
/// nothing changes, or it is run, and its result is added.
pub open spec fn pipe_done<C, P: InsightPipe<C>>(
    from: PipesState<C, P>,
    to: PipesState<C, P>,
    k: int,
) -> bool {
    ||| {
        &&& call_ensures(
            <P as InsightPipe<C>>::should_run,
            (&from.pipes[k].pipe, &from.insight),
            false,
        )
        &&& to == from
    }
    ||| {
        &&& call_ensures(
            <P as InsightPipe<C>>::should_run,
            (&from.pipes[k].pipe, &from.insight),
            true,
        )
        &&& to.results.len() > 0
        &&& to.results.drop_last() == from.results
        &&& to.pipes == from.pipes.update(
            k,
            (WrappedInsightPipe {
                target_state: from.pipes[k].target_state,
                pipe: to.pipes[k].pipe,
            }),
        )
        &&& from.pipes[k].pipe.may_run(
            from.context,
            from.insight,
            &to.pipes[k].pipe,
            to.context,
            to.insight,
            to.results.last(),
        )
    }
}

/// Whether the pipe at `k` may lead from the state at `k` to the next one.
pub open spec fn pipe_step<C, P: InsightPipe<C>>(states: Seq<PipesState<C, P>>, k: int) -> bool {
    pipe_done(states[k], states[k + 1], k)
}

/// Whether these may be the states of a run from its start, pipe by pipe.
pub open spec fn pipes_linked<C, P: InsightPipe<C>>(states: Seq<PipesState<C, P>>) -> bool {
    &&& states.len() > 0
    &&& states[0].results.len() == 0
    &&& states.len() <= states[0].pipes.len() + 1
    &&& forall|k: int| 0 <= k < states.len() - 1 ==> #[trigger] pipe_step(states, k)
}

/// Whether `run` may be a run through pipes that began at `from` and ended at `to`: it went on until
/// a pipe did not let the insight go on, or to the last pipe.
pub open spec fn went_through<C, P: InsightPipe<C>>(
    from: PipesState<C, P>,
    to: PipesState<C, P>,
    run: PipesRun,
) -> bool {
    &&& to.results == run.results@
    &&& orderly(run.results@)
    &&& ends_as(run.results@, to.insight@, run.verdict)
    &&& exists|states: Seq<PipesState<C, P>>| #[trigger]
        pipes_linked(states) && states[0] == from && states.last() == to && (states.len()
            == from.pipes.len() + 1 || run.verdict !is Completed)
}

/// Runs the insight through the pipes, in order, until one of them does not let it go on.
pub fn run_pipes<C, P: InsightPipe<C>>(
    pipes: &mut Vec<WrappedInsightPipe<P>>,
    context: &mut C,
    insight: &mut Insight,
) -> (r: PipesRun)
    ensures
        final(pipes)@.len() == old(pipes)@.len(),
        went_through(
            (PipesState {
                pipes: old(pipes)@,
                context: *old(context),
                insight: *old(insight),
                results: Seq::empty(),
            }),
            (PipesState {
                pipes: final(pipes)@,
                context: *final(context),
                insight: *final(insight),
                results: r.results@,
            }),
            r,
        ),
{
    let mut results: Vec<InsightPipeResult> = Vec::new();
    let mut i: usize = 0;
    let ghost mut states: Seq<PipesState<C, P>> = seq![
        PipesState {
            pipes: pipes@,
            context: *context,
            insight: *insight,
            results: Seq::empty(),
        },
    ];
    proof {
        assert(results@ =~= Seq::<InsightPipeResult>::empty());
    }
    while i < pipes.len()
        invariant
            i <= pipes.len(),
            pipes@.len() == old(pipes)@.len(),
            orderly(results@),
            results@.len() > 0 ==> results@.last().goes_on(),
            states.len() == i + 1,
            pipes_linked(states),
            states[0] == (PipesState {
                pipes: old(pipes)@,
                context: *old(context),
                insight: *old(insight),
                results: Seq::empty(),
            }),
            states.last() == (PipesState {
                pipes: pipes@,
                context: *context,
                insight: *insight,
                results: results@,
            }),
        decreases pipes.len() - i,
    {
        let ghost at = states.last();
        if pipes[i].pipe.should_run(insight) {
            let result = pipes[i].pipe.run(context, insight);
            let verdict = judge(&result, insight);
            let ghost said = result;
            results.push(result);
            proof {
                let next = PipesState {
                    pipes: pipes@,
                    context: *context,
                    insight: *insight,
                    results: results@,
                };
                assert(results@.drop_last() =~= at.results);
                assert(pipes@ =~= at.pipes.update(
                    i as int,
                    WrappedInsightPipe {
                        target_state: at.pipes[i as int].target_state,
                        pipe: next.pipes[i as int].pipe,
                    },
                ));
                assert(pipe_done(at, next, i as int));
                states_grow(states, next);
                states = states.push(next);
            }
            match verdict {
                Some(verdict) => {
                    return PipesRun { results, verdict };
                },
                None => {},
            }
        } else {
            proof {
                assert(pipe_done(at, at, i as int));
                states_grow(states, at);
                states = states.push(at);
            }
        }
        i = i + 1;
    }
    PipesRun { results, verdict: PipesVerdict::Completed }
}

proof fn states_grow<C, P: InsightPipe<C>>(
    states: Seq<PipesState<C, P>>,
    next: PipesState<C, P>,
)
    requires
        pipes_linked(states),
        states.len() <= states[0].pipes.len(),
        pipe_done(states.last(), next, states.len() - 1),
    ensures
        pipes_linked(states.push(next)),
{
    let more = states.push(next);
    assert forall|k: int| 0 <= k < more.len() - 1 implies #[trigger] pipe_step(more, k) by {
        if k < states.len() - 1 {
            assert(pipe_step(states, k));
        }
    }
}

/// The insight at the end of its run: a failure rejects it unless it is over, and a completed run
/// clears the mark of a first fill where the run began with it.
pub open spec fn settled(
    insight: InsightView,
    verdict: PipesVerdict,
    clear_first_on_fill: bool,
    now: UtcTime,
) -> InsightView {
    match verdict {
        PipesVerdict::Failed(reason) => if insight.state.inactive() {
            insight
        } else {
            insight.rejected(reason@, now)
        },
        _ => if clear_first_on_fill {
            insight.first_fill_marked(false, now)
        } else {
            insight
        },
    }
}

/// Ends the insight's run.
pub fn settle(
    insight: &mut Insight,
    verdict: &PipesVerdict,
    clear_first_on_fill: bool,
    now: UtcTime,
)
    ensures
        final(insight)@ == settled(old(insight)@, *verdict, clear_first_on_fill, now),
{
    match verdict {
        PipesVerdict::Failed(reason) => {
            if !insight.state.is_inactive() {
                insight.order_rejected(reason.as_str(), now);
            }
        },
        _ => {
            if clear_first_on_fill {
                insight.set_first_on_fill(false, now);
            }
        },
    }
}

/// Whether a run on `insight` clears the mark of a first fill.
pub open spec fn clears_mark(insight: InsightView) -> bool {
    insight.state is Filled && insight.first_on_fill
}

/// What one insight's turn in the pipeline came to.
pub struct InsightRun {
    /// The run through the pipes, or `None` for an insight that had expired.
    pub run: Option<PipesRun>,
    /// The fingerprint taken before the insight could change.
    pub before: Option<u64>,
    /// The fingerprint at the end.
    pub after: u64,
    /// Whether the insight has to be written out.
    pub touched: bool,
}

/// Where the turn of an insight stands.
pub struct TurnState<C, P> {
    pub pipeline: InsightPipeline<P>,
    pub context: C,
    pub insight: Insight,
}

/// Whether the insight may go through the pipes of its state from `asked` on, what `from` became when
/// it was asked whether the insight has expired: then it is settled by the verdict.
pub open spec fn may_pass<C: PipelineContext, P: InsightPipe<C>>(
    from: TurnState<C, P>,
    asked: (C, Insight),
    to: TurnState<C, P>,
    run: PipesRun,
) -> bool {
    &&& exists|left: Insight, now: UtcTime|
        to.insight@ == #[trigger] settled(left@, run.verdict, clears_mark(from.insight@), now)
            && call_ensures(<C as PipelineContext>::now, (&to.context,), now) && went_through(
            PipesState {
                pipes: from.pipeline.bucket(from.insight.state),
                context: asked.0,
                insight: asked.1,
                results: Seq::empty(),
            },
            PipesState {
                pipes: to.pipeline.bucket(from.insight.state),
                context: to.context,
                insight: left,
                results: run.results@,
            },
            run,
        )
    &&& forall|other: InsightState|
        other != from.insight.state ==> #[trigger] to.pipeline.bucket(other)
            == from.pipeline.bucket(other)
}

/// Whether the turn of an insight that can expire, or cannot, may lead from `from` to `to`: an
/// insight that has expired is left as that leaves it, another goes through the pipes.
pub open spec fn may_end<C: PipelineContext, P: InsightPipe<C>>(
    from: TurnState<C, P>,
    to: TurnState<C, P>,
    run: Option<PipesRun>,
    can_expire: bool,
) -> bool {
    match run {
        None => {
            &&& can_expire
            &&& from.context.may_expire(from.insight, &to.context, to.insight, true)
            &&& to.pipeline == from.pipeline
        },
        Some(run) => if can_expire {
            exists|asked: (C, Insight)|
                from.context.may_expire(from.insight, &asked.0, asked.1, false)
                    && #[trigger] may_pass(from, asked, to, run)
        } else {
            may_pass(from, (from.context, from.insight), to, run)
        },
    }
}

/// Whether the pipe at `k` may say whether it applies to the insight.
pub open spec fn may_apply<C, P: InsightPipe<C>>(
    pipes: Seq<WrappedInsightPipe<P>>,
    insight: Insight,
    k: int,
    applies: bool,
) -> bool {
    call_ensures(<P as InsightPipe<C>>::should_run, (&pipes[k].pipe, &insight), applies)
}

/// Whether the fingerprints of a turn may be these. The first is taken where the insight can expire,
/// bears the mark of a first fill, or a pipe applies to it.
pub open spec fn fingerprinted<C: PipelineContext, P: InsightPipe<C>>(
    from: TurnState<C, P>,
    to: TurnState<C, P>,
    turn: InsightRun,
    can_expire: bool,
) -> bool {
    let pipes = from.pipeline.bucket(from.insight.state);
    &&& call_ensures(<C as PipelineContext>::fingerprint, (&to.context, &to.insight), turn.after)
    &&& turn.touched == (turn.before matches Some(before) && before != turn.after)
    &&& match turn.before {
        Some(before) => {
            &&& call_ensures(
                <C as PipelineContext>::fingerprint,
                (&from.context, &from.insight),
                before,
            )
            &&& can_expire || clears_mark(from.insight@) || exists|k: int|
                0 <= k < pipes.len() && #[trigger] may_apply::<C, P>(pipes, from.insight, k, true)
        },
        None => {
            &&& !can_expire && !clears_mark(from.insight@)
            &&& forall|k: int|
                0 <= k < pipes.len() ==> #[trigger] may_apply::<C, P>(
                    pipes,
                    from.insight,
                    k,
                    false,
                )
        },
    }
}

/// Whether the turn of an insight may lead from `from` to `to`.
pub open spec fn may_turn<C: PipelineContext, P: InsightPipe<C>>(
    from: TurnState<C, P>,
    to: TurnState<C, P>,
    turn: InsightRun,
) -> bool {
    exists|can_expire: bool|
        call_ensures(
            <C as PipelineContext>::can_expire,
            (&from.context, &from.insight),
            can_expire,
        ) && #[trigger] may_end(from, to, turn.run, can_expire) && fingerprinted(
            from,
            to,
            turn,
            can_expire,
        )
}

/// Gives one insight its turn: unless it has expired, it runs through the pipes of its state. It
/// has to be written out where its fingerprint, taken before it could change, is no longer the
/// same.
pub fn run_insight<C: PipelineContext, P: InsightPipe<C>>(
    pipeline: &mut InsightPipeline<P>,
    context: &mut C,
    insight: &mut Insight,
) -> (r: InsightRun)
    ensures
        may_turn(
            (TurnState { pipeline: *old(pipeline), context: *old(context), insight: *old(insight) }),
            (TurnState {
                pipeline: *final(pipeline),
                context: *final(context),
                insight: *final(insight),
            }),
            r,
        ),
{
    let ghost from = TurnState { pipeline: *pipeline, context: *context, insight: *insight };
    let state = insight.state;
    let can_expire = context.can_expire(insight);
    let clear = state == InsightState::Filled && insight.first_on_fill;
    let mut before: Option<u64> = None;
    if can_expire || clear {
        before = Some(context.fingerprint(insight));
    }
    if can_expire && context.has_expired(insight) {
        let after = context.fingerprint(insight);
        let turn = InsightRun { run: None, before, after, touched: changed(before, after) };
        proof {
            let to = TurnState { pipeline: *pipeline, context: *context, insight: *insight };
            assert(may_end(from, to, turn.run, can_expire));
        }
        return turn;
    }
    let ghost asked = (*context, *insight);
    let run = match pipeline.get_pipes_for_state(&state) {
        Some(pipes) => {
            if before.is_none() && any_applies(pipes, insight) {
                before = Some(context.fingerprint(insight));
            }
            run_pipes(pipes, context, insight)
        },
        None => PipesRun { results: Vec::new(), verdict: PipesVerdict::Completed },
    };
    let ghost left = *insight;
    let now = context.now();
    settle(insight, &run.verdict, clear, now);
    let after = context.fingerprint(insight);
    let turn = InsightRun { run: Some(run), before, after, touched: changed(before, after) };
    proof {
        let to = TurnState { pipeline: *pipeline, context: *context, insight: *insight };
        assert(insight@ == settled(left@, run.verdict, clears_mark(from.insight@), now));
        assert(may_pass(from, asked, to, run));
        assert(may_end(from, to, turn.run, can_expire));
    }
    turn
}

/// Whether a fingerprint was taken and differs from the present one.
pub fn changed(before: Option<u64>, after: u64) -> (r: bool)
    ensures
        r == (before matches Some(b) && b != after),
{
    match before {
        Some(b) => b != after,
        None => false,
    }
}

fn any_applies<C, P: InsightPipe<C>>(
    pipes: &Vec<WrappedInsightPipe<P>>,
    insight: &Insight,
) -> (r: bool)
    ensures
        r ==> exists|k: int|
            0 <= k < pipes@.len() && #[trigger] may_apply::<C, P>(pipes@, *insight, k, true),
        !r ==> forall|k: int|
            0 <= k < pipes@.len() ==> #[trigger] may_apply::<C, P>(pipes@, *insight, k, false),
{
    let mut i: usize = 0;
    while i < pipes.len()
        invariant
            i <= pipes.len(),
            forall|k: int| 0 <= k < i ==> #[trigger] may_apply::<C, P>(pipes@, *insight, k, false),
        decreases pipes.len() - i,
    {
        if pipes[i].pipe.should_run(insight) {
            proof {
                assert(may_apply::<C, P>(pipes@, *insight, i as int, true));
            }
            return true;
        }
        i = i + 1;
    }
    false
}

/// The ids to write out once those of `touched` are marked, one after the other.
pub open spec fn all_marked(dirty: Seq<u128>, touched: Seq<u128>) -> Seq<u128>
    decreases touched.len(),
{
    if touched.len() == 0 {
        dirty
    } else {
        marked(all_marked(dirty, touched.drop_last()), touched.last())
    }
}

/// Where the turns of all insights stand, with the ids of those that changed.
pub struct PipelineState<C, P> {
    pub pipeline: InsightPipeline<P>,
    pub context: C,
    pub insights: Seq<InsightView>,
    pub touched: Seq<u128>,
}

/// Whether the turn of the insight at `k` may lead from one state to the next. An insight that is
/// over has no turn.
pub open spec fn insight_done<C: PipelineContext, P: InsightPipe<C>>(
    from: PipelineState<C, P>,
    to: PipelineState<C, P>,
    k: int,
) -> bool {
    if from.insights[k].state.inactive() {
        to == from
    } else {
        exists|start: Insight, end: Insight, turn: InsightRun|
            start@ == from.insights[k] && #[trigger] may_turn(
                TurnState { pipeline: from.pipeline, context: from.context, insight: start },
                TurnState { pipeline: to.pipeline, context: to.context, insight: end },
                turn,
            ) && to.insights == from.insights.update(k, kept_id(start@, end@)) && to.touched == (
            if turn.touched {
                from.touched.push(start@.insight_id)
            } else {
                from.touched
            })
    }
}

/// Whether the turn of the insight at `k` may lead from the state at `k` to the next one.
pub open spec fn insight_step<C: PipelineContext, P: InsightPipe<C>>(
    states: Seq<PipelineState<C, P>>,
    k: int,
) -> bool {
    insight_done(states[k], states[k + 1], k)
}

/// Whether these may be the states of the turns of all insights from their start, one after the
/// other.
pub open spec fn turns_linked<C: PipelineContext, P: InsightPipe<C>>(
    states: Seq<PipelineState<C, P>>,
) -> bool {
    &&& states.len() > 0
    &&& states[0].touched.len() == 0
    &&& forall|k: int| 0 <= k < states.len() - 1 ==> #[trigger] insight_step(states, k)
}

/// Whether the turns of all insights may lead from `from` to `to`.
pub open spec fn all_turned<C: PipelineContext, P: InsightPipe<C>>(
    from: PipelineState<C, P>,
    to: PipelineState<C, P>,
) -> bool {
    exists|states: Seq<PipelineState<C, P>>| #[trigger]
        turns_linked(states) && states[0] == from && states.last() == to && states.len()
            == from.insights.len() + 1
}

proof fn turns_grow<C: PipelineContext, P: InsightPipe<C>>(
    states: Seq<PipelineState<C, P>>,
    next: PipelineState<C, P>,
)
    requires
        turns_linked(states),
        insight_done(states.last(), next, states.len() - 1),
    ensures
        turns_linked(states.push(next)),
{
    let more = states.push(next);
    assert forall|k: int| 0 <= k < more.len() - 1 implies #[trigger] insight_step(more, k) by {
        if k < states.len() - 1 {
            assert(insight_step(states, k));
        }
    }
}

/// Gives every insight that is not over its turn, in order, and marks those that changed. Insights
/// that are over are left alone, and none is added, removed or renamed.
pub fn run_insight_pipeline<C: PipelineContext, P: InsightPipe<C>>(
    pipeline: &mut InsightPipeline<P>,
    context: &mut C,
    insights: &mut InsightCollection,
)
    requires
        old(insights).wf(),
    ensures
        final(insights).wf(),
        ids_of(final(insights).insights_view()) == ids_of(old(insights).insights_view()),
        final(insights).insights_view().len() == old(insights).insights_view().len(),
        forall|i: int|
            0 <= i < old(insights).insights_view().len() && (#[trigger] old(
                insights,
            ).insights_view()[i]).state.inactive() ==> final(insights).insights_view()[i] == old(
                insights,
            ).insights_view()[i],
        exists|touched: Seq<u128>|
            all_turned(
                (PipelineState {
                    pipeline: *old(pipeline),
                    context: *old(context),
                    insights: old(insights).insights_view(),
                    touched: Seq::empty(),
                }),
                (PipelineState {
                    pipeline: *final(pipeline),
                    context: *final(context),
                    insights: final(insights).insights_view(),
                    touched,
                }),
            ) && final(insights).dirty_view() == #[trigger] all_marked(
                old(insights).dirty_view(),
                touched,
            ),
{
    let mut touched: Vec<u128> = Vec::new();
    let ghost all = insights.insights_view();
    let ghost from = PipelineState {
        pipeline: *pipeline,
        context: *context,
        insights: all,
        touched: Seq::<u128>::empty(),
    };
    let ghost mut states: Seq<PipelineState<C, P>> = seq![from];
    proof {
        assert(touched@ =~= Seq::<u128>::empty());
    }
    let mut i: usize = 0;
    while i < insights.len()
        invariant
            i <= insights.insights_view().len(),
            insights.wf(),
            insights.dirty_view() == old(insights).dirty_view(),
            insights.insights_view().len() == all.len(),
            ids_of(insights.insights_view()) == ids_of(all),
            forall|k: int| i <= k < all.len() ==> #[trigger] insights.insights_view()[k] == all[k],
            forall|k: int|
                0 <= k < all.len() && (#[trigger] all[k]).state.inactive()
                    ==> insights.insights_view()[k] == all[k],
            turns_linked(states),
            states.len() == i + 1,
            states[0] == from,
            states.last() == (PipelineState {
                pipeline: *pipeline,
                context: *context,
                insights: insights.insights_view(),
                touched: touched@,
            }),
        decreases insights.insights_view().len() - i,
    {
        let ghost at = states.last();
        let ghost before = insights.insights_view();
        if !insights.at(i).state.is_inactive() {
            let mut insight = insights.remove_at(i);
            let ghost start = insight;
            let id = insight.insight_id;
            let turn = run_insight(pipeline, context, &mut insight);
            let ghost end = insight;
            insight.insight_id = id;
            if turn.touched {
                touched.push(id);
            }
            proof {
                assert forall|k: int| !at_id(insights.insights_view(), id, k) by {
                    if at_id(insights.insights_view(), id, k) {
                        let at = if k < i {
                            k
                        } else {
                            k + 1
                        };
                        assert(before[at].insight_id == before[i as int].insight_id);
                    }
                }
            }
            insights.insert_at(i, insight);
            proof {
                let after = insights.insights_view();
                assert(after =~= before.update(i as int, kept_id(start@, end@)));
                assert forall|k: int| 0 <= k < all.len() implies #[trigger] ids_of(after)[k]
                    == ids_of(all)[k] by {
                    assert(ids_of(before)[k] == ids_of(all)[k]);
                }
                assert(ids_of(after) =~= ids_of(all));
            }
        }
        proof {
            let next = PipelineState {
                pipeline: *pipeline,
                context: *context,
                insights: insights.insights_view(),
                touched: touched@,
            };
            assert(insight_done(at, next, i as int));
            turns_grow(states, next);
            states = states.push(next);
        }
        i = i + 1;
    }
    let mut k: usize = 0;
    let ghost ended = insights.insights_view();
    while k < touched.len()
        invariant
            k <= touched.len(),
            insights.wf(),
            insights.insights_view() == ended,
            insights.dirty_view() == all_marked(
                old(insights).dirty_view(),
                touched@.take(k as int),
            ),
        decreases touched.len() - k,
    {
        proof {
            assert(touched@.take(k + 1).drop_last() =~= touched@.take(k as int));
        }
        insights.refresh_runtime_tracking(touched[k]);
        k = k + 1;
    }
    proof {
        assert(touched@.take(k as int) =~= touched@);
        assert(all_turned(from, states.last()));
    }
}

/// `end` under the id of `start`.
pub open spec fn kept_id(start: InsightView, end: InsightView) -> InsightView {
    InsightView { insight_id: start.insight_id, ..end }
}

/// A pipe lets an insight go on exactly where it succeeded and the insight passed. Where it succeeded
/// and the insight did not pass because it is being closed or cancelled, or is over, the run halts;
/// otherwise it fails, for the reason that the pipe gives.
pub proof fn pipes_decide_who_goes_on(
    result: &InsightPipeResult,
    insight: &Insight,
    r: Option<PipesVerdict>,
)
    requires
        call_ensures(judge, (result, insight), r),
    ensures
        ({
            let ending = insight.closing || insight.cancelling || insight.state is Closed
                || insight.state is Cancelled || insight.state is Rejected;
            &&& r is None <==> result.success && result.passed
            &&& result.success && !result.passed && ending ==> r == Some(PipesVerdict::Halted)
            &&& !result.success || (!result.passed && !ending) ==> r is Some && r->Some_0 is Failed
            &&& r is Some && r->Some_0 is Failed && result.message is Some
                ==> r->Some_0->Failed_0@ == result.message->Some_0@
        }),
{
}

/// An insight that a pipe failed is rejected, for that reason, unless it is over; one that was halted
/// or came through is not, and loses its mark of a first fill where it had it.
pub proof fn failed_insights_are_rejected(
    insight: InsightView,
    verdict: PipesVerdict,
    clear: bool,
    now: UtcTime,
)
    ensures
        ({
            let to = settled(insight, verdict, clear, now);
            let open = insight.state is New || insight.state is Executed || insight.state is Filled;
            &&& verdict is Failed && open ==> to.state is Rejected && to.history.len()
                == insight.history.len() + 1 && to.history.last().state is Rejected
            &&& verdict is Failed && !open ==> to == insight
            &&& !(verdict is Failed) ==> to.state == insight.state
            &&& !(verdict is Failed) && clear ==> !to.first_on_fill
            &&& !(verdict is Failed) && !clear ==> to == insight
            &&& to.insight_id == insight.insight_id
            &&& to.filled_price == insight.filled_price
            &&& to.order_id == insight.order_id
        }),
        clears_mark(insight) <==> insight.state is Filled && insight.first_on_fill,
{
}

/// The pipes of a state are those that were added for it, and no others, in the order in which they
/// were added.
pub proof fn pipes_run_for_their_state<P>(
    pipes: Seq<WrappedInsightPipe<P>>,
    pipe: WrappedInsightPipe<P>,
    state: InsightState,
)
    ensures
        pipe.target_state == state ==> pipes_for(pipes.push(pipe), state) == pipes_for(
            pipes,
            state,
        ).push(pipe),
        pipe.target_state != state ==> pipes_for(pipes.push(pipe), state) == pipes_for(
            pipes,
            state,
        ),
        pipes_for(Seq::<WrappedInsightPipe<P>>::empty(), state).len() == 0,
{
    assert(pipes.push(pipe).drop_last() =~= pipes);
}

/// A run ends at the first pipe that does not let the insight go on, and is complete where all did.
pub proof fn runs_end_at_the_first_refusal(
    results: Seq<InsightPipeResult>,
    insight: InsightView,
    verdict: PipesVerdict,
    i: int,
)
    requires
        orderly(results),
        ends_as(results, insight, verdict),
        0 <= i < results.len(),
    ensures
        !(results[i].success && results[i].passed) ==> i == results.len() - 1 && !(verdict
            is Completed),
        verdict is Completed ==> results[i].success && results[i].passed,
        verdict is Halted ==> results.last().success && !results.last().passed && (insight.closing
            || insight.cancelling || insight.state is Closed || insight.state is Cancelled
            || insight.state is Rejected),
{
    if i < results.len() - 1 {
        assert(results[i].goes_on());
    }
}

/// A pipe that failed rejects the insight with its reason unless that is over already; otherwise
/// only the mark of a first fill is taken off, where it was handled.
pub proof fn failed_pipes_reject_their_insight()
    ensures
        forall|i: &mut Insight, verdict: PipesVerdict, clear: bool, now: UtcTime, r: ()| #[trigger]
            call_ensures(settle, (i, &verdict, clear, now), r) ==> {
                let over = i.state is Closed || i.state is Cancelled || i.state is Rejected;
                &&& verdict is Failed && over ==> final(i)@ == i@
                &&& verdict is Failed && !over ==> final(i).state is Rejected
                    && final(i).first_on_fill == i.first_on_fill && final(i).updated_at == now
                &&& !(verdict is Failed) && !clear ==> final(i)@ == i@
                &&& !(verdict is Failed) && clear ==> !final(i).first_on_fill && final(i).state
                    == i.state
            },
{
}

/// A pipe is put behind those of its state; those of other states stay as they are.
pub proof fn pipes_are_put_behind_their_like<P>(state: InsightState)
    ensures
        forall|p: &mut InsightPipeline<P>, pipe: WrappedInsightPipe<P>, r: ()| #[trigger]
            call_ensures(InsightPipeline::<P>::add_pipe, (p, pipe), r) ==> {
                &&& pipe.target_state == state ==> final(p).bucket(state).len() == p.bucket(
                    state,
                ).len() + 1 && final(p).bucket(state).last() == pipe && final(p).bucket(
                    state,
                ).drop_last() == p.bucket(state)
                &&& pipe.target_state != state ==> final(p).bucket(state) == p.bucket(state)
            },
{
    assert forall|p: &mut InsightPipeline<P>, pipe: WrappedInsightPipe<P>, r: ()| #[trigger]
        call_ensures(InsightPipeline::<P>::add_pipe, (p, pipe), r) && pipe.target_state
            == state implies final(p).bucket(state).drop_last() == p.bucket(state) by {
        assert(final(p).bucket(state).drop_last() =~= p.bucket(state));
    }
}

/// A run through no pipes changes nothing and is complete. Every pipe before the last that was run
/// let the insight go on, and the last one did so where the run is complete.
pub proof fn runs_go_on_while_pipes_let_them<C, P: InsightPipe<C>>(k: int)
    ensures
        forall|
            pipes: &mut Vec<WrappedInsightPipe<P>>,
            context: &mut C,
            insight: &mut Insight,
            r: PipesRun,
        | #[trigger]
            call_ensures(run_pipes::<C, P>, (pipes, context, insight), r) ==> {
                &&& final(pipes)@.len() == pipes@.len()
                &&& pipes@.len() == 0 ==> r.verdict is Completed && r.results@.len() == 0
                    && *final(insight) == *insight && *final(context) == *context
                &&& 0 <= k < r.results@.len() - 1 ==> r.results@[k].success
                    && r.results@[k].passed
                &&& r.verdict is Completed && 0 <= k < r.results@.len() ==> r.results@[k].success
                    && r.results@[k].passed
                &&& !(r.verdict is Completed) ==> r.results@.len() > 0 && !(r.results@.last().success
                    && r.results@.last().passed)
            },
{
    assert forall|
        pipes: &mut Vec<WrappedInsightPipe<P>>,
        context: &mut C,
        insight: &mut Insight,
        r: PipesRun,
    | #[trigger]
        call_ensures(run_pipes::<C, P>, (pipes, context, insight), r) implies {
        &&& pipes@.len() == 0 ==> r.verdict is Completed && r.results@.len() == 0
            && *final(insight) == *insight && *final(context) == *context
        &&& 0 <= k < r.results@.len() - 1 ==> r.results@[k].success && r.results@[k].passed
        &&& r.verdict is Completed && 0 <= k < r.results@.len() ==> r.results@[k].success
            && r.results@[k].passed
    } by {
        let from = PipesState::<C, P> {
            pipes: pipes@,
            context: *context,
            insight: *insight,
            results: Seq::empty(),
        };
        let to = PipesState::<C, P> {
            pipes: final(pipes)@,
            context: *final(context),
            insight: *final(insight),
            results: r.results@,
        };
        assert(went_through(from, to, r));
        let states = choose|states: Seq<PipesState<C, P>>| #[trigger]
            pipes_linked(states) && states[0] == from && states.last() == to && (states.len()
                == from.pipes.len() + 1 || r.verdict !is Completed);
        if pipes@.len() == 0 {
            assert(states.len() == 1);
        }
        if 0 <= k < r.results@.len() - 1 {
            assert(r.results@[k].goes_on());
        }
    }
}

/// An insight is written out where it was looked at before its turn and is no longer the same.
pub proof fn changed_insights_are_written_out(before: Option<u64>, after: u64, r: bool)
    requires
        call_ensures(changed, (before, after), r),
    ensures
        r <==> before is Some && before->Some_0 != after,
{
}

/// An insight that expired goes through no pipe, and the pipes stay; one that goes through them
/// leaves the pipes of the other states as they were.
pub proof fn turns_touch_only_the_pipes_of_the_state<C: PipelineContext, P: InsightPipe<C>>(
    state: InsightState,
)
    ensures
        forall|p: &mut InsightPipeline<P>, context: &mut C, i: &mut Insight, r: InsightRun|
            #[trigger]
            call_ensures(run_insight::<C, P>, (p, context, i), r) ==> {
                &&& r.touched <==> r.before is Some && r.before->Some_0 != r.after
                &&& r.run is None ==> *final(p) == *p
                &&& state != i.state ==> final(p).bucket(state) == p.bucket(state)
                &&& i.state is Filled && i.first_on_fill ==> r.before is Some
            },
{
}

} // verus!
