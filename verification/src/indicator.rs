//! Indicators: figures that are computed along the history of bars.
use polars::prelude::DataFrame;
use vstd::prelude::*;

use crate::history::{
    add_nulls, columns_keep_frames_even, frame_height, frame_view, has_reals, height,
    indicator_window, real_cell, real_kind, set_real, window_of, FrameView,
    IndicatorWindow, WindowView, ROW_LIMIT,
};
use crate::number::Number;
use crate::time::UtcTime;

verus! {

/// An indicator, as its author writes it.
pub trait Indicator {
    /// The name by which a strategy tells its indicators apart.
    fn name(&self) -> String;

    /// Whether running the indicator along a history may leave both so, with this result; the author
    /// of an indicator decides, and else it may do anything.
    open spec fn may_run(
        &self,
        history: DataFrame,
        indicator_after: &Self,
        history_after: DataFrame,
        result: Result<(), String>,
    ) -> bool {
        true
    }

    /// Computes the indicator for all rows of a history.
    fn run(&mut self, history: &mut DataFrame) -> (r: Result<(), String>)
        ensures
            old(self).may_run(*old(history), final(self), *final(history), r),
    ;

    /// How many rows the indicator looks back on.
    fn window_size(&self) -> usize;

    /// Whether running the indicator on the last of the rows of `window` may leave it so, with this
    /// result.
    open spec fn may_run_bar(
        &self,
        window: DataFrame,
        indicator_after: &Self,
        result: Result<Vec<(String, Number)>, String>,
    ) -> bool {
        true
    }

    /// Computes the indicator for the last of the rows of `window`: the columns, and what they hold.
    fn run_bar(&mut self, window: &DataFrame) -> (r: Result<Vec<(String, Number)>, String>)
        ensures
            old(self).may_run_bar(*window, final(self), r),
    ;

    /// Whether telling the indicator when it was last run may leave it so.
    open spec fn may_note(&self, time: UtcTime, indicator_after: &Self) -> bool {
        true
    }

    /// Tells the indicator when it was last run.
    fn set_last_run_time(&mut self, time: UtcTime)
        ensures
            old(self).may_note(time, final(self)),
    ;
}

/// Where the runs of a new indicator along the histories stand.
pub struct BackfillState<I> {
    pub indicator: I,
    pub histories: Seq<DataFrame>,
    pub failures: Seq<String>,
}

/// What has failed, with one more result.
pub open spec fn failures_with(failures: Seq<String>, result: Result<(), String>) -> Seq<String> {
    match result {
        Ok(_) => failures,
        Err(error) => failures.push(error),
    }
}

/// Whether the run along the history at `k` may lead from one state to the next: an empty history is
/// passed over, and a run that fails is noted and stops nothing.
pub open spec fn backfill_done<I: Indicator>(
    from: BackfillState<I>,
    to: BackfillState<I>,
    k: int,
) -> bool {
    if frame_height(from.histories[k]) == 0 {
        to == from
    } else {
        &&& to.histories == from.histories.update(k, to.histories[k])
        &&& exists|result: Result<(), String>| #[trigger]
            from.indicator.may_run(from.histories[k], &to.indicator, to.histories[k], result)
                && to.failures == failures_with(from.failures, result)
    }
}

/// Whether the run along the history at `k` may lead from the state at `k` to the next one.
pub open spec fn backfill_step<I: Indicator>(states: Seq<BackfillState<I>>, k: int) -> bool {
    backfill_done(states[k], states[k + 1], k)
}

/// Whether these may be the states of the runs, one after the other.
pub open spec fn backfill_linked<I: Indicator>(states: Seq<BackfillState<I>>) -> bool {
    &&& states.len() > 0
    &&& forall|k: int| 0 <= k < states.len() - 1 ==> #[trigger] backfill_step(states, k)
}

/// Whether one run along each history that is not empty may lead from `from` to `to`.
pub open spec fn backfilled<I: Indicator>(from: BackfillState<I>, to: BackfillState<I>) -> bool {
    exists|states: Seq<BackfillState<I>>| #[trigger]
        backfill_linked(states) && states[0] == from && states.last() == to && states.len()
            == from.histories.len() + 1
}

proof fn backfill_grows<I: Indicator>(states: Seq<BackfillState<I>>, next: BackfillState<I>)
    requires
        backfill_linked(states),
        backfill_done(states.last(), next, states.len() - 1),
    ensures
        backfill_linked(states.push(next)),
{
    let more = states.push(next);
    assert forall|k: int| 0 <= k < more.len() - 1 implies #[trigger] backfill_step(more, k) by {
        if k < states.len() - 1 {
            assert(backfill_step(states, k));
        }
    }
}

proof fn empty_histories_stay_so_far<I: Indicator>(states: Seq<BackfillState<I>>, n: int, i: int)
    requires
        backfill_linked(states),
        0 <= n < states.len(),
        states.len() == states[0].histories.len() + 1,
        0 <= i < states[0].histories.len(),
        frame_height(states[0].histories[i]) == 0,
    ensures
        states[n].histories[i] == states[0].histories[i],
        states[n].histories.len() == states[0].histories.len(),
    decreases n,
{
    if n > 0 {
        empty_histories_stay_so_far(states, n - 1, i);
        assert(backfill_step(states, n - 1));
    }
}

/// An indicator is not run along an empty history, which stays as it is.
pub proof fn empty_histories_stay<I: Indicator>(
    from: BackfillState<I>,
    to: BackfillState<I>,
    i: int,
)
    requires
        backfilled(from, to),
        0 <= i < from.histories.len(),
        frame_height(from.histories[i]) == 0,
    ensures
        to.histories.len() == from.histories.len(),
        to.histories[i] == from.histories[i],
{
    let states = choose|states: Seq<BackfillState<I>>| #[trigger]
        backfill_linked(states) && states[0] == from && states.last() == to && states.len()
            == from.histories.len() + 1;
    empty_histories_stay_so_far(states, states.len() - 1, i);
}

/// Runs an indicator along each history that is not empty, and gives what failed.
pub fn backfill<I: Indicator>(indicator: &mut I, histories: &mut Vec<DataFrame>) -> (r: Vec<String>)
    ensures
        backfilled(
            (BackfillState {
                indicator: *old(indicator),
                histories: old(histories)@,
                failures: Seq::empty(),
            }),
            (BackfillState {
                indicator: *final(indicator),
                histories: final(histories)@,
                failures: r@,
            }),
        ),
{
    let mut failures: Vec<String> = Vec::new();
    let ghost from = BackfillState {
        indicator: *indicator,
        histories: histories@,
        failures: failures@,
    };
    let ghost mut states: Seq<BackfillState<I>> = seq![from];
    let mut i: usize = 0;
    while i < histories.len()
        invariant
            i <= histories.len(),
            histories@.len() == old(histories)@.len(),
            from.histories == old(histories)@,
            from.indicator == *old(indicator),
            from.failures == Seq::<String>::empty(),
            backfill_linked(states),
            states.len() == i + 1,
            states[0] == from,
            states.last() == (BackfillState {
                indicator: *indicator,
                histories: histories@,
                failures: failures@,
            }),
        decreases histories.len() - i,
    {
        let ghost at = states.last();
        if height(&histories[i]) > 0 {
            let result = indicator.run(&mut histories[i]);
            let ghost said = result;
            match result {
                Ok(_) => {},
                Err(error) => failures.push(error),
            }
            proof {
                let next = BackfillState {
                    indicator: *indicator,
                    histories: histories@,
                    failures: failures@,
                };
                assert(next.histories =~= at.histories.update(i as int, next.histories[i as int]));
                assert(at.indicator.may_run(
                    at.histories[i as int],
                    &next.indicator,
                    next.histories[i as int],
                    said,
                ));
                assert(next.failures == failures_with(at.failures, said));
            }
        }
        proof {
            let next = BackfillState {
                indicator: *indicator,
                histories: histories@,
                failures: failures@,
            };
            assert(backfill_done(at, next, i as int));
            backfill_grows(states, next);
            states = states.push(next);
        }
        i = i + 1;
    }
    proof {
        assert(backfilled(from, states.last()));
    }
    failures
}

/// Where the runs of all indicators along a history stand.
pub struct ApplyState<I> {
    pub indicators: Seq<I>,
    pub history: DataFrame,
    pub failures: Seq<String>,
}

/// Whether running the indicator at `k` may lead from one state to the next: it is told the time of
/// the run whether or not the run failed.
pub open spec fn apply_done<I: Indicator>(
    from: ApplyState<I>,
    to: ApplyState<I>,
    now: UtcTime,
    k: int,
) -> bool {
    &&& to.indicators == from.indicators.update(k, to.indicators[k])
    &&& exists|left: I, result: Result<(), String>|
        {
            &&& #[trigger] from.indicators[k].may_run(from.history, &left, to.history, result)
            &&& left.may_note(now, &to.indicators[k])
            &&& to.failures == failures_with(from.failures, result)
        }
}

/// Whether running the indicator at `k` may lead from the state at `k` to the next one.
pub open spec fn apply_step<I: Indicator>(
    states: Seq<ApplyState<I>>,
    now: UtcTime,
    k: int,
) -> bool {
    apply_done(states[k], states[k + 1], now, k)
}

/// Whether these may be the states of the runs, one after the other.
pub open spec fn apply_linked<I: Indicator>(states: Seq<ApplyState<I>>, now: UtcTime) -> bool {
    &&& states.len() > 0
    &&& forall|k: int| 0 <= k < states.len() - 1 ==> #[trigger] apply_step(states, now, k)
}

/// Whether running all indicators may lead from `from` to `to`. None is run along an empty history.
pub open spec fn applied<I: Indicator>(
    from: ApplyState<I>,
    to: ApplyState<I>,
    now: UtcTime,
) -> bool {
    if frame_height(from.history) == 0 {
        to == from
    } else {
        exists|states: Seq<ApplyState<I>>| #[trigger]
            apply_linked(states, now) && states[0] == from && states.last() == to && states.len()
                == from.indicators.len() + 1
    }
}

proof fn apply_grows<I: Indicator>(states: Seq<ApplyState<I>>, now: UtcTime, next: ApplyState<I>)
    requires
        apply_linked(states, now),
        apply_done(states.last(), next, now, states.len() - 1),
    ensures
        apply_linked(states.push(next), now),
{
    let more = states.push(next);
    assert forall|k: int| 0 <= k < more.len() - 1 implies #[trigger] apply_step(more, now, k) by {
        if k < states.len() - 1 {
            assert(apply_step(states, now, k));
        }
    }
}

/// Runs all indicators along a history that is not empty, and gives what failed.
pub fn apply_indicators_to_history<I: Indicator>(
    indicators: &mut Vec<I>,
    history: &mut DataFrame,
    now: UtcTime,
) -> (r: Vec<String>)
    ensures
        applied(
            (ApplyState {
                indicators: old(indicators)@,
                history: *old(history),
                failures: Seq::empty(),
            }),
            (ApplyState { indicators: final(indicators)@, history: *final(history), failures: r@ }),
            now,
        ),
{
    let mut failures: Vec<String> = Vec::new();
    proof {
        assert(failures@ =~= Seq::<String>::empty());
    }
    if height(history) == 0 {
        return failures;
    }
    let ghost from = ApplyState {
        indicators: indicators@,
        history: *history,
        failures: failures@,
    };
    let ghost mut states: Seq<ApplyState<I>> = seq![from];
    let mut i: usize = 0;
    while i < indicators.len()
        invariant
            i <= indicators.len(),
            indicators@.len() == old(indicators)@.len(),
            from.indicators == old(indicators)@,
            from.history == *old(history),
            from.failures == Seq::<String>::empty(),
            apply_linked(states, now),
            states.len() == i + 1,
            states[0] == from,
            states.last() == (ApplyState {
                indicators: indicators@,
                history: *history,
                failures: failures@,
            }),
        decreases indicators.len() - i,
    {
        let ghost at = states.last();
        let result = indicators[i].run(history);
        let ghost left = indicators@[i as int];
        let ghost said = result;
        match result {
            Ok(_) => {},
            Err(error) => failures.push(error),
        }
        indicators[i].set_last_run_time(now);
        proof {
            let next = ApplyState {
                indicators: indicators@,
                history: *history,
                failures: failures@,
            };
            assert(next.indicators =~= at.indicators.update(i as int, next.indicators[i as int]));
            assert(at.indicators[i as int].may_run(at.history, &left, next.history, said));
            assert(next.failures == failures_with(at.failures, said));
            assert(left.may_note(now, &next.indicators[i as int]));
            assert(apply_done(at, next, now, i as int));
            apply_grows(states, now, next);
            states = states.push(next);
        }
        i = i + 1;
    }
    proof {
        assert(apply_linked(states, now));
    }
    failures
}

/// New rows with the first `n` of the columns `names`, null in every row.
pub open spec fn with_columns(rows: FrameView, names: Seq<String>, n: nat) -> FrameView
    decreases n,
{
    if n == 0 {
        rows
    } else {
        with_columns(rows, names, (n - 1) as nat).with_nulls(names[n - 1]@, real_kind(64))
    }
}

/// New rows with the first `n` of the values that came of the row `row`, each in its column, where
/// there is one that holds reals.
pub open spec fn with_values(
    rows: FrameView,
    row: int,
    values: Seq<(String, Number)>,
    n: nat,
) -> FrameView
    decreases n,
{
    if n == 0 {
        rows
    } else {
        with_values(rows, row, values, (n - 1) as nat).with_cell(
            values[n - 1].0@,
            row,
            real_cell(values[n - 1].1.bits),
        )
    }
}

/// New rows with what came of the row `row`; nothing of a run that failed.
pub open spec fn with_result(
    rows: FrameView,
    row: int,
    result: Result<Vec<(String, Number)>, String>,
) -> FrameView {
    match result {
        Ok(values) => with_values(rows, row, values@, values@.len()),
        Err(_) => rows,
    }
}

/// Where the runs of all indicators on new rows stand.
pub struct UpdateState<I> {
    pub indicators: Seq<I>,
    pub rows: FrameView,
}

/// Whether an indicator may come to `left` on a row, and the rows to `to`: it is run where there is
/// enough to look back on, and what came of it is written.
pub open spec fn bar_run<I: Indicator>(
    indicator: I,
    left: I,
    history: FrameView,
    from: FrameView,
    to: FrameView,
    row: int,
    size: usize,
) -> bool {
    match window_of(history, from, row, size as int) {
        WindowView::Ready(view) => exists|
            window: DataFrame,
            result: Result<Vec<(String, Number)>, String>,
        | #[trigger]
            indicator.may_run_bar(window, &left, result) && frame_view(window) == view && to
                == with_result(from, row, result),
        _ => left == indicator && to == from,
    }
}

/// Whether the indicator at `k` may lead from one state to the next on a row: whether it was run or
/// not, and whether its run failed or not, it is told the time.
pub open spec fn bar_done<I: Indicator>(
    from: UpdateState<I>,
    to: UpdateState<I>,
    history: FrameView,
    row: int,
    now: UtcTime,
    k: int,
) -> bool {
    &&& to.indicators == from.indicators.update(k, to.indicators[k])
    &&& exists|size: usize, left: I|
        {
            &&& call_ensures(<I as Indicator>::window_size, (&from.indicators[k],), size)
            &&& #[trigger] bar_run(
                from.indicators[k],
                left,
                history,
                from.rows,
                to.rows,
                row,
                size,
            )
            &&& left.may_note(now, &to.indicators[k])
        }
}

/// Whether the indicator at `k` may lead from the state at `k` to the next one, on a row.
pub open spec fn bar_step<I: Indicator>(
    states: Seq<UpdateState<I>>,
    history: FrameView,
    row: int,
    now: UtcTime,
    k: int,
) -> bool {
    bar_done(states[k], states[k + 1], history, row, now, k)
}

/// Whether these may be the states on a row, one indicator after the other.
pub open spec fn bars_linked<I: Indicator>(
    states: Seq<UpdateState<I>>,
    history: FrameView,
    row: int,
    now: UtcTime,
) -> bool {
    &&& states.len() > 0
    &&& forall|k: int|
        0 <= k < states.len() - 1 ==> #[trigger] bar_step(states, history, row, now, k)
}

/// Whether all indicators may lead from one state to the next on a row.
pub open spec fn row_done<I: Indicator>(
    from: UpdateState<I>,
    to: UpdateState<I>,
    history: FrameView,
    row: int,
    now: UtcTime,
) -> bool {
    exists|states: Seq<UpdateState<I>>| #[trigger]
        bars_linked(states, history, row, now) && states[0] == from && states.last() == to
            && states.len() == from.indicators.len() + 1
}

/// Whether all indicators may lead from the state at `row` to the next one.
pub open spec fn row_step<I: Indicator>(
    states: Seq<UpdateState<I>>,
    history: FrameView,
    now: UtcTime,
    row: int,
) -> bool {
    row_done(states[row], states[row + 1], history, row, now)
}

/// Whether these may be the states, one row after the other.
pub open spec fn rows_linked<I: Indicator>(
    states: Seq<UpdateState<I>>,
    history: FrameView,
    now: UtcTime,
) -> bool {
    &&& states.len() > 0
    &&& forall|row: int|
        0 <= row < states.len() - 1 ==> #[trigger] row_step(states, history, now, row)
}

/// Whether `names` may be the names of the indicators.
pub open spec fn are_names<I: Indicator>(indicators: Seq<I>, names: Seq<String>) -> bool {
    &&& names.len() == indicators.len()
    &&& forall|k: int|
        0 <= k < names.len() ==> call_ensures(
            <I as Indicator>::name,
            (&indicators[k],),
            #[trigger] names[k],
        )
}

/// Whether the indicators may come to `to` on new rows: the rows get a column of each indicator, null
/// in every row; then, row by row, each indicator is run in turn.
pub open spec fn updated<I: Indicator>(
    from: UpdateState<I>,
    to: UpdateState<I>,
    history: FrameView,
    now: UtcTime,
) -> bool {
    exists|names: Seq<String>, states: Seq<UpdateState<I>>|
        {
            &&& #[trigger] are_names(from.indicators, names)
            &&& #[trigger] rows_linked(states, history, now)
            &&& states[0] == (UpdateState {
                indicators: from.indicators,
                rows: with_columns(from.rows, names, names.len()),
            })
            &&& states.last() == to
            &&& states.len() == from.rows.height + 1
        }
}

proof fn bars_grow<I: Indicator>(
    states: Seq<UpdateState<I>>,
    history: FrameView,
    row: int,
    now: UtcTime,
    next: UpdateState<I>,
)
    requires
        bars_linked(states, history, row, now),
        bar_done(states.last(), next, history, row, now, states.len() - 1),
    ensures
        bars_linked(states.push(next), history, row, now),
{
    let more = states.push(next);
    assert forall|k: int| 0 <= k < more.len() - 1 implies #[trigger] bar_step(
        more,
        history,
        row,
        now,
        k,
    ) by {
        if k < states.len() - 1 {
            assert(bar_step(states, history, row, now, k));
        }
    }
}

proof fn rows_grow<I: Indicator>(
    states: Seq<UpdateState<I>>,
    history: FrameView,
    now: UtcTime,
    next: UpdateState<I>,
)
    requires
        rows_linked(states, history, now),
        row_done(states.last(), next, history, states.len() - 1, now),
    ensures
        rows_linked(states.push(next), history, now),
{
    let more = states.push(next);
    assert forall|k: int| 0 <= k < more.len() - 1 implies #[trigger] row_step(
        more,
        history,
        now,
        k,
    ) by {
        if k < states.len() - 1 {
            assert(row_step(states, history, now, k));
        }
    }
}

fn add_columns<I: Indicator>(indicators: &Vec<I>, rows: &mut DataFrame) -> (names: Ghost<
    Seq<String>,
>)
    requires
        frame_view(*old(rows)).even(),
    ensures
        are_names(indicators@, names@),
        frame_view(*final(rows)) == with_columns(frame_view(*old(rows)), names@, names@.len()),
        frame_view(*final(rows)).even(),
        frame_height(*final(rows)) == frame_height(*old(rows)),
{
    let ghost mut names: Seq<String> = Seq::empty();
    let ghost before = frame_view(*rows);
    let mut i: usize = 0;
    while i < indicators.len()
        invariant
            i <= indicators.len(),
            names.len() == i,
            forall|k: int|
                0 <= k < i ==> call_ensures(
                    <I as Indicator>::name,
                    (&indicators@[k],),
                    #[trigger] names[k],
                ),
            frame_view(*rows) == with_columns(before, names, i as nat),
            frame_view(*rows).even(),
            frame_height(*rows) == before.height,
        decreases indicators.len() - i,
    {
        let name = indicators[i].name();
        let ghost longer = names.push(name);
        proof {
            columns_keep_frames_even(
                frame_view(*rows),
                name@,
                real_kind(64),
                0,
                Seq::empty(),
            );
            first_columns_stay(before, names, longer, i as nat);
        }
        add_nulls(rows, name.as_str());
        proof {
            names = longer;
        }
        i = i + 1;
    }
    Ghost(names)
}

proof fn first_columns_stay(rows: FrameView, a: Seq<String>, b: Seq<String>, n: nat)
    requires
        n <= a.len(),
        n <= b.len(),
        forall|k: int| 0 <= k < n ==> a[k] == b[k],
    ensures
        with_columns(rows, a, n) == with_columns(rows, b, n),
    decreases n,
{
    if n > 0 {
        first_columns_stay(rows, a, b, (n - 1) as nat);
    }
}

fn write_values(rows: &mut DataFrame, row: usize, values: &Vec<(String, Number)>)
    requires
        frame_view(*old(rows)).even(),
        row < frame_height(*old(rows)) < ROW_LIMIT,
    ensures
        frame_view(*final(rows)) == with_values(
            frame_view(*old(rows)),
            row as int,
            values@,
            values@.len(),
        ),
        frame_view(*final(rows)).even(),
        frame_height(*final(rows)) == frame_height(*old(rows)),
{
    let ghost before = frame_view(*rows);
    let mut i: usize = 0;
    while i < values.len()
        invariant
            i <= values.len(),
            row < before.height < ROW_LIMIT,
            frame_view(*rows) == with_values(before, row as int, values@, i as nat),
            frame_view(*rows).even(),
            frame_height(*rows) == before.height,
        decreases values.len() - i,
    {
        proof {
            columns_keep_frames_even(
                frame_view(*rows),
                values@[i as int].0@,
                Seq::empty(),
                row as int,
                real_cell(values@[i as int].1.bits),
            );
        }
        if has_reals(rows, values[i].0.as_str()) {
            set_real(rows, values[i].0.as_str(), row, values[i].1.bits);
        }
        i = i + 1;
    }
}

fn update_row<I: Indicator>(
    indicators: &mut Vec<I>,
    history: &DataFrame,
    rows: &mut DataFrame,
    row: usize,
    now: UtcTime,
)
    requires
        frame_view(*old(rows)).even(),
        row < frame_height(*old(rows)),
        roomy(frame_view(*history), frame_height(*old(rows))),
    ensures
        frame_view(*final(rows)).even(),
        frame_height(*final(rows)) == frame_height(*old(rows)),
        final(indicators)@.len() == old(indicators)@.len(),
        row_done(
            (UpdateState { indicators: old(indicators)@, rows: frame_view(*old(rows)) }),
            (UpdateState { indicators: final(indicators)@, rows: frame_view(*final(rows)) }),
            frame_view(*history),
            row as int,
            now,
        ),
{
    let ghost seen = frame_view(*history);
    let ghost from = UpdateState { indicators: indicators@, rows: frame_view(*rows) };
    let ghost mut states: Seq<UpdateState<I>> = seq![from];
    let mut i: usize = 0;
    while i < indicators.len()
        invariant
            i <= indicators.len(),
            indicators@.len() == old(indicators)@.len(),
            seen == frame_view(*history),
            from == (UpdateState { indicators: old(indicators)@, rows: frame_view(*old(rows)) }),
            frame_view(*rows).even(),
            row < frame_height(*rows),
            frame_height(*rows) == frame_height(*old(rows)),
            roomy(seen, frame_height(*rows)),
            bars_linked(states, seen, row as int, now),
            states.len() == i + 1,
            states[0] == from,
            states.last() == (UpdateState { indicators: indicators@, rows: frame_view(*rows) }),
        decreases indicators.len() - i,
    {
        let ghost at = states.last();
        let size = indicators[i].window_size();
        let window = indicator_window(history, rows, row, size);
        match window {
            IndicatorWindow::Ready(window) => {
                let result = indicators[i].run_bar(&window);
                let ghost said = result;
                match result {
                    Ok(values) => write_values(rows, row, &values),
                    Err(_) => {},
                }
                proof {
                    assert(at.indicators[i as int].may_run_bar(
                        window,
                        &indicators@[i as int],
                        said,
                    ));
                    assert(frame_view(*rows) == with_result(at.rows, row as int, said));
                }
            },
            IndicatorWindow::Wait | IndicatorWindow::Misfit => {},
        }
        let ghost left = indicators@[i as int];
        indicators[i].set_last_run_time(now);
        proof {
            let next = UpdateState { indicators: indicators@, rows: frame_view(*rows) };
            assert(next.indicators =~= at.indicators.update(i as int, next.indicators[i as int]));
            assert(bar_run(
                at.indicators[i as int],
                left,
                seen,
                at.rows,
                next.rows,
                row as int,
                size,
            ));
            assert(left.may_note(now, &next.indicators[i as int]));
            assert(bar_done(at, next, seen, row as int, now, i as int));
            bars_grow(states, seen, row as int, now, next);
            states = states.push(next);
        }
        i = i + 1;
    }
    proof {
        assert(bars_linked(states, seen, row as int, now));
    }
}

/// Whether there is room below a history for `rows` rows, in every column.
pub open spec fn roomy(history: FrameView, rows: nat) -> bool {
    &&& history.height + rows < ROW_LIMIT
    &&& forall|i: int|
        0 <= i < history.columns.len() ==> (#[trigger] history.columns[i]).cells.len() + rows
            < ROW_LIMIT
}

/// Brings the indicators up to new rows, which are to be put below a history, and gives the rows with
/// what came of it.
pub fn update_indicators<I: Indicator>(
    indicators: &mut Vec<I>,
    history: &DataFrame,
    rows: DataFrame,
    now: UtcTime,
) -> (r: DataFrame)
    requires
        frame_view(rows).even(),
        roomy(frame_view(*history), frame_height(rows)),
    ensures
        frame_view(r).even(),
        frame_height(r) == frame_height(rows),
        updated(
            (UpdateState { indicators: old(indicators)@, rows: frame_view(rows) }),
            (UpdateState { indicators: final(indicators)@, rows: frame_view(r) }),
            frame_view(*history),
            now,
        ),
{
    let ghost seen = frame_view(*history);
    let ghost given = UpdateState { indicators: indicators@, rows: frame_view(rows) };
    let mut rows = rows;
    let names = add_columns(indicators, &mut rows);
    let ghost from = UpdateState { indicators: indicators@, rows: frame_view(rows) };
    let ghost mut states: Seq<UpdateState<I>> = seq![from];
    let total = height(&rows);
    let mut row: usize = 0;
    while row < total
        invariant
            row <= total,
            total == frame_height(rows),
            seen == frame_view(*history),
            frame_view(rows).even(),
            roomy(seen, total as nat),
            rows_linked(states, seen, now),
            states.len() == row + 1,
            states[0] == from,
            states.last() == (UpdateState { indicators: indicators@, rows: frame_view(rows) }),
        decreases total - row,
    {
        let ghost at = states.last();
        update_row(indicators, history, &mut rows, row, now);
        proof {
            let next = UpdateState { indicators: indicators@, rows: frame_view(rows) };
            rows_grow(states, seen, now, next);
            states = states.push(next);
        }
        row = row + 1;
    }
    proof {
        let to = UpdateState { indicators: indicators@, rows: frame_view(rows) };
        assert(are_names(given.indicators, names@) && rows_linked(states, seen, now));
        assert(updated(given, to, seen, now));
    }
    rows
}

/// Indicators have nothing to say of a history without any row.
pub proof fn empty_histories_say_nothing<I: Indicator>()
    ensures
        forall|indicators: &mut Vec<I>, history: &mut DataFrame, now: UtcTime, r: Vec<String>|
            #[trigger]
            call_ensures(apply_indicators_to_history::<I>, (indicators, history, now), r)
                && frame_height(*history) == 0 ==> {
                &&& final(indicators)@ == indicators@
                &&& *final(history) == *history
                &&& r@.len() == 0
            },
{
}

/// Each indicator is run once, in turn, on the history as the one before it left it, and is told
/// the time.
pub proof fn indicators_run_in_turn<I: Indicator>(
    from: ApplyState<I>,
    to: ApplyState<I>,
    now: UtcTime,
    k: int,
    j: int,
)
    requires
        apply_done(from, to, now, k),
        0 <= k < from.indicators.len(),
        0 <= j < from.indicators.len(),
        j != k,
    ensures
        to.indicators.len() == from.indicators.len(),
        to.indicators[j] == from.indicators[j],
        to.failures == from.failures || (to.failures.len() == from.failures.len() + 1
            && to.failures.drop_last() == from.failures),
        exists|left: I, result: Result<(), String>|
            {
                &&& #[trigger] from.indicators[k].may_run(from.history, &left, to.history, result)
                &&& left.may_note(now, &to.indicators[k])
                &&& result is Ok ==> to.failures == from.failures
                &&& result is Err ==> to.failures == from.failures.push(result->Err_0)
            },
{
    let (left, result) = choose|left: I, result: Result<(), String>|
        {
            &&& #[trigger] from.indicators[k].may_run(from.history, &left, to.history, result)
            &&& left.may_note(now, &to.indicators[k])
            &&& to.failures == failures_with(from.failures, result)
        };
    if result is Err {
        assert(to.failures.drop_last() =~= from.failures);
    }
}

} // verus!
