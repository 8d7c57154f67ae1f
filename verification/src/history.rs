//! The bars that a strategy has seen, and when it has seen enough of them.
use polars::prelude::{
    col, lit, reinterpret, ChunkSet, Column, DataFrame, DataType, Float64Chunked, IdxSize, IntoLazy,
    IntoSeries, NamedFrom, PolarsError, Series,
};
use vstd::prelude::*;
use vstd::string::StringExecFns;

use crate::table::{value_at, Table};
use crate::time::UtcTime;
use crate::timeframe::{TimeFrame, TimeFrameError};

verus! {

/// `polars::prelude::DataFrame`, a table of rows in columns.
#[verifier::external_type_specification]
#[verifier::external_body]
pub struct ExDataFrame(DataFrame);

/// `polars::prelude::Column`, which a data frame is made of.
#[verifier::external_type_specification]
#[verifier::external_body]
pub struct ExColumn(Column);

/// `polars::prelude::PolarsError`.
#[verifier::external_type_specification]
#[verifier::external_body]
pub struct ExPolarsError(PolarsError);

/// A column of a data frame: its name, its type, written as bytes, and its cells, each written as
/// bytes where it is not null.
#[verifier::ext_equal]
pub struct ColumnView {
    pub name: Seq<char>,
    pub kind: Seq<u8>,
    pub cells: Seq<Option<Seq<u8>>>,
}

/// A data frame: the number of its rows, and its columns. Every column has a cell for each row, but
/// for what is left where rows could be put below some of the columns and not below all.
#[verifier::ext_equal]
pub struct FrameView {
    pub height: nat,
    pub columns: Seq<ColumnView>,
}

/// The number of rows of a data frame.
pub uninterp spec fn frame_height(frame: DataFrame) -> nat;

/// The columns of a data frame, in order.
pub uninterp spec fn frame_columns(frame: DataFrame) -> Seq<ColumnView>;

/// The model of a data frame.
pub open spec fn frame_view(frame: DataFrame) -> FrameView {
    FrameView { height: frame_height(frame), columns: frame_columns(frame) }
}

/// The cells of the column `timestamp` of a data frame as whole numbers, row by row, where it has
/// that column.
pub uninterp spec fn frame_times(frame: DataFrame) -> Seq<Option<i64>>;

/// Whether cells of the type `lower` can be put below cells of the type `upper`.
pub uninterp spec fn kind_fits(upper: Seq<u8>, lower: Seq<u8>) -> bool;

/// Whether the column `timestamp` of a data frame can be cast to whole numbers.
pub uninterp spec fn timestamps_cast(frame: DataFrame) -> bool;

/// The rows that a data frame must stay below: its index numbers have 32 bits, and the highest
/// stands for no row.
pub const ROW_LIMIT: usize = 4_294_967_295;

/// The last `n` of the items, or all where there are fewer.
pub open spec fn last_of<A>(items: Seq<A>, n: int) -> Seq<A> {
    if items.len() > n {
        items.skip(items.len() - n)
    } else {
        items
    }
}

/// The first `n` of the items, or all where there are fewer.
pub open spec fn first_of<A>(items: Seq<A>, n: int) -> Seq<A> {
    if items.len() > n {
        items.take(n)
    } else {
        items
    }
}

/// Whether a column can be put below another.
pub open spec fn column_fits(upper: ColumnView, lower: ColumnView) -> bool {
    upper.name == lower.name && kind_fits(upper.kind, lower.kind)
}

/// How many columns fit below those of `upper`, from the first on.
pub open spec fn fitting(upper: Seq<ColumnView>, lower: Seq<ColumnView>) -> nat
    decreases upper.len(),
{
    if upper.len() == 0 || lower.len() == 0 || !column_fits(upper[0], lower[0]) {
        0
    } else {
        1 + fitting(upper.drop_first(), lower.drop_first())
    }
}

/// Whether all columns fit below those of `upper`.
pub open spec fn columns_fit(upper: Seq<ColumnView>, lower: Seq<ColumnView>) -> bool {
    upper.len() == lower.len() && fitting(upper, lower) == upper.len()
}

/// Whether columns have the same names and types.
pub open spec fn same_columns(a: Seq<ColumnView>, b: Seq<ColumnView>) -> bool {
    &&& a.len() == b.len()
    &&& forall|i: int|
        0 <= i < a.len() ==> (#[trigger] a[i]).name == b[i].name && a[i].kind == b[i].kind
}

impl ColumnView {
    /// The column with these cells.
    pub open spec fn with_cells(self, cells: Seq<Option<Seq<u8>>>) -> ColumnView {
        ColumnView { cells, ..self }
    }
}

impl FrameView {
    /// Whether every column has a cell for each row, and no more.
    pub open spec fn even(self) -> bool {
        forall|i: int|
            0 <= i < self.columns.len() ==> (#[trigger] self.columns[i]).cells.len() == self.height
    }

    /// The last `n` rows: of each column its own last cells.
    pub open spec fn last_rows(self, n: int) -> FrameView {
        let height = if n < self.height {
            n as nat
        } else {
            self.height
        };
        FrameView {
            height,
            columns: self.columns.map_values(
                |c: ColumnView| c.with_cells(last_of(c.cells, height as int)),
            ),
        }
    }

    /// The first `n` rows.
    pub open spec fn first_rows(self, n: int) -> FrameView {
        if n == self.height {
            self
        } else {
            FrameView {
                height: if self.columns.len() > 0 {
                    first_of(self.columns[0].cells, n).len()
                } else {
                    n as nat
                },
                columns: self.columns.map_values(
                    |c: ColumnView| c.with_cells(first_of(c.cells, n)),
                ),
            }
        }
    }

    /// The rows of `lower` put below these. Where a column does not fit, those before it are longer
    /// by then, and no row is added; where the numbers of columns differ, nothing changes.
    pub open spec fn over(self, lower: FrameView) -> FrameView {
        let n = fitting(self.columns, lower.columns);
        if self.columns.len() != lower.columns.len() {
            self
        } else {
            FrameView {
                height: if n == self.columns.len() {
                    self.height + lower.height
                } else {
                    self.height
                },
                columns: Seq::new(
                    self.columns.len(),
                    |i: int|
                        if i < n {
                            self.columns[i].with_cells(
                                self.columns[i].cells + lower.columns[i].cells,
                            )
                        } else {
                            self.columns[i]
                        },
                ),
            }
        }
    }

    /// Cut down to the last `n` rows.
    pub open spec fn cut(self, n: int) -> FrameView {
        if self.height > n {
            self.last_rows(n)
        } else {
            self
        }
    }

    /// Whether there is room for the rows of `lower` below these.
    pub open spec fn has_room(self, lower: FrameView) -> bool {
        &&& self.height + lower.height < ROW_LIMIT
        &&& forall|i: int|
            0 <= i < self.columns.len() && i < lower.columns.len() ==> (
            #[trigger] self.columns[i]).cells.len() + lower.columns[i].cells.len() < ROW_LIMIT
    }
}

/// `polars::prelude::DataFrame::height`: the number of rows.
#[verifier::external_body]
pub(crate) fn height(frame: &DataFrame) -> (r: usize)
    ensures
        r == frame_height(*frame),
{
    frame.height()
}

/// `polars::prelude::DataFrame::tail`: the last `n` rows; of each column as many of its last cells.
#[verifier::external_body]
pub(crate) fn tail(frame: &DataFrame, n: usize) -> (r: DataFrame)
    ensures
        frame_view(r) == frame_view(*frame).last_rows(n as int),
{
    frame.tail(Some(n))
}

/// `polars::prelude::DataFrame::slice` from the first row: the first `n` rows; of each column as many
/// of its first cells, unless these are all rows, where the data frame is given as it is.
#[verifier::external_body]
pub(crate) fn head(frame: &DataFrame, n: usize) -> (r: DataFrame)
    requires
        n <= frame_height(*frame),
    ensures
        frame_view(r) == frame_view(*frame).first_rows(n as int),
{
    frame.slice(0, n)
}

/// `polars::prelude::DataFrame::vstack_mut` on a data frame with rows: the rows of `lower` are put
/// below, or there is an error where a column does not fit, which names and types decide; the columns
/// before that one are then longer. A column fits below one of its own name and type.
#[verifier::external_body]
pub(crate) fn stack(upper: &mut DataFrame, lower: &DataFrame) -> (r: Result<(), PolarsError>)
    requires
        frame_height(*old(upper)) > 0,
        frame_view(*old(upper)).has_room(frame_view(*lower)),
    ensures
        r is Ok <==> columns_fit(frame_columns(*old(upper)), frame_columns(*lower)),
        r is Ok ==> forall|i: int|
            0 <= i < frame_columns(*lower).len() ==> kind_fits(
                frame_columns(*old(upper))[i].kind,
                (#[trigger] frame_columns(*lower)[i]).kind,
            ),
        same_columns(frame_columns(*old(upper)), frame_columns(*lower)) ==> r is Ok,
        frame_view(*final(upper)) == frame_view(*old(upper)).over(frame_view(*lower)),
{
    upper.vstack_mut(lower).map(|_| ())
}

/// `polars::prelude::DataFrame::column`: whether a data frame with rows has the column `timestamp`,
/// which then has a cell for each row.
#[verifier::external_body]
pub(crate) fn has_timestamps(frame: &DataFrame) -> (r: bool)
    requires
        frame_height(*frame) > 0,
        frame_view(*frame).even(),
    ensures
        r == (frame_times(*frame).len() == frame_height(*frame)),
{
    frame.column("timestamp").is_ok()
}

/// Of the items of rows with these times, those whose time is known and lies before `end`.
pub open spec fn kept_before<A>(items: Seq<A>, times: Seq<Option<i64>>, end: int) -> Seq<A>
    decreases items.len(),
{
    if items.len() == 0 {
        Seq::empty()
    } else {
        let before = kept_before(items.drop_last(), times.drop_last(), end);
        match times.last() {
            Some(time) => if time < end {
                before.push(items.last())
            } else {
                before
            },
            None => before,
        }
    }
}

impl FrameView {
    /// The rows with these times whose time is known and lies before `end`.
    pub open spec fn before(self, times: Seq<Option<i64>>, end: int) -> FrameView {
        FrameView {
            height: kept_before(times, times, end).len(),
            columns: self.columns.map_values(
                |c: ColumnView| c.with_cells(kept_before(c.cells, times, end)),
            ),
        }
    }
}

/// `polars::prelude::LazyFrame::filter` with a condition on the column `timestamp`, cast to whole
/// numbers: the rows whose time is known and lies before `end`, in order, or an error where the
/// column cannot be cast.
#[verifier::external_body]
pub(crate) fn before(frame: DataFrame, end: i64) -> (r: Result<DataFrame, PolarsError>)
    requires
        frame_view(frame).even(),
        frame_times(frame).len() == frame_height(frame),
    ensures
        r is Ok <==> timestamps_cast(frame),
        r matches Ok(kept) ==> frame_view(kept) == frame_view(frame).before(
            frame_times(frame),
            end as int,
        ),
{
    frame.lazy().filter(col("timestamp").cast(DataType::Int64).lt(lit(end))).collect()
}

/// The type of a column of reals of so many bits.
pub uninterp spec fn real_kind(bits: nat) -> Seq<u8>;

/// The cell of the real with these bits.
pub uninterp spec fn real_cell(bits: u64) -> Seq<u8>;

/// Where the column `name` stands.
pub open spec fn place_of(columns: Seq<ColumnView>, name: Seq<char>) -> Option<int>
    decreases columns.len(),
{
    if columns.len() == 0 {
        None
    } else {
        match place_of(columns.drop_last(), name) {
            Some(i) => Some(i),
            None => if columns.last().name == name {
                Some(columns.len() - 1)
            } else {
                None
            },
        }
    }
}

/// Where the column `name` stands, if it holds reals.
pub open spec fn place_of_reals(columns: Seq<ColumnView>, name: Seq<char>) -> Option<int> {
    match place_of(columns, name) {
        Some(i) => if columns[i].kind == real_kind(64) {
            Some(i)
        } else {
            None
        },
        None => None,
    }
}

impl FrameView {
    /// With a column, in the place of the one of its name, or else behind all others.
    pub open spec fn with_column(self, column: ColumnView) -> FrameView {
        FrameView {
            columns: match place_of(self.columns, column.name) {
                Some(i) => self.columns.update(i, column),
                None => self.columns.push(column),
            },
            ..self
        }
    }

    /// With a column of this name and type, null in every row.
    pub open spec fn with_nulls(self, name: Seq<char>, kind: Seq<u8>) -> FrameView {
        self.with_column(
            ColumnView { name, kind, cells: Seq::new(self.height, |i: int| None::<Seq<u8>>) },
        )
    }

    /// With a cell in the row `row` of the column `name`, if there is one that holds reals.
    pub open spec fn with_cell(self, name: Seq<char>, row: int, cell: Seq<u8>) -> FrameView {
        match place_of_reals(self.columns, name) {
            Some(i) => FrameView {
                columns: self.columns.update(
                    i,
                    self.columns[i].with_cells(self.columns[i].cells.update(row, Some(cell))),
                ),
                ..self
            },
            None => self,
        }
    }
}

proof fn place_is_within(columns: Seq<ColumnView>, name: Seq<char>)
    ensures
        place_of(columns, name) matches Some(i) ==> 0 <= i < columns.len() && columns[i].name
            == name,
    decreases columns.len(),
{
    if columns.len() > 0 {
        place_is_within(columns.drop_last(), name);
    }
}

/// A data frame stays even with a column of nulls, or with another cell.
pub proof fn columns_keep_frames_even(
    frame: FrameView,
    name: Seq<char>,
    kind: Seq<u8>,
    row: int,
    cell: Seq<u8>,
)
    requires
        frame.even(),
    ensures
        frame.with_nulls(name, kind).even(),
        frame.with_nulls(name, kind).height == frame.height,
        0 <= row < frame.height ==> frame.with_cell(name, row, cell).even(),
        frame.with_cell(name, row, cell).height == frame.height,
{
    place_is_within(frame.columns, name);
    let nulls = frame.with_nulls(name, kind);
    assert forall|i: int| 0 <= i < nulls.columns.len() implies (
    #[trigger] nulls.columns[i]).cells.len() == nulls.height by {
        if i < frame.columns.len() {
            assert(frame.columns[i].cells.len() == frame.height);
        }
    }
    if 0 <= row < frame.height {
        let other = frame.with_cell(name, row, cell);
        assert forall|i: int| 0 <= i < other.columns.len() implies (
        #[trigger] other.columns[i]).cells.len() == other.height by {
            assert(frame.columns[i].cells.len() == frame.height);
        }
    }
}

/// `polars::prelude::Column::full_null` of reals and `polars::prelude::DataFrame::with_column`: a
/// column that is null in every row, in the place of the one of its name, or else behind all others.
#[verifier::external_body]
pub(crate) fn add_nulls(frame: &mut DataFrame, name: &str)
    ensures
        frame_view(*final(frame)) == frame_view(*old(frame)).with_nulls(name@, real_kind(64)),
{
    let nulls = Column::full_null(name.into(), frame.height(), &DataType::Float64);
    let _ = frame.with_column(nulls);
}

/// `polars::prelude::DataFrame::column` and `polars::prelude::Column::dtype`: whether there is a
/// column `name` that holds reals.
#[verifier::external_body]
pub(crate) fn has_reals(frame: &DataFrame, name: &str) -> (r: bool)
    ensures
        r == (place_of_reals(frame_columns(*frame), name@) is Some),
{
    frame.column(name).is_ok_and(|column| column.dtype() == &DataType::Float64)
}

/// `polars::prelude::ChunkSet::scatter_single` on the column `name`, which holds reals, and
/// `polars::prelude::DataFrame::with_column`: the real with these bits, as
/// `polars::prelude::reinterpret` gives it, in the row `row`.
#[verifier::external_body]
pub(crate) fn set_real(frame: &mut DataFrame, name: &str, row: usize, bits: u64)
    requires
        frame_view(*old(frame)).even(),
        row < frame_height(*old(frame)) < ROW_LIMIT,
        place_of_reals(frame_columns(*old(frame)), name@) is Some,
    ensures
        frame_view(*final(frame)) == frame_view(*old(frame)).with_cell(
            name@,
            row as int,
            real_cell(bits),
        ),
{
    let cell = reinterpret(&Series::new(name.into(), &[bits]), &DataType::Float64).unwrap();
    let value: &Float64Chunked = cell.as_ref().as_ref();
    let series = frame.column(name).unwrap().as_materialized_series();
    let cells: &Float64Chunked = series.as_ref().as_ref();
    let written = cells.scatter_single([row as IdxSize], value.get(0)).unwrap();
    let _ = frame.with_column(written.into_series().into());
}

/// `polars::prelude::PolarsError`'s `Display`. What it says is not stated.
#[verifier::external_body]
pub(crate) fn error_text(error: &PolarsError) -> (r: String) {
    error.to_string()
}

fn cut_down(frame: DataFrame, max_rows: usize) -> (r: DataFrame)
    ensures
        frame_view(r) == frame_view(frame).cut(max_rows as int),
{
    if height(&frame) > max_rows {
        tail(&frame, max_rows)
    } else {
        frame
    }
}

/// A history that takes in new bars and is cut down to the last `max_rows`. One without rows becomes
/// the bars.
pub open spec fn appended(history: FrameView, bars: FrameView, max_rows: int) -> FrameView {
    (if history.height == 0 {
        bars
    } else {
        history.over(bars)
    }).cut(max_rows)
}

/// The history with new bars, cut down to the last `max_rows`.
pub fn append_bars(history: DataFrame, bars: DataFrame, max_rows: usize) -> (r: DataFrame)
    requires
        frame_view(history).has_room(frame_view(bars)),
    ensures
        frame_view(r) == appended(frame_view(history), frame_view(bars), max_rows as int),
{
    if height(&history) == 0 {
        cut_down(bars, max_rows)
    } else {
        let mut history = history;
        let _ = stack(&mut history, &bars);
        cut_down(history, max_rows)
    }
}

proof fn no_more_fit(upper: Seq<ColumnView>, lower: Seq<ColumnView>)
    ensures
        fitting(upper, lower) <= upper.len(),
        fitting(upper, lower) <= lower.len(),
    decreases upper.len(),
{
    if upper.len() > 0 && lower.len() > 0 {
        no_more_fit(upper.drop_first(), lower.drop_first());
    }
}

/// Bars that fit are put below the rows of an even history, which stays even, with its own columns.
pub proof fn bars_that_fit_are_put_below(history: FrameView, bars: FrameView)
    requires
        history.even(),
        bars.even(),
        columns_fit(history.columns, bars.columns),
    ensures
        history.over(bars).even(),
        same_columns(history.over(bars).columns, history.columns),
        history.over(bars).height == history.height + bars.height,
        forall|i: int|
            0 <= i < history.columns.len() ==> (#[trigger] history.over(bars).columns[i]).cells
                == history.columns[i].cells + bars.columns[i].cells,
{
    let n = fitting(history.columns, bars.columns);
    assert forall|i: int| 0 <= i < history.columns.len() implies (
    #[trigger] history.over(bars).columns[i]).cells == history.columns[i].cells
        + bars.columns[i].cells by {
        assert(i < n);
    }
}

/// Bars that do not fit add no row to a history, and leave its columns and the cells of its rows.
pub proof fn bars_that_do_not_fit_add_no_row(history: FrameView, bars: FrameView)
    requires
        !columns_fit(history.columns, bars.columns),
    ensures
        history.over(bars).height == history.height,
        same_columns(history.over(bars).columns, history.columns),
        forall|i: int, row: int|
            0 <= i < history.columns.len() && 0 <= row < history.columns[i].cells.len()
                ==> #[trigger] history.over(bars).columns[i].cells[row]
                == history.columns[i].cells[row],
{
    no_more_fit(history.columns, bars.columns);
}

/// What an indicator looks back on when a bar comes.
pub enum IndicatorWindow {
    /// There are not yet enough bars.
    Wait,
    /// The bars do not fit together.
    Misfit,
    /// These bars.
    Ready(DataFrame),
}

/// The model of what an indicator looks back on.
pub enum WindowView {
    Wait,
    Misfit,
    Ready(FrameView),
}

/// What an indicator with a window of `window` rows looks back on at the new bar `row`: once there
/// are enough, the last rows of the history with the new bars up to that one below them.
pub open spec fn window_of(history: FrameView, bars: FrameView, row: int, window: int) -> WindowView {
    let prior = history.last_rows(
        if window > row + 1 {
            window - (row + 1)
        } else {
            0
        },
    );
    let incoming = bars.first_rows(row + 1);
    if history.height + row + 1 < window {
        WindowView::Wait
    } else if prior.height == 0 {
        WindowView::Ready(incoming.cut(window))
    } else if !columns_fit(prior.columns, incoming.columns) {
        WindowView::Misfit
    } else {
        WindowView::Ready(prior.over(incoming).cut(window))
    }
}

/// Whether this is what an indicator looks back on.
pub open spec fn is_window(r: IndicatorWindow, expected: WindowView) -> bool {
    match (r, expected) {
        (IndicatorWindow::Wait, WindowView::Wait) => true,
        (IndicatorWindow::Misfit, WindowView::Misfit) => true,
        (IndicatorWindow::Ready(frame), WindowView::Ready(view)) => frame_view(frame) == view,
        _ => false,
    }
}

/// What an indicator with a window of `window` rows looks back on at the new bar `row`.
pub fn indicator_window(history: &DataFrame, bars: &DataFrame, row: usize, window: usize) -> (r:
    IndicatorWindow)
    requires
        row < frame_height(*bars),
        frame_view(*history).has_room(frame_view(*bars)),
    ensures
        is_window(
            r,
            window_of(frame_view(*history), frame_view(*bars), row as int, window as int),
        ),
{
    if height(history) + row + 1 < window {
        return IndicatorWindow::Wait;
    }
    let needed: usize = if window > row + 1 {
        window - (row + 1)
    } else {
        0
    };
    let mut prior = tail(history, needed);
    let incoming = head(bars, row + 1);
    if height(&prior) == 0 {
        return IndicatorWindow::Ready(cut_down(incoming, window));
    }
    proof {
        let h = frame_view(*history);
        let b = frame_view(*bars);
        assert forall|i: int|
            0 <= i < frame_columns(prior).len() && i < frame_columns(incoming).len() implies (
        #[trigger] frame_columns(prior)[i]).cells.len() + frame_columns(incoming)[i].cells.len()
            < ROW_LIMIT by {
            assert(h.columns[i].cells.len() + b.columns[i].cells.len() < ROW_LIMIT);
        }
    }
    match stack(&mut prior, &incoming) {
        Ok(_) => IndicatorWindow::Ready(cut_down(prior, window)),
        Err(_) => IndicatorWindow::Misfit,
    }
}

/// Where history and bars are even and fit together, an indicator looks back on the last `window` of
/// their rows, in the columns of the history, once there are enough.
pub proof fn windows_hold_the_last_rows(
    history: FrameView,
    bars: FrameView,
    row: int,
    window: int,
)
    requires
        history.even(),
        bars.even(),
        0 <= row < bars.height,
        0 <= window <= history.height + row + 1,
        columns_fit(history.columns, bars.columns),
    ensures
        window_of(history, bars, row, window) matches WindowView::Ready(view) && view.columns.len()
            == history.columns.len() && forall|i: int|
            0 <= i < view.columns.len() ==> (#[trigger] view.columns[i]).name
                == history.columns[i].name && view.columns[i].cells == last_of(
                history.columns[i].cells + bars.columns[i].cells.take(row + 1),
                window,
            ),
{
    let needed = if window > row + 1 {
        window - (row + 1)
    } else {
        0
    };
    let prior = history.last_rows(needed);
    let incoming = bars.first_rows(row + 1);
    fitting_is_of_columns(history.columns, bars.columns, prior.columns, incoming.columns);
    fitting_names(history.columns, bars.columns);
    let view = window_of(history, bars, row, window)->Ready_0;
    assert forall|i: int| 0 <= i < view.columns.len() implies (#[trigger] view.columns[i]).name
        == history.columns[i].name && view.columns[i].cells == last_of(
        history.columns[i].cells + bars.columns[i].cells.take(row + 1),
        window,
    ) by {
        let h = history.columns[i].cells;
        let b = bars.columns[i].cells;
        assert(bars.columns[i].cells.len() == bars.height);
        assert(history.columns[i].cells.len() == history.height);
        assert(incoming.columns[i].cells =~= b.take(row + 1));
        assert(history.columns[i].name == bars.columns[i].name);
        if prior.height == 0 {
            assert(view.columns[i].cells =~= last_of(h + b.take(row + 1), window));
        } else {
            assert(prior.columns[i].cells =~= last_of(h, needed));
            assert(view.columns[i].cells =~= last_of(h + b.take(row + 1), window));
        }
    }
}

proof fn fitting_is_of_columns(
    a: Seq<ColumnView>,
    b: Seq<ColumnView>,
    c: Seq<ColumnView>,
    d: Seq<ColumnView>,
)
    requires
        same_columns(a, c),
        same_columns(b, d),
    ensures
        fitting(a, b) == fitting(c, d),
    decreases a.len(),
{
    if a.len() > 0 && b.len() > 0 {
        assert(a[0].name == c[0].name && b[0].name == d[0].name);
        assert forall|i: int| 0 <= i < a.drop_first().len() implies (
        #[trigger] a.drop_first()[i]).name == c.drop_first()[i].name && a.drop_first()[i].kind
            == c.drop_first()[i].kind by {
            assert(a[i + 1].name == c[i + 1].name);
        }
        assert forall|i: int| 0 <= i < b.drop_first().len() implies (
        #[trigger] b.drop_first()[i]).name == d.drop_first()[i].name && b.drop_first()[i].kind
            == d.drop_first()[i].kind by {
            assert(b[i + 1].name == d[i + 1].name);
        }
        fitting_is_of_columns(a.drop_first(), b.drop_first(), c.drop_first(), d.drop_first());
    }
}

proof fn fitting_names(a: Seq<ColumnView>, b: Seq<ColumnView>)
    ensures
        forall|i: int| 0 <= i < fitting(a, b) ==> (#[trigger] a[i]).name == b[i].name,
    decreases a.len(),
{
    if a.len() > 0 && b.len() > 0 && column_fits(a[0], b[0]) {
        fitting_names(a.drop_first(), b.drop_first());
        no_more_fit(a, b);
        assert forall|i: int| 0 <= i < fitting(a, b) implies (#[trigger] a[i]).name == b[i].name by {
            if i > 0 {
                assert(a.drop_first()[i - 1].name == b.drop_first()[i - 1].name);
            }
        }
    }
}

/// What becomes of a history that was read to begin with: it is cut down to the last `max_rows`.
pub fn settle_seed(filtered: Result<DataFrame, PolarsError>, max_rows: usize) -> (r: Result<
    DataFrame,
    String,
>)
    ensures
        r is Ok <==> filtered is Ok,
        r matches Ok(frame) ==> frame_view(frame) == frame_view(filtered->Ok_0).cut(
            max_rows as int,
        ),
{
    match filtered {
        Ok(frame) => Ok(cut_down(frame, max_rows)),
        Err(error) => Err(error_text(&error)),
    }
}

/// The history that a strategy begins with: of what was read, the rows before `anchor`, where the
/// rows tell their time, cut down to the last `max_rows`.
pub fn seed_history(read: DataFrame, anchor: UtcTime, max_rows: usize) -> (r: Result<
    DataFrame,
    String,
>)
    requires
        anchor.wf(),
        frame_view(read).even(),
    ensures
        r is Ok <==> frame_height(read) == 0 || frame_times(read).len() != frame_height(read)
            || timestamps_cast(read),
        r matches Ok(frame) ==> frame_view(frame) == (if frame_height(read) > 0 && frame_times(
            read,
        ).len() == frame_height(read) {
            frame_view(read).before(frame_times(read), anchor.millis())
        } else {
            frame_view(read)
        }).cut(max_rows as int),
        r matches Ok(frame) ==> same_columns(frame_columns(frame), frame_columns(read)),
{
    if height(&read) == 0 || !has_timestamps(&read) {
        return settle_seed(Ok(read), max_rows);
    }
    let filtered = before(read, anchor.timestamp_millis());
    settle_seed(filtered, max_rows)
}

proof fn no_more_kept<A>(items: Seq<A>, times: Seq<Option<i64>>, end: int)
    requires
        items.len() == times.len(),
    ensures
        kept_before(items, times, end).len() <= items.len(),
    decreases items.len(),
{
    if items.len() > 0 {
        no_more_kept(items.drop_last(), times.drop_last(), end);
    }
}

/// A run that starts earlier begins with no more rows than one that starts later.
pub proof fn earlier_starts_see_no_more(
    frame: FrameView,
    times: Seq<Option<i64>>,
    early: int,
    late: int,
)
    requires
        early <= late,
    ensures
        frame.before(times, early).height <= frame.before(times, late).height <= times.len(),
    decreases times.len(),
{
    no_more_kept(times, times, late);
    if times.len() > 0 {
        earlier_starts_see_no_more(frame, times.drop_last(), early, late);
    }
}

/// A history never holds more rows than it may.
pub proof fn histories_stay_bounded(frame: FrameView, n: int)
    requires
        n >= 0,
    ensures
        frame.cut(n).height <= n,
        frame.height <= n ==> frame.cut(n) == frame,
        frame.even() ==> frame.cut(n).even(),
        same_columns(frame.cut(n).columns, frame.columns),
{
}

/// Cutting down after each bar keeps the same cells as cutting down once at the end.
pub proof fn cutting_down_early_loses_nothing(
    first: Seq<Option<Seq<u8>>>,
    second: Seq<Option<Seq<u8>>>,
    n: int,
)
    requires
        n >= 0,
    ensures
        last_of(last_of(first, n) + second, n) == last_of(first + second, n),
{
    assert(last_of(last_of(first, n) + second, n) =~= last_of(first + second, n));
}

/// Whether a strategy has seen enough bars.
#[derive(Clone, Copy, Debug, PartialEq, Eq, Structural)]
pub enum WarmUp {
    /// Not yet: only so many. Says whether that is news.
    Waiting { loaded: i32, news: bool },
    /// Yes. Says whether that is news.
    Ready { news: bool },
}

/// The number of rows, as far as it is counted.
pub open spec fn counted_rows(frame: DataFrame) -> i32 {
    (frame_height(frame) as usize) as i32
}

/// Whether a strategy has seen enough bars, where `known` is what was known of it.
pub open spec fn warmed_up(warm_up_bars: i32, loaded: i32, known: Option<i32>) -> WarmUp {
    if warm_up_bars > 0 && loaded < warm_up_bars {
        WarmUp::Waiting {
            loaded,
            news: match known {
                Some(known) => loaded != known,
                None => loaded != -1,
            },
        }
    } else {
        WarmUp::Ready { news: warm_up_bars > 0 && known is Some }
    }
}

/// Whether a strategy has seen enough bars in a history, and notes how many it has seen while it
/// has not.
pub fn warm_up(warm_up_bars: i32, history: &DataFrame, key: &str, progress: &mut Table<i32>) -> (r:
    WarmUp)
    ensures
        r == warmed_up(warm_up_bars, counted_rows(*history), value_at(old(progress)@, key@)),
        final(progress)@ == (match r {
            WarmUp::Waiting { loaded, .. } => old(progress)@.insert(key@, loaded),
            WarmUp::Ready { .. } => if warm_up_bars > 0 {
                old(progress)@.remove(key@)
            } else {
                old(progress)@
            },
        }),
{
    if warm_up_bars <= 0 {
        return WarmUp::Ready { news: false };
    }
    let loaded = height(history) as i32;
    let known = progress.get(key);
    if loaded < warm_up_bars {
        let news = match known {
            Some(known) => known != loaded,
            None => loaded != -1,
        };
        progress.insert(key, loaded);
        WarmUp::Waiting { loaded, news }
    } else {
        progress.remove(key);
        WarmUp::Ready { news: known.is_some() }
    }
}

/// Notes how many rows a strategy begins with, where they are not enough.
pub fn note_seeded(progress: &mut Table<i32>, key: &str, rows: usize, warmup_bars: i32)
    requires
        warmup_bars >= 0,
    ensures
        final(progress)@ == (if rows >= warmup_bars as usize {
            old(progress)@.remove(key@)
        } else {
            old(progress)@.insert(key@, rows as i32)
        }),
{
    if rows >= warmup_bars as usize {
        progress.remove(key);
    } else {
        progress.insert(key, rows as i32);
    }
}

/// What a strategy is asked after a bar.
#[derive(Clone, Copy, Debug, PartialEq, Eq, Structural)]
pub enum BarCall {
    /// To look at the bar.
    OnBar,
    /// To make insights of it.
    GenerateInsights,
}

/// What a strategy is asked after a bar: nothing while it warms up; else to look at it, and to make
/// insights of it where it may trade on it.
pub open spec fn asked(warm_up: WarmUp, allow_trading: bool) -> Seq<BarCall> {
    match warm_up {
        WarmUp::Waiting { .. } => Seq::empty(),
        WarmUp::Ready { .. } => if allow_trading {
            seq![BarCall::OnBar, BarCall::GenerateInsights]
        } else {
            seq![BarCall::OnBar]
        },
    }
}

/// What a strategy is asked after a bar.
pub fn bar_calls(warm_up: WarmUp, allow_trading: bool) -> (r: Vec<BarCall>)
    ensures
        r@ == asked(warm_up, allow_trading),
{
    let mut calls: Vec<BarCall> = Vec::new();
    if let WarmUp::Ready { .. } = warm_up {
        calls.push(BarCall::OnBar);
        if allow_trading {
            calls.push(BarCall::GenerateInsights);
        }
    }
    proof {
        assert(calls@ =~= asked(warm_up, allow_trading));
    }
    calls
}

/// A strategy is asked nothing before it has seen enough bars, and never makes insights of what it
/// may not trade on.
pub proof fn warming_up_strategies_are_not_asked(
    warm_up_bars: i32,
    loaded: i32,
    known: Option<i32>,
    allow_trading: bool,
)
    ensures
        0 < warm_up_bars && loaded < warm_up_bars ==> asked(
            warmed_up(warm_up_bars, loaded, known),
            allow_trading,
        ).len() == 0,
        !allow_trading ==> !asked(warmed_up(warm_up_bars, loaded, known), allow_trading).contains(
            BarCall::GenerateInsights,
        ),
{
}

/// A bar comes: the history takes it in, and it is told what the strategy is asked. Bars that could
/// not be read leave the history as it is.
pub fn on_bar(
    history: DataFrame,
    bars: Option<DataFrame>,
    key: &str,
    max_rows: usize,
    warm_up_bars: i32,
    allow_trading: bool,
    progress: &mut Table<i32>,
) -> (r: (DataFrame, Vec<BarCall>))
    requires
        bars matches Some(bars) ==> frame_view(history).has_room(frame_view(bars)),
    ensures
        match bars {
            Some(bars) => frame_view(r.0) == appended(
                frame_view(history),
                frame_view(bars),
                max_rows as int,
            ),
            None => r.0 == history,
        },
        r.1@ == asked(
            warmed_up(warm_up_bars, counted_rows(r.0), value_at(old(progress)@, key@)),
            allow_trading,
        ),
        final(progress)@ == (match warmed_up(
            warm_up_bars,
            counted_rows(r.0),
            value_at(old(progress)@, key@),
        ) {
            WarmUp::Waiting { loaded, .. } => old(progress)@.insert(key@, loaded),
            WarmUp::Ready { .. } => if warm_up_bars > 0 {
                old(progress)@.remove(key@)
            } else {
                old(progress)@
            },
        }),
{
    let history = match bars {
        Some(bars) => append_bars(history, bars, max_rows),
        None => history,
    };
    let state = warm_up(warm_up_bars, &history, key, progress);
    let calls = bar_calls(state, allow_trading);
    (history, calls)
}

/// The label of an error.
pub open spec fn frame_error_label(e: TimeFrameError) -> Seq<char> {
    match e {
        TimeFrameError::InvalidTimeFrameUnit => "InvalidTimeFrameUnit"@,
        TimeFrameError::InvalidTimeFrameAmount => "InvalidTimeFrameAmount"@,
        TimeFrameError::InvalidTimeFramePeriod => "InvalidTimeFramePeriod"@,
    }
}

fn frame_error_text(e: &TimeFrameError) -> (r: &'static str)
    ensures
        r@ == frame_error_label(*e),
{
    match e {
        TimeFrameError::InvalidTimeFrameUnit => "InvalidTimeFrameUnit",
        TimeFrameError::InvalidTimeFrameAmount => "InvalidTimeFrameAmount",
        TimeFrameError::InvalidTimeFramePeriod => "InvalidTimeFramePeriod",
    }
}

/// From when on the history is read that a strategy begins with: so many bars before `anchor`.
pub fn seed_start(frame: &TimeFrame, anchor: UtcTime, warmup_bars: i32, key: &str) -> (r: Result<
    UtcTime,
    String,
>)
    requires
        anchor.wf(),
    ensures
        r is Ok ==> frame.is_sum(
            anchor,
            -(warmup_bars as int),
            Ok::<UtcTime, TimeFrameError>(r->Ok_0),
        ),
        r matches Err(message) ==> frame.is_sum(
            anchor,
            -(warmup_bars as int),
            Err::<UtcTime, TimeFrameError>(TimeFrameError::InvalidTimeFramePeriod),
        ) && message@ == "Failed to calculate warm-up start for "@ + key@ + ": "@
            + frame_error_label(TimeFrameError::InvalidTimeFramePeriod),
{
    match frame.add_time_increment(anchor, -(warmup_bars as i64)) {
        Ok(start) => Ok(start),
        Err(error) => {
            let mut message = "Failed to calculate warm-up start for ".to_owned();
            message.append(key);
            message.append(": ");
            message.append(frame_error_text(&error));
            Err(message)
        },
    }
}

/// When the history that a strategy begins with ends: where the run starts, or else now.
pub fn seed_anchor(anchor: Option<UtcTime>, now: UtcTime) -> (r: UtcTime)
    ensures
        r == (match anchor {
            Some(anchor) => anchor,
            None => now,
        }),
{
    match anchor {
        Some(anchor) => anchor,
        None => now,
    }
}

/// A history of even columns takes in bars that fit: each column goes on with the cells of its own
/// column of the bars, and of all of them only the last `max_rows` stay. A history without rows becomes
/// the bars.
pub proof fn histories_go_on_with_their_bars(
    history: FrameView,
    bars: FrameView,
    max_rows: int,
    i: int,
    row: int,
)
    requires
        history.even(),
        bars.even(),
        max_rows >= 0,
        columns_fit(history.columns, bars.columns),
        0 <= i < history.columns.len(),
    ensures
        ({
            let to = appended(history, bars, max_rows);
            let all = history.height + bars.height;
            let kept = if all > max_rows {
                max_rows
            } else {
                all as int
            };
            &&& to.height == kept
            &&& to.columns.len() == history.columns.len()
            &&& to.columns[i].cells.len() == kept
            &&& 0 <= row < kept ==> to.columns[i].cells[row] == ({
                let at = row + all - kept;
                if at < history.height {
                    history.columns[i].cells[at]
                } else {
                    bars.columns[i].cells[at - history.height]
                }
            })
        }),
{
    bars_that_fit_are_put_below(history, bars);
    let over = history.over(bars);
    assert(over.columns[i].cells == history.columns[i].cells + bars.columns[i].cells);
    assert(history.columns[i].cells.len() == history.height);
    assert(bars.columns[i].cells.len() == bars.height);
    if history.height == 0 {
        assert(history.columns[i].cells =~= Seq::<Option<Seq<u8>>>::empty());
    }
}

/// An indicator waits exactly while there are fewer rows than it looks back on, and has nothing to look
/// at where the rows that it needs of the history do not fit above the new ones.
pub proof fn indicators_wait_for_their_window(
    history: FrameView,
    bars: FrameView,
    row: int,
    window: int,
)
    requires
        0 <= row < bars.height,
        0 <= window,
    ensures
        window_of(history, bars, row, window) is Wait <==> history.height + row + 1 < window,
        window <= row + 1 ==> window_of(history, bars, row, window) is Ready,
        history.height == 0 && window <= row + 1 ==> window_of(history, bars, row, window)
            is Ready,
        window_of(history, bars, row, window) is Misfit ==> history.height > 0 && window > row + 1,
        history.height > 0 && row + 1 < window <= history.height + row + 1 && columns_fit(
            history.columns,
            bars.columns,
        ) ==> window_of(history, bars, row, window) is Ready,
        history.height > 0 && row + 1 < window <= history.height + row + 1 && !columns_fit(
            history.columns,
            bars.columns,
        ) ==> window_of(history, bars, row, window) is Misfit,
{
    let needed = if window > row + 1 {
        window - (row + 1)
    } else {
        0
    };
    let prior = history.last_rows(needed);
    let incoming = bars.first_rows(row + 1);
    fitting_is_of_columns(history.columns, bars.columns, prior.columns, incoming.columns);
}

/// A row is kept exactly where its time is known and lies before the end.
pub proof fn rows_are_kept_by_their_time<A>(
    items: Seq<A>,
    times: Seq<Option<i64>>,
    item: A,
    time: Option<i64>,
    end: int,
)
    requires
        items.len() == times.len(),
    ensures
        ({
            let now = kept_before(items, times, end);
            let more = kept_before(items.push(item), times.push(time), end);
            &&& time is Some && time->Some_0 < end ==> more == now.push(item)
            &&& time is None || time->Some_0 >= end ==> more == now
        }),
        kept_before(Seq::<A>::empty(), times, end).len() == 0,
{
    assert(items.push(item).drop_last() =~= items);
    assert(times.push(time).drop_last() =~= times);
}

/// A strategy waits exactly while it has seen fewer bars than it warms up with, and is told so where
/// that is news; without a warm-up it never waits. Once it does not wait it is asked to look at the
/// bar, and to make insights of it where it may trade on it, in that order.
pub proof fn strategies_wait_for_their_warm_up(
    warm_up_bars: i32,
    loaded: i32,
    known: Option<i32>,
    allow_trading: bool,
)
    ensures
        ({
            let state = warmed_up(warm_up_bars, loaded, known);
            let calls = asked(state, allow_trading);
            &&& state is Waiting <==> warm_up_bars > 0 && loaded < warm_up_bars
            &&& state is Waiting ==> state->loaded == loaded && calls.len() == 0
            &&& state is Waiting && known is Some ==> (state->Waiting_news <==> known
                != Some(loaded))
            &&& !(state is Waiting) ==> calls.len() > 0 && calls[0] is OnBar
            &&& !(state is Waiting) && allow_trading ==> calls.len() == 2 && calls[1]
                is GenerateInsights
            &&& !(state is Waiting) && !allow_trading ==> calls.len() == 1
        }),
{
}

/// A bar is taken into the history, and what the strategy is asked goes by the rows that it then has;
/// what it has seen is noted while it warms up, and forgotten once it has.
pub proof fn bars_are_taken_in_and_asked_about(
    history: DataFrame,
    bars: DataFrame,
    key: &str,
    max_rows: usize,
    warm_up_bars: i32,
    allow_trading: bool,
)
    ensures
        forall|progress: &mut Table<i32>, r: (DataFrame, Vec<BarCall>)| #[trigger]
            call_ensures(
                on_bar,
                (history, Some(bars), key, max_rows, warm_up_bars, allow_trading, progress),
                r,
            ) ==> {
                let waits = warm_up_bars > 0 && counted_rows(r.0) < warm_up_bars;
                &&& frame_view(r.0) == appended(
                    frame_view(history),
                    frame_view(bars),
                    max_rows as int,
                )
                &&& waits ==> r.1@.len() == 0 && final(progress)@.dom().contains(key@)
                    && final(progress)@[key@] == counted_rows(r.0)
                &&& !waits ==> r.1@.len() > 0 && r.1@[0] is OnBar
                &&& !waits && warm_up_bars > 0 ==> !final(progress)@.dom().contains(key@)
                &&& r.1@.len() == 2 <==> !waits && allow_trading
            },
{
}

/// A history that was read to begin with is cut down to its last rows; it is refused exactly where its
/// times could not be read.
pub proof fn seeds_are_cut_down(
    filtered: Result<DataFrame, PolarsError>,
    max_rows: usize,
    r: Result<DataFrame, String>,
)
    requires
        call_ensures(settle_seed, (filtered, max_rows), r),
    ensures
        r is Ok <==> filtered is Ok,
        r is Ok ==> frame_height(r->Ok_0) <= max_rows,
        r is Ok && frame_height(filtered->Ok_0) <= max_rows ==> frame_height(r->Ok_0)
            == frame_height(filtered->Ok_0),
        r is Ok && frame_height(filtered->Ok_0) > max_rows ==> frame_height(r->Ok_0) == max_rows,
{
    if filtered is Ok {
        assert(frame_view(r->Ok_0).height == frame_view(filtered->Ok_0).cut(
            max_rows as int,
        ).height);
    }
}

/// The history that a strategy begins with ends where the run starts, and else now.
pub proof fn seeds_end_at_the_start(anchor: Option<UtcTime>, now: UtcTime, r: UtcTime)
    requires
        call_ensures(seed_anchor, (anchor, now), r),
    ensures
        anchor is Some ==> Some(r) == anchor,
        anchor is None ==> r == now,
{
}

/// A column takes the place of the one of its name, or else stands behind all others, which stay.
pub proof fn columns_take_their_place(frame: FrameView, column: ColumnView, i: int)
    requires
        0 <= i < frame.columns.len(),
    ensures
        frame.with_column(column).height == frame.height,
        frame.with_column(column).columns.contains(column),
        frame.columns[i].name != column.name ==> frame.with_column(column).columns[i]
            == frame.columns[i],
        (forall|k: int|
            0 <= k < frame.columns.len() ==> (#[trigger] frame.columns[k]).name != column.name)
            ==> frame.with_column(column).columns == frame.columns.push(column),
{
    place_is_within(frame.columns, column.name);
    let to = frame.with_column(column);
    match place_of(frame.columns, column.name) {
        Some(k) => {
            assert(to.columns[k] == column);
        },
        None => {
            assert(to.columns[frame.columns.len() as int] == column);
        },
    }
}

/// A cell is written into its row of its column, where that holds reals, and nowhere else.
pub proof fn cells_are_written_in_their_column(
    frame: FrameView,
    name: Seq<char>,
    row: int,
    cell: Seq<u8>,
    i: int,
    other: int,
)
    requires
        frame.even(),
        0 <= row < frame.height,
        0 <= i < frame.columns.len(),
        0 <= other < frame.height,
        forall|a: int, b: int|
            0 <= a < b < frame.columns.len() ==> (#[trigger] frame.columns[a]).name != (
            #[trigger] frame.columns[b]).name,
    ensures
        ({
            let to = frame.with_cell(name, row, cell);
            &&& to.columns.len() == frame.columns.len()
            &&& frame.columns[i].name != name ==> to.columns[i] == frame.columns[i]
            &&& frame.columns[i].name == name && frame.columns[i].kind != real_kind(64)
                ==> to.columns[i] == frame.columns[i]
            &&& frame.columns[i].name == name && frame.columns[i].kind == real_kind(64)
                ==> to.columns[i].cells[row] == Some(cell)
            &&& other != row ==> to.columns[i].cells[other] == frame.columns[i].cells[other]
        }),
{
    place_is_within(frame.columns, name);
    if frame.columns[i].name == name {
        place_is_found(frame.columns, name, i);
    }
    assert(frame.columns[i].cells.len() == frame.height);
    if let Some(k) = place_of(frame.columns, name) {
        if k != i && frame.columns[i].name == name {
            if k < i {
                assert(frame.columns[k].name != frame.columns[i].name);
            } else {
                assert(frame.columns[i].name != frame.columns[k].name);
            }
        }
        assert(frame.columns[k].cells.len() == frame.height);
    }
}

proof fn place_is_found(columns: Seq<ColumnView>, name: Seq<char>, i: int)
    requires
        0 <= i < columns.len(),
        columns[i].name == name,
    ensures
        place_of(columns, name) is Some,
    decreases columns.len(),
{
    if i < columns.len() - 1 {
        place_is_found(columns.drop_last(), name, i);
    }
}

/// While a strategy waits for bars, what it has seen is noted under the history; once it has seen
/// enough, the note is gone.
pub proof fn notes_are_kept_while_waiting()
    ensures
        forall|bars: i32, history: DataFrame, key: &str, progress: &mut Table<i32>, r: WarmUp|
            #[trigger]
            call_ensures(warm_up, (bars, &history, key, progress), r) ==> {
                &&& r is Waiting <==> bars > 0 && counted_rows(history) < bars
                &&& r is Waiting ==> final(progress)@ == progress@.insert(
                    key@,
                    counted_rows(history),
                )
                &&& r is Ready && bars > 0 ==> !final(progress)@.dom().contains(key@)
                    && final(progress)@ == progress@.remove(key@)
                &&& bars <= 0 ==> final(progress)@ == progress@
            },
        forall|progress: &mut Table<i32>, key: &str, rows: usize, bars: i32, r: ()| #[trigger]
            call_ensures(note_seeded, (progress, key, rows, bars), r) && bars >= 0 ==> {
                &&& rows >= bars ==> final(progress)@ == progress@.remove(key@)
                &&& rows < bars ==> final(progress)@ == progress@.insert(key@, rows as i32)
            },
{
}

/// It is news for a strategy that waits that it has seen another number of bars than was known, and
/// for one that is ready that it had been waiting.
pub proof fn news_are_told_once(warm_up_bars: i32, loaded: i32, known: Option<i32>)
    ensures
        ({
            let state = warmed_up(warm_up_bars, loaded, known);
            &&& state is Waiting && known is None && loaded >= 0 ==> state->Waiting_news
            &&& state is Waiting && known == Some(loaded) ==> !state->Waiting_news
            &&& state is Ready ==> (state->Ready_news <==> warm_up_bars > 0 && known is Some)
        }),
{
}

} // verus!
