//! The terminal view of a running strategy: what is looked at, and what keys do.
use vstd::prelude::*;
use vstd::string::StringExecFns;

use crate::snapshot::{
    RuntimeEventSnapshot, RuntimeInsightSnapshot, RuntimeMetricsSnapshot, RuntimeSnapshot,
};
use crate::text::{
    decimal, decimal_text, first_chars, list_holds, listed, option_view, text_at_most, text_eq,
    text_le, text_le_antisymmetric, text_le_total, text_le_transitive, text_take,
};
use crate::time::{clock, format_time};
use crate::variables::{
    find_variable_by_key_path, format_variable_path, key_path_at, path_leads, path_text, scope_at,
    texts_view, variable_at_keys, variable_key_path, variable_scope, variables_view,
    RuntimeVariableSnapshot, VariableView,
};

verus! {

/// The events that are seen at once.
pub const EVENTS_VISIBLE_ROWS: usize = 5;

/// The milliseconds between two drawings.
pub const DEFAULT_RENDER_INTERVAL_MS: u64 = 250;

/// Whether and how the terminal view is shown.
#[derive(Clone, Copy, Debug, PartialEq, Eq, Structural, Hash)]
pub struct TuiConfig {
    pub enabled: bool,
    pub forced: bool,
    pub render_interval_ms: u64,
}

impl TuiConfig {
    /// The configuration that the arguments ask for: the view is shown in a terminal, where it is
    /// built in, unless `--no-tui` forbids it.
    pub fn from_args(args: &Vec<String>, is_tty: bool, built_in: bool) -> (r: TuiConfig)
        ensures
            r.enabled == (!listed(args@, "--no-tui"@) && is_tty && built_in),
            r.forced == listed(args@, "--tui"@),
            r.render_interval_ms == DEFAULT_RENDER_INTERVAL_MS,
    {
        let disabled = list_holds(args, "--no-tui");
        let forced = list_holds(args, "--tui");
        TuiConfig {
            enabled: !disabled && is_tty && built_in,
            forced,
            render_interval_ms: DEFAULT_RENDER_INTERVAL_MS,
        }
    }

    /// No terminal view.
    pub fn disabled() -> (r: TuiConfig)
        ensures
            r == (TuiConfig {
                enabled: false,
                forced: false,
                render_interval_ms: DEFAULT_RENDER_INTERVAL_MS,
            }),
    {
        TuiConfig {
            enabled: false,
            forced: false,
            render_interval_ms: DEFAULT_RENDER_INTERVAL_MS,
        }
    }
}

/// Whether a terminal view may be started: it is wanted, and none is open.
pub fn may_start_tui(config: &TuiConfig, is_open: bool) -> (r: bool)
    ensures
        r == (config.enabled && !is_open),
{
    config.enabled && !is_open
}

/// The panes of the view.
#[derive(Clone, Copy, Debug, PartialEq, Eq, Structural, Hash)]
pub enum TuiFocusPane {
    Metrics,
    Insights,
    Variables,
    Watch,
    Events,
}

impl TuiFocusPane {
    /// The pane behind this one.
    pub open spec fn spec_next(self) -> TuiFocusPane {
        match self {
            TuiFocusPane::Metrics => TuiFocusPane::Insights,
            TuiFocusPane::Insights => TuiFocusPane::Variables,
            TuiFocusPane::Variables => TuiFocusPane::Watch,
            TuiFocusPane::Watch => TuiFocusPane::Events,
            TuiFocusPane::Events => TuiFocusPane::Metrics,
        }
    }

    /// The pane before this one.
    pub open spec fn spec_previous(self) -> TuiFocusPane {
        match self {
            TuiFocusPane::Metrics => TuiFocusPane::Events,
            TuiFocusPane::Insights => TuiFocusPane::Metrics,
            TuiFocusPane::Variables => TuiFocusPane::Insights,
            TuiFocusPane::Watch => TuiFocusPane::Variables,
            TuiFocusPane::Events => TuiFocusPane::Watch,
        }
    }

    /// The pane behind this one.
    pub fn next(self) -> (r: TuiFocusPane)
        ensures
            r == self.spec_next(),
    {
        match self {
            TuiFocusPane::Metrics => TuiFocusPane::Insights,
            TuiFocusPane::Insights => TuiFocusPane::Variables,
            TuiFocusPane::Variables => TuiFocusPane::Watch,
            TuiFocusPane::Watch => TuiFocusPane::Events,
            TuiFocusPane::Events => TuiFocusPane::Metrics,
        }
    }

    /// The pane before this one.
    pub fn previous(self) -> (r: TuiFocusPane)
        ensures
            r == self.spec_previous(),
    {
        match self {
            TuiFocusPane::Metrics => TuiFocusPane::Events,
            TuiFocusPane::Insights => TuiFocusPane::Metrics,
            TuiFocusPane::Variables => TuiFocusPane::Insights,
            TuiFocusPane::Watch => TuiFocusPane::Variables,
            TuiFocusPane::Events => TuiFocusPane::Watch,
        }
    }
}

/// Going to the next pane and back leads to the same pane, and so does going round.
pub proof fn panes_form_a_ring(pane: TuiFocusPane)
    ensures
        pane.spec_next().spec_previous() == pane,
        pane.spec_previous().spec_next() == pane,
        pane.spec_next().spec_next().spec_next().spec_next().spec_next() == pane,
        pane.spec_next() != pane,
{
}

/// What is looked at.
pub struct TuiUiState {
    pub focus: TuiFocusPane,
    pub metrics_scroll: usize,
    pub events_scroll: usize,
    pub insight_index: usize,
    pub variable_index: usize,
    pub variable_path: Vec<usize>,
    pub watch_index: usize,
    pub watch_paths: Vec<Vec<String>>,
}

/// The model of what is looked at.
#[verifier::ext_equal]
pub struct UiView {
    pub focus: TuiFocusPane,
    pub metrics_scroll: int,
    pub events_scroll: int,
    pub insight_index: int,
    pub variable_index: int,
    pub variable_path: Seq<usize>,
    pub watch_index: int,
    pub watch_paths: Seq<Seq<Seq<char>>>,
}

/// The models of a list of paths.
pub open spec fn paths_view(paths: Seq<Vec<String>>) -> Seq<Seq<Seq<char>>> {
    Seq::new(paths.len(), |i: int| texts_view(paths[i]@))
}

impl View for TuiUiState {
    type V = UiView;

    open spec fn view(&self) -> UiView {
        UiView {
            focus: self.focus,
            metrics_scroll: self.metrics_scroll as int,
            events_scroll: self.events_scroll as int,
            insight_index: self.insight_index as int,
            variable_index: self.variable_index as int,
            variable_path: self.variable_path@,
            watch_index: self.watch_index as int,
            watch_paths: paths_view(self.watch_paths@),
        }
    }
}

impl Default for TuiUiState {
    fn default() -> (r: TuiUiState)
        ensures
            r@ == (UiView {
                focus: TuiFocusPane::Metrics,
                metrics_scroll: 0,
                events_scroll: 0,
                insight_index: 0,
                variable_index: 0,
                variable_path: Seq::empty(),
                watch_index: 0,
                watch_paths: Seq::empty(),
            }),
    {
        let r = TuiUiState {
            focus: TuiFocusPane::Metrics,
            metrics_scroll: 0,
            events_scroll: 0,
            insight_index: 0,
            variable_index: 0,
            variable_path: Vec::new(),
            watch_index: 0,
            watch_paths: Vec::new(),
        };
        proof {
            assert(r@.variable_path =~= Seq::<usize>::empty());
            assert(r@.watch_paths =~= Seq::<Seq<Seq<char>>>::empty());
        }
        r
    }
}

/// `index` brought within a list.
pub open spec fn clamped(index: int, len: int) -> int {
    if len == 0 {
        0
    } else if index >= len {
        len - 1
    } else {
        index
    }
}

/// Brings an index within a list.
pub fn clamp_index(index: usize, len: usize) -> (r: usize)
    ensures
        r == clamped(index as int, len as int),
{
    if len == 0 {
        0
    } else if index >= len {
        len - 1
    } else {
        index
    }
}

/// `index` one place up.
pub open spec fn one_up(index: int, len: int) -> int {
    if len == 0 || index == 0 {
        0
    } else {
        index - 1
    }
}

/// `index` one place down, within the list.
pub open spec fn one_down(index: int, len: int) -> int {
    if len == 0 {
        0
    } else if index + 1 <= len - 1 {
        index + 1
    } else {
        len - 1
    }
}

/// Moves an index one place up.
pub fn move_up(index: usize, len: usize) -> (r: usize)
    ensures
        r == one_up(index as int, len as int),
{
    if len == 0 || index == 0 {
        0
    } else {
        index - 1
    }
}

/// Moves an index one place down, within the list.
pub fn move_down(index: usize, len: usize) -> (r: usize)
    ensures
        r == one_down(index as int, len as int),
{
    if len == 0 {
        0
    } else if index < len - 1 {
        index + 1
    } else {
        len - 1
    }
}

/// What the view is drawn from.
#[verifier::ext_equal]
pub struct SceneView {
    pub insights: int,
    pub variables: Seq<VariableView>,
    pub summary_lines: int,
    pub events: int,
}

/// What the view is drawn from.
pub open spec fn scene(snapshot: RuntimeSnapshot) -> SceneView {
    SceneView {
        insights: snapshot.active_insights@.len() as int,
        variables: variables_view(snapshot.variables@),
        summary_lines: match snapshot.metrics {
            Some(metrics) => metrics.summary_lines@.len() as int,
            None => 0,
        },
        events: snapshot.events@.len() as int,
    }
}

/// `a - b`, not below zero.
pub open spec fn less(a: int, b: int) -> int {
    if a >= b {
        a - b
    } else {
        0
    }
}

/// The smaller of two numbers.
pub open spec fn smaller(a: int, b: int) -> int {
    if a <= b {
        a
    } else {
        b
    }
}

fn min_of(a: usize, b: usize) -> (r: usize)
    ensures
        r == smaller(a as int, b as int),
{
    if a <= b {
        a
    } else {
        b
    }
}

/// The path as far as it leads to variables with children.
pub open spec fn open_path(variables: Seq<VariableView>, path: Seq<usize>) -> Seq<usize>
    decreases path.len(),
{
    if path.len() == 0 || path[0] >= variables.len() || variables[path[0] as int].children.len()
        == 0 {
        Seq::empty()
    } else {
        seq![path[0]] + open_path(variables[path[0] as int].children, path.drop_first())
    }
}

/// What is looked at, brought within what there is to be seen.
pub open spec fn normalised(ui: UiView, s: SceneView) -> UiView {
    let path = open_path(s.variables, ui.variable_path);
    let index = if path.len() != ui.variable_path.len() {
        0
    } else {
        ui.variable_index
    };
    UiView {
        insight_index: clamped(ui.insight_index, s.insights),
        watch_index: clamped(ui.watch_index, ui.watch_paths.len() as int),
        variable_path: path,
        variable_index: clamped(index, scope_at(s.variables, path).len() as int),
        metrics_scroll: smaller(ui.metrics_scroll, less(s.summary_lines, 1)),
        events_scroll: smaller(ui.events_scroll, less(s.events, EVENTS_VISIBLE_ROWS as int)),
        ..ui
    }
}

proof fn open_path_prefix(variables: Seq<VariableView>, path: Seq<usize>)
    ensures
        open_path(variables, path).len() <= path.len(),
        open_path(variables, path) == path.take(open_path(variables, path).len() as int),
    decreases path.len(),
{
    if path.len() == 0 || path[0] >= variables.len() || variables[path[0] as int].children.len()
        == 0 {
        assert(path.take(0) =~= Seq::<usize>::empty());
    } else {
        let rest = path.drop_first();
        open_path_prefix(variables[path[0] as int].children, rest);
        let n = open_path(variables[path[0] as int].children, rest).len() as int;
        assert(seq![path[0]] + rest.take(n) =~= path.take(n + 1));
    }
}

fn open_path_of(variables: &Vec<RuntimeVariableSnapshot>, path: &Vec<usize>) -> (r: Vec<usize>)
    ensures
        r@ == open_path(variables_view(variables@), path@),
{
    let ghost all = variables_view(variables@);
    let mut scope: &Vec<RuntimeVariableSnapshot> = variables;
    let mut out: Vec<usize> = Vec::new();
    let mut i: usize = 0;
    proof {
        assert(path@.skip(0) =~= path@);
        assert(out@ + open_path(all, path@) =~= open_path(all, path@));
    }
    while i < path.len()
        invariant
            i <= path.len(),
            all == variables_view(variables@),
            open_path(all, path@) == out@ + open_path(
                variables_view(scope@),
                path@.skip(i as int),
            ),
        ensures
            out@ == open_path(all, path@),
        decreases path.len() - i,
    {
        let at: usize = path[i];
        proof {
            assert(path@.skip(i as int)[0] == at);
            assert(path@.skip(i as int).drop_first() =~= path@.skip(i + 1));
        }
        if at >= scope.len() {
            proof {
                assert(out@ =~= open_path(all, path@));
            }
            break;
        }
        let node = &scope[at];
        proof {
            assert(node@.children =~= variables_view(node.children@));
        }
        if node.children.len() == 0 {
            proof {
                assert(out@ =~= open_path(all, path@));
            }
            break;
        }
        let ghost before = out@;
        out.push(at);
        proof {
            let rest = open_path(node@.children, path@.skip(i + 1));
            assert(before + (seq![at] + rest) =~= before.push(at) + rest);
        }
        scope = &node.children;
        i = i + 1;
        proof {
            if i == path@.len() {
                assert(out@ =~= open_path(all, path@));
            }
        }
    }
    out
}

/// Brings what is looked at within what there is to be seen.
pub fn normalise_ui_state(state: &mut TuiUiState, snapshot: &RuntimeSnapshot)
    ensures
        final(state)@ == normalised(old(state)@, scene(*snapshot)),
{
    state.insight_index = clamp_index(state.insight_index, snapshot.active_insights.len());
    state.watch_index = clamp_index(state.watch_index, state.watch_paths.len());
    let path = open_path_of(&snapshot.variables, &state.variable_path);
    proof {
        open_path_prefix(variables_view(snapshot.variables@), state.variable_path@);
    }
    if path.len() != state.variable_path.len() {
        state.variable_path = path;
        state.variable_index = 0;
    } else {
        proof {
            assert(path@ =~= state.variable_path@);
        }
    }
    let (scope, _) = variable_scope(&snapshot.variables, &state.variable_path);
    state.variable_index = clamp_index(state.variable_index, scope.len());
    let lines: usize = match &snapshot.metrics {
        Some(metrics) => metrics.summary_lines.len(),
        None => 0,
    };
    let last_line: usize = if lines >= 1 {
        lines - 1
    } else {
        0
    };
    state.metrics_scroll = min_of(state.metrics_scroll, last_line);
    let events: usize = snapshot.events.len();
    let last_event: usize = if events >= EVENTS_VISIBLE_ROWS {
        events - EVENTS_VISIBLE_ROWS
    } else {
        0
    };
    state.events_scroll = min_of(state.events_scroll, last_event);
}

/// Whether what is looked at is within what there is to be seen.
pub open spec fn in_view(ui: UiView, s: SceneView) -> bool {
    &&& 0 <= ui.insight_index && (s.insights > 0 ==> ui.insight_index < s.insights)
    &&& 0 <= ui.watch_index && (ui.watch_paths.len() > 0 ==> ui.watch_index
        < ui.watch_paths.len())
    &&& path_leads(s.variables, ui.variable_path)
    &&& 0 <= ui.variable_index && (scope_at(s.variables, ui.variable_path).len() > 0
        ==> ui.variable_index < scope_at(s.variables, ui.variable_path).len())
    &&& 0 <= ui.metrics_scroll <= less(s.summary_lines, 1)
    &&& 0 <= ui.events_scroll <= less(s.events, EVENTS_VISIBLE_ROWS as int)
}

proof fn open_path_leads(variables: Seq<VariableView>, path: Seq<usize>)
    ensures
        path_leads(variables, open_path(variables, path)),
        open_path(variables, open_path(variables, path)) == open_path(variables, path),
    decreases path.len(),
{
    if path.len() == 0 || path[0] >= variables.len() || variables[path[0] as int].children.len()
        == 0 {
    } else {
        let rest = open_path(variables[path[0] as int].children, path.drop_first());
        open_path_leads(variables[path[0] as int].children, path.drop_first());
        let whole = open_path(variables, path);
        assert(whole.drop_first() =~= rest);
        assert(whole[0] == path[0]);
        assert(open_path(variables, whole) =~= whole);
    }
}

/// Bringing what is looked at within what there is to be seen does so, and doing it again changes
/// nothing.
pub proof fn normalising_settles(ui: UiView, s: SceneView)
    requires
        0 <= ui.metrics_scroll,
        0 <= ui.events_scroll,
        0 <= ui.insight_index,
        0 <= ui.variable_index,
        0 <= ui.watch_index,
        0 <= s.insights,
        0 <= s.summary_lines,
        0 <= s.events,
    ensures
        in_view(normalised(ui, s), s),
        normalised(normalised(ui, s), s) == normalised(ui, s),
{
    open_path_leads(s.variables, ui.variable_path);
    assert(normalised(normalised(ui, s), s) =~= normalised(ui, s));
}

/// The title of a pane; the one that is looked at is marked.
pub open spec fn title_of(title: Seq<char>, pane: TuiFocusPane, focus: TuiFocusPane) -> Seq<char> {
    if pane == focus {
        "> "@ + title
    } else {
        title
    }
}

/// The title of a pane.
pub fn pane_title(title: &str, pane: TuiFocusPane, focus: TuiFocusPane) -> (r: String)
    ensures
        r@ == title_of(title@, pane, focus),
{
    if pane == focus {
        let mut s = "> ".to_owned();
        s.append(title);
        s
    } else {
        title.to_owned()
    }
}

/// Whether a strategy with this status has come to its end.
pub open spec fn terminal_status(status: Seq<char>) -> bool {
    status == "Stopped"@ || status == "Completed"@
}

/// Whether a strategy with this status has come to its end.
pub fn is_terminal_status(status: &str) -> (r: bool)
    ensures
        r == terminal_status(status@),
{
    text_eq(status, "Stopped") || text_eq(status, "Completed")
}

/// A status is one of a strategy at its end exactly where its label is.
pub proof fn finished_labels_are_terminal(status: crate::types::StrategyStatus)
    ensures
        terminal_status(status.spec_label()) <==> status.finished(),
{
    reveal_strlit("Initialised");
    reveal_strlit("Running");
    reveal_strlit("Stopping");
    reveal_strlit("Paused");
    reveal_strlit("Stopped");
    reveal_strlit("Completed");
    let s = status.spec_label();
    if !status.finished() {
        if s == "Stopped"@ {
            assert(s[0] == 'S');
            assert(s.len() == 7);
        }
        if s == "Completed"@ {
            assert(s[0] == 'C');
        }
    }
}

/// The first characters of an id.
pub fn short_id(id: &str) -> (r: String)
    ensures
        r@ == first_chars(id@, 8),
{
    text_take(id, 8)
}

/// A text, or a dash where there is none.
pub open spec fn or_dash(value: Option<Seq<char>>) -> Seq<char> {
    match value {
        Some(s) => s,
        None => "-"@,
    }
}

/// A text, or a dash where there is none.
pub fn option_value(value: &Option<String>) -> (r: String)
    ensures
        r@ == or_dash(option_view(*value)),
{
    match value {
        Some(s) => s.clone(),
        None => "-".to_owned(),
    }
}

/// Whether path `a` comes no later than path `b`: key by key.
pub open spec fn path_le(a: Seq<Seq<char>>, b: Seq<Seq<char>>) -> bool
    decreases a.len(),
{
    if a.len() == 0 {
        true
    } else if b.len() == 0 {
        false
    } else if a[0] == b[0] {
        path_le(a.drop_first(), b.drop_first())
    } else {
        text_le(a[0], b[0])
    }
}

fn path_at_most(a: &Vec<String>, b: &Vec<String>) -> (r: bool)
    ensures
        r == path_le(texts_view(a@), texts_view(b@)),
{
    let ghost x = texts_view(a@);
    let ghost y = texts_view(b@);
    let mut i: usize = 0;
    proof {
        assert(x.skip(0) =~= x);
        assert(y.skip(0) =~= y);
    }
    while i < a.len()
        invariant
            i <= a@.len(),
            i <= b@.len(),
            x == texts_view(a@),
            y == texts_view(b@),
            path_le(x, y) == path_le(x.skip(i as int), y.skip(i as int)),
        decreases a@.len() - i,
    {
        proof {
            assert(x.skip(i as int).drop_first() =~= x.skip(i + 1));
            assert(x.skip(i as int)[0] == a@[i as int]@);
        }
        if i >= b.len() {
            return false;
        }
        proof {
            assert(y.skip(i as int).drop_first() =~= y.skip(i + 1));
            assert(y.skip(i as int)[0] == b@[i as int]@);
        }
        if !text_eq(a[i].as_str(), b[i].as_str()) {
            return text_at_most(a[i].as_str(), b[i].as_str());
        }
        i = i + 1;
    }
    true
}

fn path_eq(a: &Vec<String>, b: &Vec<String>) -> (r: bool)
    ensures
        r == (texts_view(a@) == texts_view(b@)),
{
    let ghost x = texts_view(a@);
    let ghost y = texts_view(b@);
    if a.len() != b.len() {
        proof {
            assert(x.len() != y.len());
        }
        return false;
    }
    let mut i: usize = 0;
    while i < a.len()
        invariant
            i <= a@.len(),
            a@.len() == b@.len(),
            x == texts_view(a@),
            y == texts_view(b@),
            forall|k: int| 0 <= k < i ==> x[k] == y[k],
        decreases a@.len() - i,
    {
        if !text_eq(a[i].as_str(), b[i].as_str()) {
            proof {
                assert(x[i as int] != y[i as int]);
            }
            return false;
        }
        i = i + 1;
    }
    proof {
        assert(x =~= y);
    }
    true
}

/// `path` put behind those that come no later.
pub open spec fn with_path(paths: Seq<Seq<Seq<char>>>, path: Seq<Seq<char>>) -> Seq<Seq<Seq<char>>>
    decreases paths.len(),
{
    if paths.len() == 0 {
        seq![path]
    } else if path_le(paths[0], path) {
        seq![paths[0]] + with_path(paths.drop_first(), path)
    } else {
        seq![path] + paths
    }
}

/// The paths in their order.
pub open spec fn in_path_order(paths: Seq<Seq<Seq<char>>>) -> Seq<Seq<Seq<char>>>
    decreases paths.len(),
{
    if paths.len() == 0 {
        paths
    } else {
        with_path(in_path_order(paths.drop_last()), paths.last())
    }
}

/// The place of the first path that is `path`.
pub open spec fn path_place(
    paths: Seq<Seq<Seq<char>>>,
    path: Seq<Seq<char>>,
    from: int,
) -> Option<int>
    decreases paths.len() - from,
{
    if from < 0 || from >= paths.len() {
        None
    } else if paths[from] == path {
        Some(from)
    } else {
        path_place(paths, path, from + 1)
    }
}

/// The watched paths, with `path` taken off where it is watched, else added, all in their order.
pub open spec fn toggled(paths: Seq<Seq<Seq<char>>>, path: Seq<Seq<char>>) -> Seq<Seq<Seq<char>>> {
    match path_place(paths, path, 0) {
        Some(at) => paths.remove(at),
        None => in_path_order(paths.push(path)),
    }
}

/// Whether paths stand in their order, each once.
pub open spec fn paths_sorted(paths: Seq<Seq<Seq<char>>>) -> bool {
    forall|i: int, j: int|
        0 <= i < j < paths.len() ==> #[trigger] paths[i] != #[trigger] paths[j] && path_le(
            paths[i],
            paths[j],
        )
}

fn insert_path(watches: &mut Vec<Vec<String>>, path: Vec<String>)
    ensures
        paths_view(final(watches)@) == with_path(paths_view(old(watches)@), texts_view(path@)),
{
    let ghost before = paths_view(watches@);
    let ghost added = texts_view(path@);
    let mut i: usize = 0;
    proof {
        assert(before.skip(0) =~= before);
        assert(before.take(0) + with_path(before, added) =~= with_path(before, added));
    }
    while i < watches.len()
        invariant
            i <= watches@.len(),
            added == texts_view(path@),
            before == paths_view(watches@),
            before == paths_view(old(watches)@),
            with_path(before, added) == before.take(i as int) + with_path(
                before.skip(i as int),
                added,
            ),
        decreases watches@.len() - i,
    {
        proof {
            assert(before.skip(i as int)[0] == before[i as int]);
            assert(before.skip(i as int).drop_first() =~= before.skip(i + 1));
        }
        if !path_at_most(&watches[i], &path) {
            watches.insert(i, path);
            proof {
                assert(paths_view(watches@) =~= before.take(i as int) + (seq![added]
                    + before.skip(i as int)));
            }
            return;
        }
        proof {
            assert(before.take(i as int) + (seq![before[i as int]] + with_path(
                before.skip(i + 1),
                added,
            )) =~= before.take(i + 1) + with_path(before.skip(i + 1), added));
        }
        i = i + 1;
    }
    watches.push(path);
    proof {
        assert(paths_view(watches@) =~= before.take(i as int) + seq![added]);
    }
}

fn order_paths(paths: Vec<Vec<String>>) -> (r: Vec<Vec<String>>)
    ensures
        paths_view(r@) == in_path_order(paths_view(paths@)),
{
    let ghost all = paths_view(paths@);
    let mut rest = paths;
    let mut out: Vec<Vec<String>> = Vec::new();
    let ghost mut done: int = 0;
    proof {
        assert(all.take(0) =~= Seq::<Seq<Seq<char>>>::empty());
        assert(paths_view(out@) =~= in_path_order(all.take(0)));
        assert(all.skip(0) =~= all);
    }
    while rest.len() > 0
        invariant
            0 <= done <= all.len(),
            paths_view(rest@) == all.skip(done),
            paths_view(out@) == in_path_order(all.take(done)),
        decreases rest@.len(),
    {
        let ghost left = rest@;
        let path = rest.remove(0);
        proof {
            assert(paths_view(left)[0] == all.skip(done)[0]);
            assert(paths_view(left).len() == left.len());
            assert(all.skip(done).len() == left.len());
            assert(all.skip(done)[0] == all[done]);
            assert(texts_view(path@) == all[done]);
            assert(paths_view(rest@) =~= paths_view(left).drop_first());
            assert(all.skip(done).drop_first() =~= all.skip(done + 1));
            assert(all.take(done + 1).drop_last() =~= all.take(done));
        }
        insert_path(&mut out, path);
        proof {
            done = done + 1;
        }
    }
    proof {
        assert(paths_view(rest@).len() == 0);
        assert(all.take(done) =~= all);
    }
    out
}

/// Watches a path, or no longer watches one that is watched. A path that is added brings the whole
/// list into its order.
pub fn toggle_watch_path(watches: &mut Vec<Vec<String>>, path: Vec<String>)
    ensures
        paths_view(final(watches)@) == toggled(paths_view(old(watches)@), texts_view(path@)),
{
    let ghost before = paths_view(watches@);
    let ghost added = texts_view(path@);
    let mut i: usize = 0;
    while i < watches.len()
        invariant
            i <= watches@.len(),
            added == texts_view(path@),
            before == paths_view(watches@),
            before == paths_view(old(watches)@),
            path_place(before, added, 0) == path_place(before, added, i as int),
        decreases watches@.len() - i,
    {
        if path_eq(&watches[i], &path) {
            let _ = watches.remove(i);
            proof {
                assert(paths_view(watches@) =~= before.remove(i as int));
            }
            return;
        }
        i = i + 1;
    }
    watches.push(path);
    proof {
        assert(paths_view(watches@) =~= before.push(added));
    }
    let mut all: Vec<Vec<String>> = Vec::new();
    std::mem::swap(&mut all, watches);
    *watches = order_paths(all);
}

proof fn path_le_antisymmetric(a: Seq<Seq<char>>, b: Seq<Seq<char>>)
    requires
        path_le(a, b),
        path_le(b, a),
    ensures
        a == b,
    decreases a.len(),
{
    if a.len() > 0 && b.len() > 0 {
        if a[0] == b[0] {
            path_le_antisymmetric(a.drop_first(), b.drop_first());
            assert(a =~= seq![a[0]] + a.drop_first());
            assert(b =~= seq![b[0]] + b.drop_first());
        } else {
            text_le_antisymmetric(a[0], b[0]);
        }
    } else {
        assert(a =~= b);
    }
}

proof fn path_le_total(a: Seq<Seq<char>>, b: Seq<Seq<char>>)
    ensures
        path_le(a, b) || path_le(b, a),
    decreases a.len(),
{
    if a.len() > 0 && b.len() > 0 {
        if a[0] == b[0] {
            path_le_total(a.drop_first(), b.drop_first());
        } else {
            text_le_total(a[0], b[0]);
        }
    }
}

proof fn path_le_transitive(a: Seq<Seq<char>>, b: Seq<Seq<char>>, c: Seq<Seq<char>>)
    requires
        path_le(a, b),
        path_le(b, c),
    ensures
        path_le(a, c),
    decreases a.len(),
{
    if a.len() > 0 && b.len() > 0 && c.len() > 0 {
        if a[0] == b[0] && b[0] == c[0] {
            path_le_transitive(a.drop_first(), b.drop_first(), c.drop_first());
        } else if a[0] != b[0] && b[0] != c[0] {
            text_le_transitive(a[0], b[0], c[0]);
            if a[0] == c[0] {
                text_le_antisymmetric(a[0], b[0]);
            }
        }
    }
}

/// The place at which `with_path` puts a path.
pub open spec fn path_goes_to(paths: Seq<Seq<Seq<char>>>, path: Seq<Seq<char>>) -> int
    decreases paths.len(),
{
    if paths.len() > 0 && path_le(paths[0], path) {
        1 + path_goes_to(paths.drop_first(), path)
    } else {
        0
    }
}

proof fn with_path_inserts(paths: Seq<Seq<Seq<char>>>, path: Seq<Seq<char>>)
    ensures
        0 <= path_goes_to(paths, path) <= paths.len(),
        with_path(paths, path) == paths.insert(path_goes_to(paths, path), path),
        forall|i: int|
            0 <= i < path_goes_to(paths, path) ==> path_le(#[trigger] paths[i], path),
        path_goes_to(paths, path) < paths.len() ==> !path_le(
            paths[path_goes_to(paths, path)],
            path,
        ),
    decreases paths.len(),
{
    if paths.len() > 0 && path_le(paths[0], path) {
        let rest = paths.drop_first();
        with_path_inserts(rest, path);
        let p = path_goes_to(rest, path);
        assert(seq![paths[0]] + rest.insert(p, path) =~= paths.insert(p + 1, path));
        assert forall|i: int| 0 <= i < p + 1 implies path_le(#[trigger] paths[i], path) by {
            if i > 0 {
                assert(rest[i - 1] == paths[i]);
            }
        }
    } else {
        assert(with_path(paths, path) =~= paths.insert(0, path));
    }
}

proof fn first_place(paths: Seq<Seq<Seq<char>>>, path: Seq<Seq<char>>, from: int)
    requires
        0 <= from,
    ensures
        match path_place(paths, path, from) {
            Some(at) => from <= at < paths.len() && paths[at] == path && forall|i: int|
                from <= i < at ==> #[trigger] paths[i] != path,
            None => forall|i: int| from <= i < paths.len() ==> #[trigger] paths[i] != path,
        },
    decreases paths.len() - from,
{
    if from < paths.len() && paths[from] != path {
        first_place(paths, path, from + 1);
    }
}

proof fn paths_in_order_stay(paths: Seq<Seq<Seq<char>>>)
    requires
        paths_sorted(paths),
    ensures
        in_path_order(paths) == paths,
    decreases paths.len(),
{
    if paths.len() > 0 {
        let shorter = paths.drop_last();
        assert forall|i: int, j: int| 0 <= i < j < shorter.len() implies #[trigger] shorter[i]
            != #[trigger] shorter[j] && path_le(shorter[i], shorter[j]) by {
            assert(shorter[i] == paths[i] && shorter[j] == paths[j]);
        }
        paths_in_order_stay(shorter);
        with_path_inserts(shorter, paths.last());
        let p = path_goes_to(shorter, paths.last());
        if p < shorter.len() {
            assert(path_le(paths[p], paths[paths.len() - 1]));
        }
        assert(shorter.insert(p, paths.last()) =~= paths);
    }
}

proof fn added_in_order(paths: Seq<Seq<Seq<char>>>, path: Seq<Seq<char>>)
    requires
        paths_sorted(paths),
    ensures
        in_path_order(paths.push(path)) == with_path(paths, path),
{
    paths_in_order_stay(paths);
    assert(paths.push(path).drop_last() =~= paths);
}

/// The watched paths stay in their order, each once.
pub proof fn toggling_keeps_the_order(paths: Seq<Seq<Seq<char>>>, path: Seq<Seq<char>>)
    requires
        paths_sorted(paths),
    ensures
        paths_sorted(toggled(paths, path)),
{
    first_place(paths, path, 0);
    let r = toggled(paths, path);
    match path_place(paths, path, 0) {
        Some(at) => {
            assert forall|i: int, j: int| 0 <= i < j < r.len() implies #[trigger] r[i]
                != #[trigger] r[j] && path_le(r[i], r[j]) by {
                let a = if i < at {
                    i
                } else {
                    i + 1
                };
                let b = if j < at {
                    j
                } else {
                    j + 1
                };
                assert(r[i] == paths[a]);
                assert(r[j] == paths[b]);
            }
        },
        None => {
            added_in_order(paths, path);
            with_path_inserts(paths, path);
            let p = path_goes_to(paths, path);
            assert forall|i: int, j: int| 0 <= i < j < r.len() implies #[trigger] r[i]
                != #[trigger] r[j] && path_le(r[i], r[j]) by {
                if j < p {
                    assert(r[i] == paths[i] && r[j] == paths[j]);
                } else if i > p {
                    assert(r[i] == paths[i - 1] && r[j] == paths[j - 1]);
                } else if i < p && j == p {
                    assert(r[i] == paths[i]);
                } else if i < p {
                    assert(r[i] == paths[i] && r[j] == paths[j - 1]);
                } else {
                    assert(r[j] == paths[j - 1]);
                    path_le_total(paths[p], path);
                    if j - 1 > p {
                        assert(path_le(paths[p], paths[j - 1]));
                        path_le_transitive(path, paths[p], paths[j - 1]);
                    }
                }
            }
        },
    }
}

/// Watching a path and no longer watching it leads back to where one was, and the other way round.
pub proof fn toggling_twice_changes_nothing(paths: Seq<Seq<Seq<char>>>, path: Seq<Seq<char>>)
    requires
        paths_sorted(paths),
    ensures
        toggled(toggled(paths, path), path) == paths,
{
    first_place(paths, path, 0);
    let once = toggled(paths, path);
    first_place(once, path, 0);
    match path_place(paths, path, 0) {
        Some(at) => {
            assert forall|i: int| 0 <= i < once.len() implies #[trigger] once[i] != path by {
                if i < at {
                    assert(once[i] == paths[i]);
                } else {
                    assert(once[i] == paths[i + 1]);
                }
            }
            toggling_keeps_the_order(paths, path);
            added_in_order(once, path);
            with_path_inserts(once, path);
            let p = path_goes_to(once, path);
            if p < at {
                assert(once[p] == paths[p]);
                assert(path_le(paths[p], paths[at]));
            }
            if p > at {
                assert(path_le(once[at], path));
                assert(once[at] == paths[at + 1]);
                assert(path_le(paths[at], paths[at + 1]));
                path_le_antisymmetric(path, paths[at + 1]);
                assert(paths[at] != paths[at + 1]);
            }
            assert(once.insert(at, path) =~= paths);
        },
        None => {
            added_in_order(paths, path);
            with_path_inserts(paths, path);
            let p = path_goes_to(paths, path);
            assert(once[p] == path);
            match path_place(once, path, 0) {
                Some(q) => {
                    if q < p {
                        assert(once[q] == paths[q]);
                    }
                    assert(q == p);
                    assert(once.remove(p) =~= paths);
                },
                None => {},
            }
        },
    }
}

/// The line for a watched path: its value, or that it is missing.
pub open spec fn watch_line(variables: Seq<VariableView>, path: Seq<Seq<char>>) -> Seq<char> {
    path_text(path) + ": "@ + (match variable_at_keys(variables, path) {
        Some(v) => v.value,
        None => "<missing>"@,
    })
}

/// The lines for the watched paths.
pub fn watch_items(
    variables: &Vec<RuntimeVariableSnapshot>,
    watches: &Vec<Vec<String>>,
) -> (r: Vec<String>)
    ensures
        texts_view(r@) == Seq::new(
            watches@.len(),
            |i: int| watch_line(variables_view(variables@), texts_view(watches@[i]@)),
        ),
{
    let ghost all = variables_view(variables@);
    let mut out: Vec<String> = Vec::new();
    let mut i: usize = 0;
    while i < watches.len()
        invariant
            i <= watches@.len(),
            all == variables_view(variables@),
            out@.len() == i,
            forall|k: int|
                0 <= k < i ==> (#[trigger] out@[k])@ == watch_line(all, texts_view(watches@[k]@)),
        decreases watches@.len() - i,
    {
        let mut line = format_variable_path(&watches[i]);
        line.append(": ");
        match find_variable_by_key_path(variables, &watches[i]) {
            Some(v) => line.append(v.value.as_str()),
            None => line.append("<missing>"),
        }
        out.push(line);
        i = i + 1;
    }
    proof {
        assert(texts_view(out@) =~= Seq::new(
            watches@.len(),
            |i: int| watch_line(variables_view(variables@), texts_view(watches@[i]@)),
        ));
    }
    out
}

/// The keys that the view knows.
#[derive(Clone, Copy, Debug, PartialEq, Eq, Structural, Hash)]
pub enum TuiKey {
    Quit,
    Tab,
    BackTab,
    Metrics,
    Insights,
    Variables,
    Events,
    Watch,
    Up,
    Down,
    PageUp,
    PageDown,
    Home,
    End,
    Enter,
    Right,
    Backspace,
    Left,
    Delete,
    Other,
}

/// What a key asks for besides a change of the view.
#[derive(Clone, Copy, Debug, PartialEq, Eq, Structural, Hash)]
pub enum TuiAction {
    Nothing,
    /// Close the view.
    Close,
    /// Stop the strategy, and say so.
    RequestStop,
    /// Say that the strategy has been asked to stop already.
    StopAlreadyRequested,
}

/// What a key asks for, given the strategy's status and whether it has been asked to stop.
pub open spec fn action_of(key: TuiKey, status: Seq<char>, stop_requested: bool) -> TuiAction {
    if !(key is Quit) {
        TuiAction::Nothing
    } else if terminal_status(status) {
        TuiAction::Close
    } else if stop_requested {
        TuiAction::StopAlreadyRequested
    } else {
        TuiAction::RequestStop
    }
}

/// What a key asks for besides a change of the view.
pub fn key_action(key: TuiKey, status: &str, stop_requested: bool) -> (r: TuiAction)
    ensures
        r == action_of(key, status@, stop_requested),
{
    match key {
        TuiKey::Quit => {
            if is_terminal_status(status) {
                TuiAction::Close
            } else if stop_requested {
                TuiAction::StopAlreadyRequested
            } else {
                TuiAction::RequestStop
            }
        },
        _ => TuiAction::Nothing,
    }
}

/// The message that an action shows.
pub fn action_message(action: TuiAction) -> (r: Option<&'static str>)
    ensures
        match action {
            TuiAction::RequestStop => r matches Some(m) && m@
                == "Stop requested from TUI; waiting for strategy teardown. Press q again once the run has stopped to close the TUI."@,
            TuiAction::StopAlreadyRequested => r matches Some(m) && m@
                == "Stop already requested; waiting for strategy teardown to finish. Press q again once the run has stopped to close the TUI."@,
            _ => r is None,
        },
{
    match action {
        TuiAction::RequestStop => Some(
            "Stop requested from TUI; waiting for strategy teardown. Press q again once the run has stopped to close the TUI.",
        ),
        TuiAction::StopAlreadyRequested => Some(
            "Stop already requested; waiting for strategy teardown to finish. Press q again once the run has stopped to close the TUI.",
        ),
        _ => None,
    }
}

/// The watched paths without the one that is looked at.
pub open spec fn unwatched(ui: UiView) -> UiView {
    if ui.watch_paths.len() == 0 {
        ui
    } else {
        let left = ui.watch_paths.remove(ui.watch_index);
        UiView {
            watch_paths: left,
            watch_index: clamped(ui.watch_index, left.len() as int),
            ..ui
        }
    }
}

/// The greatest scroll of the events, of which `events` are shown and `pending` wait.
pub open spec fn events_end(events: int, pending: int) -> int {
    less(events + pending, EVENTS_VISIBLE_ROWS as int)
}

/// What is looked at after a key.
pub open spec fn after_key(ui: UiView, s: SceneView, pending: int, key: TuiKey) -> UiView {
    let scope = scope_at(s.variables, ui.variable_path);
    let n = scope.len() as int;
    match key {
        TuiKey::Tab => UiView { focus: ui.focus.spec_next(), ..ui },
        TuiKey::BackTab => UiView { focus: ui.focus.spec_previous(), ..ui },
        TuiKey::Metrics => UiView { focus: TuiFocusPane::Metrics, ..ui },
        TuiKey::Insights => UiView { focus: TuiFocusPane::Insights, ..ui },
        TuiKey::Variables => UiView { focus: TuiFocusPane::Variables, ..ui },
        TuiKey::Events => UiView { focus: TuiFocusPane::Events, ..ui },
        TuiKey::Watch => match ui.focus {
            TuiFocusPane::Variables => match key_path_at(
                s.variables,
                ui.variable_path,
                ui.variable_index,
            ) {
                Some(path) => UiView {
                    watch_paths: toggled(ui.watch_paths, path),
                    watch_index: clamped(
                        ui.watch_index,
                        toggled(ui.watch_paths, path).len() as int,
                    ),
                    ..ui
                },
                None => ui,
            },
            TuiFocusPane::Watch => unwatched(ui),
            _ => ui,
        },
        TuiKey::Up => match ui.focus {
            TuiFocusPane::Metrics => UiView { metrics_scroll: less(ui.metrics_scroll, 1), ..ui },
            TuiFocusPane::Insights => UiView {
                insight_index: one_up(ui.insight_index, s.insights),
                ..ui
            },
            TuiFocusPane::Variables => UiView {
                variable_index: one_up(ui.variable_index, n),
                ..ui
            },
            TuiFocusPane::Watch => UiView {
                watch_index: one_up(ui.watch_index, ui.watch_paths.len() as int),
                ..ui
            },
            TuiFocusPane::Events => UiView { events_scroll: less(ui.events_scroll, 1), ..ui },
        },
        TuiKey::Down => match ui.focus {
            TuiFocusPane::Metrics => UiView {
                metrics_scroll: smaller(ui.metrics_scroll + 1, less(s.summary_lines, 1)),
                ..ui
            },
            TuiFocusPane::Insights => UiView {
                insight_index: one_down(ui.insight_index, s.insights),
                ..ui
            },
            TuiFocusPane::Variables => UiView {
                variable_index: one_down(ui.variable_index, n),
                ..ui
            },
            TuiFocusPane::Watch => UiView {
                watch_index: one_down(ui.watch_index, ui.watch_paths.len() as int),
                ..ui
            },
            TuiFocusPane::Events => UiView {
                events_scroll: smaller(ui.events_scroll + 1, events_end(s.events, pending)),
                ..ui
            },
        },
        TuiKey::PageUp => if ui.focus is Events {
            UiView { events_scroll: less(ui.events_scroll, EVENTS_VISIBLE_ROWS as int), ..ui }
        } else {
            ui
        },
        TuiKey::PageDown => if ui.focus is Events {
            UiView {
                events_scroll: smaller(
                    ui.events_scroll + EVENTS_VISIBLE_ROWS,
                    events_end(s.events, pending),
                ),
                ..ui
            }
        } else {
            ui
        },
        TuiKey::Home => if ui.focus is Events {
            UiView { events_scroll: 0, ..ui }
        } else {
            ui
        },
        TuiKey::End => if ui.focus is Events {
            UiView { events_scroll: events_end(s.events, pending), ..ui }
        } else {
            ui
        },
        TuiKey::Enter | TuiKey::Right => if ui.focus is Variables && ui.variable_index < n
            && scope[ui.variable_index].children.len() > 0 {
            UiView {
                variable_path: ui.variable_path.push(ui.variable_index as usize),
                variable_index: 0,
                ..ui
            }
        } else {
            ui
        },
        TuiKey::Backspace | TuiKey::Left | TuiKey::Delete => if ui.focus is Variables && !(
        key is Delete) {
            if ui.variable_path.len() > 0 {
                UiView {
                    variable_path: ui.variable_path.drop_last(),
                    variable_index: 0,
                    ..ui
                }
            } else {
                ui
            }
        } else if ui.focus is Watch && !(key is Left) {
            unwatched(ui)
        } else {
            ui
        },
        TuiKey::Quit | TuiKey::Other => ui,
    }
}

fn unwatch(state: &mut TuiUiState)
    requires
        old(state)@.watch_paths.len() > 0 ==> old(state)@.watch_index
            < old(state)@.watch_paths.len(),
    ensures
        final(state)@ == unwatched(old(state)@),
{
    if state.watch_paths.len() > 0 {
        let ghost before = state@.watch_paths;
        let _ = state.watch_paths.remove(state.watch_index);
        state.watch_index = clamp_index(state.watch_index, state.watch_paths.len());
        proof {
            assert(state@.watch_paths =~= before.remove(old(state)@.watch_index));
        }
    }
}

fn scope_len(snapshot: &RuntimeSnapshot, path: &Vec<usize>) -> (r: usize)
    ensures
        r == scope_at(variables_view(snapshot.variables@), path@).len(),
{
    let (scope, _) = variable_scope(&snapshot.variables, path);
    proof {
        assert(scope@.len() == variables_view(scope@).len());
    }
    scope.len()
}

fn last_event_scroll(events: usize, pending: usize) -> (r: usize)
    requires
        events + pending <= usize::MAX,
    ensures
        r == events_end(events as int, pending as int),
{
    let total: usize = events + pending;
    if total >= EVENTS_VISIBLE_ROWS {
        total - EVENTS_VISIBLE_ROWS
    } else {
        0
    }
}

/// Changes what is looked at as a key asks for; `pending` logged events wait to be taken over.
pub fn handle_key(
    state: &mut TuiUiState,
    snapshot: &RuntimeSnapshot,
    pending: usize,
    key: TuiKey,
)
    requires
        old(state)@.watch_paths.len() > 0 ==> old(state)@.watch_index
            < old(state)@.watch_paths.len(),
        old(state)@.metrics_scroll < usize::MAX,
        old(state)@.events_scroll + EVENTS_VISIBLE_ROWS <= usize::MAX,
        snapshot.events@.len() + pending <= usize::MAX,
    ensures
        final(state)@ == after_key(old(state)@, scene(*snapshot), pending as int, key),
{
    match key {
        TuiKey::Quit | TuiKey::Other => {},
        TuiKey::Tab => {
            state.focus = state.focus.next();
        },
        TuiKey::BackTab => {
            state.focus = state.focus.previous();
        },
        TuiKey::Metrics => {
            state.focus = TuiFocusPane::Metrics;
        },
        TuiKey::Insights => {
            state.focus = TuiFocusPane::Insights;
        },
        TuiKey::Variables => {
            state.focus = TuiFocusPane::Variables;
        },
        TuiKey::Events => {
            state.focus = TuiFocusPane::Events;
        },
        TuiKey::Watch => match state.focus {
            TuiFocusPane::Variables => {
                match variable_key_path(
                    &snapshot.variables,
                    &state.variable_path,
                    state.variable_index,
                ) {
                    Some(path) => {
                        toggle_watch_path(&mut state.watch_paths, path);
                        state.watch_index = clamp_index(
                            state.watch_index,
                            state.watch_paths.len(),
                        );
                        proof {
                            assert(state.watch_paths@.len() == state@.watch_paths.len());
                        }
                    },
                    None => {},
                }
            },
            TuiFocusPane::Watch => unwatch(state),
            _ => {},
        },
        TuiKey::Up => match state.focus {
            TuiFocusPane::Metrics => {
                if state.metrics_scroll >= 1 {
                    state.metrics_scroll = state.metrics_scroll - 1;
                }
            },
            TuiFocusPane::Insights => {
                state.insight_index = move_up(state.insight_index, snapshot.active_insights.len());
            },
            TuiFocusPane::Variables => {
                let n: usize = scope_len(snapshot, &state.variable_path);
                state.variable_index = move_up(state.variable_index, n);
            },
            TuiFocusPane::Watch => {
                state.watch_index = move_up(state.watch_index, state.watch_paths.len());
            },
            TuiFocusPane::Events => {
                if state.events_scroll >= 1 {
                    state.events_scroll = state.events_scroll - 1;
                }
            },
        },
        TuiKey::Down => match state.focus {
            TuiFocusPane::Metrics => {
                let lines: usize = match &snapshot.metrics {
                    Some(metrics) => metrics.summary_lines.len(),
                    None => 0,
                };
                let last: usize = if lines >= 1 {
                    lines - 1
                } else {
                    0
                };
                state.metrics_scroll = min_of(state.metrics_scroll + 1, last);
            },
            TuiFocusPane::Insights => {
                state.insight_index = move_down(
                    state.insight_index,
                    snapshot.active_insights.len(),
                );
            },
            TuiFocusPane::Variables => {
                let n: usize = scope_len(snapshot, &state.variable_path);
                state.variable_index = move_down(state.variable_index, n);
            },
            TuiFocusPane::Watch => {
                state.watch_index = move_down(state.watch_index, state.watch_paths.len());
            },
            TuiFocusPane::Events => {
                let last: usize = last_event_scroll(snapshot.events.len(), pending);
                state.events_scroll = min_of(state.events_scroll + 1, last);
            },
        },
        TuiKey::PageUp => {
            if state.focus == TuiFocusPane::Events {
                state.events_scroll = if state.events_scroll >= EVENTS_VISIBLE_ROWS {
                    state.events_scroll - EVENTS_VISIBLE_ROWS
                } else {
                    0
                };
            }
        },
        TuiKey::PageDown => {
            if state.focus == TuiFocusPane::Events {
                let last: usize = last_event_scroll(snapshot.events.len(), pending);
                state.events_scroll = min_of(state.events_scroll + EVENTS_VISIBLE_ROWS, last);
            }
        },
        TuiKey::Home => {
            if state.focus == TuiFocusPane::Events {
                state.events_scroll = 0;
            }
        },
        TuiKey::End => {
            if state.focus == TuiFocusPane::Events {
                state.events_scroll = last_event_scroll(snapshot.events.len(), pending);
            }
        },
        TuiKey::Enter | TuiKey::Right => {
            if state.focus == TuiFocusPane::Variables {
                let (scope, _) = variable_scope(&snapshot.variables, &state.variable_path);
                if state.variable_index < scope.len() {
                    proof {
                        let node = scope@[state.variable_index as int];
                        assert(variables_view(scope@)[state.variable_index as int] == node@);
                        assert(node@.children =~= variables_view(node.children@));
                    }
                    if scope[state.variable_index].children.len() > 0 {
                        let at: usize = state.variable_index;
                        state.variable_path.push(at);
                        state.variable_index = 0;
                    }
                } else {
                    proof {
                        assert(variables_view(scope@).len() == scope@.len());
                    }
                }
            }
        },
        TuiKey::Backspace | TuiKey::Left | TuiKey::Delete => {
            if state.focus == TuiFocusPane::Variables && key != TuiKey::Delete {
                let ghost before = state.variable_path@;
                if state.variable_path.len() > 0 {
                    let _ = state.variable_path.pop();
                    state.variable_index = 0;
                    proof {
                        assert(state.variable_path@ =~= before.drop_last());
                    }
                }
            } else if state.focus == TuiFocusPane::Watch && key != TuiKey::Left {
                unwatch(state);
            }
        },
    }
}

proof fn longer_path_leads(variables: Seq<VariableView>, path: Seq<usize>, at: usize)
    requires
        path_leads(variables, path),
        at < scope_at(variables, path).len(),
    ensures
        path_leads(variables, path.push(at)),
        scope_at(variables, path.push(at)) == scope_at(variables, path)[at as int].children,
    decreases path.len(),
{
    let more = path.push(at);
    if path.len() == 0 {
        assert(more.drop_first() =~= Seq::<usize>::empty());
        assert(path_leads(variables[at as int].children, more.drop_first()));
        assert(scope_at(variables[at as int].children, more.drop_first())
            == variables[at as int].children);
        assert(more[0] == at);
    } else {
        longer_path_leads(variables[path[0] as int].children, path.drop_first(), at);
        assert(more.drop_first() =~= path.drop_first().push(at));
        assert(more[0] == path[0]);
    }
}

proof fn shorter_path_leads(variables: Seq<VariableView>, path: Seq<usize>)
    requires
        path_leads(variables, path),
        path.len() > 0,
    ensures
        path_leads(variables, path.drop_last()),
    decreases path.len(),
{
    if path.len() > 1 {
        shorter_path_leads(variables[path[0] as int].children, path.drop_first());
        assert(path.drop_last().drop_first() =~= path.drop_first().drop_last());
    }
}

/// Keys keep what is looked at within what there is to be seen, up to the events that wait.
pub proof fn keys_stay_in_view(ui: UiView, s: SceneView, pending: int, key: TuiKey)
    requires
        in_view(ui, s),
        0 <= pending,
        0 <= s.insights,
        0 <= s.events,
        0 <= s.summary_lines,
        scope_at(s.variables, ui.variable_path).len() <= usize::MAX,
    ensures
        ({
            let after = after_key(ui, s, pending, key);
            &&& after.events_scroll <= events_end(s.events, pending)
            &&& in_view(UiView { events_scroll: ui.events_scroll, ..after }, s)
        }),
{
    let path = ui.variable_path;
    let scope = scope_at(s.variables, path);
    if ui.variable_index < scope.len() && scope[ui.variable_index].children.len() > 0 {
        longer_path_leads(s.variables, path, ui.variable_index as usize);
    }
    if path.len() > 0 {
        shorter_path_leads(s.variables, path);
    }
}

/// The line of an insight in the list of insights.
pub fn insight_line(insight: &RuntimeInsightSnapshot) -> (r: String)
    ensures
        r@ == insight.symbol@ + " "@ + insight.side@ + " "@ + insight.state@ + " "@ + first_chars(
            insight.insight_id@,
            8,
        ),
{
    let mut s = insight.symbol.clone();
    s.append(" ");
    s.append(insight.side.as_str());
    s.append(" ");
    s.append(insight.state.as_str());
    s.append(" ");
    s.append(short_id(insight.insight_id.as_str()).as_str());
    s
}

/// The line of a variable in the list of variables: what can be opened and what is cut off are
/// marked.
pub open spec fn line_of_variable(v: VariableView) -> Seq<char> {
    (if v.children.len() == 0 {
        "  "@
    } else {
        "> "@
    }) + v.key + ": "@ + v.value + (if v.truncated {
        " *"@
    } else {
        ""@
    })
}

/// The line of a variable in the list of variables.
pub fn variable_line(variable: &RuntimeVariableSnapshot) -> (r: String)
    ensures
        r@ == line_of_variable(variable@),
{
    proof {
        assert(variable@.children =~= variables_view(variable.children@));
    }
    let mut s = if variable.children.len() == 0 {
        "  ".to_owned()
    } else {
        "> ".to_owned()
    };
    s.append(variable.key.as_str());
    s.append(": ");
    s.append(variable.value.as_str());
    if variable.truncated {
        s.append(" *");
    } else {
        s.append("");
    }
    s
}

/// The title of the view.
pub fn header_title(snapshot: &RuntimeSnapshot) -> (r: String)
    ensures
        r@ == "AQE "@ + snapshot.mode.name() + " - "@ + snapshot.strategy_name@ + " ["@
            + snapshot.status@ + "]"@,
{
    let mut s = "AQE ".to_owned();
    s.append(snapshot.mode.as_str());
    s.append(" - ");
    s.append(snapshot.strategy_name.as_str());
    s.append(" [");
    s.append(snapshot.status.as_str());
    s.append("]");
    s
}

/// The title of the pane of events.
pub fn events_title(dropped: u64) -> (r: String)
    ensures
        r@ == "Events (dropped="@ + decimal(dropped as nat) + ")"@,
{
    let mut s = "Events (dropped=".to_owned();
    s.append(decimal_text(dropped).as_str());
    s.append(")");
    s
}

/// The label of the progress bar; the percentage is told as `percent`.
pub fn progress_label(snapshot: &RuntimeSnapshot, percent: &str) -> (r: String)
    ensures
        r@ == (match snapshot.backtest_progress {
            Some(p) => percent@ + "%  "@ + decimal(p.processed_steps as nat) + "/"@ + decimal(
                p.total_steps as nat,
            ) + " steps  streams="@ + decimal(p.stream_count as nat),
            None => "live run"@,
        }),
{
    match &snapshot.backtest_progress {
        Some(p) => {
            let mut s = percent.to_owned();
            s.append("%  ");
            s.append(decimal_text(p.processed_steps as u64).as_str());
            s.append("/");
            s.append(decimal_text(p.total_steps as u64).as_str());
            s.append(" steps  streams=");
            s.append(decimal_text(p.stream_count as u64).as_str());
            s
        },
        None => "live run".to_owned(),
    }
}

/// The lines of the metrics: the summary of the run where there is one, else its latest figures, of
/// which the equity and the return are told as `equity` and `percent`.
pub open spec fn metrics_text(
    metrics: Option<RuntimeMetricsSnapshot>,
    equity: Seq<char>,
    percent: Seq<char>,
) -> Seq<Seq<char>> {
    match metrics {
        Some(m) => if m.summary_lines@.len() > 0 {
            texts_view(m.summary_lines@)
        } else {
            seq![
                "Equity: "@ + equity,
                "Return: "@ + percent + "%"@,
                "Trades: "@ + decimal(m.total_trades as nat),
                "Open positions: "@ + decimal(m.open_positions_count as nat),
                "Open insights: "@ + decimal(m.open_insights_count as nat),
            ]
        },
        None => seq!["No metrics yet"@],
    }
}

fn counted(label: &str, n: usize) -> (r: String)
    ensures
        r@ == label@ + decimal(n as nat),
{
    let mut s = label.to_owned();
    s.append(decimal_text(n as u64).as_str());
    s
}

/// The lines of the metrics.
pub fn metrics_lines(
    metrics: &Option<RuntimeMetricsSnapshot>,
    equity: &str,
    percent: &str,
) -> (r: Vec<String>)
    ensures
        texts_view(r@) == metrics_text(*metrics, equity@, percent@),
{
    let mut lines: Vec<String> = Vec::new();
    match metrics {
        Some(m) => {
            if m.summary_lines.len() > 0 {
                let mut i: usize = 0;
                proof {
                    assert(texts_view(lines@) =~= texts_view(m.summary_lines@.take(0)));
                }
                while i < m.summary_lines.len()
                    invariant
                        i <= m.summary_lines.len(),
                        texts_view(lines@) == texts_view(m.summary_lines@.take(i as int)),
                    decreases m.summary_lines.len() - i,
                {
                    let ghost before = texts_view(lines@);
                    lines.push(m.summary_lines[i].clone());
                    i = i + 1;
                    proof {
                        assert(texts_view(lines@) =~= before.push(m.summary_lines@[i - 1]@));
                        assert(texts_view(m.summary_lines@.take(i as int)) =~= texts_view(
                            m.summary_lines@.take(i - 1),
                        ).push(m.summary_lines@[i - 1]@));
                    }
                }
                proof {
                    assert(m.summary_lines@.take(i as int) =~= m.summary_lines@);
                }
            } else {
                let mut first = "Equity: ".to_owned();
                first.append(equity);
                let mut second = "Return: ".to_owned();
                second.append(percent);
                second.append("%");
                lines.push(first);
                lines.push(second);
                lines.push(counted("Trades: ", m.total_trades));
                lines.push(counted("Open positions: ", m.open_positions_count));
                lines.push(counted("Open insights: ", m.open_insights_count));
                proof {
                    assert(texts_view(lines@) =~= metrics_text(*metrics, equity@, percent@));
                }
            }
        },
        None => {
            lines.push("No metrics yet".to_owned());
            proof {
                assert(texts_view(lines@) =~= metrics_text(*metrics, equity@, percent@));
            }
        },
    }
    lines
}

/// How an event is shown: a logged line only by its text, anything else with its time and level.
pub struct EventLine {
    pub time: Option<String>,
    pub level: Option<String>,
    pub message: String,
}

/// How an event is shown.
pub fn event_line(event: &RuntimeEventSnapshot) -> (r: EventLine)
    requires
        event.created_at.wf(),
    ensures
        r.message@ == event.message@,
        event.level@ == "log"@ ==> r.time is None && r.level is None,
        event.level@ != "log"@ ==> option_view(r.time) == Some(
            clock(event.created_at) + " "@,
        ) && option_view(r.level) == Some("["@ + event.level@ + "] "@),
{
    let message = event.message.clone();
    if text_eq(event.level.as_str(), "log") {
        EventLine { time: None, level: None, message }
    } else {
        let mut time = format_time(event.created_at, "%H:%M:%S");
        time.append(" ");
        let mut level = "[".to_owned();
        level.append(event.level.as_str());
        level.append("] ");
        EventLine { time: Some(time), level: Some(level), message }
    }
}

/// Brings the scroll of the events within the events that are shown and those that wait.
pub fn settle_events_scroll(state: &mut TuiUiState, events: usize, pending: usize)
    requires
        events + pending <= usize::MAX,
    ensures
        final(state)@ == (UiView {
            events_scroll: smaller(
                old(state)@.events_scroll,
                events_end(events as int, pending as int),
            ),
            ..old(state)@
        }),
{
    state.events_scroll = min_of(state.events_scroll, last_event_scroll(events, pending));
}

/// The places of the events that are seen, the newest first: `total` events, of which the newest
/// `scroll` are passed over.
pub open spec fn visible(total: int, scroll: int) -> Seq<usize> {
    Seq::new(
        smaller(less(total, scroll), EVENTS_VISIBLE_ROWS as int) as nat,
        |i: int| (total - 1 - scroll - i) as usize,
    )
}

/// The places of the events that are seen, the newest first.
pub fn visible_events(total: usize, scroll: usize) -> (r: Vec<usize>)
    ensures
        r@ == visible(total as int, scroll as int),
{
    let mut out: Vec<usize> = Vec::new();
    while out.len() < EVENTS_VISIBLE_ROWS && scroll < total && out.len() < total - scroll
        invariant
            out@.len() <= EVENTS_VISIBLE_ROWS,
            out@.len() <= less(total as int, scroll as int),
            forall|i: int| 0 <= i < out@.len() ==> #[trigger] out@[i] == total - 1 - scroll - i,
        decreases EVENTS_VISIBLE_ROWS - out@.len(),
    {
        let at: usize = total - 1 - scroll - out.len();
        out.push(at);
    }
    proof {
        assert(out@ =~= visible(total as int, scroll as int));
    }
    out
}

/// Asking to leave closes the view of a run that is over; of any other it asks for a stop, once.
pub proof fn runs_are_stopped_before_the_view_closes(
    key: TuiKey,
    status: crate::types::StrategyStatus,
    stop_requested: bool,
)
    ensures
        ({
            let over = status is Stopped || status is Completed;
            let action = action_of(key, status.spec_label(), stop_requested);
            &&& action is Close <==> key is Quit && over
            &&& action is RequestStop <==> key is Quit && !over && !stop_requested
            &&& action is StopAlreadyRequested <==> key is Quit && !over && stop_requested
            &&& action is Nothing <==> !(key is Quit)
        }),
{
    finished_labels_are_terminal(status);
}

/// The view is on where it is a terminal, built in and not refused; asking for it only marks it as
/// asked for. It starts where it is on and none is open.
pub proof fn views_are_on_unless_refused(
    args: Vec<String>,
    is_tty: bool,
    built_in: bool,
    is_open: bool,
    config: TuiConfig,
    started: bool,
)
    requires
        call_ensures(TuiConfig::from_args, (&args, is_tty, built_in), config),
        call_ensures(may_start_tui, (&config, is_open), started),
    ensures
        !is_tty || !built_in ==> !config.enabled,
        (exists|i: int| 0 <= i < args@.len() && (#[trigger] args@[i])@ == "--no-tui"@)
            ==> !config.enabled,
        is_tty && built_in && (forall|i: int|
            0 <= i < args@.len() ==> (#[trigger] args@[i])@ != "--no-tui"@) ==> config.enabled,
        config.forced <==> exists|i: int|
            0 <= i < args@.len() && (#[trigger] args@[i])@ == "--tui"@,
        config.render_interval_ms == 250,
        started <==> config.enabled && !is_open,
{
}

/// The tabulator goes from the metrics over the insights, the variables and the watched ones to the
/// events, and back; a letter goes straight to its pane. Nothing else changes.
pub proof fn panes_are_reached_by_their_keys(ui: UiView, s: SceneView, pending: int)
    ensures
        after_key(ui, s, pending, TuiKey::Metrics) == (UiView {
            focus: TuiFocusPane::Metrics,
            ..ui
        }),
        after_key(ui, s, pending, TuiKey::Insights) == (UiView {
            focus: TuiFocusPane::Insights,
            ..ui
        }),
        after_key(ui, s, pending, TuiKey::Variables) == (UiView {
            focus: TuiFocusPane::Variables,
            ..ui
        }),
        after_key(ui, s, pending, TuiKey::Events) == (UiView { focus: TuiFocusPane::Events, ..ui }),
        after_key(ui, s, pending, TuiKey::Quit) == ui,
        after_key(ui, s, pending, TuiKey::Other) == ui,
        ({
            let next = after_key(ui, s, pending, TuiKey::Tab);
            let back = after_key(ui, s, pending, TuiKey::BackTab);
            &&& next == UiView { focus: next.focus, ..ui }
            &&& back == UiView { focus: back.focus, ..ui }
            &&& ui.focus is Metrics ==> next.focus is Insights && back.focus is Events
            &&& ui.focus is Insights ==> next.focus is Variables && back.focus is Metrics
            &&& ui.focus is Variables ==> next.focus is Watch && back.focus is Insights
            &&& ui.focus is Watch ==> next.focus is Events && back.focus is Variables
            &&& ui.focus is Events ==> next.focus is Metrics && back.focus is Watch
        }),
{
}

/// Up and down move the selection of the pane that is looked at by one, and stop at its ends;
/// nothing else changes.
pub proof fn selections_move_one_by_one(ui: UiView, s: SceneView, pending: int)
    requires
        in_view(ui, s),
        s.insights > 0,
        s.summary_lines > 0,
        s.events >= 0,
        pending >= 0,
        ui.watch_paths.len() > 0,
        scope_at(s.variables, ui.variable_path).len() > 0,
    ensures
        ({
            let up = after_key(ui, s, pending, TuiKey::Up);
            let down = after_key(ui, s, pending, TuiKey::Down);
            let scope = scope_at(s.variables, ui.variable_path);
            &&& ui.focus is Metrics ==> {
                &&& up == UiView { metrics_scroll: up.metrics_scroll, ..ui }
                &&& down == UiView { metrics_scroll: down.metrics_scroll, ..ui }
                &&& ui.metrics_scroll > 0 ==> up.metrics_scroll == ui.metrics_scroll - 1
                &&& ui.metrics_scroll == 0 ==> up.metrics_scroll == 0
                &&& ui.metrics_scroll + 1 < s.summary_lines ==> down.metrics_scroll
                    == ui.metrics_scroll + 1
                &&& ui.metrics_scroll + 1 >= s.summary_lines ==> down.metrics_scroll
                    == ui.metrics_scroll
            }
            &&& ui.focus is Insights ==> {
                &&& up == UiView { insight_index: up.insight_index, ..ui }
                &&& down == UiView { insight_index: down.insight_index, ..ui }
                &&& ui.insight_index > 0 ==> up.insight_index == ui.insight_index - 1
                &&& ui.insight_index == 0 ==> up.insight_index == 0
                &&& ui.insight_index + 1 < s.insights ==> down.insight_index == ui.insight_index
                    + 1
                &&& ui.insight_index + 1 == s.insights ==> down.insight_index == ui.insight_index
            }
            &&& ui.focus is Variables ==> {
                &&& up == UiView { variable_index: up.variable_index, ..ui }
                &&& down == UiView { variable_index: down.variable_index, ..ui }
                &&& ui.variable_index > 0 ==> up.variable_index == ui.variable_index - 1
                &&& ui.variable_index == 0 ==> up.variable_index == 0
                &&& ui.variable_index + 1 < scope.len() ==> down.variable_index
                    == ui.variable_index + 1
                &&& ui.variable_index + 1 == scope.len() ==> down.variable_index
                    == ui.variable_index
            }
            &&& ui.focus is Watch ==> {
                &&& up == UiView { watch_index: up.watch_index, ..ui }
                &&& down == UiView { watch_index: down.watch_index, ..ui }
                &&& ui.watch_index > 0 ==> up.watch_index == ui.watch_index - 1
                &&& ui.watch_index == 0 ==> up.watch_index == 0
                &&& ui.watch_index + 1 < ui.watch_paths.len() ==> down.watch_index
                    == ui.watch_index + 1
                &&& ui.watch_index + 1 == ui.watch_paths.len() ==> down.watch_index
                    == ui.watch_index
            }
            &&& ui.focus is Events ==> {
                &&& up == UiView { events_scroll: up.events_scroll, ..ui }
                &&& down == UiView { events_scroll: down.events_scroll, ..ui }
                &&& ui.events_scroll > 0 ==> up.events_scroll == ui.events_scroll - 1
                &&& ui.events_scroll == 0 ==> up.events_scroll == 0
                &&& ui.events_scroll + 5 < s.events + pending ==> down.events_scroll
                    == ui.events_scroll + 1
                &&& ui.events_scroll + 5 >= s.events + pending ==> down.events_scroll
                    == ui.events_scroll
            }
        }),
{
}

/// Five events are seen at once: the events are turned by five, Home shows the newest and End the
/// oldest, and these keys do nothing in another pane.
pub proof fn events_are_turned_by_the_page(ui: UiView, s: SceneView, pending: int)
    requires
        in_view(ui, s),
        s.events >= 0,
        pending >= 0,
    ensures
        ({
            let up = after_key(ui, s, pending, TuiKey::PageUp);
            let down = after_key(ui, s, pending, TuiKey::PageDown);
            let home = after_key(ui, s, pending, TuiKey::Home);
            let end = after_key(ui, s, pending, TuiKey::End);
            &&& !(ui.focus is Events) ==> up == ui && down == ui && home == ui && end == ui
            &&& ui.focus is Events ==> {
                &&& up == UiView { events_scroll: up.events_scroll, ..ui }
                &&& down == UiView { events_scroll: down.events_scroll, ..ui }
                &&& home == UiView { events_scroll: 0, ..ui }
                &&& end == UiView { events_scroll: end.events_scroll, ..ui }
                &&& ui.events_scroll >= 5 ==> up.events_scroll == ui.events_scroll - 5
                &&& ui.events_scroll < 5 ==> up.events_scroll == 0
                &&& ui.events_scroll + 10 <= s.events + pending ==> down.events_scroll
                    == ui.events_scroll + 5
                &&& s.events + pending >= 5 ==> end.events_scroll == s.events + pending - 5
                &&& s.events + pending < 5 ==> end.events_scroll == 0
                &&& down.events_scroll <= end.events_scroll
                &&& ui.events_scroll + 10 > s.events + pending ==> down.events_scroll
                    == end.events_scroll
            }
        }),
{
}

/// A variable that holds others is opened, and the way back leads up by one; both start at the
/// first one. A variable that holds none is not opened.
pub proof fn variables_are_opened_and_left(ui: UiView, s: SceneView, pending: int)
    requires
        in_view(ui, s),
        scope_at(s.variables, ui.variable_path).len() <= usize::MAX,
    ensures
        ({
            let scope = scope_at(s.variables, ui.variable_path);
            let enter = after_key(ui, s, pending, TuiKey::Enter);
            let right = after_key(ui, s, pending, TuiKey::Right);
            let back = after_key(ui, s, pending, TuiKey::Backspace);
            let left = after_key(ui, s, pending, TuiKey::Left);
            &&& right == enter
            &&& !(ui.focus is Variables) ==> enter == ui && left == ui
            &&& ui.focus is Variables && scope.len() > 0
                && scope[ui.variable_index].children.len() > 0 ==> {
                &&& enter.variable_index == 0
                &&& enter.variable_path.len() == ui.variable_path.len() + 1
                &&& enter.variable_path.drop_last() == ui.variable_path
                &&& enter.variable_path.last() == ui.variable_index
                &&& enter == UiView {
                    variable_index: enter.variable_index,
                    variable_path: enter.variable_path,
                    ..ui
                }
                &&& after_key(enter, s, pending, TuiKey::Left) == UiView {
                    variable_index: 0,
                    ..ui
                }
            }
            &&& scope.len() > 0 && scope[ui.variable_index].children.len() == 0 ==> enter == ui
            &&& ui.focus is Variables ==> back == left
            &&& ui.focus is Variables && ui.variable_path.len() == 0 ==> left == ui
            &&& ui.focus is Variables && ui.variable_path.len() > 0 ==> {
                &&& left.variable_index == 0
                &&& left.variable_path == ui.variable_path.take(ui.variable_path.len() - 1)
                &&& left == UiView {
                    variable_index: left.variable_index,
                    variable_path: left.variable_path,
                    ..ui
                }
            }
        }),
{
    let enter = after_key(ui, s, pending, TuiKey::Enter);
    assert(enter.variable_path.drop_last() =~= ui.variable_path || enter == ui);
    if ui.variable_path.len() > 0 {
        assert(ui.variable_path.drop_last() =~= ui.variable_path.take(
            ui.variable_path.len() - 1,
        ));
    }
}

/// A variable that is watched is no longer watched once it is toggled, another one is; what else is
/// watched stays so.
pub proof fn toggling_changes_one_watch(
    paths: Seq<Seq<Seq<char>>>,
    path: Seq<Seq<char>>,
    other: Seq<Seq<char>>,
)
    requires
        paths_sorted(paths),
    ensures
        toggled(paths, path).contains(path) <==> !paths.contains(path),
        other != path ==> (toggled(paths, path).contains(other) <==> paths.contains(other)),
        toggled(paths, path).len() == (if paths.contains(path) {
            paths.len() - 1
        } else {
            paths.len() + 1int
        }),
{
    first_place(paths, path, 0);
    match path_place(paths, path, 0) {
        Some(at) => {
            let r = paths.remove(at);
            assert(paths[at] == path);
            assert forall|i: int| 0 <= i < r.len() implies #[trigger] r[i] != path by {
                if i < at {
                    assert(r[i] == paths[i]);
                } else {
                    assert(r[i] == paths[i + 1]);
                }
            }
            if paths.contains(other) && other != path {
                let k = choose|k: int| 0 <= k < paths.len() && paths[k] == other;
                assert(r[if k < at { k } else { k - 1 }] == other);
            }
            if r.contains(other) {
                let k = choose|k: int| 0 <= k < r.len() && r[k] == other;
                assert(paths[if k < at { k } else { k + 1 }] == other);
            }
        },
        None => {
            ordered_paths_are_the_same(paths.push(path), path);
            ordered_paths_are_the_same(paths.push(path), other);
            assert(paths.push(path)[paths.len() as int] == path);
            if paths.contains(other) {
                let k = choose|k: int| 0 <= k < paths.len() && paths[k] == other;
                assert(paths.push(path)[k] == other);
            }
            if paths.push(path).contains(other) && other != path {
                let k = choose|k: int| 0 <= k < paths.len() + 1 && paths.push(path)[k] == other;
                assert(paths[k] == other);
            }
        },
    }
}

proof fn with_path_holds(
    paths: Seq<Seq<Seq<char>>>,
    path: Seq<Seq<char>>,
    other: Seq<Seq<char>>,
)
    ensures
        with_path(paths, path).len() == paths.len() + 1,
        with_path(paths, path).contains(other) <==> other == path || paths.contains(other),
    decreases paths.len(),
{
    let r = with_path(paths, path);
    if paths.len() == 0 {
        assert(r[0] == path);
    } else if path_le(paths[0], path) {
        let rest = paths.drop_first();
        with_path_holds(rest, path, other);
        let w = with_path(rest, path);
        if w.contains(other) {
            let k = choose|k: int| 0 <= k < w.len() && w[k] == other;
            assert(r[k + 1] == other);
        }
        if r.contains(other) {
            let k = choose|k: int| 0 <= k < r.len() && r[k] == other;
            if k > 0 {
                assert(w[k - 1] == other);
            } else {
                assert(paths[0] == other);
            }
        }
        if paths.contains(other) {
            let k = choose|k: int| 0 <= k < paths.len() && paths[k] == other;
            if k > 0 {
                assert(rest[k - 1] == other);
            } else {
                assert(r[0] == other);
            }
        }
        if rest.contains(other) {
            let k = choose|k: int| 0 <= k < rest.len() && rest[k] == other;
            assert(paths[k + 1] == other);
        }
    } else {
        assert(r[0] == path);
        if paths.contains(other) {
            let k = choose|k: int| 0 <= k < paths.len() && paths[k] == other;
            assert(r[k + 1] == other);
        }
        if r.contains(other) && other != path {
            let k = choose|k: int| 0 <= k < r.len() && r[k] == other;
            assert(paths[k - 1] == other);
        }
    }
}

proof fn ordered_paths_are_the_same(paths: Seq<Seq<Seq<char>>>, path: Seq<Seq<char>>)
    ensures
        in_path_order(paths).len() == paths.len(),
        in_path_order(paths).contains(path) <==> paths.contains(path),
    decreases paths.len(),
{
    if paths.len() > 0 {
        let rest = paths.drop_last();
        ordered_paths_are_the_same(rest, path);
        with_path_holds(in_path_order(rest), paths.last(), path);
        assert(paths[paths.len() - 1] == paths.last());
        if rest.contains(path) {
            let k = choose|k: int| 0 <= k < rest.len() && rest[k] == path;
            assert(paths[k] == path);
        }
        if paths.contains(path) && path != paths.last() {
            let k = choose|k: int| 0 <= k < paths.len() && paths[k] == path;
            assert(rest[k] == path);
        }
    }
}

/// The watch key toggles the variable that is selected, by the keys that lead to it; among the
/// watched ones it takes the selected one out, as Delete and Backspace do. The selection stays on a
/// watched one.
pub proof fn selected_variables_are_watched(ui: UiView, s: SceneView, pending: int)
    requires
        in_view(ui, s),
        paths_sorted(ui.watch_paths),
    ensures
        ({
            let scope = scope_at(s.variables, ui.variable_path);
            let keys = crate::variables::crumbs_at(s.variables, ui.variable_path).push(
                scope[ui.variable_index].key,
            );
            let after = after_key(ui, s, pending, TuiKey::Watch);
            let deleted = after_key(ui, s, pending, TuiKey::Delete);
            let back = after_key(ui, s, pending, TuiKey::Backspace);
            &&& after == UiView {
                watch_paths: after.watch_paths,
                watch_index: after.watch_index,
                ..ui
            }
            &&& after.watch_paths.len() > 0 ==> 0 <= after.watch_index < after.watch_paths.len()
            &&& ui.focus is Variables && scope.len() > 0 ==> {
                &&& after.watch_paths.contains(keys) <==> !ui.watch_paths.contains(keys)
                &&& forall|p: Seq<Seq<char>>|
                    p != keys ==> (#[trigger] after.watch_paths.contains(p)
                        <==> ui.watch_paths.contains(p))
            }
            &&& ui.focus is Watch && ui.watch_paths.len() > 0 ==> {
                &&& after.watch_paths.len() == ui.watch_paths.len() - 1
                &&& !after.watch_paths.contains(ui.watch_paths[ui.watch_index])
                &&& deleted == after
                &&& back == after
            }
            &&& ui.focus is Metrics || ui.focus is Insights || ui.focus is Events ==> after == ui
                && deleted == ui && back == ui
            &&& ui.focus is Variables ==> deleted == ui
        }),
{
    let scope = scope_at(s.variables, ui.variable_path);
    let keys = crate::variables::crumbs_at(s.variables, ui.variable_path).push(scope[ui.variable_index].key);
    if ui.focus is Variables && scope.len() > 0 {
        toggling_changes_one_watch(ui.watch_paths, keys, keys);
        assert forall|p: Seq<Seq<char>>| p != keys implies (#[trigger] toggled(
            ui.watch_paths,
            keys,
        ).contains(p) <==> ui.watch_paths.contains(p)) by {
            toggling_changes_one_watch(ui.watch_paths, keys, p);
        }
    }
    if ui.focus is Watch && ui.watch_paths.len() > 0 {
        let left = ui.watch_paths.remove(ui.watch_index);
        assert forall|i: int| 0 <= i < left.len() implies #[trigger] left[i]
            != ui.watch_paths[ui.watch_index] by {
            if i < ui.watch_index {
                assert(left[i] == ui.watch_paths[i]);
            } else {
                assert(left[i] == ui.watch_paths[i + 1]);
            }
        }
    }
}

/// What no longer is there is not looked at: a selection behind the end goes to the last one, one
/// within stays, and a way that leads nowhere is left.
pub proof fn views_follow_what_is_there(ui: UiView, s: SceneView)
    requires
        0 <= ui.metrics_scroll,
        0 <= ui.events_scroll,
        0 <= ui.insight_index,
        0 <= ui.watch_index,
        0 <= s.events,
        0 <= s.summary_lines,
        0 <= s.insights,
    ensures
        ({
            let r = normalised(ui, s);
            &&& r.focus == ui.focus
            &&& r.watch_paths == ui.watch_paths
            &&& ui.insight_index < s.insights ==> r.insight_index == ui.insight_index
            &&& ui.insight_index >= s.insights > 0 ==> r.insight_index == s.insights - 1
            &&& s.insights == 0 ==> r.insight_index == 0
            &&& ui.watch_index < ui.watch_paths.len() ==> r.watch_index == ui.watch_index
            &&& ui.watch_index >= ui.watch_paths.len() > 0 ==> r.watch_index
                == ui.watch_paths.len() - 1
            &&& ui.metrics_scroll < s.summary_lines ==> r.metrics_scroll == ui.metrics_scroll
            &&& ui.metrics_scroll >= s.summary_lines > 0 ==> r.metrics_scroll == s.summary_lines
                - 1
            &&& ui.events_scroll + 5 <= s.events ==> r.events_scroll == ui.events_scroll
            &&& ui.events_scroll + 5 > s.events >= 5 ==> r.events_scroll == s.events - 5
            &&& s.events < 5 ==> r.events_scroll == 0
            &&& r.variable_path == ui.variable_path.take(r.variable_path.len() as int)
            &&& r.variable_path.len() < ui.variable_path.len() ==> r.variable_index == 0
        }),
{
    open_path_prefix(s.variables, ui.variable_path);
}

/// The newest event stands first, up to five of them, and scrolling leaves out the newest ones.
pub proof fn newest_events_stand_first(total: usize, scroll: usize, i: int)
    ensures
        total <= scroll ==> visible(total as int, scroll as int).len() == 0,
        total > scroll && total - scroll <= 5 ==> visible(total as int, scroll as int).len()
            == total - scroll,
        total - scroll > 5 ==> visible(total as int, scroll as int).len() == 5,
        0 <= i < visible(total as int, scroll as int).len() ==> visible(
            total as int,
            scroll as int,
        )[i] == total - 1 - scroll - i,
{
}

/// The pane that is looked at is marked; a value that is missing is shown as a dash.
pub proof fn titles_mark_the_pane(title: Seq<char>, pane: TuiFocusPane, focus: TuiFocusPane)
    ensures
        pane == focus ==> title_of(title, pane, focus).len() == title.len() + 2
            && title_of(title, pane, focus).skip(2) == title && title_of(title, pane, focus)[0]
            == '>' && title_of(title, pane, focus)[1] == ' ',
        pane != focus ==> title_of(title, pane, focus) == title,
        or_dash(Some(title)) == title,
        or_dash(None) == seq!['-'],
{
    reveal_strlit("> ");
    reveal_strlit("-");
    assert(("> "@ + title).skip(2) =~= title);
    assert("-"@ =~= seq!['-']);
}

/// A watched variable is shown with the text of its keys and its value, or as missing.
pub proof fn watches_show_their_value(variables: Seq<VariableView>, path: Seq<Seq<char>>)
    ensures
        variable_at_keys(variables, path) is Some ==> watch_line(variables, path) == path_text(path)
            + seq![':', ' '] + variable_at_keys(variables, path)->Some_0.value,
        variable_at_keys(variables, path) is None ==> watch_line(variables, path) == path_text(path)
            + seq![':', ' '] + "<missing>"@,
{
    reveal_strlit(": ");
    assert(": "@ =~= seq![':', ' ']);
}

/// The lines of a variable tell which ones hold others and which ones were cut.
pub proof fn lines_tell_what_a_variable_holds(v: VariableView)
    ensures
        ({
            let line = line_of_variable(v);
            let open = v.children.len() > 0;
            &&& line.len() == 2 + v.key.len() + 2 + v.value.len() + (if v.truncated {
                2int
            } else {
                0
            })
            &&& line[0] == (if open {
                '>'
            } else {
                ' '
            })
            &&& line.subrange(2, 2 + v.key.len() as int) == v.key
            &&& line.subrange(4 + v.key.len() as int, 4 + v.key.len() + v.value.len() as int)
                == v.value
            &&& v.truncated ==> line.last() == '*'
        }),
{
    reveal_strlit("  ");
    reveal_strlit("> ");
    reveal_strlit(": ");
    reveal_strlit(" *");
    reveal_strlit("");
    let line = line_of_variable(v);
    assert(line.subrange(2, 2 + v.key.len() as int) =~= v.key);
    assert(line.subrange(4 + v.key.len() as int, 4 + v.key.len() + v.value.len() as int)
        =~= v.value);
}

/// Written summaries are shown as they are; without them the figures are, each under its name, and
/// without any figures a note says so.
pub proof fn metrics_are_shown_by_name(
    metrics: Option<RuntimeMetricsSnapshot>,
    equity: Seq<char>,
    percent: Seq<char>,
)
    ensures
        ({
            let lines = metrics_text(metrics, equity, percent);
            &&& metrics is None ==> lines.len() == 1 && lines[0] == "No metrics yet"@
            &&& metrics is Some && metrics->Some_0.summary_lines@.len() > 0 ==> lines.len()
                == metrics->Some_0.summary_lines@.len() && forall|i: int|
                0 <= i < lines.len() ==> (#[trigger] lines[i])
                    == metrics->Some_0.summary_lines@[i]@
            &&& metrics is Some && metrics->Some_0.summary_lines@.len() == 0 ==> {
                &&& lines.len() == 5
                &&& lines[0] == "Equity: "@ + equity
                &&& lines[1] == "Return: "@ + percent + "%"@
                &&& lines[2] == "Trades: "@ + decimal(metrics->Some_0.total_trades as nat)
                &&& lines[3] == "Open positions: "@ + decimal(
                    metrics->Some_0.open_positions_count as nat,
                )
                &&& lines[4] == "Open insights: "@ + decimal(
                    metrics->Some_0.open_insights_count as nat,
                )
            }
        }),
{
}

/// The scroll of the events stays where there still are as many of them, and else goes to the
/// oldest ones.
pub proof fn event_scrolls_are_settled()
    ensures
        forall|state: &mut TuiUiState, events: usize, pending: usize, r: ()| #[trigger]
            call_ensures(settle_events_scroll, (state, events, pending), r) ==> {
                &&& state.events_scroll + 5 <= events + pending ==> final(state)@ == state@
                &&& state.events_scroll + 5 > events + pending >= 5 ==> final(state)@ == UiView {
                    events_scroll: events + pending - 5,
                    ..state@
                }
                &&& events + pending < 5 ==> final(state)@ == UiView { events_scroll: 0, ..state@ }
            },
{
}

/// A key that is pressed does what it does to the view, and no more; so does the look at what is
/// there.
pub proof fn keys_and_looks_change_the_view()
    ensures
        forall|ui: &mut TuiUiState, s: RuntimeSnapshot, pending: usize, key: TuiKey, r: ()| #[trigger]
            call_ensures(handle_key, (ui, &s, pending, key), r) ==> {
                &&& final(ui)@ == after_key(ui@, scene(s), pending as int, key)
                &&& key is Quit || key is Other ==> final(ui)@ == ui@
                &&& key is Insights ==> final(ui).focus is Insights
                &&& key is Home && ui.focus is Events ==> final(ui).events_scroll == 0
            },
        forall|ui: &mut TuiUiState, s: RuntimeSnapshot, r: ()| #[trigger]
            call_ensures(normalise_ui_state, (ui, &s), r) ==> {
                &&& final(ui)@ == normalised(ui@, scene(s))
                &&& final(ui).focus == ui.focus
                &&& s.active_insights@.len() > 0 ==> final(ui).insight_index
                    < s.active_insights@.len()
            },
        forall|w: &mut Vec<Vec<String>>, path: Vec<String>, r: ()| #[trigger]
            call_ensures(toggle_watch_path, (w, path), r) ==> paths_view(final(w)@) == toggled(
                paths_view(w@),
                texts_view(path@),
            ),
{
}

/// What is shown of a run is what it reports.
pub proof fn scenes_show_the_report(s: RuntimeSnapshot)
    ensures
        scene(s).insights == s.active_insights@.len(),
        scene(s).events == s.events@.len(),
        scene(s).variables.len() == s.variables@.len(),
        s.metrics is None ==> scene(s).summary_lines == 0,
        s.metrics is Some ==> scene(s).summary_lines == s.metrics->Some_0.summary_lines@.len(),
{
}

/// An insight is shown by its symbol, its side, its state and the first eight characters of its id.
pub proof fn insights_are_shown_in_a_line(insight: RuntimeInsightSnapshot, r: String)
    requires
        call_ensures(insight_line, (&insight,), r),
        insight.insight_id@.len() >= 8,
    ensures
        r@ == insight.symbol@ + " "@ + insight.side@ + " "@ + insight.state@ + " "@
            + insight.insight_id@.take(8),
{
    if insight.insight_id@.len() == 8 {
        assert(insight.insight_id@.take(8) =~= insight.insight_id@);
    }
}

/// A logged line is shown as it is; any other event with its time and its level.
pub proof fn events_are_shown_with_their_level(event: RuntimeEventSnapshot, r: EventLine)
    requires
        call_ensures(event_line, (&event,), r),
    ensures
        r.message@ == event.message@,
        event.level@ == "log"@ ==> r.time is None && r.level is None,
        event.level@ != "log"@ ==> r.time is Some && r.level is Some && r.time->Some_0@ == clock(
            event.created_at,
        ) + " "@ && r.level->Some_0@ == "["@ + event.level@ + "] "@,
{
}

/// The progress of a backtest is told by its steps and its streams; a live run has none.
pub proof fn progress_is_told_by_steps(s: RuntimeSnapshot, percent: &str, r: String)
    requires
        call_ensures(progress_label, (&s, percent), r),
    ensures
        s.backtest_progress is None ==> r@ == "live run"@,
        s.backtest_progress matches Some(p) ==> r@ == percent@ + "%  "@ + decimal(
            p.processed_steps as nat,
        ) + "/"@ + decimal(p.total_steps as nat) + " steps  streams="@ + decimal(
            p.stream_count as nat,
        ),
{
}

} // verus!
