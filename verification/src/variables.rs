//! A strategy's variables, summarised for browsing.
use vstd::prelude::*;
use vstd::string::StringExecFns;

use crate::json::{in_key_order, json_text, members_view, order_by_key, Json, JsonView};
use crate::text::{begins, decimal, decimal_text, first_chars, text_begins, text_eq, text_take};

verus! {

/// The characters that a value is shown with at most.
pub const VARIABLE_VALUE_LIMIT: usize = 160;

/// The children that are shown at most.
pub const VARIABLE_CHILD_LIMIT: usize = 64;

/// The levels that are shown below a variable.
pub const VARIABLE_DEPTH_LIMIT: usize = 5;

/// A variable, or a part of one, as it is shown.
#[derive(Debug)]
pub struct RuntimeVariableSnapshot {
    pub key: String,
    pub value: String,
    pub truncated: bool,
    pub children: Vec<RuntimeVariableSnapshot>,
}

/// The model of a shown variable.
#[verifier::ext_equal]
pub struct VariableView {
    pub key: Seq<char>,
    pub value: Seq<char>,
    pub truncated: bool,
    pub children: Seq<VariableView>,
}

/// The model of a shown variable.
pub open spec fn variable_view(v: RuntimeVariableSnapshot) -> VariableView
    decreases v,
{
    VariableView {
        key: v.key@,
        value: v.value@,
        truncated: v.truncated,
        children: Seq::new(
            v.children@.len(),
            |i: int|
                if 0 <= i < v.children@.len() {
                    variable_view(v.children@[i])
                } else {
                    VariableView {
                        key: Seq::empty(),
                        value: Seq::empty(),
                        truncated: false,
                        children: Seq::empty(),
                    }
                },
        ),
    }
}

impl View for RuntimeVariableSnapshot {
    type V = VariableView;

    open spec fn view(&self) -> VariableView {
        variable_view(*self)
    }
}

/// The models of a list of shown variables.
pub open spec fn variables_view(variables: Seq<RuntimeVariableSnapshot>) -> Seq<VariableView> {
    Seq::new(variables.len(), |i: int| variables[i]@)
}

proof fn children_view(v: RuntimeVariableSnapshot)
    ensures
        v@.children == variables_view(v.children@),
{
    assert(v@.children =~= variables_view(v.children@));
}

/// A scalar value as it is shown: a text without quotes, anything else as JSON.
pub open spec fn scalar_text(v: JsonView) -> Seq<char> {
    match v {
        JsonView::Text(s) => s,
        _ => json_text(v),
    }
}

/// A scalar value, cut off behind the characters that are shown.
pub open spec fn scalar_summary(key: Seq<char>, v: JsonView) -> VariableView {
    let text = scalar_text(v);
    let long = text.len() > VARIABLE_VALUE_LIMIT;
    VariableView {
        key,
        value: if long {
            first_chars(text, VARIABLE_VALUE_LIMIT as nat) + "..."@
        } else {
            text
        },
        truncated: long,
        children: Seq::empty(),
    }
}

/// The line that stands for the children that are not shown.
pub open spec fn more_entries(count: int) -> VariableView {
    VariableView {
        key: "..."@,
        value: decimal(count as nat) + " more entries"@,
        truncated: true,
        children: Seq::empty(),
    }
}

/// The keys and values of the children of a value: the places and items of an array, the members
/// of an object in the order of their keys.
pub open spec fn entries_of(v: JsonView) -> Seq<(Seq<char>, JsonView)> {
    match v {
        JsonView::Array(items) => Seq::new(
            items.len(),
            |i: int| ("["@ + decimal(i as nat) + "]"@, items[i]),
        ),
        JsonView::Object(members) => in_key_order(members),
        _ => Seq::empty(),
    }
}

/// The number of children of a value, as it is shown.
pub open spec fn count_text(v: JsonView) -> Seq<char> {
    let n = decimal(entries_of(v).len());
    if v is Array {
        "["@ + n + " items]"@
    } else {
        "{"@ + n + " fields}"@
    }
}

/// A value as it is shown at `depth`.
pub open spec fn summary(key: Seq<char>, v: JsonView, depth: nat) -> VariableView
    decreases VARIABLE_DEPTH_LIMIT + 1 - depth,
{
    if v is Array || v is Object {
        let entries = entries_of(v);
        let shown = if entries.len() <= VARIABLE_CHILD_LIMIT {
            entries.len()
        } else {
            VARIABLE_CHILD_LIMIT as nat
        };
        VariableView {
            key,
            value: count_text(v),
            truncated: entries.len() > 0 && (entries.len() > VARIABLE_CHILD_LIMIT || depth
                >= VARIABLE_DEPTH_LIMIT),
            children: if depth < VARIABLE_DEPTH_LIMIT {
                let children = Seq::new(
                    shown,
                    |i: int| summary(entries[i].0, entries[i].1, depth + 1),
                );
                if entries.len() > VARIABLE_CHILD_LIMIT {
                    children.push(more_entries(entries.len() - VARIABLE_CHILD_LIMIT))
                } else {
                    children
                }
            } else {
                Seq::empty()
            },
        }
    } else {
        scalar_summary(key, v)
    }
}

fn summarise_variable_scalar(key: String, value: &Json) -> (r: RuntimeVariableSnapshot)
    requires
        !(value@ is Array),
        !(value@ is Object),
    ensures
        r@ == scalar_summary(key@, value@),
{
    let text = match value {
        Json::Text(s) => s.clone(),
        _ => value.to_text(),
    };
    let long = text.as_str().unicode_len() > VARIABLE_VALUE_LIMIT;
    let value_text = if long {
        let mut cut = text_take(text.as_str(), VARIABLE_VALUE_LIMIT);
        cut.append("...");
        cut
    } else {
        text
    };
    let r = RuntimeVariableSnapshot {
        key,
        value: value_text,
        truncated: long,
        children: Vec::new(),
    };
    proof {
        assert(r@.children =~= Seq::<VariableView>::empty());
    }
    r
}

fn more_entries_line(count: usize) -> (r: RuntimeVariableSnapshot)
    ensures
        r@ == more_entries(count as int),
{
    let mut value = decimal_text(count as u64);
    value.append(" more entries");
    let r = RuntimeVariableSnapshot {
        key: "...".to_owned(),
        value,
        truncated: true,
        children: Vec::new(),
    };
    proof {
        assert(r@.children =~= Seq::<VariableView>::empty());
    }
    r
}

fn summarise_variable_value(key: String, value: &Json, depth: usize) -> (r:
    RuntimeVariableSnapshot)
    requires
        depth <= VARIABLE_DEPTH_LIMIT,
    ensures
        r@ == summary(key@, value@, depth as nat),
    decreases VARIABLE_DEPTH_LIMIT + 1 - depth,
{
    let ghost entries = entries_of(value@);
    let ghost whole = summary(key@, value@, depth as nat);
    match value {
        Json::Array(items) => {
            let total: usize = items.len();
            let mut text = "[".to_owned();
            text.append(decimal_text(total as u64).as_str());
            text.append(" items]");
            let mut children: Vec<RuntimeVariableSnapshot> = Vec::new();
            if depth < VARIABLE_DEPTH_LIMIT {
                let mut i: usize = 0;
                while i < total && i < VARIABLE_CHILD_LIMIT
                    invariant
                        total == items@.len(),
                        i <= total,
                        i <= VARIABLE_CHILD_LIMIT,
                        depth < VARIABLE_DEPTH_LIMIT,
                        *value == Json::Array(*items),
                        entries == entries_of(value@),
                        children@.len() == i,
                        forall|k: int|
                            0 <= k < i ==> (#[trigger] children@[k])@ == summary(
                                entries[k].0,
                                entries[k].1,
                                (depth + 1) as nat,
                            ),
                    decreases total - i,
                {
                    let mut child_key = "[".to_owned();
                    child_key.append(decimal_text(i as u64).as_str());
                    child_key.append("]");
                    children.push(summarise_variable_value(child_key, &items[i], depth + 1));
                    i = i + 1;
                }
                if total > VARIABLE_CHILD_LIMIT {
                    children.push(more_entries_line(total - VARIABLE_CHILD_LIMIT));
                }
            }
            let truncated = total > 0 && (total > VARIABLE_CHILD_LIMIT || depth
                >= VARIABLE_DEPTH_LIMIT);
            let r = RuntimeVariableSnapshot { key, value: text, truncated, children };
            proof {
                assert(r@.children =~= whole.children);
            }
            r
        },
        Json::Object(members) => {
            let ordered = order_by_key(members);
            proof {
                assert(members_view(members@) =~= value@->Object_0);
            }
            let total: usize = ordered.len();
            let mut text = "{".to_owned();
            text.append(decimal_text(total as u64).as_str());
            text.append(" fields}");
            let mut children: Vec<RuntimeVariableSnapshot> = Vec::new();
            if depth < VARIABLE_DEPTH_LIMIT {
                let mut i: usize = 0;
                while i < total && i < VARIABLE_CHILD_LIMIT
                    invariant
                        total == ordered@.len(),
                        i <= total,
                        i <= VARIABLE_CHILD_LIMIT,
                        depth < VARIABLE_DEPTH_LIMIT,
                        entries == members_view(ordered@),
                        children@.len() == i,
                        forall|k: int|
                            0 <= k < i ==> (#[trigger] children@[k])@ == summary(
                                entries[k].0,
                                entries[k].1,
                                (depth + 1) as nat,
                            ),
                    decreases total - i,
                {
                    children.push(
                        summarise_variable_value(ordered[i].0.clone(), &ordered[i].1, depth + 1),
                    );
                    i = i + 1;
                }
                if total > VARIABLE_CHILD_LIMIT {
                    children.push(more_entries_line(total - VARIABLE_CHILD_LIMIT));
                }
            }
            let truncated = total > 0 && (total > VARIABLE_CHILD_LIMIT || depth
                >= VARIABLE_DEPTH_LIMIT);
            let r = RuntimeVariableSnapshot { key, value: text, truncated, children };
            proof {
                assert(r@.children =~= whole.children);
            }
            r
        },
        _ => summarise_variable_scalar(key, value),
    }
}

/// A variable's value as it is shown, without a key.
pub fn summarise_value(value: &Json) -> (r: RuntimeVariableSnapshot)
    ensures
        r@ == summary(Seq::empty(), value@, 0),
{
    summarise_variable_value(String::new(), value, 0)
}

/// The depth of a shown variable.
pub open spec fn levels(v: VariableView) -> nat
    decreases v,
{
    1 + deepest(v.children)
}

/// The greatest depth among shown variables.
pub open spec fn deepest(vs: Seq<VariableView>) -> nat
    decreases vs,
{
    if vs.len() == 0 {
        0
    } else {
        let last = levels(vs.last());
        let rest = deepest(vs.drop_last());
        if last > rest {
            last
        } else {
            rest
        }
    }
}

proof fn deepest_bound(vs: Seq<VariableView>, bound: nat)
    requires
        forall|i: int| 0 <= i < vs.len() ==> levels(#[trigger] vs[i]) <= bound,
    ensures
        deepest(vs) <= bound,
    decreases vs.len(),
{
    if vs.len() > 0 {
        assert(levels(vs[vs.len() - 1]) <= bound);
        assert forall|i: int| 0 <= i < vs.drop_last().len() implies levels(
            #[trigger] vs.drop_last()[i],
        ) <= bound by {
            assert(vs.drop_last()[i] == vs[i]);
        }
        deepest_bound(vs.drop_last(), bound);
    }
}

/// What is shown of a value is bounded: no more levels than the limit below it, no more children
/// than the limit and the line for the rest, at each level.
pub proof fn summary_is_bounded(key: Seq<char>, v: JsonView, depth: nat)
    requires
        depth <= VARIABLE_DEPTH_LIMIT,
    ensures
        levels(summary(key, v, depth)) <= VARIABLE_DEPTH_LIMIT + 1 - depth,
        summary(key, v, depth).children.len() <= VARIABLE_CHILD_LIMIT + 1,
        !(v is Array) && !(v is Object) ==> summary(key, v, depth).value.len()
            <= VARIABLE_VALUE_LIMIT + 3,
    decreases VARIABLE_DEPTH_LIMIT + 1 - depth,
{
    let s = summary(key, v, depth);
    reveal_strlit("...");
    assert forall|i: int| 0 <= i < s.children.len() implies levels(#[trigger] s.children[i])
        <= VARIABLE_DEPTH_LIMIT - depth by {
        let entries = entries_of(v);
        if i < VARIABLE_CHILD_LIMIT && i < entries.len() {
            summary_is_bounded(entries[i].0, entries[i].1, depth + 1);
        } else {
            let more = more_entries(entries.len() - VARIABLE_CHILD_LIMIT);
            assert(s.children[i] == more);
            assert(deepest(more.children) == 0);
        }
    }
    if s.children.len() > 0 {
        deepest_bound(s.children, (VARIABLE_DEPTH_LIMIT - depth) as nat);
    } else {
        assert(deepest(s.children) == 0);
    }
}

/// The variables that are seen from a path of places, as far as the path leads.
pub open spec fn scope_at(variables: Seq<VariableView>, path: Seq<usize>) -> Seq<VariableView>
    decreases path.len(),
{
    if path.len() == 0 || path[0] >= variables.len() {
        variables
    } else {
        scope_at(variables[path[0] as int].children, path.drop_first())
    }
}

/// The keys along a path of places, as far as the path leads.
pub open spec fn crumbs_at(variables: Seq<VariableView>, path: Seq<usize>) -> Seq<Seq<char>>
    decreases path.len(),
{
    if path.len() == 0 || path[0] >= variables.len() {
        Seq::empty()
    } else {
        seq![variables[path[0] as int].key] + crumbs_at(
            variables[path[0] as int].children,
            path.drop_first(),
        )
    }
}

/// Whether every place on the path is there.
pub open spec fn path_leads(variables: Seq<VariableView>, path: Seq<usize>) -> bool
    decreases path.len(),
{
    path.len() == 0 || (path[0] < variables.len() && path_leads(
        variables[path[0] as int].children,
        path.drop_first(),
    ))
}

/// The title of the list of variables: the keys that lead there.
pub open spec fn scope_title(crumbs: Seq<Seq<char>>) -> Seq<char>
    decreases crumbs.len(),
{
    if crumbs.len() == 0 {
        "Variables"@
    } else {
        scope_title(crumbs.drop_last()) + " / "@ + crumbs.last()
    }
}

/// The models of a list of texts.
pub open spec fn texts_view(texts: Seq<String>) -> Seq<Seq<char>> {
    texts.map_values(|s: String| s@)
}

/// The variables that are seen from a path of places, with the title of the list.
pub fn variable_scope<'a>(
    variables: &'a Vec<RuntimeVariableSnapshot>,
    path: &Vec<usize>,
) -> (r: (&'a Vec<RuntimeVariableSnapshot>, String))
    ensures
        variables_view(r.0@) == scope_at(variables_view(variables@), path@),
        r.1@ == scope_title(crumbs_at(variables_view(variables@), path@)),
{
    let ghost all = variables_view(variables@);
    let mut scope: &'a Vec<RuntimeVariableSnapshot> = variables;
    let mut title = "Variables".to_owned();
    let ghost mut seen: Seq<Seq<char>> = Seq::empty();
    let mut i: usize = 0;
    proof {
        assert(path@.skip(0) =~= path@);
        assert(seen + crumbs_at(all, path@) =~= crumbs_at(all, path@));
    }
    while i < path.len()
        invariant
            i <= path.len(),
            all == variables_view(variables@),
            scope_at(all, path@) == scope_at(variables_view(scope@), path@.skip(i as int)),
            crumbs_at(all, path@) == seen + crumbs_at(
                variables_view(scope@),
                path@.skip(i as int),
            ),
            title@ == scope_title(seen),
        ensures
            variables_view(scope@) == scope_at(all, path@),
            title@ == scope_title(crumbs_at(all, path@)),
        decreases path.len() - i,
    {
        let at: usize = path[i];
        proof {
            assert(path@.skip(i as int)[0] == at);
            assert(path@.skip(i as int).drop_first() =~= path@.skip(i + 1));
        }
        if at >= scope.len() {
            proof {
                assert(crumbs_at(all, path@) =~= seen);
            }
            break;
        }
        let node: &'a RuntimeVariableSnapshot = &scope[at];
        proof {
            children_view(*node);
            let key = node@.key;
            let rest = crumbs_at(node@.children, path@.skip(i + 1));
            assert(seen + (seq![key] + rest) =~= seen.push(key) + rest);
            assert(seen.push(key).drop_last() =~= seen);
            seen = seen.push(key);
        }
        title.append(" / ");
        title.append(node.key.as_str());
        scope = &node.children;
        i = i + 1;
        proof {
            if i == path@.len() {
                assert(crumbs_at(all, path@) =~= seen);
            }
        }
    }
    (scope, title)
}

/// The keys that lead to the variable at `selected` in the list that a path leads to, or `None`
/// where the path or the place leads nowhere.
pub open spec fn key_path_at(
    variables: Seq<VariableView>,
    path: Seq<usize>,
    selected: int,
) -> Option<Seq<Seq<char>>> {
    let scope = scope_at(variables, path);
    if path_leads(variables, path) && 0 <= selected < scope.len() {
        Some(crumbs_at(variables, path).push(scope[selected].key))
    } else {
        None
    }
}

/// The view of an optional list of texts.
pub open spec fn option_texts(texts: Option<Vec<String>>) -> Option<Seq<Seq<char>>> {
    match texts {
        Some(t) => Some(texts_view(t@)),
        None => None,
    }
}

/// The keys that lead to the variable at `selected` in the list that a path leads to.
pub fn variable_key_path(
    variables: &Vec<RuntimeVariableSnapshot>,
    path: &Vec<usize>,
    selected: usize,
) -> (r: Option<Vec<String>>)
    ensures
        option_texts(r) == key_path_at(variables_view(variables@), path@, selected as int),
{
    let ghost all = variables_view(variables@);
    let mut scope: &Vec<RuntimeVariableSnapshot> = variables;
    let mut keys: Vec<String> = Vec::new();
    let mut i: usize = 0;
    proof {
        assert(path@.skip(0) =~= path@);
        assert(texts_view(keys@) + crumbs_at(all, path@) =~= crumbs_at(all, path@));
    }
    while i < path.len()
        invariant
            i <= path.len(),
            all == variables_view(variables@),
            scope_at(all, path@) == scope_at(variables_view(scope@), path@.skip(i as int)),
            path_leads(all, path@) == path_leads(variables_view(scope@), path@.skip(i as int)),
            crumbs_at(all, path@) == texts_view(keys@) + crumbs_at(
                variables_view(scope@),
                path@.skip(i as int),
            ),
        decreases path.len() - i,
    {
        let at: usize = path[i];
        proof {
            assert(path@.skip(i as int)[0] == at);
            assert(path@.skip(i as int).drop_first() =~= path@.skip(i + 1));
        }
        if at >= scope.len() {
            return None;
        }
        let node = &scope[at];
        let ghost before = texts_view(keys@);
        keys.push(node.key.clone());
        proof {
            children_view(*node);
            let key = node@.key;
            let rest = crumbs_at(node@.children, path@.skip(i + 1));
            assert(texts_view(keys@) =~= before.push(key));
            assert(before + (seq![key] + rest) =~= before.push(key) + rest);
        }
        scope = &node.children;
        i = i + 1;
    }
    if selected >= scope.len() {
        return None;
    }
    let ghost before = texts_view(keys@);
    keys.push(scope[selected].key.clone());
    proof {
        assert(crumbs_at(all, path@) =~= before);
        assert(texts_view(keys@) =~= before.push(scope@[selected as int]@.key));
    }
    Some(keys)
}

/// The place of the first variable with the key `key`.
pub open spec fn place_of(variables: Seq<VariableView>, key: Seq<char>, from: int) -> Option<int>
    decreases variables.len() - from,
{
    if from < 0 || from >= variables.len() {
        None
    } else if variables[from].key == key {
        Some(from)
    } else {
        place_of(variables, key, from + 1)
    }
}

/// The variable that a path of keys leads to.
pub open spec fn variable_at_keys(variables: Seq<VariableView>, path: Seq<Seq<char>>) -> Option<
    VariableView,
>
    decreases path.len(),
{
    if path.len() == 0 {
        None
    } else {
        match place_of(variables, path[0], 0) {
            None => None,
            Some(at) => if path.len() == 1 {
                Some(variables[at])
            } else {
                variable_at_keys(variables[at].children, path.drop_first())
            },
        }
    }
}

fn find_key(variables: &Vec<RuntimeVariableSnapshot>, key: &str) -> (r: Option<usize>)
    ensures
        match r {
            Some(at) => place_of(variables_view(variables@), key@, 0) == Some(at as int) && at
                < variables@.len(),
            None => place_of(variables_view(variables@), key@, 0) is None,
        },
{
    let ghost all = variables_view(variables@);
    let mut i: usize = 0;
    while i < variables.len()
        invariant
            i <= variables.len(),
            all == variables_view(variables@),
            place_of(all, key@, 0) == place_of(all, key@, i as int),
        decreases variables.len() - i,
    {
        if text_eq(variables[i].key.as_str(), key) {
            return Some(i);
        }
        i = i + 1;
    }
    None
}

/// The variable that a path of keys leads to, or `None` where it leads nowhere.
pub fn find_variable_by_key_path<'a>(
    variables: &'a Vec<RuntimeVariableSnapshot>,
    path: &Vec<String>,
) -> (r: Option<&'a RuntimeVariableSnapshot>)
    ensures
        match r {
            Some(v) => variable_at_keys(variables_view(variables@), texts_view(path@)) == Some(v@),
            None => variable_at_keys(variables_view(variables@), texts_view(path@)) is None,
        },
{
    let ghost all = variables_view(variables@);
    let ghost keys = texts_view(path@);
    let mut scope: &'a Vec<RuntimeVariableSnapshot> = variables;
    let mut node: Option<&'a RuntimeVariableSnapshot> = None;
    let mut i: usize = 0;
    proof {
        assert(keys.skip(0) =~= keys);
    }
    while i < path.len()
        invariant
            i <= path.len(),
            keys == texts_view(path@),
            all == variables_view(variables@),
            i < path.len() ==> variable_at_keys(all, keys) == variable_at_keys(
                variables_view(scope@),
                keys.skip(i as int),
            ),
            i == path.len() ==> match node {
                Some(v) => variable_at_keys(all, keys) == Some(v@),
                None => variable_at_keys(all, keys) is None,
            },
        decreases path.len() - i,
    {
        proof {
            assert(keys.skip(i as int)[0] == path@[i as int]@);
            assert(keys.skip(i as int).drop_first() =~= keys.skip(i + 1));
        }
        match find_key(scope, path[i].as_str()) {
            None => {
                return None;
            },
            Some(at) => {
                let current: &'a RuntimeVariableSnapshot = &scope[at];
                proof {
                    children_view(*current);
                }
                node = Some(current);
                scope = &current.children;
            },
        }
        i = i + 1;
    }
    node
}

/// A path of keys as text: keys apart by points, places in brackets right behind.
pub open spec fn path_text(path: Seq<Seq<char>>) -> Seq<char>
    decreases path.len(),
{
    if path.len() == 0 {
        Seq::empty()
    } else {
        let rest = path_text(path.drop_last());
        if rest.len() == 0 || begins(path.last(), "["@) {
            rest + path.last()
        } else {
            rest + "."@ + path.last()
        }
    }
}

/// A path of keys as text.
pub fn format_variable_path(path: &Vec<String>) -> (r: String)
    ensures
        r@ == path_text(texts_view(path@)),
{
    let ghost keys = texts_view(path@);
    let mut out = String::new();
    let mut i: usize = 0;
    proof {
        assert(keys.take(0) =~= Seq::<Seq<char>>::empty());
    }
    while i < path.len()
        invariant
            i <= path.len(),
            keys == texts_view(path@),
            out@ == path_text(keys.take(i as int)),
        decreases path.len() - i,
    {
        proof {
            assert(keys.take(i + 1).drop_last() =~= keys.take(i as int));
        }
        if !out.as_str().is_empty() && !text_begins(path[i].as_str(), "[") {
            out.append(".");
        }
        out.append(path[i].as_str());
        i = i + 1;
    }
    proof {
        assert(keys.take(i as int) =~= keys);
    }
    out
}

/// A single value is shown in full up to 160 characters; of a longer one the first 160 are shown,
/// with dots behind them and a mark that it was cut. It has no parts.
pub proof fn long_values_are_cut(key: Seq<char>, v: JsonView, depth: nat)
    requires
        !(v is Array),
        !(v is Object),
    ensures
        ({
            let text = if v is Text {
                v->Text_0
            } else {
                json_text(v)
            };
            let s = summary(key, v, depth);
            &&& s.key == key
            &&& s.children.len() == 0
            &&& text.len() <= 160 ==> s.value == text && !s.truncated
            &&& text.len() > 160 ==> s.truncated && s.value == text.take(160) + seq!['.', '.', '.']
        }),
{
    reveal_strlit("...");
    assert("..."@ =~= seq!['.', '.', '.']);
}

/// An array is shown by the number of its items, with each of the first 64 under its place in
/// brackets; behind them stands how many more there are. Below the fifth level nothing is shown.
pub proof fn arrays_are_shown_item_by_item(key: Seq<char>, items: Seq<JsonView>, depth: nat, i: int)
    requires
        depth <= 5,
    ensures
        ({
            let s = summary(key, JsonView::Array(items), depth);
            &&& s.key == key
            &&& s.value == seq!['['] + decimal(items.len()) + " items]"@
            &&& depth == 5 ==> s.children.len() == 0 && (s.truncated <==> items.len() > 0)
            &&& depth < 5 && items.len() <= 64 ==> s.children.len() == items.len()
                && !s.truncated
            &&& depth < 5 && items.len() > 64 ==> s.children.len() == 65 && s.truncated
                && s.children[64].key == seq!['.', '.', '.'] && s.children[64].value == decimal(
                (items.len() - 64) as nat,
            ) + " more entries"@
            &&& depth < 5 && 0 <= i < items.len() && i < 64 ==> s.children[i] == summary(
                seq!['['] + decimal(i as nat) + seq![']'],
                items[i],
                depth + 1,
            )
        }),
{
    reveal_strlit("...");
    reveal_strlit("[");
    reveal_strlit("]");
    assert("..."@ =~= seq!['.', '.', '.']);
    assert("["@ =~= seq!['[']);
    assert("]"@ =~= seq![']']);
}

/// An object is shown by the number of its members, with each of the first 64 under its key, in the
/// order of the keys; behind them stands how many more there are.
pub proof fn objects_are_shown_by_key(
    key: Seq<char>,
    members: Seq<(Seq<char>, JsonView)>,
    depth: nat,
    i: int,
)
    requires
        depth <= 5,
        crate::json::key_ordered(members),
    ensures
        ({
            let s = summary(key, JsonView::Object(members), depth);
            &&& s.key == key
            &&& s.value == seq!['{'] + decimal(members.len()) + " fields}"@
            &&& depth == 5 ==> s.children.len() == 0 && (s.truncated <==> members.len() > 0)
            &&& depth < 5 && members.len() <= 64 ==> s.children.len() == members.len()
                && !s.truncated
            &&& depth < 5 && members.len() > 64 ==> s.children.len() == 65 && s.truncated
                && s.children[64].value == decimal((members.len() - 64) as nat)
                + " more entries"@
            &&& depth < 5 && 0 <= i < members.len() && i < 64 ==> s.children[i] == summary(
                members[i].0,
                members[i].1,
                depth + 1,
            )
        }),
{
    reveal_strlit("{");
    assert("{"@ =~= seq!['{']);
    crate::json::ordered_members_stay(members);
}

/// One step further on a way leads to the parts of the variable that was chosen, and adds its key to
/// the title.
pub proof fn ways_lead_from_part_to_part(variables: Seq<VariableView>, path: Seq<usize>, at: usize)
    requires
        path_leads(variables, path),
        at < scope_at(variables, path).len(),
    ensures
        scope_at(variables, Seq::empty()) == variables,
        path_leads(variables, path.push(at)),
        scope_at(variables, path.push(at)) == scope_at(variables, path)[at as int].children,
        crumbs_at(variables, path.push(at)) == crumbs_at(variables, path).push(
            scope_at(variables, path)[at as int].key,
        ),
        key_path_at(variables, path, at as int) == Some(crumbs_at(variables, path.push(at))),
    decreases path.len(),
{
    let more = path.push(at);
    if path.len() > 0 {
        let inner = variables[path[0] as int].children;
        ways_lead_from_part_to_part(inner, path.drop_first(), at);
        assert(more.drop_first() =~= path.drop_first().push(at));
        assert(crumbs_at(variables, more) =~= crumbs_at(variables, path).push(
            scope_at(variables, path)[at as int].key,
        ));
    } else {
        let inner = variables[at as int].children;
        assert(more.drop_first() =~= Seq::<usize>::empty());
        assert(scope_at(inner, more.drop_first()) == inner);
        assert(path_leads(inner, more.drop_first()));
        assert(crumbs_at(inner, more.drop_first()) =~= Seq::<Seq<char>>::empty());
        assert(crumbs_at(variables, more) =~= seq![variables[at as int].key]);
        assert(crumbs_at(variables, path).push(variables[at as int].key) =~= seq![
            variables[at as int].key,
        ]);
    }
}

/// The title names the variables that were opened, behind one another.
pub proof fn titles_name_the_way(crumbs: Seq<Seq<char>>, key: Seq<char>)
    ensures
        scope_title(Seq::empty()) == "Variables"@,
        scope_title(crumbs.push(key)) == scope_title(crumbs) + seq![' ', '/', ' '] + key,
{
    reveal_strlit(" / ");
    assert(" / "@ =~= seq![' ', '/', ' ']);
    assert(crumbs.push(key).drop_last() =~= crumbs);
}

proof fn first_of_key(variables: Seq<VariableView>, key: Seq<char>, from: int)
    requires
        0 <= from,
    ensures
        match place_of(variables, key, from) {
            Some(at) => from <= at < variables.len() && variables[at].key == key && forall|i: int|
                from <= i < at ==> (#[trigger] variables[i]).key != key,
            None => forall|i: int| from <= i < variables.len() ==> (#[trigger] variables[i]).key
                != key,
        },
    decreases variables.len() - from,
{
    if from < variables.len() && variables[from].key != key {
        first_of_key(variables, key, from + 1);
    }
}

/// A variable is found by the keys that lead to it: the first key names a variable, and the others
/// lead on from its parts.
pub proof fn variables_are_found_by_their_keys(
    variables: Seq<VariableView>,
    at: int,
    keys: Seq<Seq<char>>,
)
    requires
        0 <= at < variables.len(),
        forall|i: int| 0 <= i < at ==> (#[trigger] variables[i]).key != variables[at].key,
    ensures
        variable_at_keys(variables, seq![variables[at].key]) == Some(variables[at]),
        keys.len() > 0 ==> variable_at_keys(variables, seq![variables[at].key] + keys)
            == variable_at_keys(variables[at].children, keys),
        variable_at_keys(variables, Seq::empty()) is None,
        keys.len() > 0 && (forall|i: int|
            0 <= i < variables.len() ==> (#[trigger] variables[i]).key != keys[0])
            ==> variable_at_keys(variables, keys) is None,
{
    first_of_key(variables, variables[at].key, 0);
    if keys.len() > 0 {
        first_of_key(variables, keys[0], 0);
        let path = seq![variables[at].key] + keys;
        assert(path.drop_first() =~= keys);
    }
}

/// The keys of a way are written with dots between them, except before a place in brackets.
pub proof fn ways_are_written_with_dots(path: Seq<Seq<char>>, key: Seq<char>)
    ensures
        path_text(Seq::empty()).len() == 0,
        path_text(seq![key]) == key,
        path_text(path).len() > 0 && key.len() > 0 && key[0] == '[' ==> path_text(path.push(key))
            == path_text(path) + key,
        path_text(path).len() > 0 && (key.len() == 0 || key[0] != '[') ==> path_text(path.push(key))
            == path_text(path) + seq!['.'] + key,
{
    reveal_strlit("[");
    reveal_strlit(".");
    assert("."@ =~= seq!['.']);
    assert("["@ =~= seq!['[']);
    assert(seq![key].drop_last() =~= Seq::<Seq<char>>::empty());
    assert(path_text(seq![key].drop_last()).len() == 0);
    assert(Seq::<char>::empty() + key =~= key);
    assert(path.push(key).drop_last() =~= path);
    if key.len() > 0 {
        assert(key.subrange(0, 1) =~= seq![key[0]]);
        assert(key.subrange(0, 1)[0] == key[0]);
        assert(seq!['['][0] == '[');
    }
}

} // verus!
