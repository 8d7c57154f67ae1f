//! Universe models: where the symbols that a strategy trades come from.
use vstd::prelude::*;
use vstd::string::StringExecFns;

use crate::text::{
    behind_last, listed, text_at_most, text_behind_last, text_eq, text_le, text_le_antisymmetric,
    text_le_total, text_le_transitive,
};

verus! {

/// What a universe model came up with.
pub struct UniverseResult {
    pub symbols: Vec<String>,
    pub success: bool,
    pub message: Option<String>,
    pub model_name: String,
}

impl UniverseResult {
    /// A model's result.
    pub fn new(
        symbols: Vec<String>,
        success: bool,
        message: Option<String>,
        model_name: String,
    ) -> (r: UniverseResult)
        ensures
            r == (UniverseResult { symbols, success, message, model_name }),
    {
        UniverseResult { symbols, success, message, model_name }
    }

    /// The result of a model that succeeded.
    pub fn passed(symbols: Vec<String>, model_name: String) -> (r: UniverseResult)
        ensures
            r == (UniverseResult { symbols, success: true, message: None, model_name }),
    {
        UniverseResult::new(symbols, true, None, model_name)
    }
}

/// A universe model, as a strategy's author writes it. `C` is what the models work on.
pub trait UniverseModel<C> {
    /// The name of the model.
    fn name(&self) -> String;

    /// The version of the model.
    fn version(&self) -> String;

    /// Whether a run may leave the model and what it works on so, with this result; the author of
    /// a model decides, and else it may do anything.
    open spec fn may_run(
        &self,
        context: C,
        model_after: &Self,
        context_after: C,
        result: UniverseResult,
    ) -> bool {
        true
    }

    /// Comes up with symbols.
    fn run(&mut self, context: &mut C) -> (r: UniverseResult)
        ensures
            old(self).may_run(*old(context), final(self), *final(context), r),
    ;
}

/// The name of a model that has none of its own: the last part of its type's path.
pub fn model_name(path: &str) -> (r: String)
    ensures
        r@ == behind_last(path@, "::"@, path@.len() as int),
{
    text_behind_last(path, "::")
}

/// Puts a universe model together with how it is run.
pub struct UniverseModelBuilder<M> {
    inner: M,
    can_fail: bool,
}

impl<M> UniverseModelBuilder<M> {
    /// The model.
    pub closed spec fn spec_inner(self) -> M {
        self.inner
    }

    /// Whether the model may fail.
    pub closed spec fn spec_can_fail(self) -> bool {
        self.can_fail
    }

    /// Starts with a model that must not fail.
    pub fn new(inner: M) -> (r: UniverseModelBuilder<M>)
        ensures
            r.spec_inner() == inner,
            !r.spec_can_fail(),
    {
        UniverseModelBuilder { inner, can_fail: false }
    }

    /// Says whether the model may fail.
    pub fn can_fail(self, can_fail: bool) -> (r: UniverseModelBuilder<M>)
        ensures
            r.spec_inner() == self.spec_inner(),
            r.spec_can_fail() == can_fail,
    {
        UniverseModelBuilder { inner: self.inner, can_fail }
    }

    /// The model, ready to be run.
    pub fn build(self) -> (r: WrappedUniverseModel<M>)
        ensures
            r.inner == self.spec_inner(),
            r.can_fail == self.spec_can_fail(),
            r.runs_count == 0,
            r.success_count == 0,
    {
        WrappedUniverseModel {
            inner: self.inner,
            can_fail: self.can_fail,
            runs_count: 0,
            success_count: 0,
        }
    }
}

/// A universe model with how it is run and how it has fared.
pub struct WrappedUniverseModel<M> {
    pub inner: M,
    pub can_fail: bool,
    pub runs_count: usize,
    pub success_count: usize,
}

/// The message of an unsuccessful result.
pub open spec fn failure_message(result: UniverseResult) -> Seq<char> {
    match result.message {
        Some(message) => message@,
        None => "universe model returned an unsuccessful result"@,
    }
}

/// The error that an unsuccessful result of a model that must not fail ends the run with.
pub open spec fn failure_error(result: UniverseResult) -> Seq<char> {
    "Universe model "@ + result.model_name@ + " failed: "@ + failure_message(result)
}

/// Whether a result lets the run go on: it is a success, or the model may fail.
pub fn check_result(result: &UniverseResult, can_fail: bool) -> (r: Result<(), String>)
    ensures
        match r {
            Ok(_) => result.success || can_fail,
            Err(e) => !result.success && !can_fail && e@ == failure_error(*result),
        },
{
    if result.success || can_fail {
        return Ok(());
    }
    let mut error = "Universe model ".to_owned();
    error.append(result.model_name.as_str());
    error.append(" failed: ");
    match &result.message {
        Some(message) => error.append(message.as_str()),
        None => error.append("universe model returned an unsuccessful result"),
    }
    Err(error)
}

/// Whether a run of a model may go so: the run is counted, and so is a success.
pub open spec fn model_ran<C, M: UniverseModel<C>>(
    model: WrappedUniverseModel<M>,
    context: C,
    model_after: WrappedUniverseModel<M>,
    context_after: C,
    result: UniverseResult,
) -> bool {
    &&& model.inner.may_run(context, &model_after.inner, context_after, result)
    &&& model_after.can_fail == model.can_fail
    &&& model_after.runs_count == model.runs_count + 1
    &&& model_after.success_count == model.success_count + (if result.success {
        1int
    } else {
        0
    })
}

impl<M> WrappedUniverseModel<M> {
    /// No more successes than runs.
    pub open spec fn wf(self) -> bool {
        self.success_count <= self.runs_count
    }

    /// Starts a builder with a model.
    pub fn builder(inner: M) -> (r: UniverseModelBuilder<M>)
        ensures
            r.spec_inner() == inner,
            !r.spec_can_fail(),
    {
        UniverseModelBuilder::new(inner)
    }

    /// Whether the model may fail.
    pub fn can_fail(&self) -> (r: bool)
        ensures
            r == self.can_fail,
    {
        self.can_fail
    }

    /// The model's own name.
    pub fn name<C>(&self) -> (r: String) where M: UniverseModel<C>,
        ensures
            call_ensures(<M as UniverseModel<C>>::name, (&self.inner,), r),
    {
        self.inner.name()
    }

    /// The model's own version.
    pub fn version<C>(&self) -> (r: String) where M: UniverseModel<C>,
        ensures
            call_ensures(<M as UniverseModel<C>>::version, (&self.inner,), r),
    {
        self.inner.version()
    }

    /// Runs the model and counts the run. A result that is no success is an error, unless the
    /// model may fail.
    pub fn run<C>(&mut self, context: &mut C) -> (r: Result<UniverseResult, String>) where
        M: UniverseModel<C>,

        requires
            old(self).wf(),
            old(self).runs_count < usize::MAX,
        ensures
            final(self).wf(),
            match r {
                Ok(result) => model_ran(
                    *old(self),
                    *old(context),
                    *final(self),
                    *final(context),
                    result,
                ) && (result.success || old(self).can_fail),
                Err(e) => exists|result: UniverseResult| #[trigger]
                    model_ran(*old(self), *old(context), *final(self), *final(context), result)
                        && !result.success && !old(self).can_fail && e@ == failure_error(result),
            },
    {
        self.runs_count = self.runs_count + 1;
        let result = self.inner.run(context);
        if result.success {
            self.success_count = self.success_count + 1;
        }
        proof {
            assert(model_ran(*old(self), *old(context), *self, *context, result));
        }
        match check_result(&result, self.can_fail) {
            Ok(_) => Ok(result),
            Err(e) => Err(e),
        }
    }
}

/// Where the runs of all models stand.
pub struct ModelsState<C, M> {
    pub models: Seq<WrappedUniverseModel<M>>,
    pub context: C,
    pub results: Seq<UniverseResult>,
}

/// Whether the run of the model at `k` may lead from the state at `k` to the next one.
pub open spec fn model_step<C, M: UniverseModel<C>>(states: Seq<ModelsState<C, M>>, k: int) -> bool {
    let from = states[k];
    let to = states[k + 1];
    &&& to.results.len() > 0
    &&& to.results.drop_last() == from.results
    &&& to.models == from.models.update(k, to.models[k])
    &&& model_ran(from.models[k], from.context, to.models[k], to.context, to.results.last())
}

/// Whether these may be the states of the runs of all models from their start, one after the other.
pub open spec fn models_linked<C, M: UniverseModel<C>>(states: Seq<ModelsState<C, M>>) -> bool {
    &&& states.len() > 0
    &&& states[0].results.len() == 0
    &&& states.len() <= states[0].models.len() + 1
    &&& forall|k: int| 0 <= k < states.len() - 1 ==> #[trigger] model_step(states, k)
}

/// Whether the runs of the first models may lead from `from` to `to`.
pub open spec fn models_ran<C, M: UniverseModel<C>>(
    from: ModelsState<C, M>,
    to: ModelsState<C, M>,
) -> bool {
    exists|states: Seq<ModelsState<C, M>>| #[trigger]
        models_linked(states) && states[0] == from && states.last() == to && states.len()
            == to.results.len() + 1
}

proof fn models_grow<C, M: UniverseModel<C>>(
    states: Seq<ModelsState<C, M>>,
    next: ModelsState<C, M>,
)
    requires
        models_linked(states),
        states.len() <= states[0].models.len(),
        model_step(states.push(next), states.len() - 1),
    ensures
        models_linked(states.push(next)),
{
    let more = states.push(next);
    assert forall|k: int| 0 <= k < more.len() - 1 implies #[trigger] model_step(more, k) by {
        if k < states.len() - 1 {
            assert(model_step(states, k));
        }
    }
}

/// Runs the models, one after the other, and hands out their results. Where a model that must not
/// fail fails, the models behind it are not run.
pub fn run_universe_models<C, M: UniverseModel<C>>(
    models: &mut Vec<WrappedUniverseModel<M>>,
    context: &mut C,
) -> (r: Result<Vec<UniverseResult>, String>)
    requires
        forall|i: int|
            0 <= i < old(models)@.len() ==> (#[trigger] old(models)@[i]).wf() && old(
                models,
            )@[i].runs_count < usize::MAX,
    ensures
        final(models)@.len() == old(models)@.len(),
        forall|i: int| 0 <= i < final(models)@.len() ==> (#[trigger] final(models)@[i]).wf(),
        exists|to: ModelsState<C, M>| #[trigger]
            models_ran(
                (ModelsState {
                    models: old(models)@,
                    context: *old(context),
                    results: Seq::empty(),
                }),
                to,
            ) && to.models == final(models)@ && to.context == *final(context) && (forall|i: int|
                0 <= i < to.results.len() - 1 ==> (#[trigger] to.results[i]).success || old(
                    models,
                )@[i].can_fail) && match r {
                Ok(results) => {
                    &&& to.results == results@
                    &&& results@.len() == old(models)@.len()
                    &&& forall|i: int|
                        0 <= i < results@.len() ==> (#[trigger] results@[i]).success || old(
                            models,
                        )@[i].can_fail
                },
                Err(error) => {
                    &&& 0 < to.results.len() <= old(models)@.len()
                    &&& !to.results.last().success
                    &&& !old(models)@[to.results.len() - 1].can_fail
                    &&& error@ == failure_error(to.results.last())
                },
            },
{
    let mut results: Vec<UniverseResult> = Vec::new();
    let ghost from = ModelsState {
        models: models@,
        context: *context,
        results: Seq::<UniverseResult>::empty(),
    };
    let ghost mut states: Seq<ModelsState<C, M>> = seq![from];
    proof {
        assert(results@ =~= Seq::<UniverseResult>::empty());
    }
    let mut i: usize = 0;
    while i < models.len()
        invariant
            i <= models.len(),
            models@.len() == old(models)@.len(),
            from == (ModelsState {
                models: old(models)@,
                context: *old(context),
                results: Seq::<UniverseResult>::empty(),
            }),
            results@.len() == i,
            forall|k: int| 0 <= k < models@.len() ==> (#[trigger] models@[k]).wf(),
            forall|k: int|
                i <= k < models@.len() ==> #[trigger] models@[k] == old(models)@[k]
                    && models@[k].runs_count < usize::MAX,
            forall|k: int|
                0 <= k < i ==> (#[trigger] results@[k]).success || old(models)@[k].can_fail,
            models_linked(states),
            states.len() == i + 1,
            states[0] == from,
            states.last() == (ModelsState { models: models@, context: *context, results: results@ }),
        decreases models.len() - i,
    {
        let ghost at = states.last();
        proof {
            assert(models@[i as int] == old(models)@[i as int]);
        }
        let ran = models[i].run(context);
        match ran {
            Ok(result) => {
                results.push(result);
                proof {
                    let next = ModelsState { models: models@, context: *context, results: results@ };
                    assert(results@.drop_last() =~= at.results);
                    assert(models@ =~= at.models.update(i as int, next.models[i as int]));
                    assert(model_step(states.push(next), i as int));
                    models_grow(states, next);
                    states = states.push(next);
                }
            },
            Err(error) => {
                proof {
                    let said = choose|result: UniverseResult| #[trigger]
                        model_ran(
                            at.models[i as int],
                            at.context,
                            models@[i as int],
                            *context,
                            result,
                        ) && !result.success && !at.models[i as int].can_fail && error@
                            == failure_error(result);
                    let next = ModelsState {
                        models: models@,
                        context: *context,
                        results: results@.push(said),
                    };
                    assert(next.results.drop_last() =~= at.results);
                    assert(models@ =~= at.models.update(i as int, next.models[i as int]));
                    assert(model_step(states.push(next), i as int));
                    models_grow(states, next);
                    states = states.push(next);
                    assert(models_ran(from, next));
                }
                return Err(error);
            },
        }
        i = i + 1;
    }
    proof {
        assert(models_ran(from, states.last()));
    }
    Ok(results)
}

/// Whether texts stand in their order, each once.
pub open spec fn strictly_sorted(items: Seq<String>) -> bool {
    forall|i: int, j: int|
        0 <= i < j < items.len() ==> (#[trigger] items[i])@ != (#[trigger] items[j])@ && text_le(
            items[i]@,
            items[j]@,
        )
}

/// Adds a symbol to a set of symbols, which is kept in order.
pub fn insert_symbol(symbols: &mut Vec<String>, symbol: &str)
    requires
        strictly_sorted(old(symbols)@),
    ensures
        strictly_sorted(final(symbols)@),
        forall|s: Seq<char>| #[trigger]
            listed(final(symbols)@, s) <==> listed(old(symbols)@, s) || s == symbol@,
{
    let ghost before = symbols@;
    let mut i: usize = 0;
    while i < symbols.len()
        invariant
            i <= symbols.len(),
            symbols@ == before,
            before == old(symbols)@,
            strictly_sorted(before),
            forall|k: int|
                0 <= k < i ==> (#[trigger] before[k])@ != symbol@ && text_le(before[k]@, symbol@),
        ensures
            i <= symbols.len(),
            i < symbols.len() ==> before[i as int]@ != symbol@ && text_le(
                symbol@,
                before[i as int]@,
            ),
        decreases symbols.len() - i,
    {
        if text_eq(symbols[i].as_str(), symbol) {
            proof {
                assert forall|s: Seq<char>| #[trigger] listed(symbols@, s) <==> listed(before, s)
                    || s == symbol@ by {
                    assert(before[i as int]@ == symbol@);
                }
            }
            return;
        }
        if !text_at_most(symbols[i].as_str(), symbol) {
            proof {
                text_le_total(before[i as int]@, symbol@);
            }
            break;
        }
        i = i + 1;
    }
    let added = symbol.to_owned();
    let ghost new = added;
    symbols.insert(i, added);
    proof {
        let after = symbols@;
        assert(after =~= before.insert(i as int, new));
        assert forall|a: int, b: int| 0 <= a < b < after.len() implies (#[trigger] after[a])@ != (
        #[trigger] after[b])@ && text_le(after[a]@, after[b]@) by {
            if a < i {
                assert(after[a] == before[a]);
                if b < i {
                    assert(after[b] == before[b]);
                } else if b > i {
                    assert(after[b] == before[b - 1]);
                }
            } else if a == i {
                assert(after[b] == before[b - 1]);
                if b - 1 > i {
                    assert(before[i as int]@ != before[b - 1]@);
                    text_le_transitive(symbol@, before[i as int]@, before[b - 1]@);
                    if before[b - 1]@ == symbol@ {
                        text_le_antisymmetric(before[i as int]@, symbol@);
                    }
                }
            } else {
                assert(after[a] == before[a - 1]);
                assert(after[b] == before[b - 1]);
            }
        }
        assert forall|s: Seq<char>| #[trigger] listed(after, s) <==> listed(before, s) || s
            == symbol@ by {
            if listed(before, s) {
                let k = choose|k: int| 0 <= k < before.len() && (#[trigger] before[k])@ == s;
                let at = if k < i {
                    k
                } else {
                    k + 1
                };
                assert(after[at]@ == s);
            }
            if s == symbol@ {
                assert(after[i as int]@ == s);
            }
            if listed(after, s) {
                let k = choose|k: int| 0 <= k < after.len() && (#[trigger] after[k])@ == s;
                if k != i {
                    let at = if k < i {
                        k
                    } else {
                        k - 1
                    };
                    assert(before[at]@ == s);
                }
            }
        }
    }
}

/// Whether a symbol comes from the strategy or from a model that succeeded.
pub open spec fn wanted(strategy: Seq<String>, results: Seq<UniverseResult>, s: Seq<char>) -> bool {
    listed(strategy, s) || exists|i: int|
        0 <= i < results.len() && (#[trigger] results[i]).success && listed(results[i].symbols@, s)
}

fn insert_all(symbols: &mut Vec<String>, more: &Vec<String>)
    requires
        strictly_sorted(old(symbols)@),
    ensures
        strictly_sorted(final(symbols)@),
        forall|s: Seq<char>| #[trigger]
            listed(final(symbols)@, s) <==> listed(old(symbols)@, s) || listed(more@, s),
{
    let ghost before = symbols@;
    let mut i: usize = 0;
    proof {
        assert forall|s: Seq<char>| #[trigger] listed(symbols@, s) <==> listed(before, s) || listed(
            more@.take(0),
            s,
        ) by {}
    }
    while i < more.len()
        invariant
            i <= more.len(),
            strictly_sorted(symbols@),
            forall|s: Seq<char>| #[trigger]
                listed(symbols@, s) <==> listed(before, s) || listed(more@.take(i as int), s),
        decreases more.len() - i,
    {
        let ghost mid = symbols@;
        insert_symbol(symbols, more[i].as_str());
        proof {
            let next = more@.take(i + 1);
            assert forall|s: Seq<char>| #[trigger] listed(symbols@, s) <==> listed(before, s)
                || listed(next, s) by {
                assert(listed(symbols@, s) <==> listed(mid, s) || s == more@[i as int]@);
                if listed(more@.take(i as int), s) {
                    let k = choose|k: int|
                        0 <= k < i && (#[trigger] more@.take(i as int)[k])@ == s;
                    assert(next[k]@ == s);
                }
                if s == more@[i as int]@ {
                    assert(next[i as int]@ == s);
                }
                if listed(next, s) {
                    let k = choose|k: int| 0 <= k < next.len() && (#[trigger] next[k])@ == s;
                    if k < i {
                        assert(more@.take(i as int)[k]@ == s);
                    }
                }
            }
        }
        i = i + 1;
    }
    proof {
        assert(more@.take(i as int) =~= more@);
    }
}

/// The symbols of a universe: those of the strategy and those of the models that succeeded, in
/// order and each once.
pub fn universe_symbols(strategy: &Vec<String>, results: &Vec<UniverseResult>) -> (r: Vec<String>)
    ensures
        strictly_sorted(r@),
        forall|s: Seq<char>| #[trigger] listed(r@, s) <==> wanted(strategy@, results@, s),
{
    let mut symbols: Vec<String> = Vec::new();
    insert_all(&mut symbols, strategy);
    let ghost start = symbols@;
    let mut i: usize = 0;
    while i < results.len()
        invariant
            i <= results.len(),
            strictly_sorted(symbols@),
            forall|s: Seq<char>| #[trigger]
                listed(symbols@, s) <==> wanted(strategy@, results@.take(i as int), s),
        decreases results.len() - i,
    {
        let ghost mid = symbols@;
        if results[i].success {
            insert_all(&mut symbols, &results[i].symbols);
        }
        proof {
            let now = results@.take(i as int);
            let next = results@.take(i + 1);
            assert forall|s: Seq<char>| #[trigger] listed(symbols@, s) <==> wanted(
                strategy@,
                next,
                s,
            ) by {
                assert(listed(mid, s) <==> wanted(strategy@, now, s));
                if wanted(strategy@, now, s) && !listed(strategy@, s) {
                    let k = choose|k: int|
                        0 <= k < now.len() && (#[trigger] now[k]).success && listed(
                            now[k].symbols@,
                            s,
                        );
                    assert(next[k].success && listed(next[k].symbols@, s));
                }
                if results@[i as int].success && listed(results@[i as int].symbols@, s) {
                    assert(next[i as int].success && listed(next[i as int].symbols@, s));
                }
                if wanted(strategy@, next, s) && !listed(strategy@, s) {
                    let k = choose|k: int|
                        0 <= k < next.len() && (#[trigger] next[k]).success && listed(
                            next[k].symbols@,
                            s,
                        );
                    if k < i {
                        assert(now[k].success && listed(now[k].symbols@, s));
                    }
                }
            }
        }
        i = i + 1;
    }
    proof {
        assert(results@.take(i as int) =~= results@);
    }
    symbols
}

/// A model that did not succeed fails the universe unless it may fail, and the error tells which model,
/// and why.
pub proof fn strict_models_fail_the_universe(
    result: &UniverseResult,
    can_fail: bool,
    r: Result<(), String>,
)
    requires
        call_ensures(check_result, (result, can_fail), r),
    ensures
        r is Err <==> !result.success && !can_fail,
        r is Err && result.message is Some ==> r->Err_0@ == "Universe model "@
            + result.model_name@ + " failed: "@ + result.message->Some_0@,
{
}

/// The universe holds what the strategy asks for and what models came up with that succeeded, and
/// nothing else, each symbol once and in order.
pub proof fn universes_hold_what_was_asked_for(
    strategy: &Vec<String>,
    results: &Vec<UniverseResult>,
    r: Vec<String>,
    s: Seq<char>,
)
    requires
        call_ensures(universe_symbols, (strategy, results), r),
    ensures
        (exists|i: int| 0 <= i < r@.len() && (#[trigger] r@[i])@ == s) <==> (exists|i: int|
            0 <= i < strategy@.len() && (#[trigger] strategy@[i])@ == s) || (exists|k: int, i: int|
            0 <= k < results@.len() && results@[k].success && 0 <= i < results@[k].symbols@.len()
                && (#[trigger] results@[k].symbols@[i])@ == s),
        forall|i: int, j: int|
            0 <= i < j < r@.len() ==> (#[trigger] r@[i])@ != (#[trigger] r@[j])@,
{
    assert(listed(r@, s) <==> wanted(strategy@, results@, s));
    if wanted(strategy@, results@, s) && !listed(strategy@, s) {
        let k = choose|k: int|
            0 <= k < results@.len() && (#[trigger] results@[k]).success && listed(
                results@[k].symbols@,
                s,
            );
        let i = choose|i: int|
            0 <= i < results@[k].symbols@.len() && (#[trigger] results@[k].symbols@[i])@ == s;
        assert(results@[k].symbols@[i]@ == s);
    }
    if exists|k: int, i: int|
        0 <= k < results@.len() && results@[k].success && 0 <= i < results@[k].symbols@.len()
            && (#[trigger] results@[k].symbols@[i])@ == s {
        let (k, i) = choose|k: int, i: int|
            0 <= k < results@.len() && results@[k].success && 0 <= i < results@[k].symbols@.len()
                && (#[trigger] results@[k].symbols@[i])@ == s;
        assert(listed(results@[k].symbols@, s));
        assert(results@[k].success);
    }
}

/// Each run of a model is counted, and as a success only where it succeeded.
pub proof fn runs_of_models_are_counted<C, M: UniverseModel<C>>(
    model: WrappedUniverseModel<M>,
    context: C,
    after: WrappedUniverseModel<M>,
    context_after: C,
    result: UniverseResult,
)
    requires
        model_ran(model, context, after, context_after, result),
    ensures
        after.runs_count == model.runs_count + 1,
        result.success ==> after.success_count == model.success_count + 1,
        !result.success ==> after.success_count == model.success_count,
        after.can_fail == model.can_fail,
{
}

/// All models are run, or those up to the first one that fails and may not: with as many results as
/// models, each of a model that succeeded or may fail.
pub proof fn universes_need_their_strict_models<C, M: UniverseModel<C>>(k: int)
    ensures
        forall|
            models: &mut Vec<WrappedUniverseModel<M>>,
            context: &mut C,
            r: Result<Vec<UniverseResult>, String>,
        | #[trigger]
            call_ensures(run_universe_models::<C, M>, (models, context), r) ==> {
                &&& final(models)@.len() == models@.len()
                &&& models@.len() == 0 ==> r is Ok
                &&& r is Ok ==> r->Ok_0@.len() == models@.len()
                &&& r is Ok && 0 <= k < models@.len() ==> r->Ok_0@[k].success
                    || models@[k].can_fail
            },
        forall|symbols: &mut Vec<String>, symbol: &str, s: Seq<char>, r: ()| #[trigger]
            call_ensures(insert_symbol, (symbols, symbol), r) ==> {
                &&& #[trigger] listed(final(symbols)@, s) <==> listed(symbols@, s) || s == symbol@
            },
{
}

/// A wrapped model may not fail unless it was said that it may; nothing is counted of it yet.
pub proof fn models_are_strict_unless_told<M>(
    inner: M,
    r: UniverseModelBuilder<M>,
    built: WrappedUniverseModel<M>,
)
    requires
        call_ensures(WrappedUniverseModel::<M>::builder, (inner,), r),
        call_ensures(UniverseModelBuilder::<M>::build, (r,), built),
    ensures
        !built.can_fail,
        built.inner == inner,
        built.runs_count == 0,
        built.success_count == 0,
{
}

} // verus!
