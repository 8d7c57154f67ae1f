//! Alpha models: where a strategy's insights come from.
use vstd::prelude::*;

use crate::state::{AlphaResult, StrategyContext};

verus! {

/// A model that comes up with insights, as a strategy's author writes it. `C` is the strategy that
/// it works for.
pub trait AlphaModel<C> {
    /// Whether the model looks at the asset.
    fn is_allowed_asset(&self, symbol: &str) -> bool;

    /// Whether asking the model about `symbol` may leave it and the strategy so, with this result;
    /// the author of a model decides, and else it may do anything.
    open spec fn may_generate(
        &self,
        context: C,
        symbol: Seq<char>,
        model_after: &Self,
        context_after: C,
        result: AlphaResult,
    ) -> bool {
        true
    }

    /// What the model makes of the asset.
    fn generate_insights(&mut self, context: &mut C, symbol: &str) -> (r: AlphaResult)
        ensures
            old(self).may_generate(*old(context), symbol@, final(self), *final(context), r),
    ;
}

/// Where the asking of all models stands.
pub struct AlphaState<C, A> {
    pub alphas: Seq<A>,
    pub context: C,
}

/// Whether taking in what a model came up with may lead from one strategy to another: the insight of
/// a model that succeeded is taken in, and else nothing changes.
pub open spec fn heard<C: StrategyContext>(from: C, result: AlphaResult, to: C) -> bool {
    match result.insight {
        Some(insight) => if result.success {
            from.may_add(insight, &to)
        } else {
            to == from
        },
        None => to == from,
    }
}

/// Whether asking the model at `k` may lead from one state to the next: one that does not look at
/// the asset is not asked.
pub open spec fn alpha_done<C: StrategyContext, A: AlphaModel<C>>(
    from: AlphaState<C, A>,
    to: AlphaState<C, A>,
    symbol: &str,
    k: int,
) -> bool {
    ||| {
        &&& call_ensures(<A as AlphaModel<C>>::is_allowed_asset, (&from.alphas[k], symbol), false)
        &&& to == from
    }
    ||| {
        &&& call_ensures(<A as AlphaModel<C>>::is_allowed_asset, (&from.alphas[k], symbol), true)
        &&& to.alphas == from.alphas.update(k, to.alphas[k])
        &&& exists|left: C, result: AlphaResult| #[trigger]
            from.alphas[k].may_generate(from.context, symbol@, &to.alphas[k], left, result)
                && heard(left, result, to.context)
    }
}

/// Whether asking the model at `k` may lead from the state at `k` to the next one.
pub open spec fn alpha_step<C: StrategyContext, A: AlphaModel<C>>(
    states: Seq<AlphaState<C, A>>,
    symbol: &str,
    k: int,
) -> bool {
    alpha_done(states[k], states[k + 1], symbol, k)
}

/// Whether these may be the states of asking the models, one after the other.
pub open spec fn alphas_linked<C: StrategyContext, A: AlphaModel<C>>(
    states: Seq<AlphaState<C, A>>,
    symbol: &str,
) -> bool {
    &&& states.len() > 0
    &&& forall|k: int| 0 <= k < states.len() - 1 ==> #[trigger] alpha_step(states, symbol, k)
}

/// Whether asking all models may lead from `from` to `to`.
pub open spec fn alphas_asked<C: StrategyContext, A: AlphaModel<C>>(
    from: AlphaState<C, A>,
    to: AlphaState<C, A>,
    symbol: &str,
) -> bool {
    exists|states: Seq<AlphaState<C, A>>| #[trigger]
        alphas_linked(states, symbol) && states[0] == from && states.last() == to && states.len()
            == from.alphas.len() + 1
}

proof fn alphas_grow<C: StrategyContext, A: AlphaModel<C>>(
    states: Seq<AlphaState<C, A>>,
    symbol: &str,
    next: AlphaState<C, A>,
)
    requires
        alphas_linked(states, symbol),
        alpha_done(states.last(), next, symbol, states.len() - 1),
    ensures
        alphas_linked(states.push(next), symbol),
{
    let more = states.push(next);
    assert forall|k: int| 0 <= k < more.len() - 1 implies #[trigger] alpha_step(
        more,
        symbol,
        k,
    ) by {
        if k < states.len() - 1 {
            assert(alpha_step(states, symbol, k));
        }
    }
}

/// Asks the models about an asset, one after the other. The strategy takes in the insight of a model
/// that succeeded before it asks the next one.
pub fn generate_insights<C: StrategyContext, A: AlphaModel<C>>(
    alphas: &mut Vec<A>,
    context: &mut C,
    symbol: &str,
)
    ensures
        final(alphas)@.len() == old(alphas)@.len(),
        alphas_asked(
            (AlphaState { alphas: old(alphas)@, context: *old(context) }),
            (AlphaState { alphas: final(alphas)@, context: *final(context) }),
            symbol,
        ),
{
    let ghost from = AlphaState { alphas: alphas@, context: *context };
    let ghost mut states: Seq<AlphaState<C, A>> = seq![from];
    let mut i: usize = 0;
    while i < alphas.len()
        invariant
            i <= alphas.len(),
            alphas@.len() == old(alphas)@.len(),
            from == (AlphaState { alphas: old(alphas)@, context: *old(context) }),
            alphas_linked(states, symbol),
            states.len() == i + 1,
            states[0] == from,
            states.last() == (AlphaState { alphas: alphas@, context: *context }),
        decreases alphas.len() - i,
    {
        let ghost at = states.last();
        if alphas[i].is_allowed_asset(symbol) {
            let result = alphas[i].generate_insights(context, symbol);
            let ghost said = result;
            let ghost left = *context;
            proof {
                assert(alphas@ =~= at.alphas.update(i as int, alphas@[i as int]));
            }
            match result.accepted() {
                Some(insight) => context.add_insight(insight),
                None => {},
            }
            proof {
                assert(heard(left, said, *context));
                let next = AlphaState { alphas: alphas@, context: *context };
                assert(at.alphas[i as int].may_generate(
                    at.context,
                    symbol@,
                    &next.alphas[i as int],
                    left,
                    said,
                ));
            }
        }
        proof {
            let next = AlphaState { alphas: alphas@, context: *context };
            assert(alpha_done(at, next, symbol, i as int));
            alphas_grow(states, symbol, next);
            states = states.push(next);
        }
        i = i + 1;
    }
    proof {
        assert(alphas_asked(from, states.last(), symbol));
    }
}

/// A strategy takes in the insight of a model exactly where the model succeeded and has one.
pub proof fn only_successful_models_are_heard<C: StrategyContext>(
    from: C,
    result: AlphaResult,
    to: C,
)
    requires
        heard(from, result, to),
    ensures
        !result.success || result.insight is None ==> to == from,
        result.success && result.insight is Some ==> from.may_add(result.insight->Some_0, &to),
{
}

/// A model that does not look at an asset is not asked about it, and one that does is, alone; the other
/// models stay as they are.
pub proof fn models_are_asked_about_their_assets<C: StrategyContext, A: AlphaModel<C>>(
    from: AlphaState<C, A>,
    to: AlphaState<C, A>,
    symbol: &str,
    k: int,
    j: int,
)
    requires
        alpha_done(from, to, symbol, k),
        0 <= k < from.alphas.len(),
        0 <= j < from.alphas.len(),
        j != k,
    ensures
        to.alphas.len() == from.alphas.len(),
        to.alphas[j] == from.alphas[j],
        !call_ensures(<A as AlphaModel<C>>::is_allowed_asset, (&from.alphas[k], symbol), true)
            ==> to == from,
{
}

/// Asking models about an asset leaves as many of them, and without any model nothing happens.
pub proof fn nothing_happens_without_models<C: StrategyContext, A: AlphaModel<C>>()
    ensures
        forall|alphas: &mut Vec<A>, context: &mut C, symbol: &str, r: ()| #[trigger]
            call_ensures(generate_insights::<C, A>, (alphas, context, symbol), r) ==> {
                &&& final(alphas)@.len() == alphas@.len()
                &&& alphas@.len() == 0 ==> *final(context) == *context
            },
{
}

} // verus!
