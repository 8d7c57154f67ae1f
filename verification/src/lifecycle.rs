//! What is called when a strategy is set up for its assets, in order.
use vstd::prelude::*;

verus! {

/// What is called next while a strategy is set up.
#[derive(Clone, Copy, Debug, PartialEq, Eq, Structural)]
pub enum PrepareStep {
    /// A model starts.
    StartAlpha { at: usize },
    /// What was asked for before the strategy is set up for an asset; this is where its history is
    /// read.
    BeforeInit { at: usize },
    /// The strategy is set up for an asset.
    InitAsset { at: usize },
    /// What was asked for after the strategy is set up for an asset.
    AfterInit { at: usize },
    /// A model is set up for an asset.
    InitAlpha { asset: usize, alpha: usize },
    /// Nothing more.
    Done,
}

/// A strategy that is set up, with its models and assets.
#[derive(Clone, Copy, Debug, PartialEq, Eq, Structural)]
pub struct Preparation {
    pub alphas: usize,
    pub assets: usize,
    pub step: PrepareStep,
}

/// What is called from the model `alpha` and the asset `asset` on.
pub open spec fn from_pair(alphas: usize, assets: usize, asset: int, alpha: int) -> PrepareStep {
    if asset >= assets || alphas == 0 {
        PrepareStep::Done
    } else if alpha < alphas {
        PrepareStep::InitAlpha { asset: asset as usize, alpha: alpha as usize }
    } else if asset + 1 < assets {
        PrepareStep::InitAlpha { asset: (asset + 1) as usize, alpha: 0 }
    } else {
        PrepareStep::Done
    }
}

/// What is called from the asset `at` on.
pub open spec fn from_asset(alphas: usize, assets: usize, at: int) -> PrepareStep {
    if at < assets {
        PrepareStep::BeforeInit { at: at as usize }
    } else {
        from_pair(alphas, assets, 0, 0)
    }
}

/// What is called from the model `at` on.
pub open spec fn from_alpha(alphas: usize, assets: usize, at: int) -> PrepareStep {
    if at < alphas {
        PrepareStep::StartAlpha { at: at as usize }
    } else {
        from_asset(alphas, assets, 0)
    }
}

/// A strategy whose setting up begins.
pub open spec fn preparation_begun(alphas: usize, assets: usize) -> Preparation {
    Preparation { alphas, assets, step: from_alpha(alphas, assets, 0) }
}

/// A strategy after its call was made.
pub open spec fn preparation_next(p: Preparation) -> Preparation {
    Preparation {
        step: match p.step {
            PrepareStep::StartAlpha { at } => from_alpha(p.alphas, p.assets, at + 1),
            PrepareStep::BeforeInit { at } => PrepareStep::InitAsset { at },
            PrepareStep::InitAsset { at } => PrepareStep::AfterInit { at },
            PrepareStep::AfterInit { at } => from_asset(p.alphas, p.assets, at + 1),
            PrepareStep::InitAlpha { asset, alpha } => from_pair(
                p.alphas,
                p.assets,
                asset as int,
                alpha + 1,
            ),
            PrepareStep::Done => PrepareStep::Done,
        },
        ..p
    }
}

impl Preparation {
    /// Whether the call is one of a model and an asset that are there.
    pub open spec fn wf(self) -> bool {
        match self.step {
            PrepareStep::StartAlpha { at } => at < self.alphas,
            PrepareStep::BeforeInit { at } => at < self.assets,
            PrepareStep::InitAsset { at } => at < self.assets,
            PrepareStep::AfterInit { at } => at < self.assets,
            PrepareStep::InitAlpha { asset, alpha } => asset < self.assets && alpha < self.alphas,
            PrepareStep::Done => true,
        }
    }

    fn pair_from(alphas: usize, assets: usize, asset: usize, alpha: usize) -> (r: PrepareStep)
        ensures
            r == from_pair(alphas, assets, asset as int, alpha as int),
    {
        if asset >= assets || alphas == 0 {
            PrepareStep::Done
        } else if alpha < alphas {
            PrepareStep::InitAlpha { asset, alpha }
        } else if asset + 1 < assets {
            PrepareStep::InitAlpha { asset: asset + 1, alpha: 0 }
        } else {
            PrepareStep::Done
        }
    }

    fn asset_from(alphas: usize, assets: usize, at: usize) -> (r: PrepareStep)
        ensures
            r == from_asset(alphas, assets, at as int),
    {
        if at < assets {
            PrepareStep::BeforeInit { at }
        } else {
            Preparation::pair_from(alphas, assets, 0, 0)
        }
    }

    /// A strategy with so many models and assets, whose setting up begins.
    pub fn begin(alphas: usize, assets: usize) -> (r: Preparation)
        ensures
            r == preparation_begun(alphas, assets),
            r.wf(),
    {
        let step = if 0 < alphas {
            PrepareStep::StartAlpha { at: 0 }
        } else {
            Preparation::asset_from(alphas, assets, 0)
        };
        Preparation { alphas, assets, step }
    }

    /// After the call was made.
    pub fn next(self) -> (r: Preparation)
        requires
            self.wf(),
        ensures
            r == preparation_next(self),
            r.wf(),
    {
        let alphas = self.alphas;
        let assets = self.assets;
        let step = match self.step {
            PrepareStep::StartAlpha { at } => if at + 1 < alphas {
                PrepareStep::StartAlpha { at: at + 1 }
            } else {
                Preparation::asset_from(alphas, assets, 0)
            },
            PrepareStep::BeforeInit { at } => PrepareStep::InitAsset { at },
            PrepareStep::InitAsset { at } => PrepareStep::AfterInit { at },
            PrepareStep::AfterInit { at } => Preparation::asset_from(alphas, assets, at + 1),
            PrepareStep::InitAlpha { asset, alpha } => Preparation::pair_from(
                alphas,
                assets,
                asset,
                alpha + 1,
            ),
            PrepareStep::Done => PrepareStep::Done,
        };
        Preparation { alphas, assets, step }
    }
}

/// A strategy after `n` calls were made.
pub open spec fn prepared(alphas: usize, assets: usize, n: nat) -> Preparation
    decreases n,
{
    if n == 0 {
        preparation_begun(alphas, assets)
    } else {
        preparation_next(prepared(alphas, assets, (n - 1) as nat))
    }
}

/// The call that has `n` calls before it: every model starts; then, asset by asset, comes what was
/// asked for before, the strategy, and what was asked for after; then, asset by asset, every model.
pub open spec fn call_at(alphas: usize, assets: usize, n: int) -> PrepareStep {
    let after_starts = n - alphas;
    let after_assets = after_starts - 3 * assets;
    if n < alphas {
        PrepareStep::StartAlpha { at: n as usize }
    } else if after_assets < 0 {
        let at = (after_starts / 3) as usize;
        if after_starts % 3 == 0 {
            PrepareStep::BeforeInit { at }
        } else if after_starts % 3 == 1 {
            PrepareStep::InitAsset { at }
        } else {
            PrepareStep::AfterInit { at }
        }
    } else if after_assets < assets * alphas {
        PrepareStep::InitAlpha {
            asset: (after_assets / alphas as int) as usize,
            alpha: (after_assets % alphas as int) as usize,
        }
    } else {
        PrepareStep::Done
    }
}

proof fn next_pair(k: int, a: int)
    by (nonlinear_arith)
    requires
        0 <= k,
        0 < a,
    ensures
        k % a + 1 < a ==> (k + 1) / a == k / a && (k + 1) % a == k % a + 1,
        k % a + 1 >= a ==> (k + 1) / a == k / a + 1 && (k + 1) % a == 0,
        0 <= k % a < a,
        0 <= k / a,
{
}

proof fn pair_is_within(k: int, a: int, b: int)
    by (nonlinear_arith)
    requires
        0 <= k,
        0 < a,
        0 <= b,
    ensures
        k < b * a <==> k / a < b,
{
}

/// What is called when a strategy is set up comes in this order, each call once.
pub proof fn calls_come_in_order(alphas: usize, assets: usize, n: nat)
    ensures
        prepared(alphas, assets, n).step == call_at(alphas, assets, n as int),
        prepared(alphas, assets, n).alphas == alphas,
        prepared(alphas, assets, n).assets == assets,
    decreases n,
{
    let a = alphas as int;
    let b = assets as int;
    if a == 0 {
        assert(b * a == 0);
    } else {
        pair_is_within(0, a, b);
        assert(0int / a == 0 && 0int % a == 0) by (nonlinear_arith)
            requires
                a > 0,
        ;
    }
    if n > 0 {
        calls_come_in_order(alphas, assets, (n - 1) as nat);
        let k = n - 1 - a - 3 * b;
        if a > 0 && k >= 0 {
            next_pair(k, a);
            pair_is_within(k, a, b);
            pair_is_within(k + 1, a, b);
        }
    }
}

/// The models start one after another, then the assets are set up one after another, each with what
/// was asked for before and after it, and then every model for every asset, asset by asset.
pub proof fn preparations_go_step_by_step(p: Preparation)
    requires
        p.wf(),
    ensures
        ({
            let next = preparation_next(p);
            let assets_first = if p.assets > 0 {
                PrepareStep::BeforeInit { at: 0 }
            } else {
                PrepareStep::Done
            };
            let models_first = if p.alphas > 0 {
                PrepareStep::InitAlpha { asset: 0, alpha: 0 }
            } else {
                PrepareStep::Done
            };
            &&& next.alphas == p.alphas && next.assets == p.assets
            &&& p.step is StartAlpha && p.step->StartAlpha_at + 1 < p.alphas ==> next.step
                == PrepareStep::StartAlpha { at: (p.step->StartAlpha_at + 1) as usize }
            &&& p.step is StartAlpha && p.step->StartAlpha_at + 1 == p.alphas ==> next.step
                == assets_first
            &&& p.step is BeforeInit ==> next.step == PrepareStep::InitAsset {
                at: p.step->BeforeInit_at,
            }
            &&& p.step is InitAsset ==> next.step == PrepareStep::AfterInit {
                at: p.step->InitAsset_at,
            }
            &&& p.step is AfterInit && p.step->AfterInit_at + 1 < p.assets ==> next.step
                == PrepareStep::BeforeInit { at: (p.step->AfterInit_at + 1) as usize }
            &&& p.step is AfterInit && p.step->AfterInit_at + 1 == p.assets ==> next.step
                == models_first
            &&& p.step is InitAlpha && p.step->alpha + 1 < p.alphas ==> next.step
                == PrepareStep::InitAlpha {
                asset: p.step->asset,
                alpha: (p.step->alpha + 1) as usize,
            }
            &&& p.step is InitAlpha && p.step->alpha + 1 == p.alphas && p.step->asset + 1
                < p.assets ==> next.step == PrepareStep::InitAlpha {
                asset: (p.step->asset + 1) as usize,
                alpha: 0,
            }
            &&& p.step is InitAlpha && p.step->alpha + 1 == p.alphas && p.step->asset + 1
                == p.assets ==> next.step is Done
            &&& p.step is Done ==> next.step is Done
        }),
        preparation_begun(p.alphas, p.assets).step == (if p.alphas > 0 {
            PrepareStep::StartAlpha { at: 0 }
        } else if p.assets > 0 {
            PrepareStep::BeforeInit { at: 0 }
        } else {
            PrepareStep::Done
        }),
{
}

} // verus!
