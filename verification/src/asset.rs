//! Assets and how their prices and quantities are rounded.
use vstd::prelude::*;

use crate::number::Number;
use crate::text::text_eq;

verus! {

/// The kind of an asset.
#[derive(Clone, Debug)]
pub enum AssetType {
    Stock,
    Crypto,
    Forex,
    Commodity,
    Index,
    ETF,
    MutualFund,
    UNKNOWN(String),
}

/// Whether an asset can be had at present.
#[derive(Clone, Copy, Debug, PartialEq, Eq, Structural, Hash)]
pub enum AssetStatus {
    Active,
    Inactive,
}

/// Where an asset is traded.
#[derive(Clone, Debug)]
pub enum AssetExchange {
    NYSE,
    NASDAQ,
    AMEX,
    CME,
    CBOE,
    ICE,
    LSE,
    SSE,
    BSE,
    TSE,
    UNKNOWN(String),
}

impl AssetType {
    /// The name of the kind.
    pub open spec fn name(self) -> Seq<char> {
        match self {
            AssetType::Stock => "Stock"@,
            AssetType::Crypto => "Crypto"@,
            AssetType::Forex => "Forex"@,
            AssetType::Commodity => "Commodity"@,
            AssetType::Index => "Index"@,
            AssetType::ETF => "ETF"@,
            AssetType::MutualFund => "MutualFund"@,
            AssetType::UNKNOWN(other) => other@,
        }
    }
}

/// The name of the kind.
pub fn asset_type_to_string(value: &AssetType) -> (r: String)
    ensures
        r@ == value.name(),
{
    match value {
        AssetType::Stock => "Stock".to_owned(),
        AssetType::Crypto => "Crypto".to_owned(),
        AssetType::Forex => "Forex".to_owned(),
        AssetType::Commodity => "Commodity".to_owned(),
        AssetType::Index => "Index".to_owned(),
        AssetType::ETF => "ETF".to_owned(),
        AssetType::MutualFund => "MutualFund".to_owned(),
        AssetType::UNKNOWN(other) => other.clone(),
    }
}

impl AssetStatus {
    /// The name of the status.
    pub open spec fn name(self) -> Seq<char> {
        match self {
            AssetStatus::Active => "Active"@,
            AssetStatus::Inactive => "Inactive"@,
        }
    }
}

/// The name of the status.
pub fn asset_status_to_string(value: &AssetStatus) -> (r: String)
    ensures
        r@ == value.name(),
{
    match value {
        AssetStatus::Active => "Active".to_owned(),
        AssetStatus::Inactive => "Inactive".to_owned(),
    }
}

impl AssetExchange {
    /// The name of the exchange.
    pub open spec fn name(self) -> Seq<char> {
        match self {
            AssetExchange::NYSE => "NYSE"@,
            AssetExchange::NASDAQ => "NASDAQ"@,
            AssetExchange::AMEX => "AMEX"@,
            AssetExchange::CME => "CME"@,
            AssetExchange::CBOE => "CBOE"@,
            AssetExchange::ICE => "ICE"@,
            AssetExchange::LSE => "LSE"@,
            AssetExchange::SSE => "SSE"@,
            AssetExchange::BSE => "BSE"@,
            AssetExchange::TSE => "TSE"@,
            AssetExchange::UNKNOWN(other) => other@,
        }
    }
}

/// The name of the exchange.
pub fn asset_exchange_to_string(value: &AssetExchange) -> (r: String)
    ensures
        r@ == value.name(),
{
    match value {
        AssetExchange::NYSE => "NYSE".to_owned(),
        AssetExchange::NASDAQ => "NASDAQ".to_owned(),
        AssetExchange::AMEX => "AMEX".to_owned(),
        AssetExchange::CME => "CME".to_owned(),
        AssetExchange::CBOE => "CBOE".to_owned(),
        AssetExchange::ICE => "ICE".to_owned(),
        AssetExchange::LSE => "LSE".to_owned(),
        AssetExchange::SSE => "SSE".to_owned(),
        AssetExchange::BSE => "BSE".to_owned(),
        AssetExchange::TSE => "TSE".to_owned(),
        AssetExchange::UNKNOWN(other) => other.clone(),
    }
}

/// What is known of an asset.
#[derive(Clone, Debug)]
pub struct Asset {
    pub id: String,
    pub symbol: String,
    pub name: String,
    pub asset_type: AssetType,
    pub status: AssetStatus,
    pub exchange: AssetExchange,
    pub tradable: bool,
    pub marginable: bool,
    pub shortable: bool,
    pub fractional: bool,
    pub min_order_size: Option<Number>,
    pub quantity_base: Option<i64>,
    pub max_order_size: Option<Number>,
    pub min_price_increment: Option<Number>,
    pub price_base: Option<i64>,
    pub contract_size: Option<i64>,
}

/// How a value is rounded: to so many decimal digits, or to a multiple of an increment, which has
/// a default where it is not given.
#[derive(Clone, Copy, Debug, PartialEq, Eq, Structural, Hash)]
pub enum Rounding {
    Digits(i64),
    Increment(Option<Number>),
}

/// How the prices of an asset are rounded.
pub fn price_rounding(asset: &Asset) -> (r: Rounding)
    ensures
        r == (match asset.price_base {
            Some(base) => Rounding::Digits(base),
            None => Rounding::Increment(asset.min_price_increment),
        }),
{
    match asset.price_base {
        Some(base) => Rounding::Digits(base),
        None => Rounding::Increment(asset.min_price_increment),
    }
}

/// How the quantities of an asset are rounded.
pub fn quantity_rounding(asset: &Asset) -> (r: Rounding)
    ensures
        r == (match asset.quantity_base {
            Some(base) => Rounding::Digits(base),
            None => Rounding::Increment(asset.min_order_size),
        }),
{
    match asset.quantity_base {
        Some(base) => Rounding::Digits(base),
        None => Rounding::Increment(asset.min_order_size),
    }
}

/// The place of the first asset with a symbol.
pub open spec fn asset_at(assets: Seq<Asset>, symbol: Seq<char>, from: int) -> Option<int>
    decreases assets.len() - from,
{
    if from < 0 || from >= assets.len() {
        None
    } else if assets[from].symbol@ == symbol {
        Some(from)
    } else {
        asset_at(assets, symbol, from + 1)
    }
}

/// The place of the first asset with a symbol.
pub fn find_asset(assets: &Vec<Asset>, symbol: &str) -> (r: Option<usize>)
    ensures
        match r {
            Some(at) => asset_at(assets@, symbol@, 0) == Some(at as int) && at < assets@.len(),
            None => asset_at(assets@, symbol@, 0) is None,
        },
{
    let mut i: usize = 0;
    while i < assets.len()
        invariant
            i <= assets.len(),
            asset_at(assets@, symbol@, 0) == asset_at(assets@, symbol@, i as int),
        decreases assets.len() - i,
    {
        if text_eq(assets[i].symbol.as_str(), symbol) {
            return Some(i);
        }
        i = i + 1;
    }
    None
}

/// Prices are rounded to the digits that an asset gives for them, else to the least step of its price;
/// quantities to theirs, else to its least order.
pub proof fn roundings_are_those_of_the_asset(asset: &Asset, price: Rounding, quantity: Rounding)
    requires
        call_ensures(price_rounding, (asset,), price),
        call_ensures(quantity_rounding, (asset,), quantity),
    ensures
        asset.price_base matches Some(digits) ==> price == Rounding::Digits(digits),
        asset.price_base is None ==> price == Rounding::Increment(asset.min_price_increment),
        asset.quantity_base matches Some(digits) ==> quantity == Rounding::Digits(digits),
        asset.quantity_base is None ==> quantity == Rounding::Increment(asset.min_order_size),
{
}

/// An asset is found by its symbol: the first one that has it.
pub proof fn assets_are_found_by_symbol(assets: Seq<Asset>, symbol: Seq<char>, from: int)
    requires
        0 <= from,
    ensures
        asset_at(assets, symbol, from) matches Some(i) ==> from <= i < assets.len()
            && assets[i].symbol@ == symbol && forall|j: int|
            from <= j < i ==> (#[trigger] assets[j]).symbol@ != symbol,
        asset_at(assets, symbol, from) is None ==> forall|j: int|
            from <= j < assets.len() ==> (#[trigger] assets[j]).symbol@ != symbol,
    decreases assets.len() - from,
{
    if from < assets.len() && assets[from].symbol@ != symbol {
        assets_are_found_by_symbol(assets, symbol, from + 1);
    }
}

} // verus!
