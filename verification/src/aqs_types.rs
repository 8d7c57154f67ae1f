//! What a strategy tells the cloud, and the keys it is filed under.
use vstd::prelude::*;
use vstd::string::StringExecFns;

use crate::asset::{asset_exchange_to_string, asset_status_to_string, asset_type_to_string, Asset};
use crate::json::{text_at, text_of, Json, JsonView};
use crate::number::Number;
use crate::text::{behind_first, decimal_signed, option_view, signed_text, text_behind_first};

verus! {

/// The address of the cloud, where none is given.
pub const DEFAULT_URL: &'static str =
    "wss://certain-squirre-06echdjfsdvq70hkk9g8bb2s0k.aws-euw1.surreal.cloud";

/// What a strategy signs in to the cloud with.
#[derive(Clone, Debug)]
pub struct AqsAuth {
    pub access_method: String,
    pub session_id: String,
    pub session_secret: String,
    pub strategy_id: String,
    pub user_id: String,
    pub node_id: Option<String>,
    pub live_session_id: Option<String>,
    pub url: Option<String>,
}

impl AqsAuth {
    /// The address of the cloud.
    pub fn url(&self) -> (r: &str)
        ensures
            r@ == (match self.url {
                Some(url) => url@,
                None => DEFAULT_URL@,
            }),
    {
        match &self.url {
            Some(url) => url.as_str(),
            None => DEFAULT_URL,
        }
    }

    /// The same credentials for another address.
    pub fn with_url(self, url: String) -> (r: AqsAuth)
        ensures
            r == (AqsAuth { url: Some(url), ..self }),
    {
        let mut auth = self;
        auth.url = Some(url);
        auth
    }
}

/// The key of a record id: what stands behind the first colon, or all of it without one.
pub open spec fn session_key(value: Seq<char>) -> Seq<char> {
    match behind_first(value, ':') {
        Some(key) => key,
        None => value,
    }
}

/// The key of a live session's record id.
pub fn live_session_key(value: &str) -> (r: String)
    ensures
        r@ == session_key(value@),
{
    match text_behind_first(value, ':') {
        Some(key) => key,
        None => value.to_owned(),
    }
}

/// The key of the live session that a strategy runs in, or nothing where it runs in none.
pub open spec fn session_of(auth: AqsAuth) -> Seq<char> {
    match auth.live_session_id {
        Some(id) => session_key(id@),
        None => Seq::empty(),
    }
}

/// The key of a record of an action, or `None` where it cannot be told.
pub open spec fn action_key(value: JsonView) -> Option<Seq<char>> {
    match value {
        JsonView::Text(key) => Some(key),
        JsonView::Object(_) => match text_at(value, "String"@) {
            Some(key) => Some(key),
            None => match text_at(value, "Uuid"@) {
                Some(key) => Some(key),
                None => match value.get("Number"@) {
                    Some(n) => match n.as_int() {
                        Some(n) => Some(decimal_signed(n as int)),
                        None => None,
                    },
                    None => None,
                },
            },
        },
        _ => None,
    }
}

/// The id of a record of an action, or `None` where it cannot be told.
pub open spec fn action_id(value: JsonView) -> Option<Seq<char>> {
    match value {
        JsonView::Text(id) => Some(id),
        JsonView::Object(_) => match (text_at(value, "table"@), value.get("key"@)) {
            (Some(table), Some(key)) => match action_key(key) {
                Some(key) => Some(table + ":"@ + key),
                None => None,
            },
            _ => None,
        },
        _ => None,
    }
}

fn action_key_of(value: &Json) -> (r: Option<String>)
    ensures
        option_view(r) == action_key(value@),
{
    match value {
        Json::Text(key) => Some(key.clone()),
        Json::Object(_) => {
            match text_of(value, "String") {
                Some(key) => {
                    return Some(key);
                },
                None => {},
            }
            match text_of(value, "Uuid") {
                Some(key) => {
                    return Some(key);
                },
                None => {},
            }
            match value.get("Number") {
                Some(n) => match n.as_int() {
                    Some(n) => Some(signed_text(n)),
                    None => None,
                },
                None => None,
            }
        },
        _ => None,
    }
}

/// The id of a record of an action: a text as it is, or an object's table and key.
pub fn action_id_from_value(value: &Json) -> (r: Option<String>)
    ensures
        option_view(r) == action_id(value@),
{
    match value {
        Json::Text(id) => Some(id.clone()),
        Json::Object(_) => {
            let table = match text_of(value, "table") {
                Some(table) => table,
                None => {
                    return None;
                },
            };
            let key = match value.get("key") {
                Some(key) => match action_key_of(key) {
                    Some(key) => key,
                    None => {
                        return None;
                    },
                },
                None => {
                    return None;
                },
            };
            let mut id = table;
            id.append(":");
            id.append(key.as_str());
            Some(id)
        },
        _ => None,
    }
}

/// An asset as it is written to the cloud.
#[derive(Clone, Debug)]
pub struct StrategyUniverseAssetRecord {
    pub id: String,
    pub symbol: String,
    pub name: String,
    pub asset_type: String,
    pub status: String,
    pub exchange: String,
    pub tradable: bool,
    pub marginable: bool,
    pub shortable: bool,
    pub fractional: bool,
    pub min_order_size: Option<Number>,
    pub quantity_base: Option<i64>,
    pub max_order_size: Option<Number>,
    pub min_price_increment: Option<Number>,
    pub price_base: Option<i64>,
    pub contract_size: Option<i64>,
}

/// Whether `r` is the record of `asset`.
pub open spec fn records(r: StrategyUniverseAssetRecord, asset: Asset) -> bool {
    &&& r.id == asset.id
    &&& r.symbol == asset.symbol
    &&& r.name == asset.name
    &&& r.asset_type@ == asset.asset_type.name()
    &&& r.status@ == asset.status.name()
    &&& r.exchange@ == asset.exchange.name()
    &&& r.tradable == asset.tradable
    &&& r.marginable == asset.marginable
    &&& r.shortable == asset.shortable
    &&& r.fractional == asset.fractional
    &&& r.min_order_size == asset.min_order_size
    &&& r.quantity_base == asset.quantity_base
    &&& r.max_order_size == asset.max_order_size
    &&& r.min_price_increment == asset.min_price_increment
    &&& r.price_base == asset.price_base
    &&& r.contract_size == asset.contract_size
}

impl StrategyUniverseAssetRecord {
    /// The record of an asset.
    pub fn of(value: &Asset) -> (r: StrategyUniverseAssetRecord)
        ensures
            records(r, *value),
    {
        StrategyUniverseAssetRecord {
            id: value.id.clone(),
            symbol: value.symbol.clone(),
            name: value.name.clone(),
            asset_type: asset_type_to_string(&value.asset_type),
            status: asset_status_to_string(&value.status),
            exchange: asset_exchange_to_string(&value.exchange),
            tradable: value.tradable,
            marginable: value.marginable,
            shortable: value.shortable,
            fractional: value.fractional,
            min_order_size: value.min_order_size,
            quantity_base: value.quantity_base,
            max_order_size: value.max_order_size,
            min_price_increment: value.min_price_increment,
            price_base: value.price_base,
            contract_size: value.contract_size,
        }
    }
}

/// The key of a session is what stands behind the first colon of its id, or the whole id where it
/// has none.
pub proof fn session_keys_stand_behind_the_table(table: Seq<char>, key: Seq<char>)
    requires
        forall|i: int| 0 <= i < table.len() ==> #[trigger] table[i] != ':',
    ensures
        session_key(table + seq![':'] + key) == key,
        session_key(table) == table,
    decreases table.len(),
{
    let whole = table + seq![':'] + key;
    if table.len() == 0 {
        assert(whole.drop_first() =~= key);
        assert(whole[0] == ':');
        assert(behind_first(table, ':') is None);
    } else {
        let rest = table.drop_first();
        assert forall|i: int| 0 <= i < rest.len() implies #[trigger] rest[i] != ':' by {
            assert(rest[i] == table[i + 1]);
        }
        keys_stand_behind(rest, key);
        assert(whole[0] == table[0]);
        assert(whole.drop_first() =~= rest + seq![':'] + key);
    }
}

proof fn keys_stand_behind(table: Seq<char>, key: Seq<char>)
    requires
        forall|i: int| 0 <= i < table.len() ==> #[trigger] table[i] != ':',
    ensures
        behind_first(table + seq![':'] + key, ':') == Some(key),
        behind_first(table, ':') is None,
    decreases table.len(),
{
    let whole = table + seq![':'] + key;
    if table.len() == 0 {
        assert(whole.drop_first() =~= key);
        assert(whole[0] == ':');
    } else {
        let rest = table.drop_first();
        assert forall|i: int| 0 <= i < rest.len() implies #[trigger] rest[i] != ':' by {
            assert(rest[i] == table[i + 1]);
        }
        keys_stand_behind(rest, key);
        assert(whole[0] == table[0]);
        assert(whole.drop_first() =~= rest + seq![':'] + key);
    }
}

/// An action is named by a text, or by a table and a key: a text, one under "String" or "Uuid", or a
/// whole number under "Number". Nothing else names one.
pub proof fn actions_are_named_by_table_and_key(value: JsonView)
    ensures
        value is Text ==> action_id(value) == Some(value->Text_0),
        !(value is Text) && !(value is Object) ==> action_id(value) is None,
        value is Object && (text_at(value, "table"@) is None || value.get("key"@) is None)
            ==> action_id(value) is None,
        value is Object && text_at(value, "table"@) is Some && value.get("key"@) is Some ==> {
            let table = text_at(value, "table"@)->Some_0;
            let key = value.get("key"@)->Some_0;
            &&& key is Text ==> action_id(value) == Some(table + ":"@ + key->Text_0)
            &&& text_at(key, "String"@) is Some ==> action_id(value) == Some(
                table + ":"@ + text_at(key, "String"@)->Some_0,
            )
            &&& text_at(key, "String"@) is None && text_at(key, "Uuid"@) is Some ==> action_id(
                value,
            ) == Some(table + ":"@ + text_at(key, "Uuid"@)->Some_0)
            &&& text_at(key, "String"@) is None && text_at(key, "Uuid"@) is None && key.get(
                "Number"@,
            ) is Some && key.get("Number"@)->Some_0 is Signed ==> action_id(value) == Some(
                table + ":"@ + decimal_signed(key.get("Number"@)->Some_0->Signed_0 as int),
            )
            &&& !(key is Text) && !(key is Object) ==> action_id(value) is None
            &&& key is Object && text_at(key, "String"@) is None && text_at(key, "Uuid"@) is None
                && key.get("Number"@) is None ==> action_id(value) is None
        },
{
}

/// The cloud is reached at the address that was given, and else at the usual one.
pub proof fn the_given_address_is_used(auth: AqsAuth, url: String, r: AqsAuth, shown: &str)
    requires
        call_ensures(AqsAuth::with_url, (auth, url), r),
        call_ensures(AqsAuth::url, (&r,), shown),
    ensures
        shown@ == url@,
        r.strategy_id == auth.strategy_id && r.user_id == auth.user_id && r.session_id
            == auth.session_id && r.session_secret == auth.session_secret && r.access_method
            == auth.access_method && r.node_id == auth.node_id && r.live_session_id
            == auth.live_session_id,
{
}

/// The record of an asset tells every property of it.
pub proof fn asset_records_tell_the_asset(asset: Asset, r: StrategyUniverseAssetRecord)
    requires
        call_ensures(StrategyUniverseAssetRecord::of, (&asset,), r),
    ensures
        r.id == asset.id && r.symbol == asset.symbol && r.name == asset.name,
        r.asset_type@ == asset.asset_type.name(),
        r.status@ == asset.status.name(),
        r.exchange@ == asset.exchange.name(),
        r.tradable == asset.tradable && r.marginable == asset.marginable && r.shortable
            == asset.shortable && r.fractional == asset.fractional,
        r.min_order_size == asset.min_order_size && r.max_order_size == asset.max_order_size,
        r.min_price_increment == asset.min_price_increment,
        r.quantity_base == asset.quantity_base && r.price_base == asset.price_base,
        r.contract_size == asset.contract_size,
{
}

} // verus!
