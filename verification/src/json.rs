//! JSON values.
use vstd::prelude::*;
use vstd::string::StringExecFns;

use crate::number::{whole_bits, whole_numbers_are_finite, Number, SIGN, WHOLE_LIMIT};
use crate::text::{
    decimal, decimal_signed, decimal_text, option_view, signed_text, text_at_most, text_eq, text_le,
    text_le_antisymmetric, text_le_total, text_le_transitive,
};

verus! {

/// A JSON number: a whole number that is not negative, a negative whole number, or a real number
/// with the text that it is written as.
#[derive(Clone, Debug)]
pub enum JsonNumber {
    Unsigned(u64),
    Signed(i64),
    Real(Number, String),
}

/// A JSON value. The members of an object stand in the order in which they are written.
#[derive(Debug)]
pub enum Json {
    Null,
    Bool(bool),
    Number(JsonNumber),
    Text(String),
    Array(Vec<Json>),
    Object(Vec<(String, Json)>),
}

/// The model of a JSON value.
#[verifier::ext_equal]
pub enum JsonView {
    Null,
    Bool(bool),
    Unsigned(u64),
    Signed(i64),
    Real(Number, Seq<char>),
    Text(Seq<char>),
    Array(Seq<JsonView>),
    Object(Seq<(Seq<char>, JsonView)>),
}

/// The model of a JSON value.
pub open spec fn json_view(v: Json) -> JsonView
    decreases v,
{
    match v {
        Json::Null => JsonView::Null,
        Json::Bool(b) => JsonView::Bool(b),
        Json::Number(JsonNumber::Unsigned(n)) => JsonView::Unsigned(n),
        Json::Number(JsonNumber::Signed(n)) => JsonView::Signed(n),
        Json::Number(JsonNumber::Real(n, text)) => JsonView::Real(n, text@),
        Json::Text(s) => JsonView::Text(s@),
        Json::Array(items) => JsonView::Array(
            Seq::new(
                items@.len(),
                |i: int|
                    if 0 <= i < items@.len() {
                        json_view(items@[i])
                    } else {
                        JsonView::Null
                    },
            ),
        ),
        Json::Object(members) => JsonView::Object(
            Seq::new(
                members@.len(),
                |i: int|
                    if 0 <= i < members@.len() {
                        (members@[i].0@, json_view(members@[i].1))
                    } else {
                        (Seq::empty(), JsonView::Null)
                    },
            ),
        ),
    }
}

impl View for Json {
    type V = JsonView;

    open spec fn view(&self) -> JsonView {
        json_view(*self)
    }
}

/// An item is smaller than its array.
pub proof fn item_is_smaller(v: Json, i: int)
    requires
        v is Array,
        0 <= i < v->Array_0@.len(),
    ensures
        decreases_to!(v => v->Array_0@[i]),
{
    let items = v->Array_0;
    assert(decreases_to!(v => items));
    assert(decreases_to!(items => items@));
    assert(decreases_to!(items@ => items@[i]));
}

/// A member's value is smaller than its object.
pub proof fn member_is_smaller(v: Json, i: int)
    requires
        v is Object,
        0 <= i < v->Object_0@.len(),
    ensures
        decreases_to!(v => v->Object_0@[i].1),
{
    let members = v->Object_0;
    assert(decreases_to!(v => members));
    assert(decreases_to!(members => members@));
    assert(decreases_to!(members@ => members@[i]));
    assert(decreases_to!(members@[i] => members@[i].1));
}

impl Json {
    /// A copy of the value.
    pub fn duplicate(&self) -> (r: Json)
        ensures
            r@ == self@,
        decreases self,
    {
        match self {
            Json::Null => Json::Null,
            Json::Bool(b) => Json::Bool(*b),
            Json::Number(JsonNumber::Unsigned(n)) => Json::Number(JsonNumber::Unsigned(*n)),
            Json::Number(JsonNumber::Signed(n)) => Json::Number(JsonNumber::Signed(*n)),
            Json::Number(JsonNumber::Real(n, text)) => Json::Number(
                JsonNumber::Real(*n, text.clone()),
            ),
            Json::Text(s) => Json::Text(s.clone()),
            Json::Array(items) => {
                let mut out: Vec<Json> = Vec::new();
                let mut i: usize = 0;
                while i < items.len()
                    invariant
                        i <= items.len(),
                        out@.len() == i,
                        *self == Json::Array(*items),
                        forall|k: int| 0 <= k < i ==> (#[trigger] out@[k])@ == items@[k]@,
                    decreases items.len() - i,
                {
                    proof {
                        item_is_smaller(*self, i as int);
                    }
                    let item = items[i].duplicate();
                    out.push(item);
                    i = i + 1;
                }
                let r = Json::Array(out);
                proof {
                    assert(r@->Array_0 =~= self@->Array_0);
                }
                r
            },
            Json::Object(members) => {
                let mut out: Vec<(String, Json)> = Vec::new();
                let mut i: usize = 0;
                while i < members.len()
                    invariant
                        i <= members.len(),
                        out@.len() == i,
                        *self == Json::Object(*members),
                        forall|k: int|
                            0 <= k < i ==> (#[trigger] out@[k]).0@ == members@[k].0@ && out@[k].1@
                                == members@[k].1@,
                    decreases members.len() - i,
                {
                    proof {
                        member_is_smaller(*self, i as int);
                    }
                    let value = members[i].1.duplicate();
                    out.push((members[i].0.clone(), value));
                    i = i + 1;
                }
                let r = Json::Object(out);
                proof {
                    assert(r@->Object_0 =~= self@->Object_0);
                }
                r
            },
        }
    }
}

/// The value under `key` among the members of an object, or `None` where there is none.
pub open spec fn member_value(members: Seq<(Seq<char>, JsonView)>, key: Seq<char>) -> Option<
    JsonView,
>
    decreases members.len(),
{
    if members.len() == 0 {
        None
    } else if members[0].0 == key {
        Some(members[0].1)
    } else {
        member_value(members.drop_first(), key)
    }
}

impl JsonView {
    /// The value under `key`, where this is an object that has it.
    pub open spec fn get(self, key: Seq<char>) -> Option<JsonView> {
        match self {
            JsonView::Object(members) => member_value(members, key),
            _ => None,
        }
    }

    /// The text, where this is one.
    pub open spec fn as_text(self) -> Option<Seq<char>> {
        match self {
            JsonView::Text(s) => Some(s),
            _ => None,
        }
    }

    /// Whether this is a number.
    pub open spec fn is_number(self) -> bool {
        self is Unsigned || self is Signed || self is Real
    }

    /// The whole number that fits 64 signed bits, where this is one.
    pub open spec fn as_int(self) -> Option<i64> {
        match self {
            JsonView::Unsigned(n) => if n <= i64::MAX {
                Some(n as i64)
            } else {
                None
            },
            JsonView::Signed(n) => Some(n),
            _ => None,
        }
    }
}

/// The text of the double that is nearest to a whole number.
pub uninterp spec fn double_text(n: u64) -> Seq<char>;

/// `serde_json::to_string` of what `serde_json::Number::as_f64` gives for a whole number, whose
/// result is named.
#[verifier::external_body]
fn write_double(n: u64) -> (r: String)
    ensures
        r@ == double_text(n),
{
    serde_json::to_string(&serde_json::Number::from(n).as_f64()).unwrap()
}

/// The text of the double that is nearest to a whole number. The whole numbers up to the limit are
/// doubles themselves.
pub open spec fn whole_text(n: u64) -> Seq<char> {
    if n <= WHOLE_LIMIT {
        decimal(n as nat) + ".0"@
    } else {
        double_text(n)
    }
}

fn text_of_whole(n: u64) -> (r: String)
    ensures
        r@ == whole_text(n),
{
    if n <= WHOLE_LIMIT {
        let mut text = decimal_text(n);
        text.append(".0");
        text
    } else {
        write_double(n)
    }
}

/// A number as a real one: for a whole number the nearest double.
pub open spec fn as_real(v: JsonView) -> JsonView {
    match v {
        JsonView::Unsigned(n) => JsonView::Real(
            Number { bits: whole_bits(n as int) as u64 },
            whole_text(n),
        ),
        JsonView::Signed(n) => if n >= 0 {
            JsonView::Real(Number { bits: whole_bits(n as int) as u64 }, whole_text(n as u64))
        } else {
            JsonView::Real(
                Number { bits: (SIGN + whole_bits(-n)) as u64 },
                "-"@ + whole_text((-n) as u64),
            )
        },
        _ => v,
    }
}

/// The text under `key`, where there is one.
pub open spec fn text_at(v: JsonView, key: Seq<char>) -> Option<Seq<char>> {
    match v.get(key) {
        Some(value) => value.as_text(),
        None => None,
    }
}

/// The view of an optional value.
pub open spec fn option_json(v: Option<Json>) -> Option<JsonView> {
    match v {
        Some(value) => Some(value@),
        None => None,
    }
}

impl Json {
    /// The value under `key`, where this is an object that has it.
    pub fn get(&self, key: &str) -> (r: Option<&Json>)
        ensures
            match r {
                Some(value) => self@.get(key@) == Some(value@),
                None => self@.get(key@) is None,
            },
    {
        match self {
            Json::Object(members) => {
                let ghost all = self@->Object_0;
                let mut i: usize = 0;
                proof {
                    assert(all.skip(0) =~= all);
                }
                while i < members.len()
                    invariant
                        i <= members.len(),
                        *self == Json::Object(*members),
                        all == self@->Object_0,
                        self@.get(key@) == member_value(all.skip(i as int), key@),
                    decreases members.len() - i,
                {
                    proof {
                        assert(all.skip(i as int).drop_first() =~= all.skip(i + 1));
                        assert(all.skip(i as int)[0] == (
                            members@[i as int].0@,
                            members@[i as int].1@,
                        ));
                    }
                    if text_eq(members[i].0.as_str(), key) {
                        return Some(&members[i].1);
                    }
                    i = i + 1;
                }
                None
            },
            _ => None,
        }
    }

    /// A copy of the text, where this is one.
    pub fn as_text(&self) -> (r: Option<String>)
        ensures
            crate::text::option_view(r) == self@.as_text(),
    {
        match self {
            Json::Text(s) => Some(s.clone()),
            _ => None,
        }
    }

    /// Whether this is a number.
    pub fn is_number(&self) -> (r: bool)
        ensures
            r == self@.is_number(),
    {
        match self {
            Json::Number(JsonNumber::Unsigned(_)) => true,
            Json::Number(JsonNumber::Signed(_)) => true,
            Json::Number(JsonNumber::Real(_, _)) => true,
            _ => false,
        }
    }

    /// A number as a real one.
    pub fn to_real(&self) -> (r: Json)
        ensures
            r@ == as_real(self@),
    {
        match self {
            Json::Number(JsonNumber::Unsigned(n)) => Json::Number(
                JsonNumber::Real(Number::whole(*n), text_of_whole(*n)),
            ),
            Json::Number(JsonNumber::Signed(n)) => if *n >= 0 {
                let n: u64 = *n as u64;
                Json::Number(JsonNumber::Real(Number::whole(n), text_of_whole(n)))
            } else {
                let magnitude: u64 = if *n == i64::MIN {
                    9223372036854775808u64
                } else {
                    (-*n) as u64
                };
                proof {
                    whole_numbers_are_finite(magnitude as int);
                }
                let mut text = "-".to_owned();
                text.append(text_of_whole(magnitude).as_str());
                let number = Number { bits: SIGN + Number::whole(magnitude).bits };
                Json::Number(JsonNumber::Real(number, text))
            },
            _ => self.duplicate(),
        }
    }

    /// The whole number that fits 64 signed bits, where this is one.
    pub fn as_int(&self) -> (r: Option<i64>)
        ensures
            r == self@.as_int(),
    {
        match self {
            Json::Number(JsonNumber::Unsigned(n)) => if *n <= i64::MAX as u64 {
                Some(*n as i64)
            } else {
                None
            },
            Json::Number(JsonNumber::Signed(n)) => Some(*n),
            _ => None,
        }
    }
}

/// The text under `key`, where there is one.
pub fn text_of(v: &Json, key: &str) -> (r: Option<String>)
    ensures
        crate::text::option_view(r) == text_at(v@, key@),
{
    match v.get(key) {
        Some(value) => value.as_text(),
        None => None,
    }
}

/// A text as a JSON string.
pub uninterp spec fn quoted(s: Seq<char>) -> Seq<char>;

/// `serde_json::to_string` of a text, whose result is named.
#[verifier::external_body]
pub(crate) fn quote(s: &str) -> (r: String)
    ensures
        r@ == quoted(s@),
{
    serde_json::to_string(s).unwrap()
}

/// A JSON value as text, without white space.
pub open spec fn json_text(v: JsonView) -> Seq<char>
    decreases v,
{
    match v {
        JsonView::Null => "null"@,
        JsonView::Bool(b) => if b {
            "true"@
        } else {
            "false"@
        },
        JsonView::Unsigned(n) => decimal(n as nat),
        JsonView::Signed(n) => decimal_signed(n as int),
        JsonView::Real(_, text) => text,
        JsonView::Text(s) => quoted(s),
        JsonView::Array(items) => "["@ + items_text(items) + "]"@,
        JsonView::Object(members) => "{"@ + members_text(members) + "}"@,
    }
}

/// The items of an array as text.
pub open spec fn items_text(items: Seq<JsonView>) -> Seq<char>
    decreases items,
{
    if items.len() == 0 {
        Seq::empty()
    } else if items.len() == 1 {
        json_text(items[0])
    } else {
        items_text(items.drop_last()) + ","@ + json_text(items.last())
    }
}

/// The members of an object as text.
pub open spec fn members_text(members: Seq<(Seq<char>, JsonView)>) -> Seq<char>
    decreases members,
{
    if members.len() == 0 {
        Seq::empty()
    } else if members.len() == 1 {
        quoted(members[0].0) + ":"@ + json_text(members[0].1)
    } else {
        members_text(members.drop_last()) + ","@ + quoted(members.last().0) + ":"@ + json_text(
            members.last().1,
        )
    }
}

impl Json {
    /// The value as text, without white space.
    pub fn to_text(&self) -> (r: String)
        ensures
            r@ == json_text(self@),
        decreases self,
    {
        match self {
            Json::Null => "null".to_owned(),
            Json::Bool(b) => if *b {
                "true".to_owned()
            } else {
                "false".to_owned()
            },
            Json::Number(JsonNumber::Unsigned(n)) => decimal_text(*n),
            Json::Number(JsonNumber::Signed(n)) => signed_text(*n),
            Json::Number(JsonNumber::Real(_, text)) => text.clone(),
            Json::Text(s) => quote(s.as_str()),
            Json::Array(items) => {
                let ghost all = self@->Array_0;
                let mut out = "[".to_owned();
                let mut i: usize = 0;
                proof {
                    assert("["@ + items_text(all.take(0)) =~= "["@);
                }
                while i < items.len()
                    invariant
                        i <= items.len(),
                        *self == Json::Array(*items),
                        all == self@->Array_0,
                        out@ == "["@ + items_text(all.take(i as int)),
                    decreases items.len() - i,
                {
                    proof {
                        item_is_smaller(*self, i as int);
                        let next = all.take(i + 1);
                        assert(next.drop_last() =~= all.take(i as int));
                        assert(next.last() == items@[i as int]@);
                        if i > 0 {
                            assert("["@ + items_text(next) =~= "["@ + items_text(
                                all.take(i as int),
                            ) + ","@ + json_text(next.last()));
                        } else {
                            assert(items_text(all.take(0)) =~= Seq::<char>::empty());
                            assert("["@ + items_text(all.take(0)) =~= "["@);
                        }
                    }
                    if i > 0 {
                        out.append(",");
                    }
                    out.append(items[i].to_text().as_str());
                    i = i + 1;
                }
                proof {
                    assert(all.take(i as int) =~= all);
                }
                out.append("]");
                out
            },
            Json::Object(members) => {
                let ghost all = self@->Object_0;
                let mut out = "{".to_owned();
                let mut i: usize = 0;
                proof {
                    assert("{"@ + members_text(all.take(0)) =~= "{"@);
                }
                while i < members.len()
                    invariant
                        i <= members.len(),
                        *self == Json::Object(*members),
                        all == self@->Object_0,
                        out@ == "{"@ + members_text(all.take(i as int)),
                    decreases members.len() - i,
                {
                    proof {
                        member_is_smaller(*self, i as int);
                        let next = all.take(i + 1);
                        assert(next.drop_last() =~= all.take(i as int));
                        assert(next.last() == (
                            members@[i as int].0@,
                            members@[i as int].1@,
                        ));
                        if i > 0 {
                            assert("{"@ + members_text(next) =~= "{"@ + members_text(
                                all.take(i as int),
                            ) + ","@ + quoted(next.last().0) + ":"@ + json_text(next.last().1));
                        } else {
                            assert("{"@ + members_text(all.take(0)) =~= "{"@);
                            assert("{"@ + members_text(next) =~= "{"@ + quoted(next[0].0) + ":"@
                                + json_text(next[0].1));
                        }
                    }
                    if i > 0 {
                        out.append(",");
                    }
                    out.append(quote(members[i].0.as_str()).as_str());
                    out.append(":");
                    out.append(members[i].1.to_text().as_str());
                    i = i + 1;
                }
                proof {
                    assert(all.take(i as int) =~= all);
                }
                out.append("}");
                out
            },
        }
    }
}

/// The models of a list of members.
pub open spec fn members_view(members: Seq<(String, Json)>) -> Seq<(Seq<char>, JsonView)> {
    Seq::new(members.len(), |i: int| (members[i].0@, members[i].1@))
}

/// A text, or nothing, as a JSON value.
pub open spec fn text_or_null(s: Option<Seq<char>>) -> JsonView {
    match s {
        Some(s) => JsonView::Text(s),
        None => JsonView::Null,
    }
}

/// A text, or nothing, as a JSON value.
pub fn optional_text(s: &Option<String>) -> (r: Json)
    ensures
        r@ == text_or_null(option_view(*s)),
{
    match s {
        Some(s) => Json::Text(s.clone()),
        None => Json::Null,
    }
}

/// A JSON value, or null where there is none.
pub open spec fn value_or_null(v: Option<JsonView>) -> JsonView {
    match v {
        Some(v) => v,
        None => JsonView::Null,
    }
}

/// A JSON value, or null where there is none.
pub fn optional_value(v: &Option<Json>) -> (r: Json)
    ensures
        r@ == value_or_null(option_json(*v)),
{
    match v {
        Some(v) => v.duplicate(),
        None => Json::Null,
    }
}

/// Adds a member at the end.
pub fn add_member(members: &mut Vec<(String, Json)>, key: &str, value: Json)
    ensures
        members_view(final(members)@) == members_view(old(members)@).push((key@, value@)),
{
    let ghost before = members_view(members@);
    let ghost v = value@;
    members.push((key.to_owned(), value));
    proof {
        assert(members_view(members@) =~= before.push((key@, v)));
    }
}

/// Adds a text at the end.
pub fn add_text(members: &mut Vec<(String, Json)>, key: &str, value: &str)
    ensures
        members_view(final(members)@) == members_view(old(members)@).push(
            (key@, JsonView::Text(value@)),
        ),
{
    add_member(members, key, Json::Text(value.to_owned()));
}

/// The object with the members `members`.
pub fn object_of(members: Vec<(String, Json)>) -> (r: Json)
    ensures
        r@ == JsonView::Object(members_view(members@)),
{
    let ghost m = members@;
    let r = Json::Object(members);
    proof {
        assert(r@->Object_0 =~= members_view(m));
    }
    r
}

/// `members`, in the order of their keys, with `value` under `key`.
pub open spec fn with_member(
    members: Seq<(Seq<char>, JsonView)>,
    key: Seq<char>,
    value: JsonView,
) -> Seq<(Seq<char>, JsonView)>
    decreases members.len(),
{
    if members.len() == 0 {
        seq![(key, value)]
    } else if members[0].0 == key {
        members.update(0, (key, value))
    } else if text_le(members[0].0, key) {
        seq![members[0]] + with_member(members.drop_first(), key, value)
    } else {
        seq![(key, value)] + members
    }
}

/// What was put under a key is found there, and what is under other keys stays.
pub proof fn put_members_are_found(
    members: Seq<(Seq<char>, JsonView)>,
    key: Seq<char>,
    value: JsonView,
    other: Seq<char>,
)
    ensures
        member_value(with_member(members, key, value), other) == (if other == key {
            Some(value)
        } else {
            member_value(members, other)
        }),
    decreases members.len(),
{
    let after = with_member(members, key, value);
    if members.len() == 0 {
        assert(after.drop_first() =~= members);
    } else if members[0].0 == key {
        assert(after.drop_first() =~= members.drop_first());
    } else if text_le(members[0].0, key) {
        put_members_are_found(members.drop_first(), key, value, other);
        assert(after.drop_first() =~= with_member(members.drop_first(), key, value));
    } else {
        assert(after.drop_first() =~= members);
    }
}

/// Puts `value` under `key` into a list of members that is in the order of their keys.
pub fn put_member(members: &mut Vec<(String, Json)>, key: String, value: Json)
    ensures
        members_view(final(members)@) == with_member(members_view(old(members)@), key@, value@),
{
    let ghost before = members_view(members@);
    let ghost k = key@;
    let ghost v = value@;
    let mut i: usize = 0;
    proof {
        assert(before.skip(0) =~= before);
        assert(before.take(0) + with_member(before.skip(0), k, v) =~= with_member(before, k, v));
    }
    while i < members.len()
        invariant
            i <= members.len(),
            k == key@,
            v == value@,
            before == members_view(members@),
            before == members_view(old(members)@),
            with_member(before, k, v) == before.take(i as int) + with_member(
                before.skip(i as int),
                k,
                v,
            ),
        decreases members.len() - i,
    {
        proof {
            assert(before.skip(i as int).drop_first() =~= before.skip(i + 1));
            assert(before.skip(i as int)[0] == before[i as int]);
        }
        if text_eq(members[i].0.as_str(), key.as_str()) {
            members.set(i, (key, value));
            proof {
                assert(members_view(members@) =~= before.take(i as int) + before.skip(
                    i as int,
                ).update(0, (k, v)));
            }
            return;
        }
        if !text_at_most(members[i].0.as_str(), key.as_str()) {
            members.insert(i, (key, value));
            proof {
                assert(members_view(members@) =~= before.take(i as int) + (seq![(k, v)]
                    + before.skip(i as int)));
            }
            return;
        }
        proof {
            assert(before.take(i as int) + (seq![before[i as int]] + with_member(
                before.skip(i + 1),
                k,
                v,
            )) =~= before.take(i + 1) + with_member(before.skip(i + 1), k, v));
        }
        i = i + 1;
    }
    members.push((key, value));
    proof {
        assert(members_view(members@) =~= before.take(i as int) + seq![(k, v)]);
    }
}

/// `members` in the order of their keys; of several under one key, the last stays.
pub open spec fn in_key_order(members: Seq<(Seq<char>, JsonView)>) -> Seq<(Seq<char>, JsonView)>
    decreases members.len(),
{
    if members.len() == 0 {
        Seq::empty()
    } else {
        with_member(in_key_order(members.drop_last()), members.last().0, members.last().1)
    }
}

/// A copy of `members` in the order of their keys; of several under one key, the last stays.
pub fn order_by_key(members: &Vec<(String, Json)>) -> (r: Vec<(String, Json)>)
    ensures
        members_view(r@) == in_key_order(members_view(members@)),
{
    let ghost all = members_view(members@);
    let mut out: Vec<(String, Json)> = Vec::new();
    let mut i: usize = 0;
    proof {
        assert(members_view(out@) =~= in_key_order(all.take(0)));
    }
    while i < members.len()
        invariant
            i <= members.len(),
            all == members_view(members@),
            members_view(out@) == in_key_order(all.take(i as int)),
        decreases members.len() - i,
    {
        proof {
            assert(all.take(i + 1).drop_last() =~= all.take(i as int));
        }
        put_member(&mut out, members[i].0.clone(), members[i].1.duplicate());
        i = i + 1;
    }
    proof {
        assert(all.take(i as int) =~= all);
    }
    out
}

/// Whether the members stand in the order of their keys, each key once.
pub open spec fn key_ordered(members: Seq<(Seq<char>, JsonView)>) -> bool {
    forall|i: int, j: int|
        0 <= i < j < members.len() ==> (#[trigger] members[i]).0 != (#[trigger] members[j]).0
            && text_le(members[i].0, members[j].0)
}

/// Whether `key` is the key of a member.
pub open spec fn has_key(members: Seq<(Seq<char>, JsonView)>, key: Seq<char>) -> bool {
    exists|i: int| 0 <= i < members.len() && (#[trigger] members[i]).0 == key
}

proof fn with_member_keeps_order(
    members: Seq<(Seq<char>, JsonView)>,
    key: Seq<char>,
    value: JsonView,
)
    requires
        key_ordered(members),
    ensures
        key_ordered(with_member(members, key, value)),
        forall|i: int|
            0 <= i < with_member(members, key, value).len() ==> (#[trigger] with_member(
                members,
                key,
                value,
            )[i]).0 == key || has_key(members, with_member(members, key, value)[i].0),
    decreases members.len(),
{
    let r = with_member(members, key, value);
    if members.len() == 0 {
    } else if members[0].0 == key {
        assert forall|i: int| 0 <= i < r.len() implies (#[trigger] r[i]).0 == key || has_key(
            members,
            r[i].0,
        ) by {
            assert(members[i].0 == r[i].0);
        }
    } else if text_le(members[0].0, key) {
        let rest = members.drop_first();
        assert forall|i: int, j: int| 0 <= i < j < rest.len() implies (#[trigger] rest[i]).0 != (
        #[trigger] rest[j]).0 && text_le(rest[i].0, rest[j].0) by {
            assert(rest[i] == members[i + 1]);
            assert(rest[j] == members[j + 1]);
        }
        with_member_keeps_order(rest, key, value);
        let tail = with_member(rest, key, value);
        assert forall|i: int| 0 <= i < r.len() implies (#[trigger] r[i]).0 == key || has_key(
            members,
            r[i].0,
        ) by {
            if i == 0 {
                assert(members[0].0 == r[0].0);
            } else {
                assert(r[i] == tail[i - 1]);
                if r[i].0 != key {
                    let k = choose|k: int| 0 <= k < rest.len() && (#[trigger] rest[k]).0 == r[i].0;
                    assert(members[k + 1].0 == r[i].0);
                }
            }
        }
        assert forall|i: int, j: int| 0 <= i < j < r.len() implies (#[trigger] r[i]).0 != (
        #[trigger] r[j]).0 && text_le(r[i].0, r[j].0) by {
            assert(r[j] == tail[j - 1]);
            if i > 0 {
                assert(r[i] == tail[i - 1]);
            } else if r[j].0 != key {
                let k = choose|k: int| 0 <= k < rest.len() && (#[trigger] rest[k]).0 == r[j].0;
                assert(members[k + 1].0 == r[j].0);
            }
        }
    } else {
        text_le_total(members[0].0, key);
        assert forall|i: int| 0 <= i < r.len() implies (#[trigger] r[i]).0 == key || has_key(
            members,
            r[i].0,
        ) by {
            if i > 0 {
                assert(members[i - 1].0 == r[i].0);
            }
        }
        assert forall|i: int, j: int| 0 <= i < j < r.len() implies (#[trigger] r[i]).0 != (
        #[trigger] r[j]).0 && text_le(r[i].0, r[j].0) by {
            assert(r[j] == members[j - 1]);
            if i > 0 {
                assert(r[i] == members[i - 1]);
            } else if j > 1 {
                assert(members[0].0 != members[j - 1].0);
                text_le_transitive(key, members[0].0, members[j - 1].0);
                if key == members[j - 1].0 {
                    text_le_antisymmetric(members[0].0, key);
                }
            }
        }
    }
}

/// Members put in the order of their keys are in that order, each key once.
pub proof fn in_key_order_is_ordered(members: Seq<(Seq<char>, JsonView)>)
    ensures
        key_ordered(in_key_order(members)),
    decreases members.len(),
{
    if members.len() > 0 {
        in_key_order_is_ordered(members.drop_last());
        with_member_keeps_order(
            in_key_order(members.drop_last()),
            members.last().0,
            members.last().1,
        );
    }
}

proof fn with_greatest_member(
    members: Seq<(Seq<char>, JsonView)>,
    key: Seq<char>,
    value: JsonView,
)
    requires
        forall|i: int|
            0 <= i < members.len() ==> (#[trigger] members[i]).0 != key && text_le(
                members[i].0,
                key,
            ),
    ensures
        with_member(members, key, value) == members.push((key, value)),
    decreases members.len(),
{
    if members.len() > 0 {
        let rest = members.drop_first();
        assert(members[0].0 != key && text_le(members[0].0, key));
        assert forall|i: int| 0 <= i < rest.len() implies (#[trigger] rest[i]).0 != key && text_le(
            rest[i].0,
            key,
        ) by {
            assert(rest[i] == members[i + 1]);
        }
        with_greatest_member(rest, key, value);
    }
    assert(with_member(members, key, value) =~= members.push((key, value)));
}

/// Members that are in the order of their keys stay as they are when put in that order.
pub proof fn ordered_members_stay(members: Seq<(Seq<char>, JsonView)>)
    requires
        key_ordered(members),
    ensures
        in_key_order(members) == members,
    decreases members.len(),
{
    if members.len() > 0 {
        let rest = members.drop_last();
        assert forall|i: int, j: int| 0 <= i < j < rest.len() implies (#[trigger] rest[i]).0 != (
        #[trigger] rest[j]).0 && text_le(rest[i].0, rest[j].0) by {
            assert(rest[i] == members[i]);
            assert(rest[j] == members[j]);
        }
        ordered_members_stay(rest);
        assert forall|i: int| 0 <= i < rest.len() implies (#[trigger] rest[i]).0
            != members.last().0 && text_le(rest[i].0, members.last().0) by {
            assert(rest[i] == members[i]);
        }
        with_greatest_member(rest, members.last().0, members.last().1);
        assert(rest.push(members.last()) =~= members);
    } else {
        assert(members =~= Seq::<(Seq<char>, JsonView)>::empty());
    }
}

/// A member is put behind the others, under its key.
pub proof fn members_are_put_behind()
    ensures
        forall|m: &mut Vec<(String, Json)>, key: &str, value: Json, r: ()| #[trigger]
            call_ensures(add_member, (m, key, value), r) ==> {
                &&& members_view(final(m)@).len() == members_view(m@).len() + 1
                &&& members_view(final(m)@).last() == (key@, value@)
                &&& members_view(final(m)@).drop_last() == members_view(m@)
            },
        forall|m: &mut Vec<(String, Json)>, key: &str, value: &str, r: ()| #[trigger]
            call_ensures(add_text, (m, key, value), r) ==> {
                &&& members_view(final(m)@).len() == members_view(m@).len() + 1
                &&& members_view(final(m)@).last() == (key@, JsonView::Text(value@))
                &&& members_view(final(m)@).drop_last() == members_view(m@)
            },
{
    assert forall|a: Seq<(Seq<char>, JsonView)>, x: (Seq<char>, JsonView)| #[trigger]
        a.push(x).drop_last() == a by {
        assert(a.push(x).drop_last() =~= a);
    }
}

/// What is missing is null; whole numbers are read where they fit 64 signed bits.
pub proof fn values_are_read_as_they_are(v: JsonView, s: Seq<char>, n: u64)
    ensures
        text_or_null(None) is Null,
        text_or_null(Some(s)) == JsonView::Text(s),
        value_or_null(None) is Null,
        value_or_null(Some(v)) == v,
        v.as_text() is Some <==> v is Text,
        v is Text ==> v.as_text() == Some(v->Text_0),
        v.is_number() <==> v is Unsigned || v is Signed || v is Real,
        v is Signed ==> v.as_int() == Some(v->Signed_0),
        n <= 0x7fff_ffff_ffff_ffff ==> JsonView::Unsigned(n).as_int() is Some
            && JsonView::Unsigned(n).as_int()->Some_0 == n,
        n > 0x7fff_ffff_ffff_ffff ==> JsonView::Unsigned(n).as_int() is None,
        v is Real || v is Text || v is Bool || v is Null || v is Array || v is Object
            ==> v.as_int() is None,
{
}

} // verus!
