//! Identifiers: their text form, how they are made, and sets of them.
use rustc_hash::FxHashSet;
use vstd::prelude::*;
use vstd::string::StringExecFns;

use crate::text::{decimal_signed, digit, signed_text};

verus! {

/// The last `width` hexadecimal digits of `n`.
pub open spec fn hex_digits(n: nat, width: nat) -> Seq<char>
    decreases width,
{
    if width == 0 {
        Seq::empty()
    } else {
        hex_digits(n / 16, (width - 1) as nat).push(digit((n % 16) as int))
    }
}

/// The hyphenated lower-case form of a UUID: groups of 8, 4, 4, 4 and 12 hexadecimal digits.
pub open spec fn uuid_chars(id: u128) -> Seq<char> {
    let h = hex_digits(id as nat, 32);
    h.subrange(0, 8) + seq!['-'] + h.subrange(8, 12) + seq!['-'] + h.subrange(12, 16) + seq!['-']
        + h.subrange(16, 20) + seq!['-'] + h.subrange(20, 32)
}

/// `uuid::Uuid`'s `Display`: the hyphenated lower-case form.
#[verifier::external_body]
pub(crate) fn uuid_text(id: u128) -> (r: String)
    ensures
        r@ == uuid_chars(id),
{
    uuid::Uuid::from_u128(id).to_string()
}

/// `uuid::Uuid::new_v4`: a random identifier, of which nothing is claimed.
#[verifier::external_body]
pub(crate) fn random_uuid() -> (r: u128) {
    uuid::Uuid::new_v4().as_u128()
}

/// The version 5 UUID of a name in the OID namespace.
pub uninterp spec fn oid_uuid(name: Seq<u8>) -> u128;

/// `uuid::Uuid::new_v5` in the OID namespace, whose result is named.
#[verifier::external_body]
pub(crate) fn oid_uuid_of(name: &[u8]) -> (r: u128)
    ensures
        r == oid_uuid(name@),
{
    uuid::Uuid::new_v5(&uuid::Uuid::NAMESPACE_OID, name).as_u128()
}

#[verifier::external_type_specification]
#[verifier::external_body]
pub struct ExFxBuildHasher(rustc_hash::FxBuildHasher);

/// `rustc_hash::FxHashSet::default`: the empty set.
#[verifier::external_body]
pub(crate) fn id_set() -> (r: FxHashSet<u128>)
    ensures
        r@ == Set::<u128>::empty(),
{
    FxHashSet::default()
}

/// `rustc_hash::FxHashSet::insert`: adds `id`, and says whether it was new.
#[verifier::external_body]
pub(crate) fn id_set_insert(set: &mut FxHashSet<u128>, id: u128) -> (r: bool)
    ensures
        final(set)@ == old(set)@.insert(id),
        r == !old(set)@.contains(id),
{
    set.insert(id)
}

/// `rustc_hash::FxHashSet::contains`: whether `id` is in the set.
#[verifier::external_body]
pub(crate) fn id_set_holds(set: &FxHashSet<u128>, id: u128) -> (r: bool)
    ensures
        r == set@.contains(id),
{
    set.contains(&id)
}

/// The text under which a strategy event is filed, from which its identifier is derived.
pub open spec fn event_key(
    strategy_id: Seq<char>,
    session: Seq<char>,
    millis: int,
    kind: Seq<char>,
    title: Seq<char>,
    message: Seq<char>,
) -> Seq<char> {
    strategy_id + "::"@ + session + "::"@ + decimal_signed(millis) + "::"@ + kind + "::"@ + title
        + "::"@ + message
}

/// The identifier of a strategy event: the same event always gets the same one.
pub fn event_uuid(
    strategy_id: &str,
    session: &str,
    millis: i64,
    kind: &str,
    title: &str,
    message: &str,
) -> (r: u128)
    ensures
        r == oid_uuid(
            vstd::utf8::encode_utf8(
                event_key(strategy_id@, session@, millis as int, kind@, title@, message@),
            ),
        ),
{
    let mut key = strategy_id.to_owned();
    key.append("::");
    key.append(session);
    key.append("::");
    key.append(signed_text(millis).as_str());
    key.append("::");
    key.append(kind);
    key.append("::");
    key.append(title);
    key.append("::");
    key.append(message);
    oid_uuid_of(key.as_str().as_bytes())
}

/// An event is named after its strategy, its session, its time, its kind, its title and its text,
/// behind one another with colons between them.
pub proof fn events_are_named_after_what_they_tell(
    strategy_id: &str,
    session: &str,
    millis: i64,
    kind: &str,
    title: &str,
    message: &str,
    r: u128,
)
    requires
        call_ensures(event_uuid, (strategy_id, session, millis, kind, title, message), r),
    ensures
        r == oid_uuid(
            vstd::utf8::encode_utf8(
                strategy_id@ + "::"@ + session@ + "::"@ + decimal_signed(millis as int) + "::"@
                    + kind@ + "::"@ + title@ + "::"@ + message@,
            ),
        ),
{
}

proof fn hex_digits_width(n: nat, width: nat)
    ensures
        hex_digits(n, width).len() == width,
    decreases width,
{
    if width > 0 {
        hex_digits_width(n / 16, (width - 1) as nat);
    }
}

/// The text of an id has 36 characters, in groups of eight, four, four, four and twelve digits with
/// hyphens between them.
pub proof fn ids_are_written_in_groups(id: u128)
    ensures
        uuid_chars(id).len() == 36,
        uuid_chars(id)[8] == '-',
        uuid_chars(id)[13] == '-',
        uuid_chars(id)[18] == '-',
        uuid_chars(id)[23] == '-',
        uuid_chars(id)[35] == digit((id % 16) as int),
{
    hex_digits_width(id as nat, 32);
    hex_digits_width((id as nat) / 16, 31);
    let h = hex_digits(id as nat, 32);
    assert(h == hex_digits((id as nat) / 16, 31).push(digit(((id as nat) % 16) as int)));
    assert(h[31] == digit(((id as nat) % 16) as int));
    assert(uuid_chars(id)[35] == h[31]);
}

} // verus!
