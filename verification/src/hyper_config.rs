//! The definition of a sweep, and the choice of the runs that a process is asked for.
use vstd::prelude::*;
use vstd::string::StringExecFns;

use crate::hyperparameters::{
    DomainView, HYPERPARAMETER_VALUES_KEY, HyperParameterRunIter, HyperParameterSelection,
    SelectionView, all_filled, argument, argument_of, arguments_stand_behind_their_flags, copy_values,
    domains_view, run_of, seed_of, selection_fault, total_runs, values_view,
};
use crate::ids::{random_uuid, uuid_chars, uuid_text};
use crate::json::{
    as_real, in_key_order, member_value, members_view, option_json, put_member, put_members_are_found, text_at,
    text_of, with_member, Json, JsonNumber, JsonView,
};
use crate::text::{
    begins, first_chars, listed, list_holds, text_at_most, text_begins, text_eq, text_le,
    text_le_reflexive, text_le_total, text_le_transitive, text_take, trim, trimmed,
};

verus! {

/// A parameter of a sweep: the values that it runs through, listed or as a range of real numbers, and
/// the value that it has outside a sweep.
pub struct HyperParameter {
    pub key: String,
    pub values: Option<Vec<Json>>,
    pub min: Option<Json>,
    pub max: Option<Json>,
    pub increment: Option<Json>,
    pub fallback: Json,
}

/// The model of a parameter.
#[verifier::ext_equal]
pub struct ParameterView {
    pub key: Seq<char>,
    pub values: Option<Seq<JsonView>>,
    pub min: Option<JsonView>,
    pub max: Option<JsonView>,
    pub increment: Option<JsonView>,
    pub fallback: JsonView,
}

/// The view of an optional list of values.
pub open spec fn option_values(values: Option<Vec<Json>>) -> Option<Seq<JsonView>> {
    match values {
        Some(v) => Some(values_view(v@)),
        None => None,
    }
}

impl View for HyperParameter {
    type V = ParameterView;

    open spec fn view(&self) -> ParameterView {
        ParameterView {
            key: self.key@,
            values: option_values(self.values),
            min: option_json(self.min),
            max: option_json(self.max),
            increment: option_json(self.increment),
            fallback: self.fallback@,
        }
    }
}

/// The kind of a scalar value.
pub open spec fn kind_of(v: JsonView) -> Option<Seq<char>> {
    match v {
        JsonView::Unsigned(_) | JsonView::Signed(_) => Some("int"@),
        JsonView::Real(_, _) => Some("float"@),
        JsonView::Bool(_) => Some("bool"@),
        JsonView::Text(_) => Some("string"@),
        _ => None,
    }
}

/// The value that tells a parameter's kind: its first listed value, else its fallback.
pub open spec fn sample_of(p: ParameterView) -> JsonView {
    match p.values {
        Some(values) => if values.len() > 0 {
            values[0]
        } else {
            p.fallback
        },
        None => p.fallback,
    }
}

/// `members` with a value under `key`, where there is one.
pub open spec fn with_optional(
    members: Seq<(Seq<char>, JsonView)>,
    key: Seq<char>,
    value: Option<JsonView>,
) -> Seq<(Seq<char>, JsonView)> {
    match value {
        Some(v) => with_member(members, key, v),
        None => members,
    }
}

/// The parameter as a definition, or what is wrong with it.
pub open spec fn definition_of(p: ParameterView) -> Result<JsonView, Seq<char>> {
    if trimmed(p.key).len() == 0 {
        Err("hyperparameter key cannot be empty"@)
    } else {
        match kind_of(sample_of(p)) {
            None => Err("hyperparameter '"@ + p.key + "' needs a scalar fallback"@),
            Some(kind) => {
                let named = with_member(Seq::empty(), "name"@, JsonView::Text(p.key));
                let typed = with_member(named, "type"@, JsonView::Text(kind));
                let fallen = with_member(typed, "fallback"@, p.fallback);
                let listed = with_optional(
                    fallen,
                    "values"@,
                    match p.values {
                        Some(values) => Some(JsonView::Array(values)),
                        None => None,
                    },
                );
                let low = with_optional(listed, "min"@, p.min);
                let high = with_optional(low, "max"@, p.max);
                Ok(JsonView::Object(with_optional(high, "increment"@, p.increment)))
            },
        }
    }
}

/// Whether `r` is the definition, or reports what is wrong.
pub open spec fn is_definition(
    r: Result<Json, String>,
    expected: Result<JsonView, Seq<char>>,
) -> bool {
    match (r, expected) {
        (Ok(v), Ok(e)) => v@ == e,
        (Err(m), Err(e)) => m@ == e,
        _ => false,
    }
}

fn put_optional(members: &mut Vec<(String, Json)>, key: &str, value: &Option<Json>)
    ensures
        members_view(final(members)@) == with_optional(
            members_view(old(members)@),
            key@,
            option_json(*value),
        ),
{
    match value {
        Some(v) => put_member(members, key.to_owned(), v.duplicate()),
        None => {},
    }
}

impl HyperParameter {
    /// A parameter with neither values nor a range.
    pub fn new(key: String, fallback: Json) -> (r: HyperParameter)
        ensures
            r@ == (ParameterView {
                key: key@,
                values: None,
                min: None,
                max: None,
                increment: None,
                fallback: fallback@,
            }),
    {
        HyperParameter { key, values: None, min: None, max: None, increment: None, fallback }
    }

    /// The parameter with the values that it runs through.
    pub fn values(self, values: Vec<Json>) -> (r: HyperParameter)
        ensures
            r@ == (ParameterView { values: Some(values_view(values@)), ..self@ }),
    {
        HyperParameter {
            key: self.key,
            values: Some(values),
            min: self.min,
            max: self.max,
            increment: self.increment,
            fallback: self.fallback,
        }
    }

    /// The parameter with the range that it runs through.
    pub fn range(self, min: Json, max: Json, increment: Json) -> (r: HyperParameter)
        requires
            min@.is_number(),
            max@.is_number(),
            increment@.is_number(),
        ensures
            r@ == (ParameterView {
                min: Some(as_real(min@)),
                max: Some(as_real(max@)),
                increment: Some(as_real(increment@)),
                ..self@
            }),
            has_real_bounds(r@),
    {
        HyperParameter {
            key: self.key,
            values: self.values,
            min: Some(min.to_real()),
            max: Some(max.to_real()),
            increment: Some(increment.to_real()),
            fallback: self.fallback,
        }
    }

    /// The kind of the parameter's values.
    pub fn value_type(&self) -> (r: Result<&'static str, String>)
        ensures
            match (r, kind_of(sample_of(self@))) {
                (Ok(kind), Some(expected)) => kind@ == expected,
                (Err(e), None) => e@ == "hyperparameter '"@ + self.key@
                    + "' needs a scalar fallback"@,
                _ => false,
            },
    {
        let sample = match &self.values {
            Some(values) => if values.len() > 0 {
                &values[0]
            } else {
                &self.fallback
            },
            None => &self.fallback,
        };
        match sample {
            Json::Number(JsonNumber::Unsigned(_)) => Ok("int"),
            Json::Number(JsonNumber::Signed(_)) => Ok("int"),
            Json::Number(JsonNumber::Real(_, _)) => Ok("float"),
            Json::Bool(_) => Ok("bool"),
            Json::Text(_) => Ok("string"),
            _ => {
                let mut message = "hyperparameter '".to_owned();
                message.append(self.key.as_str());
                message.append("' needs a scalar fallback");
                Err(message)
            },
        }
    }

    /// The parameter as a definition.
    pub fn definition_json(&self) -> (r: Result<Json, String>)
        ensures
            is_definition(r, definition_of(self@)),
    {
        if trim(self.key.as_str()).as_str().is_empty() {
            return Err("hyperparameter key cannot be empty".to_owned());
        }
        let kind = match self.value_type() {
            Ok(kind) => kind,
            Err(e) => {
                return Err(e);
            },
        };
        let mut members: Vec<(String, Json)> = Vec::new();
        proof {
            assert(members_view(members@) =~= Seq::<(Seq<char>, JsonView)>::empty());
        }
        put_member(&mut members, "name".to_owned(), Json::Text(self.key.clone()));
        put_member(&mut members, "type".to_owned(), Json::Text(kind.to_owned()));
        put_member(&mut members, "fallback".to_owned(), self.fallback.duplicate());
        match &self.values {
            Some(values) => {
                let copied = Json::Array(copy_values(values));
                proof {
                    assert(copied@->Array_0 =~= values_view(values@));
                }
                put_member(&mut members, "values".to_owned(), copied);
            },
            None => {},
        }
        put_optional(&mut members, "min", &self.min);
        put_optional(&mut members, "max", &self.max);
        put_optional(&mut members, "increment", &self.increment);
        let ghost expected = members_view(members@);
        let object = Json::Object(members);
        proof {
            assert(object@->Object_0 =~= expected);
        }
        Ok(object)
    }
}

/// A sweep: what it varies, and what it belongs to.
pub struct HyperParameterConfig {
    pub sweep_id: String,
    pub strategy_fingerprint: String,
    pub source_targets: Json,
    pub definitions: Json,
}

/// Whether one of the definitions has the name `key`.
pub open spec fn is_registered(definitions: Seq<JsonView>, key: Seq<char>) -> bool {
    exists|i: int| 0 <= i < definitions.len() && text_at(#[trigger] definitions[i], "name"@) == Some(key)
}

/// The message for definitions that are no array.
pub open spec fn no_array() -> Seq<char> {
    "Hyperparameter definitions must be an array"@
}

/// The parameter that a definition describes, or what is wrong with it.
pub open spec fn parameter_of(definition: JsonView) -> Result<ParameterView, Seq<char>> {
    if !(definition is Object) {
        Err("Invalid hyperparameter definition"@)
    } else {
        match text_at(definition, "name"@) {
            None => Err("Hyperparameter name is missing"@),
            Some(key) => Ok(
                ParameterView {
                    key,
                    values: match definition.get("values"@) {
                        Some(JsonView::Array(values)) => Some(values),
                        _ => None,
                    },
                    min: real_at(definition, "min"@),
                    max: real_at(definition, "max"@),
                    increment: real_at(definition, "increment"@),
                    fallback: match definition.get("fallback"@) {
                        Some(v) => v,
                        None => JsonView::Null,
                    },
                },
            ),
        }
    }
}

/// The number under `key`, where there is one.
pub open spec fn number_at(v: JsonView, key: Seq<char>) -> Option<JsonView> {
    match v.get(key) {
        Some(n) => if n.is_number() {
            Some(n)
        } else {
            None
        },
        None => None,
    }
}

fn number_of_key(v: &Json, key: &str) -> (r: Option<Json>)
    ensures
        option_json(r) == number_at(v@, key@),
{
    match v.get(key) {
        Some(n) => if n.is_number() {
            Some(n.duplicate())
        } else {
            None
        },
        None => None,
    }
}

/// The number under `key` as a real one, where there is one.
pub open spec fn real_at(v: JsonView, key: Seq<char>) -> Option<JsonView> {
    match number_at(v, key) {
        Some(n) => Some(as_real(n)),
        None => None,
    }
}

fn real_of_key(v: &Json, key: &str) -> (r: Option<Json>)
    ensures
        option_json(r) == real_at(v@, key@),
{
    match number_of_key(v, key) {
        Some(n) => Some(n.to_real()),
        None => None,
    }
}

/// The parameters that a list of definitions describes, or what is wrong with the first bad one.
pub open spec fn parameters_of(definitions: Seq<JsonView>) -> Result<Seq<ParameterView>, Seq<char>>
    decreases definitions.len(),
{
    if definitions.len() == 0 {
        Ok(Seq::empty())
    } else {
        match parameters_of(definitions.drop_last()) {
            Err(e) => Err(e),
            Ok(rest) => match parameter_of(definitions.last()) {
                Err(e) => Err(e),
                Ok(p) => Ok(rest.push(p)),
            },
        }
    }
}

/// Whether the bounds of a parameter are reals.
pub open spec fn has_real_bounds(p: ParameterView) -> bool {
    &&& p.min matches Some(v) ==> v is Real
    &&& p.max matches Some(v) ==> v is Real
    &&& p.increment matches Some(v) ==> v is Real
}

proof fn optional_members_are_found(
    members: Seq<(Seq<char>, JsonView)>,
    key: Seq<char>,
    value: Option<JsonView>,
    other: Seq<char>,
)
    ensures
        member_value(with_optional(members, key, value), other) == (if other == key
            && value is Some {
            value
        } else {
            member_value(members, other)
        }),
{
    if let Some(v) = value {
        put_members_are_found(members, key, v, other);
    }
}

proof fn definition_holds(p: ParameterView, key: Seq<char>)
    requires
        definition_of(p) is Ok,
    ensures
        definition_of(p)->Ok_0 is Object,
        key == "name"@ ==> definition_of(p)->Ok_0.get(key) == Some(JsonView::Text(p.key)),
        key == "fallback"@ ==> definition_of(p)->Ok_0.get(key) == Some(p.fallback),
        key == "values"@ ==> definition_of(p)->Ok_0.get(key) == (match p.values {
            Some(values) => Some(JsonView::Array(values)),
            None => None,
        }),
        key == "min"@ ==> definition_of(p)->Ok_0.get(key) == p.min,
        key == "max"@ ==> definition_of(p)->Ok_0.get(key) == p.max,
        key == "increment"@ ==> definition_of(p)->Ok_0.get(key) == p.increment,
        key == "type"@ ==> definition_of(p)->Ok_0.get(key) == Some(
            JsonView::Text(kind_of(sample_of(p))->Some_0),
        ),
        key == "valueType"@ ==> definition_of(p)->Ok_0.get(key) is None,
{
    reveal_strlit("valueType");
    reveal_strlit("name");
    reveal_strlit("type");
    reveal_strlit("fallback");
    reveal_strlit("values");
    reveal_strlit("min");
    reveal_strlit("max");
    reveal_strlit("increment");
    assert("name"@[0] == 'n' && "type"@[0] == 't');
    assert("min"@[1] == 'i' && "max"@[1] == 'a');
    assert("values"@.len() == 6 && "valueType"@.len() == 9);
    assert("increment"@.len() == 9 && "increment"@[0] == 'i' && "valueType"@[0] == 'v');
    let kind = kind_of(sample_of(p))->Some_0;
    let listed = match p.values {
        Some(values) => Some(JsonView::Array(values)),
        None => None,
    };
    let none = Seq::<(Seq<char>, JsonView)>::empty();
    let named = with_member(none, "name"@, JsonView::Text(p.key));
    let typed = with_member(named, "type"@, JsonView::Text(kind));
    let fallen = with_member(typed, "fallback"@, p.fallback);
    let with_values = with_optional(fallen, "values"@, listed);
    let low = with_optional(with_values, "min"@, p.min);
    let high = with_optional(low, "max"@, p.max);
    put_members_are_found(none, "name"@, JsonView::Text(p.key), key);
    put_members_are_found(named, "type"@, JsonView::Text(kind), key);
    put_members_are_found(typed, "fallback"@, p.fallback, key);
    optional_members_are_found(fallen, "values"@, listed, key);
    optional_members_are_found(with_values, "min"@, p.min, key);
    optional_members_are_found(low, "max"@, p.max, key);
    optional_members_are_found(high, "increment"@, p.increment, key);
}

/// A parameter that was taken in comes back as it is, behind those that were taken in before.
pub proof fn parameters_come_back(definitions: Seq<JsonView>, p: ParameterView)
    requires
        definition_of(p) is Ok,
        has_real_bounds(p),
    ensures
        parameter_of(definition_of(p)->Ok_0) == Ok::<ParameterView, Seq<char>>(p),
        parameters_of(definitions) matches Ok(before) ==> parameters_of(
            definitions.push(definition_of(p)->Ok_0),
        ) == Ok::<Seq<ParameterView>, Seq<char>>(before.push(p)),
{
    definition_holds(p, "name"@);
    definition_holds(p, "fallback"@);
    definition_holds(p, "values"@);
    definition_holds(p, "min"@);
    definition_holds(p, "max"@);
    definition_holds(p, "increment"@);
    assert(definitions.push(definition_of(p)->Ok_0).drop_last() =~= definitions);
}

/// What a definition asks for where it lists no values: a range of whole or real numbers, for
/// which the bounds that it names are handed over.
pub struct RangeRequest {
    pub whole: bool,
    pub min: Option<Json>,
    pub max: Option<Json>,
    pub increment: Option<Json>,
}

/// The model of a range request.
#[verifier::ext_equal]
pub struct RangeView {
    pub whole: bool,
    pub min: Option<JsonView>,
    pub max: Option<JsonView>,
    pub increment: Option<JsonView>,
}

impl View for RangeRequest {
    type V = RangeView;

    open spec fn view(&self) -> RangeView {
        RangeView {
            whole: self.whole,
            min: option_json(self.min),
            max: option_json(self.max),
            increment: option_json(self.increment),
        }
    }
}

/// The kind that a definition names; numbers are real unless it says otherwise.
pub open spec fn named_kind(definition: JsonView) -> Seq<char> {
    let named = match definition.get("valueType"@) {
        Some(v) => Some(v),
        None => definition.get("type"@),
    };
    match named {
        Some(JsonView::Text(kind)) => kind,
        _ => "float"@,
    }
}

/// The values that a definition lists.
pub open spec fn listed_values(definition: JsonView) -> Seq<JsonView> {
    match definition.get("values"@) {
        Some(JsonView::Array(values)) => values,
        _ => Seq::empty(),
    }
}

/// The range that a definition asks for: none where it lists values, or where its kind has none.
pub open spec fn range_of(definition: JsonView) -> Option<RangeView> {
    let kind = named_kind(definition);
    if listed_values(definition).len() > 0 || (kind != "int"@ && kind != "float"@) {
        None
    } else {
        Some(
            RangeView {
                whole: kind == "int"@,
                min: real_at(definition, "min"@),
                max: real_at(definition, "max"@),
                increment: real_at(definition, "increment"@),
            },
        )
    }
}

fn kind_named(definition: &Json) -> (r: String)
    ensures
        r@ == named_kind(definition@),
{
    let named = match definition.get("valueType") {
        Some(v) => Some(v),
        None => definition.get("type"),
    };
    match named {
        Some(Json::Text(kind)) => kind.clone(),
        _ => "float".to_owned(),
    }
}

fn has_listed_values(definition: &Json) -> (r: bool)
    ensures
        r == (listed_values(definition@).len() > 0),
{
    match definition.get("values") {
        Some(Json::Array(values)) => values.len() > 0,
        _ => false,
    }
}

/// The range that a definition asks for.
pub fn range_request(definition: &Json) -> (r: Option<RangeRequest>)
    ensures
        match (r, range_of(definition@)) {
            (Some(range), Some(expected)) => range@ == expected,
            (None, None) => true,
            _ => false,
        },
{
    let kind = kind_named(definition);
    let whole = text_eq(kind.as_str(), "int");
    if has_listed_values(definition) || (!whole && !text_eq(kind.as_str(), "float")) {
        return None;
    }
    Some(
        RangeRequest {
            whole,
            min: real_of_key(definition, "min"),
            max: real_of_key(definition, "max"),
            increment: real_of_key(definition, "increment"),
        },
    )
}

/// The values that the range at `i` was expanded to; none where the list is too short.
pub open spec fn range_values(ranges: Seq<Vec<Json>>, i: int) -> Seq<JsonView> {
    if 0 <= i < ranges.len() {
        values_view(ranges[i]@)
    } else {
        Seq::empty()
    }
}

/// What a definition varies, given the values of its range, or what is wrong with it.
pub open spec fn domain_of(definition: JsonView, range: Seq<JsonView>) -> Result<
    DomainView,
    Seq<char>,
> {
    if !(definition is Object) {
        Err("Invalid hyperparameter definition"@)
    } else {
        match text_at(definition, "name"@) {
            None => Err("Hyperparameter name is missing"@),
            Some(name) => {
                let values = if listed_values(definition).len() > 0 {
                    listed_values(definition)
                } else if range_of(definition) is Some {
                    range
                } else {
                    Seq::empty()
                };
                if values.len() == 0 {
                    Err("Hyperparameter '"@ + name + "' has no values"@)
                } else {
                    Ok((name, values))
                }
            },
        }
    }
}

/// What a list of definitions varies, in their order, or what is wrong with the first bad one.
pub open spec fn domains_in_order(
    definitions: Seq<JsonView>,
    ranges: Seq<Vec<Json>>,
) -> Result<Seq<DomainView>, Seq<char>>
    decreases definitions.len(),
{
    if definitions.len() == 0 {
        Ok(Seq::empty())
    } else {
        match domains_in_order(definitions.drop_last(), ranges) {
            Err(e) => Err(e),
            Ok(rest) => match domain_of(
                definitions.last(),
                range_values(ranges, definitions.len() - 1),
            ) {
                Err(e) => Err(e),
                Ok(domain) => Ok(rest.push(domain)),
            },
        }
    }
}

/// `domain` put behind those whose names come no later.
pub open spec fn with_domain(domains: Seq<DomainView>, domain: DomainView) -> Seq<DomainView>
    decreases domains.len(),
{
    if domains.len() == 0 {
        seq![domain]
    } else if text_le(domains[0].0, domain.0) {
        seq![domains[0]] + with_domain(domains.drop_first(), domain)
    } else {
        seq![domain] + domains
    }
}

/// Domains in the order of their names.
pub open spec fn by_name(domains: Seq<DomainView>) -> Seq<DomainView>
    decreases domains.len(),
{
    if domains.len() == 0 {
        Seq::empty()
    } else {
        with_domain(by_name(domains.drop_last()), domains.last())
    }
}

/// What a sweep varies, in the order of the names, or what is wrong with its definitions.
pub open spec fn sweep_domains(definitions: JsonView, ranges: Seq<Vec<Json>>) -> Result<
    Seq<DomainView>,
    Seq<char>,
> {
    match definitions {
        JsonView::Array(items) => match domains_in_order(items, ranges) {
            Ok(domains) => Ok(by_name(domains)),
            Err(e) => Err(e),
        },
        _ => Err(no_array()),
    }
}

fn insert_domain(domains: &mut Vec<(String, Vec<Json>)>, name: String, values: Vec<Json>)
    ensures
        domains_view(final(domains)@) == with_domain(
            domains_view(old(domains)@),
            (name@, values_view(values@)),
        ),
{
    let ghost before = domains_view(domains@);
    let ghost domain = (name@, values_view(values@));
    let mut i: usize = 0;
    proof {
        assert(before.skip(0) =~= before);
        assert(before.take(0) + with_domain(before.skip(0), domain) =~= with_domain(
            before,
            domain,
        ));
    }
    while i < domains.len()
        invariant
            i <= domains.len(),
            domain == (name@, values_view(values@)),
            before == domains_view(domains@),
            before == domains_view(old(domains)@),
            with_domain(before, domain) == before.take(i as int) + with_domain(
                before.skip(i as int),
                domain,
            ),
        decreases domains.len() - i,
    {
        proof {
            assert(before.skip(i as int).drop_first() =~= before.skip(i + 1));
            assert(before.skip(i as int)[0] == before[i as int]);
        }
        if !text_at_most(domains[i].0.as_str(), name.as_str()) {
            domains.insert(i, (name, values));
            proof {
                assert(domains_view(domains@) =~= before.take(i as int) + (seq![domain]
                    + before.skip(i as int)));
            }
            return;
        }
        proof {
            assert(before.take(i as int) + (seq![before[i as int]] + with_domain(
                before.skip(i + 1),
                domain,
            )) =~= before.take(i + 1) + with_domain(before.skip(i + 1), domain));
        }
        i = i + 1;
    }
    domains.push((name, values));
    proof {
        assert(domains_view(domains@) =~= before.take(i as int) + seq![domain]);
    }
}

proof fn with_domain_keeps_filled(domains: Seq<DomainView>, domain: DomainView)
    requires
        all_filled(domains),
        domain.1.len() > 0,
    ensures
        all_filled(with_domain(domains, domain)),
        with_domain(domains, domain).len() == domains.len() + 1,
    decreases domains.len(),
{
    if domains.len() > 0 {
        assert(domains[0].1.len() > 0);
        let rest = domains.drop_first();
        assert forall|i: int| 0 <= i < rest.len() implies (#[trigger] rest[i]).1.len() > 0 by {
            assert(rest[i] == domains[i + 1]);
        }
        with_domain_keeps_filled(rest, domain);
        let r = with_domain(domains, domain);
        assert forall|i: int| 0 <= i < r.len() implies (#[trigger] r[i]).1.len() > 0 by {
            if text_le(domains[0].0, domain.0) {
                if i > 0 {
                    assert(r[i] == with_domain(rest, domain)[i - 1]);
                }
            } else if i > 0 {
                assert(r[i] == domains[i - 1]);
            }
        }
    }
}

/// The first run at or behind `from` whose seed starts with `prefix`.
pub open spec fn next_match(domains: Seq<DomainView>, prefix: Seq<char>, from: int) -> Option<int>
    decreases total_runs(domains) - from,
{
    if from < 0 || from >= total_runs(domains) {
        None
    } else if begins(run_of(domains, from).seed, prefix) {
        Some(from)
    } else {
        next_match(domains, prefix, from + 1)
    }
}

/// The message for a prefix that more than one seed starts with.
pub open spec fn ambiguous(prefix: Seq<char>, one: Seq<char>, other: Seq<char>) -> Seq<char> {
    "Ambiguous hyperparameter seed prefix '"@ + prefix + "' (matches "@ + first_chars(one, 12)
        + " and "@ + first_chars(other, 12) + "); provide more characters"@
}

/// The run that a seed prefix names, or why it names none.
pub open spec fn resolved(domains: Seq<DomainView>, prefix: Seq<char>) -> Result<
    SelectionView,
    Seq<char>,
> {
    match next_match(domains, prefix, 0) {
        None => Err("Unknown hyperparameter seed or prefix: "@ + prefix),
        Some(one) => match next_match(domains, prefix, one + 1) {
            None => Ok(run_of(domains, one)),
            Some(other) => Err(
                ambiguous(prefix, run_of(domains, one).seed, run_of(domains, other).seed),
            ),
        },
    }
}

/// The run that the arguments ask for: the one of a payload whose seed belongs to its values, else
/// the one that `--hyper-seed` names, else none.
pub open spec fn selected(
    payload: Option<SelectionView>,
    args: Seq<String>,
    definitions: JsonView,
    ranges: Seq<Vec<Json>>,
) -> Result<Option<SelectionView>, Seq<char>> {
    match payload {
        Some(selection) => match selection_fault(selection) {
            Some(e) => Err(e),
            None => Ok(Some(selection)),
        },
        None => match argument(args, "--hyper-seed"@, 0) {
            None => Ok(None),
            Some(given) => {
                let prefix = trimmed(given);
                if prefix.len() == 0 {
                    Err("Hyperparameter seed prefix cannot be empty"@)
                } else {
                    match sweep_domains(definitions, ranges) {
                        Err(e) => Err(e),
                        Ok(domains) => match resolved(domains, prefix) {
                            Ok(selection) => Ok(Some(selection)),
                            Err(e) => Err(e),
                        },
                    }
                }
            },
        },
    }
}

/// The view of an optional selection.
pub open spec fn option_selection(s: Option<HyperParameterSelection>) -> Option<SelectionView> {
    match s {
        Some(selection) => Some(selection@),
        None => None,
    }
}

fn advance_to_match(
    runs: &mut HyperParameterRunIter,
    prefix: &str,
) -> (r: Option<HyperParameterSelection>)
    requires
        old(runs).wf(),
        0 <= old(runs).position() <= total_runs(old(runs).domains_of()),
    ensures
        final(runs).wf(),
        final(runs).domains_of() == old(runs).domains_of(),
        match next_match(old(runs).domains_of(), prefix@, old(runs).position()) {
            Some(at) => r matches Some(run) && run@ == run_of(old(runs).domains_of(), at)
                && final(runs).position() == at + 1 && at < total_runs(old(runs).domains_of()),
            None => r is None,
        },
        0 <= final(runs).position() <= total_runs(final(runs).domains_of()),
{
    let ghost domains = runs.domains_of();
    loop
        invariant
            runs.wf(),
            runs.domains_of() == domains,
            domains == old(runs).domains_of(),
            0 <= runs.position() <= total_runs(domains),
            next_match(domains, prefix@, old(runs).position()) == next_match(
                domains,
                prefix@,
                runs.position(),
            ),
        decreases total_runs(domains) - runs.position(),
    {
        match runs.next() {
            None => {
                return None;
            },
            Some(run) => {
                if text_begins(run.seed.as_str(), prefix) {
                    return Some(run);
                }
            },
        }
    }
}

/// The runs that a process works through, one after the other: a whole sweep, or a single one,
/// which may be a run without a selection.
pub enum ProcessRuns {
    Sweep(HyperParameterRunIter),
    Single(Option<Option<HyperParameterSelection>>),
}

impl ProcessRuns {
    /// The next run, or `None` behind the last one.
    pub fn next(&mut self) -> (r: Option<Option<HyperParameterSelection>>)
        requires
            *old(self) matches ProcessRuns::Sweep(runs) ==> runs.wf(),
        ensures
            match (*old(self), *final(self)) {
                (ProcessRuns::Sweep(before), ProcessRuns::Sweep(after)) => after.wf()
                    && after.domains_of() == before.domains_of() && if before.position()
                    < total_runs(before.domains_of()) {
                    after.position() == before.position() + 1 && (r matches Some(Some(run)) && run@
                        == run_of(before.domains_of(), before.position()))
                } else {
                    r is None && after.position() == before.position()
                },
                (ProcessRuns::Single(before), ProcessRuns::Single(after)) => r == before
                    && after is None,
                _ => false,
            },
    {
        match self {
            ProcessRuns::Sweep(runs) => match runs.next() {
                Some(run) => Some(Some(run)),
                None => None,
            },
            ProcessRuns::Single(run) => run.take(),
        }
    }
}

impl HyperParameterConfig {
    /// A sweep that varies nothing.
    pub fn new() -> (r: HyperParameterConfig)
        ensures
            r.sweep_id@.len() == 0,
            r.strategy_fingerprint@.len() == 0,
            r.source_targets@ == JsonView::Null,
            r.definitions@ == JsonView::Array(Seq::empty()),
    {
        let definitions = Json::Array(Vec::new());
        proof {
            assert(definitions@->Array_0 =~= Seq::<JsonView>::empty());
        }
        HyperParameterConfig {
            sweep_id: String::new(),
            strategy_fingerprint: String::new(),
            source_targets: Json::Null,
            definitions,
        }
    }

    /// Sets the id of the sweep.
    pub fn set_sweep_id(&mut self, sweep_id: String)
        ensures
            *final(self) == (HyperParameterConfig { sweep_id, ..*old(self) }),
    {
        self.sweep_id = sweep_id;
    }

    /// Sets the fingerprint of the strategy.
    pub fn set_strategy_fingerprint(&mut self, fingerprint: String)
        ensures
            *final(self) == (HyperParameterConfig {
                strategy_fingerprint: fingerprint,
                ..*old(self)
            }),
    {
        self.strategy_fingerprint = fingerprint;
    }

    /// Sets the places in the strategy's source that the parameters go to.
    pub fn set_source_targets(&mut self, source_targets: Json)
        ensures
            *final(self) == (HyperParameterConfig { source_targets, ..*old(self) }),
    {
        self.source_targets = source_targets;
    }

    /// Registers a parameter, under a name that is not yet taken.
    pub fn add_hyper_parameter(&mut self, parameter: &HyperParameter) -> (r: Result<(), String>)
        ensures
            final(self).sweep_id == old(self).sweep_id,
            final(self).strategy_fingerprint == old(self).strategy_fingerprint,
            final(self).source_targets == old(self).source_targets,
            match definition_of(parameter@) {
                Err(e) => (r matches Err(m) && m@ == e) && *final(self) == *old(self),
                Ok(definition) => match old(self).definitions@ {
                    JsonView::Array(items) => if is_registered(items, parameter.key@) {
                        (r matches Err(m) && m@ == "hyperparameter '"@ + parameter.key@
                            + "' is already registered"@) && *final(self) == *old(self)
                    } else {
                        r is Ok && final(self).definitions@ == JsonView::Array(
                            items.push(definition),
                        )
                    },
                    _ => (r matches Err(m) && m@ == no_array()) && *final(self) == *old(self),
                },
            },
    {
        let definition = match parameter.definition_json() {
            Ok(definition) => definition,
            Err(e) => {
                return Err(e);
            },
        };
        let ghost added = definition@;
        let ghost before = self.definitions@;
        match &self.definitions {
            Json::Array(items) => {
                let mut i: usize = 0;
                while i < items.len()
                    invariant
                        i <= items.len(),
                        *self == *old(self),
                        self.definitions == Json::Array(*items),
                        before == self.definitions@,
                        before is Array,
                        definition_of(parameter@) == Result::<JsonView, Seq<char>>::Ok(added),
                        forall|k: int|
                            0 <= k < i ==> text_at(#[trigger] before->Array_0[k], "name"@) != Some(
                                parameter.key@,
                            ),
                    decreases items.len() - i,
                {
                    proof {
                        assert(before->Array_0[i as int] == items@[i as int]@);
                    }
                    match text_of(&items[i], "name") {
                        Some(name) => {
                            if text_eq(name.as_str(), parameter.key.as_str()) {
                                let mut message = "hyperparameter '".to_owned();
                                message.append(parameter.key.as_str());
                                message.append("' is already registered");
                                proof {
                                    assert(is_registered(before->Array_0, parameter.key@));
                                }
                                return Err(message);
                            }
                        },
                        None => {},
                    }
                    i = i + 1;
                }
            },
            _ => {
                return Err("Hyperparameter definitions must be an array".to_owned());
            },
        }
        match &mut self.definitions {
            Json::Array(items) => {
                items.push(definition);
            },
            _ => {},
        }
        proof {
            assert(self.definitions@->Array_0 =~= before->Array_0.push(added));
        }
        Ok(())
    }

    /// The registered parameters.
    pub fn get_hyperparameters(&self) -> (r: Result<Vec<HyperParameter>, String>)
        ensures
            match self.definitions@ {
                JsonView::Array(items) => match (r, parameters_of(items)) {
                    (Ok(parameters), Ok(expected)) => parameters@.map_values(
                        |p: HyperParameter| p@,
                    ) == expected,
                    (Err(m), Err(e)) => m@ == e,
                    _ => false,
                },
                _ => r matches Err(m) && m@ == no_array(),
            },
    {
        match &self.definitions {
            Json::Array(items) => {
                let ghost all = self.definitions@->Array_0;
                let mut out: Vec<HyperParameter> = Vec::new();
                let mut i: usize = 0;
                proof {
                    assert(out@.map_values(|p: HyperParameter| p@) =~= Seq::<
                        ParameterView,
                    >::empty());
                }
                while i < items.len()
                    invariant
                        i <= items.len(),
                        self.definitions == Json::Array(*items),
                        all == self.definitions@->Array_0,
                        parameters_of(all.take(i as int)) == Result::<
                            Seq<ParameterView>,
                            Seq<char>,
                        >::Ok(out@.map_values(|p: HyperParameter| p@)),
                    decreases items.len() - i,
                {
                    proof {
                        assert(all.take(i + 1).drop_last() =~= all.take(i as int));
                        assert(all.take(i + 1).last() == items@[i as int]@);
                    }
                    match parameter_from(&items[i]) {
                        Ok(p) => {
                            let ghost before = out@.map_values(|p: HyperParameter| p@);
                            let ghost added = p@;
                            out.push(p);
                            proof {
                                assert(out@.map_values(|p: HyperParameter| p@) =~= before.push(
                                    added,
                                ));
                            }
                        },
                        Err(e) => {
                            proof {
                                first_fault_stays(all, i + 1);
                            }
                            return Err(e);
                        },
                    }
                    i = i + 1;
                }
                proof {
                    assert(all.take(i as int) =~= all);
                }
                Ok(out)
            },
            _ => Err("Hyperparameter definitions must be an array".to_owned()),
        }
    }

    /// The id of the sweep; one that has none, or a blank one, is given a random one.
    pub fn ensure_sweep_id(&mut self) -> (r: String)
        ensures
            r@ == final(self).sweep_id@,
            final(self).strategy_fingerprint == old(self).strategy_fingerprint,
            final(self).source_targets == old(self).source_targets,
            final(self).definitions == old(self).definitions,
            if trimmed(old(self).sweep_id@).len() == 0 {
                exists|id: u128| final(self).sweep_id@ == #[trigger] uuid_chars(id)
            } else {
                final(self).sweep_id == old(self).sweep_id
            },
    {
        if trim(self.sweep_id.as_str()).as_str().is_empty() {
            let id = random_uuid();
            self.sweep_id = uuid_text(id);
        }
        self.sweep_id.clone()
    }

    /// Whether the arguments ask for a whole sweep.
    pub fn is_sweep_requested(&self, args: &Vec<String>) -> (r: bool)
        ensures
            r == listed(args@, "--hyper-sweep"@),
    {
        list_holds(args, "--hyper-sweep")
    }

    /// The runs of the sweep, where `ranges` holds, for each definition, the values of the range
    /// that it asks for.
    pub fn iter_runs(&self, ranges: &Vec<Vec<Json>>) -> (r: Result<HyperParameterRunIter, String>)
        ensures
            match (r, sweep_domains(self.definitions@, ranges@)) {
                (Ok(runs), Ok(domains)) => runs.wf() && runs.domains_of() == domains
                    && runs.position() == 0,
                (Err(m), Err(e)) => m@ == e,
                _ => false,
            },
    {
        match &self.definitions {
            Json::Array(items) => {
                let ghost all = self.definitions@->Array_0;
                let mut out: Vec<(String, Vec<Json>)> = Vec::new();
                let ghost mut unsorted: Seq<DomainView> = Seq::empty();
                let mut i: usize = 0;
                proof {
                    assert(domains_view(out@) =~= by_name(unsorted));
                }
                while i < items.len()
                    invariant
                        i <= items.len(),
                        self.definitions == Json::Array(*items),
                        all == self.definitions@->Array_0,
                        domains_in_order(all.take(i as int), ranges@) == Result::<
                            Seq<DomainView>,
                            Seq<char>,
                        >::Ok(unsorted),
                        domains_view(out@) == by_name(unsorted),
                        all_filled(domains_view(out@)),
                    decreases items.len() - i,
                {
                    proof {
                        assert(all.take(i + 1).drop_last() =~= all.take(i as int));
                        assert(all.take(i + 1).last() == items@[i as int]@);
                    }
                    let range = if i < ranges.len() {
                        Some(&ranges[i])
                    } else {
                        None
                    };
                    match domain_from(&items[i], range) {
                        Ok((name, values)) => {
                            let ghost domain = (name@, values_view(values@));
                            proof {
                                with_domain_keeps_filled(domains_view(out@), domain);
                                assert(unsorted.push(domain).drop_last() =~= unsorted);
                            }
                            insert_domain(&mut out, name, values);
                            proof {
                                unsorted = unsorted.push(domain);
                            }
                        },
                        Err(e) => {
                            proof {
                                first_bad_domain_stays(all, ranges@, i + 1);
                            }
                            return Err(e);
                        },
                    }
                    i = i + 1;
                }
                proof {
                    assert(all.take(i as int) =~= all);
                }
                Ok(HyperParameterRunIter::start(out))
            },
            _ => Err("Hyperparameter definitions must be an array".to_owned()),
        }
    }

    /// The run that the arguments ask for: that of the payload, where one was given and parsed,
    /// else the one whose seed starts with what stands behind `--hyper-seed`.
    pub fn selection_from_process_args(
        &self,
        args: &Vec<String>,
        payload: Option<HyperParameterSelection>,
        ranges: &Vec<Vec<Json>>,
    ) -> (r: Result<Option<HyperParameterSelection>, String>)
        ensures
            match (r, selected(option_selection(payload), args@, self.definitions@, ranges@)) {
                (Ok(selection), Ok(expected)) => option_selection(selection) == expected,
                (Err(m), Err(e)) => m@ == e,
                _ => false,
            },
    {
        match payload {
            Some(selection) => {
                return match selection.validate() {
                    Ok(_) => Ok(Some(selection)),
                    Err(e) => Err(e),
                };
            },
            None => {},
        }
        let given = match argument_of(args, "--hyper-seed") {
            Some(given) => given,
            None => {
                return Ok(None);
            },
        };
        let prefix = trim(given.as_str());
        if prefix.as_str().is_empty() {
            return Err("Hyperparameter seed prefix cannot be empty".to_owned());
        }
        let mut runs = match self.iter_runs(ranges) {
            Ok(runs) => runs,
            Err(e) => {
                return Err(e);
            },
        };
        proof {
            crate::hyperparameters::total_is_not_negative(runs.domains_of());
        }
        let one = match advance_to_match(&mut runs, prefix.as_str()) {
            Some(one) => one,
            None => {
                let mut message = "Unknown hyperparameter seed or prefix: ".to_owned();
                message.append(prefix.as_str());
                return Err(message);
            },
        };
        match advance_to_match(&mut runs, prefix.as_str()) {
            Some(other) => {
                let mut message = "Ambiguous hyperparameter seed prefix '".to_owned();
                message.append(prefix.as_str());
                message.append("' (matches ");
                message.append(text_take(one.seed.as_str(), 12).as_str());
                message.append(" and ");
                message.append(text_take(other.seed.as_str(), 12).as_str());
                message.append("); provide more characters");
                Err(message)
            },
            None => Ok(Some(one)),
        }
    }

    /// The runs that a process works through: the whole sweep where `--hyper-sweep` asks for it,
    /// which then gets an id, else the single run that the arguments ask for.
    pub fn process_runs(
        &mut self,
        args: &Vec<String>,
        payload: Option<HyperParameterSelection>,
        ranges: &Vec<Vec<Json>>,
    ) -> (r: Result<ProcessRuns, String>)
        ensures
            final(self).definitions == old(self).definitions,
            final(self).strategy_fingerprint == old(self).strategy_fingerprint,
            final(self).source_targets == old(self).source_targets,
            if listed(args@, "--hyper-sweep"@) {
                &&& if trimmed(old(self).sweep_id@).len() == 0 {
                    exists|id: u128| final(self).sweep_id@ == #[trigger] uuid_chars(id)
                } else {
                    final(self).sweep_id == old(self).sweep_id
                }
                &&& match (r, sweep_domains(old(self).definitions@, ranges@)) {
                    (Ok(ProcessRuns::Sweep(runs)), Ok(domains)) => runs.wf() && runs.domains_of()
                        == domains && runs.position() == 0,
                    (Err(m), Err(e)) => m@ == e,
                    _ => false,
                }
            } else {
                &&& final(self).sweep_id == old(self).sweep_id
                &&& match (
                    r,
                    selected(
                        option_selection(payload),
                        args@,
                        old(self).definitions@,
                        ranges@,
                    ),
                ) {
                    (Ok(ProcessRuns::Single(Some(selection))), Ok(expected)) => option_selection(
                        selection,
                    ) == expected,
                    (Err(m), Err(e)) => m@ == e,
                    _ => false,
                }
            },
    {
        if self.is_sweep_requested(args) {
            let _ = self.ensure_sweep_id();
            match self.iter_runs(ranges) {
                Ok(runs) => Ok(ProcessRuns::Sweep(runs)),
                Err(e) => Err(e),
            }
        } else {
            match self.selection_from_process_args(args, payload, ranges) {
                Ok(selection) => Ok(ProcessRuns::Single(Some(selection))),
                Err(e) => Err(e),
            }
        }
    }
}

fn parameter_from(definition: &Json) -> (r: Result<HyperParameter, String>)
    ensures
        match (r, parameter_of(definition@)) {
            (Ok(p), Ok(expected)) => p@ == expected,
            (Err(m), Err(e)) => m@ == e,
            _ => false,
        },
{
    match definition {
        Json::Object(_) => {},
        _ => {
            return Err("Invalid hyperparameter definition".to_owned());
        },
    }
    let key = match text_of(definition, "name") {
        Some(key) => key,
        None => {
            return Err("Hyperparameter name is missing".to_owned());
        },
    };
    let values = match definition.get("values") {
        Some(Json::Array(values)) => {
            proof {
                assert(definition@.get("values"@)->Some_0->Array_0 =~= values_view(values@));
            }
            Some(copy_values(values))
        },
        _ => None,
    };
    let fallback = match definition.get("fallback") {
        Some(v) => v.duplicate(),
        None => Json::Null,
    };
    Ok(
        HyperParameter {
            key,
            values,
            min: real_of_key(definition, "min"),
            max: real_of_key(definition, "max"),
            increment: real_of_key(definition, "increment"),
            fallback,
        },
    )
}

fn domain_from(definition: &Json, range: Option<&Vec<Json>>) -> (r: Result<
    (String, Vec<Json>),
    String,
>)
    ensures
        match (
            r,
            domain_of(
                definition@,
                match range {
                    Some(values) => values_view(values@),
                    None => Seq::empty(),
                },
            ),
        ) {
            (Ok(d), Ok(expected)) => (d.0@, values_view(d.1@)) == expected && d.1@.len() > 0,
            (Err(m), Err(e)) => m@ == e,
            _ => false,
        },
{
    match definition {
        Json::Object(_) => {},
        _ => {
            return Err("Invalid hyperparameter definition".to_owned());
        },
    }
    let name = match text_of(definition, "name") {
        Some(name) => name,
        None => {
            return Err("Hyperparameter name is missing".to_owned());
        },
    };
    let values: Vec<Json> = match definition.get("values") {
        Some(Json::Array(values)) => {
            proof {
                assert(definition@.get("values"@)->Some_0->Array_0 =~= values_view(values@));
            }
            copy_values(values)
        },
        _ => Vec::new(),
    };
    proof {
        assert(values_view(values@) =~= listed_values(definition@));
    }
    let values: Vec<Json> = if values.len() > 0 {
        values
    } else if range_request(definition).is_some() {
        match range {
            Some(expanded) => copy_values(expanded),
            None => Vec::new(),
        }
    } else {
        Vec::new()
    };
    if values.len() == 0 {
        let mut message = "Hyperparameter '".to_owned();
        message.append(name.as_str());
        message.append("' has no values");
        return Err(message);
    }
    Ok((name, values))
}

proof fn first_fault_stays(definitions: Seq<JsonView>, n: int)
    requires
        0 <= n <= definitions.len(),
        parameters_of(definitions.take(n)) is Err,
    ensures
        parameters_of(definitions) == parameters_of(definitions.take(n)),
    decreases definitions.len() - n,
{
    if n < definitions.len() {
        assert(definitions.take(n + 1).drop_last() =~= definitions.take(n));
        first_fault_stays(definitions, n + 1);
    } else {
        assert(definitions.take(n) =~= definitions);
    }
}

proof fn first_bad_domain_stays(definitions: Seq<JsonView>, ranges: Seq<Vec<Json>>, n: int)
    requires
        0 <= n <= definitions.len(),
        domains_in_order(definitions.take(n), ranges) is Err,
    ensures
        domains_in_order(definitions, ranges) == domains_in_order(definitions.take(n), ranges),
    decreases definitions.len() - n,
{
    if n < definitions.len() {
        assert(definitions.take(n + 1).drop_last() =~= definitions.take(n));
        first_bad_domain_stays(definitions, ranges, n + 1);
    } else {
        assert(definitions.take(n) =~= definitions);
    }
}

/// The whole number under `key` in the values of a run.
pub open spec fn int_at(values: Option<JsonView>, key: Seq<char>) -> Option<i64> {
    match values {
        Some(v) => match v.get(key) {
            Some(n) => n.as_int(),
            None => None,
        },
        None => None,
    }
}

/// The view of a borrowed optional value.
pub open spec fn borrowed(values: Option<&Json>) -> Option<JsonView> {
    match values {
        Some(v) => Some(v@),
        None => None,
    }
}

/// `dashmap::DashMap`, a table that is shared and changed behind shared references.
#[verifier::external_type_specification]
#[verifier::external_body]
#[verifier::reject_recursive_types(K)]
#[verifier::reject_recursive_types(V)]
#[verifier::reject_recursive_types(S)]
pub struct ExDashMap<K, V, S>(dashmap::DashMap<K, V, S>);

/// `dashmap::DashMap::get`: a copy of what stands under `key`. Others may change the table at any
/// time, so nothing is claimed of what is found. The call waits while another thread changes the
/// same part of the table; it is not to be made while the caller holds a reference to be changed.
#[verifier::external_body]
pub fn variable(variables: &dashmap::DashMap<String, Json>, key: &str) -> (r: Option<Json>) {
    variables.get(key).map(|entry| entry.value().duplicate())
}

/// The values of a run among the variables of a strategy, where they are there: what is found under
/// their key.
pub fn hyper_values(variables: &dashmap::DashMap<String, Json>) -> (r: Option<Json>)
    ensures
        call_ensures(variable, (variables, HYPERPARAMETER_VALUES_KEY), r),
{
    variable(variables, HYPERPARAMETER_VALUES_KEY)
}

/// The whole number under `key` in the values of a run, as far as `T` can hold it; else `fallback`.
pub fn hyper_int<T: TryFrom<i64> + Copy>(values: Option<&Json>, key: &str, fallback: T) -> (r: T)
    ensures
        match int_at(borrowed(values), key@) {
            Some(n) => <T as vstd::std_specs::convert::TryFromSpec<i64>>::obeys_try_from_spec() ==> r == (
            match <T as vstd::std_specs::convert::TryFromSpec<i64>>::try_from_spec(n) {
                Ok(t) => t,
                Err(_) => fallback,
            }),
            None => r == fallback,
        },
{
    let found = match values {
        Some(v) => match v.get(key) {
            Some(n) => n.as_int(),
            None => None,
        },
        None => None,
    };
    match found {
        Some(n) => match T::try_from(n) {
            Ok(t) => t,
            Err(_) => fallback,
        },
        None => fallback,
    }
}

/// The number under `key` in the values of a run, or `None`.
pub fn hyper_number(values: Option<&Json>, key: &str) -> (r: Option<Json>)
    ensures
        option_json(r) == (match values {
            Some(v) => number_at(v@, key@),
            None => None,
        }),
{
    match values {
        Some(v) => number_of_key(v, key),
        None => None,
    }
}

/// The truth value under `key` in the values of a run, else `fallback`.
pub fn hyper_bool(values: Option<&Json>, key: &str, fallback: bool) -> (r: bool)
    ensures
        r == (match borrowed(values) {
            Some(v) => match v.get(key@) {
                Some(JsonView::Bool(b)) => b,
                _ => fallback,
            },
            None => fallback,
        }),
{
    match values {
        Some(v) => match v.get(key) {
            Some(Json::Bool(b)) => *b,
            _ => fallback,
        },
        None => fallback,
    }
}

/// The text under `key` in the values of a run, else `fallback`.
pub fn hyper_string(values: Option<&Json>, key: &str, fallback: String) -> (r: String)
    ensures
        r@ == (match borrowed(values) {
            Some(v) => match text_at(v, key@) {
                Some(s) => s,
                None => fallback@,
            },
            None => fallback@,
        }),
{
    match values {
        Some(v) => match text_of(v, key) {
            Some(s) => s,
            None => fallback,
        },
        None => fallback,
    }
}

/// A parameter is of the kind of its sample, the first of its values, or else its fallback: whole
/// numbers are "int", reals "float", truth values "bool" and texts "string"; any other sample, and a
/// key of nothing but white space, is refused. A definition holds the key, the kind and the fallback.
pub proof fn parameters_are_of_the_kind_of_their_sample(p: ParameterView)
    ensures
        ({
            let sample = if p.values is Some && p.values->Some_0.len() > 0 {
                p.values->Some_0[0]
            } else {
                p.fallback
            };
            let d = definition_of(p);
            let kind = d->Ok_0.get("type"@);
            let scalar = !(sample is Null) && !(sample is Array) && !(sample is Object);
            &&& d is Ok <==> trimmed(p.key).len() > 0 && scalar
            &&& d is Ok ==> {
                &&& sample is Unsigned || sample is Signed ==> kind == Some(JsonView::Text("int"@))
                &&& sample is Real ==> kind == Some(JsonView::Text("float"@))
                &&& sample is Bool ==> kind == Some(JsonView::Text("bool"@))
                &&& sample is Text ==> kind == Some(JsonView::Text("string"@))
                &&& d->Ok_0.get("name"@) == Some(JsonView::Text(p.key))
                &&& d->Ok_0.get("fallback"@) == Some(p.fallback)
            }
        }),
{
    if definition_of(p) is Ok {
        definition_holds(p, "type"@);
        definition_holds(p, "name"@);
        definition_holds(p, "fallback"@);
    }
}

/// The range that the definition of a parameter without listed values asks for is its own: of whole
/// numbers where its fallback is whole, of reals where it is a real, and none where it is no number.
/// With listed values there is no range.
pub proof fn ranges_are_of_the_kind_of_their_parameter(p: ParameterView)
    requires
        definition_of(p) is Ok,
        has_real_bounds(p),
    ensures
        ({
            let range = range_of(definition_of(p)->Ok_0);
            let lists = p.values is Some && p.values->Some_0.len() > 0;
            &&& lists ==> range is None
            &&& !lists && (p.fallback is Unsigned || p.fallback is Signed) ==> range is Some
                && range->Some_0.whole
            &&& !lists && p.fallback is Real ==> range is Some && !range->Some_0.whole
            &&& !lists && (p.fallback is Bool || p.fallback is Text) ==> range is None
            &&& range matches Some(r) ==> r.min == p.min && r.max == p.max && r.increment
                == p.increment
        }),
{
    definition_holds(p, "type"@);
    definition_holds(p, "valueType"@);
    definition_holds(p, "values"@);
    definition_holds(p, "min"@);
    definition_holds(p, "max"@);
    definition_holds(p, "increment"@);
    reveal_strlit("int");
    reveal_strlit("float");
    reveal_strlit("bool");
    reveal_strlit("string");
    assert("int"@.len() == 3 && "float"@.len() == 5 && "bool"@.len() == 4 && "string"@.len() == 6);
}

/// What a parameter varies over is what it lists, in that order, and else the values of its range,
/// under its key; with neither, or with a range of nothing, the sweep is refused.
pub proof fn parameters_vary_over_their_values(p: ParameterView, range: Seq<JsonView>)
    requires
        definition_of(p) is Ok,
        has_real_bounds(p),
    ensures
        ({
            let domain = domain_of(definition_of(p)->Ok_0, range);
            let lists = p.values is Some && p.values->Some_0.len() > 0;
            let number = p.fallback is Unsigned || p.fallback is Signed || p.fallback is Real;
            &&& lists ==> domain == Ok::<DomainView, Seq<char>>((p.key, p.values->Some_0))
            &&& !lists && number && range.len() > 0 ==> domain == Ok::<DomainView, Seq<char>>(
                (p.key, range),
            )
            &&& !lists && (!number || range.len() == 0) ==> domain is Err
        }),
{
    ranges_are_of_the_kind_of_their_parameter(p);
    definition_holds(p, "name"@);
    definition_holds(p, "values"@);
}

proof fn matches_begin(domains: Seq<DomainView>, prefix: Seq<char>, from: int)
    requires
        0 <= from,
    ensures
        next_match(domains, prefix, from) matches Some(k) ==> from <= k < total_runs(domains)
            && begins(run_of(domains, k).seed, prefix) && forall|j: int|
            from <= j < k ==> !begins((#[trigger] run_of(domains, j)).seed, prefix),
        next_match(domains, prefix, from) is None ==> forall|j: int|
            from <= j < total_runs(domains) ==> !begins(
                (#[trigger] run_of(domains, j)).seed,
                prefix,
            ),
    decreases total_runs(domains) - from,
{
    if from < total_runs(domains) && !begins(run_of(domains, from).seed, prefix) {
        matches_begin(domains, prefix, from + 1);
    }
}

/// A prefix selects a run exactly where one run alone has a seed that starts with it, and then that
/// run; with none, or with two, there is an error.
pub proof fn prefixes_select_the_only_run(domains: Seq<DomainView>, prefix: Seq<char>, k: int)
    requires
        0 <= k < total_runs(domains),
        run_of(domains, k).seed.len() >= prefix.len(),
        run_of(domains, k).seed.take(prefix.len() as int) == prefix,
    ensures
        (forall|j: int|
            0 <= j < total_runs(domains) && j != k ==> (#[trigger] run_of(domains, j)).seed.len()
                < prefix.len() || run_of(domains, j).seed.take(prefix.len() as int) != prefix)
            ==> resolved(domains, prefix) == Ok::<SelectionView, Seq<char>>(run_of(domains, k)),
        (exists|j: int|
            0 <= j < total_runs(domains) && j != k && (#[trigger] run_of(domains, j)).seed.len()
                >= prefix.len() && run_of(domains, j).seed.take(prefix.len() as int) == prefix)
            ==> resolved(domains, prefix) is Err,
{
    assert forall|j: int| 0 <= j < total_runs(domains) implies (begins(
        (#[trigger] run_of(domains, j)).seed,
        prefix,
    ) <==> run_of(domains, j).seed.len() >= prefix.len() && run_of(domains, j).seed.take(
        prefix.len() as int,
    ) == prefix) by {
        let seed = run_of(domains, j).seed;
        if seed.len() >= prefix.len() {
            assert(seed.subrange(0, prefix.len() as int) =~= seed.take(prefix.len() as int));
        }
    }
    matches_begin(domains, prefix, 0);
    assert(begins(run_of(domains, k).seed, prefix));
    let one = next_match(domains, prefix, 0)->Some_0;
    matches_begin(domains, prefix, one + 1);
}

/// Without a run whose seed starts with it, a prefix is refused.
pub proof fn unknown_prefixes_are_refused(domains: Seq<DomainView>, prefix: Seq<char>)
    requires
        forall|j: int|
            0 <= j < total_runs(domains) ==> !begins(
                (#[trigger] run_of(domains, j)).seed,
                prefix,
            ),
    ensures
        resolved(domains, prefix) is Err,
{
    matches_begin(domains, prefix, 0);
}

/// A payload is the run, whatever the arguments say, if its seed is that of its values, and refused
/// otherwise. Without a payload and without a prefix there is no run to select.
pub proof fn payloads_come_first(
    payload: Option<SelectionView>,
    args: Seq<String>,
    definitions: JsonView,
    ranges: Seq<Vec<Json>>,
)
    ensures
        payload matches Some(selection) ==> {
            let own = selection.values is Object && selection.values->Object_0.len() > 0
                && selection.seed == seed_of(in_key_order(selection.values->Object_0));
            &&& own ==> selected(payload, args, definitions, ranges) == Ok::<
                Option<SelectionView>,
                Seq<char>,
            >(payload)
            &&& !own ==> selected(payload, args, definitions, ranges) is Err
        },
        payload is None && (forall|i: int|
            0 <= i < args.len() ==> (#[trigger] args[i])@ != "--hyper-seed"@) ==> selected(
            payload,
            args,
            definitions,
            ranges,
        ) == Ok::<Option<SelectionView>, Seq<char>>(None),
{
    if payload is None {
        arguments_stand_behind_their_flags(args, "--hyper-seed"@, 0);
    }
}

proof fn by_name_adds(domains: Seq<DomainView>, domain: DomainView, x: DomainView)
    ensures
        with_domain(domains, domain).contains(x) <==> domains.contains(x) || x == domain,
        with_domain(domains, domain).len() == domains.len() + 1,
    decreases domains.len(),
{
    let after = with_domain(domains, domain);
    if domains.len() == 0 {
        assert(after =~= seq![domain]);
        assert(after[0] == domain);
    } else if text_le(domains[0].0, domain.0) {
        let rest = with_domain(domains.drop_first(), domain);
        by_name_adds(domains.drop_first(), domain, x);
        assert(after =~= seq![domains[0]] + rest);
        if after.contains(x) {
            let i = choose|i: int| 0 <= i < after.len() && after[i] == x;
            if i > 0 {
                assert(rest[i - 1] == x);
                if domains.drop_first().contains(x) {
                    let j = choose|j: int|
                        0 <= j < domains.drop_first().len() && domains.drop_first()[j] == x;
                    assert(domains[j + 1] == x);
                }
            } else {
                assert(domains[0] == x);
            }
        }
        if domains.contains(x) {
            let i = choose|i: int| 0 <= i < domains.len() && domains[i] == x;
            if i > 0 {
                assert(domains.drop_first()[i - 1] == x);
                assert(rest.contains(x));
                let j = choose|j: int| 0 <= j < rest.len() && rest[j] == x;
                assert(after[j + 1] == x);
            } else {
                assert(after[0] == x);
            }
        }
        if x == domain {
            assert(rest.contains(x));
            let j = choose|j: int| 0 <= j < rest.len() && rest[j] == x;
            assert(after[j + 1] == x);
        }
    } else {
        assert(after =~= seq![domain] + domains);
        if after.contains(x) {
            let i = choose|i: int| 0 <= i < after.len() && after[i] == x;
            if i > 0 {
                assert(domains[i - 1] == x);
            }
        }
        if domains.contains(x) {
            let i = choose|i: int| 0 <= i < domains.len() && domains[i] == x;
            assert(after[i + 1] == x);
        }
        if x == domain {
            assert(after[0] == x);
        }
    }
}

proof fn by_name_sorts(domains: Seq<DomainView>, domain: DomainView)
    requires
        forall|i: int, j: int|
            0 <= i <= j < domains.len() ==> text_le(
                (#[trigger] domains[i]).0,
                (#[trigger] domains[j]).0,
            ),
    ensures
        forall|i: int, j: int|
            0 <= i <= j < with_domain(domains, domain).len() ==> text_le(
                (#[trigger] with_domain(domains, domain)[i]).0,
                (#[trigger] with_domain(domains, domain)[j]).0,
            ),
    decreases domains.len(),
{
    let after = with_domain(domains, domain);
    text_le_reflexive(domain.0);
    if domains.len() == 0 {
    } else if text_le(domains[0].0, domain.0) {
        let shorter = domains.drop_first();
        assert forall|i: int, j: int| 0 <= i <= j < shorter.len() implies text_le(
            (#[trigger] shorter[i]).0,
            (#[trigger] shorter[j]).0,
        ) by {
            assert(domains[i + 1] == shorter[i] && domains[j + 1] == shorter[j]);
        }
        by_name_sorts(shorter, domain);
        let rest = with_domain(shorter, domain);
        text_le_reflexive(domains[0].0);
        assert forall|i: int, j: int| 0 <= i <= j < after.len() implies text_le(
            (#[trigger] after[i]).0,
            (#[trigger] after[j]).0,
        ) by {
            if i > 0 {
                assert(after[i] == rest[i - 1] && after[j] == rest[j - 1]);
            } else if j > 0 {
                assert(after[j] == rest[j - 1]);
                by_name_adds(shorter, domain, rest[j - 1]);
                assert(rest.contains(rest[j - 1]));
                if shorter.contains(rest[j - 1]) {
                    let k = choose|k: int| 0 <= k < shorter.len() && shorter[k] == rest[j - 1];
                    assert(domains[k + 1] == rest[j - 1]);
                }
            }
        }
    } else {
        text_le_total(domains[0].0, domain.0);
        assert forall|i: int, j: int| 0 <= i <= j < after.len() implies text_le(
            (#[trigger] after[i]).0,
            (#[trigger] after[j]).0,
        ) by {
            if i > 0 {
                assert(after[i] == domains[i - 1] && after[j] == domains[j - 1]);
            } else if j > 0 {
                assert(after[j] == domains[j - 1]);
                assert(text_le(domains[0].0, domains[j - 1].0));
                text_le_transitive(domain.0, domains[0].0, domains[j - 1].0);
            }
        }
    }
}

/// A sweep varies every parameter that is defined, and no other, in the order of their names.
pub proof fn sweeps_vary_every_parameter(domains: Seq<DomainView>, x: DomainView)
    ensures
        by_name(domains).len() == domains.len(),
        by_name(domains).contains(x) <==> domains.contains(x),
        forall|i: int, j: int|
            0 <= i <= j < by_name(domains).len() ==> text_le(
                (#[trigger] by_name(domains)[i]).0,
                (#[trigger] by_name(domains)[j]).0,
            ),
    decreases domains.len(),
{
    if domains.len() > 0 {
        let rest = domains.drop_last();
        sweeps_vary_every_parameter(rest, x);
        by_name_adds(by_name(rest), domains.last(), x);
        by_name_sorts(by_name(rest), domains.last());
        if domains.contains(x) {
            let i = choose|i: int| 0 <= i < domains.len() && domains[i] == x;
            if i < rest.len() {
                assert(rest[i] == x);
            }
        }
        if rest.contains(x) {
            let i = choose|i: int| 0 <= i < rest.len() && rest[i] == x;
            assert(domains[i] == x);
        }
        if x == domains.last() {
            assert(domains[domains.len() - 1] == x);
        }
    }
}

/// Each definition gives one parameter that is varied, in their order, with its own range.
pub proof fn definitions_give_their_domains(
    definitions: Seq<JsonView>,
    ranges: Seq<Vec<Json>>,
    i: int,
)
    requires
        domains_in_order(definitions, ranges) is Ok,
        0 <= i < definitions.len(),
    ensures
        domains_in_order(definitions, ranges)->Ok_0.len() == definitions.len(),
        domain_of(
            definitions[i],
            if i < ranges.len() {
                values_view(ranges[i]@)
            } else {
                Seq::empty()
            },
        ) == Ok::<DomainView, Seq<char>>(domains_in_order(definitions, ranges)->Ok_0[i]),
    decreases definitions.len(),
{
    if i < definitions.len() - 1 {
        definitions_give_their_domains(definitions.drop_last(), ranges, i);
    } else if definitions.len() > 1 {
        definitions_give_their_domains(definitions.drop_last(), ranges, 0);
    }
}

/// The values of a run are read by their kind: a whole number that fits 64 signed bits, a number, a
/// truth value or a text under the key, and otherwise what is given instead.
pub proof fn values_are_read_by_kind(
    values: &Json,
    key: &str,
    truth: bool,
    text: String,
    n: Option<Json>,
    b: bool,
    t: String,
)
    requires
        call_ensures(hyper_number, (Some(values), key), n),
        call_ensures(hyper_bool, (Some(values), key, truth), b),
        call_ensures(hyper_string, (Some(values), key, text), t),
    ensures
        values@.get(key@) is None ==> n is None && b == truth && t@ == text@ && int_at(
            Some(values@),
            key@,
        ) is None,
        values@.get(key@) matches Some(v) ==> {
            &&& n is Some <==> v is Unsigned || v is Signed || v is Real
            &&& n matches Some(number) ==> number@ == v
            &&& v matches JsonView::Bool(held) ==> b == held
            &&& !(v is Bool) ==> b == truth
            &&& v matches JsonView::Text(held) ==> t@ == held
            &&& !(v is Text) ==> t@ == text@
            &&& v matches JsonView::Signed(held) ==> int_at(Some(values@), key@) == Some(held)
            &&& v matches JsonView::Unsigned(held) ==> if held <= i64::MAX {
                int_at(Some(values@), key@) matches Some(read) && read == held
            } else {
                int_at(Some(values@), key@) is None
            }
            &&& !(v is Signed) && !(v is Unsigned) ==> int_at(Some(values@), key@) is None
        },
{
}

/// A whole sweep is run exactly where an argument asks for it.
pub proof fn sweeps_are_asked_for(config: &HyperParameterConfig, args: &Vec<String>, r: bool)
    requires
        call_ensures(HyperParameterConfig::is_sweep_requested, (config, args), r),
    ensures
        r <==> exists|i: int| 0 <= i < args@.len() && (#[trigger] args@[i])@ == "--hyper-sweep"@,
{
}

/// The type of a parameter is told by its sample: whole numbers are "int", reals "float", truth values
/// "bool" and texts "string"; any other sample has none.
pub proof fn types_are_told_by_the_sample(p: HyperParameter, r: Result<&'static str, String>)
    requires
        call_ensures(HyperParameter::value_type, (&p,), r),
    ensures
        ({
            let v = p@;
            let sample = if v.values is Some && v.values->Some_0.len() > 0 {
                v.values->Some_0[0]
            } else {
                v.fallback
            };
            &&& sample is Unsigned || sample is Signed ==> r is Ok && r->Ok_0@ == "int"@
            &&& sample is Real ==> r is Ok && r->Ok_0@ == "float"@
            &&& sample is Bool ==> r is Ok && r->Ok_0@ == "bool"@
            &&& sample is Text ==> r is Ok && r->Ok_0@ == "string"@
            &&& sample is Null || sample is Array || sample is Object ==> r is Err
        }),
{
}

/// A configuration changes by its setters only in what they name.
pub proof fn configurations_change_by_name()
    ensures
        forall|c: &mut HyperParameterConfig, id: String, r: ()| #[trigger]
            call_ensures(HyperParameterConfig::set_sweep_id, (c, id), r) ==> final(c).sweep_id == id
                && final(c).strategy_fingerprint == c.strategy_fingerprint
                && final(c).source_targets == c.source_targets && final(c).definitions
                == c.definitions,
        forall|c: &mut HyperParameterConfig, f: String, r: ()| #[trigger]
            call_ensures(HyperParameterConfig::set_strategy_fingerprint, (c, f), r)
                ==> final(c).strategy_fingerprint == f && final(c).sweep_id == c.sweep_id
                && final(c).source_targets == c.source_targets && final(c).definitions
                == c.definitions,
        forall|c: &mut HyperParameterConfig, t: Json, r: ()| #[trigger]
            call_ensures(HyperParameterConfig::set_source_targets, (c, t), r)
                ==> final(c).source_targets == t && final(c).sweep_id == c.sweep_id
                && final(c).strategy_fingerprint == c.strategy_fingerprint && final(c).definitions
                == c.definitions,
        forall|c: &mut HyperParameterConfig, r: String| #[trigger]
            call_ensures(HyperParameterConfig::ensure_sweep_id, (c,), r) ==> {
                &&& r@ == final(c).sweep_id@
                &&& trimmed(c.sweep_id@).len() > 0 ==> final(c).sweep_id == c.sweep_id
                &&& final(c).definitions == c.definitions
            },
{
}

/// A parameter is registered once, behind the others; a second one of its key is refused, and so is
/// one that has no definition. What is refused changes nothing.
pub proof fn parameters_are_registered_once()
    ensures
        forall|c: &mut HyperParameterConfig, p: HyperParameter, r: Result<(), String>| #[trigger]
            call_ensures(HyperParameterConfig::add_hyper_parameter, (c, &p), r) ==> {
                &&& r is Err ==> *final(c) == *c
                &&& r is Ok ==> {
                    let before = c.definitions@->Array_0;
                    let after = final(c).definitions@->Array_0;
                    &&& c.definitions@ is Array && final(c).definitions@ is Array
                    &&& definition_of(p@) is Ok
                    &&& !is_registered(before, p.key@)
                    &&& after.len() == before.len() + 1
                    &&& after.last() == definition_of(p@)->Ok_0
                    &&& after.drop_last() == before
                }
                &&& definition_of(p@) is Ok && c.definitions@ is Array && !is_registered(
                    c.definitions@->Array_0,
                    p.key@,
                ) ==> r is Ok
                &&& final(c).sweep_id == c.sweep_id
            },
{
    assert forall|c: &mut HyperParameterConfig, p: HyperParameter, r: Result<(), String>| #[trigger]
        call_ensures(HyperParameterConfig::add_hyper_parameter, (c, &p), r) && r is Ok implies
        final(c).definitions@->Array_0.drop_last() == c.definitions@->Array_0 by {
        assert(final(c).definitions@->Array_0.drop_last() =~= c.definitions@->Array_0);
    }
}

/// Without a sweep a process runs once, with what was selected for it, and then no more.
pub proof fn single_runs_run_once()
    ensures
        forall|runs: &mut ProcessRuns, r: Option<Option<HyperParameterSelection>>| #[trigger]
            call_ensures(ProcessRuns::next, (runs,), r) ==> {
                &&& *runs is Single ==> *final(runs) is Single && r == runs->Single_0
                    && final(runs)->Single_0 is None
                &&& *runs is Sweep ==> *final(runs) is Sweep && (r is Some ==> r->Some_0 is Some)
                &&& *runs is Sweep && r is Some ==> final(runs)->Sweep_0.position()
                    == runs->Sweep_0.position() + 1
                &&& *runs is Sweep && r is None ==> final(runs)->Sweep_0.position()
                    == runs->Sweep_0.position() && runs->Sweep_0.position() >= total_runs(
                    runs->Sweep_0.domains_of(),
                )
                &&& *runs is Sweep ==> final(runs)->Sweep_0.domains_of()
                    == runs->Sweep_0.domains_of()
            },
{
}

/// A process sweeps exactly where that is asked for; a sweep starts at its first run.
pub proof fn processes_sweep_when_asked()
    ensures
        forall|
            c: &mut HyperParameterConfig,
            args: Vec<String>,
            payload: Option<HyperParameterSelection>,
            ranges: Vec<Vec<Json>>,
            r: Result<ProcessRuns, String>,
        | #[trigger]
            call_ensures(
                HyperParameterConfig::process_runs,
                (c, &args, payload, &ranges),
                r,
            ) ==> {
                let asked = listed(args@, "--hyper-sweep"@);
                &&& final(c).definitions == c.definitions
                &&& r is Ok && asked ==> r->Ok_0 is Sweep && r->Ok_0->Sweep_0.position() == 0
                &&& r is Ok && !asked ==> r->Ok_0 is Single && r->Ok_0->Single_0 is Some
                &&& !asked || trimmed(c.sweep_id@).len() > 0 ==> final(c).sweep_id == c.sweep_id
            },
{
}

} // verus!
