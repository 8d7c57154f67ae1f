//! Hyperparameters: what a sweep varies, the runs it is made of, and the seeds that name them.
use sha2::Digest;
use vstd::prelude::*;
use vstd::string::StringExecFns;
use vstd::utf8::encode_utf8;

use crate::json::{
    in_key_order, in_key_order_is_ordered, json_text, member_value, members_view, order_by_key,
    ordered_members_stay, put_member, put_members_are_found, with_member, Json, JsonView,
};
use crate::text::{digit, digit_text, option_view, text_eq};

verus! {

/// The variable under which the values of the selected run are kept.
pub const HYPERPARAMETER_VALUES_KEY: &'static str = "__HYPER__";

/// The variable under which the seed of the selected run is kept.
pub const HYPERPARAMETER_SEED_KEY: &'static str = "__HYPER_SEED__";

/// The SHA-256 digest of a sequence of bytes.
pub uninterp spec fn sha256(bytes: Seq<u8>) -> Seq<u8>;

/// `sha2::Sha256::digest`, whose result is named; it has 32 bytes.
#[verifier::external_body]
pub(crate) fn sha256_of(bytes: &[u8]) -> (r: Vec<u8>)
    ensures
        r@ == sha256(bytes@),
        r@.len() == 32,
{
    sha2::Sha256::digest(bytes).to_vec()
}

/// Bytes as hexadecimal digits in lower case, two for each.
pub open spec fn hex(bytes: Seq<u8>) -> Seq<char>
    decreases bytes.len(),
{
    if bytes.len() == 0 {
        Seq::empty()
    } else {
        hex(bytes.drop_last()).push(digit(bytes.last() as int / 16)).push(
            digit(bytes.last() as int % 16),
        )
    }
}

fn hex_text(bytes: &Vec<u8>) -> (r: String)
    ensures
        r@ == hex(bytes@),
{
    let mut out = String::new();
    let mut i: usize = 0;
    proof {
        assert(bytes@.take(0) =~= Seq::<u8>::empty());
    }
    while i < bytes.len()
        invariant
            i <= bytes.len(),
            out@ == hex(bytes@.take(i as int)),
        decreases bytes.len() - i,
    {
        proof {
            assert(bytes@.take(i + 1).drop_last() =~= bytes@.take(i as int));
        }
        let b = bytes[i];
        out.append(digit_text(b / 16));
        out.append(digit_text(b % 16));
        i = i + 1;
        proof {
            assert(out@ =~= hex(bytes@.take(i as int)));
        }
    }
    proof {
        assert(bytes@.take(i as int) =~= bytes@);
    }
    out
}

/// The seed of a set of values: the digest of their text in the order of their keys.
pub open spec fn seed_of(ordered: Seq<(Seq<char>, JsonView)>) -> Seq<char> {
    hex(sha256(encode_utf8(json_text(JsonView::Object(ordered)))))
}

/// The values that a run works with, and the seed that names them.
pub struct HyperParameterSelection {
    pub seed: String,
    pub values: Json,
}

/// The model of a selection.
#[verifier::ext_equal]
pub struct SelectionView {
    pub seed: Seq<char>,
    pub values: JsonView,
}

impl View for HyperParameterSelection {
    type V = SelectionView;

    open spec fn view(&self) -> SelectionView {
        SelectionView { seed: self.seed@, values: self.values@ }
    }
}

/// The selection of a set of values.
pub open spec fn selection_of(members: Seq<(Seq<char>, JsonView)>) -> SelectionView {
    SelectionView {
        seed: seed_of(in_key_order(members)),
        values: JsonView::Object(in_key_order(members)),
    }
}

/// What is wrong with a selection, if anything: its values are no object, there are none, or the
/// seed is not theirs.
pub open spec fn selection_fault(s: SelectionView) -> Option<Seq<char>> {
    match s.values {
        JsonView::Object(members) => if members.len() == 0 {
            Some("Hyperparameter values cannot be empty"@)
        } else if s.seed != seed_of(in_key_order(members)) {
            Some("Hyperparameter seed does not match its values"@)
        } else {
            None
        },
        _ => Some("Hyperparameter values must be an object"@),
    }
}

/// Whether `r` reports exactly the fault.
pub open spec fn reports<T>(r: Result<T, String>, fault: Option<Seq<char>>) -> bool {
    match (r, fault) {
        (Ok(_), None) => true,
        (Err(e), Some(message)) => e@ == message,
        _ => false,
    }
}

/// The argument behind the first `flag` that has one behind it.
pub open spec fn argument(args: Seq<String>, flag: Seq<char>, from: int) -> Option<Seq<char>>
    decreases args.len() - from,
{
    if from < 0 || from + 1 >= args.len() {
        None
    } else if args[from]@ == flag {
        Some(args[from + 1]@)
    } else {
        argument(args, flag, from + 1)
    }
}

/// The argument behind the first `flag` that has one behind it.
pub fn argument_of(args: &Vec<String>, flag: &str) -> (r: Option<String>)
    ensures
        option_view(r) == argument(args@, flag@, 0),
{
    let mut i: usize = 0;
    while i < args.len() && args.len() - i > 1
        invariant
            argument(args@, flag@, 0) == argument(args@, flag@, i as int),
            i <= args.len(),
        decreases args.len() - i,
    {
        if text_eq(args[i].as_str(), flag) {
            return Some(args[i + 1].clone());
        }
        i = i + 1;
    }
    None
}

impl HyperParameterSelection {
    /// The payload that the arguments hold for a selected run, or `None`.
    pub fn payload_from_process_args(args: &Vec<String>) -> (r: Option<String>)
        ensures
            option_view(r) == argument(args@, "--hyper-params-json"@, 0),
    {
        argument_of(args, "--hyper-params-json")
    }

    /// Whether the values are an object that is not empty and the seed is theirs.
    pub fn validate(&self) -> (r: Result<(), String>)
        ensures
            reports(r, selection_fault(self@)),
    {
        match &self.values {
            Json::Object(members) => {
                proof {
                    assert(self.values@->Object_0 =~= members_view(members@));
                }
                if members.len() == 0 {
                    return Err("Hyperparameter values cannot be empty".to_owned());
                }
                let ordered = order_by_key(members);
                let expected = seed_text(ordered).0;
                if !text_eq(self.seed.as_str(), expected.as_str()) {
                    return Err("Hyperparameter seed does not match its values".to_owned());
                }
                Ok(())
            },
            _ => Err("Hyperparameter values must be an object".to_owned()),
        }
    }
}

/// The seed of values that stand in the order of their keys, with the values as an object.
fn seed_text(ordered: Vec<(String, Json)>) -> (r: (String, Json))
    ensures
        r.0@ == seed_of(members_view(ordered@)),
        r.1@ == JsonView::Object(members_view(ordered@)),
{
    let ghost members = members_view(ordered@);
    let object = Json::Object(ordered);
    proof {
        assert(object@->Object_0 =~= members);
    }
    let canonical = object.to_text();
    let digest = sha256_of(canonical.as_str().as_bytes());
    (hex_text(&digest), object)
}

/// The models of a list of values.
pub open spec fn values_view(values: Seq<Json>) -> Seq<JsonView> {
    Seq::new(values.len(), |i: int| values[i]@)
}

/// A copy of a list of values.
pub fn copy_values(values: &Vec<Json>) -> (r: Vec<Json>)
    ensures
        values_view(r@) == values_view(values@),
{
    let mut out: Vec<Json> = Vec::new();
    let mut i: usize = 0;
    while i < values.len()
        invariant
            i <= values.len(),
            out@.len() == i,
            forall|k: int| 0 <= k < i ==> (#[trigger] out@[k])@ == values@[k]@,
        decreases values.len() - i,
    {
        out.push(values[i].duplicate());
        i = i + 1;
    }
    proof {
        assert(values_view(out@) =~= values_view(values@));
    }
    out
}

/// The name of a parameter with the values that it runs through.
pub type DomainView = (Seq<char>, Seq<JsonView>);

/// The models of a list of domains.
pub open spec fn domains_view(domains: Seq<(String, Vec<Json>)>) -> Seq<DomainView> {
    Seq::new(domains.len(), |i: int| (domains[i].0@, values_view(domains[i].1@)))
}

/// The number of combinations of the first `n` domains.
pub open spec fn combinations(domains: Seq<DomainView>, n: int) -> int
    decreases n,
{
    if n <= 0 {
        1
    } else {
        combinations(domains, n - 1) * domains[n - 1].1.len() as int
    }
}

/// The number of runs of a sweep: one for each combination, none where nothing is varied.
pub open spec fn total_runs(domains: Seq<DomainView>) -> int {
    if domains.len() == 0 {
        0
    } else {
        combinations(domains, domains.len() as int)
    }
}

/// The places of the values of the combination `k` in the first `n` domains; the last domain
/// changes fastest.
pub open spec fn places(domains: Seq<DomainView>, k: int, n: int) -> Seq<int>
    decreases n,
{
    if n <= 0 {
        Seq::empty()
    } else {
        let size = domains[n - 1].1.len() as int;
        places(domains, k / size, n - 1).push(k % size)
    }
}

/// The names of the domains with their values at `at`.
pub open spec fn chosen(domains: Seq<DomainView>, at: Seq<int>) -> Seq<(Seq<char>, JsonView)> {
    Seq::new(domains.len(), |i: int| (domains[i].0, domains[i].1[at[i]]))
}

/// The run `k` of a sweep.
pub open spec fn run_of(domains: Seq<DomainView>, k: int) -> SelectionView {
    selection_of(chosen(domains, places(domains, k, domains.len() as int)))
}

/// Whether every domain has a value.
pub open spec fn all_filled(domains: Seq<DomainView>) -> bool {
    forall|i: int| 0 <= i < domains.len() ==> (#[trigger] domains[i]).1.len() > 0
}

/// The places read as a number, the last place counting one.
pub open spec fn number_of(domains: Seq<DomainView>, at: Seq<int>, n: int) -> int
    decreases n,
{
    if n <= 0 {
        0
    } else {
        number_of(domains, at, n - 1) * domains[n - 1].1.len() as int + at[n - 1]
    }
}

/// Whether the places are within their domains.
pub open spec fn within(domains: Seq<DomainView>, at: Seq<int>) -> bool {
    at.len() == domains.len() && forall|i: int|
        0 <= i < at.len() ==> 0 <= #[trigger] at[i] < domains[i].1.len()
}

proof fn combinations_positive(domains: Seq<DomainView>, n: int)
    requires
        all_filled(domains),
        n <= domains.len(),
    ensures
        combinations(domains, n) >= 1,
    decreases n,
{
    if n > 0 {
        combinations_positive(domains, n - 1);
        assert(domains[n - 1].1.len() > 0);
        let a = combinations(domains, n - 1);
        let b = domains[n - 1].1.len() as int;
        assert(a * b >= 1) by (nonlinear_arith)
            requires
                a >= 1,
                b >= 1,
        ;
    }
}

proof fn places_length(domains: Seq<DomainView>, k: int, n: int)
    requires
        0 <= n,
    ensures
        places(domains, k, n).len() == n,
    decreases n,
{
    if n > 0 {
        places_length(domains, k / (domains[n - 1].1.len() as int), n - 1);
    }
}

/// The places of a combination are within their domains, and read as its number.
pub proof fn places_are_within(domains: Seq<DomainView>, k: int, n: int)
    requires
        all_filled(domains),
        0 <= n <= domains.len(),
        0 <= k < combinations(domains, n),
    ensures
        places(domains, k, n).len() == n,
        forall|i: int|
            0 <= i < n ==> 0 <= #[trigger] places(domains, k, n)[i] < domains[i].1.len(),
        number_of(domains, places(domains, k, n), n) == k,
    decreases n,
{
    if n > 0 {
        let size = domains[n - 1].1.len() as int;
        let c = combinations(domains, n - 1);
        assert(domains[n - 1].1.len() > 0);
        assert(0 <= k / size < c && 0 <= k % size < size && k == k / size * size + k % size)
            by (nonlinear_arith)
            requires
                size > 0,
                0 <= k < c * size,
        ;
        places_are_within(domains, k / size, n - 1);
        let rest = places(domains, k / size, n - 1);
        let all = places(domains, k, n);
        number_of_prefix(domains, all, rest, n - 1);
    }
}

proof fn number_of_prefix(domains: Seq<DomainView>, a: Seq<int>, b: Seq<int>, n: int)
    requires
        0 <= n <= a.len(),
        n <= b.len(),
        forall|i: int| 0 <= i < n ==> a[i] == b[i],
    ensures
        number_of(domains, a, n) == number_of(domains, b, n),
    decreases n,
{
    if n > 0 {
        number_of_prefix(domains, a, b, n - 1);
    }
}

/// Places within their domains are those of the combination that they read as.
pub proof fn number_gives_places(domains: Seq<DomainView>, at: Seq<int>, n: int)
    requires
        all_filled(domains),
        at.len() == domains.len(),
        0 <= n <= domains.len(),
        forall|i: int| 0 <= i < n ==> 0 <= #[trigger] at[i] < domains[i].1.len(),
    ensures
        0 <= number_of(domains, at, n) < combinations(domains, n),
        places(domains, number_of(domains, at, n), n) == at.take(n),
    decreases n,
{
    if n > 0 {
        number_gives_places(domains, at, n - 1);
        let size = domains[n - 1].1.len() as int;
        let c = combinations(domains, n - 1);
        let q = number_of(domains, at, n - 1);
        let d = at[n - 1];
        let k = q * size + d;
        assert(0 <= k < c * size && k / size == q && k % size == d) by (nonlinear_arith)
            requires
                0 <= q < c,
                0 <= d < size,
                k == q * size + d,
        ;
        assert(places(domains, k, n) =~= at.take(n - 1).push(d));
        assert(at.take(n) =~= at.take(n - 1).push(d));
    } else {
        assert(at.take(0) =~= Seq::<int>::empty());
    }
}

/// The number of combinations of the domains from `from` on, up to `n`.
pub open spec fn tail_combinations(domains: Seq<DomainView>, from: int, n: int) -> int
    decreases n - from,
{
    if n <= from {
        1
    } else {
        tail_combinations(domains, from, n - 1) * domains[n - 1].1.len() as int
    }
}

proof fn full_tail(domains: Seq<DomainView>, at: Seq<int>, from: int, n: int)
    requires
        0 <= from <= n <= domains.len(),
        at.len() == domains.len(),
        forall|i: int| from <= i < n ==> #[trigger] at[i] == domains[i].1.len() - 1,
    ensures
        number_of(domains, at, n) + 1 == (number_of(domains, at, from) + 1) * tail_combinations(
            domains,
            from,
            n,
        ),
    decreases n - from,
{
    if from < n {
        full_tail(domains, at, from, n - 1);
        let size = domains[n - 1].1.len() as int;
        let a = number_of(domains, at, n - 1);
        let b = number_of(domains, at, from) + 1;
        let t = tail_combinations(domains, from, n - 1);
        assert(at[n - 1] == size - 1);
        assert(a * size + (size - 1) + 1 == b * (t * size)) by (nonlinear_arith)
            requires
                a + 1 == b * t,
        ;
    }
}

proof fn zero_tail(domains: Seq<DomainView>, at: Seq<int>, from: int, n: int)
    requires
        0 <= from <= n <= domains.len(),
        at.len() == domains.len(),
        forall|i: int| from <= i < n ==> #[trigger] at[i] == 0,
    ensures
        number_of(domains, at, n) == number_of(domains, at, from) * tail_combinations(
            domains,
            from,
            n,
        ),
    decreases n - from,
{
    if from < n {
        zero_tail(domains, at, from, n - 1);
        let size = domains[n - 1].1.len() as int;
        let a = number_of(domains, at, n - 1);
        let b = number_of(domains, at, from);
        let t = tail_combinations(domains, from, n - 1);
        assert(at[n - 1] == 0);
        assert(a * size + 0 == b * (t * size)) by (nonlinear_arith)
            requires
                a == b * t,
        ;
    }
}

proof fn whole_tail(domains: Seq<DomainView>, n: int)
    requires
        0 <= n,
    ensures
        tail_combinations(domains, 0, n) == combinations(domains, n),
    decreases n,
{
    if n > 0 {
        whole_tail(domains, n - 1);
    }
}

/// Walks through the runs of a sweep, one combination after the other, without holding more than
/// one of them.
pub struct HyperParameterRunIter {
    domains: Vec<(String, Vec<Json>)>,
    indices: Option<Vec<usize>>,
}

/// The places as mathematical integers.
pub open spec fn places_view(indices: Seq<usize>) -> Seq<int> {
    indices.map_values(|i: usize| i as int)
}

impl HyperParameterRunIter {
    /// What is varied, in the order of the names.
    pub closed spec fn domains_of(&self) -> Seq<DomainView> {
        domains_view(self.domains@)
    }

    /// The number of the run that comes next; past the last one, the number of all runs.
    pub closed spec fn position(&self) -> int {
        match self.indices {
            Some(indices) => number_of(
                self.domains_of(),
                places_view(indices@),
                self.domains_of().len() as int,
            ),
            None => total_runs(self.domains_of()),
        }
    }

    /// Every domain has a value, and the places are within them.
    pub closed spec fn wf(&self) -> bool {
        &&& all_filled(self.domains_of())
        &&& match self.indices {
            Some(indices) => indices@.len() > 0 && within(
                self.domains_of(),
                places_view(indices@),
            ),
            None => true,
        }
    }

    /// The runs of a sweep over `domains`, from the first one on.
    pub fn start(domains: Vec<(String, Vec<Json>)>) -> (r: HyperParameterRunIter)
        requires
            all_filled(domains_view(domains@)),
        ensures
            r.wf(),
            r.domains_of() == domains_view(domains@),
            r.position() == 0,
    {
        let count: usize = domains.len();
        let mut indices: Vec<usize> = Vec::new();
        while indices.len() < count
            invariant
                indices@.len() <= count,
                forall|i: int| 0 <= i < indices@.len() ==> indices@[i] == 0,
            decreases count - indices@.len(),
        {
            indices.push(0);
        }
        let ghost view = domains_view(domains@);
        let ghost at = places_view(indices@);
        proof {
            zero_tail(view, at, 0, count as int);
            assert(number_of(view, at, 0) * tail_combinations(view, 0, count as int) == 0)
                by (nonlinear_arith)
                requires
                    number_of(view, at, 0) == 0,
            ;
            assert forall|i: int| 0 <= i < at.len() implies 0 <= #[trigger] at[i]
                < view[i].1.len() by {
                assert(view[i].1.len() > 0);
            }
        }
        if count == 0 {
            HyperParameterRunIter { domains, indices: None }
        } else {
            HyperParameterRunIter { domains, indices: Some(indices) }
        }
    }

    /// The next run, or `None` behind the last one.
    pub fn next(&mut self) -> (r: Option<HyperParameterSelection>)
        requires
            old(self).wf(),
        ensures
            final(self).wf(),
            final(self).domains_of() == old(self).domains_of(),
            0 <= old(self).position() <= total_runs(old(self).domains_of()),
            old(self).position() >= total_runs(old(self).domains_of()) ==> r is None
                && final(self).position() == old(self).position(),
            old(self).position() < total_runs(old(self).domains_of()) ==> (r matches Some(run)
                && run@ == run_of(old(self).domains_of(), old(self).position()))
                && final(self).position() == old(self).position() + 1,
    {
        let ghost domains = self.domains_of();
        let ghost count = domains.len() as int;
        let mut indices = match self.indices.take() {
            Some(indices) => indices,
            None => {
                proof {
                    combinations_positive(domains, count);
                }
                return None;
            },
        };
        let ghost at = places_view(indices@);
        let ghost k = number_of(domains, at, count);
        proof {
            number_gives_places(domains, at, count);
            assert(at.take(count) =~= at);
        }
        let run = self.run_at(&indices);
        proof {
            assert(run@ == run_of(domains, k));
            assert(old(self).position() == k);
        }
        let mut position: usize = indices.len();
        let mut carry = true;
        while position > 0 && carry
            invariant
                position <= indices.len(),
                indices@.len() == count,
                self.indices is None,
                domains == self.domains_of(),
                count == domains.len(),
                all_filled(domains),
                within(domains, at),
                within(domains, places_view(indices@)),
                forall|i: int| 0 <= i < position ==> places_view(indices@)[i] == at[i],
                carry ==> forall|i: int|
                    position <= i < count ==> #[trigger] at[i] == domains[i].1.len() - 1,
                carry ==> forall|i: int|
                    position <= i < count ==> #[trigger] places_view(indices@)[i] == 0,
                !carry ==> number_of(domains, places_view(indices@), count) == number_of(
                    domains,
                    at,
                    count,
                ) + 1,
            decreases position, carry as int,
        {
            let p: usize = position - 1;
            let ghost before = places_view(indices@);
            proof {
                assert(domains[p as int].1.len() == self.domains@[p as int].1@.len());
                assert(0 <= at[p as int] < domains[p as int].1.len());
                assert(before[p as int] == at[p as int]);
            }
            if self.domains[p].1.len() - indices[p] > 1 {
                let next: usize = indices[p] + 1;
                indices.set(p, next);
                carry = false;
                proof {
                    let after = places_view(indices@);
                    assert(after =~= before.update(p as int, at[p as int] + 1));
                    full_tail(domains, at, position as int, count);
                    zero_tail(domains, after, position as int, count);
                    number_of_prefix(domains, after, at, p as int);
                    assert(number_of(domains, after, position as int) == number_of(
                        domains,
                        at,
                        position as int,
                    ) + 1);
                }
            } else {
                indices.set(p, 0);
                proof {
                    assert(places_view(indices@) =~= before.update(p as int, 0));
                }
            }
            position = p;
        }
        if carry {
            proof {
                full_tail(domains, at, 0, count);
                whole_tail(domains, count);
                let t = combinations(domains, count);
                assert(number_of(domains, at, 0) == 0);
                assert((0 + 1) * t == t) by (nonlinear_arith);
                assert(self.position() == k + 1);
            }
        } else {
            self.indices = Some(indices);
            proof {
                number_gives_places(domains, places_view(indices@), count);
            }
        }
        Some(run)
    }

    fn run_at(&self, indices: &Vec<usize>) -> (r: HyperParameterSelection)
        requires
            within(self.domains_of(), places_view(indices@)),
        ensures
            r@ == selection_of(chosen(self.domains_of(), places_view(indices@))),
    {
        let ghost all = chosen(self.domains_of(), places_view(indices@));
        let mut values: Vec<(String, Json)> = Vec::new();
        let mut i: usize = 0;
        proof {
            assert(members_view(values@) =~= in_key_order(all.take(0)));
        }
        while i < self.domains.len()
            invariant
                i <= self.domains.len(),
                within(self.domains_of(), places_view(indices@)),
                all == chosen(self.domains_of(), places_view(indices@)),
                members_view(values@) == in_key_order(all.take(i as int)),
            decreases self.domains.len() - i,
        {
            proof {
                assert(all.take(i + 1).drop_last() =~= all.take(i as int));
                assert(0 <= places_view(indices@)[i as int]
                    < self.domains_of()[i as int].1.len());
            }
            let at: usize = indices[i];
            put_member(&mut values, self.domains[i].0.clone(), self.domains[i].1[at].duplicate());
            i = i + 1;
        }
        proof {
            assert(all.take(i as int) =~= all);
        }
        let (seed, object) = seed_text(values);
        HyperParameterSelection { seed, values: object }
    }
}

/// A sweep has no negative number of runs.
pub proof fn total_is_not_negative(domains: Seq<DomainView>)
    ensures
        total_runs(domains) >= 0,
{
    combinations_not_negative(domains, domains.len() as int);
}

proof fn combinations_not_negative(domains: Seq<DomainView>, n: int)
    ensures
        combinations(domains, n) >= 0,
    decreases n,
{
    if n > 0 {
        combinations_not_negative(domains, n - 1);
        let a = combinations(domains, n - 1);
        let b = domains[n - 1].1.len() as int;
        assert(a * b >= 0) by (nonlinear_arith)
            requires
                a >= 0,
                b >= 0,
        ;
    }
}

/// Each run of a sweep comes once: runs with different numbers choose different values.
pub proof fn runs_are_different_choices(domains: Seq<DomainView>, j: int, k: int)
    requires
        all_filled(domains),
        0 <= j < k < total_runs(domains),
    ensures
        places(domains, j, domains.len() as int) != places(domains, k, domains.len() as int),
{
    places_are_within(domains, j, domains.len() as int);
    places_are_within(domains, k, domains.len() as int);
}

/// Every choice of values is a run of the sweep.
pub proof fn every_choice_is_a_run(domains: Seq<DomainView>, at: Seq<int>)
    requires
        all_filled(domains),
        domains.len() > 0,
        within(domains, at),
    ensures
        exists|k: int|
            0 <= k < total_runs(domains) && #[trigger] places(domains, k, domains.len() as int)
                == at,
{
    number_gives_places(domains, at, domains.len() as int);
    assert(at.take(domains.len() as int) =~= at);
}

/// Every run of a sweep passes validation: its seed is that of its values.
pub proof fn runs_are_valid(domains: Seq<DomainView>, k: int)
    requires
        all_filled(domains),
        0 <= k < total_runs(domains),
    ensures
        selection_fault(run_of(domains, k)) is None,
{
    let members = chosen(domains, places(domains, k, domains.len() as int));
    let ordered = in_key_order(members);
    assert(ordered.len() > 0) by {
        assert(members.len() > 0);
        let rest = in_key_order(members.drop_last());
        assert(with_member(rest, members.last().0, members.last().1).len() > 0);
    }
    in_key_order_is_ordered(members);
    ordered_members_stay(ordered);
}

/// What an argument says stands right behind the first place of its flag that has something behind it.
pub proof fn arguments_stand_behind_their_flags(args: Seq<String>, flag: Seq<char>, from: int)
    requires
        0 <= from,
    ensures
        argument(args, flag, from) matches Some(value) ==> exists|i: int|
            {
                &&& from <= i < args.len() - 1
                &&& (#[trigger] args[i])@ == flag
                &&& args[i + 1]@ == value
                &&& forall|j: int| from <= j < i ==> (#[trigger] args[j])@ != flag
            },
        argument(args, flag, from) is None ==> forall|i: int|
            from <= i < args.len() - 1 ==> (#[trigger] args[i])@ != flag,
    decreases args.len() - from,
{
    if from + 1 < args.len() && args[from]@ != flag {
        arguments_stand_behind_their_flags(args, flag, from + 1);
    }
}

/// A payload is what stands behind its own flag.
pub proof fn payloads_stand_behind_their_flag(args: &Vec<String>, r: Option<String>)
    requires
        call_ensures(HyperParameterSelection::payload_from_process_args, (args,), r),
    ensures
        r matches Some(payload) ==> exists|i: int|
            0 <= i < args@.len() - 1 && (#[trigger] args@[i])@ == "--hyper-params-json"@ && args@[i
                + 1]@ == payload@,
        r is None ==> forall|i: int|
            0 <= i < args@.len() - 1 ==> (#[trigger] args@[i])@ != "--hyper-params-json"@,
{
    arguments_stand_behind_their_flags(args@, "--hyper-params-json"@, 0);
}

/// A selection is valid exactly where it holds at least one value and its seed is that of its values
/// in the order of their keys.
pub proof fn valid_selections_have_the_seed_of_their_values(s: SelectionView)
    ensures
        selection_fault(s) is None <==> s.values is Object && s.values->Object_0.len() > 0 && s.seed
            == hex(sha256(encode_utf8(json_text(JsonView::Object(in_key_order(
            s.values->Object_0,
        )))))),
{
}

/// Bytes are written as two small hexadecimal digits each, the higher one first.
pub proof fn bytes_are_written_in_hexadecimal(bytes: Seq<u8>, i: int)
    requires
        0 <= i < bytes.len(),
    ensures
        hex(bytes).len() == 2 * bytes.len(),
        ({
            let high = bytes[i] as int / 16;
            let low = bytes[i] as int % 16;
            let shown = |n: int|
                if n < 10 {
                    48 + n
                } else {
                    87 + n
                };
            &&& hex(bytes)[2 * i] as int == shown(high)
            &&& hex(bytes)[2 * i + 1] as int == shown(low)
        }),
    decreases bytes.len(),
{
    let rest = bytes.drop_last();
    if rest.len() > 0 {
        bytes_are_written_in_hexadecimal(
            rest,
            if i < rest.len() {
                i
            } else {
                0
            },
        );
    } else {
        assert(hex(rest) =~= Seq::<char>::empty());
    }
    assert(hex(bytes) =~= hex(rest) + seq![
        digit(bytes.last() as int / 16),
        digit(bytes.last() as int % 16),
    ]);
}

proof fn ordered_members_are_found(members: Seq<(Seq<char>, JsonView)>, i: int)
    requires
        0 <= i < members.len(),
        forall|j: int, k: int|
            0 <= j < k < members.len() ==> (#[trigger] members[j]).0 != (#[trigger] members[k]).0,
    ensures
        member_value(in_key_order(members), members[i].0) == Some(members[i].1),
    decreases members.len(),
{
    let rest = members.drop_last();
    put_members_are_found(
        in_key_order(rest),
        members.last().0,
        members.last().1,
        members[i].0,
    );
    if i < rest.len() {
        ordered_members_are_found(rest, i);
        assert(members[i].0 != members[members.len() - 1].0);
    }
}

/// A run has a value for every parameter that is varied, and that is one of the parameter's own; its
/// seed is that of its values.
pub proof fn runs_have_a_value_for_every_parameter(domains: Seq<DomainView>, k: int, i: int)
    requires
        all_filled(domains),
        0 <= k < total_runs(domains),
        0 <= i < domains.len(),
        forall|a: int, b: int|
            0 <= a < b < domains.len() ==> (#[trigger] domains[a]).0 != (#[trigger] domains[b]).0,
    ensures
        run_of(domains, k).values.get(domains[i].0) matches Some(v) && domains[i].1.contains(v),
        run_of(domains, k).values is Object,
        run_of(domains, k).seed == seed_of(run_of(domains, k).values->Object_0),
{
    places_are_within(domains, k, domains.len() as int);
    let at = places(domains, k, domains.len() as int);
    let members = chosen(domains, at);
    assert forall|j: int, l: int| 0 <= j < l < members.len() implies (#[trigger] members[j]).0 != (
    #[trigger] members[l]).0 by {
        assert(domains[j].0 != domains[l].0);
    }
    ordered_members_are_found(members, i);
    assert(domains[i].1[at[i]] == members[i].1);
}

/// The number of runs is the product of the numbers of values: one more parameter makes so many times
/// as many, and without parameters there is none.
pub proof fn runs_multiply(domains: Seq<DomainView>, domain: DomainView)
    ensures
        total_runs(Seq::empty()) == 0,
        domains.len() == 0 ==> total_runs(domains.push(domain)) == domain.1.len(),
        domains.len() > 0 ==> total_runs(domains.push(domain)) == total_runs(domains)
            * domain.1.len(),
{
    let more = domains.push(domain);
    combinations_of_prefix(domains, more, domains.len() as int);
    if domains.len() == 0 {
        assert(combinations(more, 0) == 1);
        assert(combinations(more, 1) == domain.1.len());
    }
}

proof fn combinations_of_prefix(a: Seq<DomainView>, b: Seq<DomainView>, n: int)
    requires
        0 <= n <= a.len(),
        n <= b.len(),
        forall|i: int| 0 <= i < n ==> a[i] == b[i],
    ensures
        combinations(a, n) == combinations(b, n),
    decreases n,
{
    if n > 0 {
        combinations_of_prefix(a, b, n - 1);
    }
}

/// The last parameter changes fastest: from one run to the next only its value moves on, until it has
/// been through all of them.
pub proof fn the_last_parameter_changes_fastest(domains: Seq<DomainView>, k: int, i: int)
    requires
        all_filled(domains),
        domains.len() > 0,
        0 <= k < k + 1 < total_runs(domains),
        k % (domains.last().1.len() as int) + 1 < domains.last().1.len(),
        0 <= i < domains.len(),
    ensures
        ({
            let n = domains.len() as int;
            let now = places(domains, k, n);
            let next = places(domains, k + 1, n);
            &&& i < n - 1 ==> next[i] == now[i]
            &&& i == n - 1 ==> next[i] == now[i] + 1
        }),
        places(domains, 0, domains.len() as int)[i] == 0,
{
    let n = domains.len() as int;
    let size = domains[n - 1].1.len() as int;
    assert((k + 1) / size == k / size && (k + 1) % size == k % size + 1) by (nonlinear_arith)
        requires
            size > 0,
            k >= 0,
            k % size + 1 < size,
    ;
    places_length(domains, k / size, n - 1);
    first_places_are_zero(domains, n, i);
}

proof fn first_places_are_zero(domains: Seq<DomainView>, n: int, i: int)
    requires
        all_filled(domains),
        0 <= i < n <= domains.len(),
    ensures
        places(domains, 0, n).len() == n,
        places(domains, 0, n)[i] == 0,
    decreases n,
{
    let size = domains[n - 1].1.len() as int;
    assert(domains[n - 1].1.len() > 0);
    assert(0int / size == 0 && 0int % size == 0) by (nonlinear_arith)
        requires
            size > 0,
    ;
    places_length(domains, 0, n);
    places_length(domains, 0, n - 1);
    if i < n - 1 {
        first_places_are_zero(domains, n - 1, i);
    }
}

/// The runs come one after another, each once, and then no more.
pub proof fn runs_come_one_after_another()
    ensures
        forall|runs: &mut HyperParameterRunIter, r: Option<HyperParameterSelection>| #[trigger]
            call_ensures(HyperParameterRunIter::next, (runs,), r) ==> {
                &&& final(runs).domains_of() == runs.domains_of()
                &&& r is Some <==> runs.position() < total_runs(runs.domains_of())
                &&& r is Some ==> final(runs).position() == runs.position() + 1
                &&& r is Some ==> r->Some_0@ == run_of(runs.domains_of(), runs.position())
                &&& r is None ==> final(runs).position() == runs.position()
            },
{
}

} // verus!
