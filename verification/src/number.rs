//! Double-precision numbers, held by their bit patterns.
//!
//! The library stores numbers, hands them on and compares them; arithmetic on them is left to its
//! callers. The order of doubles is the order of their magnitudes' bit patterns, turned round for
//! negative numbers, so every comparison here is one of integers.
use vstd::prelude::*;

verus! {

/// A double-precision number, by its bit pattern.
#[derive(Clone, Copy, Debug, PartialEq, Eq, Structural, Hash)]
pub struct Number {
    pub bits: u64,
}

/// The weight of the sign bit.
pub const SIGN: u64 = 0x8000_0000_0000_0000;

/// The magnitude of infinity; greater magnitudes are not numbers.
pub const INFINITE: u64 = 0x7ff0_0000_0000_0000;

/// The magnitude of the difference between one and the next greater double.
pub const EPSILON: u64 = 0x3cb0_0000_0000_0000;

/// The whole numbers up to this one are doubles, every one of them.
pub const WHOLE_LIMIT: u64 = 0x20_0000_0000_0000;

/// The weight of the exponent in a bit pattern, and the least fraction of a normal double.
pub const FRACTION: u64 = 0x10_0000_0000_0000;

/// The bit pattern of the double `fraction * 2^(exponent - 52)`: the fraction is doubled until it is
/// that of a normal double, and the exponent, which is held from 1023 on, lowered as often.
pub open spec fn double_bits(fraction: int, exponent: nat) -> int
    decreases exponent,
{
    if fraction >= FRACTION || exponent == 0 {
        (1022 + exponent) * FRACTION + fraction
    } else {
        double_bits(2 * fraction, (exponent - 1) as nat)
    }
}

/// `n` in units of `unit`, rounded to the nearest, and to the even one of two that are as near.
pub open spec fn rounded_half_even(n: int, unit: int) -> int {
    let below = n / unit;
    let rest = n % unit;
    if 2 * rest > unit || (2 * rest == unit && below % 2 == 1) {
        below + 1
    } else {
        below
    }
}

/// The bit pattern of the double that is nearest to `n`, where doubles of its size lie `unit`, which
/// is `2^doublings`, or more apart: the unit is doubled until the fraction fits.
pub open spec fn nearest_bits(n: int, unit: int, doublings: nat) -> int
    decreases
            (if n >= unit {
                n - unit + 1
            } else {
                0
            }),
{
    if unit <= 0 || n < WHOLE_LIMIT * unit {
        (1074 + doublings) * FRACTION + rounded_half_even(n, unit)
    } else {
        nearest_bits(n, 2 * unit, doublings + 1)
    }
}

/// The bit pattern of the double that is nearest to a whole number that is not negative.
pub open spec fn whole_bits(n: int) -> int {
    if n == 0 {
        0
    } else if n <= WHOLE_LIMIT {
        double_bits(n, 52)
    } else {
        nearest_bits(n, 1, 0)
    }
}

/// `2^n`.
pub open spec fn two_to(n: nat) -> int
    decreases n,
{
    if n == 0 {
        1
    } else {
        2 * two_to((n - 1) as nat)
    }
}

proof fn units_grow(n: nat)
    ensures
        two_to(n) > 0,
        n >= 11 ==> two_to(n) >= 2048,
    decreases n,
{
    reveal_with_fuel(two_to, 12);
    if n > 0 {
        units_grow((n - 1) as nat);
    }
}

proof fn rounding_fits(n: int, unit: int)
    requires
        0 <= n < WHOLE_LIMIT * unit,
        unit > 0,
    ensures
        0 <= n / unit < WHOLE_LIMIT,
        0 <= rounded_half_even(n, unit) <= WHOLE_LIMIT,
{
    assert(0 <= n / unit < WHOLE_LIMIT) by (nonlinear_arith)
        requires
            0 <= n < WHOLE_LIMIT * unit,
            unit > 0,
    ;
}

proof fn nearest_bits_fit(n: int, unit: int, doublings: nat)
    requires
        0 < n <= u64::MAX,
        unit == two_to(doublings),
        doublings <= 11,
    ensures
        0 <= nearest_bits(n, unit, doublings) < INFINITE,
    decreases 12 - doublings,
{
    units_grow(doublings);
    if n < WHOLE_LIMIT * unit {
        rounding_fits(n, unit);
        assert((1074 + doublings) * FRACTION <= 1085 * FRACTION) by (nonlinear_arith)
            requires
                doublings <= 11,
        ;
        assert(0 <= (1074 + doublings) * FRACTION) by (nonlinear_arith);
    } else {
        nearest_bits_fit(n, 2 * unit, doublings + 1);
    }
}

/// What a whole number is rounded to lies no further from it than half a unit.
pub proof fn rounding_goes_to_the_nearest(n: int, unit: int)
    requires
        unit > 0,
    ensures
        -unit <= 2 * (rounded_half_even(n, unit) * unit - n) <= unit,
        2 * (rounded_half_even(n, unit) * unit - n) == unit || 2 * (rounded_half_even(n, unit)
            * unit - n) == -unit ==> rounded_half_even(n, unit) % 2 == 0,
{
    let below = n / unit;
    let rest = n % unit;
    assert(n == below * unit + rest && 0 <= rest < unit) by (nonlinear_arith)
        requires
            unit > 0,
            below == n / unit,
            rest == n % unit,
    ;
    assert((below + 1) * unit == below * unit + unit) by (nonlinear_arith);
}

proof fn double_bits_fit(fraction: int, exponent: nat)
    requires
        0 < fraction <= WHOLE_LIMIT,
        exponent <= 52,
    ensures
        0 <= double_bits(fraction, exponent) < INFINITE,
    decreases exponent,
{
    if fraction >= FRACTION || exponent == 0 {
        assert((1022 + exponent) * FRACTION <= 1074 * FRACTION) by (nonlinear_arith)
            requires
                exponent <= 52,
        ;
    } else {
        double_bits_fit(2 * fraction, (exponent - 1) as nat);
    }
}

/// Every whole number of 64 bits has the bit pattern of a finite double.
pub proof fn whole_numbers_are_finite(n: int)
    requires
        0 <= n <= u64::MAX,
    ensures
        0 <= whole_bits(n) < INFINITE,
{
    if n > WHOLE_LIMIT {
        nearest_bits_fit(n, 1, 0);
    } else if n > 0 {
        double_bits_fit(n, 52);
    }
}

impl Number {
    /// The bit pattern without the sign.
    pub open spec fn magnitude(self) -> int {
        if self.bits >= SIGN {
            self.bits - SIGN
        } else {
            self.bits as int
        }
    }

    /// Whether the pattern stands for no number.
    pub open spec fn is_nan(self) -> bool {
        self.magnitude() > INFINITE
    }

    /// The place of the number in the order of doubles; both zeros stand at 0.
    pub open spec fn rank(self) -> int {
        if self.bits >= SIGN {
            -self.magnitude()
        } else {
            self.magnitude()
        }
    }

    /// Whether two numbers compare equal. What is not a number equals nothing.
    pub open spec fn eq_value(self, other: Number) -> bool {
        !self.is_nan() && !other.is_nan() && self.rank() == other.rank()
    }

    /// Whether this number is less than `other`. What is not a number is less than nothing.
    pub open spec fn lt_value(self, other: Number) -> bool {
        !self.is_nan() && !other.is_nan() && self.rank() < other.rank()
    }

    /// Positive zero.
    pub open spec fn spec_zero() -> Number {
        Number { bits: 0 }
    }

    /// Positive zero.
    pub fn zero() -> (r: Number)
        ensures
            r == Number::spec_zero(),
    {
        Number { bits: 0 }
    }

    fn nearest(n: u64) -> (r: Number)
        requires
            n > WHOLE_LIMIT,
        ensures
            r.bits == nearest_bits(n as int, 1, 0),
    {
        let mut unit: u64 = 1;
        let mut doublings: u64 = 0;
        while n / unit >= WHOLE_LIMIT
            invariant
                n > WHOLE_LIMIT,
                unit == two_to(doublings as nat),
                0 < unit <= 4096,
                doublings <= 11,
                nearest_bits(n as int, unit as int, doublings as nat) == nearest_bits(
                    n as int,
                    1,
                    0,
                ),
            decreases 12 - doublings,
        {
            proof {
                units_grow(doublings as nat);
                assert(n >= WHOLE_LIMIT * unit) by (nonlinear_arith)
                    requires
                        n / unit >= WHOLE_LIMIT,
                        unit > 0,
                ;
            }
            unit = 2 * unit;
            doublings = doublings + 1;
        }
        proof {
            assert(n < WHOLE_LIMIT * unit) by (nonlinear_arith)
                requires
                    n / unit < WHOLE_LIMIT,
                    unit > 0,
            ;
            rounding_fits(n as int, unit as int);
            assert((1074 + doublings) * FRACTION <= 1085 * FRACTION) by (nonlinear_arith)
                requires
                    doublings <= 11,
            ;
        }
        let below: u64 = n / unit;
        let rest: u64 = n % unit;
        let fraction: u64 = if 2 * rest > unit || (2 * rest == unit && below % 2 == 1) {
            below + 1
        } else {
            below
        };
        Number { bits: (1074 + doublings) * FRACTION + fraction }
    }

    /// The double that is nearest to a whole number.
    pub fn whole(n: u64) -> (r: Number)
        ensures
            r.bits == whole_bits(n as int),
    {
        if n == 0 {
            return Number { bits: 0 };
        }
        if n > WHOLE_LIMIT {
            return Number::nearest(n);
        }
        let mut fraction: u64 = n;
        let mut exponent: u64 = 52;
        while fraction < FRACTION && exponent > 0
            invariant
                n > 0,
                0 < fraction <= WHOLE_LIMIT,
                exponent <= 52,
                double_bits(fraction as int, exponent as nat) == whole_bits(n as int),
            decreases exponent,
        {
            fraction = fraction * 2;
            exponent = exponent - 1;
        }
        proof {
            assert((1022 + exponent) * FRACTION <= 1074 * FRACTION) by (nonlinear_arith)
                requires
                    exponent <= 52,
            ;
        }
        Number { bits: (1022 + exponent) * FRACTION + fraction }
    }

    fn unsigned(self) -> (r: u64)
        ensures
            r == self.magnitude(),
            r < SIGN,
    {
        if self.bits >= SIGN {
            self.bits - SIGN
        } else {
            self.bits
        }
    }

    /// Whether the pattern stands for no number.
    pub fn not_a_number(self) -> (r: bool)
        ensures
            r == self.is_nan(),
    {
        self.unsigned() > INFINITE
    }

    /// Whether two numbers compare equal.
    pub fn equals(self, other: Number) -> (r: bool)
        ensures
            r == self.eq_value(other),
    {
        let a = self.unsigned();
        let b = other.unsigned();
        if a > INFINITE || b > INFINITE {
            false
        } else if a == 0 && b == 0 {
            true
        } else {
            a == b && (self.bits >= SIGN) == (other.bits >= SIGN)
        }
    }

    /// Whether this number is less than `other`.
    pub fn less_than(self, other: Number) -> (r: bool)
        ensures
            r == self.lt_value(other),
    {
        let a = self.unsigned();
        let b = other.unsigned();
        if a > INFINITE || b > INFINITE {
            false
        } else if self.bits >= SIGN {
            if other.bits >= SIGN {
                b < a
            } else {
                a != 0 || b != 0
            }
        } else {
            other.bits < SIGN && a < b
        }
    }

    /// Whether the number is neither infinite nor not a number.
    pub fn is_finite(self) -> (r: bool)
        ensures
            r == (self.magnitude() < INFINITE),
    {
        self.unsigned() < INFINITE
    }

    /// Whether the number lies within one rounding step of zero.
    pub open spec fn near_zero(self) -> bool {
        self.magnitude() <= EPSILON
    }

    /// Whether the number lies further than one rounding step from zero.
    pub open spec fn off_zero(self) -> bool {
        !self.near_zero() && !self.is_nan()
    }

    /// Whether the number lies further than one rounding step from zero.
    pub fn is_off_zero(self) -> (r: bool)
        ensures
            r == self.off_zero(),
    {
        !self.is_near_zero() && !self.not_a_number()
    }

    /// Whether the number is greater than one rounding step.
    pub open spec fn above_step(self) -> bool {
        (Number { bits: EPSILON }).lt_value(self)
    }

    /// Whether the number is at most one rounding step.
    pub open spec fn within_step(self) -> bool {
        self.lt_value(Number { bits: EPSILON }) || self.eq_value(Number { bits: EPSILON })
    }

    /// Whether the number is greater than one rounding step.
    pub fn is_above_step(self) -> (r: bool)
        ensures
            r == self.above_step(),
    {
        (Number { bits: EPSILON }).less_than(self)
    }

    /// Whether the number is at most one rounding step.
    pub fn is_within_step(self) -> (r: bool)
        ensures
            r == self.within_step(),
    {
        self.less_than(Number { bits: EPSILON }) || self.equals(Number { bits: EPSILON })
    }

    /// The larger of two numbers. What is not a number gives way.
    pub open spec fn larger(self, other: Number) -> Number {
        if self.is_nan() || self.lt_value(other) {
            other
        } else {
            self
        }
    }

    /// The smaller of two numbers. What is not a number gives way.
    pub open spec fn smaller(self, other: Number) -> Number {
        if self.is_nan() || other.lt_value(self) {
            other
        } else {
            self
        }
    }

    /// The larger of two numbers.
    pub fn larger_of(self, other: Number) -> (r: Number)
        ensures
            r == self.larger(other),
    {
        if self.not_a_number() || self.less_than(other) {
            other
        } else {
            self
        }
    }

    /// The smaller of two numbers.
    pub fn smaller_of(self, other: Number) -> (r: Number)
        ensures
            r == self.smaller(other),
    {
        if self.not_a_number() || other.less_than(self) {
            other
        } else {
            self
        }
    }

    /// Whether the number lies within one rounding step of zero.
    pub fn is_near_zero(self) -> (r: bool)
        ensures
            r == self.near_zero(),
    {
        self.unsigned() <= EPSILON
    }
}

/// Whether two optional numbers compare equal: both absent, or both present and equal.
pub open spec fn option_eq(a: Option<Number>, b: Option<Number>) -> bool {
    match (a, b) {
        (Some(x), Some(y)) => x.eq_value(y),
        (None, None) => true,
        _ => false,
    }
}

/// Whether two optional numbers compare equal.
pub fn option_equals(a: Option<Number>, b: Option<Number>) -> (r: bool)
    ensures
        r == option_eq(a, b),
{
    match (a, b) {
        (Some(x), Some(y)) => x.equals(y),
        (None, None) => true,
        _ => false,
    }
}

/// Of less, equal and greater exactly one holds between two numbers.
pub proof fn numbers_are_ordered(a: Number, b: Number)
    requires
        !a.is_nan(),
        !b.is_nan(),
    ensures
        a.lt_value(b) || a.eq_value(b) || b.lt_value(a),
        !(a.lt_value(b) && a.eq_value(b)),
        !(a.lt_value(b) && b.lt_value(a)),
        !(b.lt_value(a) && a.eq_value(b)),
{
}

/// A monetary value as a broker reports it, beside the same value rounded to the asset's
/// precision.
#[derive(Clone, Copy, Debug, PartialEq, Eq, Structural, Hash)]
pub struct Amount {
    pub reported: Number,
    pub rounded: Number,
}

/// The rounded part of an optional amount.
pub open spec fn rounded(a: Option<Amount>) -> Option<Number> {
    match a {
        Some(x) => Some(x.rounded),
        None => None,
    }
}

/// The reported part of an optional amount.
pub open spec fn reported(a: Option<Amount>) -> Option<Number> {
    match a {
        Some(x) => Some(x.reported),
        None => None,
    }
}

/// The rounded part of an optional amount.
pub fn rounded_of(a: Option<Amount>) -> (r: Option<Number>)
    ensures
        r == rounded(a),
{
    match a {
        Some(x) => Some(x.rounded),
        None => None,
    }
}

/// The reported part of an optional amount.
pub fn reported_of(a: Option<Amount>) -> (r: Option<Number>)
    ensures
        r == reported(a),
{
    match a {
        Some(x) => Some(x.reported),
        None => None,
    }
}

/// The first of two optional amounts that is present.
pub open spec fn first_of(a: Option<Amount>, b: Option<Amount>) -> Option<Amount> {
    if a is Some {
        a
    } else {
        b
    }
}

/// The first of two optional amounts that is present.
pub fn first_present(a: Option<Amount>, b: Option<Amount>) -> (r: Option<Amount>)
    ensures
        r == first_of(a, b),
{
    if a.is_some() {
        a
    } else {
        b
    }
}

/// Numbers are ordered as doubles are: of two without a sign the one with the greater bits is greater,
/// of two with a sign the one with the smaller bits, and one with a sign is less than one without it,
/// but for the two zeros, which are equal. What is not a number is neither less than nor equal to any.
pub proof fn numbers_compare_as_doubles(a: Number, b: Number)
    ensures
        ({
            let sign = 0x8000_0000_0000_0000u64;
            let most = 0x7ff0_0000_0000_0000u64;
            let size = |x: Number|
                if x.bits >= sign {
                    x.bits - sign
                } else {
                    x.bits as int
                };
            let told = size(a) <= most && size(b) <= most;
            &&& a.is_nan() <==> size(a) > most
            &&& !told ==> !a.lt_value(b) && !a.eq_value(b)
            &&& told && a.bits < sign && b.bits < sign ==> (a.lt_value(b) <==> a.bits < b.bits)
            &&& told && a.bits >= sign && b.bits >= sign ==> (a.lt_value(b) <==> a.bits > b.bits)
            &&& told && a.bits >= sign && b.bits < sign ==> (a.lt_value(b) <==> a.bits != sign
                || b.bits != 0)
            &&& told && a.bits < sign && b.bits >= sign ==> !a.lt_value(b)
            &&& told ==> (a.eq_value(b) <==> a.bits == b.bits || (size(a) == 0 && size(b) == 0))
        }),
{
}

/// The larger of two numbers is one of them and no less than either, and the smaller no greater; what
/// is not a number gives way to one that is.
pub proof fn larger_and_smaller_are_of_the_two(a: Number, b: Number)
    ensures
        a.larger(b) == a || a.larger(b) == b,
        a.smaller(b) == a || a.smaller(b) == b,
        !a.is_nan() && !b.is_nan() ==> !a.larger(b).lt_value(a) && !a.larger(b).lt_value(b)
            && !a.lt_value(a.smaller(b)) && !b.lt_value(a.smaller(b)),
        a.is_nan() ==> a.larger(b) == b && a.smaller(b) == b,
        b.is_nan() ==> (a.is_nan() || (a.larger(b) == a && a.smaller(b) == a)),
{
}

/// A number lies near zero where its size is at most that of one rounding step, the same on both sides.
pub proof fn near_zero_is_one_step(n: Number)
    ensures
        n.near_zero() <==> (if n.bits >= 0x8000_0000_0000_0000 {
            n.bits - 0x8000_0000_0000_0000
        } else {
            n.bits as int
        }) <= 0x3cb0_0000_0000_0000,
        n.off_zero() ==> !n.near_zero() && !n.is_nan(),
        !n.is_nan() && !n.near_zero() ==> n.off_zero(),
        n.above_step() <==> !n.is_nan() && n.bits < 0x8000_0000_0000_0000 && n.bits
            > 0x3cb0_0000_0000_0000,
{
}

/// Of two amounts the first that is there counts; two numbers that are missing are the same, and one
/// that is missing is not the same as one that is there.
pub proof fn what_is_there_counts(a: Option<Amount>, b: Option<Amount>, x: Number, y: Number)
    ensures
        a is Some ==> first_of(a, b) == a,
        a is None ==> first_of(a, b) == b,
        option_eq(None, None),
        !option_eq(Some(x), None),
        !option_eq(None, Some(y)),
        option_eq(Some(x), Some(y)) <==> x.eq_value(y),
{
}

} // verus!
