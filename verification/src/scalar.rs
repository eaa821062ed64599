//! Double-precision numbers by their encoding: classification, sign and order.

use vstd::arithmetic::div_mod::lemma_fundamental_div_mod_converse;
use vstd::arithmetic::power2::{
    lemma_pow2_adds, lemma_pow2_pos, lemma_pow2_strictly_increases, lemma_pow2_unfold, pow2,
};
use vstd::prelude::*;

verus! {

/// The sign bit of a binary64 encoding.
pub const SIGN_BIT: u64 = 0x8000_0000_0000_0000;

/// The encoding of positive infinity; every larger magnitude is a NaN.
pub const INFINITY_BITS: u64 = 0x7FF0_0000_0000_0000;

/// The number of fractions that share one exponent: two to the power 52.
pub const FRACTION_SPAN: u64 = 0x10_0000_0000_0000;

/// The encoding of the largest finite number.
pub const MAX_BITS: u64 = 0x7FEF_FFFF_FFFF_FFFF;

/// The encoding of one half.
pub const HALF_BITS: u64 = 0x3FE0_0000_0000_0000;

/// A double-precision number, held by its IEEE 754 binary64 encoding.
///
/// Equality of two scalars (`==`) is equality of encodings; `same` is the
/// numeric equality, under which the two zeros agree and a NaN equals nothing.
#[derive(Clone, Copy, Debug, PartialEq, Eq, Structural)]
pub struct Scalar {
    pub bits: u64,
}

impl Scalar {
    /// The number with the given encoding.
    pub open spec fn encoded(bits: u64) -> Scalar {
        Scalar { bits }
    }

    /// Whether the sign bit is set.
    pub open spec fn negative(self) -> bool {
        self.bits >= SIGN_BIT
    }

    /// The encoding without its sign bit.
    pub open spec fn magnitude(self) -> int {
        if self.bits >= SIGN_BIT {
            self.bits - SIGN_BIT
        } else {
            self.bits as int
        }
    }

    /// Not a number: the exponent is all ones and the fraction is not zero.
    pub open spec fn nan(self) -> bool {
        self.magnitude() > INFINITY_BITS
    }

    /// Positive or negative infinity.
    pub open spec fn infinite(self) -> bool {
        self.magnitude() == INFINITY_BITS
    }

    /// Neither infinite nor a NaN.
    pub open spec fn finite(self) -> bool {
        self.magnitude() < INFINITY_BITS
    }

    /// The exponent field of the encoding.
    pub open spec fn exponent(self) -> int {
        self.magnitude() / (FRACTION_SPAN as int)
    }

    /// The fraction field of the encoding.
    pub open spec fn fraction(self) -> int {
        self.magnitude() % (FRACTION_SPAN as int)
    }

    /// The absolute value of a finite number, counted in units of two to
    /// the power -1075: twice the fraction where the exponent field is zero,
    /// and else the fraction with its leading one, doubled once for each
    /// step of the exponent.
    pub open spec fn size(self) -> int {
        if self.exponent() == 0 {
            2 * self.fraction()
        } else {
            (FRACTION_SPAN + self.fraction()) * pow2(self.exponent() as nat)
        }
    }

    /// The value of a finite number, counted in units of two to the power
    /// -1075.
    pub open spec fn scaled(self) -> int {
        if self.negative() {
            -self.size()
        } else {
            self.size()
        }
    }

    /// The fraction of a number with its leading one, negative where the
    /// sign bit is set: the number is its significand times two to the
    /// power of its exponent field less 1075.
    pub open spec fn significand(self) -> int {
        if self.negative() {
            -(FRACTION_SPAN + self.fraction())
        } else {
            FRACTION_SPAN + self.fraction()
        }
    }

    /// How many times the number's unit in the last place goes into two:
    /// two to the power of 1076 less the exponent field.
    pub open spec fn units_in_two(self) -> int {
        pow2((1076 - self.exponent()) as nat) as int
    }

    /// Whether the number lies within half a unit of its last place of the
    /// fraction `num / den`.
    pub open spec fn rounds(self, num: int, den: int) -> bool
        recommends
            den > 0,
    {
        let gap = 2 * den * self.significand() - num * self.units_in_two();
        1 <= self.exponent() <= 1076 && -den <= gap <= den
    }

    /// Whether the number is the fraction `num / den` exactly.
    pub open spec fn exactly(self, num: int, den: int) -> bool
        recommends
            den > 0,
    {
        1 <= self.exponent() <= 1076 && 2 * den * self.significand() == num
            * self.units_in_two()
    }

    /// The place of a number on the line: among numbers that are not NaN, one
    /// is smaller than another exactly when its rank is smaller. Both zeros
    /// have rank 0.
    pub open spec fn rank(self) -> int {
        if self.negative() {
            -self.magnitude()
        } else {
            self.magnitude()
        }
    }

    /// Numerically smaller. False as soon as either side is a NaN.
    pub open spec fn less(self, other: Scalar) -> bool {
        !self.nan() && !other.nan() && self.rank() < other.rank()
    }

    /// Numerically equal. False as soon as either side is a NaN.
    pub open spec fn same(self, other: Scalar) -> bool {
        !self.nan() && !other.nan() && self.rank() == other.rank()
    }

    /// Numerically smaller or equal. False as soon as either side is a NaN.
    pub open spec fn at_most(self, other: Scalar) -> bool {
        self.less(other) || self.same(other)
    }

    /// The number with the sign bit flipped.
    pub open spec fn negated(self) -> Scalar {
        if self.bits >= SIGN_BIT {
            Scalar { bits: (self.bits - SIGN_BIT) as u64 }
        } else {
            Scalar { bits: (self.bits + SIGN_BIT) as u64 }
        }
    }

    /// The number with the sign bit cleared.
    pub open spec fn absolute(self) -> Scalar {
        Scalar { bits: self.magnitude() as u64 }
    }

    /// The smaller of two numbers. Where one of them is a NaN, the other;
    /// where they are equal, the first.
    pub open spec fn lesser(self, other: Scalar) -> Scalar {
        if self.nan() || other.less(self) {
            other
        } else {
            self
        }
    }

    /// The larger of two numbers. Where one of them is a NaN, the other;
    /// where they are equal, the first.
    pub open spec fn greater(self, other: Scalar) -> Scalar {
        if self.nan() || self.less(other) {
            other
        } else {
            self
        }
    }

    pub fn from_bits(bits: u64) -> (r: Scalar)
        ensures
            r == Scalar::encoded(bits),
    {
        Scalar { bits }
    }

    pub fn to_bits(self) -> (r: u64)
        ensures
            r == self.bits,
    {
        self.bits
    }

    /// Positive zero.
    pub fn zero() -> (r: Scalar)
        ensures
            r == Scalar::encoded(0),
    {
        Scalar { bits: 0 }
    }

    /// Positive infinity, the mass of a body that nothing moves.
    pub fn infinity() -> (r: Scalar)
        ensures
            r == Scalar::encoded(INFINITY_BITS),
    {
        Scalar { bits: INFINITY_BITS }
    }

    /// The largest finite number.
    pub fn max_value() -> (r: Scalar)
        ensures
            r == Scalar::encoded(MAX_BITS),
    {
        Scalar { bits: MAX_BITS }
    }

    /// One half.
    pub fn half() -> (r: Scalar)
        ensures
            r == Scalar::encoded(HALF_BITS),
    {
        Scalar { bits: HALF_BITS }
    }

    fn magnitude_bits(self) -> (r: u64)
        ensures
            r == self.magnitude(),
    {
        if self.bits >= SIGN_BIT {
            self.bits - SIGN_BIT
        } else {
            self.bits
        }
    }

    pub fn is_negative(self) -> (r: bool)
        ensures
            r == self.negative(),
    {
        self.bits >= SIGN_BIT
    }

    pub fn is_nan(self) -> (r: bool)
        ensures
            r == self.nan(),
    {
        self.magnitude_bits() > INFINITY_BITS
    }

    pub fn is_infinite(self) -> (r: bool)
        ensures
            r == self.infinite(),
    {
        self.magnitude_bits() == INFINITY_BITS
    }

    pub fn is_finite(self) -> (r: bool)
        ensures
            r == self.finite(),
    {
        self.magnitude_bits() < INFINITY_BITS
    }

    pub fn neg(self) -> (r: Scalar)
        ensures
            r == self.negated(),
    {
        if self.bits >= SIGN_BIT {
            Scalar { bits: self.bits - SIGN_BIT }
        } else {
            Scalar { bits: self.bits + SIGN_BIT }
        }
    }

    pub fn abs(self) -> (r: Scalar)
        ensures
            r == self.absolute(),
    {
        Scalar { bits: self.magnitude_bits() }
    }

    /// `self < other`.
    pub fn lt(self, other: Scalar) -> (r: bool)
        ensures
            r == self.less(other),
    {
        if self.is_nan() || other.is_nan() {
            return false;
        }
        let a: u64 = self.magnitude_bits();
        let b: u64 = other.magnitude_bits();
        if self.is_negative() {
            if other.is_negative() {
                b < a
            } else {
                a != 0 || b != 0
            }
        } else {
            !other.is_negative() && a < b
        }
    }

    /// `self > other`.
    pub fn gt(self, other: Scalar) -> (r: bool)
        ensures
            r == other.less(self),
    {
        other.lt(self)
    }

    /// `self <= other`.
    pub fn le(self, other: Scalar) -> (r: bool)
        ensures
            r == self.at_most(other),
    {
        if self.is_nan() || other.is_nan() {
            return false;
        }
        !other.lt(self)
    }

    pub fn min(self, other: Scalar) -> (r: Scalar)
        ensures
            r == self.lesser(other),
    {
        if self.is_nan() || other.lt(self) {
            other
        } else {
            self
        }
    }

    pub fn max(self, other: Scalar) -> (r: Scalar)
        ensures
            r == self.greater(other),
    {
        if self.is_nan() || self.lt(other) {
            other
        } else {
            self
        }
    }

    /// `self == other` as numbers.
    pub fn equals(self, other: Scalar) -> (r: bool)
        ensures
            r == self.same(other),
    {
        if self.is_nan() || other.is_nan() {
            return false;
        }
        let a: u64 = self.magnitude_bits();
        let b: u64 = other.magnitude_bits();
        if self.is_negative() == other.is_negative() {
            a == b
        } else {
            a == 0 && b == 0
        }
    }
}

/// An encoding whose magnitude is `e` fraction spans and `f` more has the
/// exponent field `e` and the fraction field `f`.
pub proof fn lemma_fields(a: Scalar, e: int, f: int)
    requires
        0 <= f < FRACTION_SPAN,
        a.magnitude() == e * FRACTION_SPAN + f,
    ensures
        a.exponent() == e,
        a.fraction() == f,
{
    lemma_fundamental_div_mod_converse(a.magnitude(), FRACTION_SPAN as int, e, f);
}

proof fn lemma_size_grows(a: Scalar, b: Scalar)
    requires
        b.finite(),
        a.magnitude() < b.magnitude(),
    ensures
        0 <= a.size() < b.size(),
{
    let span = FRACTION_SPAN as int;
    let (ea, fa) = (a.exponent(), a.fraction());
    let (eb, fb) = (b.exponent(), b.fraction());
    assert(0 <= ea <= eb < 2047 && 0 <= fa < span && 0 <= fb < span);
    lemma_pow2_pos(ea as nat);
    lemma_pow2_pos(eb as nat);
    let (pa, pb) = (pow2(ea as nat) as int, pow2(eb as nat) as int);
    assert(a.size() >= 0) by (nonlinear_arith)
        requires
            a.size() == 2 * fa || a.size() == (span + fa) * pa,
            fa >= 0,
            pa > 0,
            span > 0,
    ;
    if ea == eb {
        assert(fa < fb);
        assert((span + fa) * pb < (span + fb) * pb) by (nonlinear_arith)
            requires
                fa < fb,
                pb > 0,
        ;
    } else {
        lemma_pow2_unfold((ea + 1) as nat);
        if ea + 1 < eb {
            lemma_pow2_strictly_increases((ea + 1) as nat, eb as nat);
        }
        let next = pow2((ea + 1) as nat) as int;
        assert(next == 2 * pa && next <= pb);
        assert(span * next <= (span + fb) * pb) by (nonlinear_arith)
            requires
                0 < next <= pb,
                fb >= 0,
                span > 0,
        ;
        if ea == 0 {
            assert(pa == 1) by {
                lemma_pow2_unfold(1);
                vstd::arithmetic::power2::lemma2_to64();
            }
        } else {
            assert((span + fa) * pa < span * next) by (nonlinear_arith)
                requires
                    fa < span,
                    pa > 0,
                    next == 2 * pa,
            ;
        }
    }
}

/// The order of finite numbers is the order of their values: a number is
/// smaller than another exactly when its value is, and equal to it exactly
/// when the values are equal. The two infinities lie beyond every finite
/// number.
pub proof fn lemma_order_is_numeric(a: Scalar, b: Scalar)
    requires
        a.finite(),
        b.finite(),
    ensures
        a.less(b) <==> a.scaled() < b.scaled(),
        a.same(b) <==> a.scaled() == b.scaled(),
        Scalar::encoded(INFINITY_BITS).negated().less(a),
        a.less(Scalar::encoded(INFINITY_BITS)),
{
    if a.magnitude() < b.magnitude() {
        lemma_size_grows(a, b);
    } else if b.magnitude() < a.magnitude() {
        lemma_size_grows(b, a);
    }
    let zero = Scalar::encoded(0);
    if 0 < a.magnitude() {
        lemma_size_grows(zero, a);
    }
    if 0 < b.magnitude() {
        lemma_size_grows(zero, b);
    }
    assert(zero.size() == 0);
}

/// Negation and absolute value do to the value of a finite number what
/// their names say.
pub proof fn lemma_sign_is_numeric(a: Scalar)
    requires
        a.finite(),
    ensures
        a.negated().finite(),
        a.absolute().finite(),
        a.negated().scaled() == -a.scaled(),
        a.absolute().scaled() == if a.scaled() < 0 {
            -a.scaled()
        } else {
            a.scaled()
        },
{
    if 0 < a.magnitude() {
        lemma_size_grows(Scalar::encoded(0), a);
    }
    assert(a.negated().magnitude() == a.magnitude());
    assert(a.absolute().magnitude() == a.magnitude());
}

/// A number that is a fraction exactly has the value of the fraction, and
/// one that rounds a fraction has a value within half a unit of its last
/// place of it: with values counted in units of two to the power -1075, a
/// unit of the last place of a number with exponent field `e` is two to
/// the power `e`.
pub proof fn lemma_fractions_are_numeric(a: Scalar, num: int, den: int)
    requires
        den > 0,
        1 <= a.exponent() <= 1076,
    ensures
        a.exactly(num, den) <==> den * a.scaled() == num * pow2(1075),
        a.rounds(num, den) <==> {
            let half_unit = pow2((a.exponent() - 1) as nat);
            -den * half_unit <= den * a.scaled() - num * pow2(1075) <= den * half_unit
        },
{
    let e = a.exponent();
    let m = a.significand();
    let p = pow2((e - 1) as nat) as int;
    let u = a.units_in_two();
    let whole = pow2(1075) as int;
    lemma_pow2_pos((e - 1) as nat);
    lemma_pow2_unfold(e as nat);
    lemma_pow2_adds((e - 1) as nat, (1076 - e) as nat);
    assert(p * u == whole);
    assert(a.scaled() == m * (2 * p)) by (nonlinear_arith)
        requires
            a.scaled() == m * pow2(e as nat) || (a.scaled() == -((-m) * pow2(e as nat))),
            pow2(e as nat) == 2 * p,
    ;
    let gap = 2 * den * m - num * u;
    let dm = den * m;
    let nu = num * u;
    assert(den * a.scaled() == dm * (2 * p)) by (nonlinear_arith)
        requires
            a.scaled() == m * (2 * p),
            dm == den * m,
    ;
    assert(nu * p == num * whole) by (nonlinear_arith)
        requires
            nu == num * u,
            p * u == whole,
    ;
    assert(2 * den * m == 2 * dm) by (nonlinear_arith)
        requires
            dm == den * m,
    ;
    assert(gap * p == dm * (2 * p) - nu * p) by (nonlinear_arith)
        requires
            gap == 2 * dm - nu,
    ;
    assert(gap == 0 <==> gap * p == 0) by (nonlinear_arith)
        requires
            p > 0,
    ;
    assert(-den <= gap <= den <==> -den * p <= gap * p <= den * p) by (nonlinear_arith)
        requires
            p > 0,
    ;
}

} // verus!
