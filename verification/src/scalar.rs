//! Single-precision numbers, carried as their IEEE-754 bit patterns.
//!
//! Coordinates and tracking errors are single-precision binary numbers. A
//! [`Scalar`] holds the 32 bits of such a number and never does machine
//! arithmetic on the number itself: what it stands for is stated as an exact
//! integer, its value times 2^149, and the operations below are proved
//! against that integer.

use vstd::arithmetic::div_mod::lemma_fundamental_div_mod_converse;
use vstd::arithmetic::power2::{lemma2_to64, lemma_pow2_adds, lemma_pow2_pos, pow2};
use vstd::bits::{lemma_u64_shl_is_mul, lemma_u64_shr_is_div};
use vstd::prelude::*;

verus! {

/// The bit pattern of a single-precision number: one sign bit, eight
/// exponent bits, twenty-three fraction bits.
///
/// Two scalars are equal when their bits are: a not-a-number equals itself,
/// and the two zeros differ.
#[derive(Clone, Copy, Debug, PartialEq, Eq, Structural)]
pub struct Scalar {
    pub bits: u32,
}

/// One above the largest fraction field: 2^23.
pub const FRACTION_SPAN: u32 = 0x80_0000;

/// One above the largest pattern without its sign bit: 2^31.
pub const SIGN_BIT: u32 = 0x8000_0000;

/// The pattern of positive infinity. Larger magnitudes are not numbers.
pub const INFINITY_BITS: u32 = 0x7f80_0000;

impl Scalar {
    /// The sign bit is set.
    pub open spec fn negative(self) -> bool {
        self.bits >= SIGN_BIT
    }

    /// The pattern without its sign bit.
    pub open spec fn magnitude(self) -> int {
        self.bits as int % SIGN_BIT as int
    }

    /// The biased exponent field, from 0 to 255.
    pub open spec fn exponent(self) -> int {
        self.magnitude() / FRACTION_SPAN as int
    }

    /// The fraction field, below 2^23.
    pub open spec fn fraction(self) -> int {
        self.magnitude() % FRACTION_SPAN as int
    }

    /// Not a number: the exponent field is full and the fraction is not zero.
    pub open spec fn is_nan(self) -> bool {
        self.exponent() == 255 && self.fraction() != 0
    }

    /// Neither an infinity nor a not-a-number.
    pub open spec fn is_finite(self) -> bool {
        self.exponent() < 255
    }

    /// The significand as an integer: the fraction, with the implicit
    /// leading one unless the exponent field is zero.
    pub open spec fn significand(self) -> int {
        if self.exponent() == 0 {
            self.fraction()
        } else {
            FRACTION_SPAN + self.fraction()
        }
    }

    /// The power of two by which the significand is scaled in
    /// [`Self::numerator`].
    pub open spec fn scale(self) -> nat {
        if self.exponent() == 0 {
            0
        } else {
            (self.exponent() - 1) as nat
        }
    }

    /// The value times 2^149, which is an integer for every finite scalar:
    /// the significand times two to the scale, with the sign. An infinity
    /// gets 2^277 with its sign, beyond every finite scalar.
    #[verifier::opaque]
    pub open spec fn numerator(self) -> int {
        if self.negative() {
            -(self.significand() * pow2(self.scale()))
        } else {
            self.significand() * pow2(self.scale())
        }
    }

    /// Numeric less-than: false when either side is not a number, else the
    /// order of the values. The two zeros are equal in it.
    pub open spec fn spec_lt(self, other: Scalar) -> bool {
        !self.is_nan() && !other.is_nan() && self.numerator() < other.numerator()
    }

    /// The largest integer that is not above the value.
    #[verifier::opaque]
    pub open spec fn spec_floor(self) -> int
        recommends
            self.is_finite(),
    {
        self.numerator() / pow2(149) as int
    }

    /// The scalar with the given bits.
    pub fn from_bits(bits: u32) -> (s: Scalar)
        ensures
            s.bits == bits,
    {
        Scalar { bits }
    }

    /// The bits of the scalar.
    pub fn to_bits(&self) -> (bits: u32)
        ensures
            bits == self.bits,
    {
        self.bits
    }

    /// The floor where the scalar is finite and its floor is a 64-bit
    /// integer, and nothing otherwise.
    pub open spec fn spec_checked_floor(self) -> Option<i64> {
        if self.is_finite() && i64::MIN <= self.spec_floor() <= i64::MAX {
            Some(self.spec_floor() as i64)
        } else {
            None
        }
    }

    /// The largest integer that is not above the value. There is none for an
    /// infinity or a not-a-number, and none is given where it would not fit
    /// in 64 bits.
    pub fn floor(&self) -> (floor: Option<i64>)
        ensures
            floor == self.spec_checked_floor(),
    {
        proof {
            reveal(Scalar::numerator);
            reveal(Scalar::spec_floor);
        }
        let m: u32 = self.bits % SIGN_BIT;
        let e: u32 = m / FRACTION_SPAN;
        let f: u32 = m % FRACTION_SPAN;
        let negative: bool = self.bits >= SIGN_BIT;
        if e == 255 {
            return None;
        }
        let significand: u64 = if e == 0 { f as u64 } else { (FRACTION_SPAN + f) as u64 };
        let scale: u32 = if e == 0 { 0 } else { e - 1 };
        if scale >= 149 {
            // The value is an integer: the significand times 2^k.
            let k: u64 = (scale - 149) as u64;
            proof {
                lemma_floor_of_integer(significand as int, k as nat);
                lemma_pow2_at_forty(k as nat);
            }
            if k <= 39 {
                proof {
                    assert(significand * pow2(k as nat) < 0x8000_0000_0000_0000) by (nonlinear_arith)
                        requires
                            0 <= significand < 0x100_0000,
                            0 < pow2(k as nat) <= 0x80_0000_0000,
                    ;
                    lemma_u64_shl_is_mul(significand, k);
                }
                let magnitude: u64 = significand << k;
                if negative {
                    Some(-(magnitude as i64))
                } else {
                    Some(magnitude as i64)
                }
            } else {
                proof {
                    lemma_product_beyond_range(significand as int, pow2(k as nat) as int);
                }
                if negative && k == 40 && f == 0 {
                    Some(i64::MIN)
                } else {
                    None
                }
            }
        } else {
            // The value has a fractional part of k bits.
            let k: u64 = (149 - scale) as u64;
            let quotient: u64;
            let remainder: u64;
            if k >= 24 {
                proof {
                    lemma_pow2_from_twenty_four(k as nat);
                    vstd::arithmetic::div_mod::lemma_small_mod(
                        significand as nat,
                        pow2(k as nat),
                    );
                    vstd::arithmetic::div_mod::lemma_basic_div(
                        significand as int,
                        pow2(k as nat) as int,
                    );
                }
                quotient = 0;
                remainder = significand;
            } else {
                proof {
                    lemma2_to64();
                    vstd::arithmetic::power2::lemma_pow2_strictly_increases(k as nat, 24);
                    lemma_u64_shr_is_div(significand, k);
                    lemma_u64_shl_is_mul(1, k);
                }
                quotient = significand >> k;
                remainder = significand % (1u64 << k);
            }
            proof {
                lemma_floor_of_fraction(significand as int, scale as nat, k as nat);
            }
            if !negative {
                Some(quotient as i64)
            } else if remainder == 0 {
                Some(-(quotient as i64))
            } else {
                Some(-(quotient as i64) - 1)
            }
        }
    }

    /// Whether `self` is numerically less than `other`.
    pub fn lt(&self, other: &Scalar) -> (less: bool)
        ensures
            less == self.spec_lt(*other),
    {
        let a: u32 = self.bits % SIGN_BIT;
        let b: u32 = other.bits % SIGN_BIT;
        if a > INFINITY_BITS || b > INFINITY_BITS {
            return false;
        }
        let key_a: i64 = if self.bits >= SIGN_BIT { -(a as i64) } else { a as i64 };
        let key_b: i64 = if other.bits >= SIGN_BIT { -(b as i64) } else { b as i64 };
        proof {
            lemma_numerator_follows_bits(*self, *other);
        }
        key_a < key_b
    }
}

/// Where the scale is at least 149 the value is an integer, and its own floor.
proof fn lemma_floor_of_integer(significand: int, k: nat)
    ensures
        (significand * pow2(k + 149)) / pow2(149) as int == significand * pow2(k),
        (-(significand * pow2(k + 149))) / pow2(149) as int == -(significand * pow2(k)),
{
    let d = pow2(149) as int;
    let p = pow2(k) as int;
    lemma_pow2_pos(149);
    lemma_pow2_adds(k, 149);
    assert(significand * (p * d) == (significand * p) * d + 0) by (nonlinear_arith);
    assert(-(significand * (p * d)) == (-(significand * p)) * d + 0) by (nonlinear_arith);
    lemma_fundamental_div_mod_converse(significand * pow2(k + 149), d, significand * p, 0);
    lemma_fundamental_div_mod_converse(-(significand * pow2(k + 149)), d, -(significand * p), 0);
}

/// Where the scale is below 149 the floor drops the last `k` bits of the
/// significand, and for a negative value steps one down if any was set.
proof fn lemma_floor_of_fraction(significand: int, scale: nat, k: nat)
    requires
        0 <= significand,
        scale + k == 149,
    ensures
        (significand * pow2(scale)) / pow2(149) as int == significand / pow2(k) as int,
        (-(significand * pow2(scale))) / pow2(149) as int == if significand % pow2(k) as int
            == 0 {
            -(significand / pow2(k) as int)
        } else {
            -(significand / pow2(k) as int) - 1
        },
{
    let d = pow2(149) as int;
    let p = pow2(scale) as int;
    let c = pow2(k) as int;
    let q = significand / c;
    let r = significand % c;
    lemma_pow2_pos(149);
    lemma_pow2_pos(scale);
    lemma_pow2_pos(k);
    lemma_pow2_adds(scale, k);
    assert(d == p * c);
    vstd::arithmetic::div_mod::lemma_fundamental_div_mod(significand, c);
    assert(significand == c * q + r);
    assert(0 <= r < c);
    assert(0 <= r * p < d && (r > 0 ==> 0 < r * p)) by (nonlinear_arith)
        requires
            0 <= r < c,
            0 < p,
            d == p * c,
    ;
    assert(significand * p == q * d + r * p) by (nonlinear_arith)
        requires
            significand == c * q + r,
            d == p * c,
    ;
    lemma_fundamental_div_mod_converse(significand * p, d, q, r * p);
    if r == 0 {
        assert(-(significand * p) == (-q) * d + 0) by (nonlinear_arith)
            requires
                significand * p == q * d + r * p,
                r == 0,
        ;
        lemma_fundamental_div_mod_converse(-(significand * p), d, -q, 0);
    } else {
        assert(-(significand * p) == (-q - 1) * d + (d - r * p)) by (nonlinear_arith)
            requires
                significand * p == q * d + r * p,
        ;
        lemma_fundamental_div_mod_converse(-(significand * p), d, -q - 1, d - r * p);
    }
}

/// A significand with its leading one, times a power from 2^40 on, is at
/// least 2^63, and is 2^63 only as 2^23 times 2^40.
proof fn lemma_product_beyond_range(significand: int, power: int)
    requires
        0x80_0000 <= significand,
        0x100_0000_0000 <= power,
    ensures
        significand * power >= 0x8000_0000_0000_0000,
        significand * power == 0x8000_0000_0000_0000 <==> (significand == 0x80_0000 && power
            == 0x100_0000_0000),
{
    assert(significand * power >= 0x80_0000 * power) by (nonlinear_arith)
        requires
            0x80_0000 <= significand,
            0 < power,
    ;
    if significand > 0x80_0000 {
        assert(significand * power >= 0x80_0001 * power) by (nonlinear_arith)
            requires
                0x80_0001 <= significand,
                0 < power,
        ;
    }
}

/// Powers of two around 2^40, the first that takes a significand out of the
/// 64-bit range.
proof fn lemma_pow2_at_forty(k: nat)
    ensures
        k <= 39 ==> 0 < pow2(k) <= 0x80_0000_0000,
        k == 40 ==> pow2(k) == 0x100_0000_0000,
        k >= 40 ==> pow2(k) >= 0x100_0000_0000,
        k > 40 ==> pow2(k) >= 0x200_0000_0000,
{
    lemma2_to64();
    vstd::arithmetic::power2::lemma2_to64_rest();
    lemma_pow2_pos(k);
    if k < 39 {
        vstd::arithmetic::power2::lemma_pow2_strictly_increases(k, 39);
    }
    if k > 41 {
        vstd::arithmetic::power2::lemma_pow2_strictly_increases(41, k);
    }
}

/// From 2^24 on a power of two is above every significand.
proof fn lemma_pow2_from_twenty_four(k: nat)
    requires
        k >= 24,
    ensures
        pow2(k) >= 0x100_0000,
{
    lemma2_to64();
    if k > 24 {
        vstd::arithmetic::power2::lemma_pow2_strictly_increases(24, k);
    }
}

/// The integer for which the bits of a number that is no not-a-number are
/// ordered as the numbers are: the magnitude, with the sign.
pub open spec fn order_key(s: Scalar) -> int {
    if s.negative() {
        -s.magnitude()
    } else {
        s.magnitude()
    }
}

/// The numerator of a pattern without sign, as a function of that pattern.
pub open spec fn magnitude_numerator(m: int) -> int {
    let e = m / FRACTION_SPAN as int;
    let f = m % FRACTION_SPAN as int;
    if e == 0 {
        f * pow2(0)
    } else {
        (FRACTION_SPAN + f) * pow2((e - 1) as nat)
    }
}

proof fn lemma_scaled_product_grows(a: int, b: int, p: int, q: int)
    requires
        0 <= a < b,
        0 < p <= q,
    ensures
        a * p < b * q,
{
    assert(a * p < b * p) by (nonlinear_arith)
        requires
            0 <= a < b,
            0 < p,
    ;
    assert(b * p <= b * q) by (nonlinear_arith)
        requires
            0 < b,
            0 < p <= q,
    ;
}

/// Between two patterns without sign, up to that of infinity, the larger
/// pattern has the larger numerator.
pub proof fn lemma_magnitude_numerator_increases(m1: int, m2: int)
    requires
        0 <= m1 < m2 <= INFINITY_BITS,
    ensures
        0 <= magnitude_numerator(m1) < magnitude_numerator(m2),
{
    let e1 = m1 / FRACTION_SPAN as int;
    let f1 = m1 % FRACTION_SPAN as int;
    let e2 = m2 / FRACTION_SPAN as int;
    let f2 = m2 % FRACTION_SPAN as int;
    let s1: nat = if e1 == 0 { 0 } else { (e1 - 1) as nat };
    let s2: nat = if e2 == 0 { 0 } else { (e2 - 1) as nat };
    let g1 = if e1 == 0 { f1 } else { FRACTION_SPAN + f1 };
    let g2 = if e2 == 0 { f2 } else { FRACTION_SPAN + f2 };
    lemma_pow2_pos(s1);
    lemma_pow2_pos(s2);
    assert(0 <= g1 * pow2(s1)) by (nonlinear_arith)
        requires
            0 <= g1,
            0 < pow2(s1),
    ;
    if e1 == e2 {
        lemma_scaled_product_grows(g1, g2, pow2(s1) as int, pow2(s2) as int);
    } else if e1 == 0 {
        lemma2_to64();
        assert(g1 < g2);
        lemma_scaled_product_grows(g1, g2, pow2(s1) as int, pow2(s2) as int);
    } else {
        // One more in the exponent doubles the power, which outweighs any
        // difference between two significands.
        lemma_pow2_adds(1, s1);
        lemma2_to64();
        assert(pow2(s1 + 1) == 2 * pow2(s1));
        if s1 + 1 < s2 {
            vstd::arithmetic::power2::lemma_pow2_strictly_increases(s1 + 1, s2);
        }
        let p = pow2(s1) as int;
        let q = pow2(s2) as int;
        assert(2 * p <= q);
        assert(g1 * p < g2 * q) by (nonlinear_arith)
            requires
                0 <= g1 < 2 * FRACTION_SPAN,
                FRACTION_SPAN <= g2,
                0 < p,
                2 * p <= q,
        ;
    }
}

/// Of two scalars that are no not-a-number, one has the smaller numerator
/// exactly if it has the smaller order key.
pub proof fn lemma_numerator_follows_bits(a: Scalar, b: Scalar)
    requires
        !a.is_nan(),
        !b.is_nan(),
    ensures
        (a.numerator() < b.numerator()) == (order_key(a) < order_key(b)),
{
    reveal(Scalar::numerator);
    let ma = a.magnitude();
    let mb = b.magnitude();
    assert(a.significand() * pow2(a.scale()) == magnitude_numerator(ma));
    assert(b.significand() * pow2(b.scale()) == magnitude_numerator(mb));
    assert(magnitude_numerator(0) == 0) by {
        lemma2_to64();
    }
    if 0 < ma {
        lemma_magnitude_numerator_increases(0, ma);
    }
    if 0 < mb {
        lemma_magnitude_numerator_increases(0, mb);
    }
    if ma < mb {
        lemma_magnitude_numerator_increases(ma, mb);
    } else if mb < ma {
        lemma_magnitude_numerator_increases(mb, ma);
    }
}

} // verus!
