//! Numbers: integers, and floating-point numbers held as bit patterns.
//!
//! The engine never computes with floating-point numbers. It carries them as
//! the 64 bits of their IEEE 754 binary64 form, reads their class and their
//! order from the bits, and leaves their arithmetic to the embedding program.

use vstd::prelude::*;

verus! {

/// The result of comparing two values that can be compared.
#[derive(Clone, Copy, Debug, PartialEq, Eq, Structural)]
pub enum Rank {
    Less,
    Equal,
    Greater,
}

/// The rank of one integer against another.
pub open spec fn int_rank(a: int, b: int) -> Rank {
    if a < b {
        Rank::Less
    } else if a == b {
        Rank::Equal
    } else {
        Rank::Greater
    }
}

/// A floating-point number, as the bits of its IEEE 754 binary64 form:
/// one sign bit, eleven exponent bits, fifty-two fraction bits.
#[derive(Clone, Copy, Debug, PartialEq, Eq, Structural)]
pub struct Float {
    pub bits: u64,
}

/// Two to the power 52: the number of fraction patterns.
pub const FRACTIONS: u64 = 0x10_0000_0000_0000;

/// Two to the power 63: the sign bit.
pub const SIGN: u64 = 0x8000_0000_0000_0000;

impl Float {
    /// The exponent field, 0 to 2047.
    pub open spec fn exponent(self) -> int {
        (self.bits as int / FRACTIONS as int) % 2048
    }

    /// The fraction field.
    pub open spec fn fraction(self) -> int {
        self.bits as int % FRACTIONS as int
    }

    /// Whether the sign bit is set.
    pub open spec fn negative(self) -> bool {
        self.bits >= SIGN
    }

    /// The bits without the sign bit.
    pub open spec fn magnitude(self) -> int {
        self.bits as int % SIGN as int
    }

    /// Not a number: the exponent is all ones and the fraction is not zero.
    pub open spec fn nan(self) -> bool {
        self.exponent() == 2047 && self.fraction() != 0
    }

    /// Normal: neither zero, subnormal, infinite nor not a number. The
    /// exponent field is then neither all zeros nor all ones.
    pub open spec fn normal(self) -> bool {
        self.exponent() != 0 && self.exponent() != 2047
    }

    /// The place of a number that is not NaN on the number line of bit
    /// patterns: the magnitude, negated where the sign bit is set. Both
    /// zeros have place 0.
    pub open spec fn place(self) -> int {
        if self.negative() {
            -self.magnitude()
        } else {
            self.magnitude()
        }
    }

    /// The order of two floating-point numbers: none where either is NaN,
    /// else the order of their places.
    pub open spec fn rank(self, other: Float) -> Option<Rank> {
        if self.nan() || other.nan() {
            None
        } else {
            Some(int_rank(self.place(), other.place()))
        }
    }

    /// Whether the number is not a number.
    pub fn is_nan(&self) -> (r: bool)
        ensures
            r == self.nan(),
    {
        (self.bits / FRACTIONS) % 2048 == 2047 && self.bits % FRACTIONS != 0
    }

    /// Whether the number is normal.
    pub fn is_normal(&self) -> (r: bool)
        ensures
            r == self.normal(),
    {
        let exponent: u64 = (self.bits / FRACTIONS) % 2048;
        exponent != 0 && exponent != 2047
    }

    /// Compares two floating-point numbers as IEEE 754 orders them.
    pub fn compare(&self, other: &Float) -> (r: Option<Rank>)
        ensures
            r == self.rank(*other),
    {
        if self.is_nan() || other.is_nan() {
            return None;
        }
        let a: u64 = self.bits % SIGN;
        let b: u64 = other.bits % SIGN;
        let rank = if self.bits >= SIGN {
            if other.bits >= SIGN {
                // both negative: the larger magnitude is the smaller number
                if a > b {
                    Rank::Less
                } else if a == b {
                    Rank::Equal
                } else {
                    Rank::Greater
                }
            } else if a == 0 && b == 0 {
                Rank::Equal
            } else {
                Rank::Less
            }
        } else if other.bits >= SIGN {
            if a == 0 && b == 0 {
                Rank::Equal
            } else {
                Rank::Greater
            }
        } else if a < b {
            Rank::Less
        } else if a == b {
            Rank::Equal
        } else {
            Rank::Greater
        };
        Some(rank)
    }
}

/// Whether an integer fits the machine's integer type.
pub open spec fn fits(x: int) -> bool {
    isize::MIN <= x <= isize::MAX
}

/// The quotient of a division that rounds toward zero. The divisor is not zero.
pub open spec fn quotient(x: int, d: int) -> int {
    if x >= 0 && d > 0 {
        x / d
    } else if x < 0 && d < 0 {
        (-x) / (-d)
    } else if x < 0 {
        -((-x) / d)
    } else {
        -(x / (-d))
    }
}

/// The remainder of a division that rounds toward zero: it has the sign of
/// the dividend. The divisor is not zero.
pub open spec fn remainder(x: int, d: int) -> int {
    if x >= 0 && d > 0 {
        x % d
    } else if x < 0 && d < 0 {
        -((-x) % (-d))
    } else if x < 0 {
        -((-x) % d)
    } else {
        x % (-d)
    }
}

/// The base multiplied by itself `exponent` times.
pub open spec fn power(base: int, exponent: nat) -> int
    decreases exponent,
{
    if exponent == 0 {
        1
    } else {
        base * power(base, (exponent - 1) as nat)
    }
}

/// The absolute value.
pub open spec fn magnitude(x: int) -> int {
    if x < 0 {
        -x
    } else {
        x
    }
}

/// The sum, where it fits.
pub fn checked_sum(a: isize, b: isize) -> (r: Option<isize>)
    ensures
        r == (if fits(a + b) {
            Some((a + b) as isize)
        } else {
            None
        }),
{
    a.checked_add(b)
}

/// The difference, where it fits.
pub fn checked_difference(a: isize, b: isize) -> (r: Option<isize>)
    ensures
        r == (if fits(a - b) {
            Some((a - b) as isize)
        } else {
            None
        }),
{
    a.checked_sub(b)
}

/// The product, where it fits.
pub fn checked_product(a: isize, b: isize) -> (r: Option<isize>)
    ensures
        r == (if fits(a * b) {
            Some((a * b) as isize)
        } else {
            None
        }),
{
    a.checked_mul(b)
}

/// The quotient rounded toward zero, where the divisor is not zero and the
/// quotient fits.
pub fn checked_quotient(a: isize, b: isize) -> (r: Option<isize>)
    ensures
        r == (if b != 0 && fits(quotient(a as int, b as int)) {
            Some(quotient(a as int, b as int) as isize)
        } else {
            None
        }),
{
    a.checked_div(b)
}

/// The remainder with the sign of the dividend, where the divisor is not
/// zero and the quotient fits.
pub fn checked_remainder(a: isize, b: isize) -> (r: Option<isize>)
    ensures
        r == (if b != 0 && fits(quotient(a as int, b as int)) {
            Some(remainder(a as int, b as int) as isize)
        } else {
            None
        }),
{
    proof {
        if b != 0 {
            lemma_remainder_bounds(a as int, b as int);
            lemma_quotient_bounds(a as int, b as int);
        }
    }
    a.checked_rem(b)
}

/// The remainder lies between zero and the dividend.
pub proof fn lemma_remainder_bounds(x: int, d: int)
    requires
        d != 0,
    ensures
        x >= 0 ==> 0 <= remainder(x, d) <= x,
        x < 0 ==> x <= remainder(x, d) <= 0,
{
    let ax = magnitude(x);
    let ad = magnitude(d);
    vstd::arithmetic::div_mod::lemma_fundamental_div_mod(ax, ad);
    vstd::arithmetic::div_mod::lemma_mod_bound(ax, ad);
    vstd::arithmetic::div_mod::lemma_div_pos_is_pos(ax, ad);
    assert(ad * (ax / ad) >= 0) by (nonlinear_arith)
        requires
            ad > 0,
            ax / ad >= 0,
    ;
}

/// The quotient is no larger in size than the dividend, and smaller where
/// the divisor is neither 1 nor -1 and the dividend is not zero.
pub proof fn lemma_quotient_bounds(x: int, d: int)
    requires
        d != 0,
    ensures
        magnitude(quotient(x, d)) <= magnitude(x),
        d == 1 ==> quotient(x, d) == x,
        d == -1 ==> quotient(x, d) == -x,
        magnitude(d) >= 2 && x != 0 ==> magnitude(quotient(x, d)) < magnitude(x),
{
    let ax = magnitude(x);
    let ad = magnitude(d);
    vstd::arithmetic::div_mod::lemma_div_pos_is_pos(ax, ad);
    vstd::arithmetic::div_mod::lemma_div_is_ordered_by_denominator(ax, 1, ad);
    assert(ax / 1 == ax);
    if ad >= 2 && x != 0 {
        vstd::arithmetic::div_mod::lemma_div_is_ordered_by_denominator(ax, 2, ad);
        assert(ax / 2 < ax);
    }
}

/// The power with the given integer exponent, where the exponent is not
/// negative and the power fits.
pub fn checked_power(base: isize, exponent: isize) -> (r: Option<isize>)
    ensures
        r == (if exponent >= 0 && fits(power(base as int, exponent as nat)) {
            Some(power(base as int, exponent as nat) as isize)
        } else {
            None
        }),
{
    if exponent < 0 {
        return None;
    }
    if exponent == 0 {
        return Some(1);
    }
    if base == 0 || base == 1 {
        proof {
            lemma_power_of_unit(exponent as nat);
        }
        return Some(base);
    }
    if base == -1 {
        proof {
            lemma_power_of_unit(exponent as nat);
        }
        return Some(
            if exponent % 2 == 0 {
                1
            } else {
                -1
            },
        );
    }
    let mut result: isize = 1;
    let mut done: isize = 0;
    while done < exponent
        invariant
            0 <= done <= exponent,
            result == power(base as int, done as nat),
            magnitude(base as int) >= 2,
        decreases exponent - done,
    {
        match result.checked_mul(base) {
            Some(next) => {
                assert(result * base == base * result) by (nonlinear_arith);
                result = next;
                done += 1;
            },
            None => {
                proof {
                    assert(result * base == base * result) by (nonlinear_arith);
                    lemma_power_grows(base as int, (done + 1) as nat, exponent as nat);
                }
                return None;
            },
        }
    }
    Some(result)
}

/// The powers of 0, 1 and -1.
pub proof fn lemma_power_of_unit(exponent: nat)
    ensures
        exponent > 0 ==> power(0, exponent) == 0,
        power(1, exponent) == 1,
        power(-1, exponent) == (if exponent % 2 == 0 {
            1int
        } else {
            -1int
        }),
    decreases exponent,
{
    if exponent > 0 {
        lemma_power_of_unit((exponent - 1) as nat);
    }
}

/// The powers of a base of size two or more grow in size: each is at least
/// twice the one before, and none is zero.
pub proof fn lemma_power_grows(base: int, low: nat, high: nat)
    requires
        magnitude(base) >= 2,
        low <= high,
    ensures
        magnitude(power(base, low)) >= 1,
        magnitude(power(base, high)) >= magnitude(power(base, low)),
        low < high ==> magnitude(power(base, high)) >= 2 * magnitude(power(base, low)),
    decreases high,
{
    if low < high {
        let before = power(base, (high - 1) as nat);
        lemma_power_grows(base, low, (high - 1) as nat);
        assert(magnitude(base * before) >= 2 * magnitude(before)) by (nonlinear_arith)
            requires
                magnitude(base) >= 2,
        ;
    } else if low > 0 {
        lemma_power_grows(base, (low - 1) as nat, (low - 1) as nat);
        let before = power(base, (low - 1) as nat);
        assert(magnitude(base * before) >= 2 * magnitude(before)) by (nonlinear_arith)
            requires
                magnitude(base) >= 2,
        ;
    }
}

} // verus!
