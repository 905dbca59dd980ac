//! Binary double-precision numbers by their bits: the order the rules compare
//! seconds and percentages with, without computing on them.

use vstd::arithmetic::power2::pow2;
use vstd::prelude::*;

verus! {

/// The bits of a double-precision number.
#[derive(Debug, Clone, Copy, PartialEq, Eq, Structural)]
pub struct Scalar {
    /// Sign, eleven bits of exponent and fifty-two of fraction.
    pub bits: u64,
}

/// The sign bit.
pub const SIGN: u64 = 0x8000_0000_0000_0000;

/// The magnitude bits of infinity; larger ones are no number.
pub const INFINITY: u64 = 0x7FF0_0000_0000_0000;

/// Two to the power of the number of fraction bits.
pub const FRACTION: u64 = 0x0010_0000_0000_0000;

impl Scalar {
    /// The magnitude bits.
    pub open spec fn magnitude(self) -> int {
        if self.bits >= SIGN {
            self.bits - SIGN
        } else {
            self.bits as int
        }
    }

    /// Whether this is no number.
    pub open spec fn is_nan(self) -> bool {
        self.magnitude() > INFINITY
    }

    /// Whether this is a finite number.
    pub open spec fn is_finite(self) -> bool {
        self.magnitude() < INFINITY
    }

    /// Where the number stands in the order of all numbers; both zeros stand
    /// at zero.
    pub open spec fn rank(self) -> int {
        if self.bits >= SIGN {
            -self.magnitude()
        } else {
            self.magnitude()
        }
    }

    /// The number, in units of the smallest positive one.
    pub open spec fn units(self) -> int {
        if self.bits >= SIGN {
            -units_of(self.magnitude())
        } else {
            units_of(self.magnitude())
        }
    }

    /// Whether this number is less than `other`; false if either is none.
    pub open spec fn less(self, other: Scalar) -> bool {
        !self.is_nan() && !other.is_nan() && self.rank() < other.rank()
    }

    fn rank_exec(self) -> (r: i64)
        ensures
            r as int == self.rank(),
    {
        if self.bits >= SIGN {
            -((self.bits - SIGN) as i64)
        } else {
            self.bits as i64
        }
    }

    fn nan(self) -> (r: bool)
        ensures
            r == self.is_nan(),
    {
        let m: u64 = if self.bits >= SIGN {
            self.bits - SIGN
        } else {
            self.bits
        };
        m > INFINITY
    }

    /// Whether this number is less than `other`; false if either is none.
    pub fn lt(self, other: Scalar) -> (r: bool)
        ensures
            r == self.less(other),
    {
        !self.nan() && !other.nan() && self.rank_exec() < other.rank_exec()
    }
}

/// The value of finite magnitude bits in units of the smallest positive
/// number: the fraction, with a leading one unless the exponent is zero,
/// doubled once for each exponent above one.
pub open spec fn units_of(magnitude: int) -> int {
    let exponent = magnitude / (FRACTION as int);
    let fraction = magnitude % (FRACTION as int);
    if exponent == 0 {
        fraction
    } else {
        (FRACTION + fraction) * pow2((exponent - 1) as nat)
    }
}

proof fn units_step(m: int)
    requires
        0 <= m < INFINITY,
    ensures
        units_of(m) < units_of(m + 1),
{
    let d = FRACTION as int;
    let e = m / d;
    let f = m % d;
    vstd::arithmetic::div_mod::lemma_fundamental_div_mod(m, d);
    assert(d * e == e * d) by (nonlinear_arith);
    vstd::arithmetic::power2::lemma_pow2_pos((e - 1) as nat);
    vstd::arithmetic::power2::lemma_pow2_pos(e as nat);
    vstd::arithmetic::power2::lemma2_to64();
    if f + 1 < d {
        vstd::arithmetic::div_mod::lemma_fundamental_div_mod_converse(m + 1, d, e, f + 1);
        if e > 0 {
            let p = pow2((e - 1) as nat) as int;
            assert((d + f) * p < (d + f + 1) * p) by (nonlinear_arith)
                requires
                    p > 0,
            ;
        }
    } else {
        assert((e + 1) * d == e * d + d) by (nonlinear_arith);
        vstd::arithmetic::div_mod::lemma_fundamental_div_mod_converse(m + 1, d, e + 1, 0);
        if e > 0 {
            vstd::arithmetic::power2::lemma_pow2_unfold(e as nat);
            let p = pow2((e - 1) as nat) as int;
            assert((d + f) * p < (d + 0) * (2 * p)) by (nonlinear_arith)
                requires
                    p > 0,
                    f == d - 1,
            ;
        } else {
            assert(pow2(0) == 1);
        }
    }
}

proof fn units_grow(m: int, n: int)
    requires
        0 <= m <= n < INFINITY,
    ensures
        m < n ==> units_of(m) < units_of(n),
    decreases n - m,
{
    if m < n {
        units_grow(m, n - 1);
        units_step(n - 1);
    }
}

/// On finite numbers the order is that of their values.
pub proof fn order_is_by_value(a: Scalar, b: Scalar)
    requires
        a.is_finite(),
        b.is_finite(),
    ensures
        a.less(b) <==> a.units() < b.units(),
{
    let m = a.magnitude();
    let n = b.magnitude();
    if m <= n {
        units_grow(m, n);
    } else {
        units_grow(n, m);
    }
    units_grow(0, m);
    units_grow(0, n);
}

/// The sign bit alone makes a number its opposite; both zeros are equal, and
/// what is no number stays none.
pub proof fn sign_makes_the_opposite(a: Scalar, b: Scalar)
    requires
        a.bits < 0x8000_0000_0000_0000,
        b.bits == a.bits + 0x8000_0000_0000_0000,
    ensures
        a.is_nan() <==> b.is_nan(),
        a.is_finite() <==> b.is_finite(),
        b.units() == -a.units(),
        b.less(a) <==> a.bits > 0 && !a.is_nan(),
        !a.less(b),
        a.bits < 0x0010_0000_0000_0000 ==> a.units() == a.bits,
{
    if a.bits < 0x0010_0000_0000_0000 {
        vstd::arithmetic::div_mod::lemma_small_mod(a.bits as nat, FRACTION as nat);
        vstd::arithmetic::div_mod::lemma_basic_div(a.bits as int, FRACTION as int);
    }
}

/// Infinity is a number, above every finite one; what is no number stands in no
/// order.
pub proof fn infinity_is_above_and_nan_apart(a: Scalar, b: Scalar)
    ensures
        !(Scalar { bits: 0x7FF0_0000_0000_0000 }).is_nan(),
        a.is_finite() ==> a.less(Scalar { bits: 0x7FF0_0000_0000_0000 }),
        a.is_finite() ==> (Scalar { bits: 0xFFF0_0000_0000_0000 }).less(a),
        (Scalar { bits: 0x7FF0_0000_0000_0001 }).is_nan(),
        a.is_nan() || b.is_nan() ==> !a.less(b),
        !a.is_nan() && !b.is_nan() ==> a.less(b) || b.less(a) || a.rank() == b.rank(),
        !(a.less(b) && b.less(a)),
{
}

} // verus!
