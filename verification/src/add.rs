//! Addition of DEC64 values.
//!
//! Operands under one exponent are added coefficient to coefficient.
//! Operands under different exponents are first aligned: the operand
//! with the larger exponent is scaled down toward it while its
//! coefficient can still grow, and only if that is not enough do we
//! give up digits of the smaller operand, truncating toward zero.

use vstd::prelude::*;
use vstd::arithmetic::mul::lemma_mul_is_associative;
use vstd::arithmetic::power::lemma_pow_adds;
use vstd::arithmetic::power::lemma_pow0;
use vstd::arithmetic::power::lemma_pow1;

use crate::num::Dec64;
use crate::num::MIN_COEFFICIENT;
use crate::num::MAX_COEFFICIENT;
use crate::num::coef_in_range;
use crate::num::pow10;
use crate::num::tdiv10;
use crate::pack::pack_spec;

verus! {

/// The widest a coefficient is allowed to grow while exponents are
/// being aligned: `i64::MAX - 2^55`, so that one more coefficient can
/// always be added to it without leaving the 64-bit range.
pub const SCALE_LIMIT: i64 = 9_187_343_239_835_811_839;

/// How many of the `d` tenfold steps toward the smaller exponent the
/// coefficient `c` can take before it would pass `SCALE_LIMIT`.
pub open spec fn scale_steps(c: int, d: nat) -> nat
    decreases d,
{
    if d == 0 {
        0
    } else if 10 * c > SCALE_LIMIT || 10 * c < -SCALE_LIMIT {
        0
    } else {
        1 + scale_steps(10 * c, (d - 1) as nat)
    }
}

/// `c` divided by ten, truncating toward zero, `k` times over.
pub open spec fn tdiv10_iter(c: int, k: nat) -> int
    decreases k,
{
    if k == 0 {
        c
    } else {
        tdiv10_iter(tdiv10(c), (k - 1) as nat)
    }
}

/// The sum of two operands under different exponents, as a
/// (coefficient, exponent) pair before normalization: `chi`/`ehi` is
/// the operand with the larger exponent.  The larger exponent is
/// lowered as far as `scale_steps` allows; whatever difference remains
/// is closed by dropping digits of the smaller operand, truncating
/// toward zero.
pub open spec fn add_slow_spec(chi: int, ehi: int, clo: int, elo: int) -> (int, int) {
    if clo == 0 {
        (chi, ehi)
    } else {
        let d = (ehi - elo) as nat;
        let j = scale_steps(chi, d);
        if j == d {
            pack_spec(chi * pow10(d) + clo, elo)
        } else {
            pack_spec(chi * pow10(j) + tdiv10_iter(clo, (d - j) as nat), ehi - j)
        }
    }
}

/// What `Dec64::add` returns, as a (coefficient, exponent) pair: NaN
/// (0, -128) if either operand is NaN; the exact coefficient sum under
/// the common exponent when the exponents agree, normalized only if it
/// leaves the coefficient range; the aligned sum otherwise.
pub open spec fn add_spec(a: Dec64, b: Dec64) -> (int, int) {
    if a.spec_is_nan() || b.spec_is_nan() {
        (0, -128)
    } else if a.spec_exponent() == b.spec_exponent() {
        let s = a.spec_coefficient() + b.spec_coefficient();
        if coef_in_range(s) {
            (s, a.spec_exponent())
        } else {
            pack_spec(s, a.spec_exponent())
        }
    } else if a.spec_exponent() > b.spec_exponent() {
        add_slow_spec(a.spec_coefficient(), a.spec_exponent(),
            b.spec_coefficient(), b.spec_exponent())
    } else {
        add_slow_spec(b.spec_coefficient(), b.spec_exponent(),
            a.spec_coefficient(), a.spec_exponent())
    }
}

/// Applying one more truncating division is dividing the result so
/// far once more.
proof fn lemma_tdiv10_iter_step(c: int, k: nat)
    ensures
        tdiv10_iter(c, k + 1) == tdiv10(tdiv10_iter(c, k)),
    decreases k,
{
    assert(tdiv10_iter(c, k + 1) == tdiv10_iter(tdiv10(c), k));
    if k == 0 {
        assert(tdiv10_iter(c, 0) == c);
    } else {
        lemma_tdiv10_iter_step(tdiv10(c), (k - 1) as nat);
        assert(tdiv10_iter(c, k) == tdiv10_iter(tdiv10(c), (k - 1) as nat));
    }
}

impl Dec64 {
    /// Add two DEC64 numbers.
    pub fn add(self, other: Dec64) -> (r: Dec64)
        ensures
            r.spec_coefficient() == add_spec(self, other).0,
            r.spec_exponent() == add_spec(self, other).1,
    {
        if self.is_nan() || other.is_nan() {
            return Dec64::nan();
        }

        let c1: i64 = self.coefficient();
        let e1: i8 = self.exponent();
        let c2: i64 = other.coefficient();
        let e2: i8 = other.exponent();

        if e1 == e2 {
            // The exponents match: add the coefficients directly; only
            // a sum outside the coefficient range needs normalizing.
            let sum: i64 = c1 + c2;
            if MIN_COEFFICIENT <= sum && sum <= MAX_COEFFICIENT {
                return Dec64::from_parts(sum, e1);
            }
            return Dec64::pack(sum, e1 as i32);
        }

        let (hi_coef, hi_exp, lo_coef, lo_exp): (i64, i8, i64, i8) = if e1 > e2 {
            (c1, e1, c2, e2)
        } else {
            (c2, e2, c1, e1)
        };

        // Nothing is lost when the lower operand carries no digits.
        if lo_coef == 0 {
            return if e1 > e2 { self } else { other };
        }

        // Lower the larger exponent toward the smaller one: each step
        // multiplies its coefficient by ten.  The 64-bit register
        // leaves plenty of room above the 56-bit coefficient range.
        let d: u32 = (hi_exp as i32 - lo_exp as i32) as u32;
        let mut cc: i64 = hi_coef;
        let mut j: u32 = 0;
        proof {
            lemma_pow0(10);
        }
        loop
            invariant
                j < d,
                d == hi_exp - lo_exp,
                lo_coef != 0,
                coef_in_range(lo_coef as int),
                -127 <= lo_exp,
                -SCALE_LIMIT <= cc <= SCALE_LIMIT,
                cc as int == hi_coef as int * pow10(j as nat),
                scale_steps(cc as int, (d - j) as nat) + j == scale_steps(hi_coef as int, d as nat),
                add_spec(self, other) == add_slow_spec(
                    hi_coef as int, hi_exp as int, lo_coef as int, lo_exp as int),
            ensures
                j < d,
                -SCALE_LIMIT <= cc <= SCALE_LIMIT,
                cc as int == hi_coef as int * pow10(j as nat),
                j == scale_steps(hi_coef as int, d as nat),
            decreases d - j,
        {
            let stop: bool = match cc.checked_mul(10) {
                Some(c10) => c10 > SCALE_LIMIT || c10 < -SCALE_LIMIT,
                None => true,
            };
            if stop {
                // The coefficient cannot grow any further.
                break;
            }
            let c10: i64 = cc * 10;
            proof {
                lemma_mul_is_associative(hi_coef as int, pow10(j as nat), 10);
                assert(pow10((j + 1) as nat) == pow10(j as nat) * 10) by {
                    lemma_pow_adds(10, j as nat, 1);
                    lemma_pow1(10);
                }
                assert(scale_steps(cc as int, (d - j) as nat)
                    == 1 + scale_steps(10 * cc as int, (d - j - 1) as nat));
            }
            cc = c10;
            j = j + 1;
            if j == d {
                // The exponents now match: sum and normalize.
                proof {
                    assert(scale_steps(cc as int, 0) == 0);
                    assert(scale_steps(hi_coef as int, d as nat) == d as int);
                }
                let sum: i64 = cc + lo_coef;
                return Dec64::pack(sum, lo_exp as i32);
            }
        }

        // The larger exponent got stuck at `hi_exp - j`.  Close the
        // remaining gap from below, dropping a digit of the smaller
        // coefficient per step: precision loss, truncating toward
        // zero.  That is the heartbreak of floating point.
        let steps: u32 = d - j;
        let mut lo_c: i64 = lo_coef;
        let mut t: u32 = 0;
        while t < steps
            invariant
                t <= steps,
                MIN_COEFFICIENT <= lo_c <= MAX_COEFFICIENT,
                lo_c as int == tdiv10_iter(lo_coef as int, t as nat),
            decreases steps - t,
        {
            proof {
                lemma_tdiv10_iter_step(lo_coef as int, t as nat);
            }
            lo_c = lo_c / 10;
            t = t + 1;
        }
        let sum: i64 = cc + lo_c;
        Dec64::pack(sum, lo_exp as i32 + steps as i32)
    }
}

} // verus!
