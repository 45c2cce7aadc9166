//! Equality of DEC64 values.
//!
//! All zeros are equal to one another, whatever their exponents; two
//! NaNs are equal only when they hold the same coefficient payload;
//! and two normal numbers are equal exactly when they denote the same
//! number, even under different exponents (`10 * 10^0 == 1 * 10^1`).

use vstd::prelude::*;
use vstd::arithmetic::mul::lemma_mul_equality_converse;
use vstd::arithmetic::mul::lemma_mul_is_associative;
use vstd::arithmetic::power::lemma_pow_adds;
use vstd::arithmetic::power::lemma_pow_positive;

use crate::num::Dec64;
use crate::num::MIN_COEFFICIENT;
use crate::num::MAX_COEFFICIENT;
use crate::num::coef_in_range;
use crate::num::pow10;

verus! {

impl Dec64 {
    /// What `==` means on DEC64 values: NaNs compare by their exact
    /// bits, everything else by the number it denotes.
    pub open spec fn spec_eq(self, other: Dec64) -> bool {
        if self.spec_is_nan() || other.spec_is_nan() {
            self.same_parts(other)
        } else {
            self.scaled_value() == other.scaled_value()
        }
    }
}

/// Two non-NaN values denote the same number exactly when the
/// coefficient of the one with the larger exponent, scaled up by the
/// exponent difference, matches the other coefficient.
proof fn lemma_scaled_eq_iff_aligned(chi: int, ehi: int, clo: int, elo: int)
    requires
        -127 <= elo <= ehi <= 127,
    ensures
        (chi * pow10((ehi + 127) as nat) == clo * pow10((elo + 127) as nat))
            <==> (chi * pow10((ehi - elo) as nat) == clo),
{
    let d = (ehi - elo) as nat;
    let low = (elo + 127) as nat;
    let pl = pow10(low);
    lemma_pow_positive(10, low);
    lemma_pow_adds(10, d, low);
    lemma_mul_is_associative(chi, pow10(d), pl);
    assert(chi * pow10((ehi + 127) as nat) == (chi * pow10(d)) * pl);
    if (chi * pow10(d)) * pl == clo * pl {
        vstd::arithmetic::mul::lemma_mul_is_commutative(chi * pow10(d), pl);
        vstd::arithmetic::mul::lemma_mul_is_commutative(clo, pl);
        lemma_mul_equality_converse(pl, chi * pow10(d), clo);
    }
}

/// Once a scaled coefficient has left the representable range, scaling
/// it further only moves it further out: it can no longer match any
/// in-range coefficient.
proof fn lemma_scaled_out_of_range(a: int, k: nat, clo: int)
    requires
        !coef_in_range(a),
        coef_in_range(clo),
    ensures
        a * pow10(k) != clo,
{
    let p = pow10(k);
    lemma_pow_positive(10, k);
    vstd::arithmetic::power::lemma_pow_increases(10, 0, k);
    assert(p >= 1);
    if a > 0 {
        assert(a * p >= a) by (nonlinear_arith)
            requires
                a > 0,
                p >= 1,
        ;
    } else {
        assert(a * p <= a) by (nonlinear_arith)
            requires
                a < 0,
                p >= 1,
        ;
    }
}

impl PartialEq for Dec64 {
    /// Compare two DEC64 numbers: denormal zeros are equal, denormal
    /// NaNs are equal only to themselves, and numbers with different
    /// exponents are aligned before their coefficients are compared.
    #[verifier::loop_isolation(false)]
    fn eq(&self, other: &Dec64) -> (r: bool) {
        let a_coef: i64 = self.coefficient();
        let a_exp: i8 = self.exponent();
        let b_coef: i64 = other.coefficient();
        let b_exp: i8 = other.exponent();

        // Trivially equal values.
        if a_coef == b_coef && a_exp == b_exp {
            return true;
        }

        // NaNs are equal only bit for bit, which the test above has
        // already ruled out; and a NaN equals nothing else.
        if self.is_nan() || other.is_nan() {
            return false;
        }

        // Zeros are all equal.
        if self.is_zero() && other.is_zero() {
            return true;
        }

        // Align the exponents: scale the coefficient under the larger
        // exponent up by ten once per step of difference, then compare
        // coefficients.  If the scaling leaves the coefficient range,
        // the numbers' magnitudes cannot match.
        let (hi_coef, hi_exp, lo_coef, lo_exp): (i64, i8, i64, i8) = if a_exp > b_exp {
            (a_coef, a_exp, b_coef, b_exp)
        } else {
            (b_coef, b_exp, a_coef, a_exp)
        };
        proof {
            lemma_scaled_eq_iff_aligned(
                hi_coef as int, hi_exp as int, lo_coef as int, lo_exp as int);
            vstd::arithmetic::power::lemma_pow0(10);
        }

        let d: u32 = (hi_exp as i32 - lo_exp as i32) as u32;
        let mut cc: i64 = hi_coef;
        let mut k: u32 = 0;
        while k < d
            invariant
                k <= d,
                d == hi_exp - lo_exp,
                coef_in_range(cc as int),
                coef_in_range(lo_coef as int),
                cc as int == hi_coef as int * pow10(k as nat),
            decreases d - k,
        {
            let next: i64 = cc * 10;
            proof {
                lemma_mul_is_associative(hi_coef as int, pow10(k as nat), 10);
                assert(pow10((k + 1) as nat) == pow10(k as nat) * 10) by {
                    lemma_pow_adds(10, k as nat, 1);
                    vstd::arithmetic::power::lemma_pow1(10);
                }
                assert(next as int == hi_coef as int * pow10((k + 1) as nat));
            }
            if next < MIN_COEFFICIENT || next > MAX_COEFFICIENT {
                proof {
                    let rest = (d - k - 1) as nat;
                    lemma_scaled_out_of_range(next as int, rest, lo_coef as int);
                    lemma_pow_adds(10, (k + 1) as nat, rest);
                    lemma_mul_is_associative(
                        hi_coef as int, pow10((k + 1) as nat), pow10(rest));
                    assert(hi_coef as int * pow10(d as nat)
                        == next as int * pow10(rest));
                }
                return false;
            }
            cc = next;
            k = k + 1;
        }
        cc == lo_coef
    }
}

impl vstd::std_specs::cmp::PartialEqSpecImpl for Dec64 {
    open spec fn obeys_eq_spec() -> bool {
        true
    }

    open spec fn eq_spec(&self, other: &Dec64) -> bool {
        self.spec_eq(*other)
    }
}

} // verus!
