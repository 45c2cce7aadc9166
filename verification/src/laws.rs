//! The laws the library keeps, each proved once and for all: how
//! `pack` treats canonical, zero and unrepresentable inputs, what the
//! addition identities are, and when two values compare equal.

use vstd::prelude::*;

use crate::num::Dec64;
use crate::num::coef_in_range;
use crate::num::pow10;
use crate::num::tdiv10;
use crate::num::tmod10;
use crate::pack::pack_spec;
use crate::pack::reduce_spec;
use crate::pack::grow_spec;
use crate::pack::shrink_spec;
use crate::pack::round_unit;
use crate::add::add_spec;
use crate::add::add_slow_spec;
use crate::add::scale_steps;

verus! {

/// A (coefficient, exponent) pair in the canonical form `pack`
/// guarantees: the NaN sentinel, the canonical zero, or a normal
/// number whose parts are both in range.
pub open spec fn canonical_pair(p: (int, int)) -> bool {
    ||| p == (0int, -128int)
    ||| p == (0int, 0int)
    ||| (p.0 != 0 && coef_in_range(p.0) && -127 <= p.1 <= 127)
}

/// The truncating quotient and remainder never oppose the sign of
/// what was divided.
proof fn lemma_tdiv10_signs(c: int)
    ensures
        c > 0 ==> tdiv10(c) >= 0 && tmod10(c) >= 0,
        c < 0 ==> tdiv10(c) <= 0 && tmod10(c) <= 0,
{
    if c > 0 {
        vstd::arithmetic::div_mod::lemma_fundamental_div_mod(c, 10);
    } else if c < 0 {
        vstd::arithmetic::div_mod::lemma_fundamental_div_mod(-c, 10);
    }
}

proof fn lemma_reduce_canonical(c: int, e: int)
    requires
        -127 <= e <= 127,
    ensures
        canonical_pair(reduce_spec(c, e)),
    decreases 127 - e,
{
    if e < 127 {
        let q = tdiv10(c);
        let v = q + round_unit(tmod10(c));
        if coef_in_range(q) && coef_in_range(v) {
            // Rounding moves away from zero, so a nonzero quotient
            // cannot be rounded to zero.
            lemma_tdiv10_signs(c);
        } else {
            lemma_reduce_canonical(q, e + 1);
        }
    }
}

proof fn lemma_grow_canonical(c: int, e: int)
    requires
        c != 0,
        e > 127,
    ensures
        canonical_pair(grow_spec(c, e)),
    decreases e - 127,
{
    if coef_in_range(10 * c) && e - 1 > 127 {
        lemma_grow_canonical(10 * c, e - 1);
    }
}

proof fn lemma_shrink_canonical(c: int, e: int)
    requires
        e < -127,
    ensures
        canonical_pair(shrink_spec(c, e)),
    decreases -127 - e,
{
    let q = tdiv10(c);
    if q != 0 {
        if e + 1 >= -127 {
            if !coef_in_range(q) {
                lemma_reduce_canonical(q, -127);
            }
        } else {
            lemma_shrink_canonical(q, e + 1);
        }
    }
}

/// Absorbing an exponent above the range is exact: either the whole
/// excess is folded into the coefficient digit for digit, or the
/// number cannot be represented at all and the answer is NaN.
pub proof fn lemma_pack_high_exponent_exact(c: int, e: int)
    requires
        c != 0,
        e > 127,
    ensures
        coef_in_range(c * pow10((e - 127) as nat))
            ==> pack_spec(c, e) == (c * pow10((e - 127) as nat), 127int),
        !coef_in_range(c * pow10((e - 127) as nat))
            ==> pack_spec(c, e) == (0int, -128int),
{
    lemma_grow_exact(c, e);
}

proof fn lemma_grow_exact(c: int, e: int)
    requires
        c != 0,
        e > 127,
    ensures
        coef_in_range(c * pow10((e - 127) as nat))
            ==> grow_spec(c, e) == (c * pow10((e - 127) as nat), 127int),
        !coef_in_range(c * pow10((e - 127) as nat))
            ==> grow_spec(c, e) == (0int, -128int),
    decreases e - 127,
{
    let d = (e - 127) as nat;
    let c10 = 10 * c;
    vstd::arithmetic::power::lemma_pow1(10);
    if e == 128 {
        assert(pow10(1) == 10);
        vstd::arithmetic::mul::lemma_mul_is_commutative(10, c);
    } else {
        lemma_grow_exact(c10, e - 1);
        // 10 * c carried through the remaining steps is c through all
        // of them.
        assert(pow10(d) == 10 * pow10((d - 1) as nat)) by {
            vstd::arithmetic::power::lemma_pow_adds(10, 1, (d - 1) as nat);
        }
        vstd::arithmetic::mul::lemma_mul_is_associative(10, c, pow10((d - 1) as nat));
        vstd::arithmetic::mul::lemma_mul_is_associative(10, pow10((d - 1) as nat), c);
        vstd::arithmetic::mul::lemma_mul_is_commutative(c, pow10((d - 1) as nat));
        vstd::arithmetic::mul::lemma_mul_is_commutative(c, pow10(d));
        assert(c10 * pow10((d - 1) as nat) == c * pow10(d));
        if !coef_in_range(c10) {
            // Once out of range, further tenfold steps stay out.
            lemma_scaled_out_of_range_stays(c10, (d - 1) as nat);
        }
    }
}

/// A product already outside the coefficient range moves only further
/// out under more tenfold steps.
proof fn lemma_scaled_out_of_range_stays(a: int, k: nat)
    requires
        !coef_in_range(a),
    ensures
        !coef_in_range(a * pow10(k)),
{
    let p = pow10(k);
    vstd::arithmetic::power::lemma_pow_positive(10, k);
    vstd::arithmetic::power::lemma_pow_increases(10, 0, k);
    vstd::arithmetic::power::lemma_pow0(10);
    if a > 0 {
        assert(a * p >= a) by (nonlinear_arith)
            requires
                a > 0,
                p >= 1,
        ;
    } else {
        assert(a * p <= a) by (nonlinear_arith)
            requires
                a < 0,
                p >= 1,
        ;
    }
}

/// Every way through `pack` ends in the NaN sentinel, the canonical
/// zero, or a direct encode of in-range parts: the type's data model
/// holds of everything `pack` builds.
pub proof fn lemma_pack_canonical_result(c: int, e: int)
    ensures
        canonical_pair(pack_spec(c, e)),
{
    if c != 0 {
        if e > 127 {
            lemma_grow_canonical(c, e);
        } else if e < -127 {
            lemma_shrink_canonical(c, e);
        } else if !coef_in_range(c) {
            lemma_reduce_canonical(c, e);
        }
    }
}

/// What addition returns is always a value the data model admits: the
/// coefficient in range, the exponent in its byte, and the NaN
/// exponent only on the canonical NaN.
pub proof fn lemma_add_result_valid(a: Dec64, b: Dec64)
    requires
        coef_in_range(a.spec_coefficient()),
        coef_in_range(b.spec_coefficient()),
    ensures
        coef_in_range(add_spec(a, b).0),
        -128 <= add_spec(a, b).1 <= 127,
        add_spec(a, b).1 == -128 ==> add_spec(a, b).0 == 0,
{
    crate::num::lemma_exponent_in_range(a);
    crate::num::lemma_exponent_in_range(b);
    if !a.spec_is_nan() && !b.spec_is_nan() {
        let e1 = a.spec_exponent();
        let e2 = b.spec_exponent();
        if e1 == e2 {
            let s = a.spec_coefficient() + b.spec_coefficient();
            if !coef_in_range(s) {
                lemma_pack_canonical_result(s, e1);
            }
        } else if e1 > e2 {
            lemma_add_slow_valid(a.spec_coefficient(), e1, b.spec_coefficient(), e2);
        } else {
            lemma_add_slow_valid(b.spec_coefficient(), e2, a.spec_coefficient(), e1);
        }
    }
}

proof fn lemma_add_slow_valid(chi: int, ehi: int, clo: int, elo: int)
    requires
        coef_in_range(chi),
        coef_in_range(clo),
        -127 <= elo < ehi <= 127,
    ensures
        coef_in_range(add_slow_spec(chi, ehi, clo, elo).0),
        -128 <= add_slow_spec(chi, ehi, clo, elo).1 <= 127,
        add_slow_spec(chi, ehi, clo, elo).1 == -128
            ==> add_slow_spec(chi, ehi, clo, elo).0 == 0,
{
    if clo != 0 {
        let d = (ehi - elo) as nat;
        let j = scale_steps(chi, d);
        lemma_scale_steps_bound(chi, d);
        if j == d {
            lemma_pack_canonical_result(chi * pow10(d) + clo, elo);
        } else {
            lemma_pack_canonical_result(
                chi * pow10(j) + crate::add::tdiv10_iter(clo, (d - j) as nat),
                ehi - j);
        }
    }
}

/// Alignment never takes more steps than the exponent difference.
proof fn lemma_scale_steps_bound(c: int, d: nat)
    ensures
        scale_steps(c, d) <= d,
    decreases d,
{
    if d > 0 && !(10 * c > crate::add::SCALE_LIMIT || 10 * c < -crate::add::SCALE_LIMIT) {
        lemma_scale_steps_bound(10 * c, (d - 1) as nat);
    }
}

/// Packing a pair that is already canonical returns it unchanged: the
/// coefficient in range and nonzero, the exponent in range.
pub proof fn lemma_pack_canonical(c: int, e: int)
    requires
        coef_in_range(c),
        c != 0,
        -127 <= e <= 127,
    ensures
        pack_spec(c, e) == (c, e),
{
}

/// Packing a zero coefficient yields the canonical zero, whatever the
/// exponent, however far out of range.
pub proof fn lemma_pack_zero(e: int)
    ensures
        pack_spec(0, e) == (0int, 0int),
{
}

/// A coefficient outside the representable range cannot be packed at
/// the top exponent: there is no room left to scale, so the result is
/// NaN.
pub proof fn lemma_pack_wide_at_top_is_nan(c: int)
    requires
        !coef_in_range(c),
    ensures
        pack_spec(c, 127) == (0int, -128int),
{
    assert(reduce_spec(c, 127) == (0int, -128int));
}

/// Adding a NaN, on either side, gives NaN.
pub proof fn lemma_add_nan(x: Dec64, n: Dec64)
    requires
        n.spec_is_nan(),
    ensures
        add_spec(x, n) == (0int, -128int),
        add_spec(n, x) == (0int, -128int),
{
}

/// The canonical zero can always absorb as many tenfold steps as the
/// alignment asks of it.
proof fn lemma_scale_steps_zero(d: nat)
    ensures
        scale_steps(0, d) == d,
    decreases d,
{
    if d > 0 {
        lemma_scale_steps_zero((d - 1) as nat);
    }
}

/// Adding the canonical zero changes nothing: a nonzero finite value
/// keeps its exact coefficient and exponent, a zero stays a zero, and
/// in every case the result denotes the same number as `x`.
pub proof fn lemma_add_zero_identity(x: Dec64, z: Dec64)
    requires
        coef_in_range(x.spec_coefficient()),
        !x.spec_is_nan(),
        z.spec_coefficient() == 0,
        z.spec_exponent() == 0,
    ensures
        x.spec_coefficient() != 0 ==> add_spec(x, z)
            == (x.spec_coefficient(), x.spec_exponent()),
        x.spec_coefficient() != 0 ==> add_spec(z, x)
            == (x.spec_coefficient(), x.spec_exponent()),
        add_spec(x, z).1 != -128,
        add_spec(x, z).0 * pow10((add_spec(x, z).1 + 127) as nat) == x.scaled_value(),
        add_spec(z, x).1 != -128,
        add_spec(z, x).0 * pow10((add_spec(z, x).1 + 127) as nat) == x.scaled_value(),
{
    let c = x.spec_coefficient();
    let e = x.spec_exponent();
    crate::num::lemma_exponent_in_range(x);
    if e == 0 {
        // Matching exponents: the coefficient sum is exactly c.
        assert(add_spec(x, z) == (c, 0int));
        assert(add_spec(z, x) == (c, 0int));
    } else if e > 0 {
        // x holds the larger exponent and z contributes no digits.
        assert(add_spec(x, z) == add_slow_spec(c, e, 0, 0));
        assert(add_spec(z, x) == add_slow_spec(c, e, 0, 0));
        assert(add_slow_spec(c, e, 0, 0) == (c, e));
    } else {
        // z holds the larger exponent; its zero coefficient scales
        // down all the way, and the sum is exactly c again.
        assert(add_spec(x, z) == add_slow_spec(0, 0, c, e));
        assert(add_spec(z, x) == add_slow_spec(0, 0, c, e));
        if c != 0 {
            let d = (0 - e) as nat;
            lemma_scale_steps_zero(d);
            assert(0 * pow10(d) + c == c);
            assert(pack_spec(c, e) == (c, e));
            assert(add_slow_spec(0, 0, c, e) == (c, e));
        }
    }
    if c == 0 {
        assert(add_spec(x, z).0 == 0);
        assert(add_spec(z, x).0 == 0);
        vstd::arithmetic::mul::lemma_mul_by_zero_is_zero(pow10((e + 127) as nat));
        vstd::arithmetic::mul::lemma_mul_by_zero_is_zero(
            pow10((add_spec(x, z).1 + 127) as nat));
        vstd::arithmetic::mul::lemma_mul_by_zero_is_zero(
            pow10((add_spec(z, x).1 + 127) as nat));
    }
}

/// Operands under one exponent whose coefficient sum stays in range
/// add like plain integers, and the exponent is kept.
pub proof fn lemma_add_same_exponent(a: Dec64, b: Dec64)
    requires
        !a.spec_is_nan(),
        !b.spec_is_nan(),
        a.spec_exponent() == b.spec_exponent(),
        coef_in_range(a.spec_coefficient() + b.spec_coefficient()),
    ensures
        add_spec(a, b) == (a.spec_coefficient() + b.spec_coefficient(), a.spec_exponent()),
{
}

/// When alignment runs out of room above, the digits given up below
/// are dropped by truncation toward zero — `tdiv10_iter`, not a
/// rounding — before the coefficients are summed.
pub proof fn lemma_add_lossy_truncates(a: Dec64, b: Dec64)
    requires
        !a.spec_is_nan(),
        !b.spec_is_nan(),
        a.spec_exponent() > b.spec_exponent(),
        b.spec_coefficient() != 0,
        scale_steps(a.spec_coefficient(),
            (a.spec_exponent() - b.spec_exponent()) as nat)
            < a.spec_exponent() - b.spec_exponent(),
    ensures
        add_spec(a, b) == ({
            let d = (a.spec_exponent() - b.spec_exponent()) as nat;
            let j = scale_steps(a.spec_coefficient(), d);
            pack_spec(
                a.spec_coefficient() * pow10(j)
                    + crate::add::tdiv10_iter(b.spec_coefficient(), (d - j) as nat),
                a.spec_exponent() - j)
        }),
{
}

/// All zeros are equal, whatever exponents they carry.
pub proof fn lemma_eq_zeros(a: Dec64, b: Dec64)
    requires
        a.spec_is_zero(),
        b.spec_is_zero(),
    ensures
        a.spec_eq(b),
{
}

/// Two NaNs are equal exactly when they carry the same coefficient
/// payload.
pub proof fn lemma_eq_nans(a: Dec64, b: Dec64)
    requires
        a.spec_is_nan(),
        b.spec_is_nan(),
    ensures
        a.spec_eq(b) <==> a.spec_coefficient() == b.spec_coefficient(),
{
}

} // verus!
