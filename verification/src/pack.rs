//! Normalization: reducing an arbitrary coefficient/exponent pair to
//! the canonical packed form.
//!
//! A pair whose magnitude cannot be represented becomes NaN; one too
//! tiny to be represented becomes zero.  A coefficient with too many
//! digits is scaled down with round-half-away-from-zero; an exponent
//! beyond the range is absorbed by scaling the coefficient, when that
//! is possible without losing digits.

use vstd::prelude::*;

use crate::num::Dec64;
use crate::num::MIN_COEFFICIENT;
use crate::num::MAX_COEFFICIENT;
use crate::num::MIN_EXP;
use crate::num::MAX_EXP;
use crate::num::coef_in_range;
use crate::num::tdiv10;
use crate::num::tmod10;

verus! {

/// The rounding adjustment a discarded remainder causes: exact halves
/// round away from zero.
pub open spec fn round_unit(r: int) -> int {
    if r <= -5 {
        -1
    } else if r >= 5 {
        1
    } else {
        0
    }
}

/// One scale-down step at a time: divide the coefficient by ten and
/// raise the exponent, until the quotient (with its rounding
/// adjustment) fits the coefficient range.  Raising the exponent past
/// the top of the range means the number cannot be fit: NaN.  The pair
/// is returned as (coefficient, exponent), with NaN as (0, -128) and
/// zero as (0, 0).
pub open spec fn reduce_spec(c: int, e: int) -> (int, int)
    decreases 127 - e,
{
    if e >= 127 {
        (0, -128)
    } else {
        let q = tdiv10(c);
        let v = q + round_unit(tmod10(c));
        if coef_in_range(q) && coef_in_range(v) {
            if q == 0 {
                (0, 0)
            } else {
                (v, e + 1)
            }
        } else {
            reduce_spec(q, e + 1)
        }
    }
}

/// Absorbing an exponent above the range: multiply the coefficient by
/// ten and lower the exponent, as long as the product stays in the
/// coefficient range; otherwise the number is too large: NaN.
pub open spec fn grow_spec(c: int, e: int) -> (int, int)
    decreases e - 127,
{
    if e <= 127 {
        (c, e)
    } else {
        let c10 = 10 * c;
        if !coef_in_range(c10) {
            (0, -128)
        } else if e - 1 <= 127 {
            (c10, e - 1)
        } else {
            grow_spec(c10, e - 1)
        }
    }
}

/// Absorbing an exponent below the range: divide the coefficient by
/// ten (truncating) and raise the exponent.  A coefficient that
/// reaches zero first means the number is too tiny: zero.  One that is
/// still too wide when the exponent reaches the bottom of the range
/// keeps scaling down, now with rounding.
pub open spec fn shrink_spec(c: int, e: int) -> (int, int)
    decreases -127 - e,
{
    if e >= -127 {
        (c, e)
    } else {
        let q = tdiv10(c);
        if q == 0 {
            (0, 0)
        } else if e + 1 >= -127 {
            if coef_in_range(q) {
                (q, -127)
            } else {
                reduce_spec(q, -127)
            }
        } else {
            shrink_spec(q, e + 1)
        }
    }
}

/// What `Dec64::pack` returns, as a (coefficient, exponent) pair: the
/// canonical packed form of `c * 10^e`, NaN as (0, -128) when the
/// magnitude cannot be represented, (0, 0) when it is too tiny.
pub open spec fn pack_spec(c: int, e: int) -> (int, int) {
    if c == 0 {
        (0, 0)
    } else if e > 127 {
        grow_spec(c, e)
    } else if e < -127 {
        shrink_spec(c, e)
    } else if coef_in_range(c) {
        (c, e)
    } else {
        reduce_spec(c, e)
    }
}

impl Dec64 {
    /// Scale an over-wide coefficient down until it fits, rounding
    /// half away from zero on the last digit dropped, raising the
    /// exponent once per dropped digit; NaN when the exponent would
    /// pass the top of the range first.
    fn reduce_pack(coefficient: i64, exponent: i32) -> (r: Self)
        requires
            MIN_EXP <= exponent <= MAX_EXP,
        ensures
            r.spec_coefficient() == reduce_spec(coefficient as int, exponent as int).0,
            r.spec_exponent() == reduce_spec(coefficient as int, exponent as int).1,
    {
        let mut c: i64 = coefficient;
        let mut e: i32 = exponent;
        loop
            invariant
                MIN_EXP <= e <= MAX_EXP,
                reduce_spec(c as int, e as int)
                    == reduce_spec(coefficient as int, exponent as int),
            decreases 128 - e,
        {
            e = e + 1;
            if e > MAX_EXP {
                // We cannot fit this number.
                return Dec64::nan();
            }
            let rem: i64 = c % 10;
            c = c / 10;
            if MIN_COEFFICIENT <= c && c <= MAX_COEFFICIENT {
                let round_add: i64 = if rem <= -5 {
                    -1
                } else if rem >= 5 {
                    1
                } else {
                    0
                };
                let v: i64 = c + round_add;
                // If rounding pushed the coefficient back out of
                // range, go once more through the loop.
                if MIN_COEFFICIENT <= v && v <= MAX_COEFFICIENT {
                    if c == 0 {
                        return Dec64::zero();
                    }
                    return Dec64::from_parts(v, e as i8);
                }
            }
        }
    }

    /// Combine a coefficient and an exponent into a DEC64 value,
    /// normalizing as needed.
    ///
    /// Numbers too huge to be contained in this format become NaN;
    /// numbers too tiny become zero.
    pub fn pack(coefficient: i64, exponent: i32) -> (r: Self)
        ensures
            r.spec_coefficient() == pack_spec(coefficient as int, exponent as int).0,
            r.spec_exponent() == pack_spec(coefficient as int, exponent as int).1,
    {
        if coefficient == 0 {
            // A zero coefficient also zeroes the exponent.
            return Dec64::zero();
        }

        if MIN_EXP <= exponent && exponent <= MAX_EXP {
            if MIN_COEFFICIENT <= coefficient && coefficient <= MAX_COEFFICIENT {
                // Both parts are already in range.
                return Dec64::from_parts(coefficient, exponent as i8);
            }
            // The coefficient is too long: scale it down, rounding
            // half away from zero on the last digit dropped.
            return Self::reduce_pack(coefficient, exponent);
        } else if exponent > MAX_EXP {
            // The exponent is too big: try to scale the coefficient up
            // to absorb the excess.
            let mut c: i64 = coefficient;
            let mut e: i32 = exponent;
            loop
                invariant
                    e > MAX_EXP,
                    grow_spec(c as int, e as int)
                        == pack_spec(coefficient as int, exponent as int),
                decreases e - 127,
            {
                let c10: i64 = match c.checked_mul(10) {
                    Some(x) => x,
                    None => {
                        // We failed to salvage.
                        return Dec64::nan();
                    },
                };
                if c10 < MIN_COEFFICIENT || MAX_COEFFICIENT < c10 {
                    return Dec64::nan();
                }
                c = c10;
                e = e - 1;
                if e <= MAX_EXP {
                    return Dec64::from_parts(c, e as i8);
                }
            }
        } else {
            // The exponent is too small: drop digits to raise it.
            let mut c: i64 = coefficient;
            let mut e: i32 = exponent;
            loop
                invariant
                    e < MIN_EXP,
                    shrink_spec(c as int, e as int)
                        == pack_spec(coefficient as int, exponent as int),
                decreases MIN_EXP - e,
            {
                c = c / 10;
                if c == 0 {
                    // The value is too small to salvage.
                    return Dec64::zero();
                }
                e = e + 1;
                if e >= MIN_EXP {
                    if MIN_COEFFICIENT <= c && c <= MAX_COEFFICIENT {
                        return Dec64::from_parts(c, e as i8);
                    }
                    // Still too many digits at the bottom of the
                    // exponent range: keep scaling, with rounding.
                    return Self::reduce_pack(c, e);
                }
            }
        }
    }

    /// Construct a DEC64 value from a coefficient and an exponent,
    /// normalizing as `pack` does.
    pub fn new(coefficient: i64, exponent: i16) -> (r: Self)
        ensures
            r.spec_coefficient() == pack_spec(coefficient as int, exponent as int).0,
            r.spec_exponent() == pack_spec(coefficient as int, exponent as int).1,
    {
        Self::pack(coefficient, exponent as i32)
    }
}

} // verus!
