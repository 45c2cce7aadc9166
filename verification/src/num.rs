//! The DEC64 value type: a decimal floating-point number held as a
//! 56-bit signed coefficient together with an 8-bit signed exponent,
//! so that a value means `coefficient * 10^exponent`.
//!
//! An exponent of -128 marks NaN; a zero coefficient with any other
//! exponent is a zero.  Everything else is a normal number.

use vstd::prelude::*;
use vstd::arithmetic::power::pow;

verus! {

/// Minimum value of a DEC64 coefficient (`-2^55`).
pub const MIN_COEFFICIENT: i64 = -36_028_797_018_963_968;
/// Maximum value of a DEC64 coefficient (`2^55 - 1`).
pub const MAX_COEFFICIENT: i64 = 36_028_797_018_963_967;
/// Minimum value of a DEC64 exponent.
pub const MIN_EXP: i32 = -127;
/// Maximum value of a DEC64 exponent.
pub const MAX_EXP: i32 = 127;

/// The number of distinct coefficient bit patterns (`2^56`).
pub const COEF_SPAN: i64 = 72_057_594_037_927_936;

/// The exponent value that marks a NaN.
pub const NAN_EXP: i8 = -128;

/// `10^e` as a mathematical integer.
pub open spec fn pow10(e: nat) -> int {
    pow(10, e)
}

/// Truncating division by ten (toward zero), as Rust's `/` computes it.
pub open spec fn tdiv10(c: int) -> int {
    if c >= 0 {
        c / 10
    } else {
        -((-c) / 10)
    }
}

/// Truncating remainder by ten, as Rust's `%` computes it: it carries
/// the sign of `c` and satisfies `c == 10 * tdiv10(c) + tmod10(c)`.
pub open spec fn tmod10(c: int) -> int {
    c - 10 * tdiv10(c)
}

/// `c` reduced to the 56-bit two's-complement coefficient range
/// `[MIN_COEFFICIENT, MAX_COEFFICIENT]`, keeping its residue mod `2^56`.
pub open spec fn wrap_coefficient(c: int) -> int {
    let m = c % (COEF_SPAN as int);
    if m >= MAX_COEFFICIENT + 1 {
        m - COEF_SPAN
    } else {
        m
    }
}

/// Does `c` lie in the representable coefficient range?
pub open spec fn coef_in_range(c: int) -> bool {
    MIN_COEFFICIENT <= c <= MAX_COEFFICIENT
}

/// A DEC64 number.
#[derive(Clone, Copy, Debug)]
pub struct Dec64 {
    coef: i64,
    exp: i8,
}

impl Dec64 {
    /// Every value ever constructed keeps its coefficient inside the
    /// 56-bit range; the `i8` field bounds the exponent by itself.
    #[verifier::type_invariant]
    spec fn inv(self) -> bool {
        coef_in_range(self.coef as int)
    }

    /// The coefficient as a mathematical integer.
    pub closed spec fn spec_coefficient(self) -> int {
        self.coef as int
    }

    /// The exponent as a mathematical integer.
    pub closed spec fn spec_exponent(self) -> int {
        self.exp as int
    }

    /// Is this value a NaN (exponent -128, any coefficient payload)?
    pub open spec fn spec_is_nan(self) -> bool {
        self.spec_exponent() == NAN_EXP
    }

    /// Is this value a zero (zero coefficient, any non-NaN exponent)?
    pub open spec fn spec_is_zero(self) -> bool {
        self.spec_coefficient() == 0 && !self.spec_is_nan()
    }

    /// Do two values hold exactly the same coefficient and exponent?
    pub open spec fn same_parts(self, other: Dec64) -> bool {
        self.spec_coefficient() == other.spec_coefficient()
        && self.spec_exponent() == other.spec_exponent()
    }

    /// The number `coefficient * 10^exponent`, scaled by the fixed factor
    /// `10^127` so that it is an integer for every non-NaN value.  Two
    /// non-NaN values denote the same number exactly when their scaled
    /// values agree.
    pub open spec fn scaled_value(self) -> int {
        self.spec_coefficient() * pow10((self.spec_exponent() + 127) as nat)
    }

    /// Combine a coefficient and an exponent without normalizing, the way
    /// the packed 64-bit layout would: the coefficient is reduced to its
    /// low 56 bits (sign extended).  Any kind of value can be produced,
    /// including denormal zeros and NaNs with a payload.
    pub fn from_parts(coefficient: i64, exponent: i8) -> (r: Self)
        ensures
            r.spec_coefficient() == wrap_coefficient(coefficient as int),
            r.spec_exponent() == exponent as int,
            coef_in_range(coefficient as int) ==> r.spec_coefficient() == coefficient as int,
    {
        proof {
            lemma_wrap_coefficient(coefficient as int);
        }
        let m: i64 = coefficient % COEF_SPAN;
        let e: i64 = if m < 0 {
            m + COEF_SPAN
        } else {
            m
        };
        let c: i64 = if e > MAX_COEFFICIENT {
            e - COEF_SPAN
        } else {
            e
        };
        Dec64 { coef: c, exp: exponent }
    }

    /// The coefficient.
    pub fn coefficient(self) -> (c: i64)
        ensures
            c as int == self.spec_coefficient(),
            coef_in_range(c as int),
    {
        proof {
            use_type_invariant(self);
        }
        self.coef
    }

    /// The exponent.
    pub fn exponent(self) -> (e: i8)
        ensures
            e as int == self.spec_exponent(),
    {
        self.exp
    }

    /// Returns `true` exactly on NaN values (exponent -128, any
    /// coefficient).
    pub fn is_nan(self) -> (r: bool)
        ensures
            r == self.spec_is_nan(),
    {
        self.exp == NAN_EXP
    }

    /// Returns `true` exactly on zeros: a zero coefficient under any
    /// non-NaN exponent.
    pub fn is_zero(self) -> (r: bool)
        ensures
            r == self.spec_is_zero(),
    {
        self.coef == 0 && self.exp != NAN_EXP
    }
}

impl Dec64 {
    /// Does the value denote a whole number: zero, a non-negative
    /// exponent, or a coefficient divisible by `10^-exponent`?  NaN is
    /// not an integer, and once the exponent drops to -17 no nonzero
    /// coefficient (at most 17 digits wide) can cancel it.
    pub open spec fn spec_is_integer(self) -> bool {
        if self.spec_is_nan() {
            false
        } else if self.spec_coefficient() == 0 {
            true
        } else if self.spec_exponent() >= 0 {
            true
        } else if self.spec_exponent() <= -17 {
            false
        } else {
            self.spec_coefficient() % pow10((-self.spec_exponent()) as nat) == 0
        }
    }

    /// Returns `false` if the value holds a non-zero fractional part
    /// or is NaN, and `true` otherwise.
    pub fn is_integer(self) -> (r: bool)
        ensures
            r == self.spec_is_integer(),
    {
        if self.is_nan() {
            return false;
        }
        let c: i64 = self.coefficient();
        let e: i8 = self.exponent();
        if c == 0 || e >= 0 {
            return true;
        }
        if e <= -17 {
            return false;
        }

        // The exponent is in [-16, -1]: the coefficient is a whole
        // number of units exactly when 10^-exponent divides it.
        let k: u32 = (-(e as i32)) as u32;
        let mut p: i64 = 1;
        let mut i: u32 = 0;
        proof {
            vstd::arithmetic::power::lemma_pow0(10);
            lemma_pow10_table();
        }
        while i < k
            invariant
                i <= k <= 16,
                p == pow10(i as nat),
                1 <= p <= 10_000_000_000_000_000,
            decreases k - i,
        {
            proof {
                lemma_pow10_table();
                vstd::arithmetic::power::lemma_pow_increases(10, i as nat, 15);
                vstd::arithmetic::power::lemma_pow_adds(10, i as nat, 1);
                vstd::arithmetic::power::lemma_pow1(10);
            }
            p = p * 10;
            i = i + 1;
        }

        let m: i64 = if c < 0 {
            -c
        } else {
            c
        };
        let divisible: bool = m % p == 0;
        proof {
            lemma_divides_negation(c as int, p as int);
        }
        divisible
    }

    /// The canonical zero: coefficient 0, exponent 0.
    pub fn zero() -> (r: Self)
        ensures
            r.spec_coefficient() == 0,
            r.spec_exponent() == 0,
    {
        Dec64 { coef: 0, exp: 0 }
    }

    /// The canonical NaN: coefficient 0, exponent -128.
    pub fn nan() -> (r: Self)
        ensures
            r.spec_coefficient() == 0,
            r.spec_exponent() == NAN_EXP,
    {
        Dec64 { coef: 0, exp: NAN_EXP }
    }

    /// The largest DEC64 value, `36028797018963967 * 10^127`.
    pub fn max_value() -> (r: Self)
        ensures
            r.spec_coefficient() == MAX_COEFFICIENT,
            r.spec_exponent() == MAX_EXP,
    {
        Dec64 { coef: MAX_COEFFICIENT, exp: 127 }
    }

    /// The smallest DEC64 value, `-36028797018963968 * 10^127`.
    pub fn min_value() -> (r: Self)
        ensures
            r.spec_coefficient() == MIN_COEFFICIENT,
            r.spec_exponent() == MAX_EXP,
    {
        Dec64 { coef: MIN_COEFFICIENT, exp: 127 }
    }

    /// The smallest positive DEC64 value, `10^-127`.
    pub fn min_positive() -> (r: Self)
        ensures
            r.spec_coefficient() == 1,
            r.spec_exponent() == MIN_EXP,
    {
        Dec64 { coef: 1, exp: -127 }
    }

    /// The difference between 1 and the next larger representable
    /// number, `10^-16`.
    pub fn epsilon() -> (r: Self)
        ensures
            r.spec_coefficient() == 1,
            r.spec_exponent() == -16,
    {
        Dec64 { coef: 1, exp: -16 }
    }
}

impl Default for Dec64 {
    /// The canonical zero.
    fn default() -> (r: Self)
        ensures
            r.spec_coefficient() == 0,
            r.spec_exponent() == 0,
    {
        Dec64 { coef: 0, exp: 0 }
    }
}

/// The small powers of ten, written out: enough to cover every
/// coefficient (at most 17 digits) and every exponent (at most 3).
pub proof fn lemma_pow10_table()
    ensures
        pow10(0) == 1,
        pow10(1) == 10,
        pow10(2) == 100,
        pow10(3) == 1000,
        pow10(4) == 10_000,
        pow10(5) == 100_000,
        pow10(6) == 1_000_000,
        pow10(7) == 10_000_000,
        pow10(8) == 100_000_000,
        pow10(9) == 1_000_000_000,
        pow10(10) == 10_000_000_000,
        pow10(11) == 100_000_000_000,
        pow10(12) == 1_000_000_000_000,
        pow10(13) == 10_000_000_000_000,
        pow10(14) == 100_000_000_000_000,
        pow10(15) == 1_000_000_000_000_000,
        pow10(16) == 10_000_000_000_000_000,
        pow10(17) == 100_000_000_000_000_000,
        pow10(18) == 1_000_000_000_000_000_000,
{
    reveal_with_fuel(pow, 20);
}

/// A number and its negation are divisible by the same positive
/// divisors.
proof fn lemma_divides_negation(c: int, p: int)
    requires
        p > 0,
    ensures
        (c % p == 0) <==> ((-c) % p == 0),
{
    vstd::arithmetic::div_mod::lemma_fundamental_div_mod(c, p);
    vstd::arithmetic::div_mod::lemma_fundamental_div_mod(-c, p);
    if c % p == 0 {
        vstd::arithmetic::div_mod::lemma_mod_multiples_basic(-(c / p), p);
        assert(-c == (-(c / p)) * p) by (nonlinear_arith)
            requires
                c == p * (c / p),
        ;
    }
    if (-c) % p == 0 {
        vstd::arithmetic::div_mod::lemma_mod_multiples_basic(-((-c) / p), p);
        assert(c == (-((-c) / p)) * p) by (nonlinear_arith)
            requires
                -c == p * ((-c) / p),
        ;
    }
}

/// The exponent of any value, even one only reasoned about, lies in
/// the 8-bit signed range.
pub proof fn lemma_exponent_in_range(v: Dec64)
    ensures
        -128 <= v.spec_exponent() <= 127,
{
}

/// `wrap_coefficient` lands in the coefficient range, and is the
/// identity there.
pub proof fn lemma_wrap_coefficient(c: int)
    ensures
        coef_in_range(wrap_coefficient(c)),
        coef_in_range(c) ==> wrap_coefficient(c) == c,
{
    let s = COEF_SPAN as int;
    vstd::arithmetic::div_mod::lemma_fundamental_div_mod(c, s);
    vstd::arithmetic::div_mod::lemma_mod_bound(c, s);
    if coef_in_range(c) {
        if c >= 0 {
            vstd::arithmetic::div_mod::lemma_small_mod(c as nat, s as nat);
        } else {
            vstd::arithmetic::div_mod::lemma_fundamental_div_mod_converse(
                c, s, -1, c + s);
        }
    }
}

} // verus!
