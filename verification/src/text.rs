//! The decimal text writer: the canonical shortest decimal rendering
//! of a DEC64 value, appended to a caller-supplied byte sink.
//!
//! The grammar produced is `"-"? digit+ ("." digit+)? ("e" "-"?
//! digit{1,3})?`, or the literals `"0"` and `"nan"`.  A negative
//! exponent of magnitude below 18 is written in fixed-point form
//! (`123.456`, `0.005`); larger magnitudes fall back to scientific
//! form with an `e-` suffix, and a positive exponent always takes the
//! scientific `e` suffix.

use vstd::prelude::*;

use crate::num::Dec64;

verus! {

/// ASCII `'0'`.
pub const DIGIT_ZERO: u8 = 48;
/// ASCII `'.'`.
pub const POINT: u8 = 46;
/// ASCII `'-'`.
pub const MINUS: u8 = 45;
/// ASCII `'e'`.
pub const LETTER_E: u8 = 101;
/// ASCII `'n'`.
pub const LETTER_N: u8 = 110;
/// ASCII `'a'`.
pub const LETTER_A: u8 = 97;

/// The decimal digits of `n`, most significant first, as ASCII bytes;
/// empty for zero.
pub open spec fn digits_spec(n: nat) -> Seq<u8>
    decreases n,
{
    if n == 0 {
        Seq::empty()
    } else {
        digits_spec(n / 10) + seq![(48 + n % 10) as u8]
    }
}

/// `k` ASCII zeros.
pub open spec fn zeros_spec(k: nat) -> Seq<u8> {
    Seq::new(k, |i: int| 48u8)
}

/// The text `Dec64::write` appends for a value: `"0"` for any zero
/// coefficient, `"nan"` for NaN, and otherwise the signed digit
/// sequence with the decimal point or exponent suffix the exponent
/// calls for.
pub open spec fn text_spec(v: Dec64) -> Seq<u8> {
    let c = v.spec_coefficient();
    let e = v.spec_exponent();
    if c == 0 {
        seq![DIGIT_ZERO]
    } else if e == -128 {
        seq![LETTER_N, LETTER_A, LETTER_N]
    } else {
        let sign: Seq<u8> = if c < 0 {
            seq![MINUS]
        } else {
            Seq::empty()
        };
        let ds = digits_spec((if c < 0 { -c } else { c }) as nat);
        if e == 0 {
            sign + ds
        } else if e > 0 {
            sign + ds + seq![LETTER_E] + digits_spec(e as nat)
        } else {
            let k = (-e) as nat;
            if k < 18 {
                if ds.len() > k {
                    sign + ds.take(ds.len() - k) + seq![POINT] + ds.skip(ds.len() - k)
                } else {
                    sign + seq![DIGIT_ZERO, POINT] + zeros_spec((k - ds.len()) as nat) + ds
                }
            } else {
                let mantissa = if ds.len() == 1 {
                    ds
                } else {
                    ds.take(1) + seq![POINT] + ds.skip(1)
                };
                sign + mantissa + seq![LETTER_E, MINUS] + digits_spec(k)
            }
        }
    }
}

/// Append the decimal digits of `n`, most significant first.
fn push_digits(n: u64, out: &mut Vec<u8>)
    ensures
        final(out)@ == old(out)@ + digits_spec(n as nat),
    decreases n,
{
    if n == 0 {
        proof {
            assert(out@ =~= out@ + digits_spec(0));
        }
        return;
    }
    push_digits(n / 10, out);
    out.push(DIGIT_ZERO + (n % 10) as u8);
    proof {
        assert(out@ =~= old(out)@ + digits_spec(n as nat));
    }
}

/// Append `src[from..to]`.
fn push_range(out: &mut Vec<u8>, src: &Vec<u8>, from: usize, to: usize)
    requires
        from <= to <= src@.len(),
    ensures
        final(out)@ == old(out)@ + src@.subrange(from as int, to as int),
{
    let mut i: usize = from;
    proof {
        assert(out@ =~= out@ + src@.subrange(from as int, from as int));
    }
    while i < to
        invariant
            from <= i <= to <= src@.len(),
            out@ == old(out)@ + src@.subrange(from as int, i as int),
        decreases to - i,
    {
        out.push(src[i]);
        i = i + 1;
        proof {
            assert(out@ =~= old(out)@ + src@.subrange(from as int, i as int));
        }
    }
}

impl Dec64 {
    /// Append the canonical decimal text for this value to `out`.
    #[verifier::loop_isolation(false)]
    #[verifier::rlimit(60)]
    pub fn write(self, out: &mut Vec<u8>)
        ensures
            final(out)@ == old(out)@ + text_spec(self),
    {
        let c: i64 = self.coefficient();
        if c == 0 {
            out.push(DIGIT_ZERO);
            proof {
                assert(out@ =~= old(out)@ + text_spec(self));
            }
            return;
        }
        let e: i8 = self.exponent();
        if e == -128 {
            out.push(LETTER_N);
            out.push(LETTER_A);
            out.push(LETTER_N);
            proof {
                assert(out@ =~= old(out)@ + text_spec(self));
            }
            return;
        }

        // Sign and magnitude; the coefficient range leaves the
        // negation comfortably inside `i64`.
        let m: u64 = if c < 0 {
            out.push(MINUS);
            (-c) as u64
        } else {
            c as u64
        };
        let ghost sign: Seq<u8> = if c < 0 { seq![MINUS] } else { Seq::empty() };
        let ghost ds = digits_spec(m as nat);

        if e == 0 {
            // Plain integer.
            push_digits(m, out);
            proof {
                assert(out@ =~= old(out)@ + text_spec(self));
            }
            return;
        }
        if e > 0 {
            // A positive exponent always takes scientific form.
            push_digits(m, out);
            out.push(LETTER_E);
            push_digits(e as u64, out);
            proof {
                assert(out@ =~= old(out)@ + text_spec(self));
            }
            return;
        }

        let k: u32 = (-(e as i32)) as u32;
        let mut digits: Vec<u8> = Vec::new();
        push_digits(m, &mut digits);
        proof {
            lemma_digits_nonempty(m as nat);
        }

        if k < 18 {
            // Fixed point: all fractional digits are written inline.
            if digits.len() > k as usize {
                // The point falls inside the digit sequence.
                let split: usize = digits.len() - k as usize;
                push_range(out, &digits, 0, split);
                out.push(POINT);
                push_range(out, &digits, split, digits.len());
                proof {
                    assert(ds.take(ds.len() - k as nat)
                        =~= digits@.subrange(0, split as int));
                    assert(ds.skip(ds.len() - k as nat)
                        =~= digits@.subrange(split as int, digits@.len() as int));
                    assert(out@ =~= old(out)@ + text_spec(self));
                }
                return;
            }
            // Too few digits: pad the front with zeros after "0.".
            out.push(DIGIT_ZERO);
            out.push(POINT);
            let mut z: usize = digits.len();
            while z < k as usize
                invariant
                    digits@.len() <= z <= k,
                    out@ == old(out)@ + sign + seq![DIGIT_ZERO, POINT]
                        + zeros_spec((z - digits@.len()) as nat),
                decreases k - z,
            {
                out.push(DIGIT_ZERO);
                z = z + 1;
                proof {
                    assert(out@ =~= old(out)@ + sign + seq![DIGIT_ZERO, POINT]
                        + zeros_spec((z - digits@.len()) as nat));
                }
            }
            push_range(out, &digits, 0, digits.len());
            proof {
                assert(digits@.subrange(0, digits@.len() as int) =~= ds);
                assert(out@ =~= old(out)@ + text_spec(self));
            }
            return;
        }

        // Scientific form: one digit, the rest behind the point, and
        // the exponent magnitude (at most three digits) after "e-".
        out.push(digits[0]);
        if digits.len() > 1 {
            out.push(POINT);
            push_range(out, &digits, 1, digits.len());
        }
        out.push(LETTER_E);
        out.push(MINUS);
        push_digits(k as u64, out);
        proof {
            if ds.len() == 1 {
                assert(seq![digits@[0]] =~= ds);
            } else {
                assert(seq![digits@[0]] =~= ds.take(1));
                assert(digits@.subrange(1, digits@.len() as int) =~= ds.skip(1));
            }
            assert(out@ =~= old(out)@ + text_spec(self));
        }
    }
}

/// A positive number has at least one digit.
proof fn lemma_digits_nonempty(n: nat)
    ensures
        n > 0 ==> digits_spec(n).len() >= 1,
{
}

/// Is `b` one of the bytes the writer's little alphabet allows: an
/// ASCII digit, the sign, the point, or a letter of "e" and "nan"?
pub open spec fn text_byte_ok(b: u8) -> bool {
    ||| DIGIT_ZERO <= b <= 57
    ||| b == MINUS
    ||| b == POINT
    ||| b == LETTER_E
    ||| b == LETTER_N
    ||| b == LETTER_A
}

/// Does the whole sequence keep to that alphabet?
pub open spec fn text_bytes_ok(s: Seq<u8>) -> bool {
    forall|i: int| 0 <= i < s.len() ==> text_byte_ok(#[trigger] s[i])
}

proof fn lemma_concat_ok(a: Seq<u8>, b: Seq<u8>)
    requires
        text_bytes_ok(a),
        text_bytes_ok(b),
    ensures
        text_bytes_ok(a + b),
{
    assert forall|i: int| 0 <= i < (a + b).len() implies text_byte_ok(#[trigger] (a + b)[i]) by {
        if i < a.len() {
            assert((a + b)[i] == a[i]);
        } else {
            assert((a + b)[i] == b[i - a.len()]);
        }
    }
}

proof fn lemma_digits_ok(n: nat)
    ensures
        text_bytes_ok(digits_spec(n)),
    decreases n,
{
    if n > 0 {
        lemma_digits_ok(n / 10);
        lemma_concat_ok(digits_spec(n / 10), seq![(48 + n % 10) as u8]);
    }
}

proof fn lemma_take_skip_ok(s: Seq<u8>, n: int)
    requires
        text_bytes_ok(s),
        0 <= n <= s.len(),
    ensures
        text_bytes_ok(s.take(n)),
        text_bytes_ok(s.skip(n)),
{
    assert forall|i: int| 0 <= i < s.take(n).len() implies text_byte_ok(#[trigger] s.take(n)[i]) by {
        assert(s.take(n)[i] == s[i]);
    }
    assert forall|i: int| 0 <= i < s.skip(n).len() implies text_byte_ok(#[trigger] s.skip(n)[i]) by {
        assert(s.skip(n)[i] == s[i + n]);
    }
}

/// The writer emits nothing but ASCII: digits, the sign, the decimal
/// point, and the letters of the `e` suffix and of `"nan"`.
pub proof fn lemma_text_is_ascii(v: Dec64)
    ensures
        text_bytes_ok(text_spec(v)),
{
    let c = v.spec_coefficient();
    let e = v.spec_exponent();
    if c != 0 && e != -128 {
        let sign: Seq<u8> = if c < 0 { seq![MINUS] } else { Seq::empty() };
        let m = (if c < 0 { -c } else { c }) as nat;
        let ds = digits_spec(m);
        lemma_digits_ok(m);
        if e == 0 {
            lemma_concat_ok(sign, ds);
        } else if e > 0 {
            lemma_concat_ok(sign, ds);
            lemma_concat_ok(sign + ds, seq![LETTER_E]);
            lemma_digits_ok(e as nat);
            lemma_concat_ok(sign + ds + seq![LETTER_E], digits_spec(e as nat));
        } else {
            let k = (-e) as nat;
            if k < 18 {
                if ds.len() > k {
                    let cut = ds.len() - k;
                    lemma_take_skip_ok(ds, cut as int);
                    lemma_concat_ok(sign, ds.take(cut as int));
                    lemma_concat_ok(sign + ds.take(cut as int), seq![POINT]);
                    lemma_concat_ok(sign + ds.take(cut as int) + seq![POINT],
                        ds.skip(cut as int));
                } else {
                    lemma_concat_ok(sign, seq![DIGIT_ZERO, POINT]);
                    lemma_concat_ok(sign + seq![DIGIT_ZERO, POINT],
                        zeros_spec((k - ds.len()) as nat));
                    lemma_concat_ok(sign + seq![DIGIT_ZERO, POINT]
                        + zeros_spec((k - ds.len()) as nat), ds);
                }
            } else {
                lemma_digits_ok(k);
                if ds.len() == 1 {
                    lemma_concat_ok(sign, ds);
                    lemma_concat_ok(sign + ds, seq![LETTER_E, MINUS]);
                    lemma_concat_ok(sign + ds + seq![LETTER_E, MINUS], digits_spec(k));
                } else {
                    lemma_take_skip_ok(ds, 1);
                    let mantissa = ds.take(1) + seq![POINT] + ds.skip(1);
                    lemma_concat_ok(ds.take(1), seq![POINT]);
                    lemma_concat_ok(ds.take(1) + seq![POINT], ds.skip(1));
                    lemma_concat_ok(sign, mantissa);
                    lemma_concat_ok(sign + mantissa, seq![LETTER_E, MINUS]);
                    lemma_concat_ok(sign + mantissa + seq![LETTER_E, MINUS],
                        digits_spec(k));
                }
            }
        }
    }
}

} // verus!
