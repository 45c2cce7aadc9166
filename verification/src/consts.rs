//! Basic mathematical constants, each as a canonical
//! (coefficient, exponent) pair.

use vstd::prelude::*;

use crate::num::Dec64;

verus! {

/// Archimedes' constant: pi = `3.1415926535897932`.
pub fn pi() -> (r: Dec64)
    ensures
        r.spec_coefficient() == 31_415_926_535_897_932,
        r.spec_exponent() == -16,
{
    Dec64::from_parts(31_415_926_535_897_932, -16)
}

/// pi/2 = `1.5707963267948966`.
pub fn frac_pi_2() -> (r: Dec64)
    ensures
        r.spec_coefficient() == 15_707_963_267_948_966,
        r.spec_exponent() == -16,
{
    Dec64::from_parts(15_707_963_267_948_966, -16)
}

/// pi/3 = `1.0471975511965977`.
pub fn frac_pi_3() -> (r: Dec64)
    ensures
        r.spec_coefficient() == 10_471_975_511_965_977,
        r.spec_exponent() == -16,
{
    Dec64::from_parts(10_471_975_511_965_977, -16)
}

/// pi/4 = `0.7853981633974483`.
pub fn frac_pi_4() -> (r: Dec64)
    ensures
        r.spec_coefficient() == 7_853_981_633_974_483,
        r.spec_exponent() == -16,
{
    Dec64::from_parts(7_853_981_633_974_483, -16)
}

/// pi/6 = `0.5235987755982989`.
pub fn frac_pi_6() -> (r: Dec64)
    ensures
        r.spec_coefficient() == 5_235_987_755_982_989,
        r.spec_exponent() == -16,
{
    Dec64::from_parts(5_235_987_755_982_989, -16)
}

/// pi/8 = `0.3926990816987242`.
pub fn frac_pi_8() -> (r: Dec64)
    ensures
        r.spec_coefficient() == 3_926_990_816_987_242,
        r.spec_exponent() == -16,
{
    Dec64::from_parts(3_926_990_816_987_242, -16)
}

/// 1/pi = `0.31830988618379067`.
pub fn frac_1_pi() -> (r: Dec64)
    ensures
        r.spec_coefficient() == 31_830_988_618_379_067,
        r.spec_exponent() == -17,
{
    Dec64::from_parts(31_830_988_618_379_067, -17)
}

/// 2/pi = `0.6366197723675813`.
pub fn frac_2_pi() -> (r: Dec64)
    ensures
        r.spec_coefficient() == 6_366_197_723_675_813,
        r.spec_exponent() == -16,
{
    Dec64::from_parts(6_366_197_723_675_813, -16)
}

/// 2/sqrt(pi) = `1.1283791670955125`.
pub fn frac_2_sqrt_pi() -> (r: Dec64)
    ensures
        r.spec_coefficient() == 11_283_791_670_955_125,
        r.spec_exponent() == -16,
{
    Dec64::from_parts(11_283_791_670_955_125, -16)
}

/// sqrt(2) = `1.4142135623730950`.
pub fn sqrt_2() -> (r: Dec64)
    ensures
        r.spec_coefficient() == 14_142_135_623_730_950,
        r.spec_exponent() == -16,
{
    Dec64::from_parts(14_142_135_623_730_950, -16)
}

/// 1/sqrt(2) = `0.7071067811865475`.
pub fn frac_1_sqrt_2() -> (r: Dec64)
    ensures
        r.spec_coefficient() == 7_071_067_811_865_475,
        r.spec_exponent() == -16,
{
    Dec64::from_parts(7_071_067_811_865_475, -16)
}

/// sqrt(3) = `1.7320508075688773`.
pub fn sqrt_3() -> (r: Dec64)
    ensures
        r.spec_coefficient() == 17_320_508_075_688_773,
        r.spec_exponent() == -16,
{
    Dec64::from_parts(17_320_508_075_688_773, -16)
}

/// 1/sqrt(3) = `0.5773502691896258`.
pub fn frac_1_sqrt_3() -> (r: Dec64)
    ensures
        r.spec_coefficient() == 5_773_502_691_896_258,
        r.spec_exponent() == -16,
{
    Dec64::from_parts(5_773_502_691_896_258, -16)
}

/// Euler's number: e = `2.7182818284590452`.
pub fn euler() -> (r: Dec64)
    ensures
        r.spec_coefficient() == 27_182_818_284_590_452,
        r.spec_exponent() == -16,
{
    Dec64::from_parts(27_182_818_284_590_452, -16)
}

/// log2(e) = `1.4426950408889634`.
pub fn log2_e() -> (r: Dec64)
    ensures
        r.spec_coefficient() == 14_426_950_408_889_634,
        r.spec_exponent() == -16,
{
    Dec64::from_parts(14_426_950_408_889_634, -16)
}

/// log10(e) = `0.4342944819032518`.
pub fn log10_e() -> (r: Dec64)
    ensures
        r.spec_coefficient() == 4_342_944_819_032_518,
        r.spec_exponent() == -16,
{
    Dec64::from_parts(4_342_944_819_032_518, -16)
}

/// ln(2) = `0.6931471805599453`.
pub fn ln_2() -> (r: Dec64)
    ensures
        r.spec_coefficient() == 6_931_471_805_599_453,
        r.spec_exponent() == -16,
{
    Dec64::from_parts(6_931_471_805_599_453, -16)
}

/// ln(10) = `2.3025850929940457`.
pub fn ln_10() -> (r: Dec64)
    ensures
        r.spec_coefficient() == 23_025_850_929_940_457,
        r.spec_exponent() == -16,
{
    Dec64::from_parts(23_025_850_929_940_457, -16)
}

} // verus!
