//! DEC64 decimal floating point: a 56-bit decimal coefficient paired
//! with an 8-bit power-of-ten exponent, with exact base-10 arithmetic.

pub mod num;
pub mod pack;
pub mod cmp;
pub mod add;
pub mod text;
pub mod laws;
pub mod consts;

pub use num::Dec64;
pub use num::MIN_COEFFICIENT;
pub use num::MAX_COEFFICIENT;
pub use num::MIN_EXP;
pub use num::MAX_EXP;
