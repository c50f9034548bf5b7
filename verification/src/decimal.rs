//! Exact decimal scalars.
//!
//! The input document and the sizing grammar carry decimal numerals
//! (`"2.5"`, `"0.15"`). The pipeline never computes with them beyond one
//! exact product, so they are kept exactly as written: a sign, an integer
//! mantissa and a power-of-ten scale, denoting
//! `(-1)^negative * mantissa / 10^scale`.

use vstd::prelude::*;

verus! {

/// A signed decimal number: `(-1)^negative * mantissa / 10^scale`.
#[derive(Clone, Copy, PartialEq, Eq, Structural, Debug)]
pub struct Decimal {
    pub negative: bool,
    pub mantissa: u64,
    pub scale: u32,
}

impl Decimal {
    /// The non-negative decimal `mantissa / 10^scale`.
    pub fn positive(mantissa: u64, scale: u32) -> (r: Decimal)
        ensures
            r == (Decimal { negative: false, mantissa, scale }),
    {
        Decimal { negative: false, mantissa, scale }
    }

    /// The whole number `i`, as a decimal with scale zero.
    pub fn from_integer(i: i64) -> (r: Decimal)
        ensures
            r.negative == (i < 0),
            r.mantissa == abs(i as int),
            r.scale == 0,
    {
        let mantissa: u64 = if i >= 0 {
            i as u64
        } else {
            ((-(i + 1)) as u64) + 1
        };
        Decimal { negative: i < 0, mantissa, scale: 0 }
    }

    /// Scales this decimal by the whole number `factor`; `None` when the
    /// product of the mantissa and `|factor|` does not fit in 64 bits.
    /// The result's sign is negative exactly when the two signs differ
    /// (a zero magnitude keeps the combined sign flag).
    pub fn scale_by(&self, factor: i32) -> (r: Option<Decimal>)
        ensures
            r is Some <==> self.mantissa * abs(factor as int) <= u64::MAX,
            r matches Some(t) ==> {
                &&& t.negative == (self.negative != (factor < 0))
                &&& t.mantissa == self.mantissa * abs(factor as int)
                &&& t.scale == self.scale
            },
    {
        let magnitude: u64 = if factor >= 0 {
            factor as u64
        } else {
            (-(factor as i64)) as u64
        };
        match self.mantissa.checked_mul(magnitude) {
            Some(m) => Some(
                Decimal {
                    negative: self.negative != (factor < 0),
                    mantissa: m,
                    scale: self.scale,
                },
            ),
            None => None,
        }
    }
}

/// Absolute value of a mathematical integer.
pub open spec fn abs(i: int) -> int {
    if i < 0 {
        -i
    } else {
        i
    }
}

} // verus!
