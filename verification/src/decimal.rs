//! Exact decimal numbers for point values, answer weights and numerical
//! answers: a sign, an integer mantissa and a power-of-ten scale.
//! `mantissa = 314, scale = 2` stands for `3.14`. The mantissa is held
//! exactly in sixty-four bits, so the parser rejects literals with more
//! significant digits than that rather than rounding them.

use vstd::prelude::*;
use crate::text::{spec_u64_digits, u64_to_string};

verus! {

/// A decimal number `(-1)^negative * mantissa / 10^scale`.
#[derive(Clone, Copy, PartialEq, Eq, Structural, Debug)]
pub struct Decimal {
    pub negative: bool,
    pub mantissa: u64,
    pub scale: u32,
}

/// The rendering of `d`: the digits of the mantissa with a decimal point
/// inserted `scale` places from the right, zero-padded on the left when the
/// mantissa has no more than `scale` digits, and a leading minus sign when
/// the number is negative.
pub open spec fn spec_decimal_str(d: Decimal) -> Seq<char> {
    let ds = spec_u64_digits(d.mantissa as int);
    let body = if d.scale == 0 {
        ds
    } else if ds.len() > d.scale {
        ds.take(ds.len() - d.scale) + seq!['.'] + ds.skip(ds.len() - d.scale)
    } else {
        seq!['0', '.'] + Seq::new((d.scale - ds.len()) as nat, |i: int| '0') + ds
    };
    if d.negative {
        seq!['-'] + body
    } else {
        body
    }
}

/// Halving a decimal: an even mantissa is divided by two; an odd one is
/// multiplied by five with the scale raised by one. Where the latter would
/// overflow, the half is truncated instead.
pub open spec fn spec_halved(d: Decimal) -> Decimal {
    if d.mantissa % 2 == 0 {
        Decimal { negative: d.negative, mantissa: (d.mantissa / 2) as u64, scale: d.scale }
    } else if d.mantissa <= u64::MAX / 5 && d.scale < u32::MAX {
        Decimal {
            negative: d.negative,
            mantissa: (d.mantissa * 5) as u64,
            scale: (d.scale + 1) as u32,
        }
    } else {
        Decimal { negative: d.negative, mantissa: (d.mantissa / 2) as u64, scale: d.scale }
    }
}

/// The product of two decimals: mantissas multiplied and scales added, both
/// saturating at their type's maximum.
pub open spec fn spec_times(a: Decimal, b: Decimal) -> Decimal {
    Decimal {
        negative: a.negative != b.negative,
        mantissa: if a.mantissa * b.mantissa <= u64::MAX {
            (a.mantissa * b.mantissa) as u64
        } else {
            u64::MAX
        },
        scale: if a.scale + b.scale <= u32::MAX {
            (a.scale + b.scale) as u32
        } else {
            u32::MAX
        },
    }
}

impl Decimal {
    /// The decimal with the given parts.
    pub fn new(negative: bool, mantissa: u64, scale: u32) -> (r: Decimal)
        ensures
            r == (Decimal { negative, mantissa, scale }),
    {
        Decimal { negative, mantissa, scale }
    }

    /// The whole number `n`.
    pub fn from_int(n: u64) -> (r: Decimal)
        ensures
            r == (Decimal { negative: false, mantissa: n, scale: 0u32 }),
    {
        Decimal { negative: false, mantissa: n, scale: 0 }
    }

    /// The value one, the default point value of a question.
    pub fn one() -> (r: Decimal)
        ensures
            r == (Decimal { negative: false, mantissa: 1u64, scale: 0u32 }),
    {
        Decimal { negative: false, mantissa: 1, scale: 0 }
    }

    /// The value zero.
    pub fn zero() -> (r: Decimal)
        ensures
            r == (Decimal { negative: false, mantissa: 0u64, scale: 0u32 }),
    {
        Decimal { negative: false, mantissa: 0, scale: 0 }
    }

    /// Half of this decimal, per [`spec_halved`].
    pub fn halved(&self) -> (r: Decimal)
        ensures
            r == spec_halved(*self),
    {
        if self.mantissa % 2 == 0 {
            Decimal { negative: self.negative, mantissa: self.mantissa / 2, scale: self.scale }
        } else if self.mantissa <= u64::MAX / 5 && self.scale < u32::MAX {
            Decimal {
                negative: self.negative,
                mantissa: self.mantissa * 5,
                scale: self.scale + 1,
            }
        } else {
            Decimal { negative: self.negative, mantissa: self.mantissa / 2, scale: self.scale }
        }
    }

    /// The product of the two decimals, per [`spec_times`].
    pub fn times(&self, other: &Decimal) -> (r: Decimal)
        ensures
            r == spec_times(*self, *other),
    {
        let mantissa = match self.mantissa.checked_mul(other.mantissa) {
            Some(m) => m,
            None => u64::MAX,
        };
        let scale = match self.scale.checked_add(other.scale) {
            Some(s) => s,
            None => u32::MAX,
        };
        Decimal { negative: self.negative != other.negative, mantissa, scale }
    }

    /// Renders the decimal, per [`spec_decimal_str`].
    pub fn to_text(&self) -> (r: String)
        ensures
            r@ == spec_decimal_str(*self),
    {
        let ds = u64_to_string(self.mantissa);
        let n = ds.as_str().unicode_len();
        let body = if self.scale == 0 {
            ds
        } else if n > self.scale as usize {
            let cut = n - self.scale as usize;
            let mut b = ds.as_str().substring_char(0, cut).to_owned();
            b.append(".");
            b.append(ds.as_str().substring_char(cut, n));
            proof {
                reveal_strlit(".");
                assert(b@ =~= spec_u64_digits(self.mantissa as int).take(n - self.scale) + seq![
                    '.',
                ] + spec_u64_digits(self.mantissa as int).skip(n - self.scale));
            }
            b
        } else {
            let mut b = String::from_str("0.");
            proof {
                reveal_strlit("0.");
                reveal_strlit("0");
                assert(b@ =~= seq!['0', '.']);
            }
            let pad = self.scale as usize - n;
            let mut i: usize = 0;
            while i < pad
                invariant
                    0 <= i <= pad,
                    b@ =~= seq!['0', '.'] + Seq::new(i as nat, |k: int| '0'),
                decreases pad - i,
            {
                b.append("0");
                proof {
                    reveal_strlit("0");
                    assert(b@ =~= seq!['0', '.'] + Seq::new((i + 1) as nat, |k: int| '0'));
                }
                i = i + 1;
            }
            b.append(ds.as_str());
            proof {
                assert(b@ =~= seq!['0', '.'] + Seq::new((self.scale - n) as nat, |k: int| '0')
                    + spec_u64_digits(self.mantissa as int));
            }
            b
        };
        if self.negative {
            let mut r = String::from_str("-");
            proof {
                reveal_strlit("-");
            }
            r.append(body.as_str());
            proof {
                assert(r@ =~= seq!['-'] + body@);
            }
            r
        } else {
            body
        }
    }
}

} // verus!
