use vstd::prelude::*;

verus! {

/// Number of millionths in one whole unit.
pub const SCALE: i64 = 1_000_000;

/// A signed fixed-point amount with six decimal places, held as a whole number of
/// millionths. Share quantities, order sizes and costs are all amounts: sums of
/// amounts and products of an amount by a tick price are exact.
#[derive(Debug, Clone, Copy, PartialEq, Eq, Structural)]
pub struct Fixed {
    pub micros: i64,
}

impl View for Fixed {
    type V = int;

    /// The amount in millionths.
    open spec fn view(&self) -> int {
        self.micros as int
    }
}

/// Integer division that rounds toward zero, as Rust's `/` does.
pub open spec fn div_trunc(a: int, d: int) -> int
    recommends
        d > 0,
{
    if a >= 0 {
        a / d
    } else {
        -((-a) / d)
    }
}

pub open spec fn fits_i64(v: int) -> bool {
    i64::MIN <= v <= i64::MAX
}

pub open spec fn min_int(a: int, b: int) -> int {
    if a <= b {
        a
    } else {
        b
    }
}

pub open spec fn abs_int(a: int) -> int {
    if a >= 0 {
        a
    } else {
        -a
    }
}

impl Fixed {
    pub fn zero() -> (r: Fixed)
        ensures
            r@ == 0,
    {
        Fixed { micros: 0 }
    }

    /// A whole number of units.
    pub fn from_int(n: i64) -> (r: Fixed)
        requires
            fits_i64(n * SCALE),
        ensures
            r@ == n * SCALE,
    {
        Fixed { micros: n * SCALE }
    }

    /// An amount given in millionths.
    pub fn from_micros(micros: i64) -> (r: Fixed)
        ensures
            r@ == micros,
    {
        Fixed { micros }
    }

    pub fn is_zero(&self) -> (r: bool)
        ensures
            r == (self@ == 0),
    {
        self.micros == 0
    }

    pub fn is_positive(&self) -> (r: bool)
        ensures
            r == (self@ > 0),
    {
        self.micros > 0
    }

    pub fn lt(&self, other: &Fixed) -> (r: bool)
        ensures
            r == (self@ < other@),
    {
        self.micros < other.micros
    }

    pub fn le(&self, other: &Fixed) -> (r: bool)
        ensures
            r == (self@ <= other@),
    {
        self.micros <= other.micros
    }

    pub fn plus(&self, other: &Fixed) -> (r: Fixed)
        requires
            fits_i64(self@ + other@),
        ensures
            r@ == self@ + other@,
    {
        Fixed { micros: self.micros + other.micros }
    }

    pub fn minus(&self, other: &Fixed) -> (r: Fixed)
        requires
            fits_i64(self@ - other@),
        ensures
            r@ == self@ - other@,
    {
        Fixed { micros: self.micros - other.micros }
    }

    pub fn negate(&self) -> (r: Fixed)
        requires
            fits_i64(-self@),
        ensures
            r@ == -self@,
    {
        Fixed { micros: -self.micros }
    }

    /// The smaller of two amounts.
    pub fn min(&self, other: &Fixed) -> (r: Fixed)
        ensures
            r@ == min_int(self@, other@),
    {
        if self.micros <= other.micros {
            *self
        } else {
            *other
        }
    }

    pub fn abs(&self) -> (r: Fixed)
        requires
            fits_i64(abs_int(self@)),
        ensures
            r@ == abs_int(self@),
    {
        if self.micros >= 0 {
            *self
        } else {
            Fixed { micros: -self.micros }
        }
    }

    /// The amount multiplied by a whole number (a price in ticks, a payout).
    pub fn times(&self, k: i64) -> (r: Fixed)
        requires
            fits_i64(self@ * k),
        ensures
            r@ == self@ * k,
    {
        Fixed { micros: self.micros * k }
    }

    /// The amount divided by a positive whole number, rounded toward zero to the
    /// nearest millionth.
    pub fn div_int(&self, d: i64) -> (r: Fixed)
        requires
            d > 0,
        ensures
            r@ == div_trunc(self@, d as int),
    {
        Fixed { micros: self.micros / d }
    }

    /// The ratio of two amounts, as an amount rounded toward zero to the nearest
    /// millionth.
    pub fn ratio(&self, den: &Fixed) -> (r: Fixed)
        requires
            den@ > 0,
            fits_i64(div_trunc(self@ * SCALE, den@)),
        ensures
            r@ == div_trunc(self@ * SCALE, den@),
    {
        let num: i128 = self.micros as i128 * SCALE as i128;
        let q: i128 = num / den.micros as i128;
        Fixed { micros: q as i64 }
    }
}

} // verus!
