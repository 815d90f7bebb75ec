//! Fixed-point reals: a value `v` stands for `v.raw / SCALE`.
use vstd::prelude::*;
use vstd::arithmetic::div_mod::lemma_fundamental_div_mod;
use vstd::math::abs;

verus! {

/// Number of raw units in one.
pub const SCALE: i64 = 1_000_000_000_000;

/// Largest magnitude of a raw value; one million in real terms.
pub const MAX_RAW: i64 = 1_000_000_000_000_000_000;

/// `n / d` rounded to the nearest integer, ties upwards (`d > 0`).
pub open spec fn div_nearest(n: int, d: int) -> int {
    (2 * n + d) / (2 * d)
}

/// Whether a raw value lies in the representable range.
pub open spec fn fits(v: int) -> bool {
    -MAX_RAW <= v <= MAX_RAW
}

/// The fixed-point number with raw value `v`, if it is representable.
pub open spec fn lift(v: int) -> Option<Fixed> {
    if fits(v) {
        Some(Fixed { raw: v as i64 })
    } else {
        None
    }
}

/// Raw value of the rounded product of two raw values.
pub open spec fn mul_raw(a: int, b: int) -> int {
    div_nearest(a * b, SCALE as int)
}

/// A real number held as an integer multiple of `1 / SCALE`.
#[derive(Clone, Copy, PartialEq, Eq, Structural, Debug)]
pub struct Fixed {
    pub raw: i64,
}

impl View for Fixed {
    type V = int;

    open spec fn view(&self) -> int {
        self.raw as int
    }
}

/// Exact rounded division on wide integers.
pub fn div_nearest_wide(n: i128, d: i128) -> (r: i128)
    requires
        0 < d <= 1_000_000_000_000_000_000_000_000_000_000i128,
        -50_000_000_000_000_000_000_000_000_000_000_000_000i128 <= n
            <= 50_000_000_000_000_000_000_000_000_000_000_000_000i128,
    ensures
        r == div_nearest(n as int, d as int),
{
    let num: i128 = 2 * n + d;
    let den: i128 = 2 * d;
    proof {
        lemma_div_within(num as int, den as int);
    }
    match num.checked_div_euclid(den) {
        Some(q) => q,
        None => 0,
    }
}

/// A quotient by a positive divisor is no larger in magnitude than the dividend.
pub proof fn lemma_div_within(n: int, d: int)
    requires
        d >= 1,
    ensures
        -abs(n) <= n / d <= abs(n),
{
    lemma_fundamental_div_mod(n, d);
    let q = n / d;
    let m = n % d;
    assert(0 <= m < d);
    assert(-abs(n) <= q <= abs(n)) by (nonlinear_arith)
        requires
            n == d * q + m,
            0 <= m < d,
            d >= 1,
    ;
}

/// A 64-bit integer times `SCALE` stays far inside the wide range.
pub proof fn lemma_scaled_bound(n: int)
    requires
        i64::MIN <= n <= i64::MAX,
    ensures
        -10_000_000_000_000_000_000_000_000_000_000int <= n * SCALE
            <= 10_000_000_000_000_000_000_000_000_000_000int,
{
    assert(-10_000_000_000_000_000_000_000_000_000_000int <= n * 1_000_000_000_000int
        <= 10_000_000_000_000_000_000_000_000_000_000int) by (nonlinear_arith)
        requires
            -10_000_000_000_000_000_000 <= n <= 10_000_000_000_000_000_000,
    ;
}

impl Fixed {
    pub open spec fn wf(self) -> bool {
        fits(self@)
    }

    /// The fixed-point number with the given raw value, if representable.
    pub fn from_raw(raw: i64) -> (r: Option<Fixed>)
        ensures
            r == lift(raw as int),
    {
        if -MAX_RAW <= raw && raw <= MAX_RAW {
            Some(Fixed { raw })
        } else {
            None
        }
    }

    /// The fixed-point number with the given wide raw value, if representable.
    pub fn from_wide(v: i128) -> (r: Option<Fixed>)
        ensures
            r == lift(v as int),
    {
        if -(MAX_RAW as i128) <= v && v <= MAX_RAW as i128 {
            Some(Fixed { raw: v as i64 })
        } else {
            None
        }
    }

    /// The whole number `n`.
    pub fn from_int(n: i64) -> (r: Option<Fixed>)
        ensures
            r == lift(n * SCALE),
    {
        proof {
            lemma_scaled_bound(n as int);
        }
        Fixed::from_wide(n as i128 * SCALE as i128)
    }

    /// The fraction `num / den`, rounded to the nearest raw unit.
    pub fn from_ratio(num: i64, den: i64) -> (r: Option<Fixed>)
        ensures
            den == 0 ==> r is None,
            den > 0 ==> r == lift(div_nearest(num * SCALE, den as int)),
            den < 0 ==> r == lift(div_nearest(-num * SCALE, -den)),
    {
        if den == 0 {
            return None;
        }
        proof {
            lemma_scaled_bound(num as int);
        }
        let wide: i128 = num as i128 * SCALE as i128;
        if den > 0 {
            Fixed::from_wide(div_nearest_wide(wide, den as i128))
        } else {
            Fixed::from_wide(div_nearest_wide(-wide, -(den as i128)))
        }
    }

    /// Sum, if representable.
    pub fn add(self, o: Fixed) -> (r: Option<Fixed>)
        requires
            self.wf(),
            o.wf(),
        ensures
            r == lift(self@ + o@),
    {
        Fixed::from_raw(self.raw + o.raw)
    }

    /// Difference, if representable.
    pub fn sub(self, o: Fixed) -> (r: Option<Fixed>)
        requires
            self.wf(),
            o.wf(),
        ensures
            r == lift(self@ - o@),
    {
        Fixed::from_raw(self.raw - o.raw)
    }

    /// Product rounded to the nearest raw unit, if representable.
    pub fn mul(self, o: Fixed) -> (r: Option<Fixed>)
        requires
            self.wf(),
            o.wf(),
        ensures
            r == lift(mul_raw(self@, o@)),
    {
        let a = self.raw as i128;
        let b = o.raw as i128;
        assert(-1_000_000_000_000_000_000_000_000_000_000_000_000int <= a * b
            <= 1_000_000_000_000_000_000_000_000_000_000_000_000int) by (nonlinear_arith)
            requires
                -MAX_RAW <= a <= MAX_RAW,
                -MAX_RAW <= b <= MAX_RAW,
        ;
        Fixed::from_wide(div_nearest_wide(a * b, SCALE as i128))
    }

    /// Magnitude.
    pub fn abs(self) -> (r: Fixed)
        requires
            self.wf(),
        ensures
            r@ == abs(self@),
            r.wf(),
    {
        if self.raw < 0 {
            Fixed { raw: -self.raw }
        } else {
            self
        }
    }

    /// Exactly one half, if the raw value is even.
    pub fn half(self) -> (r: Option<Fixed>)
        requires
            self.wf(),
        ensures
            self@ % 2 == 0 ==> r == Some(Fixed { raw: (self@ / 2) as i64 }),
            self@ % 2 != 0 ==> r is None,
    {
        if self.raw % 2 == 0 {
            Some(Fixed { raw: self.raw / 2 })
        } else {
            None
        }
    }

    /// Whether the value is in range.
    pub fn wf_exec(self) -> (r: bool)
        ensures
            r == self.wf(),
    {
        -MAX_RAW <= self.raw && self.raw <= MAX_RAW
    }

    pub fn zero() -> (r: Fixed)
        ensures
            r@ == 0,
            r.wf(),
    {
        Fixed { raw: 0 }
    }
}

} // verus!
