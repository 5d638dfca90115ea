//! Signed 8.8 fixed-point arithmetic: a 16-bit backing value interpreted as
//! value * 256. All background transform coefficients are stored in this type.

use vstd::prelude::*;

verus! {

/// A signed 8.8 fixed-point number: the backing `i16` holds the value scaled
/// by 256.
#[derive(Clone, Copy, Debug, PartialEq, Eq, Structural)]
pub struct Fixed(pub i16);

/// Truncating (round toward zero) division, as the `/` operator computes it
/// on machine integers.
pub open spec fn tdiv(a: int, b: int) -> int
    recommends
        b != 0,
{
    if a >= 0 {
        if b >= 0 {
            a / b
        } else {
            -(a / (-b))
        }
    } else {
        if b >= 0 {
            -((-a) / b)
        } else {
            (-a) / (-b)
        }
    }
}

/// Truncating remainder, as the `%` operator computes it on machine integers:
/// the magnitude is the Euclidean remainder of the magnitudes, and the result
/// carries the sign of the dividend.
pub open spec fn trem(a: int, b: int) -> int
    recommends
        b != 0,
{
    let m = if b >= 0 { b } else { -b };
    if a >= 0 {
        a % m
    } else {
        -((-a) % m)
    }
}

impl Fixed {
    /// The raw scaled backing value, as a mathematical integer.
    pub open spec fn raw(self) -> int {
        self.0 as int
    }

    /// Construction from a raw scaled integer is exact.
    pub fn from(val: i16) -> (r: Self)
        ensures
            r.0 == val,
    {
        Fixed(val)
    }

    /// Exact raw addition of the backing values.
    pub fn add(self, rhs: Fixed) -> (r: Fixed)
        requires
            i16::MIN <= self.raw() + rhs.raw() <= i16::MAX,
        ensures
            r.raw() == self.raw() + rhs.raw(),
    {
        Fixed(self.0 + rhs.0)
    }

    /// Exact raw subtraction of the backing values.
    pub fn sub(self, rhs: Fixed) -> (r: Fixed)
        requires
            i16::MIN <= self.raw() - rhs.raw() <= i16::MAX,
        ensures
            r.raw() == self.raw() - rhs.raw(),
    {
        Fixed(self.0 - rhs.0)
    }
}

/// Floor division of `p` by 256: what an arithmetic shift right by 8 bits
/// computes. In ghost code, Euclidean `/` by a positive divisor is already
/// the floor, so the result is stated as `p / 256`.
fn floor_div_256(p: i32) -> (r: i32)
    requires
        i32::MIN + 255 < p,
    ensures
        r == p as int / 256,
{
    if p >= 0 {
        p / 256
    } else {
        let q = -((255 - p) / 256);
        proof {
            let pi = p as int;
            vstd::arithmetic::div_mod::lemma_fundamental_div_mod(255 - pi, 256);
            let k = (255 - pi) / 256;
            let m = (255 - pi) % 256;
            assert(pi == 256 * (-k) + (255 - m));
            vstd::arithmetic::div_mod::lemma_fundamental_div_mod_converse(
                pi, 256, -k, 255 - m);
        }
        q
    }
}

/// Truncating (round toward zero) division, as `/` computes it on machine
/// integers. Each branch divides non-negative operands, where the Euclidean
/// quotient and the truncating quotient agree.
fn trunc_div(a: i64, b: i64) -> (r: i64)
    requires
        b != 0,
        i64::MIN < a,
        i64::MIN < b,
    ensures
        r == tdiv(a as int, b as int),
{
    if a >= 0 {
        if b >= 0 {
            a / b
        } else {
            -(a / (-b))
        }
    } else {
        if b >= 0 {
            -((-a) / b)
        } else {
            (-a) / (-b)
        }
    }
}

/// Truncating remainder, as `%` computes it on machine integers: the result
/// carries the sign of the dividend, and each branch takes a Euclidean
/// remainder of non-negative operands.
fn trunc_rem(a: i64, b: i64) -> (r: i64)
    requires
        b != 0,
        i64::MIN < a,
        i64::MIN < b,
    ensures
        r == trem(a as int, b as int),
        -(if b > 0 { b as int } else { -(b as int) }) < r
            < (if b > 0 { b as int } else { -(b as int) }),
{
    let m = if b >= 0 { b } else { -b };
    proof {
        vstd::arithmetic::div_mod::lemma_mod_division_less_than_divisor(a as int, m as int);
        vstd::arithmetic::div_mod::lemma_mod_division_less_than_divisor(-(a as int), m as int);
    }
    if a >= 0 {
        a % m
    } else {
        -((-a) % m)
    }
}

impl Fixed {
    /// Fixed-by-fixed multiply: widen, multiply the raw values, arithmetic
    /// shift right by 8 (floor division by 256), narrow back.
    pub fn mul(self, rhs: Fixed) -> (r: Fixed)
        requires
            i16::MIN <= (self.raw() * rhs.raw()) / 256 <= i16::MAX,
        ensures
            r.raw() == (self.raw() * rhs.raw()) / 256,
    {
        let p: i32 = (self.0 as i32) * (rhs.0 as i32);
        Fixed(floor_div_256(p) as i16)
    }

    /// Fixed-by-fixed divide: widen the dividend, scale it up by 256, divide
    /// by the raw divisor (truncating), narrow back.
    pub fn div(self, rhs: Fixed) -> (r: Fixed)
        requires
            rhs.raw() != 0,
            i16::MIN <= tdiv(self.raw() * 256, rhs.raw()) <= i16::MAX,
        ensures
            r.raw() == tdiv(self.raw() * 256, rhs.raw()),
    {
        let p: i64 = (self.0 as i64) * 256;
        Fixed(trunc_div(p, rhs.0 as i64) as i16)
    }

    /// Raw truncating remainder of the backing values.
    pub fn rem(self, rhs: Fixed) -> (r: Fixed)
        requires
            rhs.raw() != 0,
        ensures
            r.raw() == trem(self.raw(), rhs.raw()),
    {
        Fixed(trunc_rem(self.0 as i64, rhs.0 as i64) as i16)
    }

    /// Add a plain integer, treated as already scaled by 256.
    pub fn add_int(self, v: i64) -> (r: Fixed)
        requires
            i16::MIN <= self.raw() + v * 256 <= i16::MAX,
        ensures
            r.raw() == self.raw() + v * 256,
    {
        Fixed(((self.0 as i64) + v * 256) as i16)
    }

    /// Subtract a plain integer, treated as already scaled by 256.
    pub fn sub_int(self, v: i64) -> (r: Fixed)
        requires
            i16::MIN <= self.raw() - v * 256 <= i16::MAX,
        ensures
            r.raw() == self.raw() - v * 256,
    {
        Fixed(((self.0 as i64) - v * 256) as i16)
    }

    /// Multiply by a plain integer, treated as an unscaled multiplier.
    pub fn mul_int(self, v: i64) -> (r: Fixed)
        requires
            i16::MIN <= self.raw() * v <= i16::MAX,
        ensures
            r.raw() == self.raw() * v,
    {
        Fixed(((self.0 as i64) * v) as i16)
    }

    /// Divide by a plain integer, treated as an unscaled divisor (truncating).
    pub fn div_int(self, v: i64) -> (r: Fixed)
        requires
            v != 0,
            i64::MIN < v,
            i16::MIN <= tdiv(self.raw(), v as int) <= i16::MAX,
        ensures
            r.raw() == tdiv(self.raw(), v as int),
    {
        Fixed(trunc_div(self.0 as i64, v) as i16)
    }

    /// Integer-by-fixed multiply yielding an integer: `v * raw / 256` with
    /// truncating division. This is the product the background transform
    /// takes between a pixel coordinate and a matrix coefficient.
    pub fn scale(self, v: i64) -> (r: i64)
        requires
            -0x4000_0000_0000 <= v <= 0x4000_0000_0000,
        ensures
            r == tdiv(v as int * self.raw(), 256),
            -0x2000_0000_0000_0000 <= r <= 0x2000_0000_0000_0000,
    {
        let w: i64 = self.0 as i64;
        proof {
            assert(-0x2000_0000_0000_0000 <= v as int * w as int <= 0x2000_0000_0000_0000)
                by (nonlinear_arith)
                requires
                    -0x4000_0000_0000 <= v as int <= 0x4000_0000_0000,
                    -0x8000 <= w as int <= 0x8000,
            ;
        }
        proof {
            lemma_tdiv_magnitude(v as int * w as int, 256);
        }
        trunc_div(v * w, 256)
    }

    /// Integer-by-fixed divide yielding an integer: `v * 256 / raw` with
    /// truncating division.
    pub fn scale_recip(self, v: i64) -> (r: i64)
        requires
            self.raw() != 0,
            -0x4000_0000_0000 <= v <= 0x4000_0000_0000,
        ensures
            r == tdiv(v as int * 256, self.raw()),
    {
        trunc_div(v * 256, self.0 as i64)
    }
}

impl Default for Fixed {
    /// The default value represents 1.0, raw 256.
    fn default() -> (r: Self)
        ensures
            r.0 == 256,
    {
        Fixed(256)
    }
}

/// A truncating quotient never exceeds the dividend in magnitude and keeps
/// its sign (or is zero).
proof fn lemma_tdiv_magnitude(a: int, b: int)
    requires
        b > 0,
    ensures
        a >= 0 ==> 0 <= tdiv(a, b) <= a,
        a < 0 ==> a <= tdiv(a, b) <= 0,
{
    if a >= 0 {
        vstd::arithmetic::div_mod::lemma_div_pos_is_pos(a, b);
        vstd::arithmetic::div_mod::lemma_div_nonincreasing(a, b);
    } else {
        vstd::arithmetic::div_mod::lemma_div_pos_is_pos(-a, b);
        vstd::arithmetic::div_mod::lemma_div_nonincreasing(-a, b);
    }
}

/// Adding any fixed-point value and then subtracting it again restores the
/// first operand exactly, whenever the intermediate sum is representable:
/// `sum` is any result of `a.add(b)` and `back` any result of `sum.sub(b)`.
pub proof fn lemma_add_sub_cancel(a: Fixed, b: Fixed, sum: Fixed, back: Fixed)
    requires
        sum.raw() == a.raw() + b.raw(),
        back.raw() == sum.raw() - b.raw(),
    ensures
        back == a,
{
}

/// Multiplying by raw 256 (the representation of 1.0) is the identity:
/// `prod` is any result of `a.mul(one)` where `one` is raw 256.
pub proof fn lemma_mul_identity(a: Fixed, one: Fixed, prod: Fixed)
    requires
        one.raw() == 256,
        prod.raw() == (a.raw() * one.raw()) / 256,
    ensures
        prod == a,
{
    vstd::arithmetic::div_mod::lemma_div_multiples_vanish(a.raw(), 256);
}

/// Construction from raw 256 yields exactly the default value.
pub proof fn lemma_from_raw_256_is_default(f: Fixed, d: Fixed)
    requires
        f.raw() == 256,
        d.raw() == 256,
    ensures
        f == d,
{
}

} // verus!
