use vstd::prelude::*;
use vstd::arithmetic::div_mod::lemma_fundamental_div_mod;
use vstd::arithmetic::div_mod::lemma_fundamental_div_mod_converse;

verus! {

/// Fixed-point units in one world unit: a coordinate of 1500 stands for 1.5.
pub const SCALE: i64 = 1000;

/// Largest magnitude of a stored coordinate, in fixed-point units (2^30).
pub const LIMIT: i64 = 1073741824;

/// A 2D point or vector in fixed-point units.
#[derive(Clone, Copy, Debug, PartialEq, Eq, Structural)]
pub struct Vec2 {
    pub x: i64,
    pub y: i64,
}

/// A value that a coordinate may hold.
pub open spec fn in_range(v: int) -> bool {
    -LIMIT <= v <= LIMIT
}

/// Dot product of `(ax, ay)` and `(bx, by)`.
pub open spec fn dot(ax: int, ay: int, bx: int, by: int) -> int {
    ax * bx + ay * by
}

/// Perpendicular dot product: the dot product of `(bx, by)` with `(ax, ay)`
/// rotated by +90 degrees, that is with `(-ay, ax)`.
pub open spec fn cross(ax: int, ay: int, bx: int, by: int) -> int {
    ax * by - ay * bx
}

impl Vec2 {
    pub open spec fn wf(self) -> bool {
        in_range(self.x as int) && in_range(self.y as int)
    }

    pub fn new(x: i64, y: i64) -> (r: Vec2)
        ensures
            r.x == x,
            r.y == y,
    {
        Vec2 { x, y }
    }

    pub fn zero() -> (r: Vec2)
        ensures
            r.x == 0,
            r.y == 0,
    {
        Vec2 { x: 0, y: 0 }
    }

    /// Whether both coordinates lie within `[-LIMIT, LIMIT]`.
    pub fn is_in_range(&self) -> (r: bool)
        ensures
            r == self.wf(),
    {
        fits(self.x as i128) && fits(self.y as i128)
    }
}

/// Whether `v` is a value that a coordinate may hold.
pub fn fits(v: i128) -> (r: bool)
    ensures
        r == in_range(v as int),
{
    -(LIMIT as i128) <= v && v <= LIMIT as i128
}

/// Floor division by a positive divisor; in spec code `a / b` is exactly that.
pub fn floor_div(a: i128, b: i128) -> (q: i128)
    requires
        b > 0,
        -0x4000_0000_0000_0000_0000_0000_0000_0000 <= a <= 0x4000_0000_0000_0000_0000_0000_0000_0000,
        b <= 0x4000_0000_0000_0000_0000_0000_0000_0000,
    ensures
        q == a / b,
{
    if a >= 0 {
        let ua: u128 = a as u128;
        let ub: u128 = b as u128;
        let uq: u128 = ua / ub;
        proof {
            lemma_fundamental_div_mod(a as int, b as int);
        }
        uq as i128
    } else {
        let m: u128 = (-a) as u128;
        let ub: u128 = b as u128;
        let t: u128 = (m + ub - 1) / ub;
        proof {
            let s = (m + ub - 1) as int;
            lemma_fundamental_div_mod(s, b as int);
            let tt = s / (b as int);
            let rr = s % (b as int);
            assert(s == b * tt + rr);
            assert(0 <= tt);
            assert(tt * b <= s) by (nonlinear_arith)
                requires s == b * tt + rr, 0 <= rr;
            assert(tt <= s) by (nonlinear_arith)
                requires tt * b <= s, b >= 1, tt >= 0;
            assert(a == (-tt) * b + (b - 1 - rr)) by (nonlinear_arith)
                requires s == b * tt + rr, s == -a + b - 1;
            lemma_fundamental_div_mod_converse(a as int, b as int, -tt, b - 1 - rr);
        }
        -(t as i128)
    }
}

} // verus!
