use vstd::prelude::*;
use vstd::arithmetic::div_mod::lemma_fundamental_div_mod;
use crate::vector::{Vec2, SCALE, in_range, dot, cross, floor_div, fits};
use crate::entity::{Particle, Line, Parameters, SimError};
use crate::arith::lemma_mul_bound;

verus! {

/// Velocity after a particle moving at `v` hits the line `l`, with restitution
/// `e` in thousandths. With `u = end - start`, the target `w` satisfies
/// `w.u = v.u` (tangent kept) and `w.u' = -(e/SCALE) v.u'` where `u'` is `u`
/// rotated by +90 degrees (normal reflected and scaled). Solving gives
/// `w = (SCALE (v.u) u - e (v.u') u') / (SCALE |u|^2)`, rounded down per
/// coordinate.
pub open spec fn line_response(l: Line, v: Vec2, e: int) -> (int, int) {
    let ux = l.end.x - l.start.x;
    let uy = l.end.y - l.start.y;
    let t = dot(v.x as int, v.y as int, ux, uy);
    let n = cross(ux, uy, v.x as int, v.y as int);
    let d = SCALE * (ux * ux + uy * uy);
    ((SCALE * t * ux + e * n * uy) / d, (SCALE * t * uy - e * n * ux) / d)
}

/// Velocity change of `p` when it meets `q`, equal masses, restitution `e` in
/// thousandths: along the centre-to-centre direction `u = p - q`,
/// `((SCALE + e) / (2 SCALE)) ((vq - vp).u / |u|^2) u`, rounded down per
/// coordinate. `q` receives the opposite change. Coincident centres give no
/// contact normal and no change.
pub open spec fn particle_impulse(p: Particle, q: Particle, e: int) -> (int, int) {
    let ux = p.position.x - q.position.x;
    let uy = p.position.y - q.position.y;
    let k = dot(q.velocity.x - p.velocity.x, q.velocity.y - p.velocity.y, ux, uy);
    let d = 2 * SCALE * (ux * ux + uy * uy);
    if ux == 0 && uy == 0 {
        (0, 0)
    } else {
        ((SCALE + e) * k * ux / d, (SCALE + e) * k * uy / d)
    }
}

/// The two velocities after a particle-particle collision.
pub open spec fn particle_response(p: Particle, q: Particle, e: int) -> (int, int, int, int) {
    let (dx, dy) = particle_impulse(p, q, e);
    (p.velocity.x + dx, p.velocity.y + dy, q.velocity.x - dx, q.velocity.y - dy)
}

/// The new velocity of a particle hitting a line: `line_response` with the
/// line-particle restitution. A degenerate line has no normal and is an error;
/// so is a result outside the representable range.
pub fn collide_line_particle(l: &Line, p: &Particle, params: &Parameters) -> (r: Result<
    Vec2,
    SimError,
>)
    requires
        l.wf(),
        p.wf(),
        params.wf(),
    ensures
        l.is_degenerate() ==> r == Err::<Vec2, SimError>(SimError::DegenerateLine),
        !l.is_degenerate() ==> ({
            let (wx, wy) = line_response(*l, p.velocity, params.restitution_lp as int);
            if in_range(wx) && in_range(wy) {
                r == Ok::<Vec2, SimError>(Vec2 { x: wx as i64, y: wy as i64 })
            } else {
                r == Err::<Vec2, SimError>(SimError::OutOfRange)
            }
        }),
{
    if l.start.x == l.end.x && l.start.y == l.end.y {
        return Err(SimError::DegenerateLine);
    }
    let ux = l.end.x as i128 - l.start.x as i128;
    let uy = l.end.y as i128 - l.start.y as i128;
    let vx = p.velocity.x as i128;
    let vy = p.velocity.y as i128;
    let e = params.restitution_lp as i128;
    let s = SCALE as i128;
    proof {
        let b1 = 0x4000_0000int;
        let b2 = 0x8000_0000int;
        lemma_mul_bound(vx as int, ux as int, b1, b2);
        lemma_mul_bound(vy as int, uy as int, b1, b2);
        lemma_mul_bound(ux as int, vy as int, b2, b1);
        lemma_mul_bound(uy as int, vx as int, b2, b1);
        lemma_mul_bound(ux as int, ux as int, b2, b2);
        lemma_mul_bound(uy as int, uy as int, b2, b2);
    }
    let t = vx * ux + vy * uy;
    let n = ux * vy - uy * vx;
    let len2 = ux * ux + uy * uy;
    proof {
        let b2 = 0x8000_0000int;
        let bt = 0x4000_0000_0000_0000int;
        lemma_mul_bound(e as int, n as int, 1000, bt);
        lemma_mul_bound(s * t, ux as int, 1000 * bt, b2);
        lemma_mul_bound(s * t, uy as int, 1000 * bt, b2);
        lemma_mul_bound(e * n, uy as int, 1000 * bt, b2);
        lemma_mul_bound(e * n, ux as int, 1000 * bt, b2);
        assert(len2 > 0) by (nonlinear_arith)
            requires
                len2 == ux * ux + uy * uy,
                ux != 0 || uy != 0,
        ;
    }
    let d = s * len2;
    let wx = floor_div(s * t * ux + e * n * uy, d);
    let wy = floor_div(s * t * uy - e * n * ux, d);
    if !(fits(wx) && fits(wy)) {
        return Err(SimError::OutOfRange);
    }
    Ok(Vec2 { x: wx as i64, y: wy as i64 })
}

/// The new velocities of two colliding particles: `particle_response` with the
/// particle-particle restitution. Equal masses are assumed (`mass` is not
/// read), so momentum is kept exactly and, for `e = SCALE`, the normal
/// components are swapped. A result outside the representable range is an
/// error.
pub fn collide_particles(p: &Particle, q: &Particle, params: &Parameters) -> (r: Result<
    (Vec2, Vec2),
    SimError,
>)
    requires
        p.wf(),
        q.wf(),
        params.wf(),
    ensures
        ({
            let (a, b, c, d) = particle_response(*p, *q, params.restitution_pp as int);
            if in_range(a) && in_range(b) && in_range(c) && in_range(d) {
                r == Ok::<(Vec2, Vec2), SimError>(
                    (Vec2 { x: a as i64, y: b as i64 }, Vec2 { x: c as i64, y: d as i64 }),
                )
            } else {
                r == Err::<(Vec2, Vec2), SimError>(SimError::OutOfRange)
            }
        }),
{
    let ux = p.position.x as i128 - q.position.x as i128;
    let uy = p.position.y as i128 - q.position.y as i128;
    let mut dx: i128 = 0;
    let mut dy: i128 = 0;
    if ux != 0 || uy != 0 {
        let rx = q.velocity.x as i128 - p.velocity.x as i128;
        let ry = q.velocity.y as i128 - p.velocity.y as i128;
        let f = SCALE as i128 + params.restitution_pp as i128;
        proof {
            let b2 = 0x8000_0000int;
            lemma_mul_bound(rx as int, ux as int, b2, b2);
            lemma_mul_bound(ry as int, uy as int, b2, b2);
            lemma_mul_bound(ux as int, ux as int, b2, b2);
            lemma_mul_bound(uy as int, uy as int, b2, b2);
        }
        let k = rx * ux + ry * uy;
        let len2 = ux * ux + uy * uy;
        proof {
            let b2 = 0x8000_0000int;
            let bk = 0x8000_0000_0000_0000int;
            lemma_mul_bound(f as int, k as int, 2000, bk);
            lemma_mul_bound(f * k, ux as int, 2000 * bk, b2);
            lemma_mul_bound(f * k, uy as int, 2000 * bk, b2);
            assert(len2 > 0) by (nonlinear_arith)
                requires
                    len2 == ux * ux + uy * uy,
                    ux != 0 || uy != 0,
            ;
        }
        let s = SCALE as i128;
        assert(0 < len2 <= 0x8000_0000_0000_0000);
        assert(0 < 2 * s * len2 <= 0x4000_0000_0000_0000_0000) by (nonlinear_arith)
            requires
                0 < len2 <= 0x8000_0000_0000_0000,
                s == 1000,
        ;
        let d = 2 * s * len2;
        dx = floor_div(f * k * ux, d);
        dy = floor_div(f * k * uy, d);
        proof {
            lemma_quotient_bound(f * k * ux, d as int);
            lemma_quotient_bound(f * k * uy, d as int);
        }
    }
    let a = p.velocity.x as i128 + dx;
    let b = p.velocity.y as i128 + dy;
    let c = q.velocity.x as i128 - dx;
    let e = q.velocity.y as i128 - dy;
    if !(fits(a) && fits(b) && fits(c) && fits(e)) {
        return Err(SimError::OutOfRange);
    }
    Ok((Vec2 { x: a as i64, y: b as i64 }, Vec2 { x: c as i64, y: e as i64 }))
}

/// The quotient of a bounded numerator by a positive divisor stays bounded.
proof fn lemma_quotient_bound(num: int, d: int)
    requires
        d > 0,
        -0x4000_0000_0000_0000_0000_0000_0000_0000 <= num <= 0x4000_0000_0000_0000_0000_0000_0000_0000,
    ensures
        -0x4000_0000_0000_0000_0000_0000_0000_0000 <= num / d <= 0x4000_0000_0000_0000_0000_0000_0000_0000,
{
    lemma_fundamental_div_mod(num, d);
    let q = num / d;
    let r = num % d;
    assert(-0x4000_0000_0000_0000_0000_0000_0000_0000 <= q <= 0x4000_0000_0000_0000_0000_0000_0000_0000)
        by (nonlinear_arith)
        requires
            num == d * q + r,
            0 <= r < d,
            d >= 1,
            -0x4000_0000_0000_0000_0000_0000_0000_0000 <= num <= 0x4000_0000_0000_0000_0000_0000_0000_0000,
    ;
}

} // verus!
