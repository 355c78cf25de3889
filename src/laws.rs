use vstd::prelude::*;
use vstd::arithmetic::div_mod::lemma_fundamental_div_mod;
use vstd::math::abs;
use crate::vector::{Vec2, SCALE, dot, cross};
use crate::entity::{Particle, Line, Entity, collision_outcome, particles_overlap};
use crate::response::{line_response, particle_response};

verus! {

/// Detection is symmetric: `a.collides_with(b)` and `b.collides_with(a)`
/// report the same outcome, errors included.
pub proof fn lemma_collision_symmetric(a: Entity, b: Entity)
    ensures
        collision_outcome(a, b) == collision_outcome(b, a),
{
    if let (Entity::Particle(p), Entity::Particle(q)) = (a, b) {
        lemma_overlap_symmetric(p, q);
    }
}

proof fn lemma_overlap_symmetric(p: Particle, q: Particle)
    ensures
        particles_overlap(p, q) == particles_overlap(q, p),
{
    let dx = p.position.x - q.position.x;
    let dy = p.position.y - q.position.y;
    assert(dx * dx == (-dx) * (-dx)) by (nonlinear_arith);
    assert(dy * dy == (-dy) * (-dy)) by (nonlinear_arith);
}

/// A line response keeps the tangential component of the velocity and
/// reflects the normal component scaled by the restitution, up to rounding to
/// whole fixed-point units. With `u = end - start`, `u'` its rotation by +90
/// degrees, `s = |u.x| + |u.y|` and `w` the response to `v`:
/// `|w.u - v.u| < s` and `|SCALE (w.u') + e (v.u')| < SCALE s`.
/// Divided by `|u|`, both errors are below `sqrt(2)` units in world terms.
pub proof fn lemma_line_response_components(l: Line, v: Vec2, e: int)
    requires
        !l.is_degenerate(),
        0 <= e <= SCALE,
    ensures
        ({
            let (wx, wy) = line_response(l, v, e);
            let ux = l.end.x - l.start.x;
            let uy = l.end.y - l.start.y;
            let s = (abs(ux) + abs(uy)) as int;
            &&& -s < dot(wx, wy, ux, uy) - dot(v.x as int, v.y as int, ux, uy) < s
            &&& -(SCALE * s) < SCALE * cross(ux, uy, wx, wy) + e * cross(
                ux,
                uy,
                v.x as int,
                v.y as int,
            ) < SCALE * s
        }),
{
    let ux = l.end.x - l.start.x;
    let uy = l.end.y - l.start.y;
    let vx = v.x as int;
    let vy = v.y as int;
    let t = dot(vx, vy, ux, uy);
    let n = cross(ux, uy, vx, vy);
    let len2 = ux * ux + uy * uy;
    let d = SCALE * len2;
    let bx = SCALE * t * ux + e * n * uy;
    let by_ = SCALE * t * uy - e * n * ux;
    let (wx, wy) = line_response(l, v, e);
    let s = (abs(ux) + abs(uy)) as int;
    assert(len2 > 0) by (nonlinear_arith)
        requires
            len2 == ux * ux + uy * uy,
            ux != 0 || uy != 0,
    ;
    lemma_fundamental_div_mod(bx, d);
    lemma_fundamental_div_mod(by_, d);
    let rx = bx % d;
    let ry = by_ % d;
    assert(wx == bx / d && wy == by_ / d);
    assert(bx == d * wx + rx && by_ == d * wy + ry);
    // the numerator projects onto u and u' exactly
    assert(bx * ux + by_ * uy == d * t) by (nonlinear_arith)
        requires
            bx == SCALE * t * ux + e * n * uy,
            by_ == SCALE * t * uy - e * n * ux,
            d == SCALE * (ux * ux + uy * uy),
    ;
    assert(by_ * ux - bx * uy == -(e * n * len2)) by (nonlinear_arith)
        requires
            bx == SCALE * t * ux + e * n * uy,
            by_ == SCALE * t * uy - e * n * ux,
            len2 == ux * ux + uy * uy,
    ;
    // rounding left a remainder below d in each coordinate
    lemma_weighted_remainder(rx, ry, ux, uy, d);
    lemma_weighted_remainder(rx, ry, -uy, ux, d);
    let tw = dot(wx, wy, ux, uy);
    let cw = cross(ux, uy, wx, wy);
    let dwx = d * wx;
    let dwy = d * wy;
    assert(d * tw == ux * dwx + uy * dwy) by (nonlinear_arith)
        requires
            tw == wx * ux + wy * uy,
            dwx == d * wx,
            dwy == d * wy,
    ;
    assert(d * cw == ux * dwy - uy * dwx) by (nonlinear_arith)
        requires
            cw == ux * wy - uy * wx,
            dwx == d * wx,
            dwy == d * wy,
    ;
    assert(ux * dwx == ux * bx - ux * rx) by (nonlinear_arith)
        requires
            dwx == bx - rx,
    ;
    assert(uy * dwy == uy * by_ - uy * ry) by (nonlinear_arith)
        requires
            dwy == by_ - ry,
    ;
    assert(ux * dwy == ux * by_ - ux * ry) by (nonlinear_arith)
        requires
            dwy == by_ - ry,
    ;
    assert(uy * dwx == uy * bx - uy * rx) by (nonlinear_arith)
        requires
            dwx == bx - rx,
    ;
    assert(ux * bx + uy * by_ == d * t) by (nonlinear_arith)
        requires
            bx * ux + by_ * uy == d * t,
    ;
    assert(ux * by_ - uy * bx == -(e * n * len2)) by (nonlinear_arith)
        requires
            by_ * ux - bx * uy == -(e * n * len2),
    ;
    assert(rx * ux + ry * uy == ux * rx + uy * ry && rx * (-uy) + ry * ux == ux * ry - uy * rx)
        by (nonlinear_arith);
    assert(d * (tw - t) == d * tw - d * t) by (nonlinear_arith);
    lemma_cancel(d, tw - t, s);
    assert(d * cw + e * n * len2 == len2 * (SCALE * cw + e * n)) by (nonlinear_arith)
        requires
            d == SCALE * len2,
    ;
    assert(d * s == len2 * (SCALE * s)) by (nonlinear_arith)
        requires
            d == SCALE * len2,
    ;
    lemma_cancel(len2, SCALE * cw + e * n, SCALE * s);
}

/// `|a x + b y| < d (|x| + |y|)` for remainders `0 <= a, b < d` and a nonzero
/// `(x, y)`.
proof fn lemma_weighted_remainder(a: int, b: int, x: int, y: int, d: int)
    requires
        0 <= a < d,
        0 <= b < d,
        x != 0 || y != 0,
    ensures
        -(d * (abs(x) + abs(y))) < a * x + b * y < d * (abs(x) + abs(y)),
{
    lemma_term_bound(a, x, d);
    lemma_term_bound(b, y, d);
    let ax = abs(x) as int;
    let ay = abs(y) as int;
    assert(d * (ax + ay) == d * ax + d * ay) by (nonlinear_arith);
}

/// `|a x| <= d |x|`, strictly when `x != 0`, for `0 <= a < d`.
proof fn lemma_term_bound(a: int, x: int, d: int)
    requires
        0 <= a < d,
    ensures
        -(d * abs(x)) <= a * x <= d * abs(x),
        x != 0 ==> -(d * abs(x)) < a * x < d * abs(x),
{
    if x >= 0 {
        assert(0 <= a * x <= d * x) by (nonlinear_arith)
            requires
                0 <= a < d,
                x >= 0,
        ;
        if x != 0 {
            assert(a * x < d * x) by (nonlinear_arith)
                requires
                    0 <= a < d,
                    x > 0,
            ;
        }
    } else {
        assert(d * x < a * x <= 0) by (nonlinear_arith)
            requires
                0 <= a < d,
                x < 0,
        ;
        let ax = abs(x) as int;
        assert(d * ax == -(d * x)) by (nonlinear_arith)
            requires
                ax == -x,
        ;
    }
}

/// From `|m z| < m s` with `m > 0` follows `|z| < s`.
proof fn lemma_cancel(m: int, z: int, s: int)
    requires
        m > 0,
        -(m * s) < m * z < m * s,
    ensures
        -s < z < s,
{
    if z >= s {
        assert(m * z >= m * s) by (nonlinear_arith)
            requires
                m > 0,
                z >= s,
        ;
    }
    if z <= -s {
        assert(m * z <= -(m * s)) by (nonlinear_arith)
            requires
                m > 0,
                z <= -s,
        ;
    }
}

/// A particle-particle response keeps the total momentum exactly: the two
/// velocities after it sum to the two before it (the masses are equal).
pub proof fn lemma_particle_response_momentum(p: Particle, q: Particle, e: int)
    ensures
        ({
            let (ax, ay, bx, by) = particle_response(p, q, e);
            &&& ax + bx == p.velocity.x + q.velocity.x
            &&& ay + by == p.velocity.y + q.velocity.y
        }),
{
}

} // verus!
