use vstd::prelude::*;
use crate::vector::{Vec2, SCALE, LIMIT, in_range, cross, floor_div, fits};
use crate::arith::lemma_mul_bound;

verus! {

/// Failures of the simulation core.
#[derive(Clone, Copy, Debug, PartialEq, Eq, Structural)]
pub enum SimError {
    /// A line whose two endpoints coincide: it has no direction and no normal.
    DegenerateLine,
    /// A coordinate that would leave `[-LIMIT, LIMIT]`.
    OutOfRange,
}

/// Radius of a spawned particle, in fixed-point units (10 world units).
pub const DEFAULT_RADIUS: i64 = 10000;

/// Mass of a spawned particle, in fixed-point units (1 world unit).
pub const DEFAULT_MASS: i64 = 1000;

/// Configuration read by every tick. Restitution coefficients are given in
/// thousandths (`SCALE` stands for 1), the time step in fixed-point units.
#[derive(Clone, Copy, Debug, PartialEq, Eq, Structural)]
pub struct Parameters {
    pub gravity: Vec2,
    pub restitution_lp: i64,
    pub restitution_pp: i64,
    pub time_step: i64,
}

impl Parameters {
    pub open spec fn wf(self) -> bool {
        &&& self.gravity.wf()
        &&& 0 <= self.restitution_lp <= SCALE
        &&& 0 <= self.restitution_pp <= SCALE
        &&& 0 <= self.time_step <= LIMIT
    }

    /// Whether the parameters lie in the ranges that every operation accepts.
    pub fn is_valid(&self) -> (r: bool)
        ensures
            r == self.wf(),
    {
        self.gravity.is_in_range() && 0 <= self.restitution_lp && self.restitution_lp <= SCALE
            && 0 <= self.restitution_pp && self.restitution_pp <= SCALE && 0 <= self.time_step
            && self.time_step <= LIMIT
    }
}

impl Default for Parameters {
    /// Gravity `(0, 1)`, both restitutions `0.9`, time step `1`.
    fn default() -> (r: Parameters)
        ensures
            r.gravity == (Vec2 { x: 0, y: SCALE }),
            r.restitution_lp == 900,
            r.restitution_pp == 900,
            r.time_step == SCALE,
            r.wf(),
    {
        Parameters {
            gravity: Vec2 { x: 0, y: SCALE },
            restitution_lp: 900,
            restitution_pp: 900,
            time_step: SCALE,
        }
    }
}

/// A moving disc. `mass` is carried along but plays no part in the dynamics.
#[derive(Clone, Copy, Debug, PartialEq, Eq, Structural)]
pub struct Particle {
    pub mass: i64,
    pub radius: i64,
    pub position: Vec2,
    pub velocity: Vec2,
}

/// A static segment; detection treats it as the infinite line through both ends.
#[derive(Clone, Copy, Debug, PartialEq, Eq, Structural)]
pub struct Line {
    pub start: Vec2,
    pub end: Vec2,
}

#[derive(Clone, Copy, Debug, PartialEq, Eq, Structural)]
pub enum Entity {
    Particle(Particle),
    Line(Line),
}

impl Particle {
    pub open spec fn wf(self) -> bool {
        &&& 0 < self.radius <= LIMIT
        &&& self.position.wf()
        &&& self.velocity.wf()
    }

    /// A particle at rest at `position`, of unit mass and the default radius.
    pub fn new(position: Vec2) -> (r: Result<Particle, SimError>)
        ensures
            !position.wf() ==> r == Err::<Particle, SimError>(SimError::OutOfRange),
            position.wf() ==> r == Ok::<Particle, SimError>(
                Particle {
                    mass: DEFAULT_MASS,
                    radius: DEFAULT_RADIUS,
                    position,
                    velocity: Vec2 { x: 0, y: 0 },
                },
            ),
            r matches Ok(p) ==> p.wf(),
    {
        if !position.is_in_range() {
            return Err(SimError::OutOfRange);
        }
        Ok(Particle { mass: DEFAULT_MASS, radius: DEFAULT_RADIUS, position, velocity: Vec2::zero() })
    }
}

impl Line {
    pub open spec fn wf(self) -> bool {
        self.start.wf() && self.end.wf()
    }

    pub open spec fn is_degenerate(self) -> bool {
        self.start == self.end
    }

    /// A line from `start` to `end`; coincident endpoints are refused.
    pub fn new(start: Vec2, end: Vec2) -> (r: Result<Line, SimError>)
        ensures
            !(start.wf() && end.wf()) ==> r == Err::<Line, SimError>(SimError::OutOfRange),
            start.wf() && end.wf() && start == end ==> r == Err::<Line, SimError>(
                SimError::DegenerateLine,
            ),
            start.wf() && end.wf() && start != end ==> r == Ok::<Line, SimError>(
                Line { start, end },
            ),
    {
        if !(start.is_in_range() && end.is_in_range()) {
            return Err(SimError::OutOfRange);
        }
        if start.x == end.x && start.y == end.y {
            return Err(SimError::DegenerateLine);
        }
        Ok(Line { start, end })
    }
}

/// Position after one step of constant acceleration `a` over `dt`:
/// `p + v*dt + a*dt^2/2`, in fixed point, rounded down.
pub open spec fn step_position(p: int, v: int, a: int, dt: int) -> int {
    p + (2 * SCALE * v * dt + a * dt * dt) / (2 * SCALE * SCALE)
}

/// Velocity after one step of constant acceleration `a` over `dt`:
/// `v + a*dt`, in fixed point, rounded down.
pub open spec fn step_velocity(v: int, a: int, dt: int) -> int {
    v + (a * dt) / (SCALE as int)
}

/// Whether one step keeps every coordinate of the entity in range.
pub open spec fn integrate_fits(e: Entity, params: Parameters) -> bool {
    match e {
        Entity::Particle(p) => {
            let dt = params.time_step as int;
            let g = params.gravity;
            &&& in_range(step_position(p.position.x as int, p.velocity.x as int, g.x as int, dt))
            &&& in_range(step_position(p.position.y as int, p.velocity.y as int, g.y as int, dt))
            &&& in_range(step_velocity(p.velocity.x as int, g.x as int, dt))
            &&& in_range(step_velocity(p.velocity.y as int, g.y as int, dt))
        },
        Entity::Line(_) => true,
    }
}

/// The entity after one step: a particle moves, a line stays.
pub open spec fn integrated(e: Entity, params: Parameters) -> Entity {
    match e {
        Entity::Particle(p) => {
            let dt = params.time_step as int;
            let g = params.gravity;
            Entity::Particle(
                Particle {
                    position: Vec2 {
                        x: step_position(p.position.x as int, p.velocity.x as int, g.x as int, dt) as i64,
                        y: step_position(p.position.y as int, p.velocity.y as int, g.y as int, dt) as i64,
                    },
                    velocity: Vec2 {
                        x: step_velocity(p.velocity.x as int, g.x as int, dt) as i64,
                        y: step_velocity(p.velocity.y as int, g.y as int, dt) as i64,
                    },
                    ..p
                },
            )
        },
        Entity::Line(l) => Entity::Line(l),
    }
}

/// Whether two particles overlap: the distance between the centres is
/// strictly less than the sum of the radii.
pub open spec fn particles_overlap(p: Particle, q: Particle) -> bool {
    let dx = p.position.x - q.position.x;
    let dy = p.position.y - q.position.y;
    let rr = p.radius + q.radius;
    dx * dx + dy * dy < rr * rr
}

/// Whether a particle overlaps the infinite line through `l`: its centre's
/// distance from that line, `cross(u, c - start) / |u|` with `u = end - start`,
/// is strictly less than the radius in magnitude.
pub open spec fn particle_meets_line(p: Particle, l: Line) -> bool {
    let ux = l.end.x - l.start.x;
    let uy = l.end.y - l.start.y;
    let c = cross(ux, uy, p.position.x - l.start.x, p.position.y - l.start.y);
    c * c < p.radius * p.radius * (ux * ux + uy * uy)
}

/// The collision predicate of two entities; two lines never collide.
pub open spec fn collides(a: Entity, b: Entity) -> bool {
    match (a, b) {
        (Entity::Particle(p), Entity::Particle(q)) => particles_overlap(p, q),
        (Entity::Particle(p), Entity::Line(l)) => particle_meets_line(p, l),
        (Entity::Line(l), Entity::Particle(p)) => particle_meets_line(p, l),
        (Entity::Line(_), Entity::Line(_)) => false,
    }
}

impl Entity {
    pub open spec fn wf(self) -> bool {
        match self {
            Entity::Particle(p) => p.wf(),
            Entity::Line(l) => l.wf(),
        }
    }

    pub open spec fn is_degenerate_line(self) -> bool {
        match self {
            Entity::Line(l) => l.is_degenerate(),
            Entity::Particle(_) => false,
        }
    }

    /// Advances the entity by one time step. A particle whose new position or
    /// velocity would leave the representable range is left as it was.
    pub fn update(&mut self, params: &Parameters) -> (r: Result<(), SimError>)
        requires
            old(self).wf(),
            params.wf(),
        ensures
            integrate_fits(*old(self), *params) ==> r is Ok && *final(self) == integrated(
                *old(self),
                *params,
            ),
            !integrate_fits(*old(self), *params) ==> r == Err::<(), SimError>(
                SimError::OutOfRange,
            ) && *final(self) == *old(self),
            final(self).wf(),
    {
        match self {
            Entity::Particle(p) => {
                let dt = params.time_step as i128;
                let g = params.gravity;
                let px = step_coordinate(p.position.x as i128, p.velocity.x as i128, g.x as i128, dt);
                let py = step_coordinate(p.position.y as i128, p.velocity.y as i128, g.y as i128, dt);
                let vx = step_speed(p.velocity.x as i128, g.x as i128, dt);
                let vy = step_speed(p.velocity.y as i128, g.y as i128, dt);
                if !(fits(px) && fits(py) && fits(vx) && fits(vy)) {
                    return Err(SimError::OutOfRange);
                }
                p.position = Vec2 { x: px as i64, y: py as i64 };
                p.velocity = Vec2 { x: vx as i64, y: vy as i64 };
                Ok(())
            },
            Entity::Line(_) => Ok(()),
        }
    }

    /// Whether the two entities overlap. A degenerate line on either side is
    /// an error, whatever the other entity is.
    pub fn collides_with(&self, other: &Entity) -> (r: Result<bool, SimError>)
        requires
            self.wf(),
            other.wf(),
        ensures
            r == collision_outcome(*self, *other),
    {
        if self.is_degenerate() || other.is_degenerate() {
            return Err(SimError::DegenerateLine);
        }
        match (self, other) {
            (Entity::Particle(p), Entity::Particle(q)) => Ok(overlap(p, q)),
            (Entity::Particle(p), Entity::Line(l)) => Ok(meets_line(p, l)),
            (Entity::Line(l), Entity::Particle(p)) => Ok(meets_line(p, l)),
            (Entity::Line(_), Entity::Line(_)) => Ok(false),
        }
    }

    /// Whether this is a line whose endpoints coincide.
    pub fn is_degenerate(&self) -> (r: bool)
        ensures
            r == self.is_degenerate_line(),
    {
        match self {
            Entity::Line(l) => l.start.x == l.end.x && l.start.y == l.end.y,
            Entity::Particle(_) => false,
        }
    }
}

/// What `collides_with` reports for a pair of entities.
pub open spec fn collision_outcome(a: Entity, b: Entity) -> Result<bool, SimError> {
    if a.is_degenerate_line() || b.is_degenerate_line() {
        Err(SimError::DegenerateLine)
    } else {
        Ok(collides(a, b))
    }
}

fn step_coordinate(p: i128, v: i128, a: i128, dt: i128) -> (r: i128)
    requires
        in_range(p as int),
        in_range(v as int),
        in_range(a as int),
        0 <= dt <= LIMIT,
    ensures
        r == step_position(p as int, v as int, a as int, dt as int),
{
    proof {
        lemma_mul_bound(v as int, dt as int, LIMIT as int, LIMIT as int);
        lemma_mul_bound(a as int, dt as int, LIMIT as int, LIMIT as int);
        lemma_mul_bound(a * dt, dt as int, LIMIT as int * LIMIT as int, LIMIT as int);
        lemma_mul_bound(2000 * v, dt as int, 2000 * LIMIT as int, LIMIT as int);
    }
    let num: i128 = 2 * (SCALE as i128) * v * dt + a * dt * dt;
    let dp = floor_div(num, 2 * (SCALE as i128) * (SCALE as i128));
    p + dp
}

fn step_speed(v: i128, a: i128, dt: i128) -> (r: i128)
    requires
        in_range(v as int),
        in_range(a as int),
        0 <= dt <= LIMIT,
    ensures
        r == step_velocity(v as int, a as int, dt as int),
{
    proof {
        lemma_mul_bound(a as int, dt as int, LIMIT as int, LIMIT as int);
    }
    v + floor_div(a * dt, SCALE as i128)
}

fn overlap(p: &Particle, q: &Particle) -> (r: bool)
    requires
        p.wf(),
        q.wf(),
    ensures
        r == particles_overlap(*p, *q),
{
    let dx = p.position.x as i128 - q.position.x as i128;
    let dy = p.position.y as i128 - q.position.y as i128;
    let rr = p.radius as i128 + q.radius as i128;
    proof {
        lemma_mul_bound(dx as int, dx as int, 2 * LIMIT as int, 2 * LIMIT as int);
        lemma_mul_bound(dy as int, dy as int, 2 * LIMIT as int, 2 * LIMIT as int);
        lemma_mul_bound(rr as int, rr as int, 2 * LIMIT as int, 2 * LIMIT as int);
    }
    dx * dx + dy * dy < rr * rr
}

fn meets_line(p: &Particle, l: &Line) -> (r: bool)
    requires
        p.wf(),
        l.wf(),
    ensures
        r == particle_meets_line(*p, *l),
{
    let ux = l.end.x as i128 - l.start.x as i128;
    let uy = l.end.y as i128 - l.start.y as i128;
    let wx = p.position.x as i128 - l.start.x as i128;
    let wy = p.position.y as i128 - l.start.y as i128;
    let rad = p.radius as i128;
    let ghost b2: int = 2 * LIMIT as int;
    proof {
        lemma_mul_bound(ux as int, wy as int, b2, b2);
        lemma_mul_bound(uy as int, wx as int, b2, b2);
        lemma_mul_bound(ux as int, ux as int, b2, b2);
        lemma_mul_bound(uy as int, uy as int, b2, b2);
        lemma_mul_bound(rad as int, rad as int, LIMIT as int, LIMIT as int);
    }
    let c = ux * wy - uy * wx;
    let len2 = ux * ux + uy * uy;
    proof {
        lemma_mul_bound(c as int, c as int, 2 * b2 * b2, 2 * b2 * b2);
        lemma_mul_bound(rad * rad, len2 as int, LIMIT as int * LIMIT as int, 2 * b2 * b2);
    }
    c * c < rad * rad * len2
}

} // verus!
