use physics_sim::entity::{Entity, Line, Parameters, Particle, SimError, DEFAULT_MASS, DEFAULT_RADIUS};
use physics_sim::response::{collide_line_particle, collide_particles};
use physics_sim::scan::scan_collisions;
use physics_sim::sim::{Mode, Simulation};
use physics_sim::vector::{floor_div, Vec2, LIMIT, SCALE};

fn v(x: i64, y: i64) -> Vec2 {
    Vec2::new(x, y)
}

fn particle(pos: Vec2, vel: Vec2, radius: i64) -> Particle {
    Particle { mass: SCALE, radius, position: pos, velocity: vel }
}

fn unit_gravity() -> Parameters {
    Parameters { gravity: v(0, SCALE), restitution_lp: 900, restitution_pp: 900, time_step: SCALE }
}

fn horizontal_line_at_200() -> Line {
    Line::new(v(0, 200_000), v(800_000, 200_000)).unwrap()
}

#[test]
fn default_parameters() {
    let p = Parameters::default();
    assert_eq!(p.gravity, v(0, 1000));
    assert_eq!(p.restitution_lp, 900);
    assert_eq!(p.restitution_pp, 900);
    assert_eq!(p.time_step, 1000);
    assert!(p.is_valid());
}

#[test]
fn floor_div_rounds_down() {
    assert_eq!(floor_div(7, 2), 3);
    assert_eq!(floor_div(-7, 2), -4);
    assert_eq!(floor_div(-8, 2), -4);
    assert_eq!(floor_div(0, 5), 0);
}

#[test]
fn integration_two_ticks_from_rest() {
    let params = unit_gravity();
    let mut e = Entity::Particle(particle(v(0, 0), v(0, 0), DEFAULT_RADIUS));
    assert_eq!(e.update(&params), Ok(()));
    match e {
        Entity::Particle(p) => {
            assert_eq!(p.velocity, v(0, 1000));
            assert_eq!(p.position, v(0, 500));
        }
        _ => panic!("particle expected"),
    }
    assert_eq!(e.update(&params), Ok(()));
    match e {
        Entity::Particle(p) => {
            assert_eq!(p.velocity, v(0, 2000));
            // p + v dt + a dt^2 / 2 = 0.5 + 1 + 0.5
            assert_eq!(p.position, v(0, 2000));
        }
        _ => panic!("particle expected"),
    }
}

#[test]
fn integration_rounds_down_on_negative_values() {
    let params = Parameters { gravity: v(0, -1000), restitution_lp: 900, restitution_pp: 900, time_step: 1 };
    let mut e = Entity::Particle(particle(v(0, 0), v(0, 0), DEFAULT_RADIUS));
    assert_eq!(e.update(&params), Ok(()));
    match e {
        Entity::Particle(p) => {
            assert_eq!(p.position, v(0, -1));
            assert_eq!(p.velocity, v(0, -1));
        }
        _ => panic!("particle expected"),
    }
}

#[test]
fn integration_leaves_line_alone() {
    let l = horizontal_line_at_200();
    let mut e = Entity::Line(l);
    assert_eq!(e.update(&unit_gravity()), Ok(()));
    assert_eq!(e, Entity::Line(l));
}

#[test]
fn integration_out_of_range_is_refused() {
    let start = particle(v(0, LIMIT - 10), v(0, 1000), DEFAULT_RADIUS);
    let mut e = Entity::Particle(start);
    assert_eq!(e.update(&unit_gravity()), Err(SimError::OutOfRange));
    assert_eq!(e, Entity::Particle(start));
}

#[test]
fn particles_at_exact_sum_of_radii_do_not_collide() {
    let a = Entity::Particle(particle(v(0, 0), v(0, 0), 5000));
    let b = Entity::Particle(particle(v(10_000, 0), v(0, 0), 5000));
    assert_eq!(a.collides_with(&b), Ok(false));
    let c = Entity::Particle(particle(v(9_999, 0), v(0, 0), 5000));
    assert_eq!(a.collides_with(&c), Ok(true));
    assert_eq!(c.collides_with(&a), Ok(true));
}

#[test]
fn particle_line_detection_is_symmetric() {
    let l = Entity::Line(Line::new(v(0, 0), v(30_000, 40_000)).unwrap());
    for y in [0i64, 5_000, 9_999, 10_000, 12_500, 20_000] {
        let p = Entity::Particle(particle(v(0, y), v(0, 0), 6000));
        assert_eq!(p.collides_with(&l), l.collides_with(&p));
    }
    // distance from (0, 12500) to the line through (3, 4) is 12.5 * 3 / 5 = 7.5
    let near = Entity::Particle(particle(v(0, 12_500), v(0, 0), 7_501));
    let far = Entity::Particle(particle(v(0, 12_500), v(0, 0), 7_500));
    assert_eq!(near.collides_with(&l), Ok(true));
    assert_eq!(far.collides_with(&l), Ok(false));
}

#[test]
fn line_detection_uses_the_infinite_line() {
    let l = Entity::Line(horizontal_line_at_200());
    let beyond_end = Entity::Particle(particle(v(2_000_000, 195_000), v(0, 0), DEFAULT_RADIUS));
    assert_eq!(beyond_end.collides_with(&l), Ok(true));
}

#[test]
fn lines_never_collide() {
    let a = Entity::Line(horizontal_line_at_200());
    let b = Entity::Line(Line::new(v(400_000, 0), v(400_000, 400_000)).unwrap());
    assert_eq!(a.collides_with(&b), Ok(false));
}

#[test]
fn degenerate_line_is_refused() {
    assert_eq!(Line::new(v(5, 5), v(5, 5)), Err(SimError::DegenerateLine));
    let bad = Line { start: v(5, 5), end: v(5, 5) };
    let p = particle(v(0, 0), v(0, 0), DEFAULT_RADIUS);
    assert_eq!(Entity::Particle(p).collides_with(&Entity::Line(bad)), Err(SimError::DegenerateLine));
    assert_eq!(Entity::Line(bad).collides_with(&Entity::Particle(p)), Err(SimError::DegenerateLine));
    assert_eq!(collide_line_particle(&bad, &p, &unit_gravity()), Err(SimError::DegenerateLine));
}

#[test]
fn out_of_range_construction_is_refused() {
    assert_eq!(Line::new(v(0, 0), v(LIMIT + 1, 0)), Err(SimError::OutOfRange));
    assert_eq!(Particle::new(v(0, -LIMIT - 1)), Err(SimError::OutOfRange));
    let p = Particle::new(v(3, 4)).unwrap();
    assert_eq!(p, Particle { mass: DEFAULT_MASS, radius: DEFAULT_RADIUS, position: v(3, 4), velocity: v(0, 0) });
}

#[test]
fn line_response_reflects_normal_and_keeps_tangent() {
    let l = horizontal_line_at_200();
    let p = particle(v(100_000, 195_000), v(3000, 14_000), DEFAULT_RADIUS);
    assert_eq!(collide_line_particle(&l, &p, &unit_gravity()), Ok(v(3000, -12_600)));
}

#[test]
fn line_response_on_a_slanted_line() {
    // direction (3, 4) / 5, normal (-4, 3) / 5; v = (5, 0): tangent 3, normal -4
    let l = Line::new(v(0, 0), v(3000, 4000)).unwrap();
    let p = particle(v(0, 0), v(5000, 0), DEFAULT_RADIUS);
    let params = Parameters { restitution_lp: 1000, ..unit_gravity() };
    // w = 3 d + 4 n = (9 - 16, 12 + 12) / 5
    assert_eq!(collide_line_particle(&l, &p, &params), Ok(v(-1400, 4800)));
    let half = Parameters { restitution_lp: 500, ..unit_gravity() };
    // w = 3 d + 2 n = (9 - 8, 12 + 6) / 5
    assert_eq!(collide_line_particle(&l, &p, &half), Ok(v(200, 3600)));
}

#[test]
fn particle_response_swaps_normal_components_when_elastic() {
    let p = particle(v(0, 0), v(1000, 0), DEFAULT_RADIUS);
    let q = particle(v(15_000, 0), v(-1000, 0), DEFAULT_RADIUS);
    let elastic = Parameters { restitution_pp: 1000, ..unit_gravity() };
    assert_eq!(collide_particles(&p, &q, &elastic), Ok((v(-1000, 0), v(1000, 0))));
    assert_eq!(collide_particles(&p, &q, &unit_gravity()), Ok((v(-900, 0), v(900, 0))));
}

#[test]
fn particle_response_keeps_tangential_components() {
    let p = particle(v(0, 0), v(1000, 700), DEFAULT_RADIUS);
    let q = particle(v(15_000, 0), v(-1000, -300), DEFAULT_RADIUS);
    let elastic = Parameters { restitution_pp: 1000, ..unit_gravity() };
    let (a, b) = collide_particles(&p, &q, &elastic).unwrap();
    assert_eq!(a, v(-1000, 700));
    assert_eq!(b, v(1000, -300));
    assert_eq!(a.x + b.x, p.velocity.x + q.velocity.x);
    assert_eq!(a.y + b.y, p.velocity.y + q.velocity.y);
}

#[test]
fn particle_response_with_coincident_centres_changes_nothing() {
    let p = particle(v(0, 0), v(1000, 0), DEFAULT_RADIUS);
    let q = particle(v(0, 0), v(-1000, 5), DEFAULT_RADIUS);
    assert_eq!(collide_particles(&p, &q, &unit_gravity()), Ok((v(1000, 0), v(-1000, 5))));
}

#[test]
fn later_pair_overwrites_earlier_response() {
    let p = particle(v(0, 0), v(3000, 4000), DEFAULT_RADIUS);
    let ents = vec![
        Entity::Particle(p),
        Entity::Line(Line::new(v(-100_000, 0), v(100_000, 0)).unwrap()),
        Entity::Line(Line::new(v(0, -100_000), v(0, 100_000)).unwrap()),
    ];
    let pend = scan_collisions(&ents, &unit_gravity()).unwrap();
    assert_eq!(pend, vec![Some(v(-2700, 4000)), None, None]);
    let first_only = vec![ents[0], ents[1]];
    let pend = scan_collisions(&first_only, &unit_gravity()).unwrap();
    assert_eq!(pend, vec![Some(v(3000, -3600)), None]);
}

#[test]
fn scan_with_degenerate_line_fails() {
    let ents = vec![
        Entity::Particle(particle(v(0, 0), v(0, 0), DEFAULT_RADIUS)),
        Entity::Line(Line { start: v(1, 1), end: v(1, 1) }),
    ];
    assert_eq!(scan_collisions(&ents, &unit_gravity()), Err(SimError::DegenerateLine));
}

#[test]
fn idle_ticks_change_nothing() {
    let mut sim = Simulation::new(unit_gravity());
    sim.entities.push(Entity::Line(horizontal_line_at_200()));
    sim.spawn_particle(v(100_000, 100_000)).unwrap();
    sim.toggle_time();
    assert_eq!(sim.mode, Mode::Idle);
    let before = sim.entities.clone();
    for _ in 0..50 {
        assert_eq!(sim.tick(), Ok(()));
    }
    assert_eq!(sim.entities, before);
    sim.toggle_time();
    assert_eq!(sim.tick(), Ok(()));
    assert_ne!(sim.entities, before);
}

#[test]
fn falling_particle_bounces_off_line() {
    let mut sim = Simulation::new(Parameters::default());
    sim.entities.push(Entity::Line(horizontal_line_at_200()));
    sim.spawn_particle(v(100_000, 100_000)).unwrap();
    let mut ticks: u32 = 0;
    loop {
        let before = match sim.entities[1] {
            Entity::Particle(p) => p,
            _ => panic!("particle expected"),
        };
        sim.tick().unwrap();
        ticks += 1;
        let after = match sim.entities[1] {
            Entity::Particle(p) => p,
            _ => panic!("particle expected"),
        };
        if after.velocity.y < 0 {
            // integrated velocity this tick is before + 1, then reflected and scaled
            let incoming = before.velocity.y + 1000;
            assert_eq!(after.velocity.y, -(incoming * 9 / 10));
            assert_eq!(after.velocity.x, 0);
            assert_eq!(after.position, v(100_000, 198_000));
            break;
        }
        assert!(ticks < 100);
    }
    assert_eq!(ticks, 14);
    match sim.entities[1] {
        Entity::Particle(p) => assert_eq!(p.velocity, v(0, -12_600)),
        _ => panic!("particle expected"),
    }
}

#[test]
fn line_drawing_mode_transitions() {
    let mut sim = Simulation::new(unit_gravity());
    assert!(sim.is_running());
    assert_eq!(sim.line_click(v(10, 10)), Ok(()));
    assert_eq!(sim.mode, Mode::DrawingLine { anchor: v(10, 10), resume_running: true });
    assert!(!sim.is_running());
    assert_eq!(sim.provisional_line(v(50, 60)), Some(Line { start: v(10, 10), end: v(50, 60) }));
    assert_eq!(sim.line_click(v(10, 10)), Err(SimError::DegenerateLine));
    assert!(sim.entities.is_empty());
    assert_eq!(sim.line_click(v(50, 60)), Ok(()));
    assert_eq!(sim.entities, vec![Entity::Line(Line { start: v(10, 10), end: v(50, 60) })]);
    assert_eq!(sim.mode, Mode::Running);
    assert_eq!(sim.provisional_line(v(0, 0)), None);
}

#[test]
fn cancel_and_toggle_while_drawing() {
    let mut sim = Simulation::new(unit_gravity());
    sim.toggle_time();
    assert_eq!(sim.mode, Mode::Idle);
    sim.line_click(v(1, 2)).unwrap();
    assert_eq!(sim.mode, Mode::DrawingLine { anchor: v(1, 2), resume_running: false });
    sim.toggle_time();
    assert_eq!(sim.mode, Mode::DrawingLine { anchor: v(1, 2), resume_running: true });
    sim.cancel_line();
    assert_eq!(sim.mode, Mode::Running);
    assert!(sim.entities.is_empty());
    sim.cancel_line();
    assert_eq!(sim.mode, Mode::Running);
    assert_eq!(sim.line_click(v(LIMIT + 1, 0)), Err(SimError::OutOfRange));
    assert_eq!(sim.mode, Mode::Running);
}

#[test]
fn spawn_out_of_range_is_refused() {
    let mut sim = Simulation::new(unit_gravity());
    assert_eq!(sim.spawn_particle(v(LIMIT + 1, 0)), Err(SimError::OutOfRange));
    assert!(sim.entities.is_empty());
}

#[test]
fn particle_leaving_range_does_not_stop_the_others() {
    let mut sim = Simulation::new(unit_gravity());
    let edge = particle(v(0, LIMIT - 10), v(0, 1000), DEFAULT_RADIUS);
    sim.entities.push(Entity::Particle(edge));
    sim.spawn_particle(v(0, 0)).unwrap();
    assert_eq!(sim.tick(), Ok(()));
    assert_eq!(sim.entities[0], Entity::Particle(edge));
    assert_eq!(
        sim.entities[1],
        Entity::Particle(particle(v(0, 500), v(0, 1000), DEFAULT_RADIUS))
    );
}

#[test]
fn particle_below_the_floor_falls_without_freezing_the_simulation() {
    let mut sim = Simulation::new(Parameters::default());
    sim.entities.push(Entity::Line(horizontal_line_at_200()));
    sim.spawn_particle(v(400_000, 300_000)).unwrap();
    sim.spawn_particle(v(100_000, 100_000)).unwrap();
    for _ in 0..3000 {
        assert_eq!(sim.tick(), Ok(()));
    }
    // the falling particle stopped near the edge of the range
    let stopped = sim.entities[1];
    match stopped {
        Entity::Particle(p) => assert!(p.position.y > LIMIT / 2),
        _ => panic!("particle expected"),
    }
    // a particle spawned now still moves, the stopped one stays
    sim.spawn_particle(v(600_000, 50_000)).unwrap();
    assert_eq!(sim.tick(), Ok(()));
    assert_eq!(sim.entities[1], stopped);
    assert_eq!(
        sim.entities[3],
        Entity::Particle(particle(v(600_000, 50_500), v(0, 1000), DEFAULT_RADIUS))
    );
}

#[test]
fn response_out_of_range_is_not_applied() {
    let l = Line::new(v(0, 0), v(924_000, 383_000)).unwrap();
    let p = particle(v(0, 0), v(LIMIT, LIMIT), DEFAULT_RADIUS);
    let elastic = Parameters { restitution_lp: 1000, ..unit_gravity() };
    assert_eq!(collide_line_particle(&l, &p, &elastic), Err(SimError::OutOfRange));
    let ents = vec![Entity::Particle(p), Entity::Line(l)];
    assert_eq!(scan_collisions(&ents, &elastic), Ok(vec![None, None]));
}
