use vstd::prelude::*;
use crate::vector::{Vec2, in_range};
use crate::entity::{Entity, Parameters, SimError, collides};
use crate::response::{
    line_response,
    particle_response,
    collide_line_particle,
    collide_particles,
};

verus! {

/// The velocity with the given coordinates; callers hold them in range.
pub open spec fn to_vec(x: int, y: int) -> Vec2 {
    Vec2 { x: x as i64, y: y as i64 }
}

/// The pending velocities after the pair `(i, j)` is looked at: on a
/// collision whose response stays in range, the response is written at the
/// index of each particle in the pair, replacing whatever an earlier pair
/// wrote there. A response that would leave the range is not applied.
pub open spec fn apply_pair(
    ents: Seq<Entity>,
    params: Parameters,
    i: int,
    j: int,
    pend: Seq<Option<Vec2>>,
) -> Seq<Option<Vec2>> {
    if !(collides(ents[i], ents[j]) && pair_fits(ents, params, i, j)) {
        pend
    } else {
        match (ents[i], ents[j]) {
            (Entity::Particle(p), Entity::Line(l)) => {
                let (wx, wy) = line_response(l, p.velocity, params.restitution_lp as int);
                pend.update(i, Some(to_vec(wx, wy)))
            },
            (Entity::Line(l), Entity::Particle(p)) => {
                let (wx, wy) = line_response(l, p.velocity, params.restitution_lp as int);
                pend.update(j, Some(to_vec(wx, wy)))
            },
            (Entity::Particle(p), Entity::Particle(q)) => {
                let (a, b, c, d) = particle_response(p, q, params.restitution_pp as int);
                pend.update(i, Some(to_vec(a, b))).update(j, Some(to_vec(c, d)))
            },
            (Entity::Line(_), Entity::Line(_)) => pend,
        }
    }
}

/// Whether the response to the pair `(i, j)`, if they collide, stays in range.
pub open spec fn pair_fits(ents: Seq<Entity>, params: Parameters, i: int, j: int) -> bool {
    collides(ents[i], ents[j]) ==> match (ents[i], ents[j]) {
        (Entity::Particle(p), Entity::Line(l)) => {
            let (wx, wy) = line_response(l, p.velocity, params.restitution_lp as int);
            in_range(wx) && in_range(wy)
        },
        (Entity::Line(l), Entity::Particle(p)) => {
            let (wx, wy) = line_response(l, p.velocity, params.restitution_lp as int);
            in_range(wx) && in_range(wy)
        },
        (Entity::Particle(p), Entity::Particle(q)) => {
            let (a, b, c, d) = particle_response(p, q, params.restitution_pp as int);
            in_range(a) && in_range(b) && in_range(c) && in_range(d)
        },
        (Entity::Line(_), Entity::Line(_)) => true,
    }
}

/// Whether some pair involves a line with coincident endpoints.
pub open spec fn has_degenerate_pair(ents: Seq<Entity>) -> bool {
    ents.len() >= 2 && exists|k: int| 0 <= k < ents.len() && #[trigger] ents[k].is_degenerate_line()
}

/// The pending velocities after every pair `(a, b)`, `a < b`, with `a < i`,
/// or `a == i` and `b < j`, was looked at in order.
pub open spec fn scan(ents: Seq<Entity>, params: Parameters, i: nat, j: nat) -> Seq<
    Option<Vec2>,
>
    decreases i, j,
{
    if j > i + 1 {
        apply_pair(ents, params, i as int, j - 1, scan(ents, params, i, (j - 1) as nat))
    } else if i == 0 {
        Seq::new(ents.len(), |k: int| None)
    } else {
        scan(ents, params, (i - 1) as nat, ents.len())
    }
}

/// The pending velocities after all pairs.
pub open spec fn scan_all(ents: Seq<Entity>, params: Parameters) -> Seq<Option<Vec2>> {
    scan(ents, params, ents.len(), ents.len())
}

/// Whether every entity is well formed.
pub open spec fn all_wf(ents: Seq<Entity>) -> bool {
    forall|k: int| 0 <= k < ents.len() ==> #[trigger] ents[k].wf()
}

/// Whether every pending velocity is in range.
pub open spec fn pending_wf(pend: Seq<Option<Vec2>>) -> bool {
    forall|k: int| 0 <= k < pend.len() ==> (#[trigger] pend[k] matches Some(w) ==> w.wf())
}

/// Looks at every unordered pair once, in order `(0, 1), (0, 2), ..., (1, 2),
/// ...`, and collects the velocity each colliding particle should take. The
/// entities are not changed: the caller applies the result afterwards. A
/// particle in several colliding pairs keeps the response of the last one; a
/// response that would leave the range is dropped.
pub fn scan_collisions(ents: &Vec<Entity>, params: &Parameters) -> (r: Result<
    Vec<Option<Vec2>>,
    SimError,
>)
    requires
        all_wf(ents@),
        params.wf(),
    ensures
        has_degenerate_pair(ents@) ==> r == Err::<Vec<Option<Vec2>>, SimError>(
            SimError::DegenerateLine,
        ),
        !has_degenerate_pair(ents@) ==> (r matches Ok(pend) && pend@ == scan_all(ents@, *params)),
        r matches Ok(pend) ==> pend@.len() == ents@.len() && pending_wf(pend@),
{
    let n = ents.len();
    if n >= 2 {
        let mut k: usize = 0;
        while k < n
            invariant
                2 <= n,
                k <= n,
                n == ents@.len(),
                forall|a: int| 0 <= a < k ==> !(#[trigger] ents@[a].is_degenerate_line()),
            decreases n - k,
        {
            if ents[k].is_degenerate() {
                proof {
                    assert(ents@[k as int].is_degenerate_line());
                    assert(has_degenerate_pair(ents@));
                }
                return Err(SimError::DegenerateLine);
            }
            k = k + 1;
        }
    }
    let mut pend: Vec<Option<Vec2>> = Vec::new();
    let mut k: usize = 0;
    while k < n
        invariant
            k <= n,
            n == ents@.len(),
            pend@ == Seq::new(k as nat, |a: int| None::<Vec2>),
        decreases n - k,
    {
        pend.push(None);
        k = k + 1;
    }
    proof {
        assert(pend@ =~= scan(ents@, *params, 0, 0));
    }
    let mut i: usize = 0;
    while i < n
        invariant
            i <= n,
            n == ents@.len(),
            all_wf(ents@),
            params.wf(),
            !has_degenerate_pair(ents@),
            pend@ == scan(ents@, *params, i as nat, i as nat),
            pend@.len() == n,
            pending_wf(pend@),
        decreases n - i,
    {
        let mut j: usize = i + 1;
        while j < n
            invariant
                i < n,
                i + 1 <= j <= n,
                n == ents@.len(),
                all_wf(ents@),
                params.wf(),
                !has_degenerate_pair(ents@),
                pend@ == scan(ents@, *params, i as nat, j as nat),
                pend@.len() == n,
                pending_wf(pend@),
            decreases n - j,
        {
            let ea = ents[i];
            let eb = ents[j];
            proof {
                assert(ents@[i as int].wf() && ents@[j as int].wf());
                assert(!ents@[i as int].is_degenerate_line() && !ents@[j as int].is_degenerate_line());
            }
            let hit = match ea.collides_with(&eb) {
                Ok(h) => h,
                Err(e) => return Err(e),
            };
            if hit {
                match (ea, eb) {
                    (Entity::Particle(p), Entity::Line(l)) => {
                        match collide_line_particle(&l, &p, params) {
                            Ok(w) => pend.set(i, Some(w)),
                            Err(_) => {
                                proof {
                                    assert(!pair_fits(ents@, *params, i as int, j as int));
                                }
                            },
                        }
                    },
                    (Entity::Line(l), Entity::Particle(p)) => {
                        match collide_line_particle(&l, &p, params) {
                            Ok(w) => pend.set(j, Some(w)),
                            Err(_) => {
                                proof {
                                    assert(!pair_fits(ents@, *params, i as int, j as int));
                                }
                            },
                        }
                    },
                    (Entity::Particle(p), Entity::Particle(q)) => {
                        match collide_particles(&p, &q, params) {
                            Ok((vp, vq)) => {
                                pend.set(i, Some(vp));
                                pend.set(j, Some(vq));
                            },
                            Err(_) => {
                                proof {
                                    assert(!pair_fits(ents@, *params, i as int, j as int));
                                }
                            },
                        }
                    },
                    (Entity::Line(_), Entity::Line(_)) => {},
                }
            }
            proof {
                assert(pend@ =~= scan(ents@, *params, i as nat, (j + 1) as nat));
            }
            j = j + 1;
        }
        proof {
            assert(scan(ents@, *params, (i + 1) as nat, (i + 1) as nat) == scan(
                ents@,
                *params,
                i as nat,
                n as nat,
            ));
        }
        i = i + 1;
    }
    Ok(pend)
}

} // verus!
