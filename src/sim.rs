use vstd::prelude::*;
use crate::vector::Vec2;
use crate::entity::{Entity, Line, Particle, Parameters, SimError, integrated, integrate_fits, DEFAULT_MASS, DEFAULT_RADIUS};
use crate::scan::{scan_all, scan_collisions, has_degenerate_pair, all_wf, pending_wf};

verus! {

/// Whether time runs, and whether a line is being drawn. Drawing forces time
/// to stand still; `resume_running` remembers what to return to.
#[derive(Clone, Copy, Debug, PartialEq, Eq, Structural)]
pub enum Mode {
    Running,
    Idle,
    DrawingLine { anchor: Vec2, resume_running: bool },
}

/// The running or idle mode that `resume_running` stands for.
pub open spec fn resumed(resume_running: bool) -> Mode {
    if resume_running {
        Mode::Running
    } else {
        Mode::Idle
    }
}

/// The mode after the pause key: running and idle swap; while drawing, the
/// mode to return to swaps.
pub open spec fn toggled(m: Mode) -> Mode {
    match m {
        Mode::Running => Mode::Idle,
        Mode::Idle => Mode::Running,
        Mode::DrawingLine { anchor, resume_running } => Mode::DrawingLine {
            anchor,
            resume_running: !resume_running,
        },
    }
}

/// The entity after one step, or as it was where the step would leave the
/// representable range.
pub open spec fn stepped(e: Entity, params: Parameters) -> Entity {
    if integrate_fits(e, params) {
        integrated(e, params)
    } else {
        e
    }
}

/// Every entity after one step.
pub open spec fn integrated_all(ents: Seq<Entity>, params: Parameters) -> Seq<Entity> {
    Seq::new(ents.len(), |k: int| stepped(ents[k], params))
}

/// The entity with the pending velocity, if any, put in place.
pub open spec fn with_velocity(e: Entity, w: Option<Vec2>) -> Entity {
    match (e, w) {
        (Entity::Particle(p), Some(v)) => Entity::Particle(Particle { velocity: v, ..p }),
        _ => e,
    }
}

/// Every entity with its pending velocity put in place.
pub open spec fn apply_pending(ents: Seq<Entity>, pend: Seq<Option<Vec2>>) -> Seq<Entity> {
    Seq::new(ents.len(), |k: int| with_velocity(ents[k], pend[k]))
}

/// The entities after one running tick: integrate all, then collide all pairs
/// on the integrated state and apply the collected velocities.
pub open spec fn ticked(ents: Seq<Entity>, params: Parameters) -> Seq<Entity> {
    let m = integrated_all(ents, params);
    apply_pending(m, scan_all(m, params))
}

/// The entity collection, the parameters, and the interaction mode.
pub struct Simulation {
    pub params: Parameters,
    pub entities: Vec<Entity>,
    pub mode: Mode,
}

impl Simulation {
    pub open spec fn wf(&self) -> bool {
        &&& self.params.wf()
        &&& all_wf(self.entities@)
        &&& (self.mode matches Mode::DrawingLine { anchor, .. } ==> anchor.wf())
    }

    /// An empty simulation, running.
    pub fn new(params: Parameters) -> (r: Simulation)
        requires
            params.wf(),
        ensures
            r.params == params,
            r.entities@ == Seq::<Entity>::empty(),
            r.mode == Mode::Running,
            r.wf(),
    {
        Simulation { params, entities: Vec::new(), mode: Mode::Running }
    }

    pub fn is_running(&self) -> (r: bool)
        ensures
            r == (self.mode == Mode::Running),
    {
        match self.mode {
            Mode::Running => true,
            _ => false,
        }
    }

    /// Adds a particle at rest at `at`, of unit mass and the default radius.
    pub fn spawn_particle(&mut self, at: Vec2) -> (r: Result<(), SimError>)
        requires
            old(self).wf(),
        ensures
            final(self).wf(),
            final(self).params == old(self).params,
            final(self).mode == old(self).mode,
            !at.wf() ==> r == Err::<(), SimError>(SimError::OutOfRange) && final(self).entities@
                == old(self).entities@,
            at.wf() ==> r is Ok && final(self).entities@ == old(self).entities@.push(
                Entity::Particle(
                    Particle {
                        mass: DEFAULT_MASS,
                        radius: DEFAULT_RADIUS,
                        position: at,
                        velocity: Vec2 { x: 0, y: 0 },
                    },
                ),
            ),
    {
        match Particle::new(at) {
            Ok(p) => {
                self.entities.push(Entity::Particle(p));
                proof {
                    assert forall|k: int| 0 <= k < self.entities@.len() implies #[trigger] self.entities@[k].wf() by {
                        if k < old(self).entities@.len() {
                            assert(old(self).entities@[k].wf());
                        }
                    }
                }
                Ok(())
            },
            Err(e) => Err(e),
        }
    }

    /// The pause key: swaps running and idle, or, while a line is drawn, the
    /// mode that finishing the line returns to.
    pub fn toggle_time(&mut self)
        requires
            old(self).wf(),
        ensures
            final(self).wf(),
            final(self).params == old(self).params,
            final(self).entities@ == old(self).entities@,
            final(self).mode == toggled(old(self).mode),
    {
        self.mode = match self.mode {
            Mode::Running => Mode::Idle,
            Mode::Idle => Mode::Running,
            Mode::DrawingLine { anchor, resume_running } => Mode::DrawingLine {
                anchor,
                resume_running: !resume_running,
            },
        };
    }

    /// The line button. Outside drawing it anchors a new line at `at` and
    /// stops time; while drawing it commits the line from the anchor to `at`
    /// and returns to the mode that drawing interrupted. A point out of range,
    /// or a line of zero length, is refused and nothing changes.
    pub fn line_click(&mut self, at: Vec2) -> (r: Result<(), SimError>)
        requires
            old(self).wf(),
        ensures
            final(self).wf(),
            final(self).params == old(self).params,
            r is Err ==> final(self).entities@ == old(self).entities@ && final(self).mode == old(
                self,
            ).mode,
            !at.wf() ==> r == Err::<(), SimError>(SimError::OutOfRange),
            at.wf() ==> match old(self).mode {
                Mode::DrawingLine { anchor, resume_running } => if anchor == at {
                    r == Err::<(), SimError>(SimError::DegenerateLine)
                } else {
                    &&& r is Ok
                    &&& final(self).entities@ == old(self).entities@.push(
                        Entity::Line(Line { start: anchor, end: at }),
                    )
                    &&& final(self).mode == resumed(resume_running)
                },
                _ => {
                    &&& r is Ok
                    &&& final(self).entities@ == old(self).entities@
                    &&& final(self).mode == (Mode::DrawingLine {
                        anchor: at,
                        resume_running: old(self).mode == Mode::Running,
                    })
                },
            },
    {
        if !at.is_in_range() {
            return Err(SimError::OutOfRange);
        }
        match self.mode {
            Mode::DrawingLine { anchor, resume_running } => {
                let line = match Line::new(anchor, at) {
                    Ok(l) => l,
                    Err(e) => return Err(e),
                };
                self.entities.push(Entity::Line(line));
                proof {
                    assert forall|k: int| 0 <= k < self.entities@.len() implies #[trigger] self.entities@[k].wf() by {
                        if k < old(self).entities@.len() {
                            assert(old(self).entities@[k].wf());
                        }
                    }
                }
                self.mode = if resume_running {
                    Mode::Running
                } else {
                    Mode::Idle
                };
                Ok(())
            },
            _ => {
                let running = self.is_running();
                self.mode = Mode::DrawingLine { anchor: at, resume_running: running };
                Ok(())
            },
        }
    }

    /// The cancel key: while drawing, drops the line and returns to the mode
    /// that drawing interrupted; otherwise nothing changes.
    pub fn cancel_line(&mut self)
        requires
            old(self).wf(),
        ensures
            final(self).wf(),
            final(self).params == old(self).params,
            final(self).entities@ == old(self).entities@,
            final(self).mode == match old(self).mode {
                Mode::DrawingLine { resume_running, .. } => resumed(resume_running),
                m => m,
            },
    {
        if let Mode::DrawingLine { resume_running, .. } = self.mode {
            self.mode = if resume_running {
                Mode::Running
            } else {
                Mode::Idle
            };
        }
    }

    /// The line being drawn, from the anchor to `pointer`, for display only.
    pub fn provisional_line(&self, pointer: Vec2) -> (r: Option<Line>)
        ensures
            r == match self.mode {
                Mode::DrawingLine { anchor, .. } => Some(Line { start: anchor, end: pointer }),
                _ => None::<Line>,
            },
    {
        match self.mode {
            Mode::DrawingLine { anchor, .. } => Some(Line { start: anchor, end: pointer }),
            _ => None,
        }
    }

    /// One tick. While running: every entity is integrated, then every pair
    /// is tested on the integrated state and the collected velocities are
    /// applied. Range is handled entity by entity: a particle whose step
    /// would leave the representable range stays as it was, and a collision
    /// response that would leave it is not applied; the others go on. Only a
    /// degenerate line fails the tick, and then nothing changes. While not
    /// running nothing moves.
    pub fn tick(&mut self) -> (r: Result<(), SimError>)
        requires
            old(self).wf(),
        ensures
            final(self).wf(),
            final(self).params == old(self).params,
            final(self).mode == old(self).mode,
            old(self).mode != Mode::Running ==> r is Ok && final(self).entities@ == old(
                self,
            ).entities@,
            r is Err ==> final(self).entities@ == old(self).entities@,
            old(self).mode == Mode::Running ==> ({
                let ents = old(self).entities@;
                let params = old(self).params;
                let m = integrated_all(ents, params);
                if has_degenerate_pair(m) {
                    r == Err::<(), SimError>(SimError::DegenerateLine)
                } else {
                    r is Ok && final(self).entities@ == ticked(ents, params)
                }
            }),
    {
        if !self.is_running() {
            return Ok(());
        }
        let n = self.entities.len();
        let mut moved: Vec<Entity> = Vec::new();
        let mut k: usize = 0;
        while k < n
            invariant
                k <= n,
                n == self.entities@.len(),
                self.wf(),
                self.mode == Mode::Running,
                moved@.len() == k,
                forall|a: int| 0 <= a < k ==> #[trigger] moved@[a] == stepped(self.entities@[a], self.params),
                all_wf(moved@),
            decreases n - k,
        {
            let mut e = self.entities[k];
            proof {
                assert(self.entities@[k as int].wf());
            }
            // a particle that would leave the range keeps its state this tick
            let _ = e.update(&self.params);
            moved.push(e);
            k = k + 1;
        }
        proof {
            assert(moved@ =~= integrated_all(self.entities@, self.params));
        }
        let pend = match scan_collisions(&moved, &self.params) {
            Ok(p) => p,
            Err(err) => return Err(err),
        };
        let mut out: Vec<Entity> = Vec::new();
        let mut k: usize = 0;
        while k < n
            invariant
                k <= n,
                n == moved@.len(),
                pend@.len() == n,
                pending_wf(pend@),
                all_wf(moved@),
                out@.len() == k,
                forall|a: int| 0 <= a < k ==> #[trigger] out@[a] == with_velocity(moved@[a], pend@[a]),
                all_wf(out@),
            decreases n - k,
        {
            let e = moved[k];
            let next = match (e, pend[k]) {
                (Entity::Particle(p), Some(v)) => Entity::Particle(Particle { velocity: v, ..p }),
                _ => e,
            };
            proof {
                assert(moved@[k as int].wf());
                assert(pend@[k as int] matches Some(w) ==> w.wf());
            }
            out.push(next);
            k = k + 1;
        }
        proof {
            assert(out@ =~= apply_pending(moved@, pend@));
        }
        self.entities = out;
        Ok(())
    }
}

} // verus!
