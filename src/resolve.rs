use crate::bounds::{outside_normal, BoundsExt, Rect};
use crate::geometry::{add_vectors, add_vec, cell_at, cell_of, is_zero, within, IVec2, Vec2, LIMIT, MAX_DELTA};
use crate::lookup::{valid_cell, ParticleLookup};
use crate::particle::{
    calculate_collision, collision_velocity, reflect, reflected_velocity, valid_normal,
    valid_particle, Particle, ParticleCollisionEvent,
};
use vstd::prelude::*;

verus! {

/// Every particle is valid.
pub open spec fn all_valid(ps: Seq<Particle>) -> bool {
    forall|i: int| 0 <= i < ps.len() ==> valid_particle(#[trigger] ps[i])
}

/// `p` with its velocity replaced by `v`.
pub open spec fn with_velocity(p: Particle, v: Vec2) -> Particle {
    Particle { position: p.position, velocity: v, mass: p.mass, elasticity: p.elasticity }
}

/// What a particle moving to `pos` runs into: the wall when `pos` lies
/// outside `bounds`, else another particle recorded at `pos`'s cell.
pub open spec fn collision_at(
    entity: usize,
    pos: Vec2,
    bounds: Rect,
    cells: Map<IVec2, usize>,
) -> Option<ParticleCollisionEvent> {
    match outside_normal(bounds.lower(), bounds.upper(), pos) {
        Some(n) => Some(ParticleCollisionEvent::World(entity, n)),
        None => {
            let c = cell_of(pos);
            if cells.contains_key(c) && cells[c] != entity {
                Some(ParticleCollisionEvent::Particle(entity, cells[c]))
            } else {
                None
            }
        },
    }
}

/// Looks up what a particle moving to `potential_position` runs into.
pub fn check_for_collision(
    entity: usize,
    potential_position: Vec2,
    particle_lookup: &ParticleLookup,
) -> (r: Option<ParticleCollisionEvent>)
    requires
        within(potential_position, 2 * (LIMIT + MAX_DELTA)),
    ensures
        r == collision_at(
            entity,
            potential_position,
            particle_lookup.area(),
            particle_lookup.cells(),
        ),
{
    let potential_point = cell_at(potential_position);
    assert(valid_cell(potential_point));
    let bounds = particle_lookup.bounds();
    if let Some(wall_normal) = bounds.outside(potential_position) {
        Some(ParticleCollisionEvent::World(entity, wall_normal))
    } else if let Some(colliding_entity) = particle_lookup.get(potential_point) {
        if colliding_entity != entity {
            Some(ParticleCollisionEvent::Particle(entity, colliding_entity))
        } else {
            None
        }
    } else {
        None
    }
}

/// A particle the resolver can move: position and velocity in range.
pub open spec fn in_range(p: Particle) -> bool {
    within(p.position, LIMIT as int) && within(p.velocity, LIMIT as int)
}

/// A velocity the collision formulas accept.
pub open spec fn usable(p: Particle) -> bool {
    within(p.velocity, LIMIT + MAX_DELTA)
}

/// Re-checks particle `id` after its velocity changed: when it exists, is in
/// range, moves, and its next position lies in another cell that holds a
/// collision, that collision is resolved with one less level of budget.
/// Gives the new particles and the number of collisions resolved.
pub open spec fn recheck(
    id: usize,
    ps: Seq<Particle>,
    bounds: Rect,
    cells: Map<IVec2, usize>,
    budget: nat,
) -> (Seq<Particle>, nat)
    decreases budget, 0nat,
{
    if id < ps.len() && in_range(ps[id as int]) && !is_zero(ps[id as int].velocity) && budget
        > 0 {
        let p = ps[id as int];
        let next = add_vec(p.position, p.velocity);
        if cell_of(next) != cell_of(p.position) {
            match collision_at(id, next, bounds, cells) {
                Some(ev) => resolve_event(ev, ps, bounds, cells, (budget - 1) as nat),
                None => (ps, 0),
            }
        } else {
            (ps, 0)
        }
    } else {
        (ps, 0)
    }
}

/// Resolves one collision and the cascade it sets off, as far as `budget`
/// levels reach. Gives the new particles and the number of collisions
/// resolved.
///
/// A pair `(a, b)` takes the impulse velocities, `b` is re-checked, and then
/// `a` takes the impulse velocity again against `b` as the cascade left it.
/// A wall collision reflects the velocity and re-checks the particle. An
/// event whose particles do not exist, coincide, or whose result leaves the
/// working range is skipped.
pub open spec fn resolve_event(
    ev: ParticleCollisionEvent,
    ps: Seq<Particle>,
    bounds: Rect,
    cells: Map<IVec2, usize>,
    budget: nat,
) -> (Seq<Particle>, nat)
    decreases budget, 1nat,
{
    match ev {
        ParticleCollisionEvent::Particle(a, b) => {
            let (ps2, k) = if a < ps.len() && b < ps.len() && a != b && usable(ps[a as int])
                && usable(ps[b as int]) {
                match (
                    collision_velocity(ps[a as int], ps[b as int]),
                    collision_velocity(ps[b as int], ps[a as int]),
                ) {
                    (Some(va), Some(vb)) => {
                        let ps1 = ps.update(a as int, with_velocity(ps[a as int], va)).update(
                            b as int,
                            with_velocity(ps[b as int], vb),
                        );
                        let (ps2, k) = recheck(b, ps1, bounds, cells, budget);
                        (ps2, k + 1)
                    },
                    _ => (ps, 0),
                }
            } else {
                (ps, 0)
            };
            if a < ps2.len() && b < ps2.len() && a != b && usable(ps2[a as int]) && usable(
                ps2[b as int],
            ) {
                match collision_velocity(ps2[a as int], ps2[b as int]) {
                    Some(va) => (ps2.update(a as int, with_velocity(ps2[a as int], va)), k),
                    None => (ps2, k),
                }
            } else {
                (ps2, k)
            }
        },
        ParticleCollisionEvent::World(e, n) => {
            if e < ps.len() && valid_normal(n) && usable(ps[e as int]) {
                match reflected_velocity(ps[e as int], n) {
                    Some(v) => {
                        let ps1 = ps.update(e as int, with_velocity(ps[e as int], v));
                        let (ps2, k) = recheck(e, ps1, bounds, cells, budget);
                        (ps2, k + 1)
                    },
                    None => (ps, 0),
                }
            } else {
                (ps, 0)
            }
        },
    }
}

fn set_velocity(particles: &mut Vec<Particle>, i: usize, v: Vec2)
    requires
        i < old(particles).len(),
    ensures
        final(particles)@ == old(particles)@.update(i as int, with_velocity(old(particles)@[i as int], v)),
{
    let p = particles[i];
    particles.set(i, Particle { position: p.position, velocity: v, mass: p.mass, elasticity: p.elasticity });
}

/// Re-checks particle `entity` after its velocity changed, resolving the
/// collision it now runs into, if any.
pub fn resolve_particle(
    entity: usize,
    particles: &mut Vec<Particle>,
    particle_lookup: &ParticleLookup,
    budget: u32,
) -> (steps: u64)
    requires
        all_valid(old(particles)@),
    ensures
        (final(particles)@, steps as nat) == recheck(
            entity,
            old(particles)@,
            particle_lookup.area(),
            particle_lookup.cells(),
            budget as nat,
        ),
        all_valid(final(particles)@),
        final(particles)@.len() == old(particles)@.len(),
        steps <= budget,
    decreases budget, 0nat,
{
    if entity < particles.len() && budget > 0 {
        let particle = particles[entity];
        if within_exec(particle.position, LIMIT) && within_exec(particle.velocity, LIMIT) && !(
        particle.velocity.x == 0 && particle.velocity.y == 0) {
            let current_point = cell_at(particle.position);
            let potential_position = add_vectors(particle.position, particle.velocity);
            let potential_point = cell_at(potential_position);
            if potential_point != current_point {
                if let Some(collision) = check_for_collision(
                    entity,
                    potential_position,
                    particle_lookup,
                ) {
                    return handle_collision(&collision, particles, particle_lookup, budget - 1);
                }
            }
        }
    }
    0
}

/// Resolves `collision` and the cascade it sets off, at most `budget`
/// levels deep. Returns the number of collisions resolved.
pub fn handle_collision(
    collision: &ParticleCollisionEvent,
    particles: &mut Vec<Particle>,
    particle_lookup: &ParticleLookup,
    budget: u32,
) -> (steps: u64)
    requires
        all_valid(old(particles)@),
    ensures
        (final(particles)@, steps as nat) == resolve_event(
            *collision,
            old(particles)@,
            particle_lookup.area(),
            particle_lookup.cells(),
            budget as nat,
        ),
        all_valid(final(particles)@),
        final(particles)@.len() == old(particles)@.len(),
        steps <= budget as nat + 1,
    decreases budget, 1nat,
{
    match *collision {
        ParticleCollisionEvent::Particle(a, b) => {
            let mut steps: u64 = 0;
            if a < particles.len() && b < particles.len() && a != b {
                let pa = particles[a];
                let pb = particles[b];
                if within_exec(pa.velocity, LIMIT + MAX_DELTA) && within_exec(
                    pb.velocity,
                    LIMIT + MAX_DELTA,
                ) {
                    let new_a = calculate_collision(&pa, &pb);
                    let new_b = calculate_collision(&pb, &pa);
                    if let (Some(va), Some(vb)) = (new_a, new_b) {
                        set_velocity(particles, a, va);
                        set_velocity(particles, b, vb);
                        let k = resolve_particle(b, particles, particle_lookup, budget);
                        steps = k + 1;
                    }
                }
            }
            if a < particles.len() && b < particles.len() && a != b {
                let pa = particles[a];
                let pb = particles[b];
                if within_exec(pa.velocity, LIMIT + MAX_DELTA) && within_exec(
                    pb.velocity,
                    LIMIT + MAX_DELTA,
                ) {
                    if let Some(va) = calculate_collision(&pa, &pb) {
                        set_velocity(particles, a, va);
                    }
                }
            }
            steps
        },
        ParticleCollisionEvent::World(entity, normal) => {
            if entity < particles.len() && -1 <= normal.x && normal.x <= 1 && -1 <= normal.y
                && normal.y <= 1 && !(normal.x == 0 && normal.y == 0) {
                let p = particles[entity];
                if within_exec(p.velocity, LIMIT + MAX_DELTA) {
                    if let Some(v) = reflect(&p, normal) {
                        set_velocity(particles, entity, v);
                        let k = resolve_particle(entity, particles, particle_lookup, budget);
                        return k + 1;
                    }
                }
            }
            0
        },
    }
}

/// Both components of `v` lie within `[-bound, bound]`.
pub fn within_exec(v: Vec2, bound: i64) -> (r: bool)
    requires
        bound >= 0,
    ensures
        r == within(v, bound as int),
{
    -bound <= v.x && v.x <= bound && -bound <= v.y && v.y <= bound
}

} // verus!
