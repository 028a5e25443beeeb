use crate::bounds::Rect;
use crate::geometry::{add_vec, add_vectors, cell_at, cell_of, is_zero, within, IVec2, Vec2, LIMIT, MAX_DELTA};
use crate::lookup::{valid_cell, ParticleLookup};
use crate::particle::{valid_particle, Particle, ParticleCollisionEvent};
use crate::resolve::{all_valid, check_for_collision, collision_at, handle_collision, resolve_event, with_velocity};
use vstd::prelude::*;

verus! {

/// `p` after gravity has acted for `delta` hundredths of a second: its
/// vertical velocity drops by `delta` hundredths of a unit per tick.
pub open spec fn with_gravity(p: Particle, delta: int) -> Particle {
    with_velocity(p, Vec2 { x: p.velocity.x, y: (p.velocity.y - delta) as i64 })
}

/// The collision that particle `id`, in state `p`, is predicted to run into:
/// only a moving particle whose next position lies in another cell has one.
pub open spec fn predicted_event(
    id: usize,
    p: Particle,
    bounds: Rect,
    cells: Map<IVec2, usize>,
) -> Option<ParticleCollisionEvent> {
    let next = add_vec(p.position, p.velocity);
    if !is_zero(p.velocity) && cell_of(next) != cell_of(p.position) {
        collision_at(id, next, bounds, cells)
    } else {
        None
    }
}

/// A pair event for `a` and `b`, in either order, is among `evs`.
pub open spec fn already_paired(evs: Seq<ParticleCollisionEvent>, a: usize, b: usize) -> bool {
    evs.contains(ParticleCollisionEvent::Particle(a, b)) || evs.contains(
        ParticleCollisionEvent::Particle(b, a),
    )
}

/// The events that one discovery pass emits for the first `n` particles:
/// each particle's predicted collision in turn, except a pair event for a
/// pair already emitted in either order.
pub open spec fn discovered(
    ps: Seq<Particle>,
    bounds: Rect,
    cells: Map<IVec2, usize>,
    delta: int,
    n: nat,
) -> Seq<ParticleCollisionEvent>
    decreases n,
{
    if n == 0 {
        Seq::empty()
    } else {
        let evs = discovered(ps, bounds, cells, delta, (n - 1) as nat);
        let i = (n - 1) as int;
        match predicted_event(i as usize, with_gravity(ps[i], delta), bounds, cells) {
            Some(ParticleCollisionEvent::Particle(a, b)) => {
                if already_paired(evs, a, b) {
                    evs
                } else {
                    evs.push(ParticleCollisionEvent::Particle(a, b))
                }
            },
            Some(ev) => evs.push(ev),
            None => evs,
        }
    }
}

fn is_paired(evs: &Vec<ParticleCollisionEvent>, a: usize, b: usize) -> (r: bool)
    ensures
        r == already_paired(evs@, a, b),
{
    let ab = ParticleCollisionEvent::Particle(a, b);
    let ba = ParticleCollisionEvent::Particle(b, a);
    let mut j: usize = 0;
    while j < evs.len()
        invariant
            j <= evs@.len(),
            ab == ParticleCollisionEvent::Particle(a, b),
            ba == ParticleCollisionEvent::Particle(b, a),
            forall|k: int| 0 <= k < j ==> evs@[k] != ab && evs@[k] != ba,
        decreases evs@.len() - j,
    {
        if evs[j] == ab {
            assert(evs@[j as int] == ab);
            assert(evs@.contains(ab));
            return true;
        }
        if evs[j] == ba {
            assert(evs@[j as int] == ba);
            assert(evs@.contains(ba));
            return true;
        }
        j += 1;
    }
    false
}

/// One discovery pass: applies gravity to every particle and returns the
/// collisions predicted for the coming move, each particle pair at most once.
/// `delta` is the elapsed time in hundredths of a second.
pub fn discover_collisions(
    particles: &mut Vec<Particle>,
    particle_lookup: &ParticleLookup,
    delta: i64,
) -> (events: Vec<ParticleCollisionEvent>)
    requires
        0 <= delta <= MAX_DELTA,
        forall|i: int|
            0 <= i < old(particles)@.len() ==> within(#[trigger] old(particles)@[i].position, LIMIT as int)
                && within(old(particles)@[i].velocity, LIMIT as int),
    ensures
        final(particles)@.len() == old(particles)@.len(),
        forall|i: int|
            0 <= i < old(particles)@.len() ==> #[trigger] final(particles)@[i] == with_gravity(
                old(particles)@[i],
                delta as int,
            ),
        events@ == discovered(
            old(particles)@,
            particle_lookup.area(),
            particle_lookup.cells(),
            delta as int,
            old(particles)@.len(),
        ),
{
    let ghost ps0 = particles@;
    let mut events: Vec<ParticleCollisionEvent> = Vec::new();
    let mut i: usize = 0;
    while i < particles.len()
        invariant
            0 <= delta <= MAX_DELTA,
            i <= particles@.len(),
            particles@.len() == ps0.len(),
            forall|k: int| 0 <= k < i ==> #[trigger] particles@[k] == with_gravity(ps0[k], delta as int),
            forall|k: int| i <= k < ps0.len() ==> #[trigger] particles@[k] == ps0[k],
            forall|k: int|
                0 <= k < ps0.len() ==> within(#[trigger] ps0[k].position, LIMIT as int) && within(
                    ps0[k].velocity,
                    LIMIT as int,
                ),
            events@ == discovered(
                ps0,
                particle_lookup.area(),
                particle_lookup.cells(),
                delta as int,
                i as nat,
            ),
        decreases ps0.len() - i,
    {
        let p = particles[i];
        assert(p == ps0[i as int]);
        let q = Particle {
            position: p.position,
            velocity: Vec2 { x: p.velocity.x, y: p.velocity.y - delta },
            mass: p.mass,
            elasticity: p.elasticity,
        };
        particles.set(i, q);
        if !(q.velocity.x == 0 && q.velocity.y == 0) {
            let current_point = cell_at(q.position);
            let potential_position = add_vectors(q.position, q.velocity);
            let potential_point = cell_at(potential_position);
            if potential_point != current_point {
                if let Some(collision) = check_for_collision(i, potential_position, particle_lookup) {
                    match collision {
                        ParticleCollisionEvent::Particle(a, b) => {
                            if !is_paired(&events, a, b) {
                                events.push(collision);
                            }
                        },
                        ParticleCollisionEvent::World(_, _) => {
                            events.push(collision);
                        },
                    }
                }
            }
        }
        i += 1;
    }
    events
}

/// Resolves each event in turn, from the state the one before left.
pub open spec fn resolve_all(
    evs: Seq<ParticleCollisionEvent>,
    ps: Seq<Particle>,
    bounds: Rect,
    cells: Map<IVec2, usize>,
    budget: nat,
) -> Seq<Particle>
    decreases evs.len(),
{
    if evs.len() == 0 {
        ps
    } else {
        let before = resolve_all(evs.drop_last(), ps, bounds, cells, budget);
        resolve_event(evs.last(), before, bounds, cells, budget).0
    }
}

/// Resolves queued collision events in order, each cascade at most `budget`
/// levels deep.
pub fn handle_collisions(
    collision_events: &Vec<ParticleCollisionEvent>,
    particles: &mut Vec<Particle>,
    particle_lookup: &ParticleLookup,
    budget: u32,
)
    requires
        all_valid(old(particles)@),
    ensures
        final(particles)@ == resolve_all(
            collision_events@,
            old(particles)@,
            particle_lookup.area(),
            particle_lookup.cells(),
            budget as nat,
        ),
        all_valid(final(particles)@),
        final(particles)@.len() == old(particles)@.len(),
{
    let ghost ps0 = particles@;
    let mut i: usize = 0;
    while i < collision_events.len()
        invariant
            i <= collision_events@.len(),
            all_valid(particles@),
            particles@.len() == ps0.len(),
            particles@ == resolve_all(
                collision_events@.take(i as int),
                ps0,
                particle_lookup.area(),
                particle_lookup.cells(),
                budget as nat,
            ),
        decreases collision_events@.len() - i,
    {
        proof {
            let t = collision_events@.take(i as int + 1);
            assert(t.drop_last() =~= collision_events@.take(i as int));
        }
        handle_collision(&collision_events[i], particles, particle_lookup, budget);
        i += 1;
    }
    assert(collision_events@.take(i as int) =~= collision_events@);
}

/// `p` after one move: its position advanced by its velocity.
pub open spec fn moved(p: Particle) -> Particle {
    Particle {
        position: add_vec(p.position, p.velocity),
        velocity: p.velocity,
        mass: p.mass,
        elasticity: p.elasticity,
    }
}

/// The index after the first `n` particles moved in turn: a particle that
/// changes cell clears its old cell when that still names it, and is
/// recorded at its new cell.
pub open spec fn moved_cells(cells: Map<IVec2, usize>, ps: Seq<Particle>, n: nat) -> Map<
    IVec2,
    usize,
>
    decreases n,
{
    if n == 0 {
        cells
    } else {
        let m = moved_cells(cells, ps, (n - 1) as nat);
        let i = (n - 1) as int;
        let cur = cell_of(ps[i].position);
        let next = cell_of(add_vec(ps[i].position, ps[i].velocity));
        if cur != next {
            let cleared = if m.contains_key(cur) && m[cur] == i as usize {
                m.remove(cur)
            } else {
                m
            };
            cleared.insert(next, i as usize)
        } else {
            m
        }
    }
}

/// A particle that one move keeps in the working range of cells.
pub open spec fn movable(p: Particle) -> bool {
    within(p.position, LIMIT as int) && within(p.velocity, LIMIT + MAX_DELTA)
}

/// Moves every particle by its velocity and keeps the index in step.
pub fn handle_movement(particles: &mut Vec<Particle>, particle_lookup: &mut ParticleLookup)
    requires
        forall|i: int| 0 <= i < old(particles)@.len() ==> movable(#[trigger] old(particles)@[i]),
    ensures
        final(particles)@.len() == old(particles)@.len(),
        forall|i: int|
            0 <= i < old(particles)@.len() ==> #[trigger] final(particles)@[i] == moved(
                old(particles)@[i],
            ),
        final(particle_lookup).cells() == moved_cells(
            old(particle_lookup).cells(),
            old(particles)@,
            old(particles)@.len(),
        ),
        final(particle_lookup).area() == old(particle_lookup).area(),
{
    let ghost ps0 = particles@;
    let ghost cells0 = particle_lookup.cells();
    let mut i: usize = 0;
    while i < particles.len()
        invariant
            i <= particles@.len(),
            particles@.len() == ps0.len(),
            forall|k: int| 0 <= k < i ==> #[trigger] particles@[k] == moved(ps0[k]),
            forall|k: int| i <= k < ps0.len() ==> #[trigger] particles@[k] == ps0[k],
            forall|k: int| 0 <= k < ps0.len() ==> movable(#[trigger] ps0[k]),
            particle_lookup.cells() == moved_cells(cells0, ps0, i as nat),
            particle_lookup.area() == old(particle_lookup).area(),
        decreases ps0.len() - i,
    {
        let p = particles[i];
        assert(p == ps0[i as int]);
        let current_point = cell_at(p.position);
        let new_position = add_vectors(p.position, p.velocity);
        let new_point = cell_at(new_position);
        assert(valid_cell(current_point));
        assert(valid_cell(new_point));
        if current_point != new_point {
            if particle_lookup.get(current_point) == Some(i) {
                particle_lookup.remove(current_point);
            }
            particle_lookup.insert(new_point, i);
        }
        particles.set(
            i,
            Particle {
                position: new_position,
                velocity: p.velocity,
                mass: p.mass,
                elasticity: p.elasticity,
            },
        );
        i += 1;
    }
}

} // verus!
