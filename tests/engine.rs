use particle_sim::bounds::{BoundsExt, Rect};
use particle_sim::geometry::{cell_at, floor_to_cell, IVec2, Vec2};
use particle_sim::lookup::ParticleLookup;
use particle_sim::particle::{calculate_collision, reflect, Particle, ParticleCollisionEvent};
use particle_sim::resolve::{check_for_collision, handle_collision};
use particle_sim::tick::{discover_collisions, handle_collisions, handle_movement};

fn particle(x: i64, y: i64, vx: i64, vy: i64, mass: u64, elasticity: u64) -> Particle {
    Particle {
        position: Vec2 { x, y },
        velocity: Vec2 { x: vx, y: vy },
        mass,
        elasticity,
    }
}

fn kinetic(ps: &[Particle]) -> i128 {
    ps.iter()
        .map(|p| {
            let vx = p.velocity.x as i128;
            let vy = p.velocity.y as i128;
            p.mass as i128 * (vx * vx + vy * vy)
        })
        .sum()
}

#[test]
fn floor_rounds_down_for_negative_positions() {
    assert_eq!(floor_to_cell(250), 2);
    assert_eq!(floor_to_cell(0), 0);
    assert_eq!(floor_to_cell(-1), -1);
    assert_eq!(floor_to_cell(-100), -1);
    assert_eq!(floor_to_cell(-101), -2);
    assert_eq!(cell_at(Vec2 { x: -25, y: 199 }), IVec2 { x: -1, y: 1 });
}

#[test]
fn new_lookup_centres_bounds() {
    let lookup = ParticleLookup::new(40, 20);
    let b = lookup.bounds();
    assert_eq!(b, Rect { left: -2000, right: 2000, top: 1000, bottom: -1000 });
    assert_eq!(b.min(), Vec2 { x: -2000, y: -1000 });
    assert_eq!(b.max(), Vec2 { x: 2000, y: 1000 });
    assert_eq!(lookup.get(IVec2 { x: 0, y: 0 }), None);
}

#[test]
fn outside_gives_inward_normals() {
    let b = Rect { left: -1000, right: 1000, top: 500, bottom: -500 };
    assert_eq!(b.outside(Vec2 { x: 0, y: 0 }), None);
    assert_eq!(b.outside(Vec2 { x: 1000, y: 500 }), None);
    assert_eq!(b.outside(Vec2 { x: 1001, y: 0 }), Some(IVec2 { x: -1, y: 0 }));
    assert_eq!(b.outside(Vec2 { x: -1001, y: 0 }), Some(IVec2 { x: 1, y: 0 }));
    assert_eq!(b.outside(Vec2 { x: 0, y: -501 }), Some(IVec2 { x: 0, y: 1 }));
    assert_eq!(b.outside(Vec2 { x: 1001, y: 501 }), Some(IVec2 { x: -1, y: -1 }));
}

#[test]
fn lookup_insert_get_remove() {
    let mut lookup = ParticleLookup::new(10, 10);
    let c = IVec2 { x: -3, y: 4 };
    lookup.insert(c, 7);
    assert_eq!(lookup.get(c), Some(7));
    assert_eq!(lookup.get(IVec2 { x: 4, y: -3 }), None);
    lookup.insert(c, 9);
    assert_eq!(lookup.get(c), Some(9));
    lookup.remove(c);
    assert_eq!(lookup.get(c), None);
}

#[test]
fn particle_new_is_at_rest() {
    let p = Particle::new(Vec2 { x: 150, y: -20 }, 3);
    assert_eq!(p, particle(150, -20, 0, 0, 3, 50));
}

#[test]
fn check_for_collision_prefers_walls_then_occupants() {
    let mut lookup = ParticleLookup::new(20, 20);
    lookup.insert(IVec2 { x: 1, y: 0 }, 1);
    assert_eq!(
        check_for_collision(0, Vec2 { x: 1050, y: 0 }, &lookup),
        Some(ParticleCollisionEvent::World(0, IVec2 { x: -1, y: 0 }))
    );
    assert_eq!(
        check_for_collision(0, Vec2 { x: 150, y: 50 }, &lookup),
        Some(ParticleCollisionEvent::Particle(0, 1))
    );
    assert_eq!(check_for_collision(1, Vec2 { x: 150, y: 50 }, &lookup), None);
    assert_eq!(check_for_collision(0, Vec2 { x: 250, y: 50 }, &lookup), None);
}

#[test]
fn impulse_formula_values() {
    let a = particle(-100, 0, 100, 0, 1, 40);
    let b = particle(100, 0, -100, 0, 1, 40);
    assert_eq!(calculate_collision(&a, &b), Some(Vec2 { x: -40, y: 0 }));
    assert_eq!(calculate_collision(&b, &a), Some(Vec2 { x: 40, y: 0 }));
    // (0.33 * 2 * (0 - 1) + 1) / 3 = 0.1133..., rounded to 0.11
    let c = particle(0, 0, 100, 0, 1, 33);
    let d = particle(100, 0, 0, 0, 2, 33);
    assert_eq!(calculate_collision(&c, &d), Some(Vec2 { x: 11, y: 0 }));
    // (0.33 * 1 * (1 - 0) + 1) / 3 = 0.4433..., rounded to 0.44
    assert_eq!(calculate_collision(&d, &c), Some(Vec2 { x: 44, y: 0 }));
}

#[test]
fn impulse_rounds_halves_away_from_zero() {
    // (0.5 * 1 * (0 - 0.01) + 0.01) / 2 = 0.0025 -> 0.00; scaled: 0.25 hundredths
    let a = particle(0, 0, 1, -1, 1, 50);
    let b = particle(0, 0, 0, 0, 1, 50);
    assert_eq!(calculate_collision(&a, &b), Some(Vec2 { x: 0, y: 0 }));
    // (0 + 0.01 * 1 + 0) / 2 = 0.005 -> 0.01 and -0.005 -> -0.01
    let c = particle(0, 0, 1, -1, 1, 0);
    assert_eq!(calculate_collision(&c, &b), Some(Vec2 { x: 1, y: -1 }));
}

#[test]
fn impulse_out_of_range_is_none() {
    let a = particle(0, 0, 0, 0, 1, 100);
    let b = particle(0, 0, 100_000_000_000, 0, 1_000_000, 100);
    assert_eq!(calculate_collision(&a, &b), None);
}

#[test]
fn elastic_impulse_keeps_energy_and_inelastic_loses_it() {
    let a = particle(0, 0, 300, -40, 2, 100);
    let b = particle(0, 0, -100, 60, 3, 100);
    let va = calculate_collision(&a, &b).unwrap();
    let vb = calculate_collision(&b, &a).unwrap();
    let after = [Particle { velocity: va, ..a }, Particle { velocity: vb, ..b }];
    let before = kinetic(&[a, b]);
    assert!((kinetic(&after) - before).abs() * 100 <= before);

    let c = Particle { elasticity: 40, ..a };
    let d = Particle { elasticity: 40, ..b };
    let vc = calculate_collision(&c, &d).unwrap();
    let vd = calculate_collision(&d, &c).unwrap();
    let after = [Particle { velocity: vc, ..c }, Particle { velocity: vd, ..d }];
    assert!(kinetic(&after) < before);
}

#[test]
fn reflect_on_axis_and_corner() {
    let p = particle(0, 0, 100, -25, 1, 50);
    assert_eq!(reflect(&p, IVec2 { x: -1, y: 0 }), Some(Vec2 { x: -50, y: -25 }));
    let q = particle(0, 0, 100, 100, 1, 100);
    // 1 - 2 * (-2) * (-1 / sqrt 2) = -1.828..., rounded to -1.83
    assert_eq!(reflect(&q, IVec2 { x: -1, y: -1 }), Some(Vec2 { x: -183, y: -183 }));
    let r = particle(0, 0, 100, 0, 1, 50);
    // 1 - 1.5 * (-1) * (-1 / sqrt 2) = -0.0606..., rounded to -0.06
    assert_eq!(reflect(&r, IVec2 { x: -1, y: -1 }), Some(Vec2 { x: -6, y: -106 }));
}

#[test]
fn wall_reflection_scenario() {
    let mut lookup = ParticleLookup::new(20, 20);
    lookup.insert(IVec2 { x: 9, y: 0 }, 0);
    let mut ps = vec![particle(990, 0, 100, 0, 1, 50)];
    let events = discover_collisions(&mut ps, &lookup, 0);
    assert_eq!(events, vec![ParticleCollisionEvent::World(0, IVec2 { x: -1, y: 0 })]);
    let steps = handle_collision(&events[0], &mut ps, &lookup, 8);
    assert_eq!(steps, 1);
    assert!(ps[0].velocity.x < 0 && ps[0].velocity.x.abs() < 100);
    assert_eq!(ps[0].velocity, Vec2 { x: -50, y: 0 });
}

#[test]
fn discovery_applies_gravity_to_every_particle() {
    let lookup = ParticleLookup::new(20, 20);
    let mut ps = vec![particle(50, 50, 0, 0, 1, 50), particle(350, 50, 10, 0, 1, 50)];
    let events = discover_collisions(&mut ps, &lookup, 25);
    assert!(events.is_empty());
    assert_eq!(ps[0].velocity, Vec2 { x: 0, y: -25 });
    assert_eq!(ps[1].velocity, Vec2 { x: 10, y: -25 });
}

#[test]
fn discovery_emits_one_event_per_pair() {
    let mut lookup = ParticleLookup::new(20, 20);
    lookup.insert(IVec2 { x: 0, y: 0 }, 0);
    lookup.insert(IVec2 { x: 1, y: 0 }, 1);
    let mut ps = vec![particle(50, 50, 100, 0, 1, 50), particle(150, 50, -100, 0, 1, 50)];
    let events = discover_collisions(&mut ps, &lookup, 0);
    assert_eq!(events, vec![ParticleCollisionEvent::Particle(0, 1)]);
}

#[test]
fn head_on_pair_scenario() {
    let mut lookup = ParticleLookup::new(20, 20);
    lookup.insert(IVec2 { x: -1, y: 0 }, 0);
    lookup.insert(IVec2 { x: 1, y: 0 }, 1);
    let mut ps = vec![particle(-100, 0, 100, 0, 1, 40), particle(100, 0, -100, 0, 1, 40)];
    let events = vec![ParticleCollisionEvent::Particle(0, 1)];
    handle_collisions(&events, &mut ps, &lookup, 8);
    // b takes 0.4; a takes -0.4, then 0.4 * (0.4 + 0.4) / 2 = 0.16 against b's new state
    assert_eq!(ps[0].velocity, Vec2 { x: 16, y: 0 });
    assert_eq!(ps[1].velocity, Vec2 { x: 40, y: 0 });
    assert!(ps[1].velocity.x >= ps[0].velocity.x);
    assert!(ps[0].velocity != Vec2 { x: 0, y: 0 });
}

#[test]
fn cascade_along_a_chain_terminates() {
    let mut lookup = ParticleLookup::new(20, 20);
    for i in 0..3usize {
        lookup.insert(IVec2 { x: i as i64, y: 0 }, i);
    }
    let chain = vec![
        particle(50, 50, 100, 0, 1, 100),
        particle(150, 50, 0, 0, 1, 100),
        particle(250, 50, 0, 0, 1, 100),
    ];
    let mut ps = chain.clone();
    let steps = handle_collision(&ParticleCollisionEvent::Particle(0, 1), &mut ps, &lookup, 16);
    assert_eq!(steps, 2);
    // each first particle of a pair is resolved again against the second's
    // state after the cascade, so the whole chain ends moving at 1.0
    assert_eq!(ps[0].velocity, Vec2 { x: 100, y: 0 });
    assert_eq!(ps[1].velocity, Vec2 { x: 100, y: 0 });
    assert_eq!(ps[2].velocity, Vec2 { x: 100, y: 0 });

    let mut ps = chain.clone();
    let steps = handle_collision(&ParticleCollisionEvent::Particle(0, 1), &mut ps, &lookup, 0);
    assert_eq!(steps, 1);
    assert_eq!(ps[0].velocity, Vec2 { x: 100, y: 0 });
    assert_eq!(ps[1].velocity, Vec2 { x: 100, y: 0 });
    assert_eq!(ps[2].velocity, Vec2 { x: 0, y: 0 });
}

#[test]
fn stale_or_degenerate_events_are_skipped() {
    let lookup = ParticleLookup::new(20, 20);
    let mut ps = vec![particle(50, 50, 100, 0, 1, 50), particle(150, 50, -100, 0, 1, 50)];
    let before = ps.clone();
    assert_eq!(handle_collision(&ParticleCollisionEvent::Particle(0, 7), &mut ps, &lookup, 4), 0);
    assert_eq!(handle_collision(&ParticleCollisionEvent::Particle(1, 1), &mut ps, &lookup, 4), 0);
    assert_eq!(
        handle_collision(&ParticleCollisionEvent::World(5, IVec2 { x: 1, y: 0 }), &mut ps, &lookup, 4),
        0
    );
    assert_eq!(
        handle_collision(&ParticleCollisionEvent::World(0, IVec2 { x: 0, y: 0 }), &mut ps, &lookup, 4),
        0
    );
    assert_eq!(ps, before);
}

#[test]
fn movement_updates_positions_and_index() {
    let mut lookup = ParticleLookup::new(20, 20);
    lookup.insert(IVec2 { x: 0, y: 0 }, 0);
    lookup.insert(IVec2 { x: 5, y: 5 }, 1);
    let mut ps = vec![particle(50, 50, 75, -10, 1, 50), particle(510, 520, 20, 30, 1, 50)];
    handle_movement(&mut ps, &mut lookup);
    assert_eq!(ps[0].position, Vec2 { x: 125, y: 40 });
    assert_eq!(ps[1].position, Vec2 { x: 530, y: 550 });
    assert_eq!(lookup.get(IVec2 { x: 0, y: 0 }), None);
    assert_eq!(lookup.get(IVec2 { x: 1, y: 0 }), Some(0));
    assert_eq!(lookup.get(IVec2 { x: 5, y: 5 }), Some(1));
}

#[test]
fn movement_keeps_entry_taken_by_another() {
    let mut lookup = ParticleLookup::new(20, 20);
    lookup.insert(IVec2 { x: 1, y: 0 }, 1);
    lookup.insert(IVec2 { x: 0, y: 0 }, 0);
    // particle 0 moves into cell (1, 0) first; particle 1 then leaves it and
    // must not clear the entry that now names particle 0
    let mut ps = vec![particle(50, 50, 100, 0, 1, 50), particle(150, 50, 100, 0, 1, 50)];
    handle_movement(&mut ps, &mut lookup);
    assert_eq!(lookup.get(IVec2 { x: 0, y: 0 }), None);
    assert_eq!(lookup.get(IVec2 { x: 1, y: 0 }), Some(0));
    assert_eq!(lookup.get(IVec2 { x: 2, y: 0 }), Some(1));
}
