use crate::geometry::{round_div, round_div_i128, within, IVec2, Vec2, LIMIT, MAX_DELTA};
use vstd::prelude::*;

verus! {

/// Largest mass a particle may have.
pub const MAX_MASS: u64 = 1_000_000;

/// Elasticity in hundredths: `100` keeps all energy on impact, `0` none.
pub const FULL_ELASTICITY: u64 = 100;

/// The kinematic state of one particle. Position and velocity are in
/// hundredths of a unit; elasticity is in hundredths.
#[derive(Clone, Copy, Debug, PartialEq, Eq, Structural)]
pub struct Particle {
    pub position: Vec2,
    pub velocity: Vec2,
    pub mass: u64,
    pub elasticity: u64,
}

/// A particle with a positive mass within `MAX_MASS` and an elasticity
/// within `[0, 1]`.
pub open spec fn valid_particle(p: Particle) -> bool {
    1 <= p.mass <= MAX_MASS && p.elasticity <= FULL_ELASTICITY
}

impl Particle {
    /// A particle at rest at `position`, with elasticity one half.
    pub fn new(position: Vec2, mass: u64) -> (r: Self)
        ensures
            r == (Particle { position, velocity: Vec2 { x: 0, y: 0 }, mass, elasticity: 50 }),
    {
        Particle { position, velocity: Vec2 { x: 0, y: 0 }, mass, elasticity: 50 }
    }
}

/// A collision found by discovery: a particle against a wall (with the
/// inward normal), or a particle against another.
#[derive(Clone, Copy, Debug, PartialEq, Eq, Structural)]
pub enum ParticleCollisionEvent {
    World(usize, IVec2),
    Particle(usize, usize),
}

/// A velocity given by exact components, when both fit the working range.
pub open spec fn bounded_vec(x: int, y: int) -> Option<Vec2> {
    if -LIMIT <= x <= LIMIT && -LIMIT <= y <= LIMIT {
        Some(Vec2 { x: x as i64, y: y as i64 })
    } else {
        None
    }
}

/// One component of the velocity that a particle (velocity `vs`, mass `ms`,
/// elasticity `es` in hundredths) takes after hitting one of velocity `vo`
/// and mass `mo`:
/// `(e * mo * (vo - vs) + ms * vs + mo * vo) / (ms + mo)`, rounded to the
/// nearest hundredth.
pub open spec fn impulse_component(vs: int, vo: int, ms: int, mo: int, es: int) -> int {
    round_div(impulse_numerator(vs, vo, ms, mo, es), 100 * (ms + mo))
}

/// The exact impulse velocity times `100 * (ms + mo)`: an integer.
pub open spec fn impulse_numerator(vs: int, vo: int, ms: int, mo: int, es: int) -> int {
    es * mo * (vo - vs) + 100 * (ms * vs + mo * vo)
}

/// The velocity `current` takes on hitting `other`, when it fits the
/// working range.
pub open spec fn collision_velocity(current: Particle, other: Particle) -> Option<Vec2> {
    bounded_vec(
        impulse_component(
            current.velocity.x as int,
            other.velocity.x as int,
            current.mass as int,
            other.mass as int,
            current.elasticity as int,
        ),
        impulse_component(
            current.velocity.y as int,
            other.velocity.y as int,
            current.mass as int,
            other.mass as int,
            current.elasticity as int,
        ),
    )
}

proof fn lemma_impulse_bounds(vs: int, vo: int, ms: int, mo: int, es: int)
    requires
        -100_001_000_000 <= vs <= 100_001_000_000,
        -100_001_000_000 <= vo <= 100_001_000_000,
        1 <= ms <= 1_000_000,
        1 <= mo <= 1_000_000,
        0 <= es <= 100,
    ensures
        0 <= es * mo <= 100_000_000,
        -200_002_000_000_00_000_000 <= es * mo * (vo - vs) <= 200_002_000_000_00_000_000,
        -100_001_000_000_000_000 <= ms * vs <= 100_001_000_000_000_000,
        -100_001_000_000_000_000 <= mo * vo <= 100_001_000_000_000_000,
{
    assert(0 <= es * mo <= 100_000_000) by (nonlinear_arith)
        requires 0 <= es <= 100, 1 <= mo <= 1_000_000;
    assert(-200_002_000_000_00_000_000 <= es * mo * (vo - vs) <= 200_002_000_000_00_000_000)
        by (nonlinear_arith)
        requires
            -200_002_000_000 <= vo - vs <= 200_002_000_000,
            0 <= es * mo <= 100_000_000,
    ;
    assert(-100_001_000_000_000_000 <= ms * vs <= 100_001_000_000_000_000) by (nonlinear_arith)
        requires -100_001_000_000 <= vs <= 100_001_000_000, 1 <= ms <= 1_000_000;
    assert(-100_001_000_000_000_000 <= mo * vo <= 100_001_000_000_000_000) by (nonlinear_arith)
        requires -100_001_000_000 <= vo <= 100_001_000_000, 1 <= mo <= 1_000_000;
}

fn impulse(vs: i64, vo: i64, ms: u64, mo: u64, es: u64) -> (r: i128)
    requires
        -(LIMIT + MAX_DELTA) <= vs <= LIMIT + MAX_DELTA,
        -(LIMIT + MAX_DELTA) <= vo <= LIMIT + MAX_DELTA,
        1 <= ms <= MAX_MASS,
        1 <= mo <= MAX_MASS,
        es <= 100,
    ensures
        r as int == impulse_component(vs as int, vo as int, ms as int, mo as int, es as int),
{
    proof {
        lemma_impulse_bounds(vs as int, vo as int, ms as int, mo as int, es as int);
    }
    let (vs, vo, ms, mo, es) = (vs as i128, vo as i128, ms as i128, mo as i128, es as i128);
    let n: i128 = es * mo * (vo - vs) + 100 * (ms * vs + mo * vo);
    round_div_i128(n, 100 * (ms + mo))
}

fn bounded(x: i128, y: i128) -> (r: Option<Vec2>)
    ensures
        r == bounded_vec(x as int, y as int),
{
    if -(LIMIT as i128) <= x && x <= LIMIT as i128 && -(LIMIT as i128) <= y && y
        <= LIMIT as i128 {
        Some(Vec2 { x: x as i64, y: y as i64 })
    } else {
        None
    }
}

/// The velocity `current` takes on hitting `other`, rounded to hundredths;
/// `None` when it leaves the working range.
pub fn calculate_collision(current: &Particle, other: &Particle) -> (r: Option<Vec2>)
    requires
        valid_particle(*current),
        valid_particle(*other),
        within(current.velocity, LIMIT + MAX_DELTA),
        within(other.velocity, LIMIT + MAX_DELTA),
    ensures
        r == collision_velocity(*current, *other),
{
    let x = impulse(
        current.velocity.x,
        other.velocity.x,
        current.mass,
        other.mass,
        current.elasticity,
    );
    let y = impulse(
        current.velocity.y,
        other.velocity.y,
        current.mass,
        other.mass,
        current.elasticity,
    );
    bounded(x, y)
}

/// `k <= a * sqrt(2)` for `a >= 0`, stated without the root.
pub open spec fn at_most_sqrt2(k: int, a: int) -> bool {
    k <= 0 || k * k <= 2 * a * a
}

/// `r` is the nearest integer to `a * sqrt(2) / 200`, for `a >= 0`:
/// `200 * r - 100 <= a * sqrt(2) < 200 * r + 100`.
pub open spec fn is_round_sqrt2(r: int, a: int) -> bool {
    at_most_sqrt2(200 * r - 100, a) && !at_most_sqrt2(200 * r + 100, a)
}

/// The nearest integer to `a / (100 * sqrt(2))`, that is to
/// `a * sqrt(2) / 200`. For `a != 0` this is irrational, so no tie arises.
pub open spec fn round_sqrt2(a: int) -> int {
    if a >= 0 {
        nearest_sqrt2(a)
    } else {
        -nearest_sqrt2(-a)
    }
}

/// The nearest integer to `a * sqrt(2) / 200`, for `a >= 0`.
pub open spec fn nearest_sqrt2(a: int) -> int {
    choose|r: int| is_round_sqrt2(r, a)
}

proof fn lemma_round_sqrt2_unique(r1: int, r2: int, a: int)
    requires
        a >= 0,
        is_round_sqrt2(r1, a),
        is_round_sqrt2(r2, a),
    ensures
        r1 == r2,
{
    if r1 < r2 {
        let k1 = 200 * r1 + 100;
        let k2 = 200 * r2 - 100;
        assert(k1 <= k2);
        assert(k1 > 0 && k1 * k1 > 2 * a * a);
        assert(k2 * k2 >= k1 * k1) by (nonlinear_arith)
            requires 0 < k1 <= k2;
    } else if r2 < r1 {
        let k2 = 200 * r2 + 100;
        let k1 = 200 * r1 - 100;
        assert(k2 <= k1);
        assert(k1 * k1 >= k2 * k2) by (nonlinear_arith)
            requires 0 < k2 <= k1;
    }
}

/// The integer square root: the largest `m` with `m * m <= n`.
fn isqrt(n: u128) -> (m: u128)
    requires
        n < 0x10_0000_0000_0000_0000_0000_0000,
    ensures
        m * m <= n < (m + 1) * (m + 1),
{
    let mut lo: u128 = 0;
    let mut hi: u128 = 0x4_0000_0000_0000;
    assert(hi * hi == 0x10_0000_0000_0000_0000_0000_0000) by (nonlinear_arith)
        requires hi == 0x4_0000_0000_0000;
    while hi - lo > 1
        invariant
            lo < hi <= 0x4_0000_0000_0000,
            lo * lo <= n < hi * hi,
        decreases hi - lo,
    {
        let mid: u128 = lo + (hi - lo) / 2;
        assert(mid * mid <= 0x10_0000_0000_0000_0000_0000_0000) by (nonlinear_arith)
            requires mid <= 0x4_0000_0000_0000;
        if mid * mid <= n {
            lo = mid;
        } else {
            hi = mid;
        }
    }
    lo
}

/// The nearest integer to `a * sqrt(2) / 200`.
fn round_sqrt2_exec(a: i128) -> (r: i128)
    requires
        -100_000_000_000_000 <= a <= 100_000_000_000_000,
    ensures
        r as int == round_sqrt2(a as int),
        -0x4_0000_0000_0000 <= r <= 0x4_0000_0000_0000,
{
    let b: u128 = if a >= 0 { a as u128 } else { (-a) as u128 };
    assert(2 * b * b < 0x10_0000_0000_0000_0000_0000_0000) by (nonlinear_arith)
        requires b <= 100_000_000_000_000;
    let m = isqrt(2 * b * b);
    assert(m <= 0x4_0000_0000_0000) by (nonlinear_arith)
        requires m * m <= 2 * b * b, 2 * b * b < 0x10_0000_0000_0000_0000_0000_0000;
    let q: u128 = (m + 100) / 200;
    proof {
        let qi = q as int;
        let mi = m as int;
        let bi = b as int;
        assert(200 * qi <= mi + 100 < 200 * qi + 200);
        let k1 = 200 * qi - 100;
        let k2 = 200 * qi + 100;
        if k1 > 0 {
            assert(k1 * k1 <= mi * mi) by (nonlinear_arith)
                requires 0 < k1 <= mi;
        }
        assert(k2 * k2 >= (mi + 1) * (mi + 1)) by (nonlinear_arith)
            requires 0 < mi + 1 <= k2;
        assert(is_round_sqrt2(qi, bi));
        let c = choose|r: int| is_round_sqrt2(r, bi);
        lemma_round_sqrt2_unique(c, qi, bi);
    }
    if a >= 0 {
        q as i128
    } else {
        -(q as i128)
    }
}

/// A wall normal: each component in `{-1, 0, 1}`, not both zero.
pub open spec fn valid_normal(n: IVec2) -> bool {
    -1 <= n.x <= 1 && -1 <= n.y <= 1 && !(n.x == 0 && n.y == 0)
}

/// One component of a velocity reflected off a wall: `v` is the component,
/// `dot` the velocity's dot product with the normal, `n` the normal's
/// component, `e` the elasticity, all in hundredths. This is
/// `v - (1 + e) * dot * n / |normal|` rounded to hundredths, where
/// `|normal|` is `1` on an axis and `sqrt(2)` at a corner.
pub open spec fn reflect_component(v: int, dot: int, n: int, e: int, corner: bool) -> int {
    if corner {
        v - round_sqrt2((100 + e) * dot * n)
    } else {
        round_div(100 * v - (100 + e) * dot * n, 100)
    }
}

/// The velocity of `p` reflected off a wall with inward normal `n`, when it
/// fits the working range.
pub open spec fn reflected_velocity(p: Particle, n: IVec2) -> Option<Vec2> {
    let dot = p.velocity.x * n.x + p.velocity.y * n.y;
    let corner = n.x != 0 && n.y != 0;
    bounded_vec(
        reflect_component(p.velocity.x as int, dot, n.x as int, p.elasticity as int, corner),
        reflect_component(p.velocity.y as int, dot, n.y as int, p.elasticity as int, corner),
    )
}

fn signed(v: i64, n: i64) -> (r: i128)
    requires
        -(LIMIT + MAX_DELTA) <= v <= LIMIT + MAX_DELTA,
        -1 <= n <= 1,
    ensures
        r == v * n,
        -(LIMIT + MAX_DELTA) <= r <= LIMIT + MAX_DELTA,
{
    if n > 0 {
        assert(v * n == v) by (nonlinear_arith)
            requires n == 1;
        v as i128
    } else if n < 0 {
        assert(v * n == -v) by (nonlinear_arith)
            requires n == -1;
        -(v as i128)
    } else {
        assert(v * n == 0) by (nonlinear_arith)
            requires n == 0;
        0
    }
}

fn reflect_axis(v: i64, dot: i128, n: i64, e: u64, corner: bool) -> (r: i128)
    requires
        -(LIMIT + MAX_DELTA) <= v <= LIMIT + MAX_DELTA,
        -2 * (LIMIT + MAX_DELTA) <= dot <= 2 * (LIMIT + MAX_DELTA),
        -1 <= n <= 1,
        e <= 100,
    ensures
        r as int == reflect_component(v as int, dot as int, n as int, e as int, corner),
{
    let f: i128 = 100 + e as i128;
    assert(-100_000_000_000_000 <= f * dot <= 100_000_000_000_000) by (nonlinear_arith)
        requires
            100 <= f <= 200,
            -200_002_000_000 <= dot <= 200_002_000_000,
    ;
    let k: i128 = f * dot;
    let a: i128 = if n > 0 { k } else if n < 0 { -k } else { 0 };
    assert(a == (100 + e) * dot * n) by (nonlinear_arith)
        requires
            k == (100 + e) * dot,
            n > 0 ==> a == k && n == 1,
            n < 0 ==> a == -k && n == -1,
            n == 0 ==> a == 0,
    ;
    if corner {
        v as i128 - round_sqrt2_exec(a)
    } else {
        round_div_i128(100 * (v as i128) - a, 100)
    }
}

/// The velocity of `p` after bouncing off a wall with inward normal `n`,
/// rounded to hundredths; `None` when it leaves the working range.
pub fn reflect(p: &Particle, n: IVec2) -> (r: Option<Vec2>)
    requires
        valid_particle(*p),
        valid_normal(n),
        within(p.velocity, LIMIT + MAX_DELTA),
    ensures
        r == reflected_velocity(*p, n),
{
    let dx: i128 = signed(p.velocity.x, n.x);
    let dy: i128 = signed(p.velocity.y, n.y);
    let dot: i128 = dx + dy;
    let corner = n.x != 0 && n.y != 0;
    let x = reflect_axis(p.velocity.x, dot, n.x, p.elasticity, corner);
    let y = reflect_axis(p.velocity.y, dot, n.y, p.elasticity, corner);
    bounded(x, y)
}

} // verus!
