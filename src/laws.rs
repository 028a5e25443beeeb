use crate::bounds::Rect;
use crate::geometry::{cell_of, IVec2};
use crate::geometry::round_div;
use crate::particle::{impulse_numerator, reflect_component, Particle, ParticleCollisionEvent};
use crate::tick::{already_paired, discovered, moved, moved_cells, predicted_event, with_gravity};
use vstd::prelude::*;

verus! {

/// Every cell in the index names an existing particle whose position lies
/// in that cell.
pub open spec fn index_consistent(cells: Map<IVec2, usize>, ps: Seq<Particle>) -> bool {
    forall|c: IVec2| #[trigger]
        cells.contains_key(c) ==> cells[c] < ps.len() && cell_of(ps[cells[c] as int].position)
            == c
}

/// The particles after the first `n` of them moved.
pub open spec fn moved_prefix(ps: Seq<Particle>, n: nat) -> Seq<Particle> {
    Seq::new(ps.len(), |k: int| if k < n { moved(ps[k]) } else { ps[k] })
}

proof fn lemma_movement_prefix(cells: Map<IVec2, usize>, ps: Seq<Particle>, n: nat)
    requires
        index_consistent(cells, ps),
        n <= ps.len() <= usize::MAX,
    ensures
        index_consistent(moved_cells(cells, ps, n), moved_prefix(ps, n)),
    decreases n,
{
    if n == 0 {
        assert(moved_prefix(ps, 0) =~= ps);
    } else {
        let i = (n - 1) as int;
        lemma_movement_prefix(cells, ps, (n - 1) as nat);
        let m = moved_cells(cells, ps, (n - 1) as nat);
        let before = moved_prefix(ps, (n - 1) as nat);
        let after = moved_prefix(ps, n);
        assert(before[i] == ps[i]);
        assert(after =~= before.update(i, moved(ps[i])));
        let cur = cell_of(ps[i].position);
        let next = cell_of(moved(ps[i]).position);
        let r = moved_cells(cells, ps, n);
        if cur != next {
            let cleared = if m.contains_key(cur) && m[cur] == i as usize {
                m.remove(cur)
            } else {
                m
            };
            assert forall|c: IVec2| #[trigger] cleared.contains_key(c) implies cleared[c] != i by {
                if cleared[c] == i {
                    assert(m.contains_key(c) && m[c] == i);
                    assert(c == cur);
                }
            }
            assert(r == cleared.insert(next, i as usize));
            assert forall|c: IVec2| #[trigger] r.contains_key(c) implies r[c] < after.len()
                && cell_of(after[r[c] as int].position) == c by {
                if c != next {
                    assert(cleared.contains_key(c));
                    assert(m.contains_key(c) && m[c] == cleared[c]);
                    assert(r[c] == m[c] && m[c] != i);
                    assert(after[r[c] as int] == before[m[c] as int]);
                } else {
                    assert(r[c] == i as usize);
                    assert(after[i] == moved(ps[i]));
                }
            }
        } else {
            assert(r == m);
            assert forall|c: IVec2| #[trigger] r.contains_key(c) implies r[c] < after.len()
                && cell_of(after[r[c] as int].position) == c by {
                assert(m.contains_key(c));
            }
        }
    }
}

/// Movement keeps the index truthful: when every cell of the index names a
/// particle lying in that cell before the particles move, the same holds of
/// the index and the particles after they move.
pub proof fn lemma_movement_keeps_index(cells: Map<IVec2, usize>, ps: Seq<Particle>)
    requires
        index_consistent(cells, ps),
        ps.len() <= usize::MAX,
    ensures
        index_consistent(moved_cells(cells, ps, ps.len()), ps.map_values(|p: Particle| moved(p))),
{
    lemma_movement_prefix(cells, ps, ps.len());
    assert(moved_prefix(ps, ps.len()) =~= ps.map_values(|p: Particle| moved(p)));
}

/// Two pair events on the same two particles, in either order.
pub open spec fn same_pair(e1: ParticleCollisionEvent, e2: ParticleCollisionEvent) -> bool {
    match (e1, e2) {
        (ParticleCollisionEvent::Particle(a, b), ParticleCollisionEvent::Particle(c, d)) => (a == c
            && b == d) || (a == d && b == c),
        _ => false,
    }
}

/// One discovery pass emits at most one event for each pair of particles,
/// whichever of the two predicted the contact and in whichever order.
pub proof fn lemma_discovery_pairs_once(
    ps: Seq<Particle>,
    bounds: Rect,
    cells: Map<IVec2, usize>,
    delta: int,
    n: nat,
)
    requires
        n <= ps.len(),
    ensures
        forall|i: int, j: int|
            0 <= i < j < discovered(ps, bounds, cells, delta, n).len() ==> !same_pair(
                #[trigger] discovered(ps, bounds, cells, delta, n)[i],
                #[trigger] discovered(ps, bounds, cells, delta, n)[j],
            ),
    decreases n,
{
    if n > 0 {
        lemma_discovery_pairs_once(ps, bounds, cells, delta, (n - 1) as nat);
        let evs = discovered(ps, bounds, cells, delta, (n - 1) as nat);
        let all = discovered(ps, bounds, cells, delta, n);
        let k = (n - 1) as int;
        match predicted_event(k as usize, with_gravity(ps[k], delta), bounds, cells) {
            Some(ParticleCollisionEvent::Particle(a, b)) => {
                if !already_paired(evs, a, b) {
                    assert forall|i: int| 0 <= i < evs.len() implies !same_pair(
                        evs[i],
                        ParticleCollisionEvent::Particle(a, b),
                    ) by {
                        if same_pair(evs[i], ParticleCollisionEvent::Particle(a, b)) {
                            assert(evs.contains(evs[i]));
                        }
                    }
                    assert forall|i: int, j: int| 0 <= i < j < all.len() implies !same_pair(
                        #[trigger] all[i],
                        #[trigger] all[j],
                    ) by {
                        if j == evs.len() {
                            assert(all[i] == evs[i]);
                        } else {
                            assert(all[i] == evs[i] && all[j] == evs[j]);
                        }
                    }
                }
            },
            Some(ev) => {
                assert forall|i: int, j: int| 0 <= i < j < all.len() implies !same_pair(
                    #[trigger] all[i],
                    #[trigger] all[j],
                ) by {
                    if j < evs.len() {
                        assert(all[i] == evs[i] && all[j] == evs[j]);
                    }
                }
            },
            None => {},
        }
    }
}

/// In a collision of two particles of one elasticity `e` (in hundredths,
/// within `[0, 100]`), the exact impulse velocities, before rounding, carry no
/// more kinetic energy along an axis than the velocities before: with
/// `na / s` and `nb / s` the new velocities,
/// `ma * na^2 + mb * nb^2 <= s^2 * (ma * va^2 + mb * vb^2)`. Energy is kept
/// exactly at full elasticity, and lost whenever `e < 100` and the particles
/// approach with different velocities.
pub proof fn lemma_collision_energy_bound(va: int, vb: int, ma: int, mb: int, e: int)
    requires
        ma > 0,
        mb > 0,
        0 <= e <= 100,
    ensures
        ({
            let na = impulse_numerator(va, vb, ma, mb, e);
            let nb = impulse_numerator(vb, va, mb, ma, e);
            let s = 100 * (ma + mb);
            &&& ma * na * na + mb * nb * nb <= s * s * (ma * va * va + mb * vb * vb)
            &&& e == 100 ==> ma * na * na + mb * nb * nb == s * s * (ma * va * va + mb * vb * vb)
            &&& e < 100 && va != vb ==> ma * na * na + mb * nb * nb < s * s * (ma * va * va + mb
                * vb * vb)
        }),
{
    let na = impulse_numerator(va, vb, ma, mb, e);
    let nb = impulse_numerator(vb, va, mb, ma, e);
    let s = 100 * (ma + mb);
    let m = ma + mb;
    let p = ma * va + mb * vb;
    let u = vb - va;
    assert(na == 100 * p + e * mb * u) by (nonlinear_arith)
        requires na == e * mb * (vb - va) + 100 * (ma * va + mb * vb), p == ma * va + mb * vb, u == vb - va;
    assert(nb == 100 * p - e * ma * u) by (nonlinear_arith)
        requires nb == e * ma * (va - vb) + 100 * (mb * vb + ma * va), p == ma * va + mb * vb, u == vb - va;
    let lhs = ma * na * na + mb * nb * nb;
    let rhs = s * s * (ma * va * va + mb * vb * vb);
    let w = e * u;
    let q = ma * mb;
    let uu = u * u;
    let a = 100 * p;
    let x = mb * w;
    let y = ma * w;
    assert(na == a + x) by (nonlinear_arith)
        requires na == 100 * p + e * mb * u, a == 100 * p, x == mb * w, w == e * u;
    assert(nb == a - y) by (nonlinear_arith)
        requires nb == 100 * p - e * ma * u, a == 100 * p, y == ma * w, w == e * u;
    lemma_square_sum(a, x);
    lemma_square_sum(a, -y);
    let a2 = a * a;
    let x2 = x * x;
    let y2 = y * y;
    let ax = a * x;
    let ay = a * y;
    assert(na * na == a2 + 2 * ax + x2);
    assert((-y) * (-y) == y2 && a * -y == -ay) by (nonlinear_arith)
        requires y2 == y * y, ay == a * y;
    assert(nb * nb == a2 - 2 * ay + y2);
    lemma_distribute3(ma, a2, 2 * ax, x2);
    lemma_distribute3(mb, a2, -2 * ay, y2);
    assert(lhs == ma * (na * na) + mb * (nb * nb)) by (nonlinear_arith)
        requires lhs == ma * na * na + mb * nb * nb;
    assert(ma * (2 * ax) - mb * (2 * ay) == 0) by (nonlinear_arith)
        requires ax == a * x, ay == a * y, x == mb * w, y == ma * w;
    assert(mb * (-2 * ay) == -(mb * (2 * ay))) by (nonlinear_arith);
    assert(ma * x2 == q * mb * (w * w)) by (nonlinear_arith)
        requires x2 == x * x, x == mb * w, q == ma * mb;
    assert(mb * y2 == q * ma * (w * w)) by (nonlinear_arith)
        requires y2 == y * y, y == ma * w, q == ma * mb;
    lemma_distribute2(q * (w * w), mb, ma);
    lemma_distribute2(a2, ma, mb);
    assert(q * mb * (w * w) + q * ma * (w * w) == q * (w * w) * m) by (nonlinear_arith)
        requires
            (q * (w * w)) * (mb + ma) == (q * (w * w)) * mb + (q * (w * w)) * ma,
            m == ma + mb,
    ;
    assert(ma * a2 + mb * a2 == m * a2) by (nonlinear_arith)
        requires a2 * (ma + mb) == a2 * ma + a2 * mb, m == ma + mb;
    assert(w * w == e * e * uu) by (nonlinear_arith)
        requires w == e * u, uu == u * u;
    assert(lhs == m * a2 + q * m * (e * e * uu)) by (nonlinear_arith)
        requires
            lhs == ma * (a2 + 2 * ax + x2) + mb * (a2 - 2 * ay + y2),
            ma * (a2 + 2 * ax + x2) == ma * a2 + ma * (2 * ax) + ma * x2,
            mb * (a2 + -2 * ay + y2) == mb * a2 + mb * (-2 * ay) + mb * y2,
            ma * (2 * ax) - mb * (2 * ay) == 0,
            mb * (-2 * ay) == -(mb * (2 * ay)),
            ma * x2 == q * mb * (w * w),
            mb * y2 == q * ma * (w * w),
            q * mb * (w * w) + q * ma * (w * w) == q * (w * w) * m,
            ma * a2 + mb * a2 == m * a2,
            w * w == e * e * uu,
    ;
    let sa = ma * va * va;
    let sb = mb * vb * vb;
    lemma_distribute2(m, sa, sb);
    assert(m * sa == ma * ma * (va * va) + q * (va * va)) by (nonlinear_arith)
        requires sa == ma * va * va, m == ma + mb, q == ma * mb;
    assert(m * sb == q * (vb * vb) + mb * mb * (vb * vb)) by (nonlinear_arith)
        requires sb == mb * vb * vb, m == ma + mb, q == ma * mb;
    lemma_square_sum(ma * va, mb * vb);
    assert((ma * va) * (ma * va) == ma * ma * (va * va)) by (nonlinear_arith);
    assert((mb * vb) * (mb * vb) == mb * mb * (vb * vb)) by (nonlinear_arith);
    assert((ma * va) * (mb * vb) == q * (va * vb)) by (nonlinear_arith)
        requires q == ma * mb;
    lemma_square_sum(vb, -va);
    assert(uu == vb * vb - 2 * (va * vb) + va * va) by (nonlinear_arith)
        requires
            uu == u * u,
            u == vb + -va,
            (vb + -va) * (vb + -va) == vb * vb + 2 * (vb * -va) + (-va) * (-va),
    ;
    lemma_distribute3(q, vb * vb, -2 * (va * vb), va * va);
    assert(q * (-2 * (va * vb)) == -2 * (q * (va * vb))) by (nonlinear_arith);
    assert(m * (ma * va * va + mb * vb * vb) == p * p + q * uu) by (nonlinear_arith)
        requires
            m * (sa + sb) == m * sa + m * sb,
            sa == ma * va * va,
            sb == mb * vb * vb,
            m * sa == ma * ma * (va * va) + q * (va * va),
            m * sb == q * (vb * vb) + mb * mb * (vb * vb),
            p == ma * va + mb * vb,
            p * p == (ma * va) * (ma * va) + 2 * ((ma * va) * (mb * vb)) + (mb * vb) * (mb * vb),
            (ma * va) * (ma * va) == ma * ma * (va * va),
            (mb * vb) * (mb * vb) == mb * mb * (vb * vb),
            (ma * va) * (mb * vb) == q * (va * vb),
            uu == vb * vb - 2 * (va * vb) + va * va,
            q * (vb * vb + -2 * (va * vb) + va * va) == q * (vb * vb) + q * (-2 * (va * vb)) + q
                * (va * va),
            q * (-2 * (va * vb)) == -2 * (q * (va * vb)),
    ;
    assert(a2 == 10000 * (p * p)) by (nonlinear_arith)
        requires a2 == a * a, a == 100 * p;
    assert(rhs == m * a2 + 10000 * m * q * uu) by (nonlinear_arith)
        requires
            rhs == s * s * (ma * va * va + mb * vb * vb),
            s == 100 * m,
            m * (ma * va * va + mb * vb * vb) == p * p + q * uu,
            a2 == 10000 * (p * p),
    ;
    let g = m * q * uu;
    assert(rhs - lhs == g * (10000 - e * e)) by (nonlinear_arith)
        requires
            rhs == m * a2 + 10000 * m * q * uu,
            lhs == m * a2 + q * m * (e * e * uu),
            g == m * q * uu,
    ;
    assert(q > 0) by (nonlinear_arith)
        requires q == ma * mb, ma > 0, mb > 0;
    assert(uu >= 0) by (nonlinear_arith)
        requires uu == u * u;
    assert(g >= 0) by (nonlinear_arith)
        requires g == m * q * uu, m > 0, q > 0, uu >= 0;
    assert(0 <= e * e <= 10000) by (nonlinear_arith)
        requires 0 <= e <= 100;
    assert(g * (10000 - e * e) >= 0) by (nonlinear_arith)
        requires g >= 0, e * e <= 10000;
    if e == 100 {
        assert(e * e == 10000) by (nonlinear_arith)
            requires e == 100;
    }
    if e < 100 && va != vb {
        assert(uu > 0) by (nonlinear_arith)
            requires uu == u * u, u != 0;
        assert(g > 0) by (nonlinear_arith)
            requires g == m * q * uu, m > 0, q > 0, uu > 0;
        assert(e * e < 10000) by (nonlinear_arith)
            requires 0 <= e < 100;
        assert(g * (10000 - e * e) > 0) by (nonlinear_arith)
            requires g > 0, e * e < 10000;
        assert(lhs < rhs);
    }
    assert(lhs <= rhs);
    assert(e == 100 ==> lhs == rhs) by (nonlinear_arith)
        requires rhs - lhs == g * (10000 - e * e);
}

/// A particle moving into a wall along one axis (`v` against the inward
/// normal `n`) leaves with that component pointing away from the wall, or
/// stopped, and no faster than before: elasticity never adds speed.
pub proof fn lemma_wall_reflection(v: int, n: int, e: int)
    requires
        n == 1 || n == -1,
        v * n < 0,
        0 <= e <= 100,
    ensures
        ({
            let r = reflect_component(v, v * n, n, e, false);
            &&& r * n >= 0
            &&& r * n <= -(v * n)
        }),
{
    let r = reflect_component(v, v * n, n, e, false);
    let t = 100 * v - (100 + e) * (v * n) * n;
    assert(t == -(e * v)) by (nonlinear_arith)
        requires t == 100 * v - (100 + e) * (v * n) * n, n * n == 1;
    let w = -(v * n);
    assert(w > 0);
    assert(e * w <= 100 * w) by (nonlinear_arith)
        requires 0 <= e <= 100, w > 0;
    assert(e * w >= 0) by (nonlinear_arith)
        requires 0 <= e, w > 0;
    if n == 1 {
        assert(w == -v);
        assert(-(e * v) == e * w) by (nonlinear_arith)
            requires w == -v;
        assert(r == round_div(e * w, 100));
        assert(r == (2 * (e * w) + 100) / 200);
        assert(0 <= r <= w);
        assert(r * n == r);
    } else {
        assert(w == v);
        assert(r == round_div(-(e * w), 100));
        if e * w == 0 {
            assert(r == 0);
        } else {
            assert(r == -((2 * (e * w) + 100) / 200));
        }
        assert(-w <= r <= 0);
        assert(r * n == -r);
    }
}

proof fn lemma_distribute2(k: int, a: int, b: int)
    ensures
        k * (a + b) == k * a + k * b,
{
    assert(k * (a + b) == k * a + k * b) by (nonlinear_arith);
}

proof fn lemma_distribute3(k: int, a: int, b: int, c: int)
    ensures
        k * (a + b + c) == k * a + k * b + k * c,
{
    assert(k * (a + b + c) == k * a + k * b + k * c) by (nonlinear_arith);
}

proof fn lemma_square_sum(a: int, b: int)
    ensures
        (a + b) * (a + b) == a * a + 2 * (a * b) + b * b,
{
    assert((a + b) * (a + b) == a * a + 2 * (a * b) + b * b) by (nonlinear_arith);
}

} // verus!
