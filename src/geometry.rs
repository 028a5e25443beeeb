use vstd::arithmetic::div_mod::lemma_fundamental_div_mod_converse;
use vstd::prelude::*;

verus! {

/// Hundredths in one unit: the fixed-point scale of positions and velocities.
pub const SCALE: i64 = 100;

/// Largest magnitude of a position or velocity component that the engine
/// computes with, in hundredths. Every cell reached from such values fits an
/// `i32`, and every product in the collision formula fits an `i128`.
pub const LIMIT: i64 = 100_000_000_000;

/// Largest velocity change that gravity may apply in one pass, in hundredths.
pub const MAX_DELTA: i64 = 1_000_000;

/// A 2D vector in hundredths of a unit.
#[derive(Clone, Copy, Debug, PartialEq, Eq, Structural)]
pub struct Vec2 {
    pub x: i64,
    pub y: i64,
}

/// An integer 2D vector: a cell coordinate, or a wall normal.
#[derive(Clone, Copy, Debug, PartialEq, Eq, Structural)]
pub struct IVec2 {
    pub x: i64,
    pub y: i64,
}

/// The zero vector.
pub open spec fn is_zero(v: Vec2) -> bool {
    v.x == 0 && v.y == 0
}

/// Both components of `v` lie within `[-bound, bound]`.
pub open spec fn within(v: Vec2, bound: int) -> bool {
    -bound <= v.x <= bound && -bound <= v.y <= bound
}

/// The component-wise sum of two vectors.
pub open spec fn add_vec(a: Vec2, b: Vec2) -> Vec2 {
    Vec2 { x: (a.x + b.x) as i64, y: (a.y + b.y) as i64 }
}

/// The cell that a coordinate in hundredths falls in: floor of `a / 100`.
pub open spec fn floor_unit(a: int) -> int {
    a / 100
}

/// The cell that a position lies in.
pub open spec fn cell_of(p: Vec2) -> IVec2 {
    IVec2 { x: floor_unit(p.x as int) as i64, y: floor_unit(p.y as int) as i64 }
}

/// `n / d` rounded to the nearest integer, halves away from zero.
pub open spec fn round_div(n: int, d: int) -> int
    recommends
        d > 0,
{
    if n >= 0 {
        (2 * n + d) / (2 * d)
    } else {
        -((-2 * n + d) / (2 * d))
    }
}

/// Floor of a coordinate in hundredths, as a cell coordinate.
pub fn floor_to_cell(a: i64) -> (r: i64)
    ensures
        r as int == floor_unit(a as int),
{
    if a >= 0 {
        a / SCALE
    } else {
        let b: i64 = -(a + 1);
        let q: i64 = b / SCALE;
        proof {
            let r = b % 100;
            lemma_fundamental_div_mod_converse(b as int, 100, q as int, r as int);
            assert(b == q * 100 + r) by (nonlinear_arith)
                requires b >= 0, q == b / 100, r == b % 100;
            lemma_fundamental_div_mod_converse(a as int, 100, -q - 1, 99 - r);
        }
        -q - 1
    }
}

/// The cell that a position lies in.
pub fn cell_at(p: Vec2) -> (r: IVec2)
    ensures
        r == cell_of(p),
{
    IVec2 { x: floor_to_cell(p.x), y: floor_to_cell(p.y) }
}

/// The sum of two vectors whose components lie within `LIMIT + MAX_DELTA`.
pub fn add_vectors(a: Vec2, b: Vec2) -> (r: Vec2)
    requires
        within(a, LIMIT + MAX_DELTA),
        within(b, LIMIT + MAX_DELTA),
    ensures
        r == add_vec(a, b),
{
    Vec2 { x: a.x + b.x, y: a.y + b.y }
}

/// `n / d` rounded to the nearest integer, halves away from zero.
pub fn round_div_i128(n: i128, d: i128) -> (r: i128)
    requires
        d > 0,
        -0x1000_0000_0000_0000_0000_0000_0000 <= n <= 0x1000_0000_0000_0000_0000_0000_0000,
        d <= 0x1000_0000_0000_0000_0000_0000_0000,
    ensures
        r as int == round_div(n as int, d as int),
{
    if n >= 0 {
        (2 * n + d) / (2 * d)
    } else {
        let m: i128 = -n;
        -((2 * m + d) / (2 * d))
    }
}

} // verus!
