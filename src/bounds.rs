use crate::geometry::{IVec2, Vec2};
use vstd::prelude::*;

verus! {

/// An axis-aligned rectangle with edges in hundredths of a unit.
#[derive(Clone, Copy, Debug, PartialEq, Eq, Structural)]
pub struct Rect {
    pub left: i64,
    pub right: i64,
    pub top: i64,
    pub bottom: i64,
}

/// The inward normal on one axis: `1` below `lo`, `-1` above `hi`, else `0`.
pub open spec fn axis_normal(v: int, lo: int, hi: int) -> int {
    if v < lo {
        1
    } else if v > hi {
        -1
    } else {
        0
    }
}

/// Where `point` lies outside the rectangle spanned by `lo` and `hi`: the
/// inward normal, with the two axes combined; `None` when it lies inside.
pub open spec fn outside_normal(lo: Vec2, hi: Vec2, point: Vec2) -> Option<IVec2> {
    let nx = axis_normal(point.x as int, lo.x as int, hi.x as int);
    let ny = axis_normal(point.y as int, lo.y as int, hi.y as int);
    if nx == 0 && ny == 0 {
        None
    } else {
        Some(IVec2 { x: nx as i64, y: ny as i64 })
    }
}

/// A rectangular area that points can fall outside of.
pub trait BoundsExt {
    /// The lower-left corner.
    spec fn lower(&self) -> Vec2;

    /// The upper-right corner.
    spec fn upper(&self) -> Vec2;

    /// The inward normal at `point` when it lies outside, else `None`.
    fn outside(&self, point: Vec2) -> (r: Option<IVec2>)
        ensures
            r == outside_normal(self.lower(), self.upper(), point),
    ;

    /// The lower-left corner.
    fn min(&self) -> (r: Vec2)
        ensures
            r == self.lower(),
    ;

    /// The upper-right corner.
    fn max(&self) -> (r: Vec2)
        ensures
            r == self.upper(),
    ;
}

impl BoundsExt for Rect {
    open spec fn lower(&self) -> Vec2 {
        Vec2 { x: self.left, y: self.bottom }
    }

    open spec fn upper(&self) -> Vec2 {
        Vec2 { x: self.right, y: self.top }
    }

    fn outside(&self, point: Vec2) -> (r: Option<IVec2>) {
        let mut normal = IVec2 { x: 0, y: 0 };
        if point.x < self.left {
            normal.x = 1;
        } else if point.x > self.right {
            normal.x = -1;
        }
        if point.y < self.bottom {
            normal.y = 1;
        } else if point.y > self.top {
            normal.y = -1;
        }
        if normal.x != 0 || normal.y != 0 {
            Some(normal)
        } else {
            None
        }
    }

    fn min(&self) -> (r: Vec2) {
        Vec2 { x: self.left, y: self.bottom }
    }

    fn max(&self) -> (r: Vec2) {
        Vec2 { x: self.right, y: self.top }
    }
}

} // verus!
