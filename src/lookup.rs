use crate::bounds::Rect;
use crate::geometry::IVec2;
use vstd::prelude::*;

verus! {

/// bevy's hash map from packed cell key to particle identifier, held so that
/// the index can name what it contains.
#[verifier::external_body]
pub struct CellTable {
    map: bevy::utils::HashMap<u64, usize>,
}

/// What a cell table holds: packed cell key to particle identifier.
pub uninterp spec fn table_entries(t: CellTable) -> Map<u64, usize>;

/// Relies on bevy::utils::HashMap's `Default` (hashbrown): a map with no
/// entries.
#[verifier::external_body]
fn table_new() -> (r: CellTable)
    ensures
        table_entries(r).dom() == Set::<u64>::empty(),
{
    CellTable { map: bevy::utils::HashMap::default() }
}

/// Relies on hashbrown's `HashMap::get`: the value stored under `k`, if any.
#[verifier::external_body]
fn table_get(t: &CellTable, k: u64) -> (r: Option<usize>)
    ensures
        r == table_entries(*t).get(k),
{
    t.map.get(&k).copied()
}

/// Relies on hashbrown's `HashMap::insert`: `k` then maps to `v`, other keys
/// keep their values.
#[verifier::external_body]
fn table_insert(t: &mut CellTable, k: u64, v: usize)
    ensures
        table_entries(*final(t)) == table_entries(*old(t)).insert(k, v),
{
    t.map.insert(k, v);
}

/// Relies on hashbrown's `HashMap::remove`: `k` no longer maps to anything,
/// other keys keep their values.
#[verifier::external_body]
fn table_remove(t: &mut CellTable, k: u64)
    ensures
        table_entries(*final(t)) == table_entries(*old(t)).remove(k),
{
    t.map.remove(&k);
}

/// A cell whose coordinates both fit an `i32`: the cells the index can hold.
pub open spec fn valid_cell(c: IVec2) -> bool {
    i32::MIN <= c.x <= i32::MAX && i32::MIN <= c.y <= i32::MAX
}

/// The key under which a valid cell is stored: its two coordinates, each
/// offset to be non-negative, packed into one `u64`.
pub open spec fn cell_key(c: IVec2) -> u64 {
    ((c.x + 0x8000_0000) * 0x1_0000_0000 + (c.y + 0x8000_0000)) as u64
}

proof fn lemma_cell_key_injective(a: IVec2, b: IVec2)
    requires
        valid_cell(a),
        valid_cell(b),
        cell_key(a) == cell_key(b),
    ensures
        a == b,
{
    let ax = a.x + 0x8000_0000;
    let ay = a.y + 0x8000_0000;
    let bx = b.x + 0x8000_0000;
    let by = b.y + 0x8000_0000;
    assert(0 <= ax * 0x1_0000_0000 + ay < 0x1_0000_0000_0000_0000) by (nonlinear_arith)
        requires 0 <= ax < 0x1_0000_0000, 0 <= ay < 0x1_0000_0000;
    assert(0 <= bx * 0x1_0000_0000 + by < 0x1_0000_0000_0000_0000) by (nonlinear_arith)
        requires 0 <= bx < 0x1_0000_0000, 0 <= by < 0x1_0000_0000;
    assert(ax == bx && ay == by) by (nonlinear_arith)
        requires
            0 <= ax < 0x1_0000_0000,
            0 <= ay < 0x1_0000_0000,
            0 <= bx < 0x1_0000_0000,
            0 <= by < 0x1_0000_0000,
            ax * 0x1_0000_0000 + ay == bx * 0x1_0000_0000 + by,
    ;
}

fn key_of(c: IVec2) -> (r: u64)
    requires
        valid_cell(c),
    ensures
        r == cell_key(c),
{
    let x: u64 = (c.x + 0x8000_0000) as u64;
    let y: u64 = (c.y + 0x8000_0000) as u64;
    assert(x * 0x1_0000_0000 + y < 0x1_0000_0000_0000_0000) by (nonlinear_arith)
        requires x < 0x1_0000_0000, y < 0x1_0000_0000;
    x * 0x1_0000_0000 + y
}

/// The spatial index: which particle occupies which cell, and the playable
/// area.
pub struct ParticleLookup {
    bounds: Rect,
    particles: CellTable,
}

impl ParticleLookup {
    /// The playable area.
    pub closed spec fn area(&self) -> Rect {
        self.bounds
    }

    /// The occupancy map from cell to particle identifier.
    pub closed spec fn cells(&self) -> Map<IVec2, usize> {
        Map::new(
            |c: IVec2| valid_cell(c) && table_entries(self.particles).contains_key(cell_key(c)),
            |c: IVec2| table_entries(self.particles)[cell_key(c)],
        )
    }

    /// An empty index over the area `width` by `height` units, centred on the
    /// origin.
    pub fn new(width: i32, height: i32) -> (r: Self)
        ensures
            r.area() == (Rect {
                left: (-50 * width) as i64,
                right: (50 * width) as i64,
                top: (50 * height) as i64,
                bottom: (-50 * height) as i64,
            }),
            r.cells() == Map::<IVec2, usize>::empty(),
    {
        let w: i64 = width as i64;
        let h: i64 = height as i64;
        let r = ParticleLookup {
            bounds: Rect { left: -(50 * w), right: 50 * w, top: 50 * h, bottom: -(50 * h) },
            particles: table_new(),
        };
        assert(r.cells() =~= Map::<IVec2, usize>::empty());
        r
    }

    /// The playable area.
    pub fn bounds(&self) -> (r: Rect)
        ensures
            r == self.area(),
    {
        self.bounds
    }

    /// The particle recorded at `cell`, if any.
    pub fn get(&self, cell: IVec2) -> (r: Option<usize>)
        requires
            valid_cell(cell),
        ensures
            r == self.cells().get(cell),
    {
        let k = key_of(cell);
        table_get(&self.particles, k)
    }

    /// Records `id` at `cell`, replacing what was there.
    pub fn insert(&mut self, cell: IVec2, id: usize)
        requires
            valid_cell(cell),
        ensures
            final(self).cells() == old(self).cells().insert(cell, id),
            final(self).area() == old(self).area(),
    {
        let k = key_of(cell);
        table_insert(&mut self.particles, k, id);
        proof {
            assert forall|c: IVec2| valid_cell(c) && c != cell implies cell_key(c) != k by {
                if cell_key(c) == k {
                    lemma_cell_key_injective(c, cell);
                }
            }
        }
        assert(self.cells() =~= old(self).cells().insert(cell, id));
    }

    /// Clears `cell`.
    pub fn remove(&mut self, cell: IVec2)
        requires
            valid_cell(cell),
        ensures
            final(self).cells() == old(self).cells().remove(cell),
            final(self).area() == old(self).area(),
    {
        let k = key_of(cell);
        table_remove(&mut self.particles, k);
        proof {
            assert forall|c: IVec2| valid_cell(c) && c != cell implies cell_key(c) != k by {
                if cell_key(c) == k {
                    lemma_cell_key_injective(c, cell);
                }
            }
        }
        assert(self.cells() =~= old(self).cells().remove(cell));
    }
}

} // verus!
