use vstd::prelude::*;

verus! {

/// Edge length of a region, in cells.
pub const CHUNK_SIZE: usize = 16;

/// Edge length of a region as a signed world-space quantity.
pub const CHUNK_EDGE: i32 = 16;

/// Floor division by the region edge (toward negative infinity).
pub open spec fn floor_div_edge(a: int) -> int {
    a / 16
}

/// Identifies a region in the grid of regions.
#[derive(Debug, Clone, Copy, PartialEq, Eq, Hash, Structural)]
pub struct ChunkPos {
    pub x: i32,
    pub y: i32,
    pub z: i32,
}

/// World coordinates of a cell, in whole cells.
#[derive(Debug, Clone, Copy, PartialEq, Eq, Hash, Structural)]
pub struct WorldPos {
    pub x: i64,
    pub y: i64,
    pub z: i64,
}

/// The region that holds world cell `(x, y, z)`.
pub open spec fn region_of(x: int, y: int, z: int) -> (int, int, int) {
    (floor_div_edge(x), floor_div_edge(y), floor_div_edge(z))
}

/// Minimum corner, in world cells, of the region at `(x, y, z)`.
pub open spec fn region_origin(x: int, y: int, z: int) -> (int, int, int) {
    (x * 16, y * 16, z * 16)
}

/// Floor division of an `i32` by the region edge.
pub fn floor_div16(a: i32) -> (r: i32)
    ensures
        r as int == floor_div_edge(a as int),
{
    if a >= 0 {
        a / CHUNK_EDGE
    } else {
        let m: i32 = -(a + 1);
        let q: i32 = m / CHUNK_EDGE;
        proof {
            let qi = m as int / 16;
            let ri = m as int % 16;
            assert(m as int == 16 * qi + ri) by {
                vstd::arithmetic::div_mod::lemma_fundamental_div_mod(m as int, 16);
            }
            assert(0 <= ri < 16) by {
                vstd::arithmetic::div_mod::lemma_mod_bound(m as int, 16);
            }
            let q2 = -qi - 1;
            let r2 = 15 - ri;
            assert(a as int == 16 * q2 + r2);
            vstd::arithmetic::div_mod::lemma_fundamental_div_mod_converse(a as int, 16, q2, r2);
        }
        -q - 1
    }
}

impl ChunkPos {
    pub fn new(x: i32, y: i32, z: i32) -> (r: Self)
        ensures
            r == (ChunkPos { x, y, z }),
    {
        ChunkPos { x, y, z }
    }

    /// The region holding the world cell with integer coordinates `(x, y, z)`
    /// (a point's cell is its coordinates rounded down).
    pub fn from_world_pos(x: i32, y: i32, z: i32) -> (r: Self)
        ensures
            (r.x as int, r.y as int, r.z as int) == region_of(x as int, y as int, z as int),
    {
        ChunkPos { x: floor_div16(x), y: floor_div16(y), z: floor_div16(z) }
    }

    /// World coordinates of the region's minimum corner.
    pub fn to_world_pos(&self) -> (r: WorldPos)
        ensures
            (r.x as int, r.y as int, r.z as int) == region_origin(
                self.x as int,
                self.y as int,
                self.z as int,
            ),
    {
        WorldPos { x: self.x as i64 * 16, y: self.y as i64 * 16, z: self.z as i64 * 16 }
    }
}

/// Partition of world space into regions: the origin of the region of a
/// cell is the region's minimum corner, and the cell lies within one edge of
/// it on each axis, so every cell belongs to exactly one region.
pub proof fn region_partition(x: int, y: int, z: int)
    ensures
        ({
            let (rx, ry, rz) = region_of(x, y, z);
            let (ox, oy, oz) = region_origin(rx, ry, rz);
            ox <= x < ox + 16 && oy <= y < oy + 16 && oz <= z < oz + 16
        }),
        forall|a: int, b: int, c: int|
            #![trigger region_origin(a, b, c)]
            {
                let (ox, oy, oz) = region_origin(a, b, c);
                ox <= x < ox + 16 && oy <= y < oy + 16 && oz <= z < oz + 16
            } ==> (a, b, c) == region_of(x, y, z),
{
    vstd::arithmetic::div_mod::lemma_fundamental_div_mod(x, 16);
    vstd::arithmetic::div_mod::lemma_fundamental_div_mod(y, 16);
    vstd::arithmetic::div_mod::lemma_fundamental_div_mod(z, 16);
    vstd::arithmetic::div_mod::lemma_mod_bound(x, 16);
    vstd::arithmetic::div_mod::lemma_mod_bound(y, 16);
    vstd::arithmetic::div_mod::lemma_mod_bound(z, 16);
    assert forall|a: int, b: int, c: int|
        #![trigger region_origin(a, b, c)]
        {
            let (ox, oy, oz) = region_origin(a, b, c);
            ox <= x < ox + 16 && oy <= y < oy + 16 && oz <= z < oz + 16
        } implies (a, b, c) == region_of(x, y, z) by {
        vstd::arithmetic::div_mod::lemma_fundamental_div_mod_converse(x, 16, a, x - a * 16);
        vstd::arithmetic::div_mod::lemma_fundamental_div_mod_converse(y, 16, b, y - b * 16);
        vstd::arithmetic::div_mod::lemma_fundamental_div_mod_converse(z, 16, c, z - c * 16);
    }
}

/// Region numbering is continuous along an axis: moving one cell up moves to
/// the same region or to the next one, and to the next one exactly when the
/// new cell starts a region; in particular cell -1 lies in region -1 and cell
/// 0 in region 0.
pub proof fn region_continuity(a: int)
    ensures
        floor_div_edge(a + 1) == floor_div_edge(a) || floor_div_edge(a + 1) == floor_div_edge(a)
            + 1,
        (floor_div_edge(a + 1) == floor_div_edge(a) + 1) <==> (a + 1) % 16 == 0,
        floor_div_edge(-1) == -1,
        floor_div_edge(0) == 0,
{
    vstd::arithmetic::div_mod::lemma_fundamental_div_mod(a, 16);
    vstd::arithmetic::div_mod::lemma_fundamental_div_mod(a + 1, 16);
    vstd::arithmetic::div_mod::lemma_mod_bound(a, 16);
    vstd::arithmetic::div_mod::lemma_mod_bound(a + 1, 16);
    assert(floor_div_edge(-1) == -1) by {
        vstd::arithmetic::div_mod::lemma_fundamental_div_mod_converse(-1, 16, -1, 15);
    }
    assert(floor_div_edge(0) == 0) by {
        vstd::arithmetic::div_mod::lemma_fundamental_div_mod_converse(0, 16, 0, 0);
    }
}

/// A cell position inside a region.
#[derive(Debug, Clone, Copy, PartialEq, Eq, Hash, Structural)]
pub struct BlockPos {
    pub x: usize,
    pub y: usize,
    pub z: usize,
}

/// Flat array index of local cell `(x, y, z)`.
pub open spec fn index_spec(x: int, y: int, z: int) -> int {
    y * 256 + z * 16 + x
}

pub open spec fn valid_spec(p: BlockPos) -> bool {
    p.x < 16 && p.y < 16 && p.z < 16
}

/// The flat index is a bijection between valid local cells and `0..4096`.
pub proof fn index_bijection(x: int, y: int, z: int)
    requires
        0 <= x < 16,
        0 <= y < 16,
        0 <= z < 16,
    ensures
        0 <= index_spec(x, y, z) < 4096,
        index_spec(x, y, z) % 16 == x,
        (index_spec(x, y, z) / 16) % 16 == z,
        index_spec(x, y, z) / 256 == y,
{
    let i = index_spec(x, y, z);
    assert(i == 16 * (y * 16 + z) + x);
    vstd::arithmetic::div_mod::lemma_fundamental_div_mod_converse(i, 16, y * 16 + z, x);
    vstd::arithmetic::div_mod::lemma_fundamental_div_mod_converse(y * 16 + z, 16, y, z);
    vstd::arithmetic::div_mod::lemma_fundamental_div_mod_converse(i, 256, y, z * 16 + x);
}

impl BlockPos {
    pub fn new(x: usize, y: usize, z: usize) -> (r: Self)
        ensures
            r == (BlockPos { x, y, z }),
    {
        BlockPos { x, y, z }
    }

    /// Flat array index of this position.
    pub fn to_index(&self) -> (r: usize)
        requires
            index_spec(self.x as int, self.y as int, self.z as int) <= usize::MAX,
        ensures
            r as int == index_spec(self.x as int, self.y as int, self.z as int),
    {
        self.y * CHUNK_SIZE * CHUNK_SIZE + self.z * CHUNK_SIZE + self.x
    }

    /// Whether the position lies inside a region.
    pub fn is_valid(&self) -> (r: bool)
        ensures
            r == valid_spec(*self),
    {
        self.x < CHUNK_SIZE && self.y < CHUNK_SIZE && self.z < CHUNK_SIZE
    }
}


/// Floor division (toward negative infinity) of an `i64` by a positive divisor.
pub fn floor_div_i64(a: i64, d: i64) -> (r: i64)
    requires
        d > 0,
    ensures
        r as int == (a as int) / (d as int),
        a as int == (d as int) * (r as int) + (a as int) % (d as int),
        0 <= (a as int) % (d as int) < d,
{
    proof {
        vstd::arithmetic::div_mod::lemma_fundamental_div_mod(a as int, d as int);
        vstd::arithmetic::div_mod::lemma_mod_bound(a as int, d as int);
    }
    if a >= 0 {
        a / d
    } else {
        let m: i64 = -(a + 1);
        let q: i64 = m / d;
        proof {
            let di = d as int;
            let qi = m as int / di;
            let ri = m as int % di;
            vstd::arithmetic::div_mod::lemma_fundamental_div_mod(m as int, di);
            vstd::arithmetic::div_mod::lemma_mod_bound(m as int, di);
            assert(m as int == di * qi + ri);
            let q2 = -qi - 1;
            let r2 = di - 1 - ri;
            assert(a as int == di * q2 + r2) by (nonlinear_arith)
                requires
                    m as int == di * qi + ri,
                    m as int == -(a as int + 1),
                    q2 == -qi - 1,
                    r2 == di - 1 - ri,
            ;
            vstd::arithmetic::div_mod::lemma_fundamental_div_mod_converse(a as int, di, q2, r2);
        }
        -q - 1
    }
}

} // verus!
