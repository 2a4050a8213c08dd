use vstd::prelude::*;

use crate::block::{BlockType, transparent_spec};
use crate::coords::{BlockPos, ChunkPos, CHUNK_SIZE, index_spec, valid_spec, index_bijection};

verus! {

/// Number of cells in a region.
pub const CHUNK_VOLUME: usize = 4096;

/// The six axis-aligned faces of a cell.
#[derive(Debug, Clone, Copy, PartialEq, Eq, Structural)]
pub enum Direction {
    PosX,
    NegX,
    PosY,
    NegY,
    PosZ,
    NegZ,
}

/// Unit normal of a face direction.
pub open spec fn normal_spec(d: Direction) -> (int, int, int) {
    match d {
        Direction::PosX => (1, 0, 0),
        Direction::NegX => (-1, 0, 0),
        Direction::PosY => (0, 1, 0),
        Direction::NegY => (0, -1, 0),
        Direction::PosZ => (0, 0, 1),
        Direction::NegZ => (0, 0, -1),
    }
}

impl Direction {
    /// The face's outward unit normal.
    pub fn normal(&self) -> (r: (i32, i32, i32))
        ensures
            (r.0 as int, r.1 as int, r.2 as int) == normal_spec(*self),
    {
        match self {
            Direction::PosX => (1, 0, 0),
            Direction::NegX => (-1, 0, 0),
            Direction::PosY => (0, 1, 0),
            Direction::NegY => (0, -1, 0),
            Direction::PosZ => (0, 0, 1),
            Direction::NegZ => (0, 0, -1),
        }
    }
}

/// One column of generated terrain: the surface height in whole cells (the
/// height sample truncated toward zero; a negative height counts as zero)
/// and the biome value in thousandths, rounded up.
#[derive(Debug, Clone, Copy, PartialEq, Eq, Structural)]
pub struct TerrainColumn {
    pub height: i64,
    pub biome: i64,
}

/// Content of the cell at world height `world_y` in a column.
pub open spec fn column_block_spec(world_y: int, col: TerrainColumn) -> BlockType {
    let height = if col.height < 0 { 0 } else { col.height as int };
    if world_y > height {
        BlockType::Air
    } else if world_y == height {
        if col.biome > 600 {
            BlockType::Sand
        } else {
            BlockType::Grass
        }
    } else if height > 3 && world_y > height - 3 {
        BlockType::Dirt
    } else {
        BlockType::Stone
    }
}

/// Content of the cell at world height `world_y` in a column: empty above the
/// surface, sand or grass (by biome) on it, three cells of dirt below it when
/// the surface is higher than 3, stone under that.
pub fn column_block(world_y: i64, col: TerrainColumn) -> (r: BlockType)
    ensures
        r == column_block_spec(world_y as int, col),
{
    let height: i64 = if col.height < 0 { 0 } else { col.height };
    if world_y > height {
        BlockType::Air
    } else if world_y == height {
        if col.biome > 600 {
            BlockType::Sand
        } else {
            BlockType::Grass
        }
    } else if height > 3 && world_y > height - 3 {
        BlockType::Dirt
    } else {
        BlockType::Stone
    }
}

/// Content of a region's cells that terrain generation yields, given the
/// region's vertical position and its columns, indexed `z * 16 + x`.
pub open spec fn terrain_cell(region_y: int, columns: Seq<TerrainColumn>, x: int, y: int, z: int) -> BlockType {
    column_block_spec(region_y * 16 + y, columns[z * 16 + x])
}

/// A cubic region of cells.
pub struct Chunk {
    position: ChunkPos,
    blocks: Vec<BlockType>,
    dirty: bool,
}

/// Content of a cell in a region's cells, empty for a position outside it.
pub open spec fn cell_spec(cells: Seq<BlockType>, p: BlockPos) -> BlockType {
    if valid_spec(p) {
        cells[index_spec(p.x as int, p.y as int, p.z as int)]
    } else {
        BlockType::Air
    }
}

/// Whether the face of cell `p` toward `d` is drawn: the cell is not empty,
/// and the cell beyond the face is outside the region, empty, or transparent.
pub open spec fn face_visible_spec(cells: Seq<BlockType>, p: BlockPos, d: Direction) -> bool {
    let (nx, ny, nz) = normal_spec(d);
    let qx = p.x + nx;
    let qy = p.y + ny;
    let qz = p.z + nz;
    cell_spec(cells, p) != BlockType::Air && (!(0 <= qx < 16 && 0 <= qy < 16 && 0 <= qz < 16)
        || transparent_spec(cells[index_spec(qx, qy, qz)]))
}

impl View for Chunk {
    type V = Seq<BlockType>;

    closed spec fn view(&self) -> Seq<BlockType> {
        self.blocks@
    }
}

impl Chunk {
    /// Well-formedness: one value per cell.
    pub closed spec fn wf(&self) -> bool {
        self.blocks@.len() == 4096
    }

    /// The region's coordinate in the grid of regions.
    pub closed spec fn pos(&self) -> ChunkPos {
        self.position
    }

    /// Whether the region's mesh has to be rebuilt.
    pub closed spec fn needs_mesh(&self) -> bool {
        self.dirty
    }

    /// The region's coordinate in the grid of regions.
    pub fn position(&self) -> (r: ChunkPos)
        ensures
            r == self.pos(),
    {
        self.position
    }

    /// Whether the region's mesh has to be rebuilt.
    pub fn is_dirty(&self) -> (r: bool)
        ensures
            r == self.needs_mesh(),
    {
        self.dirty
    }

    /// Records that the region's mesh is up to date.
    pub fn clear_dirty(&mut self)
        ensures
            final(self).pos() == old(self).pos(),
            final(self)@ == old(self)@,
            final(self).wf() == old(self).wf(),
            !final(self).needs_mesh(),
    {
        self.dirty = false;
    }

    /// A region always holds exactly one value per cell.
    pub proof fn lemma_len(c: &Chunk)
        requires
            c.wf(),
        ensures
            c@.len() == 4096,
    {
    }

    /// Flat array index of local cell `(x, y, z)`.
    pub fn get_index_static(x: usize, y: usize, z: usize) -> (r: usize)
        requires
            index_spec(x as int, y as int, z as int) <= usize::MAX,
        ensures
            r as int == index_spec(x as int, y as int, z as int),
    {
        y * CHUNK_SIZE * CHUNK_SIZE + z * CHUNK_SIZE + x
    }

    /// An empty region at `position`, marked for meshing.
    pub fn new(position: ChunkPos) -> (r: Self)
        ensures
            r.wf(),
            r.pos() == position,
            r.needs_mesh(),
            r@ == Seq::new(4096, |i: int| BlockType::Air),
    {
        let mut blocks: Vec<BlockType> = Vec::new();
        let mut i: usize = 0;
        while i < CHUNK_VOLUME
            invariant
                i <= 4096,
                blocks@ == Seq::new(i as nat, |k: int| BlockType::Air),
            decreases 4096 - i,
        {
            blocks.push(BlockType::Air);
            i = i + 1;
        }
        Chunk { position, blocks, dirty: true }
    }

    /// Content of cell `pos`; empty outside the region.
    pub fn get_block(&self, pos: BlockPos) -> (r: BlockType)
        requires
            self.wf(),
        ensures
            r == cell_spec(self@, pos),
    {
        if pos.is_valid() {
            self.blocks[pos.to_index()]
        } else {
            BlockType::Air
        }
    }

    /// Sets cell `pos` and marks the region for meshing; a position outside
    /// the region changes nothing.
    pub fn set_block(&mut self, pos: BlockPos, block_type: BlockType)
        requires
            old(self).wf(),
        ensures
            final(self).wf(),
            final(self).pos() == old(self).pos(),
            valid_spec(pos) ==> final(self)@ == old(self)@.update(
                index_spec(pos.x as int, pos.y as int, pos.z as int),
                block_type,
            ) && final(self).needs_mesh(),
            !valid_spec(pos) ==> final(self)@ == old(self)@ && final(self).needs_mesh() == old(self).needs_mesh(),
    {
        if pos.is_valid() {
            let i = pos.to_index();
            self.blocks.set(i, block_type);
            self.dirty = true;
        }
    }

    /// Fills the region from terrain columns, indexed `z * 16 + x`, and marks
    /// it for meshing.
    pub fn generate_terrain(&mut self, columns: &Vec<TerrainColumn>)
        requires
            old(self).wf(),
            columns@.len() == 256,
        ensures
            final(self).wf(),
            final(self).pos() == old(self).pos(),
            final(self).needs_mesh(),
            forall|x: int, y: int, z: int|
                0 <= x < 16 && 0 <= y < 16 && 0 <= z < 16 ==> #[trigger] final(self)@[index_spec(
                    x,
                    y,
                    z,
                )] == terrain_cell(old(self).pos().y as int, columns@, x, y, z),
    {
        let base_y: i64 = self.position.y as i64 * 16;
        let ghost y0 = self.position.y as int;
        let mut x: usize = 0;
        while x < CHUNK_SIZE
            invariant
                x <= 16,
                self.blocks@.len() == 4096,
                self.position == old(self).position,
                base_y == y0 * 16,
                y0 == old(self).position.y,
                columns@.len() == 256,
                forall|a: int, b: int, c: int|
                    0 <= a < x && 0 <= b < 16 && 0 <= c < 16 ==> #[trigger] self.blocks@[index_spec(a, b, c)]
                        == terrain_cell(y0, columns@, a, b, c),
            decreases 16 - x,
        {
            let mut z: usize = 0;
            while z < CHUNK_SIZE
                invariant
                    x < 16,
                    z <= 16,
                    self.blocks@.len() == 4096,
                    self.position == old(self).position,
                    base_y == y0 * 16,
                    y0 == old(self).position.y,
                    columns@.len() == 256,
                    forall|a: int, b: int, c: int|
                        0 <= a < x && 0 <= b < 16 && 0 <= c < 16 ==> #[trigger] self.blocks@[index_spec(a, b, c)]
                            == terrain_cell(y0, columns@, a, b, c),
                    forall|b: int, c: int|
                        0 <= b < 16 && 0 <= c < z ==> #[trigger] self.blocks@[index_spec(x as int, b, c)]
                            == terrain_cell(y0, columns@, x as int, b, c),
                decreases 16 - z,
            {
                let col = columns[z * CHUNK_SIZE + x];
                let mut y: usize = 0;
                while y < CHUNK_SIZE
                    invariant
                        x < 16,
                        z < 16,
                        y <= 16,
                        self.blocks@.len() == 4096,
                        self.position == old(self).position,
                        base_y == y0 * 16,
                        y0 == old(self).position.y,
                        columns@.len() == 256,
                        col == columns@[z * 16 + x],
                        forall|a: int, b: int, c: int|
                            0 <= a < x && 0 <= b < 16 && 0 <= c < 16 ==> #[trigger] self.blocks@[index_spec(a, b, c)]
                                == terrain_cell(y0, columns@, a, b, c),
                        forall|b: int, c: int|
                            0 <= b < 16 && 0 <= c < z ==> #[trigger] self.blocks@[index_spec(x as int, b, c)]
                                == terrain_cell(y0, columns@, x as int, b, c),
                        forall|b: int|
                            0 <= b < y ==> #[trigger] self.blocks@[index_spec(x as int, b, z as int)]
                                == terrain_cell(y0, columns@, x as int, b, z as int),
                    decreases 16 - y,
                {
                    let block_type = column_block(base_y + y as i64, col);
                    let i = Chunk::get_index_static(x, y, z);
                    proof {
                        assert forall|a: int, b: int, c: int|
                            0 <= a < 16 && 0 <= b < 16 && 0 <= c < 16 && index_spec(a, b, c) == i implies a == x
                            && b == y && c == z by {
                            index_bijection(a, b, c);
                            index_bijection(x as int, y as int, z as int);
                        }
                    }
                    self.blocks.set(i, block_type);
                    y = y + 1;
                }
                z = z + 1;
            }
            x = x + 1;
        }
        self.dirty = true;
    }

    /// Whether the face of cell `pos` toward `direction` is drawn: the cell is
    /// not empty and the face either lies on the region's boundary or looks
    /// onto an empty or transparent cell.
    pub fn should_render_face(&self, pos: BlockPos, direction: Direction) -> (r: bool)
        requires
            self.wf(),
        ensures
            r == face_visible_spec(self@, pos, direction),
    {
        let block = self.get_block(pos);
        if block == BlockType::Air {
            return false;
        }
        let neighbor_pos = match direction {
            Direction::PosY => {
                if pos.y >= CHUNK_SIZE - 1 {
                    return true;
                }
                BlockPos::new(pos.x, pos.y + 1, pos.z)
            },
            Direction::NegY => {
                if pos.y == 0 {
                    return true;
                }
                BlockPos::new(pos.x, pos.y - 1, pos.z)
            },
            Direction::PosZ => {
                if pos.z >= CHUNK_SIZE - 1 {
                    return true;
                }
                BlockPos::new(pos.x, pos.y, pos.z + 1)
            },
            Direction::NegZ => {
                if pos.z == 0 {
                    return true;
                }
                BlockPos::new(pos.x, pos.y, pos.z - 1)
            },
            Direction::PosX => {
                if pos.x >= CHUNK_SIZE - 1 {
                    return true;
                }
                BlockPos::new(pos.x + 1, pos.y, pos.z)
            },
            Direction::NegX => {
                if pos.x == 0 {
                    return true;
                }
                BlockPos::new(pos.x - 1, pos.y, pos.z)
            },
        };
        let neighbor = self.get_block(neighbor_pos);
        neighbor == BlockType::Air || neighbor.is_transparent()
    }
}

/// Setting a cell and reading it back gives the value set, for every valid
/// position and every block; other cells keep their content.
pub proof fn set_then_get(before: Seq<BlockType>, after: Seq<BlockType>, pos: BlockPos, t: BlockType, other: BlockPos)
    requires
        before.len() == 4096,
        valid_spec(pos),
        after == before.update(index_spec(pos.x as int, pos.y as int, pos.z as int), t),
    ensures
        cell_spec(after, pos) == t,
        other != pos ==> cell_spec(after, other) == cell_spec(before, other),
{
    index_bijection(pos.x as int, pos.y as int, pos.z as int);
    if valid_spec(other) {
        index_bijection(other.x as int, other.y as int, other.z as int);
    }
}


/// Index of the first region in `chunks`, from `i` on, at coordinate `p`.
pub open spec fn find_from(chunks: Seq<Chunk>, p: ChunkPos, i: int) -> Option<int>
    decreases chunks.len() - i,
{
    if i < 0 || i >= chunks.len() {
        None
    } else if chunks[i].pos() == p {
        Some(i)
    } else {
        find_from(chunks, p, i + 1)
    }
}

/// Every region in the list is well formed.
pub open spec fn all_wf(chunks: Seq<Chunk>) -> bool {
    forall|i: int| 0 <= i < chunks.len() ==> #[trigger] chunks[i].wf()
}

/// Content of world cell `(x, y, z)` among the regions `chunks`: read from
/// the first region at its coordinate, empty where none is loaded.
pub open spec fn world_block(chunks: Seq<Chunk>, x: int, y: int, z: int) -> BlockType {
    let p = ChunkPos { x: (x / 16) as i32, y: (y / 16) as i32, z: (z / 16) as i32 };
    let b = BlockPos { x: (x % 16) as usize, y: (y % 16) as usize, z: (z % 16) as usize };
    match find_from(chunks, p, 0) {
        Some(i) => cell_spec(chunks[i]@, b),
        None => BlockType::Air,
    }
}

/// What `find_from` returns: the first matching index from `i` on, or none.
pub proof fn lemma_find_from_range(chunks: Seq<Chunk>, p: ChunkPos, i: int)
    requires
        i >= 0,
    ensures
        match find_from(chunks, p, i) {
            Some(k) => i <= k < chunks.len() && chunks[k].pos() == p && forall|j: int|
                i <= j < k ==> chunks[j].pos() != p,
            None => forall|k: int| i <= k < chunks.len() ==> chunks[k].pos() != p,
        },
    decreases chunks.len() - i,
{
    if 0 <= i < chunks.len() && chunks[i].pos() != p {
        lemma_find_from_range(chunks, p, i + 1);
    }
}

/// Position in `chunks` of the first region at coordinate `p`.
pub fn find_chunk(chunks: &[Chunk], p: ChunkPos) -> (r: Option<usize>)
    ensures
        match r {
            Some(k) => find_from(chunks@, p, 0) == Some(k as int),
            None => find_from(chunks@, p, 0) is None,
        },
        match find_from(chunks@, p, 0) {
            Some(k) => 0 <= k < chunks@.len() && chunks@[k].pos() == p,
            None => forall|k: int| 0 <= k < chunks@.len() ==> chunks@[k].pos() != p,
        },
{
    proof {
        lemma_find_from_range(chunks@, p, 0);
    }
    let mut i: usize = 0;
    while i < chunks.len()
        invariant
            i <= chunks@.len(),
            find_from(chunks@, p, 0) == find_from(chunks@, p, i as int),
        decreases chunks@.len() - i,
    {
        if chunks[i].position() == p {
            return Some(i);
        }
        i = i + 1;
    }
    None
}

/// Content of world cell `(x, y, z)` among the regions `chunks`; empty where
/// no region is loaded.
pub fn block_at_world(chunks: &[Chunk], x: i64, y: i64, z: i64) -> (r: BlockType)
    requires
        all_wf(chunks@),
        i32::MIN <= x / 16 <= i32::MAX,
        i32::MIN <= y / 16 <= i32::MAX,
        i32::MIN <= z / 16 <= i32::MAX,
    ensures
        r == world_block(chunks@, x as int, y as int, z as int),
{
    let cx = crate::coords::floor_div_i64(x, 16);
    let cy = crate::coords::floor_div_i64(y, 16);
    let cz = crate::coords::floor_div_i64(z, 16);
    let p = ChunkPos::new(cx as i32, cy as i32, cz as i32);
    let b = BlockPos::new((x - cx * 16) as usize, (y - cy * 16) as usize, (z - cz * 16) as usize);
    match find_chunk(chunks, p) {
        Some(k) => chunks[k].get_block(b),
        None => BlockType::Air,
    }
}

/// A cell of a region that is not loaded reads as empty.
pub proof fn unloaded_reads_empty(chunks: Seq<Chunk>, x: int, y: int, z: int)
    requires
        forall|k: int|
            0 <= k < chunks.len() ==> chunks[k].pos() != (ChunkPos {
                x: (x / 16) as i32,
                y: (y / 16) as i32,
                z: (z / 16) as i32,
            }),
    ensures
        world_block(chunks, x, y, z) == BlockType::Air,
{
    let p = ChunkPos { x: (x / 16) as i32, y: (y / 16) as i32, z: (z / 16) as i32 };
    lemma_find_from_range(chunks, p, 0);
}

} // verus!
