use vstd::prelude::*;

use crate::block::BlockType;
use crate::chunk::{
    Chunk, TerrainColumn, all_wf, cell_spec, find_chunk, find_from, lemma_find_from_range,
    terrain_cell,
};
use crate::coords::{BlockPos, ChunkPos, CHUNK_SIZE, index_spec, valid_spec};

verus! {

/// Default activation radius, in regions.
pub const DEFAULT_RENDER_DISTANCE: i32 = 3;

/// No two regions in the list share a coordinate.
pub open spec fn positions_unique(s: Seq<Chunk>) -> bool {
    forall|i: int, j: int| 0 <= i < j < s.len() ==> #[trigger] s[i].pos() != #[trigger] s[j].pos()
}

/// Content of the region at `p`, if one is loaded.
pub open spec fn region_view(s: Seq<Chunk>, p: ChunkPos) -> Option<Seq<BlockType>> {
    match find_from(s, p, 0) {
        Some(i) => Some(s[i]@),
        None => None,
    }
}

/// Content of cell `b` of region `p` among `s`: empty where the region is not
/// loaded.
pub open spec fn store_cell(s: Seq<Chunk>, p: ChunkPos, b: BlockPos) -> BlockType {
    match region_view(s, p) {
        Some(cells) => cell_spec(cells, b),
        None => BlockType::Air,
    }
}

/// Coordinates of the loaded regions.
pub open spec fn loaded_set(s: Seq<Chunk>) -> Set<ChunkPos> {
    Set::new(|p: ChunkPos| find_from(s, p, 0) is Some)
}

/// Whether region `p` lies in the ground layer within Chebyshev distance `r`
/// of `center`.
pub open spec fn in_range(center: ChunkPos, r: int, p: ChunkPos) -> bool {
    p.y == 0 && center.x - r <= p.x <= center.x + r && center.z - r <= p.z <= center.z + r
}

/// The regions that activation around `center` keeps loaded.
pub open spec fn neighborhood(center: ChunkPos, r: int) -> Set<ChunkPos> {
    Set::new(|p: ChunkPos| in_range(center, r, p))
}

/// What activation guarantees of the regions before and after: exactly the
/// neighbourhood is loaded, and the regions of it that were loaded keep their
/// content.
pub open spec fn activated(before: Seq<Chunk>, after: Seq<Chunk>, center: ChunkPos, r: int) -> bool {
    &&& loaded_set(after) == neighborhood(center, r)
    &&& forall|p: ChunkPos|
        in_range(center, r, p) && (#[trigger] region_view(before, p)) is Some ==> region_view(after, p)
            == region_view(before, p)
}

/// `cells` is what terrain generation makes of region `p` from the columns
/// `cols`, each of them an answer of `terrain` for its world column.
pub open spec fn generated_with<F: Fn(i64, i64) -> TerrainColumn>(
    cells: Seq<BlockType>,
    p: ChunkPos,
    terrain: F,
    cols: Seq<TerrainColumn>,
) -> bool {
    &&& cols.len() == 256
    &&& cells.len() == 4096
    &&& forall|x: int, z: int|
        0 <= x < 16 && 0 <= z < 16 ==> terrain.ensures(
            ((p.x * 16 + x) as i64, (p.z * 16 + z) as i64),
            #[trigger] cols[z * 16 + x],
        )
    &&& forall|x: int, y: int, z: int|
        0 <= x < 16 && 0 <= y < 16 && 0 <= z < 16 ==> #[trigger] cells[index_spec(x, y, z)]
            == terrain_cell(p.y as int, cols, x, y, z)
}

/// `cells` is what terrain generation makes of region `p` from answers of
/// `terrain`.
pub open spec fn generated<F: Fn(i64, i64) -> TerrainColumn>(
    cells: Seq<BlockType>,
    p: ChunkPos,
    terrain: F,
) -> bool {
    exists|cols: Seq<TerrainColumn>| #[trigger] generated_with(cells, p, terrain, cols)
}

/// In a list without repeated coordinates, the region at `p` is found where
/// it stands.
pub proof fn lemma_find_unique(s: Seq<Chunk>, p: ChunkPos, j: int)
    requires
        positions_unique(s),
        0 <= j < s.len(),
        s[j].pos() == p,
    ensures
        find_from(s, p, 0) == Some(j),
{
    lemma_find_from_range(s, p, 0);
    if let Some(k) = find_from(s, p, 0) {
        if k != j {
            if k < j {
                assert(s[k].pos() != s[j].pos());
            } else {
                assert(s[j].pos() != s[k].pos());
            }
        }
    }
}

/// Lookup after appending a region.
pub proof fn lemma_find_push(s: Seq<Chunk>, c: Chunk, p: ChunkPos)
    ensures
        find_from(s.push(c), p, 0) == (if find_from(s, p, 0) is Some {
            find_from(s, p, 0)
        } else if c.pos() == p {
            Some(s.len() as int)
        } else {
            None
        }),
        p != c.pos() ==> region_view(s.push(c), p) == region_view(s, p),
        p == c.pos() && find_from(s, p, 0) is None ==> region_view(s.push(c), p) == Some(c@),
{
    let t = s.push(c);
    lemma_find_from_range(s, p, 0);
    lemma_find_from_range(t, p, 0);
    assert forall|j: int| 0 <= j < s.len() implies t[j] == s[j] by {}
    match find_from(s, p, 0) {
        Some(k) => {
            assert(t[k].pos() == p);
            match find_from(t, p, 0) {
                Some(k2) => {
                    if k2 < k {
                        assert(s[k2].pos() == p);
                    }
                },
                None => {},
            }
        },
        None => {
            if c.pos() == p {
                assert(t[s.len() as int].pos() == p);
            }
            match find_from(t, p, 0) {
                Some(k2) => {
                    if k2 < s.len() {
                        assert(s[k2].pos() == p);
                    }
                },
                None => {},
            }
        },
    }
}

/// A region with terrain: region `pos` filled from the columns that
/// `terrain` gives for world column `(x, z)`.
pub fn spawn_chunk<F: Fn(i64, i64) -> TerrainColumn>(pos: ChunkPos, terrain: &F) -> (r: Chunk)
    requires
        forall|x: i64, z: i64| terrain.requires((x, z)),
    ensures
        r.wf(),
        r.pos() == pos,
        r.needs_mesh(),
        generated(r@, pos, *terrain),
{
    let mut chunk = Chunk::new(pos);
    let base_x: i64 = pos.x as i64 * 16;
    let base_z: i64 = pos.z as i64 * 16;
    let mut columns: Vec<TerrainColumn> = Vec::new();
    let mut z: usize = 0;
    while z < CHUNK_SIZE
        invariant
            z <= 16,
            base_x == pos.x * 16,
            base_z == pos.z * 16,
            forall|x: i64, zz: i64| terrain.requires((x, zz)),
            columns@.len() == 16 * z,
            forall|a: int, c: int|
                0 <= a < 16 && 0 <= c < z ==> terrain.ensures(
                    ((pos.x * 16 + a) as i64, (pos.z * 16 + c) as i64),
                    #[trigger] columns@[c * 16 + a],
                ),
        decreases 16 - z,
    {
        let mut x: usize = 0;
        while x < CHUNK_SIZE
            invariant
                z < 16,
                x <= 16,
                base_x == pos.x * 16,
                base_z == pos.z * 16,
                forall|xx: i64, zz: i64| terrain.requires((xx, zz)),
                columns@.len() == 16 * z + x,
                forall|a: int, c: int|
                    0 <= a < 16 && 0 <= c < z ==> terrain.ensures(
                        ((pos.x * 16 + a) as i64, (pos.z * 16 + c) as i64),
                        #[trigger] columns@[c * 16 + a],
                    ),
                forall|a: int|
                    0 <= a < x ==> terrain.ensures(
                        ((pos.x * 16 + a) as i64, (pos.z * 16 + z) as i64),
                        #[trigger] columns@[z * 16 + a],
                    ),
            decreases 16 - x,
        {
            let col = terrain(base_x + x as i64, base_z + z as i64);
            columns.push(col);
            x = x + 1;
        }
        z = z + 1;
    }
    chunk.generate_terrain(&columns);
    proof {
        Chunk::lemma_len(&chunk);
        assert(generated_with(chunk@, pos, *terrain, columns@));
    }
    chunk
}


/// The region store: the loaded regions, at most one per coordinate, and the
/// activation radius.
pub struct ChunkManager {
    chunks: Vec<Chunk>,
    render_distance: i32,
}

/// Whether region `p` of the ground layer has been visited when the
/// activation sweep stands at column `(x, z)`.
pub open spec fn swept(p: ChunkPos, x: int, z: int) -> bool {
    p.x < x || (p.x == x && p.z < z)
}

impl ChunkManager {
    /// The loaded regions.
    pub closed spec fn regions(&self) -> Seq<Chunk> {
        self.chunks@
    }

    /// The activation radius, in regions.
    pub closed spec fn radius(&self) -> int {
        self.render_distance as int
    }

    /// Well-formedness: regions well formed, coordinates not repeated, radius
    /// not negative.
    pub closed spec fn wf(&self) -> bool {
        all_wf(self.chunks@) && positions_unique(self.chunks@) && self.render_distance >= 0
    }

    /// What well-formedness says of the loaded regions.
    pub proof fn lemma_wf(&self)
        requires
            self.wf(),
        ensures
            all_wf(self.regions()),
            positions_unique(self.regions()),
            self.radius() >= 0,
    {
    }

    /// An empty store with activation radius `render_distance`.
    pub fn new(render_distance: i32) -> (r: Self)
        requires
            render_distance >= 0,
        ensures
            r.wf(),
            r.regions().len() == 0,
            r.radius() == render_distance,
    {
        ChunkManager { chunks: Vec::new(), render_distance }
    }

    /// The activation radius, in regions.
    pub fn render_distance(&self) -> (r: i32)
        ensures
            r as int == self.radius(),
    {
        self.render_distance
    }

    /// The loaded regions.
    pub fn chunks(&self) -> (r: &[Chunk])
        ensures
            r@ == self.regions(),
    {
        self.chunks.as_slice()
    }

    /// The loaded region at `p`, if any.
    pub fn get_chunk(&self, p: ChunkPos) -> (r: Option<&Chunk>)
        requires
            self.wf(),
        ensures
            match r {
                Some(c) => c.wf() && c.pos() == p && region_view(self.regions(), p) == Some(c@),
                None => region_view(self.regions(), p) is None,
            },
    {
        match find_chunk(self.chunks.as_slice(), p) {
            Some(k) => Some(&self.chunks[k]),
            None => None,
        }
    }

    /// Loads `chunk`, replacing any region at its coordinate.
    pub fn insert_chunk(&mut self, chunk: Chunk)
        requires
            old(self).wf(),
            chunk.wf(),
        ensures
            final(self).wf(),
            final(self).radius() == old(self).radius(),
            region_view(final(self).regions(), chunk.pos()) == Some(chunk@),
            forall|p: ChunkPos|
                p != chunk.pos() ==> #[trigger] region_view(final(self).regions(), p) == region_view(
                    old(self).regions(),
                    p,
                ),
            loaded_set(final(self).regions()) == loaded_set(old(self).regions()).insert(chunk.pos()),
    {
        let ghost s0 = self.chunks@;
        let ghost cp = chunk.pos();
        let ghost cv = chunk@;
        match find_chunk(self.chunks.as_slice(), chunk.position()) {
            Some(k) => {
                self.chunks.set(k, chunk);
                proof {
                    let s1 = self.chunks@;
                    assert(positions_unique(s1));
                    assert forall|p: ChunkPos| #[trigger] find_from(s1, p, 0) == find_from(s0, p, 0) by {
                        lemma_find_from_range(s0, p, 0);
                        lemma_find_from_range(s1, p, 0);
                        if let Some(j) = find_from(s0, p, 0) {
                            lemma_find_unique(s1, p, j);
                        }
                        if let Some(j) = find_from(s1, p, 0) {
                            lemma_find_unique(s0, p, j);
                        }
                    }
                    lemma_find_unique(s1, cp, k as int);
                    assert(loaded_set(s1) =~= loaded_set(s0).insert(cp));
                    assert forall|p: ChunkPos| p != cp implies #[trigger] region_view(s1, p) == region_view(s0, p) by {
                        lemma_find_from_range(s0, p, 0);
                    }
                }
            },
            None => {
                self.chunks.push(chunk);
                proof {
                    let s1 = self.chunks@;
                    lemma_find_from_range(s0, cp, 0);
                    assert forall|p: ChunkPos| #[trigger] find_from(s1, p, 0) == (if p == cp {
                        Some(s0.len() as int)
                    } else {
                        find_from(s0, p, 0)
                    }) by {
                        lemma_find_push(s0, s1.last(), p);
                        assert(s0.push(s1.last()) == s1);
                    }
                    assert(loaded_set(s1) =~= loaded_set(s0).insert(cp));
                    assert forall|p: ChunkPos| p != cp implies #[trigger] region_view(s1, p) == region_view(s0, p) by {
                        lemma_find_from_range(s0, p, 0);
                        if let Some(j) = find_from(s0, p, 0) {
                            assert(s1[j] == s0[j]);
                        }
                    }
                }
            },
        }
    }

    /// Content of cell `b` of region `c`; empty where the region is not
    /// loaded or the position lies outside it.
    pub fn get_block(&self, c: ChunkPos, b: BlockPos) -> (r: BlockType)
        requires
            self.wf(),
        ensures
            r == match region_view(self.regions(), c) {
                Some(cells) => cell_spec(cells, b),
                None => BlockType::Air,
            },
    {
        match self.get_chunk(c) {
            Some(chunk) => chunk.get_block(b),
            None => BlockType::Air,
        }
    }

    /// Sets cell `b` of region `c` and marks the region for meshing; returns
    /// whether the cell's content changed. Where the region is not loaded or
    /// the position lies outside it, nothing changes.
    pub fn set_block(&mut self, c: ChunkPos, b: BlockPos, t: BlockType) -> (r: bool)
        requires
            old(self).wf(),
        ensures
            final(self).wf(),
            final(self).radius() == old(self).radius(),
            loaded_set(final(self).regions()) == loaded_set(old(self).regions()),
            forall|p: ChunkPos|
                p != c ==> #[trigger] region_view(final(self).regions(), p) == region_view(
                    old(self).regions(),
                    p,
                ),
            match region_view(old(self).regions(), c) {
                Some(cells) => if valid_spec(b) {
                    &&& region_view(final(self).regions(), c) == Some(
                        cells.update(index_spec(b.x as int, b.y as int, b.z as int), t),
                    )
                    &&& r == (cell_spec(cells, b) != t)
                    &&& match find_from(final(self).regions(), c, 0) {
                        Some(i) => final(self).regions()[i].needs_mesh(),
                        None => false,
                    }
                } else {
                    region_view(final(self).regions(), c) == Some(cells) && !r
                },
                None => region_view(final(self).regions(), c) is None && !r,
            },
    {
        let ghost s0 = self.chunks@;
        match find_chunk(self.chunks.as_slice(), c) {
            Some(k) => {
                if !b.is_valid() {
                    return false;
                }
                let mut chunk = self.chunks.remove(k);
                let before = chunk.get_block(b);
                chunk.set_block(b, t);
                self.chunks.insert(k, chunk);
                proof {
                    let s1 = self.chunks@;
                    assert(s1[k as int].needs_mesh());
                    assert(s1 =~= s0.update(k as int, s1[k as int]));
                    assert(positions_unique(s1));
                    assert forall|p: ChunkPos| #[trigger] find_from(s1, p, 0) == find_from(s0, p, 0) by {
                        lemma_find_from_range(s0, p, 0);
                        lemma_find_from_range(s1, p, 0);
                        if let Some(j) = find_from(s0, p, 0) {
                            lemma_find_unique(s1, p, j);
                        }
                        if let Some(j) = find_from(s1, p, 0) {
                            lemma_find_unique(s0, p, j);
                        }
                    }
                    assert(loaded_set(s1) =~= loaded_set(s0));
                    assert forall|p: ChunkPos| p != c implies #[trigger] region_view(s1, p) == region_view(s0, p) by {
                        if let Some(j) = find_from(s0, p, 0) {
                            lemma_find_from_range(s0, p, 0);
                        }
                    }
                }
                before != t
            },
            None => false,
        }
    }

    /// Records that the region at `p` has been meshed.
    pub fn mark_meshed(&mut self, p: ChunkPos)
        requires
            old(self).wf(),
        ensures
            final(self).wf(),
            final(self).radius() == old(self).radius(),
            loaded_set(final(self).regions()) == loaded_set(old(self).regions()),
            forall|q: ChunkPos| #[trigger] region_view(final(self).regions(), q) == region_view(old(self).regions(), q),
            match find_from(final(self).regions(), p, 0) {
                Some(i) => !final(self).regions()[i].needs_mesh(),
                None => true,
            },
    {
        let ghost s0 = self.chunks@;
        match find_chunk(self.chunks.as_slice(), p) {
            Some(k) => {
                let mut chunk = self.chunks.remove(k);
                chunk.clear_dirty();
                self.chunks.insert(k, chunk);
                proof {
                    let s1 = self.chunks@;
                    assert(!s1[k as int].needs_mesh());
                    assert(s1 =~= s0.update(k as int, s1[k as int]));
                    assert(s1[k as int]@ == s0[k as int]@);
                    assert(positions_unique(s1));
                    assert forall|q: ChunkPos| #[trigger] find_from(s1, q, 0) == find_from(s0, q, 0) by {
                        lemma_find_from_range(s0, q, 0);
                        lemma_find_from_range(s1, q, 0);
                        if let Some(j) = find_from(s0, q, 0) {
                            lemma_find_unique(s1, q, j);
                        }
                        if let Some(j) = find_from(s1, q, 0) {
                            lemma_find_unique(s0, q, j);
                        }
                    }
                    assert(loaded_set(s1) =~= loaded_set(s0));
                    assert forall|q: ChunkPos| #[trigger] region_view(s1, q) == region_view(s0, q) by {
                        lemma_find_from_range(s0, q, 0);
                    }
                }
            },
            None => {},
        }
    }
}


impl ChunkManager {
    /// Activation around region `center`: regions of the ground layer within
    /// the activation radius (Chebyshev distance) of `center` that are not
    /// loaded are generated from `terrain` and loaded; every other region is
    /// unloaded. Regions that stay keep their content.
    pub fn update_chunk_loading<F: Fn(i64, i64) -> TerrainColumn>(&mut self, center: ChunkPos, terrain: &F)
        requires
            old(self).wf(),
            forall|x: i64, z: i64| terrain.requires((x, z)),
            i32::MIN <= center.x - old(self).radius(),
            center.x + old(self).radius() < i32::MAX,
            i32::MIN <= center.z - old(self).radius(),
            center.z + old(self).radius() < i32::MAX,
        ensures
            final(self).wf(),
            final(self).radius() == old(self).radius(),
            activated(old(self).regions(), final(self).regions(), center, old(self).radius()),
            forall|p: ChunkPos|
                in_range(center, old(self).radius(), p) && (#[trigger] region_view(old(self).regions(), p)) is None
                    ==> match region_view(final(self).regions(), p) {
                    Some(cells) => generated(cells, p, *terrain),
                    None => false,
                },
    {
        let r = self.render_distance;
        let ghost s0 = self.chunks@;
        let ghost ri = r as int;
        let mut kept: Vec<Chunk> = Vec::new();
        while self.chunks.len() > 0
            invariant
                self.chunks@ == s0.subrange(0, self.chunks@.len() as int),
                self.chunks@.len() <= s0.len(),
                self.render_distance == r,
                r >= 0,
                ri == r,
                positions_unique(s0),
                all_wf(s0),
                all_wf(kept@),
                positions_unique(kept@),
                i32::MIN <= center.x - ri,
                center.x + ri < i32::MAX,
                i32::MIN <= center.z - ri,
                center.z + ri < i32::MAX,
                forall|p: ChunkPos|
                    (#[trigger] find_from(kept@, p, 0)) is Some ==> in_range(center, ri, p) && match find_from(
                        s0,
                        p,
                        0,
                    ) {
                        Some(j) => j >= self.chunks@.len() && region_view(kept@, p) == Some(s0[j]@),
                        None => false,
                    },
                forall|j: int|
                    self.chunks@.len() <= j < s0.len() && in_range(center, ri, #[trigger] s0[j].pos())
                        ==> region_view(kept@, s0[j].pos()) == Some(s0[j]@),
            decreases self.chunks@.len(),
        {
            let ghost m = (self.chunks@.len() - 1) as int;
            let c = self.chunks.pop().unwrap();
            let cp = c.position();
            proof {
                assert(c == s0[m]);
                assert(c.wf());
            }
            if cp.y == 0 && center.x - r <= cp.x && cp.x <= center.x + r && center.z - r <= cp.z && cp.z
                <= center.z + r {
                let ghost k0 = kept@;
                proof {
                    lemma_find_unique(s0, cp, m);
                    lemma_find_from_range(k0, cp, 0);
                }
                kept.push(c);
                proof {
                    let k1 = kept@;
                    assert(k1 == k0.push(c));
                    assert forall|p: ChunkPos|
                        (#[trigger] find_from(k1, p, 0)) is Some implies in_range(center, ri, p) && match find_from(
                            s0,
                            p,
                            0,
                        ) {
                            Some(j) => j >= m && region_view(k1, p) == Some(s0[j]@),
                            None => false,
                        } by {
                        lemma_find_push(k0, c, p);
                    }
                    assert forall|j: int|
                        m <= j < s0.len() && in_range(center, ri, #[trigger] s0[j].pos()) implies region_view(
                            k1,
                            s0[j].pos(),
                        ) == Some(s0[j]@) by {
                        lemma_find_push(k0, c, s0[j].pos());
                        if j != m {
                            assert(s0[m].pos() != s0[j].pos());
                        }
                    }
                    assert forall|i: int, j: int| 0 <= i < j < k1.len() implies #[trigger] k1[i].pos()
                        != #[trigger] k1[j].pos() by {
                        if j == k0.len() && k1[i].pos() == cp {
                            assert(k0[i].pos() == cp);
                        }
                    }
                }
            }
        }
        proof {
            let k = kept@;
            assert forall|p: ChunkPos|
                (#[trigger] find_from(k, p, 0)) is Some <==> (in_range(center, ri, p) && find_from(s0, p, 0) is Some) by {
                lemma_find_from_range(s0, p, 0);
                if let Some(j) = find_from(s0, p, 0) {
                    assert(s0[j].pos() == p);
                }
            }
            assert forall|p: ChunkPos|
                in_range(center, ri, p) && (#[trigger] region_view(s0, p)) is Some implies region_view(k, p)
                    == region_view(s0, p) by {
                lemma_find_from_range(s0, p, 0);
                if let Some(j) = find_from(s0, p, 0) {
                    assert(s0[j].pos() == p);
                }
            }
        }
        self.chunks = kept;
        let mut x: i32 = center.x - r;
        while x <= center.x + r
            invariant
                center.x - ri <= x <= center.x + ri + 1,
                all_wf(self.chunks@),
                positions_unique(self.chunks@),
                self.render_distance == r,
                r >= 0,
                ri == r,
                forall|xx: i64, zz: i64| terrain.requires((xx, zz)),
                i32::MIN <= center.x - ri,
                center.x + ri < i32::MAX,
                i32::MIN <= center.z - ri,
                center.z + ri < i32::MAX,
                forall|p: ChunkPos|
                    (#[trigger] find_from(self.chunks@, p, 0)) is Some <==> (in_range(center, ri, p) && (find_from(
                        s0,
                        p,
                        0,
                    ) is Some || p.x < x)),
                forall|p: ChunkPos|
                    in_range(center, ri, p) && (#[trigger] region_view(s0, p)) is Some ==> region_view(
                        self.chunks@,
                        p,
                    ) == region_view(s0, p),
                forall|p: ChunkPos|
                    (#[trigger] find_from(self.chunks@, p, 0)) is Some && find_from(s0, p, 0) is None ==> match region_view(
                        self.chunks@,
                        p,
                    ) {
                        Some(cells) => generated(cells, p, *terrain),
                        None => false,
                    },
            decreases center.x + ri + 1 - x,
        {
            let mut z: i32 = center.z - r;
            while z <= center.z + r
                invariant
                    center.x - ri <= x <= center.x + ri,
                    center.z - ri <= z <= center.z + ri + 1,
                    all_wf(self.chunks@),
                    positions_unique(self.chunks@),
                    self.render_distance == r,
                    r >= 0,
                    ri == r,
                    forall|xx: i64, zz: i64| terrain.requires((xx, zz)),
                    i32::MIN <= center.x - ri,
                    center.x + ri < i32::MAX,
                    i32::MIN <= center.z - ri,
                    center.z + ri < i32::MAX,
                    forall|p: ChunkPos|
                        (#[trigger] find_from(self.chunks@, p, 0)) is Some <==> (in_range(center, ri, p) && (find_from(
                            s0,
                            p,
                            0,
                        ) is Some || swept(p, x as int, z as int))),
                    forall|p: ChunkPos|
                        in_range(center, ri, p) && (#[trigger] region_view(s0, p)) is Some ==> region_view(
                            self.chunks@,
                            p,
                        ) == region_view(s0, p),
                    forall|p: ChunkPos|
                        (#[trigger] find_from(self.chunks@, p, 0)) is Some && find_from(s0, p, 0) is None ==> match region_view(
                            self.chunks@,
                            p,
                        ) {
                            Some(cells) => generated(cells, p, *terrain),
                            None => false,
                        },
                decreases center.z + ri + 1 - z,
            {
                let p = ChunkPos::new(x, 0, z);
                let ghost k0 = self.chunks@;
                if find_chunk(self.chunks.as_slice(), p).is_none() {
                    let c = spawn_chunk(p, terrain);
                    self.chunks.push(c);
                    proof {
                        let k1 = self.chunks@;
                        assert(k1 == k0.push(c));
                        assert forall|q: ChunkPos| #[trigger] find_from(k1, q, 0) == (if q == p {
                            Some(k0.len() as int)
                        } else {
                            find_from(k0, q, 0)
                        }) by {
                            lemma_find_push(k0, c, q);
                        }
                        assert forall|q: ChunkPos| #[trigger] region_view(k1, q) == (if q == p {
                            Some(c@)
                        } else {
                            region_view(k0, q)
                        }) by {
                            lemma_find_push(k0, c, q);
                        }
                        assert forall|i: int, j: int| 0 <= i < j < k1.len() implies #[trigger] k1[i].pos()
                            != #[trigger] k1[j].pos() by {
                            if j == k0.len() && k1[i].pos() == p {
                                lemma_find_from_range(k0, p, 0);
                                assert(k0[i].pos() == p);
                            }
                        }
                        assert(all_wf(k1));
                    }
                }
                z = z + 1;
            }
            x = x + 1;
        }
        proof {
            let s1 = self.chunks@;
            assert(loaded_set(s1) =~= neighborhood(center, ri));
        }
    }
}

/// Activation is idempotent: activating twice with the same center and
/// radius leaves the second call with the same loaded regions, each with the
/// same content, as the first.
pub proof fn activation_idempotent(s0: Seq<Chunk>, s1: Seq<Chunk>, s2: Seq<Chunk>, center: ChunkPos, r: int)
    requires
        activated(s0, s1, center, r),
        activated(s1, s2, center, r),
    ensures
        loaded_set(s2) == loaded_set(s1),
        forall|p: ChunkPos| #[trigger] region_view(s2, p) == region_view(s1, p),
{
    assert forall|p: ChunkPos| #[trigger] region_view(s2, p) == region_view(s1, p) by {
        if in_range(center, r, p) {
            assert(neighborhood(center, r).contains(p));
            assert(loaded_set(s1).contains(p));
        } else {
            assert(!neighborhood(center, r).contains(p));
            assert(!loaded_set(s1).contains(p));
            assert(!loaded_set(s2).contains(p));
        }
    }
}


/// A loaded region's content has one value per cell.
pub proof fn lemma_view_len(s: Seq<Chunk>, p: ChunkPos)
    requires
        all_wf(s),
    ensures
        region_view(s, p) matches Some(cells) ==> cells.len() == 4096,
{
    lemma_find_from_range(s, p, 0);
    if let Some(i) = find_from(s, p, 0) {
        Chunk::lemma_len(&s[i]);
    }
}


impl Default for ChunkManager {
    /// An empty store with the default activation radius.
    fn default() -> (r: Self)
        ensures
            r.wf(),
            r.regions().len() == 0,
            r.radius() == DEFAULT_RENDER_DISTANCE,
    {
        ChunkManager::new(DEFAULT_RENDER_DISTANCE)
    }
}


/// Round trip through the store: after setting cell `b` of a loaded region
/// `c` to `t`, reading it gives `t`, for every valid position and every
/// block; every other cell reads as before.
pub proof fn store_set_then_get(
    before: Seq<Chunk>,
    after: Seq<Chunk>,
    c: ChunkPos,
    b: BlockPos,
    t: BlockType,
    q: ChunkPos,
    e: BlockPos,
)
    requires
        all_wf(before),
        valid_spec(b),
        region_view(before, c) is Some,
        region_view(after, c) == Some(
            region_view(before, c).unwrap().update(index_spec(b.x as int, b.y as int, b.z as int), t),
        ),
        forall|p: ChunkPos| p != c ==> #[trigger] region_view(after, p) == region_view(before, p),
    ensures
        store_cell(after, c, b) == t,
        (q, e) != (c, b) ==> store_cell(after, q, e) == store_cell(before, q, e),
{
    lemma_view_len(before, c);
    let cells = region_view(before, c).unwrap();
    crate::chunk::set_then_get(cells, region_view(after, c).unwrap(), b, t, b);
    if q == c {
        crate::chunk::set_then_get(cells, region_view(after, c).unwrap(), b, t, e);
    }
}

} // verus!
