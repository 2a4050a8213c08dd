use vstd::prelude::*;

use crate::block::BlockType;
use crate::chunk::{Chunk, TerrainColumn, cell_spec};
use crate::coords::{BlockPos, ChunkPos, index_spec, valid_spec};
use crate::mesh::{ChunkMesh, mesh_faces, mesh_matches};
use crate::raycast::{FixedVec, RaycastHit, raycast_block, raycast_spec};
use crate::world::{ChunkManager, generated, loaded_set, region_view, spawn_chunk, store_cell, lemma_view_len};

verus! {

/// Region and local coordinate, on one axis, of the cell next to local
/// coordinate `l` of region `c` in direction `n`: a step past either bound
/// of the region moves to the neighbouring region, on the opposite bound.
pub open spec fn wrap_axis(c: int, l: int, n: int) -> (int, int) {
    let v = l + n;
    if v < 0 {
        (c - 1, 15)
    } else if v >= 16 {
        (c + 1, 0)
    } else {
        (c, v)
    }
}

/// Where a block placed against `hit` goes: the cell next to the hit cell,
/// across the face that the ray entered through.
pub open spec fn place_target_spec(hit: RaycastHit) -> (ChunkPos, BlockPos) {
    let (cx, lx) = wrap_axis(hit.chunk_pos.x as int, hit.block_pos.x as int, hit.normal.0 as int);
    let (cy, ly) = wrap_axis(hit.chunk_pos.y as int, hit.block_pos.y as int, hit.normal.1 as int);
    let (cz, lz) = wrap_axis(hit.chunk_pos.z as int, hit.block_pos.z as int, hit.normal.2 as int);
    (ChunkPos { x: cx as i32, y: cy as i32, z: cz as i32 }, BlockPos { x: lx as usize, y: ly as usize, z: lz as usize })
}

/// A hit that the interaction rules accept: a cell inside its region, a
/// normal of unit steps, and neighbouring regions that can be numbered.
pub open spec fn hit_ok(hit: RaycastHit) -> bool {
    &&& valid_spec(hit.block_pos)
    &&& -1 <= hit.normal.0 <= 1 && -1 <= hit.normal.1 <= 1 && -1 <= hit.normal.2 <= 1
    &&& i32::MIN < hit.chunk_pos.x < i32::MAX
    &&& i32::MIN < hit.chunk_pos.y < i32::MAX
    &&& i32::MIN < hit.chunk_pos.z < i32::MAX
}

/// Whether `hit` is one the interaction rules accept.
pub fn hit_is_valid(hit: &RaycastHit) -> (r: bool)
    ensures
        r == hit_ok(*hit),
{
    hit.block_pos.is_valid() && -1 <= hit.normal.0 && hit.normal.0 <= 1 && -1 <= hit.normal.1
        && hit.normal.1 <= 1 && -1 <= hit.normal.2 && hit.normal.2 <= 1 && i32::MIN < hit.chunk_pos.x
        && hit.chunk_pos.x < i32::MAX && i32::MIN < hit.chunk_pos.y && hit.chunk_pos.y < i32::MAX
        && i32::MIN < hit.chunk_pos.z && hit.chunk_pos.z < i32::MAX
}

/// The placement cell is the world cell one step from the hit cell along the
/// normal, on every axis, and lies inside its region; so a hit at local
/// y = 0 with normal +y places at y = 1 of the same region, and with normal
/// -y places at y = 15 of the region below.
pub proof fn place_target_adjacent(c: int, l: int, n: int)
    requires
        0 <= l < 16,
        -1 <= n <= 1,
    ensures
        ({
            let (c2, l2) = wrap_axis(c, l, n);
            &&& c2 * 16 + l2 == c * 16 + l + n
            &&& 0 <= l2 < 16
            &&& (0 <= l + n < 16 ==> c2 == c)
        }),
        wrap_axis(c, 0, 1) == (c, 1int),
        wrap_axis(c, 0, -1) == (c - 1, 15int),
{
}

/// One axis of the placement rule.
fn wrap_coord(c: i32, l: usize, n: i32) -> (r: (i32, usize))
    requires
        l < 16,
        -1 <= n <= 1,
        i32::MIN < c < i32::MAX,
    ensures
        (r.0 as int, r.1 as int) == wrap_axis(c as int, l as int, n as int),
        r.1 < 16,
{
    let v: i32 = l as i32 + n;
    if v < 0 {
        (c - 1, 15)
    } else if v >= 16 {
        (c + 1, 0)
    } else {
        (c, v as usize)
    }
}

/// Region and cell where a block placed against `hit` goes.
pub fn place_target(hit: &RaycastHit) -> (r: (ChunkPos, BlockPos))
    requires
        hit_ok(*hit),
    ensures
        r == place_target_spec(*hit),
        valid_spec(r.1),
{
    let (cx, lx) = wrap_coord(hit.chunk_pos.x, hit.block_pos.x, hit.normal.0);
    let (cy, ly) = wrap_coord(hit.chunk_pos.y, hit.block_pos.y, hit.normal.1);
    let (cz, lz) = wrap_coord(hit.chunk_pos.z, hit.block_pos.z, hit.normal.2);
    (ChunkPos::new(cx, cy, cz), BlockPos::new(lx, ly, lz))
}

pub open spec fn select_spec(digit1: bool, digit2: bool, digit3: bool) -> BlockType {
    if digit1 {
        BlockType::Dirt
    } else if digit2 {
        BlockType::Stone
    } else if digit3 {
        BlockType::Grass
    } else {
        BlockType::Dirt
    }
}

/// The block to place from the held selection keys: key 1 dirt, else key 2
/// stone, else key 3 grass; dirt when none is held.
pub fn select_block_type(digit1: bool, digit2: bool, digit3: bool) -> (r: BlockType)
    ensures
        r == select_spec(digit1, digit2, digit3),
{
    if digit1 {
        BlockType::Dirt
    } else if digit2 {
        BlockType::Stone
    } else if digit3 {
        BlockType::Grass
    } else {
        BlockType::Dirt
    }
}

impl ChunkManager {
    /// The mesh of the loaded region at `p`, if any.
    pub fn mesh_of(&self, p: ChunkPos) -> (r: Option<ChunkMesh>)
        requires
            self.wf(),
        ensures
            match region_view(self.regions(), p) {
                Some(cells) => r matches Some(m) && mesh_matches(m.vertices@, m.indices@, cells, mesh_faces(cells)),
                None => r is None,
            },
    {
        match self.get_chunk(p) {
            Some(chunk) => Some(chunk.build_mesh()),
            None => None,
        }
    }

    /// Empties the hit cell; returns whether its region is loaded (else
    /// nothing changes).
    pub fn break_block(&mut self, hit: &RaycastHit) -> (r: bool)
        requires
            old(self).wf(),
            valid_spec(hit.block_pos),
        ensures
            final(self).wf(),
            final(self).radius() == old(self).radius(),
            loaded_set(final(self).regions()) == loaded_set(old(self).regions()),
            forall|p: ChunkPos|
                p != hit.chunk_pos ==> #[trigger] region_view(final(self).regions(), p) == region_view(
                    old(self).regions(),
                    p,
                ),
            r == region_view(old(self).regions(), hit.chunk_pos) is Some,
            match region_view(old(self).regions(), hit.chunk_pos) {
                Some(cells) => region_view(final(self).regions(), hit.chunk_pos) == Some(
                    cells.update(
                        index_spec(hit.block_pos.x as int, hit.block_pos.y as int, hit.block_pos.z as int),
                        BlockType::Air,
                    ),
                ),
                None => region_view(final(self).regions(), hit.chunk_pos) is None,
            },
    {
        let loaded = self.get_chunk(hit.chunk_pos).is_some();
        self.set_block(hit.chunk_pos, hit.block_pos, BlockType::Air);
        loaded
    }

    /// Places `block_type` in the cell next to the hit cell across its entry
    /// face, generating that cell's region from `terrain` first where it is
    /// not loaded. Returns the region written.
    pub fn place_block<F: Fn(i64, i64) -> TerrainColumn>(
        &mut self,
        hit: &RaycastHit,
        block_type: BlockType,
        terrain: &F,
    ) -> (r: ChunkPos)
        requires
            old(self).wf(),
            hit_ok(*hit),
            forall|x: i64, z: i64| terrain.requires((x, z)),
        ensures
            final(self).wf(),
            final(self).radius() == old(self).radius(),
            r == place_target_spec(*hit).0,
            loaded_set(final(self).regions()) == loaded_set(old(self).regions()).insert(r),
            forall|p: ChunkPos|
                p != r ==> #[trigger] region_view(final(self).regions(), p) == region_view(
                    old(self).regions(),
                    p,
                ),
            ({
                let b = place_target_spec(*hit).1;
                let i = index_spec(b.x as int, b.y as int, b.z as int);
                match region_view(final(self).regions(), r) {
                    Some(cells) => {
                        &&& cell_spec(cells, b) == block_type
                        &&& match region_view(old(self).regions(), r) {
                            Some(before) => cells == before.update(i, block_type),
                            None => exists|g: Seq<BlockType>|
                                generated(g, r, *terrain) && cells == #[trigger] g.update(i, block_type),
                        }
                    },
                    None => false,
                }
            }),
    {
        let (tc, tb) = place_target(hit);
        let ghost i = index_spec(tb.x as int, tb.y as int, tb.z as int);
        if self.get_chunk(tc).is_none() {
            let mut chunk = spawn_chunk(tc, terrain);
            let ghost g = chunk@;
            chunk.set_block(tb, block_type);
            proof {
                Chunk::lemma_len(&chunk);
                crate::chunk::set_then_get(g, chunk@, tb, block_type, tb);
                assert(chunk@ == g.update(i, block_type));
            }
            self.insert_chunk(chunk);
        } else {
            let ghost s_before = self.regions();
            let ghost before = region_view(self.regions(), tc);
            proof {
                self.lemma_wf();
                crate::world::lemma_view_len(s_before, tc);
            }
            self.set_block(tc, tb, block_type);
            proof {
                let cells = region_view(self.regions(), tc).unwrap();
                let c0 = before.unwrap();
                crate::chunk::set_then_get(c0, cells, tb, block_type, tb);
            }
        }
        tc
    }
}

/// The block the observer aims at: none when aiming is off, else the first
/// non-empty cell along the view ray among the loaded regions.
pub fn block_targeting_system(
    aiming: bool,
    origin: FixedVec,
    direction: FixedVec,
    store: &ChunkManager,
) -> (r: Option<RaycastHit>)
    requires
        store.wf(),
        direction.x != 0 || direction.y != 0 || direction.z != 0,
        -0x100000000 <= direction.x <= 0x100000000,
        -0x100000000 <= direction.y <= 0x100000000,
        -0x100000000 <= direction.z <= 0x100000000,
        -0x10000000000 <= origin.x <= 0x10000000000,
        -0x10000000000 <= origin.y <= 0x10000000000,
        -0x10000000000 <= origin.z <= 0x10000000000,
    ensures
        !aiming ==> r is None,
        aiming ==> r == raycast_spec(origin, direction, store.regions()),
{
    if !aiming {
        return None;
    }
    proof {
        store.lemma_wf();
    }
    raycast_block(origin, direction, store.chunks())
}


/// What the host reports for one frame of interaction.
#[derive(Debug, Clone, Copy, PartialEq, Eq, Structural)]
pub struct InteractionInput {
    /// Whether aiming is enabled (the cursor is captured).
    pub aiming: bool,
    /// A break was requested this frame.
    pub break_pressed: bool,
    /// A placement was requested this frame.
    pub place_pressed: bool,
    /// Selection keys held: 1, 2 and 3.
    pub digit1: bool,
    pub digit2: bool,
    pub digit3: bool,
}

/// Whether `r` lists region `p`.
pub open spec fn lists(r: Seq<(ChunkPos, ChunkMesh)>, p: ChunkPos) -> bool {
    exists|i: int| 0 <= i < r.len() && (#[trigger] r[i]).0 == p
}

/// One frame of interaction with the targeted cell `hit`: with aiming on
/// and a target, a break request empties the hit cell and a place request
/// puts the selected block next to it across its entry face (generating
/// that region from `terrain` when it is not loaded). Returns the new mesh
/// of each region changed, built after all edits.
pub fn block_interaction_system<F: Fn(i64, i64) -> TerrainColumn>(
    store: &mut ChunkManager,
    hit: Option<RaycastHit>,
    input: InteractionInput,
    terrain: &F,
) -> (r: Vec<(ChunkPos, ChunkMesh)>)
    requires
        old(store).wf(),
        hit matches Some(h) ==> hit_ok(h),
        forall|x: i64, z: i64| terrain.requires((x, z)),
    ensures
        final(store).wf(),
        final(store).radius() == old(store).radius(),
        forall|i: int|
            0 <= i < r@.len() ==> match region_view(final(store).regions(), (#[trigger] r@[i]).0) {
                Some(cells) => mesh_matches(r@[i].1.vertices@, r@[i].1.indices@, cells, mesh_faces(cells)),
                None => false,
            },
        !input.aiming || hit is None ==> final(store).regions() == old(store).regions() && r@.len() == 0,
        input.aiming && hit is Some ==> ({
            let h = hit.unwrap();
            let (tc, tb) = place_target_spec(h);
            let t = select_spec(input.digit1, input.digit2, input.digit3);
            let broke = input.break_pressed && region_view(old(store).regions(), h.chunk_pos) is Some;
            &&& loaded_set(final(store).regions()) == if input.place_pressed {
                loaded_set(old(store).regions()).insert(tc)
            } else {
                loaded_set(old(store).regions())
            }
            &&& forall|p: ChunkPos|
                p != h.chunk_pos && (!input.place_pressed || p != tc) ==> #[trigger] region_view(
                    final(store).regions(),
                    p,
                ) == region_view(old(store).regions(), p)
            &&& forall|p: ChunkPos, b: BlockPos|
                valid_spec(b) && region_view(old(store).regions(), p) is Some && !(input.break_pressed
                    && p == h.chunk_pos && b == h.block_pos) && !(input.place_pressed && p == tc && b == tb)
                    ==> #[trigger] store_cell(final(store).regions(), p, b) == store_cell(
                    old(store).regions(),
                    p,
                    b,
                )
            &&& broke && !(input.place_pressed && tc == h.chunk_pos && tb == h.block_pos) ==> store_cell(
                final(store).regions(),
                h.chunk_pos,
                h.block_pos,
            ) == BlockType::Air
            &&& input.place_pressed ==> store_cell(final(store).regions(), tc, tb) == t
            &&& broke ==> lists(r@, h.chunk_pos)
            &&& input.place_pressed ==> lists(r@, tc)
        }),
{
    let mut meshes: Vec<(ChunkPos, ChunkMesh)> = Vec::new();
    if !input.aiming {
        return meshes;
    }
    let h = match hit {
        Some(h) => h,
        None => return meshes,
    };
    let ghost s0 = store.regions();
    let ghost hc = h.chunk_pos;
    let ghost hb = h.block_pos;
    let ghost tgt = place_target_spec(h);
    let ghost hi = index_spec(hb.x as int, hb.y as int, hb.z as int);
    let ghost ti = index_spec(tgt.1.x as int, tgt.1.y as int, tgt.1.z as int);
    proof {
        store.lemma_wf();
    }
    let mut broke = false;
    if input.break_pressed {
        broke = store.break_block(&h);
    }
    let ghost s1 = store.regions();
    proof {
        store.lemma_wf();
        assert forall|p: ChunkPos, b: BlockPos|
            valid_spec(b) && region_view(s0, p) is Some && !(input.break_pressed && p == hc && b == hb) implies
            #[trigger] store_cell(s1, p, b) == store_cell(s0, p, b) by {
            if input.break_pressed && p == hc {
                lemma_view_len(s0, p);
                crate::chunk::set_then_get(region_view(s0, p).unwrap(), region_view(s1, p).unwrap(), hb, BlockType::Air, b);
            }
        }
        if broke {
            lemma_view_len(s0, hc);
            crate::chunk::set_then_get(region_view(s0, hc).unwrap(), region_view(s1, hc).unwrap(), hb, BlockType::Air, hb);
        }
    }
    let mut placed_at = h.chunk_pos;
    if input.place_pressed {
        let t = select_block_type(input.digit1, input.digit2, input.digit3);
        placed_at = store.place_block(&h, t, terrain);
        proof {
            let s2 = store.regions();
            let tc = tgt.0;
            let tb = tgt.1;
            store.lemma_wf();
            assert forall|p: ChunkPos, b: BlockPos|
                valid_spec(b) && region_view(s1, p) is Some && !(p == tc && b == tb) implies
                #[trigger] store_cell(s2, p, b) == store_cell(s1, p, b) by {
                if p == tc {
                    lemma_view_len(s1, p);
                    crate::chunk::set_then_get(region_view(s1, p).unwrap(), region_view(s2, p).unwrap(), tb, t, b);
                }
            }
            if broke && !(tc == hc && tb == hb) {
                assert(store_cell(s2, hc, hb) == store_cell(s1, hc, hb));
            }
        }
    }
    let ghost s2 = store.regions();
    if broke {
        let m = store.mesh_of(h.chunk_pos);
        match m {
            Some(mesh) => meshes.push((h.chunk_pos, mesh)),
            None => {},
        }
        proof {
            assert(meshes@[0].0 == hc);
        }
    }
    if input.place_pressed && !(broke && placed_at == h.chunk_pos) {
        let m = store.mesh_of(placed_at);
        let ghost before = meshes@;
        match m {
            Some(mesh) => meshes.push((placed_at, mesh)),
            None => {},
        }
        proof {
            assert(meshes@[before.len() as int].0 == placed_at);
            if broke {
                assert(meshes@[0].0 == hc);
            }
        }
    }
    meshes
}

} // verus!
