use vstd::prelude::*;

use crate::block::BlockType;
use crate::chunk::{Chunk, all_wf, block_at_world, cell_spec, find_from, world_block};
use crate::coords::{BlockPos, ChunkPos, floor_div_i64};

verus! {

/// Fixed-point units per world unit, for ray origins and directions.
pub const FIXED_SCALE: i64 = 1024;

/// Longest reach of a ray, in world units.
pub const MAX_INTERACTION_DISTANCE: i64 = 5;

/// Most cells a ray steps through before giving up.
pub const MAX_RAY_STEPS: usize = 100;

/// A point or a vector in world space, in units of `1 / FIXED_SCALE`.
#[derive(Debug, Clone, Copy, PartialEq, Eq, Structural)]
pub struct FixedVec {
    pub x: i64,
    pub y: i64,
    pub z: i64,
}

/// The first non-empty cell that a ray meets.
#[derive(Debug, Clone, Copy, PartialEq, Eq)]
pub struct RaycastHit {
    /// Region holding the cell.
    pub chunk_pos: ChunkPos,
    /// The cell within its region.
    pub block_pos: BlockPos,
    /// Outward normal of the face through which the ray entered the cell;
    /// zero when the ray starts inside it.
    pub normal: (i32, i32, i32),
    /// Ray length to the entry face as the fraction
    /// `distance_num / distance_den`; for a direction of length
    /// `FIXED_SCALE` this is the distance in world units.
    pub distance_num: i64,
    pub distance_den: i64,
}

/// Where a ray walk stands: the current cell, the ray length (times each
/// axis rate) to the next boundary on each axis, the length and normal of
/// the last crossing.
pub struct RayState {
    pub cx: int,
    pub cy: int,
    pub cz: int,
    pub nx: int,
    pub ny: int,
    pub nz: int,
    pub dist_num: int,
    pub dist_den: int,
    pub normal: (int, int, int),
}

pub open spec fn abs_spec(v: int) -> int {
    if v < 0 { -v } else { v }
}

/// Step direction on an axis; a zero component steps forward.
pub open spec fn sgn_spec(v: int) -> int {
    if v < 0 { -1 } else { 1 }
}

/// Whether boundary time `n1 / a1` comes strictly before `n2 / a2`; an axis
/// with rate zero never reaches its boundary.
pub open spec fn earlier(n1: int, a1: int, n2: int, a2: int) -> bool {
    a1 != 0 && (a2 == 0 || n1 * a2 < n2 * a1)
}

/// Fixed-point distance from coordinate `o` to the first cell boundary in
/// the direction of `d`.
pub open spec fn first_gap(o: int, d: int) -> int {
    let frac = o % 1024;
    if d > 0 {
        if frac == 0 { 0 } else { 1024 - frac }
    } else if d < 0 {
        frac
    } else {
        0
    }
}

pub open spec fn ray_start(o: FixedVec, d: FixedVec) -> RayState {
    RayState {
        cx: o.x / 1024,
        cy: o.y / 1024,
        cz: o.z / 1024,
        nx: first_gap(o.x as int, d.x as int),
        ny: first_gap(o.y as int, d.y as int),
        nz: first_gap(o.z as int, d.z as int),
        dist_num: 0,
        dist_den: 1,
        normal: (0, 0, 0),
    }
}

/// One DDA step: cross the nearest boundary, into the next cell on that axis.
pub open spec fn ray_advance(s: RayState, d: FixedVec) -> RayState {
    let ax = abs_spec(d.x as int);
    let ay = abs_spec(d.y as int);
    let az = abs_spec(d.z as int);
    if earlier(s.nx, ax, s.ny, ay) && earlier(s.nx, ax, s.nz, az) {
        RayState {
            cx: s.cx + sgn_spec(d.x as int),
            cy: s.cy,
            cz: s.cz,
            nx: s.nx + 1024,
            ny: s.ny,
            nz: s.nz,
            dist_num: s.nx,
            dist_den: ax,
            normal: (-sgn_spec(d.x as int), 0, 0),
        }
    } else if earlier(s.ny, ay, s.nz, az) {
        RayState {
            cx: s.cx,
            cy: s.cy + sgn_spec(d.y as int),
            cz: s.cz,
            nx: s.nx,
            ny: s.ny + 1024,
            nz: s.nz,
            dist_num: s.ny,
            dist_den: ay,
            normal: (0, -sgn_spec(d.y as int), 0),
        }
    } else {
        RayState {
            cx: s.cx,
            cy: s.cy,
            cz: s.cz + sgn_spec(d.z as int),
            nx: s.nx,
            ny: s.ny,
            nz: s.nz + 1024,
            dist_num: s.nz,
            dist_den: az,
            normal: (0, 0, -sgn_spec(d.z as int)),
        }
    }
}

pub open spec fn hit_of(s: RayState) -> RaycastHit {
    RaycastHit {
        chunk_pos: ChunkPos { x: (s.cx / 16) as i32, y: (s.cy / 16) as i32, z: (s.cz / 16) as i32 },
        block_pos: BlockPos { x: (s.cx % 16) as usize, y: (s.cy % 16) as usize, z: (s.cz % 16) as usize },
        normal: (s.normal.0 as i32, s.normal.1 as i32, s.normal.2 as i32),
        distance_num: s.dist_num as i64,
        distance_den: s.dist_den as i64,
    }
}

/// The ray walk with `fuel` steps left: stop without a hit past the reach,
/// stop with a hit on a non-empty cell, else step.
pub open spec fn ray_march(chunks: Seq<Chunk>, s: RayState, d: FixedVec, fuel: nat) -> Option<RaycastHit>
    decreases fuel,
{
    if fuel == 0 {
        None
    } else if s.dist_num > 5 * s.dist_den {
        None
    } else if world_block(chunks, s.cx, s.cy, s.cz) != BlockType::Air {
        Some(hit_of(s))
    } else {
        ray_march(chunks, ray_advance(s, d), d, (fuel - 1) as nat)
    }
}

/// Result of casting a ray from `o` along `d` through `chunks`.
pub open spec fn raycast_spec(o: FixedVec, d: FixedVec, chunks: Seq<Chunk>) -> Option<RaycastHit> {
    ray_march(chunks, ray_start(o, d), d, 100)
}

/// Whether `n1 / a1` comes strictly before `n2 / a2`.
fn is_earlier(n1: i64, a1: i64, n2: i64, a2: i64) -> (r: bool)
    requires
        0 <= n1 <= 0x100000,
        0 <= n2 <= 0x100000,
        0 <= a1 <= 0x100000000,
        0 <= a2 <= 0x100000000,
    ensures
        r == earlier(n1 as int, a1 as int, n2 as int, a2 as int),
{
    proof {
        assert(0 <= n1 * a2 <= 0x100000 * 0x100000000) by (nonlinear_arith)
            requires
                0 <= n1 <= 0x100000,
                0 <= a2 <= 0x100000000,
        ;
        assert(0 <= n2 * a1 <= 0x100000 * 0x100000000) by (nonlinear_arith)
            requires
                0 <= n2 <= 0x100000,
                0 <= a1 <= 0x100000000,
        ;
    }
    a1 != 0 && (a2 == 0 || n1 * a2 < n2 * a1)
}

/// Fixed-point distance from `o`, whose cell starts at `cell * FIXED_SCALE`,
/// to the first cell boundary in the direction of `d`.
fn boundary_gap(o: i64, cell: i64, d: i64) -> (r: i64)
    requires
        o as int == 1024 * (cell as int) + (o as int) % 1024,
        0 <= (o as int) % 1024 < 1024,
    ensures
        r as int == first_gap(o as int, d as int),
        0 <= r <= 1024,
{
    let frac = o - cell * FIXED_SCALE;
    if d > 0 {
        if frac == 0 { 0 } else { FIXED_SCALE - frac }
    } else if d < 0 {
        frac
    } else {
        0
    }
}

/// Casts a ray from `origin` along `direction` and returns the first
/// non-empty cell it enters among `chunks`, stepping cell by cell along the
/// exact grid traversal (DDA): at each step the ray crosses the nearest cell
/// boundary. Cells of regions that are not in `chunks` are passed through.
/// There is no hit once the ray is longer than `MAX_INTERACTION_DISTANCE`
/// (for a direction of length `FIXED_SCALE`) or after `MAX_RAY_STEPS` steps.
pub fn raycast_block(origin: FixedVec, direction: FixedVec, chunks: &[Chunk]) -> (r: Option<RaycastHit>)
    requires
        all_wf(chunks@),
        direction.x != 0 || direction.y != 0 || direction.z != 0,
        -0x100000000 <= direction.x <= 0x100000000,
        -0x100000000 <= direction.y <= 0x100000000,
        -0x100000000 <= direction.z <= 0x100000000,
        -0x10000000000 <= origin.x <= 0x10000000000,
        -0x10000000000 <= origin.y <= 0x10000000000,
        -0x10000000000 <= origin.z <= 0x10000000000,
    ensures
        r == raycast_spec(origin, direction, chunks@),
        r matches Some(h) ==> h.block_pos.x < 16 && h.block_pos.y < 16 && h.block_pos.z < 16,
{
    let ax: i64 = if direction.x < 0 { -direction.x } else { direction.x };
    let ay: i64 = if direction.y < 0 { -direction.y } else { direction.y };
    let az: i64 = if direction.z < 0 { -direction.z } else { direction.z };
    let sx: i64 = if direction.x < 0 { -1 } else { 1 };
    let sy: i64 = if direction.y < 0 { -1 } else { 1 };
    let sz: i64 = if direction.z < 0 { -1 } else { 1 };
    let mut cx = floor_div_i64(origin.x, FIXED_SCALE);
    let mut cy = floor_div_i64(origin.y, FIXED_SCALE);
    let mut cz = floor_div_i64(origin.z, FIXED_SCALE);
    let mut nx = boundary_gap(origin.x, cx, direction.x);
    let mut ny = boundary_gap(origin.y, cy, direction.y);
    let mut nz = boundary_gap(origin.z, cz, direction.z);
    let mut dist_num: i64 = 0;
    let mut dist_den: i64 = 1;
    let mut normal: (i32, i32, i32) = (0, 0, 0);
    let ghost c0 = (cx as int, cy as int, cz as int);
    let mut i: usize = 0;
    while i < MAX_RAY_STEPS
        invariant
            i <= 100,
            all_wf(chunks@),
            ax == abs_spec(direction.x as int),
            ay == abs_spec(direction.y as int),
            az == abs_spec(direction.z as int),
            sx == sgn_spec(direction.x as int),
            sy == sgn_spec(direction.y as int),
            sz == sgn_spec(direction.z as int),
            0 <= ax <= 0x100000000,
            0 <= ay <= 0x100000000,
            0 <= az <= 0x100000000,
            -0x40000000int <= c0.0 <= 0x40000000int,
            -0x40000000int <= c0.1 <= 0x40000000int,
            -0x40000000int <= c0.2 <= 0x40000000int,
            c0.0 - i <= cx <= c0.0 + i,
            c0.1 - i <= cy <= c0.1 + i,
            c0.2 - i <= cz <= c0.2 + i,
            0 <= nx <= 1024 + 1024 * i,
            0 <= ny <= 1024 + 1024 * i,
            0 <= nz <= 1024 + 1024 * i,
            0 <= dist_num <= 1024 + 1024 * i,
            0 <= dist_den <= 0x100000000,
            -1 <= normal.0 <= 1 && -1 <= normal.1 <= 1 && -1 <= normal.2 <= 1,
            ray_march(
                chunks@,
                RayState {
                    cx: cx as int,
                    cy: cy as int,
                    cz: cz as int,
                    nx: nx as int,
                    ny: ny as int,
                    nz: nz as int,
                    dist_num: dist_num as int,
                    dist_den: dist_den as int,
                    normal: (normal.0 as int, normal.1 as int, normal.2 as int),
                },
                direction,
                (100 - i) as nat,
            ) == raycast_spec(origin, direction, chunks@),
        decreases 100 - i,
    {
        let ghost st = RayState {
            cx: cx as int,
            cy: cy as int,
            cz: cz as int,
            nx: nx as int,
            ny: ny as int,
            nz: nz as int,
            dist_num: dist_num as int,
            dist_den: dist_den as int,
            normal: (normal.0 as int, normal.1 as int, normal.2 as int),
        };
        if dist_num > MAX_INTERACTION_DISTANCE * dist_den {
            return None;
        }
        let block = block_at_world(chunks, cx, cy, cz);
        if block != BlockType::Air {
            let chunk_x = floor_div_i64(cx, 16);
            let chunk_y = floor_div_i64(cy, 16);
            let chunk_z = floor_div_i64(cz, 16);
            let hit = RaycastHit {
                chunk_pos: ChunkPos::new(chunk_x as i32, chunk_y as i32, chunk_z as i32),
                block_pos: BlockPos::new(
                    (cx - chunk_x * 16) as usize,
                    (cy - chunk_y * 16) as usize,
                    (cz - chunk_z * 16) as usize,
                ),
                normal,
                distance_num: dist_num,
                distance_den: dist_den,
            };
            proof {
                assert(hit == hit_of(st));
            }
            return Some(hit);
        }
        proof {
            assert(ray_march(chunks@, st, direction, (100 - i) as nat) == ray_march(
                chunks@,
                ray_advance(st, direction),
                direction,
                (100 - i - 1) as nat,
            ));
        }
        if is_earlier(nx, ax, ny, ay) && is_earlier(nx, ax, nz, az) {
            cx = cx + sx;
            dist_num = nx;
            dist_den = ax;
            nx = nx + FIXED_SCALE;
            normal = (-sx as i32, 0, 0);
        } else if is_earlier(ny, ay, nz, az) {
            cy = cy + sy;
            dist_num = ny;
            dist_den = ay;
            ny = ny + FIXED_SCALE;
            normal = (0, -sy as i32, 0);
        } else {
            cz = cz + sz;
            dist_num = nz;
            dist_den = az;
            nz = nz + FIXED_SCALE;
            normal = (0, 0, -sz as i32);
        }
        i = i + 1;
    }
    None
}


/// Each step of the walk moves to a face-adjacent cell: exactly one
/// coordinate changes, by one, so no cell along the ray is skipped; the
/// recorded normal points back toward the cell left.
pub proof fn ray_step_face_adjacent(s: RayState, d: FixedVec)
    ensures
        ({
            let t = ray_advance(s, d);
            let dx = t.cx - s.cx;
            let dy = t.cy - s.cy;
            let dz = t.cz - s.cz;
            &&& abs_spec(dx) + abs_spec(dy) + abs_spec(dz) == 1
            &&& t.normal == (-dx, -dy, -dz)
        }),
{
}

/// A hit names a cell of a loaded region, and that cell is not empty.
pub proof fn raycast_hit_nonempty(chunks: Seq<Chunk>, s: RayState, d: FixedVec, fuel: nat)
    requires
        ray_march(chunks, s, d, fuel) is Some,
    ensures
        ({
            let h = ray_march(chunks, s, d, fuel).unwrap();
            match find_from(chunks, h.chunk_pos, 0) {
                Some(i) => cell_spec(chunks[i]@, h.block_pos) != BlockType::Air,
                None => false,
            }
        }),
    decreases fuel,
{
    if fuel > 0 && !(s.dist_num > 5 * s.dist_den) {
        if world_block(chunks, s.cx, s.cy, s.cz) != BlockType::Air {
            assert(hit_of(s) == ray_march(chunks, s, d, fuel).unwrap());
        } else {
            raycast_hit_nonempty(chunks, ray_advance(s, d), d, (fuel - 1) as nat);
        }
    }
}

} // verus!
