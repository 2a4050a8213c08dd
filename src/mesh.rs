use vstd::prelude::*;

use crate::block::{BlockType, Rgba, color_spec};
use crate::chunk::{Chunk, Direction, cell_spec, face_visible_spec, normal_spec};
use crate::coords::{BlockPos, CHUNK_SIZE, index_spec, valid_spec};

verus! {

/// One vertex of a region's surface mesh, in region-local coordinates.
#[derive(Debug, Clone, Copy, PartialEq, Eq, Structural)]
pub struct MeshVertex {
    pub x: u32,
    pub y: u32,
    pub z: u32,
    /// Outward unit normal of the vertex's face.
    pub nx: i32,
    pub ny: i32,
    pub nz: i32,
    /// Block colour darkened by the occlusion factor, in thousandths.
    pub color: Rgba,
    /// Ambient occlusion factor in tenths: 5, 7, 8 or 10.
    pub ao: u32,
    /// Texture coordinates on the unit square.
    pub u: u32,
    pub v: u32,
}

/// A triangle list: four vertices per drawn face, six indices per face.
pub struct ChunkMesh {
    pub vertices: Vec<MeshVertex>,
    pub indices: Vec<u32>,
}

/// A drawn face: a cell and the side of it that is visible.
pub struct Face {
    pub pos: BlockPos,
    pub dir: Direction,
}

/// Whether local cell `(x, y, z)` counts as solid for occlusion: any cell
/// outside the region does, and inside it any cell that is not empty.
pub open spec fn solid_at(cells: Seq<BlockType>, x: int, y: int, z: int) -> bool {
    !(0 <= x < 16 && 0 <= y < 16 && 0 <= z < 16) || cells[index_spec(x, y, z)] != BlockType::Air
}

/// Occlusion factor, in tenths, from the two edge cells and the corner cell
/// of a vertex.
pub open spec fn ao_factor(edge1: bool, edge2: bool, corner: bool) -> u32 {
    if edge1 && edge2 {
        5
    } else if corner && !edge1 && !edge2 {
        7
    } else if edge1 || edge2 || corner {
        8
    } else {
        10
    }
}

/// Occlusion factor of a vertex whose neighbourhood is sampled at
/// `(x, y, z)` along the two edge directions `s1` and `s2`.
pub open spec fn ao_spec(
    cells: Seq<BlockType>,
    x: int,
    y: int,
    z: int,
    s1: (int, int, int),
    s2: (int, int, int),
) -> u32 {
    ao_factor(
        solid_at(cells, x + s1.0, y + s1.1, z + s1.2),
        solid_at(cells, x + s2.0, y + s2.1, z + s2.2),
        solid_at(cells, x + s1.0 + s2.0, y + s1.1 + s2.1, z + s1.2 + s2.2),
    )
}

/// Offset from a cell's minimum corner to vertex `j` of its face toward `d`.
pub open spec fn corner_spec(d: Direction, j: int) -> (int, int, int) {
    match d {
        Direction::PosY => if j == 0 { (0, 1, 0) } else if j == 1 { (1, 1, 0) } else if j == 2 { (1, 1, 1) } else { (0, 1, 1) },
        Direction::NegY => if j == 0 { (0, 0, 0) } else if j == 1 { (0, 0, 1) } else if j == 2 { (1, 0, 1) } else { (1, 0, 0) },
        Direction::PosZ => if j == 0 { (0, 0, 1) } else if j == 1 { (0, 1, 1) } else if j == 2 { (1, 1, 1) } else { (1, 0, 1) },
        Direction::NegZ => if j == 0 { (0, 0, 0) } else if j == 1 { (1, 0, 0) } else if j == 2 { (1, 1, 0) } else { (0, 1, 0) },
        Direction::PosX => if j == 0 { (1, 0, 0) } else if j == 1 { (1, 0, 1) } else if j == 2 { (1, 1, 1) } else { (1, 1, 0) },
        Direction::NegX => if j == 0 { (0, 0, 0) } else if j == 1 { (0, 1, 0) } else if j == 2 { (0, 1, 1) } else { (0, 0, 1) },
    }
}

/// Unit step from 0/1 corner offset `o`: toward the corner.
pub open spec fn edge_step(o: int) -> int {
    2 * o - 1
}

/// The two edge directions of vertex `j` of a face toward `d`: along the
/// face's two tangent axes, each toward the vertex's side.
pub open spec fn sides_spec(d: Direction, j: int) -> ((int, int, int), (int, int, int)) {
    let (ox, oy, oz) = corner_spec(d, j);
    match d {
        Direction::PosX | Direction::NegX => ((0, edge_step(oy), 0), (0, 0, edge_step(oz))),
        Direction::PosY | Direction::NegY => ((0, 0, edge_step(oz)), (edge_step(ox), 0, 0)),
        Direction::PosZ | Direction::NegZ => ((edge_step(ox), 0, 0), (0, edge_step(oy), 0)),
    }
}

/// Where the occlusion of vertex `j` is sampled: in the layer of cells beyond
/// the face, at the vertex's tangent offsets.
pub open spec fn ao_base_spec(p: BlockPos, d: Direction, j: int) -> (int, int, int) {
    let (ox, oy, oz) = corner_spec(d, j);
    let (nx, ny, nz) = normal_spec(d);
    (
        p.x + if nx != 0 { nx } else { ox },
        p.y + if ny != 0 { ny } else { oy },
        p.z + if nz != 0 { nz } else { oz },
    )
}

/// Occlusion factor of vertex `j` of the face of `p` toward `d`.
pub open spec fn vertex_ao(cells: Seq<BlockType>, p: BlockPos, d: Direction, j: int) -> u32 {
    let (bx, by, bz) = ao_base_spec(p, d, j);
    let (s1, s2) = sides_spec(d, j);
    ao_spec(cells, bx, by, bz, s1, s2)
}

/// A colour with its red, green and blue scaled by an occlusion factor.
pub open spec fn shade(c: Rgba, ao: u32) -> Rgba {
    Rgba {
        r: (c.r * ao / 10) as u32,
        g: (c.g * ao / 10) as u32,
        b: (c.b * ao / 10) as u32,
        a: c.a,
    }
}

pub open spec fn uv_spec(j: int) -> (u32, u32) {
    if j == 0 { (0, 0) } else if j == 1 { (1, 0) } else if j == 2 { (1, 1) } else { (0, 1) }
}

/// Vertex `j` of face `f` of a region with content `cells`.
pub open spec fn face_vertex(cells: Seq<BlockType>, f: Face, j: int) -> MeshVertex {
    let (ox, oy, oz) = corner_spec(f.dir, j);
    let (nx, ny, nz) = normal_spec(f.dir);
    let ao = vertex_ao(cells, f.pos, f.dir, j);
    MeshVertex {
        x: (f.pos.x + ox) as u32,
        y: (f.pos.y + oy) as u32,
        z: (f.pos.z + oz) as u32,
        nx: nx as i32,
        ny: ny as i32,
        nz: nz as i32,
        color: shade(color_spec(cell_spec(cells, f.pos)), ao),
        ao,
        u: uv_spec(j).0,
        v: uv_spec(j).1,
    }
}

/// The two triangles of a face, as vertex numbers within the face: split
/// along the diagonal 0-2 when its occlusion sum is larger, else along 1-3.
pub open spec fn triangles_spec(cells: Seq<BlockType>, f: Face) -> Seq<int> {
    let a0 = vertex_ao(cells, f.pos, f.dir, 0);
    let a1 = vertex_ao(cells, f.pos, f.dir, 1);
    let a2 = vertex_ao(cells, f.pos, f.dir, 2);
    let a3 = vertex_ao(cells, f.pos, f.dir, 3);
    if a0 + a2 > a1 + a3 {
        seq![0, 1, 2, 0, 2, 3]
    } else {
        seq![0, 1, 3, 1, 2, 3]
    }
}

/// The order in which the faces of a cell are considered.
pub open spec fn dir_at(k: int) -> Direction {
    if k == 0 {
        Direction::PosY
    } else if k == 1 {
        Direction::NegY
    } else if k == 2 {
        Direction::PosZ
    } else if k == 3 {
        Direction::NegZ
    } else if k == 4 {
        Direction::PosX
    } else {
        Direction::NegX
    }
}

/// Drawn faces of cell `p` among the first `k` directions.
pub open spec fn cell_faces(cells: Seq<BlockType>, p: BlockPos, k: nat) -> Seq<Face>
    decreases k,
{
    if k == 0 {
        Seq::empty()
    } else {
        let prev = cell_faces(cells, p, (k - 1) as nat);
        if face_visible_spec(cells, p, dir_at(k - 1)) {
            prev.push(Face { pos: p, dir: dir_at(k - 1) })
        } else {
            prev
        }
    }
}

/// Drawn faces of the first `z` cells of row `(x, y)`.
pub open spec fn row_faces(cells: Seq<BlockType>, x: nat, y: nat, z: nat) -> Seq<Face>
    decreases z,
{
    if z == 0 {
        Seq::empty()
    } else {
        row_faces(cells, x, y, (z - 1) as nat) + cell_faces(
            cells,
            BlockPos { x: x as usize, y: y as usize, z: (z - 1) as usize },
            6,
        )
    }
}

/// Drawn faces of the first `y` rows of slab `x`.
pub open spec fn slab_faces(cells: Seq<BlockType>, x: nat, y: nat) -> Seq<Face>
    decreases y,
{
    if y == 0 {
        Seq::empty()
    } else {
        slab_faces(cells, x, (y - 1) as nat) + row_faces(cells, x, (y - 1) as nat, 16)
    }
}

/// Drawn faces of the first `x` slabs.
pub open spec fn slabs_faces(cells: Seq<BlockType>, x: nat) -> Seq<Face>
    decreases x,
{
    if x == 0 {
        Seq::empty()
    } else {
        slabs_faces(cells, (x - 1) as nat) + slab_faces(cells, (x - 1) as nat, 16)
    }
}

/// Every drawn face of a region, cells taken by x, then y, then z, and each
/// cell's faces in the order +y, -y, +z, -z, +x, -x.
pub open spec fn mesh_faces(cells: Seq<BlockType>) -> Seq<Face> {
    slabs_faces(cells, 16)
}

/// The mesh has four vertices and six indices per face of `faces`, in that
/// order, as `face_vertex` and `triangles_spec` give them.
pub open spec fn mesh_matches(
    vertices: Seq<MeshVertex>,
    indices: Seq<u32>,
    cells: Seq<BlockType>,
    faces: Seq<Face>,
) -> bool {
    &&& vertices.len() == 4 * faces.len()
    &&& indices.len() == 6 * faces.len()
    &&& forall|k: int, j: int|
        0 <= k < faces.len() && 0 <= j < 4 ==> #[trigger] vertices[4 * k + j] == face_vertex(
            cells,
            faces[k],
            j,
        )
    &&& forall|k: int, j: int|
        0 <= k < faces.len() && 0 <= j < 6 ==> #[trigger] indices[6 * k + j] == 4 * k
            + triangles_spec(cells, faces[k])[j]
}

proof fn lemma_cell_faces_len(cells: Seq<BlockType>, p: BlockPos, k: nat)
    ensures
        cell_faces(cells, p, k).len() <= k,
        cell_spec(cells, p) == BlockType::Air ==> cell_faces(cells, p, k).len() == 0,
    decreases k,
{
    if k > 0 {
        lemma_cell_faces_len(cells, p, (k - 1) as nat);
    }
}

proof fn lemma_row_len(cells: Seq<BlockType>, x: nat, y: nat, z: nat)
    ensures
        row_faces(cells, x, y, z).len() <= 6 * z,
    decreases z,
{
    if z > 0 {
        lemma_row_len(cells, x, y, (z - 1) as nat);
        lemma_cell_faces_len(cells, BlockPos { x: x as usize, y: y as usize, z: (z - 1) as usize }, 6);
    }
}

proof fn lemma_slab_len(cells: Seq<BlockType>, x: nat, y: nat)
    ensures
        slab_faces(cells, x, y).len() <= 96 * y,
    decreases y,
{
    if y > 0 {
        lemma_slab_len(cells, x, (y - 1) as nat);
        lemma_row_len(cells, x, (y - 1) as nat, 16);
    }
}

proof fn lemma_slabs_len(cells: Seq<BlockType>, x: nat)
    ensures
        slabs_faces(cells, x).len() <= 1536 * x,
    decreases x,
{
    if x > 0 {
        lemma_slabs_len(cells, (x - 1) as nat);
        lemma_slab_len(cells, (x - 1) as nat, 16);
    }
}

/// Appending one face's vertices and indices keeps the mesh in step with the
/// face list.
proof fn lemma_push_face(
    v0: Seq<MeshVertex>,
    i0: Seq<u32>,
    v1: Seq<MeshVertex>,
    i1: Seq<u32>,
    cells: Seq<BlockType>,
    faces: Seq<Face>,
    f: Face,
)
    requires
        mesh_matches(v0, i0, cells, faces),
        v1.len() == v0.len() + 4,
        i1.len() == i0.len() + 6,
        forall|m: int| 0 <= m < v0.len() ==> v1[m] == v0[m],
        forall|m: int| 0 <= m < i0.len() ==> i1[m] == i0[m],
        forall|j: int| 0 <= j < 4 ==> v1[v0.len() + j] == face_vertex(cells, f, j),
        forall|j: int| 0 <= j < 6 ==> i1[i0.len() + j] == v0.len() + triangles_spec(cells, f)[j],
    ensures
        mesh_matches(v1, i1, cells, faces.push(f)),
{
    let fs = faces.push(f);
    let n = faces.len() as int;
    assert forall|k: int, j: int| 0 <= k < fs.len() && 0 <= j < 4 implies #[trigger] v1[4 * k + j]
        == face_vertex(cells, fs[k], j) by {
        if k < n {
            assert(v0[4 * k + j] == face_vertex(cells, faces[k], j));
        } else {
            assert(4 * k + j == v0.len() + j);
        }
    }
    assert forall|k: int, j: int| 0 <= k < fs.len() && 0 <= j < 6 implies #[trigger] i1[6 * k + j]
        == 4 * k + triangles_spec(cells, fs[k])[j] by {
        if k < n {
            assert(i0[6 * k + j] == 4 * k + triangles_spec(cells, faces[k])[j]);
        } else {
            assert(6 * k + j == i0.len() + j);
        }
    }
}

impl Chunk {
    /// Whether local cell `(x, y, z)` counts as solid for occlusion; cells
    /// outside the region do.
    fn is_position_solid(&self, x: i32, y: i32, z: i32) -> (r: bool)
        requires
            self.wf(),
        ensures
            r == solid_at(self@, x as int, y as int, z as int),
    {
        if x < 0 || y < 0 || z < 0 || x >= CHUNK_SIZE as i32 || y >= CHUNK_SIZE as i32 || z
            >= CHUNK_SIZE as i32 {
            return true;
        }
        let b = self.get_block(BlockPos::new(x as usize, y as usize, z as usize));
        b != BlockType::Air
    }

    /// Occlusion factor, in tenths, of a vertex sampled at `(x, y, z)` with
    /// edge directions `side1` and `side2`.
    fn calculate_ao(&self, x: i32, y: i32, z: i32, side1: (i32, i32, i32), side2: (i32, i32, i32)) -> (r: u32)
        requires
            self.wf(),
            -2 <= x <= 18,
            -2 <= y <= 18,
            -2 <= z <= 18,
            -1 <= side1.0 <= 1 && -1 <= side1.1 <= 1 && -1 <= side1.2 <= 1,
            -1 <= side2.0 <= 1 && -1 <= side2.1 <= 1 && -1 <= side2.2 <= 1,
        ensures
            r == ao_spec(
                self@,
                x as int,
                y as int,
                z as int,
                (side1.0 as int, side1.1 as int, side1.2 as int),
                (side2.0 as int, side2.1 as int, side2.2 as int),
            ),
    {
        let side1_solid = self.is_position_solid(x + side1.0, y + side1.1, z + side1.2);
        let side2_solid = self.is_position_solid(x + side2.0, y + side2.1, z + side2.2);
        let corner_solid = self.is_position_solid(
            x + side1.0 + side2.0,
            y + side1.1 + side2.1,
            z + side1.2 + side2.2,
        );
        if side1_solid && side2_solid {
            return 5;
        }
        if corner_solid && (!side1_solid && !side2_solid) {
            return 7;
        }
        if side1_solid || side2_solid || corner_solid {
            return 8;
        }
        10
    }
}


/// Offset from a cell's minimum corner to vertex `j` of its face toward `d`.
fn corner_offset(d: Direction, j: usize) -> (r: (u32, u32, u32))
    requires
        j < 4,
    ensures
        (r.0 as int, r.1 as int, r.2 as int) == corner_spec(d, j as int),
        r.0 <= 1 && r.1 <= 1 && r.2 <= 1,
{
    match d {
        Direction::PosY => if j == 0 { (0, 1, 0) } else if j == 1 { (1, 1, 0) } else if j == 2 { (1, 1, 1) } else { (0, 1, 1) },
        Direction::NegY => if j == 0 { (0, 0, 0) } else if j == 1 { (0, 0, 1) } else if j == 2 { (1, 0, 1) } else { (1, 0, 0) },
        Direction::PosZ => if j == 0 { (0, 0, 1) } else if j == 1 { (0, 1, 1) } else if j == 2 { (1, 1, 1) } else { (1, 0, 1) },
        Direction::NegZ => if j == 0 { (0, 0, 0) } else if j == 1 { (1, 0, 0) } else if j == 2 { (1, 1, 0) } else { (0, 1, 0) },
        Direction::PosX => if j == 0 { (1, 0, 0) } else if j == 1 { (1, 0, 1) } else if j == 2 { (1, 1, 1) } else { (1, 1, 0) },
        Direction::NegX => if j == 0 { (0, 0, 0) } else if j == 1 { (0, 1, 0) } else if j == 2 { (0, 1, 1) } else { (0, 0, 1) },
    }
}

/// The order in which the faces of a cell are considered.
fn direction_at(k: usize) -> (r: Direction)
    ensures
        r == dir_at(k as int),
{
    if k == 0 {
        Direction::PosY
    } else if k == 1 {
        Direction::NegY
    } else if k == 2 {
        Direction::PosZ
    } else if k == 3 {
        Direction::NegZ
    } else if k == 4 {
        Direction::PosX
    } else {
        Direction::NegX
    }
}

/// Texture coordinates of vertex `j` of a face.
fn uv_of(j: usize) -> (r: (u32, u32))
    ensures
        r == uv_spec(j as int),
{
    if j == 0 { (0, 0) } else if j == 1 { (1, 0) } else if j == 2 { (1, 1) } else { (0, 1) }
}

impl Chunk {
    /// Occlusion factor of vertex `j` of the face of `pos` toward `d`.
    fn corner_ao(&self, pos: BlockPos, d: Direction, j: usize) -> (r: u32)
        requires
            self.wf(),
            valid_spec(pos),
            j < 4,
        ensures
            r == vertex_ao(self@, pos, d, j as int),
    {
        let (ox, oy, oz) = corner_offset(d, j);
        let (nx, ny, nz) = d.normal();
        let bx: i32 = pos.x as i32 + if nx != 0 { nx } else { ox as i32 };
        let by: i32 = pos.y as i32 + if ny != 0 { ny } else { oy as i32 };
        let bz: i32 = pos.z as i32 + if nz != 0 { nz } else { oz as i32 };
        let ex: i32 = 2 * ox as i32 - 1;
        let ey: i32 = 2 * oy as i32 - 1;
        let ez: i32 = 2 * oz as i32 - 1;
        let (s1, s2) = match d {
            Direction::PosX | Direction::NegX => ((0i32, ey, 0i32), (0i32, 0i32, ez)),
            Direction::PosY | Direction::NegY => ((0i32, 0i32, ez), (ex, 0i32, 0i32)),
            Direction::PosZ | Direction::NegZ => ((ex, 0i32, 0i32), (0i32, ey, 0i32)),
        };
        self.calculate_ao(bx, by, bz, s1, s2)
    }

    /// Appends the four vertices and two triangles of the face of `pos`
    /// toward `direction`, shaded from the block colour `color`.
    fn add_face(
        &self,
        vertices: &mut Vec<MeshVertex>,
        indices: &mut Vec<u32>,
        direction: Direction,
        pos: BlockPos,
        color: Rgba,
        Ghost(faces): Ghost<Seq<Face>>,
    )
        requires
            self.wf(),
            valid_spec(pos),
            color == color_spec(cell_spec(self@, pos)),
            mesh_matches(old(vertices)@, old(indices)@, self@, faces),
            faces.len() < 24576,
        ensures
            mesh_matches(final(vertices)@, final(indices)@, self@, faces.push(Face { pos, dir: direction })),
    {
        let ghost v0 = vertices@;
        let ghost i0 = indices@;
        let ghost f = Face { pos, dir: direction };
        let index_offset = vertices.len() as u32;
        let (nx, ny, nz) = direction.normal();
        let ao0 = self.corner_ao(pos, direction, 0);
        let ao1 = self.corner_ao(pos, direction, 1);
        let ao2 = self.corner_ao(pos, direction, 2);
        let ao3 = self.corner_ao(pos, direction, 3);
        let mut j: usize = 0;
        while j < 4
            invariant
                j <= 4,
                self.wf(),
                valid_spec(pos),
                color == color_spec(cell_spec(self@, pos)),
                vertices@.len() == v0.len() + j,
                forall|m: int| 0 <= m < v0.len() ==> vertices@[m] == v0[m],
                forall|m: int| 0 <= m < j ==> vertices@[v0.len() + m] == face_vertex(self@, f, m),
                f == (Face { pos, dir: direction }),
                (nx as int, ny as int, nz as int) == normal_spec(direction),
                ao0 == vertex_ao(self@, pos, direction, 0),
                ao1 == vertex_ao(self@, pos, direction, 1),
                ao2 == vertex_ao(self@, pos, direction, 2),
                ao3 == vertex_ao(self@, pos, direction, 3),
                color.r <= 1000 && color.g <= 1000 && color.b <= 1000,
            decreases 4 - j,
        {
            let ao = if j == 0 { ao0 } else if j == 1 { ao1 } else if j == 2 { ao2 } else { ao3 };
            let (ox, oy, oz) = corner_offset(direction, j);
            let (u, v) = uv_of(j);
            let vertex = MeshVertex {
                x: pos.x as u32 + ox,
                y: pos.y as u32 + oy,
                z: pos.z as u32 + oz,
                nx,
                ny,
                nz,
                color: Rgba {
                    r: color.r * ao / 10,
                    g: color.g * ao / 10,
                    b: color.b * ao / 10,
                    a: color.a,
                },
                ao,
                u,
                v,
            };
            vertices.push(vertex);
            j = j + 1;
        }
        let tri: [u32; 6] = if ao0 + ao2 > ao1 + ao3 {
            [0, 1, 2, 0, 2, 3]
        } else {
            [0, 1, 3, 1, 2, 3]
        };
        let mut t: usize = 0;
        while t < 6
            invariant
                t <= 6,
                indices@.len() == i0.len() + t,
                forall|m: int| 0 <= m < i0.len() ==> indices@[m] == i0[m],
                forall|m: int| 0 <= m < t ==> indices@[i0.len() + m] == v0.len() + triangles_spec(self@, f)[m],
                forall|m: int| 0 <= m < 6 ==> tri@[m] == triangles_spec(self@, f)[m],
                index_offset as int == v0.len(),
                v0.len() < 4 * 24576,
            decreases 6 - t,
        {
            indices.push(index_offset + tri[t]);
            t = t + 1;
        }
        proof {
            lemma_push_face(v0, i0, vertices@, indices@, self@, faces, f);
        }
    }

    /// Appends the face of `pos` toward `direction`, in the colour of the
    /// block it belongs to.
    fn add_face_to_mesh(
        &self,
        vertices: &mut Vec<MeshVertex>,
        indices: &mut Vec<u32>,
        pos: BlockPos,
        direction: Direction,
        block_type: BlockType,
        Ghost(faces): Ghost<Seq<Face>>,
    )
        requires
            self.wf(),
            valid_spec(pos),
            block_type == cell_spec(self@, pos),
            mesh_matches(old(vertices)@, old(indices)@, self@, faces),
            faces.len() < 24576,
        ensures
            mesh_matches(final(vertices)@, final(indices)@, self@, faces.push(Face { pos, dir: direction })),
    {
        let color = block_type.get_color();
        self.add_face(vertices, indices, direction, pos, color, Ghost(faces));
    }

    /// Base colour of the material a region's mesh is drawn with: a neutral
    /// grey that the vertex colours tint.
    pub fn build_material(&self) -> (r: Rgba)
        ensures
            r == (Rgba { r: 500, g: 500, b: 500, a: 1000 }),
    {
        Rgba { r: 500, g: 500, b: 500, a: 1000 }
    }

    /// The region's surface mesh: every drawn face, four vertices and two
    /// triangles each, in the order of `mesh_faces`. An empty region gives an
    /// empty mesh.
    pub fn build_mesh(&self) -> (r: ChunkMesh)
        requires
            self.wf(),
        ensures
            mesh_matches(r.vertices@, r.indices@, self@, mesh_faces(self@)),
    {
        let ghost cells = self@;
        let mut vertices: Vec<MeshVertex> = Vec::new();
        let mut indices: Vec<u32> = Vec::new();
        let ghost mut fs: Seq<Face> = Seq::empty();
        let mut x: usize = 0;
        while x < CHUNK_SIZE
            invariant
                x <= 16,
                self.wf(),
                cells == self@,
                fs == slabs_faces(cells, x as nat),
                mesh_matches(vertices@, indices@, cells, fs),
            decreases 16 - x,
        {
            let mut y: usize = 0;
            proof {
                assert(fs + slab_faces(cells, x as nat, 0) =~= fs);
            }
            while y < CHUNK_SIZE
                invariant
                    x < 16,
                    y <= 16,
                    self.wf(),
                    cells == self@,
                    fs == slabs_faces(cells, x as nat) + slab_faces(cells, x as nat, y as nat),
                    mesh_matches(vertices@, indices@, cells, fs),
                decreases 16 - y,
            {
                let mut z: usize = 0;
                proof {
                    assert(fs + row_faces(cells, x as nat, y as nat, 0) =~= fs);
                }
                while z < CHUNK_SIZE
                    invariant
                        x < 16,
                        y < 16,
                        z <= 16,
                        self.wf(),
                        cells == self@,
                        fs == slabs_faces(cells, x as nat) + slab_faces(cells, x as nat, y as nat)
                            + row_faces(cells, x as nat, y as nat, z as nat),
                        mesh_matches(vertices@, indices@, cells, fs),
                    decreases 16 - z,
                {
                    let ghost pre = fs;
                    let block_pos = BlockPos::new(x, y, z);
                    let block_type = self.get_block(block_pos);
                    proof {
                        lemma_slabs_len(cells, x as nat);
                        lemma_slab_len(cells, x as nat, y as nat);
                        lemma_row_len(cells, x as nat, y as nat, z as nat);
                        lemma_cell_faces_len(cells, block_pos, 6);
                        assert(pre + cell_faces(cells, block_pos, 0) =~= pre);
                    }
                    if block_type != BlockType::Air {
                        let mut k: usize = 0;
                        while k < 6
                            invariant
                                x < 16,
                                y < 16,
                                z < 16,
                                k <= 6,
                                self.wf(),
                                cells == self@,
                                block_pos == (BlockPos { x, y, z }),
                                block_type == cell_spec(cells, block_pos),
                                pre.len() <= 1536 * x + 96 * y + 6 * z,
                                fs == pre + cell_faces(cells, block_pos, k as nat),
                                mesh_matches(vertices@, indices@, cells, fs),
                            decreases 6 - k,
                        {
                            let direction = direction_at(k);
                            proof {
                                lemma_cell_faces_len(cells, block_pos, k as nat);
                            }
                            if self.should_render_face(block_pos, direction) {
                                self.add_face_to_mesh(
                                    &mut vertices,
                                    &mut indices,
                                    block_pos,
                                    direction,
                                    block_type,
                                    Ghost(fs),
                                );
                                proof {
                                    let f = Face { pos: block_pos, dir: direction };
                                    assert(pre + cell_faces(cells, block_pos, (k + 1) as nat) =~= fs.push(f));
                                    fs = fs.push(f);
                                }
                            }
                            k = k + 1;
                        }
                    }
                    proof {
                        assert(pre + cell_faces(cells, block_pos, 6) =~= fs);
                        assert(slabs_faces(cells, x as nat) + slab_faces(cells, x as nat, y as nat)
                            + row_faces(cells, x as nat, y as nat, (z + 1) as nat) =~= fs);
                    }
                    z = z + 1;
                }
                proof {
                    assert(slabs_faces(cells, x as nat) + slab_faces(cells, x as nat, (y + 1) as nat) =~= fs);
                }
                y = y + 1;
            }
            proof {
                assert(slabs_faces(cells, (x + 1) as nat) =~= fs);
            }
            x = x + 1;
        }
        ChunkMesh { vertices, indices }
    }
}


/// Content of the region whose only non-empty cell is `p`, holding `t`.
pub open spec fn lone_cell(p: BlockPos, t: BlockType) -> Seq<BlockType> {
    Seq::new(4096, |i: int| BlockType::Air).update(index_spec(p.x as int, p.y as int, p.z as int), t)
}

proof fn lemma_lone_cell_at(p: BlockPos, t: BlockType, q: BlockPos)
    requires
        valid_spec(p),
        valid_spec(q),
    ensures
        cell_spec(lone_cell(p, t), q) == (if q == p { t } else { BlockType::Air }),
{
    crate::chunk::set_then_get(Seq::new(4096, |i: int| BlockType::Air), lone_cell(p, t), p, t, q);
}

proof fn lemma_lone_row(p: BlockPos, t: BlockType, x: nat, y: nat, z: nat)
    requires
        valid_spec(p),
        t != BlockType::Air,
        x < 16,
        y < 16,
        z <= 16,
    ensures
        row_faces(lone_cell(p, t), x, y, z).len() == if x == p.x && y == p.y && p.z < z { 6int } else { 0int },
    decreases z,
{
    let cells = lone_cell(p, t);
    if z > 0 {
        lemma_lone_row(p, t, x, y, (z - 1) as nat);
        let q = BlockPos { x: x as usize, y: y as usize, z: (z - 1) as usize };
        lemma_lone_cell_at(p, t, q);
        lemma_cell_faces_len(cells, q, 6);
        if q == p {
            assert forall|k: nat| k <= 6 implies #[trigger] cell_faces(cells, q, k).len() == k by {
                lemma_lone_all_visible(p, t, k);
            }
        }
    }
}

proof fn lemma_lone_all_visible(p: BlockPos, t: BlockType, k: nat)
    requires
        valid_spec(p),
        t != BlockType::Air,
        k <= 6,
    ensures
        cell_faces(lone_cell(p, t), p, k).len() == k,
    decreases k,
{
    let cells = lone_cell(p, t);
    if k > 0 {
        lemma_lone_all_visible(p, t, (k - 1) as nat);
        lemma_lone_cell_at(p, t, p);
        let d = dir_at(k - 1);
        let (nx, ny, nz) = normal_spec(d);
        let qx = p.x + nx;
        let qy = p.y + ny;
        let qz = p.z + nz;
        if 0 <= qx < 16 && 0 <= qy < 16 && 0 <= qz < 16 {
            let q = BlockPos { x: qx as usize, y: qy as usize, z: qz as usize };
            lemma_lone_cell_at(p, t, q);
        }
    }
}

proof fn lemma_lone_slab(p: BlockPos, t: BlockType, x: nat, y: nat)
    requires
        valid_spec(p),
        t != BlockType::Air,
        x < 16,
        y <= 16,
    ensures
        slab_faces(lone_cell(p, t), x, y).len() == if x == p.x && p.y < y { 6int } else { 0int },
    decreases y,
{
    if y > 0 {
        lemma_lone_slab(p, t, x, (y - 1) as nat);
        lemma_lone_row(p, t, x, (y - 1) as nat, 16);
    }
}

proof fn lemma_lone_slabs(p: BlockPos, t: BlockType, x: nat)
    requires
        valid_spec(p),
        t != BlockType::Air,
        x <= 16,
    ensures
        slabs_faces(lone_cell(p, t), x).len() == if p.x < x { 6int } else { 0int },
    decreases x,
{
    if x > 0 {
        lemma_lone_slabs(p, t, (x - 1) as nat);
        lemma_lone_slab(p, t, (x - 1) as nat, 16);
    }
}

proof fn lemma_empty_row(cells: Seq<BlockType>, x: nat, y: nat, z: nat)
    requires
        cells.len() == 4096,
        forall|i: int| 0 <= i < 4096 ==> cells[i] == BlockType::Air,
        x < 16,
        y < 16,
        z <= 16,
    ensures
        row_faces(cells, x, y, z).len() == 0,
    decreases z,
{
    if z > 0 {
        lemma_empty_row(cells, x, y, (z - 1) as nat);
        let q = BlockPos { x: x as usize, y: y as usize, z: (z - 1) as usize };
        crate::coords::index_bijection(x as int, y as int, (z - 1) as int);
        lemma_cell_faces_len(cells, q, 6);
    }
}

/// A region in which every cell is empty has no drawn face, so its mesh has
/// no vertex and no index.
pub proof fn empty_region_empty_mesh(cells: Seq<BlockType>, vertices: Seq<MeshVertex>, indices: Seq<u32>)
    requires
        cells.len() == 4096,
        forall|i: int| 0 <= i < 4096 ==> cells[i] == BlockType::Air,
        mesh_matches(vertices, indices, cells, mesh_faces(cells)),
    ensures
        mesh_faces(cells).len() == 0,
        vertices.len() == 0,
        indices.len() == 0,
{
    assert forall|x: nat| x <= 16 implies #[trigger] slabs_faces(cells, x).len() == 0 by {
        lemma_empty_slabs(cells, x);
    }
}

proof fn lemma_empty_slabs(cells: Seq<BlockType>, x: nat)
    requires
        cells.len() == 4096,
        forall|i: int| 0 <= i < 4096 ==> cells[i] == BlockType::Air,
        x <= 16,
    ensures
        slabs_faces(cells, x).len() == 0,
    decreases x,
{
    if x > 0 {
        lemma_empty_slabs(cells, (x - 1) as nat);
        assert forall|y: nat| y <= 16 implies #[trigger] slab_faces(cells, (x - 1) as nat, y).len() == 0 by {
            lemma_empty_slab(cells, (x - 1) as nat, y);
        }
    }
}

proof fn lemma_empty_slab(cells: Seq<BlockType>, x: nat, y: nat)
    requires
        cells.len() == 4096,
        forall|i: int| 0 <= i < 4096 ==> cells[i] == BlockType::Air,
        x < 16,
        y <= 16,
    ensures
        slab_faces(cells, x, y).len() == 0,
    decreases y,
{
    if y > 0 {
        lemma_empty_slab(cells, x, (y - 1) as nat);
        lemma_empty_row(cells, x, (y - 1) as nat, 16);
    }
}

/// A region whose only non-empty cell is `p` draws exactly the six faces of
/// that cell: 24 vertices and 36 indices. Faces on the region's boundary are
/// drawn as well, whatever lies beyond it.
pub proof fn lone_cell_six_faces(p: BlockPos, t: BlockType, vertices: Seq<MeshVertex>, indices: Seq<u32>)
    requires
        valid_spec(p),
        t != BlockType::Air,
        mesh_matches(vertices, indices, lone_cell(p, t), mesh_faces(lone_cell(p, t))),
    ensures
        mesh_faces(lone_cell(p, t)).len() == 6,
        vertices.len() == 24,
        indices.len() == 36,
{
    lemma_lone_slabs(p, t, 16);
}

/// A non-empty cell on the region's boundary always draws its face on that
/// boundary.
pub proof fn boundary_face_drawn(cells: Seq<BlockType>, p: BlockPos, d: Direction)
    requires
        cells.len() == 4096,
        valid_spec(p),
        cell_spec(cells, p) != BlockType::Air,
        ({
            let (nx, ny, nz) = normal_spec(d);
            !(0 <= p.x + nx < 16 && 0 <= p.y + ny < 16 && 0 <= p.z + nz < 16)
        }),
    ensures
        face_visible_spec(cells, p, d),
{
}

/// Two solid edge cells give a vertex the darkest occlusion, 5 tenths,
/// whatever the corner cell holds; cells outside the region count as solid.
pub proof fn both_edges_darkest(cells: Seq<BlockType>, x: int, y: int, z: int, s1: (int, int, int), s2: (int, int, int))
    requires
        solid_at(cells, x + s1.0, y + s1.1, z + s1.2),
        solid_at(cells, x + s2.0, y + s2.1, z + s2.2),
    ensures
        ao_spec(cells, x, y, z, s1, s2) == 5,
        ao_factor(true, true, true) == 5 && ao_factor(true, true, false) == 5,
{
}

} // verus!
