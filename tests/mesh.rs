use voxel_world::block::{BlockType, Rgba};
use voxel_world::chunk::Chunk;
use voxel_world::coords::{BlockPos, ChunkPos};
use voxel_world::mesh::ChunkMesh;

fn face_at(mesh: &ChunkMesh, x: u32, y: u32, z: u32, n: (i32, i32, i32)) -> usize {
    (0..mesh.vertices.len() / 4)
        .find(|k| {
            let v = mesh.vertices[4 * k];
            (v.x, v.y, v.z) == (x, y, z) && (v.nx, v.ny, v.nz) == n
        })
        .unwrap()
}

#[test]
fn empty_region_has_empty_mesh() {
    let c = Chunk::new(ChunkPos::new(0, 0, 0));
    let mesh = c.build_mesh();
    assert_eq!(mesh.vertices.len(), 0);
    assert_eq!(mesh.indices.len(), 0);
}

#[test]
fn lone_cell_has_six_faces() {
    let mut c = Chunk::new(ChunkPos::new(0, 0, 0));
    c.set_block(BlockPos::new(7, 7, 7), BlockType::Stone);
    let mesh = c.build_mesh();
    assert_eq!(mesh.vertices.len(), 24);
    assert_eq!(mesh.indices.len(), 36);
    for v in &mesh.vertices {
        assert_eq!(v.ao, 10);
        assert_eq!(v.color, Rgba { r: 500, g: 500, b: 500, a: 1000 });
    }
    // Faces in the order +y, -y, +z, -z, +x, -x.
    let normals: Vec<(i32, i32, i32)> = (0..6).map(|k| {
        let v = mesh.vertices[4 * k];
        (v.nx, v.ny, v.nz)
    }).collect();
    assert_eq!(normals, vec![(0, 1, 0), (0, -1, 0), (0, 0, 1), (0, 0, -1), (1, 0, 0), (-1, 0, 0)]);
    // Equal occlusion splits along the diagonal 1-3.
    assert_eq!(&mesh.indices[0..6], &[0, 1, 3, 1, 2, 3]);
    let uv: Vec<(u32, u32)> = mesh.vertices[0..4].iter().map(|v| (v.u, v.v)).collect();
    assert_eq!(uv, vec![(0, 0), (1, 0), (1, 1), (0, 1)]);
}

#[test]
fn boundary_cell_draws_boundary_faces() {
    let mut c = Chunk::new(ChunkPos::new(0, 0, 0));
    c.set_block(BlockPos::new(0, 0, 0), BlockType::Dirt);
    let mesh = c.build_mesh();
    assert_eq!(mesh.vertices.len(), 24);
    let k = face_at(&mesh, 0, 0, 0, (0, -1, 0));
    // Beyond the region counts as solid for occlusion: both edges solid.
    for j in 0..4 {
        assert_eq!(mesh.vertices[4 * k + j].ao, 5);
    }
    assert_eq!(mesh.vertices[4 * k].color, Rgba { r: 300, g: 200, b: 100, a: 1000 });
}

#[test]
fn occlusion_cases() {
    let mut c = Chunk::new(ChunkPos::new(0, 0, 0));
    c.set_block(BlockPos::new(5, 5, 5), BlockType::Stone);
    // Corner only, for vertex 0 of the top face.
    c.set_block(BlockPos::new(4, 6, 4), BlockType::Stone);
    let mesh = c.build_mesh();
    let k = face_at(&mesh, 5, 6, 5, (0, 1, 0));
    let ao: Vec<u32> = (0..4).map(|j| mesh.vertices[4 * k + j].ao).collect();
    assert_eq!(ao, vec![7, 10, 10, 10]);
    assert_eq!(mesh.vertices[4 * k].color, Rgba { r: 350, g: 350, b: 350, a: 1000 });

    // One edge only.
    let mut c = Chunk::new(ChunkPos::new(0, 0, 0));
    c.set_block(BlockPos::new(5, 5, 5), BlockType::Stone);
    c.set_block(BlockPos::new(5, 6, 4), BlockType::Stone);
    let mesh = c.build_mesh();
    let k = face_at(&mesh, 5, 6, 5, (0, 1, 0));
    let ao: Vec<u32> = (0..4).map(|j| mesh.vertices[4 * k + j].ao).collect();
    assert_eq!(ao, vec![8, 10, 10, 10]);

    // Both edges, with and without the corner.
    for corner in [false, true] {
        let mut c = Chunk::new(ChunkPos::new(0, 0, 0));
        c.set_block(BlockPos::new(5, 5, 5), BlockType::Stone);
        c.set_block(BlockPos::new(5, 6, 4), BlockType::Stone);
        c.set_block(BlockPos::new(4, 6, 5), BlockType::Stone);
        if corner {
            c.set_block(BlockPos::new(4, 6, 4), BlockType::Stone);
        }
        let mesh = c.build_mesh();
        let k = face_at(&mesh, 5, 6, 5, (0, 1, 0));
        assert_eq!(mesh.vertices[4 * k].ao, 5);
    }
}

#[test]
fn diagonal_follows_larger_occlusion_sum() {
    let mut c = Chunk::new(ChunkPos::new(0, 0, 0));
    c.set_block(BlockPos::new(5, 5, 5), BlockType::Stone);
    c.set_block(BlockPos::new(7, 6, 4), BlockType::Stone);
    let mesh = c.build_mesh();
    let k = face_at(&mesh, 5, 6, 5, (0, 1, 0));
    let ao: Vec<u32> = (0..4).map(|j| mesh.vertices[4 * k + j].ao).collect();
    assert_eq!(ao, vec![10, 7, 10, 10]);
    let base = 4 * k as u32;
    let tri: Vec<u32> = mesh.indices[6 * k..6 * k + 6].iter().map(|i| i - base).collect();
    assert_eq!(tri, vec![0, 1, 2, 0, 2, 3]);
}

#[test]
fn water_neighbor_keeps_face_but_occludes() {
    let mut c = Chunk::new(ChunkPos::new(0, 0, 0));
    c.set_block(BlockPos::new(5, 5, 5), BlockType::Stone);
    c.set_block(BlockPos::new(5, 6, 5), BlockType::Water);
    let mesh = c.build_mesh();
    // Stone draws its top face under water; water draws every face but
    // the one resting on the stone.
    assert_eq!(mesh.vertices.len(), 44);
    let k = face_at(&mesh, 5, 6, 5, (0, 1, 0));
    assert_eq!(mesh.vertices[4 * k].color, Rgba { r: 500, g: 500, b: 500, a: 1000 });
}
