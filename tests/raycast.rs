use voxel_world::block::BlockType;
use voxel_world::chunk::Chunk;
use voxel_world::coords::{BlockPos, ChunkPos, CHUNK_SIZE};
use voxel_world::raycast::{raycast_block, FixedVec, FIXED_SCALE};

fn floor_chunk(pos: ChunkPos) -> Chunk {
    let mut chunk = Chunk::new(pos);
    for x in 0..CHUNK_SIZE {
        for z in 0..CHUNK_SIZE {
            chunk.set_block(BlockPos::new(x, 0, z), BlockType::Stone);
        }
    }
    chunk
}

fn point(x: i64, y: i64, z: i64) -> FixedVec {
    FixedVec { x: x * FIXED_SCALE, y: y * FIXED_SCALE, z: z * FIXED_SCALE }
}

#[test]
fn test_raycast_hit_floor() {
    let chunks = vec![floor_chunk(ChunkPos::new(0, 0, 0))];
    let hit = raycast_block(point(5, 5, 5), point(0, -1, 0), &chunks);
    assert!(hit.is_some(), "Ray should hit the floor");
    let hit_info = hit.unwrap();
    assert_eq!(hit_info.chunk_pos, ChunkPos::new(0, 0, 0));
    assert_eq!(hit_info.block_pos.y, 0);
    assert_eq!(hit_info.normal, (0, 1, 0));
}

#[test]
fn test_raycast_miss() {
    let chunks = vec![floor_chunk(ChunkPos::new(0, 0, 0))];
    let hit = raycast_block(point(5, 5, 5), point(0, 1, 0), &chunks);
    assert!(hit.is_none(), "Ray should not hit anything");
}

#[test]
fn raycast_floor_hit_cell_and_distance() {
    let chunks = vec![floor_chunk(ChunkPos::new(0, 0, 0))];
    let hit = raycast_block(point(5, 5, 5), point(0, -1, 0), &chunks).unwrap();
    assert_eq!(hit.block_pos, BlockPos::new(5, 0, 5));
    // The ray enters the floor cell through its top face, at y = 1.
    let distance = hit.distance_num as f64 / hit.distance_den as f64;
    assert!((distance - 4.0).abs() < 1e-9);
}

#[test]
fn raycast_out_of_reach() {
    let chunks = vec![floor_chunk(ChunkPos::new(0, 0, 0))];
    assert!(raycast_block(point(5, 12, 5), point(0, -1, 0), &chunks).is_none());
}

#[test]
fn raycast_across_negative_region_boundary() {
    let chunks = vec![floor_chunk(ChunkPos::new(-1, 0, -1))];
    let origin = FixedVec { x: -FIXED_SCALE / 2, y: 3 * FIXED_SCALE, z: -FIXED_SCALE / 2 };
    let hit = raycast_block(origin, point(0, -1, 0), &chunks).unwrap();
    assert_eq!(hit.chunk_pos, ChunkPos::new(-1, 0, -1));
    assert_eq!(hit.block_pos, BlockPos::new(15, 0, 15));
    assert_eq!(hit.normal, (0, 1, 0));
}

#[test]
fn raycast_diagonal_enters_side_face() {
    let mut chunk = Chunk::new(ChunkPos::new(0, 0, 0));
    chunk.set_block(BlockPos::new(3, 2, 2), BlockType::Dirt);
    let chunks = vec![chunk];
    let origin = FixedVec { x: 1536, y: 2560, z: 2560 };
    let direction = FixedVec { x: 1000, y: 100, z: 0 };
    let hit = raycast_block(origin, direction, &chunks).unwrap();
    assert_eq!(hit.block_pos, BlockPos::new(3, 2, 2));
    assert_eq!(hit.normal, (-1, 0, 0));
}

#[test]
fn raycast_thin_cell_not_skipped() {
    // A ray grazing a single cell diagonally still stops at it.
    let mut chunk = Chunk::new(ChunkPos::new(0, 0, 0));
    chunk.set_block(BlockPos::new(3, 3, 3), BlockType::Sand);
    let chunks = vec![chunk];
    let origin = FixedVec { x: 1100, y: 1100, z: 3500 };
    let direction = FixedVec { x: 600, y: 600, z: 0 };
    let hit = raycast_block(origin, direction, &chunks).unwrap();
    assert_eq!(hit.block_pos, BlockPos::new(3, 3, 3));
}

#[test]
fn raycast_start_inside_solid_cell() {
    let chunks = vec![floor_chunk(ChunkPos::new(0, 0, 0))];
    let origin = FixedVec { x: 5 * FIXED_SCALE + 10, y: 100, z: 5 * FIXED_SCALE + 10 };
    let hit = raycast_block(origin, point(0, 1, 0), &chunks).unwrap();
    assert_eq!(hit.block_pos, BlockPos::new(5, 0, 5));
    assert_eq!(hit.normal, (0, 0, 0));
    assert_eq!(hit.distance_num, 0);
}

#[test]
fn raycast_unloaded_region_passed_through() {
    let chunks: Vec<Chunk> = Vec::new();
    assert!(raycast_block(point(5, 5, 5), point(0, -1, 0), &chunks).is_none());
}
