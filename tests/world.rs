use voxel_world::block::BlockType;
use voxel_world::chunk::{block_at_world, column_block, Chunk, TerrainColumn};
use voxel_world::coords::{BlockPos, ChunkPos};
use voxel_world::world::{spawn_chunk, ChunkManager, DEFAULT_RENDER_DISTANCE};

fn hills(x: i64, z: i64) -> TerrainColumn {
    TerrainColumn { height: 5 + (x + z).rem_euclid(4), biome: if x > 0 { 700 } else { 100 } }
}

fn loaded(store: &ChunkManager) -> Vec<(i32, i32, i32)> {
    let mut v: Vec<(i32, i32, i32)> = store.chunks().iter().map(|c| {
        let p = c.position();
        (p.x, p.y, p.z)
    }).collect();
    v.sort();
    v
}

#[test]
fn activation_loads_square_of_ground_regions() {
    let mut store = ChunkManager::new(1);
    store.update_chunk_loading(ChunkPos::new(0, 0, 0), &hills);
    let mut expected = Vec::new();
    for x in -1..=1 {
        for z in -1..=1 {
            expected.push((x, 0, z));
        }
    }
    assert_eq!(loaded(&store), expected);
}

#[test]
fn activation_twice_is_idempotent() {
    let mut store = ChunkManager::new(2);
    store.update_chunk_loading(ChunkPos::new(3, 0, -2), &hills);
    let first = loaded(&store);
    store.set_block(ChunkPos::new(3, 0, -2), BlockPos::new(1, 15, 1), BlockType::Water);
    store.update_chunk_loading(ChunkPos::new(3, 0, -2), &hills);
    assert_eq!(loaded(&store), first);
    assert_eq!(first.len(), 25);
    // Regions that stay are not regenerated.
    assert_eq!(store.get_block(ChunkPos::new(3, 0, -2), BlockPos::new(1, 15, 1)), BlockType::Water);
}

#[test]
fn activation_unloads_far_and_off_layer_regions() {
    let mut store = ChunkManager::new(1);
    store.insert_chunk(Chunk::new(ChunkPos::new(0, -1, 0)));
    store.update_chunk_loading(ChunkPos::new(0, 0, 0), &hills);
    assert!(store.get_chunk(ChunkPos::new(0, -1, 0)).is_none());
    store.update_chunk_loading(ChunkPos::new(5, 0, 0), &hills);
    assert!(store.get_chunk(ChunkPos::new(0, 0, 0)).is_none());
    assert!(store.get_chunk(ChunkPos::new(4, 0, 1)).is_some());
    assert_eq!(loaded(&store).len(), 9);
}

#[test]
fn default_store_radius() {
    let store = ChunkManager::default();
    assert_eq!(store.render_distance(), DEFAULT_RENDER_DISTANCE);
    assert_eq!(store.render_distance(), 3);
    assert!(store.chunks().is_empty());
}

#[test]
fn unloaded_region_reads_empty() {
    let store = ChunkManager::new(1);
    assert_eq!(store.get_block(ChunkPos::new(7, 0, 7), BlockPos::new(3, 3, 3)), BlockType::Air);
    assert_eq!(block_at_world(store.chunks(), -40, 2, 1000), BlockType::Air);
}

#[test]
fn set_block_reports_change() {
    let mut store = ChunkManager::new(1);
    let p = ChunkPos::new(0, 0, 0);
    store.insert_chunk(Chunk::new(p));
    assert!(store.set_block(p, BlockPos::new(1, 2, 3), BlockType::Sand));
    assert!(!store.set_block(p, BlockPos::new(1, 2, 3), BlockType::Sand));
    assert!(!store.set_block(p, BlockPos::new(16, 2, 3), BlockType::Sand));
    assert!(!store.set_block(ChunkPos::new(9, 0, 9), BlockPos::new(1, 2, 3), BlockType::Sand));
    assert_eq!(store.get_block(p, BlockPos::new(1, 2, 3)), BlockType::Sand);
    assert!(store.get_chunk(ChunkPos::new(9, 0, 9)).is_none());
}

#[test]
fn world_lookup_with_negative_coordinates() {
    let mut store = ChunkManager::new(1);
    let mut c = Chunk::new(ChunkPos::new(-1, 0, -1));
    c.set_block(BlockPos::new(15, 4, 0), BlockType::Dirt);
    store.insert_chunk(c);
    assert_eq!(block_at_world(store.chunks(), -1, 4, -16), BlockType::Dirt);
    assert_eq!(block_at_world(store.chunks(), -1, 4, -15), BlockType::Air);
}

#[test]
fn spawned_region_follows_column_fill() {
    let p = ChunkPos::new(1, 0, 0);
    let chunk = spawn_chunk(p, &hills);
    assert!(chunk.is_dirty());
    for x in 0..16usize {
        for z in 0..16usize {
            let col = hills(16 + x as i64, z as i64);
            for y in 0..16usize {
                assert_eq!(chunk.get_block(BlockPos::new(x, y, z)), column_block(y as i64, col));
            }
        }
    }
    // Columns here are east of x = 0, so their surface is sand.
    let col = hills(16, 0);
    assert_eq!(chunk.get_block(BlockPos::new(0, col.height as usize, 0)), BlockType::Sand);
}

#[test]
fn mark_meshed_clears_flag() {
    let mut store = ChunkManager::new(0);
    store.update_chunk_loading(ChunkPos::new(0, 0, 0), &hills);
    assert!(store.get_chunk(ChunkPos::new(0, 0, 0)).unwrap().is_dirty());
    store.mark_meshed(ChunkPos::new(0, 0, 0));
    assert!(!store.get_chunk(ChunkPos::new(0, 0, 0)).unwrap().is_dirty());
}

#[test]
fn mesh_of_loaded_region_only() {
    let mut store = ChunkManager::new(0);
    assert!(store.mesh_of(ChunkPos::new(0, 0, 0)).is_none());
    store.update_chunk_loading(ChunkPos::new(0, 0, 0), &hills);
    let mesh = store.mesh_of(ChunkPos::new(0, 0, 0)).unwrap();
    assert!(!mesh.vertices.is_empty());
    assert_eq!(mesh.indices.len() / 6, mesh.vertices.len() / 4);
}
