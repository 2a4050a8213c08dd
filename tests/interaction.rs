use voxel_world::server::{index, rocket, Method, Page};
use voxel_world::block::BlockType;
use voxel_world::chunk::{Chunk, TerrainColumn};
use voxel_world::coords::{BlockPos, ChunkPos, CHUNK_SIZE};
use voxel_world::interaction::{
    block_interaction_system, block_targeting_system, place_target, select_block_type, InteractionInput,
};
use voxel_world::raycast::{FixedVec, RaycastHit, FIXED_SCALE};
use voxel_world::world::ChunkManager;

fn flat(_x: i64, _z: i64) -> TerrainColumn {
    TerrainColumn { height: 0, biome: 0 }
}

fn create_test_chunk(pos: ChunkPos) -> Chunk {
    let mut chunk = Chunk::new(pos);
    for x in 0..CHUNK_SIZE {
        for z in 0..CHUNK_SIZE {
            chunk.set_block(BlockPos::new(x, 0, z), BlockType::Stone);
        }
    }
    chunk
}

fn hit_at(chunk_pos: ChunkPos, block_pos: BlockPos, normal: (i32, i32, i32)) -> RaycastHit {
    RaycastHit { chunk_pos, block_pos, normal, distance_num: 5, distance_den: 1 }
}

fn input(break_pressed: bool, place_pressed: bool, keys: (bool, bool, bool)) -> InteractionInput {
    InteractionInput {
        aiming: true,
        break_pressed,
        place_pressed,
        digit1: keys.0,
        digit2: keys.1,
        digit3: keys.2,
    }
}

#[test]
fn test_block_breaking() {
    let mut store = ChunkManager::default();
    let chunk_pos = ChunkPos::new(0, 0, 0);
    let mut chunk = create_test_chunk(chunk_pos);
    let block_pos = BlockPos::new(5, 0, 5);
    chunk.set_block(block_pos, BlockType::Dirt);
    store.insert_chunk(chunk);
    let hit = hit_at(chunk_pos, block_pos, (0, 1, 0));
    let meshes = block_interaction_system(&mut store, Some(hit), input(true, false, (false, false, false)), &flat);
    assert_eq!(store.get_block(chunk_pos, block_pos), BlockType::Air, "Block should be broken");
    assert_eq!(meshes.len(), 1);
    assert_eq!(meshes[0].0, chunk_pos);
}

#[test]
fn test_block_placing() {
    let mut store = ChunkManager::default();
    let chunk_pos = ChunkPos::new(0, 0, 0);
    store.insert_chunk(create_test_chunk(chunk_pos));
    let block_pos = BlockPos::new(5, 0, 5);
    let hit = hit_at(chunk_pos, block_pos, (0, 1, 0));
    block_interaction_system(&mut store, Some(hit), input(false, true, (false, true, false)), &flat);
    assert_eq!(
        store.get_block(chunk_pos, BlockPos::new(5, 1, 5)),
        BlockType::Stone,
        "Stone block should be placed above the floor"
    );
}

#[test]
fn test_block_type_selection() {
    let mut store = ChunkManager::default();
    let chunk_pos = ChunkPos::new(0, 0, 0);
    store.insert_chunk(create_test_chunk(chunk_pos));
    let test_cases = [
        ((true, false, false), BlockType::Dirt),
        ((false, true, false), BlockType::Stone),
        ((false, false, true), BlockType::Grass),
    ];
    for (keys, expected_type) in test_cases {
        let hit = hit_at(chunk_pos, BlockPos::new(5, 0, 5), (0, 1, 0));
        block_interaction_system(&mut store, Some(hit), input(false, true, keys), &flat);
        assert_eq!(
            store.get_block(chunk_pos, BlockPos::new(5, 1, 5)),
            expected_type,
            "Block should be of type {:?}",
            expected_type
        );
    }
}

#[test]
fn select_defaults_to_dirt_and_key_priority() {
    assert_eq!(select_block_type(false, false, false), BlockType::Dirt);
    assert_eq!(select_block_type(false, true, true), BlockType::Stone);
    assert_eq!(select_block_type(true, true, true), BlockType::Dirt);
}

#[test]
fn place_up_stays_in_region() {
    let hit = hit_at(ChunkPos::new(0, 0, 0), BlockPos::new(5, 0, 5), (0, 1, 0));
    assert_eq!(place_target(&hit), (ChunkPos::new(0, 0, 0), BlockPos::new(5, 1, 5)));
}

#[test]
fn place_down_crosses_into_region_below() {
    let hit = hit_at(ChunkPos::new(0, 0, 0), BlockPos::new(5, 0, 5), (0, -1, 0));
    assert_eq!(place_target(&hit), (ChunkPos::new(0, -1, 0), BlockPos::new(5, 15, 5)));
}

#[test]
fn place_across_x_and_z_bounds() {
    let hit = hit_at(ChunkPos::new(2, 0, 3), BlockPos::new(15, 4, 0), (1, 0, 0));
    assert_eq!(place_target(&hit), (ChunkPos::new(3, 0, 3), BlockPos::new(0, 4, 0)));
    let hit = hit_at(ChunkPos::new(2, 0, 3), BlockPos::new(0, 4, 0), (-1, 0, 0));
    assert_eq!(place_target(&hit), (ChunkPos::new(1, 0, 3), BlockPos::new(15, 4, 0)));
    let hit = hit_at(ChunkPos::new(2, 0, 3), BlockPos::new(0, 4, 0), (0, 0, -1));
    assert_eq!(place_target(&hit), (ChunkPos::new(2, 0, 2), BlockPos::new(0, 4, 15)));
    let hit = hit_at(ChunkPos::new(2, 0, 3), BlockPos::new(0, 4, 15), (0, 0, 1));
    assert_eq!(place_target(&hit), (ChunkPos::new(2, 0, 4), BlockPos::new(0, 4, 0)));
    // A hit at local x = 0 with a vertical normal stays in its region.
    let hit = hit_at(ChunkPos::new(2, 0, 3), BlockPos::new(0, 4, 0), (0, 1, 0));
    assert_eq!(place_target(&hit), (ChunkPos::new(2, 0, 3), BlockPos::new(0, 5, 0)));
}

#[test]
fn place_below_generates_missing_region() {
    let mut store = ChunkManager::new(1);
    let chunk_pos = ChunkPos::new(0, 0, 0);
    store.insert_chunk(create_test_chunk(chunk_pos));
    let hit = hit_at(chunk_pos, BlockPos::new(5, 0, 5), (0, -1, 0));
    let deep = |_x: i64, _z: i64| TerrainColumn { height: 0, biome: 0 };
    let meshes = block_interaction_system(&mut store, Some(hit), input(false, true, (false, false, true)), &deep);
    let below = ChunkPos::new(0, -1, 0);
    assert_eq!(store.get_block(below, BlockPos::new(5, 15, 5)), BlockType::Grass);
    assert_eq!(store.get_block(below, BlockPos::new(5, 14, 5)), BlockType::Stone);
    assert!(store.get_chunk(below).is_some());
    assert_eq!(meshes.len(), 1);
    assert_eq!(meshes[0].0, below);
}

#[test]
fn interaction_needs_aiming_and_target() {
    let mut store = ChunkManager::default();
    let chunk_pos = ChunkPos::new(0, 0, 0);
    store.insert_chunk(create_test_chunk(chunk_pos));
    let hit = hit_at(chunk_pos, BlockPos::new(5, 0, 5), (0, 1, 0));
    let mut off = input(true, true, (false, false, false));
    off.aiming = false;
    assert!(block_interaction_system(&mut store, Some(hit), off, &flat).is_empty());
    assert!(block_interaction_system(&mut store, None, input(true, true, (false, false, false)), &flat).is_empty());
    assert_eq!(store.get_block(chunk_pos, BlockPos::new(5, 0, 5)), BlockType::Stone);
    assert_eq!(store.get_block(chunk_pos, BlockPos::new(5, 1, 5)), BlockType::Air);
}

#[test]
fn break_then_place_same_region_one_mesh() {
    let mut store = ChunkManager::default();
    let chunk_pos = ChunkPos::new(0, 0, 0);
    store.insert_chunk(create_test_chunk(chunk_pos));
    let hit = hit_at(chunk_pos, BlockPos::new(5, 0, 5), (0, 1, 0));
    let meshes = block_interaction_system(&mut store, Some(hit), input(true, true, (false, false, true)), &flat);
    assert_eq!(store.get_block(chunk_pos, BlockPos::new(5, 0, 5)), BlockType::Air);
    assert_eq!(store.get_block(chunk_pos, BlockPos::new(5, 1, 5)), BlockType::Grass);
    assert_eq!(meshes.len(), 1);
}

#[test]
fn targeting_follows_aiming_gate() {
    let mut store = ChunkManager::default();
    store.insert_chunk(create_test_chunk(ChunkPos::new(0, 0, 0)));
    let origin = FixedVec { x: 5 * FIXED_SCALE, y: 5 * FIXED_SCALE, z: 5 * FIXED_SCALE };
    let down = FixedVec { x: 0, y: -FIXED_SCALE, z: 0 };
    assert!(block_targeting_system(false, origin, down, &store).is_none());
    let hit = block_targeting_system(true, origin, down, &store).unwrap();
    assert_eq!(hit.block_pos, BlockPos::new(5, 0, 5));
}

#[test]
fn server_greeting_and_routes() {
    assert_eq!(index(), "Eyyy, Voxel Rocket!");
    let routes = rocket();
    assert_eq!(routes.len(), 1);
    assert_eq!(routes[0].base, "/");
    assert_eq!(routes[0].path, "/");
    assert_eq!(routes[0].method, Method::Get);
    assert_eq!(routes[0].page, Page::Index);
}

#[test]
fn hit_validity() {
    let ok = hit_at(ChunkPos::new(0, 0, 0), BlockPos::new(5, 0, 5), (0, 1, 0));
    assert!(voxel_world::interaction::hit_is_valid(&ok));
    let bad = hit_at(ChunkPos::new(0, 0, 0), BlockPos::new(16, 0, 5), (0, 1, 0));
    assert!(!voxel_world::interaction::hit_is_valid(&bad));
    let bad = hit_at(ChunkPos::new(i32::MAX, 0, 0), BlockPos::new(1, 0, 5), (0, 1, 0));
    assert!(!voxel_world::interaction::hit_is_valid(&bad));
    let bad = hit_at(ChunkPos::new(0, 0, 0), BlockPos::new(1, 0, 5), (0, 2, 0));
    assert!(!voxel_world::interaction::hit_is_valid(&bad));
}
