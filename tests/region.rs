use voxel_world::block::{BlockType, Rgba};
use voxel_world::chunk::{column_block, Chunk, Direction, TerrainColumn};
use voxel_world::coords::{BlockPos, ChunkPos, WorldPos};

const ALL: [BlockType; 6] = [
    BlockType::Air,
    BlockType::Grass,
    BlockType::Dirt,
    BlockType::Stone,
    BlockType::Sand,
    BlockType::Water,
];

#[test]
fn block_properties() {
    for b in ALL {
        assert_eq!(b.is_transparent(), !b.is_solid());
    }
    assert!(!BlockType::Air.is_solid());
    assert!(!BlockType::Water.is_solid());
    assert!(BlockType::Stone.is_solid());
    assert_eq!(BlockType::Grass.get_color(), Rgba { r: 300, g: 700, b: 300, a: 1000 });
    assert_eq!(BlockType::Water.get_color(), Rgba { r: 200, g: 400, b: 800, a: 700 });
    assert_eq!(BlockType::Air.get_color().a, 0);
}

#[test]
fn region_of_floors_negative_coordinates() {
    assert_eq!(ChunkPos::from_world_pos(0, 0, 0), ChunkPos::new(0, 0, 0));
    assert_eq!(ChunkPos::from_world_pos(15, 16, -1), ChunkPos::new(0, 1, -1));
    assert_eq!(ChunkPos::from_world_pos(-16, -17, 31), ChunkPos::new(-1, -2, 1));
    assert_eq!(ChunkPos::from_world_pos(i32::MIN, i32::MAX, -1), ChunkPos::new(-134217728, 134217727, -1));
}

#[test]
fn region_origin_contains_point() {
    for v in [-33, -17, -16, -1, 0, 1, 15, 16, 47] {
        let c = ChunkPos::from_world_pos(v, v, v);
        let o = c.to_world_pos();
        assert!(o.x <= v as i64 && (v as i64) < o.x + 16);
    }
    assert_eq!(ChunkPos::new(-1, 2, 0).to_world_pos(), WorldPos { x: -16, y: 32, z: 0 });
    // -1 and 0 lie in adjacent regions.
    assert_eq!(ChunkPos::from_world_pos(-1, 0, 0).x + 1, ChunkPos::from_world_pos(0, 0, 0).x);
}

#[test]
fn local_index_layout() {
    assert_eq!(BlockPos::new(1, 2, 3).to_index(), 2 * 256 + 3 * 16 + 1);
    assert_eq!(Chunk::get_index_static(15, 15, 15), 4095);
    assert!(BlockPos::new(15, 15, 15).is_valid());
    assert!(!BlockPos::new(16, 0, 0).is_valid());
    assert!(!BlockPos::new(0, 0, 16).is_valid());
}

#[test]
fn set_then_get_every_variant() {
    let mut c = Chunk::new(ChunkPos::new(0, 0, 0));
    for b in ALL {
        for pos in [BlockPos::new(0, 0, 0), BlockPos::new(15, 15, 15), BlockPos::new(3, 9, 12)] {
            c.set_block(pos, b);
            assert_eq!(c.get_block(pos), b);
        }
    }
}

#[test]
fn out_of_range_is_ignored() {
    let mut c = Chunk::new(ChunkPos::new(0, 0, 0));
    c.clear_dirty();
    c.set_block(BlockPos::new(16, 0, 0), BlockType::Stone);
    assert!(!c.is_dirty());
    assert_eq!(c.get_block(BlockPos::new(16, 0, 0)), BlockType::Air);
    c.set_block(BlockPos::new(0, 0, 0), BlockType::Stone);
    assert!(c.is_dirty());
}

#[test]
fn column_fill_policy() {
    let col = TerrainColumn { height: 10, biome: 100 };
    assert_eq!(column_block(11, col), BlockType::Air);
    assert_eq!(column_block(10, col), BlockType::Grass);
    assert_eq!(column_block(9, col), BlockType::Dirt);
    assert_eq!(column_block(8, col), BlockType::Dirt);
    assert_eq!(column_block(7, col), BlockType::Stone);
    assert_eq!(column_block(-5, col), BlockType::Stone);
    assert_eq!(column_block(10, TerrainColumn { height: 10, biome: 601 }), BlockType::Sand);
    assert_eq!(column_block(10, TerrainColumn { height: 10, biome: 600 }), BlockType::Grass);
    // No dirt band when the surface is at most 3 high.
    let low = TerrainColumn { height: 3, biome: 0 };
    assert_eq!(column_block(2, low), BlockType::Stone);
    assert_eq!(column_block(3, low), BlockType::Grass);
    let neg = TerrainColumn { height: -4, biome: 0 };
    assert_eq!(column_block(0, neg), BlockType::Grass);
    assert_eq!(column_block(1, neg), BlockType::Air);
}

#[test]
fn generate_terrain_uses_region_height() {
    let cols = vec![TerrainColumn { height: 20, biome: 0 }; 256];
    let mut c = Chunk::new(ChunkPos::new(0, 1, 0));
    c.generate_terrain(&cols);
    assert_eq!(c.get_block(BlockPos::new(0, 4, 0)), BlockType::Grass);
    assert_eq!(c.get_block(BlockPos::new(0, 3, 0)), BlockType::Dirt);
    assert_eq!(c.get_block(BlockPos::new(0, 1, 0)), BlockType::Stone);
    assert_eq!(c.get_block(BlockPos::new(0, 5, 0)), BlockType::Air);
}

#[test]
fn face_visibility() {
    let mut c = Chunk::new(ChunkPos::new(0, 0, 0));
    c.set_block(BlockPos::new(5, 5, 5), BlockType::Stone);
    c.set_block(BlockPos::new(6, 5, 5), BlockType::Dirt);
    c.set_block(BlockPos::new(4, 5, 5), BlockType::Water);
    let p = BlockPos::new(5, 5, 5);
    assert!(!c.should_render_face(p, Direction::PosX));
    assert!(c.should_render_face(p, Direction::NegX));
    assert!(c.should_render_face(p, Direction::PosY));
    assert!(!c.should_render_face(BlockPos::new(1, 1, 1), Direction::PosY));
    // Boundary faces are always drawn.
    c.set_block(BlockPos::new(0, 0, 0), BlockType::Stone);
    c.set_block(BlockPos::new(0, 1, 0), BlockType::Stone);
    assert!(c.should_render_face(BlockPos::new(0, 0, 0), Direction::NegY));
    assert!(!c.should_render_face(BlockPos::new(0, 0, 0), Direction::PosY));
    assert_eq!(Direction::NegZ.normal(), (0, 0, -1));
}

#[test]
fn face_of_position_outside_region() {
    let c = Chunk::new(ChunkPos::new(0, 0, 0));
    assert!(!c.should_render_face(BlockPos::new(16, 3, 3), Direction::PosX));
    assert!(!c.should_render_face(BlockPos::new(usize::MAX, 3, 3), Direction::PosY));
}
