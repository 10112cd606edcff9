use voxel_world::block::{Block, BoolVoxel};
use voxel_world::math::{Config, Vector2i, Vector2u};
use voxel_world::player::{Inventory, Item};
use block_mesh::{MergeVoxel, Voxel, VoxelVisibility};

#[test]
fn block_codes_round_trip() {
    let all = [Block::Air, Block::Dirt, Block::Grass, Block::Stone, Block::Water];
    for (k, b) in all.iter().enumerate() {
        assert_eq!(b.code() as usize, k);
        assert_eq!(Block::from_code(k as u8), Some(*b));
    }
    assert_eq!(Block::from_code(5), None);
    assert_eq!(Block::from_code(255), None);
}

#[test]
fn air_is_the_default_and_only_empty_block() {
    assert_eq!(Block::default(), Block::Air);
    assert!(!Block::Air.is_solid_block());
    assert!(Block::Dirt.is_solid_block());
    assert!(Block::Water.is_solid_block());
    assert_eq!(Block::Air.get_visibility(), VoxelVisibility::Empty);
    assert_eq!(Block::Stone.get_visibility(), VoxelVisibility::Opaque);
    assert_eq!(Block::Grass.merge_value(), Block::Grass);
}

#[test]
fn bool_voxel_visibility() {
    assert_eq!(BoolVoxel(false).get_visibility(), VoxelVisibility::Empty);
    assert_eq!(BoolVoxel(true).get_visibility(), VoxelVisibility::Opaque);
    assert_eq!(BoolVoxel(true).merge_value(), BoolVoxel(true));
}

#[test]
fn inventory_starts_clear() {
    let inv = Inventory::default();
    assert!(inv.armour_slots.iter().all(|s| s.is_none()));
    assert!(inv.inventory_slots.iter().all(|s| s.is_none()));
    assert!(inv.hotbar.iter().all(|s| s.is_none()));
    assert_ne!(Item::Dirt, Item::Stone);
}

#[test]
fn plain_value_types() {
    let a = Vector2u { x: 1, y: 2 };
    let b = Vector2i { x: -1, y: 2 };
    assert_eq!(a.x + a.y, 3);
    assert_eq!(b.x + b.y, 1);
    assert_eq!(Config {}, Config {});
}
