use voxel_world::block::Block;
use voxel_world::chunk::{interior_is_air, Chunk};
use voxel_world::lattice::LatticePos;

fn flat(h: u32) -> Vec<u32> {
    vec![h; 256]
}

fn idx(x: usize, y: usize, z: usize) -> usize {
    x + 18 * y + 324 * z
}

#[test]
fn chunk_below_all_columns_is_empty_and_meshes_to_nothing() {
    let mut c = Chunk::new(LatticePos::new(0, 1, 0), &flat(10));
    assert!(c.is_empty());
    assert!(!c.is_visible());
    assert!(c.blocks.iter().all(|b| *b == Block::Air));
    c.create_mesh();
    assert_eq!(c.quad_count(), 0);
    assert!(c.mesh().is_none());
    assert!(!c.is_visible());
}

#[test]
fn column_height_equal_to_band_bottom_is_empty() {
    let c = Chunk::new(LatticePos::new(0, 1, 0), &flat(16));
    assert!(c.is_empty());
}

#[test]
fn chunk_above_all_columns_is_full_stone() {
    let c = Chunk::new(LatticePos::new(0, 0, 0), &flat(16));
    assert!(!c.is_empty());
    for z in 0..18 {
        for y in 0..18 {
            for x in 0..18 {
                let inside = (1..17).contains(&x) && (1..17).contains(&y) && (1..17).contains(&z);
                let want = if inside { Block::Stone } else { Block::Air };
                assert_eq!(c.blocks[idx(x, y, z)], want);
            }
        }
    }
}

#[test]
fn straddling_chunk_fills_dirt_up_to_the_column_height() {
    let mut heights = flat(8);
    heights[3 + 16 * 5] = 20;
    heights[0] = 0;
    let c = Chunk::new(LatticePos::new(0, 0, 0), &heights);
    assert!(!c.is_empty());
    // column (0, 0) has height 0: nothing solid
    for y in 1..17 {
        assert_eq!(c.block(1, y, 1), Block::Air);
    }
    // ordinary column: padded y 1..=8 solid
    assert_eq!(c.block(2, 8, 1), Block::Dirt);
    assert_eq!(c.block(2, 9, 1), Block::Air);
    // the tall column reaches the top of the chunk
    assert_eq!(c.block(4, 16, 6), Block::Dirt);
    assert_eq!(c.block(4, 17, 6), Block::Air);
}

#[test]
fn straddling_chunk_high_in_the_lattice() {
    let c = Chunk::new(LatticePos::new(3, 2, -1), &flat(40));
    assert_eq!(c.position, LatticePos::new(3, 2, -1));
    assert_eq!(c.block(5, 8, 5), Block::Dirt);
    assert_eq!(c.block(5, 9, 5), Block::Air);
}

#[test]
fn chunk_below_the_origin_is_full() {
    let c = Chunk::new(LatticePos::new(0, -1, 0), &flat(0));
    assert!(!c.is_empty());
    assert_eq!(c.block(1, 1, 1), Block::Stone);
    assert_eq!(c.block(16, 16, 16), Block::Stone);
}

#[test]
fn gen_from_heightmap_uses_dirt_only() {
    let blocks = Chunk::gen_from_heightmap(0, &flat(16));
    assert_eq!(blocks.len(), 5832);
    assert_eq!(blocks[idx(1, 1, 1)], Block::Dirt);
    assert_eq!(blocks[idx(16, 16, 16)], Block::Dirt);
    assert_eq!(blocks[idx(0, 1, 1)], Block::Air);
    let blocks = Chunk::gen_from_heightmap(0, &flat(3));
    assert_eq!(blocks[idx(7, 3, 7)], Block::Dirt);
    assert_eq!(blocks[idx(7, 4, 7)], Block::Air);
}

#[test]
fn isolated_full_chunk_meshes_to_six_quads() {
    let mut c = Chunk::new(LatticePos::new(0, 0, 0), &flat(100));
    c.create_mesh();
    assert!(c.is_visible());
    assert_eq!(c.quad_count(), 6);
    let quads = c.mesh().unwrap();
    let mut faces: Vec<u8> = quads.iter().map(|q| q.face).collect();
    faces.sort();
    assert_eq!(faces, vec![0, 1, 2, 3, 4, 5]);
    for q in quads {
        assert_eq!((q.width, q.height), (16, 16));
    }
}

#[test]
fn single_block_meshes_to_six_unit_quads() {
    let mut c = Chunk::new(LatticePos::new(0, 0, 0), &flat(0));
    assert!(c.is_empty());
    c.update_block([5, 5, 5], Block::Grass);
    assert!(!c.is_empty());
    c.create_mesh();
    assert_eq!(c.quad_count(), 6);
    for q in c.mesh().unwrap() {
        assert_eq!((q.width, q.height), (1, 1));
    }
}

#[test]
fn enclosed_chunk_is_not_visible() {
    let mut c = Chunk::new(LatticePos::new(0, 0, 0), &flat(100));
    for k in 0..5832 {
        c.blocks[k] = Block::Stone;
    }
    c.create_mesh();
    assert_eq!(c.quad_count(), 0);
    assert!(!c.is_visible());
    assert!(!c.is_empty());
}

#[test]
fn meshing_is_deterministic() {
    let mut heights = flat(5);
    for k in 0..256 {
        heights[k] = (k as u32 * 7) % 19;
    }
    let mut a = Chunk::new(LatticePos::new(0, 0, 0), &heights);
    let mut b = Chunk::new(LatticePos::new(0, 0, 0), &heights);
    a.create_mesh();
    b.create_mesh();
    assert!(a.quad_count() > 6);
    assert_eq!(a.mesh(), b.mesh());
}

#[test]
fn update_block_tracks_emptiness_and_drops_the_mesh() {
    let mut c = Chunk::new(LatticePos::new(0, 0, 0), &flat(1));
    c.create_mesh();
    assert!(c.mesh().is_some());
    c.has_changed = false;
    for x in 1..17 {
        for z in 1..17 {
            c.update_block([x, 1, z], Block::Air);
        }
    }
    assert!(c.is_empty());
    assert!(c.mesh().is_none());
    assert!(c.has_changed);
    c.update_block([0, 0, 0], Block::Stone);
    assert!(c.is_empty());
    assert!(interior_is_air(&c.blocks));
    c.update_block([16, 16, 16], Block::Water);
    assert!(!c.is_empty());
    assert!(!interior_is_air(&c.blocks));
}

#[test]
fn model_offset_shifts_by_the_halo() {
    let c = Chunk::new(LatticePos::new(2, -1, 0), &flat(0));
    assert_eq!(c.model_offset(), [31, -17, -1]);
}
