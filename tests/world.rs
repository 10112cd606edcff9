use voxel_world::block::Block;
use voxel_world::game::Game;
use voxel_world::grid::Direction;
use voxel_world::lattice::LatticePos;
use voxel_world::world::{neighbor_index, World, WorldError};

fn idx(x: usize, y: usize, z: usize) -> usize {
    x + 18 * y + 324 * z
}

fn maps(count: usize, h: u32) -> Vec<Vec<u32>> {
    vec![vec![h; 256]; count]
}

fn varied_maps(count: usize) -> Vec<Vec<u32>> {
    let mut out = Vec::new();
    for m in 0..count {
        let mut v = Vec::new();
        for k in 0..256u32 {
            v.push((k * 13 + m as u32 * 5) % 40);
        }
        out.push(v);
    }
    out
}

#[test]
fn two_by_one_by_two_lattice_at_constant_height() {
    let w = World::new(LatticePos::new(0, 0, 0), [2, 1, 2], &maps(4, 8)).unwrap();
    assert_eq!(w.chunks.len(), 4);
    for c in &w.chunks {
        assert!(!c.is_empty());
        for z in 1..17 {
            for x in 1..17 {
                assert_eq!(c.block(x, 8, z), Block::Dirt);
                assert_eq!(c.block(x, 9, z), Block::Air);
            }
        }
    }
    let a = &w.chunks[w.calc_chunk_index(LatticePos::new(0, 0, 0))];
    let b = &w.chunks[w.calc_chunk_index(LatticePos::new(1, 0, 0))];
    for z in 1..17 {
        assert!(a.block(17, 7, z).is_solid_block());
        assert!(b.block(0, 7, z).is_solid_block());
        assert!(!a.block(17, 9, z).is_solid_block());
    }
    // no chunk beyond -X of the lattice: that halo stays Air
    for z in 1..17 {
        assert_eq!(a.block(0, 7, z), Block::Air);
    }
}

#[test]
fn stitched_halos_mirror_neighbour_boundaries() {
    let w = World::new(LatticePos::new(-1, 0, -1), [3, 2, 2], &varied_maps(6)).unwrap();
    let dirs = [
        Direction::PosX,
        Direction::NegX,
        Direction::PosY,
        Direction::NegY,
        Direction::PosZ,
        Direction::NegZ,
    ];
    let mut pairs = 0;
    for i in 0..w.chunks.len() {
        for d in dirs.iter() {
            if let Some(j) = neighbor_index([3, 2, 2], i, *d) {
                pairs += 1;
                let o = d.reverse();
                for a in 1..17 {
                    for b in 1..17 {
                        assert_eq!(w.chunks[i].blocks[d.halo_cell(a, b)], w.chunks[j].blocks[o.boundary_cell(a, b)]);
                        assert_eq!(w.chunks[j].blocks[o.halo_cell(a, b)], w.chunks[i].blocks[d.boundary_cell(a, b)]);
                    }
                }
            } else {
                for a in 1..17 {
                    for b in 1..17 {
                        assert_eq!(w.chunks[i].blocks[d.halo_cell(a, b)], Block::Air);
                    }
                }
            }
        }
    }
    // 3x2x2 lattice: 2*2*2 x-pairs + 3*1*2 y-pairs + 3*2*1 z-pairs, seen from both sides
    assert_eq!(pairs, 2 * (8 + 6 + 6));
}

#[test]
fn stitching_twice_changes_nothing() {
    let mut w = World::new(LatticePos::new(0, 0, 0), [2, 2, 2], &varied_maps(4)).unwrap();
    let first: Vec<Vec<Block>> = w.chunks.iter().map(|c| c.blocks.clone()).collect();
    w.stitch_borders();
    let second: Vec<Vec<Block>> = w.chunks.iter().map(|c| c.blocks.clone()).collect();
    assert_eq!(first, second);
}

#[test]
fn visibility_matches_quad_count() {
    let w = World::new(LatticePos::new(0, -1, 0), [2, 5, 2], &varied_maps(4)).unwrap();
    let mut empty = 0;
    for c in &w.chunks {
        assert_eq!(c.is_visible(), c.quad_count() > 0);
        if c.is_empty() {
            empty += 1;
            assert!(c.mesh().is_none());
        }
    }
    assert!(empty > 0);
}

#[test]
fn buried_chunk_surrounded_by_solid_neighbours_is_invisible() {
    let w = World::new(LatticePos::new(0, 0, 0), [3, 3, 3], &maps(9, 200)).unwrap();
    let centre = &w.chunks[w.calc_chunk_index(LatticePos::new(1, 1, 1))];
    assert!(!centre.is_empty());
    assert_eq!(centre.quad_count(), 0);
    assert!(!centre.is_visible());
    let corner = &w.chunks[w.calc_chunk_index(LatticePos::new(0, 0, 0))];
    assert_eq!(corner.quad_count(), 3);
}

#[test]
fn single_full_chunk_world_meshes_to_six_quads() {
    let w = World::new(LatticePos::new(0, 0, 0), [1, 1, 1], &maps(1, 16)).unwrap();
    assert_eq!(w.chunks[0].quad_count(), 6);
    assert!(w.chunks[0].is_visible());
}

#[test]
fn configuration_errors() {
    let o = LatticePos::new(0, 0, 0);
    assert_eq!(World::new(o, [0, 1, 1], &maps(0, 1)).err(), Some(WorldError::ZeroExtent));
    assert_eq!(World::new(o, [1, 1, 0], &maps(0, 1)).err(), Some(WorldError::ZeroExtent));
    assert_eq!(
        World::new(LatticePos::new(i32::MAX, 0, 0), [2, 1, 1], &maps(2, 1)).err(),
        Some(WorldError::TooLarge)
    );
    assert_eq!(World::new(o, [u32::MAX, u32::MAX, u32::MAX], &maps(0, 1)).err(), Some(WorldError::TooLarge));
    assert_eq!(World::new(o, [2, 1, 2], &maps(3, 1)).err(), Some(WorldError::HeightmapCount));
    let mut bad = maps(4, 1);
    bad[2].pop();
    assert_eq!(World::new(o, [2, 1, 2], &bad).err(), Some(WorldError::HeightmapSize));
}

#[test]
fn lattice_lookups() {
    let w = World::new(LatticePos::new(-1, 0, -1), [2, 1, 2], &maps(4, 8)).unwrap();
    assert!(w.contains_chunk(LatticePos::new(-1, 0, -1)));
    assert!(w.contains_chunk(LatticePos::new(0, 0, 0)));
    assert!(!w.contains_chunk(LatticePos::new(1, 0, 0)));
    assert!(!w.contains_chunk(LatticePos::new(0, 1, 0)));
    assert_eq!(w.calc_chunk_index(LatticePos::new(-1, 0, -1)), 0);
    assert_eq!(w.calc_chunk_index(LatticePos::new(0, 0, -1)), 1);
    assert_eq!(w.calc_chunk_index(LatticePos::new(-1, 0, 0)), 2);
    for (i, c) in w.chunks.iter().enumerate() {
        assert_eq!(w.calc_chunk_index(c.position), i);
    }
}

#[test]
fn block_at_world_coordinates() {
    let w = World::new(LatticePos::new(-1, 0, -1), [2, 1, 2], &maps(4, 8)).unwrap();
    assert_eq!(w.block_at([0, 7, 0]), Block::Dirt);
    assert_eq!(w.block_at([0, 8, 0]), Block::Air);
    assert_eq!(w.block_at([-1, 0, -16]), Block::Dirt);
    assert_eq!(w.block_at([-17, 0, 0]), Block::Air);
    assert_eq!(w.block_at([0, -1, 0]), Block::Air);
    assert_eq!(w.block_at([15, 7, 15]), Block::Dirt);
    assert_eq!(w.block_at([16, 0, 0]), Block::Air);
}

#[test]
fn collision_against_the_world() {
    let w = World::new(LatticePos::new(-1, 0, -1), [2, 1, 2], &maps(4, 8)).unwrap();
    let mut g = Game::new(w);
    g.run_loop([-3, 5, 2]);
    assert_eq!(g.world.current_chunk, LatticePos::new(-1, 0, 0));
    assert_eq!(g.floored_normal_position, [13, 5, 2]);
    assert!(g.player_is_colliding);
    g.run_loop([-3, 12, 2]);
    assert!(!g.player_is_colliding);
    g.run_loop([1, 6, 1]);
    assert!(g.player_is_colliding);
    // outside the lattice there is no block, so no collision
    g.run_loop([100, 6, 1]);
    assert_eq!(g.world.current_chunk, LatticePos::new(6, 0, 0));
    assert!(!g.player_is_colliding);
    g.run_loop([1, 6, 1]);
    assert!(g.player_is_colliding);
    g.detect_collision();
    assert!(g.player_is_colliding);
    g.set_current_chunk([0, -20, 0]);
    g.detect_collision();
    assert!(!g.player_is_colliding);
    assert!(!g.move_allowed([0, 3, 0]));
    assert!(g.move_allowed([0, 9, 0]));
    g.test_collision = false;
    assert!(g.move_allowed([0, 3, 0]));
}

#[test]
fn neighbours_in_the_lattice() {
    let e = [2, 2, 2];
    assert_eq!(neighbor_index(e, 0, Direction::PosX), Some(1));
    assert_eq!(neighbor_index(e, 0, Direction::NegX), None);
    assert_eq!(neighbor_index(e, 0, Direction::PosY), Some(2));
    assert_eq!(neighbor_index(e, 0, Direction::PosZ), Some(4));
    assert_eq!(neighbor_index(e, 7, Direction::NegZ), Some(3));
    assert_eq!(neighbor_index(e, 7, Direction::PosY), None);
}

#[test]
fn halo_and_boundary_cells() {
    assert_eq!(Direction::PosX.halo_cell(1, 1), idx(17, 1, 1));
    assert_eq!(Direction::NegY.halo_cell(2, 3), idx(2, 0, 3));
    assert_eq!(Direction::PosZ.boundary_cell(4, 5), idx(4, 5, 16));
    assert_eq!(Direction::NegX.boundary_cell(4, 5), idx(1, 4, 5));
    assert_eq!(Direction::NegZ.reverse(), Direction::PosZ);
    assert_eq!(Direction::from_index(3), Direction::NegY);
}

#[test]
fn stitching_drops_only_meshes_whose_grid_changed() {
    let mut w = World::new(LatticePos::new(0, 0, 0), [2, 1, 1], &maps(2, 8)).unwrap();
    assert!(w.chunks[0].mesh().is_some());
    assert!(w.chunks[1].mesh().is_some());
    w.stitch_borders();
    assert!(w.chunks[0].mesh().is_some());
    assert!(w.chunks[1].mesh().is_some());
    w.chunks[0].has_changed = false;
    w.chunks[1].has_changed = false;
    // a new block on chunk 0's +X boundary shows up in chunk 1's -X halo
    w.chunks[0].update_block([16, 12, 3], Block::Stone);
    w.chunks[0].create_mesh();
    w.chunks[0].has_changed = false;
    w.stitch_borders();
    assert!(w.chunks[0].mesh().is_some());
    assert!(!w.chunks[0].has_changed);
    assert!(w.chunks[1].mesh().is_none());
    assert!(w.chunks[1].is_visible());
    assert!(w.chunks[1].has_changed);
    assert_eq!(w.chunks[1].block(0, 12, 3), Block::Stone);
    w.mesh_chunks();
    assert!(w.chunks[1].mesh().is_some());
}
