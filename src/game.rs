use vstd::prelude::*;
use crate::grid::cell;
use crate::lattice::{chunk_coord, local_coord, LatticePos};
use crate::world::{chunk_index_of, chunk_of_block, in_lattice, World};

verus! {

/// The world together with the player's collision state. The player's position comes in as
/// the block that holds it (each coordinate floored).
pub struct Game {
    pub world: World,
    pub player_is_colliding: bool,
    pub test_collision: bool,
    /// The player's block within its chunk, each coordinate in `0..16`.
    pub floored_normal_position: [u32; 3],
}

impl Game {
    /// A game over `world`, with collision testing on and no collision yet.
    pub fn new(world: World) -> (r: Game)
        ensures
            r.world == world,
            !r.player_is_colliding,
            r.test_collision,
            r.floored_normal_position == [0u32, 0, 0],
    {
        Game { world, player_is_colliding: false, test_collision: true, floored_normal_position: [0, 0, 0] }
    }

    /// Records the chunk that holds the player's block, flooring each coordinate divided by 16.
    pub fn set_current_chunk(&mut self, block: [i32; 3])
        ensures
            final(self).world.current_chunk == chunk_of_block(block),
            final(self).world.chunks == old(self).world.chunks,
            final(self).world.origin == old(self).world.origin,
            final(self).world.extent == old(self).world.extent,
            final(self).player_is_colliding == old(self).player_is_colliding,
            final(self).test_collision == old(self).test_collision,
            final(self).floored_normal_position == old(self).floored_normal_position,
    {
        self.world.current_chunk = LatticePos { x: chunk_coord(block[0]), y: chunk_coord(block[1]), z: chunk_coord(block[2]) };
    }

    /// Records the player's block within its chunk: each coordinate modulo 16, in `0..16`.
    pub fn set_floored_position(&mut self, block: [i32; 3])
        ensures
            final(self).floored_normal_position[0] == block[0] % 16,
            final(self).floored_normal_position[1] == block[1] % 16,
            final(self).floored_normal_position[2] == block[2] % 16,
            final(self).world == old(self).world,
            final(self).player_is_colliding == old(self).player_is_colliding,
            final(self).test_collision == old(self).test_collision,
    {
        self.floored_normal_position = [local_coord(block[0]), local_coord(block[1]), local_coord(block[2])];
    }

    /// Records whether the player's block in the current chunk is solid. Where the lattice
    /// holds no current chunk there is no block, so the player does not collide.
    pub fn detect_collision(&mut self)
        requires
            old(self).world.wf(),
            old(self).floored_normal_position[0] < 16,
            old(self).floored_normal_position[1] < 16,
            old(self).floored_normal_position[2] < 16,
        ensures
            final(self).world == old(self).world,
            final(self).test_collision == old(self).test_collision,
            final(self).floored_normal_position == old(self).floored_normal_position,
            ({
                let w = old(self).world;
                let f = old(self).floored_normal_position;
                final(self).player_is_colliding == if in_lattice(w.origin, w.extent, w.current_chunk) {
                    w.chunks@[chunk_index_of(w.origin, w.extent, w.current_chunk)].blocks@[cell(
                        f[0] + 1,
                        f[1] + 1,
                        f[2] + 1,
                    )].is_solid()
                } else {
                    false
                }
            }),
    {
        if self.world.contains_chunk(self.world.current_chunk) {
            let i = self.world.calc_chunk_index(self.world.current_chunk);
            let f = self.floored_normal_position;
            assert(self.world.chunks@[i as int].wf());
            let b = self.world.chunks[i].block(f[0] + 1, f[1] + 1, f[2] + 1);
            self.player_is_colliding = b.is_solid_block();
        } else {
            self.player_is_colliding = false;
        }
    }

    /// One collision step for the player's block: records its position within its chunk and
    /// its chunk, then tests it for collision: the player collides exactly when the world's
    /// block there is solid (`Air` outside the lattice).
    pub fn run_loop(&mut self, block: [i32; 3])
        requires
            old(self).world.wf(),
        ensures
            final(self).world.current_chunk == chunk_of_block(block),
            final(self).world.chunks == old(self).world.chunks,
            final(self).world.origin == old(self).world.origin,
            final(self).world.extent == old(self).world.extent,
            final(self).world.wf(),
            final(self).test_collision == old(self).test_collision,
            final(self).floored_normal_position[0] == block[0] % 16,
            final(self).floored_normal_position[1] == block[1] % 16,
            final(self).floored_normal_position[2] == block[2] % 16,
            final(self).player_is_colliding == final(self).world.spec_block_at(block).is_solid(),
    {
        self.set_floored_position(block);
        self.set_current_chunk(block);
        self.detect_collision();
    }

    /// Whether the player may move into the block `target`: always when collision testing is
    /// off, else unless the block there is solid.
    pub fn move_allowed(&self, target: [i32; 3]) -> (r: bool)
        requires
            self.world.wf(),
        ensures
            r == (!self.test_collision || !self.world.spec_block_at(target).is_solid()),
    {
        if !self.test_collision {
            return true;
        }
        !self.world.block_at(target).is_solid_block()
    }
}

} // verus!
