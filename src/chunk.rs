use vstd::prelude::*;
use crate::block::Block;
use crate::grid::{
    cell, cell_coords, column, grid_coords, in_grid, is_interior, lemma_cell_of_coords,
    lemma_coords_of_cell, COLUMN_COUNT, GRID_VOLUME,
};
use crate::lattice::LatticePos;
use crate::mesher::{greedy_quads, greedy_quads_of, Quad};

verus! {

/// The lowest world height covered by a chunk at lattice height `y`.
pub open spec fn band_bottom(y: i32) -> int {
    16 * y
}

/// Every column of the heightmap lies at or below the chunk's band: no interior cell is solid.
pub open spec fn all_below(y: i32, heights: Seq<u32>) -> bool {
    forall|c: int| 0 <= c < 256 ==> heights[c] <= band_bottom(y)
}

/// Every column of the heightmap lies strictly above the chunk's band.
pub open spec fn all_above(y: i32, heights: Seq<u32>) -> bool {
    forall|c: int| 0 <= c < 256 ==> band_bottom(y) + 16 <= heights[c]
}

/// Padded cell `(x, y, z)` of a chunk at lattice height `cy` is below its column's height.
pub open spec fn under_surface(cy: i32, heights: Seq<u32>, x: int, y: int, z: int) -> bool {
    band_bottom(cy) + y <= heights[column(x, z)]
}

/// The block that heightmap generation puts at padded cell `(x, y, z)`: `Dirt` at and under
/// the surface of the column, `Air` above it and in the halo.
pub open spec fn heightmap_block(cy: i32, heights: Seq<u32>, x: int, y: int, z: int) -> Block {
    if is_interior(x, y, z) && under_surface(cy, heights, x, y, z) {
        Block::Dirt
    } else {
        Block::Air
    }
}

/// The block that chunk generation puts at padded cell `(x, y, z)`: as `heightmap_block`,
/// except that a chunk whose columns all rise above its band is filled with `Stone`.
pub open spec fn generated_block(cy: i32, heights: Seq<u32>, x: int, y: int, z: int) -> Block {
    if is_interior(x, y, z) && under_surface(cy, heights, x, y, z) {
        if all_above(cy, heights) {
            Block::Stone
        } else {
            Block::Dirt
        }
    } else {
        Block::Air
    }
}

pub open spec fn heightmap_block_at(cy: i32, heights: Seq<u32>, k: int) -> Block {
    let (x, y, z) = cell_coords(k);
    heightmap_block(cy, heights, x, y, z)
}

pub open spec fn generated_block_at(cy: i32, heights: Seq<u32>, k: int) -> Block {
    let (x, y, z) = cell_coords(k);
    generated_block(cy, heights, x, y, z)
}

/// Every interior cell of the grid is `Air`.
pub open spec fn interior_empty(blocks: Seq<Block>) -> bool {
    forall|x: int, y: int, z: int|
        is_interior(x, y, z) ==> !(#[trigger] blocks[cell(x, y, z)]).is_solid()
}

/// The mesh that meshing gives a grid: none when the interior is all `Air`, else its greedy
/// quads.
pub open spec fn mesh_of(blocks: Seq<Block>) -> Option<Seq<Quad>> {
    if interior_empty(blocks) {
        None
    } else {
        Some(greedy_quads_of(blocks, 18))
    }
}

/// A fixed-size cube of blocks: a 16^3 interior with a one-cell halo, stored as an 18^3 grid.
pub struct Chunk {
    pub position: LatticePos,
    pub blocks: Vec<Block>,
    pub has_changed: bool,
    pub is_empty: bool,
    pub visible: bool,
    pub mesh: Option<Vec<Quad>>,
}

impl Chunk {
    pub open spec fn spec_is_empty(&self) -> bool {
        self.is_empty
    }

    pub open spec fn spec_visible(&self) -> bool {
        self.visible
    }

    pub open spec fn spec_mesh(&self) -> Option<Seq<Quad>> {
        match self.mesh {
            Some(m) => Some(m@),
            None => None,
        }
    }

    /// The number of quads of the chunk's mesh (zero while it has none).
    pub open spec fn spec_quad_count(&self) -> nat {
        match self.mesh {
            Some(m) => m@.len(),
            None => 0,
        }
    }

    /// The grid has its full size; `is_empty` says whether the interior is all `Air`; an empty
    /// chunk has no mesh; a chunk with a mesh is visible iff the mesh has a quad, and one
    /// without is visible iff it is not empty.
    pub open spec fn wf(&self) -> bool {
        &&& self.blocks@.len() == 5832
        &&& self.is_empty == interior_empty(self.blocks@)
        &&& self.is_empty ==> self.mesh is None
        &&& match self.mesh {
            Some(m) => self.visible == (m@.len() > 0),
            None => self.visible == !self.is_empty,
        }
    }
}

/// A generated grid is empty inside exactly when every column lies at or below the band.
proof fn lemma_generated_empty(cy: i32, heights: Seq<u32>, blocks: Seq<Block>)
    requires
        heights.len() == 256,
        blocks.len() == 5832,
        forall|k: int| 0 <= k < 5832 ==> blocks[k] == #[trigger] generated_block_at(cy, heights, k),
    ensures
        interior_empty(blocks) == all_below(cy, heights),
{
    if all_below(cy, heights) {
        assert forall|x: int, y: int, z: int| is_interior(x, y, z) implies !(#[trigger] blocks[cell(x, y, z)]).is_solid() by {
            lemma_cell_of_coords(x, y, z);
            assert(blocks[cell(x, y, z)] == generated_block_at(cy, heights, cell(x, y, z)));
            assert(heights[column(x, z)] <= band_bottom(cy));
        }
    } else {
        let c = choose|c: int| 0 <= c < 256 && !(heights[c] <= band_bottom(cy));
        let x = c % 16 + 1;
        let z = c / 16 + 1;
        assert(column(x, z) == c);
        lemma_cell_of_coords(x, 1, z);
        assert(blocks[cell(x, 1, z)] == generated_block_at(cy, heights, cell(x, 1, z)));
        assert(blocks[cell(x, 1, z)].is_solid());
    }
}

/// The grid that chunk generation gives a chunk at lattice height `cy`.
pub open spec fn generated_grid(cy: i32, heights: Seq<u32>) -> Seq<Block> {
    Seq::new(5832, |k: int| generated_block_at(cy, heights, k))
}

/// A chunk whose columns all lie strictly below its band is empty and meshes to no quad.
pub proof fn lemma_empty_chunk(cy: i32, heights: Seq<u32>)
    requires
        heights.len() == 256,
        forall|c: int| 0 <= c < 256 ==> heights[c] < band_bottom(cy),
    ensures
        all_below(cy, heights),
        interior_empty(generated_grid(cy, heights)),
        mesh_of(generated_grid(cy, heights)) is None,
{
    lemma_generated_empty(cy, heights, generated_grid(cy, heights));
}

/// A chunk whose columns all rise strictly above its band has every interior cell solid and
/// is not empty.
pub proof fn lemma_full_chunk(cy: i32, heights: Seq<u32>)
    requires
        heights.len() == 256,
        forall|c: int| 0 <= c < 256 ==> heights[c] > band_bottom(cy) + 15,
    ensures
        forall|x: int, y: int, z: int| is_interior(x, y, z) ==>
            (#[trigger] generated_grid(cy, heights)[cell(x, y, z)]).is_solid(),
        !all_below(cy, heights),
        !interior_empty(generated_grid(cy, heights)),
{
    let g = generated_grid(cy, heights);
    assert forall|x: int, y: int, z: int| is_interior(x, y, z) implies (#[trigger] g[cell(x, y, z)]).is_solid() by {
        lemma_cell_of_coords(x, y, z);
        assert(heights[column(x, z)] > band_bottom(cy) + 15);
    }
    assert(heights[0] > band_bottom(cy) + 15);
    lemma_cell_of_coords(1, 1, 1);
    assert(g[cell(1, 1, 1)].is_solid());
}

/// Meshing depends on the grid alone: two grids with the same blocks get the same mesh.
pub proof fn lemma_mesh_determinism(a: Seq<Block>, b: Seq<Block>)
    requires
        a == b,
    ensures
        mesh_of(a) == mesh_of(b),
{
}

/// A grid with `Air` in every cell.
fn air_grid() -> (r: Vec<Block>)
    ensures
        r@.len() == 5832,
        forall|k: int| 0 <= k < 5832 ==> r@[k] == Block::Air,
{
    let mut blocks: Vec<Block> = Vec::with_capacity(GRID_VOLUME);
    let mut k: usize = 0;
    while k < GRID_VOLUME
        invariant
            k <= 5832,
            blocks@.len() == k,
            forall|j: int| 0 <= j < k ==> blocks@[j] == Block::Air,
        decreases 5832 - k,
    {
        blocks.push(Block::Air);
        k = k + 1;
    }
    blocks
}

/// Whether every interior cell of the grid is `Air`.
pub fn interior_is_air(blocks: &Vec<Block>) -> (r: bool)
    requires
        blocks@.len() == 5832,
    ensures
        r == interior_empty(blocks@),
{
    let mut k: usize = 0;
    while k < GRID_VOLUME
        invariant
            k <= 5832,
            blocks@.len() == 5832,
            forall|j: int| 0 <= j < k ==> ({
                let (x, y, z) = #[trigger] cell_coords(j);
                is_interior(x, y, z) ==> !blocks@[j].is_solid()
            }),
        decreases 5832 - k,
    {
        let p = grid_coords(k);
        if 1 <= p[0] && p[0] <= 16 && 1 <= p[1] && p[1] <= 16 && 1 <= p[2] && p[2] <= 16
            && blocks[k].is_solid_block() {
            proof {
                lemma_coords_of_cell(k as int);
            }
            return false;
        }
        k = k + 1;
    }
    assert forall|x: int, y: int, z: int| is_interior(x, y, z) implies !(#[trigger] blocks@[cell(x, y, z)]).is_solid() by {
        lemma_cell_of_coords(x, y, z);
        assert(cell_coords(cell(x, y, z)) == (x, y, z));
    }
    true
}

impl Chunk {
    /// The grid that a heightmap gives a chunk at lattice height `position_y`: each interior
    /// cell is `Dirt` where its world height is at or under its column's height, else `Air`;
    /// the halo is `Air`.
    pub fn gen_from_heightmap(position_y: i32, heights: &Vec<u32>) -> (r: Vec<Block>)
        requires
            heights@.len() == 256,
        ensures
            r@.len() == 5832,
            forall|k: int| 0 <= k < 5832 ==> r@[k] == #[trigger] heightmap_block_at(position_y, heights@, k),
    {
        let y_offset: i64 = position_y as i64 * 16;
        let mut blocks: Vec<Block> = Vec::with_capacity(GRID_VOLUME);
        let mut k: usize = 0;
        while k < GRID_VOLUME
            invariant
                k <= 5832,
                heights@.len() == 256,
                y_offset == band_bottom(position_y),
                blocks@.len() == k,
                forall|j: int| 0 <= j < k ==> blocks@[j] == #[trigger] heightmap_block_at(position_y, heights@, j),
            decreases 5832 - k,
        {
            let p = grid_coords(k);
            let (x, y, z) = (p[0], p[1], p[2]);
            let mut b = Block::Air;
            if 1 <= x && x <= 16 && 1 <= y && y <= 16 && 1 <= z && z <= 16 {
                let h = heights[((x - 1) + 16 * (z - 1)) as usize];
                if y_offset + y as i64 <= h as i64 {
                    b = Block::Dirt;
                }
            }
            blocks.push(b);
            k = k + 1;
        }
        blocks
    }

    /// Generates the chunk at `position` from the heights of its 16 x 16 columns (column
    /// `(x, z)` at offset `x + 16 * z`). A chunk whose columns all lie at or below its band is
    /// empty and all `Air`; one whose columns all rise above its band is filled with `Stone`;
    /// otherwise each interior cell is `Dirt` up to its column's height. The halo is `Air`.
    pub fn new(position: LatticePos, heights: &Vec<u32>) -> (r: Chunk)
        requires
            heights@.len() == 256,
        ensures
            r.wf(),
            r.position == position,
            forall|k: int| 0 <= k < 5832 ==> r.blocks@[k] == #[trigger] generated_block_at(position.y, heights@, k),
            r.spec_is_empty() == all_below(position.y, heights@),
            r.spec_mesh() is None,
            r.has_changed,
    {
        let y_offset: i64 = position.y as i64 * 16;
        let mut all_empty = true;
        let mut all_full = true;
        let mut c: usize = 0;
        while c < COLUMN_COUNT
            invariant
                c <= 256,
                heights@.len() == 256,
                y_offset == band_bottom(position.y),
                all_empty == (forall|j: int| 0 <= j < c ==> heights@[j] <= band_bottom(position.y)),
                all_full == (forall|j: int| 0 <= j < c ==> band_bottom(position.y) + 16 <= heights@[j]),
            decreases 256 - c,
        {
            let h = heights[c] as i64;
            if y_offset >= h {
                assert(!(band_bottom(position.y) + 16 <= heights@[c as int]));
                all_full = false;
            } else {
                all_empty = false;
                if y_offset + 16 > h {
                    all_full = false;
                }
            }
            c = c + 1;
        }
        let blocks;
        if all_empty {
            blocks = air_grid();
            assert forall|k: int| 0 <= k < 5832 implies blocks@[k] == #[trigger] generated_block_at(position.y, heights@, k) by {
                lemma_coords_of_cell(k);
                let (x, y, z) = cell_coords(k);
                if is_interior(x, y, z) {
                    assert(heights@[column(x, z)] <= band_bottom(position.y));
                }
            }
        } else if all_full {
            let mut filled: Vec<Block> = Vec::with_capacity(GRID_VOLUME);
            let mut k: usize = 0;
            while k < GRID_VOLUME
                invariant
                    k <= 5832,
                    heights@.len() == 256,
                    all_above(position.y, heights@),
                    filled@.len() == k,
                    forall|j: int| 0 <= j < k ==> filled@[j] == #[trigger] generated_block_at(position.y, heights@, j),
                decreases 5832 - k,
            {
                let p = grid_coords(k);
                proof {
                    let (x, y, z) = cell_coords(k as int);
                    if is_interior(x, y, z) {
                        assert(band_bottom(position.y) + 16 <= heights@[column(x, z)]);
                    }
                }
                if 1 <= p[0] && p[0] <= 16 && 1 <= p[1] && p[1] <= 16 && 1 <= p[2] && p[2] <= 16 {
                    filled.push(Block::Stone);
                } else {
                    filled.push(Block::Air);
                }
                k = k + 1;
            }
            blocks = filled;
        } else {
            blocks = Chunk::gen_from_heightmap(position.y, heights);
            assert forall|k: int| 0 <= k < 5832 implies blocks@[k] == #[trigger] generated_block_at(position.y, heights@, k) by {
                assert(blocks@[k] == heightmap_block_at(position.y, heights@, k));
            }
        }
        proof {
            lemma_generated_empty(position.y, heights@, blocks@);
        }
        Chunk {
            position,
            blocks,
            has_changed: true,
            is_empty: all_empty,
            visible: !all_empty,
            mesh: None,
        }
    }

    /// Sets the block at padded cell `position` and drops the mesh, which no longer matches.
    pub fn update_block(&mut self, position: [u32; 3], block: Block)
        requires
            old(self).wf(),
            in_grid(position[0] as int, position[1] as int, position[2] as int),
        ensures
            final(self).wf(),
            final(self).blocks@ == old(self).blocks@.update(
                cell(position[0] as int, position[1] as int, position[2] as int),
                block,
            ),
            final(self).position == old(self).position,
            final(self).spec_mesh() is None,
            final(self).has_changed,
    {
        let k = position[0] as usize + 18 * position[1] as usize + 324 * position[2] as usize;
        self.blocks.set(k, block);
        self.is_empty = interior_is_air(&self.blocks);
        self.visible = !self.is_empty;
        self.mesh = None;
        self.has_changed = true;
    }

    /// Meshes a chunk that is not empty with greedy quads over its padded grid, and records
    /// whether any quad came out. An empty chunk is left as it is, without a mesh.
    pub fn create_mesh(&mut self)
        requires
            old(self).wf(),
        ensures
            final(self).wf(),
            final(self).blocks == old(self).blocks,
            final(self).position == old(self).position,
            final(self).has_changed == old(self).has_changed,
            final(self).spec_is_empty() == old(self).spec_is_empty(),
            final(self).spec_mesh() == mesh_of(old(self).blocks@),
            final(self).spec_visible() == (final(self).spec_quad_count() > 0),
    {
        if self.is_empty {
            return;
        }
        let quads = greedy_quads(&self.blocks, 18, 17);
        self.visible = quads.len() > 0;
        self.mesh = Some(quads);
    }

    /// Whether every interior cell is `Air`.
    pub fn is_empty(&self) -> (r: bool)
        ensures
            r == self.spec_is_empty(),
    {
        self.is_empty
    }

    /// Whether the chunk has anything to draw.
    pub fn is_visible(&self) -> (r: bool)
        ensures
            r == self.spec_visible(),
    {
        self.visible
    }

    /// The number of quads of the chunk's mesh (zero while it has none).
    pub fn quad_count(&self) -> (r: usize)
        ensures
            r == self.spec_quad_count(),
    {
        match &self.mesh {
            Some(m) => m.len(),
            None => 0,
        }
    }

    /// The quads of the chunk's mesh, if it has one.
    pub fn mesh(&self) -> (r: Option<&Vec<Quad>>)
        ensures
            match r {
                Some(m) => self.spec_mesh() == Some(m@),
                None => self.spec_mesh() is None,
            },
    {
        self.mesh.as_ref()
    }

    /// The block at padded cell `(x, y, z)`.
    pub fn block(&self, x: u32, y: u32, z: u32) -> (r: Block)
        requires
            self.wf(),
            in_grid(x as int, y as int, z as int),
        ensures
            r == self.blocks@[cell(x as int, y as int, z as int)],
    {
        self.blocks[x as usize + 18 * y as usize + 324 * z as usize]
    }

    /// The world-space translation of the chunk's mesh: the lattice position times the chunk
    /// side, less one for the halo, on each axis.
    pub fn model_offset(&self) -> (r: [i64; 3])
        ensures
            r[0] == 16 * self.position.x - 1,
            r[1] == 16 * self.position.y - 1,
            r[2] == 16 * self.position.z - 1,
    {
        [
            16 * self.position.x as i64 - 1,
            16 * self.position.y as i64 - 1,
            16 * self.position.z as i64 - 1,
        ]
    }
}

} // verus!
