use vstd::prelude::*;

verus! {

/// Relies on block_mesh::VoxelVisibility, a field-less enum: the value that the meshing traits
/// return for a voxel.
#[verifier::external_type_specification]
pub struct ExVoxelVisibility(block_mesh::VoxelVisibility);

/// A block type. `Air` is the only empty kind; every other kind is solid.
#[derive(Debug, Clone, Copy, PartialEq, Eq, Structural)]
pub enum Block {
    Air,
    Dirt,
    Grass,
    Stone,
    Water,
}

impl Block {
    pub open spec fn is_solid(self) -> bool {
        self != Block::Air
    }

    pub open spec fn spec_code(self) -> u8 {
        match self {
            Block::Air => 0,
            Block::Dirt => 1,
            Block::Grass => 2,
            Block::Stone => 3,
            Block::Water => 4,
        }
    }

    /// The byte code of the block type (`Air` is zero).
    pub fn code(&self) -> (r: u8)
        ensures
            r == self.spec_code(),
    {
        match self {
            Block::Air => 0,
            Block::Dirt => 1,
            Block::Grass => 2,
            Block::Stone => 3,
            Block::Water => 4,
        }
    }

    /// The block type with the given byte code, if there is one.
    pub fn from_code(c: u8) -> (r: Option<Block>)
        ensures
            r matches Some(b) ==> b.spec_code() == c,
            r is None <==> c > 4,
    {
        match c {
            0 => Some(Block::Air),
            1 => Some(Block::Dirt),
            2 => Some(Block::Grass),
            3 => Some(Block::Stone),
            4 => Some(Block::Water),
            _ => None,
        }
    }

    /// Whether the block is solid (anything but `Air`).
    pub fn is_solid_block(&self) -> (r: bool)
        ensures
            r == self.is_solid(),
    {
        !matches!(self, Block::Air)
    }
}

impl Default for Block {
    fn default() -> (r: Block)
        ensures
            r == Block::Air,
    {
        Block::Air
    }
}

/// Meshing sees `Air` as empty and every other block as opaque.
impl block_mesh::Voxel for Block {
    fn get_visibility(&self) -> (r: block_mesh::VoxelVisibility)
        ensures
            r == (if self.is_solid() {
                block_mesh::VoxelVisibility::Opaque
            } else {
                block_mesh::VoxelVisibility::Empty
            }),
    {
        match self {
            Block::Air => block_mesh::VoxelVisibility::Empty,
            _ => block_mesh::VoxelVisibility::Opaque,
        }
    }
}

/// Faces merge only between blocks of the same type.
impl block_mesh::MergeVoxel for Block {
    type MergeValue = Block;

    fn merge_value(&self) -> (r: Block)
        ensures
            r == *self,
    {
        *self
    }
}

/// A two-state voxel: `true` is solid, `false` is empty.
#[derive(Debug, Clone, Copy, PartialEq, Eq, Structural)]
pub struct BoolVoxel(pub bool);

impl block_mesh::Voxel for BoolVoxel {
    fn get_visibility(&self) -> (r: block_mesh::VoxelVisibility)
        ensures
            r == (if self.0 {
                block_mesh::VoxelVisibility::Opaque
            } else {
                block_mesh::VoxelVisibility::Empty
            }),
    {
        if self.0 {
            block_mesh::VoxelVisibility::Opaque
        } else {
            block_mesh::VoxelVisibility::Empty
        }
    }
}

impl block_mesh::MergeVoxel for BoolVoxel {
    type MergeValue = BoolVoxel;

    fn merge_value(&self) -> (r: BoolVoxel)
        ensures
            r == *self,
    {
        *self
    }
}

} // verus!
