use vstd::prelude::*;
use crate::lattice::{delinear_index, lemma_delinear_of_linear, lemma_linear_index_bound, lemma_linear_of_delinear, linear_index};

verus! {

/// Side of a chunk's interior, in blocks.
pub const CHUNK_SIDE: u32 = 16;

/// Side of a chunk's padded grid: the interior plus a one-cell halo on each face.
pub const GRID_SIDE: u32 = 18;

/// Number of cells in a padded grid.
pub const GRID_VOLUME: usize = 5832;

/// Number of columns in a chunk's heightmap.
pub const COLUMN_COUNT: usize = 256;

/// The offset of padded cell `(x, y, z)` in a chunk's grid.
pub open spec fn cell(x: int, y: int, z: int) -> int {
    linear_index(x, y, z, 18, 18)
}

/// The padded cell stored at offset `k` of a chunk's grid.
pub open spec fn cell_coords(k: int) -> (int, int, int) {
    delinear_index(k, 18, 18)
}

pub open spec fn in_grid(x: int, y: int, z: int) -> bool {
    0 <= x < 18 && 0 <= y < 18 && 0 <= z < 18
}

/// A coordinate of the interior, `1..=16` in padded coordinates.
pub open spec fn inner(a: int) -> bool {
    1 <= a <= 16
}

pub open spec fn is_interior(x: int, y: int, z: int) -> bool {
    inner(x) && inner(y) && inner(z)
}

/// The offset in a 16 x 16 heightmap of the column under padded cell `(x, _, z)`.
pub open spec fn column(x: int, z: int) -> int {
    (x - 1) + 16 * (z - 1)
}

pub proof fn lemma_cell_of_coords(x: int, y: int, z: int)
    requires
        in_grid(x, y, z),
    ensures
        cell_coords(cell(x, y, z)) == (x, y, z),
        0 <= cell(x, y, z) < 5832,
{
    lemma_delinear_of_linear(x, y, z, 18, 18);
    lemma_linear_index_bound(x, y, z, 18, 18, 18);
}

pub proof fn lemma_coords_of_cell(k: int)
    requires
        0 <= k < 5832,
    ensures
        ({
            let (x, y, z) = cell_coords(k);
            in_grid(x, y, z) && cell(x, y, z) == k
        }),
{
    lemma_linear_of_delinear(k, 18, 18, 18);
}

/// The padded cell stored at offset `k` of a chunk's grid.
pub fn grid_coords(k: usize) -> (r: [u32; 3])
    requires
        k < 5832,
    ensures
        cell_coords(k as int) == (r[0] as int, r[1] as int, r[2] as int),
        in_grid(r[0] as int, r[1] as int, r[2] as int),
        cell(r[0] as int, r[1] as int, r[2] as int) == k,
{
    proof {
        lemma_coords_of_cell(k as int);
    }
    let q = k / 18;
    [(k % 18) as u32, (q % 18) as u32, (q / 18) as u32]
}

/// One of the six axis directions from a chunk to its neighbours.
#[derive(Debug, Clone, Copy, PartialEq, Eq, Structural)]
pub enum Direction {
    PosX,
    NegX,
    PosY,
    NegY,
    PosZ,
    NegZ,
}

impl Direction {
    pub open spec fn opposite(self) -> Direction {
        match self {
            Direction::PosX => Direction::NegX,
            Direction::NegX => Direction::PosX,
            Direction::PosY => Direction::NegY,
            Direction::NegY => Direction::PosY,
            Direction::PosZ => Direction::NegZ,
            Direction::NegZ => Direction::PosZ,
        }
    }

    /// The lattice step taken in this direction.
    pub open spec fn offset(self) -> (int, int, int) {
        match self {
            Direction::PosX => (1, 0, 0),
            Direction::NegX => (-1, 0, 0),
            Direction::PosY => (0, 1, 0),
            Direction::NegY => (0, -1, 0),
            Direction::PosZ => (0, 0, 1),
            Direction::NegZ => (0, 0, -1),
        }
    }

    pub open spec fn index(self) -> int {
        match self {
            Direction::PosX => 0,
            Direction::NegX => 1,
            Direction::PosY => 2,
            Direction::NegY => 3,
            Direction::PosZ => 4,
            Direction::NegZ => 5,
        }
    }

    /// The halo cell at face position `(a, b)` of the halo plane facing this direction.
    pub open spec fn halo(self, a: int, b: int) -> (int, int, int) {
        match self {
            Direction::PosX => (17, a, b),
            Direction::NegX => (0, a, b),
            Direction::PosY => (a, 17, b),
            Direction::NegY => (a, 0, b),
            Direction::PosZ => (a, b, 17),
            Direction::NegZ => (a, b, 0),
        }
    }

    /// The interior cell at face position `(a, b)` of the boundary slice facing this direction.
    pub open spec fn boundary(self, a: int, b: int) -> (int, int, int) {
        match self {
            Direction::PosX => (16, a, b),
            Direction::NegX => (1, a, b),
            Direction::PosY => (a, 16, b),
            Direction::NegY => (a, 1, b),
            Direction::PosZ => (a, b, 16),
            Direction::NegZ => (a, b, 1),
        }
    }

    /// The face position of a cell within the planes normal to this direction.
    pub open spec fn face_position(self, x: int, y: int, z: int) -> (int, int) {
        match self {
            Direction::PosX | Direction::NegX => (y, z),
            Direction::PosY | Direction::NegY => (x, z),
            Direction::PosZ | Direction::NegZ => (x, y),
        }
    }

    /// The direction with the given index, `0..6`.
    pub fn from_index(t: usize) -> (r: Direction)
        requires
            t < 6,
        ensures
            r.index() == t,
    {
        if t == 0 {
            Direction::PosX
        } else if t == 1 {
            Direction::NegX
        } else if t == 2 {
            Direction::PosY
        } else if t == 3 {
            Direction::NegY
        } else if t == 4 {
            Direction::PosZ
        } else {
            Direction::NegZ
        }
    }

    /// The opposite direction.
    pub fn reverse(&self) -> (r: Direction)
        ensures
            r == self.opposite(),
    {
        match self {
            Direction::PosX => Direction::NegX,
            Direction::NegX => Direction::PosX,
            Direction::PosY => Direction::NegY,
            Direction::NegY => Direction::PosY,
            Direction::PosZ => Direction::NegZ,
            Direction::NegZ => Direction::PosZ,
        }
    }

    /// The grid offset of halo cell `(a, b)` facing this direction.
    pub fn halo_cell(&self, a: u32, b: u32) -> (r: usize)
        requires
            inner(a as int),
            inner(b as int),
        ensures
            ({
                let (x, y, z) = self.halo(a as int, b as int);
                r == cell(x, y, z)
            }),
            r < GRID_VOLUME,
    {
        let (x, y, z): (usize, usize, usize) = match self {
            Direction::PosX => (17, a as usize, b as usize),
            Direction::NegX => (0, a as usize, b as usize),
            Direction::PosY => (a as usize, 17, b as usize),
            Direction::NegY => (a as usize, 0, b as usize),
            Direction::PosZ => (a as usize, b as usize, 17),
            Direction::NegZ => (a as usize, b as usize, 0),
        };
        x + 18 * y + 324 * z
    }

    /// The grid offset of boundary cell `(a, b)` facing this direction.
    pub fn boundary_cell(&self, a: u32, b: u32) -> (r: usize)
        requires
            inner(a as int),
            inner(b as int),
        ensures
            ({
                let (x, y, z) = self.boundary(a as int, b as int);
                r == cell(x, y, z)
            }),
            r < GRID_VOLUME,
    {
        let (x, y, z): (usize, usize, usize) = match self {
            Direction::PosX => (16, a as usize, b as usize),
            Direction::NegX => (1, a as usize, b as usize),
            Direction::PosY => (a as usize, 16, b as usize),
            Direction::NegY => (a as usize, 1, b as usize),
            Direction::PosZ => (a as usize, b as usize, 16),
            Direction::NegZ => (a as usize, b as usize, 1),
        };
        x + 18 * y + 324 * z
    }
}

/// The direction whose halo plane holds padded cell `(x, y, z)`, if any. Edge and corner
/// cells of the halo belong to no plane.
pub open spec fn halo_direction(x: int, y: int, z: int) -> Option<Direction> {
    if inner(y) && inner(z) && x == 17 {
        Some(Direction::PosX)
    } else if inner(y) && inner(z) && x == 0 {
        Some(Direction::NegX)
    } else if inner(x) && inner(z) && y == 17 {
        Some(Direction::PosY)
    } else if inner(x) && inner(z) && y == 0 {
        Some(Direction::NegY)
    } else if inner(x) && inner(y) && z == 17 {
        Some(Direction::PosZ)
    } else if inner(x) && inner(y) && z == 0 {
        Some(Direction::NegZ)
    } else {
        None
    }
}

/// Halo cells at face position `(a, b)` belong to the plane of their direction.
pub proof fn lemma_halo_direction(d: Direction, a: int, b: int)
    requires
        inner(a),
        inner(b),
    ensures
        ({
            let (x, y, z) = d.halo(a, b);
            &&& in_grid(x, y, z)
            &&& halo_direction(x, y, z) == Some(d)
            &&& d.face_position(x, y, z) == (a, b)
        }),
{
}

} // verus!
