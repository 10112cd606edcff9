use vstd::prelude::*;
use vstd::arithmetic::div_mod::{lemma_fundamental_div_mod, lemma_fundamental_div_mod_converse};

verus! {

/// A chunk's position in the chunk lattice (not in blocks).
#[derive(Debug, Clone, Copy, PartialEq, Eq, Structural)]
pub struct LatticePos {
    pub x: i32,
    pub y: i32,
    pub z: i32,
}

impl LatticePos {
    pub fn new(x: i32, y: i32, z: i32) -> (r: LatticePos)
        ensures
            r == (LatticePos { x, y, z }),
    {
        LatticePos { x, y, z }
    }
}

/// The chunk coordinate that holds block coordinate `c`: `floor(c / 16)`. (Spec `/` on
/// integers rounds down for a positive divisor.)
pub fn chunk_coord(c: i32) -> (r: i32)
    ensures
        r == c / 16,
        16 * r <= c < 16 * r + 16,
{
    let r: i32;
    if c >= 0 {
        r = (c as u32 / 16) as i32;
    } else {
        let m = (0 - c as i64) as u64;
        r = (0 - ((m + 15) / 16) as i64) as i32;
    }
    proof {
        lemma_fundamental_div_mod_converse(c as int, 16, r as int, c - 16 * r);
    }
    r
}

/// The coordinate of block coordinate `c` within its chunk: `c mod 16`, in `0..16`.
pub fn local_coord(c: i32) -> (r: u32)
    ensures
        r == c % 16,
        r < 16,
        c == 16 * (c / 16) + r,
{
    let q = chunk_coord(c);
    let r = (c as i64 - 16 * q as i64) as u32;
    proof {
        lemma_fundamental_div_mod_converse(c as int, 16, q as int, r as int);
    }
    r
}

/// The offset of cell `(x, y, z)` in a box of extent `(ex, ey, _)` stored x-fastest.
pub open spec fn linear_index(x: int, y: int, z: int, ex: int, ey: int) -> int {
    x + ex * y + ex * ey * z
}

/// The cell stored at offset `i` in a box of extent `(ex, ey, _)`.
pub open spec fn delinear_index(i: int, ex: int, ey: int) -> (int, int, int) {
    (i % ex, (i / ex) % ey, (i / ex) / ey)
}

/// The number of cells in a box.
pub open spec fn volume(e: [u32; 3]) -> int {
    e[0] * e[1] * e[2]
}

/// A point lies inside a box.
pub open spec fn in_extent(p: [u32; 3], e: [u32; 3]) -> bool {
    p[0] < e[0] && p[1] < e[1] && p[2] < e[2]
}

pub open spec fn spec_linearize(p: [u32; 3], e: [u32; 3]) -> int {
    linear_index(p[0] as int, p[1] as int, p[2] as int, e[0] as int, e[1] as int)
}

pub open spec fn spec_delinearize(i: int, e: [u32; 3]) -> [u32; 3] {
    let (x, y, z) = delinear_index(i, e[0] as int, e[1] as int);
    [x as u32, y as u32, z as u32]
}

/// A cell inside a box has an offset below the box's volume.
pub proof fn lemma_linear_index_bound(x: int, y: int, z: int, ex: int, ey: int, ez: int)
    requires
        0 <= x < ex,
        0 <= y < ey,
        0 <= z < ez,
    ensures
        0 <= linear_index(x, y, z, ex, ey) < ex * ey * ez,
        0 <= ex * y,
        0 <= ex * ey * z,
        0 <= ex * ey,
        ex * ey <= ex * ey * ez,
{
    assert(0 <= ex * y) by (nonlinear_arith)
        requires 0 <= y, 0 < ex;
    assert(0 <= ex * ey * z && 0 <= ex * ey) by (nonlinear_arith)
        requires 0 <= z, 0 < ex, 0 < ey;
    assert(x + ex * y < ex * (y + 1)) by (nonlinear_arith)
        requires x < ex;
    assert(ex * (y + 1) <= ex * ey) by (nonlinear_arith)
        requires y < ey, 0 < ex;
    assert(ex * ey * z + ex * ey == ex * ey * (z + 1)) by (nonlinear_arith);
    assert(ex * ey * (z + 1) <= ex * ey * ez) by (nonlinear_arith)
        requires z < ez, 0 < ex, 0 < ey;
    assert(ex * ey <= ex * ey * ez) by (nonlinear_arith)
        requires 0 < ez, 0 < ex, 0 < ey;
}

/// Delinearizing the offset of a cell gives back the cell.
pub proof fn lemma_delinear_of_linear(x: int, y: int, z: int, ex: int, ey: int)
    requires
        0 <= x < ex,
        0 <= y < ey,
        0 <= z,
    ensures
        delinear_index(linear_index(x, y, z, ex, ey), ex, ey) == (x, y, z),
{
    let i = linear_index(x, y, z, ex, ey);
    let q = y + ey * z;
    assert(i == q * ex + x) by (nonlinear_arith)
        requires i == x + ex * y + ex * ey * z, q == y + ey * z;
    lemma_fundamental_div_mod_converse(i, ex, q, x);
    assert(q == z * ey + y) by (nonlinear_arith)
        requires q == y + ey * z;
    lemma_fundamental_div_mod_converse(q, ey, z, y);
}

/// Linearizing the cell stored at an offset gives back the offset.
pub proof fn lemma_linear_of_delinear(i: int, ex: int, ey: int, ez: int)
    requires
        0 < ex,
        0 < ey,
        0 <= i < ex * ey * ez,
    ensures
        ({
            let (x, y, z) = delinear_index(i, ex, ey);
            &&& linear_index(x, y, z, ex, ey) == i
            &&& 0 <= x < ex
            &&& 0 <= y < ey
            &&& 0 <= z < ez
        }),
{
    let q = i / ex;
    let z = q / ey;
    lemma_fundamental_div_mod(i, ex);
    lemma_fundamental_div_mod(q, ey);
    assert(i == i % ex + ex * (q % ey) + ex * ey * z) by (nonlinear_arith)
        requires i == ex * q + i % ex, q == ey * z + q % ey;
    assert(0 <= q) by (nonlinear_arith)
        requires 0 <= i, 0 < ex, q == i / ex;
    assert(0 <= z) by (nonlinear_arith)
        requires 0 <= q, 0 < ey, z == q / ey;
    if z >= ez {
        assert(ex * ey * z >= ex * ey * ez) by (nonlinear_arith)
            requires z >= ez, 0 < ex, 0 < ey;
        assert(0 <= ex * (q % ey)) by (nonlinear_arith)
            requires 0 <= q % ey, 0 < ex;
    }
}

/// Round trip of the lattice indexing: `delinearize(linearize(p, e), e) == p`
/// for every point `p` inside the extent `e`.
pub proof fn lemma_linearize_round_trip(p: [u32; 3], e: [u32; 3])
    requires
        e[0] > 0,
        e[1] > 0,
        e[2] > 0,
        in_extent(p, e),
    ensures
        spec_delinearize(spec_linearize(p, e), e) == p,
{
    lemma_delinear_of_linear(p[0] as int, p[1] as int, p[2] as int, e[0] as int, e[1] as int);
    assert(spec_delinearize(spec_linearize(p, e), e) =~= p);
}

/// The offset of point `p` in a box of extent `e`, stored x-fastest:
/// `p.x + e.x * p.y + e.x * e.y * p.z`.
pub fn linearize(p: [u32; 3], e: [u32; 3]) -> (r: usize)
    requires
        in_extent(p, e),
        volume(e) <= usize::MAX,
    ensures
        r == spec_linearize(p, e),
        r < volume(e),
{
    proof {
        lemma_linear_index_bound(p[0] as int, p[1] as int, p[2] as int, e[0] as int, e[1] as int, e[2] as int);
        assert(e[0] as int * e[1] as int * p[2] as int <= e[0] as int * e[1] as int * e[2] as int);
        assert(e[0] as int * p[1] as int <= e[0] as int * e[1] as int) by (nonlinear_arith)
            requires p[1] < e[1], 0 <= p[1], 0 < e[0];
    }
    let exy = e[0] as usize * e[1] as usize;
    p[0] as usize + e[0] as usize * p[1] as usize + exy * p[2] as usize
}

/// The point stored at offset `i` in a box of extent `e`: the inverse of `linearize`.
pub fn delinearize(i: usize, e: [u32; 3]) -> (r: [u32; 3])
    requires
        i < volume(e),
    ensures
        r == spec_delinearize(i as int, e),
        (r[0] as int, r[1] as int, r[2] as int) == delinear_index(i as int, e[0] as int, e[1] as int),
        in_extent(r, e),
        spec_linearize(r, e) == i,
{
    proof {
        assert(e[0] > 0 && e[1] > 0) by (nonlinear_arith)
            requires 0 <= i < e[0] as int * e[1] as int * e[2] as int, e[0] >= 0, e[1] >= 0, e[2] >= 0;
        lemma_linear_of_delinear(i as int, e[0] as int, e[1] as int, e[2] as int);
    }
    let q = i / e[0] as usize;
    let x = (i % e[0] as usize) as u32;
    let y = (q % e[1] as usize) as u32;
    let z = (q / e[1] as usize) as u32;
    [x, y, z]
}

} // verus!
