use vstd::prelude::*;
use crate::block::Block;
use crate::chunk::{generated_block_at, interior_empty, mesh_of, Chunk};
use crate::grid::{
    cell, cell_coords, halo_direction, in_grid, inner, is_interior, lemma_cell_of_coords,
    lemma_coords_of_cell, lemma_halo_direction, Direction,
};
use crate::lattice::{
    delinear_index, delinearize, lemma_delinear_of_linear, lemma_linear_index_bound,
    lemma_linear_of_delinear, linear_index, linearize, volume, LatticePos, chunk_coord, local_coord,
};

verus! {

/// The chunk next to chunk `i` in direction `d`, in a lattice of extent `e` stored
/// x-fastest, if the lattice holds one.
pub open spec fn neighbor(e: [u32; 3], i: int, d: Direction) -> Option<int> {
    let (x, y, z) = delinear_index(i, e[0] as int, e[1] as int);
    let (dx, dy, dz) = d.offset();
    let (nx, ny, nz) = (x + dx, y + dy, z + dz);
    if 0 <= nx < e[0] && 0 <= ny < e[1] && 0 <= nz < e[2] {
        Some(linear_index(nx, ny, nz, e[0] as int, e[1] as int))
    } else {
        None
    }
}

/// The boundary cell of the neighbour in direction `d` whose copy belongs in halo cell `k`.
pub open spec fn face_source(d: Direction, k: int) -> int {
    let (x, y, z) = cell_coords(k);
    let (a, b) = d.face_position(x, y, z);
    let (bx, by, bz) = d.opposite().boundary(a, b);
    cell(bx, by, bz)
}

/// The block at cell `k` of chunk `i` once borders are stitched: a halo cell facing an
/// existing neighbour holds a copy of the neighbour's adjacent boundary cell; every other
/// cell keeps its block.
pub open spec fn stitched_block(g: Seq<Seq<Block>>, e: [u32; 3], i: int, k: int) -> Block {
    let (x, y, z) = cell_coords(k);
    match halo_direction(x, y, z) {
        Some(d) => match neighbor(e, i, d) {
            Some(j) => g[j][face_source(d, k)],
            None => g[i][k],
        },
        None => g[i][k],
    }
}

/// The grids of a lattice of extent `e` once borders are stitched.
pub open spec fn stitched(g: Seq<Seq<Block>>, e: [u32; 3]) -> Seq<Seq<Block>> {
    Seq::new(g.len(), |i: int| Seq::new(g[i].len(), |k: int| stitched_block(g, e, i, k)))
}

/// The grids of a sequence of chunks.
pub open spec fn grids(chunks: Seq<Chunk>) -> Seq<Seq<Block>> {
    Seq::new(chunks.len(), |i: int| chunks[i].blocks@)
}

/// Every grid of the sequence has the full size.
pub open spec fn full_grids(g: Seq<Seq<Block>>) -> bool {
    forall|i: int| 0 <= i < g.len() ==> (#[trigger] g[i]).len() == 5832
}

pub open spec fn positive_extent(e: [u32; 3]) -> bool {
    e[0] > 0 && e[1] > 0 && e[2] > 0
}

/// Going to a neighbour and back in the opposite direction returns to the same chunk, which is
/// never its own neighbour.
pub proof fn lemma_neighbor_back(e: [u32; 3], i: int, d: Direction)
    requires
        positive_extent(e),
        0 <= i < volume(e),
        neighbor(e, i, d) is Some,
    ensures
        neighbor(e, neighbor(e, i, d)->0, d.opposite()) == Some(i),
        neighbor(e, i, d)->0 != i,
        0 <= neighbor(e, i, d)->0 < volume(e),
{
    let (ex, ey, ez) = (e[0] as int, e[1] as int, e[2] as int);
    lemma_linear_of_delinear(i, ex, ey, ez);
    let (x, y, z) = delinear_index(i, ex, ey);
    let (dx, dy, dz) = d.offset();
    let (nx, ny, nz) = (x + dx, y + dy, z + dz);
    lemma_delinear_of_linear(nx, ny, nz, ex, ey);
    lemma_linear_index_bound(nx, ny, nz, ex, ey, ez);
}

/// A boundary cell is interior, so it lies in no halo plane.
pub proof fn lemma_boundary_not_halo(d: Direction, a: int, b: int)
    requires
        inner(a),
        inner(b),
    ensures
        ({
            let (x, y, z) = d.boundary(a, b);
            &&& in_grid(x, y, z)
            &&& is_interior(x, y, z)
            &&& cell_coords(cell(x, y, z)) == (x, y, z)
            &&& halo_direction(x, y, z) is None
            &&& 0 <= cell(x, y, z) < 5832
        }),
{
    let (x, y, z) = d.boundary(a, b);
    lemma_cell_of_coords(x, y, z);
}

/// The chunk next to chunk `i` in direction `d`, if the lattice of extent `e` holds one.
pub fn neighbor_index(e: [u32; 3], i: usize, d: Direction) -> (r: Option<usize>)
    requires
        i < volume(e),
        volume(e) <= usize::MAX,
    ensures
        match r {
            Some(j) => neighbor(e, i as int, d) == Some(j as int),
            None => neighbor(e, i as int, d) is None,
        },
{
    let p = delinearize(i, e);
    let (x, y, z) = (p[0], p[1], p[2]);
    let q: [u32; 3] = match d {
        Direction::PosX => if x + 1 < e[0] { [x + 1, y, z] } else { return None },
        Direction::NegX => if x > 0 { [x - 1, y, z] } else { return None },
        Direction::PosY => if y + 1 < e[1] { [x, y + 1, z] } else { return None },
        Direction::NegY => if y > 0 { [x, y - 1, z] } else { return None },
        Direction::PosZ => if z + 1 < e[2] { [x, y, z + 1] } else { return None },
        Direction::NegZ => if z > 0 { [x, y, z - 1] } else { return None },
    };
    assert(q[0] == x + d.offset().0 && q[1] == y + d.offset().1 && q[2] == z + d.offset().2);
    Some(linearize(q, e))
}

/// Halo cell `k` lies in the plane facing `d` at a face position before row `a`, column `b`.
pub open spec fn face_done(d: Direction, k: int, a: int, b: int) -> bool {
    let (x, y, z) = cell_coords(k);
    let (p, q) = d.face_position(x, y, z);
    p < a || (p == a && q < b)
}

/// Block `k` of chunk `c` while the shared face between chunks `i` and `j` (in direction `d`
/// from `i`) is copied, once the face positions before row `a`, column `b` are done.
pub open spec fn face_partial(
    pre: Seq<Seq<Block>>,
    i: int,
    j: int,
    d: Direction,
    a: int,
    b: int,
    c: int,
    k: int,
) -> Block {
    let (x, y, z) = cell_coords(k);
    if c == i && halo_direction(x, y, z) == Some(d) && face_done(d, k, a, b) {
        pre[j][face_source(d, k)]
    } else if c == j && halo_direction(x, y, z) == Some(d.opposite()) && face_done(d.opposite(), k, a, b) {
        pre[i][face_source(d.opposite(), k)]
    } else {
        pre[c][k]
    }
}

/// The chunks agree in everything but their grids, and their grids have the full size.
pub open spec fn same_but_grids(s: Seq<Chunk>, t: Seq<Chunk>) -> bool {
    &&& s.len() == t.len()
    &&& forall|c: int| 0 <= c < s.len() ==> {
        &&& (#[trigger] t[c]).position == s[c].position
        &&& t[c].has_changed == s[c].has_changed
        &&& t[c].is_empty == s[c].is_empty
        &&& t[c].visible == s[c].visible
        &&& t[c].mesh == s[c].mesh
        &&& t[c].blocks@.len() == 5832
    }
}

/// Copies the face between chunks `i` and `j`, which lies in direction `d` from `i`, both
/// ways: `j`'s boundary slice into `i`'s halo and `i`'s boundary slice into `j`'s halo.
#[verifier::spinoff_prover]
#[verifier::rlimit(40)]
fn stitch_face(chunks: &mut Vec<Chunk>, i: usize, j: usize, d: Direction)
    requires
        i < old(chunks)@.len(),
        j < old(chunks)@.len(),
        i != j,
        full_grids(grids(old(chunks)@)),
    ensures
        same_but_grids(old(chunks)@, final(chunks)@),
        forall|c: int, k: int| 0 <= c < final(chunks)@.len() && 0 <= k < 5832 ==>
            (#[trigger] final(chunks)@[c].blocks@[k]) == face_partial(grids(old(chunks)@), i as int, j as int, d, 17, 1, c, k),
{
    let ghost pre = grids(chunks@);
    let ghost start = chunks@;
    let od = d.reverse();
    assert forall|c: int| 0 <= c < start.len() implies (#[trigger] start[c]).blocks@.len() == 5832 by {
        assert(pre[c].len() == 5832);
    }
    let mut a: u32 = 1;
    while a <= 16
        invariant
            1 <= a <= 17,
            i < chunks@.len(),
            j < chunks@.len(),
            i != j,
            od == d.opposite(),
            pre == grids(start),
            full_grids(pre),
            same_but_grids(start, chunks@),
            forall|c: int, k: int| 0 <= c < chunks@.len() && 0 <= k < 5832 ==>
                (#[trigger] chunks@[c].blocks@[k]) == face_partial(pre, i as int, j as int, d, a as int, 1, c, k),
        decreases 17 - a,
    {
        let mut b: u32 = 1;
        while b <= 16
            invariant
                1 <= a <= 16,
                1 <= b <= 17,
                i < chunks@.len(),
                j < chunks@.len(),
                i != j,
                od == d.opposite(),
                pre == grids(start),
                full_grids(pre),
                same_but_grids(start, chunks@),
                forall|c: int, k: int| 0 <= c < chunks@.len() && 0 <= k < 5832 ==>
                    (#[trigger] chunks@[c].blocks@[k]) == face_partial(pre, i as int, j as int, d, a as int, b as int, c, k),
            decreases 17 - b,
        {
            let hi = d.halo_cell(a, b);
            let bi = d.boundary_cell(a, b);
            let hj = od.halo_cell(a, b);
            let bj = od.boundary_cell(a, b);
            proof {
                lemma_halo_direction(d, a as int, b as int);
                lemma_halo_direction(od, a as int, b as int);
                lemma_boundary_not_halo(d, a as int, b as int);
                lemma_boundary_not_halo(od, a as int, b as int);
                let (x, y, z) = d.halo(a as int, b as int);
                lemma_cell_of_coords(x, y, z);
                let (x2, y2, z2) = od.halo(a as int, b as int);
                lemma_cell_of_coords(x2, y2, z2);
                assert(face_source(d, hi as int) == bj as int);
                assert(face_source(od, hj as int) == bi as int);
                assert(pre[j as int].len() == 5832);
                assert(pre[i as int].len() == 5832);
            }
            let ghost mid0 = chunks@;
            let v = chunks[j].blocks[bj];
            assert(v == pre[j as int][bj as int]);
            chunks[i].blocks.set(hi, v);
            let w = chunks[i].blocks[bi];
            assert(w == pre[i as int][bi as int]);
            chunks[j].blocks.set(hj, w);
            proof {
                assert forall|c: int, k: int| 0 <= c < chunks@.len() && 0 <= k < 5832 implies
                    (#[trigger] chunks@[c].blocks@[k]) == face_partial(pre, i as int, j as int, d, a as int, b as int + 1, c, k) by {
                    lemma_coords_of_cell(k);
                    assert(mid0[c].blocks@[k] == face_partial(pre, i as int, j as int, d, a as int, b as int, c, k));
                }
            }
            b = b + 1;
        }
        proof {
            assert forall|c: int, k: int| 0 <= c < chunks@.len() && 0 <= k < 5832 implies
                (#[trigger] chunks@[c].blocks@[k]) == face_partial(pre, i as int, j as int, d, a as int + 1, 1, c, k) by {
                assert(chunks@[c].blocks@[k] == face_partial(pre, i as int, j as int, d, a as int, 17, c, k));
            }
        }
        a = a + 1;
    }
}

/// The source of a halo cell's copy is an interior cell of the neighbour.
proof fn lemma_face_source(d: Direction, k: int)
    requires
        0 <= k < 5832,
        ({
            let (x, y, z) = cell_coords(k);
            halo_direction(x, y, z) == Some(d)
        }),
    ensures
        0 <= face_source(d, k) < 5832,
        ({
            let (x, y, z) = cell_coords(face_source(d, k));
            halo_direction(x, y, z) is None
        }),
{
    lemma_coords_of_cell(k);
    let (x, y, z) = cell_coords(k);
    let (a, b) = d.face_position(x, y, z);
    lemma_boundary_not_halo(d.opposite(), a, b);
}

/// Halo cell `k` of chunk `c` has been stitched once the pair of chunks it joins has been
/// visited from its lower-indexed chunk: before chunk `i`, or at chunk `i` before direction `t`.
pub open spec fn pair_done(e: [u32; 3], c: int, k: int, i: int, t: int) -> bool {
    let (x, y, z) = cell_coords(k);
    match halo_direction(x, y, z) {
        Some(d) => match neighbor(e, c, d) {
            Some(j) => {
                let lo = if c < j { c } else { j };
                let dl = if c < j { d } else { d.opposite() };
                lo < i || (lo == i && dl.index() < t)
            },
            None => true,
        },
        None => true,
    }
}

/// Halo cells that are not yet stitched still hold their first blocks, and interior cells
/// never change.
pub open spec fn stitch_progress(chunks: Seq<Chunk>, g: Seq<Seq<Block>>, e: [u32; 3], i: int, t: int) -> bool {
    &&& forall|c: int, k: int| 0 <= c < chunks.len() && 0 <= k < 5832 && ({
        let (x, y, z) = cell_coords(k);
        halo_direction(x, y, z) is None
    }) ==> (#[trigger] chunks[c].blocks@[k]) == g[c][k]
    &&& forall|c: int, k: int| 0 <= c < chunks.len() && 0 <= k < 5832 && pair_done(e, c, k, i, t) ==>
        (#[trigger] chunks[c].blocks@[k]) == stitched_block(g, e, c, k)
}

/// Visiting direction `d` of chunk `i` without a neighbour of higher index finishes no pair.
proof fn lemma_step_skipped(chunks: Seq<Chunk>, g: Seq<Seq<Block>>, e: [u32; 3], i: int, d: Direction)
    requires
        positive_extent(e),
        chunks.len() == volume(e),
        0 <= i < volume(e),
        stitch_progress(chunks, g, e, i, d.index()),
        match neighbor(e, i, d) {
            Some(j) => j < i,
            None => true,
        },
    ensures
        stitch_progress(chunks, g, e, i, d.index() + 1),
{
    if neighbor(e, i, d) is Some {
        lemma_neighbor_back(e, i, d);
    }
    assert forall|c: int, k: int| 0 <= c < chunks.len() && 0 <= k < 5832 && pair_done(e, c, k, i, d.index() + 1) implies
        (#[trigger] chunks[c].blocks@[k]) == stitched_block(g, e, c, k) by {
        let (x, y, z) = cell_coords(k);
        if let Some(hd) = halo_direction(x, y, z) {
            if neighbor(e, c, hd) is Some {
                lemma_neighbor_back(e, c, hd);
            }
        }
        assert(pair_done(e, c, k, i, d.index()));
    }
}

/// Copying the face between chunk `i` and its neighbour `j > i` in direction `d` finishes
/// exactly the pair visited at that step.
proof fn lemma_step_stitched(
    before: Seq<Chunk>,
    after: Seq<Chunk>,
    g: Seq<Seq<Block>>,
    e: [u32; 3],
    i: int,
    j: int,
    d: Direction,
)
    requires
        positive_extent(e),
        before.len() == volume(e),
        after.len() == volume(e),
        0 <= i < volume(e),
        full_grids(g),
        g.len() == volume(e),
        neighbor(e, i, d) == Some(j),
        i < j,
        stitch_progress(before, g, e, i, d.index()),
        forall|c: int, k: int| 0 <= c < after.len() && 0 <= k < 5832 ==>
            (#[trigger] after[c].blocks@[k]) == face_partial(grids(before), i, j, d, 17, 1, c, k),
    ensures
        stitch_progress(after, g, e, i, d.index() + 1),
{
    lemma_neighbor_back(e, i, d);
    let pre = grids(before);
    assert forall|c: int, k: int| 0 <= c < after.len() && 0 <= k < 5832 && ({
        let (x, y, z) = cell_coords(k);
        halo_direction(x, y, z) is None
    }) implies (#[trigger] after[c].blocks@[k]) == g[c][k] by {
        assert(after[c].blocks@[k] == face_partial(pre, i, j, d, 17, 1, c, k));
        assert(pre[c][k] == before[c].blocks@[k]);
    }
    assert forall|c: int, k: int| 0 <= c < after.len() && 0 <= k < 5832 && pair_done(e, c, k, i, d.index() + 1) implies
        (#[trigger] after[c].blocks@[k]) == stitched_block(g, e, c, k) by {
        lemma_coords_of_cell(k);
        assert(after[c].blocks@[k] == face_partial(pre, i, j, d, 17, 1, c, k));
        assert(pre[c][k] == before[c].blocks@[k]);
        let (x, y, z) = cell_coords(k);
        if let Some(hd) = halo_direction(x, y, z) {
            lemma_face_source(hd, k);
            let fs = face_source(hd, k);
            if neighbor(e, c, hd) is Some {
                lemma_neighbor_back(e, c, hd);
            }
            if c == i && hd == d {
                assert(pre[j][fs] == before[j].blocks@[fs]);
            } else if c == j && hd == d.opposite() {
                assert(pre[i][fs] == before[i].blocks@[fs]);
            }
        }
    }
}

/// Stitches every pair of adjacent chunks of a lattice of extent `e` once, in both
/// directions, visiting each pair from its lower-indexed chunk.
fn stitch_chunks(chunks: &mut Vec<Chunk>, e: [u32; 3])
    requires
        positive_extent(e),
        old(chunks)@.len() == volume(e),
        volume(e) <= usize::MAX,
        full_grids(grids(old(chunks)@)),
    ensures
        same_but_grids(old(chunks)@, final(chunks)@),
        grids(final(chunks)@) == stitched(grids(old(chunks)@), e),
{
    let ghost g = grids(chunks@);
    let ghost start = chunks@;
    assert forall|c: int| 0 <= c < start.len() implies (#[trigger] start[c]).blocks@.len() == 5832 by {
        assert(g[c].len() == 5832);
    }
    let n = chunks.len();
    let mut i: usize = 0;
    while i < n
        invariant
            i <= n,
            n == chunks@.len(),
            n == volume(e),
            positive_extent(e),
            volume(e) <= usize::MAX,
            g == grids(start),
            full_grids(g),
            same_but_grids(start, chunks@),
            stitch_progress(chunks@, g, e, i as int, 0),
        decreases n - i,
    {
        let mut t: usize = 0;
        while t < 6
            invariant
                i < n,
                t <= 6,
                n == chunks@.len(),
                n == volume(e),
                positive_extent(e),
                volume(e) <= usize::MAX,
                g == grids(start),
                full_grids(g),
                same_but_grids(start, chunks@),
                stitch_progress(chunks@, g, e, i as int, t as int),
            decreases 6 - t,
        {
            let d = Direction::from_index(t);
            let ghost before = chunks@;
            match neighbor_index(e, i, d) {
                Some(j) => {
                    if j > i {
                        proof {
                            lemma_neighbor_back(e, i as int, d);
                            assert forall|c: int| 0 <= c < n implies (#[trigger] grids(before)[c]).len() == 5832 by {
                                assert(before[c].blocks@.len() == 5832);
                            }
                        }
                        stitch_face(chunks, i, j, d);
                        proof {
                            lemma_step_stitched(before, chunks@, g, e, i as int, j as int, d);
                        }
                    } else {
                        proof {
                            lemma_neighbor_back(e, i as int, d);
                            lemma_step_skipped(chunks@, g, e, i as int, d);
                        }
                    }
                },
                None => {
                    proof {
                        lemma_step_skipped(chunks@, g, e, i as int, d);
                    }
                },
            }
            t = t + 1;
        }
        assert forall|c: int, k: int| 0 <= c < n && 0 <= k < 5832 && pair_done(e, c, k, i as int + 1, 0) implies
            (#[trigger] chunks@[c].blocks@[k]) == stitched_block(g, e, c, k) by {
            assert(pair_done(e, c, k, i as int, 6));
        }
        i = i + 1;
    }
    assert(grids(chunks@) =~~= stitched(g, e)) by {
        assert forall|c: int| 0 <= c < n implies (#[trigger] grids(chunks@)[c]) =~= stitched(g, e)[c] by {
            assert forall|k: int| 0 <= k < 5832 implies grids(chunks@)[c][k] == stitched(g, e)[c][k] by {
                assert(pair_done(e, c, k, n as int, 0));
            }
        }
    }
}

/// Why a world cannot be built.
#[derive(Debug, Clone, Copy, PartialEq, Eq, Structural)]
pub enum WorldError {
    /// The lattice extent is zero along some axis.
    ZeroExtent,
    /// The lattice holds more chunks than memory can index, or its positions leave `i32`.
    TooLarge,
    /// The number of heightmaps is not the number of lattice columns.
    HeightmapCount,
    /// Some heightmap does not hold exactly one height per column of a chunk.
    HeightmapSize,
}

/// The lattice position of chunk `i` of a lattice with the given origin and extent.
pub open spec fn lattice_position(origin: LatticePos, e: [u32; 3], i: int) -> (int, int, int) {
    let (x, y, z) = delinear_index(i, e[0] as int, e[1] as int);
    (origin.x + x, origin.y + y, origin.z + z)
}

pub open spec fn pos_tuple(p: LatticePos) -> (int, int, int) {
    (p.x as int, p.y as int, p.z as int)
}

/// The index of the chunk at lattice position `p`.
pub open spec fn chunk_index_of(origin: LatticePos, e: [u32; 3], p: LatticePos) -> int {
    linear_index(p.x - origin.x, p.y - origin.y, p.z - origin.z, e[0] as int, e[1] as int)
}

/// The lattice position of the chunk holding the block at world coordinates `p`.
pub open spec fn chunk_of_block(p: [i32; 3]) -> LatticePos {
    LatticePos { x: (p[0] / 16) as i32, y: (p[1] / 16) as i32, z: (p[2] / 16) as i32 }
}

/// The lattice with the given origin and extent holds position `p`.
pub open spec fn in_lattice(origin: LatticePos, e: [u32; 3], p: LatticePos) -> bool {
    &&& origin.x <= p.x < origin.x + e[0]
    &&& origin.y <= p.y < origin.y + e[1]
    &&& origin.z <= p.z < origin.z + e[2]
}

/// The lattice's positions all fit in `i32` and its chunks can be indexed in memory.
pub open spec fn lattice_fits(origin: LatticePos, e: [u32; 3]) -> bool {
    &&& volume(e) <= usize::MAX
    &&& origin.x + e[0] - 1 <= i32::MAX
    &&& origin.y + e[1] - 1 <= i32::MAX
    &&& origin.z + e[2] - 1 <= i32::MAX
}

/// The heightmap of the lattice column that holds chunk `i`.
pub open spec fn chunk_heights(heightmaps: Seq<Vec<u32>>, e: [u32; 3], i: int) -> Seq<u32> {
    let (x, y, z) = delinear_index(i, e[0] as int, e[1] as int);
    heightmaps[x + e[0] * z]@
}

/// The grids that generation gives the chunks of a lattice, before stitching.
pub open spec fn generated_grids(origin: LatticePos, e: [u32; 3], heightmaps: Seq<Vec<u32>>) -> Seq<Seq<Block>> {
    Seq::new(
        volume(e) as nat,
        |i: int| Seq::new(
            5832,
            |k: int| generated_block_at(lattice_position(origin, e, i).1 as i32, chunk_heights(heightmaps, e, i), k),
        ),
    )
}

/// What is wrong with a lattice and its heightmaps, if anything: a zero extent first, then a
/// lattice too large, then a count of heightmaps other than one per lattice column, then a
/// heightmap of the wrong size.
pub open spec fn config_error(origin: LatticePos, e: [u32; 3], heightmaps: Seq<Vec<u32>>) -> Option<WorldError> {
    if !positive_extent(e) {
        Some(WorldError::ZeroExtent)
    } else if !lattice_fits(origin, e) {
        Some(WorldError::TooLarge)
    } else if heightmaps.len() != e[0] * e[2] {
        Some(WorldError::HeightmapCount)
    } else if exists|m: int| 0 <= m < heightmaps.len() && (#[trigger] heightmaps[m])@.len() != 256 {
        Some(WorldError::HeightmapSize)
    } else {
        None
    }
}

/// Every chunk carries the mesh of its grid, and is visible exactly when that mesh has a quad.
pub open spec fn meshed(chunks: Seq<Chunk>) -> bool {
    forall|i: int| 0 <= i < chunks.len() ==> {
        &&& (#[trigger] chunks[i]).spec_mesh() == mesh_of(chunks[i].blocks@)
        &&& chunks[i].spec_visible() == (chunks[i].spec_quad_count() > 0)
    }
}

/// Stitching changes no interior cell, so it keeps whether a grid is empty inside.
proof fn lemma_stitched_interior(g: Seq<Seq<Block>>, e: [u32; 3], i: int)
    requires
        0 <= i < g.len(),
        g[i].len() == 5832,
    ensures
        interior_empty(stitched(g, e)[i]) == interior_empty(g[i]),
{
    assert forall|x: int, y: int, z: int| is_interior(x, y, z) implies stitched(g, e)[i][cell(x, y, z)] == g[i][cell(x, y, z)] by {
        lemma_cell_of_coords(x, y, z);
    }
    if interior_empty(g[i]) {
        assert forall|x: int, y: int, z: int| is_interior(x, y, z) implies !(#[trigger] stitched(g, e)[i][cell(x, y, z)]).is_solid() by {
            assert(!g[i][cell(x, y, z)].is_solid());
        }
    }
    if interior_empty(stitched(g, e)[i]) {
        assert forall|x: int, y: int, z: int| is_interior(x, y, z) implies !(#[trigger] g[i][cell(x, y, z)]).is_solid() by {
            assert(!stitched(g, e)[i][cell(x, y, z)].is_solid());
        }
    }
}

/// After stitching, the halo of a chunk facing an existing neighbour holds the neighbour's
/// boundary slice facing back, and the neighbour's halo facing the chunk holds the chunk's
/// boundary slice, at every face position.
pub proof fn lemma_stitch_symmetry(g: Seq<Seq<Block>>, e: [u32; 3], i: int, d: Direction, a: int, b: int)
    requires
        positive_extent(e),
        g.len() == volume(e),
        full_grids(g),
        0 <= i < volume(e),
        neighbor(e, i, d) is Some,
        inner(a),
        inner(b),
    ensures
        ({
            let j = neighbor(e, i, d)->0;
            let s = stitched(g, e);
            let (hx, hy, hz) = d.halo(a, b);
            let (bx, by, bz) = d.opposite().boundary(a, b);
            let (gx, gy, gz) = d.opposite().halo(a, b);
            let (cx, cy, cz) = d.boundary(a, b);
            &&& s[i][cell(hx, hy, hz)] == s[j][cell(bx, by, bz)]
            &&& s[j][cell(gx, gy, gz)] == s[i][cell(cx, cy, cz)]
        }),
{
    let j = neighbor(e, i, d)->0;
    lemma_neighbor_back(e, i, d);
    lemma_halo_direction(d, a, b);
    lemma_halo_direction(d.opposite(), a, b);
    lemma_boundary_not_halo(d, a, b);
    lemma_boundary_not_halo(d.opposite(), a, b);
    let (hx, hy, hz) = d.halo(a, b);
    lemma_cell_of_coords(hx, hy, hz);
    let (gx, gy, gz) = d.opposite().halo(a, b);
    lemma_cell_of_coords(gx, gy, gz);
    assert(g[i].len() == 5832);
    assert(g[j].len() == 5832);
}

/// Stitching twice gives the same grids as stitching once.
pub proof fn lemma_stitch_idempotent(g: Seq<Seq<Block>>, e: [u32; 3])
    requires
        positive_extent(e),
        g.len() == volume(e),
        full_grids(g),
    ensures
        stitched(stitched(g, e), e) == stitched(g, e),
{
    let s = stitched(g, e);
    assert forall|i: int| 0 <= i < s.len() implies (#[trigger] stitched(s, e)[i]) =~= s[i] by {
        assert(g[i].len() == 5832);
        assert forall|k: int| 0 <= k < 5832 implies stitched(s, e)[i][k] == s[i][k] by {
            let (x, y, z) = cell_coords(k);
            if let Some(d) = halo_direction(x, y, z) {
                if let Some(j) = neighbor(e, i, d) {
                    lemma_neighbor_back(e, i, d);
                    lemma_face_source(d, k);
                    assert(g[j].len() == 5832);
                }
            }
        }
    }
    assert(stitched(s, e) =~= s);
}

/// How stitching leaves a chunk beside its grid: the position and emptiness are kept; a chunk
/// whose grid is unchanged keeps its mesh and flags, and one whose grid changed has no mesh
/// (it is visible iff it is not empty) and is marked changed.
pub open spec fn stitch_flags(before: Chunk, after: Chunk) -> bool {
    &&& after.position == before.position
    &&& after.is_empty == before.is_empty
    &&& if after.blocks@ == before.blocks@ {
        &&& after.mesh == before.mesh
        &&& after.visible == before.visible
        &&& after.has_changed == before.has_changed
    } else {
        &&& after.mesh is None
        &&& after.visible == !after.is_empty
        &&& after.has_changed
    }
}

/// A copy of a grid.
fn copy_grid(v: &Vec<Block>) -> (r: Vec<Block>)
    ensures
        r@ == v@,
{
    let mut r: Vec<Block> = Vec::with_capacity(v.len());
    let mut k: usize = 0;
    while k < v.len()
        invariant
            k <= v@.len(),
            r@ == v@.subrange(0, k as int),
        decreases v@.len() - k,
    {
        r.push(v[k]);
        k = k + 1;
    }
    assert(r@ =~= v@);
    r
}

/// Whether two grids hold the same blocks.
fn same_grid(a: &Vec<Block>, b: &Vec<Block>) -> (r: bool)
    ensures
        r == (a@ == b@),
{
    if a.len() != b.len() {
        return false;
    }
    let mut k: usize = 0;
    while k < a.len()
        invariant
            k <= a@.len(),
            a@.len() == b@.len(),
            forall|q: int| 0 <= q < k ==> a@[q] == b@[q],
        decreases a@.len() - k,
    {
        if a[k] != b[k] {
            return false;
        }
        k = k + 1;
    }
    assert(a@ =~= b@);
    true
}

/// A cuboid lattice of chunks, stored x-fastest from its origin.
pub struct World {
    pub chunks: Vec<Chunk>,
    pub origin: LatticePos,
    pub extent: [u32; 3],
    pub current_chunk: LatticePos,
}

impl World {
    /// One well-formed chunk stands at each position of the lattice, at the index that
    /// `linearize` gives its offset from the origin.
    pub open spec fn wf(&self) -> bool {
        &&& positive_extent(self.extent)
        &&& lattice_fits(self.origin, self.extent)
        &&& self.chunks@.len() == volume(self.extent)
        &&& forall|i: int| 0 <= i < self.chunks@.len() ==> {
            &&& (#[trigger] self.chunks@[i]).wf()
            &&& pos_tuple(self.chunks@[i].position) == lattice_position(self.origin, self.extent, i)
        }
    }

    /// The set of lattice positions that hold a chunk.
    pub open spec fn lattice_index(&self) -> Set<LatticePos> {
        Set::new(|p: LatticePos| exists|i: int| 0 <= i < self.chunks@.len() && (#[trigger] self.chunks@[i]).position == p)
    }

    /// A position holds a chunk exactly when it lies in the lattice's box.
    pub proof fn lemma_lattice_index(&self, p: LatticePos)
        requires
            self.wf(),
        ensures
            self.lattice_index().contains(p) <==> in_lattice(self.origin, self.extent, p),
    {
        let e = self.extent;
        let (ex, ey, ez) = (e[0] as int, e[1] as int, e[2] as int);
        if in_lattice(self.origin, e, p) {
            let (x, y, z) = (p.x - self.origin.x, p.y - self.origin.y, p.z - self.origin.z);
            let i = linear_index(x, y, z, ex, ey);
            lemma_linear_index_bound(x, y, z, ex, ey, ez);
            lemma_delinear_of_linear(x, y, z, ex, ey);
            assert(self.chunks@[i].position == p);
        }
        if self.lattice_index().contains(p) {
            let i = choose|i: int| 0 <= i < self.chunks@.len() && (#[trigger] self.chunks@[i]).position == p;
            lemma_linear_of_delinear(i, ex, ey, ez);
        }
    }

    /// Whether the lattice holds a chunk at position `pos`.
    pub fn contains_chunk(&self, pos: LatticePos) -> (r: bool)
        requires
            self.wf(),
        ensures
            r == self.lattice_index().contains(pos),
            r == in_lattice(self.origin, self.extent, pos),
    {
        proof {
            self.lemma_lattice_index(pos);
        }
        let x = pos.x as i64 - self.origin.x as i64;
        let y = pos.y as i64 - self.origin.y as i64;
        let z = pos.z as i64 - self.origin.z as i64;
        0 <= x && x < self.extent[0] as i64 && 0 <= y && y < self.extent[1] as i64 && 0 <= z && z < self.extent[2] as i64
    }

    /// The index in `chunks` of the chunk at position `pos`, which the lattice holds.
    pub fn calc_chunk_index(&self, pos: LatticePos) -> (r: usize)
        requires
            self.wf(),
            in_lattice(self.origin, self.extent, pos),
        ensures
            r < self.chunks@.len(),
            r == chunk_index_of(self.origin, self.extent, pos),
            self.chunks@[r as int].position == pos,
    {
        let e = self.extent;
        let x = (pos.x as i64 - self.origin.x as i64) as u32;
        let y = (pos.y as i64 - self.origin.y as i64) as u32;
        let z = (pos.z as i64 - self.origin.z as i64) as u32;
        proof {
            lemma_delinear_of_linear(x as int, y as int, z as int, e[0] as int, e[1] as int);
        }
        let r = linearize([x, y, z], e);
        assert(self.chunks@[r as int].position == pos);
        r
    }

    /// The block at world coordinates `p`, or `Air` where no chunk of the lattice holds it.
    pub open spec fn spec_block_at(&self, p: [i32; 3]) -> Block {
        let c = chunk_of_block(p);
        if in_lattice(self.origin, self.extent, c) {
            self.chunks@[chunk_index_of(self.origin, self.extent, c)].blocks@[cell(
                p[0] % 16 + 1,
                p[1] % 16 + 1,
                p[2] % 16 + 1,
            )]
        } else {
            Block::Air
        }
    }

    /// The block at world coordinates `p`: the chunk is found by flooring each coordinate
    /// divided by 16, and the cell within it by the remainder. `Air` where no chunk holds `p`.
    pub fn block_at(&self, p: [i32; 3]) -> (r: Block)
        requires
            self.wf(),
        ensures
            r == self.spec_block_at(p),
    {
        let pos = LatticePos { x: chunk_coord(p[0]), y: chunk_coord(p[1]), z: chunk_coord(p[2]) };
        assert(pos == chunk_of_block(p));
        if self.contains_chunk(pos) {
            let i = self.calc_chunk_index(pos);
            let (x, y, z) = (local_coord(p[0]), local_coord(p[1]), local_coord(p[2]));
            assert(self.chunks@[i as int].wf());
            self.chunks[i].block(x + 1, y + 1, z + 1)
        } else {
            Block::Air
        }
    }

    /// Copies block data across every shared face of the lattice, both ways: afterwards each
    /// halo cell facing an existing neighbour holds the neighbour's adjacent boundary block,
    /// and every other cell (the interior, and halo facing no chunk) is unchanged. Each pair of
    /// neighbours is visited once. A chunk whose grid changed loses its mesh, which no longer
    /// matches; the others keep theirs.
    pub fn stitch_borders(&mut self)
        requires
            old(self).wf(),
        ensures
            final(self).wf(),
            final(self).origin == old(self).origin,
            final(self).extent == old(self).extent,
            final(self).current_chunk == old(self).current_chunk,
            final(self).chunks@.len() == old(self).chunks@.len(),
            forall|i: int| 0 <= i < final(self).chunks@.len() ==>
                stitch_flags(old(self).chunks@[i], #[trigger] final(self).chunks@[i]),
            grids(final(self).chunks@) == stitched(grids(old(self).chunks@), old(self).extent),
    {
        let ghost g = grids(self.chunks@);
        proof {
            assert forall|c: int| 0 <= c < g.len() implies (#[trigger] g[c]).len() == 5832 by {
                assert(self.chunks@[c].wf());
            }
        }
        let n = self.chunks.len();
        let mut before: Vec<Vec<Block>> = Vec::with_capacity(n);
        let mut c: usize = 0;
        while c < n
            invariant
                c <= n,
                n == self.chunks@.len(),
                self.chunks@ == old(self).chunks@,
                g == grids(old(self).chunks@),
                before@.len() == c,
                forall|q: int| 0 <= q < c ==> (#[trigger] before@[q])@ == g[q],
            decreases n - c,
        {
            before.push(copy_grid(&self.chunks[c].blocks));
            c = c + 1;
        }
        stitch_chunks(&mut self.chunks, self.extent);
        let ghost mid = self.chunks@;
        proof {
            assert forall|i: int| 0 <= i < self.chunks@.len() implies {
                &&& (#[trigger] self.chunks@[i]).wf()
                &&& pos_tuple(self.chunks@[i].position) == lattice_position(self.origin, self.extent, i)
            } by {
                lemma_stitched_interior(g, self.extent, i);
                assert(grids(self.chunks@)[i] == self.chunks@[i].blocks@);
                assert(g[i] == old(self).chunks@[i].blocks@);
                assert(old(self).chunks@[i].wf());
            }
        }
        let mut i: usize = 0;
        while i < n
            invariant
                i <= n,
                n == self.chunks@.len(),
                n == mid.len(),
                n == old(self).chunks@.len(),
                before@.len() == n,
                g == grids(old(self).chunks@),
                forall|q: int| 0 <= q < n ==> (#[trigger] before@[q])@ == g[q],
                same_but_grids(old(self).chunks@, mid),
                self.origin == old(self).origin,
                self.extent == old(self).extent,
                self.current_chunk == old(self).current_chunk,
                forall|q: int| 0 <= q < n ==> {
                    &&& (#[trigger] self.chunks@[q]).wf()
                    &&& pos_tuple(self.chunks@[q].position) == lattice_position(self.origin, self.extent, q)
                    &&& self.chunks@[q].blocks == mid[q].blocks
                    &&& self.chunks@[q].position == mid[q].position
                    &&& self.chunks@[q].is_empty == mid[q].is_empty
                },
                forall|q: int| 0 <= q < i ==> stitch_flags(old(self).chunks@[q], #[trigger] self.chunks@[q]),
                forall|q: int| i <= q < n ==> #[trigger] self.chunks@[q] == mid[q],
            decreases n - i,
        {
            assert(self.chunks@[i as int].wf());
            assert(g[i as int] == old(self).chunks@[i as int].blocks@);
            if !same_grid(&self.chunks[i].blocks, &before[i]) {
                let empty = self.chunks[i].is_empty;
                self.chunks[i].mesh = None;
                self.chunks[i].visible = !empty;
                self.chunks[i].has_changed = true;
            }
            i = i + 1;
        }
        assert(grids(self.chunks@) =~= grids(mid));
    }

    /// Meshes every chunk: each carries the mesh of its grid afterwards, and is visible exactly
    /// when the mesh has a quad.
    pub fn mesh_chunks(&mut self)
        requires
            old(self).wf(),
        ensures
            final(self).wf(),
            final(self).origin == old(self).origin,
            final(self).extent == old(self).extent,
            final(self).current_chunk == old(self).current_chunk,
            grids(final(self).chunks@) == grids(old(self).chunks@),
            forall|i: int| 0 <= i < final(self).chunks@.len() ==>
                (#[trigger] final(self).chunks@[i]).position == old(self).chunks@[i].position,
            meshed(final(self).chunks@),
    {
        let n = self.chunks.len();
        let mut i: usize = 0;
        while i < n
            invariant
                i <= n,
                n == self.chunks@.len(),
                positive_extent(self.extent),
                lattice_fits(self.origin, self.extent),
                n == volume(self.extent),
                self.origin == old(self).origin,
                self.extent == old(self).extent,
                self.current_chunk == old(self).current_chunk,
                forall|c: int| 0 <= c < n ==> {
                    &&& (#[trigger] self.chunks@[c]).wf()
                    &&& self.chunks@[c].blocks == old(self).chunks@[c].blocks
                    &&& self.chunks@[c].position == old(self).chunks@[c].position
                    &&& pos_tuple(self.chunks@[c].position) == lattice_position(self.origin, self.extent, c)
                },
                forall|c: int| 0 <= c < i ==> {
                    &&& (#[trigger] self.chunks@[c]).spec_mesh() == mesh_of(self.chunks@[c].blocks@)
                    &&& self.chunks@[c].spec_visible() == (self.chunks@[c].spec_quad_count() > 0)
                },
            decreases n - i,
        {
            self.chunks[i].create_mesh();
            i = i + 1;
        }
        assert(grids(self.chunks@) =~= grids(old(self).chunks@));
    }

    /// Builds the lattice of extent `extent` from `origin`: generates each chunk from the
    /// heightmap of its lattice column (column `(x, z)`, counted from the origin, at index
    /// `x + extent[0] * z`), stitches all borders, then meshes every chunk. Fails, building
    /// nothing, when the configuration is invalid (see `config_error`).
    pub fn new(origin: LatticePos, extent: [u32; 3], heightmaps: &Vec<Vec<u32>>) -> (r: Result<World, WorldError>)
        ensures
            r is Ok <==> config_error(origin, extent, heightmaps@) is None,
            r matches Err(err) ==> config_error(origin, extent, heightmaps@) == Some(err),
            r matches Ok(w) ==> {
                &&& w.wf()
                &&& w.origin == origin
                &&& w.extent == extent
                &&& grids(w.chunks@) == stitched(generated_grids(origin, extent, heightmaps@), extent)
                &&& meshed(w.chunks@)
            },
    {
        if extent[0] == 0 || extent[1] == 0 || extent[2] == 0 {
            return Err(WorldError::ZeroExtent);
        }
        assert(extent[0] as int * extent[1] as int <= u64::MAX) by (nonlinear_arith)
            requires extent[0] <= u32::MAX, extent[1] <= u32::MAX, extent[0] >= 0, extent[1] >= 0;
        let v01 = extent[0] as u64 * extent[1] as u64;
        let n: usize = match v01.checked_mul(extent[2] as u64) {
            Some(v) => {
                if v > usize::MAX as u64 {
                    return Err(WorldError::TooLarge);
                }
                v as usize
            },
            None => {
                assert(volume(extent) > usize::MAX) by (nonlinear_arith)
                    requires v01 == extent[0] as int * extent[1] as int, v01 * extent[2] as int > u64::MAX,
                        volume(extent) == extent[0] as int * extent[1] as int * extent[2] as int;
                return Err(WorldError::TooLarge);
            },
        };
        if origin.x as i64 + extent[0] as i64 - 1 > i32::MAX as i64
            || origin.y as i64 + extent[1] as i64 - 1 > i32::MAX as i64
            || origin.z as i64 + extent[2] as i64 - 1 > i32::MAX as i64 {
            return Err(WorldError::TooLarge);
        }
        assert(lattice_fits(origin, extent));
        proof {
            assert(extent[0] as int * extent[2] as int <= volume(extent)) by (nonlinear_arith)
                requires extent[1] >= 1, extent[0] >= 0, extent[2] >= 0,
                    volume(extent) == extent[0] as int * extent[1] as int * extent[2] as int;
        }
        if heightmaps.len() != extent[0] as usize * extent[2] as usize {
            return Err(WorldError::HeightmapCount);
        }
        let mut m: usize = 0;
        while m < heightmaps.len()
            invariant
                m <= heightmaps@.len(),
                positive_extent(extent),
                lattice_fits(origin, extent),
                n == volume(extent),
                heightmaps@.len() == extent[0] * extent[2],
                extent[0] * extent[2] <= volume(extent),
                forall|q: int| 0 <= q < m ==> (#[trigger] heightmaps@[q])@.len() == 256,
            decreases heightmaps@.len() - m,
        {
            if heightmaps[m].len() != 256 {
                assert(heightmaps@[m as int]@.len() != 256);
                return Err(WorldError::HeightmapSize);
            }
            m = m + 1;
        }
        let ghost hs = heightmaps@;
        let mut chunks: Vec<Chunk> = Vec::new();
        let mut k: usize = 0;
        while k < n
            invariant
                k <= n,
                n == volume(extent),
                positive_extent(extent),
                lattice_fits(origin, extent),
                hs == heightmaps@,
                heightmaps@.len() == extent[0] * extent[2],
                extent[0] * extent[2] <= volume(extent),
                forall|q: int| 0 <= q < heightmaps@.len() ==> (#[trigger] heightmaps@[q])@.len() == 256,
                chunks@.len() == k,
                forall|c: int| 0 <= c < k ==> {
                    &&& (#[trigger] chunks@[c]).wf()
                    &&& pos_tuple(chunks@[c].position) == lattice_position(origin, extent, c)
                    &&& chunks@[c].blocks@ == generated_grids(origin, extent, hs)[c]
                },
            decreases n - k,
        {
            let p = delinearize(k, extent);
            proof {
                assert(p[0] as int + extent[0] as int * (p[2] as int) < extent[0] as int * extent[2] as int) by (nonlinear_arith)
                    requires p[0] < extent[0], p[2] < extent[2];
                assert(0 <= extent[0] as int * p[2] as int) by (nonlinear_arith)
                    requires p[2] >= 0, extent[0] >= 0;
            }
            let col = p[0] as usize + extent[0] as usize * p[2] as usize;
            let pos = LatticePos {
                x: (origin.x as i64 + p[0] as i64) as i32,
                y: (origin.y as i64 + p[1] as i64) as i32,
                z: (origin.z as i64 + p[2] as i64) as i32,
            };
            let chunk = Chunk::new(pos, &heightmaps[col]);
            assert(chunk.blocks@ =~= generated_grids(origin, extent, hs)[k as int]);
            chunks.push(chunk);
            k = k + 1;
        }
        let mut w = World { chunks, origin, extent, current_chunk: LatticePos { x: 0, y: 0, z: 0 } };
        assert(grids(w.chunks@) =~= generated_grids(origin, extent, hs));
        w.stitch_borders();
        w.mesh_chunks();
        Ok(w)
    }
}

} // verus!
