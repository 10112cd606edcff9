use vstd::prelude::*;
use crate::block::Block;

verus! {

/// One merged rectangle of block faces: the face group it belongs to (`0..6`, in the order
/// -X, -Y, -Z, +X, +Y, +Z), its minimum cell in padded grid coordinates, and its extent
/// along the face's two axes.
#[derive(Debug, Clone, Copy, PartialEq, Eq)]
pub struct Quad {
    pub face: u8,
    pub minimum: [u32; 3],
    pub width: u32,
    pub height: u32,
}

/// The quads that greedy meshing produces for a cube of voxels of the given side, face group
/// by face group, each group in merge order.
pub uninterp spec fn greedy_quads_of(voxels: Seq<Block>, side: nat) -> Seq<Quad>;

/// Relies on block_mesh::greedy_quads, run over the whole cube `[0, last]^3` with the faces of
/// RIGHT_HANDED_Y_UP_CONFIG: its quads depend on the voxels alone, and it fills six face
/// groups, which are listed here in order, each quad tagged with its group.
#[verifier::external_body]
pub(crate) fn greedy_quads(voxels: &Vec<Block>, side: u32, last: u32) -> (r: Vec<Quad>)
    requires
        3 <= side <= 1024,
        last + 1 == side,
        voxels@.len() == side * side * side,
    ensures
        r@ == greedy_quads_of(voxels@, side as nat),
        forall|k: int| 0 <= k < r@.len() ==> r@[k].face < 6,
{
    let shape = block_mesh::ndshape::RuntimeShape::<u32, 3>::new([side; 3]);
    let mut buffer = block_mesh::GreedyQuadsBuffer::new(voxels.len());
    let faces = block_mesh::RIGHT_HANDED_Y_UP_CONFIG.faces;
    block_mesh::greedy_quads(voxels.as_slice(), &shape, [0; 3], [last; 3], &faces, &mut buffer);
    buffer.quads.groups.iter().enumerate().flat_map(|(f, g)| {
        g.iter().map(move |q| Quad { face: f as u8, minimum: q.minimum, width: q.width, height: q.height })
    }).collect()
}

} // verus!
