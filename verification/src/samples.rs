//! The padded sample volume of a chunk: its 16×16×16 blocks with one layer
//! around them, taken from the six face neighbours.

use crate::block::Block;
use crate::block::BlockType;
use crate::chunk::cell_offset;
use crate::coords::lemma_compose_inverse;
use crate::coords::neighbor;
use crate::coords::spec_neighbor;
use crate::coords::IVec3;
use crate::store::local_index;
use crate::store::LoadedChunks;
use vstd::prelude::*;

verus! {

/// Number of cells of the padded volume: 18×18×18.
pub const PADDED_VOLUME: usize = 5832;

/// Position of the cell `(x, y, z)` in a chunk's sequence of blocks.
pub open spec fn chunk_offset(x: int, y: int, z: int) -> int {
    x + 16 * y + 256 * z
}

/// Position of the cell `(x, y, z)` in the padded volume.
pub open spec fn padded_offset(x: int, y: int, z: int) -> int {
    x + 18 * y + 324 * z
}

/// The cell of the padded volume at position `i`.
pub open spec fn padded_cell(i: int) -> (int, int, int) {
    (i % 18, (i / 18) % 18, i / 324)
}

/// Whether the cell `p` lies in the box that starts at `start` and has the
/// extent `shape`.
pub open spec fn in_box(p: (int, int, int), start: [u32; 3], shape: [u32; 3]) -> bool {
    &&& start@[0] <= p.0 < start@[0] + shape@[0]
    &&& start@[1] <= p.1 < start@[1] + shape@[1]
    &&& start@[2] <= p.2 < start@[2] + shape@[2]
}

/// Whether the box at `start` of extent `shape` fits in a cube of edge `edge`.
pub open spec fn box_fits(start: [u32; 3], shape: [u32; 3], edge: int) -> bool {
    &&& start@[0] + shape@[0] <= edge
    &&& start@[1] + shape@[1] <= edge
    &&& start@[2] + shape@[2] <= edge
}

/// The padded volume `dst` after the box of extent `shape` at `src_start` of
/// the chunk blocks `src` has been copied to the box at `dst_start`: cells in
/// that box hold the matching block of `src`, all others are unchanged.
pub open spec fn region_copied(
    dst: Seq<Block>,
    src: Seq<Block>,
    shape: [u32; 3],
    src_start: [u32; 3],
    dst_start: [u32; 3],
) -> Seq<Block> {
    Seq::new(
        dst.len(),
        |i: int|
            {
                let p = padded_cell(i);
                if in_box(p, dst_start, shape) {
                    src[chunk_offset(
                        p.0 - dst_start@[0] + src_start@[0],
                        p.1 - dst_start@[1] + src_start@[1],
                        p.2 - dst_start@[2] + src_start@[2],
                    )]
                } else {
                    dst[i]
                }
            },
    )
}

/// The padded volume `dst` after the box of extent `shape` at `dst_start`
/// has been filled with `value`.
pub open spec fn region_filled(dst: Seq<Block>, value: Block, shape: [u32; 3], dst_start: [
    u32;
    3
]) -> Seq<Block> {
    Seq::new(
        dst.len(),
        |i: int|
            if in_box(padded_cell(i), dst_start, shape) {
                value
            } else {
                dst[i]
            },
    )
}

/// Calls `ndcopy::copy3` from a 16×16×16 source to an 18×18×18 destination,
/// both laid out with the first coordinate running fastest. It copies the
/// box row by row: the destination cell at `dst_start + d` receives the
/// source cell at `src_start + d` for every `d` inside `shape`, and nothing
/// else is written. It panics on a row outside either slice, which
/// `requires` excludes.
#[verifier::external_body]
fn copy_region(
    shape: [u32; 3],
    src: &Vec<Block>,
    src_start: [u32; 3],
    dst: &mut Vec<Block>,
    dst_start: [u32; 3],
)
    requires
        src.len() == 4096,
        old(dst).len() == 5832,
        box_fits(src_start, shape, 16),
        box_fits(dst_start, shape, 18),
    ensures
        final(dst)@ == region_copied(old(dst)@, src@, shape, src_start, dst_start),
{
    ndcopy::copy3(
        shape,
        src.as_slice(),
        &ndcopy::ndshape::ConstShape3u32::<16, 16, 16>,
        src_start,
        dst.as_mut_slice(),
        &ndcopy::ndshape::ConstShape3u32::<18, 18, 18>,
        dst_start,
    )
}

/// Calls `ndcopy::fill3` on an 18×18×18 destination laid out with the first
/// coordinate running fastest. It writes `value` to every cell of the box at
/// `dst_start` of extent `shape`, row by row, and to no other cell. It
/// panics on a row outside the slice, which `requires` excludes.
#[verifier::external_body]
fn fill_region(shape: [u32; 3], value: Block, dst: &mut Vec<Block>, dst_start: [u32; 3])
    requires
        old(dst).len() == 5832,
        box_fits(dst_start, shape, 18),
    ensures
        final(dst)@ == region_filled(old(dst)@, value, shape, dst_start),
{
    ndcopy::fill3(
        shape,
        value,
        dst.as_mut_slice(),
        &ndcopy::ndshape::ConstShape3u32::<18, 18, 18>,
        dst_start,
    )
}

/// Extent of the slab that the neighbour on side `side` contributes: one
/// cell thick along the side's axis, 16 along the other two.
pub open spec fn spec_slab_shape(side: int) -> [u32; 3] {
    if side == 0 || side == 1 {
        [1u32, 16u32, 16u32]
    } else if side == 2 || side == 3 {
        [16u32, 1u32, 16u32]
    } else {
        [16u32, 16u32, 1u32]
    }
}

/// Where the slab of side `side` starts in the neighbour: its last layer for
/// a neighbour below, its first for a neighbour above.
pub open spec fn spec_slab_source(side: int) -> [u32; 3] {
    if side == 0 {
        [15u32, 0u32, 0u32]
    } else if side == 2 {
        [0u32, 15u32, 0u32]
    } else if side == 4 {
        [0u32, 0u32, 15u32]
    } else {
        [0u32, 0u32, 0u32]
    }
}

/// Where the slab of side `side` starts in the padded volume: the boundary
/// layer on that side.
pub open spec fn spec_slab_target(side: int) -> [u32; 3] {
    if side == 0 {
        [0u32, 1u32, 1u32]
    } else if side == 1 {
        [17u32, 1u32, 1u32]
    } else if side == 2 {
        [1u32, 0u32, 1u32]
    } else if side == 3 {
        [1u32, 17u32, 1u32]
    } else if side == 4 {
        [1u32, 1u32, 0u32]
    } else {
        [1u32, 1u32, 17u32]
    }
}

/// Whether the cell `p` of the padded volume lies in the chunk's own 16×16×16 interior.
pub open spec fn in_interior(p: (int, int, int)) -> bool {
    1 <= p.0 <= 16 && 1 <= p.1 <= 16 && 1 <= p.2 <= 16
}

/// Whether the cell `p` of the padded volume lies in the slab of side `side`.
pub open spec fn in_slab(p: (int, int, int), side: int) -> bool {
    in_box(p, spec_slab_target(side), spec_slab_shape(side))
}

/// The block that stands for a cell of a chunk that is not loaded.
pub open spec fn boundary_block() -> Block {
    Block { block_type: BlockType::Boundary, damage: 0 }
}

/// The block of the padded volume's edges and corners, which no face looks at.
pub open spec fn air_block() -> Block {
    Block { block_type: BlockType::Air, damage: 0 }
}

/// The block that the slab of side `side` holds at cell `p`: the block of
/// the neighbour on that side that touches the chunk there, or the boundary
/// block when that neighbour is not loaded.
pub open spec fn slab_sample(chunks: LoadedChunks, c: IVec3, side: int, p: (int, int, int)) -> Block {
    match spec_neighbor(c, side) {
        Some(n) => if chunks.loaded(n) {
            chunks@[n].cells()[chunk_offset(
                p.0 - spec_slab_target(side)@[0] + spec_slab_source(side)@[0],
                p.1 - spec_slab_target(side)@[1] + spec_slab_source(side)@[1],
                p.2 - spec_slab_target(side)@[2] + spec_slab_source(side)@[2],
            )]
        } else {
            boundary_block()
        },
        None => boundary_block(),
    }
}

/// The block at cell `p` of the padded volume of chunk `c` once the slabs
/// of the sides below `sides` are in place.
pub open spec fn partial_sample(chunks: LoadedChunks, c: IVec3, p: (int, int, int), sides: int) -> Block {
    if in_interior(p) {
        chunks@[c].cells()[chunk_offset(p.0 - 1, p.1 - 1, p.2 - 1)]
    } else if 0 < sides && in_slab(p, 0) {
        slab_sample(chunks, c, 0, p)
    } else if 1 < sides && in_slab(p, 1) {
        slab_sample(chunks, c, 1, p)
    } else if 2 < sides && in_slab(p, 2) {
        slab_sample(chunks, c, 2, p)
    } else if 3 < sides && in_slab(p, 3) {
        slab_sample(chunks, c, 3, p)
    } else if 4 < sides && in_slab(p, 4) {
        slab_sample(chunks, c, 4, p)
    } else if 5 < sides && in_slab(p, 5) {
        slab_sample(chunks, c, 5, p)
    } else {
        air_block()
    }
}

/// The block at cell `p` of the padded volume of chunk `c`: the chunk's own
/// block in the interior, the touching block of the face neighbour (or the
/// boundary block) in each of the six slabs, air on the edges and corners.
pub open spec fn padded_sample(chunks: LoadedChunks, c: IVec3, p: (int, int, int)) -> Block {
    partial_sample(chunks, c, p, 6)
}

/// The padded volume of chunk `c` with the slabs of the sides below `sides` in place.
pub open spec fn partial_samples(chunks: LoadedChunks, c: IVec3, sides: int) -> Seq<Block> {
    Seq::new(PADDED_VOLUME as nat, |i: int| partial_sample(chunks, c, padded_cell(i), sides))
}

/// The padded volume of chunk `c`, the cell `(x, y, z)` at position `padded_offset(x, y, z)`.
pub open spec fn padded_samples(chunks: LoadedChunks, c: IVec3) -> Seq<Block> {
    partial_samples(chunks, c, 6)
}

/// Extent of the slab of side `side`.
pub fn slab_shape(side: usize) -> (r: [u32; 3])
    requires
        side < 6,
    ensures
        r == spec_slab_shape(side as int),
{
    let r: [u32; 3] = if side == 0 || side == 1 {
        [1, 16, 16]
    } else if side == 2 || side == 3 {
        [16, 1, 16]
    } else {
        [16, 16, 1]
    };
    assert(r@ =~= spec_slab_shape(side as int)@);
    r
}

/// Start of the slab of side `side` in the neighbour.
pub fn slab_source(side: usize) -> (r: [u32; 3])
    requires
        side < 6,
    ensures
        r == spec_slab_source(side as int),
{
    let r: [u32; 3] = if side == 0 {
        [15, 0, 0]
    } else if side == 2 {
        [0, 15, 0]
    } else if side == 4 {
        [0, 0, 15]
    } else {
        [0, 0, 0]
    };
    assert(r@ =~= spec_slab_source(side as int)@);
    r
}

/// Start of the slab of side `side` in the padded volume.
pub fn slab_target(side: usize) -> (r: [u32; 3])
    requires
        side < 6,
    ensures
        r == spec_slab_target(side as int),
{
    let r: [u32; 3] = if side == 0 {
        [0, 1, 1]
    } else if side == 1 {
        [17, 1, 1]
    } else if side == 2 {
        [1, 0, 1]
    } else if side == 3 {
        [1, 17, 1]
    } else if side == 4 {
        [1, 1, 0]
    } else {
        [1, 1, 17]
    };
    assert(r@ =~= spec_slab_target(side as int)@);
    r
}

/// A vector of `n` copies of `value`.
fn filled_vec(value: Block, n: usize) -> (v: Vec<Block>)
    ensures
        v@ == Seq::new(n as nat, |i: int| value),
{
    let mut v: Vec<Block> = Vec::new();
    let mut i: usize = 0;
    while i < n
        invariant
            i <= n,
            v@ == Seq::new(i as nat, |j: int| value),
        decreases n - i,
    {
        v.push(value);
        i += 1;
        assert(v@ =~= Seq::new(i as nat, |j: int| value));
    }
    v
}

/// Builds the padded volume of the loaded chunk at `index`: the chunk's
/// blocks in the interior, and on each of the six sides a slab from the
/// neighbour there, or of boundary blocks where no neighbour is loaded.
pub fn build_samples(chunks: &LoadedChunks, index: IVec3) -> (samples: Vec<Block>)
    requires
        chunks.wf(),
        chunks.loaded(index),
    ensures
        samples@ == padded_samples(*chunks, index),
        samples.len() == PADDED_VOLUME,
{
    let mut samples = filled_vec(Block::new(BlockType::Air), PADDED_VOLUME);
    let own = match chunks.get(index) {
        Some(chunk) => chunk.to_vec(),
        None => Vec::new(),
    };
    copy_region([16, 16, 16], &own, [0, 0, 0], &mut samples, [1, 1, 1]);
    assert(samples@ =~= partial_samples(*chunks, index, 0));
    let mut side: usize = 0;
    while side < 6
        invariant
            side <= 6,
            chunks.wf(),
            chunks.loaded(index),
            samples@ == partial_samples(*chunks, index, side as int),
        decreases 6 - side,
    {
        let loaded = match neighbor(index, side) {
            Some(n) => chunks.get(n),
            None => None,
        };
        match loaded {
            Some(chunk) => {
                let cells = chunk.to_vec();
                copy_region(
                    slab_shape(side),
                    &cells,
                    slab_source(side),
                    &mut samples,
                    slab_target(side),
                );
            },
            None => {
                fill_region(
                    slab_shape(side),
                    Block::new(BlockType::Boundary),
                    &mut samples,
                    slab_target(side),
                );
            },
        }
        assert(samples@ =~= partial_samples(*chunks, index, side + 1));
        side += 1;
    }
    samples
}

/// The world block that the cell `p` of the padded volume of chunk `c` stands for.
pub open spec fn world_of(c: IVec3, p: (int, int, int)) -> (int, int, int) {
    (16 * c.x + p.0 - 1, 16 * c.y + p.1 - 1, 16 * c.z + p.2 - 1)
}

/// Whether the cell `p` of the padded volume lies in one of the six slabs.
pub open spec fn in_some_slab(p: (int, int, int)) -> bool {
    in_slab(p, 0) || in_slab(p, 1) || in_slab(p, 2) || in_slab(p, 3) || in_slab(p, 4) || in_slab(
        p,
        5,
    )
}

/// The padded volume of a chunk shows the world as it is: a cell of the
/// interior or of a slab holds the world block at its place, and the
/// boundary block where the chunk there is not loaded. So the mesh of a
/// chunk depends on the chunk's own blocks and on the layer of each face
/// neighbour that touches it, and on nothing else.
pub proof fn lemma_padded_sample_is_world_block(
    chunks: LoadedChunks,
    c: IVec3,
    p: (int, int, int),
    world: IVec3,
)
    requires
        chunks.loaded(c),
        in_interior(p) || in_some_slab(p),
        world.triple() == world_of(c, p),
    ensures
        padded_sample(chunks, c, p) == match chunks.block_at(world) {
            Some(b) => b,
            None => boundary_block(),
        },
{
    let local = local_index(world);
    let lx = if p.0 == 0 {
        15
    } else if p.0 == 17 {
        0
    } else {
        p.0 - 1
    };
    let ly = if p.1 == 0 {
        15
    } else if p.1 == 17 {
        0
    } else {
        p.1 - 1
    };
    let lz = if p.2 == 0 {
        15
    } else if p.2 == 17 {
        0
    } else {
        p.2 - 1
    };
    let dx = if p.0 == 0 {
        -1
    } else if p.0 == 17 {
        1
    } else {
        0int
    };
    let dy = if p.1 == 0 {
        -1
    } else if p.1 == 17 {
        1
    } else {
        0int
    };
    let dz = if p.2 == 0 {
        -1
    } else if p.2 == 17 {
        1
    } else {
        0int
    };
    lemma_compose_inverse(c.x + dx, lx);
    lemma_compose_inverse(c.y + dy, ly);
    lemma_compose_inverse(c.z + dz, lz);
    assert(local@[0] == lx && local@[1] == ly && local@[2] == lz);
    assert(cell_offset(local) == chunk_offset(lx, ly, lz));
    let owner = crate::coords::owning_chunk(world);
    assert(owner.x == c.x + dx && owner.y == c.y + dy && owner.z == c.z + dz);
    if in_interior(p) {
        assert(owner == c);
    } else if in_slab(p, 0) {
        assert(spec_neighbor(c, 0) == Some(owner));
    } else if in_slab(p, 1) {
        assert(spec_neighbor(c, 1) == Some(owner));
    } else if in_slab(p, 2) {
        assert(spec_neighbor(c, 2) == Some(owner));
    } else if in_slab(p, 3) {
        assert(spec_neighbor(c, 3) == Some(owner));
    } else if in_slab(p, 4) {
        assert(spec_neighbor(c, 4) == Some(owner));
    } else {
        assert(spec_neighbor(c, 5) == Some(owner));
    }
}

} // verus!
