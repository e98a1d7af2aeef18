//! Chunks: a dense 16×16×16 grid of blocks and the handle of the entity that draws it.

use bevy::ecs::entity::Entity;
use crate::block::Block;
use crate::coords::local_in_chunk;
use crate::coords::CHUNK_VOLUME;
use vstd::prelude::*;

verus! {

/// Position of the cell `local` in the sequence of a chunk's blocks:
/// the first index runs fastest.
pub open spec fn cell_offset(local: [usize; 3]) -> int {
    local@[0] + 16 * local@[1] + 256 * local@[2]
}

/// Dense storage for the blocks of one chunk, held in a three-dimensional
/// `ndarray` array of shape 16×16×16.
///
/// Proofs do not look inside the array: `grid_cells` names what it holds,
/// and the four functions below, whose contracts are taken on trust, are
/// the only code that touches it.
#[verifier::external_body]
pub struct BlockGrid {
    cells: ndarray::Array3<Block>,
}

/// The blocks of a grid in the array's logical order, the last array index
/// running fastest: the element at array index `[i, j, k]` is at position
/// `i * 256 + j * 16 + k`.
pub uninterp spec fn grid_cells(g: BlockGrid) -> Seq<Block>;

/// Calls `ndarray::Array::from_elem` with shape `(16, 16, 16)`: the new
/// array holds 4096 copies of `block`.
#[verifier::external_body]
fn grid_filled(block: Block) -> (g: BlockGrid)
    ensures
        grid_cells(g) == Seq::new(4096, |i: int| block),
{
    BlockGrid { cells: ndarray::Array::from_elem((16, 16, 16), block) }
}

/// Indexes the array at `[i, j, k]`: a reference to that element.
/// The array panics on an index outside its shape, which `requires` excludes.
#[verifier::external_body]
fn grid_cell(g: &BlockGrid, i: usize, j: usize, k: usize) -> (cell: &Block)
    requires
        i < 16,
        j < 16,
        k < 16,
    ensures
        *cell == grid_cells(*g)[i * 256 + j * 16 + k],
{
    &g.cells[[i, j, k]]
}

/// Indexes the array mutably at `[i, j, k]`: a reference to that element,
/// through which exactly that element of the array changes.
#[verifier::external_body]
fn grid_cell_mut(g: &mut BlockGrid, i: usize, j: usize, k: usize) -> (cell: &mut Block)
    requires
        i < 16,
        j < 16,
        k < 16,
    ensures
        *cell == grid_cells(*old(g))[i * 256 + j * 16 + k],
        grid_cells(*final(g)) == grid_cells(*old(g)).update(
            i * 256 + j * 16 + k,
            *final(cell),
        ),
{
    &mut g.cells[[i, j, k]]
}

/// Walks the array with `ndarray::ArrayBase::iter`, which visits the elements
/// in logical order, and collects copies of them.
#[verifier::external_body]
fn grid_to_vec(g: &BlockGrid) -> (v: Vec<Block>)
    ensures
        v@ == grid_cells(*g),
{
    g.cells.iter().copied().collect()
}

impl BlockGrid {
    /// The blocks of the grid; the cell `local` is at position `cell_offset(local)`.
    pub open spec fn cells(self) -> Seq<Block> {
        grid_cells(self)
    }

    /// A grid whose 4096 cells all hold `block`.
    pub fn filled(block: Block) -> (g: BlockGrid)
        ensures
            g.cells() == Seq::new(4096, |i: int| block),
    {
        grid_filled(block)
    }
}

/// A loaded chunk.
pub struct Chunk {
    pub blocks: BlockGrid,
    pub entity: Entity,
}

/// The handle of an entity of the renderer, `bevy::ecs::entity::Entity`.
/// The world passes it along and never looks inside.
#[verifier::external_type_specification]
#[verifier::external_body]
pub struct ExEntity(bevy::ecs::entity::Entity);

impl Chunk {
    /// The blocks of the chunk; the cell `local` is at position `cell_offset(local)`.
    pub open spec fn cells(self) -> Seq<Block> {
        self.blocks.cells()
    }

    /// A chunk holds exactly 16×16×16 blocks.
    pub open spec fn wf(self) -> bool {
        self.cells().len() == CHUNK_VOLUME
    }

    /// The block at cell `local`.
    pub open spec fn spec_block(self, local: [usize; 3]) -> Block {
        self.cells()[cell_offset(local)]
    }

    /// Whether every cell holds `block`.
    pub open spec fn is_uniform(self, block: Block) -> bool {
        self.cells() == Seq::new(CHUNK_VOLUME as nat, |i: int| block)
    }

    /// A chunk of the given blocks, drawn by `entity`.
    pub fn new(blocks: BlockGrid, entity: Entity) -> (c: Chunk)
        ensures
            c.blocks == blocks,
            c.entity == entity,
    {
        Chunk { blocks, entity }
    }

    /// A chunk whose cells all hold `block`, drawn by `entity`.
    pub fn filled(block: Block, entity: Entity) -> (c: Chunk)
        ensures
            c.wf(),
            c.is_uniform(block),
            c.entity == entity,
    {
        Chunk { blocks: grid_filled(block), entity }
    }

    /// Replaces every block of the chunk by `block`; the entity stays.
    pub fn fill(&mut self, block: Block)
        ensures
            final(self).wf(),
            final(self).is_uniform(block),
            final(self).entity == old(self).entity,
    {
        self.blocks = grid_filled(block);
    }

    /// The block at cell `local`.
    pub fn block(&self, local: [usize; 3]) -> (b: &Block)
        requires
            self.wf(),
            local_in_chunk(local),
        ensures
            *b == self.spec_block(local),
    {
        grid_cell(&self.blocks, local[2], local[1], local[0])
    }

    /// Mutable access to the block at cell `local`: what the caller writes
    /// through the reference replaces that block and no other.
    pub fn block_mut(&mut self, local: [usize; 3]) -> (b: &mut Block)
        requires
            old(self).wf(),
            local_in_chunk(local),
        ensures
            *b == old(self).spec_block(local),
            final(self).cells() == old(self).cells().update(cell_offset(local), *final(b)),
            final(self).entity == old(self).entity,
            final(self).wf(),
    {
        grid_cell_mut(&mut self.blocks, local[2], local[1], local[0])
    }

    /// Copies of all blocks, the cell `local` at position `cell_offset(local)`.
    pub fn to_vec(&self) -> (v: Vec<Block>)
        ensures
            v@ == self.cells(),
    {
        grid_to_vec(&self.blocks)
    }
}

} // verus!
