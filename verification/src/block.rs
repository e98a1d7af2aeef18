//! Blocks: the smallest addressable unit of world data.

use vstd::prelude::*;

verus! {

/// The kind of a block. The set is closed: both predicates below list every kind.
#[derive(Clone, Copy, Debug, PartialEq, Eq, Structural, Hash)]
pub enum BlockType {
    /// Stands for a block of a chunk that is not loaded. Never stored in a chunk.
    Boundary,
    /// Empty space.
    Air,
    /// Plain ground.
    Dirt,
}

/// How a block takes part in surface generation.
#[derive(Clone, Copy, Debug, PartialEq, Eq, Structural, Hash)]
pub enum Visibility {
    /// Produces no geometry.
    Empty,
    /// Produces geometry and lets light through.
    Translucent,
    /// Produces geometry and blocks light.
    Opaque,
}

impl BlockType {
    /// Visibility of a block of this kind: `Air` is empty, every other kind opaque.
    pub open spec fn spec_visibility(self) -> Visibility {
        match self {
            BlockType::Boundary => Visibility::Opaque,
            BlockType::Air => Visibility::Empty,
            BlockType::Dirt => Visibility::Opaque,
        }
    }

    /// Whether a moving body is stopped by a block of this kind: all but `Air`.
    pub open spec fn spec_collidable(self) -> bool {
        match self {
            BlockType::Boundary => true,
            BlockType::Air => false,
            BlockType::Dirt => true,
        }
    }

    /// Whether a block of this kind is drawn, that is, not empty.
    pub open spec fn is_visible(self) -> bool {
        self.spec_visibility() != Visibility::Empty
    }

    /// Visibility of a block of this kind.
    pub fn visibility(&self) -> (v: Visibility)
        ensures
            v == self.spec_visibility(),
    {
        match self {
            BlockType::Boundary => Visibility::Opaque,
            BlockType::Air => Visibility::Empty,
            BlockType::Dirt => Visibility::Opaque,
        }
    }

    /// Whether a block of this kind stops a moving body.
    pub fn collidable(&self) -> (c: bool)
        ensures
            c == self.spec_collidable(),
    {
        match self {
            BlockType::Boundary => true,
            BlockType::Air => false,
            BlockType::Dirt => true,
        }
    }
}

impl Default for BlockType {
    fn default() -> (b: BlockType)
        ensures
            b == BlockType::Air,
    {
        BlockType::Air
    }
}

/// A block: its kind and the damage it has taken.
///
/// The damage is carried as the bit pattern of a single-precision number, so
/// that blocks compare and copy exactly; nothing here computes with it.
#[derive(Clone, Copy, Debug, PartialEq, Eq, Structural, Hash)]
pub struct Block {
    pub block_type: BlockType,
    pub damage: u32,
}

impl Block {
    /// An undamaged block of the given kind.
    pub fn new(block_type: BlockType) -> (b: Block)
        ensures
            b == (Block { block_type, damage: 0 }),
    {
        Block { block_type, damage: 0 }
    }

    /// A block of the given kind with the given damage bits.
    pub fn new_with_damage(block_type: BlockType, damage: u32) -> (b: Block)
        ensures
            b == (Block { block_type, damage }),
    {
        Block { block_type, damage }
    }

    /// Whether the block stops a moving body.
    pub fn collidable(&self) -> (c: bool)
        ensures
            c == self.block_type.spec_collidable(),
    {
        self.block_type.collidable()
    }
}

impl Default for Block {
    fn default() -> (b: Block)
        ensures
            b == (Block { block_type: BlockType::Air, damage: 0 }),
    {
        Block { block_type: BlockType::Air, damage: 0 }
    }
}

/// Makes the value of the mesher's visibility type,
/// `block_mesh::VoxelVisibility`, for a visibility: the variant that has
/// the name of `v`. The contract says so through `mesher_variant`, which
/// tells of a value of that type which variant it is. Verified code only
/// hands the result on to the mesher.
#[verifier::external_body]
fn mesher_visibility(v: Visibility) -> (r: block_mesh::VoxelVisibility)
    ensures
        mesher_variant(r) == v,
{
    match v {
        Visibility::Empty => block_mesh::VoxelVisibility::Empty,
        Visibility::Translucent => block_mesh::VoxelVisibility::Translucent,
        Visibility::Opaque => block_mesh::VoxelVisibility::Opaque,
    }
}

impl block_mesh::Voxel for Block {
    /// Visibility of the block for surface generation: that of its kind.
    fn get_visibility(&self) -> (v: block_mesh::VoxelVisibility)
        ensures
            mesher_variant(v) == self.block_type.spec_visibility(),
    {
        mesher_visibility(self.block_type.visibility())
    }
}
impl block_mesh::MergeVoxel for Block {
    /// The value by which adjacent faces merge: the block's kind.
    fn merge_value(&self) -> (t: BlockType)
        ensures
            t == self.block_type,
    {
        self.block_type
    }

    type MergeValue = BlockType;
}

/// The mesher's own visibility type, `block_mesh::VoxelVisibility`.
#[verifier::external_type_specification]
#[verifier::external_body]
pub struct ExVoxelVisibility(block_mesh::VoxelVisibility);

/// Which of its three variants a value of `block_mesh::VoxelVisibility` is,
/// given as the visibility of the same name.
pub uninterp spec fn mesher_variant(v: block_mesh::VoxelVisibility) -> Visibility;

/// Visibility and collidability are separate predicates that agree today:
/// a kind is drawn exactly when it stops a moving body.
pub proof fn lemma_visible_iff_collidable(t: BlockType)
    ensures
        t.is_visible() == t.spec_collidable(),
{
}

} // verus!
