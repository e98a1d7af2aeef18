//! Integer coordinates and the mapping between world blocks and chunk-local cells.
//!
//! A world block coordinate splits, axis by axis, into the coordinate of the
//! chunk that owns it and an index into that chunk. The split uses floor
//! division, so it stays a bijection on negative coordinates.

use vstd::prelude::*;

verus! {

/// Edge length of a chunk along every axis, in blocks.
pub const CHUNK_SIZE: i32 = 16;

/// Number of blocks in one chunk.
pub const CHUNK_VOLUME: usize = 4096;

/// A point of the integer lattice: a world block coordinate or a chunk coordinate.
#[derive(Clone, Copy, Debug, PartialEq, Eq, Structural, Hash)]
pub struct IVec3 {
    pub x: i32,
    pub y: i32,
    pub z: i32,
}

/// Chunk coordinate of a world coordinate along one axis: the floor of `w / 16`.
pub open spec fn chunk_coord(w: int) -> int {
    w / 16
}

/// Index inside its chunk of a world coordinate along one axis: `w` modulo 16, in `0..16`.
pub open spec fn local_coord(w: int) -> int {
    w % 16
}

/// World coordinate along one axis of the cell `local` of chunk `chunk`.
pub open spec fn world_coord(chunk: int, local: int) -> int {
    chunk * 16 + local
}

/// Whether `local` is a valid cell index of a chunk.
pub open spec fn local_in_chunk(local: [usize; 3]) -> bool {
    local@[0] < 16 && local@[1] < 16 && local@[2] < 16
}

/// The chunk that owns the world block `world`.
pub open spec fn owning_chunk(world: IVec3) -> IVec3 {
    IVec3 {
        x: chunk_coord(world.x as int) as i32,
        y: chunk_coord(world.y as int) as i32,
        z: chunk_coord(world.z as int) as i32,
    }
}

/// The world block at cell `local` of chunk `chunk`, as mathematical integers.
pub open spec fn compose(chunk: IVec3, local: [usize; 3]) -> (int, int, int) {
    (
        world_coord(chunk.x as int, local@[0] as int),
        world_coord(chunk.y as int, local@[1] as int),
        world_coord(chunk.z as int, local@[2] as int),
    )
}

impl IVec3 {
    /// The point `(x, y, z)`.
    pub fn new(x: i32, y: i32, z: i32) -> (p: IVec3)
        ensures
            p == (IVec3 { x, y, z }),
    {
        IVec3 { x, y, z }
    }

    /// The point as a triple of mathematical integers.
    pub open spec fn triple(self) -> (int, int, int) {
        (self.x as int, self.y as int, self.z as int)
    }

    /// `self` moved by `delta`, when every coordinate of the sum is representable.
    pub open spec fn spec_offset(self, delta: IVec3) -> Option<IVec3> {
        if i32::MIN <= self.x + delta.x <= i32::MAX && i32::MIN <= self.y + delta.y <= i32::MAX
            && i32::MIN <= self.z + delta.z <= i32::MAX {
            Some(
                IVec3 {
                    x: (self.x + delta.x) as i32,
                    y: (self.y + delta.y) as i32,
                    z: (self.z + delta.z) as i32,
                },
            )
        } else {
            None
        }
    }

    /// Adds `delta` coordinate by coordinate; `None` when a sum leaves the range of `i32`.
    pub fn checked_offset(self, delta: IVec3) -> (r: Option<IVec3>)
        ensures
            r == self.spec_offset(delta),
    {
        match (self.x.checked_add(delta.x), self.y.checked_add(delta.y), self.z.checked_add(delta.z)) {
            (Some(x), Some(y), Some(z)) => Some(IVec3 { x, y, z }),
            _ => None,
        }
    }
}

/// The unit step towards each of the six face neighbours, in the order
/// -x, +x, -y, +y, -z, +z.
pub open spec fn block_sides() -> Seq<IVec3> {
    seq![
        IVec3 { x: -1i32, y: 0, z: 0 },
        IVec3 { x: 1, y: 0, z: 0 },
        IVec3 { x: 0, y: -1i32, z: 0 },
        IVec3 { x: 0, y: 1, z: 0 },
        IVec3 { x: 0, y: 0, z: -1i32 },
        IVec3 { x: 0, y: 0, z: 1 },
    ]
}

/// The face neighbour of `c` on side `side`, when its coordinate is representable.
pub open spec fn spec_neighbor(c: IVec3, side: int) -> Option<IVec3> {
    c.spec_offset(block_sides()[side])
}

/// The unit step towards the face neighbour on side `side`.
pub fn side_offset(side: usize) -> (d: IVec3)
    requires
        side < 6,
    ensures
        d == block_sides()[side as int],
{
    if side == 0 {
        IVec3 { x: -1, y: 0, z: 0 }
    } else if side == 1 {
        IVec3 { x: 1, y: 0, z: 0 }
    } else if side == 2 {
        IVec3 { x: 0, y: -1, z: 0 }
    } else if side == 3 {
        IVec3 { x: 0, y: 1, z: 0 }
    } else if side == 4 {
        IVec3 { x: 0, y: 0, z: -1 }
    } else {
        IVec3 { x: 0, y: 0, z: 1 }
    }
}

/// The face neighbour of `c` on side `side`; `None` when its coordinate
/// would leave the range of `i32`.
pub fn neighbor(c: IVec3, side: usize) -> (n: Option<IVec3>)
    requires
        side < 6,
    ensures
        n == spec_neighbor(c, side as int),
{
    c.checked_offset(side_offset(side))
}

/// Splits one axis of a world coordinate into chunk coordinate and local index.
pub fn index_axis(w: i32) -> (r: (i32, usize))
    ensures
        r.0 == chunk_coord(w as int),
        r.1 == local_coord(w as int),
        r.1 < 16,
        world_coord(r.0 as int, r.1 as int) == w,
{
    if w >= 0 {
        let q: i32 = w / 16;
        let r: i32 = w % 16;
        (q, r as usize)
    } else {
        // Mirror the negative half-line onto the non-negative one, where
        // truncating and floor division agree.
        let n: i32 = -(w + 1);
        let q: i32 = n / 16;
        let r: i32 = n % 16;
        (-q - 1, (15 - r) as usize)
    }
}

/// The floor split is the only one: a chunk coordinate and a local index in
/// `0..16` that recompose to `w` are the chunk coordinate and local index of `w`.
pub proof fn lemma_split_unique(w: int, chunk: int, local: int)
    requires
        0 <= local < 16,
        world_coord(chunk, local) == w,
    ensures
        chunk == chunk_coord(w),
        local == local_coord(w),
{
}

/// Splitting and recomposing are inverse on every axis and for every integer,
/// negative ones included: the recomposed coordinate is the one that was split, and
/// the local index lies in `0..16`.
pub proof fn lemma_split_inverse(w: int)
    ensures
        0 <= local_coord(w) < 16,
        world_coord(chunk_coord(w), local_coord(w)) == w,
{
}

/// Recomposing and splitting are inverse too: the cell `local` of chunk `chunk`
/// splits back into `chunk` and `local`.
pub proof fn lemma_compose_inverse(chunk: int, local: int)
    requires
        0 <= local < 16,
    ensures
        chunk_coord(world_coord(chunk, local)) == chunk,
        local_coord(world_coord(chunk, local)) == local,
{
}

} // verus!
