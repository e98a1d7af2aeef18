//! Why the dirty tracker marks enough: a chunk that an edit does not mark
//! keeps its padded volume, and with it its mesh.

use bevy::ecs::entity::Entity;
use crate::block::Block;
use crate::chunk::cell_offset;
use crate::coords::lemma_split_inverse;
use crate::coords::owning_chunk;
use crate::coords::spec_neighbor;
use crate::coords::IVec3;
use crate::dirty::block_edit_marks;
use crate::dirty::chunk_edit_marks;
use crate::dirty::push_side;
use crate::dirty::push_touched;
use crate::samples::chunk_offset;
use crate::samples::in_slab;
use crate::samples::padded_cell;
use crate::samples::padded_sample;
use crate::samples::padded_samples;
use crate::samples::partial_samples;
use crate::samples::slab_sample;
use crate::samples::spec_slab_source;
use crate::samples::spec_slab_target;
use crate::store::chunk_filled;
use crate::store::local_index;
use crate::store::LoadedChunks;
use vstd::prelude::*;

verus! {

/// Whether `after` is `before` with the block at world coordinate `world`
/// replaced by `block`, in a chunk that is loaded.
pub open spec fn block_replaced(
    before: LoadedChunks,
    after: LoadedChunks,
    world: IVec3,
    block: Block,
) -> bool {
    let c = owning_chunk(world);
    &&& before.loaded(c)
    &&& before.same_but(after, c)
    &&& after@[c].cells() == before@[c].cells().update(cell_offset(local_index(world)), block)
    &&& after@[c].entity == before@[c].entity
}

/// What was marked stays marked when the neighbour on one side is added.
proof fn lemma_push_side_keeps(acc: Seq<IVec3>, c: IVec3, side: int, v: IVec3)
    requires
        acc.contains(v) || spec_neighbor(c, side) == Some(v),
    ensures
        push_side(acc, c, side).contains(v),
{
    let out = push_side(acc, c, side);
    if acc.contains(v) {
        let i = choose|i: int| 0 <= i < acc.len() && acc[i] == v;
        assert(out[i] == v);
    } else {
        assert(out[acc.len() as int] == v);
    }
}

/// What was marked stays marked when the neighbour touched along one axis is added.
proof fn lemma_push_touched_keeps(acc: Seq<IVec3>, c: IVec3, axis: int, local: usize, v: IVec3)
    requires
        acc.contains(v) || (local == 0 && spec_neighbor(c, 2 * axis) == Some(v)) || (local == 15
            && spec_neighbor(c, 2 * axis + 1) == Some(v)),
    ensures
        push_touched(acc, c, axis, local).contains(v),
{
    if local == 0 {
        lemma_push_side_keeps(acc, c, 2 * axis, v);
    } else if local == 15 {
        lemma_push_side_keeps(acc, c, 2 * axis + 1, v);
    }
}

/// An edit of one block marks the chunk that owns the block and, along
/// every axis, the neighbour whose boundary the block touches.
pub proof fn lemma_block_edit_marks(world: IVec3, v: IVec3)
    requires
        ({
            let c = owning_chunk(world);
            let local = local_index(world);
            ||| v == c
            ||| exists|axis: int|
                0 <= axis < 3 && ((local@[axis] == 0 && #[trigger] spec_neighbor(c, 2 * axis)
                    == Some(v)) || (local@[axis] == 15 && spec_neighbor(c, 2 * axis + 1) == Some(
                    v,
                )))
        }),
    ensures
        block_edit_marks(world).contains(v),
{
    let c = owning_chunk(world);
    let local = local_index(world);
    let m0 = seq![c];
    let m1 = push_touched(m0, c, 0, local@[0]);
    let m2 = push_touched(m1, c, 1, local@[1]);
    if v == c {
        assert(m0[0] == v);
    }
    if m0.contains(v) || (local@[0] == 0 && spec_neighbor(c, 0) == Some(v)) || (local@[0] == 15
        && spec_neighbor(c, 1) == Some(v)) {
        lemma_push_touched_keeps(m0, c, 0, local@[0], v);
    }
    if m1.contains(v) || (local@[1] == 0 && spec_neighbor(c, 2) == Some(v)) || (local@[1] == 15
        && spec_neighbor(c, 3) == Some(v)) {
        lemma_push_touched_keeps(m1, c, 1, local@[1], v);
    }
    lemma_push_touched_keeps(m2, c, 2, local@[2], v);
}

/// A bulk fill marks the chunk and each of its six face neighbours.
pub proof fn lemma_chunk_edit_marks(c: IVec3, v: IVec3)
    requires
        v == c || exists|side: int| 0 <= side < 6 && #[trigger] spec_neighbor(c, side) == Some(v),
    ensures
        chunk_edit_marks(c).contains(v),
{
    let m0 = seq![c];
    let m1 = push_side(m0, c, 0);
    let m2 = push_side(m1, c, 1);
    let m3 = push_side(m2, c, 2);
    let m4 = push_side(m3, c, 3);
    let m5 = push_side(m4, c, 4);
    if v == c {
        assert(m0[0] == v);
    }
    if m0.contains(v) || spec_neighbor(c, 0) == Some(v) {
        lemma_push_side_keeps(m0, c, 0, v);
    }
    if m1.contains(v) || spec_neighbor(c, 1) == Some(v) {
        lemma_push_side_keeps(m1, c, 1, v);
    }
    if m2.contains(v) || spec_neighbor(c, 2) == Some(v) {
        lemma_push_side_keeps(m2, c, 2, v);
    }
    if m3.contains(v) || spec_neighbor(c, 3) == Some(v) {
        lemma_push_side_keeps(m3, c, 3, v);
    }
    if m4.contains(v) || spec_neighbor(c, 4) == Some(v) {
        lemma_push_side_keeps(m4, c, 4, v);
    }
    lemma_push_side_keeps(m5, c, 5, v);
}

/// The layer of a chunk that its neighbour on side `side` shows to the
/// chunk: the last along the side's axis for a neighbour below, the first
/// for a neighbour above.
pub open spec fn touching_layer(side: int) -> usize {
    if side % 2 == 0 {
        15
    } else {
        0
    }
}

/// Where `c` is the neighbour of an unmarked chunk `d` on side `side`, the
/// edited block does not lie in the layer that `c` shows to `d`.
proof fn lemma_edit_misses_layer(world: IVec3, d: IVec3, side: int)
    requires
        0 <= side < 6,
        spec_neighbor(d, side) == Some(owning_chunk(world)),
        !block_edit_marks(world).contains(d),
    ensures
        local_index(world)@[side / 2] != touching_layer(side),
{
    let c = owning_chunk(world);
    let local = local_index(world);
    let axis = side / 2;
    if local@[axis] == touching_layer(side) {
        if side % 2 == 0 {
            assert(spec_neighbor(c, 2 * axis + 1) == Some(d));
        } else {
            assert(spec_neighbor(c, 2 * axis) == Some(d));
        }
        lemma_block_edit_marks(world, d);
    }
}

/// Replacing one block leaves what an unmarked chunk takes from its
/// neighbour on side `side` as it was.
proof fn lemma_block_edit_keeps_slab(
    before: LoadedChunks,
    after: LoadedChunks,
    world: IVec3,
    block: Block,
    d: IVec3,
    side: int,
    p: (int, int, int),
)
    requires
        before.wf(),
        block_replaced(before, after, world, block),
        !block_edit_marks(world).contains(d),
        0 <= side < 6,
        in_slab(p, side),
    ensures
        slab_sample(after, d, side, p) == slab_sample(before, d, side, p),
{
    let c = owning_chunk(world);
    let local = local_index(world);
    match spec_neighbor(d, side) {
        Some(n) => {
            assert(after.loaded(n) == before.loaded(n));
            if before.loaded(n) {
                if n == c {
                    lemma_edit_misses_layer(world, d, side);
                    lemma_split_inverse(world.x as int);
                    lemma_split_inverse(world.y as int);
                    lemma_split_inverse(world.z as int);
                    before.lemma_chunks_wf(c);
                    let t = spec_slab_target(side);
                    let s = spec_slab_source(side);
                    let rx = p.0 - t@[0] + s@[0];
                    let ry = p.1 - t@[1] + s@[1];
                    let rz = p.2 - t@[2] + s@[2];
                    assert(0 <= rx < 16 && 0 <= ry < 16 && 0 <= rz < 16);
                    assert(local@[0] < 16 && local@[1] < 16 && local@[2] < 16);
                    if side / 2 == 0 {
                        assert(rx == touching_layer(side));
                        assert(rx != local@[0]);
                    } else if side / 2 == 1 {
                        assert(ry == touching_layer(side));
                        assert(ry != local@[1]);
                    } else {
                        assert(rz == touching_layer(side));
                        assert(rz != local@[2]);
                    }
                    assert(chunk_offset(rx, ry, rz) != cell_offset(local));
                    assert(0 <= chunk_offset(rx, ry, rz) < 4096);
                } else {
                    assert(after@[n] == before@[n]);
                }
            }
        },
        None => {},
    }
}

/// Replacing one block leaves the padded volume of every loaded chunk
/// that the edit does not mark as it was: such a chunk needs no new mesh.
pub proof fn lemma_block_edit_marks_enough(
    before: LoadedChunks,
    after: LoadedChunks,
    world: IVec3,
    block: Block,
    d: IVec3,
)
    requires
        before.wf(),
        block_replaced(before, after, world, block),
        before.loaded(d),
        !block_edit_marks(world).contains(d),
    ensures
        padded_samples(after, d) == padded_samples(before, d),
{
    if d == owning_chunk(world) {
        lemma_block_edit_marks(world, d);
    }
    assert(after@[d] == before@[d]);
    assert forall|i: int| 0 <= i < 5832 implies padded_sample(after, d, padded_cell(i))
        == padded_sample(before, d, padded_cell(i)) by {
        let p = padded_cell(i);
        if in_slab(p, 0) {
            lemma_block_edit_keeps_slab(before, after, world, block, d, 0, p);
        }
        if in_slab(p, 1) {
            lemma_block_edit_keeps_slab(before, after, world, block, d, 1, p);
        }
        if in_slab(p, 2) {
            lemma_block_edit_keeps_slab(before, after, world, block, d, 2, p);
        }
        if in_slab(p, 3) {
            lemma_block_edit_keeps_slab(before, after, world, block, d, 3, p);
        }
        if in_slab(p, 4) {
            lemma_block_edit_keeps_slab(before, after, world, block, d, 4, p);
        }
        if in_slab(p, 5) {
            lemma_block_edit_keeps_slab(before, after, world, block, d, 5, p);
        }
    }
    assert(partial_samples(after, d, 6) =~= partial_samples(before, d, 6));
}

/// Filling a chunk, or creating it, leaves the padded volume of every
/// loaded chunk that the edit does not mark as it was.
pub proof fn lemma_chunk_edit_marks_enough(
    before: LoadedChunks,
    after: LoadedChunks,
    c: IVec3,
    block: Block,
    entity: Entity,
    d: IVec3,
)
    requires
        before.wf(),
        chunk_filled(before, after, c, block, entity),
        before.loaded(d),
        !chunk_edit_marks(c).contains(d),
    ensures
        padded_samples(after, d) == padded_samples(before, d),
{
    if d == c {
        lemma_chunk_edit_marks(c, d);
    }
    assert forall|side: int| 0 <= side < 6 implies #[trigger] spec_neighbor(d, side) != Some(
        c,
    ) by {
        if spec_neighbor(d, side) == Some(c) {
            let opposite = if side % 2 == 0 {
                side + 1
            } else {
                side - 1
            };
            assert(spec_neighbor(c, opposite) == Some(d));
            lemma_chunk_edit_marks(c, d);
        }
    }
    assert forall|i: int| 0 <= i < 5832 implies padded_sample(after, d, padded_cell(i))
        == padded_sample(before, d, padded_cell(i)) by {
        let p = padded_cell(i);
        assert(after@[d] == before@[d]);
        assert forall|side: int| 0 <= side < 6 implies slab_sample(
            after,
            d,
            side,
            p,
        ) == slab_sample(before, d, side, p) by {
            match spec_neighbor(d, side) {
                Some(n) => {
                    assert(n != c);
                    assert(after.loaded(n) == before.loaded(n)) by {
                        assert(after@.dom().contains(n) == before@.dom().insert(c).contains(n));
                    }
                    if before.loaded(n) {
                        assert(after@[n] == before@[n]);
                    }
                },
                None => {},
            }
        }
    }
    assert(partial_samples(after, d, 6) =~= partial_samples(before, d, 6));
}

} // verus!
