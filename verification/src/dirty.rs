//! Edit events and the dirty tracker: which chunks need a new mesh after a
//! batch of edits.

use crate::block::Block;
use crate::coords::neighbor;
use crate::coords::owning_chunk;
use crate::coords::spec_neighbor;
use crate::coords::IVec3;
use crate::store::local_index;
use crate::store::LoadedChunks;
use vstd::prelude::*;

verus! {

/// The region an edit replaces.
#[derive(Clone, Copy, Debug, PartialEq, Eq, Structural)]
pub enum SetBlockShape {
    /// The single block at a world coordinate.
    Block(IVec3),
    /// The whole chunk at a chunk coordinate.
    Chunk(IVec3),
    /// A range of blocks. Declared, and not supported by any operation.
    Range(IVec3),
}

/// An edit: a region and the block that replaces what is there.
#[derive(Clone, Copy, Debug, PartialEq, Eq, Structural)]
pub struct SetBlockEvent {
    pub shape: SetBlockShape,
    pub block: Block,
}

/// What the dirty tracker made of a batch of edits.
pub struct DirtyBatch {
    /// The chunks to mesh again, each once, in the order in which the edits marked them.
    pub chunks: Vec<IVec3>,
    /// How many edits of the batch had a shape that is not supported and were skipped.
    pub unsupported: usize,
}

/// `acc` followed by `v`, unless `acc` holds `v` already.
pub open spec fn push_unique(acc: Seq<IVec3>, v: IVec3) -> Seq<IVec3> {
    if acc.contains(v) {
        acc
    } else {
        acc.push(v)
    }
}

/// `acc` followed by the neighbour of `c` on side `side`, where that
/// neighbour has a representable coordinate.
pub open spec fn push_side(acc: Seq<IVec3>, c: IVec3, side: int) -> Seq<IVec3> {
    match spec_neighbor(c, side) {
        Some(n) => acc.push(n),
        None => acc,
    }
}

/// What a bulk fill of chunk `c` marks: the chunk, then its six face neighbours.
pub open spec fn chunk_edit_marks(c: IVec3) -> Seq<IVec3> {
    push_side(
        push_side(push_side(push_side(push_side(push_side(seq![c], c, 0), c, 1), c, 2), c, 3), c, 4),
        c,
        5,
    )
}

/// `acc` followed by the neighbour that an edit at local index `local` along
/// axis `axis` touches: the one below when the index is 0, the one above when
/// it is 15, none otherwise.
pub open spec fn push_touched(acc: Seq<IVec3>, c: IVec3, axis: int, local: usize) -> Seq<IVec3> {
    if local == 0 {
        push_side(acc, c, 2 * axis)
    } else if local == 15 {
        push_side(acc, c, 2 * axis + 1)
    } else {
        acc
    }
}

/// What an edit of the single block at `world` marks: the chunk that owns it,
/// then, axis by axis, the one neighbour whose boundary the block touches.
pub open spec fn block_edit_marks(world: IVec3) -> Seq<IVec3> {
    let c = owning_chunk(world);
    let local = local_index(world);
    push_touched(push_touched(push_touched(seq![c], c, 0, local@[0]), c, 1, local@[1]), c, 2, local@[2])
}

/// Whether the dirty tracker handles edits of this shape.
pub open spec fn shape_supported(shape: SetBlockShape) -> bool {
    !(shape is Range)
}

/// The chunks that one edit marks, in order. An unsupported shape marks none.
pub open spec fn event_marks(ev: SetBlockEvent) -> Seq<IVec3> {
    match ev.shape {
        SetBlockShape::Block(world) => block_edit_marks(world),
        SetBlockShape::Chunk(c) => chunk_edit_marks(c),
        SetBlockShape::Range(_) => Seq::empty(),
    }
}

/// `acc` with each element of `marks` added in turn, unless it is there already.
pub open spec fn add_all(acc: Seq<IVec3>, marks: Seq<IVec3>) -> Seq<IVec3>
    decreases marks.len(),
{
    if marks.len() == 0 {
        acc
    } else {
        push_unique(add_all(acc, marks.drop_last()), marks.last())
    }
}

/// The dirty chunks of a batch: every chunk that some edit marks, once, in
/// the order of first marking.
pub open spec fn dirty_of(events: Seq<SetBlockEvent>) -> Seq<IVec3>
    decreases events.len(),
{
    if events.len() == 0 {
        Seq::empty()
    } else {
        add_all(dirty_of(events.drop_last()), event_marks(events.last()))
    }
}

/// The number of edits of a batch whose shape is not supported.
pub open spec fn unsupported_of(events: Seq<SetBlockEvent>) -> nat
    decreases events.len(),
{
    if events.len() == 0 {
        0
    } else {
        unsupported_of(events.drop_last()) + if shape_supported(events.last().shape) {
            0nat
        } else {
            1nat
        }
    }
}

/// Adding a chunk to a list without duplicates, unless it is there, gives
/// a list without duplicates that holds what the list held and the chunk.
pub proof fn lemma_push_unique(held: Seq<IVec3>, p: IVec3)
    requires
        held.no_duplicates(),
    ensures
        push_unique(held, p).no_duplicates(),
        forall|b: IVec3| push_unique(held, p).contains(b) <==> held.contains(b) || b == p,
{
    let out = push_unique(held, p);
    if !held.contains(p) {
        assert forall|i: int, j: int|
            0 <= i < out.len() && 0 <= j < out.len() && i != j implies out[i] != out[j] by {
            if i == held.len() {
                assert(held.contains(out[j]));
            } else if j == held.len() {
                assert(held.contains(out[i]));
            }
        }
        assert forall|b: IVec3| out.contains(b) <==> held.contains(b) || b == p by {
            if out.contains(b) {
                let i = choose|i: int| 0 <= i < out.len() && out[i] == b;
                if i < held.len() {
                    assert(held[i] == b);
                }
            }
            if held.contains(b) {
                let i = choose|i: int| 0 <= i < held.len() && held[i] == b;
                assert(out[i] == b);
            }
            if b == p {
                assert(out[held.len() as int] == b);
            }
        }
    }
}

/// Adding marks keeps a list free of duplicates, keeps what it held, and adds
/// exactly the marks.
pub proof fn lemma_add_all(acc: Seq<IVec3>, marks: Seq<IVec3>)
    requires
        acc.no_duplicates(),
    ensures
        add_all(acc, marks).no_duplicates(),
        acc.is_prefix_of(add_all(acc, marks)),
        forall|c: IVec3|
            add_all(acc, marks).contains(c) <==> acc.contains(c) || marks.contains(c),
    decreases marks.len(),
{
    if marks.len() > 0 {
        let init = marks.drop_last();
        let last = marks.last();
        lemma_add_all(acc, init);
        lemma_push_unique(add_all(acc, init), last);
        assert(marks =~= init.push(last));
        assert forall|c: IVec3| marks.contains(c) <==> init.contains(c) || c == last by {
            if marks.contains(c) {
                let j = choose|j: int| 0 <= j < marks.len() && marks[j] == c;
                if j < init.len() {
                    assert(init[j] == c);
                }
            }
            if init.contains(c) {
                let j = choose|j: int| 0 <= j < init.len() && init[j] == c;
                assert(marks[j] == c);
            }
            if c == last {
                assert(marks[marks.len() - 1] == c);
            }
        }
    }
}

/// A chunk is scheduled at most once, however many edits of the batch mark it.
pub proof fn lemma_dirty_no_duplicates(events: Seq<SetBlockEvent>)
    ensures
        dirty_of(events).no_duplicates(),
    decreases events.len(),
{
    if events.len() > 0 {
        lemma_dirty_no_duplicates(events.drop_last());
        lemma_add_all(dirty_of(events.drop_last()), event_marks(events.last()));
    }
}

/// A chunk is scheduled exactly when some edit of the batch marks it.
pub proof fn lemma_dirty_contains(events: Seq<SetBlockEvent>, c: IVec3)
    ensures
        dirty_of(events).contains(c) <==> exists|i: int|
            0 <= i < events.len() && (#[trigger] event_marks(events[i])).contains(c),
    decreases events.len(),
{
    if events.len() > 0 {
        let init = events.drop_last();
        lemma_dirty_contains(init, c);
        lemma_dirty_no_duplicates(init);
        lemma_add_all(dirty_of(init), event_marks(events.last()));
        if dirty_of(events).contains(c) {
            if dirty_of(init).contains(c) {
                let i = choose|i: int|
                    0 <= i < init.len() && (#[trigger] event_marks(init[i])).contains(c);
                assert(event_marks(events[i]).contains(c));
            } else {
                assert(event_marks(events[events.len() - 1]).contains(c));
            }
        }
        if exists|i: int| 0 <= i < events.len() && (#[trigger] event_marks(events[i])).contains(c) {
            let i = choose|i: int|
                0 <= i < events.len() && (#[trigger] event_marks(events[i])).contains(c);
            if i < init.len() {
                assert(event_marks(init[i]).contains(c));
            }
        }
    } else {
        assert(!dirty_of(events).contains(c));
    }
}

/// An empty batch schedules nothing.
pub proof fn lemma_dirty_empty()
    ensures
        dirty_of(Seq::<SetBlockEvent>::empty()) == Seq::<IVec3>::empty(),
{
}

/// A bulk fill of a chunk whose six neighbours have representable
/// coordinates schedules that chunk and the six neighbours, seven chunks in
/// all, whatever block it fills with.
pub proof fn lemma_chunk_edit_dirty(c: IVec3, block: Block)
    requires
        i32::MIN < c.x < i32::MAX,
        i32::MIN < c.y < i32::MAX,
        i32::MIN < c.z < i32::MAX,
    ensures
        dirty_of(seq![SetBlockEvent { shape: SetBlockShape::Chunk(c), block }]) == seq![
            c,
            IVec3 { x: (c.x - 1) as i32, y: c.y, z: c.z },
            IVec3 { x: (c.x + 1) as i32, y: c.y, z: c.z },
            IVec3 { x: c.x, y: (c.y - 1) as i32, z: c.z },
            IVec3 { x: c.x, y: (c.y + 1) as i32, z: c.z },
            IVec3 { x: c.x, y: c.y, z: (c.z - 1) as i32 },
            IVec3 { x: c.x, y: c.y, z: (c.z + 1) as i32 },
        ],
{
    let ev = SetBlockEvent { shape: SetBlockShape::Chunk(c), block };
    let events = seq![ev];
    let marks = chunk_edit_marks(c);
    let expected = seq![
        c,
        IVec3 { x: (c.x - 1) as i32, y: c.y, z: c.z },
        IVec3 { x: (c.x + 1) as i32, y: c.y, z: c.z },
        IVec3 { x: c.x, y: (c.y - 1) as i32, z: c.z },
        IVec3 { x: c.x, y: (c.y + 1) as i32, z: c.z },
        IVec3 { x: c.x, y: c.y, z: (c.z - 1) as i32 },
        IVec3 { x: c.x, y: c.y, z: (c.z + 1) as i32 },
    ];
    assert(marks =~= expected);
    assert(events.drop_last() =~= Seq::<SetBlockEvent>::empty());
    assert(events.last() == ev);
    assert(dirty_of(events.drop_last()) == Seq::<IVec3>::empty());
    assert(dirty_of(events) == add_all(Seq::empty(), marks));
    lemma_add_all_distinct(marks);
}

/// Adding a list without duplicates to the empty list gives that list.
pub proof fn lemma_add_all_distinct(marks: Seq<IVec3>)
    requires
        marks.no_duplicates(),
    ensures
        add_all(Seq::empty(), marks) == marks,
    decreases marks.len(),
{
    if marks.len() > 0 {
        let init = marks.drop_last();
        lemma_add_all_distinct(init);
        assert(!init.contains(marks.last()));
        assert(marks =~= init.push(marks.last()));
    } else {
        assert(marks =~= Seq::<IVec3>::empty());
    }
}

/// An edit of one block on the upper boundary of the first axis, and inside
/// the chunk along the other two, schedules the chunk that owns the block and
/// the neighbour above it along the first axis, and no other chunk.
pub proof fn lemma_block_edit_upper_x(world: IVec3, block: Block)
    requires
        crate::coords::local_coord(world.x as int) == 15,
        0 < crate::coords::local_coord(world.y as int) < 15,
        0 < crate::coords::local_coord(world.z as int) < 15,
    ensures
        dirty_of(seq![SetBlockEvent { shape: SetBlockShape::Block(world), block }]) == seq![
            owning_chunk(world),
            IVec3 {
                x: (owning_chunk(world).x + 1) as i32,
                y: owning_chunk(world).y,
                z: owning_chunk(world).z,
            },
        ],
{
    let ev = SetBlockEvent { shape: SetBlockShape::Block(world), block };
    let events = seq![ev];
    let c = owning_chunk(world);
    let marks = block_edit_marks(world);
    let expected = seq![c, IVec3 { x: (c.x + 1) as i32, y: c.y, z: c.z }];
    assert(marks =~= expected);
    assert(events.drop_last() =~= Seq::<SetBlockEvent>::empty());
    assert(events.last() == ev);
    assert(dirty_of(events.drop_last()) == Seq::<IVec3>::empty());
    assert(dirty_of(events) == add_all(Seq::empty(), marks));
    lemma_add_all_distinct(marks);
}

/// Appends `val` to `vec` unless `vec` holds it already.
pub fn add_no_dupe(vec: &mut Vec<IVec3>, val: IVec3)
    ensures
        final(vec)@ == push_unique(old(vec)@, val),
{
    let mut i: usize = 0;
    while i < vec.len()
        invariant
            i <= vec.len(),
            vec@ == old(vec)@,
            forall|j: int| 0 <= j < i ==> vec@[j] != val,
        decreases vec.len() - i,
    {
        if vec[i] == val {
            assert(vec@.contains(val));
            return ;
        }
        i += 1;
    }
    assert(!vec@.contains(val));
    vec.push(val);
}

/// Appends the neighbour of `c` on side `side` to `vec` unless it is there
/// already or its coordinate is not representable.
fn add_side(vec: &mut Vec<IVec3>, c: IVec3, side: usize)
    requires
        side < 6,
    ensures
        final(vec)@ == match spec_neighbor(c, side as int) {
            Some(n) => push_unique(old(vec)@, n),
            None => old(vec)@,
        },
{
    match neighbor(c, side) {
        Some(n) => add_no_dupe(vec, n),
        None => {},
    }
}

/// Adding one more mark adds it last.
proof fn lemma_add_all_push(acc: Seq<IVec3>, marks: Seq<IVec3>, v: IVec3)
    ensures
        add_all(acc, marks.push(v)) == push_unique(add_all(acc, marks), v),
{
    assert(marks.push(v).drop_last() =~= marks);
}

/// Adding the marks up to and including one side adds that side's neighbour last.
proof fn lemma_add_all_side(acc: Seq<IVec3>, marks: Seq<IVec3>, c: IVec3, side: int)
    ensures
        add_all(acc, push_side(marks, c, side)) == match spec_neighbor(c, side) {
            Some(n) => push_unique(add_all(acc, marks), n),
            None => add_all(acc, marks),
        },
{
    match spec_neighbor(c, side) {
        Some(n) => lemma_add_all_push(acc, marks, n),
        None => {},
    }
}

/// Adds what a bulk fill of chunk `c` marks.
fn mark_chunk(vec: &mut Vec<IVec3>, c: IVec3)
    ensures
        final(vec)@ == add_all(old(vec)@, chunk_edit_marks(c)),
{
    let ghost acc = vec@;
    let ghost m0 = seq![c];
    add_no_dupe(vec, c);
    proof {
        assert(m0 =~= Seq::<IVec3>::empty().push(c));
        lemma_add_all_push(acc, Seq::empty(), c);
    }
    add_side(vec, c, 0);
    let ghost m1 = push_side(m0, c, 0);
    proof {
        lemma_add_all_side(acc, m0, c, 0);
    }
    add_side(vec, c, 1);
    let ghost m2 = push_side(m1, c, 1);
    proof {
        lemma_add_all_side(acc, m1, c, 1);
    }
    add_side(vec, c, 2);
    let ghost m3 = push_side(m2, c, 2);
    proof {
        lemma_add_all_side(acc, m2, c, 2);
    }
    add_side(vec, c, 3);
    let ghost m4 = push_side(m3, c, 3);
    proof {
        lemma_add_all_side(acc, m3, c, 3);
    }
    add_side(vec, c, 4);
    let ghost m5 = push_side(m4, c, 4);
    proof {
        lemma_add_all_side(acc, m4, c, 4);
    }
    add_side(vec, c, 5);
    proof {
        lemma_add_all_side(acc, m5, c, 5);
    }
}

/// Adds the neighbour that an edit at local index `local` along `axis` touches.
fn mark_touched(vec: &mut Vec<IVec3>, c: IVec3, axis: usize, local: usize, Ghost(acc): Ghost<
    Seq<IVec3>,
>, Ghost(marks): Ghost<Seq<IVec3>>)
    requires
        axis < 3,
        old(vec)@ == add_all(acc, marks),
    ensures
        final(vec)@ == add_all(acc, push_touched(marks, c, axis as int, local)),
{
    if local == 0 {
        add_side(vec, c, 2 * axis);
        proof {
            lemma_add_all_side(acc, marks, c, 2 * axis);
        }
    } else if local == 15 {
        add_side(vec, c, 2 * axis + 1);
        proof {
            lemma_add_all_side(acc, marks, c, 2 * axis + 1);
        }
    }
}

/// Adds what an edit of the single block at `world` marks.
fn mark_block(vec: &mut Vec<IVec3>, world: IVec3)
    ensures
        final(vec)@ == add_all(old(vec)@, block_edit_marks(world)),
{
    let ghost acc = vec@;
    let (c, local) = LoadedChunks::index_block(world);
    let ghost m0 = seq![c];
    add_no_dupe(vec, c);
    proof {
        assert(m0 =~= Seq::<IVec3>::empty().push(c));
        lemma_add_all_push(acc, Seq::empty(), c);
    }
    mark_touched(vec, c, 0, local[0], Ghost(acc), Ghost(m0));
    let ghost m1 = push_touched(m0, c, 0, local@[0]);
    mark_touched(vec, c, 1, local[1], Ghost(acc), Ghost(m1));
    let ghost m2 = push_touched(m1, c, 1, local@[1]);
    mark_touched(vec, c, 2, local[2], Ghost(acc), Ghost(m2));
}

/// Adds what the edit `ev` marks to `vec`; the result says whether the
/// edit's shape is supported. An unsupported edit leaves `vec` as it was.
pub fn mark_event(vec: &mut Vec<IVec3>, ev: &SetBlockEvent) -> (supported: bool)
    ensures
        final(vec)@ == add_all(old(vec)@, event_marks(*ev)),
        supported == shape_supported(ev.shape),
{
    match ev.shape {
        SetBlockShape::Block(world) => {
            mark_block(vec, world);
            true
        },
        SetBlockShape::Chunk(c) => {
            mark_chunk(vec, c);
            true
        },
        SetBlockShape::Range(_) => false,
    }
}

/// The dirty tracker: the chunks that a batch of edits makes stale, each
/// once, in the order of first marking, and the number of edits skipped
/// because their shape is not supported. An empty batch gives an empty list.
pub fn dirty_chunks(events: &Vec<SetBlockEvent>) -> (batch: DirtyBatch)
    ensures
        batch.chunks@ == dirty_of(events@),
        batch.unsupported == unsupported_of(events@),
        batch.chunks@.no_duplicates(),
{
    let mut chunks: Vec<IVec3> = Vec::new();
    let mut unsupported: usize = 0;
    let mut i: usize = 0;
    while i < events.len()
        invariant
            i <= events.len(),
            chunks@ == dirty_of(events@.take(i as int)),
            unsupported == unsupported_of(events@.take(i as int)),
            unsupported <= i,
        decreases events.len() - i,
    {
        proof {
            assert(events@.take(i + 1).drop_last() =~= events@.take(i as int));
            assert(events@.take(i + 1).last() == events@[i as int]);
        }
        let supported = mark_event(&mut chunks, &events[i]);
        if !supported {
            unsupported += 1;
        }
        i += 1;
    }
    proof {
        assert(events@.take(i as int) =~= events@);
        lemma_dirty_no_duplicates(events@);
    }
    DirtyBatch { chunks, unsupported }
}

} // verus!
