//! The chunk store: every loaded chunk, found by its chunk coordinate.

use bevy::ecs::entity::Entity;
use crate::block::Block;
use crate::chunk::cell_offset;
use crate::chunk::Chunk;
use crate::coords::index_axis;
use crate::coords::local_coord;
use crate::coords::local_in_chunk;
use crate::coords::owning_chunk;
use crate::coords::IVec3;
use vstd::prelude::*;

verus! {

/// The index of the chunk store: the slot of each loaded chunk by its
/// chunk coordinate, held in a `bevy::utils::HashMap` keyed by
/// `bevy::math::IVec3`.
///
/// Proofs do not look inside the map: `index_slots` names what it holds,
/// and the three functions below, whose contracts are taken on trust, are
/// the only code that touches it.
#[verifier::external_body]
pub struct ChunkIndex {
    slots: bevy::utils::HashMap<bevy::math::IVec3, usize>,
}

/// The entries of an index: the slot filed under each coordinate.
pub uninterp spec fn index_slots(index: ChunkIndex) -> Map<(int, int, int), usize>;

/// An index without entries.
pub open spec fn no_slots() -> Map<(int, int, int), usize> {
    Map::empty()
}

/// Makes an empty map with `HashMap::default`.
#[verifier::external_body]
fn index_new() -> (index: ChunkIndex)
    ensures
        index_slots(index) == no_slots(),
{
    ChunkIndex { slots: bevy::utils::HashMap::default() }
}

/// Calls `HashMap::get` with the coordinate as key: the value filed under
/// that key, or `None` where the map has no such key.
#[verifier::external_body]
fn index_get(index: &ChunkIndex, c: IVec3) -> (slot: Option<usize>)
    ensures
        slot == (if index_slots(*index).contains_key(c.triple()) {
            Some(index_slots(*index)[c.triple()])
        } else {
            None
        }),
{
    index.slots.get(&bevy::math::IVec3::new(c.x, c.y, c.z)).copied()
}

/// Calls `HashMap::insert` with the coordinate as key: afterwards the map
/// holds `slot` under that key, replacing what was filed there, and every
/// other entry as before.
#[verifier::external_body]
fn index_insert(index: &mut ChunkIndex, c: IVec3, slot: usize)
    ensures
        index_slots(*final(index)) == index_slots(*old(index)).insert(c.triple(), slot),
{
    index.slots.insert(bevy::math::IVec3::new(c.x, c.y, c.z), slot);
}

/// Points with the same coordinates are the same point.
proof fn lemma_same_triple(a: IVec3, b: IVec3)
    requires
        a.triple() == b.triple(),
    ensures
        a == b,
{
}

/// The cell of its chunk that holds the world block `world`.
pub open spec fn local_index(world: IVec3) -> [usize; 3] {
    [
        local_coord(world.x as int) as usize,
        local_coord(world.y as int) as usize,
        local_coord(world.z as int) as usize,
    ]
}

/// Whether `after` is `before` with the chunk at `c` filled with `block`,
/// the chunk being drawn by `entity`, and every other chunk unchanged.
pub open spec fn chunk_filled(
    before: LoadedChunks,
    after: LoadedChunks,
    c: IVec3,
    block: Block,
    entity: Entity,
) -> bool {
    &&& after@.dom() == before@.dom().insert(c)
    &&& after@[c].is_uniform(block)
    &&& after@[c].entity == entity
    &&& forall|d: IVec3| d != c && before.loaded(d) ==> after@[d] == before@[d]
}

/// All loaded chunks. At most one chunk is loaded per chunk coordinate.
pub struct LoadedChunks {
    /// Slot of each loaded chunk, by the key of its coordinate.
    index: ChunkIndex,
    /// Coordinate of the chunk in each slot.
    coords: Vec<IVec3>,
    /// The chunks, slot by slot.
    chunks: Vec<Chunk>,
}

impl LoadedChunks {
    /// The slots and the index describe the same set of chunks, and every
    /// chunk is well formed.
    pub closed spec fn wf(self) -> bool {
        &&& self.coords.len() == self.chunks.len()
        &&& forall|i: int|
            0 <= i < self.coords.len() ==> index_slots(self.index).contains_key(
                (#[trigger] self.coords[i]).triple(),
            ) && index_slots(self.index)[self.coords[i].triple()] == i
        &&& forall|k: (int, int, int)| #[trigger]
            index_slots(self.index).contains_key(k) ==> index_slots(self.index)[k]
                < self.coords.len() && self.coords[index_slots(self.index)[k] as int].triple() == k
        &&& forall|i: int| 0 <= i < self.chunks.len() ==> (#[trigger] self.chunks[i]).wf()
    }

    /// The loaded chunks by chunk coordinate.
    pub closed spec fn view(self) -> Map<IVec3, Chunk> {
        Map::new(
            |c: IVec3| index_slots(self.index).contains_key(c.triple()),
            |c: IVec3| self.chunks[index_slots(self.index)[c.triple()] as int],
        )
    }

    /// Whether the chunk at `c` is loaded.
    pub open spec fn loaded(self, c: IVec3) -> bool {
        self@.contains_key(c)
    }

    /// The block at world coordinate `world`, if its chunk is loaded.
    pub open spec fn block_at(self, world: IVec3) -> Option<Block> {
        if self.loaded(owning_chunk(world)) {
            Some(self@[owning_chunk(world)].spec_block(local_index(world)))
        } else {
            None
        }
    }

    /// Whether a moving body is stopped at `world`: by a collidable block, or
    /// because the chunk there is not loaded.
    pub open spec fn solid_at(self, world: IVec3) -> bool {
        match self.block_at(world) {
            Some(b) => b.block_type.spec_collidable(),
            None => true,
        }
    }

    /// Every loaded chunk holds exactly 16×16×16 blocks.
    pub proof fn lemma_chunks_wf(self, c: IVec3)
        requires
            self.wf(),
            self.loaded(c),
        ensures
            self@[c].wf(),
    {
    }

    /// A store with no chunk loaded.
    pub fn new() -> (s: LoadedChunks)
        ensures
            s.wf(),
            s@ == Map::<IVec3, Chunk>::empty(),
    {
        let s = LoadedChunks { index: index_new(), coords: Vec::new(), chunks: Vec::new() };
        assert(s@ =~= Map::<IVec3, Chunk>::empty());
        s
    }

    /// The number of loaded chunks.
    pub fn len(&self) -> (n: usize)
        requires
            self.wf(),
        ensures
            n == self@.dom().len(),
            self@.dom().finite(),
    {
        proof {
            self.lemma_dom_is_coords();
        }
        self.chunks.len()
    }

    /// Splits a world block coordinate into the coordinate of its chunk and
    /// the cell inside that chunk. Total: every coordinate splits, and the
    /// split recomposes to the coordinate it came from.
    pub fn index_block(index: IVec3) -> (r: (IVec3, [usize; 3]))
        ensures
            r.0 == owning_chunk(index),
            r.1 == local_index(index),
            local_in_chunk(r.1),
            crate::coords::compose(r.0, r.1) == index.triple(),
    {
        let (cx, lx) = index_axis(index.x);
        let (cy, ly) = index_axis(index.y);
        let (cz, lz) = index_axis(index.z);
        let local: [usize; 3] = [lx, ly, lz];
        assert(local@ =~= local_index(index)@);
        assert(local == local_index(index));
        (IVec3 { x: cx, y: cy, z: cz }, local)
    }

    /// The slot of the chunk at `c`, if it is loaded.
    fn slot(&self, c: IVec3) -> (r: Option<usize>)
        requires
            self.wf(),
        ensures
            r.is_some() == self.loaded(c),
            r.is_some() ==> r.unwrap() < self.chunks.len() && self.coords[r.unwrap() as int] == c
                && self.chunks[r.unwrap() as int] == self@[c],
    {
        let found = index_get(&self.index, c);
        proof {
            if found.is_some() {
                lemma_same_triple(self.coords[found.unwrap() as int], c);
            }
        }
        found
    }

    /// Whether the chunk at `c` is loaded.
    pub fn is_loaded(&self, c: IVec3) -> (r: bool)
        requires
            self.wf(),
        ensures
            r == self.loaded(c),
    {
        self.slot(c).is_some()
    }

    /// The chunk at `c`, if it is loaded.
    pub fn get(&self, c: IVec3) -> (r: Option<&Chunk>)
        requires
            self.wf(),
        ensures
            match r {
                Some(chunk) => self.loaded(c) && *chunk == self@[c] && chunk.wf(),
                None => !self.loaded(c),
            },
    {
        match self.slot(c) {
            Some(slot) => Some(&self.chunks[slot]),
            None => None,
        }
    }

    /// The entity that draws the chunk at `c`, if it is loaded.
    pub fn entity_of(&self, c: IVec3) -> (r: Option<Entity>)
        requires
            self.wf(),
        ensures
            r == (if self.loaded(c) {
                Some(self@[c].entity)
            } else {
                None
            }),
    {
        match self.slot(c) {
            Some(slot) => Some(self.chunks[slot].entity),
            None => None,
        }
    }

    /// The block at world coordinate `index`; `None` when its chunk is not
    /// loaded. Never fails.
    pub fn get_block(&self, index: IVec3) -> (r: Option<&Block>)
        requires
            self.wf(),
        ensures
            match r {
                Some(b) => self.block_at(index) == Some(*b),
                None => self.block_at(index).is_none(),
            },
    {
        let (chunk_index, block_index) = LoadedChunks::index_block(index);
        match self.slot(chunk_index) {
            Some(slot) => Some(self.chunks[slot].block(block_index)),
            None => None,
        }
    }

    /// Mutable access to the block at world coordinate `index`; `None`, and
    /// nothing changes, when its chunk is not loaded. What the caller writes
    /// through the reference replaces that one block: every other block, every
    /// entity and the set of loaded chunks stay as they were (`same_but`).
    pub fn get_block_mut(&mut self, index: IVec3) -> (r: Option<&mut Block>)
        requires
            old(self).wf(),
        ensures
            r.is_some() == old(self).loaded(owning_chunk(index)),
            r.is_none() ==> *final(self) == *old(self),
            r.is_some() ==> Some(*r.unwrap()) == old(self).block_at(index),
            r.is_some() ==> final(self).wf(),
            r.is_some() ==> old(self).same_but(*final(self), owning_chunk(index)),
            r.is_some() ==> final(self)@[owning_chunk(index)].cells() == old(self)@[owning_chunk(
                index,
            )].cells().update(cell_offset(local_index(index)), *final(r.unwrap())),
            r.is_some() ==> final(self)@[owning_chunk(index)].entity == old(self)@[owning_chunk(
                index,
            )].entity,
    {
        let (chunk_index, block_index) = LoadedChunks::index_block(index);
        match self.slot(chunk_index) {
            Some(slot) => {
                proof {
                    let before = *self;
                    assert forall|after: LoadedChunks|
                        before.slot_replaced(after, slot as int) implies #[trigger] after.wf()
                        && before.same_but(after, chunk_index) && after@[chunk_index]
                        == after.chunks[slot as int] by {
                        before.lemma_slot_replaced(after, slot as int, chunk_index);
                    }
                }
                let chunk = &mut self.chunks[slot];
                let cell = chunk.block_mut(block_index);
                Some(cell)
            },
            None => None,
        }
    }

    /// Fills the chunk at `index` with `block`.
    ///
    /// A loaded chunk has all its blocks replaced and keeps its entity; the
    /// result is `None`. Where no chunk is loaded, a new chunk filled with
    /// `block` is registered with `entity` as its entity, and the result is
    /// that entity. No other chunk changes.
    pub fn set_block_chunk(&mut self, index: IVec3, block: Block, entity: Entity) -> (created:
        Option<Entity>)
        requires
            old(self).wf(),
        ensures
            final(self).wf(),
            chunk_filled(
                *old(self),
                *final(self),
                index,
                block,
                if old(self).loaded(index) {
                    old(self)@[index].entity
                } else {
                    entity
                },
            ),
            created == (if old(self).loaded(index) {
                None
            } else {
                Some(entity)
            }),
    {
        match self.slot(index) {
            Some(slot) => {
                let ghost before = *self;
                let chunk = &mut self.chunks[slot];
                chunk.fill(block);
                proof {
                    assert forall|d: IVec3| d != index && before.loaded(d) implies self@[d]
                        == before@[d] by {
                        if index_slots(before.index)[d.triple()] == slot {
                            lemma_same_triple(d, index);
                        }
                    }
                    assert(self@.dom() =~= before@.dom().insert(index));
                }
                None
            },
            None => {
                let ghost before = *self;
                proof {
                    self.lemma_dom_is_coords();
                }
                let slot = self.chunks.len();
                self.chunks.push(Chunk::filled(block, entity));
                self.coords.push(index);
                index_insert(&mut self.index, index, slot);
                proof {
                    assert forall|i: int| 0 <= i < self.coords.len() implies index_slots(self.index).contains_key(
                        (#[trigger] self.coords[i]).triple(),
                    ) && index_slots(self.index)[self.coords[i].triple()] == i by {
                        if i < slot {
                            assert(self.coords[i] == before.coords[i]);
                            assert(index_slots(before.index).contains_key(before.coords[i].triple()));
                        }
                    }
                    assert forall|k: (int, int, int)| #[trigger]
                        index_slots(self.index).contains_key(k) implies index_slots(self.index)[k] < self.coords.len()
                        && self.coords[index_slots(self.index)[k] as int].triple() == k by {
                        if k != index.triple() {
                            assert(index_slots(before.index).contains_key(k));
                        }
                    }
                    assert forall|d: IVec3| d != index && before.loaded(d) implies self@[d]
                        == before@[d] by {
                        if d.triple() == index.triple() {
                            lemma_same_triple(d, index);
                        }
                    }
                    assert forall|d: IVec3| self@.dom().contains(d) <==> before@.dom().insert(
                        index,
                    ).contains(d) by {
                        if d.triple() == index.triple() {
                            lemma_same_triple(d, index);
                        }
                    }
                    assert(self@.dom() =~= before@.dom().insert(index));
                }
                Some(entity)
            },
        }
    }

    /// `after` is `self` with the chunk in one slot replaced by a well-formed chunk.
    spec fn slot_replaced(self, after: LoadedChunks, slot: int) -> bool {
        &&& after.index == self.index
        &&& after.coords == self.coords
        &&& 0 <= slot < self.chunks.len()
        &&& after.chunks@ =~= self.chunks@.update(slot, after.chunks[slot])
        &&& after.chunks[slot].wf()
    }

    /// `after` has the chunks of `self`, and all but the one at `c` are unchanged.
    pub open spec fn same_but(self, after: LoadedChunks, c: IVec3) -> bool {
        &&& after@.dom() == self@.dom()
        &&& forall|d: IVec3| d != c && self.loaded(d) ==> after@[d] == self@[d]
    }

    /// Replacing the chunk in the slot of `c` keeps the store well formed and
    /// touches no other chunk.
    proof fn lemma_slot_replaced(self, after: LoadedChunks, slot: int, c: IVec3)
        requires
            self.wf(),
            self.slot_replaced(after, slot),
            self.coords[slot] == c,
        ensures
            after.wf(),
            self.same_but(after, c),
            after@[c] == after.chunks[slot],
    {
        assert forall|i: int| 0 <= i < after.chunks.len() implies (#[trigger] after.chunks[i]).wf() by {
            if i != slot {
                assert(after.chunks[i] == self.chunks[i]);
            }
        }
        assert forall|d: IVec3| d != c && self.loaded(d) implies after@[d] == self@[d] by {
            if index_slots(self.index)[d.triple()] == slot {
                lemma_same_triple(d, c);
            }
        }
        assert(after@.dom() =~= self@.dom());
    }

    /// The coordinates of the loaded chunks are exactly the coordinates in the slots.
    proof fn lemma_dom_is_coords(self)
        requires
            self.wf(),
        ensures
            self@.dom().finite(),
            self@.dom().len() == self.coords.len(),
            self@.dom() == self.coords@.to_set(),
            self.coords@.no_duplicates(),
    {
        assert forall|i: int, j: int|
            0 <= i < self.coords.len() && 0 <= j < self.coords.len() && i != j implies self.coords[i]
            != self.coords[j] by {
            assert(index_slots(self.index)[self.coords[i].triple()] == i);
            assert(index_slots(self.index)[self.coords[j].triple()] == j);
        }
        assert forall|c: IVec3| self@.dom().contains(c) <==> self.coords@.to_set().contains(
            c,
        ) by {
            if self@.dom().contains(c) {
                let k = c.triple();
                assert(index_slots(self.index).contains_key(k));
                lemma_same_triple(self.coords[index_slots(self.index)[k] as int], c);
                assert(self.coords@[index_slots(self.index)[k] as int] == c);
            }
            if self.coords@.to_set().contains(c) {
                let i = choose|i: int| 0 <= i < self.coords.len() && self.coords[i] == c;
                assert(index_slots(self.index).contains_key(self.coords[i].triple()));
            }
        }
        assert(self@.dom() =~= self.coords@.to_set());
        self.coords@.unique_seq_to_set();
    }
}

impl Default for LoadedChunks {
    /// A store with no chunk loaded.
    fn default() -> (s: LoadedChunks)
        ensures
            s.wf(),
            s@ == Map::<IVec3, Chunk>::empty(),
    {
        LoadedChunks::new()
    }
}

} // verus!
