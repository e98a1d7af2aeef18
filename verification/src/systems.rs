//! The per-frame steps of the world: the edits that set up the first map,
//! applying an edit to the chunk store, and meshing what a batch of edits
//! made stale.

use bevy::ecs::entity::Entity;
use crate::block::Block;
use crate::block::BlockType;
use crate::coords::IVec3;
use crate::dirty::dirty_chunks;
use crate::dirty::dirty_of;
use crate::dirty::unsupported_of;
use crate::dirty::SetBlockEvent;
use crate::dirty::SetBlockShape;
use crate::mesh::generate_greedy_mesh;
use crate::mesh::greedy_quads_of;
use crate::mesh::groups_view;
use crate::mesh::ChunkMesh;
use crate::mesh::MeshData;
use crate::samples::padded_samples;
use crate::store::chunk_filled;
use crate::store::LoadedChunks;
use vstd::prelude::*;

verus! {

/// The edit number `i` of the first map: the map is 4×4×4 chunks around
/// the origin, listed with y running fastest, then z, then x. The lowest
/// layer of chunks is filled with dirt, the rest with air.
pub open spec fn setup_event(i: int) -> SetBlockEvent {
    let x = i / 16 - 2;
    let z = (i / 4) % 4 - 2;
    let y = i % 4 - 2;
    SetBlockEvent {
        shape: SetBlockShape::Chunk(IVec3 { x: x as i32, y: y as i32, z: z as i32 }),
        block: Block {
            block_type: if y == -2 {
                BlockType::Dirt
            } else {
                BlockType::Air
            },
            damage: 0,
        },
    }
}

/// The edits that set up the first map.
pub open spec fn setup_events() -> Seq<SetBlockEvent> {
    Seq::new(64, |i: int| setup_event(i))
}

/// The edits that set up the first map: a bulk fill for each of the 64
/// chunks with coordinates from -2 to 1, with dirt in the lowest layer and
/// air above.
pub fn map_setup() -> (events: Vec<SetBlockEvent>)
    ensures
        events@ == setup_events(),
{
    let dirt = Block::new(BlockType::Dirt);
    let air = Block::new(BlockType::Air);
    let mut events: Vec<SetBlockEvent> = Vec::new();
    let mut x: i32 = -2;
    while x < 2
        invariant
            -2 <= x <= 2,
            dirt == (Block { block_type: BlockType::Dirt, damage: 0 }),
            air == (Block { block_type: BlockType::Air, damage: 0 }),
            events@ == Seq::new(((x + 2) * 16) as nat, |i: int| setup_event(i)),
        decreases 2 - x,
    {
        let mut z: i32 = -2;
        while z < 2
            invariant
                -2 <= x < 2,
                -2 <= z <= 2,
                dirt == (Block { block_type: BlockType::Dirt, damage: 0 }),
                air == (Block { block_type: BlockType::Air, damage: 0 }),
                events@ == Seq::new(
                    ((x + 2) * 16 + (z + 2) * 4) as nat,
                    |i: int| setup_event(i),
                ),
            decreases 2 - z,
        {
            let mut y: i32 = -2;
            while y < 2
                invariant
                    -2 <= x < 2,
                    -2 <= z < 2,
                    -2 <= y <= 2,
                    dirt == (Block { block_type: BlockType::Dirt, damage: 0 }),
                    air == (Block { block_type: BlockType::Air, damage: 0 }),
                    events@ == Seq::new(
                        ((x + 2) * 16 + (z + 2) * 4 + (y + 2)) as nat,
                        |i: int| setup_event(i),
                    ),
                decreases 2 - y,
            {
                let block = if y == -2 {
                    dirt
                } else {
                    air
                };
                events.push(SetBlockEvent { shape: SetBlockShape::Chunk(IVec3::new(x, y, z)), block });
                y += 1;
                assert(events@ =~= Seq::new(
                    ((x + 2) * 16 + (z + 2) * 4 + (y + 2)) as nat,
                    |i: int| setup_event(i),
                ));
            }
            z += 1;
        }
        x += 1;
    }
    events
}

/// What became of an edit that was handed to the chunk store.
#[derive(Clone, Copy, Debug, PartialEq, Eq, Structural)]
pub enum EditOutcome {
    /// The chunk was loaded; its blocks were replaced.
    Filled,
    /// The chunk was not loaded; it was created with the entity handed in.
    Created,
    /// The chunk is not loaded and no entity was handed in: nothing was
    /// done. The caller makes an entity and hands the edit in again.
    NeedsEntity,
    /// The store does not apply edits of this shape: nothing was done.
    Unsupported,
}

/// Applies one edit to the chunk store.
///
/// A bulk fill of a loaded chunk replaces its blocks and keeps its entity.
/// A bulk fill of a chunk that is not loaded creates the chunk with
/// `entity`; without an entity it does nothing and asks for one. An edit of
/// any other shape is not supported: it does nothing and says so.
pub fn set_block_chunk(chunks: &mut LoadedChunks, ev: &SetBlockEvent, entity: Option<Entity>) -> (outcome:
    EditOutcome)
    requires
        old(chunks).wf(),
    ensures
        final(chunks).wf(),
        match ev.shape {
            SetBlockShape::Chunk(c) => if old(chunks).loaded(c) {
                outcome == EditOutcome::Filled && chunk_filled(
                    *old(chunks),
                    *final(chunks),
                    c,
                    ev.block,
                    old(chunks)@[c].entity,
                )
            } else {
                match entity {
                    Some(e) => outcome == EditOutcome::Created && chunk_filled(
                        *old(chunks),
                        *final(chunks),
                        c,
                        ev.block,
                        e,
                    ),
                    None => outcome == EditOutcome::NeedsEntity && *final(chunks) == *old(chunks),
                }
            },
            _ => outcome == EditOutcome::Unsupported && *final(chunks) == *old(chunks),
        },
{
    match ev.shape {
        SetBlockShape::Chunk(c) => {
            match chunks.entity_of(c) {
                Some(own) => {
                    chunks.set_block_chunk(c, ev.block, own);
                    EditOutcome::Filled
                },
                None => match entity {
                    Some(e) => {
                        chunks.set_block_chunk(c, ev.block, e);
                        EditOutcome::Created
                    },
                    None => EditOutcome::NeedsEntity,
                },
            }
        },
        _ => EditOutcome::Unsupported,
    }
}

/// A mesh to attach: the chunk it is the mesh of, the entity that draws
/// that chunk, and the mesh.
pub struct MeshJob {
    pub chunk: IVec3,
    pub entity: Entity,
    pub mesh: ChunkMesh,
}

/// The meshes that a batch of edits calls for.
pub struct MeshBatch {
    /// One job per dirty chunk that is loaded, in the order of the dirty list.
    pub jobs: Vec<MeshJob>,
    /// How many edits of the batch had a shape that is not supported and were skipped.
    pub unsupported: usize,
}

/// Whether `mesh` is the mesh of the chunk at `c`: its quads are those that
/// greedy meshing makes of the chunk's padded volume, and its vertex data
/// is made of those quads.
pub open spec fn is_mesh_of(mesh: ChunkMesh, chunks: LoadedChunks, c: IVec3) -> bool {
    &&& groups_view(mesh.quads) == greedy_quads_of(padded_samples(chunks, c))
    &&& mesh.data() == MeshData::of_groups(groups_view(mesh.quads))
    &&& mesh.data().wf()
}

/// The chunks of a list of jobs.
pub open spec fn job_chunks(jobs: Seq<MeshJob>) -> Seq<IVec3> {
    Seq::new(jobs.len(), |i: int| jobs[i].chunk)
}

/// The dirty chunks of a batch of edits that are loaded.
pub open spec fn chunks_to_mesh(chunks: LoadedChunks, events: Seq<SetBlockEvent>) -> Seq<IVec3> {
    dirty_of(events).filter(|c: IVec3| chunks.loaded(c))
}

/// Meshes what a batch of edits made stale: every dirty chunk that is
/// loaded gets a new mesh, once, in the order of the dirty list. Dirty
/// chunks that are not loaded have nothing to mesh. An empty batch gives no
/// job.
pub fn lazy_mesher(chunks: &LoadedChunks, events: &Vec<SetBlockEvent>) -> (batch: MeshBatch)
    requires
        chunks.wf(),
    ensures
        batch.unsupported == unsupported_of(events@),
        job_chunks(batch.jobs@) == chunks_to_mesh(*chunks, events@),
        forall|i: int|
            0 <= i < batch.jobs.len() ==> {
                let job = #[trigger] batch.jobs[i];
                &&& chunks.loaded(job.chunk)
                &&& job.entity == chunks@[job.chunk].entity
                &&& is_mesh_of(job.mesh, *chunks, job.chunk)
            },
        events.len() == 0 ==> batch.jobs.len() == 0,
{
    let mut jobs: Vec<MeshJob> = Vec::new();
    if events.len() == 0 {
        assert(events@ =~= Seq::<SetBlockEvent>::empty());
        assert(job_chunks(jobs@) =~= chunks_to_mesh(*chunks, events@));
        return MeshBatch { jobs, unsupported: 0 };
    }
    let dirty = dirty_chunks(events);
    let ghost loaded = |c: IVec3| chunks.loaded(c);
    let mut i: usize = 0;
    while i < dirty.chunks.len()
        invariant
            i <= dirty.chunks.len(),
            chunks.wf(),
            loaded == |c: IVec3| chunks.loaded(c),
            job_chunks(jobs@) == dirty.chunks@.take(i as int).filter(loaded),
            forall|k: int|
                0 <= k < jobs.len() ==> {
                    let job = #[trigger] jobs[k];
                    &&& chunks.loaded(job.chunk)
                    &&& job.entity == chunks@[job.chunk].entity
                    &&& is_mesh_of(job.mesh, *chunks, job.chunk)
                },
        decreases dirty.chunks.len() - i,
    {
        let location = dirty.chunks[i];
        proof {
            reveal(Seq::filter);
            assert(dirty.chunks@.take(i + 1).drop_last() =~= dirty.chunks@.take(i as int));
            assert(dirty.chunks@.take(i + 1).last() == location);
        }
        match chunks.entity_of(location) {
            Some(entity) => {
                let mesh = generate_greedy_mesh(chunks, location);
                let ghost before = jobs@;
                jobs.push(MeshJob { chunk: location, entity, mesh });
                assert(job_chunks(jobs@) =~= job_chunks(before).push(location));
            },
            None => {},
        }
        i += 1;
    }
    assert(dirty.chunks@.take(i as int) =~= dirty.chunks@);
    MeshBatch { jobs, unsupported: dirty.unsupported }
}

} // verus!
