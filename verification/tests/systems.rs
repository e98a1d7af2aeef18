use bevy::ecs::entity::Entity;
use voxel_world::block::Block;
use voxel_world::block::BlockType;
use voxel_world::coords::IVec3;
use voxel_world::dirty::SetBlockEvent;
use voxel_world::dirty::SetBlockShape;
use voxel_world::store::LoadedChunks;
use voxel_world::systems::EditOutcome;
use voxel_world::systems::lazy_mesher;
use voxel_world::systems::map_setup;
use voxel_world::systems::set_block_chunk;

fn dirt() -> Block {
    Block::new(BlockType::Dirt)
}

fn air() -> Block {
    Block::new(BlockType::Air)
}

fn fill(x: i32, y: i32, z: i32, block: Block) -> SetBlockEvent {
    SetBlockEvent { shape: SetBlockShape::Chunk(IVec3::new(x, y, z)), block }
}

fn first_map() -> LoadedChunks {
    let mut chunks = LoadedChunks::new();
    let mut next = 0;
    for ev in map_setup() {
        next += 1;
        assert_eq!(
            set_block_chunk(&mut chunks, &ev, Some(Entity::from_raw(next))),
            EditOutcome::Created
        );
    }
    chunks
}

#[test]
fn map_setup_lists_sixty_four_chunks() {
    let events = map_setup();
    assert_eq!(events.len(), 64);
    assert_eq!(events[0], fill(-2, -2, -2, dirt()));
    assert_eq!(events[1], fill(-2, -1, -2, air()));
    assert_eq!(events[3], fill(-2, 1, -2, air()));
    assert_eq!(events[4], fill(-2, -2, -1, dirt()));
    assert_eq!(events[16], fill(-1, -2, -2, dirt()));
    assert_eq!(events[63], fill(1, 1, 1, air()));
    let mut i = 0;
    for x in -2..2 {
        for z in -2..2 {
            for y in -2..2 {
                let block = if y == -2 { dirt() } else { air() };
                assert_eq!(events[i], fill(x, y, z, block));
                i += 1;
            }
        }
    }
}

#[test]
fn a_fill_of_an_unloaded_chunk_asks_for_an_entity() {
    let mut chunks = LoadedChunks::new();
    let ev = fill(3, 0, 0, dirt());
    assert_eq!(set_block_chunk(&mut chunks, &ev, None), EditOutcome::NeedsEntity);
    assert_eq!(chunks.len(), 0);
    assert_eq!(set_block_chunk(&mut chunks, &ev, Some(Entity::from_raw(4))), EditOutcome::Created);
    assert_eq!(chunks.entity_of(IVec3::new(3, 0, 0)), Some(Entity::from_raw(4)));
    assert_eq!(chunks.get_block(IVec3::new(48, 0, 0)), Some(&dirt()));
}

#[test]
fn a_fill_of_a_loaded_chunk_keeps_its_entity() {
    let mut chunks = LoadedChunks::new();
    set_block_chunk(&mut chunks, &fill(0, 0, 0, dirt()), Some(Entity::from_raw(1)));
    assert_eq!(set_block_chunk(&mut chunks, &fill(0, 0, 0, air()), None), EditOutcome::Filled);
    assert_eq!(
        set_block_chunk(&mut chunks, &fill(0, 0, 0, air()), Some(Entity::from_raw(2))),
        EditOutcome::Filled
    );
    assert_eq!(chunks.entity_of(IVec3::new(0, 0, 0)), Some(Entity::from_raw(1)));
    assert_eq!(chunks.get_block(IVec3::new(1, 1, 1)), Some(&air()));
    assert_eq!(chunks.len(), 1);
}

#[test]
fn block_and_range_edits_are_not_applied() {
    let mut chunks = LoadedChunks::new();
    set_block_chunk(&mut chunks, &fill(0, 0, 0, air()), Some(Entity::from_raw(1)));
    for shape in [SetBlockShape::Block(IVec3::new(1, 1, 1)), SetBlockShape::Range(IVec3::new(1, 1, 1))] {
        let ev = SetBlockEvent { shape, block: dirt() };
        assert_eq!(set_block_chunk(&mut chunks, &ev, Some(Entity::from_raw(9))), EditOutcome::Unsupported);
    }
    assert_eq!(chunks.get_block(IVec3::new(1, 1, 1)), Some(&air()));
    assert_eq!(chunks.len(), 1);
}

#[test]
fn an_empty_batch_meshes_nothing() {
    let chunks = first_map();
    let batch = lazy_mesher(&chunks, &Vec::new());
    assert!(batch.jobs.is_empty());
    assert_eq!(batch.unsupported, 0);
}

#[test]
fn the_mesher_skips_dirty_chunks_that_are_not_loaded() {
    let mut chunks = LoadedChunks::new();
    set_block_chunk(&mut chunks, &fill(0, 0, 0, dirt()), Some(Entity::from_raw(1)));
    set_block_chunk(&mut chunks, &fill(0, 1, 0, air()), Some(Entity::from_raw(2)));
    let batch = lazy_mesher(&chunks, &vec![fill(0, 0, 0, dirt())]);
    let listed: Vec<(IVec3, Entity)> = batch.jobs.iter().map(|j| (j.chunk, j.entity)).collect();
    assert_eq!(
        listed,
        vec![(IVec3::new(0, 0, 0), Entity::from_raw(1)), (IVec3::new(0, 1, 0), Entity::from_raw(2))]
    );
    // The solid chunk shows its top to the air above and nothing to unloaded space.
    assert_eq!(batch.jobs[0].mesh.num_quads(), 1);
    assert_eq!(batch.jobs[0].mesh.quads[4].len(), 1);
    assert_eq!(batch.jobs[1].mesh.num_quads(), 0);
}

#[test]
fn the_first_map_shows_one_floor() {
    let chunks = first_map();
    let batch = lazy_mesher(&chunks, &map_setup());
    assert_eq!(batch.jobs.len(), 64);
    assert_eq!(batch.unsupported, 0);
    for job in &batch.jobs {
        let expected = if job.chunk.y == -2 { 1 } else { 0 };
        assert_eq!(job.mesh.num_quads(), expected, "chunk {:?}", job.chunk);
        assert_eq!(job.mesh.indices.len(), 6 * expected);
        assert_eq!(Some(job.entity), chunks.entity_of(job.chunk));
    }
}

#[test]
fn the_mesher_counts_unsupported_edits() {
    let chunks = first_map();
    let range = SetBlockEvent { shape: SetBlockShape::Range(IVec3::new(0, 0, 0)), block: dirt() };
    let block = SetBlockEvent { shape: SetBlockShape::Block(IVec3::new(0, -17, 0)), block: dirt() };
    let batch = lazy_mesher(&chunks, &vec![range, block, range]);
    assert_eq!(batch.unsupported, 2);
    let listed: Vec<IVec3> = batch.jobs.iter().map(|j| j.chunk).collect();
    assert_eq!(
        listed,
        vec![
            IVec3::new(0, -2, 0),
            IVec3::new(-1, -2, 0),
            IVec3::new(0, -1, 0),
            IVec3::new(0, -2, -1),
        ]
    );
}
