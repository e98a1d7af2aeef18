use bevy::ecs::entity::Entity;
use voxel_world::block::Block;
use voxel_world::block::BlockType;
use voxel_world::collision::BlockBox;
use voxel_world::collision::WithinBoxIterator;
use voxel_world::collision::component_of;
use voxel_world::coords::IVec3;
use voxel_world::store::LoadedChunks;

fn p(x: i32, y: i32, z: i32) -> IVec3 {
    IVec3::new(x, y, z)
}

fn walk(min: IVec3, max: IVec3) -> Vec<IVec3> {
    let mut it = WithinBoxIterator::new(min, max);
    let mut out = Vec::new();
    while let Some(b) = it.next() {
        out.push(b);
    }
    assert_eq!(it.next(), None);
    out
}

/// Air above the plane y = 0, dirt below, in the chunks around the origin.
fn floor_world() -> LoadedChunks {
    let mut chunks = LoadedChunks::new();
    let mut n = 0;
    for x in -1..1 {
        for z in -1..1 {
            n += 1;
            chunks.set_block_chunk(p(x, 0, z), Block::new(BlockType::Air), Entity::from_raw(n));
            n += 1;
            chunks.set_block_chunk(p(x, -1, z), Block::new(BlockType::Dirt), Entity::from_raw(n));
        }
    }
    chunks
}

#[test]
fn the_walk_runs_x_fastest() {
    assert_eq!(
        walk(p(0, 0, 0), p(1, 1, 1)),
        vec![
            p(0, 0, 0),
            p(1, 0, 0),
            p(0, 1, 0),
            p(1, 1, 0),
            p(0, 0, 1),
            p(1, 0, 1),
            p(0, 1, 1),
            p(1, 1, 1),
        ]
    );
}

#[test]
fn the_walk_of_a_single_block_and_of_an_empty_box() {
    assert_eq!(walk(p(-3, 4, 5), p(-3, 4, 5)), vec![p(-3, 4, 5)]);
    assert!(walk(p(1, 0, 0), p(0, 5, 5)).is_empty());
    assert!(walk(p(0, 1, 0), p(5, 0, 5)).is_empty());
    assert!(walk(p(0, 0, 1), p(5, 5, 0)).is_empty());
}

#[test]
fn the_walk_reaches_the_end_of_the_range() {
    let max = p(i32::MAX, i32::MAX, i32::MAX);
    assert_eq!(
        walk(p(i32::MAX - 1, i32::MAX, i32::MAX), max),
        vec![p(i32::MAX - 1, i32::MAX, i32::MAX), max]
    );
    let min = p(i32::MIN, i32::MIN, i32::MIN);
    assert_eq!(walk(min, min), vec![min]);
}

#[test]
fn leading_face_by_axis_and_direction() {
    let b = BlockBox { min: p(0, 1, 2), max: p(3, 4, 5) };
    assert_eq!(b.leading_face(0, true), BlockBox { min: p(3, 1, 2), max: p(3, 4, 5) });
    assert_eq!(b.leading_face(0, false), BlockBox { min: p(0, 1, 2), max: p(0, 4, 5) });
    assert_eq!(b.leading_face(1, true), BlockBox { min: p(0, 4, 2), max: p(3, 4, 5) });
    assert_eq!(b.leading_face(1, false), BlockBox { min: p(0, 1, 2), max: p(3, 1, 5) });
    assert_eq!(b.leading_face(2, true), BlockBox { min: p(0, 1, 5), max: p(3, 4, 5) });
    assert_eq!(b.leading_face(2, false), BlockBox { min: p(0, 1, 2), max: p(3, 4, 2) });
    assert!(b.has(p(3, 4, 5)));
    assert!(!b.has(p(4, 4, 5)));
    assert_eq!(component_of(p(7, 8, 9), 0), 7);
    assert_eq!(component_of(p(7, 8, 9), 1), 8);
    assert_eq!(component_of(p(7, 8, 9), 2), 9);
}

#[test]
fn unloaded_space_is_solid() {
    let chunks = floor_world();
    assert!(chunks.is_solid(p(0, -1, 0)));
    assert!(!chunks.is_solid(p(0, 0, 0)));
    assert!(chunks.is_solid(p(0, 16, 0)));
    assert!(chunks.is_solid(p(16, 0, 0)));
    assert!(!chunks.is_solid(p(-16, 15, -16)));
}

#[test]
fn a_box_that_falls_on_the_floor_gets_an_upward_contact() {
    let chunks = floor_world();
    let bounds = BlockBox { min: p(0, -1, 0), max: p(0, 1, 0) };
    let normal = chunks.aabb_collides(p(0, -1, 0), bounds, bounds);
    assert_eq!(normal, p(0, -1, 0));
    // Moving up from the same place, the leading face is in the air.
    assert_eq!(chunks.aabb_collides(p(0, 1, 0), bounds, bounds), p(0, 0, 0));
    // A box that does not move has no contact.
    assert_eq!(chunks.aabb_collides(p(0, 0, 0), bounds, bounds), p(0, 0, 0));
}

#[test]
fn a_solid_block_outside_the_overlap_is_no_contact() {
    let chunks = floor_world();
    let bounds = BlockBox { min: p(0, -1, 0), max: p(0, 1, 0) };
    let overlap = BlockBox { min: p(0, 0, 0), max: p(0, 1, 0) };
    assert_eq!(chunks.aabb_collides(p(0, -5, 0), bounds, overlap), p(0, 0, 0));
}

#[test]
fn contacts_are_found_axis_by_axis() {
    let mut chunks = floor_world();
    *chunks.get_block_mut(p(3, 1, 0)).unwrap() = Block::new(BlockType::Dirt);
    let above = BlockBox { min: p(1, 0, 0), max: p(3, 1, 1) };
    assert_eq!(chunks.aabb_collides(p(2, -2, 0), above, above), p(1, 0, 0));
    assert_eq!(chunks.aabb_collides(p(-2, 2, 9), above, above), p(0, 1, 0));
    // With the floor inside the bounds, every leading face but the top one holds floor.
    let sunk = BlockBox { min: p(1, -1, 0), max: p(3, 1, 1) };
    assert_eq!(chunks.aabb_collides(p(-2, -2, 9), sunk, sunk), p(-1, -1, 1));
    assert_eq!(chunks.aabb_collides(p(0, 2, -9), sunk, sunk), p(0, 1, -1));
}

#[test]
fn broadphase_lists_the_solid_blocks_of_the_leading_faces() {
    let mut chunks = floor_world();
    *chunks.get_block_mut(p(3, 1, 0)).unwrap() = Block::new(BlockType::Dirt);
    let bounds = BlockBox { min: p(2, -1, 0), max: p(3, 1, 1) };
    assert_eq!(chunks.broadphase(bounds, p(0, -1, 0)), vec![p(2, -1, 0), p(3, -1, 0), p(2, -1, 1), p(3, -1, 1)]);
    // Along x the leading face holds the marked block and two floor blocks;
    // along y the floor adds the two blocks that were not listed yet.
    assert_eq!(
        chunks.broadphase(bounds, p(4, -4, 0)),
        vec![p(3, -1, 0), p(3, 1, 0), p(3, -1, 1), p(2, -1, 0), p(2, -1, 1)]
    );
    assert!(chunks.broadphase(bounds, p(0, 0, 0)).is_empty());
    assert!(chunks.broadphase(bounds, p(-1, 0, 0)).len() == 2);
}
