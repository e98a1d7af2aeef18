use bevy::ecs::entity::Entity;
use voxel_world::block::Block;
use voxel_world::block::BlockType;
use voxel_world::coords::IVec3;
use voxel_world::faces::Quad;
use voxel_world::faces::TexCoord;
use voxel_world::faces::UVec3;
use voxel_world::mesh::assemble_mesh;
use voxel_world::mesh::generate_greedy_mesh;
use voxel_world::samples::build_samples;
use voxel_world::store::LoadedChunks;

fn dirt() -> Block {
    Block::new(BlockType::Dirt)
}

fn air() -> Block {
    Block::new(BlockType::Air)
}

fn origin() -> IVec3 {
    IVec3::new(0, 0, 0)
}

fn sides() -> [IVec3; 6] {
    [
        IVec3::new(-1, 0, 0),
        IVec3::new(1, 0, 0),
        IVec3::new(0, -1, 0),
        IVec3::new(0, 1, 0),
        IVec3::new(0, 0, -1),
        IVec3::new(0, 0, 1),
    ]
}

fn world_with_air_around(center: Block) -> LoadedChunks {
    let mut chunks = LoadedChunks::new();
    chunks.set_block_chunk(origin(), center, Entity::from_raw(1));
    let mut n = 2;
    for side in sides() {
        chunks.set_block_chunk(side, air(), Entity::from_raw(n));
        n += 1;
    }
    chunks
}

fn padded(x: usize, y: usize, z: usize) -> usize {
    x + 18 * y + 324 * z
}

#[test]
fn samples_of_isolated_chunk() {
    let mut chunks = LoadedChunks::new();
    chunks.set_block_chunk(origin(), dirt(), Entity::from_raw(1));
    let samples = build_samples(&chunks, origin());
    assert_eq!(samples.len(), 5832);
    let boundary = Block::new(BlockType::Boundary);
    for z in 0..18 {
        for y in 0..18 {
            for x in 0..18 {
                let on_edge = [x, y, z].iter().filter(|c| **c == 0 || **c == 17).count();
                let expected = match on_edge {
                    0 => dirt(),
                    1 => boundary,
                    _ => air(),
                };
                assert_eq!(samples[padded(x, y, z)], expected, "at {x} {y} {z}");
            }
        }
    }
}

#[test]
fn samples_take_the_touching_layer_of_each_neighbor() {
    let mut chunks = world_with_air_around(air());
    // One marked block in the layer of each neighbour that touches the centre,
    // and one in the layer behind it, which must not show up.
    *chunks.get_block_mut(IVec3::new(-1, 3, 5)).unwrap() = dirt();
    *chunks.get_block_mut(IVec3::new(-2, 3, 5)).unwrap() = Block::new_with_damage(BlockType::Dirt, 9);
    *chunks.get_block_mut(IVec3::new(16, 4, 6)).unwrap() = dirt();
    *chunks.get_block_mut(IVec3::new(2, -1, 7)).unwrap() = dirt();
    *chunks.get_block_mut(IVec3::new(8, 16, 9)).unwrap() = dirt();
    *chunks.get_block_mut(IVec3::new(10, 11, -1)).unwrap() = dirt();
    *chunks.get_block_mut(IVec3::new(12, 13, 16)).unwrap() = dirt();
    *chunks.get_block_mut(IVec3::new(1, 2, 3)).unwrap() = Block::new_with_damage(BlockType::Dirt, 7);
    let samples = build_samples(&chunks, origin());
    let mut expected = vec![air(); 5832];
    expected[padded(0, 4, 6)] = dirt();
    expected[padded(17, 5, 7)] = dirt();
    expected[padded(3, 0, 8)] = dirt();
    expected[padded(9, 17, 10)] = dirt();
    expected[padded(11, 12, 0)] = dirt();
    expected[padded(13, 14, 17)] = dirt();
    expected[padded(2, 3, 4)] = Block::new_with_damage(BlockType::Dirt, 7);
    assert_eq!(samples, expected);
}

#[test]
fn isolated_solid_chunk_shows_no_face_towards_unloaded_space() {
    let mut chunks = LoadedChunks::new();
    chunks.set_block_chunk(origin(), dirt(), Entity::from_raw(1));
    let mesh = generate_greedy_mesh(&chunks, origin());
    assert_eq!(mesh.quads.len(), 6);
    assert_eq!(mesh.num_quads(), 0);
    assert!(mesh.positions.is_empty());
    assert!(mesh.indices.is_empty());
}

#[test]
fn solid_chunk_in_air_has_six_quads() {
    let chunks = world_with_air_around(dirt());
    let mesh = generate_greedy_mesh(&chunks, origin());
    assert_eq!(mesh.num_quads(), 6);
    assert_eq!(mesh.positions.len(), 24);
    assert_eq!(mesh.normals.len(), 24);
    assert_eq!(mesh.tex_coords.len(), 24);
    assert_eq!(mesh.indices.len(), 36);
    for group in &mesh.quads {
        assert_eq!(group.len(), 1);
        assert_eq!(group[0].width, 16);
        assert_eq!(group[0].height, 16);
    }
}

#[test]
fn solid_chunk_in_air_quads_lie_on_the_chunk_sides() {
    let chunks = world_with_air_around(dirt());
    let mesh = generate_greedy_mesh(&chunks, origin());
    let minimum: Vec<[u32; 3]> = mesh.quads.iter().map(|g| [g[0].x, g[0].y, g[0].z]).collect();
    assert_eq!(
        minimum,
        vec![[1, 1, 1], [1, 1, 1], [1, 1, 1], [16, 1, 1], [1, 16, 1], [1, 1, 16]]
    );
    // The quad on the -x side, then the one on the +x side.
    assert_eq!(
        mesh.positions[0..4],
        [
            UVec3 { x: 1, y: 1, z: 1 },
            UVec3 { x: 1, y: 1, z: 17 },
            UVec3 { x: 1, y: 17, z: 1 },
            UVec3 { x: 1, y: 17, z: 17 },
        ]
    );
    assert_eq!(
        mesh.positions[12..16],
        [
            UVec3 { x: 17, y: 1, z: 1 },
            UVec3 { x: 17, y: 1, z: 17 },
            UVec3 { x: 17, y: 17, z: 1 },
            UVec3 { x: 17, y: 17, z: 17 },
        ]
    );
    assert_eq!(mesh.normals[0], IVec3::new(-1, 0, 0));
    assert_eq!(mesh.normals[4], IVec3::new(0, -1, 0));
    assert_eq!(mesh.normals[8], IVec3::new(0, 0, -1));
    assert_eq!(mesh.normals[12], IVec3::new(1, 0, 0));
    assert_eq!(mesh.normals[16], IVec3::new(0, 1, 0));
    assert_eq!(mesh.normals[20], IVec3::new(0, 0, 1));
    assert_eq!(mesh.indices[0..6], [0, 1, 2, 1, 3, 2]);
    assert_eq!(mesh.indices[6..12], [4, 6, 5, 5, 6, 7]);
    assert_eq!(mesh.indices[18..24], [12, 14, 13, 13, 14, 15]);
    assert_eq!(mesh.indices[30..36], [20, 21, 22, 21, 23, 22]);
}

#[test]
fn assembled_vertex_data_of_one_quad_per_face() {
    let q = Quad { x: 2, y: 3, z: 4, width: 5, height: 6 };
    let mesh = assemble_mesh(vec![vec![q], vec![q], vec![q], vec![q], vec![q], vec![q]]);
    let p = |x, y, z| UVec3 { x, y, z };
    assert_eq!(
        mesh.positions,
        vec![
            // -x: width along z, height along y
            p(2, 3, 4), p(2, 3, 9), p(2, 9, 4), p(2, 9, 9),
            // -y: width along z, height along x
            p(2, 3, 4), p(2, 3, 9), p(8, 3, 4), p(8, 3, 9),
            // -z: width along x, height along y
            p(2, 3, 4), p(7, 3, 4), p(2, 9, 4), p(7, 9, 4),
            // +x
            p(3, 3, 4), p(3, 3, 9), p(3, 9, 4), p(3, 9, 9),
            // +y
            p(2, 4, 4), p(2, 4, 9), p(8, 4, 4), p(8, 4, 9),
            // +z
            p(2, 3, 5), p(7, 3, 5), p(2, 9, 5), p(7, 9, 5),
        ]
    );
    let t = |u, v| TexCoord { u, v };
    let plain = [t(0, 6), t(5, 6), t(0, 0), t(5, 0)];
    let flipped = [t(5, 6), t(0, 6), t(5, 0), t(0, 0)];
    assert_eq!(mesh.tex_coords[0..4], plain);
    assert_eq!(mesh.tex_coords[4..8], flipped);
    assert_eq!(mesh.tex_coords[8..12], flipped);
    assert_eq!(mesh.tex_coords[12..16], flipped);
    assert_eq!(mesh.tex_coords[16..20], plain);
    assert_eq!(mesh.tex_coords[20..24], plain);
    assert_eq!(
        mesh.indices,
        vec![
            0, 1, 2, 1, 3, 2, //
            4, 6, 5, 5, 6, 7, //
            8, 10, 9, 9, 10, 11, //
            12, 14, 13, 13, 14, 15, //
            16, 17, 18, 17, 19, 18, //
            20, 21, 22, 21, 23, 22,
        ]
    );
}

#[test]
fn no_face_between_two_solid_blocks() {
    let mut chunks = world_with_air_around(air());
    *chunks.get_block_mut(IVec3::new(4, 4, 4)).unwrap() = dirt();
    *chunks.get_block_mut(IVec3::new(5, 4, 4)).unwrap() = dirt();
    let mesh = generate_greedy_mesh(&chunks, origin());
    // Two blocks side by side along x: one quad on each of the two ends,
    // and one quad of width or height two on each of the four long sides.
    assert_eq!(mesh.num_quads(), 6);
    assert_eq!(mesh.quads[0], vec![Quad { x: 5, y: 5, z: 5, width: 1, height: 1 }]);
    assert_eq!(mesh.quads[3], vec![Quad { x: 6, y: 5, z: 5, width: 1, height: 1 }]);
    assert_eq!(mesh.quads[1], vec![Quad { x: 5, y: 5, z: 5, width: 1, height: 2 }]);
    assert_eq!(mesh.quads[4], vec![Quad { x: 5, y: 5, z: 5, width: 1, height: 2 }]);
    assert_eq!(mesh.quads[2], vec![Quad { x: 5, y: 5, z: 5, width: 2, height: 1 }]);
    assert_eq!(mesh.quads[5], vec![Quad { x: 5, y: 5, z: 5, width: 2, height: 1 }]);
}

#[test]
fn a_block_at_the_chunk_side_hides_its_face_behind_a_solid_neighbor() {
    let mut chunks = world_with_air_around(air());
    *chunks.get_block_mut(IVec3::new(15, 8, 8)).unwrap() = dirt();
    let before = generate_greedy_mesh(&chunks, origin());
    assert_eq!(before.num_quads(), 6);
    *chunks.get_block_mut(IVec3::new(16, 8, 8)).unwrap() = dirt();
    let after = generate_greedy_mesh(&chunks, origin());
    assert_eq!(after.num_quads(), 5);
    assert!(after.quads[3].is_empty());
}

/// A world of seven chunks with dirt scattered over them, `density` blocks in a hundred.
fn scattered_world(seed: u64, density: u64) -> LoadedChunks {
    let mut chunks = world_with_air_around(air());
    let mut state = seed;
    for x in -16..32 {
        for y in -16..32 {
            for z in -16..32 {
                state = state.wrapping_mul(6364136223846793005).wrapping_add(1442695040888963407);
                if (state >> 33) % 100 < density {
                    if let Some(block) = chunks.get_block_mut(IVec3::new(x, y, z)) {
                        *block = dirt();
                    }
                }
            }
        }
    }
    chunks
}

const AXES: [(usize, usize, usize, i32); 6] =
    [(0, 2, 1, -1), (1, 2, 0, -1), (2, 0, 1, -1), (0, 2, 1, 1), (1, 2, 0, 1), (2, 0, 1, 1)];

fn covers(face: usize, q: &Quad, p: [u32; 3]) -> bool {
    let (n, u, v, _) = AXES[face];
    let m = [q.x, q.y, q.z];
    p[n] == m[n] && m[u] <= p[u] && p[u] < m[u] + q.width && m[v] <= p[v] && p[v] < m[v] + q.height
}

fn shows(samples: &[Block], face: usize, p: [u32; 3]) -> bool {
    let (n, _, _, sign) = AXES[face];
    let mut there = p;
    there[n] = (there[n] as i32 + sign) as u32;
    let at = |c: [u32; 3]| samples[padded(c[0] as usize, c[1] as usize, c[2] as usize)];
    at(p).block_type != BlockType::Air && at(there).block_type == BlockType::Air
}

#[test]
fn quads_cover_each_face_to_be_drawn_once_and_nothing_else() {
    for (seed, density) in [(1, 50), (2, 10), (3, 90), (4, 100), (5, 0)] {
        let chunks = scattered_world(seed, density);
        let samples = build_samples(&chunks, origin());
        let mesh = generate_greedy_mesh(&chunks, origin());
        assert_eq!(mesh.quads.len(), 6);
        let mut shown = 0;
        for face in 0..6 {
            let (_, u, v, _) = AXES[face];
            for q in &mesh.quads[face] {
                let m = [q.x, q.y, q.z];
                assert!(m.iter().all(|c| (1..=16).contains(c)));
                assert!(q.width >= 1 && q.height >= 1);
                assert!(m[u] + q.width <= 17 && m[v] + q.height <= 17);
            }
            for x in 0..18 {
                for y in 0..18 {
                    for z in 0..18 {
                        let p = [x, y, z];
                        let interior = p.iter().all(|c| (1..=16).contains(c));
                        let covering: Vec<&Quad> =
                            mesh.quads[face].iter().filter(|q| covers(face, q, p)).collect();
                        if interior && shows(&samples, face, p) {
                            shown += 1;
                            assert_eq!(covering.len(), 1, "face {face} of {p:?}");
                            let kind = samples[padded(x as usize, y as usize, z as usize)].block_type;
                            let q = covering[0];
                            let start = samples[padded(q.x as usize, q.y as usize, q.z as usize)];
                            assert_eq!(kind, start.block_type);
                        } else {
                            assert!(covering.is_empty(), "face {face} of {p:?}");
                        }
                    }
                }
            }
        }
        assert!(mesh.num_quads() <= shown);
        assert_eq!(mesh.positions.len(), 4 * mesh.num_quads());
        assert_eq!(mesh.indices.len(), 6 * mesh.num_quads());
        assert!(mesh.indices.iter().all(|i| (*i as usize) < mesh.positions.len()));
    }
}

#[test]
fn different_kinds_of_solid_block_do_not_merge() {
    let mut chunks = world_with_air_around(air());
    *chunks.get_block_mut(IVec3::new(4, 4, 4)).unwrap() = dirt();
    *chunks.get_block_mut(IVec3::new(5, 4, 4)).unwrap() = Block::new(BlockType::Boundary);
    let mesh = generate_greedy_mesh(&chunks, origin());
    // As two dirt blocks, but the four long sides are two quads each.
    assert_eq!(mesh.num_quads(), 10);
    assert_eq!(mesh.quads[0].len(), 1);
    assert_eq!(mesh.quads[3].len(), 1);
    assert_eq!(mesh.quads[2], vec![
        Quad { x: 5, y: 5, z: 5, width: 1, height: 1 },
        Quad { x: 6, y: 5, z: 5, width: 1, height: 1 },
    ]);
}
