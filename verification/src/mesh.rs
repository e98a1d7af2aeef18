//! The mesh generator: the merged quads of a chunk and the vertex data
//! made from them.

use crate::block::Block;
use crate::block::Visibility;
use crate::coords::IVec3;
use crate::faces::corners_on_face;
use crate::faces::face_normal;
use crate::faces::face_normal_axis;
use crate::faces::face_sign;
use crate::faces::face_u_axis;
use crate::faces::along;
use crate::faces::face_v_axis;
use crate::faces::indices_on_face;
use crate::faces::moved;
use crate::faces::normal_of_face;
use crate::faces::quad_corners;
use crate::faces::quad_indices;
use crate::faces::quad_tex_coords;
use crate::faces::tex_coords_on_face;
use crate::faces::Quad;
use crate::faces::TexCoord;
use crate::faces::UVec3;
use crate::samples::build_samples;
use crate::samples::in_interior;
use crate::samples::padded_offset;
use crate::samples::padded_samples;
use crate::store::LoadedChunks;
use vstd::prelude::*;

verus! {

/// The quads that greedy meshing makes of a padded volume of 18×18×18
/// blocks, one group per face.
pub uninterp spec fn greedy_quads_of(voxels: Seq<Block>) -> Seq<Seq<Quad>>;

/// The groups of quads as sequences.
pub open spec fn groups_view(groups: Vec<Vec<Quad>>) -> Seq<Seq<Quad>> {
    Seq::new(groups.len() as nat, |f: int| groups@[f]@)
}

/// Visibility of the block at cell `p` of the padded volume `voxels`.
pub open spec fn visibility_at(voxels: Seq<Block>, p: (int, int, int)) -> Visibility {
    voxels[padded_offset(p.0, p.1, p.2)].block_type.spec_visibility()
}

/// Whether face `face` of the block at cell `p` is to be drawn: the block is
/// not empty, and the block that the face looks at is empty, or translucent
/// before an opaque block.
pub open spec fn face_shows(voxels: Seq<Block>, face: int, p: (int, int, int)) -> bool {
    let here = visibility_at(voxels, p);
    let there = visibility_at(voxels, moved(p, face_normal_axis(face), face_sign(face)));
    here != Visibility::Empty && (there == Visibility::Empty || (there == Visibility::Translucent
        && here == Visibility::Opaque))
}

/// There are six groups; every quad starts in the interior, is at least
/// one block wide and high, and ends in the interior.
pub open spec fn quads_well_placed(groups: Seq<Seq<Quad>>) -> bool {
    &&& groups.len() == 6
    &&& forall|f: int, k: int|
        0 <= f < 6 && 0 <= k < groups[f].len() ==> {
            let q = #[trigger] groups[f][k];
            &&& in_interior(q.minimum())
            &&& 1 <= q.width
            &&& 1 <= q.height
            &&& along(q.minimum(), face_u_axis(f)) + q.width <= 17
            &&& along(q.minimum(), face_v_axis(f)) + q.height <= 17
        }
}

/// Every block face that a quad covers is to be drawn, and its block is of
/// the kind of the quad's minimum block.
pub open spec fn quads_sound(voxels: Seq<Block>, groups: Seq<Seq<Quad>>) -> bool {
    forall|f: int, k: int, p: (int, int, int)|
        0 <= f < 6 && 0 <= k < groups[f].len() && #[trigger] groups[f][k].covers(f, p) ==> {
            &&& face_shows(voxels, f, p)
            &&& voxels[padded_offset(p.0, p.1, p.2)].block_type == voxels[padded_offset(
                groups[f][k].x as int,
                groups[f][k].y as int,
                groups[f][k].z as int,
            )].block_type
        }
}

/// No block face is covered by two quads of a group.
pub open spec fn quads_disjoint(groups: Seq<Seq<Quad>>) -> bool {
    forall|f: int, j: int, k: int, p: (int, int, int)|
        0 <= f < 6 && 0 <= j < k < groups[f].len() ==> !(#[trigger] groups[f][j].covers(f, p)
            && #[trigger] groups[f][k].covers(f, p))
}

/// Every face of an interior block that is to be drawn is covered by a quad
/// of its face's group.
pub open spec fn quads_complete(voxels: Seq<Block>, groups: Seq<Seq<Quad>>) -> bool {
    forall|f: int, p: (int, int, int)|
        0 <= f < 6 && in_interior(p) && #[trigger] face_shows(voxels, f, p) ==> exists|k: int|
            0 <= k < groups[f].len() && #[trigger] groups[f][k].covers(f, p)
}

/// Calls `block_mesh::greedy_quads` on the whole padded volume with the
/// faces of `block_mesh::RIGHT_HANDED_Y_UP_CONFIG`, and copies the quads
/// out of its buffer, group by group.
///
/// The result is a function of the blocks alone and is named
/// `greedy_quads_of`. Of that result the contract states what the outside
/// function documents and its loop shows: it scans the interior only, starts
/// a quad at a block face that is to be drawn and not yet part of a quad,
/// and widens and heightens it over such faces of blocks of the same merge
/// value, within the interior, and marks the faces of the quad as done;
/// every face to be drawn ends up in a quad. It panics on a slice shorter
/// than the volume, which `requires` excludes.
#[verifier::external_body]
fn greedy_quads_padded(samples: &Vec<Block>) -> (groups: Vec<Vec<Quad>>)
    requires
        samples.len() == 5832,
    ensures
        groups_view(groups) == greedy_quads_of(samples@),
        quads_well_placed(groups_view(groups)),
        quads_sound(samples@, groups_view(groups)),
        quads_disjoint(groups_view(groups)),
        quads_complete(samples@, groups_view(groups)),
{
    let mut buffer = block_mesh::GreedyQuadsBuffer::new(samples.len());
    let shape = block_mesh::ndshape::ConstShape3u32::<18, 18, 18>;
    let faces = block_mesh::RIGHT_HANDED_Y_UP_CONFIG.faces;
    block_mesh::greedy_quads(samples.as_slice(), &shape, [0; 3], [17; 3], &faces, &mut buffer);
    let quad = |q: &block_mesh::UnorientedQuad| {
        Quad { x: q.minimum[0], y: q.minimum[1], z: q.minimum[2], width: q.width, height: q.height }
    };
    buffer.quads.groups.iter().map(|g| g.iter().map(quad).collect()).collect()
}

/// Vertex data of a mesh: four vertices and six indices per quad.
pub struct MeshData {
    pub positions: Seq<UVec3>,
    pub normals: Seq<IVec3>,
    pub tex_coords: Seq<TexCoord>,
    pub indices: Seq<u32>,
}

impl MeshData {
    /// No vertices.
    pub open spec fn empty() -> MeshData {
        MeshData {
            positions: Seq::empty(),
            normals: Seq::empty(),
            tex_coords: Seq::empty(),
            indices: Seq::empty(),
        }
    }

    /// The data with quad `q` of face `face` added: its four corners, the
    /// face's normal four times, its four texture coordinates, and the six
    /// indices of its two triangles, counted from its first corner.
    pub open spec fn push_quad(self, face: int, q: Quad) -> MeshData {
        MeshData {
            positions: self.positions + quad_corners(face, q),
            normals: self.normals + Seq::new(4, |i: int| face_normal(face)),
            tex_coords: self.tex_coords + quad_tex_coords(face, q),
            indices: self.indices + quad_indices(face, self.positions.len() as int),
        }
    }

    /// The data with the quads of one face's group added in order.
    pub open spec fn push_group(self, face: int, quads: Seq<Quad>) -> MeshData
        decreases quads.len(),
    {
        if quads.len() == 0 {
            self
        } else {
            self.push_group(face, quads.drop_last()).push_quad(face, quads.last())
        }
    }

    /// The data with the first `faces` groups added in order.
    pub open spec fn push_groups(self, groups: Seq<Seq<Quad>>, faces: int) -> MeshData
        decreases faces,
    {
        if faces <= 0 {
            self
        } else {
            self.push_groups(groups, faces - 1).push_group(faces - 1, groups[faces - 1])
        }
    }

    /// The vertex data of six groups of quads.
    pub open spec fn of_groups(groups: Seq<Seq<Quad>>) -> MeshData {
        MeshData::empty().push_groups(groups, 6)
    }

    /// The number of quads behind the data.
    pub open spec fn quads(self) -> int {
        self.positions.len() as int / 4
    }

    /// Four vertices and six indices per quad, every index pointing at a vertex.
    pub open spec fn wf(self) -> bool {
        &&& self.positions.len() % 4 == 0
        &&& self.normals.len() == self.positions.len()
        &&& self.tex_coords.len() == self.positions.len()
        &&& self.indices.len() == 6 * self.quads()
        &&& forall|i: int| 0 <= i < self.indices.len() ==> (#[trigger] self.indices[i]) < self.positions.len()
    }
}

/// The number of quads in the first `faces` groups.
pub open spec fn quad_count(groups: Seq<Seq<Quad>>, faces: int) -> int
    decreases faces,
{
    if faces <= 0 {
        0
    } else {
        quad_count(groups, faces - 1) + groups[faces - 1].len()
    }
}

/// Adding one quad keeps the data well formed and adds one quad to its count.
pub proof fn lemma_push_quad(m: MeshData, face: int, q: Quad)
    requires
        m.wf(),
        0 <= face < 6,
        m.positions.len() + 3 <= u32::MAX,
    ensures
        m.push_quad(face, q).wf(),
        m.push_quad(face, q).quads() == m.quads() + 1,
{
    let r = m.push_quad(face, q);
    let start = m.positions.len() as int;
    assert(quad_corners(face, q).len() == 4);
    assert(quad_tex_coords(face, q).len() == 4);
    assert(quad_indices(face, start).len() == 6);
    assert forall|i: int| 0 <= i < r.indices.len() implies (#[trigger] r.indices[i])
        < r.positions.len() by {
        if i >= m.indices.len() {
            let j = i - m.indices.len();
            assert(r.indices[i] == quad_indices(face, start)[j]);
            assert(0 <= j < 6);
        } else {
            assert(r.indices[i] == m.indices[i]);
        }
    }
}

/// Adding a group keeps the data well formed and adds its quads to the count.
pub proof fn lemma_push_group(m: MeshData, face: int, quads: Seq<Quad>)
    requires
        m.wf(),
        0 <= face < 6,
        m.positions.len() + 4 * quads.len() <= u32::MAX,
    ensures
        m.push_group(face, quads).wf(),
        m.push_group(face, quads).quads() == m.quads() + quads.len(),
    decreases quads.len(),
{
    if quads.len() > 0 {
        lemma_push_group(m, face, quads.drop_last());
        lemma_push_quad(m.push_group(face, quads.drop_last()), face, quads.last());
    }
}

/// The vertex data of six groups is well formed: four vertices and six
/// indices for every quad, and every index points at a vertex.
pub proof fn lemma_mesh_data_wf(groups: Seq<Seq<Quad>>, faces: int)
    requires
        0 <= faces <= 6,
        groups.len() == 6,
        4 * quad_count(groups, faces) <= u32::MAX,
    ensures
        MeshData::empty().push_groups(groups, faces).wf(),
        MeshData::empty().push_groups(groups, faces).quads() == quad_count(groups, faces),
        MeshData::empty().push_groups(groups, faces).positions.len() == 4 * quad_count(
            groups,
            faces,
        ),
        MeshData::empty().push_groups(groups, faces).indices.len() == 6 * quad_count(groups, faces),
    decreases faces,
{
    if faces > 0 {
        lemma_quad_count_nonneg(groups, faces - 1);
        lemma_mesh_data_wf(groups, faces - 1);
        lemma_push_group(
            MeshData::empty().push_groups(groups, faces - 1),
            faces - 1,
            groups[faces - 1],
        );
    }
}

/// A count of quads is not negative.
pub proof fn lemma_quad_count_nonneg(groups: Seq<Seq<Quad>>, faces: int)
    ensures
        quad_count(groups, faces) >= 0,
    decreases faces,
{
    if faces > 0 {
        lemma_quad_count_nonneg(groups, faces - 1);
    }
}

/// The mesh of one chunk.
pub struct ChunkMesh {
    /// The merged quads, one group per face.
    pub quads: Vec<Vec<Quad>>,
    /// Four corners per quad.
    pub positions: Vec<UVec3>,
    /// The normal of each vertex.
    pub normals: Vec<IVec3>,
    /// The texture coordinate of each vertex.
    pub tex_coords: Vec<TexCoord>,
    /// Six indices into the vertices per quad.
    pub indices: Vec<u32>,
}

impl ChunkMesh {
    /// The vertex data of the mesh.
    pub open spec fn data(self) -> MeshData {
        MeshData {
            positions: self.positions@,
            normals: self.normals@,
            tex_coords: self.tex_coords@,
            indices: self.indices@,
        }
    }

    /// The number of quads of the mesh.
    pub fn num_quads(&self) -> (n: usize)
        ensures
            n == self.positions.len() / 4,
    {
        self.positions.len() / 4
    }
}

/// Whether six groups of quads are small enough for 32-bit vertex data:
/// every coordinate and extent is below 2^24 and no group holds more than
/// 2^27 quads.
pub open spec fn quads_fit(groups: Seq<Seq<Quad>>) -> bool {
    &&& groups.len() == 6
    &&& forall|f: int| 0 <= f < 6 ==> (#[trigger] groups[f]).len() <= 0x800_0000
    &&& forall|f: int, k: int|
        0 <= f < 6 && 0 <= k < groups[f].len() ==> {
            let q = #[trigger] groups[f][k];
            &&& q.x < 0x100_0000
            &&& q.y < 0x100_0000
            &&& q.z < 0x100_0000
            &&& q.width < 0x100_0000
            &&& q.height < 0x100_0000
        }
}

/// The cell of the chunk interior at position `i` of a chunk's blocks.
pub open spec fn interior_cell(i: int) -> (int, int, int) {
    (i % 16 + 1, (i / 16) % 16 + 1, i / 256 + 1)
}

/// The cells of the chunk interior.
pub open spec fn interior_cells() -> Set<(int, int, int)> {
    Set::new(|p: (int, int, int)| in_interior(p))
}

/// The faces of interior blocks that are to be drawn on face `face`, each
/// given by its block.
pub open spec fn faces_shown(voxels: Seq<Block>, face: int) -> Set<(int, int, int)> {
    Set::new(|p: (int, int, int)| in_interior(p) && face_shows(voxels, face, p))
}

/// The chunk interior has 4096 cells.
pub proof fn lemma_interior_cells()
    ensures
        interior_cells().finite(),
        interior_cells().len() == 4096,
{
    let range = vstd::set_lib::set_int_range(0, 4096);
    let cell = |i: int| interior_cell(i);
    vstd::set_lib::lemma_int_range(0, 4096);
    assert forall|p: (int, int, int)| interior_cells().contains(p) implies range.map(
        cell,
    ).contains(p) by {
        let i = (p.0 - 1) + 16 * (p.1 - 1) + 256 * (p.2 - 1);
        assert(range.contains(i));
        assert(cell(i) == p);
    }
    assert forall|p: (int, int, int)| range.map(cell).contains(p) implies interior_cells().contains(
        p,
    ) by {
        let i = choose|i: int| range.contains(i) && cell(i) == p;
        assert(in_interior(interior_cell(i)));
    }
    assert(range.map(cell) =~= interior_cells());
    assert(vstd::relations::injective_on(cell, range)) by {
        assert forall|i: int, j: int|
            range.contains(i) && range.contains(j) && cell(i) == cell(j) implies i == j by {
            assert(i == (i % 16) + 16 * ((i / 16) % 16) + 256 * (i / 256));
            assert(j == (j % 16) + 16 * ((j / 16) % 16) + 256 * (j / 256));
        }
    }
    vstd::set_lib::lemma_map_size(range, interior_cells(), cell);
}

/// Merging never adds faces: a group holds no more quads than there are
/// faces to be drawn on its side, which are at most 4096, one per block of
/// the chunk.
pub proof fn lemma_quads_at_most_faces(voxels: Seq<Block>, groups: Seq<Seq<Quad>>, face: int)
    requires
        quads_well_placed(groups),
        quads_sound(voxels, groups),
        quads_disjoint(groups),
        0 <= face < 6,
    ensures
        faces_shown(voxels, face).finite(),
        groups[face].len() <= faces_shown(voxels, face).len(),
        faces_shown(voxels, face).len() <= 4096,
{
    let group = groups[face];
    let shown = faces_shown(voxels, face);
    lemma_interior_cells();
    assert(shown.subset_of(interior_cells()));
    vstd::set_lib::lemma_len_subset(shown, interior_cells());
    let starts = Seq::new(group.len(), |k: int| group[k].minimum());
    assert forall|k: int| 0 <= k < group.len() implies group[k].covers(face, #[trigger] starts[k])
        && shown.contains(starts[k]) by {
        let q = groups[face][k];
        assert(in_interior(q.minimum()));
        assert(q.covers(face, q.minimum()));
    }
    assert forall|j: int, k: int| 0 <= j < k < starts.len() implies starts[j] != starts[k] by {
        assert(groups[face][j].covers(face, starts[j]));
        assert(groups[face][k].covers(face, starts[k]));
    }
    starts.unique_seq_to_set();
    assert(starts.to_set().subset_of(shown)) by {
        assert forall|p: (int, int, int)| starts.to_set().contains(p) implies shown.contains(p) by {
            let k = choose|k: int| 0 <= k < starts.len() && starts[k] == p;
            assert(shown.contains(starts[k]));
        }
    }
    vstd::set_lib::lemma_len_subset(starts.to_set(), shown);
}

/// Quads that the mesher placed in the padded volume are small enough
/// for 32-bit vertex data.
pub proof fn lemma_well_placed_fit(voxels: Seq<Block>, groups: Seq<Seq<Quad>>)
    requires
        quads_well_placed(groups),
        quads_sound(voxels, groups),
        quads_disjoint(groups),
    ensures
        quads_fit(groups),
{
    assert forall|f: int| 0 <= f < 6 implies (#[trigger] groups[f]).len() <= 0x800_0000 by {
        lemma_quads_at_most_faces(voxels, groups, f);
    }
    assert forall|f: int, k: int| 0 <= f < 6 && 0 <= k < groups[f].len() implies {
        let q = #[trigger] groups[f][k];
        &&& q.x < 0x100_0000
        &&& q.y < 0x100_0000
        &&& q.z < 0x100_0000
        &&& q.width < 0x100_0000
        &&& q.height < 0x100_0000
    } by {
        let q = groups[f][k];
        assert(in_interior(q.minimum()));
        assert(along(q.minimum(), face_u_axis(f)) + q.width <= 17);
        assert(along(q.minimum(), face_v_axis(f)) + q.height <= 17);
    }
}

/// Appends the vertex data of quad `q` on face `face` to the four lists.
fn push_quad_data(
    positions: &mut Vec<UVec3>,
    normals: &mut Vec<IVec3>,
    tex_coords: &mut Vec<TexCoord>,
    indices: &mut Vec<u32>,
    face: usize,
    q: &Quad,
)
    requires
        face < 6,
        q.fits(),
        q.width <= 0x100_0000,
        q.height <= 0x100_0000,
        old(positions).len() + 3 <= u32::MAX,
    ensures
        (MeshData {
            positions: final(positions)@,
            normals: final(normals)@,
            tex_coords: final(tex_coords)@,
            indices: final(indices)@,
        }) == (MeshData {
            positions: old(positions)@,
            normals: old(normals)@,
            tex_coords: old(tex_coords)@,
            indices: old(indices)@,
        }).push_quad(face as int, *q),
{
    let start: u32 = positions.len() as u32;
    let quad_index = indices_on_face(face, start);
    let corners = corners_on_face(face, q);
    let normal = normal_of_face(face);
    let coords = tex_coords_on_face(face, q);
    let mut i: usize = 0;
    while i < 6
        invariant
            i <= 6,
            indices@ == old(indices)@ + quad_index@.take(i as int),
        decreases 6 - i,
    {
        indices.push(quad_index[i]);
        i += 1;
        assert(indices@ =~= old(indices)@ + quad_index@.take(i as int));
    }
    assert(quad_index@.take(6) =~= quad_index@);
    let mut j: usize = 0;
    while j < 4
        invariant
            j <= 4,
            positions@ == old(positions)@ + corners@.take(j as int),
            normals@ == old(normals)@ + Seq::new(j as nat, |i: int| normal),
            tex_coords@ == old(tex_coords)@ + coords@.take(j as int),
        decreases 4 - j,
    {
        positions.push(corners[j]);
        normals.push(normal);
        tex_coords.push(coords[j]);
        j += 1;
        assert(positions@ =~= old(positions)@ + corners@.take(j as int));
        assert(normals@ =~= old(normals)@ + Seq::new(j as nat, |i: int| normal));
        assert(tex_coords@ =~= old(tex_coords)@ + coords@.take(j as int));
    }
    assert(corners@.take(4) =~= corners@);
    assert(coords@.take(4) =~= coords@);
}

/// Makes the vertex data of six groups of quads: for each quad, in the
/// order of the groups, four corners with their normals and texture
/// coordinates, and the six indices of its two triangles.
pub fn assemble_mesh(groups: Vec<Vec<Quad>>) -> (mesh: ChunkMesh)
    requires
        quads_fit(groups_view(groups)),
    ensures
        mesh.quads == groups,
        mesh.data() == MeshData::of_groups(groups_view(groups)),
        mesh.data().wf(),
        mesh.positions.len() == 4 * quad_count(groups_view(groups), 6),
        mesh.indices.len() == 6 * quad_count(groups_view(groups), 6),
{
    let ghost gv = groups_view(groups);
    let mut positions: Vec<UVec3> = Vec::new();
    let mut normals: Vec<IVec3> = Vec::new();
    let mut tex_coords: Vec<TexCoord> = Vec::new();
    let mut indices: Vec<u32> = Vec::new();
    let mut face: usize = 0;
    while face < 6
        invariant
            face <= 6,
            gv == groups_view(groups),
            quads_fit(gv),
            (MeshData {
                positions: positions@,
                normals: normals@,
                tex_coords: tex_coords@,
                indices: indices@,
            }) == MeshData::empty().push_groups(gv, face as int),
            positions.len() == 4 * quad_count(gv, face as int),
            0 <= quad_count(gv, face as int) <= face * 0x800_0000,
        decreases 6 - face,
    {
        let group = &groups[face];
        assert(group@ == gv[face as int]);
        let ghost before = MeshData::empty().push_groups(gv, face as int);
        let mut k: usize = 0;
        while k < group.len()
            invariant
                k <= group.len(),
                face < 6,
                group@ == gv[face as int],
                quads_fit(gv),
                (MeshData {
                    positions: positions@,
                    normals: normals@,
                    tex_coords: tex_coords@,
                    indices: indices@,
                }) == before.push_group(face as int, group@.take(k as int)),
                positions.len() == 4 * (quad_count(gv, face as int) + k),
                0 <= quad_count(gv, face as int) <= face * 0x800_0000,
            decreases group.len() - k,
        {
            let q = &group[k];
            assert(*q == gv[face as int][k as int]);
            proof {
                assert(group@.take(k + 1).drop_last() =~= group@.take(k as int));
                assert(group@.take(k + 1).last() == *q);
            }
            push_quad_data(&mut positions, &mut normals, &mut tex_coords, &mut indices, face, q);
            k += 1;
        }
        assert(group@.take(k as int) =~= group@);
        face += 1;
    }
    proof {
        lemma_mesh_data_wf(gv, 6);
    }
    ChunkMesh { quads: groups, positions, normals, tex_coords, indices }
}

/// Generates the mesh of the loaded chunk at `index`: builds its padded
/// volume, merges the faces to be drawn into quads, and makes the vertex
/// data of those quads.
///
/// The quads are those that greedy meshing makes of the padded volume. They
/// cover only faces that are to be drawn, and every such face of a block of
/// the chunk.
pub fn generate_greedy_mesh(chunks: &LoadedChunks, index: IVec3) -> (mesh: ChunkMesh)
    requires
        chunks.wf(),
        chunks.loaded(index),
    ensures
        groups_view(mesh.quads) == greedy_quads_of(padded_samples(*chunks, index)),
        mesh.data() == MeshData::of_groups(groups_view(mesh.quads)),
        mesh.data().wf(),
        mesh.positions.len() == 4 * quad_count(groups_view(mesh.quads), 6),
        mesh.indices.len() == 6 * quad_count(groups_view(mesh.quads), 6),
        quads_well_placed(groups_view(mesh.quads)),
        quads_sound(padded_samples(*chunks, index), groups_view(mesh.quads)),
        quads_disjoint(groups_view(mesh.quads)),
        quads_complete(padded_samples(*chunks, index), groups_view(mesh.quads)),
{
    let samples = build_samples(chunks, index);
    let groups = greedy_quads_padded(&samples);
    proof {
        lemma_well_placed_fit(samples@, groups_view(groups));
    }
    assemble_mesh(groups)
}

/// No quad lies between two solid blocks: where every block of the volume
/// is opaque or empty, the block behind a covered face is opaque and the
/// block that the face looks at is empty.
pub proof fn lemma_no_internal_faces(
    voxels: Seq<Block>,
    groups: Seq<Seq<Quad>>,
    f: int,
    k: int,
    p: (int, int, int),
)
    requires
        quads_sound(voxels, groups),
        0 <= f < 6,
        0 <= k < groups[f].len(),
        groups[f][k].covers(f, p),
    ensures
        visibility_at(voxels, p) == Visibility::Opaque,
        visibility_at(voxels, moved(p, face_normal_axis(f), face_sign(f))) == Visibility::Empty,
        voxels[padded_offset(p.0, p.1, p.2)].block_type.spec_collidable(),
        !voxels[padded_offset(
            moved(p, face_normal_axis(f), face_sign(f)).0,
            moved(p, face_normal_axis(f), face_sign(f)).1,
            moved(p, face_normal_axis(f), face_sign(f)).2,
        )].block_type.spec_collidable(),
{
}

} // verus!
