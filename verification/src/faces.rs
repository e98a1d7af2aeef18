//! The six faces of a block and the geometry of a quad on each of them.
//!
//! Faces are numbered -x, -y, -z, +x, +y, +z, as the mesher's right-handed
//! coordinate system with y pointing up numbers them. Each face has a normal
//! axis and two axes, u and v, that span it.

use crate::coords::IVec3;
use vstd::prelude::*;

verus! {

/// A merged rectangle of block faces: its minimum block and its extent along
/// the u and v axes of the face it lies on.
#[derive(Clone, Copy, Debug, PartialEq, Eq, Structural)]
pub struct Quad {
    pub x: u32,
    pub y: u32,
    pub z: u32,
    pub width: u32,
    pub height: u32,
}

/// A point with unsigned integer coordinates: a corner of a quad.
#[derive(Clone, Copy, Debug, PartialEq, Eq, Structural)]
pub struct UVec3 {
    pub x: u32,
    pub y: u32,
    pub z: u32,
}

/// A texture coordinate, in whole texture tiles.
#[derive(Clone, Copy, Debug, PartialEq, Eq, Structural)]
pub struct TexCoord {
    pub u: u32,
    pub v: u32,
}

/// The axis (0 for x, 1 for y, 2 for z) along which face `face` looks.
pub open spec fn face_normal_axis(face: int) -> int {
    face % 3
}

/// The axis along which the width of a quad on face `face` runs.
pub open spec fn face_u_axis(face: int) -> int {
    if face % 3 == 2 {
        0
    } else {
        2
    }
}

/// The axis along which the height of a quad on face `face` runs.
pub open spec fn face_v_axis(face: int) -> int {
    if face % 3 == 1 {
        0
    } else {
        1
    }
}

/// The direction in which face `face` looks along its normal axis: -1 or 1.
pub open spec fn face_sign(face: int) -> int {
    if face < 3 {
        -1
    } else {
        1
    }
}

/// The coordinate of `p` along `axis`.
pub open spec fn along(p: (int, int, int), axis: int) -> int {
    if axis == 0 {
        p.0
    } else if axis == 1 {
        p.1
    } else {
        p.2
    }
}

/// `p` moved by `d` along `axis`.
pub open spec fn moved(p: (int, int, int), axis: int, d: int) -> (int, int, int) {
    if axis == 0 {
        (p.0 + d, p.1, p.2)
    } else if axis == 1 {
        (p.0, p.1 + d, p.2)
    } else {
        (p.0, p.1, p.2 + d)
    }
}

impl Quad {
    /// The minimum block of the quad.
    pub open spec fn minimum(self) -> (int, int, int) {
        (self.x as int, self.y as int, self.z as int)
    }

    /// Whether the quad on face `face` covers the face of block `p`.
    pub open spec fn covers(self, face: int, p: (int, int, int)) -> bool {
        let m = self.minimum();
        &&& along(p, face_normal_axis(face)) == along(m, face_normal_axis(face))
        &&& along(m, face_u_axis(face)) <= along(p, face_u_axis(face)) < along(m, face_u_axis(face))
            + self.width
        &&& along(m, face_v_axis(face)) <= along(p, face_v_axis(face)) < along(m, face_v_axis(face))
            + self.height
    }

    /// Whether corner arithmetic on the quad stays within `u32`.
    pub open spec fn fits(self) -> bool {
        &&& self.x < 0x8000_0000
        &&& self.y < 0x8000_0000
        &&& self.z < 0x8000_0000
        &&& self.width < 0x8000_0000
        &&& self.height < 0x8000_0000
    }
}

/// The point with the coordinates of `p`.
pub open spec fn point(p: (int, int, int)) -> UVec3 {
    UVec3 { x: p.0 as u32, y: p.1 as u32, z: p.2 as u32 }
}

/// The four corners of quad `q` on face `face`: the corner at the minimum
/// of u and v, then the one at maximal u, the one at maximal v, and the one
/// at the maximum of both. On a face that looks in the positive direction
/// the corners lie one block further along the normal.
pub open spec fn quad_corners(face: int, q: Quad) -> Seq<UVec3> {
    let base = if face_sign(face) > 0 {
        moved(q.minimum(), face_normal_axis(face), 1)
    } else {
        q.minimum()
    };
    let u = face_u_axis(face);
    let v = face_v_axis(face);
    seq![
        point(base),
        point(moved(base, u, q.width as int)),
        point(moved(base, v, q.height as int)),
        point(moved(moved(base, u, q.width as int), v, q.height as int)),
    ]
}

/// The outward normal of face `face`.
pub open spec fn face_normal(face: int) -> IVec3 {
    let n = moved((0, 0, 0), face_normal_axis(face), face_sign(face));
    IVec3 { x: n.0 as i32, y: n.1 as i32, z: n.2 as i32 }
}

/// Whether the two triangles of a quad on face `face` are wound
/// counter-clockwise in the order of `quad_corners`.
pub open spec fn face_counter_clockwise(face: int) -> bool {
    face == 0 || face == 4 || face == 5
}

/// The six vertex indices of the two triangles of a quad whose first
/// corner has index `start`.
pub open spec fn quad_indices(face: int, start: int) -> Seq<u32> {
    if face_counter_clockwise(face) {
        seq![
            start as u32,
            (start + 1) as u32,
            (start + 2) as u32,
            (start + 1) as u32,
            (start + 3) as u32,
            (start + 2) as u32,
        ]
    } else {
        seq![
            start as u32,
            (start + 2) as u32,
            (start + 1) as u32,
            (start + 1) as u32,
            (start + 2) as u32,
            (start + 3) as u32,
        ]
    }
}

/// Whether the texture runs against the u axis on face `face`.
pub open spec fn face_flips_u(face: int) -> bool {
    face == 1 || face == 2 || face == 3
}

/// The texture coordinates of the four corners of quad `q` on face `face`,
/// in the order of `quad_corners`: the texture repeats once per block, its
/// top towards larger v.
pub open spec fn quad_tex_coords(face: int, q: Quad) -> Seq<TexCoord> {
    if face_flips_u(face) {
        seq![
            TexCoord { u: q.width, v: q.height },
            TexCoord { u: 0, v: q.height },
            TexCoord { u: q.width, v: 0 },
            TexCoord { u: 0, v: 0 },
        ]
    } else {
        seq![
            TexCoord { u: 0, v: q.height },
            TexCoord { u: q.width, v: q.height },
            TexCoord { u: 0, v: 0 },
            TexCoord { u: q.width, v: 0 },
        ]
    }
}

/// Calls `OrientedBlockFace::quad_corners` on face `face` of
/// `block_mesh::RIGHT_HANDED_Y_UP_CONFIG`: the corners listed by
/// `quad_corners`. `requires` keeps the sums within `u32`.
#[verifier::external_body]
pub(crate) fn corners_on_face(face: usize, q: &Quad) -> (r: [UVec3; 4])
    requires
        face < 6,
        q.fits(),
    ensures
        r@ == quad_corners(face as int, *q),
{
    let quad = block_mesh::UnorientedQuad {
        minimum: [q.x, q.y, q.z],
        width: q.width,
        height: q.height,
    };
    block_mesh::RIGHT_HANDED_Y_UP_CONFIG.faces[face].quad_corners(&quad).map(
        |c| UVec3 { x: c.x, y: c.y, z: c.z },
    )
}

/// Calls `OrientedBlockFace::signed_normal` on face `face` of
/// `block_mesh::RIGHT_HANDED_Y_UP_CONFIG`: the unit vector along the face's
/// normal axis, with the face's sign.
#[verifier::external_body]
pub(crate) fn normal_of_face(face: usize) -> (n: IVec3)
    requires
        face < 6,
    ensures
        n == face_normal(face as int),
{
    let n = block_mesh::RIGHT_HANDED_Y_UP_CONFIG.faces[face].signed_normal();
    IVec3 { x: n.x, y: n.y, z: n.z }
}

/// Calls `OrientedBlockFace::quad_mesh_indices` on face `face` of
/// `block_mesh::RIGHT_HANDED_Y_UP_CONFIG`: the indices listed by
/// `quad_indices`. `requires` keeps `start + 3` within `u32`.
#[verifier::external_body]
pub(crate) fn indices_on_face(face: usize, start: u32) -> (r: [u32; 6])
    requires
        face < 6,
        start + 3 <= u32::MAX,
    ensures
        r@ == quad_indices(face as int, start as int),
{
    block_mesh::RIGHT_HANDED_Y_UP_CONFIG.faces[face].quad_mesh_indices(start)
}

/// Calls `OrientedBlockFace::tex_coords` on face `face` of
/// `block_mesh::RIGHT_HANDED_Y_UP_CONFIG`, with that configuration's
/// `u_flip_face` and with v flipped: the coordinates listed by
/// `quad_tex_coords`, which the outside function hands out as whole numbers
/// in floating point. `requires` keeps them exactly representable.
#[verifier::external_body]
pub(crate) fn tex_coords_on_face(face: usize, q: &Quad) -> (r: [TexCoord; 4])
    requires
        face < 6,
        q.width <= 0x100_0000,
        q.height <= 0x100_0000,
    ensures
        r@ == quad_tex_coords(face as int, *q),
{
    let quad = block_mesh::UnorientedQuad {
        minimum: [q.x, q.y, q.z],
        width: q.width,
        height: q.height,
    };
    let config = block_mesh::RIGHT_HANDED_Y_UP_CONFIG;
    config.faces[face].tex_coords(config.u_flip_face, true, &quad).map(
        |t| TexCoord { u: t[0] as u32, v: t[1] as u32 },
    )
}

} // verus!
