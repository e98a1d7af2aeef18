//! The block side of collision detection: which blocks a moving box can
//! reach in one step, and which of them stop it.

use crate::coords::IVec3;
use crate::dirty::add_no_dupe;
use crate::dirty::lemma_push_unique;
use crate::store::LoadedChunks;
use vstd::prelude::*;

verus! {

/// A box of blocks: every block `p` with `min <= p <= max` on each axis.
#[derive(Clone, Copy, Debug, PartialEq, Eq, Structural)]
pub struct BlockBox {
    pub min: IVec3,
    pub max: IVec3,
}

/// Whether `a` comes before `b` when blocks are walked with x running
/// fastest, then y, then z.
pub open spec fn walk_lt(a: IVec3, b: IVec3) -> bool {
    a.z < b.z || (a.z == b.z && (a.y < b.y || (a.y == b.y && a.x < b.x)))
}

impl BlockBox {
    /// Whether the block `p` lies in the box.
    pub open spec fn contains(self, p: IVec3) -> bool {
        &&& self.min.x <= p.x <= self.max.x
        &&& self.min.y <= p.y <= self.max.y
        &&& self.min.z <= p.z <= self.max.z
    }

    /// Whether the box holds no block.
    pub open spec fn is_empty(self) -> bool {
        self.min.x > self.max.x || self.min.y > self.max.y || self.min.z > self.max.z
    }

    /// The block after `p` in the walk of the box, if there is one.
    pub open spec fn successor(self, p: IVec3) -> Option<IVec3> {
        if p.x < self.max.x {
            Some(IVec3 { x: (p.x + 1) as i32, y: p.y, z: p.z })
        } else if p.y < self.max.y {
            Some(IVec3 { x: self.min.x, y: (p.y + 1) as i32, z: p.z })
        } else if p.z < self.max.z {
            Some(IVec3 { x: self.min.x, y: self.min.y, z: (p.z + 1) as i32 })
        } else {
            None
        }
    }

    /// The first block of the walk of the box, if the box is not empty.
    pub open spec fn first(self) -> Option<IVec3> {
        if self.is_empty() {
            None
        } else {
            Some(self.min)
        }
    }

    /// The face of the box that leads when it moves along `axis`: the layer
    /// at the maximum of that axis when moving in the positive direction,
    /// at the minimum otherwise.
    pub open spec fn spec_leading_face(self, axis: int, positive: bool) -> BlockBox {
        if axis == 0 {
            let x = if positive {
                self.max.x
            } else {
                self.min.x
            };
            BlockBox {
                min: IVec3 { x, y: self.min.y, z: self.min.z },
                max: IVec3 { x, y: self.max.y, z: self.max.z },
            }
        } else if axis == 1 {
            let y = if positive {
                self.max.y
            } else {
                self.min.y
            };
            BlockBox {
                min: IVec3 { x: self.min.x, y, z: self.min.z },
                max: IVec3 { x: self.max.x, y, z: self.max.z },
            }
        } else {
            let z = if positive {
                self.max.z
            } else {
                self.min.z
            };
            BlockBox {
                min: IVec3 { x: self.min.x, y: self.min.y, z },
                max: IVec3 { x: self.max.x, y: self.max.y, z },
            }
        }
    }

    /// Whether the block `p` lies in the box.
    pub fn has(&self, p: IVec3) -> (r: bool)
        ensures
            r == self.contains(p),
    {
        self.min.x <= p.x && p.x <= self.max.x && self.min.y <= p.y && p.y <= self.max.y
            && self.min.z <= p.z && p.z <= self.max.z
    }

    /// The face of the box that leads when it moves along `axis`.
    pub fn leading_face(&self, axis: usize, positive: bool) -> (face: BlockBox)
        requires
            axis < 3,
        ensures
            face == self.spec_leading_face(axis as int, positive),
    {
        if axis == 0 {
            let x: i32 = if positive {
                self.max.x
            } else {
                self.min.x
            };
            BlockBox {
                min: IVec3 { x, y: self.min.y, z: self.min.z },
                max: IVec3 { x, y: self.max.y, z: self.max.z },
            }
        } else if axis == 1 {
            let y: i32 = if positive {
                self.max.y
            } else {
                self.min.y
            };
            BlockBox {
                min: IVec3 { x: self.min.x, y, z: self.min.z },
                max: IVec3 { x: self.max.x, y, z: self.max.z },
            }
        } else {
            let z: i32 = if positive {
                self.max.z
            } else {
                self.min.z
            };
            BlockBox {
                min: IVec3 { x: self.min.x, y: self.min.y, z },
                max: IVec3 { x: self.max.x, y: self.max.y, z },
            }
        }
    }

    /// The walk visits the blocks of the box in order and leaves none out:
    /// the successor of a block of the box lies in the box, and the blocks
    /// of the box before it are the block itself and those before the block;
    /// where there is no successor, the block is the last of the box.
    pub proof fn lemma_successor(self, p: IVec3, q: IVec3)
        requires
            self.contains(p),
            self.contains(q),
        ensures
            match self.successor(p) {
                Some(s) => self.contains(s) && walk_lt(p, s) && (walk_lt(q, s) <==> (q == p
                    || walk_lt(q, p))),
                None => q == p || walk_lt(q, p),
            },
    {
    }

    /// The walk starts at the first block of the box: no block of the box
    /// comes before it, and an empty box has no block.
    pub proof fn lemma_first(self, q: IVec3)
        requires
            self.contains(q),
        ensures
            self.first() == Some(self.min),
            self.contains(self.min),
            !walk_lt(q, self.min),
    {
    }
}

/// Walks the blocks of a box, x running fastest, then y, then z.
pub struct WithinBoxIterator {
    position: IVec3,
    done: bool,
    min: IVec3,
    max: IVec3,
}

impl WithinBoxIterator {
    /// The box that is walked.
    pub closed spec fn bounds(self) -> BlockBox {
        BlockBox { min: self.min, max: self.max }
    }

    /// The block that the next call of `next` returns, if any is left.
    pub closed spec fn pending(self) -> Option<IVec3> {
        if self.done {
            None
        } else {
            Some(self.position)
        }
    }

    /// What is pending lies in the box.
    pub open spec fn wf(self) -> bool {
        match self.pending() {
            Some(p) => self.bounds().contains(p),
            None => true,
        }
    }

    /// A walk of the box from `min` to `max`, both included, at its start.
    /// A box with `min` above `max` on some axis has no block.
    pub fn new(min: IVec3, max: IVec3) -> (it: WithinBoxIterator)
        ensures
            it.wf(),
            it.bounds() == (BlockBox { min, max }),
            it.pending() == (BlockBox { min, max }).first(),
    {
        let done = min.x > max.x || min.y > max.y || min.z > max.z;
        WithinBoxIterator { position: min, done, min, max }
    }

    /// The pending block, and a step to the one after it; `None`, and no
    /// step, when the walk is over.
    pub fn next(&mut self) -> (r: Option<IVec3>)
        requires
            old(self).wf(),
        ensures
            final(self).wf(),
            final(self).bounds() == old(self).bounds(),
            r == old(self).pending(),
            final(self).pending() == match old(self).pending() {
                Some(p) => old(self).bounds().successor(p),
                None => None,
            },
    {
        if self.done {
            return None;
        }
        let p = self.position;
        if p.x < self.max.x {
            self.position = IVec3 { x: p.x + 1, y: p.y, z: p.z };
        } else if p.y < self.max.y {
            self.position = IVec3 { x: self.min.x, y: p.y + 1, z: p.z };
        } else if p.z < self.max.z {
            self.position = IVec3 { x: self.min.x, y: self.min.y, z: p.z + 1 };
        } else {
            self.done = true;
        }
        Some(p)
    }
}

/// The sign of `v`: -1, 0 or 1.
pub open spec fn spec_signum(v: i32) -> i32 {
    if v > 0 {
        1
    } else if v < 0 {
        -1i32
    } else {
        0
    }
}

/// The coordinate of `v` along `axis`.
pub open spec fn component(v: IVec3, axis: int) -> i32 {
    if axis == 0 {
        v.x
    } else if axis == 1 {
        v.y
    } else {
        v.z
    }
}

/// The coordinate of `v` along `axis`.
pub fn component_of(v: IVec3, axis: usize) -> (c: i32)
    requires
        axis < 3,
    ensures
        c == component(v, axis as int),
{
    if axis == 0 {
        v.x
    } else if axis == 1 {
        v.y
    } else {
        v.z
    }
}

/// Whether the box with block bounds `bounds` moves along `axis` and `block`
/// lies on its leading face for that axis.
pub open spec fn on_leading_face(bounds: BlockBox, direction: IVec3, axis: int, block: IVec3) -> bool {
    component(direction, axis) != 0 && bounds.spec_leading_face(
        axis,
        component(direction, axis) > 0,
    ).contains(block)
}

impl LoadedChunks {
    /// Whether some block of `face` is solid and lies in `overlap`.
    pub open spec fn face_blocked(self, face: BlockBox, overlap: BlockBox) -> bool {
        exists|p: IVec3| #[trigger] face.contains(p) && overlap.contains(p) && self.solid_at(p)
    }

    /// The contact normal along `axis` of a box that moves in `direction`:
    /// the sign of the movement along that axis when the leading face of
    /// `bounds` holds a solid block inside `overlap`, else 0.
    pub open spec fn contact_along(
        self,
        direction: IVec3,
        bounds: BlockBox,
        overlap: BlockBox,
        axis: int,
    ) -> i32 {
        let d = component(direction, axis);
        if d != 0 && self.face_blocked(bounds.spec_leading_face(axis, d > 0), overlap) {
            spec_signum(d)
        } else {
            0
        }
    }

    /// Whether `block` is a candidate for a box with the block bounds
    /// `bounds` that moves in `direction`: it is solid and lies on the
    /// leading face of an axis along which the box moves.
    pub open spec fn is_candidate(self, bounds: BlockBox, direction: IVec3, block: IVec3) -> bool {
        &&& self.solid_at(block)
        &&& (on_leading_face(bounds, direction, 0, block) || on_leading_face(
            bounds,
            direction,
            1,
            block,
        ) || on_leading_face(bounds, direction, 2, block))
    }

    /// Whether a moving body is stopped at `world`. Space whose chunk is
    /// not loaded stops it, so that a body cannot leave the loaded world.
    pub fn is_solid(&self, world: IVec3) -> (r: bool)
        requires
            self.wf(),
        ensures
            r == self.solid_at(world),
    {
        match self.get_block(world) {
            Some(block) => block.collidable(),
            None => true,
        }
    }

    /// Whether some block of `face` is solid and lies in `overlap`.
    pub fn blocked(&self, face: BlockBox, overlap: BlockBox) -> (r: bool)
        requires
            self.wf(),
        ensures
            r == self.face_blocked(face, overlap),
    {
        let mut it = WithinBoxIterator::new(face.min, face.max);
        loop
            invariant
                self.wf(),
                it.wf(),
                it.bounds() == face,
                forall|q: IVec3|
                    face.contains(q) && (match it.pending() {
                        Some(p) => walk_lt(q, p),
                        None => true,
                    }) ==> !(overlap.contains(q) && self.solid_at(q)),
            decreases
                    match it.pending() {
                        Some(p) => face.max.z - p.z + 1,
                        None => 0,
                    },
                    match it.pending() {
                        Some(p) => face.max.y - p.y,
                        None => 0,
                    },
                    match it.pending() {
                        Some(p) => face.max.x - p.x,
                        None => 0,
                    },
        {
            match it.next() {
                Some(p) => {
                    if overlap.has(p) && self.is_solid(p) {
                        assert(face.contains(p) && overlap.contains(p) && self.solid_at(p));
                        return true;
                    }
                    proof {
                        assert forall|q: IVec3|
                            face.contains(q) && (match it.pending() {
                                Some(s) => walk_lt(q, s),
                                None => true,
                            }) implies !(overlap.contains(q) && self.solid_at(q)) by {
                            face.lemma_successor(p, q);
                        }
                    }
                },
                None => {
                    return false;
                },
            }
        }
    }

    /// The contact normal of a box against the blocks around it.
    ///
    /// `direction` is the movement of the box, of which only the sign along
    /// each axis counts; `bounds` are the blocks at its two corners;
    /// `overlap` holds the blocks that the box touches. Along every axis on
    /// which the box moves, the normal is the sign of the movement when a
    /// solid block on the leading face of `bounds` lies in `overlap`, and 0
    /// otherwise. Blocks of chunks that are not loaded count as solid.
    pub fn aabb_collides(&self, direction: IVec3, bounds: BlockBox, overlap: BlockBox) -> (normal:
        IVec3)
        requires
            self.wf(),
        ensures
            normal.x == self.contact_along(direction, bounds, overlap, 0),
            normal.y == self.contact_along(direction, bounds, overlap, 1),
            normal.z == self.contact_along(direction, bounds, overlap, 2),
    {
        let x = self.contact(direction, bounds, overlap, 0);
        let y = self.contact(direction, bounds, overlap, 1);
        let z = self.contact(direction, bounds, overlap, 2);
        IVec3 { x, y, z }
    }

    /// The contact normal along one axis.
    fn contact(&self, direction: IVec3, bounds: BlockBox, overlap: BlockBox, axis: usize) -> (n: i32)
        requires
            self.wf(),
            axis < 3,
        ensures
            n == self.contact_along(direction, bounds, overlap, axis as int),
    {
        let d = component_of(direction, axis);
        if d == 0 {
            0
        } else if self.blocked(bounds.leading_face(axis, d > 0), overlap) {
            if d > 0 {
                1
            } else {
                -1
            }
        } else {
            0
        }
    }

    /// Whether `block` is a candidate found on the leading faces of the
    /// axes below `axes`.
    pub open spec fn is_candidate_below(
        self,
        bounds: BlockBox,
        direction: IVec3,
        block: IVec3,
        axes: int,
    ) -> bool {
        &&& self.solid_at(block)
        &&& ((0 < axes && on_leading_face(bounds, direction, 0, block)) || (1 < axes
            && on_leading_face(bounds, direction, 1, block)) || (2 < axes && on_leading_face(
            bounds,
            direction,
            2,
            block,
        )))
    }

    /// The broad phase: the blocks that a box with the block bounds
    /// `bounds` can run into when it moves in `direction`. For every axis
    /// along which it moves, these are the solid blocks on the leading face
    /// of `bounds`, each block once. A box that does not move has none.
    pub fn broadphase(&self, bounds: BlockBox, direction: IVec3) -> (blocks: Vec<IVec3>)
        requires
            self.wf(),
        ensures
            blocks@.no_duplicates(),
            forall|b: IVec3| #[trigger]
                blocks@.contains(b) <==> self.is_candidate(bounds, direction, b),
    {
        let mut blocks: Vec<IVec3> = Vec::new();
        let mut axis: usize = 0;
        while axis < 3
            invariant
                axis <= 3,
                self.wf(),
                blocks@.no_duplicates(),
                forall|b: IVec3| #[trigger]
                    blocks@.contains(b) <==> self.is_candidate_below(
                        bounds,
                        direction,
                        b,
                        axis as int,
                    ),
            decreases 3 - axis,
        {
            let d = component_of(direction, axis);
            if d != 0 {
                self.add_solid(&mut blocks, bounds.leading_face(axis, d > 0));
            }
            axis += 1;
        }
        blocks
    }

    /// Whether `b` is in the list after the solid blocks of `face` that
    /// come before `pending` in the walk have been added to `held`.
    pub open spec fn gathered(
        self,
        held: Seq<IVec3>,
        face: BlockBox,
        pending: Option<IVec3>,
        b: IVec3,
    ) -> bool {
        held.contains(b) || (face.contains(b) && self.solid_at(b) && (match pending {
            Some(p) => walk_lt(b, p),
            None => true,
        }))
    }

    /// Adds the solid blocks of `face` to `blocks`, each unless it is there already.
    fn add_solid(&self, blocks: &mut Vec<IVec3>, face: BlockBox)
        requires
            self.wf(),
            old(blocks)@.no_duplicates(),
        ensures
            final(blocks)@.no_duplicates(),
            forall|b: IVec3| #[trigger]
                final(blocks)@.contains(b) <==> self.gathered(old(blocks)@, face, None, b),
    {
        let mut it = WithinBoxIterator::new(face.min, face.max);
        loop
            invariant
                self.wf(),
                it.wf(),
                it.bounds() == face,
                blocks@.no_duplicates(),
                forall|b: IVec3| #[trigger]
                    blocks@.contains(b) <==> self.gathered(old(blocks)@, face, it.pending(), b),
            decreases
                    match it.pending() {
                        Some(p) => face.max.z - p.z + 1,
                        None => 0,
                    },
                    match it.pending() {
                        Some(p) => face.max.y - p.y,
                        None => 0,
                    },
                    match it.pending() {
                        Some(p) => face.max.x - p.x,
                        None => 0,
                    },
        {
            let ghost held = blocks@;
            let ghost before = it.pending();
            match it.next() {
                Some(p) => {
                    if self.is_solid(p) {
                        add_no_dupe(blocks, p);
                    }
                    proof {
                        lemma_push_unique(held, p);
                        assert forall|b: IVec3| #[trigger]
                            blocks@.contains(b) <==> self.gathered(
                                old(blocks)@,
                                face,
                                it.pending(),
                                b,
                            ) by {
                            assert(held.contains(b) <==> self.gathered(
                                old(blocks)@,
                                face,
                                before,
                                b,
                            ));
                            if face.contains(b) {
                                face.lemma_successor(p, b);
                            }
                        }
                    }
                },
                None => {
                    return ;
                },
            }
        }
    }
}

} // verus!
