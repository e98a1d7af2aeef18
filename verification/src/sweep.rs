//! The decisions of the swept test of a moving box against a block: whether
//! the box meets the block within the step, on which axis, with which
//! normal, and which of several contacts comes first.
//!
//! Times are handed in as integer keys that order as the times do. The key
//! of a single-precision number is made from its bit pattern by `time_key`.

use crate::coords::IVec3;
use vstd::prelude::*;

verus! {

/// The key of the time 0.
pub const TIME_ZERO: i32 = 0;

/// The key of the time 1, the end of the step.
pub const TIME_ONE: i32 = 0x3f80_0000;

/// The key of the bit pattern `bits` of a single-precision number: the
/// pattern without its sign bit, negated where the sign bit is set. Both
/// zeros get the key 0, and the keys of two numbers, infinite ones
/// included, compare as the numbers do.
pub open spec fn spec_time_key(bits: u32) -> int {
    if bits >= 0x8000_0000 {
        -(bits - 0x8000_0000)
    } else {
        bits as int
    }
}

/// The key of the bit pattern `bits` of a single-precision number.
pub fn time_key(bits: u32) -> (k: i32)
    ensures
        k == spec_time_key(bits),
{
    if bits >= 0x8000_0000 {
        -((bits - 0x8000_0000) as i32)
    } else {
        bits as i32
    }
}

/// The sweep along one axis: the keys of the times at which the box
/// enters and leaves the block's extent on that axis, and whether the
/// distance to the entry is negative, that is, whether the box comes from
/// the positive side.
#[derive(Clone, Copy, Debug, PartialEq, Eq, Structural)]
pub struct AxisSweep {
    pub entry: i32,
    pub exit: i32,
    pub entry_negative: bool,
}

/// A contact of the box with a block.
#[derive(Clone, Copy, Debug, PartialEq, Eq, Structural)]
pub struct Contact {
    /// The axis of the contact: 0 for x, 1 for y, 2 for z.
    pub axis: usize,
    /// The normal of the contact: a unit step along the axis.
    pub normal: IVec3,
    /// The key of the time of impact.
    pub time: i32,
}

/// The larger of two keys.
pub open spec fn later(a: int, b: int) -> int {
    if a >= b {
        a
    } else {
        b
    }
}

/// The smaller of two keys.
pub open spec fn sooner(a: int, b: int) -> int {
    if a <= b {
        a
    } else {
        b
    }
}

/// The time at which the box has entered the block on every axis.
pub open spec fn entry_time(x: AxisSweep, y: AxisSweep, z: AxisSweep) -> int {
    later(later(x.entry as int, y.entry as int), z.entry as int)
}

/// The time at which the box has left the block on some axis.
pub open spec fn exit_time(x: AxisSweep, y: AxisSweep, z: AxisSweep) -> int {
    sooner(sooner(x.exit as int, y.exit as int), z.exit as int)
}

/// Whether the box meets the block within the step: it has entered on
/// every axis before it leaves on any, no entry lies after the end of the
/// step, and not every entry lies in the past.
pub open spec fn sweep_hits(x: AxisSweep, y: AxisSweep, z: AxisSweep) -> bool {
    &&& entry_time(x, y, z) <= exit_time(x, y, z)
    &&& x.entry <= TIME_ONE
    &&& y.entry <= TIME_ONE
    &&& z.entry <= TIME_ONE
    &&& !(x.entry < TIME_ZERO && y.entry < TIME_ZERO && z.entry < TIME_ZERO)
}

/// The axis of the contact: the one that is entered last, and of several
/// such axes x before y before z.
pub open spec fn contact_axis(x: AxisSweep, y: AxisSweep, z: AxisSweep) -> int {
    if x.entry >= y.entry && x.entry >= z.entry {
        0
    } else if y.entry >= z.entry {
        1
    } else {
        2
    }
}

/// The unit step along `axis`, towards the positive side where `positive`.
pub open spec fn axis_normal(axis: int, positive: bool) -> IVec3 {
    let s = if positive {
        1i32
    } else {
        -1i32
    };
    if axis == 0 {
        IVec3 { x: s, y: 0, z: 0 }
    } else if axis == 1 {
        IVec3 { x: 0, y: s, z: 0 }
    } else {
        IVec3 { x: 0, y: 0, z: s }
    }
}

/// The contact of a sweep, if the box meets the block: on the axis that is
/// entered last, at the time of that entry, with a normal that points to
/// the side the box comes from.
pub open spec fn spec_swept_contact(x: AxisSweep, y: AxisSweep, z: AxisSweep) -> Option<Contact> {
    if sweep_hits(x, y, z) {
        let axis = contact_axis(x, y, z);
        let from_positive = if axis == 0 {
            x.entry_negative
        } else if axis == 1 {
            y.entry_negative
        } else {
            z.entry_negative
        };
        Some(
            Contact {
                axis: axis as usize,
                normal: axis_normal(axis, from_positive),
                time: entry_time(x, y, z) as i32,
            },
        )
    } else {
        None
    }
}

/// The box touches a block it meets at a time within the step, from its
/// start to its end, and the axis of the contact is the first of those that
/// are entered last.
pub proof fn lemma_contact_in_step(x: AxisSweep, y: AxisSweep, z: AxisSweep)
    requires
        sweep_hits(x, y, z),
    ensures
        spec_swept_contact(x, y, z) is Some,
        TIME_ZERO <= spec_swept_contact(x, y, z).unwrap().time <= TIME_ONE,
        ({
            let axis = contact_axis(x, y, z);
            &&& 0 <= axis < 3
            &&& axis == 0 ==> x.entry == entry_time(x, y, z)
            &&& axis == 1 ==> y.entry == entry_time(x, y, z) && x.entry < y.entry
            &&& axis == 2 ==> z.entry == entry_time(x, y, z) && x.entry < z.entry && y.entry
                < z.entry
        }),
{
}

/// The narrow phase for one block: the contact of the sweep with the
/// per-axis times `x`, `y` and `z`, or `None` when the box does not meet the
/// block within the step.
pub fn swept_contact(x: AxisSweep, y: AxisSweep, z: AxisSweep) -> (c: Option<Contact>)
    ensures
        c == spec_swept_contact(x, y, z),
{
    let entry: i32 = if x.entry >= y.entry && x.entry >= z.entry {
        x.entry
    } else if y.entry >= z.entry {
        y.entry
    } else {
        z.entry
    };
    let exit: i32 = if x.exit <= y.exit && x.exit <= z.exit {
        x.exit
    } else if y.exit <= z.exit {
        y.exit
    } else {
        z.exit
    };
    if entry > exit || x.entry > TIME_ONE || y.entry > TIME_ONE || z.entry > TIME_ONE || (x.entry
        < TIME_ZERO && y.entry < TIME_ZERO && z.entry < TIME_ZERO) {
        return None;
    }
    if x.entry >= y.entry && x.entry >= z.entry {
        let s: i32 = if x.entry_negative {
            1
        } else {
            -1
        };
        Some(Contact { axis: 0, normal: IVec3 { x: s, y: 0, z: 0 }, time: entry })
    } else if y.entry >= z.entry {
        let s: i32 = if y.entry_negative {
            1
        } else {
            -1
        };
        Some(Contact { axis: 1, normal: IVec3 { x: 0, y: s, z: 0 }, time: entry })
    } else {
        let s: i32 = if z.entry_negative {
            1
        } else {
            -1
        };
        Some(Contact { axis: 2, normal: IVec3 { x: 0, y: 0, z: s }, time: entry })
    }
}

/// Whether `i` is the place of the first contact of `contacts`: there is a
/// contact at `i`, none has an earlier time, and none before it has the
/// same time.
pub open spec fn is_first_contact(contacts: Seq<Option<Contact>>, i: int) -> bool {
    &&& 0 <= i < contacts.len()
    &&& contacts[i] is Some
    &&& forall|j: int|
        0 <= j < contacts.len() && contacts[j] is Some ==> contacts[i].unwrap().time
            <= (#[trigger] contacts[j]).unwrap().time
    &&& forall|j: int|
        0 <= j < i && contacts[j] is Some ==> contacts[i].unwrap().time
            < (#[trigger] contacts[j]).unwrap().time
}

/// The place of the contact that comes first among the outcomes of the
/// narrow phase for several blocks: the one with the least time of impact,
/// and of several such the first. `None` when no block is met.
pub fn first_contact(contacts: &Vec<Option<Contact>>) -> (first: Option<usize>)
    ensures
        match first {
            Some(i) => is_first_contact(contacts@, i as int),
            None => forall|j: int| 0 <= j < contacts.len() ==> (#[trigger] contacts[j]) is None,
        },
{
    let mut first: Option<usize> = None;
    let mut best: i32 = 0;
    let mut k: usize = 0;
    while k < contacts.len()
        invariant
            k <= contacts.len(),
            match first {
                Some(i) => is_first_contact(contacts@.take(k as int), i as int) && best
                    == contacts[i as int].unwrap().time,
                None => forall|j: int| 0 <= j < k ==> (#[trigger] contacts[j]) is None,
            },
        decreases contacts.len() - k,
    {
        let ghost seen = contacts@.take(k as int);
        let ghost next = contacts@.take(k + 1);
        assert(forall|j: int| 0 <= j < k ==> next[j] == seen[j]);
        match contacts[k] {
            Some(c) => {
                if first.is_none() || c.time < best {
                    first = Some(k);
                    best = c.time;
                }
            },
            None => {},
        }
        k += 1;
    }
    assert(contacts@.take(k as int) =~= contacts@);
    first
}

/// What a body does next on its way through one tick.
#[derive(Clone, Copy, Debug, PartialEq, Eq, Structural)]
pub enum ResolveAction {
    /// Nothing is in the way: the body moves by all that is left of its
    /// movement, and the tick is over for it.
    Finish,
    /// The body moves up to the contact, loses the part of its velocity
    /// along the normal, and sweeps again with what is left of the tick.
    Slide(Contact),
    /// The body has slid as often as it may in one tick, or the share of
    /// the tick that it claims to have left is none it can have: it stays
    /// where it is, and the tick is over for it.
    Halt,
}

/// The course of one body through one tick: how often it has slid, how
/// often it may, and the key of the share of the tick that it has left.
#[derive(Clone, Copy, Debug, PartialEq, Eq, Structural)]
pub struct Resolver {
    pub slides: usize,
    pub limit: usize,
    pub remaining: i32,
}

impl Resolver {
    /// The body has not slid more often than it may, and what it has left
    /// is a share of the tick.
    pub open spec fn wf(self) -> bool {
        self.slides <= self.limit && TIME_ZERO <= self.remaining <= TIME_ONE
    }

    /// Whether the body may slide once more and be left with the share
    /// `left` of the tick: it has slides left, and `left` is a share that is
    /// not larger than the one it has.
    pub open spec fn may_slide(self, left: i32) -> bool {
        self.slides < self.limit && TIME_ZERO <= left <= self.remaining
    }

    /// What the body does when its sweep ends in `contact` and would leave
    /// it the share `left` of the tick.
    pub open spec fn spec_step(self, contact: Option<Contact>, left: i32) -> ResolveAction {
        match contact {
            None => ResolveAction::Finish,
            Some(c) => if self.may_slide(left) {
                ResolveAction::Slide(c)
            } else {
                ResolveAction::Halt
            },
        }
    }

    /// The course of the body after `action`: a slide is counted and leaves
    /// the share `left`; every other action ends the tick.
    pub open spec fn after(self, action: ResolveAction, left: i32) -> Resolver {
        if action is Slide {
            Resolver { slides: (self.slides + 1) as usize, limit: self.limit, remaining: left }
        } else {
            Resolver { slides: self.slides, limit: self.limit, remaining: TIME_ZERO }
        }
    }

    /// Whether the tick is over for the body.
    pub open spec fn is_over(self) -> bool {
        self.remaining == TIME_ZERO
    }

    /// The start of a tick for a body that may slide `limit` times: the
    /// whole tick is left.
    pub fn new(limit: usize) -> (r: Resolver)
        ensures
            r == (Resolver { slides: 0, limit, remaining: TIME_ONE }),
            r.wf(),
    {
        Resolver { slides: 0, limit, remaining: TIME_ONE }
    }

    /// Decides what the body does when its sweep ends in `contact`, where
    /// moving up to the contact would leave it the share `left` of the tick.
    ///
    /// The tick goes on only after a slide. Every slide uses up one of
    /// those the body may make, so a tick ends after at most `limit` slides,
    /// whatever the sweeps find; and the share of the tick that is left
    /// never grows.
    pub fn step(&mut self, contact: Option<Contact>, left: i32) -> (action: ResolveAction)
        requires
            old(self).wf(),
        ensures
            action == old(self).spec_step(contact, left),
            *final(self) == old(self).after(action, left),
            final(self).wf(),
            final(self).remaining <= old(self).remaining,
            !final(self).is_over() ==> final(self).limit - final(self).slides < old(self).limit
                - old(self).slides,
    {
        match contact {
            None => {
                self.remaining = TIME_ZERO;
                ResolveAction::Finish
            },
            Some(c) => {
                if self.slides < self.limit && TIME_ZERO <= left && left <= self.remaining {
                    self.slides = self.slides + 1;
                    self.remaining = left;
                    ResolveAction::Slide(c)
                } else {
                    self.remaining = TIME_ZERO;
                    ResolveAction::Halt
                }
            },
        }
    }
}

} // verus!
