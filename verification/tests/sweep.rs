use voxel_world::coords::IVec3;
use voxel_world::sweep::first_contact;
use voxel_world::sweep::swept_contact;
use voxel_world::sweep::time_key;
use voxel_world::sweep::AxisSweep;
use voxel_world::sweep::Contact;
use voxel_world::sweep::ResolveAction;
use voxel_world::sweep::Resolver;
use voxel_world::sweep::TIME_ONE;
use voxel_world::sweep::TIME_ZERO;

fn key(t: f32) -> i32 {
    time_key(t.to_bits())
}

/// The sweep along one axis of a box from `low` to `high` that moves by
/// `velocity` against the block from `block` to `block + 1`.
fn axis(low: f32, high: f32, velocity: f32, block: f32) -> AxisSweep {
    let (to_entry, to_exit) =
        if velocity > 0.0 { (block - high, block + 1.0 - low) } else { (block + 1.0 - low, block - high) };
    let (entry, exit) = if velocity == 0.0 {
        (f32::NEG_INFINITY, f32::INFINITY)
    } else {
        (to_entry / velocity, to_exit / velocity)
    };
    AxisSweep { entry: key(entry), exit: key(exit), entry_negative: to_entry < 0.0 }
}

fn at(time: f32) -> Option<Contact> {
    Some(Contact { axis: 0, normal: IVec3::new(1, 0, 0), time: key(time) })
}

#[test]
fn time_keys_order_as_the_times() {
    let times = [
        f32::NEG_INFINITY,
        -1.0e30,
        -2.0,
        -1.0,
        -0.5,
        -1.0e-30,
        0.0,
        1.0e-30,
        0.1,
        0.5,
        1.0,
        1.5,
        1.0e30,
        f32::INFINITY,
    ];
    for pair in times.windows(2) {
        assert!(key(pair[0]) < key(pair[1]), "{} before {}", pair[0], pair[1]);
    }
    assert_eq!(key(0.0), TIME_ZERO);
    assert_eq!(key(-0.0), TIME_ZERO);
    assert_eq!(key(1.0), TIME_ONE);
    assert_eq!(time_key(0x8000_0001), -1);
    assert_eq!(time_key(0xffff_ffff), -0x7fff_ffff);
    assert_eq!(time_key(0x7fff_ffff), 0x7fff_ffff);
}

#[test]
fn a_falling_box_meets_the_floor_block_when_its_bottom_reaches_it() {
    // A box of 0.4 x 1.8 x 0.4 at (0, 1, 0) falls by 10 onto the block at (0, -1, 0),
    // whose top is at y = 0.
    let x = axis(0.0, 0.4, 0.0, 0.0);
    let y = axis(1.0, 2.8, -10.0, -1.0);
    let z = axis(0.0, 0.4, 0.0, 0.0);
    let contact = swept_contact(x, y, z).unwrap();
    assert_eq!(contact.axis, 1);
    assert_eq!(contact.normal, IVec3::new(0, 1, 0));
    assert_eq!(contact.time, key(0.1));
    // At that time the bottom of the box is at the top of the block.
    assert_eq!(1.0 + (-10.0f32) * f32::from_bits(contact.time as u32), 0.0);
}

#[test]
fn a_box_that_stops_short_of_the_block_does_not_meet_it() {
    let x = axis(0.0, 0.4, 0.0, 0.0);
    let y = axis(1.0, 2.8, -0.5, -1.0);
    let z = axis(0.0, 0.4, 0.0, 0.0);
    assert_eq!(swept_contact(x, y, z), None);
}

#[test]
fn a_box_that_moves_away_does_not_meet_the_block() {
    let x = axis(0.0, 0.4, 0.0, 0.0);
    let y = axis(1.0, 2.8, 3.0, -1.0);
    let z = axis(0.0, 0.4, 0.0, 0.0);
    assert_eq!(swept_contact(x, y, z), None);
}

#[test]
fn a_box_that_passes_beside_the_block_does_not_meet_it() {
    // It has left the block's extent on x before it enters on y.
    let x = axis(0.0, 0.4, 8.0, 1.0);
    let y = axis(3.0, 4.8, -4.0, 0.0);
    let z = axis(0.0, 0.4, 0.0, 0.0);
    let hit = swept_contact(x, y, z);
    assert_eq!(hit, None);
}

#[test]
fn the_axis_entered_last_is_the_axis_of_the_contact() {
    // Moving by (2, -1, 0) towards a block that is reached on x first and on y later.
    let x = axis(0.0, 1.0, 2.0, 1.5);
    let y = axis(1.5, 2.5, -1.0, 0.0);
    let z = axis(0.0, 1.0, 0.0, 0.0);
    let contact = swept_contact(x, y, z).unwrap();
    assert_eq!(contact.axis, 1);
    assert_eq!(contact.normal, IVec3::new(0, 1, 0));
    assert_eq!(contact.time, key(0.5));
    let towards_x = swept_contact(axis(0.0, 1.0, 2.0, 2.0), axis(0.2, 1.2, -1.0, 0.0), z).unwrap();
    assert_eq!(towards_x.axis, 0);
    assert_eq!(towards_x.normal, IVec3::new(-1, 0, 0));
    assert_eq!(towards_x.time, key(0.5));
}

#[test]
fn of_axes_entered_at_the_same_time_x_comes_before_y_before_z() {
    let a = AxisSweep { entry: key(0.25), exit: key(0.75), entry_negative: false };
    let b = AxisSweep { entry: key(0.125), exit: key(0.75), entry_negative: true };
    assert_eq!(swept_contact(a, a, a).unwrap().axis, 0);
    assert_eq!(swept_contact(b, a, a).unwrap().axis, 1);
    assert_eq!(swept_contact(b, b, a).unwrap().axis, 2);
    assert_eq!(swept_contact(a, b, a).unwrap().axis, 0);
    assert_eq!(swept_contact(b, a, a).unwrap().normal, IVec3::new(0, -1, 0));
    assert_eq!(swept_contact(a, a, b).unwrap().normal, IVec3::new(-1, 0, 0));
    assert_eq!(swept_contact(b, b, b).unwrap().normal, IVec3::new(1, 0, 0));
}

#[test]
fn an_entry_after_the_end_of_the_step_is_no_contact() {
    let late = AxisSweep { entry: key(1.5), exit: key(2.0), entry_negative: false };
    let open = AxisSweep { entry: key(f32::NEG_INFINITY), exit: key(f32::INFINITY), entry_negative: false };
    assert_eq!(swept_contact(late, open, open), None);
    let at_the_end = AxisSweep { entry: key(1.0), exit: key(2.0), entry_negative: false };
    assert_eq!(swept_contact(open, at_the_end, open).unwrap().time, TIME_ONE);
    let at_the_start = AxisSweep { entry: key(0.0), exit: key(2.0), entry_negative: true };
    assert_eq!(swept_contact(open, open, at_the_start).unwrap().time, TIME_ZERO);
}

#[test]
fn the_first_contact_is_the_earliest_and_of_equals_the_first() {
    assert_eq!(first_contact(&vec![]), None);
    assert_eq!(first_contact(&vec![None, None]), None);
    assert_eq!(first_contact(&vec![None, at(0.5), None]), Some(1));
    assert_eq!(first_contact(&vec![at(0.5), at(0.25), at(0.75), at(0.25)]), Some(1));
    assert_eq!(first_contact(&vec![at(0.0), None, at(0.0)]), Some(0));
    assert_eq!(first_contact(&vec![None, at(1.0), at(0.999)]), Some(2));
}

#[test]
fn a_tick_ends_after_as_many_slides_as_the_body_may_make() {
    let mut resolver = Resolver::new(2);
    let hit = at(0.5).unwrap();
    assert_eq!(resolver.step(Some(hit), key(0.5)), ResolveAction::Slide(hit));
    assert_eq!(resolver, Resolver { slides: 1, limit: 2, remaining: key(0.5) });
    assert_eq!(resolver.step(Some(hit), key(0.25)), ResolveAction::Slide(hit));
    assert_eq!(resolver, Resolver { slides: 2, limit: 2, remaining: key(0.25) });
    assert_eq!(resolver.step(Some(hit), key(0.125)), ResolveAction::Halt);
    assert_eq!(resolver, Resolver { slides: 2, limit: 2, remaining: TIME_ZERO });
}

#[test]
fn a_tick_ends_when_nothing_is_in_the_way() {
    let mut resolver = Resolver::new(3);
    assert_eq!(resolver, Resolver { slides: 0, limit: 3, remaining: TIME_ONE });
    assert_eq!(resolver.step(None, key(0.5)), ResolveAction::Finish);
    assert_eq!(resolver, Resolver { slides: 0, limit: 3, remaining: TIME_ZERO });
    assert_eq!(Resolver::new(0).step(None, TIME_ONE), ResolveAction::Finish);
    assert_eq!(Resolver::new(0).step(at(0.0), TIME_ONE), ResolveAction::Halt);
}

#[test]
fn the_share_of_the_tick_that_is_left_never_grows() {
    let hit = at(0.0).unwrap();
    let mut resolver = Resolver::new(8);
    // A contact at the very start leaves the whole share, and counts as a slide.
    assert_eq!(resolver.step(Some(hit), TIME_ONE), ResolveAction::Slide(hit));
    assert_eq!(resolver.step(Some(hit), key(0.5)), ResolveAction::Slide(hit));
    // A larger share than the one that is left ends the tick, and so does a negative one.
    assert_eq!(resolver.step(Some(hit), key(0.75)), ResolveAction::Halt);
    assert_eq!(resolver.remaining, TIME_ZERO);
    let mut other = Resolver::new(8);
    assert_eq!(other.step(Some(hit), key(-0.5)), ResolveAction::Halt);
    let mut spent = Resolver::new(8);
    assert_eq!(spent.step(Some(hit), TIME_ZERO), ResolveAction::Slide(hit));
    assert_eq!(spent, Resolver { slides: 1, limit: 8, remaining: TIME_ZERO });
}
