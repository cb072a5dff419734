use platformer_core::contact::ContactEvent;
use platformer_core::contact::ShapeRole;
use platformer_core::ground::GroundWorld;

const SOLID_A: u64 = 100;
const SOLID_B: u64 = 101;
const ENTITY: u64 = 1;
const PROBE: u64 = 2;

fn world() -> GroundWorld {
    let mut w = GroundWorld::new();
    assert!(w.add_solid(SOLID_A));
    assert!(w.add_solid(SOLID_B));
    assert!(w.spawn_ground_sensor(ENTITY, PROBE));
    w
}

#[test]
fn ground_state_follows_overlapping_contacts() {
    let mut w = world();
    w.step(&vec![ContactEvent::Started(SOLID_A, PROBE)]);
    assert_eq!(w.on_ground(ENTITY), Some(true));
    w.step(&vec![ContactEvent::Started(SOLID_B, PROBE)]);
    assert_eq!(w.on_ground(ENTITY), Some(true));
    w.step(&vec![ContactEvent::Stopped(SOLID_A, PROBE)]);
    assert_eq!(w.on_ground(ENTITY), Some(true));
    assert!(w.is_touching(ENTITY, SOLID_B));
    assert!(!w.is_touching(ENTITY, SOLID_A));
    w.step(&vec![ContactEvent::Stopped(SOLID_B, PROBE)]);
    assert_eq!(w.on_ground(ENTITY), Some(false));
}

#[test]
fn ground_state_follows_overlapping_contacts_in_one_tick() {
    let mut w = world();
    w.step(&vec![
        ContactEvent::Started(SOLID_A, PROBE),
        ContactEvent::Started(PROBE, SOLID_B),
        ContactEvent::Stopped(PROBE, SOLID_A),
    ]);
    assert_eq!(w.on_ground(ENTITY), Some(true));
}

#[test]
fn begin_and_end_within_one_tick_leave_the_air() {
    let mut w = world();
    w.step(&vec![ContactEvent::Started(SOLID_A, PROBE), ContactEvent::Stopped(SOLID_A, PROBE)]);
    assert_eq!(w.on_ground(ENTITY), Some(false));
    assert!(!w.is_touching(ENTITY, SOLID_A));
}

#[test]
fn end_then_begin_within_one_tick_stand_on_ground() {
    let mut w = world();
    w.step(&vec![ContactEvent::Stopped(SOLID_A, PROBE), ContactEvent::Started(SOLID_A, PROBE)]);
    assert_eq!(w.on_ground(ENTITY), Some(true));
}

#[test]
fn other_pairs_in_between_do_not_matter() {
    let mut plain = world();
    plain.step(&vec![ContactEvent::Started(SOLID_A, PROBE), ContactEvent::Stopped(SOLID_A, PROBE)]);
    let mut mixed = world();
    mixed.step(&vec![
        ContactEvent::Started(SOLID_A, PROBE),
        ContactEvent::Started(SOLID_B, PROBE),
        ContactEvent::Stopped(SOLID_A, PROBE),
        ContactEvent::Stopped(SOLID_B, PROBE),
    ]);
    assert_eq!(plain.on_ground(ENTITY), mixed.on_ground(ENTITY));
    assert_eq!(plain.is_touching(ENTITY, SOLID_A), mixed.is_touching(ENTITY, SOLID_A));
}

#[test]
fn flag_is_derived_only_by_the_resolver() {
    let mut w = world();
    w.ground_detection(&vec![ContactEvent::Started(SOLID_A, PROBE)]);
    assert_eq!(w.on_ground(ENTITY), Some(false));
    assert!(w.is_touching(ENTITY, SOLID_A));
    w.update_on_ground();
    assert_eq!(w.on_ground(ENTITY), Some(true));
    w.update_on_ground();
    assert_eq!(w.on_ground(ENTITY), Some(true));
}

#[test]
fn contacts_between_two_solids_or_two_probes_are_ignored() {
    let mut w = world();
    assert!(w.spawn_ground_sensor(3, 4));
    w.step(&vec![
        ContactEvent::Started(SOLID_A, SOLID_B),
        ContactEvent::Started(PROBE, 4),
        ContactEvent::Started(4, PROBE),
        ContactEvent::Started(55, 56),
    ]);
    assert_eq!(w.on_ground(ENTITY), Some(false));
    assert_eq!(w.on_ground(3), Some(false));
}

#[test]
fn contact_with_a_shape_that_is_no_solid_is_ignored() {
    let mut w = world();
    w.step(&vec![ContactEvent::Started(77, PROBE), ContactEvent::Started(PROBE, 77)]);
    assert_eq!(w.on_ground(ENTITY), Some(false));
}

#[test]
fn each_probe_has_its_own_contacts() {
    let mut w = world();
    assert!(w.spawn_ground_sensor(3, 4));
    assert_eq!(w.probe_count(), 2);
    w.step(&vec![ContactEvent::Started(SOLID_A, 4)]);
    assert_eq!(w.on_ground(ENTITY), Some(false));
    assert_eq!(w.on_ground(3), Some(true));
    w.step(&vec![ContactEvent::Started(PROBE, SOLID_A), ContactEvent::Stopped(4, SOLID_A)]);
    assert_eq!(w.on_ground(ENTITY), Some(true));
    assert_eq!(w.on_ground(3), Some(false));
}

#[test]
fn entity_gets_one_probe_only() {
    let mut w = world();
    assert!(!w.spawn_ground_sensor(ENTITY, 9));
    assert!(!w.spawn_ground_sensor(8, PROBE));
    assert!(!w.spawn_ground_sensor(8, SOLID_A));
    assert_eq!(w.probe_count(), 1);
    assert_eq!(w.on_ground(8), None);
}

#[test]
fn probe_is_never_a_solid() {
    let mut w = world();
    assert!(!w.add_solid(PROBE));
    assert!(!w.is_solid(PROBE));
    assert!(!w.add_solid(SOLID_A));
    assert!(w.is_solid(SOLID_A));
}

#[test]
fn removed_solid_leaves_no_stale_contact() {
    let mut w = world();
    w.step(&vec![ContactEvent::Started(SOLID_A, PROBE)]);
    assert_eq!(w.on_ground(ENTITY), Some(true));
    assert!(w.remove_solid(SOLID_A));
    assert!(!w.is_touching(ENTITY, SOLID_A));
    w.update_on_ground();
    assert_eq!(w.on_ground(ENTITY), Some(false));
    assert!(!w.remove_solid(SOLID_A));
}

#[test]
fn removed_solid_keeps_the_other_contacts() {
    let mut w = world();
    w.step(&vec![ContactEvent::Started(SOLID_A, PROBE), ContactEvent::Started(SOLID_B, PROBE)]);
    assert!(w.remove_solid(SOLID_A));
    w.update_on_ground();
    assert_eq!(w.on_ground(ENTITY), Some(true));
}

#[test]
fn despawned_entity_has_no_probe_and_can_get_a_new_one() {
    let mut w = world();
    w.step(&vec![ContactEvent::Started(SOLID_A, PROBE)]);
    assert!(w.despawn_ground_sensor(ENTITY));
    assert!(!w.despawn_ground_sensor(ENTITY));
    assert_eq!(w.on_ground(ENTITY), None);
    assert_eq!(w.probe_count(), 0);
    assert!(w.spawn_ground_sensor(ENTITY, PROBE));
    w.step(&vec![]);
    assert_eq!(w.on_ground(ENTITY), Some(false));
}

#[test]
fn single_event_is_handled_like_a_queue_of_one() {
    let mut a = world();
    a.handle_event(ContactEvent::Started(PROBE, SOLID_B));
    a.update_on_ground();
    let mut b = world();
    b.step(&vec![ContactEvent::Started(PROBE, SOLID_B)]);
    assert_eq!(a.on_ground(ENTITY), Some(true));
    assert_eq!(b.on_ground(ENTITY), Some(true));
}

#[test]
fn end_of_contact_after_the_solid_left_changes_nothing_more() {
    let mut w = world();
    w.step(&vec![ContactEvent::Started(SOLID_A, PROBE), ContactEvent::Started(SOLID_B, PROBE)]);
    assert!(w.remove_solid(SOLID_A));
    assert_eq!(w.role_of(SOLID_A), ShapeRole::Other);
    w.step(&vec![ContactEvent::Stopped(SOLID_A, PROBE)]);
    assert!(!w.is_touching(ENTITY, SOLID_A));
    assert!(w.is_touching(ENTITY, SOLID_B));
    assert_eq!(w.on_ground(ENTITY), Some(true));
    w.step(&vec![ContactEvent::Stopped(PROBE, SOLID_B)]);
    assert_eq!(w.on_ground(ENTITY), Some(false));
}

#[test]
fn roles_of_the_shapes_of_a_world() {
    let w = world();
    assert_eq!(w.role_of(SOLID_A), ShapeRole::Solid);
    assert_eq!(w.role_of(PROBE), ShapeRole::Probe);
    assert_eq!(w.role_of(ENTITY), ShapeRole::Other);
    assert_eq!(w.role_of(999), ShapeRole::Other);
}

#[test]
fn begin_of_contact_with_a_shape_that_is_gone_is_ignored() {
    let mut w = world();
    assert!(w.remove_solid(SOLID_A));
    w.step(&vec![ContactEvent::Started(SOLID_A, PROBE)]);
    assert!(!w.is_touching(ENTITY, SOLID_A));
    assert_eq!(w.on_ground(ENTITY), Some(false));
}
