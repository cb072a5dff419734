use platformer_core::contact::ContactChange;
use platformer_core::contact::ContactEvent;
use platformer_core::contact::ShapeRole;
use platformer_core::sensor::GroundDetection;
use platformer_core::sensor::GroundSensor;

#[test]
fn sensor_stays_grounded_while_any_solid_touches() {
    let (a, b) = (10, 11);
    let mut sensor = GroundSensor::new(1);
    let mut flag = GroundDetection::default();
    assert!(!flag.on_ground);
    sensor.begin_contact(a);
    sensor.begin_contact(b);
    sensor.end_contact(a);
    flag.update_on_ground(&sensor);
    assert!(flag.on_ground);
    assert!(sensor.touches(b));
    assert!(!sensor.touches(a));
    sensor.end_contact(b);
    flag.update_on_ground(&sensor);
    assert!(!flag.on_ground);
}

#[test]
fn sensor_begin_then_end_leaves_the_air() {
    let mut sensor = GroundSensor::new(1);
    let mut flag = GroundDetection::default();
    assert!(sensor.begin_contact(7));
    assert!(sensor.end_contact(7));
    flag.update_on_ground(&sensor);
    assert!(!flag.on_ground);
}

#[test]
fn sensor_reports_whether_the_set_changed() {
    let mut sensor = GroundSensor::new(3);
    assert_eq!(sensor.ground_detection_entity, 3);
    assert!(!sensor.is_grounded());
    assert!(sensor.begin_contact(5));
    assert!(!sensor.begin_contact(5));
    assert!(!sensor.end_contact(6));
    assert!(sensor.is_grounded());
    assert!(sensor.end_contact(5));
    assert!(!sensor.end_contact(5));
    assert!(!sensor.is_grounded());
}

#[test]
fn begin_counts_between_a_solid_and_a_probe() {
    let begin = ContactEvent::Started(1, 2);
    assert_eq!(
        begin.route(ShapeRole::Solid, ShapeRole::Probe),
        Some(ContactChange { probe: 2, solid: 1, begins: true })
    );
    assert_eq!(
        begin.route(ShapeRole::Probe, ShapeRole::Solid),
        Some(ContactChange { probe: 1, solid: 2, begins: true })
    );
    assert_eq!(begin.route(ShapeRole::Solid, ShapeRole::Solid), None);
    assert_eq!(begin.route(ShapeRole::Probe, ShapeRole::Probe), None);
    assert_eq!(begin.route(ShapeRole::Other, ShapeRole::Probe), None);
    assert_eq!(begin.route(ShapeRole::Probe, ShapeRole::Other), None);
    assert_eq!(begin.route(ShapeRole::Solid, ShapeRole::Other), None);
    assert_eq!(begin.route(ShapeRole::Other, ShapeRole::Other), None);
}

#[test]
fn end_counts_for_a_probe_whatever_the_other_shape_is() {
    let end = ContactEvent::Stopped(1, 2);
    let leaves_second = Some(ContactChange { probe: 2, solid: 1, begins: false });
    let leaves_first = Some(ContactChange { probe: 1, solid: 2, begins: false });
    assert_eq!(end.route(ShapeRole::Solid, ShapeRole::Probe), leaves_second);
    assert_eq!(end.route(ShapeRole::Other, ShapeRole::Probe), leaves_second);
    assert_eq!(end.route(ShapeRole::Probe, ShapeRole::Solid), leaves_first);
    assert_eq!(end.route(ShapeRole::Probe, ShapeRole::Other), leaves_first);
    assert_eq!(end.route(ShapeRole::Probe, ShapeRole::Probe), None);
    assert_eq!(end.route(ShapeRole::Solid, ShapeRole::Solid), None);
    assert_eq!(end.route(ShapeRole::Solid, ShapeRole::Other), None);
    assert_eq!(end.route(ShapeRole::Other, ShapeRole::Other), None);
}

#[test]
fn end_of_contact_with_a_solid_that_is_gone_leaves_no_stale_contact() {
    let (solid, probe) = (10, 2);
    let mut sensor = GroundSensor::new(1);
    let mut flag = GroundDetection::default();
    let begin = ContactEvent::Started(solid, probe).route(ShapeRole::Solid, ShapeRole::Probe);
    assert!(begin.unwrap().apply(&mut sensor));
    flag.update_on_ground(&sensor);
    assert!(flag.on_ground);
    let end = ContactEvent::Stopped(solid, probe).route(ShapeRole::Other, ShapeRole::Probe);
    assert!(end.unwrap().apply(&mut sensor));
    assert!(!sensor.touches(solid));
    flag.update_on_ground(&sensor);
    assert!(!flag.on_ground);
}

#[test]
fn a_probe_is_never_taken_for_a_solid() {
    assert_eq!(ShapeRole::new(true, true), ShapeRole::Probe);
    assert_eq!(ShapeRole::new(true, false), ShapeRole::Probe);
    assert_eq!(ShapeRole::new(false, true), ShapeRole::Solid);
    assert_eq!(ShapeRole::new(false, false), ShapeRole::Other);
}

#[test]
fn change_applies_to_the_sensor() {
    let mut sensor = GroundSensor::new(1);
    assert!(ContactChange { probe: 9, solid: 4, begins: true }.apply(&mut sensor));
    assert!(sensor.touches(4));
    assert!(!ContactChange { probe: 9, solid: 4, begins: true }.apply(&mut sensor));
    assert!(ContactChange { probe: 9, solid: 4, begins: false }.apply(&mut sensor));
    assert!(!sensor.touches(4));
}
