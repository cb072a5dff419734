//! Ground probes: the set of solids that touch a probe, and the "on ground"
//! flag that is derived from it.

use std::collections::HashSet;
use vstd::prelude::*;

verus! {

broadcast use vstd::std_specs::hash::group_hash_axioms;

/// The "standing on solid ground" flag of a movable entity.
#[derive(Clone, Copy, Debug, PartialEq, Eq, Structural)]
pub struct GroundDetection {
    pub on_ground: bool,
}

impl Default for GroundDetection {
    /// An entity starts in the air.
    fn default() -> (d: GroundDetection)
        ensures
            !d.on_ground,
    {
        GroundDetection { on_ground: false }
    }
}

/// The probe beneath a movable entity: the entity it reports to, and the
/// solids that overlap it at the moment.
pub struct GroundSensor {
    pub ground_detection_entity: u64,
    pub intersecting_ground_entities: HashSet<u64>,
}

/// The mathematical picture of a probe.
pub struct SensorView {
    pub owner: u64,
    pub contacts: Set<u64>,
}

impl SensorView {
    /// At least one solid touches the probe.
    pub open spec fn grounded(self) -> bool {
        !self.contacts.is_empty()
    }
}

impl View for GroundSensor {
    type V = SensorView;

    open spec fn view(&self) -> SensorView {
        SensorView {
            owner: self.ground_detection_entity,
            contacts: self.intersecting_ground_entities@,
        }
    }
}

impl GroundSensor {
    /// A probe of the given entity that nothing touches yet.
    pub fn new(owner: u64) -> (s: GroundSensor)
        ensures
            s@.owner == owner,
            s@.contacts == Set::<u64>::empty(),
            !s@.grounded(),
    {
        GroundSensor {
            ground_detection_entity: owner,
            intersecting_ground_entities: HashSet::new(),
        }
    }

    /// Records that `solid` began to overlap the probe. Returns whether the
    /// contact set changed, that is whether the solid was not in it before.
    pub fn begin_contact(&mut self, solid: u64) -> (changed: bool)
        ensures
            final(self)@.owner == old(self)@.owner,
            final(self)@.contacts == old(self)@.contacts.insert(solid),
            changed == !old(self)@.contacts.contains(solid),
            final(self)@.grounded(),
    {
        let changed = self.intersecting_ground_entities.insert(solid);
        assert(self@.contacts.contains(solid));
        changed
    }

    /// Records that `solid` stopped overlapping the probe; the other
    /// contacts stay. Returns whether the contact set changed.
    pub fn end_contact(&mut self, solid: u64) -> (changed: bool)
        ensures
            final(self)@.owner == old(self)@.owner,
            final(self)@.contacts == old(self)@.contacts.remove(solid),
            changed == old(self)@.contacts.contains(solid),
    {
        self.intersecting_ground_entities.remove(&solid)
    }

    /// Whether a solid overlaps the probe.
    pub fn touches(&self, solid: u64) -> (b: bool)
        ensures
            b == self@.contacts.contains(solid),
    {
        self.intersecting_ground_entities.contains(&solid)
    }

    /// Whether any solid overlaps the probe.
    pub fn is_grounded(&self) -> (b: bool)
        ensures
            b == self@.grounded(),
    {
        !self.intersecting_ground_entities.is_empty()
    }
}

impl GroundDetection {
    /// Recomputes the flag from the probe's contact set alone: on the ground
    /// if and only if the set is not empty.
    pub fn update_on_ground(&mut self, sensor: &GroundSensor)
        ensures
            final(self).on_ground == sensor@.grounded(),
    {
        self.on_ground = sensor.is_grounded();
    }
}

} // verus!
