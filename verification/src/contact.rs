//! Contact events between shapes, and the rule that decides which probe an
//! event concerns.

use crate::sensor::GroundSensor;
use vstd::prelude::*;

verus! {

/// A notification from the physics step about a pair of shapes.
#[derive(Clone, Copy, Debug, PartialEq, Eq, Structural)]
pub enum ContactEvent {
    /// The two shapes began to overlap.
    Started(u64, u64),
    /// The two shapes stopped overlapping.
    Stopped(u64, u64),
}

/// What a shape is to ground detection when an event about it is read.
#[derive(Clone, Copy, Debug, PartialEq, Eq, Structural)]
pub enum ShapeRole {
    /// A solid that is not a sensor: something to stand on.
    Solid,
    /// The ground probe of a movable entity.
    Probe,
    /// Anything else, a shape that is gone included.
    Other,
}

/// What a contact event asks of a probe: `solid` begins or ends touching the
/// shape `probe`.
#[derive(Clone, Copy, Debug, PartialEq, Eq, Structural)]
pub struct ContactChange {
    pub probe: u64,
    pub solid: u64,
    pub begins: bool,
}

impl ContactEvent {
    /// The first shape of the pair.
    pub open spec fn first(self) -> u64 {
        match self {
            ContactEvent::Started(a, _) => a,
            ContactEvent::Stopped(a, _) => a,
        }
    }

    /// The second shape of the pair.
    pub open spec fn second(self) -> u64 {
        match self {
            ContactEvent::Started(_, b) => b,
            ContactEvent::Stopped(_, b) => b,
        }
    }

    /// The two shapes of the pair, in the order of the event.
    pub fn shapes(&self) -> (pair: (u64, u64))
        ensures
            pair.0 == self.first(),
            pair.1 == self.second(),
    {
        match *self {
            ContactEvent::Started(a, b) => (a, b),
            ContactEvent::Stopped(a, b) => (a, b),
        }
    }

    /// The shape that a begin of contact presses, given which of the two
    /// shapes can be pressed: the first if it can, else the second if it
    /// can. An end of contact presses nothing.
    pub open spec fn pressed(self, first_can: bool, second_can: bool) -> Option<u64> {
        match self {
            ContactEvent::Started(a, b) => if first_can {
                Some(a)
            } else if second_can {
                Some(b)
            } else {
                None
            },
            ContactEvent::Stopped(_, _) => None,
        }
    }

    /// Finds the shape that the event presses.
    pub fn press(&self, first_can: bool, second_can: bool) -> (shape: Option<u64>)
        ensures
            shape == self.pressed(first_can, second_can),
    {
        match *self {
            ContactEvent::Started(a, b) => if first_can {
                Some(a)
            } else if second_can {
                Some(b)
            } else {
                None
            },
            ContactEvent::Stopped(_, _) => None,
        }
    }

    /// The change that the event asks for, given what its two shapes are.
    ///
    /// A begin of contact counts between a solid and a probe, in either
    /// order. An end of contact counts for a probe and any shape that is not
    /// a probe itself: what left the probe leaves its contact set, whether
    /// or not it still is a solid when the event is read. Every other pair,
    /// two probes and two solids among them, concerns no probe.
    pub open spec fn routed(self, first: ShapeRole, second: ShapeRole) -> Option<ContactChange> {
        match self {
            ContactEvent::Started(a, b) => if first is Solid && second is Probe {
                Some(ContactChange { probe: b, solid: a, begins: true })
            } else if first is Probe && second is Solid {
                Some(ContactChange { probe: a, solid: b, begins: true })
            } else {
                None
            },
            ContactEvent::Stopped(a, b) => if second is Probe && !(first is Probe) {
                Some(ContactChange { probe: b, solid: a, begins: false })
            } else if first is Probe && !(second is Probe) {
                Some(ContactChange { probe: a, solid: b, begins: false })
            } else {
                None
            },
        }
    }

    /// Decides which shape of the pair is the probe concerned and what
    /// changes for it.
    pub fn route(&self, first: ShapeRole, second: ShapeRole) -> (change: Option<ContactChange>)
        ensures
            change == self.routed(first, second),
    {
        let first_is_probe = matches!(first, ShapeRole::Probe);
        let second_is_probe = matches!(second, ShapeRole::Probe);
        match *self {
            ContactEvent::Started(a, b) => {
                if matches!(first, ShapeRole::Solid) && second_is_probe {
                    Some(ContactChange { probe: b, solid: a, begins: true })
                } else if first_is_probe && matches!(second, ShapeRole::Solid) {
                    Some(ContactChange { probe: a, solid: b, begins: true })
                } else {
                    None
                }
            },
            ContactEvent::Stopped(a, b) => {
                if second_is_probe && !first_is_probe {
                    Some(ContactChange { probe: b, solid: a, begins: false })
                } else if first_is_probe && !second_is_probe {
                    Some(ContactChange { probe: a, solid: b, begins: false })
                } else {
                    None
                }
            },
        }
    }
}

impl ShapeRole {
    /// The role of a shape of which it is known whether it is a probe and
    /// whether it is a solid; a probe is never taken for a solid.
    pub open spec fn of(is_probe: bool, is_solid: bool) -> ShapeRole {
        if is_probe {
            ShapeRole::Probe
        } else if is_solid {
            ShapeRole::Solid
        } else {
            ShapeRole::Other
        }
    }

    /// Names the role of a shape.
    pub fn new(is_probe: bool, is_solid: bool) -> (role: ShapeRole)
        ensures
            role == ShapeRole::of(is_probe, is_solid),
    {
        if is_probe {
            ShapeRole::Probe
        } else if is_solid {
            ShapeRole::Solid
        } else {
            ShapeRole::Other
        }
    }
}

impl ContactChange {
    /// The contact set `contacts` after the change.
    pub open spec fn applied(self, contacts: Set<u64>) -> Set<u64> {
        if self.begins {
            contacts.insert(self.solid)
        } else {
            contacts.remove(self.solid)
        }
    }

    /// Whether the change alters the contact set `contacts`.
    pub open spec fn alters(self, contacts: Set<u64>) -> bool {
        self.begins != contacts.contains(self.solid)
    }

    /// Applies the change to the probe's sensor: inserts the solid on a
    /// begin, removes it on an end. Returns whether the contact set changed.
    pub fn apply(&self, sensor: &mut GroundSensor) -> (changed: bool)
        ensures
            final(sensor)@.owner == old(sensor)@.owner,
            final(sensor)@.contacts == self.applied(old(sensor)@.contacts),
            changed == self.alters(old(sensor)@.contacts),
    {
        if self.begins {
            sensor.begin_contact(self.solid)
        } else {
            sensor.end_contact(self.solid)
        }
    }
}

/// An end of contact between a probe and a shape that is no probe removes
/// that shape from the probe's contact set, whatever the shape is by now and
/// in whichever order the event names the two.
pub proof fn lemma_end_of_contact_removes(
    probe: u64,
    shape: u64,
    role: ShapeRole,
    contacts: Set<u64>,
)
    requires
        !(role is Probe),
    ensures
        ContactEvent::Stopped(shape, probe).routed(role, ShapeRole::Probe) matches Some(c)
            && c.probe == probe && !c.applied(contacts).contains(shape),
        ContactEvent::Stopped(probe, shape).routed(ShapeRole::Probe, role) matches Some(c)
            && c.probe == probe && !c.applied(contacts).contains(shape),
{
}

} // verus!
