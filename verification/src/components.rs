//! What the entities of a level are made of: which body and which sensor
//! the level format's identifier of an entity stands for.

use vstd::prelude::*;

verus! {

/// The kinds of entity that a level can hold.
#[derive(Clone, Copy, Debug, PartialEq, Eq, Structural)]
pub enum EntityKind {
    Player,
    HorizontalDoor,
    VerticalDoor,
    Star,
    Switch,
    /// Any entity that has no body and no sensor of its own.
    Other,
}

/// How a body takes part in the simulation.
#[derive(Clone, Copy, Debug, PartialEq, Eq, Structural)]
pub enum RigidBody {
    /// Moved by forces and contacts.
    Dynamic,
    /// Never moves.
    Fixed,
}

/// How the friction of two touching bodies is combined.
#[derive(Clone, Copy, Debug, PartialEq, Eq, Structural)]
pub enum CoefficientCombineRule {
    Average,
    Min,
}

/// The friction of a body: a whole coefficient and the rule of combination.
#[derive(Clone, Copy, Debug, PartialEq, Eq, Structural)]
pub struct Friction {
    pub coefficient: u8,
    pub combine_rule: CoefficientCombineRule,
}

/// The body of an entity: a box given by its half-extents, which never
/// rotates.
#[derive(Clone, Copy, Debug, PartialEq, Eq, Structural)]
pub struct ColliderBundle {
    pub half_width: u8,
    pub half_height: u8,
    pub rigid_body: RigidBody,
    pub friction: Friction,
}

/// The sensor of an entity: a box given by its half-extents, which never
/// rotates and reports the contacts it takes part in.
#[derive(Clone, Copy, Debug, PartialEq, Eq, Structural)]
pub struct SensorBundle {
    pub half_width: u8,
    pub half_height: u8,
}

/// The kind that an identifier names.
pub open spec fn kind_of(identifier: Seq<char>) -> EntityKind {
    if identifier == "Player"@ {
        EntityKind::Player
    } else if identifier == "Horizontal_Door"@ {
        EntityKind::HorizontalDoor
    } else if identifier == "Vertical_Door"@ {
        EntityKind::VerticalDoor
    } else if identifier == "Star"@ {
        EntityKind::Star
    } else if identifier == "Switch"@ {
        EntityKind::Switch
    } else {
        EntityKind::Other
    }
}

/// The body of an entity of the given kind, if the kind has one of its own.
///
/// A player is a box of 16 by 16 that slides without friction; a door is a
/// fixed box of 20 by 6, lying or standing, a little longer than it looks
/// so that nothing slips past its ends.
pub open spec fn body_of(kind: EntityKind) -> Option<ColliderBundle> {
    match kind {
        EntityKind::Player => Some(
            ColliderBundle {
                half_width: 16,
                half_height: 16,
                rigid_body: RigidBody::Dynamic,
                friction: Friction { coefficient: 0, combine_rule: CoefficientCombineRule::Min },
            },
        ),
        EntityKind::HorizontalDoor => Some(
            ColliderBundle {
                half_width: 20,
                half_height: 6,
                rigid_body: RigidBody::Fixed,
                friction: Friction {
                    coefficient: 1,
                    combine_rule: CoefficientCombineRule::Average,
                },
            },
        ),
        EntityKind::VerticalDoor => Some(
            ColliderBundle {
                half_width: 6,
                half_height: 20,
                rigid_body: RigidBody::Fixed,
                friction: Friction {
                    coefficient: 1,
                    combine_rule: CoefficientCombineRule::Average,
                },
            },
        ),
        _ => None,
    }
}

/// The sensor of an entity of the given kind, if the kind has one: stars
/// and switches are boxes of 4 by 4.
pub open spec fn sensor_of(kind: EntityKind) -> Option<SensorBundle> {
    match kind {
        EntityKind::Star => Some(SensorBundle { half_width: 4, half_height: 4 }),
        EntityKind::Switch => Some(SensorBundle { half_width: 4, half_height: 4 }),
        _ => None,
    }
}

fn same_text(a: &str, b: &str) -> (same: bool)
    ensures
        same == (a@ == b@),
{
    let x = a.to_owned();
    let y = b.to_owned();
    x == y
}

impl EntityKind {
    /// Reads the kind from the identifier that the level format gives an entity.
    pub fn from_identifier(identifier: &str) -> (kind: EntityKind)
        ensures
            kind == kind_of(identifier@),
    {
        if same_text(identifier, "Player") {
            EntityKind::Player
        } else if same_text(identifier, "Horizontal_Door") {
            EntityKind::HorizontalDoor
        } else if same_text(identifier, "Vertical_Door") {
            EntityKind::VerticalDoor
        } else if same_text(identifier, "Star") {
            EntityKind::Star
        } else if same_text(identifier, "Switch") {
            EntityKind::Switch
        } else {
            EntityKind::Other
        }
    }
}

impl EntityKind {
    /// Whether entities of the kind have a sensor: stars and switches do.
    pub fn has_sensor(self) -> (b: bool)
        ensures
            b == sensor_of(self).is_some(),
    {
        match self {
            EntityKind::Star => true,
            EntityKind::Switch => true,
            _ => false,
        }
    }
}

impl ColliderBundle {
    /// The body of an entity of the given kind; a kind without a body of
    /// its own gets none.
    pub fn of(kind: EntityKind) -> (bundle: Option<ColliderBundle>)
        ensures
            bundle == body_of(kind),
    {
        match kind {
            EntityKind::Player => Some(
                ColliderBundle {
                    half_width: 16,
                    half_height: 16,
                    rigid_body: RigidBody::Dynamic,
                    friction: Friction {
                        coefficient: 0,
                        combine_rule: CoefficientCombineRule::Min,
                    },
                },
            ),
            EntityKind::HorizontalDoor => Some(
                ColliderBundle {
                    half_width: 20,
                    half_height: 6,
                    rigid_body: RigidBody::Fixed,
                    friction: Friction {
                        coefficient: 1,
                        combine_rule: CoefficientCombineRule::Average,
                    },
                },
            ),
            EntityKind::VerticalDoor => Some(
                ColliderBundle {
                    half_width: 6,
                    half_height: 20,
                    rigid_body: RigidBody::Fixed,
                    friction: Friction {
                        coefficient: 1,
                        combine_rule: CoefficientCombineRule::Average,
                    },
                },
            ),
            _ => None,
        }
    }

    /// The body that the identifier of an entity stands for.
    pub fn from_identifier(identifier: &str) -> (bundle: Option<ColliderBundle>)
        ensures
            bundle == body_of(kind_of(identifier@)),
    {
        ColliderBundle::of(EntityKind::from_identifier(identifier))
    }
}

impl SensorBundle {
    /// The sensor of an entity of the given kind; only stars and switches
    /// have one.
    pub fn of(kind: EntityKind) -> (bundle: Option<SensorBundle>)
        ensures
            bundle == sensor_of(kind),
    {
        match kind {
            EntityKind::Star => Some(SensorBundle { half_width: 4, half_height: 4 }),
            EntityKind::Switch => Some(SensorBundle { half_width: 4, half_height: 4 }),
            _ => None,
        }
    }

    /// The sensor that the identifier of an entity stands for. Only the
    /// identifier of a star or of a switch stands for one.
    pub fn from_identifier(identifier: &str) -> (bundle: SensorBundle)
        requires
            sensor_of(kind_of(identifier@)).is_some(),
        ensures
            Some(bundle) == sensor_of(kind_of(identifier@)),
    {
        SensorBundle { half_width: 4, half_height: 4 }
    }
}

/// The text of a button of the interface.
#[derive(Clone, Debug)]
pub struct UiButton(pub String);

/// A line of text of the interface.
#[derive(Clone, Debug)]
pub struct UiText(pub String);

impl UiButton {
    /// The button named by a field of the level's data; a missing field
    /// gives a button without text.
    pub fn from_field(field: Option<String>) -> (button: UiButton)
        ensures
            button.0@ == (match field {
                Some(text) => text@,
                None => Seq::<char>::empty(),
            }),
    {
        match field {
            Some(text) => UiButton(text),
            None => UiButton(String::new()),
        }
    }
}

impl UiText {
    /// The text given by a field of the level's data; a missing field gives
    /// an empty text.
    pub fn from_field(field: Option<String>) -> (text: UiText)
        ensures
            text.0@ == (match field {
                Some(line) => line@,
                None => Seq::<char>::empty(),
            }),
    {
        match field {
            Some(line) => UiText(line),
            None => UiText(String::new()),
        }
    }
}

} // verus!
