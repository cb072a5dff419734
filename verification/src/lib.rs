//! The rules of a tile-based platformer, verified.
//!
//! Two parts carry the weight. The first turns the wall cells of a level
//! into few rectangular solids: [`grid`] indexes the cells, [`plate`] cuts
//! each row into runs, [`merge`] stacks equal runs into rectangles,
//! [`compaction`] does both for a whole grid and proves that the rectangles
//! cover exactly the walls without overlapping, [`extend`] closes the seams
//! between rectangles, and [`collider`] gives every rectangle its solid.
//! The second keeps track of what a movable entity stands on: [`sensor`]
//! holds the contact set of a probe and the flag derived from it,
//! [`contact`] decides which probe a contact event concerns, and [`ground`]
//! runs whole ticks over a table of probes.
//!
//! The smaller rules of the game stand beside them: [`player`], [`pickup`],
//! [`animation`], [`level`], [`state`] and [`components`].

pub mod animation;
pub mod collider;
pub mod compaction;
pub mod components;
pub mod contact;
pub mod extend;
pub mod grid;
pub mod ground;
pub mod level;
pub mod merge;
pub mod pickup;
pub mod plate;
pub mod player;
pub mod rect;
pub mod sensor;
pub mod state;
