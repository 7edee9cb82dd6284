//! The facet types that can be attached to an actor, and the one-tick
//! intent records that the resolvers consume.

use vstd::prelude::*;

verus! {

/// Grid coordinate of a placed actor; also used for any point on the grid.
#[derive(Clone, Copy, Debug, PartialEq, Eq, Structural)]
pub struct Position {
    pub x: i32,
    pub y: i32,
}

/// Hit points and melee parameters of a combatant.
#[derive(Clone, Copy, Debug, PartialEq)]
pub struct CombatStats {
    pub max_hp: i32,
    pub hp: i32,
    pub defense: i32,
    pub power: i32,
}

/// The tiles an actor can currently see.  `dirty` marks the set stale;
/// the visibility resolver recomputes it from the actor's position.
#[derive(Clone, Debug, PartialEq)]
pub struct Viewshed {
    pub visible_tiles: Vec<Position>,
    pub range: i32,
    pub dirty: bool,
}

/// Scheduling facet: lower `time_score` acts sooner.
#[derive(Clone, Copy, Debug, PartialEq)]
pub struct TakesTurn {
    pub time_score: u32,
}

/// Capability facet: the actor can move, at this time-score cost.
#[derive(Clone, Copy, Debug, PartialEq)]
pub struct CanMove {
    pub time_cost: u32,
}

/// Capability facet: the actor can melee, at this time-score cost.
#[derive(Clone, Copy, Debug, PartialEq)]
pub struct CanMelee {
    pub time_cost: u32,
}

/// Affliction facet: the actor skips decisions for this many of its turns.
#[derive(Clone, Copy, Debug, PartialEq)]
pub struct Confusion {
    pub turns: i32,
}

/// Why a waiting actor waits; logging metadata only, never part of the
/// score formula.
#[derive(Clone, Copy, Debug, PartialEq, Eq, Structural)]
pub enum WaitCause {
    Choice,
    Confusion,
    Stun,
}

/// Intent: pick up `item`, carried by `collected_by`.  Attached to the item.
#[derive(Clone, Copy, Debug, PartialEq)]
pub struct PickupIntent {
    pub collected_by: usize,
    pub item: usize,
}

/// Intent: use `item`, optionally at an explicit target point.
#[derive(Clone, Copy, Debug, PartialEq)]
pub struct UseIntent {
    pub item: usize,
    pub target: Option<Position>,
}

} // verus!
