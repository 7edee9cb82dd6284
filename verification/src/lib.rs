//! Turn-scheduling and action-resolution core of a turn-based roguelike.
//!
//! The library models the world as an actor store with optional facets
//! (position, combat stats, scheduling score, one-tick intents), a spatial
//! grid with blocking and occupancy, and the resolvers that consume the
//! intents.  Every resolver and the batch scheduler are verified against
//! contracts that pin down the state change exactly.
//!
//! The resolver ordering is a hard dependency and not reorderable.  One
//! tick runs: map indexing, then visibility, then the world clock, then
//! monster decisions, then movement, melee and waits, then pickups, item
//! use and drops, then damage, and finally the death purge.  The driver
//! around the library runs them in that order, answering the geometry
//! and pathfinding requests (fields of view, area blasts, paths) that
//! the visibility, item-use and decision steps ask of the outside
//! collaborator.

pub mod console_index;
pub mod damage;
pub mod global_turn;
pub mod grid;
pub mod inventory;
pub mod item_use;
pub mod laws;
pub mod log;
pub mod map_indexing;
pub mod melee;
pub mod monster_ai;
pub mod movement;
pub mod player;
pub mod random;
pub mod scheduler;
pub mod state;
pub mod text;
pub mod types;
pub mod visibility;
pub mod wait;
pub mod world;
