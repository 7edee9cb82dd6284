//! The actor store: a table of optional facets per actor id.
//!
//! Facet presence, not a type hierarchy, decides how an actor behaves.
//! Every facet column has one entry per actor ever spawned; `alive`
//! marks the ids that still exist.  The store also carries the two
//! process-wide singletons the resolvers share: the global-turn clock
//! score and the player's id and position.

use vstd::prelude::*;

use crate::types::{
    CanMelee, CanMove, CombatStats, Confusion, PickupIntent, Position, TakesTurn, UseIntent,
    Viewshed, WaitCause,
};

verus! {

/// The facet store.  One row per actor id; a `None` (or `false`) entry
/// means the actor lacks that facet.
pub struct World {
    /// False once the actor has been deleted; its row is never reused.
    pub alive: Vec<bool>,
    /// Marker: this actor is the player.
    pub player: Vec<bool>,
    /// Marker: this actor is a monster (decides its own turns).
    pub monster: Vec<bool>,
    /// Marker: this actor is the world-clock pseudo-actor.
    pub global_turn: Vec<bool>,
    /// Marker: the actor's cell is marked blocked in the spatial map.
    pub blocks_tile: Vec<bool>,
    /// Marker: the actor stands inside the player's current viewshed.
    pub is_visible: Vec<bool>,
    /// Marker: this actor is an item.
    pub item: Vec<bool>,
    /// Marker: using this item deletes it.
    pub consumable: Vec<bool>,
    /// Display name.
    pub name: Vec<Option<String>>,
    /// Grid position of placed actors.
    pub position: Vec<Option<Position>>,
    /// Combat facet.
    pub combat_stats: Vec<Option<CombatStats>>,
    /// Sight facet.
    pub viewshed: Vec<Option<Viewshed>>,
    /// Scheduling facet.
    pub takes_turn: Vec<Option<TakesTurn>>,
    /// Movement capability and cost.
    pub can_move: Vec<Option<CanMove>>,
    /// Melee capability and cost.
    pub can_melee: Vec<Option<CanMelee>>,
    /// Confusion affliction (turns remaining).
    pub confusion: Vec<Option<Confusion>>,
    /// For a carried item: the id of its owner.
    pub in_backpack: Vec<Option<usize>>,
    /// For a healing item: the amount healed.
    pub provides_healing: Vec<Option<i32>>,
    /// For a ranged item: the targeting range.
    pub ranged: Vec<Option<i32>>,
    /// For a damaging item: the damage dealt.
    pub inflicts_damage: Vec<Option<i32>>,
    /// For an area item: the blast radius.
    pub area_of_effect: Vec<Option<i32>>,
    /// Intent: move to this destination.
    pub wants_to_move: Vec<Option<Position>>,
    /// Intent: melee this target id.
    pub wants_to_melee: Vec<Option<usize>>,
    /// Intent: pick up an item (attached to the item's row).
    pub wants_to_pick_up: Vec<Option<PickupIntent>>,
    /// Intent: use an item.
    pub wants_to_use_item: Vec<Option<UseIntent>>,
    /// Intent: drop this item id.
    pub wants_to_drop: Vec<Option<usize>>,
    /// Intent: wait this tick.
    pub wants_to_wait: Vec<Option<WaitCause>>,
    /// Marker intent: granted a turn in the current batch.
    pub wants_to_take_turn: Vec<bool>,
    /// Accumulated damage to apply on the next damage pass.
    pub suffers_damage: Vec<Option<i32>>,
    /// Singleton: the world clock's published time score.
    pub global_score: u32,
    /// Singleton: the player's actor id.
    pub player_id: usize,
    /// Singleton: the player's position, kept in step by the movement resolver.
    pub player_pos: Position,
}

impl World {
    /// Number of rows in the store (actors ever spawned).
    pub open spec fn n(self) -> int {
        self.alive@.len() as int
    }

    /// Every facet column has exactly one entry per actor row.
    pub open spec fn wf(self) -> bool {
        &&& self.player@.len() == self.n()
        &&& self.monster@.len() == self.n()
        &&& self.global_turn@.len() == self.n()
        &&& self.blocks_tile@.len() == self.n()
        &&& self.is_visible@.len() == self.n()
        &&& self.item@.len() == self.n()
        &&& self.consumable@.len() == self.n()
        &&& self.name@.len() == self.n()
        &&& self.position@.len() == self.n()
        &&& self.combat_stats@.len() == self.n()
        &&& self.viewshed@.len() == self.n()
        &&& self.takes_turn@.len() == self.n()
        &&& self.can_move@.len() == self.n()
        &&& self.can_melee@.len() == self.n()
        &&& self.confusion@.len() == self.n()
        &&& self.in_backpack@.len() == self.n()
        &&& self.provides_healing@.len() == self.n()
        &&& self.ranged@.len() == self.n()
        &&& self.inflicts_damage@.len() == self.n()
        &&& self.area_of_effect@.len() == self.n()
        &&& self.wants_to_move@.len() == self.n()
        &&& self.wants_to_melee@.len() == self.n()
        &&& self.wants_to_pick_up@.len() == self.n()
        &&& self.wants_to_use_item@.len() == self.n()
        &&& self.wants_to_drop@.len() == self.n()
        &&& self.wants_to_wait@.len() == self.n()
        &&& self.wants_to_take_turn@.len() == self.n()
        &&& self.suffers_damage@.len() == self.n()
    }

    /// The actor exists (has a row and was not deleted).
    pub open spec fn live(self, id: int) -> bool {
        0 <= id < self.n() && self.alive@[id]
    }

    /// A store with no actors and zeroed singletons.
    pub fn new() -> (w: World)
        ensures
            w.wf(),
            w.n() == 0,
            w.global_score == 0,
            w.player_id == 0,
            w.player_pos == (Position { x: 0, y: 0 }),
    {
        World {
            alive: Vec::new(),
            player: Vec::new(),
            monster: Vec::new(),
            global_turn: Vec::new(),
            blocks_tile: Vec::new(),
            is_visible: Vec::new(),
            item: Vec::new(),
            consumable: Vec::new(),
            name: Vec::new(),
            position: Vec::new(),
            combat_stats: Vec::new(),
            viewshed: Vec::new(),
            takes_turn: Vec::new(),
            can_move: Vec::new(),
            can_melee: Vec::new(),
            confusion: Vec::new(),
            in_backpack: Vec::new(),
            provides_healing: Vec::new(),
            ranged: Vec::new(),
            inflicts_damage: Vec::new(),
            area_of_effect: Vec::new(),
            wants_to_move: Vec::new(),
            wants_to_melee: Vec::new(),
            wants_to_pick_up: Vec::new(),
            wants_to_use_item: Vec::new(),
            wants_to_drop: Vec::new(),
            wants_to_wait: Vec::new(),
            wants_to_take_turn: Vec::new(),
            suffers_damage: Vec::new(),
            global_score: 0,
            player_id: 0,
            player_pos: Position { x: 0, y: 0 },
        }
    }

    /// Creates a fresh live actor with no facets and returns its id.
    pub fn spawn(&mut self) -> (id: usize)
        requires
            old(self).wf(),
        ensures
            final(self).wf(),
            id == old(self).n(),
            final(self).n() == old(self).n() + 1,
            final(self).alive@ == old(self).alive@.push(true),
            final(self).player@ == old(self).player@.push(false),
            final(self).monster@ == old(self).monster@.push(false),
            final(self).global_turn@ == old(self).global_turn@.push(false),
            final(self).blocks_tile@ == old(self).blocks_tile@.push(false),
            final(self).is_visible@ == old(self).is_visible@.push(false),
            final(self).item@ == old(self).item@.push(false),
            final(self).consumable@ == old(self).consumable@.push(false),
            final(self).name@ == old(self).name@.push(None::<String>),
            final(self).position@ == old(self).position@.push(None::<Position>),
            final(self).combat_stats@ == old(self).combat_stats@.push(None::<CombatStats>),
            final(self).viewshed@ == old(self).viewshed@.push(None::<Viewshed>),
            final(self).takes_turn@ == old(self).takes_turn@.push(None::<TakesTurn>),
            final(self).can_move@ == old(self).can_move@.push(None::<CanMove>),
            final(self).can_melee@ == old(self).can_melee@.push(None::<CanMelee>),
            final(self).confusion@ == old(self).confusion@.push(None::<Confusion>),
            final(self).in_backpack@ == old(self).in_backpack@.push(None::<usize>),
            final(self).provides_healing@ == old(self).provides_healing@.push(None::<i32>),
            final(self).ranged@ == old(self).ranged@.push(None::<i32>),
            final(self).inflicts_damage@ == old(self).inflicts_damage@.push(None::<i32>),
            final(self).area_of_effect@ == old(self).area_of_effect@.push(None::<i32>),
            final(self).wants_to_move@ == old(self).wants_to_move@.push(None::<Position>),
            final(self).wants_to_melee@ == old(self).wants_to_melee@.push(None::<usize>),
            final(self).wants_to_pick_up@ == old(self).wants_to_pick_up@.push(
                None::<PickupIntent>,
            ),
            final(self).wants_to_use_item@ == old(self).wants_to_use_item@.push(
                None::<UseIntent>,
            ),
            final(self).wants_to_drop@ == old(self).wants_to_drop@.push(None::<usize>),
            final(self).wants_to_wait@ == old(self).wants_to_wait@.push(None::<WaitCause>),
            final(self).wants_to_take_turn@ == old(self).wants_to_take_turn@.push(false),
            final(self).suffers_damage@ == old(self).suffers_damage@.push(None::<i32>),
            final(self).global_score == old(self).global_score,
            final(self).player_id == old(self).player_id,
            final(self).player_pos == old(self).player_pos,
    {
        let id = self.alive.len();
        self.alive.push(true);
        self.player.push(false);
        self.monster.push(false);
        self.global_turn.push(false);
        self.blocks_tile.push(false);
        self.is_visible.push(false);
        self.item.push(false);
        self.consumable.push(false);
        self.name.push(None);
        self.position.push(None);
        self.combat_stats.push(None);
        self.viewshed.push(None);
        self.takes_turn.push(None);
        self.can_move.push(None);
        self.can_melee.push(None);
        self.confusion.push(None);
        self.in_backpack.push(None);
        self.provides_healing.push(None);
        self.ranged.push(None);
        self.inflicts_damage.push(None);
        self.area_of_effect.push(None);
        self.wants_to_move.push(None);
        self.wants_to_melee.push(None);
        self.wants_to_pick_up.push(None);
        self.wants_to_use_item.push(None);
        self.wants_to_drop.push(None);
        self.wants_to_wait.push(None);
        self.wants_to_take_turn.push(false);
        self.suffers_damage.push(None);
        id
    }
}

} // verus!
