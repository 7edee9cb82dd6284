//! The per-tick control state and the decisions that menu flows feed
//! back into it.  Drawing menus and reading keys belong to the UI
//! layer; the functions here take its answers as plain values.

use vstd::prelude::*;

use crate::types::{Position, UseIntent};
use crate::world::World;

verus! {

/// Control state of one tick.  UI sub-states are entered from
/// `AwaitingInput` and always return to it or to `PlayerTurn`.
#[derive(Clone, Copy, Debug, PartialEq)]
pub enum RunState {
    AwaitingInput,
    PreRun,
    DecideTurn,
    WorldTurn,
    PlayerTurn,
    ShowInventory,
    ShowDropItem,
    ShowTargeting { range: i32, item: usize, radius: Option<i32> },
}

impl RunState {
    /// Whether this state is an actual turn being resolved, as opposed to
    /// waiting for input or an open menu.
    pub fn is_turn(&self) -> (r: bool)
        ensures
            r == (*self is PlayerTurn || *self is WorldTurn),
    {
        match self {
            RunState::PlayerTurn | RunState::WorldTurn => true,
            _ => false,
        }
    }
}

/// What an item-selection menu reported back.
#[derive(Clone, Copy, Debug, PartialEq)]
pub enum ItemMenuResult {
    Cancel,
    NoResponse,
    Selected(usize),
}

/// What the ranged-targeting overlay reported back.
#[derive(Clone, Copy, Debug, PartialEq)]
pub enum RangedTargetResult {
    Cancel,
    NoResponse,
    Selected(Position),
}

/// An entry of the main menu.
#[derive(Clone, Copy, Debug, PartialEq, Eq, Structural)]
pub enum MainMenuSelection {
    NewGame,
    LoadGame,
    Quit,
}

/// What the main menu reported back.
#[derive(Clone, Copy, Debug, PartialEq, Eq, Structural)]
pub enum MainMenuResult {
    NoSelection { selected: MainMenuSelection },
    Selected { selected: MainMenuSelection },
}

/// Decides the next control state after the inventory menu.  Selecting a
/// ranged item opens targeting; selecting any other item posts a
/// self-targeted use intent on the player and resolves the player's turn.
pub fn apply_item_menu_result(w: &mut World, result: ItemMenuResult) -> (rs: RunState)
    requires
        old(w).wf(),
        old(w).live(old(w).player_id as int),
        result matches ItemMenuResult::Selected(item) ==> item < old(w).n(),
    ensures
        final(w).wf(),
        result is Cancel ==> rs == RunState::AwaitingInput && *final(w) == *old(w),
        result is NoResponse ==> rs == RunState::ShowInventory && *final(w) == *old(w),
        result matches ItemMenuResult::Selected(item) ==> {
            &&& (old(w).ranged@[item as int] matches Some(range) ==> rs == (
            RunState::ShowTargeting {
                range,
                item,
                radius: old(w).area_of_effect@[item as int],
            }) && *final(w) == *old(w))
            &&& (old(w).ranged@[item as int] is None ==> rs == RunState::PlayerTurn
                && final(w).wants_to_use_item@ == old(w).wants_to_use_item@.update(
                old(w).player_id as int,
                Some(UseIntent { item, target: None }),
            ) && *final(w) == (World { wants_to_use_item: final(w).wants_to_use_item, ..*old(w) }))
        },
{
    match result {
        ItemMenuResult::Cancel => RunState::AwaitingInput,
        ItemMenuResult::NoResponse => RunState::ShowInventory,
        ItemMenuResult::Selected(item) => {
            match self_ranged(w, item) {
                Some(range) => {
                    let radius = self_radius(w, item);
                    RunState::ShowTargeting { range, item, radius }
                },
                None => {
                    let pid = w.player_id;
                    w.wants_to_use_item[pid] = Some(UseIntent { item, target: None });
                    RunState::PlayerTurn
                },
            }
        },
    }
}

/// Decides the next control state after the drop menu.  Selecting an item
/// posts a drop intent on the player and resolves the player's turn.
pub fn apply_drop_menu_result(w: &mut World, result: ItemMenuResult) -> (rs: RunState)
    requires
        old(w).wf(),
        old(w).live(old(w).player_id as int),
    ensures
        final(w).wf(),
        result is Cancel ==> rs == RunState::AwaitingInput && *final(w) == *old(w),
        result is NoResponse ==> rs == RunState::ShowDropItem && *final(w) == *old(w),
        result matches ItemMenuResult::Selected(item) ==> {
            &&& rs == RunState::PlayerTurn
            &&& final(w).wants_to_drop@ == old(w).wants_to_drop@.update(
                old(w).player_id as int,
                Some(item),
            )
            &&& *final(w) == (World { wants_to_drop: final(w).wants_to_drop, ..*old(w) })
        },
{
    match result {
        ItemMenuResult::Cancel => RunState::AwaitingInput,
        ItemMenuResult::NoResponse => RunState::ShowDropItem,
        ItemMenuResult::Selected(item) => {
            let pid = w.player_id;
            w.wants_to_drop[pid] = Some(item);
            RunState::PlayerTurn
        },
    }
}

/// Decides the next control state after the targeting overlay.  Picking a
/// point posts a use intent at that point and resolves the player's
/// turn; waiting keeps targeting open, rebuilt from the item's current
/// facets (a missing range facet reads as 0).
pub fn apply_targeting_result(w: &mut World, item: usize, result: RangedTargetResult) -> (rs:
    RunState)
    requires
        old(w).wf(),
        old(w).live(old(w).player_id as int),
    ensures
        final(w).wf(),
        result is Cancel ==> rs == RunState::AwaitingInput && *final(w) == *old(w),
        result is NoResponse ==> *final(w) == *old(w) && rs == (RunState::ShowTargeting {
            range: if item < old(w).n() && old(w).ranged@[item as int] is Some {
                old(w).ranged@[item as int]->Some_0
            } else {
                0
            },
            item,
            radius: if item < old(w).n() {
                old(w).area_of_effect@[item as int]
            } else {
                None::<i32>
            },
        }),
        result matches RangedTargetResult::Selected(target) ==> {
            &&& rs == RunState::PlayerTurn
            &&& final(w).wants_to_use_item@ == old(w).wants_to_use_item@.update(
                old(w).player_id as int,
                Some(UseIntent { item, target: Some(target) }),
            )
            &&& *final(w) == (World { wants_to_use_item: final(w).wants_to_use_item, ..*old(w) })
        },
{
    match result {
        RangedTargetResult::Cancel => RunState::AwaitingInput,
        RangedTargetResult::NoResponse => {
            let radius = self_radius(w, item);
            let range = match self_ranged(w, item) {
                Some(r) => r,
                None => 0,
            };
            RunState::ShowTargeting { range, item, radius }
        },
        RangedTargetResult::Selected(target) => {
            let pid = w.player_id;
            w.wants_to_use_item[pid] = Some(UseIntent { item, target: Some(target) });
            RunState::PlayerTurn
        },
    }
}

/// The `Ranged` facet of an id, `None` when out of range of the store.
fn self_ranged(w: &World, item: usize) -> (r: Option<i32>)
    requires
        w.wf(),
    ensures
        item < w.n() ==> r == w.ranged@[item as int],
        item >= w.n() ==> r is None,
{
    if item < w.ranged.len() {
        w.ranged[item]
    } else {
        None
    }
}

/// The `AreaOfEffect` facet of an id, `None` when out of range of the store.
fn self_radius(w: &World, item: usize) -> (r: Option<i32>)
    requires
        w.wf(),
    ensures
        item < w.n() ==> r == w.area_of_effect@[item as int],
        item >= w.n() ==> r is None,
{
    if item < w.area_of_effect.len() {
        w.area_of_effect[item]
    } else {
        None
    }
}

} // verus!
