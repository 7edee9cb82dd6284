//! Grid, log, text, movement, visibility and player-action scenarios.

use roguelike_core::console_index::ConsoleIndex;
use roguelike_core::grid::{SpatialMap, TileType};
use roguelike_core::log::GameLog;
use roguelike_core::map_indexing::map_indexing_run;
use roguelike_core::movement::movement_run;
use roguelike_core::player::{get_item, try_move_player, wait};
use roguelike_core::state::{
    apply_item_menu_result, apply_targeting_result, ItemMenuResult, RangedTargetResult, RunState,
};
use roguelike_core::text::{i32_to_string, u64_to_string};
use roguelike_core::types::{CanMove, CombatStats, Position, TakesTurn, Viewshed};
use roguelike_core::visibility::{visibility_apply, visibility_dirty_list};
use roguelike_core::world::World;

#[test]
fn coordinates_and_indices_convert_both_ways() {
    let map = SpatialMap::new(80, 43, TileType::Wall);
    let idx = map.xy_idx(7, 5);
    assert_eq!(idx, 5 * 80 + 7);
    let p = map.idx_xy(idx);
    assert_eq!(p, Position { x: 7, y: 5 });
    assert_eq!(map.count(), 80 * 43);
}

#[test]
fn safe_set_ignores_points_off_the_grid() {
    let mut map = SpatialMap::new(4, 4, TileType::Wall);
    map.safe_set(2, 2, TileType::Floor);
    map.safe_set(9, 9, TileType::Floor);
    assert_eq!(map.get(2, 2), TileType::Floor);
    assert_eq!(map.safe_get(9, 9), None);
}

#[test]
fn populate_blocked_marks_exactly_the_walls() {
    let mut map = SpatialMap::new(3, 1, TileType::Wall);
    map.set(1, 0, TileType::Floor);
    map.populate_blocked();
    assert!(map.is_blocked(0, 0));
    assert!(!map.is_blocked(1, 0));
    assert!(map.is_blocked(2, 0));
    assert!(map.is_exit_valid(1, 0));
    assert!(!map.is_exit_valid(5, 0));
}

#[test]
fn log_merges_repeated_messages_with_a_counter() {
    let mut log = GameLog::new_with_first_log("Welcome");
    log.add("Orc hits you".to_string());
    log.add("Orc hits you".to_string());
    log.add("You hit Orc".to_string());
    assert_eq!(log.entries.len(), 3);
    assert_eq!(log.entries[0].message, "You hit Orc");
    assert_eq!(log.entries[1].message, "Orc hits you");
    assert_eq!(log.entries[1].count, 2);
    assert_eq!(log.entries[1].get_formatted_message(), "Orc hits you (x2)");
    assert_eq!(log.entries[2].get_formatted_message(), "Welcome");
}

#[test]
fn log_scrollback_clamps_to_the_entry_range() {
    let mut log = GameLog::new_with_first_log("one");
    log.add("two".to_string());
    log.move_index(5);
    assert_eq!(log.display_index, 1);
    log.move_index(-9);
    assert_eq!(log.display_index, 0);
}

#[test]
fn decimal_rendering_is_exact() {
    assert_eq!(u64_to_string(0), "0");
    assert_eq!(u64_to_string(12345), "12345");
    assert_eq!(i32_to_string(-42), "-42");
    assert_eq!(i32_to_string(7), "7");
}

#[test]
fn movement_rejects_a_blocked_destination_but_charges_the_cost() {
    let mut w = World::new();
    let mut map = SpatialMap::new(5, 5, TileType::Floor);
    map.set(3, 2, TileType::Wall);
    map.populate_blocked();
    let a = w.spawn();
    w.position[a] = Some(Position { x: 2, y: 2 });
    w.takes_turn[a] = Some(TakesTurn { time_score: 10 });
    w.can_move[a] = Some(CanMove { time_cost: 20 });
    w.wants_to_move[a] = Some(Position { x: 3, y: 2 });
    movement_run(&mut w, &mut map);
    assert_eq!(w.position[a], Some(Position { x: 2, y: 2 }));
    assert_eq!(w.takes_turn[a].unwrap().time_score, 30);
    assert_eq!(w.wants_to_move[a], None);
}

#[test]
fn movement_carries_a_blocker_and_its_blocked_cells() {
    let mut w = World::new();
    let mut map = SpatialMap::new(5, 5, TileType::Floor);
    map.populate_blocked();
    let a = w.spawn();
    w.player[a] = true;
    w.player_id = a;
    w.blocks_tile[a] = true;
    w.position[a] = Some(Position { x: 2, y: 2 });
    w.viewshed[a] = Some(Viewshed { visible_tiles: Vec::new(), range: 8, dirty: false });
    w.takes_turn[a] = Some(TakesTurn { time_score: 0 });
    w.can_move[a] = Some(CanMove { time_cost: 20 });
    let old_idx = map.xy_idx(2, 2);
    map.blocked[old_idx] = true;
    w.wants_to_move[a] = Some(Position { x: 3, y: 2 });
    movement_run(&mut w, &mut map);
    assert_eq!(w.position[a], Some(Position { x: 3, y: 2 }));
    assert_eq!(w.player_pos, Position { x: 3, y: 2 });
    assert!(w.viewshed[a].as_ref().unwrap().dirty);
    assert!(!map.blocked[old_idx]);
    let new_idx = map.xy_idx(3, 2);
    assert!(map.blocked[new_idx]);
}

#[test]
fn map_indexing_rebuilds_content_and_blocking() {
    let mut w = World::new();
    let mut map = SpatialMap::new(4, 4, TileType::Floor);
    let blocker = w.spawn();
    w.position[blocker] = Some(Position { x: 1, y: 1 });
    w.blocks_tile[blocker] = true;
    let item = w.spawn();
    w.position[item] = Some(Position { x: 1, y: 1 });
    map_indexing_run(&w, &mut map);
    let idx = map.xy_idx(1, 1);
    assert_eq!(map.tile_content[idx], vec![blocker, item]);
    assert!(map.blocked[idx]);
    assert!(!map.blocked[map.xy_idx(0, 0)]);
}

#[test]
fn player_viewshed_reveals_tiles_and_tags_occupants() {
    let mut w = World::new();
    let mut map = SpatialMap::new(6, 6, TileType::Floor);
    let p = w.spawn();
    w.player[p] = true;
    w.player_id = p;
    w.position[p] = Some(Position { x: 1, y: 1 });
    w.viewshed[p] = Some(Viewshed { visible_tiles: Vec::new(), range: 8, dirty: true });
    let seen_monster = w.spawn();
    w.position[seen_monster] = Some(Position { x: 2, y: 1 });
    let hidden_monster = w.spawn();
    w.position[hidden_monster] = Some(Position { x: 5, y: 5 });
    map_indexing_run(&w, &mut map);
    assert_eq!(visibility_dirty_list(&w), vec![p]);
    // The raw field of view the geometry collaborator would answer
    // with; one point lies off the grid and must be dropped.
    let raw = vec![
        Position { x: 1, y: 1 },
        Position { x: 2, y: 1 },
        Position { x: -1, y: 0 },
    ];
    visibility_apply(&mut w, &mut map, p, &raw);
    let vs = w.viewshed[p].as_ref().unwrap();
    assert!(!vs.dirty);
    assert_eq!(vs.visible_tiles.len(), 2);
    assert!(map.is_visible(1, 1) && map.is_visible(2, 1));
    assert!(map.is_revealed(2, 1));
    assert!(!map.is_visible(5, 5));
    assert!(w.is_visible[p]);
    assert!(w.is_visible[seen_monster]);
    assert!(!w.is_visible[hidden_monster]);
}

#[test]
fn monster_viewshed_recomputation_is_purely_local() {
    let mut w = World::new();
    let mut map = SpatialMap::new(6, 6, TileType::Floor);
    let m = w.spawn();
    w.monster[m] = true;
    w.position[m] = Some(Position { x: 1, y: 1 });
    w.viewshed[m] = Some(Viewshed { visible_tiles: Vec::new(), range: 8, dirty: true });
    map_indexing_run(&w, &mut map);
    let raw = vec![Position { x: 1, y: 1 }];
    visibility_apply(&mut w, &mut map, m, &raw);
    assert!(!map.is_visible(1, 1));
    assert!(!w.is_visible[m]);
    assert_eq!(w.viewshed[m].as_ref().unwrap().visible_tiles.len(), 1);
}

#[test]
fn player_step_into_a_combatant_becomes_an_attack() {
    let mut w = World::new();
    let mut map = SpatialMap::new(5, 5, TileType::Floor);
    map.populate_blocked();
    let p = w.spawn();
    w.player[p] = true;
    w.player_id = p;
    w.position[p] = Some(Position { x: 2, y: 2 });
    let orc = w.spawn();
    w.position[orc] = Some(Position { x: 3, y: 2 });
    w.combat_stats[orc] = Some(CombatStats { max_hp: 16, hp: 16, defense: 1, power: 4 });
    map_indexing_run(&w, &mut map);
    try_move_player(&mut w, &map, 1, 0);
    assert_eq!(w.wants_to_melee[p], Some(orc));
    assert_eq!(w.wants_to_move[p], None);
}

#[test]
fn player_step_into_an_empty_cell_becomes_a_move() {
    let mut w = World::new();
    let mut map = SpatialMap::new(5, 5, TileType::Floor);
    map.populate_blocked();
    let p = w.spawn();
    w.player[p] = true;
    w.player_id = p;
    w.position[p] = Some(Position { x: 2, y: 2 });
    map_indexing_run(&w, &mut map);
    try_move_player(&mut w, &map, 0, -1);
    assert_eq!(w.wants_to_move[p], Some(Position { x: 2, y: 1 }));
}

#[test]
fn picking_up_nothing_is_narrated() {
    let mut w = World::new();
    let mut log = GameLog::new_with_first_log("start");
    let p = w.spawn();
    w.player[p] = true;
    w.player_id = p;
    w.player_pos = Position { x: 2, y: 2 };
    get_item(&mut w, &mut log);
    assert_eq!(log.entries[0].message, "There is nothing to pick up.");
}

#[test]
fn picking_up_finds_the_item_at_the_player() {
    let mut w = World::new();
    let mut log = GameLog::new_with_first_log("start");
    let p = w.spawn();
    w.player[p] = true;
    w.player_id = p;
    w.player_pos = Position { x: 2, y: 2 };
    let item = w.spawn();
    w.item[item] = true;
    w.position[item] = Some(Position { x: 2, y: 2 });
    get_item(&mut w, &mut log);
    let intent = w.wants_to_pick_up[item].unwrap();
    assert_eq!(intent.collected_by, p);
    assert_eq!(intent.item, item);
}

#[test]
fn chosen_wait_is_posted_on_the_player() {
    let mut w = World::new();
    let p = w.spawn();
    w.player[p] = true;
    let m = w.spawn();
    wait(&mut w);
    assert_eq!(w.wants_to_wait[p], Some(roguelike_core::types::WaitCause::Choice));
    assert_eq!(w.wants_to_wait[m], None);
}

#[test]
fn inventory_selection_of_a_plain_item_resolves_the_turn() {
    let mut w = World::new();
    let p = w.spawn();
    w.player[p] = true;
    w.player_id = p;
    let potion = w.spawn();
    let rs = apply_item_menu_result(&mut w, ItemMenuResult::Selected(potion));
    assert_eq!(rs, RunState::PlayerTurn);
    let intent = w.wants_to_use_item[p].unwrap();
    assert_eq!(intent.item, potion);
    assert_eq!(intent.target, None);
}

#[test]
fn inventory_selection_of_a_ranged_item_opens_targeting() {
    let mut w = World::new();
    let p = w.spawn();
    w.player[p] = true;
    w.player_id = p;
    let scroll = w.spawn();
    w.ranged[scroll] = Some(6);
    w.area_of_effect[scroll] = Some(3);
    let rs = apply_item_menu_result(&mut w, ItemMenuResult::Selected(scroll));
    assert_eq!(rs, RunState::ShowTargeting { range: 6, item: scroll, radius: Some(3) });
    assert_eq!(w.wants_to_use_item[p], None);
}

#[test]
fn targeting_without_an_answer_stays_open_with_the_item_facets() {
    let mut w = World::new();
    let p = w.spawn();
    w.player[p] = true;
    w.player_id = p;
    let scroll = w.spawn();
    w.ranged[scroll] = Some(6);
    w.area_of_effect[scroll] = Some(3);
    let rs = apply_targeting_result(&mut w, scroll, RangedTargetResult::NoResponse);
    assert_eq!(rs, RunState::ShowTargeting { range: 6, item: scroll, radius: Some(3) });
    assert_eq!(w.wants_to_use_item[p], None);
}

#[test]
fn targeting_with_a_point_posts_the_use_intent() {
    let mut w = World::new();
    let p = w.spawn();
    w.player[p] = true;
    w.player_id = p;
    let scroll = w.spawn();
    let target = Position { x: 3, y: 4 };
    let rs = apply_targeting_result(&mut w, scroll, RangedTargetResult::Selected(target));
    assert_eq!(rs, RunState::PlayerTurn);
    let intent = w.wants_to_use_item[p].unwrap();
    assert_eq!(intent.item, scroll);
    assert_eq!(intent.target, Some(target));
}

#[test]
fn console_layout_lists_its_indices_in_drawing_order() {
    let consoles = ConsoleIndex { base: 0, layers: [1], ui: 2 };
    assert_eq!(consoles.get_all_indices(), vec![0, 1, 2]);
    assert_eq!(consoles.get_world_indices(true), vec![0, 1]);
    assert_eq!(consoles.get_world_indices(false), vec![1]);
}

#[test]
fn empty_viewshed_still_resets_world_visibility() {
    let mut w = World::new();
    let mut map = SpatialMap::new(4, 4, TileType::Floor);
    let p = w.spawn();
    w.player[p] = true;
    w.player_id = p;
    w.position[p] = Some(Position { x: 1, y: 1 });
    w.viewshed[p] = Some(Viewshed { visible_tiles: Vec::new(), range: 0, dirty: true });
    let idx = map.xy_idx(2, 2);
    map.visible_tiles[idx] = true;
    w.is_visible[p] = true;
    visibility_apply(&mut w, &mut map, p, &Vec::new());
    assert!(!map.visible_tiles[idx]);
    assert!(!w.is_visible[p]);
    assert!(w.viewshed[p].as_ref().unwrap().visible_tiles.is_empty());
}
