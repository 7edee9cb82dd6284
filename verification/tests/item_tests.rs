//! Item scenarios: area blasts, the healing clamp, consumption, and
//! inventory transfer.

use roguelike_core::grid::{SpatialMap, TileType};
use roguelike_core::inventory::{drop_run, pickup_run};
use roguelike_core::item_use::{item_use_blast_requests, item_use_run};
use roguelike_core::log::GameLog;
use roguelike_core::map_indexing::map_indexing_run;
use roguelike_core::types::{CombatStats, PickupIntent, Position, UseIntent};
use roguelike_core::world::World;

fn floor_map() -> SpatialMap {
    SpatialMap::new(10, 10, TileType::Floor)
}

fn combatant_at(w: &mut World, name: &str, x: i32, y: i32, hp: i32) -> usize {
    let id = w.spawn();
    w.name[id] = Some(name.to_string());
    w.position[id] = Some(Position { x, y });
    w.combat_stats[id] = Some(CombatStats { max_hp: 30, hp, defense: 1, power: 1 });
    id
}

#[test]
fn area_blast_hits_only_actors_inside_it() {
    let mut w = World::new();
    let mut map = floor_map();
    let mut log = GameLog::new_with_first_log("start");
    let user = w.spawn();
    w.name[user] = Some("Player".to_string());
    w.player[user] = true;
    w.player_id = user;
    let inside_a = combatant_at(&mut w, "InA", 2, 2, 20);
    let inside_b = combatant_at(&mut w, "InB", 3, 2, 20);
    let outside = combatant_at(&mut w, "Out", 8, 8, 20);
    let scroll = w.spawn();
    w.name[scroll] = Some("Fireball Scroll".to_string());
    w.item[scroll] = true;
    w.consumable[scroll] = true;
    w.inflicts_damage[scroll] = Some(8);
    w.area_of_effect[scroll] = Some(3);
    w.wants_to_use_item[user] = Some(
        UseIntent { item: scroll, target: Some(Position { x: 2, y: 2 }) },
    );
    map_indexing_run(&w, &mut map);
    let requests = item_use_blast_requests(&w);
    assert_eq!(requests.len(), 1);
    assert_eq!(requests[0], (user, Position { x: 2, y: 2 }, 3));
    // The blast the geometry collaborator would answer with.
    let blast = vec![
        Position { x: 2, y: 2 },
        Position { x: 3, y: 2 },
        Position { x: 2, y: 3 },
    ];
    item_use_run(&mut w, &map, &mut log, &vec![blast]);
    assert_eq!(w.suffers_damage[inside_a], Some(8));
    assert_eq!(w.suffers_damage[inside_b], Some(8));
    assert_eq!(w.suffers_damage[outside], None);
    // The consumable applied an effect and is gone.
    assert!(!w.alive[scroll]);
    assert_eq!(w.wants_to_use_item[user], None);
}

#[test]
fn healing_is_clamped_to_max_hp() {
    let mut w = World::new();
    let mut map = floor_map();
    let mut log = GameLog::new_with_first_log("start");
    let user = combatant_at(&mut w, "Player", 1, 1, 25);
    w.player[user] = true;
    w.player_id = user;
    let potion = w.spawn();
    w.name[potion] = Some("Health Potion".to_string());
    w.item[potion] = true;
    w.consumable[potion] = true;
    w.provides_healing[potion] = Some(8);
    w.wants_to_use_item[user] = Some(UseIntent { item: potion, target: None });
    map_indexing_run(&w, &mut map);
    item_use_run(&mut w, &map, &mut log, &Vec::new());
    assert_eq!(w.combat_stats[user].unwrap().hp, 30);
    assert!(!w.alive[potion]);
    assert_eq!(log.entries[0].message, "You use Health Potion, healing 8 hp.");
}

#[test]
fn item_that_hits_no_valid_target_is_not_consumed() {
    let mut w = World::new();
    let mut map = floor_map();
    let mut log = GameLog::new_with_first_log("start");
    let user = w.spawn();
    w.name[user] = Some("Player".to_string());
    w.player[user] = true;
    w.player_id = user;
    let scroll = w.spawn();
    w.name[scroll] = Some("Magic Missile Scroll".to_string());
    w.item[scroll] = true;
    w.consumable[scroll] = true;
    w.inflicts_damage[scroll] = Some(8);
    // An explicit target on an empty cell: no occupants, no effect.
    w.wants_to_use_item[user] = Some(
        UseIntent { item: scroll, target: Some(Position { x: 5, y: 5 }) },
    );
    map_indexing_run(&w, &mut map);
    item_use_run(&mut w, &map, &mut log, &Vec::new());
    assert!(w.alive[scroll]);
    assert_eq!(w.wants_to_use_item[user], None);
}

#[test]
fn confusion_item_applies_the_affliction() {
    let mut w = World::new();
    let mut map = floor_map();
    let mut log = GameLog::new_with_first_log("start");
    let user = w.spawn();
    w.name[user] = Some("Player".to_string());
    w.player[user] = true;
    w.player_id = user;
    let victim = combatant_at(&mut w, "Orc", 4, 4, 16);
    let scroll = w.spawn();
    w.name[scroll] = Some("Confusion Scroll".to_string());
    w.item[scroll] = true;
    w.consumable[scroll] = true;
    w.confusion[scroll] = Some(roguelike_core::types::Confusion { turns: 4 });
    w.wants_to_use_item[user] = Some(
        UseIntent { item: scroll, target: Some(Position { x: 4, y: 4 }) },
    );
    map_indexing_run(&w, &mut map);
    item_use_run(&mut w, &map, &mut log, &Vec::new());
    assert_eq!(w.confusion[victim].unwrap().turns, 4);
    assert!(!w.alive[scroll]);
    assert_eq!(log.entries[0].message, "You use Confusion Scroll on Orc, confusing them.");
}

#[test]
fn pickup_moves_the_item_into_the_pack() {
    let mut w = World::new();
    let mut log = GameLog::new_with_first_log("start");
    let collector = w.spawn();
    w.player[collector] = true;
    w.player_id = collector;
    let item = w.spawn();
    w.name[item] = Some("Health Potion".to_string());
    w.item[item] = true;
    w.position[item] = Some(Position { x: 4, y: 4 });
    w.wants_to_pick_up[item] = Some(PickupIntent { collected_by: collector, item });
    pickup_run(&mut w, &mut log);
    assert_eq!(w.position[item], None);
    assert_eq!(w.in_backpack[item], Some(collector));
    assert_eq!(w.wants_to_pick_up[item], None);
    assert_eq!(log.entries[0].message, "You picked up Health Potion!");
}

#[test]
fn drop_puts_the_item_back_at_the_dropper() {
    let mut w = World::new();
    let mut log = GameLog::new_with_first_log("start");
    let dropper = w.spawn();
    w.player[dropper] = true;
    w.player_id = dropper;
    w.position[dropper] = Some(Position { x: 6, y: 7 });
    let item = w.spawn();
    w.name[item] = Some("Health Potion".to_string());
    w.item[item] = true;
    w.in_backpack[item] = Some(dropper);
    w.wants_to_drop[dropper] = Some(item);
    drop_run(&mut w, &mut log);
    assert_eq!(w.position[item], Some(Position { x: 6, y: 7 }));
    assert_eq!(w.in_backpack[item], None);
    assert_eq!(w.wants_to_drop[dropper], None);
    assert_eq!(log.entries[0].message, "You dropped the Health Potion");
}

#[test]
fn pickup_of_a_missing_item_is_a_no_op() {
    let mut w = World::new();
    let mut log = GameLog::new_with_first_log("start");
    let collector = w.spawn();
    let item = w.spawn();
    w.alive[item] = false;
    w.wants_to_pick_up[item] = Some(PickupIntent { collected_by: collector, item });
    pickup_run(&mut w, &mut log);
    assert_eq!(w.in_backpack[item], None);
    assert_eq!(w.wants_to_pick_up[item], None);
    assert_eq!(log.entries.len(), 1);
}
