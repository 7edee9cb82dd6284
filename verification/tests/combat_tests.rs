//! Combat scenarios: melee narration and damage, the damage pass, and
//! the death purge.

use roguelike_core::damage::{damage_run, delete_the_dead};
use roguelike_core::log::GameLog;
use roguelike_core::melee::melee_run;
use roguelike_core::state::RunState;
use roguelike_core::types::{CanMelee, CombatStats, TakesTurn};
use roguelike_core::world::World;

fn combatant(w: &mut World, name: &str, hp: i32, defense: i32, power: i32) -> usize {
    let id = w.spawn();
    w.name[id] = Some(name.to_string());
    w.combat_stats[id] = Some(CombatStats { max_hp: hp, hp, defense, power });
    w.takes_turn[id] = Some(TakesTurn { time_score: 0 });
    w.can_melee[id] = Some(CanMelee { time_cost: 110 });
    id
}

#[test]
fn melee_hit_posts_damage_and_narrates() {
    let mut w = World::new();
    let mut log = GameLog::new_with_first_log("start");
    let a = combatant(&mut w, "A", 30, 0, 5);
    let b = combatant(&mut w, "B", 10, 2, 1);
    w.wants_to_melee[a] = Some(b);
    melee_run(&mut w, &mut log);
    assert_eq!(w.suffers_damage[b], Some(3));
    assert_eq!(log.entries[0].message, "A hits B for 3 hp.");
    assert_eq!(w.wants_to_melee[a], None);
    // The attacker was charged its melee cost.
    assert_eq!(w.takes_turn[a].unwrap().time_score, 110);
    damage_run(&mut w);
    assert_eq!(w.combat_stats[b].unwrap().hp, 7);
    assert_eq!(w.suffers_damage[b], None);
}

#[test]
fn melee_zero_damage_is_narrated_without_damage() {
    let mut w = World::new();
    let mut log = GameLog::new_with_first_log("start");
    let a = combatant(&mut w, "A", 30, 0, 1);
    let b = combatant(&mut w, "B", 10, 5, 1);
    w.wants_to_melee[a] = Some(b);
    melee_run(&mut w, &mut log);
    assert_eq!(w.suffers_damage[b], None);
    assert_eq!(log.entries[0].message, "A is unable to hurt B.");
}

#[test]
fn melee_damage_accumulates_from_two_attackers() {
    let mut w = World::new();
    let mut log = GameLog::new_with_first_log("start");
    let a1 = combatant(&mut w, "A1", 30, 0, 5);
    let a2 = combatant(&mut w, "A2", 30, 0, 4);
    let b = combatant(&mut w, "B", 20, 1, 1);
    w.wants_to_melee[a1] = Some(b);
    w.wants_to_melee[a2] = Some(b);
    melee_run(&mut w, &mut log);
    assert_eq!(w.suffers_damage[b], Some(4 + 3));
}

#[test]
fn melee_dead_attacker_is_charged_but_does_nothing() {
    let mut w = World::new();
    let mut log = GameLog::new_with_first_log("start");
    let a = combatant(&mut w, "A", 10, 0, 5);
    let b = combatant(&mut w, "B", 10, 2, 1);
    w.combat_stats[a] = Some(CombatStats { max_hp: 10, hp: 0, defense: 0, power: 5 });
    w.wants_to_melee[a] = Some(b);
    melee_run(&mut w, &mut log);
    assert_eq!(w.suffers_damage[b], None);
    assert_eq!(w.takes_turn[a].unwrap().time_score, 110);
    assert_eq!(log.entries.len(), 1);
}

#[test]
fn damage_pass_skips_zero_amounts() {
    let mut w = World::new();
    let b = combatant(&mut w, "B", 10, 0, 1);
    w.suffers_damage[b] = Some(0);
    damage_run(&mut w);
    assert_eq!(w.combat_stats[b].unwrap().hp, 10);
    assert_eq!(w.suffers_damage[b], None);
}

#[test]
fn purge_deletes_downed_monster_and_narrates() {
    let mut w = World::new();
    let mut log = GameLog::new_with_first_log("start");
    let m = combatant(&mut w, "Orc", 10, 0, 1);
    w.monster[m] = true;
    w.combat_stats[m] = Some(CombatStats { max_hp: 10, hp: 0, defense: 0, power: 1 });
    delete_the_dead(&mut w, &mut log, RunState::WorldTurn);
    assert!(!w.alive[m]);
    assert_eq!(w.combat_stats[m], None);
    assert_eq!(log.entries[0].message, "Orc is dead");
}

#[test]
fn purge_never_deletes_the_player() {
    let mut w = World::new();
    let mut log = GameLog::new_with_first_log("start");
    let p = combatant(&mut w, "Player", 30, 2, 5);
    w.player[p] = true;
    w.player_id = p;
    w.combat_stats[p] = Some(CombatStats { max_hp: 30, hp: 0, defense: 2, power: 5 });
    delete_the_dead(&mut w, &mut log, RunState::PlayerTurn);
    assert!(w.alive[p]);
    assert_eq!(log.entries[0].message, "You are dead");
}

#[test]
fn player_death_is_silent_while_a_menu_is_open() {
    let mut w = World::new();
    let mut log = GameLog::new_with_first_log("start");
    let p = combatant(&mut w, "Player", 30, 2, 5);
    w.player[p] = true;
    w.player_id = p;
    w.combat_stats[p] = Some(CombatStats { max_hp: 30, hp: 0, defense: 2, power: 5 });
    delete_the_dead(&mut w, &mut log, RunState::ShowInventory);
    assert!(w.alive[p]);
    assert_eq!(log.entries.len(), 1);
    assert_eq!(log.entries[0].message, "start");
}
