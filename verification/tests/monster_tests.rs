//! Monster decision scenarios and the random provider's ranges.

use roguelike_core::grid::{SpatialMap, TileType};
use roguelike_core::monster_ai::{
    is_adjacent, monster_decide, monster_path_action, monsters_awaiting_turn,
    post_monster_action, wander_action, MonsterAction, MonsterDecision,
};
use roguelike_core::random::Random;
use roguelike_core::types::{Confusion, Position, Viewshed, WaitCause};
use roguelike_core::world::World;

fn ready_monster(w: &mut World, x: i32, y: i32) -> usize {
    let id = w.spawn();
    w.monster[id] = true;
    w.name[id] = Some("Goblin".to_string());
    w.position[id] = Some(Position { x, y });
    w.viewshed[id] = Some(Viewshed { visible_tiles: Vec::new(), range: 8, dirty: false });
    w.wants_to_take_turn[id] = true;
    id
}

#[test]
fn adjacency_is_cardinal_only() {
    let o = Position { x: 4, y: 4 };
    assert!(is_adjacent(o, Position { x: 4, y: 4 }));
    assert!(is_adjacent(o, Position { x: 5, y: 4 }));
    assert!(is_adjacent(o, Position { x: 4, y: 3 }));
    assert!(!is_adjacent(o, Position { x: 5, y: 5 }));
    assert!(!is_adjacent(o, Position { x: 6, y: 4 }));
}

#[test]
fn confused_monster_waits_out_its_turn() {
    let mut w = World::new();
    let map = SpatialMap::new(10, 10, TileType::Floor);
    let mut rng = Random::seeded(1);
    w.player_pos = Position { x: 9, y: 9 };
    let m = ready_monster(&mut w, 1, 1);
    w.confusion[m] = Some(Confusion { turns: 2 });
    let d = monster_decide(&w, &map, m, &mut rng);
    assert_eq!(d, MonsterDecision::Act(MonsterAction::Wait { cause: WaitCause::Confusion }));
}

#[test]
fn adjacent_monster_attacks_the_player() {
    let mut w = World::new();
    let map = SpatialMap::new(10, 10, TileType::Floor);
    let mut rng = Random::seeded(1);
    let p = w.spawn();
    w.player[p] = true;
    w.player_id = p;
    w.player_pos = Position { x: 2, y: 1 };
    let m = ready_monster(&mut w, 1, 1);
    let d = monster_decide(&w, &map, m, &mut rng);
    assert_eq!(d, MonsterDecision::Act(MonsterAction::Melee { target: p }));
}

#[test]
fn monster_that_sees_the_player_asks_for_a_path() {
    let mut w = World::new();
    let map = SpatialMap::new(10, 10, TileType::Floor);
    let mut rng = Random::seeded(1);
    w.player_pos = Position { x: 5, y: 1 };
    let m = ready_monster(&mut w, 1, 1);
    w.viewshed[m] = Some(
        Viewshed {
            visible_tiles: vec![Position { x: 4, y: 1 }, Position { x: 5, y: 1 }],
            range: 8,
            dirty: false,
        },
    );
    let d = monster_decide(&w, &map, m, &mut rng);
    assert_eq!(
        d,
        MonsterDecision::NeedPath { from_idx: map.xy_idx(1, 1), to_idx: map.xy_idx(5, 1) },
    );
}

#[test]
fn blind_monster_wanders_or_waits() {
    let mut w = World::new();
    let map = SpatialMap::new(10, 10, TileType::Floor);
    let mut rng = Random::seeded(42);
    w.player_pos = Position { x: 9, y: 9 };
    let m = ready_monster(&mut w, 4, 4);
    for _ in 0..20 {
        let d = monster_decide(&w, &map, m, &mut rng);
        match d {
            MonsterDecision::Act(MonsterAction::Move { destination }) => {
                assert!(is_adjacent(destination, Position { x: 4, y: 4 }));
                assert_ne!(destination, Position { x: 4, y: 4 });
            },
            MonsterDecision::Act(MonsterAction::Wait { cause }) => {
                assert_eq!(cause, WaitCause::Choice);
            },
            other => panic!("unexpected decision {:?}", other),
        }
    }
}

#[test]
fn wander_dice_map_to_the_fixed_deltas() {
    let pos = Position { x: 4, y: 4 };
    assert_eq!(
        wander_action(pos, 1, 7),
        MonsterAction::Move { destination: Position { x: 5, y: 4 } },
    );
    assert_eq!(
        wander_action(pos, 2, 2),
        MonsterAction::Move { destination: Position { x: 3, y: 4 } },
    );
    assert_eq!(
        wander_action(pos, 3, 5),
        MonsterAction::Move { destination: Position { x: 4, y: 5 } },
    );
    assert_eq!(
        wander_action(pos, 4, 7),
        MonsterAction::Move { destination: Position { x: 4, y: 3 } },
    );
    // A one on the seven-sided die waits, whatever direction was drawn.
    assert_eq!(wander_action(pos, 3, 1), MonsterAction::Wait { cause: WaitCause::Choice });
}

#[test]
fn path_answer_takes_the_second_step() {
    let map = SpatialMap::new(10, 10, TileType::Floor);
    let steps = vec![map.xy_idx(1, 1), map.xy_idx(2, 1), map.xy_idx(3, 1)];
    let act = monster_path_action(&map, true, &steps);
    assert_eq!(act, MonsterAction::Move { destination: Position { x: 2, y: 1 } });
    let act2 = monster_path_action(&map, false, &steps);
    assert_eq!(act2, MonsterAction::Wait { cause: WaitCause::Choice });
    let act3 = monster_path_action(&map, true, &vec![map.xy_idx(1, 1)]);
    assert_eq!(act3, MonsterAction::Wait { cause: WaitCause::Choice });
}

#[test]
fn decided_actions_become_the_matching_intents() {
    let mut w = World::new();
    let m = ready_monster(&mut w, 1, 1);
    post_monster_action(&mut w, m, MonsterAction::Melee { target: 0 });
    assert_eq!(w.wants_to_melee[m], Some(0));
    post_monster_action(&mut w, m, MonsterAction::Move { destination: Position { x: 2, y: 1 } });
    assert_eq!(w.wants_to_move[m], Some(Position { x: 2, y: 1 }));
    post_monster_action(&mut w, m, MonsterAction::Wait { cause: WaitCause::Stun });
    assert_eq!(w.wants_to_wait[m], Some(WaitCause::Stun));
}

#[test]
fn only_ready_monsters_are_listed() {
    let mut w = World::new();
    let m1 = ready_monster(&mut w, 1, 1);
    let idle = w.spawn();
    w.monster[idle] = true;
    let m2 = ready_monster(&mut w, 2, 2);
    assert_eq!(monsters_awaiting_turn(&w), vec![m1, m2]);
}

#[test]
fn die_rolls_stay_in_range_and_bottom_out() {
    let mut rng = Random::seeded(7);
    for _ in 0..50 {
        let r = rng.roll_die(6);
        assert!((1..=6).contains(&r));
    }
    // A one-sided die leaves the generator no choice: the draw cannot
    // simply echo an argument back.
    assert_eq!(rng.roll_die(1), 1);
    assert_eq!(rng.range(5, 6), 5);
    assert_eq!(rng.inclusive_range(3, 3), 3);
    let mut rng2 = Random::seeded(7);
    let _ = rng2.flip_coin();
}

#[test]
fn seeded_streams_are_reproducible() {
    let mut a = Random::seeded(123);
    let mut b = Random::seeded(123);
    for _ in 0..10 {
        assert_eq!(a.range(0, 1000), b.range(0, 1000));
    }
    let mut c = Random::seeded(99);
    c.reseed(123);
    let mut d = Random::seeded(123);
    assert_eq!(c.range(0, 1000), d.range(0, 1000));
}
