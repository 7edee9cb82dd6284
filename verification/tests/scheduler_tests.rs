//! Scheduling scenarios: batch selection, the visibility cutoff, score
//! normalization, waits and the world clock.

use roguelike_core::global_turn::{global_turn_run, normalize_scores};
use roguelike_core::scheduler::decide_turn;
use roguelike_core::state::RunState;
use roguelike_core::types::{Confusion, TakesTurn};
use roguelike_core::wait::wait_run;
use roguelike_core::world::World;

fn scheduled(w: &mut World, score: u32) -> usize {
    let id = w.spawn();
    w.takes_turn[id] = Some(TakesTurn { time_score: score });
    id
}

#[test]
fn lowest_scored_player_gets_a_solo_turn() {
    let mut w = World::new();
    let p = scheduled(&mut w, 10);
    w.player[p] = true;
    let m1 = scheduled(&mut w, 20);
    let m2 = scheduled(&mut w, 30);
    let rs = decide_turn(&mut w);
    assert_eq!(rs, RunState::AwaitingInput);
    assert!(w.wants_to_take_turn[p]);
    assert!(!w.wants_to_take_turn[m1]);
    assert!(!w.wants_to_take_turn[m2]);
}

#[test]
fn lowest_scored_clock_gets_a_solo_world_turn() {
    let mut w = World::new();
    let g = scheduled(&mut w, 0);
    w.global_turn[g] = true;
    let m = scheduled(&mut w, 5);
    let rs = decide_turn(&mut w);
    assert_eq!(rs, RunState::WorldTurn);
    assert!(w.wants_to_take_turn[g]);
    assert!(!w.wants_to_take_turn[m]);
}

#[test]
fn newly_visible_actor_closes_the_batch_without_joining_it() {
    let mut w = World::new();
    let a0 = scheduled(&mut w, 10);
    let a1 = scheduled(&mut w, 20);
    let a2 = scheduled(&mut w, 30);
    w.is_visible[a2] = true;
    let a3 = scheduled(&mut w, 40);
    let rs = decide_turn(&mut w);
    assert_eq!(rs, RunState::WorldTurn);
    assert!(w.wants_to_take_turn[a0]);
    assert!(w.wants_to_take_turn[a1]);
    assert!(!w.wants_to_take_turn[a2]);
    assert!(!w.wants_to_take_turn[a3]);
}

#[test]
fn offscreen_actors_act_together_in_bulk() {
    let mut w = World::new();
    let a0 = scheduled(&mut w, 10);
    let a1 = scheduled(&mut w, 20);
    let a2 = scheduled(&mut w, 30);
    let rs = decide_turn(&mut w);
    assert_eq!(rs, RunState::WorldTurn);
    assert!(w.wants_to_take_turn[a0] && w.wants_to_take_turn[a1] && w.wants_to_take_turn[a2]);
}

#[test]
fn equal_scores_break_ties_by_creation_order() {
    let mut w = World::new();
    let first = scheduled(&mut w, 10);
    let second = scheduled(&mut w, 10);
    w.player[second] = true;
    // The older actor sorts first, so the batch stops before reaching
    // the player and holds the older actor alone.
    let rs = decide_turn(&mut w);
    assert_eq!(rs, RunState::WorldTurn);
    assert!(w.wants_to_take_turn[first]);
    assert!(!w.wants_to_take_turn[second]);
}

#[test]
fn normalization_shifts_all_scores_by_the_minimum() {
    let mut w = World::new();
    let a = scheduled(&mut w, 1200);
    let b = scheduled(&mut w, 1300);
    let c = scheduled(&mut w, 50);
    w.global_score = 1300;
    normalize_scores(&mut w, 50);
    assert_eq!(w.takes_turn[a].unwrap().time_score, 1150);
    assert_eq!(w.takes_turn[b].unwrap().time_score, 1250);
    assert_eq!(w.takes_turn[c].unwrap().time_score, 0);
    assert_eq!(w.global_score, 1250);
}

#[test]
fn waiting_actor_cedes_priority_to_just_past_the_clock() {
    let mut w = World::new();
    let a = scheduled(&mut w, 40);
    w.wants_to_wait[a] = Some(roguelike_core::types::WaitCause::Choice);
    w.global_score = 50;
    wait_run(&mut w);
    assert_eq!(w.takes_turn[a].unwrap().time_score, 51);
    assert_eq!(w.wants_to_wait[a], None);
}

#[test]
fn clock_turn_charges_the_fixed_cost_and_publishes_it() {
    let mut w = World::new();
    let g = scheduled(&mut w, 200);
    w.global_turn[g] = true;
    w.wants_to_take_turn[g] = true;
    w.global_score = 200;
    global_turn_run(&mut w);
    assert_eq!(w.takes_turn[g].unwrap().time_score, 300);
    assert_eq!(w.global_score, 300);
}

#[test]
fn clock_turn_ticks_confusion_down_and_removes_it_at_zero() {
    let mut w = World::new();
    let g = scheduled(&mut w, 0);
    w.global_turn[g] = true;
    w.wants_to_take_turn[g] = true;
    let m1 = scheduled(&mut w, 10);
    w.confusion[m1] = Some(Confusion { turns: 2 });
    let m2 = scheduled(&mut w, 10);
    w.confusion[m2] = Some(Confusion { turns: 1 });
    global_turn_run(&mut w);
    assert_eq!(w.confusion[m1].unwrap().turns, 1);
    assert!(w.confusion[m2].is_none());
}

#[test]
fn confusion_holds_still_while_the_clock_rests() {
    let mut w = World::new();
    let g = scheduled(&mut w, 500);
    w.global_turn[g] = true;
    let m = scheduled(&mut w, 10);
    w.confusion[m] = Some(Confusion { turns: 2 });
    global_turn_run(&mut w);
    assert_eq!(w.confusion[m].unwrap().turns, 2);
}

#[test]
fn normalization_triggers_only_past_the_ceiling() {
    let mut w = World::new();
    let g = scheduled(&mut w, 1100);
    w.global_turn[g] = true;
    let m = scheduled(&mut w, 1500);
    w.global_score = 1100;
    global_turn_run(&mut w);
    // Minimum 1100 is past the ceiling of 1000: everything shifts down.
    assert_eq!(w.takes_turn[g].unwrap().time_score, 0);
    assert_eq!(w.takes_turn[m].unwrap().time_score, 400);
    assert_eq!(w.global_score, 0);
}

#[test]
fn lowest_scored_visible_monster_acts_alone() {
    let mut w = World::new();
    let seen = scheduled(&mut w, 10);
    w.is_visible[seen] = true;
    let hidden = scheduled(&mut w, 20);
    let rs = decide_turn(&mut w);
    assert_eq!(rs, RunState::WorldTurn);
    assert!(w.wants_to_take_turn[seen]);
    assert!(!w.wants_to_take_turn[hidden]);
}

#[test]
fn decide_turn_leaves_time_scores_untouched() {
    let mut w = World::new();
    let a = scheduled(&mut w, 17);
    let b = scheduled(&mut w, 3);
    decide_turn(&mut w);
    assert_eq!(w.takes_turn[a].unwrap().time_score, 17);
    assert_eq!(w.takes_turn[b].unwrap().time_score, 3);
}

#[test]
fn empty_world_schedules_nobody() {
    let mut w = World::new();
    let rs = decide_turn(&mut w);
    assert_eq!(rs, RunState::WorldTurn);
    assert!(w.wants_to_take_turn.is_empty());
}
