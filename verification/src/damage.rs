//! The damage resolver and the death purge.
//!
//! The resolver applies every accumulated damage amount to its
//! carrier's hit points and unconditionally clears the accumulators.
//! The purge then deletes every non-player combatant at or below zero
//! hit points (narrating each), and only narrates the player's death —
//! the player actor is never deleted.

use vstd::prelude::*;
use vstd::string::StringExecFns;

use crate::log::{log_add, log_view, GameLog};
use crate::state::RunState;
use crate::types::CombatStats;
use crate::world::World;

verus! {

/// The actor's accumulated damage is applied: it is live with stats and
/// a damage accumulator.
pub open spec fn damage_processed(w: World, a: int) -> bool {
    &&& w.live(a)
    &&& w.combat_stats@[a] is Some
    &&& w.suffers_damage@[a] is Some
}

/// Resolves all accumulated damage, then clears every accumulator.  A
/// zero amount leaves the hit points untouched.
pub fn damage_run(w: &mut World)
    requires
        old(w).wf(),
        forall|a: int|
            damage_processed(*old(w), a) ==> i32::MIN <= old(w).combat_stats@[a]->Some_0.hp - old(
                w,
            ).suffers_damage@[a]->Some_0 <= i32::MAX,
    ensures
        final(w).wf(),
        final(w).n() == old(w).n(),
        forall|a: int| #![trigger final(w).combat_stats@[a]]
            0 <= a < old(w).n() ==> final(w).combat_stats@[a] == if damage_processed(*old(w), a)
                && old(w).suffers_damage@[a]->Some_0 != 0 {
                Some(
                    CombatStats {
                        hp: (old(w).combat_stats@[a]->Some_0.hp
                            - old(w).suffers_damage@[a]->Some_0) as i32,
                        ..old(w).combat_stats@[a]->Some_0
                    },
                )
            } else {
                old(w).combat_stats@[a]
            },
        forall|a: int| #![trigger final(w).suffers_damage@[a]]
            0 <= a < old(w).n() ==> final(w).suffers_damage@[a] is None,
        *final(w) == (World {
            combat_stats: final(w).combat_stats,
            suffers_damage: final(w).suffers_damage,
            ..*old(w)
        }),
{
    let ghost w0 = *old(w);
    let n = w.alive.len();
    let mut a: usize = 0;
    while a < n
        invariant
            w.wf(),
            w0.wf(),
            n == w.n(),
            n == w0.n(),
            a <= n,
            forall|i: int|
                damage_processed(w0, i) ==> i32::MIN <= w0.combat_stats@[i]->Some_0.hp
                    - w0.suffers_damage@[i]->Some_0 <= i32::MAX,
            forall|i: int| #![trigger w.combat_stats@[i]]
                0 <= i < n ==> w.combat_stats@[i] == if damage_processed(w0, i)
                    && w0.suffers_damage@[i]->Some_0 != 0 && i < a {
                    Some(
                        CombatStats {
                            hp: (w0.combat_stats@[i]->Some_0.hp
                                - w0.suffers_damage@[i]->Some_0) as i32,
                            ..w0.combat_stats@[i]->Some_0
                        },
                    )
                } else {
                    w0.combat_stats@[i]
                },
            forall|i: int| #![trigger w.suffers_damage@[i]]
                0 <= i < a ==> w.suffers_damage@[i] is None,
            forall|i: int| #![trigger w.suffers_damage@[i]]
                a <= i < n ==> w.suffers_damage@[i] == w0.suffers_damage@[i],
            *w == (World {
                combat_stats: w.combat_stats,
                suffers_damage: w.suffers_damage,
                ..w0
            }),
        decreases n - a,
    {
        if w.alive[a] && w.combat_stats[a].is_some() && w.suffers_damage[a].is_some() {
            proof {
                assert(w.combat_stats@[a as int] == w0.combat_stats@[a as int]);
                assert(w.suffers_damage@[a as int] == w0.suffers_damage@[a as int]);
                assert(damage_processed(w0, a as int));
            }
            let amount = w.suffers_damage[a].unwrap();
            if amount != 0 {
                let stats = w.combat_stats[a].unwrap();
                w.combat_stats[a] = Some(CombatStats { hp: stats.hp - amount, ..stats });
            }
        }
        w.suffers_damage[a] = None;
        a = a + 1;
    }
}

/// The actor dies in this purge: a live non-player combatant at or
/// below zero hit points.
pub open spec fn purged(w: World, a: int) -> bool {
    &&& w.live(a)
    &&& w.combat_stats@[a] is Some
    &&& w.combat_stats@[a]->Some_0.hp <= 0
    &&& !w.player@[a]
}

/// The player stands at or below zero hit points.
pub open spec fn player_down(w: World, a: int) -> bool {
    &&& w.live(a)
    &&& w.combat_stats@[a] is Some
    &&& w.combat_stats@[a]->Some_0.hp <= 0
    &&& w.player@[a]
}

/// The row of a deleted actor: gone, with every facet removed.
pub open spec fn row_cleared(w: World, a: int) -> bool {
    &&& !w.alive@[a]
    &&& !w.player@[a]
    &&& !w.monster@[a]
    &&& !w.global_turn@[a]
    &&& !w.blocks_tile@[a]
    &&& !w.is_visible@[a]
    &&& !w.item@[a]
    &&& !w.consumable@[a]
    &&& w.name@[a] is None
    &&& w.position@[a] is None
    &&& w.combat_stats@[a] is None
    &&& w.viewshed@[a] is None
    &&& w.takes_turn@[a] is None
    &&& w.can_move@[a] is None
    &&& w.can_melee@[a] is None
    &&& w.confusion@[a] is None
    &&& w.in_backpack@[a] is None
    &&& w.provides_healing@[a] is None
    &&& w.ranged@[a] is None
    &&& w.inflicts_damage@[a] is None
    &&& w.area_of_effect@[a] is None
    &&& w.wants_to_move@[a] is None
    &&& w.wants_to_melee@[a] is None
    &&& w.wants_to_pick_up@[a] is None
    &&& w.wants_to_use_item@[a] is None
    &&& w.wants_to_drop@[a] is None
    &&& w.wants_to_wait@[a] is None
    &&& !w.wants_to_take_turn@[a]
    &&& w.suffers_damage@[a] is None
}

/// The row of an actor the purge left alone: every facet as before.
pub open spec fn row_unchanged(w1: World, w2: World, a: int) -> bool {
    &&& w2.alive@[a] == w1.alive@[a]
    &&& w2.player@[a] == w1.player@[a]
    &&& w2.monster@[a] == w1.monster@[a]
    &&& w2.global_turn@[a] == w1.global_turn@[a]
    &&& w2.blocks_tile@[a] == w1.blocks_tile@[a]
    &&& w2.is_visible@[a] == w1.is_visible@[a]
    &&& w2.item@[a] == w1.item@[a]
    &&& w2.consumable@[a] == w1.consumable@[a]
    &&& w2.name@[a] == w1.name@[a]
    &&& w2.position@[a] == w1.position@[a]
    &&& w2.combat_stats@[a] == w1.combat_stats@[a]
    &&& w2.viewshed@[a] == w1.viewshed@[a]
    &&& w2.takes_turn@[a] == w1.takes_turn@[a]
    &&& w2.can_move@[a] == w1.can_move@[a]
    &&& w2.can_melee@[a] == w1.can_melee@[a]
    &&& w2.confusion@[a] == w1.confusion@[a]
    &&& w2.in_backpack@[a] == w1.in_backpack@[a]
    &&& w2.provides_healing@[a] == w1.provides_healing@[a]
    &&& w2.ranged@[a] == w1.ranged@[a]
    &&& w2.inflicts_damage@[a] == w1.inflicts_damage@[a]
    &&& w2.area_of_effect@[a] == w1.area_of_effect@[a]
    &&& w2.wants_to_move@[a] == w1.wants_to_move@[a]
    &&& w2.wants_to_melee@[a] == w1.wants_to_melee@[a]
    &&& w2.wants_to_pick_up@[a] == w1.wants_to_pick_up@[a]
    &&& w2.wants_to_use_item@[a] == w1.wants_to_use_item@[a]
    &&& w2.wants_to_drop@[a] == w1.wants_to_drop@[a]
    &&& w2.wants_to_wait@[a] == w1.wants_to_wait@[a]
    &&& w2.wants_to_take_turn@[a] == w1.wants_to_take_turn@[a]
    &&& w2.suffers_damage@[a] == w1.suffers_damage@[a]
}

/// What the purge narrates for actors below `n`, in id order: a named
/// non-player death is reported; the player's death is reported only
/// while an actual turn is being resolved, which guards against
/// repeating the message while a menu is open.
pub open spec fn purge_log_upto(w: World, is_turn: bool, v: Seq<(Seq<char>, int)>, n: int) -> Seq<
    (Seq<char>, int),
>
    decreases n,
{
    if n <= 0 {
        v
    } else {
        let prev = purge_log_upto(w, is_turn, v, n - 1);
        let a = n - 1;
        if purged(w, a) && w.name@[a] is Some {
            log_add(prev, w.name@[a]->Some_0@ + " is dead"@)
        } else if player_down(w, a) && is_turn {
            log_add(prev, "You are dead"@)
        } else {
            prev
        }
    }
}

/// Removes every facet of the actor and marks it gone.
fn clear_actor_row(w: &mut World, a: usize)
    requires
        old(w).wf(),
        a < old(w).n(),
    ensures
        final(w).wf(),
        final(w).n() == old(w).n(),
        row_cleared(*final(w), a as int),
        forall|i: int| 0 <= i < old(w).n() && i != a ==> row_unchanged(*old(w), *final(w), i),
        final(w).global_score == old(w).global_score,
        final(w).player_id == old(w).player_id,
        final(w).player_pos == old(w).player_pos,
{
    w.alive[a] = false;
    w.player[a] = false;
    w.monster[a] = false;
    w.global_turn[a] = false;
    w.blocks_tile[a] = false;
    w.is_visible[a] = false;
    w.item[a] = false;
    w.consumable[a] = false;
    w.name[a] = None;
    w.position[a] = None;
    w.combat_stats[a] = None;
    w.viewshed[a] = None;
    w.takes_turn[a] = None;
    w.can_move[a] = None;
    w.can_melee[a] = None;
    w.confusion[a] = None;
    w.in_backpack[a] = None;
    w.provides_healing[a] = None;
    w.ranged[a] = None;
    w.inflicts_damage[a] = None;
    w.area_of_effect[a] = None;
    w.wants_to_move[a] = None;
    w.wants_to_melee[a] = None;
    w.wants_to_pick_up[a] = None;
    w.wants_to_use_item[a] = None;
    w.wants_to_drop[a] = None;
    w.wants_to_wait[a] = None;
    w.wants_to_take_turn[a] = false;
    w.suffers_damage[a] = None;
}

/// Builds the named death narration.
fn death_message(name: &String) -> (r: String)
    ensures
        r@ == name@ + " is dead"@,
{
    proof {
        reveal_strlit(" is dead");
    }
    let mut r = name.clone();
    r.append(" is dead");
    r
}

/// The death purge.  Every live non-player combatant at or below zero
/// hit points is deleted, its death narrated when it has a name; the
/// player is never deleted, its death only narrated during an actual
/// turn.  Every other actor is untouched.
pub fn delete_the_dead(w: &mut World, log: &mut GameLog, run_state: RunState)
    requires
        old(w).wf(),
    ensures
        final(w).wf(),
        final(w).n() == old(w).n(),
        forall|a: int|
            0 <= a < old(w).n() && purged(*old(w), a) ==> row_cleared(*final(w), a),
        forall|a: int|
            0 <= a < old(w).n() && !purged(*old(w), a) ==> row_unchanged(*old(w), *final(w), a),
        log_view(*final(log)) == purge_log_upto(
            *old(w),
            run_state is PlayerTurn || run_state is WorldTurn,
            log_view(*old(log)),
            old(w).n(),
        ),
        final(w).global_score == old(w).global_score,
        final(w).player_id == old(w).player_id,
        final(w).player_pos == old(w).player_pos,
{
    let ghost w0 = *old(w);
    let is_turn = run_state.is_turn();
    let n = w.alive.len();
    let mut a: usize = 0;
    while a < n
        invariant
            w.wf(),
            w0.wf(),
            n == w.n(),
            n == w0.n(),
            a <= n,
            forall|i: int| #![trigger row_cleared(*w, i)]
                0 <= i < a && purged(w0, i) ==> row_cleared(*w, i),
            forall|i: int| #![trigger row_unchanged(w0, *w, i)]
                0 <= i < n && !(0 <= i < a && purged(w0, i)) ==> row_unchanged(w0, *w, i),
            log_view(*log) == purge_log_upto(w0, is_turn, log_view(*old(log)), a as int),
            is_turn == (run_state is PlayerTurn || run_state is WorldTurn),
            w.global_score == w0.global_score,
            w.player_id == w0.player_id,
            w.player_pos == w0.player_pos,
        decreases n - a,
    {
        let ghost w_entry = *w;
        let dying: bool = w.alive[a] && w.combat_stats[a].is_some()
            && w.combat_stats[a].unwrap().hp <= 0;
        proof {
            assert(row_unchanged(w0, *w, a as int));
            assert(dying == (w0.live(a as int) && w0.combat_stats@[a as int] is Some
                && w0.combat_stats@[a as int]->Some_0.hp <= 0));
        }
        if dying {
            if !w.player[a] {
                proof {
                    assert(purged(w0, a as int));
                }
                if w.name[a].is_some() {
                    let msg = death_message(w.name[a].as_ref().unwrap());
                    proof {
                        assert(msg@ == w0.name@[a as int]->Some_0@ + " is dead"@);
                    }
                    log.add(msg);
                }
                clear_actor_row(w, a);
            } else {
                if is_turn {
                    proof {
                        reveal_strlit("You are dead");
                    }
                    log.add(String::from_str("You are dead"));
                }
            }
        }
        proof {
            assert forall|i: int| #![trigger row_cleared(*w, i)]
                0 <= i < a + 1 && purged(w0, i) implies row_cleared(*w, i) by {
                if i < a as int {
                    assert(row_cleared(w_entry, i));
                    assert(row_unchanged(w_entry, *w, i));
                }
            }
            assert forall|i: int| #![trigger row_unchanged(w0, *w, i)]
                0 <= i < n && !(0 <= i < a + 1 && purged(w0, i)) implies row_unchanged(
                w0,
                *w,
                i,
            ) by {
                assert(row_unchanged(w0, w_entry, i));
                assert(row_unchanged(w_entry, *w, i));
            }
        }
        a = a + 1;
    }
}

} // verus!
