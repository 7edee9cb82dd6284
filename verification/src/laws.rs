//! System-wide laws, stated and proved over the same spec functions the
//! resolver contracts use.
//!
//! Time-score monotonicity holds of every resolver that charges a cost;
//! the two deliberate exceptions are score normalization (which shifts
//! every score down together) and a wait by an actor already scheduled
//! past the world clock (its score is set back to exactly one past the
//! clock).  The lemmas below state the law on the inputs where it
//! holds.

use vstd::prelude::*;

use crate::damage::{purged, row_cleared, row_unchanged};
use crate::global_turn::{global_active, min_score, GLOBAL_TURN_COST, TIME_SCORE_LIMIT};
use crate::grid::SpatialMap;
use crate::item_use::{heal_fold, lemma_heal_fold_frame, UseView};
use crate::melee::{melee_damage, melee_processed};
use crate::movement::{move_fold, move_processed};
use crate::scheduler::{score_at, takes_turn_at};
use crate::types::TakesTurn;
use crate::wait::wait_processed;
use crate::world::World;

verus! {

/// Law: melee damage is never negative.
pub proof fn lemma_melee_damage_nonneg(w: World, a: int)
    ensures
        melee_damage(w, a) >= 0,
{
}

/// Law: one melee pass never lowers a time score.  `w2`'s scheduling
/// column is the one the melee resolver's contract describes.
pub proof fn lemma_melee_scores_monotonic(w1: World, w2: World)
    requires
        w1.wf(),
        w2.n() == w1.n(),
        forall|a: int|
            melee_processed(w1, a) ==> w1.takes_turn@[a]->Some_0.time_score
                + w1.can_melee@[a]->Some_0.time_cost <= u32::MAX,
        forall|a: int| #![trigger w2.takes_turn@[a]]
            0 <= a < w1.n() ==> w2.takes_turn@[a] == if melee_processed(w1, a) {
                Some(
                    TakesTurn {
                        time_score: (w1.takes_turn@[a]->Some_0.time_score
                            + w1.can_melee@[a]->Some_0.time_cost) as u32,
                    },
                )
            } else {
                w1.takes_turn@[a]
            },
    ensures
        forall|a: int|
            0 <= a < w1.n() && takes_turn_at(w1, a) ==> w2.takes_turn@[a] is Some && score_at(
                w1,
                a,
            ) <= w2.takes_turn@[a]->Some_0.time_score,
{
    assert forall|a: int|
        0 <= a < w1.n() && takes_turn_at(w1, a) implies w2.takes_turn@[a] is Some && score_at(
        w1,
        a,
    ) <= w2.takes_turn@[a]->Some_0.time_score by {
        assert(w2.takes_turn@[a] == if melee_processed(w1, a) {
            Some(
                TakesTurn {
                    time_score: (w1.takes_turn@[a]->Some_0.time_score
                        + w1.can_melee@[a]->Some_0.time_cost) as u32,
                },
            )
        } else {
            w1.takes_turn@[a]
        });
    }
}

/// Law: the movement pass never lowers a time score.
pub proof fn lemma_movement_scores_monotonic(w: World, m: SpatialMap, n: int, a: int)
    requires
        w.wf(),
        0 <= n <= w.n(),
        0 <= a < w.n(),
        forall|i: int|
            move_processed(w, i) ==> w.takes_turn@[i]->Some_0.time_score
                + w.can_move@[i]->Some_0.time_cost <= u32::MAX,
    ensures
        move_fold(w, m, n).takes_turn.len() == w.takes_turn@.len(),
        w.takes_turn@[a] is Some ==> move_fold(w, m, n).takes_turn[a] is Some
            && w.takes_turn@[a]->Some_0.time_score
            <= move_fold(w, m, n).takes_turn[a]->Some_0.time_score,
        w.takes_turn@[a] is None ==> move_fold(w, m, n).takes_turn[a] is None,
    decreases n,
{
    if n > 0 {
        lemma_movement_scores_monotonic(w, m, n - 1, a);
    }
}

/// Law: a waiting actor's score becomes exactly one past the world
/// clock; it never decreases provided the waiter was not already
/// scheduled past the clock.  `w2`'s scheduling column is the one the
/// wait resolver's contract describes.
pub proof fn lemma_wait_scores_monotonic(w1: World, w2: World)
    requires
        w1.wf(),
        w2.n() == w1.n(),
        w1.global_score < u32::MAX,
        forall|a: int|
            wait_processed(w1, a) ==> score_at(w1, a) <= w1.global_score + 1,
        forall|a: int| #![trigger w2.takes_turn@[a]]
            0 <= a < w1.n() ==> w2.takes_turn@[a] == if wait_processed(w1, a) {
                Some(TakesTurn { time_score: (w1.global_score + 1) as u32 })
            } else {
                w1.takes_turn@[a]
            },
    ensures
        forall|a: int|
            0 <= a < w1.n() && takes_turn_at(w1, a) ==> w2.takes_turn@[a] is Some && score_at(
                w1,
                a,
            ) <= w2.takes_turn@[a]->Some_0.time_score,
{
    assert forall|a: int|
        0 <= a < w1.n() && takes_turn_at(w1, a) implies w2.takes_turn@[a] is Some && score_at(
        w1,
        a,
    ) <= w2.takes_turn@[a]->Some_0.time_score by {
        assert(w2.takes_turn@[a] == if wait_processed(w1, a) {
            Some(TakesTurn { time_score: (w1.global_score + 1) as u32 })
        } else {
            w1.takes_turn@[a]
        });
    }
}

/// Law: absent normalization, the world clock's beat never lowers a
/// time score: the clock charges itself the fixed cost and leaves every
/// other score alone.  `w2`'s scheduling column is the one the clock
/// resolver's contract describes for that case.
pub proof fn lemma_clock_scores_monotonic(w1: World, w2: World)
    requires
        w1.wf(),
        w2.n() == w1.n(),
        !(min_score(w1)->Some_0 > TIME_SCORE_LIMIT),
        forall|a: int|
            global_active(w1, a) ==> score_at(w1, a) + GLOBAL_TURN_COST <= u32::MAX,
        forall|a: int| #![trigger w2.takes_turn@[a]]
            0 <= a < w1.n() ==> w2.takes_turn@[a] == if takes_turn_at(w1, a) {
                if global_active(w1, a) {
                    Some(TakesTurn { time_score: (score_at(w1, a) + GLOBAL_TURN_COST) as u32 })
                } else {
                    Some(TakesTurn { time_score: (score_at(w1, a) as int) as u32 })
                }
            } else {
                w1.takes_turn@[a]
            },
    ensures
        forall|a: int|
            0 <= a < w1.n() && takes_turn_at(w1, a) ==> w2.takes_turn@[a] is Some && score_at(
                w1,
                a,
            ) <= w2.takes_turn@[a]->Some_0.time_score,
{
    assert forall|a: int|
        0 <= a < w1.n() && takes_turn_at(w1, a) implies w2.takes_turn@[a] is Some && score_at(
        w1,
        a,
    ) <= w2.takes_turn@[a]->Some_0.time_score by {
        assert(w2.takes_turn@[a] == if takes_turn_at(w1, a) {
            if global_active(w1, a) {
                Some(TakesTurn { time_score: (score_at(w1, a) + GLOBAL_TURN_COST) as u32 })
            } else {
                Some(TakesTurn { time_score: (score_at(w1, a) as int) as u32 })
            }
        } else {
            w1.takes_turn@[a]
        });
    }
}

/// Law: healing never raises hit points above the target's own
/// maximum: after the heal pass, a raised value sits at or below
/// `max_hp`.
pub proof fn lemma_heal_clamped(
    w: World,
    v: UseView,
    u: int,
    it: int,
    s: Seq<usize>,
    k: int,
    t: int,
)
    requires
        k <= s.len(),
        0 <= t < v.combat_stats.len(),
        v.combat_stats[t] is Some,
        forall|j: int| #![trigger s[j]]
            0 <= j < s.len() ==> 0 <= s[j] < v.combat_stats.len() && v.combat_stats[s[j] as int]
                is Some,
    ensures
        heal_fold(w, v, u, it, s, k).combat_stats[t] is Some,
        ({
            let hp_after = heal_fold(w, v, u, it, s, k).combat_stats[t]->Some_0.hp as int;
            let hp_before = v.combat_stats[t]->Some_0.hp as int;
            hp_after > hp_before ==> hp_after <= v.combat_stats[t]->Some_0.max_hp
        }),
    decreases k,
{
    lemma_heal_fold_frame(w, v, u, it, s, k);
    if k > 0 {
        lemma_heal_clamped(w, v, u, it, s, k - 1, t);
        lemma_heal_fold_frame(w, v, u, it, s, k - 1);
    }
}

/// Law: the purge never deletes the player, and always deletes a downed
/// non-player combatant.  `w2` is related to `w1` as the purge's
/// contract describes.
pub proof fn lemma_death_exclusivity(w1: World, w2: World)
    requires
        forall|a: int| 0 <= a < w1.n() && purged(w1, a) ==> row_cleared(w2, a),
        forall|a: int| 0 <= a < w1.n() && !purged(w1, a) ==> row_unchanged(w1, w2, a),
    ensures
        forall|a: int|
            0 <= a < w1.n() && w1.alive@[a] && w1.player@[a] ==> w2.alive@[a],
        forall|a: int| 0 <= a < w1.n() && purged(w1, a) ==> !w2.alive@[a],
{
    assert forall|a: int|
        0 <= a < w1.n() && w1.alive@[a] && w1.player@[a] implies w2.alive@[a] by {
        assert(!purged(w1, a));
        assert(row_unchanged(w1, w2, a));
    }
    assert forall|a: int| 0 <= a < w1.n() && purged(w1, a) implies !w2.alive@[a] by {
        assert(row_cleared(w2, a));
    }
}

} // verus!
