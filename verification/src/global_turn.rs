//! The world-clock resolver: normalizes time scores when they grow past
//! the ceiling, advances the clock when the world-clock actor holds a
//! turn, and ticks down confusion on that same beat.  The clock always
//! acts alone in its batch, so the beat is the one moment the whole
//! round has passed; under the wait formula one beat comes to about one
//! completed turn per afflicted actor.

use vstd::prelude::*;

use crate::scheduler::{score_at, takes_turn_at};
use crate::types::{Confusion, TakesTurn};
use crate::world::World;

verus! {

/// Scores are normalized once their minimum passes this ceiling.
pub const TIME_SCORE_LIMIT: u32 = 1000;

/// What the world clock charges itself per turn.
pub const GLOBAL_TURN_COST: u32 = 100;

/// The minimum time score among scheduled actors with id below `n`.
pub open spec fn min_score_upto(w: World, n: int) -> Option<u32>
    decreases n,
{
    if n <= 0 {
        None
    } else {
        let prev = min_score_upto(w, n - 1);
        if takes_turn_at(w, n - 1) {
            match prev {
                None => Some(score_at(w, n - 1)),
                Some(m) => if score_at(w, n - 1) < m {
                    Some(score_at(w, n - 1))
                } else {
                    Some(m)
                },
            }
        } else {
            prev
        }
    }
}

/// The minimum time score among all scheduled actors, `None` when there
/// is none.
pub open spec fn min_score(w: World) -> Option<u32> {
    min_score_upto(w, w.n())
}

/// The minimum is a lower bound on every scheduled actor's score.
pub proof fn lemma_min_score_bound(w: World, n: int, a: int)
    requires
        0 <= a < n,
        takes_turn_at(w, a),
    ensures
        min_score_upto(w, n) is Some,
        min_score_upto(w, n)->Some_0 <= score_at(w, a),
    decreases n,
{
    if a < n - 1 {
        lemma_min_score_bound(w, n - 1, a);
    }
}

/// Computes the minimum time score among scheduled actors.
fn compute_min_score(w: &World) -> (r: Option<u32>)
    requires
        w.wf(),
    ensures
        r == min_score(*w),
{
    let n = w.alive.len();
    let mut r: Option<u32> = None;
    let mut a: usize = 0;
    while a < n
        invariant
            w.wf(),
            n == w.n(),
            a <= n,
            r == min_score_upto(*w, a as int),
        decreases n - a,
    {
        if w.alive[a] {
            if let Some(tt) = w.takes_turn[a] {
                r = match r {
                    None => Some(tt.time_score),
                    Some(m) => if tt.time_score < m {
                        Some(tt.time_score)
                    } else {
                        Some(m)
                    },
                };
            }
        }
        a = a + 1;
    }
    r
}

/// Subtracts `m` from every scheduled actor's time score and from the
/// world clock's published score, leaving relative order untouched.
pub fn normalize_scores(w: &mut World, m: u32)
    requires
        old(w).wf(),
        m <= old(w).global_score,
        forall|a: int| takes_turn_at(*old(w), a) ==> m <= score_at(*old(w), a),
    ensures
        final(w).wf(),
        final(w).n() == old(w).n(),
        forall|a: int| #![trigger final(w).takes_turn@[a]]
            0 <= a < old(w).n() ==> final(w).takes_turn@[a] == if takes_turn_at(*old(w), a) {
                Some(TakesTurn { time_score: (score_at(*old(w), a) - m) as u32 })
            } else {
                old(w).takes_turn@[a]
            },
        final(w).global_score == old(w).global_score - m,
        *final(w) == (World {
            takes_turn: final(w).takes_turn,
            global_score: final(w).global_score,
            ..*old(w)
        }),
{
    let ghost w0 = *old(w);
    let n = w.alive.len();
    let mut a: usize = 0;
    while a < n
        invariant
            w.wf(),
            w0.wf(),
            n == w.n(),
            n == w0.n(),
            a <= n,
            forall|i: int| takes_turn_at(w0, i) ==> m <= score_at(w0, i),
            forall|i: int| #![trigger w.takes_turn@[i]]
                0 <= i < n ==> w.takes_turn@[i] == if takes_turn_at(w0, i) && i < a {
                    Some(TakesTurn { time_score: (score_at(w0, i) - m) as u32 })
                } else {
                    w0.takes_turn@[i]
                },
            *w == (World { takes_turn: w.takes_turn, ..w0 }),
        decreases n - a,
    {
        if w.alive[a] {
            if w.takes_turn[a].is_some() {
                let tt = w.takes_turn[a].unwrap();
                proof {
                    assert(takes_turn_at(w0, a as int));
                }
                w.takes_turn[a] = Some(TakesTurn { time_score: tt.time_score - m });
            }
        }
        a = a + 1;
    }
    let g = w.global_score;
    w.global_score = g - m;
}

/// The world-clock actor holds a turn: live, scheduled, marked as the
/// clock, and granted a turn this round.
pub open spec fn global_active(w: World, a: int) -> bool {
    &&& w.live(a)
    &&& w.takes_turn@[a] is Some
    &&& w.wants_to_take_turn@[a]
    &&& w.global_turn@[a]
}

/// Confusion ticks on the actor when the clock advances: it is live,
/// scheduled, and confused.  The clock's batch is always the clock
/// alone, so its beat stands in for the completed round: gating the
/// tick on each actor's own turn marker would leave no actor that
/// could ever tick.
pub open spec fn confusion_ticked(w: World, a: int) -> bool {
    &&& w.live(a)
    &&& w.takes_turn@[a] is Some
    &&& w.confusion@[a] is Some
}

/// The world-clock resolver.  When the minimum score has passed the
/// ceiling, all scores are first normalized by that minimum.  Then, if
/// the clock actor holds a turn, it charges itself the fixed clock cost,
/// publishes its new score, and every confused scheduled actor loses
/// one confusion turn, the facet leaving at zero.
pub fn global_turn_run(w: &mut World)
    requires
        old(w).wf(),
        exists|a: int| takes_turn_at(*old(w), a),
        min_score(*old(w))->Some_0 > TIME_SCORE_LIMIT ==> min_score(*old(w))->Some_0 <= old(
            w,
        ).global_score,
        forall|a: int|
            global_active(*old(w), a) ==> score_at(*old(w), a) + GLOBAL_TURN_COST <= u32::MAX,
        forall|a: int|
            confusion_ticked(*old(w), a) ==> old(w).confusion@[a]->Some_0.turns > i32::MIN,
        forall|i: int, j: int|
            old(w).global_turn@[i] && old(w).global_turn@[j] && 0 <= i < old(w).n() && 0 <= j
                < old(w).n() ==> i == j,
    ensures
        final(w).wf(),
        final(w).n() == old(w).n(),
        ({
            // The scores the round works on: normalized when the minimum
            // passed the ceiling, untouched otherwise.
            let m = if min_score(*old(w))->Some_0 > TIME_SCORE_LIMIT {
                min_score(*old(w))->Some_0
            } else {
                0
            };
            let clock_took_turn = exists|g: int| global_active(*old(w), g);
            &&& forall|a: int| #![trigger final(w).takes_turn@[a]]
                0 <= a < old(w).n() ==> final(w).takes_turn@[a] == if takes_turn_at(
                    *old(w),
                    a,
                ) {
                    if global_active(*old(w), a) {
                        Some(
                            TakesTurn {
                                time_score: (score_at(*old(w), a) - m + GLOBAL_TURN_COST) as u32,
                            },
                        )
                    } else {
                        Some(TakesTurn { time_score: (score_at(*old(w), a) - m) as u32 })
                    }
                } else {
                    old(w).takes_turn@[a]
                }
            &&& final(w).global_score == if clock_took_turn {
                (score_at(*old(w), choose|g: int| global_active(*old(w), g)) - m
                    + GLOBAL_TURN_COST) as u32
            } else {
                (old(w).global_score - m) as u32
            }
            &&& forall|a: int| #![trigger final(w).confusion@[a]]
                0 <= a < old(w).n() ==> final(w).confusion@[a] == if clock_took_turn
                    && confusion_ticked(*old(w), a) {
                    if old(w).confusion@[a]->Some_0.turns - 1 <= 0 {
                        None
                    } else {
                        Some(Confusion { turns: (old(w).confusion@[a]->Some_0.turns - 1) as i32 })
                    }
                } else {
                    old(w).confusion@[a]
                }
        }),
        *final(w) == (World {
            takes_turn: final(w).takes_turn,
            confusion: final(w).confusion,
            global_score: final(w).global_score,
            ..*old(w)
        }),
{
    let ghost w0 = *old(w);
    proof {
        let a0 = choose|a: int| takes_turn_at(w0, a);
        lemma_min_score_bound(w0, w0.n(), a0);
    }
    let min = compute_min_score(w).unwrap();
    let ghost m_spec: int = if min_score(w0)->Some_0 > TIME_SCORE_LIMIT {
        min_score(w0)->Some_0 as int
    } else {
        0
    };
    if min > TIME_SCORE_LIMIT {
        proof {
            assert forall|a: int| takes_turn_at(*w, a) implies min <= score_at(*w, a) by {
                lemma_min_score_bound(*w, w.n(), a);
            }
        }
        normalize_scores(w, min);
    }
    // After optional normalization, every scheduled actor's score is its
    // old score less m_spec.
    proof {
        assert forall|a: int| #![trigger w.takes_turn@[a]]
            0 <= a < w0.n() implies w.takes_turn@[a] == (if takes_turn_at(w0, a) {
            Some(TakesTurn { time_score: (score_at(w0, a) - m_spec) as u32 })
        } else {
            w0.takes_turn@[a]
        }) by {
            if takes_turn_at(w0, a) && m_spec > 0 {
                lemma_min_score_bound(w0, w0.n(), a);
            }
        }
    }

    // The clock's beat: charge the clock actor and publish its score.
    let ghost w_norm = *w;
    let n = w.alive.len();
    let mut turn_taken = false;
    let mut a: usize = 0;
    while a < n
        invariant
            w.wf(),
            w0.wf(),
            w_norm.wf(),
            n == w.n(),
            n == w0.n(),
            n == w_norm.n(),
            a <= n,
            forall|i: int|
                global_active(w0, i) ==> score_at(w0, i) + GLOBAL_TURN_COST <= u32::MAX,
            forall|i: int, j: int|
                w0.global_turn@[i] && w0.global_turn@[j] && 0 <= i < n && 0 <= j < n ==> i == j,
            0 <= m_spec <= u32::MAX,
            w_norm.alive@ == w0.alive@,
            w_norm.global_turn@ == w0.global_turn@,
            w_norm.wants_to_take_turn@ == w0.wants_to_take_turn@,
            forall|i: int| #![trigger w_norm.takes_turn@[i]]
                0 <= i < n ==> w_norm.takes_turn@[i] == (if takes_turn_at(w0, i) {
                    Some(TakesTurn { time_score: (score_at(w0, i) - m_spec) as u32 })
                } else {
                    w0.takes_turn@[i]
                }),
            forall|i: int| takes_turn_at(w0, i) && m_spec > 0 ==> m_spec <= score_at(w0, i),
            turn_taken == exists|g: int| 0 <= g < a && global_active(w0, g),
            forall|i: int| #![trigger w.takes_turn@[i]]
                0 <= i < n ==> w.takes_turn@[i] == if global_active(w0, i) && i < a {
                    Some(
                        TakesTurn {
                            time_score: (score_at(w0, i) - m_spec + GLOBAL_TURN_COST) as u32,
                        },
                    )
                } else {
                    w_norm.takes_turn@[i]
                },
            w.global_score == if exists|g: int| 0 <= g < a && global_active(w0, g) {
                (score_at(w0, choose|g: int| global_active(w0, g)) - m_spec
                    + GLOBAL_TURN_COST) as u32
            } else {
                w_norm.global_score
            },
            *w == (World {
                takes_turn: w.takes_turn,
                global_score: w.global_score,
                ..w_norm
            }),
        decreases n - a,
    {
        let active: bool = w.alive[a] && w.takes_turn[a].is_some() && w.wants_to_take_turn[a]
            && w.global_turn[a];
        proof {
            assert(w.takes_turn@[a as int] == w_norm.takes_turn@[a as int]);
            assert(active == global_active(w0, a as int));
        }
        if active {
            let tt = w.takes_turn[a].unwrap();
            proof {
                assert(takes_turn_at(w0, a as int));
                assert(w_norm.takes_turn@[a as int] == Some(
                    TakesTurn { time_score: (score_at(w0, a as int) - m_spec) as u32 },
                ));
                assert(m_spec > 0 ==> m_spec <= score_at(w0, a as int));
                assert(0 <= score_at(w0, a as int) - m_spec <= u32::MAX);
                assert(tt.time_score == score_at(w0, a as int) - m_spec);
            }
            let bumped = tt.time_score + GLOBAL_TURN_COST;
            w.takes_turn[a] = Some(TakesTurn { time_score: bumped });
            w.global_score = bumped;
            turn_taken = true;
            proof {
                assert(global_active(w0, a as int));
                assert((choose|g: int| global_active(w0, g)) == a as int);
            }
        }
        a = a + 1;
    }

    // Confusion ticks only on the clock's beat.
    if turn_taken {
        let ghost w_clock = *w;
        let mut i: usize = 0;
        while i < n
            invariant
                w.wf(),
                w0.wf(),
                w_clock.wf(),
                n == w.n(),
                n == w0.n(),
                n == w_clock.n(),
                i <= n,
                w_clock.alive@ == w0.alive@,
                w_clock.confusion@ == w0.confusion@,
                forall|k: int| #![trigger w_clock.takes_turn@[k]]
                    0 <= k < n ==> (w_clock.takes_turn@[k] is Some) == (w0.takes_turn@[k]
                        is Some),
                forall|k: int|
                    confusion_ticked(w0, k) ==> w0.confusion@[k]->Some_0.turns > i32::MIN,
                forall|k: int| #![trigger w.confusion@[k]]
                    0 <= k < n ==> w.confusion@[k] == if confusion_ticked(w0, k) && k < i {
                        if w0.confusion@[k]->Some_0.turns - 1 <= 0 {
                            None
                        } else {
                            Some(
                                Confusion { turns: (w0.confusion@[k]->Some_0.turns - 1) as i32 },
                            )
                        }
                    } else {
                        w0.confusion@[k]
                    },
                *w == (World { confusion: w.confusion, ..w_clock }),
            decreases n - i,
        {
            if w.alive[i] && w.takes_turn[i].is_some() && w.confusion[i].is_some() {
                proof {
                    assert(w.confusion@[i as int] == w0.confusion@[i as int]);
                    assert(confusion_ticked(w0, i as int));
                }
                let c = w.confusion[i].unwrap();
                let left = c.turns - 1;
                if left <= 0 {
                    w.confusion[i] = None;
                } else {
                    w.confusion[i] = Some(Confusion { turns: left });
                }
            }
            i = i + 1;
        }
    }
}

} // verus!
