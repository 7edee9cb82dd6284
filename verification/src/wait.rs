//! The wait resolver: a waiting actor's time score becomes one more
//! than the world clock's published score, so it cedes priority without
//! starving.  The wait cause is logging metadata only and never enters
//! the formula.

use vstd::prelude::*;

use crate::types::TakesTurn;
use crate::world::World;

verus! {

/// The actor's wait intent is processed: it has the intent and a
/// scheduling facet.
pub open spec fn wait_processed(w: World, a: int) -> bool {
    &&& w.live(a)
    &&& w.wants_to_wait@[a] is Some
    &&& w.takes_turn@[a] is Some
}

/// Resolves every wait intent, then drains the intent storage.  Every
/// processed waiter's score becomes exactly `global_score + 1`,
/// whatever its score was and whatever the wait's cause.
pub fn wait_run(w: &mut World)
    requires
        old(w).wf(),
        old(w).global_score < u32::MAX,
    ensures
        final(w).wf(),
        final(w).n() == old(w).n(),
        forall|a: int| #![trigger final(w).takes_turn@[a]]
            0 <= a < old(w).n() ==> final(w).takes_turn@[a] == if wait_processed(*old(w), a) {
                Some(TakesTurn { time_score: (old(w).global_score + 1) as u32 })
            } else {
                old(w).takes_turn@[a]
            },
        forall|a: int| #![trigger final(w).wants_to_wait@[a]]
            0 <= a < old(w).n() ==> final(w).wants_to_wait@[a] is None,
        *final(w) == (World {
            takes_turn: final(w).takes_turn,
            wants_to_wait: final(w).wants_to_wait,
            ..*old(w)
        }),
{
    let ghost w0 = *old(w);
    let target = w.global_score + 1;
    let n = w.alive.len();
    let mut a: usize = 0;
    while a < n
        invariant
            w.wf(),
            w0.wf(),
            n == w.n(),
            n == w0.n(),
            a <= n,
            target == w0.global_score + 1,
            forall|i: int| #![trigger w.takes_turn@[i]]
                0 <= i < n ==> w.takes_turn@[i] == if wait_processed(w0, i) && i < a {
                    Some(TakesTurn { time_score: (w0.global_score + 1) as u32 })
                } else {
                    w0.takes_turn@[i]
                },
            forall|i: int| #![trigger w.wants_to_wait@[i]]
                0 <= i < a ==> w.wants_to_wait@[i] is None,
            forall|i: int| #![trigger w.wants_to_wait@[i]]
                a <= i < n ==> w.wants_to_wait@[i] == w0.wants_to_wait@[i],
            *w == (World { takes_turn: w.takes_turn, wants_to_wait: w.wants_to_wait, ..w0 }),
        decreases n - a,
    {
        if w.alive[a] && w.wants_to_wait[a].is_some() && w.takes_turn[a].is_some() {
            w.takes_turn[a] = Some(TakesTurn { time_score: target });
            w.wants_to_wait[a] = None;
        } else {
            w.wants_to_wait[a] = None;
        }
        a = a + 1;
    }
}

} // verus!
