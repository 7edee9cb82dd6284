//! The movement resolver: consumes every move intent, charges the move
//! time cost, and carries out moves into unblocked cells, keeping the
//! blocked layer, viewshed dirtiness and the player-position singleton
//! in step.
//!
//! Movers are processed in actor-id order; a cell freed or filled by an
//! earlier mover is seen by later ones.

use vstd::prelude::*;

use crate::grid::SpatialMap;
use crate::types::{Position, TakesTurn, Viewshed};
use crate::world::World;

verus! {

/// The actor's move intent is processed: it has the intent and every
/// facet the resolver reads.
pub open spec fn move_processed(w: World, a: int) -> bool {
    &&& w.live(a)
    &&& w.wants_to_move@[a] is Some
    &&& w.takes_turn@[a] is Some
    &&& w.position@[a] is Some
    &&& w.can_move@[a] is Some
}

/// The parts of the state the movement pass rewrites, at the view level.
pub ghost struct MoveView {
    pub takes_turn: Seq<Option<TakesTurn>>,
    pub position: Seq<Option<Position>>,
    pub viewshed: Seq<Option<Viewshed>>,
    pub blocked: Seq<bool>,
    pub player_pos: Position,
}

/// The view the pass starts from.
pub open spec fn move_view_of(w: World, m: SpatialMap) -> MoveView {
    MoveView {
        takes_turn: w.takes_turn@,
        position: w.position@,
        viewshed: w.viewshed@,
        blocked: m.blocked@,
        player_pos: w.player_pos,
    }
}

/// One actor's move applied to the accumulated view: the move cost is
/// charged whatever happens; the move itself is rejected when the
/// destination is off the grid or blocked at this point of the pass.
pub open spec fn move_step(w: World, m: SpatialMap, v: MoveView, a: int) -> MoveView {
    if !move_processed(w, a) {
        v
    } else {
        let charged = MoveView {
            takes_turn: v.takes_turn.update(
                a,
                Some(
                    TakesTurn {
                        time_score: (w.takes_turn@[a]->Some_0.time_score
                            + w.can_move@[a]->Some_0.time_cost) as u32,
                    },
                ),
            ),
            ..v
        };
        let dest = w.wants_to_move@[a]->Some_0;
        if !(m.in_bounds(dest.x as int, dest.y as int) && !v.blocked[m.spec_idx(
            dest.x as int,
            dest.y as int,
        )]) {
            charged
        } else {
            let oldp = v.position[a]->Some_0;
            let moved = MoveView { position: charged.position.update(a, Some(dest)), ..charged };
            let seen = if v.viewshed[a] is Some {
                MoveView {
                    viewshed: moved.viewshed.update(
                        a,
                        Some(Viewshed { dirty: true, ..v.viewshed[a]->Some_0 }),
                    ),
                    ..moved
                }
            } else {
                moved
            };
            let walled = if w.blocks_tile@[a] {
                MoveView {
                    blocked: seen.blocked.update(
                        m.spec_idx(oldp.x as int, oldp.y as int),
                        false,
                    ).update(m.spec_idx(dest.x as int, dest.y as int), true),
                    ..seen
                }
            } else {
                seen
            };
            if w.player@[a] {
                MoveView { player_pos: dest, ..walled }
            } else {
                walled
            }
        }
    }
}

/// The accumulated view after the movers with id below `n`.
pub open spec fn move_fold(w: World, m: SpatialMap, n: int) -> MoveView
    decreases n,
{
    if n <= 0 {
        move_view_of(w, m)
    } else {
        move_step(w, m, move_fold(w, m, n - 1), n - 1)
    }
}

/// The fold only rewrites rows of movers already processed: every facet
/// row at or past `n` still holds its starting value, and the column
/// lengths never change.
pub proof fn lemma_move_fold_frame(w: World, m: SpatialMap, n: int)
    requires
        w.wf(),
        m.wf(),
        0 <= n <= w.n(),
        forall|a: int|
            move_processed(w, a) && w.blocks_tile@[a] ==> m.in_bounds(
                w.position@[a]->Some_0.x as int,
                w.position@[a]->Some_0.y as int,
            ),
    ensures
        move_fold(w, m, n).takes_turn.len() == w.takes_turn@.len(),
        move_fold(w, m, n).position.len() == w.position@.len(),
        move_fold(w, m, n).viewshed.len() == w.viewshed@.len(),
        move_fold(w, m, n).blocked.len() == m.blocked@.len(),
        forall|i: int| #![trigger move_fold(w, m, n).takes_turn[i]]
            n <= i < w.n() ==> move_fold(w, m, n).takes_turn[i] == w.takes_turn@[i],
        forall|i: int| #![trigger move_fold(w, m, n).position[i]]
            n <= i < w.n() ==> move_fold(w, m, n).position[i] == w.position@[i],
        forall|i: int| #![trigger move_fold(w, m, n).viewshed[i]]
            n <= i < w.n() ==> move_fold(w, m, n).viewshed[i] == w.viewshed@[i],
    decreases n,
{
    if n > 0 {
        lemma_move_fold_frame(w, m, n - 1);
        let a = n - 1;
        let v1 = move_fold(w, m, n - 1);
        if move_processed(w, a) {
            let dest = w.wants_to_move@[a]->Some_0;
            if m.in_bounds(dest.x as int, dest.y as int) && !v1.blocked[m.spec_idx(
                dest.x as int,
                dest.y as int,
            )] {
                m.lemma_idx_in_range(dest.x as int, dest.y as int);
                if w.blocks_tile@[a] {
                    let oldp = v1.position[a]->Some_0;
                    assert(oldp == w.position@[a]->Some_0);
                    m.lemma_idx_in_range(oldp.x as int, oldp.y as int);
                }
            }
        }
    }
}

/// Resolves every move intent in actor-id order, then drains the intent
/// storage.  The final state is exactly the fold of the single-mover
/// steps over the starting state.
pub fn movement_run(w: &mut World, map: &mut SpatialMap)
    requires
        old(w).wf(),
        old(map).wf(),
        forall|a: int|
            move_processed(*old(w), a) ==> old(w).takes_turn@[a]->Some_0.time_score + old(
                w,
            ).can_move@[a]->Some_0.time_cost <= u32::MAX,
        forall|a: int|
            move_processed(*old(w), a) && old(w).blocks_tile@[a] ==> old(map).in_bounds(
                old(w).position@[a]->Some_0.x as int,
                old(w).position@[a]->Some_0.y as int,
            ),
    ensures
        final(w).wf(),
        final(map).wf(),
        final(w).n() == old(w).n(),
        ({
            let v = move_fold(*old(w), *old(map), old(w).n());
            &&& final(w).takes_turn@ == v.takes_turn
            &&& final(w).position@ == v.position
            &&& final(w).viewshed@ == v.viewshed
            &&& final(map).blocked@ == v.blocked
            &&& final(w).player_pos == v.player_pos
        }),
        forall|a: int| #![trigger final(w).wants_to_move@[a]]
            0 <= a < old(w).n() ==> final(w).wants_to_move@[a] is None,
        *final(w) == (World {
            takes_turn: final(w).takes_turn,
            position: final(w).position,
            viewshed: final(w).viewshed,
            player_pos: final(w).player_pos,
            wants_to_move: final(w).wants_to_move,
            ..*old(w)
        }),
        *final(map) == (SpatialMap { blocked: final(map).blocked, ..*old(map) }),
{
    let ghost w0 = *old(w);
    let ghost m0 = *old(map);
    let n = w.alive.len();
    let mut a: usize = 0;
    while a < n
        invariant
            w.wf(),
            w0.wf(),
            map.wf(),
            m0.wf(),
            n == w.n(),
            n == w0.n(),
            a <= n,
            forall|i: int|
                move_processed(w0, i) ==> w0.takes_turn@[i]->Some_0.time_score
                    + w0.can_move@[i]->Some_0.time_cost <= u32::MAX,
            forall|i: int|
                move_processed(w0, i) && w0.blocks_tile@[i] ==> m0.in_bounds(
                    w0.position@[i]->Some_0.x as int,
                    w0.position@[i]->Some_0.y as int,
                ),
            ({
                let v = move_fold(w0, m0, a as int);
                &&& w.takes_turn@ == v.takes_turn
                &&& w.position@ == v.position
                &&& w.viewshed@ == v.viewshed
                &&& map.blocked@ == v.blocked
                &&& w.player_pos == v.player_pos
            }),
            *w == (World {
                takes_turn: w.takes_turn,
                position: w.position,
                viewshed: w.viewshed,
                player_pos: w.player_pos,
                ..w0
            }),
            *map == (SpatialMap { blocked: map.blocked, ..m0 }),
        decreases n - a,
    {
        let ghost v1 = move_fold(w0, m0, a as int);
        let processed: bool = w.alive[a] && w.wants_to_move[a].is_some()
            && w.takes_turn[a].is_some() && w.position[a].is_some() && w.can_move[a].is_some();
        proof {
            lemma_move_fold_frame(w0, m0, a as int);
            assert(w.takes_turn@[a as int] == w0.takes_turn@[a as int]);
            assert(w.position@[a as int] == w0.position@[a as int]);
            assert(w.viewshed@[a as int] == w0.viewshed@[a as int]);
            assert(processed == move_processed(w0, a as int));
            assert(move_fold(w0, m0, a + 1) == move_step(w0, m0, v1, a as int));
        }
        if processed {
            let cost = w.can_move[a].unwrap().time_cost;
            let tt = w.takes_turn[a].unwrap();
            w.takes_turn[a] = Some(TakesTurn { time_score: tt.time_score + cost });
            let dest = w.wants_to_move[a].unwrap();
            let dest_free: bool = map.is_valid(dest.x, dest.y) && !map.is_blocked(dest.x, dest.y);
            if dest_free {
                let oldp = w.position[a].unwrap();
                w.position[a] = Some(dest);
                if w.viewshed[a].is_some() {
                    let mut vs = w.viewshed[a].take().unwrap();
                    vs.dirty = true;
                    w.viewshed[a] = Some(vs);
                }
                if w.blocks_tile[a] {
                    let old_idx = map.xy_idx(oldp.x, oldp.y);
                    let new_idx = map.xy_idx(dest.x, dest.y);
                    map.blocked[old_idx] = false;
                    map.blocked[new_idx] = true;
                }
                if w.player[a] {
                    w.player_pos = dest;
                }
            }
            proof {
                let v2 = move_fold(w0, m0, a + 1);
                assert(w.takes_turn@ =~= v2.takes_turn);
                assert(w.position@ =~= v2.position);
                assert(w.viewshed@ =~= v2.viewshed);
                assert(map.blocked@ =~= v2.blocked);
            }
        }
        a = a + 1;
    }
    // Drain the intent storage unconditionally.
    let ghost w_mid = *w;
    let mut i: usize = 0;
    while i < n
        invariant
            w.wf(),
            n == w.n(),
            i <= n,
            forall|k: int| #![trigger w.wants_to_move@[k]]
                0 <= k < i ==> w.wants_to_move@[k] is None,
            *w == (World { wants_to_move: w.wants_to_move, ..w_mid }),
        decreases n - i,
    {
        w.wants_to_move[i] = None;
        i = i + 1;
    }
}

} // verus!
