//! The turn scheduler: picks the batch of actors that act next.
//!
//! All actors with a scheduling facet are ordered by time score, ties
//! broken by actor creation order (the documented deterministic
//! tiebreak).  If the lowest-scored actor may stop the batch (it is the
//! world clock, the player, or currently visible), the batch is exactly
//! that actor; otherwise the batch is the longest prefix of actors that
//! may not stop it, so off-screen actors act together in bulk.

use vstd::prelude::*;
use vstd::relations::{sorted_by, total_ordering};
use vstd::seq_lib::lemma_sorted_unique;

use crate::state::RunState;
use crate::world::World;

verus! {

/// The actor is scheduled: live with a `TakesTurn` facet.
pub open spec fn takes_turn_at(w: World, id: int) -> bool {
    w.live(id) && w.takes_turn@[id] is Some
}

/// Time score of a scheduled actor.
pub open spec fn score_at(w: World, id: int) -> u32 {
    w.takes_turn@[id]->Some_0.time_score
}

/// The actor closes the batch when reached: world clock, player, or
/// currently visible.
pub open spec fn eligible_to_stop(w: World, id: int) -> bool {
    w.global_turn@[id] || w.player@[id] || w.is_visible@[id]
}

/// Scheduling order on (time score, actor id) pairs: by score, ties by id.
pub open spec fn pair_leq() -> spec_fn((u32, usize), (u32, usize)) -> bool {
    |a: (u32, usize), b: (u32, usize)| a.0 < b.0 || (a.0 == b.0 && a.1 <= b.1)
}

/// The scheduling order is a total ordering, as the sort requires.
pub proof fn lemma_pair_leq_total()
    ensures
        total_ordering(pair_leq()),
{
    let leq = pair_leq();
    assert forall|x: (u32, usize), y: (u32, usize)| #[trigger] leq(x, y) && #[trigger] leq(
        y,
        x,
    ) implies x == y by {
        assert(x.0 == y.0 && x.1 == y.1);
    }
}

/// The (score, id) pairs of all scheduled actors with id below `n`, in
/// creation order.
pub open spec fn turn_pairs_upto(w: World, n: int) -> Seq<(u32, usize)>
    decreases n,
{
    if n <= 0 {
        Seq::empty()
    } else if takes_turn_at(w, n - 1) {
        turn_pairs_upto(w, n - 1).push((score_at(w, n - 1), (n - 1) as usize))
    } else {
        turn_pairs_upto(w, n - 1)
    }
}

/// The (score, id) pairs of all scheduled actors, in creation order.
pub open spec fn turn_pairs(w: World) -> Seq<(u32, usize)> {
    turn_pairs_upto(w, w.n())
}

/// The scheduled actors sorted by (score, id): the order the batch walk
/// reads.
pub open spec fn turn_order(w: World) -> Seq<(u32, usize)> {
    turn_pairs(w).sort_by(pair_leq())
}

/// Index of the first batch-stopping actor in `s`, or `s.len()` if none.
pub open spec fn stop_index(w: World, s: Seq<(u32, usize)>) -> int
    decreases s.len(),
{
    if s.len() == 0 {
        0
    } else if eligible_to_stop(w, s[0].1 as int) {
        0
    } else {
        1 + stop_index(w, s.drop_first())
    }
}

/// `stop_index` is the first index whose actor may stop the batch.
pub proof fn lemma_stop_index(w: World, s: Seq<(u32, usize)>)
    ensures
        0 <= stop_index(w, s) <= s.len(),
        forall|i: int| 0 <= i < stop_index(w, s) ==> !eligible_to_stop(w, #[trigger] s[i].1 as int),
        stop_index(w, s) < s.len() ==> eligible_to_stop(w, s[stop_index(w, s)].1 as int),
    decreases s.len(),
{
    if s.len() == 0 {
    } else if eligible_to_stop(w, s[0].1 as int) {
    } else {
        lemma_stop_index(w, s.drop_first());
        assert forall|i: int| 0 <= i < stop_index(w, s) implies !eligible_to_stop(
            w,
            #[trigger] s[i].1 as int,
        ) by {
            if i > 0 {
                assert(s.drop_first()[i - 1] == s[i]);
            }
        }
        if stop_index(w, s) < s.len() {
            assert(s.drop_first()[stop_index(w, s.drop_first())] == s[stop_index(w, s)]);
        }
    }
}

/// The ids granted a turn, given the sorted pair sequence `s`: the first
/// actor alone if it may stop the batch, else every actor before the
/// first stopping one.
pub open spec fn batch_ids(w: World, s: Seq<(u32, usize)>) -> Seq<usize> {
    if s.len() > 0 && eligible_to_stop(w, s[0].1 as int) {
        seq![s[0].1]
    } else {
        s.take(stop_index(w, s)).map_values(|p: (u32, usize)| p.1)
    }
}

/// The batch the scheduler grants, as a function of the world alone.
pub open spec fn scheduled_batch(w: World) -> Seq<usize> {
    batch_ids(w, turn_order(w))
}

/// The control state the scheduler hands back: the player's turn exactly
/// when the single batch-stopping actor at the head of the order is the
/// player.
pub open spec fn decide_spec(w: World) -> RunState {
    let s = turn_order(w);
    if s.len() > 0 && eligible_to_stop(w, s[0].1 as int) && w.player@[s[0].1 as int] {
        RunState::AwaitingInput
    } else {
        RunState::WorldTurn
    }
}

/// Every pair in `turn_pairs_upto` names a scheduled actor below `n`,
/// with its current score; and every such actor appears.
pub proof fn lemma_turn_pairs_upto(w: World, n: int)
    requires
        n <= w.n(),
    ensures
        forall|k: int|
            0 <= k < turn_pairs_upto(w, n).len() ==> {
                &&& 0 <= #[trigger] turn_pairs_upto(w, n)[k].1 < n
                &&& takes_turn_at(w, turn_pairs_upto(w, n)[k].1 as int)
                &&& turn_pairs_upto(w, n)[k].0 == score_at(w, turn_pairs_upto(w, n)[k].1 as int)
            },
        forall|id: int|
            0 <= id < n && takes_turn_at(w, id) ==> turn_pairs_upto(w, n).contains(
                (score_at(w, id), id as usize),
            ),
        turn_pairs_upto(w, n).no_duplicates(),
    decreases n,
{
    broadcast use vstd::std_specs::vec::axiom_spec_len;

    assert(w.alive.len() == w.alive@.len());
    if n > 0 {
        lemma_turn_pairs_upto(w, n - 1);
        let s = turn_pairs_upto(w, n);
        let prev = turn_pairs_upto(w, n - 1);
        assert forall|k: int| 0 <= k < s.len() implies {
            &&& 0 <= #[trigger] s[k].1 < n
            &&& takes_turn_at(w, s[k].1 as int)
            &&& s[k].0 == score_at(w, s[k].1 as int)
        } by {
            if takes_turn_at(w, n - 1) {
                if k < prev.len() {
                    assert(s[k] == prev[k]);
                    assert(0 <= prev[k].1 < n - 1);
                    assert(takes_turn_at(w, prev[k].1 as int));
                    assert(prev[k].0 == score_at(w, prev[k].1 as int));
                } else {
                    assert(s[k] == (score_at(w, n - 1), (n - 1) as usize));
                    assert(s[k].1 as int == n - 1);
                }
            } else {
                assert(s[k] == prev[k]);
                assert(0 <= prev[k].1 < n - 1);
                assert(takes_turn_at(w, prev[k].1 as int));
                assert(prev[k].0 == score_at(w, prev[k].1 as int));
            }
        }
        assert forall|id: int| 0 <= id < n && takes_turn_at(w, id) implies s.contains(
            (score_at(w, id), id as usize),
        ) by {
            if id < n - 1 {
                let k = choose|k: int|
                    0 <= k < prev.len() && prev[k] == (score_at(w, id), id as usize);
                assert(s[k] == (score_at(w, id), id as usize));
            } else {
                assert(s[s.len() - 1] == (score_at(w, id), id as usize));
            }
        }
        if takes_turn_at(w, n - 1) {
            // The freshly pushed pair carries id n - 1, which no earlier
            // pair carries, so distinctness is preserved.
            assert forall|i: int, j: int|
                0 <= i < s.len() && 0 <= j < s.len() && i != j implies s[i] != s[j] by {
                let a = if i < j {
                    i
                } else {
                    j
                };
                let b = if i < j {
                    j
                } else {
                    i
                };
                if b < prev.len() {
                    assert(s[a] == prev[a] && s[b] == prev[b]);
                } else {
                    assert(s[a] == prev[a]);
                    assert(prev[a].1 < n - 1);
                    assert(s[b].1 == (n - 1) as usize);
                }
            }
        }
    }
}

/// What the sorted order inherits from `turn_pairs`: sortedness and the
/// same membership.
pub proof fn lemma_turn_order(w: World)
    ensures
        sorted_by(turn_order(w), pair_leq()),
        turn_order(w).to_multiset() == turn_pairs(w).to_multiset(),
        forall|k: int|
            0 <= k < turn_order(w).len() ==> {
                &&& 0 <= #[trigger] turn_order(w)[k].1 < w.n()
                &&& takes_turn_at(w, turn_order(w)[k].1 as int)
                &&& turn_order(w)[k].0 == score_at(w, turn_order(w)[k].1 as int)
            },
        forall|id: int|
            0 <= id < w.n() && takes_turn_at(w, id) ==> turn_order(w).contains(
                (score_at(w, id), id as usize),
            ),
        turn_order(w).len() == turn_pairs(w).len(),
        turn_order(w).no_duplicates(),
{
    broadcast use vstd::seq_lib::group_to_multiset_ensures;

    lemma_pair_leq_total();
    turn_pairs(w).lemma_sort_by_ensures(pair_leq());
    assert(turn_pairs(w).to_multiset().len() == turn_order(w).to_multiset().len());
    lemma_turn_pairs_upto(w, w.n());
    assert forall|k: int| 0 <= k < turn_order(w).len() implies {
        &&& 0 <= #[trigger] turn_order(w)[k].1 < w.n()
        &&& takes_turn_at(w, turn_order(w)[k].1 as int)
        &&& turn_order(w)[k].0 == score_at(w, turn_order(w)[k].1 as int)
    } by {
        let p = turn_order(w)[k];
        assert(turn_order(w).contains(p));
        assert(turn_pairs(w).to_multiset().contains(p));
        assert(turn_pairs(w).contains(p));
        let j = choose|j: int| 0 <= j < turn_pairs(w).len() && turn_pairs(w)[j] == p;
    }
    assert forall|id: int| 0 <= id < w.n() && takes_turn_at(w, id) implies turn_order(w).contains(
        (score_at(w, id), id as usize),
    ) by {
        let p = (score_at(w, id), id as usize);
        assert(turn_pairs(w).contains(p));
        assert(turn_pairs(w).to_multiset().contains(p));
        assert(turn_order(w).to_multiset().contains(p));
    }
    turn_pairs(w).lemma_multiset_has_no_duplicates();
    turn_order(w).lemma_multiset_has_no_duplicates_conv();
}

/// Law: when the actor at the head of the scheduling order is the player
/// or the world clock, the batch is exactly that one actor.
pub proof fn lemma_batch_single_when_first_eligible(w: World)
    requires
        turn_order(w).len() > 0,
        w.player@[turn_order(w)[0].1 as int] || w.global_turn@[turn_order(w)[0].1 as int],
    ensures
        scheduled_batch(w) =~= seq![turn_order(w)[0].1],
{
}

/// Law: when the player (or the world clock) holds a strictly lower time
/// score than every other scheduled actor, it alone receives the turn.
pub proof fn lemma_lowest_actor_sole_batch(w: World, a: int)
    requires
        takes_turn_at(w, a),
        w.player@[a] || w.global_turn@[a],
        forall|id: int|
            0 <= id < w.n() && takes_turn_at(w, id) && id != a ==> score_at(w, a) < score_at(
                w,
                id,
            ),
    ensures
        scheduled_batch(w) =~= seq![a as usize],
{
    broadcast use vstd::std_specs::vec::axiom_spec_len;

    assert(w.alive.len() == w.alive@.len());
    lemma_turn_order(w);
    let s = turn_order(w);
    let p = (score_at(w, a), a as usize);
    assert(s.contains(p));
    let k = choose|k: int| 0 <= k < s.len() && s[k] == p;
    if s[0].1 != a as usize {
        // The head is a different scheduled actor, whose score is then
        // strictly larger; that contradicts the sortedness of the order.
        let leq = pair_leq();
        assert(takes_turn_at(w, s[0].1 as int));
        assert(score_at(w, a) < score_at(w, s[0].1 as int));
        assert(k != 0);
        assert(leq(s[0], s[k]));
        assert(false);
    }
    assert(s[0].1 as int == a);
    lemma_batch_single_when_first_eligible(w);
}

/// Law: when the head of the order cannot stop the batch, the batch is
/// exactly the actors before the first batch-stopping one (a newly
/// visible actor closes the batch without being included), and no actor
/// from the stopping one onward is granted a turn.
pub proof fn lemma_visibility_closes_batch(w: World)
    requires
        turn_order(w).len() > 0,
        !eligible_to_stop(w, turn_order(w)[0].1 as int),
    ensures
        scheduled_batch(w).len() == stop_index(w, turn_order(w)),
        forall|i: int|
            0 <= i < stop_index(w, turn_order(w)) ==> scheduled_batch(w)[i] == turn_order(w)[i].1
                && !eligible_to_stop(w, turn_order(w)[i].1 as int),
        forall|j: int|
            stop_index(w, turn_order(w)) <= j < turn_order(w).len() ==> !scheduled_batch(
                w,
            ).contains(turn_order(w)[j].1),
{
    lemma_turn_order(w);
    let s = turn_order(w);
    let stop = stop_index(w, s);
    lemma_stop_index(w, s);
    let batch = scheduled_batch(w);
    assert(batch == s.take(stop).map_values(|p: (u32, usize)| p.1));
    assert forall|j: int| stop <= j < s.len() implies !batch.contains(s[j].1) by {
        if batch.contains(s[j].1) {
            let i = choose|i: int| 0 <= i < batch.len() && batch[i] == s[j].1;
            assert(batch[i] == s[i].1);
            // Two distinct order entries would carry one id, which the
            // order's distinctness rules out: both would be the pair
            // (score of id, id).
            assert(s[i] != s[j]);
            assert(s[i].0 == score_at(w, s[i].1 as int));
            assert(s[j].0 == score_at(w, s[j].1 as int));
            assert(false);
        }
    }
}

/// Collects the (score, id) pairs of every scheduled actor, in creation
/// order.
fn collect_turn_pairs(w: &World) -> (pairs: Vec<(u32, usize)>)
    requires
        w.wf(),
    ensures
        pairs@ == turn_pairs(*w),
{
    let n = w.alive.len();
    let mut pairs: Vec<(u32, usize)> = Vec::new();
    let mut id: usize = 0;
    while id < n
        invariant
            w.wf(),
            n == w.n(),
            id <= n,
            pairs@ == turn_pairs_upto(*w, id as int),
        decreases n - id,
    {
        if w.alive[id] {
            if let Some(tt) = w.takes_turn[id] {
                pairs.push((tt.time_score, id));
            }
        }
        id = id + 1;
    }
    pairs
}

/// Whether the scheduling order puts `a` no later than `b`.
fn pair_leq_exec(a: (u32, usize), b: (u32, usize)) -> (r: bool)
    ensures
        r == pair_leq()(a, b),
{
    a.0 < b.0 || (a.0 == b.0 && a.1 <= b.1)
}

/// Insertion sort by the scheduling order; the result is the unique
/// sorted arrangement `Seq::sort_by` describes.
fn sort_pairs(input: &Vec<(u32, usize)>) -> (out: Vec<(u32, usize)>)
    ensures
        out@ == input@.sort_by(pair_leq()),
{
    broadcast use vstd::seq_lib::group_to_multiset_ensures;

    proof {
        lemma_pair_leq_total();
    }
    let ghost leq = pair_leq();
    let mut out: Vec<(u32, usize)> = Vec::new();
    let n = input.len();
    let mut idx: usize = 0;
    proof {
        assert(input@.take(0) =~= Seq::<(u32, usize)>::empty());
        assert(out@.to_multiset() =~= input@.take(0).to_multiset());
    }
    while idx < n
        invariant
            n == input@.len(),
            idx <= n,
            total_ordering(leq),
            leq == pair_leq(),
            sorted_by(out@, leq),
            out@.to_multiset() == input@.take(idx as int).to_multiset(),
        decreases n - idx,
    {
        broadcast use vstd::seq_lib::group_to_multiset_ensures;

        let x = input[idx];
        let mut pos: usize = 0;
        while pos < out.len() && pair_leq_exec(out[pos], x)
            invariant
                pos <= out@.len(),
                leq == pair_leq(),
                forall|k: int| 0 <= k < pos ==> leq(#[trigger] out@[k], x),
            decreases out@.len() - pos,
        {
            pos = pos + 1;
        }
        let ghost out_before = out@;
        out.insert(pos, x);
        proof {
            assert forall|i: int, j: int| 0 <= i < j < out@.len() implies leq(
                #[trigger] out@[i],
                #[trigger] out@[j],
            ) by {
                if j < pos {
                    assert(out@[i] == out_before[i] && out@[j] == out_before[j]);
                } else if i < pos && j == pos {
                    assert(out@[i] == out_before[i] && out@[j] == x);
                } else if i < pos && j > pos {
                    assert(out@[i] == out_before[i] && out@[j] == out_before[j - 1]);
                } else if i == pos {
                    // x goes before out_before[pos]: the walk stopped there,
                    // so the order is settled by connectedness.
                    assert(out@[j] == out_before[j - 1]);
                    if pos < out_before.len() {
                        assert(!leq(out_before[pos as int], x));
                        assert(leq(x, out_before[pos as int]));
                        if j - 1 > pos {
                            assert(leq(out_before[pos as int], out_before[j - 1]));
                        }
                    }
                } else {
                    assert(out@[i] == out_before[i - 1] && out@[j] == out_before[j - 1]);
                }
            }
            assert(out@ == out_before.insert(pos as int, x));
            assert(out_before.insert(pos as int, x).to_multiset() == out_before.to_multiset()
                .insert(x));
            assert(input@.take(idx + 1) =~= input@.take(idx as int).push(x));
            assert(input@.take(idx as int).push(x).to_multiset() == input@.take(
                idx as int,
            ).to_multiset().insert(x));
        }
        idx = idx + 1;
    }
    proof {
        assert(input@.take(n as int) =~= input@);
        input@.lemma_sort_by_ensures(leq);
        lemma_sorted_unique(out@, input@.sort_by(leq), leq);
    }
    out
}

/// Whether the actor may stop the batch.
fn eligible_exec(w: &World, id: usize) -> (r: bool)
    requires
        w.wf(),
        id < w.n(),
    ensures
        r == eligible_to_stop(*w, id as int),
{
    w.global_turn[id] || w.player[id] || w.is_visible[id]
}

/// Walks the sorted order and grants turns: clears every turn marker,
/// then marks exactly the scheduled batch.  Nothing else in the world
/// changes, the time scores in particular.
pub fn decide_turn(w: &mut World) -> (rs: RunState)
    requires
        old(w).wf(),
    ensures
        final(w).wf(),
        forall|id: int|
            0 <= id < final(w).n() ==> (final(w).wants_to_take_turn@[id] <==> scheduled_batch(
                *old(w),
            ).contains(id as usize)),
        *final(w) == (World { wants_to_take_turn: final(w).wants_to_take_turn, ..*old(w) }),
        rs == decide_spec(*old(w)),
        rs is AwaitingInput || rs is WorldTurn,
{
    let pairs = collect_turn_pairs(w);
    let sorted = sort_pairs(&pairs);
    proof {
        lemma_turn_order(*w);
        lemma_stop_index(*w, sorted@);
    }
    let ghost stop = stop_index(*w, sorted@);

    let mut batch: Vec<usize> = Vec::new();
    let mut is_player_turn = false;
    let mut k: usize = 0;
    while k < sorted.len() && !eligible_exec(w, sorted[k].1)
        invariant
            w.wf(),
            sorted@ == turn_order(*w),
            k <= sorted@.len(),
            forall|i: int|
                0 <= i < sorted@.len() ==> #[trigger] sorted@[i].1 < w.n(),
            forall|i: int| 0 <= i < k ==> !eligible_to_stop(*w, #[trigger] sorted@[i].1 as int),
            batch@ == sorted@.take(k as int).map_values(|p: (u32, usize)| p.1),
            0 <= stop <= sorted@.len(),
            forall|i: int| 0 <= i < stop ==> !eligible_to_stop(*w, #[trigger] sorted@[i].1 as int),
            stop < sorted@.len() ==> eligible_to_stop(*w, sorted@[stop].1 as int),
        decreases sorted@.len() - k,
    {
        batch.push(sorted[k].1);
        proof {
            assert(sorted@.take(k + 1).map_values(|p: (u32, usize)| p.1) =~= sorted@.take(
                k as int,
            ).map_values(|p: (u32, usize)| p.1).push(sorted@[k as int].1));
        }
        k = k + 1;
    }
    // Here k is the stop index: either past the end, or at the first
    // batch-stopping actor.
    proof {
        assert(stop == k);
    }
    if k < sorted.len() && k == 0 {
        let (_, id) = sorted[0];
        batch.push(id);
        is_player_turn = w.player[id];
        proof {
            assert(batch@ =~= seq![sorted@[0].1]);
        }
    } else {
        proof {
            if k >= sorted@.len() {
                assert(sorted@.take(k as int) =~= sorted@);
            }
            assert(batch@ == batch_ids(*w, sorted@));
        }
    }
    proof {
        assert(batch@ == batch_ids(*w, sorted@));
        assert(is_player_turn == (sorted@.len() > 0 && eligible_to_stop(*w, sorted@[0].1 as int)
            && w.player@[sorted@[0].1 as int]));
    }

    // Clear the previous round's turn markers, then grant the batch.
    let n = w.alive.len();
    let mut id: usize = 0;
    while id < n
        invariant
            w.wf(),
            n == w.n(),
            id <= n,
            forall|i: int| 0 <= i < id ==> !w.wants_to_take_turn@[i],
            *w == (World { wants_to_take_turn: w.wants_to_take_turn, ..*old(w) }),
            batch@ == batch_ids(*old(w), turn_order(*old(w))),
        decreases n - id,
    {
        w.wants_to_take_turn[id] = false;
        id = id + 1;
    }
    let m = batch.len();
    let mut j: usize = 0;
    proof {
        assert(batch@.take(0) =~= Seq::<usize>::empty());
        lemma_turn_order(*old(w));
        if batch@.len() > 0 {
            assert forall|jj: int| 0 <= jj < batch@.len() implies #[trigger] batch@[jj]
                < w.n() by {
                lemma_stop_index(*old(w), turn_order(*old(w)));
                if !(turn_order(*old(w)).len() > 0 && eligible_to_stop(
                    *old(w),
                    turn_order(*old(w))[0].1 as int,
                )) {
                    assert(batch@[jj] == turn_order(*old(w)).take(
                        stop_index(*old(w), turn_order(*old(w))),
                    ).map_values(|p: (u32, usize)| p.1)[jj]);
                    assert(batch@[jj] == turn_order(*old(w))[jj].1);
                }
            }
        }
    }
    while j < m
        invariant
            w.wf(),
            n == w.n(),
            m == batch@.len(),
            j <= m,
            forall|jj: int| 0 <= jj < m ==> #[trigger] batch@[jj] < n,
            forall|i: int|
                0 <= i < n ==> (w.wants_to_take_turn@[i] <==> batch@.take(j as int).contains(
                    i as usize,
                )),
            *w == (World { wants_to_take_turn: w.wants_to_take_turn, ..*old(w) }),
            batch@ == batch_ids(*old(w), turn_order(*old(w))),
        decreases m - j,
    {
        let b = batch[j];
        w.wants_to_take_turn[b] = true;
        proof {
            assert(batch@.take(j + 1) =~= batch@.take(j as int).push(batch@[j as int]));
            assert forall|i: int|
                0 <= i < n implies (w.wants_to_take_turn@[i] <==> batch@.take(j + 1).contains(
                i as usize,
            )) by {
                if i == b {
                    assert(batch@.take(j + 1).last() == b);
                }
            }
        }
        j = j + 1;
    }
    proof {
        assert(batch@.take(m as int) =~= batch@);
    }

    if is_player_turn {
        RunState::AwaitingInput
    } else {
        RunState::WorldTurn
    }
}

} // verus!
