//! The pickup and drop resolvers: pure inventory-slot transfer.
//! Pickup removes an item's position and records its owner; drop puts
//! the item back at the dropper's current position.  An intent naming a
//! now-missing item is a silent no-op.

use vstd::prelude::*;
use vstd::string::StringExecFns;

use crate::log::{log_add, log_view, GameLog};
use crate::types::Position;
use crate::world::World;

verus! {

/// What the inventory passes rewrite, at the view level.
pub ghost struct PackView {
    pub position: Seq<Option<Position>>,
    pub in_backpack: Seq<Option<usize>>,
    pub log: Seq<(Seq<char>, int)>,
}

/// The view the passes start from.
pub open spec fn pack_view_of(w: World, log: GameLog) -> PackView {
    PackView { position: w.position@, in_backpack: w.in_backpack@, log: log_view(log) }
}

/// A pickup intent stands on row `i` (the item's row).
pub open spec fn pickup_slot(w: World, i: int) -> bool {
    w.live(i) && w.wants_to_pick_up@[i] is Some
}

/// One pickup intent applied to the accumulated view: a live item loses
/// its position and gains its owner; the player's pickup is narrated on
/// a fresh log line when the item is named.
pub open spec fn pickup_step(w: World, v: PackView, i: int) -> PackView {
    if !pickup_slot(w, i) {
        v
    } else {
        let p = w.wants_to_pick_up@[i]->Some_0;
        if !(0 <= p.item < w.n() && w.alive@[p.item as int]) {
            v
        } else {
            let moved = PackView {
                position: v.position.update(p.item as int, None),
                in_backpack: v.in_backpack.update(p.item as int, Some(p.collected_by)),
                ..v
            };
            if p.collected_by == w.player_id && w.name@[p.item as int] is Some {
                PackView {
                    log: seq![
                        ("You picked up "@ + w.name@[p.item as int]->Some_0@ + "!"@, 1int),
                    ] + moved.log,
                    ..moved
                }
            } else {
                moved
            }
        }
    }
}

/// The accumulated view after the pickup intents on rows below `n`.
pub open spec fn pickup_fold(w: World, v0: PackView, n: int) -> PackView
    decreases n,
{
    if n <= 0 {
        v0
    } else {
        pickup_step(w, pickup_fold(w, v0, n - 1), n - 1)
    }
}

/// One drop intent applied to the accumulated view: a live item gains
/// the dropper's position as this point of the pass sees it, and loses
/// its owner; the player's drop is narrated when the item is named.  A
/// dropper without a position aborts its own intent.
pub open spec fn drop_step(w: World, v: PackView, a: int) -> PackView {
    if !(w.live(a) && w.wants_to_drop@[a] is Some && v.position[a] is Some) {
        v
    } else {
        let item = w.wants_to_drop@[a]->Some_0;
        if !(0 <= item < w.n() && w.alive@[item as int] && v.in_backpack[item as int]
            is Some) {
            v
        } else {
            let moved = PackView {
                position: v.position.update(item as int, Some(v.position[a]->Some_0)),
                in_backpack: v.in_backpack.update(item as int, None),
                ..v
            };
            if a == w.player_id && w.name@[item as int] is Some {
                PackView {
                    log: log_add(
                        moved.log,
                        "You dropped the "@ + w.name@[item as int]->Some_0@,
                    ),
                    ..moved
                }
            } else {
                moved
            }
        }
    }
}

/// The accumulated view after the drop intents of actors below `n`.
pub open spec fn drop_fold(w: World, v0: PackView, n: int) -> PackView
    decreases n,
{
    if n <= 0 {
        v0
    } else {
        drop_step(w, drop_fold(w, v0, n - 1), n - 1)
    }
}

/// Builds the pickup narration.
fn pickup_message(name: &String) -> (r: String)
    ensures
        r@ == "You picked up "@ + name@ + "!"@,
{
    proof {
        reveal_strlit("You picked up ");
        reveal_strlit("!");
    }
    let mut r = String::from_str("You picked up ");
    r.append(name.as_str());
    r.append("!");
    r
}

/// Builds the drop narration.
fn drop_message(name: &String) -> (r: String)
    ensures
        r@ == "You dropped the "@ + name@,
{
    proof {
        reveal_strlit("You dropped the ");
    }
    let mut r = String::from_str("You dropped the ");
    r.append(name.as_str());
    r
}

/// Resolves every pickup intent in row order, then drains the intent
/// storage.  Note that the positions and owners an intent sees include
/// the changes of earlier intents in the same pass.
pub fn pickup_run(w: &mut World, log: &mut GameLog)
    requires
        old(w).wf(),
    ensures
        final(w).wf(),
        final(w).n() == old(w).n(),
        ({
            let v = pickup_fold(*old(w), pack_view_of(*old(w), *old(log)), old(w).n());
            &&& final(w).position@ == v.position
            &&& final(w).in_backpack@ == v.in_backpack
            &&& log_view(*final(log)) == v.log
        }),
        forall|i: int| #![trigger final(w).wants_to_pick_up@[i]]
            0 <= i < old(w).n() ==> final(w).wants_to_pick_up@[i] is None,
        *final(w) == (World {
            position: final(w).position,
            in_backpack: final(w).in_backpack,
            wants_to_pick_up: final(w).wants_to_pick_up,
            ..*old(w)
        }),
{
    let ghost w0 = *old(w);
    let n = w.alive.len();
    let mut i: usize = 0;
    while i < n
        invariant
            w.wf(),
            w0.wf(),
            n == w.n(),
            n == w0.n(),
            i <= n,
            ({
                let v = pickup_fold(w0, pack_view_of(w0, *old(log)), i as int);
                &&& w.position@ == v.position
                &&& w.in_backpack@ == v.in_backpack
                &&& log_view(*log) == v.log
            }),
            forall|k: int| #![trigger w.wants_to_pick_up@[k]]
                0 <= k < i ==> w.wants_to_pick_up@[k] is None,
            forall|k: int| #![trigger w.wants_to_pick_up@[k]]
                i <= k < n ==> w.wants_to_pick_up@[k] == w0.wants_to_pick_up@[k],
            *w == (World {
                position: w.position,
                in_backpack: w.in_backpack,
                wants_to_pick_up: w.wants_to_pick_up,
                ..w0
            }),
        decreases n - i,
    {
        let ghost v1 = pickup_fold(w0, pack_view_of(w0, *old(log)), i as int);
        let slot: bool = w.alive[i] && w.wants_to_pick_up[i].is_some();
        proof {
            assert(slot == pickup_slot(w0, i as int));
            assert(pickup_fold(w0, pack_view_of(w0, *old(log)), i + 1) == pickup_step(
                w0,
                v1,
                i as int,
            ));
        }
        if slot {
            let p = w.wants_to_pick_up[i].unwrap();
            if p.item < n && w.alive[p.item] {
                w.position[p.item] = None;
                w.in_backpack[p.item] = Some(p.collected_by);
                if p.collected_by == w.player_id && w.name[p.item].is_some() {
                    let msg = pickup_message(w.name[p.item].as_ref().unwrap());
                    log.add_new_entry(msg);
                    proof {
                        assert(log_view(*log) =~= pickup_step(w0, v1, i as int).log);
                    }
                }
            }
        }
        w.wants_to_pick_up[i] = None;
        proof {
            let v2 = pickup_step(w0, v1, i as int);
            assert(w.position@ =~= v2.position);
            assert(w.in_backpack@ =~= v2.in_backpack);
            assert(log_view(*log) =~= v2.log);
        }
        i = i + 1;
    }
}

/// Resolves every drop intent in actor-id order, then drains the intent
/// storage.
pub fn drop_run(w: &mut World, log: &mut GameLog)
    requires
        old(w).wf(),
    ensures
        final(w).wf(),
        final(w).n() == old(w).n(),
        ({
            let v = drop_fold(*old(w), pack_view_of(*old(w), *old(log)), old(w).n());
            &&& final(w).position@ == v.position
            &&& final(w).in_backpack@ == v.in_backpack
            &&& log_view(*final(log)) == v.log
        }),
        forall|a: int| #![trigger final(w).wants_to_drop@[a]]
            0 <= a < old(w).n() ==> final(w).wants_to_drop@[a] is None,
        *final(w) == (World {
            position: final(w).position,
            in_backpack: final(w).in_backpack,
            wants_to_drop: final(w).wants_to_drop,
            ..*old(w)
        }),
{
    let ghost w0 = *old(w);
    let n = w.alive.len();
    let mut a: usize = 0;
    while a < n
        invariant
            w.wf(),
            w0.wf(),
            n == w.n(),
            n == w0.n(),
            a <= n,
            ({
                let v = drop_fold(w0, pack_view_of(w0, *old(log)), a as int);
                &&& w.position@ == v.position
                &&& w.in_backpack@ == v.in_backpack
                &&& log_view(*log) == v.log
            }),
            forall|k: int| #![trigger w.wants_to_drop@[k]]
                0 <= k < a ==> w.wants_to_drop@[k] is None,
            forall|k: int| #![trigger w.wants_to_drop@[k]]
                a <= k < n ==> w.wants_to_drop@[k] == w0.wants_to_drop@[k],
            *w == (World {
                position: w.position,
                in_backpack: w.in_backpack,
                wants_to_drop: w.wants_to_drop,
                ..w0
            }),
        decreases n - a,
    {
        let ghost v1 = drop_fold(w0, pack_view_of(w0, *old(log)), a as int);
        let slot: bool = w.alive[a] && w.wants_to_drop[a].is_some() && w.position[a].is_some();
        proof {
            assert(slot == (w0.live(a as int) && w0.wants_to_drop@[a as int] is Some
                && v1.position[a as int] is Some));
            assert(drop_fold(w0, pack_view_of(w0, *old(log)), a + 1) == drop_step(
                w0,
                v1,
                a as int,
            ));
        }
        if slot {
            let item = w.wants_to_drop[a].unwrap();
            if item < n && w.alive[item] && w.in_backpack[item].is_some() {
                let drop_pos = w.position[a].unwrap();
                w.position[item] = Some(drop_pos);
                w.in_backpack[item] = None;
                if a == w.player_id && w.name[item].is_some() {
                    let msg = drop_message(w.name[item].as_ref().unwrap());
                    log.add(msg);
                }
            }
        }
        w.wants_to_drop[a] = None;
        proof {
            let v2 = drop_step(w0, v1, a as int);
            assert(w.position@ =~= v2.position);
            assert(w.in_backpack@ =~= v2.in_backpack);
            assert(log_view(*log) =~= v2.log);
        }
        a = a + 1;
    }
}

} // verus!
