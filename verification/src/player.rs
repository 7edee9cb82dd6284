//! The player's own action decisions: a directional step that becomes
//! either an attack on the first combatant in the way or a move intent,
//! a pickup attempt at the player's feet, and a chosen wait.
//! Key reading belongs to the input layer; these functions take the
//! chosen direction as plain values.

use vstd::prelude::*;
use vstd::string::StringExecFns;

use crate::grid::SpatialMap;
use crate::log::{log_add, log_view, GameLog};
use crate::types::{PickupIntent, Position, WaitCause};
use crate::world::World;

verus! {

/// The player can act: live with a position.
pub open spec fn player_ready(w: World) -> bool {
    &&& w.live(w.player_id as int)
    &&& w.position@[w.player_id as int] is Some
}

/// The first occupant of the cell's list (from index `k` on) that is a
/// live combatant.
pub open spec fn first_combat_target(w: World, occupants: Seq<usize>, k: int) -> Option<usize>
    decreases occupants.len() - k,
{
    if k < 0 || k >= occupants.len() {
        None
    } else {
        let t = occupants[k] as int;
        if 0 <= t < w.n() && w.alive@[t] && w.combat_stats@[t] is Some {
            Some(occupants[k])
        } else {
            first_combat_target(w, occupants, k + 1)
        }
    }
}

/// Tries to step the player by one delta.  Off the grid nothing
/// happens; into a cell holding a live combatant, a melee intent on the
/// first such occupant is posted; otherwise a move intent.
pub fn try_move_player(w: &mut World, map: &SpatialMap, delta_x: i32, delta_y: i32)
    requires
        old(w).wf(),
        map.wf(),
        -1 <= delta_x <= 1,
        -1 <= delta_y <= 1,
        player_ready(*old(w)) ==> map.in_bounds(
            old(w).position@[old(w).player_id as int]->Some_0.x as int,
            old(w).position@[old(w).player_id as int]->Some_0.y as int,
        ),
    ensures
        final(w).wf(),
        final(w).n() == old(w).n(),
        ({
            let pid = old(w).player_id as int;
            if !player_ready(*old(w)) {
                *final(w) == *old(w)
            } else {
                let pos = old(w).position@[pid]->Some_0;
                let nx = pos.x + delta_x;
                let ny = pos.y + delta_y;
                if !map.in_bounds(nx, ny) {
                    *final(w) == *old(w)
                } else {
                    let occupants = map.tile_content@[map.spec_idx(nx, ny)]@;
                    match first_combat_target(*old(w), occupants, 0) {
                        Some(t) => final(w).wants_to_melee@ == old(w).wants_to_melee@.update(
                            pid,
                            Some(t),
                        ) && *final(w) == (World {
                            wants_to_melee: final(w).wants_to_melee,
                            ..*old(w)
                        }),
                        None => final(w).wants_to_move@ == old(w).wants_to_move@.update(
                            pid,
                            Some(Position { x: nx as i32, y: ny as i32 }),
                        ) && *final(w) == (World {
                            wants_to_move: final(w).wants_to_move,
                            ..*old(w)
                        }),
                    }
                }
            }
        }),
{
    let pid = w.player_id;
    if !(pid < w.alive.len() && w.alive[pid] && w.position[pid].is_some()) {
        return ;
    }
    let pos = w.position[pid].unwrap();
    let nx = pos.x + delta_x;
    let ny = pos.y + delta_y;
    if !map.is_valid(nx, ny) {
        return ;
    }
    let idx = map.xy_idx(nx, ny);
    let ghost occupants = map.tile_content@[idx as int]@;
    let cl = map.tile_content[idx].len();
    let mut c: usize = 0;
    while c < cl
        invariant
            w.wf(),
            *w == *old(w),
            map.wf(),
            player_ready(*old(w)),
            pid == old(w).player_id,
            pid < w.alive@.len(),
            nx == old(w).position@[pid as int]->Some_0.x + delta_x,
            ny == old(w).position@[pid as int]->Some_0.y + delta_y,
            map.in_bounds(nx as int, ny as int),
            idx == map.spec_idx(nx as int, ny as int),
            idx < map.tile_content@.len(),
            occupants == map.tile_content@[idx as int]@,
            cl == occupants.len(),
            c <= cl,
            first_combat_target(*w, occupants, 0) == first_combat_target(*w, occupants, c as int),
        decreases cl - c,
    {
        let t = map.tile_content[idx][c];
        if t < w.alive.len() && w.alive[t] && w.combat_stats[t].is_some() {
            proof {
                assert(first_combat_target(*w, occupants, c as int) == Some(t));
            }
            w.wants_to_melee[pid] = Some(t);
            return ;
        }
        c = c + 1;
    }
    proof {
        assert(first_combat_target(*w, occupants, cl as int) is None);
    }
    w.wants_to_move[pid] = Some(Position { x: nx, y: ny });
}

/// The first live item lying at `pos`, in id order.
pub open spec fn first_item_at_upto(w: World, pos: Position, n: int) -> Option<usize>
    decreases n,
{
    if n <= 0 {
        None
    } else {
        let prev = first_item_at_upto(w, pos, n - 1);
        if prev is Some {
            prev
        } else if w.live(n - 1) && w.item@[n - 1] && w.position@[n - 1] == Some(pos) {
            Some((n - 1) as usize)
        } else {
            None
        }
    }
}

/// A found item id lies inside the store.
proof fn lemma_first_item_in_range(w: World, pos: Position, n: int)
    ensures
        first_item_at_upto(w, pos, n) matches Some(i) ==> 0 <= i < n,
    decreases n,
{
    if n > 0 {
        lemma_first_item_in_range(w, pos, n - 1);
    }
}

/// Tries to pick up an item at the player's position: posts a pickup
/// intent on the first such item, or reports that nothing is there.
pub fn get_item(w: &mut World, log: &mut GameLog)
    requires
        old(w).wf(),
        old(w).player_id < old(w).n(),
    ensures
        final(w).wf(),
        final(w).n() == old(w).n(),
        ({
            let pid = old(w).player_id;
            match first_item_at_upto(*old(w), old(w).player_pos, old(w).n()) {
                Some(item) => final(w).wants_to_pick_up@ == old(w).wants_to_pick_up@.update(
                    item as int,
                    Some(PickupIntent { collected_by: pid, item }),
                ) && *final(w) == (World {
                    wants_to_pick_up: final(w).wants_to_pick_up,
                    ..*old(w)
                }) && log_view(*final(log)) == log_view(*old(log)),
                None => *final(w) == *old(w) && log_view(*final(log)) == log_add(
                    log_view(*old(log)),
                    "There is nothing to pick up."@,
                ),
            }
        }),
{
    let ghost w0 = *old(w);
    let pid = w.player_id;
    let pos = w.player_pos;
    let n = w.alive.len();
    let mut found: Option<usize> = None;
    let mut a: usize = 0;
    while a < n
        invariant
            w.wf(),
            *w == *old(w),
            n == w.n(),
            a <= n,
            pos == w.player_pos,
            found == first_item_at_upto(*w, pos, a as int),
        decreases n - a,
    {
        if found.is_none() && w.alive[a] && w.item[a] {
            if let Some(p) = w.position[a] {
                if p == pos {
                    found = Some(a);
                }
            }
        }
        a = a + 1;
    }
    proof {
        lemma_first_item_in_range(w0, pos, n as int);
    }
    match found {
        None => {
            proof {
                reveal_strlit("There is nothing to pick up.");
            }
            log.add(String::from_str("There is nothing to pick up."));
        },
        Some(item) => {
            w.wants_to_pick_up[item] = Some(PickupIntent { collected_by: pid, item });
        },
    }
}

/// Posts a chosen wait on every live player actor.
pub fn wait(w: &mut World)
    requires
        old(w).wf(),
    ensures
        final(w).wf(),
        final(w).n() == old(w).n(),
        forall|a: int| #![trigger final(w).wants_to_wait@[a]]
            0 <= a < old(w).n() ==> final(w).wants_to_wait@[a] == if old(w).live(a) && old(
                w,
            ).player@[a] {
                Some(WaitCause::Choice)
            } else {
                old(w).wants_to_wait@[a]
            },
        *final(w) == (World { wants_to_wait: final(w).wants_to_wait, ..*old(w) }),
{
    let ghost w0 = *old(w);
    let n = w.alive.len();
    let mut a: usize = 0;
    while a < n
        invariant
            w.wf(),
            w0.wf(),
            n == w.n(),
            n == w0.n(),
            a <= n,
            forall|i: int| #![trigger w.wants_to_wait@[i]]
                0 <= i < n ==> w.wants_to_wait@[i] == if w0.live(i) && w0.player@[i] && i < a {
                    Some(WaitCause::Choice)
                } else {
                    w0.wants_to_wait@[i]
                },
            *w == (World { wants_to_wait: w.wants_to_wait, ..w0 }),
        decreases n - a,
    {
        if w.alive[a] && w.player[a] {
            w.wants_to_wait[a] = Some(WaitCause::Choice);
        }
        a = a + 1;
    }
}

} // verus!
