//! The monster decision maker: for each monster granted a turn, decide
//! exactly one action — melee the adjacent player, walk a path toward a
//! player it can see (the path itself comes from the external
//! pathfinding collaborator), or wander and wait.

use vstd::prelude::*;

use crate::grid::SpatialMap;
use crate::random::Random;
use crate::types::{Position, WaitCause};
use crate::world::World;

verus! {

/// The one action a monster takes this turn.
#[derive(Clone, Copy, Debug, PartialEq)]
pub enum MonsterAction {
    Melee { target: usize },
    Move { destination: Position },
    Wait { cause: WaitCause },
}

/// A decision, or a request for a path from the external pathfinder
/// (from one cell index to another over the current map).
#[derive(Clone, Copy, Debug, PartialEq)]
pub enum MonsterDecision {
    Act(MonsterAction),
    NeedPath { from_idx: usize, to_idx: usize },
}

/// The two cells coincide or touch cardinally: their Euclidean
/// distance is below the adjacency threshold between 1 and the
/// diagonal step.
pub open spec fn spec_adjacent(a: Position, b: Position) -> bool {
    (a.x - b.x) * (a.x - b.x) + (a.y - b.y) * (a.y - b.y) <= 1
}

/// Computes cardinal adjacency.
pub fn is_adjacent(a: Position, b: Position) -> (r: bool)
    ensures
        r == spec_adjacent(a, b),
{
    let dx = a.x as i128 - b.x as i128;
    let dy = a.y as i128 - b.y as i128;
    proof {
        assert(dx * dx <= 0x10000000000000000 && dx * dx >= 0) by (nonlinear_arith)
            requires
                -0x100000000 <= dx <= 0x100000000,
        ;
        assert(dy * dy <= 0x10000000000000000 && dy * dy >= 0) by (nonlinear_arith)
            requires
                -0x100000000 <= dy <= 0x100000000,
        ;
    }
    dx * dx + dy * dy <= 1
}

/// The monster is granted a turn and has everything the decision
/// reads: a position, a viewshed and a name.
pub open spec fn monster_turn_ready(w: World, a: int) -> bool {
    &&& w.live(a)
    &&& w.monster@[a]
    &&& w.wants_to_take_turn@[a]
    &&& w.position@[a] is Some
    &&& w.viewshed@[a] is Some
    &&& w.name@[a] is Some
}

/// The monster's viewshed holds the player's position.
pub open spec fn sees_player(w: World, a: int) -> bool {
    exists|k: int|
        0 <= k < w.viewshed@[a]->Some_0.visible_tiles@.len()
            && w.viewshed@[a]->Some_0.visible_tiles@[k] == w.player_pos
}

/// Lists the monsters awaiting a decision, in id order.
pub open spec fn ready_monsters_upto(w: World, n: int) -> Seq<usize>
    decreases n,
{
    if n <= 0 {
        Seq::empty()
    } else if monster_turn_ready(w, n - 1) {
        ready_monsters_upto(w, n - 1).push((n - 1) as usize)
    } else {
        ready_monsters_upto(w, n - 1)
    }
}

/// Collects the monsters awaiting a decision, in id order.
pub fn monsters_awaiting_turn(w: &World) -> (r: Vec<usize>)
    requires
        w.wf(),
    ensures
        r@ == ready_monsters_upto(*w, w.n()),
{
    let n = w.alive.len();
    let mut r: Vec<usize> = Vec::new();
    let mut a: usize = 0;
    while a < n
        invariant
            w.wf(),
            n == w.n(),
            a <= n,
            r@ == ready_monsters_upto(*w, a as int),
        decreases n - a,
    {
        if w.alive[a] && w.monster[a] && w.wants_to_take_turn[a] && w.position[a].is_some()
            && w.viewshed[a].is_some() && w.name[a].is_some() {
            r.push(a);
        }
        a = a + 1;
    }
    r
}

/// The cardinal delta the four-sided wander die selects.
pub open spec fn wander_delta(d4: int) -> (int, int) {
    if d4 == 1 {
        (1int, 0int)
    } else if d4 == 2 {
        (-1int, 0int)
    } else if d4 == 3 {
        (0int, 1int)
    } else {
        (0int, -1int)
    }
}

/// The one-step destination the four-sided wander die selects from
/// `pos`.
pub open spec fn wander_dest(pos: Position, d4: int) -> Position {
    Position {
        x: (pos.x + wander_delta(d4).0) as i32,
        y: (pos.y + wander_delta(d4).1) as i32,
    }
}

/// Maps the two wander draws to the action: when the seven-sided die
/// shows more than one (probability six out of seven), a one-step move
/// in the cardinal direction the four-sided die picked; else a wait by
/// choice.
pub fn wander_action(pos: Position, d4: i32, d7: i32) -> (act: MonsterAction)
    requires
        1 <= d4 <= 4,
        1 <= d7 <= 7,
        i32::MIN < pos.x < i32::MAX,
        i32::MIN < pos.y < i32::MAX,
    ensures
        act == if d7 > 1 {
            MonsterAction::Move { destination: wander_dest(pos, d4 as int) }
        } else {
            MonsterAction::Wait { cause: WaitCause::Choice }
        },
        act matches MonsterAction::Move { destination } ==> spec_adjacent(destination, pos)
            && destination != pos,
{
    let delta: (i32, i32) = match d4 {
        1 => (1, 0),
        2 => (-1, 0),
        3 => (0, 1),
        _ => (0, -1),
    };
    let next = Position { x: pos.x + delta.0, y: pos.y + delta.1 };
    proof {
        assert(next == wander_dest(pos, d4 as int));
        let ddx = next.x as int - pos.x as int;
        let ddy = next.y as int - pos.y as int;
        assert(-1 <= ddx <= 1 && -1 <= ddy <= 1 && !(ddx == 0 && ddy == 0) && (ddx == 0 || ddy
            == 0));
        assert(ddx * ddx + ddy * ddy <= 1) by (nonlinear_arith)
            requires
                -1 <= ddx <= 1,
                -1 <= ddy <= 1,
                ddx == 0 || ddy == 0,
        ;
        assert(spec_adjacent(next, pos));
        assert(next != pos);
    }
    if d7 > 1 {
        MonsterAction::Move { destination: next }
    } else {
        MonsterAction::Wait { cause: WaitCause::Choice }
    }
}

/// Decides one monster's turn.  A confused monster waits; a monster
/// beside the player attacks; one that sees the player asks for a path;
/// otherwise it draws the two wander dice and acts as `wander_action`
/// maps them.
pub fn monster_decide(w: &World, map: &SpatialMap, a: usize, rng: &mut Random) -> (d:
    MonsterDecision)
    requires
        w.wf(),
        map.wf(),
        monster_turn_ready(*w, a as int),
        map.in_bounds(
            w.position@[a as int]->Some_0.x as int,
            w.position@[a as int]->Some_0.y as int,
        ),
        map.in_bounds(w.player_pos.x as int, w.player_pos.y as int),
    ensures
        ({
            let pos = w.position@[a as int]->Some_0;
            let confused = w.confusion@[a as int] is Some;
            &&& confused ==> d == MonsterDecision::Act(
                MonsterAction::Wait { cause: WaitCause::Confusion },
            )
            &&& !confused && spec_adjacent(pos, w.player_pos) ==> d == MonsterDecision::Act(
                MonsterAction::Melee { target: w.player_id },
            )
            &&& (!confused && !spec_adjacent(pos, w.player_pos) && sees_player(*w, a as int))
                ==> d == (MonsterDecision::NeedPath {
                from_idx: map.spec_idx(pos.x as int, pos.y as int) as usize,
                to_idx: map.spec_idx(w.player_pos.x as int, w.player_pos.y as int) as usize,
            })
            &&& (!confused && !spec_adjacent(pos, w.player_pos) && !sees_player(*w, a as int))
                ==> (d == MonsterDecision::Act(MonsterAction::Wait { cause: WaitCause::Choice })
                || (d matches MonsterDecision::Act(MonsterAction::Move { destination })
                && spec_adjacent(destination, pos) && destination != pos))
        }),
{
    let pos = w.position[a].unwrap();
    if w.confusion[a].is_some() {
        return MonsterDecision::Act(MonsterAction::Wait { cause: WaitCause::Confusion });
    }
    if is_adjacent(pos, w.player_pos) {
        return MonsterDecision::Act(MonsterAction::Melee { target: w.player_id });
    }
    let vs = w.viewshed[a].as_ref().unwrap();
    let vn = vs.visible_tiles.len();
    let mut sees = false;
    let mut k: usize = 0;
    while k < vn
        invariant
            vn == vs.visible_tiles@.len(),
            k <= vn,
            *vs == w.viewshed@[a as int]->Some_0,
            sees == exists|j: int|
                0 <= j < k && vs.visible_tiles@[j] == w.player_pos,
        decreases vn - k,
    {
        if vs.visible_tiles[k] == w.player_pos {
            sees = true;
        }
        k = k + 1;
    }
    proof {
        assert(sees == sees_player(*w, a as int));
    }
    if sees {
        let from_idx = map.xy_idx(pos.x, pos.y);
        let to_idx = map.xy_idx(w.player_pos.x, w.player_pos.y);
        proof {
            assert(from_idx as int == map.spec_idx(pos.x as int, pos.y as int));
            assert(to_idx as int == map.spec_idx(w.player_pos.x as int, w.player_pos.y as int));
        }
        return MonsterDecision::NeedPath { from_idx, to_idx };
    }
    let d4 = rng.roll_die(4);
    let d7 = rng.roll_die(7);
    MonsterDecision::Act(wander_action(pos, d4, d7))
}

/// Turns a path answered by the external pathfinder into an action:
/// take the path's second cell when the search succeeded and offers
/// one on the grid, else wait by choice.
pub fn monster_path_action(map: &SpatialMap, success: bool, steps: &Vec<usize>) -> (act:
    MonsterAction)
    requires
        map.wf(),
    ensures
        (success && steps@.len() > 1 && steps@[1] < map.width * map.height) ==> (act
            matches MonsterAction::Move { destination } && map.in_bounds(
            destination.x as int,
            destination.y as int,
        ) && map.spec_idx(destination.x as int, destination.y as int) == steps@[1]),
        !(success && steps@.len() > 1 && steps@[1] < map.width * map.height) ==> act == (
        MonsterAction::Wait { cause: WaitCause::Choice }),
{
    if success && steps.len() > 1 {
        let step = steps[1];
        if map.is_valid_idx(step) {
            let destination = map.idx_xy(step);
            return MonsterAction::Move { destination };
        }
    }
    MonsterAction::Wait { cause: WaitCause::Choice }
}

/// Posts the decided action as the matching intent on the monster.
pub fn post_monster_action(w: &mut World, a: usize, act: MonsterAction)
    requires
        old(w).wf(),
        a < old(w).n(),
    ensures
        final(w).wf(),
        final(w).n() == old(w).n(),
        act matches MonsterAction::Melee { target } ==> final(w).wants_to_melee@ == old(
            w,
        ).wants_to_melee@.update(a as int, Some(target)) && *final(w) == (World {
            wants_to_melee: final(w).wants_to_melee,
            ..*old(w)
        }),
        act matches MonsterAction::Move { destination } ==> final(w).wants_to_move@ == old(
            w,
        ).wants_to_move@.update(a as int, Some(destination)) && *final(w) == (World {
            wants_to_move: final(w).wants_to_move,
            ..*old(w)
        }),
        act matches MonsterAction::Wait { cause } ==> final(w).wants_to_wait@ == old(
            w,
        ).wants_to_wait@.update(a as int, Some(cause)) && *final(w) == (World {
            wants_to_wait: final(w).wants_to_wait,
            ..*old(w)
        }),
{
    match act {
        MonsterAction::Melee { target } => {
            w.wants_to_melee[a] = Some(target);
        },
        MonsterAction::Move { destination } => {
            w.wants_to_move[a] = Some(destination);
        },
        MonsterAction::Wait { cause } => {
            w.wants_to_wait[a] = Some(cause);
        },
    }
}

} // verus!
