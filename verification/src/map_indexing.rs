//! The map-indexing resolver: rebuilds the derived per-cell state at
//! the start of each tick.  The occupancy index is always rebuilt from
//! scratch out of current positions — it is never a source of truth —
//! and a cell is blocked exactly when its tile is a wall or a blocking
//! actor stands on it.

use vstd::prelude::*;

use crate::grid::{SpatialMap, TileType};
use crate::world::World;

verus! {

/// The actor occupies a cell: live with a position.
pub open spec fn placed(w: World, a: int) -> bool {
    w.live(a) && w.position@[a] is Some
}

/// The actor stands on cell `idx` and blocks it.
pub open spec fn blocker_at(w: World, m: SpatialMap, a: int, idx: int) -> bool {
    &&& placed(w, a)
    &&& w.blocks_tile@[a]
    &&& m.spec_idx(w.position@[a]->Some_0.x as int, w.position@[a]->Some_0.y as int) == idx
}

/// The occupants of cell `idx` among actors with id below `n`, in id
/// order.
pub open spec fn cell_occupants_upto(w: World, m: SpatialMap, idx: int, n: int) -> Seq<usize>
    decreases n,
{
    if n <= 0 {
        Seq::empty()
    } else {
        let prev = cell_occupants_upto(w, m, idx, n - 1);
        if placed(w, n - 1) && m.spec_idx(
            w.position@[n - 1]->Some_0.x as int,
            w.position@[n - 1]->Some_0.y as int,
        ) == idx {
            prev.push((n - 1) as usize)
        } else {
            prev
        }
    }
}

/// Rebuilds the blocked layer and the occupancy index.  Afterwards a
/// cell is blocked exactly when its tile is a wall or a live blocking
/// actor stands on it, and each cell's occupancy list holds exactly the
/// live placed actors on it, in id order.
pub fn map_indexing_run(w: &World, map: &mut SpatialMap)
    requires
        w.wf(),
        old(map).wf(),
        forall|a: int|
            placed(*w, a) ==> old(map).in_bounds(
                w.position@[a]->Some_0.x as int,
                w.position@[a]->Some_0.y as int,
            ),
    ensures
        final(map).wf(),
        forall|idx: int| #![trigger final(map).blocked@[idx]]
            0 <= idx < old(map).width * old(map).height ==> final(map).blocked@[idx] == (old(
                map,
            ).tiles@[idx] == TileType::Wall || exists|a: int| blocker_at(*w, *old(map), a, idx)),
        forall|idx: int| #![trigger final(map).tile_content@[idx]]
            0 <= idx < old(map).width * old(map).height ==> final(map).tile_content@[idx]@
                == cell_occupants_upto(*w, *old(map), idx, w.n()),
        *final(map) == (SpatialMap {
            blocked: final(map).blocked,
            tile_content: final(map).tile_content,
            ..*old(map)
        }),
{
    let ghost m0 = *old(map);
    map.populate_blocked();
    map.clear_content_index();
    let n = w.alive.len();
    let mut a: usize = 0;
    while a < n
        invariant
            w.wf(),
            map.wf(),
            m0.wf(),
            n == w.n(),
            a <= n,
            map.width == m0.width,
            map.height == m0.height,
            map.tiles@ == m0.tiles@,
            forall|i: int|
                placed(*w, i) ==> m0.in_bounds(
                    w.position@[i]->Some_0.x as int,
                    w.position@[i]->Some_0.y as int,
                ),
            forall|idx: int| #![trigger map.blocked@[idx]]
                0 <= idx < m0.width * m0.height ==> map.blocked@[idx] == (m0.tiles@[idx]
                    == TileType::Wall || exists|i: int|
                    0 <= i < a && blocker_at(*w, m0, i, idx)),
            forall|idx: int| #![trigger map.tile_content@[idx]]
                0 <= idx < m0.width * m0.height ==> map.tile_content@[idx]@
                    == cell_occupants_upto(*w, m0, idx, a as int),
            *map == (SpatialMap { blocked: map.blocked, tile_content: map.tile_content, ..m0 }),
        decreases n - a,
    {
        if w.alive[a] && w.position[a].is_some() {
            let p = w.position[a].unwrap();
            proof {
                assert(placed(*w, a as int));
                m0.lemma_idx_in_range(p.x as int, p.y as int);
            }
            let idx = map.xy_idx(p.x, p.y);
            if w.blocks_tile[a] {
                map.blocked[idx] = true;
            }
            map.tile_content[idx].push(a);
            proof {
                assert(blocker_at(*w, m0, a as int, idx as int) == w.blocks_tile@[a as int]);
                assert forall|jdx: int| #![trigger map.blocked@[jdx]]
                    0 <= jdx < m0.width * m0.height implies map.blocked@[jdx] == (m0.tiles@[jdx]
                    == TileType::Wall || exists|i: int|
                    0 <= i < a + 1 && blocker_at(*w, m0, i, jdx)) by {
                    if jdx == idx as int && w.blocks_tile@[a as int] {
                        assert(blocker_at(*w, m0, a as int, jdx));
                    } else {
                        assert(forall|i: int|
                            0 <= i < a + 1 && blocker_at(*w, m0, i, jdx) ==> i < a || jdx
                                == idx as int);
                    }
                }
                assert forall|jdx: int| #![trigger map.tile_content@[jdx]]
                    0 <= jdx < m0.width * m0.height implies map.tile_content@[jdx]@
                    == cell_occupants_upto(*w, m0, jdx, a + 1) by {
                    if jdx == idx as int {
                        assert(map.tile_content@[jdx]@ == cell_occupants_upto(
                            *w,
                            m0,
                            jdx,
                            a as int,
                        ).push(a));
                    }
                }
            }
        } else {
            proof {
                assert(!placed(*w, a as int));
                assert forall|jdx: int| #![trigger map.blocked@[jdx]]
                    0 <= jdx < m0.width * m0.height implies map.blocked@[jdx] == (m0.tiles@[jdx]
                    == TileType::Wall || exists|i: int|
                    0 <= i < a + 1 && blocker_at(*w, m0, i, jdx)) by {
                    assert(forall|i: int|
                        0 <= i < a + 1 && blocker_at(*w, m0, i, jdx) ==> i < a);
                }
            }
        }
        a = a + 1;
    }
    proof {
        assert forall|idx: int| #![trigger final(map).blocked@[idx]]
            0 <= idx < m0.width * m0.height implies map.blocked@[idx] == (m0.tiles@[idx]
            == TileType::Wall || exists|i: int| blocker_at(*w, m0, i, idx)) by {
            if exists|i: int| blocker_at(*w, m0, i, idx) {
                let i = choose|i: int| blocker_at(*w, m0, i, idx);
                assert(0 <= i < n && blocker_at(*w, m0, i, idx));
            }
        }
    }
}

} // verus!
