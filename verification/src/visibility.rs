//! The visibility resolver: recomputes a dirty viewshed from a raw
//! field-of-view handed in by the geometry collaborator, keeping only
//! in-bounds points.  Recomputing the player's viewshed additionally
//! resets and rebuilds the world-wide visible flags, marks the seen
//! tiles revealed, and rebuilds the observable-actor markers.
//!
//! Only the player's recomputation has world-wide side effects; a
//! monster's is purely local.

use vstd::prelude::*;

use crate::grid::SpatialMap;
use crate::types::{Position, Viewshed};
use crate::world::World;

verus! {

/// The actor's viewshed needs recomputing: live, placed, sighted and
/// marked dirty.
pub open spec fn viewshed_dirty(w: World, a: int) -> bool {
    &&& w.live(a)
    &&& w.position@[a] is Some
    &&& w.viewshed@[a] is Some
    &&& w.viewshed@[a]->Some_0.dirty
}

/// The actors with a dirty viewshed below `n`, in id order.
pub open spec fn dirty_upto(w: World, n: int) -> Seq<usize>
    decreases n,
{
    if n <= 0 {
        Seq::empty()
    } else if viewshed_dirty(w, n - 1) {
        dirty_upto(w, n - 1).push((n - 1) as usize)
    } else {
        dirty_upto(w, n - 1)
    }
}

/// Lists the actors whose viewsheds need recomputing, in id order.
/// The caller computes each one's field of view and hands it to
/// `visibility_apply`.
pub fn visibility_dirty_list(w: &World) -> (r: Vec<usize>)
    requires
        w.wf(),
    ensures
        r@ == dirty_upto(*w, w.n()),
{
    let n = w.alive.len();
    let mut r: Vec<usize> = Vec::new();
    let mut a: usize = 0;
    while a < n
        invariant
            w.wf(),
            n == w.n(),
            a <= n,
            r@ == dirty_upto(*w, a as int),
        decreases n - a,
    {
        if w.alive[a] && w.position[a].is_some() && w.viewshed[a].is_some() {
            let dirty = match &w.viewshed[a] {
                Some(vs) => vs.dirty,
                None => false,
            };
            if dirty {
                r.push(a);
            }
        }
        a = a + 1;
    }
    r
}

/// The first `k` raw points that lie on the grid, in order.
pub open spec fn pts_filter(m: SpatialMap, pts: Seq<Position>, k: int) -> Seq<Position>
    decreases k,
{
    if k <= 0 {
        Seq::empty()
    } else {
        let prev = pts_filter(m, pts, k - 1);
        if m.in_bounds(pts[k - 1].x as int, pts[k - 1].y as int) {
            prev.push(pts[k - 1])
        } else {
            prev
        }
    }
}

/// Every kept point lies on the grid.
pub proof fn lemma_pts_filter(m: SpatialMap, pts: Seq<Position>, k: int)
    ensures
        forall|j: int| #![trigger pts_filter(m, pts, k)[j]]
            0 <= j < pts_filter(m, pts, k).len() ==> m.in_bounds(
                pts_filter(m, pts, k)[j].x as int,
                pts_filter(m, pts, k)[j].y as int,
            ),
    decreases k,
{
    if k > 0 {
        lemma_pts_filter(m, pts, k - 1);
        let prev = pts_filter(m, pts, k - 1);
        let s = pts_filter(m, pts, k);
        assert forall|j: int| #![trigger s[j]] 0 <= j < s.len() implies m.in_bounds(
            s[j].x as int,
            s[j].y as int,
        ) by {
            if j < prev.len() {
                assert(s[j] == prev[j]);
            }
        }
    }
}

/// Cell `idx` lies under one of the first `k` points.
pub open spec fn in_pts(m: SpatialMap, pts: Seq<Position>, k: int, idx: int) -> bool {
    exists|j: int|
        0 <= j < k && m.in_bounds(pts[j].x as int, pts[j].y as int) && m.spec_idx(
            pts[j].x as int,
            pts[j].y as int,
        ) == idx
}

/// Actor `e` stands on a cell under one of the first `k` points.
pub open spec fn seen_upto(m: SpatialMap, pts: Seq<Position>, k: int, e: usize) -> bool {
    exists|j: int|
        0 <= j < k && m.in_bounds(pts[j].x as int, pts[j].y as int) && m.tile_content@[m.spec_idx(
            pts[j].x as int,
            pts[j].y as int,
        )]@.contains(e)
}

/// Recomputes one dirty viewshed from the raw field of view `raw`.
/// The viewshed keeps the in-bounds points and its dirty flag clears.
/// When the actor is the player, the world-wide visible flags are reset
/// to exactly the seen cells (even when the set is empty), those cells
/// become revealed, and the observable markers are rebuilt to exactly
/// the occupants of seen cells.
pub fn visibility_apply(w: &mut World, map: &mut SpatialMap, a: usize, raw: &Vec<Position>)
    requires
        old(w).wf(),
        old(map).wf(),
        a < old(w).n(),
        old(w).viewshed@[a as int] is Some,
        forall|idx: int, k: int|
            0 <= idx < old(map).width * old(map).height && 0 <= k < old(map).tile_content@[idx]@.len()
                ==> (#[trigger] old(map).tile_content@[idx]@[k]) < old(w).n(),
    ensures
        final(w).wf(),
        final(map).wf(),
        final(w).n() == old(w).n(),
        ({
            let filtered = pts_filter(*old(map), raw@, raw@.len() as int);
            &&& final(w).viewshed@[a as int] matches Some(vs) && vs.visible_tiles@ == filtered
                && vs.range == old(w).viewshed@[a as int]->Some_0.range && !vs.dirty
            &&& forall|i: int| #![trigger final(w).viewshed@[i]]
                0 <= i < old(w).n() && i != a ==> final(w).viewshed@[i] == old(w).viewshed@[i]
        }),
        !old(w).player@[a as int] ==> *final(map) == *old(map) && *final(w) == (World {
            viewshed: final(w).viewshed,
            ..*old(w)
        }),
        old(w).player@[a as int] ==> ({
            let filtered = pts_filter(*old(map), raw@, raw@.len() as int);
            &&& forall|idx: int| #![trigger final(map).visible_tiles@[idx]]
                0 <= idx < old(map).width * old(map).height ==> final(map).visible_tiles@[idx]
                    == in_pts(*old(map), filtered, filtered.len() as int, idx)
            &&& forall|idx: int| #![trigger final(map).revealed_tiles@[idx]]
                0 <= idx < old(map).width * old(map).height ==> final(map).revealed_tiles@[idx]
                    == (old(map).revealed_tiles@[idx] || in_pts(
                    *old(map),
                    filtered,
                    filtered.len() as int,
                    idx,
                ))
            &&& *final(map) == (SpatialMap {
                visible_tiles: final(map).visible_tiles,
                revealed_tiles: final(map).revealed_tiles,
                ..*old(map)
            })
            &&& forall|e: int| #![trigger final(w).is_visible@[e]]
                0 <= e < old(w).n() ==> final(w).is_visible@[e] == seen_upto(
                    *old(map),
                    filtered,
                    filtered.len() as int,
                    e as usize,
                )
            &&& *final(w) == (World {
                viewshed: final(w).viewshed,
                is_visible: final(w).is_visible,
                ..*old(w)
            })
        }),
{
    let ghost w0 = *old(w);
    let ghost m0 = *old(map);
    let n = w.alive.len();
    // Keep the in-bounds points.
    let rl = raw.len();
    let mut filtered: Vec<Position> = Vec::new();
    let mut k: usize = 0;
    while k < rl
        invariant
            m0.wf(),
            *map == m0,
            rl == raw@.len(),
            k <= rl,
            filtered@ == pts_filter(m0, raw@, k as int),
        decreases rl - k,
    {
        let pt = raw[k];
        if map.is_valid(pt.x, pt.y) {
            filtered.push(pt);
        }
        k = k + 1;
    }
    let ghost filt = filtered@;
    proof {
        lemma_pts_filter(m0, raw@, raw@.len() as int);
    }
    // Rewrite the viewshed row.
    let old_vs = w.viewshed[a].take().unwrap();
    let range = old_vs.range;
    w.viewshed[a] = Some(Viewshed { visible_tiles: filtered, range, dirty: false });
    if !w.player[a] {
        return ;
    }
    // Reset the world-wide visible flags.
    let count = map.visible_tiles.len();
    let mut i: usize = 0;
    while i < count
        invariant
            map.wf(),
            m0.wf(),
            count == map.visible_tiles@.len(),
            count == m0.width * m0.height,
            i <= count,
            forall|idx: int| #![trigger map.visible_tiles@[idx]]
                0 <= idx < i ==> !map.visible_tiles@[idx],
            *map == (SpatialMap { visible_tiles: map.visible_tiles, ..m0 }),
        decreases count - i,
    {
        map.visible_tiles[i] = false;
        i = i + 1;
    }
    // Reset the observable markers.
    let ghost w_vs = *w;
    let mut e: usize = 0;
    while e < n
        invariant
            w.wf(),
            n == w.n(),
            e <= n,
            forall|i2: int| #![trigger w.is_visible@[i2]]
                0 <= i2 < e ==> !w.is_visible@[i2],
            *w == (World { is_visible: w.is_visible, ..w_vs }),
        decreases n - e,
    {
        w.is_visible[e] = false;
        e = e + 1;
    }
    // Mark the seen cells and their occupants.
    let ghost m_clear = *map;
    let ghost w_clear = *w;
    let vs_ref_len = match &w.viewshed[a] {
        Some(vs) => vs.visible_tiles.len(),
        None => 0,
    };
    let fl = vs_ref_len;
    proof {
        assert(w.viewshed@[a as int]->Some_0.visible_tiles@ == filt);
    }
    let mut k2: usize = 0;
    while k2 < fl
        invariant
            w.wf(),
            w0.wf(),
            map.wf(),
            m0.wf(),
            n == w.n(),
            n == w0.n(),
            a < n,
            fl == filt.len(),
            k2 <= fl,
            w.viewshed@[a as int] is Some,
            w.viewshed@[a as int]->Some_0.visible_tiles@ == filt,
            forall|j: int| #![trigger filt[j]]
                0 <= j < filt.len() ==> m0.in_bounds(filt[j].x as int, filt[j].y as int),
            forall|idx: int, kk: int|
                0 <= idx < m0.width * m0.height && 0 <= kk < m0.tile_content@[idx]@.len() ==> (
                #[trigger] m0.tile_content@[idx]@[kk]) < n,
            m_clear == (SpatialMap { visible_tiles: m_clear.visible_tiles, ..m0 }),
            m_clear.visible_tiles@.len() == m0.width * m0.height,
            forall|idx: int| #![trigger m_clear.visible_tiles@[idx]]
                0 <= idx < m0.width * m0.height ==> !m_clear.visible_tiles@[idx],
            forall|i2: int| #![trigger w_clear.is_visible@[i2]]
                0 <= i2 < n ==> !w_clear.is_visible@[i2],
            forall|idx: int| #![trigger map.visible_tiles@[idx]]
                0 <= idx < m0.width * m0.height ==> map.visible_tiles@[idx] == in_pts(
                    m0,
                    filt,
                    k2 as int,
                    idx,
                ),
            forall|idx: int| #![trigger map.revealed_tiles@[idx]]
                0 <= idx < m0.width * m0.height ==> map.revealed_tiles@[idx]
                    == (m0.revealed_tiles@[idx] || in_pts(m0, filt, k2 as int, idx)),
            *map == (SpatialMap {
                visible_tiles: map.visible_tiles,
                revealed_tiles: map.revealed_tiles,
                ..m0
            }),
            forall|e2: int| #![trigger w.is_visible@[e2]]
                0 <= e2 < n ==> w.is_visible@[e2] == seen_upto(m0, filt, k2 as int, e2 as usize),
            *w == (World { is_visible: w.is_visible, ..w_clear }),
        decreases fl - k2,
    {
        let pt = match &w.viewshed[a] {
            Some(vs) => vs.visible_tiles[k2],
            None => Position { x: 0, y: 0 },
        };
        proof {
            assert(pt == filt[k2 as int]);
        }
        let idx = map.xy_idx(pt.x, pt.y);
        map.revealed_tiles[idx] = true;
        map.visible_tiles[idx] = true;
        proof {
            assert forall|jdx: int| #![trigger map.visible_tiles@[jdx]]
                0 <= jdx < m0.width * m0.height implies map.visible_tiles@[jdx] == in_pts(
                m0,
                filt,
                k2 + 1,
                jdx,
            ) by {
                if jdx == idx as int {
                    assert(m0.in_bounds(filt[k2 as int].x as int, filt[k2 as int].y as int)
                        && m0.spec_idx(filt[k2 as int].x as int, filt[k2 as int].y as int)
                        == jdx);
                    assert(in_pts(m0, filt, k2 + 1, jdx));
                } else {
                    assert(in_pts(m0, filt, k2 + 1, jdx) == in_pts(m0, filt, k2 as int, jdx))
                        by {
                        if in_pts(m0, filt, k2 + 1, jdx) {
                            let j = choose|j: int|
                                0 <= j < k2 + 1 && m0.in_bounds(
                                    filt[j].x as int,
                                    filt[j].y as int,
                                ) && m0.spec_idx(filt[j].x as int, filt[j].y as int) == jdx;
                            assert(j != k2);
                            assert(in_pts(m0, filt, k2 as int, jdx));
                        }
                    }
                }
            }
            assert forall|jdx: int| #![trigger map.revealed_tiles@[jdx]]
                0 <= jdx < m0.width * m0.height implies map.revealed_tiles@[jdx]
                == (m0.revealed_tiles@[jdx] || in_pts(m0, filt, k2 + 1, jdx)) by {
                if jdx != idx as int {
                    assert(in_pts(m0, filt, k2 + 1, jdx) == in_pts(m0, filt, k2 as int, jdx))
                        by {
                        if in_pts(m0, filt, k2 + 1, jdx) {
                            let j = choose|j: int|
                                0 <= j < k2 + 1 && m0.in_bounds(
                                    filt[j].x as int,
                                    filt[j].y as int,
                                ) && m0.spec_idx(filt[j].x as int, filt[j].y as int) == jdx;
                            assert(j != k2);
                            assert(in_pts(m0, filt, k2 as int, jdx));
                        }
                    }
                } else {
                    assert(in_pts(m0, filt, k2 + 1, jdx));
                }
            }
        }
        // Tag the occupants of this cell as observable.
        let cl = map.tile_content[idx].len();
        let ghost w_tile = *w;
        let mut c: usize = 0;
        while c < cl
            invariant
                w.wf(),
                n == w.n(),
                a < n,
                idx < m0.tile_content@.len(),
                m0.tile_content@ == map.tile_content@,
                cl == m0.tile_content@[idx as int]@.len(),
                c <= cl,
                forall|kk: int|
                    0 <= kk < m0.tile_content@[idx as int]@.len() ==> (
                    #[trigger] m0.tile_content@[idx as int]@[kk]) < n,
                forall|e2: int| #![trigger w.is_visible@[e2]]
                    0 <= e2 < n ==> w.is_visible@[e2] == (w_tile.is_visible@[e2]
                        || m0.tile_content@[idx as int]@.take(c as int).contains(e2 as usize)),
                *w == (World { is_visible: w.is_visible, ..w_tile }),
            decreases cl - c,
        {
            let occupant = map.tile_content[idx][c];
            w.is_visible[occupant] = true;
            proof {
                assert(m0.tile_content@[idx as int]@.take(c + 1) =~= m0.tile_content@[
                idx as int]@.take(c as int).push(m0.tile_content@[idx as int]@[c as int]));
                assert forall|e2: int| #![trigger w.is_visible@[e2]]
                    0 <= e2 < n implies w.is_visible@[e2] == (w_tile.is_visible@[e2]
                    || m0.tile_content@[idx as int]@.take(c + 1).contains(e2 as usize)) by {
                    if e2 == occupant as int {
                        assert(m0.tile_content@[idx as int]@.take(c + 1).last()
                            == occupant);
                    }
                }
            }
            c = c + 1;
        }
        proof {
            assert(m0.tile_content@[idx as int]@.take(cl as int) =~= m0.tile_content@[
            idx as int]@);
            assert forall|e2: int| #![trigger w.is_visible@[e2]]
                0 <= e2 < n implies w.is_visible@[e2] == seen_upto(
                m0,
                filt,
                k2 + 1,
                e2 as usize,
            ) by {
                if w.is_visible@[e2] {
                    if w_tile.is_visible@[e2] {
                        assert(seen_upto(m0, filt, k2 as int, e2 as usize));
                        let j = choose|j: int|
                            0 <= j < k2 && m0.in_bounds(filt[j].x as int, filt[j].y as int)
                                && m0.tile_content@[m0.spec_idx(
                                filt[j].x as int,
                                filt[j].y as int,
                            )]@.contains(e2 as usize);
                        assert(seen_upto(m0, filt, k2 + 1, e2 as usize));
                    } else {
                        assert(m0.tile_content@[idx as int]@.contains(e2 as usize));
                        assert(m0.in_bounds(filt[k2 as int].x as int, filt[k2 as int].y as int)
                            && m0.tile_content@[m0.spec_idx(
                            filt[k2 as int].x as int,
                            filt[k2 as int].y as int,
                        )]@.contains(e2 as usize));
                        assert(seen_upto(m0, filt, k2 + 1, e2 as usize));
                    }
                } else {
                    if seen_upto(m0, filt, k2 + 1, e2 as usize) {
                        let j = choose|j: int|
                            0 <= j < k2 + 1 && m0.in_bounds(filt[j].x as int, filt[j].y as int)
                                && m0.tile_content@[m0.spec_idx(
                                filt[j].x as int,
                                filt[j].y as int,
                            )]@.contains(e2 as usize);
                        if j == k2 as int {
                            assert(m0.tile_content@[idx as int]@.contains(e2 as usize));
                            assert(false);
                        } else {
                            assert(seen_upto(m0, filt, k2 as int, e2 as usize));
                            assert(false);
                        }
                    }
                }
            }
        }
        k2 = k2 + 1;
    }
}

} // verus!
