//! The item-use resolver: consumes every use intent, resolves its
//! target set (the user itself, one cell, or an area blast supplied by
//! the geometry collaborator), applies healing, damage and confusion to
//! every targeted combatant, and deletes a consumable item once any
//! effect applied.
//!
//! Healing is clamped to `max_hp`.  An addition that would leave the
//! machine range of the stored number is skipped rather than wrapped;
//! the contract states exactly when that happens.

use vstd::prelude::*;
use vstd::string::StringExecFns;

use crate::grid::SpatialMap;
use crate::log::{log_add, log_view, GameLog};
use crate::text::{i32_to_string, int_str};
use crate::types::{CombatStats, Confusion, Position};
use crate::world::World;

verus! {

/// The id of the item the intent names.
pub open spec fn use_item_of(w: World, u: int) -> int {
    w.wants_to_use_item@[u]->Some_0.item as int
}

/// The intent needs an area blast from the geometry collaborator: it
/// has an explicit target point and its item carries a blast radius.
pub open spec fn needs_blast(w: World, u: int) -> bool {
    &&& 0 <= u < w.n()
    &&& w.wants_to_use_item@[u] is Some
    &&& w.wants_to_use_item@[u]->Some_0.target is Some
    &&& 0 <= use_item_of(w, u) < w.n()
    &&& w.area_of_effect@[use_item_of(w, u)] is Some
}

/// How many intents below `n` need a blast.
pub open spec fn blast_count_upto(w: World, n: int) -> int
    decreases n,
{
    if n <= 0 {
        0
    } else {
        blast_count_upto(w, n - 1) + if needs_blast(w, n - 1) {
            1int
        } else {
            0
        }
    }
}

/// The blast requests of intents below `n`, in id order: the user, the
/// target point, and the item's blast radius.
pub open spec fn blast_requests_upto(w: World, n: int) -> Seq<(usize, Position, i32)>
    decreases n,
{
    if n <= 0 {
        Seq::empty()
    } else {
        let prev = blast_requests_upto(w, n - 1);
        if needs_blast(w, n - 1) {
            prev.push(
                (
                    (n - 1) as usize,
                    w.wants_to_use_item@[n - 1]->Some_0.target->Some_0,
                    w.area_of_effect@[use_item_of(w, n - 1)]->Some_0,
                ),
            )
        } else {
            prev
        }
    }
}

/// A request list's length is the blast count.
pub proof fn lemma_blast_requests_len(w: World, n: int)
    ensures
        blast_requests_upto(w, n).len() == if n >= 0 {
            blast_count_upto(w, n)
        } else {
            0
        },
        blast_count_upto(w, n) >= 0,
    decreases n,
{
    if n > 0 {
        lemma_blast_requests_len(w, n - 1);
    }
}

/// Blast counts grow with the prefix.
pub proof fn lemma_blast_count_mono(w: World, k: int, n: int)
    requires
        k <= n,
    ensures
        blast_count_upto(w, k) <= blast_count_upto(w, n),
        needs_blast(w, k) && 0 <= k ==> blast_count_upto(w, k) < blast_count_upto(w, k + 1),
    decreases n - k,
{
    if k < n {
        lemma_blast_count_mono(w, k, n - 1);
        lemma_blast_requests_len(w, k);
    } else {
        lemma_blast_requests_len(w, k);
    }
}

/// Lists the blast requests the pending use intents make, in id order.
/// The caller answers each with the blast's field of view and hands the
/// answers to `item_use_run` in the same order.
pub fn item_use_blast_requests(w: &World) -> (r: Vec<(usize, Position, i32)>)
    requires
        w.wf(),
    ensures
        r@ == blast_requests_upto(*w, w.n()),
{
    let n = w.alive.len();
    let mut r: Vec<(usize, Position, i32)> = Vec::new();
    let mut u: usize = 0;
    while u < n
        invariant
            w.wf(),
            n == w.n(),
            u <= n,
            r@ == blast_requests_upto(*w, u as int),
        decreases n - u,
    {
        if let Some(intent) = w.wants_to_use_item[u] {
            if let Some(pt) = intent.target {
                if intent.item < n {
                    if let Some(radius) = w.area_of_effect[intent.item] {
                        r.push((u, pt, radius));
                    }
                }
            }
        }
        u = u + 1;
    }
    r
}

/// What the item-use pass rewrites, at the view level.
pub ghost struct UseView {
    pub alive: Seq<bool>,
    pub combat_stats: Seq<Option<CombatStats>>,
    pub suffers_damage: Seq<Option<i32>>,
    pub confusion: Seq<Option<Confusion>>,
    pub position: Seq<Option<Position>>,
    pub in_backpack: Seq<Option<usize>>,
    pub log: Seq<(Seq<char>, int)>,
}

/// The view the pass starts from.
pub open spec fn use_view_of(w: World, log: GameLog) -> UseView {
    UseView {
        alive: w.alive@,
        combat_stats: w.combat_stats@,
        suffers_damage: w.suffers_damage@,
        confusion: w.confusion@,
        position: w.position@,
        in_backpack: w.in_backpack@,
        log: log_view(log),
    }
}

/// The occupants of the in-bounds cells among the first `k` blast
/// tiles, in tile order.
pub open spec fn blast_targets(m: SpatialMap, tiles: Seq<Position>, k: int) -> Seq<usize>
    decreases k,
{
    if k <= 0 {
        Seq::empty()
    } else {
        let prev = blast_targets(m, tiles, k - 1);
        let pt = tiles[k - 1];
        if m.in_bounds(pt.x as int, pt.y as int) {
            prev + m.tile_content@[m.spec_idx(pt.x as int, pt.y as int)]@
        } else {
            prev
        }
    }
}

/// The raw target list of one intent: the player for a self-target, a
/// blast's occupants for an area item, else the occupants of the
/// target cell (none when the point is off the grid).
pub open spec fn raw_targets(w: World, m: SpatialMap, u: int, blast: Seq<Position>) -> Seq<
    usize,
> {
    match w.wants_to_use_item@[u]->Some_0.target {
        None => seq![w.player_id],
        Some(pt) => if needs_blast(w, u) {
            blast_targets(m, blast, blast.len() as int)
        } else if m.in_bounds(pt.x as int, pt.y as int) {
            m.tile_content@[m.spec_idx(pt.x as int, pt.y as int)]@
        } else {
            Seq::empty()
        },
    }
}

/// The first `k` raw targets that are live combatants at this point of
/// the pass.
pub open spec fn stat_filter(v: UseView, n: int, ts: Seq<usize>, k: int) -> Seq<usize>
    decreases k,
{
    if k <= 0 {
        Seq::empty()
    } else {
        let prev = stat_filter(v, n, ts, k - 1);
        let t = ts[k - 1];
        if t < n && v.alive[t as int] && v.combat_stats[t as int] is Some {
            prev.push(t)
        } else {
            prev
        }
    }
}

/// Every filtered target is a live combatant of the view.
pub proof fn lemma_stat_filter(v: UseView, n: int, ts: Seq<usize>, k: int)
    ensures
        forall|j: int| #![trigger stat_filter(v, n, ts, k)[j]]
            0 <= j < stat_filter(v, n, ts, k).len() ==> {
                let t = stat_filter(v, n, ts, k)[j] as int;
                &&& 0 <= t < n
                &&& v.alive[t]
                &&& v.combat_stats[t] is Some
            },
    decreases k,
{
    if k > 0 {
        lemma_stat_filter(v, n, ts, k - 1);
        let prev = stat_filter(v, n, ts, k - 1);
        let s = stat_filter(v, n, ts, k);
        assert forall|j: int| #![trigger s[j]] 0 <= j < s.len() implies {
            let t = s[j] as int;
            &&& 0 <= t < n
            &&& v.alive[t]
            &&& v.combat_stats[t] is Some
        } by {
            if j < prev.len() {
                assert(s[j] == prev[j]);
            }
        }
    }
}

/// Healing applied to the first `k` filtered targets: each is raised by
/// the heal amount, clamped to its own `max_hp` (a result below the
/// machine range is skipped).  The player's use is narrated per target.
pub open spec fn heal_fold(w: World, v: UseView, u: int, it: int, s: Seq<usize>, k: int) -> UseView
    decreases k,
{
    if k <= 0 {
        v
    } else {
        let v1 = heal_fold(w, v, u, it, s, k - 1);
        let t = s[k - 1] as int;
        let st = v1.combat_stats[t]->Some_0;
        let h = w.provides_healing@[it]->Some_0;
        let nh = if st.max_hp < st.hp + h {
            st.max_hp as int
        } else {
            st.hp + h
        };
        if nh < i32::MIN {
            v1
        } else {
            let v2 = UseView {
                combat_stats: v1.combat_stats.update(t, Some(CombatStats { hp: nh as i32, ..st })),
                ..v1
            };
            if u == w.player_id && w.name@[it] is Some {
                UseView {
                    log: log_add(
                        v2.log,
                        "You use "@ + w.name@[it]->Some_0@ + ", healing "@ + int_str(h as int)
                            + " hp."@,
                    ),
                    ..v2
                }
            } else {
                v2
            }
        }
    }
}

/// The narration of a targeted effect applies: the user is the player
/// and both names exist.
pub open spec fn narrated(w: World, u: int, it: int, t: int) -> bool {
    u == w.player_id && w.name@[it] is Some && w.name@[t] is Some
}

/// Whether healing actually landed on any of the first `k` filtered
/// targets (an application the machine-range guard skipped does not
/// count).
pub open spec fn heal_applied_upto(
    w: World,
    v: UseView,
    u: int,
    it: int,
    s: Seq<usize>,
    k: int,
) -> bool
    decreases k,
{
    if k <= 0 {
        false
    } else {
        let v1 = heal_fold(w, v, u, it, s, k - 1);
        let t = s[k - 1] as int;
        let st = v1.combat_stats[t]->Some_0;
        let h = w.provides_healing@[it]->Some_0;
        let nh = if st.max_hp < st.hp + h {
            st.max_hp as int
        } else {
            st.hp + h
        };
        heal_applied_upto(w, v, u, it, s, k - 1) || nh >= i32::MIN
    }
}

/// Whether damage actually accumulated on any of the first `k` filtered
/// targets (an accumulation the machine-range guard skipped does not
/// count).
pub open spec fn dmg_applied_upto(
    w: World,
    v: UseView,
    u: int,
    it: int,
    s: Seq<usize>,
    k: int,
) -> bool
    decreases k,
{
    if k <= 0 {
        false
    } else {
        let v1 = dmg_fold(w, v, u, it, s, k - 1);
        let t = s[k - 1] as int;
        let d = w.inflicts_damage@[it]->Some_0;
        let base = match v1.suffers_damage[t] {
            Some(b) => b as int,
            None => 0,
        };
        dmg_applied_upto(w, v, u, it, s, k - 1) || (i32::MIN <= base + d <= i32::MAX)
    }
}

/// Damage posted on the first `k` filtered targets: the item's damage
/// accumulates on each (an accumulation outside the machine range is
/// skipped).  The player's use is narrated per target.
pub open spec fn dmg_fold(w: World, v: UseView, u: int, it: int, s: Seq<usize>, k: int) -> UseView
    decreases k,
{
    if k <= 0 {
        v
    } else {
        let v1 = dmg_fold(w, v, u, it, s, k - 1);
        let t = s[k - 1] as int;
        let d = w.inflicts_damage@[it]->Some_0;
        let base = match v1.suffers_damage[t] {
            Some(b) => b as int,
            None => 0,
        };
        if base + d > i32::MAX || base + d < i32::MIN {
            v1
        } else {
            let v2 = UseView {
                suffers_damage: v1.suffers_damage.update(t, Some((base + d) as i32)),
                ..v1
            };
            if narrated(w, u, it, t) {
                UseView {
                    log: log_add(
                        v2.log,
                        "You use "@ + w.name@[it]->Some_0@ + " on "@ + w.name@[t]->Some_0@
                            + ", inflicting "@ + int_str(d as int) + " hp."@,
                    ),
                    ..v2
                }
            } else {
                v2
            }
        }
    }
}

/// Confusion applied to the first `k` filtered targets: each receives
/// the item's confusion span (read before the pass touched anyone).
/// The player's use is narrated per target.
pub open spec fn conf_fold(
    w: World,
    v: UseView,
    u: int,
    it: int,
    turns: i32,
    s: Seq<usize>,
    k: int,
) -> UseView
    decreases k,
{
    if k <= 0 {
        v
    } else {
        let v1 = conf_fold(w, v, u, it, turns, s, k - 1);
        let t = s[k - 1] as int;
        let v2 = UseView { confusion: v1.confusion.update(t, Some(Confusion { turns })), ..v1 };
        if narrated(w, u, it, t) {
            UseView {
                log: log_add(
                    v2.log,
                    "You use "@ + w.name@[it]->Some_0@ + " on "@ + w.name@[t]->Some_0@
                        + ", confusing them."@,
                ),
                ..v2
            }
        } else {
            v2
        }
    }
}

/// One use intent applied to the accumulated view.  An intent naming a
/// gone item is dropped.  Otherwise the target set is resolved, every
/// effect the item carries is applied to the filtered targets, and a
/// consumable item is deleted — marked gone and removed from the map
/// and from packs — only when at least one effect actually landed (an
/// application skipped by a machine-range guard does not count).
pub open spec fn use_step(w: World, m: SpatialMap, v: UseView, u: int, blast: Seq<Position>) -> UseView {
    if !(0 <= u < w.n() && v.alive[u] && w.wants_to_use_item@[u] is Some) {
        v
    } else {
        let it = use_item_of(w, u);
        if !(0 <= it < w.n() && v.alive[it]) {
            v
        } else {
            let ts = raw_targets(w, m, u, blast);
            let s = stat_filter(v, w.n(), ts, ts.len() as int);
            let has_heal = w.provides_healing@[it] is Some;
            let has_dmg = w.inflicts_damage@[it] is Some;
            let has_conf = v.confusion[it] is Some;
            let v1 = if has_heal {
                heal_fold(w, v, u, it, s, s.len() as int)
            } else {
                v
            };
            let v2 = if has_dmg {
                dmg_fold(w, v1, u, it, s, s.len() as int)
            } else {
                v1
            };
            let v3 = if has_conf {
                conf_fold(w, v2, u, it, v.confusion[it]->Some_0.turns, s, s.len() as int)
            } else {
                v2
            };
            let used = (has_heal && heal_applied_upto(w, v, u, it, s, s.len() as int)) || (
            has_dmg && dmg_applied_upto(w, v1, u, it, s, s.len() as int)) || (has_conf && s.len()
                > 0);
            if used && w.consumable@[it] {
                UseView {
                    alive: v3.alive.update(it, false),
                    position: v3.position.update(it, None),
                    in_backpack: v3.in_backpack.update(it, None),
                    ..v3
                }
            } else {
                v3
            }
        }
    }
}

/// The accumulated view after the use intents of actors below `n`.
/// Each blast-needing intent takes the next entry of `blasts`.
pub open spec fn use_fold(
    w: World,
    m: SpatialMap,
    blasts: Seq<Seq<Position>>,
    v0: UseView,
    n: int,
) -> UseView
    decreases n,
{
    if n <= 0 {
        v0
    } else {
        let v1 = use_fold(w, m, blasts, v0, n - 1);
        let blast = if needs_blast(w, n - 1) {
            blasts[blast_count_upto(w, n - 1)]
        } else {
            Seq::empty()
        };
        use_step(w, m, v1, n - 1, blast)
    }
}

/// The heal pass touches only combatant stats and the log; it keeps the
/// stat column's length and never removes a stats facet.
pub proof fn lemma_heal_fold_frame(w: World, v: UseView, u: int, it: int, s: Seq<usize>, k: int)
    requires
        k <= s.len(),
        forall|j: int| #![trigger s[j]]
            0 <= j < s.len() ==> 0 <= s[j] < v.combat_stats.len() && v.combat_stats[s[j] as int]
                is Some,
    ensures
        heal_fold(w, v, u, it, s, k) == (UseView {
            combat_stats: heal_fold(w, v, u, it, s, k).combat_stats,
            log: heal_fold(w, v, u, it, s, k).log,
            ..v
        }),
        heal_fold(w, v, u, it, s, k).combat_stats.len() == v.combat_stats.len(),
        forall|t: int| #![trigger heal_fold(w, v, u, it, s, k).combat_stats[t]]
            0 <= t < v.combat_stats.len() ==> ((heal_fold(w, v, u, it, s, k).combat_stats[t]
                is Some) == (v.combat_stats[t] is Some) && (heal_fold(
                w,
                v,
                u,
                it,
                s,
                k,
            ).combat_stats[t] is Some ==> heal_fold(w, v, u, it, s, k).combat_stats[t]->Some_0.max_hp
                == v.combat_stats[t]->Some_0.max_hp)),
    decreases k,
{
    if k > 0 {
        lemma_heal_fold_frame(w, v, u, it, s, k - 1);
    }
}

/// The damage pass touches only accumulators and the log.
pub proof fn lemma_dmg_fold_frame(w: World, v: UseView, u: int, it: int, s: Seq<usize>, k: int)
    requires
        k <= s.len(),
        forall|j: int| #![trigger s[j]]
            0 <= j < s.len() ==> 0 <= s[j] < v.suffers_damage.len(),
    ensures
        dmg_fold(w, v, u, it, s, k) == (UseView {
            suffers_damage: dmg_fold(w, v, u, it, s, k).suffers_damage,
            log: dmg_fold(w, v, u, it, s, k).log,
            ..v
        }),
        dmg_fold(w, v, u, it, s, k).suffers_damage.len() == v.suffers_damage.len(),
    decreases k,
{
    if k > 0 {
        lemma_dmg_fold_frame(w, v, u, it, s, k - 1);
    }
}

/// The confusion pass touches only confusion facets and the log.
pub proof fn lemma_conf_fold_frame(
    w: World,
    v: UseView,
    u: int,
    it: int,
    turns: i32,
    s: Seq<usize>,
    k: int,
)
    requires
        k <= s.len(),
        forall|j: int| #![trigger s[j]]
            0 <= j < s.len() ==> 0 <= s[j] < v.confusion.len(),
    ensures
        conf_fold(w, v, u, it, turns, s, k) == (UseView {
            confusion: conf_fold(w, v, u, it, turns, s, k).confusion,
            log: conf_fold(w, v, u, it, turns, s, k).log,
            ..v
        }),
        conf_fold(w, v, u, it, turns, s, k).confusion.len() == v.confusion.len(),
    decreases k,
{
    if k > 0 {
        lemma_conf_fold_frame(w, v, u, it, turns, s, k - 1);
    }
}

/// Builds the healing narration.
fn heal_message(item: &String, amount: i32) -> (r: String)
    ensures
        r@ == "You use "@ + item@ + ", healing "@ + int_str(amount as int) + " hp."@,
{
    proof {
        reveal_strlit("You use ");
        reveal_strlit(", healing ");
        reveal_strlit(" hp.");
    }
    let mut r = String::from_str("You use ");
    r.append(item.as_str());
    r.append(", healing ");
    let d = i32_to_string(amount);
    r.append(d.as_str());
    r.append(" hp.");
    proof {
        assert(r@ =~= "You use "@ + item@ + ", healing "@ + int_str(amount as int) + " hp."@);
    }
    r
}

/// Builds the damage narration.
fn inflict_message(item: &String, target: &String, amount: i32) -> (r: String)
    ensures
        r@ == "You use "@ + item@ + " on "@ + target@ + ", inflicting "@ + int_str(amount as int)
            + " hp."@,
{
    proof {
        reveal_strlit("You use ");
        reveal_strlit(" on ");
        reveal_strlit(", inflicting ");
        reveal_strlit(" hp.");
    }
    let mut r = String::from_str("You use ");
    r.append(item.as_str());
    r.append(" on ");
    r.append(target.as_str());
    r.append(", inflicting ");
    let d = i32_to_string(amount);
    r.append(d.as_str());
    r.append(" hp.");
    proof {
        assert(r@ =~= "You use "@ + item@ + " on "@ + target@ + ", inflicting "@ + int_str(
            amount as int,
        ) + " hp."@);
    }
    r
}

/// Builds the confusion narration.
fn confuse_message(item: &String, target: &String) -> (r: String)
    ensures
        r@ == "You use "@ + item@ + " on "@ + target@ + ", confusing them."@,
{
    proof {
        reveal_strlit("You use ");
        reveal_strlit(" on ");
        reveal_strlit(", confusing them.");
    }
    let mut r = String::from_str("You use ");
    r.append(item.as_str());
    r.append(" on ");
    r.append(target.as_str());
    r.append(", confusing them.");
    proof {
        assert(r@ =~= "You use "@ + item@ + " on "@ + target@ + ", confusing them."@);
    }
    r
}

/// Carries out one pending use intent (the drain is the caller's).
/// `blast` must be empty unless the intent asks for an area blast.
#[verifier::rlimit(100)]
fn item_use_apply(
    w: &mut World,
    map: &SpatialMap,
    log: &mut GameLog,
    u: usize,
    blast: &Vec<Position>,
    Ghost(w0): Ghost<World>,
)
    requires
        old(w).wf(),
        w0.wf(),
        map.wf(),
        u < old(w).n(),
        old(w).n() == w0.n(),
        old(w).wants_to_use_item@[u as int] is Some,
        old(w).wants_to_use_item@[u as int] == w0.wants_to_use_item@[u as int],
        old(w).area_of_effect@ == w0.area_of_effect@,
        old(w).provides_healing@ == w0.provides_healing@,
        old(w).inflicts_damage@ == w0.inflicts_damage@,
        old(w).consumable@ == w0.consumable@,
        old(w).name@ == w0.name@,
        old(w).player_id == w0.player_id,
        !needs_blast(w0, u as int) ==> blast@ == Seq::<Position>::empty(),
    ensures
        final(w).wf(),
        final(w).n() == old(w).n(),
        ({
            let v1 = use_view_of(*old(w), *old(log));
            let bl = if needs_blast(w0, u as int) {
                blast@
            } else {
                Seq::<Position>::empty()
            };
            let v2 = use_step(w0, *map, v1, u as int, bl);
            &&& final(w).alive@ == v2.alive
            &&& final(w).combat_stats@ == v2.combat_stats
            &&& final(w).suffers_damage@ == v2.suffers_damage
            &&& final(w).confusion@ == v2.confusion
            &&& final(w).position@ == v2.position
            &&& final(w).in_backpack@ == v2.in_backpack
            &&& log_view(*final(log)) == v2.log
        }),
        final(w).wants_to_use_item@ == old(w).wants_to_use_item@,
        *final(w) == (World {
            alive: final(w).alive,
            combat_stats: final(w).combat_stats,
            suffers_damage: final(w).suffers_damage,
            confusion: final(w).confusion,
            position: final(w).position,
            in_backpack: final(w).in_backpack,
            ..*old(w)
        }),
{
    let ghost m = *map;
    let ghost v1 = use_view_of(*old(w), *old(log));
    let ghost blast_u: Seq<Position> = if needs_blast(w0, u as int) {
        blast@
    } else {
        Seq::<Position>::empty()
    };
    let n = w.alive.len();
    let intent = w.wants_to_use_item[u].unwrap();
    let it = intent.item;
    let user_live: bool = w.alive[u];
    if !(user_live && it < n && w.alive[it]) {
        // The user or the item is gone: the intent is dropped.
        return ;
    }
    // Resolve the raw target list.
    let mut ts: Vec<usize> = Vec::new();
    match intent.target {
        None => {
            ts.push(w.player_id);
            proof {
                assert(ts@ =~= raw_targets(w0, m, u as int, blast_u));
            }
        },
        Some(pt) => {
            let needs: bool = it < n && w.area_of_effect[it].is_some();
            proof {
                assert(needs == needs_blast(w0, u as int));
            }
            if needs {
                let bn = blast.len();
                let mut k: usize = 0;
                while k < bn
                    invariant
                        m.wf(),
                        *map == m,
                        bn == blast@.len(),
                        k <= bn,
                        blast@ == blast_u,
                        ts@ == blast_targets(m, blast_u, k as int),
                    decreases bn - k,
                {
                    let tile = blast[k];
                    if map.is_valid(tile.x, tile.y) {
                        let idx = map.xy_idx(tile.x, tile.y);
                        let cl = map.tile_content[idx].len();
                        let mut c: usize = 0;
                        while c < cl
                            invariant
                                m.wf(),
                                *map == m,
                                idx < m.tile_content@.len(),
                                cl == m.tile_content@[idx as int]@.len(),
                                c <= cl,
                                ts@ == blast_targets(m, blast_u, k as int)
                                    + m.tile_content@[idx as int]@.take(c as int),
                            decreases cl - c,
                        {
                            ts.push(map.tile_content[idx][c]);
                            proof {
                                assert(m.tile_content@[idx as int]@.take(c + 1)
                                    =~= m.tile_content@[idx as int]@.take(c as int).push(
                                    m.tile_content@[idx as int]@[c as int],
                                ));
                                assert(ts@ =~= blast_targets(m, blast_u, k as int)
                                    + m.tile_content@[idx as int]@.take(c + 1));
                            }
                            c = c + 1;
                        }
                        proof {
                            assert(m.tile_content@[idx as int]@.take(cl as int)
                                =~= m.tile_content@[idx as int]@);
                            assert(ts@ =~= blast_targets(m, blast_u, k + 1));
                        }
                    } else {
                        proof {
                            assert(ts@ =~= blast_targets(m, blast_u, k + 1));
                        }
                    }
                    k = k + 1;
                }
                proof {
                    assert(ts@ =~= raw_targets(w0, m, u as int, blast_u));
                }
            } else {
                if map.is_valid(pt.x, pt.y) {
                    let idx = map.xy_idx(pt.x, pt.y);
                    let cl = map.tile_content[idx].len();
                    let mut c: usize = 0;
                    while c < cl
                        invariant
                            m.wf(),
                            *map == m,
                            idx < m.tile_content@.len(),
                            cl == m.tile_content@[idx as int]@.len(),
                            c <= cl,
                            ts@ == m.tile_content@[idx as int]@.take(c as int),
                        decreases cl - c,
                    {
                        ts.push(map.tile_content[idx][c]);
                        proof {
                            assert(m.tile_content@[idx as int]@.take(c + 1)
                                =~= m.tile_content@[idx as int]@.take(c as int).push(
                                m.tile_content@[idx as int]@[c as int],
                            ));
                        }
                        c = c + 1;
                    }
                    proof {
                        assert(m.tile_content@[idx as int]@.take(cl as int)
                            =~= m.tile_content@[idx as int]@);
                        assert(ts@ =~= raw_targets(w0, m, u as int, blast_u));
                    }
                } else {
                    proof {
                        assert(ts@ =~= raw_targets(w0, m, u as int, blast_u));
                    }
                }
            }
        },
    }
    // Keep the live combatants.
    let ghost tss = ts@;
    let tl = ts.len();
    let mut s: Vec<usize> = Vec::new();
    let mut j: usize = 0;
    while j < tl
        invariant
            w.wf(),
            n == w.n(),
            tl == tss.len(),
            j <= tl,
            ts@ == tss,
            s@ == stat_filter(v1, n as int, tss, j as int),
            w.alive@ == v1.alive,
            w.combat_stats@ == v1.combat_stats,
        decreases tl - j,
    {
        let t = ts[j];
        if t < n && w.alive[t] && w.combat_stats[t].is_some() {
            s.push(t);
        }
        j = j + 1;
    }
    let ghost ss = s@;
    proof {
        assert(ss == stat_filter(v1, n as int, tss, tss.len() as int));
        lemma_stat_filter(v1, n as int, tss, tss.len() as int);
    }
    let sl = s.len();
    let has_heal = w.provides_healing[it].is_some();
    let has_dmg = w.inflicts_damage[it].is_some();
    let has_conf = w.confusion[it].is_some();
    let ghost item_turns: i32 = if w.confusion@[it as int] is Some {
        w.confusion@[it as int]->Some_0.turns
    } else {
        0
    };
    let conf_turns: i32 = match w.confusion[it] {
        Some(c) => c.turns,
        None => 0,
    };
    let ghost v_heal = if w0.provides_healing@[it as int] is Some {
        heal_fold(w0, v1, u as int, it as int, ss, ss.len() as int)
    } else {
        v1
    };
    let ghost v_dmg = if w0.inflicts_damage@[it as int] is Some {
        dmg_fold(w0, v_heal, u as int, it as int, ss, ss.len() as int)
    } else {
        v_heal
    };
    let ghost v_conf = if v1.confusion[it as int] is Some {
        conf_fold(w0, v_dmg, u as int, it as int, item_turns, ss, ss.len() as int)
    } else {
        v_dmg
    };
    let ghost w_step = *w;
    let mut heal_hit: bool = false;
    let mut dmg_hit: bool = false;
    // Heal.
    if has_heal {
        let h = w.provides_healing[it].unwrap();
        let mut k2: usize = 0;
        while k2 < sl
            invariant
                w.wf(),
                w0.wf(),
                n == w.n(),
                n == w0.n(),
                sl == ss.len(),
                k2 <= sl,
                s@ == ss,
                u < n,
                it < n,
                h == w0.provides_healing@[it as int]->Some_0,
                w0.provides_healing@[it as int] is Some,
                w.name@ == w0.name@,
                w.player_id == w0.player_id,
                forall|jj: int| #![trigger ss[jj]]
                    0 <= jj < ss.len() ==> 0 <= ss[jj] < n && v1.combat_stats[ss[jj] as int]
                        is Some,
                v1.combat_stats.len() == n,
                heal_hit == heal_applied_upto(w0, v1, u as int, it as int, ss, k2 as int),
                w.combat_stats@ == heal_fold(
                    w0,
                    v1,
                    u as int,
                    it as int,
                    ss,
                    k2 as int,
                ).combat_stats,
                log_view(*log) == heal_fold(w0, v1, u as int, it as int, ss, k2 as int).log,
                *w == (World { combat_stats: w.combat_stats, ..w_step }),
                w_step.combat_stats@ == v1.combat_stats,
            decreases sl - k2,
        {
            let t = s[k2];
            proof {
                lemma_heal_fold_frame(w0, v1, u as int, it as int, ss, k2 as int);
                assert(v1.combat_stats[t as int] is Some);
                assert(w.combat_stats@[t as int] is Some);
            }
            let st = w.combat_stats[t].unwrap();
            let nh64: i64 = if (st.max_hp as i64) < st.hp as i64 + h as i64 {
                st.max_hp as i64
            } else {
                st.hp as i64 + h as i64
            };
            if nh64 >= i32::MIN as i64 {
                proof {
                    assert(nh64 <= i32::MAX);
                }
                w.combat_stats[t] = Some(CombatStats { hp: nh64 as i32, ..st });
                heal_hit = true;
                if u == w.player_id && w.name[it].is_some() {
                    let msg = heal_message(w.name[it].as_ref().unwrap(), h);
                    log.add(msg);
                }
            }
            proof {
                let vh2 = heal_fold(w0, v1, u as int, it as int, ss, k2 + 1);
                assert(w.combat_stats@ =~= vh2.combat_stats);
                assert(log_view(*log) =~= vh2.log);
            }
            k2 = k2 + 1;
        }
    }
    proof {
        lemma_heal_fold_frame(w0, v1, u as int, it as int, ss, ss.len() as int);
        assert(w.combat_stats@ == v_heal.combat_stats);
        assert(log_view(*log) == v_heal.log);
        assert(w.suffers_damage@ == v_heal.suffers_damage);
        assert(w.confusion@ == v_heal.confusion);
    }
    let ghost w_heal = *w;
    // Damage.
    if has_dmg {
        let d = w.inflicts_damage[it].unwrap();
        let mut k2: usize = 0;
        while k2 < sl
            invariant
                w.wf(),
                w0.wf(),
                n == w.n(),
                n == w0.n(),
                sl == ss.len(),
                k2 <= sl,
                s@ == ss,
                u < n,
                it < n,
                d == w0.inflicts_damage@[it as int]->Some_0,
                w0.inflicts_damage@[it as int] is Some,
                w.name@ == w0.name@,
                w.player_id == w0.player_id,
                forall|jj: int| #![trigger ss[jj]]
                    0 <= jj < ss.len() ==> 0 <= ss[jj] < n,
                v_heal.suffers_damage.len() == n,
                dmg_hit == dmg_applied_upto(w0, v_heal, u as int, it as int, ss, k2 as int),
                w.suffers_damage@ == dmg_fold(
                    w0,
                    v_heal,
                    u as int,
                    it as int,
                    ss,
                    k2 as int,
                ).suffers_damage,
                log_view(*log) == dmg_fold(w0, v_heal, u as int, it as int, ss, k2 as int).log,
                *w == (World { suffers_damage: w.suffers_damage, ..w_heal }),
                w_heal.suffers_damage@ == v_heal.suffers_damage,
            decreases sl - k2,
        {
            let t = s[k2];
            proof {
                lemma_dmg_fold_frame(w0, v_heal, u as int, it as int, ss, k2 as int);
            }
            let base64: i64 = match w.suffers_damage[t] {
                Some(b) => b as i64,
                None => 0,
            };
            let sum64: i64 = base64 + d as i64;
            if sum64 <= i32::MAX as i64 && sum64 >= i32::MIN as i64 {
                w.suffers_damage[t] = Some(sum64 as i32);
                dmg_hit = true;
                if u == w.player_id && w.name[it].is_some() && w.name[t].is_some() {
                    let msg = inflict_message(
                        w.name[it].as_ref().unwrap(),
                        w.name[t].as_ref().unwrap(),
                        d,
                    );
                    log.add(msg);
                }
            }
            proof {
                let vd2 = dmg_fold(w0, v_heal, u as int, it as int, ss, k2 + 1);
                assert(w.suffers_damage@ =~= vd2.suffers_damage);
                assert(log_view(*log) =~= vd2.log);
            }
            k2 = k2 + 1;
        }
    }
    proof {
        lemma_dmg_fold_frame(w0, v_heal, u as int, it as int, ss, ss.len() as int);
        assert(w.suffers_damage@ == v_dmg.suffers_damage);
        assert(w.combat_stats@ == v_dmg.combat_stats);
        assert(log_view(*log) == v_dmg.log);
        assert(w.confusion@ == v_dmg.confusion);
    }
    let ghost w_dmg = *w;
    // Confusion.
    if has_conf {
        proof {
            assert(v1.confusion[it as int] is Some);
            assert(conf_turns == item_turns);
        }
        let mut k2: usize = 0;
        while k2 < sl
            invariant
                w.wf(),
                w0.wf(),
                n == w.n(),
                n == w0.n(),
                sl == ss.len(),
                k2 <= sl,
                s@ == ss,
                u < n,
                it < n,
                conf_turns == item_turns,
                w.name@ == w0.name@,
                w.player_id == w0.player_id,
                forall|jj: int| #![trigger ss[jj]]
                    0 <= jj < ss.len() ==> 0 <= ss[jj] < n,
                v_dmg.confusion.len() == n,
                w.confusion@ == conf_fold(
                    w0,
                    v_dmg,
                    u as int,
                    it as int,
                    item_turns,
                    ss,
                    k2 as int,
                ).confusion,
                log_view(*log) == conf_fold(
                    w0,
                    v_dmg,
                    u as int,
                    it as int,
                    item_turns,
                    ss,
                    k2 as int,
                ).log,
                *w == (World { confusion: w.confusion, ..w_dmg }),
                w_dmg.confusion@ == v_dmg.confusion,
            decreases sl - k2,
        {
            let t = s[k2];
            proof {
                lemma_conf_fold_frame(w0, v_dmg, u as int, it as int, item_turns, ss, k2 as int);
            }
            w.confusion[t] = Some(Confusion { turns: conf_turns });
            if u == w.player_id && w.name[it].is_some() && w.name[t].is_some() {
                let msg = confuse_message(w.name[it].as_ref().unwrap(), w.name[t].as_ref().unwrap());
                log.add(msg);
            }
            proof {
                let vc2 = conf_fold(w0, v_dmg, u as int, it as int, item_turns, ss, k2 + 1);
                assert(w.confusion@ =~= vc2.confusion);
                assert(log_view(*log) =~= vc2.log);
            }
            k2 = k2 + 1;
        }
    }
    proof {
        lemma_conf_fold_frame(w0, v_dmg, u as int, it as int, item_turns, ss, ss.len() as int);
        assert(w.confusion@ == v_conf.confusion);
        assert(w.combat_stats@ == v_conf.combat_stats);
        assert(w.suffers_damage@ == v_conf.suffers_damage);
        assert(log_view(*log) == v_conf.log);
        assert(w.alive@ == v_conf.alive);
        assert(w.position@ == v_conf.position);
        assert(w.in_backpack@ == v_conf.in_backpack);
    }
    // Consume, only when at least one effect actually landed.
    let used: bool = (has_heal && heal_hit) || (has_dmg && dmg_hit) || (has_conf && sl > 0);
    proof {
        if has_heal {
            assert(heal_hit == heal_applied_upto(w0, v1, u as int, it as int, ss, ss.len() as int));
        }
        if has_dmg {
            assert(dmg_hit == dmg_applied_upto(w0, v_heal, u as int, it as int, ss, ss.len() as int));
        }
    }
    if used && w.consumable[it] {
        w.alive[it] = false;
        w.position[it] = None;
        w.in_backpack[it] = None;
    }
    proof {
        let v2 = use_step(w0, m, v1, u as int, blast_u);
        assert(w.alive@ =~= v2.alive);
        assert(w.combat_stats@ =~= v2.combat_stats);
        assert(w.suffers_damage@ =~= v2.suffers_damage);
        assert(w.confusion@ =~= v2.confusion);
        assert(w.position@ =~= v2.position);
        assert(w.in_backpack@ =~= v2.in_backpack);
        assert(log_view(*log) =~= v2.log);
    }
}

/// Resolves every use intent in actor-id order, then drains the intent
/// storage.  `blasts` answers the requests `item_use_blast_requests`
/// listed, in the same order; the final state is the fold of the
/// single-intent steps.
pub fn item_use_run(
    w: &mut World,
    map: &SpatialMap,
    log: &mut GameLog,
    blasts: &Vec<Vec<Position>>,
)
    requires
        old(w).wf(),
        map.wf(),
        blasts@.len() == blast_count_upto(*old(w), old(w).n()),
    ensures
        final(w).wf(),
        final(w).n() == old(w).n(),
        ({
            let bseq = Seq::new(blasts@.len(), |i: int| blasts@[i]@);
            let v = use_fold(*old(w), *map, bseq, use_view_of(*old(w), *old(log)), old(w).n());
            &&& final(w).alive@ == v.alive
            &&& final(w).combat_stats@ == v.combat_stats
            &&& final(w).suffers_damage@ == v.suffers_damage
            &&& final(w).confusion@ == v.confusion
            &&& final(w).position@ == v.position
            &&& final(w).in_backpack@ == v.in_backpack
            &&& log_view(*final(log)) == v.log
        }),
        forall|u: int| #![trigger final(w).wants_to_use_item@[u]]
            0 <= u < old(w).n() ==> final(w).wants_to_use_item@[u] is None,
        *final(w) == (World {
            alive: final(w).alive,
            combat_stats: final(w).combat_stats,
            suffers_damage: final(w).suffers_damage,
            confusion: final(w).confusion,
            position: final(w).position,
            in_backpack: final(w).in_backpack,
            wants_to_use_item: final(w).wants_to_use_item,
            ..*old(w)
        }),
{
    let ghost w0 = *old(w);
    let ghost m = *map;
    let ghost bseq = Seq::new(blasts@.len(), |i: int| blasts@[i]@);
    let ghost v0 = use_view_of(*old(w), *old(log));
    let empty_blast: Vec<Position> = Vec::new();
    let n = w.alive.len();
    let mut bk: usize = 0;
    let mut u: usize = 0;
    while u < n
        invariant
            w.wf(),
            w0.wf(),
            m.wf(),
            *map == m,
            n == w.n(),
            n == w0.n(),
            u <= n,
            empty_blast@ == Seq::<Position>::empty(),
            bseq.len() == blast_count_upto(w0, n as int),
            bseq == Seq::new(blasts@.len(), |i: int| blasts@[i]@),
            blasts@.len() == bseq.len(),
            bk == blast_count_upto(w0, u as int),
            v0 == use_view_of(w0, *old(log)),
            ({
                let v = use_fold(w0, m, bseq, v0, u as int);
                &&& w.alive@ == v.alive
                &&& w.combat_stats@ == v.combat_stats
                &&& w.suffers_damage@ == v.suffers_damage
                &&& w.confusion@ == v.confusion
                &&& w.position@ == v.position
                &&& w.in_backpack@ == v.in_backpack
                &&& log_view(*log) == v.log
            }),
            forall|k: int| #![trigger w.wants_to_use_item@[k]]
                0 <= k < u ==> w.wants_to_use_item@[k] is None,
            forall|k: int| #![trigger w.wants_to_use_item@[k]]
                u <= k < n ==> w.wants_to_use_item@[k] == w0.wants_to_use_item@[k],
            *w == (World {
                alive: w.alive,
                combat_stats: w.combat_stats,
                suffers_damage: w.suffers_damage,
                confusion: w.confusion,
                position: w.position,
                in_backpack: w.in_backpack,
                wants_to_use_item: w.wants_to_use_item,
                ..w0
            }),
        decreases n - u,
    {
        let ghost v1 = use_fold(w0, m, bseq, v0, u as int);
        let ghost blast_u: Seq<Position> = if needs_blast(w0, u as int) {
            bseq[blast_count_upto(w0, u as int)]
        } else {
            Seq::empty()
        };
        proof {
            assert(use_fold(w0, m, bseq, v0, u + 1) == use_step(w0, m, v1, u as int, blast_u));
        }
        let has_intent: bool = w.wants_to_use_item[u].is_some();
        if has_intent {
            let intent = w.wants_to_use_item[u].unwrap();
            let it = intent.item;
            let needs: bool = intent.target.is_some() && it < n && w.area_of_effect[it].is_some();
            proof {
                assert(w.wants_to_use_item@[u as int] == w0.wants_to_use_item@[u as int]);
                assert(needs == needs_blast(w0, u as int));
                if needs_blast(w0, u as int) {
                    lemma_blast_count_mono(w0, u as int, n as int);
                    lemma_blast_count_mono(w0, u + 1, n as int);
                    assert(bk < bseq.len());
                    assert(bseq[bk as int] == blasts@[bk as int]@);
                }
            }
            proof {
                assert(use_view_of(*w, *log) == v1);
            }
            if needs {
                let total = blasts.len();
                item_use_apply(w, map, log, u, &blasts[bk], Ghost(w0));
                proof {
                    assert(total == bseq.len());
                    assert(bk < bseq.len());
                }
                bk = bk + 1;
            } else {
                item_use_apply(w, map, log, u, &empty_blast, Ghost(w0));
            }
            proof {
                let v2 = use_step(w0, m, v1, u as int, blast_u);
                assert(w.alive@ == v2.alive);
                assert(log_view(*log) == v2.log);
            }
        }
        w.wants_to_use_item[u] = None;
        u = u + 1;
    }
}

} // verus!
