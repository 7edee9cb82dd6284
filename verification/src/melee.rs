//! The melee resolver: consumes every melee intent, charges the melee
//! time cost, narrates the outcome, and posts accumulated damage onto
//! the defender.

use vstd::prelude::*;
use vstd::string::StringExecFns;

use crate::log::{log_add, log_view, GameLog};
use crate::text::{dec_str, u64_to_string};
use crate::types::TakesTurn;
use crate::world::World;

verus! {

/// The actor's melee intent is processed: it has the intent and every
/// facet the resolver reads.
pub open spec fn melee_processed(w: World, a: int) -> bool {
    &&& w.live(a)
    &&& w.wants_to_melee@[a] is Some
    &&& w.name@[a] is Some
    &&& w.combat_stats@[a] is Some
    &&& w.takes_turn@[a] is Some
    &&& w.can_melee@[a] is Some
}

/// The intent's target id.
pub open spec fn melee_target(w: World, a: int) -> int {
    w.wants_to_melee@[a]->Some_0 as int
}

/// The target can be fought: live, with stats and a name.
pub open spec fn melee_target_ok(w: World, a: int) -> bool {
    &&& w.live(melee_target(w, a))
    &&& w.combat_stats@[melee_target(w, a)] is Some
    &&& w.name@[melee_target(w, a)] is Some
}

/// The attack is carried out (and narrated): the intent is processed and
/// attacker and target both stand with positive hit points.
pub open spec fn melee_strikes(w: World, a: int) -> bool {
    &&& melee_processed(w, a)
    &&& w.combat_stats@[a]->Some_0.hp > 0
    &&& melee_target_ok(w, a)
    &&& w.combat_stats@[melee_target(w, a)]->Some_0.hp > 0
}

/// Damage dealt by one attack: power less defense, never negative.
pub open spec fn melee_damage(w: World, a: int) -> int {
    let p = w.combat_stats@[a]->Some_0.power as int;
    let d = w.combat_stats@[melee_target(w, a)]->Some_0.defense as int;
    if p - d > 0 {
        p - d
    } else {
        0
    }
}

/// Total damage actors with id below `n` land on `t` this pass.
pub open spec fn incoming_melee_upto(w: World, t: int, n: int) -> int
    decreases n,
{
    if n <= 0 {
        0
    } else {
        incoming_melee_upto(w, t, n - 1) + if melee_strikes(w, n - 1) && melee_target(w, n - 1)
            == t {
            melee_damage(w, n - 1)
        } else {
            0
        }
    }
}

/// Total damage landed on `t` this pass.
pub open spec fn incoming_melee(w: World, t: int) -> int {
    incoming_melee_upto(w, t, w.n())
}

/// Partial incoming-damage sums are non-negative and grow with the
/// prefix.
pub proof fn lemma_incoming_melee_mono(w: World, t: int, k: int, n: int)
    requires
        0 <= k <= n,
    ensures
        0 <= incoming_melee_upto(w, t, k) <= incoming_melee_upto(w, t, n),
    decreases n,
{
    if n > 0 {
        if k == n {
            lemma_incoming_melee_mono(w, t, k - 1, n - 1);
        } else {
            lemma_incoming_melee_mono(w, t, k, n - 1);
        }
    }
}

/// The damage already accumulated on `t`, zero when none.
pub open spec fn suffers_base(w: World, t: int) -> int {
    match w.suffers_damage@[t] {
        Some(b) => b as int,
        None => 0,
    }
}

/// The accumulated-damage facet of `t` after the pass: grown by the
/// incoming melee damage, untouched when none lands.
pub open spec fn melee_suffers_after(w: World, t: int) -> Option<i32> {
    if incoming_melee(w, t) > 0 {
        Some((suffers_base(w, t) + incoming_melee(w, t)) as i32)
    } else {
        w.suffers_damage@[t]
    }
}

/// What the attack narrates: a hit with the damage figure, or the
/// distinct zero-damage outcome.
pub open spec fn melee_message(w: World, a: int) -> Seq<char> {
    let an = w.name@[a]->Some_0@;
    let tn = w.name@[melee_target(w, a)]->Some_0@;
    if melee_damage(w, a) == 0 {
        an + " is unable to hurt "@ + tn + "."@
    } else {
        an + " hits "@ + tn + " for "@ + dec_str(melee_damage(w, a)) + " hp."@
    }
}

/// The log after the attacks of actors below `n`, reported in id order.
pub open spec fn melee_log_upto(w: World, v: Seq<(Seq<char>, int)>, n: int) -> Seq<
    (Seq<char>, int),
>
    decreases n,
{
    if n <= 0 {
        v
    } else {
        let prev = melee_log_upto(w, v, n - 1);
        if melee_strikes(w, n - 1) {
            log_add(prev, melee_message(w, n - 1))
        } else {
            prev
        }
    }
}

/// Builds the hit narration.
fn melee_hit_message(attacker: &String, target: &String, damage: u64) -> (r: String)
    ensures
        r@ == attacker@ + " hits "@ + target@ + " for "@ + dec_str(damage as int) + " hp."@,
{
    proof {
        reveal_strlit(" hits ");
        reveal_strlit(" for ");
        reveal_strlit(" hp.");
    }
    let mut r = attacker.clone();
    r.append(" hits ");
    r.append(target.as_str());
    r.append(" for ");
    let d = u64_to_string(damage);
    r.append(d.as_str());
    r.append(" hp.");
    proof {
        assert(r@ =~= attacker@ + " hits "@ + target@ + " for "@ + dec_str(damage as int)
            + " hp."@);
    }
    r
}

/// Builds the zero-damage narration.
fn melee_miss_message(attacker: &String, target: &String) -> (r: String)
    ensures
        r@ == attacker@ + " is unable to hurt "@ + target@ + "."@,
{
    proof {
        reveal_strlit(" is unable to hurt ");
        reveal_strlit(".");
    }
    let mut r = attacker.clone();
    r.append(" is unable to hurt ");
    r.append(target.as_str());
    r.append(".");
    proof {
        assert(r@ =~= attacker@ + " is unable to hurt "@ + target@ + "."@);
    }
    r
}

/// Resolves every melee intent in actor-id order, then drains the
/// intent storage.  Each processed attacker is charged its melee cost
/// whatever the outcome; an attack between two standing combatants is
/// narrated, and positive damage accumulates on the defender.
#[verifier::rlimit(100)]
pub fn melee_run(w: &mut World, log: &mut GameLog)
    requires
        old(w).wf(),
        forall|a: int|
            melee_processed(*old(w), a) ==> old(w).takes_turn@[a]->Some_0.time_score + old(
                w,
            ).can_melee@[a]->Some_0.time_cost <= u32::MAX,
        forall|t: int|
            0 <= t < old(w).n() ==> suffers_base(*old(w), t) + incoming_melee(*old(w), t)
                <= i32::MAX,
    ensures
        final(w).wf(),
        final(w).n() == old(w).n(),
        forall|a: int| #![trigger final(w).takes_turn@[a]]
            0 <= a < old(w).n() ==> final(w).takes_turn@[a] == if melee_processed(*old(w), a) {
                Some(
                    TakesTurn {
                        time_score: (old(w).takes_turn@[a]->Some_0.time_score + old(
                            w,
                        ).can_melee@[a]->Some_0.time_cost) as u32,
                    },
                )
            } else {
                old(w).takes_turn@[a]
            },
        forall|t: int| #![trigger final(w).suffers_damage@[t]]
            0 <= t < old(w).n() ==> final(w).suffers_damage@[t] == melee_suffers_after(
                *old(w),
                t,
            ),
        forall|a: int| #![trigger final(w).wants_to_melee@[a]]
            0 <= a < old(w).n() ==> final(w).wants_to_melee@[a] is None,
        log_view(*final(log)) == melee_log_upto(*old(w), log_view(*old(log)), old(w).n()),
        *final(w) == (World {
            takes_turn: final(w).takes_turn,
            suffers_damage: final(w).suffers_damage,
            wants_to_melee: final(w).wants_to_melee,
            ..*old(w)
        }),
{
    let ghost w0 = *old(w);
    let n = w.alive.len();
    let mut a: usize = 0;
    while a < n
        invariant
            w.wf(),
            w0.wf(),
            n == w.n(),
            n == w0.n(),
            a <= n,
            w.alive@ == w0.alive@,
            w.name@ == w0.name@,
            w.combat_stats@ == w0.combat_stats@,
            w.can_melee@ == w0.can_melee@,
            w.wants_to_melee@ == w0.wants_to_melee@,
            forall|i: int| #![trigger w.takes_turn@[i]]
                0 <= i < n ==> w.takes_turn@[i] == if melee_processed(w0, i) && i < a {
                    Some(
                        TakesTurn {
                            time_score: (w0.takes_turn@[i]->Some_0.time_score + w0.can_melee@[i]->Some_0.time_cost) as u32,
                        },
                    )
                } else {
                    w0.takes_turn@[i]
                },
            forall|i: int|
                melee_processed(w0, i) ==> w0.takes_turn@[i]->Some_0.time_score + w0.can_melee@[i]->Some_0.time_cost <= u32::MAX,
            forall|t: int|
                0 <= t < n ==> suffers_base(w0, t) + incoming_melee(w0, t) <= i32::MAX,
            forall|t: int| #![trigger w.suffers_damage@[t]]
                0 <= t < n ==> w.suffers_damage@[t] == if incoming_melee_upto(w0, t, a as int)
                    > 0 {
                    Some((suffers_base(w0, t) + incoming_melee_upto(w0, t, a as int)) as i32)
                } else {
                    w0.suffers_damage@[t]
                },
            log_view(*log) == melee_log_upto(w0, log_view(*old(log)), a as int),
            *w == (World {
                takes_turn: w.takes_turn,
                suffers_damage: w.suffers_damage,
                ..w0
            }),
        decreases n - a,
    {
        let processed: bool = w.alive[a] && w.wants_to_melee[a].is_some() && w.name[a].is_some()
            && w.combat_stats[a].is_some() && w.takes_turn[a].is_some()
            && w.can_melee[a].is_some();
        proof {
            assert(processed == melee_processed(w0, a as int));
        }
        if processed {
            let cost = w.can_melee[a].unwrap().time_cost;
            let tt = w.takes_turn[a].unwrap();
            proof {
                assert(w.takes_turn@[a as int] == w0.takes_turn@[a as int]);
                assert(w.can_melee@[a as int] == w0.can_melee@[a as int]);
            }
            w.takes_turn[a] = Some(TakesTurn { time_score: tt.time_score + cost });
            proof {
                assert(w.takes_turn@[a as int] == Some(
                    TakesTurn {
                        time_score: (w0.takes_turn@[a as int]->Some_0.time_score
                            + w0.can_melee@[a as int]->Some_0.time_cost) as u32,
                    },
                ));
            }
            let stats_a = w.combat_stats[a].unwrap();
            if stats_a.hp > 0 {
                let t = w.wants_to_melee[a].unwrap();
                let target_ok: bool = t < n && w.alive[t] && w.combat_stats[t].is_some()
                    && w.name[t].is_some();
                proof {
                    assert(target_ok == melee_target_ok(w0, a as int));
                }
                if target_ok {
                    let stats_t = w.combat_stats[t].unwrap();
                    if stats_t.hp > 0 {
                        proof {
                            assert(melee_strikes(w0, a as int));
                        }
                        let p64 = stats_a.power as i64;
                        let d64 = stats_t.defense as i64;
                        let dmg64: i64 = if p64 - d64 > 0 {
                            p64 - d64
                        } else {
                            0
                        };
                        proof {
                            assert(dmg64 == melee_damage(w0, a as int));
                            assert(incoming_melee_upto(w0, t as int, a + 1) == incoming_melee_upto(
                                w0,
                                t as int,
                                a as int,
                            ) + melee_damage(w0, a as int));
                            lemma_incoming_melee_mono(w0, t as int, a + 1, n as int);
                        }
                        let name_a = w.name[a].as_ref().unwrap().clone();
                        let name_t = w.name[t].as_ref().unwrap().clone();
                        if dmg64 > 0 {
                            let base: i32 = match w.suffers_damage[t] {
                                Some(b) => b,
                                None => 0,
                            };
                            proof {
                                lemma_incoming_melee_mono(w0, t as int, 0, a as int);
                                assert(base == suffers_base(w0, t as int) + incoming_melee_upto(
                                    w0,
                                    t as int,
                                    a as int,
                                ));
                                assert(base + dmg64 == suffers_base(w0, t as int)
                                    + incoming_melee_upto(w0, t as int, a + 1));
                                assert(suffers_base(w0, t as int) + incoming_melee(w0, t as int)
                                    <= i32::MAX);
                                assert(base + dmg64 <= i32::MAX);
                                assert(base + dmg64 >= i32::MIN);
                            }
                            let new64: i64 = base as i64 + dmg64;
                            w.suffers_damage[t] = Some(new64 as i32);
                            let msg = melee_hit_message(&name_a, &name_t, dmg64 as u64);
                            proof {
                                assert(msg@ == melee_message(w0, a as int));
                            }
                            log.add(msg);
                        } else {
                            let msg = melee_miss_message(&name_a, &name_t);
                            proof {
                                assert(msg@ == melee_message(w0, a as int));
                            }
                            log.add(msg);
                        }
                        proof {
                            assert(log_view(*log) == melee_log_upto(
                                w0,
                                log_view(*old(log)),
                                a + 1,
                            ));
                            assert forall|tt2: int| 0 <= tt2 < n implies w.suffers_damage@[tt2]
                                == if incoming_melee_upto(w0, tt2, a + 1) > 0 {
                                Some(
                                    (suffers_base(w0, tt2) + incoming_melee_upto(
                                        w0,
                                        tt2,
                                        a + 1,
                                    )) as i32,
                                )
                            } else {
                                w0.suffers_damage@[tt2]
                            } by {
                                assert(incoming_melee_upto(w0, tt2, a + 1)
                                    == incoming_melee_upto(w0, tt2, a as int) + if melee_strikes(
                                    w0,
                                    a as int,
                                ) && melee_target(w0, a as int) == tt2 {
                                    melee_damage(w0, a as int)
                                } else {
                                    0
                                });
                                lemma_incoming_melee_mono(w0, tt2, 0, a as int);
                            }
                        }
                    } else {
                        proof {
                            assert(!melee_strikes(w0, a as int));
                        }
                    }
                }
            }
        }
        proof {
            assert forall|t2: int| 0 <= t2 < n implies incoming_melee_upto(w0, t2, a + 1)
                == incoming_melee_upto(w0, t2, a as int) + if melee_strikes(w0, a as int)
                && melee_target(w0, a as int) == t2 {
                melee_damage(w0, a as int)
            } else {
                0
            } by {}
            if !melee_strikes(w0, a as int) {
                assert(melee_log_upto(w0, log_view(*old(log)), a + 1) == melee_log_upto(
                    w0,
                    log_view(*old(log)),
                    a as int,
                ));
            }
        }
        a = a + 1;
    }
    // Drain the intent storage unconditionally.
    let mut i: usize = 0;
    while i < n
        invariant
            w.wf(),
            w0.wf(),
            n == w.n(),
            n == w0.n(),
            i <= n,
            forall|k: int| #![trigger w.wants_to_melee@[k]]
                0 <= k < i ==> w.wants_to_melee@[k] is None,
            forall|k: int| #![trigger w.wants_to_melee@[k]]
                i <= k < n ==> w.wants_to_melee@[k] == w0.wants_to_melee@[k],
            forall|k: int| #![trigger w.takes_turn@[k]]
                0 <= k < n ==> w.takes_turn@[k] == if melee_processed(w0, k) {
                    Some(
                        TakesTurn {
                            time_score: (w0.takes_turn@[k]->Some_0.time_score + w0.can_melee@[k]->Some_0.time_cost) as u32,
                        },
                    )
                } else {
                    w0.takes_turn@[k]
                },
            forall|t: int| #![trigger w.suffers_damage@[t]]
                0 <= t < n ==> w.suffers_damage@[t] == melee_suffers_after(w0, t),
            log_view(*log) == melee_log_upto(w0, log_view(*old(log)), n as int),
            *w == (World {
                takes_turn: w.takes_turn,
                suffers_damage: w.suffers_damage,
                wants_to_melee: w.wants_to_melee,
                ..w0
            }),
        decreases n - i,
    {
        w.wants_to_melee[i] = None;
        i = i + 1;
    }
}

} // verus!
