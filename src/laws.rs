//! Properties of the combat rules that hold for all inputs.
use vstd::prelude::*;

use crate::battle::{
    damage_of, lemma_resolved_within_max, outcome_of, sat_sub, strike, tick_of, Faction,
    TickOutcome,
};
use crate::formation::{any_alive, column_live, front_ranks_alive, hp_within_max};
use crate::unit::Unit;

verus! {

/// Every unit of the side has no hp left.
pub open spec fn all_fallen(f: Seq<Seq<Unit>>) -> bool {
    forall|c: int, r: int| 0 <= c < f.len() && 0 <= r < f[c].len() ==> (#[trigger] f[c][r]).hp == 0
}

/// A tick never leaves a unit with more hp than its maximum (and hp, being
/// unsigned, never drops below zero).
pub proof fn lemma_tick_keeps_hp_within_max(
    enemy: Seq<Seq<Unit>>,
    friendly: Seq<Seq<Unit>>,
    fp: Seq<usize>,
    ep: Seq<usize>,
    now: u64,
)
    requires
        hp_within_max(enemy),
        hp_within_max(friendly),
    ensures
        hp_within_max(tick_of(enemy, friendly, fp, ep, now).0),
        hp_within_max(tick_of(enemy, friendly, fp, ep, now).1),
{
    lemma_resolved_within_max(
        enemy,
        friendly,
        crate::battle::ready_slots(friendly, now),
        crate::battle::ready_slots(enemy, now),
        crate::formation::live_columns(enemy, enemy.len() as int),
        crate::formation::live_columns(friendly, friendly.len() as int),
        fp,
        ep,
        now,
    );
}

/// Damage is at least 1 whatever the attack and defense values.
pub proof fn lemma_damage_at_least_one(atk: u128, def: u128)
    ensures
        damage_of(atk, def) >= 1,
{
}

/// An attack that resolves against a live defender takes at least 1 hp
/// from it: the defender loses `damage_of` hp, stopping at 0.
pub proof fn lemma_attack_deals_damage(
    att: Seq<Seq<Unit>>,
    def: Seq<Seq<Unit>>,
    slot: (usize, usize),
    targets: Seq<usize>,
    pick: int,
    now: u64,
)
    requires
        0 <= pick < targets.len(),
        slot.0 < att.len(),
        slot.1 < att[slot.0 as int].len(),
        att[slot.0 as int][slot.1 as int].hp > 0,
        targets[pick] < def.len(),
        column_live(def[targets[pick] as int]),
    ensures
        ({
            let t = targets[pick] as int;
            let after = strike(att, def, slot, targets, pick, now).1[t][0];
            let before = def[t][0];
            &&& after.hp == sat_sub(
                before.hp,
                damage_of(att[slot.0 as int][slot.1 as int].atk, before.def),
            )
            &&& after.hp < before.hp
        }),
{
}

/// An attack aimed at a column whose front unit has no hp left does
/// nothing: no damage, no cooldown, no event.
pub proof fn lemma_fallen_front_not_attacked(
    att: Seq<Seq<Unit>>,
    def: Seq<Seq<Unit>>,
    slot: (usize, usize),
    targets: Seq<usize>,
    pick: int,
    now: u64,
)
    requires
        0 <= pick < targets.len(),
        targets[pick] < def.len(),
        def[targets[pick] as int].len() > 0,
        def[targets[pick] as int][0].hp == 0,
    ensures
        strike(att, def, slot, targets, pick, now) == (att, def, Seq::<crate::battle::BattleEvent>::empty()),
{
}

/// A side whose units all have no hp left is not alive, in any rank.
pub proof fn lemma_fallen_side_not_alive(f: Seq<Seq<Unit>>)
    requires
        all_fallen(f),
    ensures
        !any_alive(f),
        !front_ranks_alive(f),
{
}

/// The victory check treats both sides alike: a side whose units all have
/// no hp left loses (the enemy side is looked at first when both have).
pub proof fn lemma_victory_symmetric(enemy: Seq<Seq<Unit>>, friendly: Seq<Seq<Unit>>)
    ensures
        all_fallen(enemy) ==> outcome_of(enemy, friendly) == TickOutcome::Victory(Faction::Ally),
        all_fallen(friendly) && front_ranks_alive(enemy) ==> outcome_of(enemy, friendly)
            == TickOutcome::Victory(Faction::Enemy),
{
}

/// Replaying a tick on the same sides, at the same time, with the same
/// target choices gives the same outcome, sides and events.
pub proof fn lemma_replay_same_result(
    enemy: Seq<Seq<Unit>>,
    friendly: Seq<Seq<Unit>>,
    enemy2: Seq<Seq<Unit>>,
    friendly2: Seq<Seq<Unit>>,
    fp: Seq<usize>,
    ep: Seq<usize>,
    now: u64,
)
    requires
        enemy == enemy2,
        friendly == friendly2,
    ensures
        outcome_of(enemy, friendly) == outcome_of(enemy2, friendly2),
        tick_of(enemy, friendly, fp, ep, now) == tick_of(enemy2, friendly2, fp, ep, now),
{
}

} // verus!
