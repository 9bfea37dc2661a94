use std::collections::VecDeque;

use dqwm_core::battle::{damage, ready_attackers};
use dqwm_core::{
    battle_run, determine_columns, Army, BattleEvent, Faction, Formation, IdAllocator,
    TickOutcome, Unit,
};
use rand::rngs::StdRng;
use rand::SeedableRng;

fn unit(id: u64, hp: u128, atk: u128, def: u128, speek: u64) -> Unit {
    Unit { id, name: "U", hp, max_hp: hp, atk, def, speek, next_attack_at: 0 }
}

fn fallen(id: u64) -> Unit {
    Unit { id, name: "U", hp: 0, max_hp: 10, atk: 1, def: 0, speek: 100, next_attack_at: 0 }
}

fn formation(cols: Vec<Vec<Unit>>) -> Formation {
    Formation::new(cols.into_iter().map(VecDeque::from).collect())
}

fn hps(f: &Formation) -> Vec<Vec<u128>> {
    f.columns.iter().map(|c| c.iter().map(|u| u.hp).collect()).collect()
}

fn ids(f: &Formation) -> Vec<Vec<u64>> {
    f.columns.iter().map(|c| c.iter().map(|u| u.id).collect()).collect()
}

#[test]
fn column_bands() {
    assert_eq!(determine_columns(0), 6);
    assert_eq!(determine_columns(1), 1);
    assert_eq!(determine_columns(3), 1);
    assert_eq!(determine_columns(4), 2);
    assert_eq!(determine_columns(9), 2);
    assert_eq!(determine_columns(10), 3);
    assert_eq!(determine_columns(29), 3);
    assert_eq!(determine_columns(30), 4);
    assert_eq!(determine_columns(59), 4);
    assert_eq!(determine_columns(60), 5);
    assert_eq!(determine_columns(119), 5);
    assert_eq!(determine_columns(120), 6);
    assert_eq!(determine_columns(10_000), 6);
}

#[test]
fn new_unit_takes_next_id_at_full_health() {
    let mut alloc = IdAllocator::new(7);
    let a = Unit::new(&mut alloc, "Knight", 120, 30, 5, 250, 1_000);
    let b = Unit::new(&mut alloc, "Archer", 80, 40, 2, 300, 1_000);
    assert_eq!(a.id, 7);
    assert_eq!(b.id, 8);
    assert_eq!(alloc.next, 9);
    assert_eq!(a.name, "Knight");
    assert_eq!((a.hp, a.max_hp, a.atk, a.def, a.speek, a.next_attack_at), (120, 120, 30, 5, 250, 1_000));
}

#[test]
fn recruiting_nobody_gives_no_columns() {
    let mut alloc = IdAllocator::new(1);
    let cols = Unit::test(&mut alloc, 0, 0);
    assert!(cols.is_empty());
    assert_eq!(alloc.next, 1);
}

#[test]
fn recruits_are_laid_out_round_robin() {
    let mut alloc = IdAllocator::new(100);
    let cols = Unit::test(&mut alloc, 5, 42);
    assert_eq!(alloc.next, 105);
    assert_eq!(cols.len(), 2);
    let col0: Vec<u64> = cols[0].iter().map(|u| u.id).collect();
    let col1: Vec<u64> = cols[1].iter().map(|u| u.id).collect();
    assert_eq!(col0, vec![100, 102, 104]);
    assert_eq!(col1, vec![101, 103]);
    let hp0: Vec<u128> = cols[0].iter().map(|u| u.hp).collect();
    assert_eq!(hp0, vec![1, 3, 5]);
    let atk0: Vec<u128> = cols[0].iter().map(|u| u.atk).collect();
    assert_eq!(atk0, vec![11, 13, 15]);
    let speek1: Vec<u64> = cols[1].iter().map(|u| u.speek).collect();
    assert_eq!(speek1, vec![104, 108]);
    for c in &cols {
        for u in c {
            assert_eq!(u.name, "Unit");
            assert_eq!(u.def, 1);
            assert_eq!(u.max_hp, u.hp);
            assert_eq!(u.next_attack_at, 42);
        }
    }
}

#[test]
fn recruit_stats_wrap_around() {
    let mut alloc = IdAllocator::new(1);
    let cols = Unit::test(&mut alloc, 120, 0);
    assert_eq!(cols.len(), 6);
    let total: usize = cols.iter().map(|c| c.len()).sum();
    assert_eq!(total, 120);
    // recruit 99 (counted from 0) is unit number 100: column 99 % 6 == 3, rank 16
    let u = cols[3][16];
    assert_eq!(u.id, 100);
    assert_eq!(u.hp, 100);
    assert_eq!(u.atk, 10);
    assert_eq!(u.speek, 100);
}

#[test]
fn damage_is_at_least_one() {
    assert_eq!(damage(1, 100), 1);
    assert_eq!(damage(10, 10), 1);
    assert_eq!(damage(10, 9), 1);
    assert_eq!(damage(12, 1), 11);
    assert_eq!(damage(50, 0), 50);
    assert_eq!(damage(u128::MAX, 0), u128::MAX);
}

#[test]
fn alive_and_front_ranks() {
    let empty = formation(vec![]);
    assert!(!empty.alive());
    assert!(!empty.front_ranks_alive());
    let all_fallen = formation(vec![vec![fallen(1), fallen(2)], vec![fallen(3)]]);
    assert!(!all_fallen.alive());
    assert!(!all_fallen.front_ranks_alive());
    let deep = formation(vec![vec![fallen(1), fallen(2), fallen(3), unit(4, 5, 1, 0, 100)]]);
    assert!(deep.alive());
    assert!(!deep.front_ranks_alive());
    let third = formation(vec![vec![fallen(1), fallen(2), unit(3, 5, 1, 0, 100)]]);
    assert!(third.front_ranks_alive());
}

#[test]
fn live_columns_are_those_led_by_a_live_unit() {
    let f = formation(vec![
        vec![unit(1, 5, 1, 0, 100)],
        vec![],
        vec![fallen(2), unit(3, 5, 1, 0, 100)],
        vec![unit(4, 1, 1, 0, 100)],
    ]);
    assert_eq!(f.live_column_indices(), vec![0, 3]);
}

#[test]
fn cleanup_pops_fallen_fronts() {
    let mut f = formation(vec![
        vec![fallen(1), fallen(2), unit(3, 5, 1, 0, 100), fallen(4)],
        vec![fallen(5)],
        vec![unit(6, 5, 1, 0, 100)],
        vec![],
    ]);
    f.cleanup();
    assert_eq!(ids(&f), vec![vec![3, 4], vec![], vec![6], vec![]]);
    for c in &f.columns {
        if let Some(front) = c.front() {
            assert!(front.hp > 0);
        }
    }
}

#[test]
fn rebalance_moves_back_of_longest_to_first_empty() {
    let mut f = formation(vec![
        vec![unit(1, 5, 1, 0, 100), unit(2, 5, 1, 0, 100), unit(3, 5, 1, 0, 100)],
        vec![],
        vec![unit(4, 5, 1, 0, 100)],
        vec![],
    ]);
    f.rebalance();
    assert_eq!(ids(&f), vec![vec![1, 2], vec![3], vec![4], vec![]]);
    f.rebalance();
    assert_eq!(ids(&f), vec![vec![1], vec![3], vec![4], vec![2]]);
    f.rebalance();
    assert_eq!(ids(&f), vec![vec![1], vec![3], vec![4], vec![2]]);
}

#[test]
fn rebalance_takes_the_last_of_equally_long_columns() {
    let mut f = formation(vec![
        vec![unit(1, 5, 1, 0, 100), unit(2, 5, 1, 0, 100)],
        vec![unit(3, 5, 1, 0, 100), unit(4, 5, 1, 0, 100)],
        vec![],
    ]);
    f.rebalance();
    assert_eq!(ids(&f), vec![vec![1, 2], vec![3], vec![4]]);
}

#[test]
fn rebalance_never_empties_a_column() {
    let mut f = formation(vec![vec![unit(1, 5, 1, 0, 100)], vec![], vec![unit(2, 5, 1, 0, 100)]]);
    f.rebalance();
    assert_eq!(ids(&f), vec![vec![1], vec![], vec![2]]);
    let mut single = formation(vec![vec![]]);
    single.rebalance();
    assert_eq!(ids(&single), vec![Vec::<u64>::new()]);
}

#[test]
fn ready_attackers_are_front_ranks_off_cooldown() {
    let mut late = unit(3, 5, 1, 0, 100);
    late.next_attack_at = 500;
    let f = formation(vec![
        vec![unit(1, 5, 1, 0, 100), fallen(2), late, unit(4, 5, 1, 0, 100)],
        vec![unit(5, 5, 1, 0, 100)],
    ]);
    assert_eq!(ready_attackers(&f, 100), vec![(0, 0), (1, 0)]);
    assert_eq!(ready_attackers(&f, 500), vec![(0, 0), (0, 2), (1, 0)]);
}

#[test]
fn duel_strong_side_wins_in_two_attacks() {
    let mut army = Army::new(
        formation(vec![vec![unit(2, 100, 1, 0, 100)]]),
        formation(vec![vec![unit(1, 100, 50, 0, 100)]]),
    );
    let mut rng = StdRng::seed_from_u64(1);
    let first = battle_run(&mut army, 0, &mut rng);
    assert_eq!(first.outcome, TickOutcome::Continue);
    assert_eq!(hps(&army.enemy_units), vec![vec![50]]);
    assert_eq!(hps(&army.friendly_units), vec![vec![99]]);
    assert_eq!(
        first.events,
        vec![
            BattleEvent::atk(1, 0),
            BattleEvent::def(2, 50, 0),
            BattleEvent::atk(2, 0),
            BattleEvent::def(1, 1, 0),
        ]
    );
    assert_eq!(army.friendly_units.columns[0][0].next_attack_at, 100);
    // cooling down: nothing happens
    let idle = battle_run(&mut army, 50, &mut rng);
    assert_eq!(idle.outcome, TickOutcome::Continue);
    assert!(idle.events.is_empty());
    assert_eq!(hps(&army.enemy_units), vec![vec![50]]);
    let second = battle_run(&mut army, 100, &mut rng);
    assert_eq!(second.outcome, TickOutcome::Continue);
    // the enemy fell before its turn and was cleaned away
    assert_eq!(hps(&army.enemy_units), vec![Vec::<u128>::new()]);
    assert_eq!(hps(&army.friendly_units), vec![vec![99]]);
    let third = battle_run(&mut army, 200, &mut rng);
    assert_eq!(third.outcome, TickOutcome::Victory(Faction::Ally));
    assert!(third.events.is_empty());
}

#[test]
fn empty_side_loses_at_once() {
    let mut army = Army::new(formation(vec![]), formation(vec![vec![unit(1, 10, 5, 0, 100)]]));
    let mut rng = StdRng::seed_from_u64(3);
    let report = battle_run(&mut army, 0, &mut rng);
    assert_eq!(report.outcome, TickOutcome::Victory(Faction::Ally));
    assert!(report.events.is_empty());
    assert_eq!(army.friendly_units.columns[0][0].next_attack_at, 0);

    let mut other = Army::new(formation(vec![vec![unit(1, 10, 5, 0, 100)]]), formation(vec![]));
    let report = battle_run(&mut other, 0, &mut rng);
    assert_eq!(report.outcome, TickOutcome::Victory(Faction::Enemy));
    assert!(report.events.is_empty());
    assert_eq!(hps(&other.enemy_units), vec![vec![10]]);
}

#[test]
fn both_sides_wiped_reports_allied_victory() {
    let mut army = Army::new(formation(vec![vec![fallen(1)]]), formation(vec![vec![fallen(2)]]));
    let mut rng = StdRng::seed_from_u64(3);
    assert_eq!(battle_run(&mut army, 0, &mut rng).outcome, TickOutcome::Victory(Faction::Ally));
}

#[test]
fn fallen_front_is_not_attacked_again() {
    let mut army = Army::new(
        formation(vec![vec![unit(10, 5, 1, 0, 100), unit(11, 5, 1, 0, 100)]]),
        formation(vec![vec![unit(1, 100, 50, 0, 100)], vec![unit(2, 100, 50, 0, 100)]]),
    );
    let plan = army.plan(0);
    assert_eq!(plan.friendly, vec![(0, 0), (1, 0)]);
    assert_eq!(plan.enemy_targets, vec![0]);
    let events = army.resolve(&plan, &vec![0, 0], &vec![0, 0], 0);
    // the first attack fells unit 10; the second finds a fallen front and is skipped
    assert_eq!(events, vec![BattleEvent::atk(1, 0), BattleEvent::def(10, 50, 0), BattleEvent::atk(11, 0), BattleEvent::def(1, 1, 0)]);
    assert_eq!(army.friendly_units.columns[0][0].next_attack_at, 100);
    assert_eq!(army.friendly_units.columns[1][0].next_attack_at, 0);
    assert_eq!(hps(&army.enemy_units), vec![vec![5]]);
    assert_eq!(hps(&army.friendly_units), vec![vec![99], vec![100]]);
}

#[test]
fn picks_outside_the_targets_attack_nobody() {
    let mut army = Army::new(
        formation(vec![vec![unit(10, 5, 1, 0, 100)]]),
        formation(vec![vec![unit(1, 100, 50, 0, 100)]]),
    );
    let plan = army.plan(0);
    let events = army.resolve(&plan, &vec![3], &vec![0], 0);
    assert_eq!(events, vec![BattleEvent::atk(10, 0), BattleEvent::def(1, 1, 0)]);
    assert_eq!(hps(&army.enemy_units), vec![vec![5]]);
}

#[test]
fn targets_are_always_live_columns() {
    for seed in 0..20u64 {
        let mut rng = StdRng::seed_from_u64(seed);
        let mut army = Army::new(
            formation(vec![
                vec![unit(1, 1000, 1, 0, 100)],
                vec![],
                vec![fallen(2), unit(3, 1000, 1, 0, 100)],
                vec![unit(4, 1000, 1, 0, 100)],
            ]),
            formation(vec![vec![unit(9, 1000, 7, 0, 100)]]),
        );
        let report = battle_run(&mut army, 0, &mut rng);
        assert_eq!(report.outcome, TickOutcome::Continue);
        let hit: Vec<u64> = report
            .events
            .iter()
            .filter_map(|e| match e {
                BattleEvent::Def { id, .. } if *id != 9 => Some(*id),
                _ => None,
            })
            .collect();
        assert_eq!(hit.len(), 1);
        assert!(hit[0] == 1 || hit[0] == 4);
    }
}

#[test]
fn hp_stays_within_max_over_a_battle() {
    let mut alloc = IdAllocator::new(1);
    let mut army = Army::new(
        Formation::new(Unit::test(&mut alloc, 40, 0)),
        Formation::new(Unit::test(&mut alloc, 35, 0)),
    );
    let mut rng = StdRng::seed_from_u64(11);
    let mut now = 0u64;
    let mut outcome = TickOutcome::Continue;
    let mut ticks = 0;
    while outcome == TickOutcome::Continue && ticks < 100_000 {
        outcome = battle_run(&mut army, now, &mut rng).outcome;
        for f in [&army.enemy_units, &army.friendly_units] {
            for c in &f.columns {
                for u in c {
                    assert!(u.hp <= u.max_hp);
                }
            }
        }
        now += 10;
        ticks += 1;
    }
    assert_ne!(outcome, TickOutcome::Continue);
}

fn play(seed: u64) -> (TickOutcome, Vec<Vec<u128>>, Vec<Vec<u128>>) {
    let mut alloc = IdAllocator::new(1);
    let mut army = Army::new(
        Formation::new(Unit::test(&mut alloc, 25, 0)),
        Formation::new(Unit::test(&mut alloc, 25, 0)),
    );
    let mut rng = StdRng::seed_from_u64(seed);
    let mut now = 0u64;
    loop {
        let outcome = battle_run(&mut army, now, &mut rng).outcome;
        if outcome != TickOutcome::Continue {
            return (outcome, hps(&army.enemy_units), hps(&army.friendly_units));
        }
        now += 25;
    }
}

#[test]
fn same_seed_same_battle() {
    assert_eq!(play(42), play(42));
    assert_eq!(play(7), play(7));
}

#[test]
fn front_of_each_column() {
    let f = formation(vec![vec![unit(1, 5, 1, 0, 100), unit(2, 5, 1, 0, 100)], vec![]]);
    assert_eq!(f.front(0).map(|u| u.id), Some(1));
    assert!(f.front(1).is_none());
    assert!(f.front(2).is_none());
}
