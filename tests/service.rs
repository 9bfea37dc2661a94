use dqwm_core::{
    ArmySnapshot, BattleEvent, DoubleBuffer, EventHistory, Faction, GameCommand, GameService, Res,
    ResType, TickOutcome,
};

#[test]
fn new_service_is_stopped_and_empty() {
    let s = GameService::new(1);
    assert!(!s.running);
    assert!(!s.battle_running);
    assert!(s.army.enemy_units.columns.is_empty());
    assert!(s.army.friendly_units.columns.is_empty());
    assert_eq!(s.ids.next, 1);
}

#[test]
fn start_and_stop() {
    let mut s = GameService::new(1);
    s.start();
    assert!(s.running);
    s.stop();
    assert!(!s.running);
}

#[test]
fn army_command_regenerates_both_sides() {
    let mut s = GameService::new(1);
    assert!(s.handle(GameCommand::Army(4, 2), 0));
    assert_eq!(s.army.enemy_units.columns.len(), 2);
    assert_eq!(s.army.friendly_units.columns.len(), 1);
    let enemy_ids: Vec<Vec<u64>> =
        s.army.enemy_units.columns.iter().map(|c| c.iter().map(|u| u.id).collect()).collect();
    assert_eq!(enemy_ids, vec![vec![1, 3], vec![2, 4]]);
    let friendly_ids: Vec<u64> = s.army.friendly_units.columns[0].iter().map(|u| u.id).collect();
    assert_eq!(friendly_ids, vec![5, 6]);
    s.army_message(0, 1, 0);
    assert!(s.army.enemy_units.columns.is_empty());
    assert_eq!(s.army.friendly_units.columns[0][0].id, 7);
    assert!(!s.battle_running);
}

#[test]
fn start_battle_twice_is_refused() {
    let mut s = GameService::new(1);
    assert!(s.handle(GameCommand::StartBattle, 0));
    assert!(s.battle_running);
    assert!(!s.handle(GameCommand::StartBattle, 0));
    assert!(s.battle_running);
    assert!(s.handle(GameCommand::StopBattle, 0));
    assert!(!s.battle_running);
    assert!(s.start_battle());
}

#[test]
fn stop_service_command() {
    let mut s = GameService::new(1);
    s.start();
    assert!(s.handle(GameCommand::StopService, 0));
    assert!(!s.running);
}

#[test]
fn run_battle_does_nothing_when_idle() {
    let mut s = GameService::new(1);
    s.army_message(3, 3, 0);
    assert!(s.run_battle(0).is_none());
    let hp: Vec<u128> = s.army.enemy_units.columns[0].iter().map(|u| u.hp).collect();
    assert_eq!(hp, vec![1, 2, 3]);
}

#[test]
fn run_battle_ticks_until_a_winner() {
    let mut s = GameService::new(5);
    s.army_message(0, 3, 0);
    s.start_battle();
    let report = s.run_battle(0).unwrap();
    assert_eq!(report.outcome, TickOutcome::Victory(Faction::Ally));
    assert!(!s.battle_running);

    let mut s = GameService::new(5);
    s.army_message(10, 10, 0);
    s.start_battle();
    let mut now = 0;
    let mut last = TickOutcome::Continue;
    while s.battle_running {
        last = s.run_battle(now).unwrap().outcome;
        now += 20;
    }
    assert_ne!(last, TickOutcome::Continue);
}

#[test]
fn snapshot_only_while_running_with_both_sides() {
    let mut s = GameService::new(1);
    s.army_message(30, 2, 0);
    assert!(s.snapshot(10).is_none());
    s.start();
    let snap = s.snapshot(3).unwrap();
    assert_eq!(snap.enemys.len(), 4);
    assert!(snap.enemys.iter().all(|c| c.len() == 3));
    assert_eq!(snap.allys.len(), 1);
    assert_eq!(snap.allys[0].len(), 2);
    assert_eq!(snap.enemys_num, 30);
    assert_eq!(snap.allys_num, 2);
    s.army_message(0, 2, 0);
    assert!(s.snapshot(10).is_none());
}

#[test]
fn snapshot_keeps_pre_tick_state() {
    let mut s = GameService::new(9);
    s.army_message(1, 1, 0);
    s.start();
    let before = s.snapshot(10).unwrap();
    s.start_battle();
    s.run_battle(0).unwrap();
    assert_eq!(before.enemys[0][0].hp, 1);
    assert_eq!(before.allys[0][0].hp, 1);
    assert_eq!(before.enemys_num, 1);
    assert_eq!(s.army.enemy_units.columns[0].len() + s.army.friendly_units.columns[0].len(), 1);
}

#[test]
fn reader_keeps_its_snapshot_across_publishing() {
    let mut s = GameService::new(9);
    s.army_message(2, 2, 0);
    s.start();
    let mut buf = DoubleBuffer::new(s.snapshot(10).unwrap());
    let held = buf.read();
    s.start_battle();
    s.run_battle(0).unwrap();
    buf.write(s.snapshot(10).unwrap());
    let still = buf.read();
    assert_eq!(still.enemys_num, held.enemys_num);
    buf.swap();
    let fresh = buf.read();
    assert_eq!(held.enemys[0][0].hp, 1);
    assert_eq!(held.allys[0][0].hp, 1);
    assert_eq!(held.enemys_num, 2);
    assert_eq!(held.allys_num, 2);
    assert!(fresh.enemys_num + fresh.allys_num < 4);
}

#[test]
fn empty_snapshot_has_nothing() {
    let e = ArmySnapshot::empty();
    assert!(e.enemys.is_empty() && e.allys.is_empty());
    assert_eq!((e.enemys_num, e.allys_num), (0, 0));
    let d = e.duplicate();
    assert_eq!((d.enemys_num, d.allys_num), (0, 0));
}

#[test]
fn history_drops_oldest_beyond_cap() {
    let mut h = EventHistory::new(3);
    for i in 0..5u64 {
        h.record(BattleEvent::atk(i, i * 10));
    }
    let kept: Vec<BattleEvent> = h.events.iter().copied().collect();
    assert_eq!(kept, vec![BattleEvent::atk(2, 20), BattleEvent::atk(3, 30), BattleEvent::atk(4, 40)]);
    h.record_all(&vec![BattleEvent::def(9, 4, 50), BattleEvent::atk(8, 60)]);
    let kept: Vec<BattleEvent> = h.events.iter().copied().collect();
    assert_eq!(kept, vec![BattleEvent::atk(4, 40), BattleEvent::def(9, 4, 50), BattleEvent::atk(8, 60)]);
}

#[test]
fn history_keeps_all_below_cap() {
    let mut h = EventHistory::new(50);
    h.record_all(&vec![BattleEvent::atk(1, 0), BattleEvent::def(2, 3, 0)]);
    assert_eq!(h.events.len(), 2);
}

#[test]
fn event_constructors() {
    assert_eq!(BattleEvent::atk(3, 77), BattleEvent::Atk { id: 3, timestamp: 77 });
    assert_eq!(BattleEvent::def(3, 9, 77), BattleEvent::Def { id: 3, amount: 9, timestamp: 77 });
}

#[test]
fn resource_names() {
    assert_eq!(ResType::Food.to(), "食物");
    assert_eq!(ResType::Wood.to(), "木材");
    assert_eq!(ResType::Stone.to(), "石头");
    let r = Res::new("gold".to_string(), 5, 100, 1000, 2, 77);
    assert_eq!((r.num, r.max, r.change_interval, r.change_value, r.last_update), (5, 100, 1000, 2, 77));
    assert_eq!(r.name, "gold");
}
