use rand::rngs::StdRng;
use rand::SeedableRng;
use vstd::prelude::*;

use crate::battle::{battle_run, ticked, Army, TickOutcome, TickReport};
use crate::formation::{hp_within_max, Formation};
use crate::snapshot::{snapshot_of, ArmySnapshot};
use crate::unit::{lemma_recruits_within_max, IdAllocator, Unit};

verus! {

/// Relies on rand's `SeedableRng::seed_from_u64`: a generator whose stream
/// of values is fixed by the seed.
#[verifier::external_body]
fn seeded_rng(seed: u64) -> StdRng {
    StdRng::seed_from_u64(seed)
}

/// Commands that drive the service.
#[derive(Clone, Copy, Debug, PartialEq, Eq, Structural)]
pub enum GameCommand {
    /// Regenerate both sides with this many enemy and friendly units.
    Army(usize, usize),
    /// Begin ticking the battle.
    StartBattle,
    /// Stop ticking, keeping both sides as they are.
    StopBattle,
    /// End the service loop.
    StopService,
}

/// The simulation service: owns both sides and decides, command by command
/// and tick by tick, what happens to them. Its loop, the clock and the
/// command queue belong to the caller.
#[derive(Debug)]
pub struct GameService {
    /// The service loop is active.
    pub running: bool,
    /// A battle is being ticked.
    pub battle_running: bool,
    pub army: Army,
    pub ids: IdAllocator,
    /// Source of target choices.
    pub rng: StdRng,
}

/// A side with no columns.
pub open spec fn no_columns(f: Seq<Seq<Unit>>) -> bool {
    f.len() == 0
}

/// `army` holds freshly recruited sides of `enemy_num` and `friendly_num`
/// units, ready at `now`, laid out as `Unit::test` does, the enemy ids
/// counted from `base` and the friendly ids after them.
pub open spec fn regenerated(army: Army, base: u64, enemy_num: usize, friendly_num: usize, now: u64) -> bool {
    &&& (enemy_num == 0) == no_columns(army.enemy_units@)
    &&& (friendly_num == 0) == no_columns(army.friendly_units@)
    &&& forall|c: int|
        0 <= c < army.enemy_units@.len() ==> crate::unit::is_round_robin_column(
            #[trigger] army.enemy_units@[c],
            c,
            army.enemy_units@.len() as int,
            enemy_num as int,
            base,
            now,
        )
    &&& forall|c: int|
        0 <= c < army.friendly_units@.len() ==> crate::unit::is_round_robin_column(
            #[trigger] army.friendly_units@[c],
            c,
            army.friendly_units@.len() as int,
            friendly_num as int,
            (base + enemy_num) as u64,
            now,
        )
}

impl GameService {
    /// Every unit of both sides has hp within its maximum.
    pub open spec fn wf(&self) -> bool {
        &&& hp_within_max(self.army.enemy_units@)
        &&& hp_within_max(self.army.friendly_units@)
    }

    /// A stopped service with two empty sides, unit ids counted from 1 and
    /// target choices drawn from a generator seeded with `seed`.
    pub fn new(seed: u64) -> (s: GameService)
        ensures
            s.wf(),
            !s.running,
            !s.battle_running,
            no_columns(s.army.enemy_units@),
            no_columns(s.army.friendly_units@),
            s.ids.next == 1,
    {
        let s = GameService {
            running: false,
            battle_running: false,
            army: Army::new(Formation::new(Vec::new()), Formation::new(Vec::new())),
            ids: IdAllocator::new(1),
            rng: seeded_rng(seed),
        };
        assert(s.army.enemy_units@ =~= Seq::<Seq<Unit>>::empty());
        assert(s.army.friendly_units@ =~= Seq::<Seq<Unit>>::empty());
        s
    }

    /// Marks the service loop as active.
    pub fn start(&mut self)
        ensures
            final(self).running,
            final(self).battle_running == old(self).battle_running,
            final(self).army == old(self).army,
            final(self).ids == old(self).ids,
    {
        self.running = true;
    }

    /// Marks the service loop as ended.
    pub fn stop(&mut self)
        ensures
            !final(self).running,
            final(self).battle_running == old(self).battle_running,
            final(self).army == old(self).army,
            final(self).ids == old(self).ids,
    {
        self.running = false;
    }

    /// Regenerates both sides from scratch with `enemy_num` and
    /// `friendly_num` units, ready at `now`, laid out as `Unit::test` does
    /// (enemy ids first). Whether a battle is ticking does not change.
    pub fn army_message(&mut self, enemy_num: usize, friendly_num: usize, now: u64)
        requires
            old(self).wf(),
            old(self).ids.next + enemy_num + friendly_num < u64::MAX,
        ensures
            final(self).wf(),
            final(self).ids.next == old(self).ids.next + enemy_num + friendly_num,
            final(self).running == old(self).running,
            final(self).battle_running == old(self).battle_running,
            regenerated(final(self).army, old(self).ids.next, enemy_num, friendly_num, now),
    {
        let ghost base = self.ids.next;
        let enemy_units = Unit::test(&mut self.ids, enemy_num, now);
        let friendly_units = Unit::test(&mut self.ids, friendly_num, now);
        proof {
            lemma_recruits_within_max(enemy_units@, enemy_num as int, base, now);
            lemma_recruits_within_max(friendly_units@, friendly_num as int, (base + enemy_num) as u64, now);
        }
        self.army = Army::new(Formation::new(enemy_units), Formation::new(friendly_units));
        assert(self.army.enemy_units@.len() == enemy_units@.len());
        assert(self.army.friendly_units@.len() == friendly_units@.len());
    }

    /// Begins ticking. Returns false, changing nothing, when a battle is
    /// already being ticked.
    pub fn start_battle(&mut self) -> (accepted: bool)
        ensures
            accepted == !old(self).battle_running,
            final(self).battle_running,
            final(self).running == old(self).running,
            final(self).army == old(self).army,
            final(self).ids == old(self).ids,
    {
        if self.battle_running {
            return false;
        }
        self.battle_running = true;
        true
    }

    /// Carries out one command. Only a `StartBattle` while a battle is
    /// being ticked is refused (returns false, changes nothing).
    pub fn handle(&mut self, cmd: GameCommand, now: u64) -> (accepted: bool)
        requires
            old(self).wf(),
            cmd matches GameCommand::Army(e, f) ==> old(self).ids.next + e + f < u64::MAX,
        ensures
            final(self).wf(),
            match cmd {
                GameCommand::Army(e, f) => {
                    &&& accepted
                    &&& regenerated(final(self).army, old(self).ids.next, e, f, now)
                    &&& final(self).ids.next == old(self).ids.next + e + f
                    &&& final(self).running == old(self).running
                    &&& final(self).battle_running == old(self).battle_running
                },
                GameCommand::StartBattle => {
                    &&& accepted == !old(self).battle_running
                    &&& final(self).battle_running
                    &&& final(self).running == old(self).running
                    &&& final(self).army == old(self).army
                    &&& final(self).ids == old(self).ids
                },
                GameCommand::StopBattle => {
                    &&& accepted
                    &&& !final(self).battle_running
                    &&& final(self).running == old(self).running
                    &&& final(self).army == old(self).army
                    &&& final(self).ids == old(self).ids
                },
                GameCommand::StopService => {
                    &&& accepted
                    &&& !final(self).running
                    &&& final(self).battle_running == old(self).battle_running
                    &&& final(self).army == old(self).army
                    &&& final(self).ids == old(self).ids
                },
            },
    {
        match cmd {
            GameCommand::Army(e, f) => {
                self.army_message(e, f, now);
                true
            },
            GameCommand::StartBattle => self.start_battle(),
            GameCommand::StopBattle => {
                self.battle_running = false;
                true
            },
            GameCommand::StopService => {
                self.stop();
                true
            },
        }
    }

    /// Ticks the battle once at `now` when one is being ticked, and stops
    /// ticking when the tick finds a winner. Returns the tick's report, or
    /// `None` when no battle is being ticked.
    pub fn run_battle(&mut self, now: u64) -> (report: Option<TickReport>)
        requires
            old(self).wf(),
        ensures
            final(self).wf(),
            final(self).running == old(self).running,
            final(self).ids == old(self).ids,
            !old(self).battle_running ==> {
                &&& report is None
                &&& !final(self).battle_running
                &&& final(self).army == old(self).army
            },
            old(self).battle_running ==> (report matches Some(rep) && {
                &&& ticked(
                    old(self).army.enemy_units@,
                    old(self).army.friendly_units@,
                    final(self).army.enemy_units@,
                    final(self).army.friendly_units@,
                    rep.outcome,
                    rep.events@,
                    now,
                )
                &&& final(self).battle_running == (rep.outcome == TickOutcome::Continue)
            }),
    {
        if !self.battle_running {
            return None;
        }
        let report = battle_run(&mut self.army, now, &mut self.rng);
        if report.outcome != TickOutcome::Continue {
            self.battle_running = false;
        }
        Some(report)
    }

    /// The snapshot to publish after a loop iteration: both sides, columns
    /// cut to `depth` units, when the service is running and neither side
    /// is without columns; otherwise nothing.
    pub fn snapshot(&self, depth: usize) -> (s: Option<ArmySnapshot>)
        ensures
            s is Some <==> (self.running && !no_columns(self.army.enemy_units@) && !no_columns(
                self.army.friendly_units@,
            )),
            s matches Some(snap) ==> snap@ == snapshot_of(
                self.army.enemy_units@,
                self.army.friendly_units@,
                depth as int,
            ),
    {
        if self.running && self.army.enemy_units.columns.len() > 0
            && self.army.friendly_units.columns.len() > 0 {
            Some(ArmySnapshot::capture(&self.army, depth))
        } else {
            None
        }
    }
}

} // verus!