use rand::rngs::StdRng;
use rand::Rng;
use vstd::prelude::*;

use crate::formation::{
    cleaned_all, column_live, front_ranks_alive, hp_within_max, lemma_cleanup_within_max,
    lemma_rebalance_within_max, live_columns, rebalanced, Formation, FRONT_RANKS,
};
use crate::unit::Unit;

verus! {

#[verifier::external_type_specification]
#[verifier::external_body]
pub struct ExStdRng(StdRng);

/// Relies on rand's `Rng::random_range`: on the non-empty range `0..n` it
/// returns a value below `n` (it panics on an empty range).
#[verifier::external_body]
fn random_below(rng: &mut StdRng, n: usize) -> (r: usize)
    requires
        n > 0,
    ensures
        r < n,
{
    rng.random_range(0..n)
}

/// A fact of combat, stamped with the time (in milliseconds) of the tick.
#[derive(Clone, Copy, Debug, PartialEq, Eq)]
pub enum BattleEvent {
    /// The unit attacked.
    Atk { id: u64, timestamp: u64 },
    /// The unit was hit for `amount` damage.
    Def { id: u64, amount: u128, timestamp: u64 },
}

impl BattleEvent {
    /// The unit `id` attacked at `timestamp`.
    pub fn atk(id: u64, timestamp: u64) -> (e: BattleEvent)
        ensures
            e == (BattleEvent::Atk { id, timestamp }),
    {
        BattleEvent::Atk { id, timestamp }
    }

    /// The unit `id` took `amount` damage at `timestamp`.
    pub fn def(id: u64, amount: u128, timestamp: u64) -> (e: BattleEvent)
        ensures
            e == (BattleEvent::Def { id, amount, timestamp }),
    {
        BattleEvent::Def { id, amount, timestamp }
    }
}

/// Damage an attack deals: attack minus defense, but never less than 1.
pub open spec fn damage_of(atk: u128, def: u128) -> u128 {
    if atk > def {
        (atk - def) as u128
    } else {
        1
    }
}

/// `x - y`, or 0 where that would be negative.
pub open spec fn sat_sub(x: u128, y: u128) -> u128 {
    if x > y {
        (x - y) as u128
    } else {
        0
    }
}

/// `x + y`, or `u64::MAX` where that would not fit.
pub open spec fn sat_add(x: u64, y: u64) -> u64 {
    if x + y <= u64::MAX {
        (x + y) as u64
    } else {
        u64::MAX
    }
}

/// Damage dealt by an attacker with attack `atk` to a defender with defense `def`.
pub fn damage(atk: u128, def: u128) -> (d: u128)
    ensures
        d == damage_of(atk, def),
        d >= 1,
{
    let d = atk.saturating_sub(def);
    if d > 1 {
        d
    } else {
        1
    }
}

/// Slots `(column, rank)` of the first `m` ranks of column `c` whose unit
/// has hp left and may attack at `now`.
pub open spec fn ready_in_column(s: Seq<Unit>, c: int, now: u64, m: int) -> Seq<(usize, usize)>
    decreases m,
{
    if m <= 0 {
        seq![]
    } else if s[m - 1].hp > 0 && now >= s[m - 1].next_attack_at {
        ready_in_column(s, c, now, m - 1).push((c as usize, (m - 1) as usize))
    } else {
        ready_in_column(s, c, now, m - 1)
    }
}

/// Number of ranks of a column of length `len` that take part in combat.
pub open spec fn active_ranks(len: int) -> int {
    if len < FRONT_RANKS {
        len
    } else {
        FRONT_RANKS as int
    }
}

/// Ready slots of the first `n` columns, column by column, rank by rank.
pub open spec fn ready_upto(f: Seq<Seq<Unit>>, now: u64, n: int) -> Seq<(usize, usize)>
    decreases n,
{
    if n <= 0 {
        seq![]
    } else {
        ready_upto(f, now, n - 1) + ready_in_column(f[n - 1], n - 1, now, active_ranks(f[n - 1].len() as int))
    }
}

/// Slots of the formation's units that may attack at `now`, column by
/// column, rank by rank, among the front ranks.
pub open spec fn ready_slots(f: Seq<Seq<Unit>>, now: u64) -> Seq<(usize, usize)> {
    ready_upto(f, now, f.len() as int)
}

/// One attack of the unit at `slot` of `att` against `def`, aimed at target
/// column `targets[pick]`. It is skipped (nothing changes, no event) when the
/// pick lies outside `targets`, the attacker is gone or has no hp left, or
/// the target column is empty or led by a unit with no hp left. Otherwise
/// the front unit of the target column loses `damage_of` hp (not below 0)
/// and the attacker may attack again `speek` after `now`.
/// Returns the new attacking side, the new defending side and the events.
pub open spec fn strike(
    att: Seq<Seq<Unit>>,
    def: Seq<Seq<Unit>>,
    slot: (usize, usize),
    targets: Seq<usize>,
    pick: int,
    now: u64,
) -> (Seq<Seq<Unit>>, Seq<Seq<Unit>>, Seq<BattleEvent>) {
    let c = slot.0 as int;
    let r = slot.1 as int;
    if 0 <= pick < targets.len() && c < att.len() && r < att[c].len() && att[c][r].hp > 0
        && targets[pick] < def.len() && column_live(def[targets[pick] as int]) {
        let t = targets[pick] as int;
        let a = att[c][r];
        let d = def[t][0];
        let amount = damage_of(a.atk, d.def);
        let hit = Unit { hp: sat_sub(d.hp, amount), ..d };
        let done = Unit { next_attack_at: sat_add(now, a.speek), ..a };
        (
            att.update(c, att[c].update(r, done)),
            def.update(t, def[t].update(0, hit)),
            seq![
                BattleEvent::Atk { id: a.id, timestamp: now },
                BattleEvent::Def { id: d.id, amount, timestamp: now },
            ],
        )
    } else {
        (att, def, seq![])
    }
}

/// The first `n` attacks of `slots`, in order, attack `i` aimed by `picks[i]`.
pub open spec fn volley(
    att: Seq<Seq<Unit>>,
    def: Seq<Seq<Unit>>,
    slots: Seq<(usize, usize)>,
    targets: Seq<usize>,
    picks: Seq<usize>,
    now: u64,
    n: int,
) -> (Seq<Seq<Unit>>, Seq<Seq<Unit>>, Seq<BattleEvent>)
    decreases n,
{
    if n <= 0 {
        (att, def, seq![])
    } else {
        let prev = volley(att, def, slots, targets, picks, now, n - 1);
        let next = strike(prev.0, prev.1, slots[n - 1], targets, picks[n - 1] as int, now);
        (next.0, next.1, prev.2 + next.2)
    }
}

/// Slots of the units of `f` that may attack at `now`: those among the
/// first `FRONT_RANKS` of each column with hp left whose cooldown has
/// passed, column by column, rank by rank.
pub fn ready_attackers(f: &Formation, now: u64) -> (slots: Vec<(usize, usize)>)
    ensures
        slots@ == ready_slots(f@, now),
{
    let mut out: Vec<(usize, usize)> = Vec::new();
    let mut c: usize = 0;
    while c < f.columns.len()
        invariant
            c <= f@.len(),
            f.columns.len() == f@.len(),
            out@ == ready_upto(f@, now, c as int),
        decreases f@.len() - c,
    {
        let col = &f.columns[c];
        let m: usize = if col.len() < FRONT_RANKS {
            col.len()
        } else {
            FRONT_RANKS
        };
        let mut r: usize = 0;
        while r < m
            invariant
                c < f@.len(),
                col@ == f@[c as int],
                m == active_ranks(col@.len() as int),
                r <= m,
                out@ == ready_upto(f@, now, c as int) + ready_in_column(col@, c as int, now, r as int),
            decreases m - r,
        {
            let u = col[r];
            if u.hp > 0 && now >= u.next_attack_at {
                out.push((c, r));
            }
            r = r + 1;
            assert(out@ =~= ready_upto(f@, now, c as int) + ready_in_column(col@, c as int, now, r as int));
        }
        c = c + 1;
        assert(out@ =~= ready_upto(f@, now, c as int));
    }
    out
}

/// Carries out one attack as `strike` describes, appending its events.
fn strike_exec(
    att: &mut Formation,
    def: &mut Formation,
    slot: (usize, usize),
    targets: &Vec<usize>,
    pick: usize,
    now: u64,
    events: &mut Vec<BattleEvent>,
)
    ensures
        (final(att)@, final(def)@, final(events)@) == ({
            let s = strike(old(att)@, old(def)@, slot, targets@, pick as int, now);
            (s.0, s.1, old(events)@ + s.2)
        }),
{
    let (c, r) = slot;
    if pick >= targets.len() || c >= att.columns.len() {
        assert(old(events)@ + seq![] =~= old(events)@);
        return;
    }
    if r >= att.columns[c].len() {
        assert(old(events)@ + seq![] =~= old(events)@);
        return;
    }
    let a = att.columns[c][r];
    let t = targets[pick];
    if a.hp == 0 || t >= def.columns.len() {
        assert(old(events)@ + seq![] =~= old(events)@);
        return;
    }
    if def.columns[t].len() == 0 {
        assert(old(events)@ + seq![] =~= old(events)@);
        return;
    }
    let d = def.columns[t][0];
    if d.hp == 0 {
        assert(old(events)@ + seq![] =~= old(events)@);
        return;
    }
    let amount = damage(a.atk, d.def);
    let hit = Unit { hp: d.hp.saturating_sub(amount), ..d };
    let done = Unit { next_attack_at: now.saturating_add(a.speek), ..a };
    att.set_unit(c, r, done);
    def.set_unit(t, 0, hit);
    events.push(BattleEvent::atk(a.id, now));
    events.push(BattleEvent::def(d.id, amount, now));
    proof {
        let s = strike(old(att)@, old(def)@, slot, targets@, pick as int, now);
        assert(events@ =~= old(events)@ + s.2);
    }
}

/// Carries out the attacks of `slots` in order, attack `i` aimed by
/// `picks[i]`, as `volley` describes, appending their events.
fn volley_exec(
    att: &mut Formation,
    def: &mut Formation,
    slots: &Vec<(usize, usize)>,
    targets: &Vec<usize>,
    picks: &Vec<usize>,
    now: u64,
    events: &mut Vec<BattleEvent>,
)
    requires
        picks.len() == slots.len(),
    ensures
        (final(att)@, final(def)@, final(events)@) == ({
            let v = volley(old(att)@, old(def)@, slots@, targets@, picks@, now, slots.len() as int);
            (v.0, v.1, old(events)@ + v.2)
        }),
{
    let ghost a0 = att@;
    let ghost d0 = def@;
    let ghost e0 = events@;
    let mut i: usize = 0;
    assert(e0 + seq![] =~= e0);
    while i < slots.len()
        invariant
            picks.len() == slots.len(),
            i <= slots.len(),
            (att@, def@, events@) == ({
                let v = volley(a0, d0, slots@, targets@, picks@, now, i as int);
                (v.0, v.1, e0 + v.2)
            }),
        decreases slots.len() - i,
    {
        let ghost prev = volley(a0, d0, slots@, targets@, picks@, now, i as int);
        strike_exec(att, def, slots[i], targets, picks[i], now, events);
        i = i + 1;
        proof {
            let s = strike(prev.0, prev.1, slots@[i - 1], targets@, picks@[i - 1] as int, now);
            assert(e0 + prev.2 + s.2 =~= e0 + (prev.2 + s.2));
        }
    }
}

/// Both sides of a battle.
#[derive(Debug)]
pub struct Army {
    pub enemy_units: Formation,
    pub friendly_units: Formation,
}

/// A side of the battle.
#[derive(Clone, Copy, Debug, PartialEq, Eq, Hash, Structural)]
pub enum Faction {
    Ally,
    Enemy,
}

/// What a tick decided.
#[derive(Clone, Copy, Debug, PartialEq, Eq, Structural)]
pub enum TickOutcome {
    /// Both sides still fight.
    Continue,
    /// The other side has no unit left in its front ranks.
    Victory(Faction),
}

/// The victory check made at the start of a tick. The enemy side is looked
/// at first, so a tick that finds both sides wiped out reports an allied victory.
pub open spec fn outcome_of(enemy: Seq<Seq<Unit>>, friendly: Seq<Seq<Unit>>) -> TickOutcome {
    if !front_ranks_alive(enemy) {
        TickOutcome::Victory(Faction::Ally)
    } else if !front_ranks_alive(friendly) {
        TickOutcome::Victory(Faction::Enemy)
    } else {
        TickOutcome::Continue
    }
}

/// Who may attack in a tick, and which columns each side may aim at: the
/// columns of the other side led by a unit with hp left when the tick began.
#[derive(Debug)]
pub struct AttackPlan {
    /// Ready slots of the friendly side.
    pub friendly: Vec<(usize, usize)>,
    /// Ready slots of the enemy side.
    pub enemy: Vec<(usize, usize)>,
    /// Live columns of the enemy side, the friendly side's targets.
    pub enemy_targets: Vec<usize>,
    /// Live columns of the friendly side, the enemy side's targets.
    pub friendly_targets: Vec<usize>,
}

/// The plan made for the two sides at `now`.
pub open spec fn is_plan_of(
    p: AttackPlan,
    enemy: Seq<Seq<Unit>>,
    friendly: Seq<Seq<Unit>>,
    now: u64,
) -> bool {
    &&& p.friendly@ == ready_slots(friendly, now)
    &&& p.enemy@ == ready_slots(enemy, now)
    &&& p.enemy_targets@ == live_columns(enemy, enemy.len() as int)
    &&& p.friendly_targets@ == live_columns(friendly, friendly.len() as int)
}

/// The damage phase and the upkeep of a tick: every friendly attack of
/// `fs`, aimed at `et` by `fp`, then every enemy attack of `es`, aimed at
/// `ft` by `ep`; then each side is cleaned of fallen front units and
/// rebalanced once. Returns the new enemy side, the new friendly side and
/// the events, in order.
pub open spec fn resolved(
    enemy: Seq<Seq<Unit>>,
    friendly: Seq<Seq<Unit>>,
    fs: Seq<(usize, usize)>,
    es: Seq<(usize, usize)>,
    et: Seq<usize>,
    ft: Seq<usize>,
    fp: Seq<usize>,
    ep: Seq<usize>,
    now: u64,
) -> (Seq<Seq<Unit>>, Seq<Seq<Unit>>, Seq<BattleEvent>) {
    let v1 = volley(friendly, enemy, fs, et, fp, now, fs.len() as int);
    let v2 = volley(v1.1, v1.0, es, ft, ep, now, es.len() as int);
    (rebalanced(cleaned_all(v2.0)), rebalanced(cleaned_all(v2.1)), v1.2 + v2.2)
}

/// A whole tick at `now` on sides that both still fight, with the picks
/// `fp` and `ep` choosing the target of each friendly and each enemy attack.
pub open spec fn tick_of(
    enemy: Seq<Seq<Unit>>,
    friendly: Seq<Seq<Unit>>,
    fp: Seq<usize>,
    ep: Seq<usize>,
    now: u64,
) -> (Seq<Seq<Unit>>, Seq<Seq<Unit>>, Seq<BattleEvent>) {
    resolved(
        enemy,
        friendly,
        ready_slots(friendly, now),
        ready_slots(enemy, now),
        live_columns(enemy, enemy.len() as int),
        live_columns(friendly, friendly.len() as int),
        fp,
        ep,
        now,
    )
}

/// Each pick chooses one of `n` targets, or there is no target at all.
pub open spec fn picks_fit(picks: Seq<usize>, count: int, n: int) -> bool {
    &&& picks.len() == count
    &&& forall|i: int| 0 <= i < picks.len() ==> n == 0 || #[trigger] picks[i] < n
}

/// One tick at `now` took the sides from `enemy` and `friendly` to
/// `enemy2` and `friendly2` with `outcome` and `events`: the victory check
/// decided `outcome`; a finished battle changes nothing; otherwise the
/// sides are as `tick_of` gives them for picks that each choose one of the
/// target columns.
pub open spec fn ticked(
    enemy: Seq<Seq<Unit>>,
    friendly: Seq<Seq<Unit>>,
    enemy2: Seq<Seq<Unit>>,
    friendly2: Seq<Seq<Unit>>,
    outcome: TickOutcome,
    events: Seq<BattleEvent>,
    now: u64,
) -> bool {
    &&& outcome == outcome_of(enemy, friendly)
    &&& outcome != TickOutcome::Continue ==> {
        &&& enemy2 == enemy
        &&& friendly2 == friendly
        &&& events.len() == 0
    }
    &&& outcome == TickOutcome::Continue ==> exists|fp: Seq<usize>, ep: Seq<usize>|
        {
            &&& picks_fit(
                fp,
                ready_slots(friendly, now).len() as int,
                live_columns(enemy, enemy.len() as int).len() as int,
            )
            &&& picks_fit(
                ep,
                ready_slots(enemy, now).len() as int,
                live_columns(friendly, friendly.len() as int).len() as int,
            )
            &&& (enemy2, friendly2, events) == #[trigger] tick_of(enemy, friendly, fp, ep, now)
        }
}

/// What one call of `battle_run` reports.
#[derive(Debug)]
pub struct TickReport {
    pub outcome: TickOutcome,
    pub events: Vec<BattleEvent>,
}

impl Army {
    /// Two sides facing each other.
    pub fn new(enemy_units: Formation, friendly_units: Formation) -> (a: Army)
        ensures
            a.enemy_units == enemy_units,
            a.friendly_units == friendly_units,
    {
        Army { enemy_units, friendly_units }
    }

    /// The victory check of a tick.
    pub fn outcome(&self) -> (o: TickOutcome)
        ensures
            o == outcome_of(self.enemy_units@, self.friendly_units@),
    {
        if !self.enemy_units.front_ranks_alive() {
            TickOutcome::Victory(Faction::Ally)
        } else if !self.friendly_units.front_ranks_alive() {
            TickOutcome::Victory(Faction::Enemy)
        } else {
            TickOutcome::Continue
        }
    }

    /// Who may attack at `now`, and the columns each side may aim at.
    pub fn plan(&self, now: u64) -> (p: AttackPlan)
        ensures
            is_plan_of(p, self.enemy_units@, self.friendly_units@, now),
    {
        AttackPlan {
            friendly: ready_attackers(&self.friendly_units, now),
            enemy: ready_attackers(&self.enemy_units, now),
            enemy_targets: self.enemy_units.live_column_indices(),
            friendly_targets: self.friendly_units.live_column_indices(),
        }
    }

    /// Carries out the attacks of `plan`, the `i`-th friendly attack aimed
    /// at `plan.enemy_targets[friendly_picks[i]]` and the `i`-th enemy attack
    /// at `plan.friendly_targets[enemy_picks[i]]`, then cleans and rebalances
    /// both sides, as `resolved` describes. Returns the events.
    pub fn resolve(
        &mut self,
        plan: &AttackPlan,
        friendly_picks: &Vec<usize>,
        enemy_picks: &Vec<usize>,
        now: u64,
    ) -> (events: Vec<BattleEvent>)
        requires
            friendly_picks.len() == plan.friendly.len(),
            enemy_picks.len() == plan.enemy.len(),
        ensures
            (final(self).enemy_units@, final(self).friendly_units@, events@) == resolved(
                old(self).enemy_units@,
                old(self).friendly_units@,
                plan.friendly@,
                plan.enemy@,
                plan.enemy_targets@,
                plan.friendly_targets@,
                friendly_picks@,
                enemy_picks@,
                now,
            ),
    {
        let mut events: Vec<BattleEvent> = Vec::new();
        volley_exec(
            &mut self.friendly_units,
            &mut self.enemy_units,
            &plan.friendly,
            &plan.enemy_targets,
            friendly_picks,
            now,
            &mut events,
        );
        volley_exec(
            &mut self.enemy_units,
            &mut self.friendly_units,
            &plan.enemy,
            &plan.friendly_targets,
            enemy_picks,
            now,
            &mut events,
        );
        self.enemy_units.cleanup();
        self.friendly_units.cleanup();
        self.enemy_units.rebalance();
        self.friendly_units.rebalance();
        proof {
            let v1 = volley(
                old(self).friendly_units@,
                old(self).enemy_units@,
                plan.friendly@,
                plan.enemy_targets@,
                friendly_picks@,
                now,
                plan.friendly@.len() as int,
            );
            let v2 = volley(
                v1.1,
                v1.0,
                plan.enemy@,
                plan.friendly_targets@,
                enemy_picks@,
                now,
                plan.enemy@.len() as int,
            );
            assert(events@ =~= v1.2 + v2.2);
        }
        events
    }
}

/// Draws one pick per attack among `n` targets (all 0 where `n` is 0).
fn draw_picks(rng: &mut StdRng, count: usize, n: usize) -> (picks: Vec<usize>)
    ensures
        picks_fit(picks@, count as int, n as int),
{
    let mut picks: Vec<usize> = Vec::new();
    let mut i: usize = 0;
    while i < count
        invariant
            i <= count,
            picks_fit(picks@, i as int, n as int),
        decreases count - i,
    {
        let p = if n > 0 {
            random_below(rng, n)
        } else {
            0
        };
        picks.push(p);
        i = i + 1;
    }
    picks
}

/// Advances the battle by one tick at `now`.
///
/// When a side has no unit with hp left among its front ranks, the other
/// side wins and nothing else happens (the enemy side is checked first).
/// Otherwise every unit that may attack does so, friendly units first and
/// then enemy units, each at a target column drawn uniformly from `rng`
/// among those of the other side that were led by a live unit when the
/// tick began; then both sides are cleaned of fallen front units and
/// rebalanced once.
pub fn battle_run(army: &mut Army, now: u64, rng: &mut StdRng) -> (report: TickReport)
    ensures
        ticked(
            old(army).enemy_units@,
            old(army).friendly_units@,
            final(army).enemy_units@,
            final(army).friendly_units@,
            report.outcome,
            report.events@,
            now,
        ),
        hp_within_max(old(army).enemy_units@) && hp_within_max(old(army).friendly_units@) ==> {
            &&& hp_within_max(final(army).enemy_units@)
            &&& hp_within_max(final(army).friendly_units@)
        },
{
    let outcome = army.outcome();
    if outcome != TickOutcome::Continue {
        return TickReport { outcome, events: Vec::new() };
    }
    let plan = army.plan(now);
    let fp = draw_picks(rng, plan.friendly.len(), plan.enemy_targets.len());
    let ep = draw_picks(rng, plan.enemy.len(), plan.friendly_targets.len());
    let events = army.resolve(&plan, &fp, &ep, now);
    proof {
        if hp_within_max(old(army).enemy_units@) && hp_within_max(old(army).friendly_units@) {
            lemma_resolved_within_max(
                old(army).enemy_units@,
                old(army).friendly_units@,
                plan.friendly@,
                plan.enemy@,
                plan.enemy_targets@,
                plan.friendly_targets@,
                fp@,
                ep@,
                now,
            );
        }
    }
    assert(tick_of(old(army).enemy_units@, old(army).friendly_units@, fp@, ep@, now) == (
        army.enemy_units@,
        army.friendly_units@,
        events@,
    ));
    TickReport { outcome, events }
}

/// An attack keeps every unit's hp, on both sides, within its maximum.
pub proof fn lemma_strike_within_max(
    att: Seq<Seq<Unit>>,
    def: Seq<Seq<Unit>>,
    slot: (usize, usize),
    targets: Seq<usize>,
    pick: int,
    now: u64,
)
    requires
        hp_within_max(att),
        hp_within_max(def),
    ensures
        hp_within_max(strike(att, def, slot, targets, pick, now).0),
        hp_within_max(strike(att, def, slot, targets, pick, now).1),
{
    let s = strike(att, def, slot, targets, pick, now);
    let c = slot.0 as int;
    let r = slot.1 as int;
    assert forall|x: int, y: int| 0 <= x < s.0.len() && 0 <= y < s.0[x].len() implies (#[trigger] s.0[
        x
    ][y]).hp <= s.0[x][y].max_hp by {
        assert(s.0[x][y].hp == att[x][y].hp && s.0[x][y].max_hp == att[x][y].max_hp);
    }
    assert forall|x: int, y: int| 0 <= x < s.1.len() && 0 <= y < s.1[x].len() implies (#[trigger] s.1[
        x
    ][y]).hp <= s.1[x][y].max_hp by {
        assert(s.1[x][y].hp <= def[x][y].hp && s.1[x][y].max_hp == def[x][y].max_hp);
    }
}

/// A run of attacks keeps every unit's hp, on both sides, within its maximum.
pub proof fn lemma_volley_within_max(
    att: Seq<Seq<Unit>>,
    def: Seq<Seq<Unit>>,
    slots: Seq<(usize, usize)>,
    targets: Seq<usize>,
    picks: Seq<usize>,
    now: u64,
    n: int,
)
    requires
        hp_within_max(att),
        hp_within_max(def),
    ensures
        hp_within_max(volley(att, def, slots, targets, picks, now, n).0),
        hp_within_max(volley(att, def, slots, targets, picks, now, n).1),
    decreases n,
{
    if n > 0 {
        lemma_volley_within_max(att, def, slots, targets, picks, now, n - 1);
        let prev = volley(att, def, slots, targets, picks, now, n - 1);
        lemma_strike_within_max(prev.0, prev.1, slots[n - 1], targets, picks[n - 1] as int, now);
    }
}

/// The damage phase and upkeep of a tick keep every unit's hp within its maximum.
pub proof fn lemma_resolved_within_max(
    enemy: Seq<Seq<Unit>>,
    friendly: Seq<Seq<Unit>>,
    fs: Seq<(usize, usize)>,
    es: Seq<(usize, usize)>,
    et: Seq<usize>,
    ft: Seq<usize>,
    fp: Seq<usize>,
    ep: Seq<usize>,
    now: u64,
)
    requires
        hp_within_max(enemy),
        hp_within_max(friendly),
    ensures
        hp_within_max(resolved(enemy, friendly, fs, es, et, ft, fp, ep, now).0),
        hp_within_max(resolved(enemy, friendly, fs, es, et, ft, fp, ep, now).1),
{
    let v1 = volley(friendly, enemy, fs, et, fp, now, fs.len() as int);
    lemma_volley_within_max(friendly, enemy, fs, et, fp, now, fs.len() as int);
    let v2 = volley(v1.1, v1.0, es, ft, ep, now, es.len() as int);
    lemma_volley_within_max(v1.1, v1.0, es, ft, ep, now, es.len() as int);
    lemma_cleanup_within_max(v2.0);
    lemma_cleanup_within_max(v2.1);
    lemma_rebalance_within_max(cleaned_all(v2.0));
    lemma_rebalance_within_max(cleaned_all(v2.1));
}

} // verus!