use std::collections::VecDeque;
use std::sync::Arc;
use vstd::prelude::*;

use crate::battle::{Army, BattleEvent};
use crate::formation::Formation;
use crate::unit::Unit;

verus! {

/// A column cut to its first `depth` units.
pub open spec fn truncated_column(s: Seq<Unit>, depth: int) -> Seq<Unit> {
    if s.len() <= depth {
        s
    } else {
        s.subrange(0, depth)
    }
}

/// Every column cut to its first `depth` units.
pub open spec fn truncated(f: Seq<Seq<Unit>>, depth: int) -> Seq<Seq<Unit>> {
    f.map_values(|s: Seq<Unit>| truncated_column(s, depth))
}

/// Number of units with hp left among the first `n` of a column.
pub open spec fn alive_in_column(s: Seq<Unit>, n: int) -> nat
    decreases n,
{
    if n <= 0 {
        0
    } else if s[n - 1].hp > 0 {
        alive_in_column(s, n - 1) + 1
    } else {
        alive_in_column(s, n - 1)
    }
}

/// Number of units with hp left in the first `n` columns.
pub open spec fn alive_upto(f: Seq<Seq<Unit>>, n: int) -> nat
    decreases n,
{
    if n <= 0 {
        0
    } else {
        alive_upto(f, n - 1) + alive_in_column(f[n - 1], f[n - 1].len() as int)
    }
}

/// Number of units with hp left in the formation.
pub open spec fn alive_count(f: Seq<Seq<Unit>>) -> nat {
    alive_upto(f, f.len() as int)
}

/// `n`, or `usize::MAX` where `n` does not fit.
pub open spec fn capped(n: nat) -> usize {
    if n <= usize::MAX {
        n as usize
    } else {
        usize::MAX
    }
}

/// A read-only copy of both sides for display: columns cut to a display
/// depth, and the number of units with hp left on each side.
#[derive(Debug)]
pub struct ArmySnapshot {
    pub enemys: Vec<VecDeque<Unit>>,
    pub allys: Vec<VecDeque<Unit>>,
    pub enemys_num: usize,
    pub allys_num: usize,
}

/// The contents of a snapshot.
pub struct SnapshotView {
    pub enemys: Seq<Seq<Unit>>,
    pub allys: Seq<Seq<Unit>>,
    pub enemys_num: usize,
    pub allys_num: usize,
}

impl View for ArmySnapshot {
    type V = SnapshotView;

    open spec fn view(&self) -> SnapshotView {
        SnapshotView {
            enemys: self.enemys@.map_values(|c: VecDeque<Unit>| c@),
            allys: self.allys@.map_values(|c: VecDeque<Unit>| c@),
            enemys_num: self.enemys_num,
            allys_num: self.allys_num,
        }
    }
}

/// The snapshot of `army` at display depth `depth`.
pub open spec fn snapshot_of(enemy: Seq<Seq<Unit>>, friendly: Seq<Seq<Unit>>, depth: int) -> SnapshotView {
    SnapshotView {
        enemys: truncated(enemy, depth),
        allys: truncated(friendly, depth),
        enemys_num: capped(alive_count(enemy)),
        allys_num: capped(alive_count(friendly)),
    }
}

/// Copies of the columns, each cut to its first `depth` units.
fn copy_columns(columns: &Vec<VecDeque<Unit>>, depth: usize) -> (r: Vec<VecDeque<Unit>>)
    ensures
        r@.map_values(|c: VecDeque<Unit>| c@) == truncated(
            columns@.map_values(|c: VecDeque<Unit>| c@),
            depth as int,
        ),
{
    let ghost f = columns@.map_values(|c: VecDeque<Unit>| c@);
    let mut out: Vec<VecDeque<Unit>> = Vec::new();
    let mut c: usize = 0;
    while c < columns.len()
        invariant
            c <= columns.len(),
            f == columns@.map_values(|c: VecDeque<Unit>| c@),
            out@.len() == c,
            forall|cc: int| 0 <= cc < c ==> (#[trigger] out@[cc])@ == truncated_column(f[cc], depth as int),
        decreases columns.len() - c,
    {
        let col = &columns[c];
        let mut copy: VecDeque<Unit> = VecDeque::new();
        let mut r: usize = 0;
        while r < col.len() && r < depth
            invariant
                col@ == f[c as int],
                r <= col@.len(),
                r <= depth,
                copy@ == col@.subrange(0, r as int),
            decreases col@.len() - r,
        {
            copy.push_back(col[r]);
            r = r + 1;
            assert(copy@ =~= col@.subrange(0, r as int));
        }
        assert(copy@ =~= truncated_column(f[c as int], depth as int));
        out.push(copy);
        c = c + 1;
    }
    assert(out@.map_values(|c: VecDeque<Unit>| c@) =~= truncated(f, depth as int));
    out
}

/// Number of units with hp left in the formation, or `usize::MAX` where that does not fit.
pub fn alive_total(f: &Formation) -> (n: usize)
    ensures
        n == capped(alive_count(f@)),
{
    let mut n: usize = 0;
    let mut c: usize = 0;
    while c < f.columns.len()
        invariant
            c <= f@.len(),
            f.columns.len() == f@.len(),
            n == capped(alive_upto(f@, c as int)),
        decreases f@.len() - c,
    {
        let col = &f.columns[c];
        let ghost before = alive_upto(f@, c as int);
        let mut r: usize = 0;
        while r < col.len()
            invariant
                col@ == f@[c as int],
                r <= col@.len(),
                n == capped(before + alive_in_column(col@, r as int)),
            decreases col@.len() - r,
        {
            if col[r].hp > 0 {
                n = n.saturating_add(1);
            }
            r = r + 1;
        }
        c = c + 1;
    }
    n
}

impl ArmySnapshot {
    /// A snapshot of both sides of `army`, columns cut to `depth` units.
    pub fn capture(army: &Army, depth: usize) -> (s: ArmySnapshot)
        ensures
            s@ == snapshot_of(army.enemy_units@, army.friendly_units@, depth as int),
    {
        ArmySnapshot {
            enemys: copy_columns(&army.enemy_units.columns, depth),
            allys: copy_columns(&army.friendly_units.columns, depth),
            enemys_num: alive_total(&army.enemy_units),
            allys_num: alive_total(&army.friendly_units),
        }
    }

    /// An empty snapshot: no columns on either side.
    pub fn empty() -> (s: ArmySnapshot)
        ensures
            s@.enemys.len() == 0,
            s@.allys.len() == 0,
            s@.enemys_num == 0,
            s@.allys_num == 0,
    {
        ArmySnapshot { enemys: Vec::new(), allys: Vec::new(), enemys_num: 0, allys_num: 0 }
    }

    /// A copy of this snapshot.
    pub fn duplicate(&self) -> (s: ArmySnapshot)
        ensures
            s@ == self@,
    {
        let enemys = copy_columns(&self.enemys, usize::MAX);
        let allys = copy_columns(&self.allys, usize::MAX);
        let s = ArmySnapshot { enemys, allys, enemys_num: self.enemys_num, allys_num: self.allys_num };
        assert forall|c: int| 0 <= c < self.enemys@.len() implies (#[trigger] self.enemys@[c])@.len()
            <= usize::MAX by {
            assert(self.enemys@[c].len() == self.enemys@[c]@.len());
        }
        assert forall|c: int| 0 <= c < self.allys@.len() implies (#[trigger] self.allys@[c])@.len()
            <= usize::MAX by {
            assert(self.allys@[c].len() == self.allys@[c]@.len());
        }
        assert(s@.enemys =~= self@.enemys);
        assert(s@.allys =~= self@.allys);
        s
    }
}

/// Relies on std's `Arc::clone`: a new handle to the same shared value.
#[verifier::external_body]
fn share(a: &Arc<ArmySnapshot>) -> (r: Arc<ArmySnapshot>)
    ensures
        *r == **a,
{
    Arc::clone(a)
}

/// A published snapshot for readers and a pending one for the writer.
/// Readers take a shared handle to the published snapshot, which stays as
/// it was for as long as they hold it; the writer replaces the pending
/// snapshot and publishes a copy of it in one step.
#[derive(Debug)]
pub struct DoubleBuffer {
    front: Arc<ArmySnapshot>,
    back: ArmySnapshot,
}

impl DoubleBuffer {
    /// What readers currently get.
    pub closed spec fn published(&self) -> SnapshotView {
        self.front@
    }

    /// What the next `swap` publishes.
    pub closed spec fn pending(&self) -> SnapshotView {
        self.back@
    }

    /// A buffer that publishes `initial` and holds it as pending too.
    pub fn new(initial: ArmySnapshot) -> (b: DoubleBuffer)
        ensures
            b.published() == initial@,
            b.pending() == initial@,
    {
        let front = Arc::new(initial.duplicate());
        DoubleBuffer { front, back: initial }
    }

    /// Replaces the pending snapshot; readers still get the published one.
    pub fn write(&mut self, value: ArmySnapshot)
        ensures
            final(self).pending() == value@,
            final(self).published() == old(self).published(),
    {
        self.back = value;
    }

    /// Publishes a copy of the pending snapshot.
    pub fn swap(&mut self)
        ensures
            final(self).published() == old(self).pending(),
            final(self).pending() == old(self).pending(),
    {
        self.front = Arc::new(self.back.duplicate());
    }

    /// A shared handle to the published snapshot.
    pub fn read(&self) -> (r: Arc<ArmySnapshot>)
        ensures
            r@ == self.published(),
    {
        share(&self.front)
    }
}

/// What the simulation hands to readers.
#[derive(Debug)]
pub enum BattleOutput {
    ArmySnapshot(ArmySnapshot),
    BattleEvent(BattleEvent),
}

} // verus!