use std::collections::VecDeque;
use vstd::prelude::*;

use crate::unit::Unit;

verus! {

/// One side's battlefield layout: columns of units, each a queue whose
/// front (index 0) is the unit that is targeted and that falls first.
#[derive(Debug)]
pub struct Formation {
    pub columns: Vec<VecDeque<Unit>>,
}

impl View for Formation {
    type V = Seq<Seq<Unit>>;

    open spec fn view(&self) -> Seq<Seq<Unit>> {
        self.columns@.map_values(|c: VecDeque<Unit>| c@)
    }
}

/// Some unit of the formation has hp left.
pub open spec fn any_alive(f: Seq<Seq<Unit>>) -> bool {
    exists|c: int, r: int| 0 <= c < f.len() && 0 <= r < f[c].len() && (#[trigger] f[c][r]).hp > 0
}

/// Number of ranks per column that take part in combat.
pub const FRONT_RANKS: usize = 3;

/// Some unit among the first `FRONT_RANKS` of a column has hp left.
pub open spec fn front_ranks_alive(f: Seq<Seq<Unit>>) -> bool {
    exists|c: int, r: int|
        0 <= c < f.len() && 0 <= r < f[c].len() && r < FRONT_RANKS && (#[trigger] f[c][r]).hp > 0
}

/// The column has a front unit with hp left.
pub open spec fn column_live(s: Seq<Unit>) -> bool {
    s.len() > 0 && s[0].hp > 0
}

/// Indices, in increasing order, of the first `n` columns that are live.
pub open spec fn live_columns(f: Seq<Seq<Unit>>, n: int) -> Seq<usize>
    decreases n,
{
    if n <= 0 {
        seq![]
    } else if column_live(f[n - 1]) {
        live_columns(f, n - 1).push((n - 1) as usize)
    } else {
        live_columns(f, n - 1)
    }
}

/// A column with its fallen units removed from the front.
pub open spec fn cleaned(s: Seq<Unit>) -> Seq<Unit>
    decreases s.len(),
{
    if s.len() > 0 && s[0].hp == 0 {
        cleaned(s.drop_first())
    } else {
        s
    }
}

/// Every column cleaned.
pub open spec fn cleaned_all(f: Seq<Seq<Unit>>) -> Seq<Seq<Unit>> {
    f.map_values(|s: Seq<Unit>| cleaned(s))
}

/// Index of the first empty column at or after `i`; `f.len()` when none is.
pub open spec fn first_empty_from(f: Seq<Seq<Unit>>, i: int) -> int
    decreases f.len() - i,
{
    if i < 0 || i >= f.len() {
        f.len() as int
    } else if f[i].len() == 0 {
        i
    } else {
        first_empty_from(f, i + 1)
    }
}

/// Index of the longest of the first `n` columns; the last one among equals.
pub open spec fn longest_upto(f: Seq<Seq<Unit>>, n: int) -> int
    decreases n,
{
    if n <= 1 {
        0
    } else {
        let k = longest_upto(f, n - 1);
        if f[n - 1].len() >= f[k].len() {
            n - 1
        } else {
            k
        }
    }
}

/// The back unit of column `k` moved to the back of the empty column `e`.
pub open spec fn moved_back_unit(f: Seq<Seq<Unit>>, k: int, e: int) -> Seq<Seq<Unit>> {
    f.update(k, f[k].drop_last()).update(e, seq![f[k].last()])
}

/// The formation after one rebalancing step: when some column is empty and
/// the longest column holds more than one unit, its back unit moves to the
/// first empty column. Otherwise nothing changes.
pub open spec fn rebalanced(f: Seq<Seq<Unit>>) -> Seq<Seq<Unit>> {
    let e = first_empty_from(f, 0);
    let k = longest_upto(f, f.len() as int);
    if f.len() > 1 && e < f.len() && f[k].len() > 1 {
        moved_back_unit(f, k, e)
    } else {
        f
    }
}

/// No unit has more hp than its maximum.
pub open spec fn hp_within_max(f: Seq<Seq<Unit>>) -> bool {
    forall|c: int, r: int|
        0 <= c < f.len() && 0 <= r < f[c].len() ==> (#[trigger] f[c][r]).hp <= f[c][r].max_hp
}

proof fn lemma_first_empty_bounds(f: Seq<Seq<Unit>>, i: int)
    requires
        0 <= i,
    ensures
        i <= first_empty_from(f, i) <= f.len() || (i > f.len() && first_empty_from(f, i) == f.len()),
        first_empty_from(f, i) < f.len() ==> f[first_empty_from(f, i)].len() == 0,
    decreases f.len() - i,
{
    if i < f.len() && f[i].len() != 0 {
        lemma_first_empty_bounds(f, i + 1);
    }
}

proof fn lemma_longest_bounds(f: Seq<Seq<Unit>>, n: int)
    requires
        1 <= n <= f.len(),
    ensures
        0 <= longest_upto(f, n) < n,
        forall|j: int| 0 <= j < n ==> (#[trigger] f[j]).len() <= f[longest_upto(f, n)].len(),
    decreases n,
{
    if n > 1 {
        lemma_longest_bounds(f, n - 1);
    }
}

proof fn lemma_cleaned_front(s: Seq<Unit>)
    ensures
        cleaned(s).len() > 0 ==> cleaned(s)[0].hp > 0,
        cleaned(s).len() <= s.len(),
    decreases s.len(),
{
    if s.len() > 0 && s[0].hp == 0 {
        lemma_cleaned_front(s.drop_first());
    }
}

proof fn lemma_cleaned_within_max(s: Seq<Unit>)
    requires
        forall|i: int| 0 <= i < s.len() ==> (#[trigger] s[i]).hp <= s[i].max_hp,
    ensures
        forall|i: int| 0 <= i < cleaned(s).len() ==> (#[trigger] cleaned(s)[i]).hp <= cleaned(s)[i].max_hp,
    decreases s.len(),
{
    if s.len() > 0 && s[0].hp == 0 {
        let t = s.drop_first();
        assert forall|i: int| 0 <= i < t.len() implies (#[trigger] t[i]).hp <= t[i].max_hp by {
            assert(t[i] == s[i + 1]);
        }
        lemma_cleaned_within_max(t);
        assert(cleaned(s) == cleaned(t));
    } else {
        assert(cleaned(s) == s);
    }
}

/// Cleaning keeps every unit's hp within its maximum.
pub proof fn lemma_cleanup_within_max(f: Seq<Seq<Unit>>)
    requires
        hp_within_max(f),
    ensures
        hp_within_max(cleaned_all(f)),
{
    let g = cleaned_all(f);
    assert forall|c: int, r: int| 0 <= c < g.len() && 0 <= r < g[c].len() implies (#[trigger] g[c][r]).hp
        <= g[c][r].max_hp by {
        assert forall|i: int| 0 <= i < f[c].len() implies (#[trigger] f[c][i]).hp <= f[c][i].max_hp by {
            assert(f[c][i] == f[c][i]);
        }
        lemma_cleaned_within_max(f[c]);
    }
}

/// Rebalancing keeps every unit's hp within its maximum.
pub proof fn lemma_rebalance_within_max(f: Seq<Seq<Unit>>)
    requires
        hp_within_max(f),
    ensures
        hp_within_max(rebalanced(f)),
{
    let e = first_empty_from(f, 0);
    let k = longest_upto(f, f.len() as int);
    if f.len() > 1 && e < f.len() && f[k].len() > 1 {
        lemma_first_empty_bounds(f, 0);
        lemma_longest_bounds(f, f.len() as int);
        let g = rebalanced(f);
        assert forall|c: int, r: int| 0 <= c < g.len() && 0 <= r < g[c].len() implies (#[trigger] g[
            c
        ][r]).hp <= g[c][r].max_hp by {
            if c == e {
                assert(g[c][r] == f[k][f[k].len() - 1]);
            } else if c == k {
                assert(g[c][r] == f[k][r]);
            } else {
                assert(g[c][r] == f[c][r]);
            }
        }
    }
}

impl Formation {
    /// A formation holding the given columns.
    pub fn new(columns: Vec<VecDeque<Unit>>) -> (f: Formation)
        ensures
            f.columns@ == columns@,
    {
        Formation { columns }
    }

    /// Replaces the unit at rank `r` of column `c`.
    pub fn set_unit(&mut self, c: usize, r: usize, u: Unit)
        requires
            c < old(self)@.len(),
            r < old(self)@[c as int].len(),
        ensures
            final(self)@ == old(self)@.update(c as int, old(self)@[c as int].update(r as int, u)),
    {
        let ghost f = self@;
        self.columns[c].remove(r);
        self.columns[c].insert(r, u);
        assert(self@[c as int] =~= f[c as int].update(r as int, u));
        assert(self@ =~= f.update(c as int, f[c as int].update(r as int, u)));
    }

    /// Removes the front unit of column `c`.
    fn drop_front(&mut self, c: usize)
        requires
            c < old(self)@.len(),
            old(self)@[c as int].len() > 0,
        ensures
            final(self)@ == old(self)@.update(c as int, old(self)@[c as int].drop_first()),
            final(self).columns.len() == old(self).columns.len(),
    {
        self.columns[c].pop_front();
        assert(self@ =~= old(self)@.update(c as int, old(self)@[c as int].drop_first()));
    }

    /// The front unit of column `c`, if that column exists and is not empty.
    pub fn front(&self, c: usize) -> (u: Option<&Unit>)
        ensures
            u is Some <==> (c < self@.len() && self@[c as int].len() > 0),
            u matches Some(x) ==> *x == self@[c as int][0],
    {
        if c < self.columns.len() && self.columns[c].len() > 0 {
            Some(&self.columns[c][0])
        } else {
            None
        }
    }

    /// Some unit in any column has hp left.
    pub fn alive(&self) -> (r: bool)
        ensures
            r == any_alive(self@),
    {
        let mut c: usize = 0;
        while c < self.columns.len()
            invariant
                c <= self.columns.len(),
                forall|cc: int, rr: int|
                    0 <= cc < c && 0 <= rr < self@[cc].len() ==> (#[trigger] self@[cc][rr]).hp == 0,
            decreases self.columns.len() - c,
        {
            let col = &self.columns[c];
            let mut r: usize = 0;
            while r < col.len()
                invariant
                    c < self.columns.len(),
                    col == self.columns[c as int],
                    r <= col@.len(),
                    forall|rr: int| 0 <= rr < r ==> (#[trigger] col@[rr]).hp == 0,
                decreases col@.len() - r,
            {
                if col[r].hp > 0 {
                    assert(self@[c as int][r as int].hp > 0);
                    return true;
                }
                r = r + 1;
            }
            c = c + 1;
        }
        false
    }

    /// Some unit among the first `FRONT_RANKS` of any column has hp left.
    pub fn front_ranks_alive(&self) -> (r: bool)
        ensures
            r == front_ranks_alive(self@),
    {
        let mut c: usize = 0;
        while c < self.columns.len()
            invariant
                c <= self.columns.len(),
                forall|cc: int, rr: int|
                    0 <= cc < c && 0 <= rr < self@[cc].len() && rr < FRONT_RANKS ==> (#[trigger] self@[
                        cc
                    ][rr]).hp == 0,
            decreases self.columns.len() - c,
        {
            let col = &self.columns[c];
            let mut r: usize = 0;
            while r < col.len() && r < FRONT_RANKS
                invariant
                    c < self.columns.len(),
                    col == self.columns[c as int],
                    r <= col@.len(),
                    r <= FRONT_RANKS,
                    forall|rr: int| 0 <= rr < r ==> (#[trigger] col@[rr]).hp == 0,
                decreases col@.len() - r,
            {
                if col[r].hp > 0 {
                    assert(self@[c as int][r as int].hp > 0);
                    return true;
                }
                r = r + 1;
            }
            c = c + 1;
        }
        false
    }

    /// Indices, in increasing order, of the columns whose front unit has hp left.
    pub fn live_column_indices(&self) -> (r: Vec<usize>)
        ensures
            r@ == live_columns(self@, self@.len() as int),
    {
        let mut out: Vec<usize> = Vec::new();
        let mut c: usize = 0;
        while c < self.columns.len()
            invariant
                c <= self.columns.len(),
                out@ == live_columns(self@, c as int),
            decreases self.columns.len() - c,
        {
            let col = &self.columns[c];
            if col.len() > 0 && col[0].hp > 0 {
                out.push(c);
            }
            c = c + 1;
        }
        out
    }

    /// Removes fallen units from the front of every column, so that each
    /// column is empty or led by a unit with hp left.
    pub fn cleanup(&mut self)
        ensures
            final(self)@ == cleaned_all(old(self)@),
            forall|c: int|
                0 <= c < final(self)@.len() && (#[trigger] final(self)@[c]).len() > 0
                    ==> final(self)@[c][0].hp > 0,
    {
        let ghost start = self@;
        let mut c: usize = 0;
        while c < self.columns.len()
            invariant
                c <= self.columns.len(),
                self@.len() == start.len(),
                forall|cc: int| 0 <= cc < c ==> #[trigger] self@[cc] == cleaned(start[cc]),
                forall|cc: int| c <= cc < start.len() ==> #[trigger] self@[cc] == start[cc],
            decreases self.columns.len() - c,
        {
            while self.columns[c].len() > 0 && self.columns[c][0].hp == 0
                invariant
                    c < self.columns.len(),
                    self@.len() == start.len(),
                    cleaned(self@[c as int]) == cleaned(start[c as int]),
                    forall|cc: int| 0 <= cc < c ==> #[trigger] self@[cc] == cleaned(start[cc]),
                    forall|cc: int| c < cc < start.len() ==> #[trigger] self@[cc] == start[cc],
                decreases self@[c as int].len(),
            {
                self.drop_front(c);
            }
            c = c + 1;
        }
        proof {
            assert forall|cc: int| 0 <= cc < self@.len() && #[trigger] self@[cc].len() > 0
                implies self@[cc][0].hp > 0 by {
                lemma_cleaned_front(start[cc]);
            }
        }
        assert(self@ =~= cleaned_all(start));
    }

    /// When some column is empty and the longest column (the last one among
    /// equals) holds more than one unit, moves that column's back unit to the
    /// first empty column. At most one unit moves per call, and never out of
    /// a column that it would leave empty.
    pub fn rebalance(&mut self)
        ensures
            final(self)@ == rebalanced(old(self)@),
            final(self)@ == old(self)@ || exists|k: int, e: int|
                0 <= k < old(self)@.len() && 0 <= e < old(self)@.len() && old(self)@[k].len() > 1
                    && old(self)@[e].len() == 0 && final(self)@ == #[trigger] moved_back_unit(
                    old(self)@,
                    k,
                    e,
                ),
    {
        let ghost f = self@;
        let n = self.columns.len();
        if n <= 1 {
            return;
        }
        let mut e: usize = 0;
        while e < n && self.columns[e].len() > 0
            invariant
                n == self.columns.len(),
                self@ == f,
                e <= n,
                first_empty_from(f, e as int) == first_empty_from(f, 0),
            decreases n - e,
        {
            e = e + 1;
        }
        if e == n {
            return;
        }
        let mut k: usize = 0;
        let mut i: usize = 1;
        while i < n
            invariant
                n == self.columns.len(),
                self@ == f,
                1 <= i <= n,
                k < i,
                k == longest_upto(f, i as int),
            decreases n - i,
        {
            if self.columns[i].len() >= self.columns[k].len() {
                k = i;
            }
            i = i + 1;
        }
        proof {
            lemma_first_empty_bounds(f, 0);
        }
        if self.columns[k].len() > 1 {
            self.move_back_unit(k, e);
        }
    }

    /// Moves the back unit of column `k` to the back of the empty column `e`.
    fn move_back_unit(&mut self, k: usize, e: usize)
        requires
            k < old(self)@.len(),
            e < old(self)@.len(),
            old(self)@[k as int].len() > 1,
            old(self)@[e as int].len() == 0,
        ensures
            final(self)@ == moved_back_unit(old(self)@, k as int, e as int),
    {
        let ghost f = self@;
        let moved = self.columns[k].pop_back();
        if let Some(u) = moved {
            self.columns[e].push_back(u);
        }
        assert(self@[e as int] =~= seq![f[k as int].last()]);
        assert(self@[k as int] =~= f[k as int].drop_last());
        assert(self@ =~= f.update(k as int, f[k as int].drop_last()).update(
            e as int,
            seq![f[k as int].last()],
        ));
    }
}

} // verus!