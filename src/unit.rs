use std::collections::VecDeque;
use vstd::prelude::*;

verus! {

/// Identity source for units: hands out increasing ids, never the same twice.
#[derive(Debug)]
pub struct IdAllocator {
    pub next: u64,
}

impl IdAllocator {
    /// An allocator whose first id is `first`.
    pub fn new(first: u64) -> (r: IdAllocator)
        ensures
            r.next == first,
    {
        IdAllocator { next: first }
    }

    /// Takes the next id.
    pub fn allocate(&mut self) -> (id: u64)
        requires
            old(self).next < u64::MAX,
        ensures
            id == old(self).next,
            final(self).next == old(self).next + 1,
    {
        let id = self.next;
        self.next = self.next + 1;
        id
    }

    /// Takes `count` consecutive ids at once and returns the first of them.
    pub fn allocate_block(&mut self, count: usize) -> (first: u64)
        requires
            old(self).next + count <= u64::MAX,
        ensures
            first == old(self).next,
            final(self).next == old(self).next + count,
    {
        let first = self.next;
        self.next = self.next + count as u64;
        first
    }
}

/// A single combatant. Time points and the attack interval are milliseconds.
#[derive(Clone, Copy, Debug)]
pub struct Unit {
    pub id: u64,
    pub name: &'static str,
    pub hp: u128,
    pub max_hp: u128,
    pub atk: u128,
    pub def: u128,
    /// Interval between two attacks of this unit.
    pub speek: u64,
    /// Earliest time at which this unit may attack again.
    pub next_attack_at: u64,
}

/// Number of columns a formation of `count` units is laid out in.
pub open spec fn columns_for(count: int) -> int {
    if 1 <= count <= 3 {
        1
    } else if 4 <= count <= 9 {
        2
    } else if 10 <= count <= 29 {
        3
    } else if 30 <= count <= 59 {
        4
    } else if 60 <= count <= 119 {
        5
    } else {
        6
    }
}

/// The unit that `Unit::test` recruits at position `idx` (counted from 0),
/// with ids counted from `base`.
pub open spec fn is_recruit(u: Unit, base: u64, idx: int, now: u64) -> bool {
    let i = idx + 1;
    &&& u.id == base + idx
    &&& u.name@ == seq!['U', 'n', 'i', 't']
    &&& u.hp == i
    &&& u.max_hp == i
    &&& u.atk == 10 + i % 10
    &&& u.def == 1
    &&& u.speek == 100 + (i % 100) * 2
    &&& u.next_attack_at == now
}

/// Column layout for `count` units.
pub fn determine_columns(count: usize) -> (n: usize)
    ensures
        n == columns_for(count as int),
        1 <= n <= 6,
{
    match count {
        1..=3 => 1,
        4..=9 => 2,
        10..=29 => 3,
        30..=59 => 4,
        60..=119 => 5,
        _ => 6,
    }
}

/// Column `col` of a round-robin layout of `num` recruits over `cols`
/// columns: its rank `r` holds recruit `col + r * cols`, and it holds exactly
/// the recruits below `num` that fall to it.
pub open spec fn is_round_robin_column(
    s: Seq<Unit>,
    col: int,
    cols: int,
    num: int,
    base: u64,
    now: u64,
) -> bool {
    &&& forall|r: int| 0 <= r < s.len() ==> is_recruit(#[trigger] s[r], base, col + r * cols, now)
    &&& col + s.len() * cols >= num
    &&& s.len() > 0 ==> col + (s.len() - 1) * cols < num
}

/// The recruit at position `idx` (counted from 0) of a batch whose ids start at `base`.
fn recruit(base: u64, idx: usize, now: u64) -> (u: Unit)
    requires
        base + idx < u64::MAX,
        idx < usize::MAX,
    ensures
        is_recruit(u, base, idx as int, now),
{
    let i: usize = idx + 1;
    let name: &'static str = "Unit";
    proof {
        reveal_strlit("Unit");
        assert(name@ =~= seq!['U', 'n', 'i', 't']);
    }
    Unit {
        id: base + idx as u64,
        name,
        hp: i as u128,
        max_hp: i as u128,
        atk: 10 + (i % 10) as u128,
        def: 1,
        speek: 100 + ((i % 100) * 2) as u64,
        next_attack_at: now,
    }
}

impl Unit {
    /// A fresh unit at full health, ready to attack at `now`.
    pub fn new(
        ids: &mut IdAllocator,
        name: &'static str,
        hp: u128,
        atk: u128,
        def: u128,
        speek: u64,
        now: u64,
    ) -> (u: Unit)
        requires
            old(ids).next < u64::MAX,
        ensures
            u.id == old(ids).next,
            final(ids).next == old(ids).next + 1,
            u.name == name,
            u.hp == hp,
            u.max_hp == hp,
            u.atk == atk,
            u.def == def,
            u.speek == speek,
            u.next_attack_at == now,
    {
        Unit { id: ids.allocate(), name, hp, max_hp: hp, atk, def, speek, next_attack_at: now }
    }
    /// Recruits `num` units, ready at `now`, with consecutive ids, and lays
    /// them out round-robin: recruit `i` (counted from 0) goes to column
    /// `i % cols`, behind the recruits placed there before it, where `cols`
    /// is `determine_columns(num)`. Recruit `i` has hp and max hp `i + 1`,
    /// attack `10 + (i + 1) % 10`, defense 1 and interval
    /// `100 + 2 * ((i + 1) % 100)`. No units give no columns.
    pub fn test(ids: &mut IdAllocator, num: usize, now: u64) -> (columns: Vec<VecDeque<Unit>>)
        requires
            old(ids).next + num < u64::MAX,
        ensures
            final(ids).next == old(ids).next + num,
            num == 0 ==> columns.len() == 0,
            num > 0 ==> columns.len() == columns_for(num as int),
            forall|c: int|
                0 <= c < columns.len() ==> is_round_robin_column(
                    #[trigger] columns[c]@,
                    c,
                    columns.len() as int,
                    num as int,
                    old(ids).next,
                    now,
                ),
    {
        if num == 0 {
            return Vec::new();
        }
        let n_cols = determine_columns(num);
        let base = ids.allocate_block(num);
        let mut columns: Vec<VecDeque<Unit>> = Vec::new();
        let mut c: usize = 0;
        while c < n_cols
            invariant
                c <= n_cols,
                n_cols == columns_for(num as int),
                1 <= n_cols <= num,
                base + num < u64::MAX,
                columns.len() == c,
                forall|cc: int|
                    0 <= cc < c ==> is_round_robin_column(
                        #[trigger] columns[cc]@,
                        cc,
                        n_cols as int,
                        num as int,
                        base,
                        now,
                    ),
            decreases n_cols - c,
        {
            let mut col: VecDeque<Unit> = VecDeque::new();
            let mut idx: usize = c;
            while idx < num
                invariant
                    c < n_cols <= num,
                    base + num < u64::MAX,
                    idx <= num,
                    idx < num ==> idx == c + col@.len() * n_cols,
                    idx == num ==> c + col@.len() * n_cols >= num,
                    col@.len() > 0 ==> c + (col@.len() - 1) * n_cols < num,
                    forall|r: int|
                        0 <= r < col@.len() ==> is_recruit(
                            #[trigger] col@[r],
                            base,
                            c + r * n_cols,
                            now,
                        ),
                decreases num - idx,
            {
                let u = recruit(base, idx, now);
                let ghost len = col@.len();
                col.push_back(u);
                assert(c + (len + 1) * n_cols == c + len * n_cols + n_cols) by (nonlinear_arith);
                if num - idx <= n_cols {
                    idx = num;
                } else {
                    idx = idx + n_cols;
                }
            }
            columns.push(col);
            c = c + 1;
        }
        columns
    }
}

/// Recruits start at full health.
pub proof fn lemma_recruits_within_max(columns: Seq<VecDeque<Unit>>, num: int, base: u64, now: u64)
    requires
        forall|c: int|
            0 <= c < columns.len() ==> is_round_robin_column(
                #[trigger] columns[c]@,
                c,
                columns.len() as int,
                num,
                base,
                now,
            ),
    ensures
        forall|c: int, r: int|
            0 <= c < columns.len() && 0 <= r < columns[c]@.len() ==> (#[trigger] columns[c]@[r]).hp
                <= columns[c]@[r].max_hp,
{
    assert forall|c: int, r: int| 0 <= c < columns.len() && 0 <= r < columns[c]@.len() implies (
    #[trigger] columns[c]@[r]).hp <= columns[c]@[r].max_hp by {
        assert(is_round_robin_column(columns[c]@, c, columns.len() as int, num, base, now));
        assert(is_recruit(columns[c]@[r], base, c + r * columns.len(), now));
    }
}

} // verus!