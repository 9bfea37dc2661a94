use std::collections::VecDeque;
use vstd::prelude::*;

use crate::battle::BattleEvent;

verus! {

/// The last `cap` items of `s` (all of them when there are fewer).
pub open spec fn last_n(s: Seq<BattleEvent>, cap: int) -> Seq<BattleEvent> {
    if s.len() <= cap {
        s
    } else {
        s.subrange(s.len() - cap, s.len() as int)
    }
}

/// Recent battle events for transient display, oldest first; once more
/// than `cap` have been recorded the oldest are dropped.
#[derive(Debug)]
pub struct EventHistory {
    pub events: VecDeque<BattleEvent>,
    pub cap: usize,
}

impl EventHistory {
    /// Holds no more than `cap` events.
    pub open spec fn wf(&self) -> bool {
        self.events@.len() <= self.cap
    }

    /// An empty history keeping at most `cap` events.
    pub fn new(cap: usize) -> (h: EventHistory)
        ensures
            h.wf(),
            h.cap == cap,
            h.events@.len() == 0,
    {
        EventHistory { events: VecDeque::new(), cap }
    }

    /// Appends `e`, dropping the oldest event when more than `cap` would be kept.
    pub fn record(&mut self, e: BattleEvent)
        requires
            old(self).wf(),
        ensures
            final(self).wf(),
            final(self).cap == old(self).cap,
            final(self).events@ == last_n(old(self).events@.push(e), old(self).cap as int),
    {
        let ghost s = self.events@.push(e);
        self.events.push_back(e);
        if self.events.len() > self.cap {
            self.events.pop_front();
            assert(self.events@ =~= s.subrange(s.len() - self.cap, s.len() as int));
        }
    }

    /// Appends `events` in order, keeping only the last `cap` of everything recorded.
    pub fn record_all(&mut self, events: &Vec<BattleEvent>)
        requires
            old(self).wf(),
        ensures
            final(self).wf(),
            final(self).cap == old(self).cap,
            final(self).events@ == last_n(old(self).events@ + events@, old(self).cap as int),
    {
        let ghost start = self.events@;
        let mut i: usize = 0;
        while i < events.len()
            invariant
                self.wf(),
                self.cap == old(self).cap,
                start == old(self).events@,
                i <= events.len(),
                self.events@ == last_n(start + events@.subrange(0, i as int), self.cap as int),
            decreases events.len() - i,
        {
            let ghost before = start + events@.subrange(0, i as int);
            self.record(events[i]);
            i = i + 1;
            proof {
                let after = start + events@.subrange(0, i as int);
                assert(after =~= before.push(events@[i - 1]));
                let cap = self.cap as int;
                if before.len() > cap {
                    assert(last_n(before, cap).push(events@[i - 1]) =~= before.push(events@[i - 1]).subrange(
                        before.len() - cap,
                        before.len() + 1int,
                    ));
                }
                if after.len() > cap {
                    assert(last_n(last_n(before, cap).push(events@[i - 1]), cap) =~= last_n(after, cap));
                }
            }
        }
        assert(start + events@.subrange(0, events.len() as int) =~= start + events@);
    }
}

} // verus!
