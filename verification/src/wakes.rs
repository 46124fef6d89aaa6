//! Wakes that coordinators record for each other.
//!
//! A wake tells that something happened that a competition's next step should see. Each
//! coordinator records its own, so that the one that drives the competition sees it too.

use crate::clock::{is_datetime, unix_timestamp, whole_seconds, Timestamp};
use crate::competition::Uuid;
use vstd::prelude::*;

verus! {

/// Wakes older than this many seconds are forgotten; every coordinator has read them long before.
pub const WAKE_RETENTION: i64 = 3600;

/// A recorded wake. `seq` grows with each that is recorded.
#[derive(Debug)]
pub struct Wake {
    pub seq: i64,
    pub competition_id: Uuid,
    pub origin: String,
    pub woken_at: i64,
}

/// The wakes that coordinators recorded, in the order of their sequence numbers.
#[derive(Debug)]
pub struct WakeLog {
    pub wakes: Vec<Wake>,
}

/// The competitions that `wakes` name which another than `origin` recorded after `after`.
pub open spec fn woken_by_others(
    wakes: Seq<Wake>,
    after: int,
    origin: Seq<char>,
) -> Seq<Uuid>
    decreases wakes.len(),
{
    if wakes.len() == 0 {
        Seq::empty()
    } else {
        let earlier = woken_by_others(wakes.drop_last(), after, origin);
        let wake = wakes.last();
        if wake.seq > after && wake.origin@ != origin {
            earlier.push(wake.competition_id)
        } else {
            earlier
        }
    }
}

/// The wakes of `wakes` that are not older than `before`.
pub open spec fn kept_wakes(wakes: Seq<Wake>, before: int) -> Seq<Wake> {
    wakes.filter(|wake: Wake| wake.woken_at >= before)
}

impl WakeLog {
    /// The sequence numbers are positive and grow.
    pub open spec fn wf(self) -> bool {
        &&& forall|i: int| 0 <= i < self.wakes@.len() ==> (#[trigger] self.wakes@[i]).seq > 0
        &&& forall|i: int, j: int|
            0 <= i < j < self.wakes@.len() ==> (#[trigger] self.wakes@[i]).seq < (
            #[trigger] self.wakes@[j]).seq
    }

    /// The latest sequence number, or zero.
    pub open spec fn last_seq(self) -> int {
        if self.wakes@.len() == 0 {
            0
        } else {
            self.wakes@.last().seq as int
        }
    }

    /// Nothing recorded yet.
    pub fn new() -> (log: Self)
        ensures
            log.wf(),
            log.wakes@.len() == 0,
    {
        WakeLog { wakes: Vec::new() }
    }

    /// Record that `origin` woke a competition at the time `now`.
    pub fn record_wake(&mut self, competition_id: Uuid, origin: String, now: Timestamp)
        requires
            old(self).wf(),
            old(self).last_seq() < i64::MAX,
            is_datetime(now as int),
        ensures
            final(self).wf(),
            final(self).wakes@ == old(self).wakes@.push(
                Wake {
                    seq: (old(self).last_seq() + 1) as i64,
                    competition_id,
                    origin,
                    woken_at: whole_seconds(now as int) as i64,
                },
            ),
    {
        let seq: i64 = self.last_wake() + 1;
        let woken_at: i64 = unix_timestamp(now);
        self.wakes.push(Wake { seq, competition_id, origin, woken_at });
    }

    /// The latest wake's sequence number, where a starting coordinator begins to read.
    pub fn last_wake(&self) -> (last: i64)
        ensures
            last == self.last_seq(),
    {
        let total: usize = self.wakes.len();
        if total == 0 {
            0
        } else {
            self.wakes[total - 1].seq
        }
    }

    /// The competitions that other coordinators woke after `after`, in order, and the last
    /// sequence number read.
    pub fn wakes_since(&self, after: i64, origin: &String) -> (woken: (Vec<Uuid>, i64))
        requires
            self.wf(),
        ensures
            woken.0@ == woken_by_others(self.wakes@, after as int, origin@),
            woken.1 == (if self.wakes@.len() > 0 && self.last_seq() > after {
                self.last_seq()
            } else {
                after as int
            }),
    {
        let mut woken: Vec<Uuid> = Vec::new();
        let mut last: i64 = after;
        let mut i: usize = 0;
        while i < self.wakes.len()
            invariant
                self.wf(),
                i <= self.wakes@.len(),
                woken@ == woken_by_others(self.wakes@.take(i as int), after as int, origin@),
                last == (if i > 0 && self.wakes@[i - 1].seq > after {
                    self.wakes@[i - 1].seq
                } else {
                    after
                }),
            decreases self.wakes@.len() - i,
        {
            assert(self.wakes@.take(i + 1).drop_last() =~= self.wakes@.take(i as int));
            let wake = &self.wakes[i];
            if wake.seq > after {
                last = wake.seq;
                if !(wake.origin == *origin) {
                    woken.push(wake.competition_id);
                }
            }
            i = i + 1;
        }
        assert(self.wakes@.take(i as int) =~= self.wakes@);
        (woken, last)
    }

    /// Forget the wakes recorded before `before`, in UNIX seconds.
    pub fn prune_before(&mut self, before: i64)
        requires
            old(self).wf(),
        ensures
            final(self).wf(),
            final(self).wakes@ == kept_wakes(old(self).wakes@, before as int),
    {
        let ghost all = self.wakes@;
        let mut wakes: Vec<Wake> = Vec::new();
        std::mem::swap(&mut wakes, &mut self.wakes);
        let mut kept: Vec<Wake> = Vec::new();
        let ghost keep = |wake: Wake| wake.woken_at >= before;
        let ghost mut done: int = 0;
        assert(all.take(0).filter(keep) =~= Seq::empty()) by {
            reveal(Seq::filter);
        }
        for wake in iter: wakes
            invariant
                iter.seq() == all,
                old(self).wf(),
                all == old(self).wakes@,
                done == iter.index(),
                0 <= done <= all.len(),
                keep == (|wake: Wake| wake.woken_at >= before),
                kept@ == all.take(done).filter(keep),
                forall|i: int|
                    0 <= i < kept@.len() ==> exists|j: int|
                        0 <= j < done && #[trigger] kept@[i] == #[trigger] all[j],
                forall|i: int, j: int|
                    0 <= i < j < kept@.len() ==> (#[trigger] kept@[i]).seq < (#[trigger] kept@[j]).seq,
        {
            proof {
                assert(all.take(done + 1).drop_last() =~= all.take(done));
                assert(all.take(done + 1).last() == all[done]);
                reveal(Seq::filter);
            }
            let ghost earlier = kept@;
            if wake.woken_at >= before {
                kept.push(wake);
            }
            proof {
                done = done + 1;
                assert forall|i: int| 0 <= i < kept@.len() implies exists|j: int|
                    0 <= j < done && #[trigger] kept@[i] == #[trigger] all[j] by {
                    if i < earlier.len() {
                        let j = choose|j: int|
                            0 <= j < done - 1 && earlier[i] == #[trigger] all[j];
                        assert(kept@[i] == all[j]);
                    } else {
                        assert(kept@[i] == all[done - 1]);
                    }
                }
            }
        }
        assert(all.take(done) =~= all);
        self.wakes = kept;
    }

    /// Forget the wakes that are older than they are kept for, at the time `now`.
    pub fn prune_wakes(&mut self, now: Timestamp)
        requires
            old(self).wf(),
            is_datetime(now as int),
        ensures
            final(self).wf(),
            final(self).wakes@ == kept_wakes(
                old(self).wakes@,
                whole_seconds(now as int) - WAKE_RETENTION,
            ),
    {
        let before: i64 = unix_timestamp(now) - WAKE_RETENTION;
        self.prune_before(before);
    }
}

/// A wake that a coordinator records is read by every other one that has read what came before
/// it, and only by those.
pub proof fn a_wake_reaches_the_others(
    before: WakeLog,
    after: WakeLog,
    wake: Wake,
    reader: Seq<char>,
)
    requires
        before.wf(),
        wake.seq == before.last_seq() + 1,
        after.wakes@ == before.wakes@.push(wake),
    ensures
        woken_by_others(after.wakes@, before.last_seq(), reader) == if wake.origin@ == reader {
            Seq::empty()
        } else {
            seq![wake.competition_id]
        },
{
    let read = before.last_seq();
    assert(after.wakes@.drop_last() =~= before.wakes@);
    nothing_new(before.wakes@, read, reader);
}

/// Wakes that were read before are not read again.
proof fn nothing_new(wakes: Seq<Wake>, read: int, reader: Seq<char>)
    requires
        forall|i: int| 0 <= i < wakes.len() ==> (#[trigger] wakes[i]).seq <= read,
    ensures
        woken_by_others(wakes, read, reader) == Seq::<Uuid>::empty(),
    decreases wakes.len(),
{
    if wakes.len() > 0 {
        nothing_new(wakes.drop_last(), read, reader);
    }
}

} // verus!
