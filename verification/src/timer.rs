//! The timer abstraction: a single-threaded cooperative scheduler with a
//! virtual clock in milliseconds.
//!
//! Timers are plain records tagged with the controller callback they drive;
//! due timers are drained one at a time through [`Scheduler::fire_next`], the
//! earliest deadline first and ties broken in scheduling order.  Cancelling a
//! timer before it fires guarantees that its callback never runs.

use vstd::prelude::*;

verus! {

/// Which controller callback a timer drives when it fires.
#[derive(Clone, Copy, Debug, PartialEq, Eq, Structural)]
pub enum TimerTag {
    /// The periodic staleness watchdog.
    Watchdog,
    /// The fast periodic poll that follows an asynchronous state transition.
    AsyncWatch,
    /// The single-shot wait between teardown and resynchronization.
    Cooldown,
    /// The single-shot restart timer kind.
    Restart,
}

/// One scheduled timer: a single-shot deadline, or a periodic timer that
/// re-arms itself `period` milliseconds after each firing.
#[derive(Clone, Copy, Debug)]
pub struct TimerEntry {
    pub id: u64,
    pub deadline: u64,
    pub period: Option<u64>,
    pub tag: TimerTag,
}

/// True when some timer in `entries` is due at or before `horizon`.
pub open spec fn due_exists(entries: Seq<TimerEntry>, horizon: u64) -> bool {
    exists|i: int| 0 <= i < entries.len() && (#[trigger] entries[i]).deadline <= horizon
}

/// The predicate that keeps every timer except the one named `id`.
pub open spec fn keeps_all_but(id: u64) -> spec_fn(TimerEntry) -> bool {
    |e: TimerEntry| e.id != id
}

/// Index of the timer that fires next: the smallest deadline, with ties
/// broken in favour of the timer that was scheduled first.
pub open spec fn earliest_index(entries: Seq<TimerEntry>) -> int
    decreases entries.len(),
{
    if entries.len() <= 1 {
        0
    } else {
        let prev = earliest_index(entries.drop_last());
        if entries.last().deadline < entries[prev].deadline {
            entries.len() - 1
        } else {
            prev
        }
    }
}

/// The earliest index is in range and names a smallest deadline.
pub proof fn lemma_earliest_index(entries: Seq<TimerEntry>)
    requires
        entries.len() > 0,
    ensures
        0 <= earliest_index(entries) < entries.len(),
        forall|j: int|
            0 <= j < entries.len()
                ==> entries[earliest_index(entries)].deadline <= (#[trigger] entries[j]).deadline,
    decreases entries.len(),
{
    if entries.len() > 1 {
        lemma_earliest_index(entries.drop_last());
        assert(forall|j: int|
            0 <= j < entries.len() - 1 ==> (#[trigger] entries[j]) == entries.drop_last()[j]);
    }
}

/// A cooperative timer scheduler over a virtual millisecond clock.
pub struct Scheduler {
    now: u64,
    next_id: u64,
    queue: Vec<TimerEntry>,
}

impl Scheduler {
    /// The virtual clock, in milliseconds since the scheduler was created.
    pub closed spec fn time(&self) -> u64 {
        self.now
    }

    /// Every live timer, in the order it was scheduled.
    pub closed spec fn entries(&self) -> Seq<TimerEntry> {
        self.queue@
    }

    /// How many timer identifiers have been issued so far; also the next
    /// identifier to be handed out.
    pub closed spec fn id_counter(&self) -> u64 {
        self.next_id
    }

    /// Well-formedness: identifiers are distinct and below the counter, no
    /// deadline lies in the past, and periodic timers have a positive period.
    pub open spec fn wf(&self) -> bool {
        &&& forall|i: int, j: int|
            0 <= i < j < self.entries().len()
                ==> (#[trigger] self.entries()[i]).id != (#[trigger] self.entries()[j]).id
        &&& forall|i: int|
            0 <= i < self.entries().len() ==> (#[trigger] self.entries()[i]).id < self.id_counter()
        &&& forall|i: int|
            0 <= i < self.entries().len()
                ==> (#[trigger] self.entries()[i]).deadline >= self.time()
        &&& forall|i: int|
            0 <= i < self.entries().len()
                ==> ((#[trigger] self.entries()[i]).period matches Some(p) ==> p >= 1)
    }

    /// True when a timer with the given identifier is still scheduled.
    pub open spec fn is_live(&self, id: u64) -> bool {
        exists|i: int| 0 <= i < self.entries().len() && (#[trigger] self.entries()[i]).id == id
    }

    /// A fresh scheduler: clock at zero, no timers.
    pub fn new() -> (s: Scheduler)
        ensures
            s.wf(),
            s.time() == 0,
            s.id_counter() == 0,
            s.entries() == Seq::<TimerEntry>::empty(),
    {
        Scheduler { now: 0, next_id: 0, queue: Vec::new() }
    }

    /// Reads the virtual clock.
    pub fn now(&self) -> (t: u64)
        ensures
            t == self.time(),
    {
        self.now
    }

    /// Reads the identifier counter, so that a caller can test the machine
    /// limit that scheduling requires.
    pub fn issued_ids(&self) -> (n: u64)
        ensures
            n == self.id_counter(),
    {
        self.next_id
    }

    /// Schedules a single-shot timer `delay` milliseconds from now and
    /// returns its cancellable identifier.
    pub fn schedule_after(&mut self, delay: u64, tag: TimerTag) -> (id: u64)
        requires
            old(self).wf(),
            old(self).time() + delay <= u64::MAX,
            old(self).id_counter() < u64::MAX,
        ensures
            final(self).wf(),
            id == old(self).id_counter(),
            final(self).id_counter() == old(self).id_counter() + 1,
            final(self).time() == old(self).time(),
            final(self).entries() == old(self).entries().push(
                (TimerEntry {
                    id: old(self).id_counter(),
                    deadline: (old(self).time() + delay) as u64,
                    period: None,
                    tag,
                }),
            ),
    {
        let id = self.next_id;
        self.next_id = self.next_id + 1;
        let deadline = self.now + delay;
        self.queue.push(TimerEntry { id, deadline, period: None, tag });
        id
    }

    /// Schedules a periodic timer that first fires `interval` milliseconds
    /// from now and re-arms itself after every firing.
    pub fn schedule_periodic(&mut self, interval: u64, tag: TimerTag) -> (id: u64)
        requires
            old(self).wf(),
            1 <= interval,
            old(self).time() + interval <= u64::MAX,
            old(self).id_counter() < u64::MAX,
        ensures
            final(self).wf(),
            id == old(self).id_counter(),
            final(self).id_counter() == old(self).id_counter() + 1,
            final(self).time() == old(self).time(),
            final(self).entries() == old(self).entries().push(
                (TimerEntry {
                    id: old(self).id_counter(),
                    deadline: (old(self).time() + interval) as u64,
                    period: Some(interval),
                    tag,
                }),
            ),
    {
        let id = self.next_id;
        self.next_id = self.next_id + 1;
        let deadline = self.now + interval;
        self.queue.push(TimerEntry { id, deadline, period: Some(interval), tag });
        id
    }

    /// Cancels the timer with the given identifier, if it is still
    /// scheduled; its callback is then guaranteed never to fire.  Safe to
    /// call with the identifier of a timer that already fired or was
    /// cancelled before.
    pub fn cancel(&mut self, id: u64)
        requires
            old(self).wf(),
        ensures
            final(self).wf(),
            final(self).time() == old(self).time(),
            final(self).id_counter() == old(self).id_counter(),
            final(self).entries() == old(self).entries().filter(keeps_all_but(id)),
            !final(self).is_live(id),
            forall|i: int|
                0 <= i < final(self).entries().len()
                    ==> old(self).entries().contains(#[trigger] final(self).entries()[i]),
    {
        let ghost before = self.queue@;
        let mut kept: Vec<TimerEntry> = Vec::new();
        let mut i: usize = 0;
        while i < self.queue.len()
            invariant
                i <= self.queue.len(),
                self.queue@ == before,
                kept@ == before.take(i as int).filter(keeps_all_but(id)),
            decreases self.queue.len() - i,
        {
            let e = self.queue[i];
            proof {
                assert(before.take(i as int + 1) =~= before.take(i as int).push(before[i as int]));
                before.take(i as int).lemma_filter_push(before[i as int], keeps_all_but(id));
            }
            if e.id != id {
                kept.push(e);
            }
            i = i + 1;
        }
        proof {
            assert(before.take(before.len() as int) =~= before);
            lemma_filter_entry_ids(before, keeps_all_but(id));
        }
        self.queue = kept;
        proof {
            assert forall|i: int| 0 <= i < self.entries().len() implies {
                &&& (#[trigger] self.entries()[i]).id < self.id_counter()
                &&& self.entries()[i].deadline >= self.time()
                &&& (self.entries()[i].period matches Some(p) ==> p >= 1)
                &&& self.entries()[i].id != id
            } by {
                assert(before.contains(self.entries()[i]));
                let j = choose|j: int| 0 <= j < before.len() && before[j] == self.entries()[i];
                assert(keeps_all_but(id)(self.entries()[i]));
            }
        }
    }

    /// Cancels the timer named by an optional handle; with `None` there is
    /// nothing to cancel and nothing changes.
    pub fn cancel_handle(&mut self, handle: Option<u64>)
        requires
            old(self).wf(),
        ensures
            final(self).wf(),
            final(self).time() == old(self).time(),
            final(self).id_counter() == old(self).id_counter(),
            final(self).entries() == match handle {
                Some(id) => old(self).entries().filter(keeps_all_but(id)),
                None => old(self).entries(),
            },
            handle matches Some(id) ==> !final(self).is_live(id),
            forall|i: int|
                0 <= i < final(self).entries().len()
                    ==> old(self).entries().contains(#[trigger] final(self).entries()[i]),
    {
        match handle {
            Some(id) => self.cancel(id),
            None => {
                proof {
                    assert forall|i: int| 0 <= i < self.entries().len() implies self.entries()
                        .contains(#[trigger] self.entries()[i]) by {
                        assert(self.entries()[i] == self.entries()[i]);
                    }
                }
            },
        }
    }

    /// Fires the next due timer at or before `horizon`, advancing the clock
    /// to its deadline, removing it (or re-arming it, if periodic) and
    /// returning its identifier and tag.  With no timer due, the clock
    /// advances to `horizon` and nothing fires.
    pub fn fire_next(&mut self, horizon: u64) -> (fired: Option<(u64, TimerTag)>)
        requires
            old(self).wf(),
            old(self).time() <= horizon,
        ensures
            final(self).wf(),
            final(self).id_counter() == old(self).id_counter(),
            old(self).time() <= final(self).time() <= horizon,
            fired is Some <==> due_exists(old(self).entries(), horizon),
            ({
                let es = old(self).entries();
                let k = earliest_index(es);
                if es.len() > 0 && es[k].deadline <= horizon {
                    &&& fired == Some((es[k].id, es[k].tag))
                    &&& final(self).time() == es[k].deadline
                    &&& match es[k].period {
                        None => final(self).entries() == es.remove(k),
                        Some(p) => if es[k].deadline + p <= u64::MAX {
                            final(self).entries() == es.update(
                                k,
                                (TimerEntry {
                                    id: es[k].id,
                                    deadline: (es[k].deadline + p) as u64,
                                    period: Some(p),
                                    tag: es[k].tag,
                                }),
                            )
                        } else {
                            final(self).entries() == es.remove(k)
                        },
                    }
                } else {
                    &&& fired is None
                    &&& final(self).time() == horizon
                    &&& final(self).entries() == es
                }
            }),
            forall|i: int|
                0 <= i < final(self).entries().len()
                    ==> exists|j: int|
                        0 <= j < old(self).entries().len()
                            && (#[trigger] final(self).entries()[i]).id == old(
                            self,
                        ).entries()[j].id && final(self).entries()[i].tag == old(
                            self,
                        ).entries()[j].tag && final(self).entries()[i].period == old(
                            self,
                        ).entries()[j].period,
    {
        let ghost es = self.queue@;
        if self.queue.len() == 0 {
            self.now = horizon;
            return None;
        }
        let mut k: usize = 0;
        let mut i: usize = 1;
        while i < self.queue.len()
            invariant
                self.queue@ == es,
                1 <= i <= es.len(),
                k < i,
                k == earliest_index(es.take(i as int)),
            decreases es.len() - i,
        {
            proof {
                assert(es.take(i as int + 1).drop_last() =~= es.take(i as int));
                assert(es.take(i as int + 1).last() == es[i as int]);
            }
            if self.queue[i].deadline < self.queue[k].deadline {
                k = i;
            }
            i = i + 1;
        }
        proof {
            assert(es.take(es.len() as int) =~= es);
            lemma_earliest_index(es);
        }
        let e = self.queue[k];
        if e.deadline <= horizon {
            self.now = e.deadline;
            match e.period {
                None => {
                    self.queue.remove(k);
                },
                Some(p) => {
                    if e.deadline <= u64::MAX - p {
                        self.queue[k] = TimerEntry {
                            id: e.id,
                            deadline: e.deadline + p,
                            period: Some(p),
                            tag: e.tag,
                        };
                    } else {
                        self.queue.remove(k);
                    }
                },
            }
            proof {
                let after = self.queue@;
                if after.len() < es.len() {
                    es.remove_ensures(k as int);
                }
                assert forall|i: int| 0 <= i < after.len() implies exists|j: int|
                    0 <= j < es.len() && (#[trigger] after[i]).id == es[j].id && after[i].tag
                        == es[j].tag && after[i].period == es[j].period by {
                    let w: int = if after.len() == es.len() {
                        i
                    } else if i < k as int {
                        i
                    } else {
                        i + 1
                    };
                    assert(0 <= w < es.len() && after[i].id == es[w].id && after[i].tag == es[w].tag
                        && after[i].period == es[w].period);
                }
            }
            Some((e.id, e.tag))
        } else {
            self.now = horizon;
            assert(forall|j: int|
                0 <= j < es.len() ==> (#[trigger] es[j]).deadline >= es[k as int].deadline);
            None
        }
    }
}

/// Filtering a sequence of timers with distinct identifiers keeps the
/// identifiers distinct, keeps every surviving timer an element of the
/// input, and every survivor satisfies the predicate.
proof fn lemma_filter_entry_ids(s: Seq<TimerEntry>, pred: spec_fn(TimerEntry) -> bool)
    requires
        forall|i: int, j: int|
            0 <= i < j < s.len() ==> (#[trigger] s[i]).id != (#[trigger] s[j]).id,
    ensures
        forall|k: int|
            0 <= k < s.filter(pred).len()
                ==> s.contains(#[trigger] s.filter(pred)[k]) && pred(s.filter(pred)[k]),
        forall|i: int, j: int|
            0 <= i < j < s.filter(pred).len()
                ==> (#[trigger] s.filter(pred)[i]).id != (#[trigger] s.filter(pred)[j]).id,
    decreases s.len(),
{
    reveal(Seq::filter);
    if s.len() > 0 {
        let dl = s.drop_last();
        assert(forall|j: int| 0 <= j < dl.len() ==> (#[trigger] dl[j]) == s[j]);
        lemma_filter_entry_ids(dl, pred);
        let f = s.filter(pred);
        let fd = dl.filter(pred);
        assert forall|k: int| 0 <= k < fd.len() implies s.contains(#[trigger] fd[k]) by {
            assert(dl.contains(fd[k]));
            let m = choose|m: int| 0 <= m < dl.len() && dl[m] == fd[k];
            assert(s[m] == fd[k]);
        }
        if pred(s.last()) {
            assert(f == fd.push(s.last()));
            assert(s.contains(s.last())) by {
                assert(s[s.len() - 1] == s.last());
            }
            assert forall|i: int, j: int| 0 <= i < j < f.len() implies (#[trigger] f[i]).id != (
            #[trigger] f[j]).id by {
                if j < f.len() - 1 {
                    assert(f[i] == fd[i] && f[j] == fd[j]);
                } else {
                    assert(f[j] == s.last());
                    assert(dl.contains(fd[i]));
                    let m = choose|m: int| 0 <= m < dl.len() && dl[m] == fd[i];
                    assert(s[m].id != s[s.len() - 1].id);
                }
            }
        } else {
            assert(f == fd);
        }
    }
}

} // verus!
