use crate::netpoller::{Netpoller, NetpollerView};
use crate::scheduler::{GoBatch, Scheduler, SchedulerView, valid_id, notify_count};
use crate::timer::{Timer, TimerView};
use vstd::prelude::*;

verus! {

/// What the runtime keeps since it started; times are milliseconds on a monotonic clock.
struct RuntimeState {
    shutdown: bool,
    start_time: u64,
    total_goroutines: usize,
}

impl RuntimeState {
    fn new(now: u64) -> (s: RuntimeState)
        ensures
            !s.shutdown,
            s.start_time == now,
            s.total_goroutines == 0,
    {
        RuntimeState { shutdown: false, start_time: now, total_goroutines: 0 }
    }

    fn total_count(&self) -> (n: usize)
        ensures
            n == self.total_goroutines,
    {
        self.total_goroutines
    }
}

/// The outcome of one check of `wait_for_all`: the workers to notify for the flushed batch,
/// and whether every goroutine has finished.
#[derive(Debug, PartialEq, Eq, Structural)]
pub struct WaitForAll {
    pub notify: usize,
    pub done: bool,
}

/// The runtime's bookkeeping: the number of live goroutines, the number created since the
/// start, the shutdown flag, and the time it started.
pub struct Runtime {
    state: RuntimeState,
    active: usize,
}

impl Runtime {
    /// The number of goroutines started and not finished.
    pub closed spec fn spec_active(&self) -> usize {
        self.active
    }

    /// The number of goroutines created since the runtime started.
    pub closed spec fn spec_total(&self) -> usize {
        self.state.total_goroutines
    }

    pub closed spec fn spec_shutting_down(&self) -> bool {
        self.state.shutdown
    }

    pub closed spec fn spec_start_time(&self) -> u64 {
        self.state.start_time
    }

    /// A runtime that started at `now` with no goroutines.
    pub fn new(now: u64) -> (rt: Runtime)
        ensures
            rt.spec_active() == 0,
            rt.spec_total() == 0,
            !rt.spec_shutting_down(),
            rt.spec_start_time() == now,
    {
        Runtime { state: RuntimeState::new(now), active: 0 }
    }

    /// Starts the scheduler (once); the result is the number of worker threads to start.
    pub fn init(sched: &mut Scheduler) -> (workers: usize)
        requires
            old(sched).wf(),
        ensures
            final(sched).wf(),
            old(sched)@.initialized ==> workers == 0 && final(sched)@ == old(sched)@,
            !old(sched)@.initialized ==> workers >= 2 && final(sched)@ == (SchedulerView {
                initialized: true,
                worker_count: workers as nat,
                ..old(sched)@
            }),
    {
        sched.init()
    }

    /// Marks the runtime as shutting down.
    pub fn shutdown(&mut self)
        ensures
            final(self).spec_shutting_down(),
            final(self).spec_active() == old(self).spec_active(),
            final(self).spec_total() == old(self).spec_total(),
            final(self).spec_start_time() == old(self).spec_start_time(),
    {
        self.state.shutdown = true;
    }

    pub fn is_shutting_down(&self) -> (b: bool)
        ensures
            b == self.spec_shutting_down(),
    {
        self.state.shutdown
    }

    /// The number of goroutines created since the runtime started; finishing ones do not lower
    /// it.
    pub fn total_goroutines(&self) -> (n: usize)
        ensures
            n == self.spec_total(),
    {
        self.state.total_count()
    }

    /// The time since the runtime started, in milliseconds; zero if `now` lies before the start.
    pub fn uptime(&self, now: u64) -> (ms: u64)
        ensures
            ms == (if now >= self.spec_start_time() { (now - self.spec_start_time()) as u64 } else { 0 }),
    {
        now.saturating_sub(self.state.start_time)
    }

    /// Counts a newly created goroutine, both as live and as created (the counts wrap as
    /// atomic counters do).
    pub fn track_goroutine(&mut self)
        ensures
            final(self).spec_active() == old(self).spec_active().wrapping_add(1),
            final(self).spec_total() == old(self).spec_total().wrapping_add(1),
            final(self).spec_shutting_down() == old(self).spec_shutting_down(),
            final(self).spec_start_time() == old(self).spec_start_time(),
    {
        self.active = self.active.wrapping_add(1);
        self.state.total_goroutines = self.state.total_goroutines.wrapping_add(1);
    }

    /// Counts a finished goroutine; the result says whether it was the last one, in which case
    /// a waiter of `wait_for_all` is to be notified.
    pub fn untrack_goroutine(&mut self) -> (was_last: bool)
        ensures
            final(self).spec_active() == old(self).spec_active().wrapping_sub(1),
            was_last == (old(self).spec_active() == 1),
            final(self).spec_total() == old(self).spec_total(),
            final(self).spec_shutting_down() == old(self).spec_shutting_down(),
            final(self).spec_start_time() == old(self).spec_start_time(),
    {
        let before = self.active;
        self.active = self.active.wrapping_sub(1);
        before == 1
    }

    pub fn active_goroutines(&self) -> (n: usize)
        ensures
            n == self.spec_active(),
    {
        self.active
    }

    /// One check of the wait for all goroutines: this thread's batch goes to the run queue
    /// first, then the result says whether no goroutine is left.
    pub fn wait_for_all(&self, sched: &mut Scheduler, batch: &mut GoBatch) -> (r: WaitForAll)
        requires
            old(sched).wf(),
            forall|i: int| 0 <= i < old(batch).items().len() ==> valid_id(old(sched)@, #[trigger] old(batch).items()[i] as int),
        ensures
            final(sched).wf(),
            final(batch).items() == Seq::<usize>::empty(),
            final(sched)@ == (SchedulerView { run_queue: old(sched)@.run_queue + old(batch).items(), ..old(sched)@ }),
            r.done == (self.spec_active() == 0),
            r.notify == (if old(sched)@.run_queue.len() == 0 && old(batch).items().len() > 0 {
                notify_count(old(sched)@.worker_count, old(batch).items().len() as nat)
            } else {
                0
            }),
    {
        let notify = sched.flush_go_batch(batch);
        WaitForAll { notify, done: self.active == 0 }
    }

    /// One check of waiting and shutting down: once no goroutine is left, the scheduler, the
    /// timer and the network poller are shut down; until then all keep running and the caller
    /// waits and checks again.
    pub fn wait_and_shutdown(
        &self,
        sched: &mut Scheduler,
        timer: &mut Timer,
        np: &mut Netpoller,
        batch: &mut GoBatch,
    ) -> (r: WaitForAll)
        requires
            old(sched).wf(),
            old(timer).wf(),
            forall|i: int| 0 <= i < old(batch).items().len() ==> valid_id(old(sched)@, #[trigger] old(batch).items()[i] as int),
        ensures
            final(sched).wf(),
            final(timer).wf(),
            final(batch).items() == Seq::<usize>::empty(),
            r.done == (self.spec_active() == 0),
            r.notify == (if old(sched)@.run_queue.len() == 0 && old(batch).items().len() > 0 {
                notify_count(old(sched)@.worker_count, old(batch).items().len() as nat)
            } else {
                0
            }),
            final(sched)@ == (SchedulerView {
                run_queue: old(sched)@.run_queue + old(batch).items(),
                shutdown: old(sched)@.shutdown || r.done,
                ..old(sched)@
            }),
            r.done ==> final(timer)@ == (TimerView { shutdown: true, ..old(timer)@ })
                && final(np)@ == (NetpollerView { running: false, ..old(np)@ }),
            !r.done ==> final(timer)@ == old(timer)@ && final(np)@ == old(np)@,
    {
        let r = self.wait_for_all(sched, batch);
        if r.done {
            sched.shutdown(timer, np);
        }
        proof {
            assert(sched@ =~= SchedulerView {
                run_queue: old(sched)@.run_queue + old(batch).items(),
                shutdown: old(sched)@.shutdown || r.done,
                ..old(sched)@
            });
        }
        r
    }
}

/// `track_goroutine` followed by `untrack_goroutine` leaves the live count where it was, and
/// `untrack_goroutine` reports the last goroutine exactly when the count drops to zero.
pub proof fn law_track_untrack_round_trip(active: usize)
    ensures
        active.wrapping_add(1).wrapping_sub(1) == active,
        (active == 1) == (active.wrapping_sub(1) == 0),
{
}

} // verus!
