use crate::go_runtime::Runtime;
use crate::netpoller::{Netpoller, NetpollerView};
use crate::timer::{Timer, TimerView};
use std::collections::VecDeque;
use vstd::prelude::*;
use vstd::std_specs::convert::FromSpecImpl;

verus! {

/// The size of a goroutine's stack, in bytes.
pub const G_STACK_SIZE: usize = 16384;

/// The life cycle of a goroutine.
#[derive(Debug, Clone, Copy, PartialEq, Eq, Structural)]
pub enum GStatus {
    Idle,
    Runnable,
    Running,
    Waiting,
    Dead,
}

/// The status that a stored byte stands for; bytes beyond the known codes read as `Dead`.
pub open spec fn status_of_code(v: u8) -> GStatus {
    if v == 0 {
        GStatus::Idle
    } else if v == 1 {
        GStatus::Runnable
    } else if v == 2 {
        GStatus::Running
    } else if v == 3 {
        GStatus::Waiting
    } else {
        GStatus::Dead
    }
}

/// The byte under which a status is stored.
pub open spec fn code_of_status(s: GStatus) -> u8 {
    match s {
        GStatus::Idle => 0,
        GStatus::Runnable => 1,
        GStatus::Running => 2,
        GStatus::Waiting => 3,
        GStatus::Dead => 4,
    }
}

impl From<u8> for GStatus {
    fn from(v: u8) -> (s: GStatus) {
        if v == 0 {
            GStatus::Idle
        } else if v == 1 {
            GStatus::Runnable
        } else if v == 2 {
            GStatus::Running
        } else if v == 3 {
            GStatus::Waiting
        } else {
            GStatus::Dead
        }
    }
}

impl FromSpecImpl<u8> for GStatus {
    open spec fn obeys_from_spec() -> bool {
        true
    }

    open spec fn from_spec(v: u8) -> GStatus {
        status_of_code(v)
    }
}

impl GStatus {
    /// The byte under which the status is stored.
    pub fn as_u8(self) -> (v: u8)
        ensures
            v == code_of_status(self),
    {
        match self {
            GStatus::Idle => 0,
            GStatus::Runnable => 1,
            GStatus::Running => 2,
            GStatus::Waiting => 3,
            GStatus::Dead => 4,
        }
    }
}

/// Reading back the byte under which a status is stored gives the status again.
pub proof fn law_status_code_round_trip(s: GStatus)
    ensures
        status_of_code(code_of_status(s)) == s,
        code_of_status(s) <= 4,
{
}

/// A goroutine as the scheduler sees it: its id, its status and whether its body has run to
/// the end.
#[derive(Debug)]
pub struct G {
    id: usize,
    status: GStatus,
    completed: bool,
}

impl G {
    pub closed spec fn spec_id(&self) -> usize {
        self.id
    }

    pub closed spec fn spec_status(&self) -> GStatus {
        self.status
    }

    pub closed spec fn spec_completed(&self) -> bool {
        self.completed
    }

    /// A fresh goroutine is runnable and not completed.
    pub fn new(id: usize) -> (g: G)
        ensures
            g.spec_id() == id,
            g.spec_status() == GStatus::Runnable,
            !g.spec_completed(),
    {
        G { id, status: GStatus::Runnable, completed: false }
    }

    pub fn id(&self) -> (r: usize)
        ensures
            r == self.spec_id(),
    {
        self.id
    }

    pub fn status(&self) -> (s: GStatus)
        ensures
            s == self.spec_status(),
    {
        self.status
    }

    pub fn set_status(&mut self, status: GStatus)
        ensures
            final(self).spec_status() == status,
            final(self).spec_id() == old(self).spec_id(),
            final(self).spec_completed() == old(self).spec_completed(),
    {
        self.status = status;
    }

    pub fn is_completed(&self) -> (b: bool)
        ensures
            b == self.spec_completed(),
    {
        self.completed
    }
}

/// The abstract state of the scheduler.
///
/// Goroutine `id` (counted from 1) has status `statuses[id - 1]`; `run_queue` lists the ids
/// waiting for a worker, front first.
#[verifier::ext_equal]
pub struct SchedulerView {
    pub next_g_id: nat,
    pub initialized: bool,
    pub statuses: Seq<GStatus>,
    pub completed: Seq<bool>,
    pub run_queue: Seq<usize>,
    pub worker_count: nat,
    pub shutdown: bool,
}

/// Whether `id` names a goroutine of `v`.
pub open spec fn valid_id(v: SchedulerView, id: int) -> bool {
    1 <= id <= v.statuses.len()
}

/// The number of workers to notify when `count` goroutines become runnable.
pub open spec fn notify_count(worker_count: nat, count: nat) -> nat {
    let workers: nat = if worker_count >= 1 { worker_count } else { 1 };
    if workers <= count {
        workers
    } else {
        count
    }
}

impl SchedulerView {
    /// Ids are handed out in order from 1, every goroutine has a status and a completion flag,
    /// and the run queue holds only ids of existing goroutines.
    pub open spec fn valid(self) -> bool {
        &&& self.next_g_id == self.statuses.len() + 1
        &&& self.completed.len() == self.statuses.len()
        &&& forall|i: int| 0 <= i < self.run_queue.len() ==> valid_id(self, #[trigger] self.run_queue[i] as int)
    }

    pub open spec fn status_of(self, id: int) -> GStatus {
        self.statuses[id - 1]
    }

    pub open spec fn with_status(self, id: int, s: GStatus) -> Self {
        SchedulerView { statuses: self.statuses.update(id - 1, s), ..self }
    }

    /// `wake_g`: a goroutine that waits becomes runnable and joins the back of the run queue,
    /// unless the scheduler has shut down; the result says whether one worker is notified.
    pub open spec fn wake_result(self, id: int) -> (Self, bool) {
        if !self.shutdown && valid_id(self, id) && self.status_of(id) == GStatus::Waiting {
            (
                SchedulerView {
                    run_queue: self.run_queue.push(id as usize),
                    ..self.with_status(id, GStatus::Runnable)
                },
                true,
            )
        } else {
            (self, false)
        }
    }

    /// `yield_now` by `current`: a running or runnable goroutine becomes runnable and control
    /// goes back to the worker; outside goroutines the thread yields.
    pub open spec fn yield_result(self, current: Option<usize>) -> (Self, YieldAction) {
        match current {
            None => (self, YieldAction::ThreadYield),
            Some(id) => if valid_id(self, id as int) && (self.status_of(id as int) == GStatus::Running
                || self.status_of(id as int) == GStatus::Runnable) {
                (self.with_status(id as int, GStatus::Runnable), YieldAction::SwitchToScheduler)
            } else {
                (self, YieldAction::SwitchToScheduler)
            },
        }
    }

    /// What a worker does after goroutine `id` switched back to it: a runnable goroutine joins
    /// the back of the run queue unless the scheduler has shut down; the flag says whether it did.
    pub open spec fn after_run_result(self, id: int) -> (Self, bool) {
        if !self.shutdown && valid_id(self, id) && self.status_of(id) == GStatus::Runnable {
            (SchedulerView { run_queue: self.run_queue.push(id as usize), ..self }, true)
        } else {
            (self, false)
        }
    }

    /// The state after waking each of `ids` in turn (the shutdown check aside).
    pub open spec fn wake_each(self, ids: Seq<usize>) -> Self
        decreases ids.len(),
    {
        if ids.len() == 0 {
            self
        } else {
            self.wake_each(ids.drop_last()).wake_result(ids.last() as int).0
        }
    }

    /// `wake_g_batch`: wakes the waiting goroutines among `ids`, in order; when the run queue is
    /// then non-empty, as many workers are notified as there are ids, at most one per worker.
    pub open spec fn wake_batch_result(self, ids: Seq<usize>) -> (Self, nat) {
        if self.shutdown {
            (self, 0)
        } else {
            let s = self.wake_each(ids);
            (s, if s.run_queue.len() > 0 { notify_count(self.worker_count, ids.len()) } else { 0 })
        }
    }
}

/// What a worker thread is to do next.
#[derive(Debug, PartialEq, Eq, Structural)]
pub enum WorkerStep {
    /// The scheduler has shut down: the worker ends.
    Exit,
    /// Nothing to run: the worker sleeps until notified.
    Wait,
    /// Run goroutine `id`; when `notify_other` holds, more goroutines are queued and another
    /// worker is notified.
    Run { id: usize, notify_other: bool },
}

/// What a goroutine that gives up the processor is to do.
#[derive(Debug, PartialEq, Eq, Structural)]
pub enum YieldAction {
    /// Not inside a goroutine: yield the thread to the operating system.
    ThreadYield,
    /// Switch back to the worker's scheduling loop.
    SwitchToScheduler,
    /// Not inside a goroutine and nothing to do.
    Nothing,
}

/// A goroutine created by `go`, and how many workers to notify for the batch it closed, if any.
#[derive(Debug, PartialEq, Eq, Structural)]
pub struct Spawned {
    pub id: usize,
    pub notify: usize,
}

/// The goroutines that one thread has created and not yet handed to the run queue.
pub struct GoBatch {
    items: Vec<usize>,
}

impl GoBatch {
    pub closed spec fn items(&self) -> Seq<usize> {
        self.items@
    }

    pub fn new() -> (b: GoBatch)
        ensures
            b.items() == Seq::<usize>::empty(),
    {
        GoBatch { items: Vec::new() }
    }

    pub fn len(&self) -> (r: usize)
        ensures
            r == self.items().len(),
    {
        self.items.len()
    }
}

/// The M:N scheduler's shared state: goroutine table, run queue, worker count and shutdown flag.
pub struct Scheduler {
    next_g_id: usize,
    initialized: bool,
    goroutines: Vec<G>,
    run_queue: VecDeque<usize>,
    worker_count: usize,
    shutdown: bool,
}

/// The number of processors, as the `num_cpus` crate counts them.
///
/// Calls `num_cpus::get`, whose documentation promises at least 1; the count depends on the
/// machine and is otherwise not stated.
#[verifier::external_body]
fn available_cpus() -> (n: usize)
    ensures
        n >= 1,
{
    num_cpus::get()
}

impl Scheduler {
    pub closed spec fn model(&self) -> SchedulerView {
        SchedulerView {
            next_g_id: self.next_g_id as nat,
            initialized: self.initialized,
            statuses: self.goroutines@.map_values(|g: G| g.status),
            completed: self.goroutines@.map_values(|g: G| g.completed),
            run_queue: self.run_queue@,
            worker_count: self.worker_count as nat,
            shutdown: self.shutdown,
        }
    }

    /// The table keeps goroutine `i + 1` at index `i`.
    pub closed spec fn wf(&self) -> bool {
        &&& self.model().valid()
        &&& forall|i: int| 0 <= i < self.goroutines@.len() ==> (#[trigger] self.goroutines@[i]).id == i + 1
    }
    /// A well-formed scheduler has a valid view: ids are handed out in order, and the run queue
    /// holds only ids of existing goroutines.
    pub proof fn lemma_wf_valid(&self)
        requires
            self.wf(),
        ensures
            self@.valid(),
    {
    }
}

impl View for Scheduler {
    type V = SchedulerView;

    open spec fn view(&self) -> SchedulerView {
        self.model()
    }
}

impl Scheduler {
    /// A scheduler with no goroutines, not yet started.
    pub fn new() -> (s: Scheduler)
        ensures
            s.wf(),
            s@ == (SchedulerView {
                next_g_id: 1,
                initialized: false,
                statuses: Seq::empty(),
                completed: Seq::empty(),
                run_queue: Seq::empty(),
                worker_count: 0,
                shutdown: false,
            }),
    {
        let s = Scheduler {
            next_g_id: 1,
            initialized: false,
            goroutines: Vec::new(),
            run_queue: VecDeque::new(),
            worker_count: 0,
            shutdown: false,
        };
        assert(s@ =~= SchedulerView {
            next_g_id: 1,
            initialized: false,
            statuses: Seq::empty(),
            completed: Seq::empty(),
            run_queue: Seq::empty(),
            worker_count: 0,
            shutdown: false,
        });
        s
    }

    /// Starts the scheduler once: it uses `max(cpus, 2)` workers, and the result is the number
    /// of worker threads to start (zero when it was started already).
    pub fn init_with_cpus(&mut self, cpus: usize) -> (workers: usize)
        requires
            old(self).wf(),
        ensures
            keeps_shutdown(old(self)@, final(self)@),
            final(self).wf(),
            old(self)@.initialized ==> workers == 0 && final(self)@ == old(self)@,
            !old(self)@.initialized ==> workers == (if cpus >= 2 { cpus } else { 2 }) && final(self)@
                == (SchedulerView { initialized: true, worker_count: workers as nat, ..old(self)@ }),
    {
        if self.initialized {
            return 0;
        }
        self.initialized = true;
        let workers = if cpus >= 2 {
            cpus
        } else {
            2
        };
        self.worker_count = workers;
        assert(self@ =~= SchedulerView { initialized: true, worker_count: workers as nat, ..old(self)@ });
        workers
    }

    /// Starts the scheduler once, with one worker per processor and at least two.
    pub fn init(&mut self) -> (workers: usize)
        requires
            old(self).wf(),
        ensures
            keeps_shutdown(old(self)@, final(self)@),
            final(self).wf(),
            old(self)@.initialized ==> workers == 0 && final(self)@ == old(self)@,
            !old(self)@.initialized ==> workers >= 2 && final(self)@ == (SchedulerView {
                initialized: true,
                worker_count: workers as nat,
                ..old(self)@
            }),
    {
        if self.initialized {
            return 0;
        }
        let cpus = available_cpus();
        self.init_with_cpus(cpus)
    }

    /// The status of goroutine `id`.
    pub fn status(&self, id: usize) -> (s: GStatus)
        requires
            self.wf(),
            valid_id(self@, id as int),
        ensures
            s == self@.status_of(id as int),
    {
        self.goroutines[id - 1].status()
    }

    /// Whether goroutine `id` has run to the end.
    pub fn is_completed(&self, id: usize) -> (b: bool)
        requires
            self.wf(),
            valid_id(self@, id as int),
        ensures
            b == self@.completed[id - 1],
    {
        self.goroutines[id - 1].is_completed()
    }

    fn write_status(&mut self, id: usize, status: GStatus)
        requires
            old(self).wf(),
            valid_id(old(self)@, id as int),
        ensures
            final(self).wf(),
            final(self)@ == old(self)@.with_status(id as int, status),
    {
        let mut g = G { id, status, completed: self.goroutines[id - 1].completed };
        g.set_status(status);
        self.goroutines.set(id - 1, g);
        assert(self@.statuses =~= old(self)@.with_status(id as int, status).statuses);
        assert(self@.completed =~= old(self)@.completed);
        assert(self@ =~= old(self)@.with_status(id as int, status));
    }

    /// Sets the status of goroutine `id`; an unknown id changes nothing.
    pub fn set_status(&mut self, id: usize, status: GStatus)
        requires
            old(self).wf(),
        ensures
            keeps_shutdown(old(self)@, final(self)@),
            final(self).wf(),
            valid_id(old(self)@, id as int) ==> final(self)@ == old(self)@.with_status(id as int, status),
            !valid_id(old(self)@, id as int) ==> final(self)@ == old(self)@,
    {
        if 1 <= id && id <= self.goroutines.len() {
            self.write_status(id, status);
        }
    }

    /// Creates a runnable goroutine with the next id, counts it in the runtime, and puts it at
    /// the back of the run queue, behind the goroutines still held in this thread's `batch`
    /// (which go to the queue with it).
    pub fn go(&mut self, rt: &mut Runtime, batch: &mut GoBatch) -> (r: Spawned)
        requires
            old(self).wf(),
            old(self)@.next_g_id < usize::MAX,
            forall|i: int| 0 <= i < old(batch).items().len() ==> valid_id(old(self)@, #[trigger] old(batch).items()[i] as int),
        ensures
            keeps_shutdown(old(self)@, final(self)@),
            final(self).wf(),
            r.id == old(self)@.next_g_id,
            valid_id(final(self)@, r.id as int),
            final(self)@ == (SchedulerView {
                next_g_id: old(self)@.next_g_id + 1,
                statuses: old(self)@.statuses.push(GStatus::Runnable),
                completed: old(self)@.completed.push(false),
                run_queue: old(self)@.run_queue + old(batch).items().push(r.id),
                ..old(self)@
            }),
            final(batch).items() == Seq::<usize>::empty(),
            r.notify == (if old(self)@.run_queue.len() == 0 {
                notify_count(old(self)@.worker_count, old(batch).items().len() + 1)
            } else {
                0
            }),
            final(rt).spec_active() == old(rt).spec_active().wrapping_add(1),
            final(rt).spec_total() == old(rt).spec_total().wrapping_add(1),
            final(rt).spec_shutting_down() == old(rt).spec_shutting_down(),
            final(rt).spec_start_time() == old(rt).spec_start_time(),
            old(rt).spec_active() == live_count(old(self)@.completed) && old(rt).spec_active() < usize::MAX
                ==> final(rt).spec_active() == live_count(final(self)@.completed),
    {
        let id = self.next_g_id;
        self.goroutines.push(G::new(id));
        self.next_g_id = id + 1;
        assert(self@.statuses =~= old(self)@.statuses.push(GStatus::Runnable));
        assert forall|i: int| 0 <= i < self.goroutines@.len() implies (#[trigger] self.goroutines@[i]).id == i + 1 by {
            if i < old(self).goroutines@.len() {
                assert(self.goroutines@[i] == old(self).goroutines@[i]);
            }
        }
        assert forall|j: int| 0 <= j < self@.run_queue.len() implies valid_id(self@, #[trigger] self@.run_queue[j] as int) by {
            assert(valid_id(old(self)@, old(self)@.run_queue[j] as int));
        }
        assert(self@.completed =~= old(self)@.completed.push(false));
        batch.items.push(id);
        assert forall|i: int| 0 <= i < batch.items().len() implies valid_id(self@, #[trigger] batch.items()[i] as int) by {
            if i < old(batch).items().len() {
                assert(batch.items()[i] == old(batch).items()[i]);
            }
        }
        let notify = self.flush_go_batch_inner(batch);
        rt.track_goroutine();
        proof {
            lemma_live_count_push(old(self)@.completed);
            assert(self@ =~= SchedulerView {
                next_g_id: old(self)@.next_g_id + 1,
                statuses: old(self)@.statuses.push(GStatus::Runnable),
                completed: old(self)@.completed.push(false),
                run_queue: old(self)@.run_queue + old(batch).items().push(id),
                ..old(self)@
            });
        }
        Spawned { id, notify }
    }

    /// Moves every goroutine of `batch`, in order, to the back of the run queue. When the queue
    /// was empty, as many workers are notified as goroutines moved, at most one per worker.
    pub fn flush_go_batch_inner(&mut self, batch: &mut GoBatch) -> (notify: usize)
        requires
            old(self).wf(),
            forall|i: int| 0 <= i < old(batch).items().len() ==> valid_id(old(self)@, #[trigger] old(batch).items()[i] as int),
        ensures
            keeps_shutdown(old(self)@, final(self)@),
            final(self).wf(),
            final(batch).items() == Seq::<usize>::empty(),
            final(self)@ == (SchedulerView { run_queue: old(self)@.run_queue + old(batch).items(), ..old(self)@ }),
            notify == (if old(self)@.run_queue.len() == 0 && old(batch).items().len() > 0 {
                notify_count(old(self)@.worker_count, old(batch).items().len() as nat)
            } else {
                0
            }),
    {
        if batch.items.len() == 0 {
            assert(old(self)@.run_queue + old(batch).items() =~= old(self)@.run_queue);
            assert(self@ =~= SchedulerView { run_queue: old(self)@.run_queue + old(batch).items(), ..old(self)@ });
            return 0;
        }
        let was_empty = self.run_queue.len() == 0;
        let count = batch.items.len();
        let mut i: usize = 0;
        while i < count
            invariant
                0 <= i <= count,
                count == batch.items@.len(),
                batch.items@ == old(batch).items(),
                self.goroutines@ == old(self).goroutines@,
                self.next_g_id == old(self).next_g_id,
                self.initialized == old(self).initialized,
                self.worker_count == old(self).worker_count,
                self.shutdown == old(self).shutdown,
                self.run_queue@ == old(self)@.run_queue + batch.items@.subrange(0, i as int),
            decreases count - i,
        {
            self.run_queue.push_back(batch.items[i]);
            assert(self.run_queue@ =~= old(self)@.run_queue + batch.items@.subrange(0, i + 1));
            i = i + 1;
        }
        batch.items = Vec::new();
        assert(old(batch).items().subrange(0, count as int) =~= old(batch).items());
        assert(self@ =~= SchedulerView { run_queue: old(self)@.run_queue + old(batch).items(), ..old(self)@ });
        assert forall|j: int| 0 <= j < self@.run_queue.len() implies valid_id(self@, #[trigger] self@.run_queue[j] as int) by {
            if j < old(self)@.run_queue.len() {
                assert(self@.run_queue[j] == old(self)@.run_queue[j]);
            } else {
                assert(self@.run_queue[j] == old(batch).items()[j - old(self)@.run_queue.len()]);
            }
        }
        if was_empty {
            let workers = if self.worker_count >= 1 {
                self.worker_count
            } else {
                1
            };
            if workers <= count {
                workers
            } else {
                count
            }
        } else {
            0
        }
    }

    /// Moves this thread's batch to the run queue (nothing happens for an empty batch).
    pub fn flush_go_batch(&mut self, batch: &mut GoBatch) -> (notify: usize)
        requires
            old(self).wf(),
            forall|i: int| 0 <= i < old(batch).items().len() ==> valid_id(old(self)@, #[trigger] old(batch).items()[i] as int),
        ensures
            keeps_shutdown(old(self)@, final(self)@),
            final(self).wf(),
            final(batch).items() == Seq::<usize>::empty(),
            final(self)@ == (SchedulerView { run_queue: old(self)@.run_queue + old(batch).items(), ..old(self)@ }),
            notify == (if old(self)@.run_queue.len() == 0 && old(batch).items().len() > 0 {
                notify_count(old(self)@.worker_count, old(batch).items().len() as nat)
            } else {
                0
            }),
    {
        self.flush_go_batch_inner(batch)
    }

    /// Makes goroutine `id` runnable and queues it, if it was waiting and the scheduler runs;
    /// the result says whether a worker is to be notified.
    pub fn wake_g(&mut self, id: usize) -> (notify: bool)
        requires
            old(self).wf(),
        ensures
            keeps_shutdown(old(self)@, final(self)@),
            final(self).wf(),
            (final(self)@, notify) == old(self)@.wake_result(id as int),
    {
        if !self.shutdown && 1 <= id && id <= self.goroutines.len() && self.goroutines[id - 1].status() == GStatus::Waiting {
            self.write_status(id, GStatus::Runnable);
            self.run_queue.push_back(id);
            let ghost expected = old(self)@.wake_result(id as int).0;
            assert(self@ =~= expected);
            assert forall|j: int| 0 <= j < self@.run_queue.len() implies valid_id(self@, #[trigger] self@.run_queue[j] as int) by {
                if j < old(self)@.run_queue.len() {
                    assert(self@.run_queue[j] == old(self)@.run_queue[j]);
                }
            }
            true
        } else {
            false
        }
    }

    /// Wakes the waiting goroutines among `ids`, in order, unless the scheduler has shut down;
    /// the result is the number of workers to notify.
    pub fn wake_g_batch(&mut self, ids: Vec<usize>) -> (notify: usize)
        requires
            old(self).wf(),
        ensures
            keeps_shutdown(old(self)@, final(self)@),
            final(self).wf(),
            final(self)@ == old(self)@.wake_batch_result(ids@).0,
            notify == old(self)@.wake_batch_result(ids@).1,
    {
        if self.shutdown {
            return 0;
        }
        let count = ids.len();
        let mut i: usize = 0;
        while i < count
            invariant
                0 <= i <= count,
                count == ids@.len(),
                self.wf(),
                !old(self)@.shutdown,
                self@.worker_count == old(self)@.worker_count,
                self@ == old(self)@.wake_each(ids@.subrange(0, i as int)),
            decreases count - i,
        {
            let id = ids[i];
            let _ = self.wake_g(id);
            assert(ids@.subrange(0, i + 1).drop_last() =~= ids@.subrange(0, i as int));
            i = i + 1;
        }
        assert(ids@.subrange(0, count as int) =~= ids@);
        if self.run_queue.len() > 0 {
            let workers = if self.worker_count >= 1 {
                self.worker_count
            } else {
                1
            };
            if workers <= count {
                workers
            } else {
                count
            }
        } else {
            0
        }
    }

    fn set_shutdown(&mut self)
        requires
            old(self).wf(),
        ensures
            final(self).wf(),
            final(self)@ == (SchedulerView { shutdown: true, ..old(self)@ }),
    {
        self.shutdown = true;
        assert(self@ =~= SchedulerView { shutdown: true, ..old(self)@ });
    }

    /// Shuts the runtime's machinery down: the scheduler is marked as shut down (workers stop
    /// at their next step), the timer thread is told to end, and the network poller stops.
    pub fn shutdown(&mut self, timer: &mut Timer, np: &mut Netpoller)
        requires
            old(self).wf(),
            old(timer).wf(),
        ensures
            keeps_shutdown(old(self)@, final(self)@),
            final(self).wf(),
            final(self)@ == (SchedulerView { shutdown: true, ..old(self)@ }),
            final(timer).wf(),
            final(timer)@ == (TimerView { shutdown: true, ..old(timer)@ }),
            final(np)@ == (NetpollerView { running: false, ..old(np)@ }),
    {
        self.set_shutdown();
        timer.shutdown_timer();
        let _ = np.stop();
    }

    pub fn is_running(&self) -> (b: bool)
        ensures
            b == !self@.shutdown,
    {
        !self.shutdown
    }

    /// The number of goroutines created so far.
    pub fn goroutine_count(&self) -> (n: usize)
        requires
            self.wf(),
        ensures
            n == self@.statuses.len(),
    {
        self.goroutines.len()
    }

    /// The number of goroutines in the run queue.
    pub fn pending_goroutines(&self) -> (n: usize)
        ensures
            n == self@.run_queue.len(),
    {
        self.run_queue.len()
    }

    /// The goroutine that a caller outside the scheduling loop is running in: this interface
    /// never reports one.
    pub fn current_g() -> (g: Option<usize>)
        ensures
            g is None,
    {
        None
    }

    /// Kept for callers of the older interface: it records nothing.
    pub fn set_current_g(_g: Option<usize>) {
    }

    /// Gives up the processor: a running (or runnable) goroutine becomes runnable so that the
    /// worker queues it again; a waiting one stays waiting. Outside goroutines the thread yields.
    pub fn yield_now(&mut self, current: Option<usize>) -> (a: YieldAction)
        requires
            old(self).wf(),
        ensures
            keeps_shutdown(old(self)@, final(self)@),
            final(self).wf(),
            (final(self)@, a) == old(self)@.yield_result(current),
    {
        match current {
            None => YieldAction::ThreadYield,
            Some(id) => {
                if 1 <= id && id <= self.goroutines.len() {
                    let s = self.goroutines[id - 1].status();
                    if s == GStatus::Running || s == GStatus::Runnable {
                        self.write_status(id, GStatus::Runnable);
                    }
                }
                YieldAction::SwitchToScheduler
            },
        }
    }

    /// Same as `yield_now`.
    pub fn yield_goroutine(&mut self, current: Option<usize>) -> (a: YieldAction)
        requires
            old(self).wf(),
        ensures
            keeps_shutdown(old(self)@, final(self)@),
            final(self).wf(),
            (final(self)@, a) == old(self)@.yield_result(current),
    {
        self.yield_now(current)
    }

    /// Same as `yield_now`.
    pub fn yield_to_scheduler(&mut self, current: Option<usize>) -> (a: YieldAction)
        requires
            old(self).wf(),
        ensures
            keeps_shutdown(old(self)@, final(self)@),
            final(self).wf(),
            (final(self)@, a) == old(self)@.yield_result(current),
    {
        self.yield_now(current)
    }

    /// Same as `yield_now`; the goroutine `_g` that the caller names plays no part.
    pub fn yield_to_scheduler_with_g(&mut self, current: Option<usize>, _g: usize) -> (a: YieldAction)
        requires
            old(self).wf(),
        ensures
            keeps_shutdown(old(self)@, final(self)@),
            final(self).wf(),
            (final(self)@, a) == old(self)@.yield_result(current),
    {
        self.yield_now(current)
    }

    /// Switches to the scheduling loop without touching the goroutine's status; outside
    /// goroutines nothing happens.
    pub fn yield_to_scheduler_direct(current: Option<usize>) -> (a: YieldAction)
        ensures
            current is None ==> a == YieldAction::Nothing,
            current is Some ==> a == YieldAction::SwitchToScheduler,
    {
        match current {
            None => YieldAction::Nothing,
            Some(_) => YieldAction::SwitchToScheduler,
        }
    }

    /// This scheduler never asks a goroutine to yield.
    pub fn is_yield_requested() -> (b: bool)
        ensures
            !b,
    {
        false
    }

    /// There is no yield request to clear.
    pub fn clear_yield_flag() {
    }

    /// A worker's next step: end after shutdown; otherwise take the front of the run queue and
    /// mark it running (notifying another worker if more are queued), or wait when it is empty.
    pub fn worker_next(&mut self) -> (step: WorkerStep)
        requires
            old(self).wf(),
        ensures
            keeps_shutdown(old(self)@, final(self)@),
            final(self).wf(),
            old(self)@.shutdown ==> step == WorkerStep::Exit && final(self)@ == old(self)@,
            !old(self)@.shutdown && old(self)@.run_queue.len() == 0 ==> step == WorkerStep::Wait
                && final(self)@ == old(self)@,
            !old(self)@.shutdown && old(self)@.run_queue.len() > 0 ==> ({
                let id = old(self)@.run_queue[0];
                &&& step == WorkerStep::Run { id, notify_other: old(self)@.run_queue.len() > 1 }
                &&& final(self)@ == (SchedulerView {
                    run_queue: old(self)@.run_queue.subrange(1, old(self)@.run_queue.len() as int),
                    ..old(self)@.with_status(id as int, GStatus::Running)
                })
            }),
    {
        if self.shutdown {
            return WorkerStep::Exit;
        }
        match self.run_queue.pop_front() {
            None => WorkerStep::Wait,
            Some(id) => {
                assert(valid_id(old(self)@, old(self)@.run_queue[0] as int));
                self.write_status(id, GStatus::Running);
                let notify_other = self.run_queue.len() > 0;
                assert forall|j: int| 0 <= j < self@.run_queue.len() implies valid_id(self@, #[trigger] self@.run_queue[j] as int) by {
                    assert(self@.run_queue[j] == old(self)@.run_queue[j + 1]);
                }
                assert(self@ =~= SchedulerView {
                    run_queue: old(self)@.run_queue.subrange(1, old(self)@.run_queue.len() as int),
                    ..old(self)@.with_status(id as int, GStatus::Running)
                });
                WorkerStep::Run { id, notify_other }
            },
        }
    }

    /// What a worker does once goroutine `id` has switched back to it: a runnable goroutine
    /// joins the back of the run queue unless the scheduler has shut down; a waiting or dead one
    /// is left alone. The result says whether it was queued.
    pub fn worker_after_run(&mut self, id: usize) -> (requeued: bool)
        requires
            old(self).wf(),
        ensures
            keeps_shutdown(old(self)@, final(self)@),
            final(self).wf(),
            (final(self)@, requeued) == old(self)@.after_run_result(id as int),
    {
        if 1 <= id && id <= self.goroutines.len() && self.goroutines[id - 1].status() == GStatus::Runnable
            && !self.shutdown {
            self.run_queue.push_back(id);
            assert forall|j: int| 0 <= j < self@.run_queue.len() implies valid_id(self@, #[trigger] self@.run_queue[j] as int) by {
                if j < old(self)@.run_queue.len() {
                    assert(self@.run_queue[j] == old(self)@.run_queue[j]);
                }
            }
            assert(self@ =~= SchedulerView { run_queue: old(self)@.run_queue.push(id), ..old(self)@ });
            true
        } else {
            false
        }
    }

    /// Records that goroutine `id` has run its body to the end: it is completed and dead, and
    /// the runtime counts it as finished. The result says whether it was the last live one. A
    /// goroutine that is unknown or finished already changes nothing.
    pub fn finish(&mut self, rt: &mut Runtime, id: usize) -> (was_last: bool)
        requires
            old(self).wf(),
        ensures
            keeps_shutdown(old(self)@, final(self)@),
            final(self).wf(),
            valid_id(old(self)@, id as int) && !old(self)@.completed[id - 1] ==> final(self)@ == (SchedulerView {
                completed: old(self)@.completed.update(id - 1, true),
                ..old(self)@.with_status(id as int, GStatus::Dead)
            }) && final(rt).spec_active() == old(rt).spec_active().wrapping_sub(1) && was_last == (old(
                rt,
            ).spec_active() == 1),
            !(valid_id(old(self)@, id as int) && !old(self)@.completed[id - 1]) ==> final(self)@ == old(self)@
                && final(rt).spec_active() == old(rt).spec_active() && !was_last,
            final(rt).spec_total() == old(rt).spec_total(),
            final(rt).spec_shutting_down() == old(rt).spec_shutting_down(),
            final(rt).spec_start_time() == old(rt).spec_start_time(),
            old(rt).spec_active() == live_count(old(self)@.completed) ==> final(rt).spec_active() == live_count(
                final(self)@.completed,
            ),
    {
        if 1 <= id && id <= self.goroutines.len() && !self.goroutines[id - 1].is_completed() {
            assert(old(self)@.completed[id - 1] == old(self).goroutines@[id - 1].completed);
            self.goroutines.set(id - 1, G { id, status: GStatus::Dead, completed: true });
            assert(self@.statuses =~= old(self)@.with_status(id as int, GStatus::Dead).statuses);
            assert(self@.completed =~= old(self)@.completed.update(id - 1, true));
            assert(self@ =~= SchedulerView {
                completed: old(self)@.completed.update(id - 1, true),
                ..old(self)@.with_status(id as int, GStatus::Dead)
            });
            proof {
                lemma_live_count_finish(old(self)@.completed, id - 1);
            }
            rt.untrack_goroutine()
        } else {
            proof {
                if 1 <= id && id <= old(self).goroutines@.len() {
                    assert(old(self)@.completed[id - 1] == old(self).goroutines@[id - 1].completed);
                }
            }
            false
        }
    }
}

/// The number of goroutines that have not completed.
pub open spec fn live_count(completed: Seq<bool>) -> nat
    decreases completed.len(),
{
    if completed.len() == 0 {
        0
    } else {
        live_count(completed.drop_last()) + if completed.last() {
            0nat
        } else {
            1nat
        }
    }
}

proof fn lemma_live_count_push(c: Seq<bool>)
    ensures
        live_count(c.push(false)) == live_count(c) + 1,
{
    assert(c.push(false).drop_last() =~= c);
}

proof fn lemma_live_count_finish(c: Seq<bool>, i: int)
    requires
        0 <= i < c.len(),
        !c[i],
    ensures
        live_count(c) >= 1,
        live_count(c.update(i, true)) == live_count(c) - 1,
    decreases c.len(),
{
    if i == c.len() - 1 {
        assert(c.update(i, true).drop_last() =~= c.drop_last());
    } else {
        lemma_live_count_finish(c.drop_last(), i);
        assert(c.update(i, true).drop_last() =~= c.drop_last().update(i, true));
    }
}

/// No step clears the shutdown flag: a scheduler that was shut down before stays shut down
/// after. Every operation that changes the scheduler states this of itself.
pub open spec fn keeps_shutdown(before: SchedulerView, after: SchedulerView) -> bool {
    before.shutdown ==> after.shutdown
}

/// Along any run of operations (each keeping the shutdown flag, as every operation's contract
/// says), once the scheduler is shut down it stays shut down: `is_running` never returns true
/// again.
pub proof fn law_shutdown_persists(vs: Seq<SchedulerView>, i: int, j: int)
    requires
        forall|k: int| 0 <= k < vs.len() - 1 ==> keeps_shutdown(#[trigger] vs[k], vs[k + 1]),
        0 <= i <= j < vs.len(),
        vs[i].shutdown,
    ensures
        vs[j].shutdown,
    decreases j - i,
{
    if i < j {
        assert(keeps_shutdown(vs[i], vs[i + 1]));
        law_shutdown_persists(vs, i + 1, j);
    }
}

/// Once shut down, the scheduler stays shut down: waking one goroutine or a batch, yielding and
/// re-queueing after a run all keep the flag (and every method's contract keeps or sets it; none
/// clears it).
pub proof fn law_shutdown_is_final(v: SchedulerView, id: int, ids: Seq<usize>, current: Option<usize>)
    requires
        v.shutdown,
    ensures
        v.wake_result(id).0.shutdown,
        v.wake_batch_result(ids).0.shutdown,
        v.yield_result(current).0.shutdown,
        v.after_run_result(id).0.shutdown,
{
}

/// Yielding never wakes a parked goroutine: one that waits (on a channel or a timer) keeps
/// waiting and the scheduler does not change, so the worker does not queue it again; only a
/// wake does. A running or runnable goroutine that yields becomes runnable, and its worker
/// queues it at the back unless the scheduler has shut down.
pub proof fn law_yield_keeps_parked_goroutines_parked(v: SchedulerView, id: usize)
    requires
        v.valid(),
        valid_id(v, id as int),
    ensures
        v.status_of(id as int) == GStatus::Waiting ==> {
            &&& v.yield_result(Some(id)).0 == v
            &&& v.yield_result(Some(id)).0.status_of(id as int) == GStatus::Waiting
            &&& v.yield_result(Some(id)).0.after_run_result(id as int) == (v, false)
        },
        (v.status_of(id as int) == GStatus::Running || v.status_of(id as int) == GStatus::Runnable) ==> {
            &&& v.yield_result(Some(id)).0.status_of(id as int) == GStatus::Runnable
            &&& v.yield_result(Some(id)).0.run_queue == v.run_queue
            &&& !v.shutdown ==> v.yield_result(Some(id)).0.after_run_result(id as int).1
                && v.yield_result(Some(id)).0.after_run_result(id as int).0.run_queue == v.run_queue.push(id)
        },
{
}

/// Waking a goroutine twice queues it once: the second wake finds it runnable and does nothing.
pub proof fn law_wake_twice_queues_once(v: SchedulerView, id: int)
    requires
        v.valid(),
    ensures
        v.wake_result(id).0.wake_result(id) == (v.wake_result(id).0, false),
        v.wake_result(id).0.run_queue.len() <= v.run_queue.len() + 1,
{
}

/// Once the scheduler has shut down, waking changes nothing and notifies nobody.
pub proof fn law_shutdown_wakes_nobody(v: SchedulerView, id: int, ids: Seq<usize>)
    requires
        v.shutdown,
    ensures
        v.wake_result(id) == (v, false),
        v.wake_batch_result(ids) == (v, 0nat),
{
}

/// A running goroutine that yields is put back at the end of the run queue by its worker,
/// behind every goroutine that was already queued.
pub proof fn law_yield_requeues_at_back(v: SchedulerView, id: usize)
    requires
        v.valid(),
        !v.shutdown,
        valid_id(v, id as int),
        v.status_of(id as int) == GStatus::Running,
    ensures
        v.yield_result(Some(id)).1 == YieldAction::SwitchToScheduler,
        v.yield_result(Some(id)).0.after_run_result(id as int) == (
            SchedulerView {
                run_queue: v.run_queue.push(id),
                ..v.with_status(id as int, GStatus::Runnable)
            },
            true,
        ),
{
}

/// A goroutine that parked itself (waiting) is not queued again by its worker; only a wake
/// queues it, once.
pub proof fn law_waiting_stays_until_woken(v: SchedulerView, id: usize)
    requires
        v.valid(),
        !v.shutdown,
        valid_id(v, id as int),
        v.status_of(id as int) == GStatus::Waiting,
    ensures
        v.after_run_result(id as int) == (v, false),
        v.wake_result(id as int).1,
        v.wake_result(id as int).0.run_queue == v.run_queue.push(id),
        v.wake_result(id as int).0.status_of(id as int) == GStatus::Runnable,
{
}


/// Creates a goroutine and queues it (see `Scheduler::go`).
pub fn go(sched: &mut Scheduler, rt: &mut Runtime, batch: &mut GoBatch) -> (r: Spawned)
    requires
        old(sched).wf(),
        old(sched)@.next_g_id < usize::MAX,
        forall|i: int| 0 <= i < old(batch).items().len() ==> valid_id(old(sched)@, #[trigger] old(batch).items()[i] as int),
    ensures
        keeps_shutdown(old(sched)@, final(sched)@),
        final(sched).wf(),
        r.id == old(sched)@.next_g_id,
        valid_id(final(sched)@, r.id as int),
        final(sched)@ == (SchedulerView {
            next_g_id: old(sched)@.next_g_id + 1,
            statuses: old(sched)@.statuses.push(GStatus::Runnable),
            completed: old(sched)@.completed.push(false),
            run_queue: old(sched)@.run_queue + old(batch).items().push(r.id),
            ..old(sched)@
        }),
        final(batch).items() == Seq::<usize>::empty(),
        r.notify == (if old(sched)@.run_queue.len() == 0 {
            notify_count(old(sched)@.worker_count, old(batch).items().len() + 1)
        } else {
            0
        }),
        final(rt).spec_active() == old(rt).spec_active().wrapping_add(1),
        final(rt).spec_total() == old(rt).spec_total().wrapping_add(1),
        final(rt).spec_shutting_down() == old(rt).spec_shutting_down(),
        final(rt).spec_start_time() == old(rt).spec_start_time(),
        old(rt).spec_active() == live_count(old(sched)@.completed) && old(rt).spec_active() < usize::MAX
            ==> final(rt).spec_active() == live_count(final(sched)@.completed),
{
    sched.go(rt, batch)
}

/// Creates a goroutine whose body is run again after each yield until it reports that it is
/// done; as far as scheduling goes it is an ordinary goroutine (see `Scheduler::go`).
pub fn go_task(sched: &mut Scheduler, rt: &mut Runtime, batch: &mut GoBatch) -> (r: Spawned)
    requires
        old(sched).wf(),
        old(sched)@.next_g_id < usize::MAX,
        forall|i: int| 0 <= i < old(batch).items().len() ==> valid_id(old(sched)@, #[trigger] old(batch).items()[i] as int),
    ensures
        keeps_shutdown(old(sched)@, final(sched)@),
        final(sched).wf(),
        r.id == old(sched)@.next_g_id,
        valid_id(final(sched)@, r.id as int),
        final(sched)@ == (SchedulerView {
            next_g_id: old(sched)@.next_g_id + 1,
            statuses: old(sched)@.statuses.push(GStatus::Runnable),
            completed: old(sched)@.completed.push(false),
            run_queue: old(sched)@.run_queue + old(batch).items().push(r.id),
            ..old(sched)@
        }),
        final(batch).items() == Seq::<usize>::empty(),
        r.notify == (if old(sched)@.run_queue.len() == 0 {
            notify_count(old(sched)@.worker_count, old(batch).items().len() + 1)
        } else {
            0
        }),
        final(rt).spec_active() == old(rt).spec_active().wrapping_add(1),
        final(rt).spec_total() == old(rt).spec_total().wrapping_add(1),
        final(rt).spec_shutting_down() == old(rt).spec_shutting_down(),
        final(rt).spec_start_time() == old(rt).spec_start_time(),
        old(rt).spec_active() == live_count(old(sched)@.completed) && old(rt).spec_active() < usize::MAX
            ==> final(rt).spec_active() == live_count(final(sched)@.completed),
{
    sched.go(rt, batch)
}

/// Gives up the processor (see `Scheduler::yield_now`).
pub fn yield_now(sched: &mut Scheduler, current: Option<usize>) -> (a: YieldAction)
    requires
        old(sched).wf(),
    ensures
        keeps_shutdown(old(sched)@, final(sched)@),
        final(sched).wf(),
        (final(sched)@, a) == old(sched)@.yield_result(current),
{
    sched.yield_now(current)
}

/// Same as `yield_now`.
pub fn yield_goroutine(sched: &mut Scheduler, current: Option<usize>) -> (a: YieldAction)
    requires
        old(sched).wf(),
    ensures
        keeps_shutdown(old(sched)@, final(sched)@),
        final(sched).wf(),
        (final(sched)@, a) == old(sched)@.yield_result(current),
{
    sched.yield_goroutine(current)
}

/// Same as `yield_now`.
pub fn yield_to_scheduler(sched: &mut Scheduler, current: Option<usize>) -> (a: YieldAction)
    requires
        old(sched).wf(),
    ensures
        keeps_shutdown(old(sched)@, final(sched)@),
        final(sched).wf(),
        (final(sched)@, a) == old(sched)@.yield_result(current),
{
    sched.yield_to_scheduler(current)
}

/// Switches to the scheduling loop without touching the goroutine's status.
pub fn yield_to_scheduler_direct(current: Option<usize>) -> (a: YieldAction)
    ensures
        current is None ==> a == YieldAction::Nothing,
        current is Some ==> a == YieldAction::SwitchToScheduler,
{
    Scheduler::yield_to_scheduler_direct(current)
}

/// Shuts the scheduler, the timer and the network poller down (see `Scheduler::shutdown`).
pub fn shutdown(sched: &mut Scheduler, timer: &mut Timer, np: &mut Netpoller)
    requires
        old(sched).wf(),
        old(timer).wf(),
    ensures
        keeps_shutdown(old(sched)@, final(sched)@),
        final(sched).wf(),
        final(sched)@ == (SchedulerView { shutdown: true, ..old(sched)@ }),
        final(timer).wf(),
        final(timer)@ == (TimerView { shutdown: true, ..old(timer)@ }),
        final(np)@ == (NetpollerView { running: false, ..old(np)@ }),
{
    sched.shutdown(timer, np)
}

/// The goroutine that a caller outside the scheduling loop is running in (never reported).
pub fn current_g() -> (g: Option<usize>)
    ensures
        g is None,
{
    Scheduler::current_g()
}

/// This scheduler never asks a goroutine to yield.
pub fn is_yield_requested() -> (b: bool)
    ensures
        !b,
{
    Scheduler::is_yield_requested()
}

/// There is no yield request to clear.
pub fn clear_yield_flag() {
    Scheduler::clear_yield_flag()
}

/// The number of goroutines in the run queue.
pub fn pending_goroutines(sched: &Scheduler) -> (n: usize)
    ensures
        n == sched@.run_queue.len(),
{
    sched.pending_goroutines()
}

/// Moves this thread's batch to the run queue (see `Scheduler::flush_go_batch`).
pub fn flush_go_batch(sched: &mut Scheduler, batch: &mut GoBatch) -> (notify: usize)
    requires
        old(sched).wf(),
        forall|i: int| 0 <= i < old(batch).items().len() ==> valid_id(old(sched)@, #[trigger] old(batch).items()[i] as int),
    ensures
        keeps_shutdown(old(sched)@, final(sched)@),
        final(sched).wf(),
        final(batch).items() == Seq::<usize>::empty(),
        final(sched)@ == (SchedulerView { run_queue: old(sched)@.run_queue + old(batch).items(), ..old(sched)@ }),
        notify == (if old(sched)@.run_queue.len() == 0 && old(batch).items().len() > 0 {
            notify_count(old(sched)@.worker_count, old(batch).items().len() as nat)
        } else {
            0
        }),
{
    sched.flush_go_batch(batch)
}

/// Wakes goroutine `id` if it waits (see `Scheduler::wake_g`).
pub fn wake_g(sched: &mut Scheduler, id: usize) -> (notify: bool)
    requires
        old(sched).wf(),
    ensures
        keeps_shutdown(old(sched)@, final(sched)@),
        final(sched).wf(),
        (final(sched)@, notify) == old(sched)@.wake_result(id as int),
{
    sched.wake_g(id)
}

/// Wakes the waiting goroutines among `ids` (see `Scheduler::wake_g_batch`).
pub fn wake_g_batch(sched: &mut Scheduler, ids: Vec<usize>) -> (notify: usize)
    requires
        old(sched).wf(),
    ensures
        keeps_shutdown(old(sched)@, final(sched)@),
        final(sched).wf(),
        final(sched)@ == old(sched)@.wake_batch_result(ids@).0,
        notify == old(sched)@.wake_batch_result(ids@).1,
{
    sched.wake_g_batch(ids)
}

} // verus!
