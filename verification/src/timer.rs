use crate::scheduler::{GStatus, Scheduler, SchedulerView, YieldAction, valid_id};
use vstd::prelude::*;

verus! {

/// A sleeping goroutine and the time (milliseconds on a monotonic clock) at which it wakes.
#[derive(Debug, Clone, Copy, PartialEq, Eq, Structural)]
pub struct TimerEntry {
    pub wake_at: u64,
    pub g: usize,
}

/// Whether the deadlines in `s` never decrease.
pub open spec fn sorted_by_deadline(s: Seq<TimerEntry>) -> bool {
    forall|i: int, j: int| 0 <= i <= j < s.len() ==> (#[trigger] s[i]).wake_at <= (#[trigger] s[j]).wake_at
}

/// The length of the longest prefix of `s` whose deadlines are not after `t`.
pub open spec fn due_prefix_len(s: Seq<TimerEntry>, t: u64) -> nat
    decreases s.len(),
{
    if s.len() == 0 {
        0
    } else if s[0].wake_at <= t {
        1 + due_prefix_len(s.subrange(1, s.len() as int), t)
    } else {
        0
    }
}

/// The goroutines of a sequence of entries, in order.
pub open spec fn goroutines_of(s: Seq<TimerEntry>) -> Seq<usize> {
    s.map_values(|e: TimerEntry| e.g)
}

/// A split point: everything before `p` is due at `t`, nothing from `p` on is.
proof fn lemma_due_prefix_len(s: Seq<TimerEntry>, t: u64, p: int)
    requires
        0 <= p <= s.len(),
        forall|k: int| 0 <= k < p ==> (#[trigger] s[k]).wake_at <= t,
        p == s.len() || s[p].wake_at > t,
    ensures
        due_prefix_len(s, t) == p,
    decreases p,
{
    if p > 0 {
        let rest = s.subrange(1, s.len() as int);
        assert forall|k: int| 0 <= k < p - 1 implies (#[trigger] rest[k]).wake_at <= t by {
            assert(rest[k] == s[k + 1]);
        }
        if p < s.len() {
            assert(rest[p - 1] == s[p]);
        }
        lemma_due_prefix_len(rest, t, p - 1);
    }
}

/// In a sorted sequence, the due prefix holds exactly the entries that are due.
pub proof fn lemma_due_prefix_sorted(s: Seq<TimerEntry>, t: u64)
    requires
        sorted_by_deadline(s),
    ensures
        due_prefix_len(s, t) <= s.len(),
        forall|k: int| 0 <= k < due_prefix_len(s, t) ==> (#[trigger] s[k]).wake_at <= t,
        forall|k: int| due_prefix_len(s, t) <= k < s.len() ==> (#[trigger] s[k]).wake_at > t,
    decreases s.len(),
{
    if s.len() > 0 && s[0].wake_at <= t {
        let rest = s.subrange(1, s.len() as int);
        assert(sorted_by_deadline(rest)) by {
            assert forall|i: int, j: int| 0 <= i <= j < rest.len() implies (#[trigger] rest[i]).wake_at <= (
            #[trigger] rest[j]).wake_at by {
                assert(rest[i] == s[i + 1]);
                assert(rest[j] == s[j + 1]);
            }
        }
        lemma_due_prefix_sorted(rest, t);
        assert forall|k: int| 0 <= k < due_prefix_len(s, t) implies (#[trigger] s[k]).wake_at <= t by {
            if k > 0 {
                assert(s[k] == rest[k - 1]);
            }
        }
        assert forall|k: int| due_prefix_len(s, t) <= k < s.len() implies (#[trigger] s[k]).wake_at > t by {
            assert(s[k] == rest[k - 1]);
        }
    } else if s.len() > 0 {
        assert forall|k: int| 0 <= k < s.len() implies (#[trigger] s[k]).wake_at > t by {
            assert(s[0].wake_at <= s[k].wake_at);
        }
    }
}

/// The abstract state of the timer: the sleeping goroutines by deadline, whether its thread
/// was started and whether it was shut down.
#[verifier::ext_equal]
pub struct TimerView {
    pub entries: Seq<TimerEntry>,
    pub started: bool,
    pub shutdown: bool,
}

impl TimerView {
    /// The entries are kept in deadline order.
    pub open spec fn valid(self) -> bool {
        sorted_by_deadline(self.entries)
    }

    /// Adding an entry places it after every entry that is not due later (so entries with the
    /// same deadline wake in the order they were added).
    pub open spec fn add_result(self, e: TimerEntry) -> Self {
        let p = due_prefix_len(self.entries, e.wake_at);
        TimerView { entries: self.entries.insert(p as int, e), ..self }
    }

    /// Taking the due entries at time `now`: the goroutines to wake, earliest first, and the
    /// state without them.
    pub open spec fn expire_result(self, now: u64) -> (Self, Seq<usize>) {
        let p = due_prefix_len(self.entries, now);
        (
            TimerView { entries: self.entries.subrange(p as int, self.entries.len() as int), ..self },
            goroutines_of(self.entries.subrange(0, p as int)),
        )
    }
}

/// What the timer thread is to do next.
#[derive(Debug)]
pub enum TimerAction {
    /// The timer was shut down: the thread ends.
    Exit,
    /// Wake these goroutines (then look again).
    Wake(Vec<usize>),
    /// Nothing is pending: sleep until notified.
    WaitForever,
    /// Sleep for this many milliseconds or until notified.
    WaitFor(u64),
}

/// What a call of `sleep` is to do.
#[derive(Debug, PartialEq, Eq, Structural)]
pub enum SleepAction {
    /// A zero duration: give up the processor as `yield_now` says.
    Yield(YieldAction),
    /// Not inside a goroutine: put the thread to sleep for this many milliseconds.
    ThreadSleep(u64),
    /// The goroutine waits for the timer: notify the timer thread and switch to the scheduler.
    Parked,
}

/// What `sleep` decided, and whether the timer thread has to be started first.
#[derive(Debug, PartialEq, Eq, Structural)]
pub struct SleepOutcome {
    pub start_timer_thread: bool,
    pub action: SleepAction,
}

/// The timer: sleeping goroutines ordered by deadline, and the count of pending entries.
pub struct Timer {
    entries: Vec<TimerEntry>,
    started: bool,
    shutdown: bool,
    entry_count: usize,
}

impl Timer {
    pub closed spec fn model(&self) -> TimerView {
        TimerView { entries: self.entries@, started: self.started, shutdown: self.shutdown }
    }

    /// The entries are sorted and the pending count matches them.
    pub closed spec fn wf(&self) -> bool {
        &&& self.model().valid()
        &&& self.entry_count == self.entries@.len()
    }
    /// A well-formed timer has a valid view: its entries are in deadline order.
    pub proof fn lemma_wf_valid(&self)
        requires
            self.wf(),
        ensures
            self@.valid(),
    {
    }
}

impl View for Timer {
    type V = TimerView;

    open spec fn view(&self) -> TimerView {
        self.model()
    }
}

impl Timer {
    /// A timer with nothing pending and no thread.
    pub fn new() -> (t: Timer)
        ensures
            t.wf(),
            t@ == (TimerView { entries: Seq::empty(), started: false, shutdown: false }),
    {
        let t = Timer { entries: Vec::new(), started: false, shutdown: false, entry_count: 0 };
        assert(t@ =~= TimerView { entries: Seq::empty(), started: false, shutdown: false });
        t
    }

    /// Marks the timer thread as started; the result says whether it has to be started now
    /// (only the first call says so).
    pub fn init_timer_thread(&mut self) -> (start: bool)
        requires
            old(self).wf(),
        ensures
            final(self).wf(),
            start == !old(self)@.started,
            final(self)@ == (TimerView { started: true, ..old(self)@ }),
    {
        let start = !self.started;
        self.started = true;
        assert(self@ =~= TimerView { started: true, ..old(self)@ });
        start
    }

    /// Adds a sleeping goroutine, keeping the entries in deadline order.
    pub fn add(&mut self, e: TimerEntry)
        requires
            old(self).wf(),
            old(self)@.entries.len() < usize::MAX,
        ensures
            final(self).wf(),
            final(self)@ == old(self)@.add_result(e),
    {
        let n = self.entries.len();
        let mut p: usize = 0;
        while p < n && self.entries[p].wake_at <= e.wake_at
            invariant
                0 <= p <= n,
                n == self.entries@.len(),
                self.entries@ == old(self).entries@,
                forall|k: int| 0 <= k < p ==> (#[trigger] self.entries@[k]).wake_at <= e.wake_at,
            decreases n - p,
        {
            p = p + 1;
        }
        proof {
            lemma_due_prefix_len(self.entries@, e.wake_at, p as int);
        }
        self.entries.insert(p, e);
        self.entry_count = self.entry_count + 1;
        let ghost s = old(self).entries@;
        assert(self.entries@ == s.insert(p as int, e));
        assert(sorted_by_deadline(self.entries@)) by {
            lemma_due_prefix_sorted(s, e.wake_at);
            assert forall|i: int, j: int| 0 <= i <= j < self.entries@.len() implies (
            #[trigger] self.entries@[i]).wake_at <= (#[trigger] self.entries@[j]).wake_at by {
                let q = self.entries@;
                if i < p && j < p {
                    assert(q[i] == s[i] && q[j] == s[j]);
                } else if i < p && j == p {
                    assert(q[i] == s[i]);
                } else if i < p && j > p {
                    assert(q[i] == s[i] && q[j] == s[j - 1]);
                } else if i == p && j > p {
                    assert(q[j] == s[j - 1]);
                } else if i > p {
                    assert(q[i] == s[i - 1] && q[j] == s[j - 1]);
                }
            }
        }
        assert(self@ =~= old(self)@.add_result(e));
    }

    /// Takes every entry that is due at `now`; the result lists their goroutines, earliest first.
    pub fn expire(&mut self, now: u64) -> (ids: Vec<usize>)
        requires
            old(self).wf(),
        ensures
            final(self).wf(),
            final(self)@ == old(self)@.expire_result(now).0,
            ids@ == old(self)@.expire_result(now).1,
    {
        let n = self.entries.len();
        let mut p: usize = 0;
        let mut ids: Vec<usize> = Vec::new();
        while p < n && self.entries[p].wake_at <= now
            invariant
                0 <= p <= n,
                n == self.entries@.len(),
                self.entries@ == old(self).entries@,
                forall|k: int| 0 <= k < p ==> (#[trigger] self.entries@[k]).wake_at <= now,
                ids@ == goroutines_of(self.entries@.subrange(0, p as int)),
            decreases n - p,
        {
            ids.push(self.entries[p].g);
            assert(goroutines_of(self.entries@.subrange(0, p + 1)) =~= goroutines_of(
                self.entries@.subrange(0, p as int),
            ).push(self.entries@[p as int].g));
            p = p + 1;
        }
        proof {
            lemma_due_prefix_len(self.entries@, now, p as int);
        }
        let ghost s = old(self).entries@;
        let rest = self.entries.split_off(p);
        self.entries = rest;
        self.entry_count = self.entry_count - p;
        assert(self.entries@ =~= s.subrange(p as int, s.len() as int));
        assert(sorted_by_deadline(self.entries@)) by {
            assert forall|i: int, j: int| 0 <= i <= j < self.entries@.len() implies (
            #[trigger] self.entries@[i]).wake_at <= (#[trigger] self.entries@[j]).wake_at by {
                assert(self.entries@[i] == s[i + p] && self.entries@[j] == s[j + p]);
            }
        }
        assert(self@ =~= old(self)@.expire_result(now).0);
        ids
    }

    /// The deadline of the earliest entry, if any.
    pub fn next_deadline(&self) -> (d: Option<u64>)
        ensures
            self@.entries.len() == 0 ==> d is None,
            self@.entries.len() > 0 ==> d == Some(self@.entries[0].wake_at),
    {
        if self.entries.len() == 0 {
            None
        } else {
            Some(self.entries[0].wake_at)
        }
    }

    /// One round of the timer thread at time `now`: end after shutdown; otherwise take the due
    /// entries and wake their goroutines; with none due, sleep until the earliest deadline, or
    /// until notified when nothing is pending.
    pub fn timer_step(&mut self, now: u64) -> (a: TimerAction)
        requires
            old(self).wf(),
        ensures
            final(self).wf(),
            old(self)@.shutdown ==> a == TimerAction::Exit && final(self)@ == old(self)@,
            !old(self)@.shutdown ==> final(self)@ == old(self)@.expire_result(now).0,
            !old(self)@.shutdown && old(self)@.expire_result(now).1.len() > 0 ==> a is Wake && a->Wake_0@
                == old(self)@.expire_result(now).1,
            !old(self)@.shutdown && old(self)@.expire_result(now).1.len() == 0 && old(self)@.entries.len() == 0
                ==> a == TimerAction::WaitForever,
            !old(self)@.shutdown && old(self)@.expire_result(now).1.len() == 0 && old(self)@.entries.len() > 0
                ==> a == TimerAction::WaitFor((old(self)@.entries[0].wake_at - now) as u64) && old(self)@.entries[0].wake_at > now,
    {
        if self.shutdown {
            return TimerAction::Exit;
        }
        let ids = self.expire(now);
        if ids.len() > 0 {
            return TimerAction::Wake(ids);
        }
        proof {
            lemma_due_prefix_sorted(old(self)@.entries, now);
            assert(self@.entries =~= old(self)@.entries);
        }
        match self.next_deadline() {
            None => TimerAction::WaitForever,
            Some(w) => TimerAction::WaitFor(w - now),
        }
    }

    /// Marks the timer as shut down; its thread ends at its next round.
    pub fn shutdown_timer(&mut self)
        requires
            old(self).wf(),
        ensures
            final(self).wf(),
            final(self)@ == (TimerView { shutdown: true, ..old(self)@ }),
    {
        self.shutdown = true;
        assert(self@ =~= TimerView { shutdown: true, ..old(self)@ });
    }

    /// The number of sleeping goroutines.
    pub fn pending_timer_count(&self) -> (n: usize)
        requires
            self.wf(),
        ensures
            n == self@.entries.len(),
    {
        self.entry_count
    }

    /// Puts goroutine `current` to sleep until `now + duration` (milliseconds).
    ///
    /// A zero duration only yields. Otherwise the timer thread is started if needed; outside a
    /// goroutine the thread itself sleeps; inside one, the goroutine is marked waiting and gets a
    /// timer entry, and must then switch to the scheduler.
    pub fn sleep(
        &mut self,
        sched: &mut Scheduler,
        current: Option<usize>,
        now: u64,
        duration: u64,
    ) -> (r: SleepOutcome)
        requires
            old(self).wf(),
            old(sched).wf(),
            old(self)@.entries.len() < usize::MAX,
            current is Some ==> now + duration <= u64::MAX,
        ensures
            final(self).wf(),
            final(sched).wf(),
            duration == 0 ==> r.action == SleepAction::Yield(old(sched)@.yield_result(current).1) && final(sched)@
                == old(sched)@.yield_result(current).0 && final(self)@ == old(self)@ && !r.start_timer_thread,
            duration > 0 ==> r.start_timer_thread == !old(self)@.started,
            duration > 0 && current is None ==> r.action == SleepAction::ThreadSleep(duration) && final(sched)@
                == old(sched)@ && final(self)@ == (TimerView { started: true, ..old(self)@ }),
            duration > 0 && current is Some ==> ({
                let g = current->0;
                &&& r.action == SleepAction::Parked
                &&& final(sched)@ == (if valid_id(old(sched)@, g as int) {
                    old(sched)@.with_status(g as int, GStatus::Waiting)
                } else {
                    old(sched)@
                })
                &&& final(self)@ == (TimerView { started: true, ..old(self)@ }).add_result(
                    TimerEntry { wake_at: (now + duration) as u64, g },
                )
            }),
    {
        if duration == 0 {
            let a = sched.yield_now(current);
            return SleepOutcome { start_timer_thread: false, action: SleepAction::Yield(a) };
        }
        let start = self.init_timer_thread();
        match current {
            None => SleepOutcome { start_timer_thread: start, action: SleepAction::ThreadSleep(duration) },
            Some(g) => {
                sched.set_status(g, GStatus::Waiting);
                let wake_at = now + duration;
                self.add(TimerEntry { wake_at, g });
                SleepOutcome { start_timer_thread: start, action: SleepAction::Parked }
            },
        }
    }

    /// `sleep` for `ms` milliseconds.
    pub fn sleep_ms(&mut self, sched: &mut Scheduler, current: Option<usize>, now: u64, ms: u64) -> (r:
        SleepOutcome)
        requires
            old(self).wf(),
            old(sched).wf(),
            old(self)@.entries.len() < usize::MAX,
            current is Some ==> now + ms <= u64::MAX,
        ensures
            final(self).wf(),
            final(sched).wf(),
            ms == 0 ==> r.action == SleepAction::Yield(old(sched)@.yield_result(current).1) && final(sched)@
                == old(sched)@.yield_result(current).0 && final(self)@ == old(self)@ && !r.start_timer_thread,
            ms > 0 ==> r.start_timer_thread == !old(self)@.started,
            ms > 0 && current is None ==> r.action == SleepAction::ThreadSleep(ms) && final(sched)@
                == old(sched)@ && final(self)@ == (TimerView { started: true, ..old(self)@ }),
            ms > 0 && current is Some ==> ({
                let g = current->0;
                &&& r.action == SleepAction::Parked
                &&& final(sched)@ == (if valid_id(old(sched)@, g as int) {
                    old(sched)@.with_status(g as int, GStatus::Waiting)
                } else {
                    old(sched)@
                })
                &&& final(self)@ == (TimerView { started: true, ..old(self)@ }).add_result(
                    TimerEntry { wake_at: (now + ms) as u64, g },
                )
            }),
    {
        self.sleep(sched, current, now, ms)
    }
}

/// Every entry of a valid timer that is due at `now` is taken, its goroutine is among those
/// woken, and every entry left is due later.
pub proof fn law_expire_takes_exactly_the_due(v: TimerView, now: u64)
    requires
        v.valid(),
    ensures
        forall|i: int| 0 <= i < v.entries.len() && (#[trigger] v.entries[i]).wake_at <= now ==> v.expire_result(
            now,
        ).1.contains(v.entries[i].g),
        forall|i: int| 0 <= i < v.expire_result(now).0.entries.len() ==> (#[trigger] v.expire_result(
            now,
        ).0.entries[i]).wake_at > now,
        v.expire_result(now).0.entries.len() + v.expire_result(now).1.len() == v.entries.len(),
{
    lemma_due_prefix_sorted(v.entries, now);
    let p = due_prefix_len(v.entries, now);
    assert forall|i: int| 0 <= i < v.entries.len() && (#[trigger] v.entries[i]).wake_at <= now implies v.expire_result(
        now,
    ).1.contains(v.entries[i].g) by {
        assert(i < p);
        assert(v.expire_result(now).1[i] == v.entries[i].g);
    }
    assert forall|i: int| 0 <= i < v.expire_result(now).0.entries.len() implies (#[trigger] v.expire_result(
        now,
    ).0.entries[i]).wake_at > now by {
        assert(v.expire_result(now).0.entries[i] == v.entries[i + p]);
    }
}

/// A goroutine put to sleep for `duration` is among those woken by the first timer round at
/// or after its deadline.
pub proof fn law_sleeper_wakes_at_deadline(v: TimerView, g: usize, now: u64, duration: u64, later: u64)
    requires
        v.valid(),
        now + duration <= u64::MAX,
        later >= now + duration,
    ensures
        v.add_result(TimerEntry { wake_at: (now + duration) as u64, g }).valid(),
        v.add_result(TimerEntry { wake_at: (now + duration) as u64, g }).expire_result(later).1.contains(g),
{
    let e = TimerEntry { wake_at: (now + duration) as u64, g };
    let s = v.entries;
    lemma_due_prefix_sorted(s, e.wake_at);
    let p = due_prefix_len(s, e.wake_at);
    let w = v.add_result(e);
    assert(w.entries == s.insert(p as int, e));
    assert(sorted_by_deadline(w.entries)) by {
        assert forall|i: int, j: int| 0 <= i <= j < w.entries.len() implies (#[trigger] w.entries[i]).wake_at <= (
        #[trigger] w.entries[j]).wake_at by {
            let q = w.entries;
            if i < p && j < p {
                assert(q[i] == s[i] && q[j] == s[j]);
            } else if i < p && j == p {
                assert(q[i] == s[i]);
            } else if i < p && j > p {
                assert(q[i] == s[i] && q[j] == s[j - 1]);
            } else if i == p && j > p {
                assert(q[j] == s[j - 1]);
            } else if i > p {
                assert(q[i] == s[i - 1] && q[j] == s[j - 1]);
            }
        }
    }
    assert(w.entries[p as int] == e);
    law_expire_takes_exactly_the_due(w, later);
}

/// The pending count (the number of entries, see `pending_timer_count`) follows the sleepers:
/// each goroutine put to sleep adds one entry, and each timer round removes exactly the entries
/// it fires. (A new timer has none, see `Timer::new`.)
pub proof fn law_pending_counts_sleepers(v: TimerView, e: TimerEntry, now: u64)
    requires
        v.valid(),
    ensures
        v.add_result(e).entries.len() == v.entries.len() + 1,
        v.expire_result(now).0.entries.len() == v.entries.len() - v.expire_result(now).1.len(),
{
    lemma_due_prefix_sorted(v.entries, e.wake_at);
    lemma_due_prefix_sorted(v.entries, now);
}

/// A goroutine that sleeps (see `Timer::sleep`).
pub fn sleep(timer: &mut Timer, sched: &mut Scheduler, current: Option<usize>, now: u64, duration: u64) -> (r:
    SleepOutcome)
    requires
        old(timer).wf(),
        old(sched).wf(),
        old(timer)@.entries.len() < usize::MAX,
        current is Some ==> now + duration <= u64::MAX,
    ensures
        final(timer).wf(),
        final(sched).wf(),
        duration == 0 ==> r.action == SleepAction::Yield(old(sched)@.yield_result(current).1) && final(sched)@
            == old(sched)@.yield_result(current).0 && final(timer)@ == old(timer)@ && !r.start_timer_thread,
        duration > 0 ==> r.start_timer_thread == !old(timer)@.started,
        duration > 0 && current is None ==> r.action == SleepAction::ThreadSleep(duration) && final(sched)@
            == old(sched)@ && final(timer)@ == (TimerView { started: true, ..old(timer)@ }),
        duration > 0 && current is Some ==> ({
            let g = current->0;
            &&& r.action == SleepAction::Parked
            &&& final(sched)@ == (if valid_id(old(sched)@, g as int) {
                old(sched)@.with_status(g as int, GStatus::Waiting)
            } else {
                old(sched)@
            })
            &&& final(timer)@ == (TimerView { started: true, ..old(timer)@ }).add_result(
                TimerEntry { wake_at: (now + duration) as u64, g },
            )
        }),
{
    timer.sleep(sched, current, now, duration)
}

/// `sleep` for `ms` milliseconds.
pub fn sleep_ms(timer: &mut Timer, sched: &mut Scheduler, current: Option<usize>, now: u64, ms: u64) -> (r:
    SleepOutcome)
    requires
        old(timer).wf(),
        old(sched).wf(),
        old(timer)@.entries.len() < usize::MAX,
        current is Some ==> now + ms <= u64::MAX,
    ensures
        final(timer).wf(),
        final(sched).wf(),
        ms == 0 ==> r.action == SleepAction::Yield(old(sched)@.yield_result(current).1) && final(sched)@
            == old(sched)@.yield_result(current).0 && final(timer)@ == old(timer)@ && !r.start_timer_thread,
        ms > 0 ==> r.start_timer_thread == !old(timer)@.started,
        ms > 0 && current is None ==> r.action == SleepAction::ThreadSleep(ms) && final(sched)@
            == old(sched)@ && final(timer)@ == (TimerView { started: true, ..old(timer)@ }),
        ms > 0 && current is Some ==> ({
            let g = current->0;
            &&& r.action == SleepAction::Parked
            &&& final(sched)@ == (if valid_id(old(sched)@, g as int) {
                old(sched)@.with_status(g as int, GStatus::Waiting)
            } else {
                old(sched)@
            })
            &&& final(timer)@ == (TimerView { started: true, ..old(timer)@ }).add_result(
                TimerEntry { wake_at: (now + ms) as u64, g },
            )
        }),
{
    timer.sleep_ms(sched, current, now, ms)
}

/// Marks the timer as shut down.
pub fn shutdown_timer(timer: &mut Timer)
    requires
        old(timer).wf(),
    ensures
        final(timer).wf(),
        final(timer)@ == (TimerView { shutdown: true, ..old(timer)@ }),
{
    timer.shutdown_timer()
}

/// The number of sleeping goroutines.
pub fn pending_timer_count(timer: &Timer) -> (n: usize)
    requires
        timer.wf(),
    ensures
        n == timer@.entries.len(),
{
    timer.pending_timer_count()
}

/// One round of the timer thread (see `Timer::timer_step`).
pub fn timer_thread_loop(timer: &mut Timer, now: u64) -> (a: TimerAction)
    requires
        old(timer).wf(),
    ensures
        final(timer).wf(),
        old(timer)@.shutdown ==> a == TimerAction::Exit && final(timer)@ == old(timer)@,
        !old(timer)@.shutdown ==> final(timer)@ == old(timer)@.expire_result(now).0,
        !old(timer)@.shutdown && old(timer)@.expire_result(now).1.len() > 0 ==> a is Wake && a->Wake_0@
            == old(timer)@.expire_result(now).1,
        !old(timer)@.shutdown && old(timer)@.expire_result(now).1.len() == 0 && old(timer)@.entries.len() == 0
            ==> a == TimerAction::WaitForever,
        !old(timer)@.shutdown && old(timer)@.expire_result(now).1.len() == 0 && old(timer)@.entries.len() > 0
            ==> a == TimerAction::WaitFor((old(timer)@.entries[0].wake_at - now) as u64) && old(timer)@.entries[0].wake_at > now,
{
    timer.timer_step(now)
}

} // verus!
