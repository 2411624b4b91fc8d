use std::collections::VecDeque;
use vstd::prelude::*;

verus! {

/// What a timed wait on a wait group is to do next.
#[derive(Debug, PartialEq, Eq, Structural)]
pub enum WaitStep {
    /// Nothing is outstanding: the wait succeeds.
    Done,
    /// The time is up: the wait fails.
    TimedOut,
    /// Wait on the condition for at most this many milliseconds, then look again.
    WaitFor(u64),
}

/// A wait group: the number of outstanding tasks.
pub struct WaitGroup {
    counter: usize,
}

impl WaitGroup {
    pub closed spec fn count(&self) -> usize {
        self.counter
    }

    pub fn new() -> (wg: WaitGroup)
        ensures
            wg.count() == 0,
    {
        WaitGroup { counter: 0 }
    }

    /// Adds `delta` outstanding tasks (the count wraps as an atomic counter does).
    pub fn add(&mut self, delta: usize)
        ensures
            final(self).count() == old(self).count().wrapping_add(delta),
    {
        self.counter = self.counter.wrapping_add(delta);
    }

    /// Marks one task as done; the result says whether it was the last one, in which case every
    /// waiter is to be notified.
    pub fn done(&mut self) -> (was_last: bool)
        ensures
            final(self).count() == old(self).count().wrapping_sub(1),
            was_last == (old(self).count() == 1),
    {
        let before = self.counter;
        self.counter = self.counter.wrapping_sub(1);
        before == 1
    }

    /// Whether a waiter may stop waiting: nothing is outstanding.
    pub fn wait(&self) -> (ready: bool)
        ensures
            ready == (self.count() == 0),
    {
        self.counter == 0
    }

    /// One check of a wait of at most `timeout` milliseconds, `elapsed` of which have passed.
    pub fn wait_timeout(&self, elapsed: u64, timeout: u64) -> (step: WaitStep)
        ensures
            self.count() == 0 ==> step == WaitStep::Done,
            self.count() > 0 && elapsed >= timeout ==> step == WaitStep::TimedOut,
            self.count() > 0 && elapsed < timeout ==> step == WaitStep::WaitFor((timeout - elapsed) as u64),
    {
        if self.counter == 0 {
            WaitStep::Done
        } else if elapsed >= timeout {
            WaitStep::TimedOut
        } else {
            WaitStep::WaitFor(timeout - elapsed)
        }
    }

    /// The number of outstanding tasks.
    pub fn len(&self) -> (n: usize)
        ensures
            n == self.count(),
    {
        self.counter
    }

    pub fn is_empty(&self) -> (b: bool)
        ensures
            b == (self.count() == 0),
    {
        self.len() == 0
    }
}

impl Default for WaitGroup {
    fn default() -> (wg: WaitGroup)
        ensures
            wg.count() == 0,
    {
        WaitGroup::new()
    }
}

/// The count of a wait group after `k` calls of `done`, starting from `c`.
pub open spec fn count_after_dones(c: usize, k: nat) -> usize
    decreases k,
{
    if k == 0 {
        c
    } else {
        count_after_dones(c, (k - 1) as nat).wrapping_sub(1)
    }
}

/// A wait group that starts empty and gets `n` tasks is empty again after `n` calls of `done`,
/// and of those calls only the last reports that it finished the last task.
pub proof fn law_wait_group_balances(n: usize, k: nat)
    requires
        k <= n,
    ensures
        count_after_dones(0usize.wrapping_add(n), k) == n - k,
        k >= 1 ==> ((count_after_dones(0usize.wrapping_add(n), (k - 1) as nat) == 1) <==> k == n),
    decreases k,
{
    if k > 0 {
        law_wait_group_balances(n, (k - 1) as nat);
    }
}

/// A counter that goes up and down by one.
pub struct AtomicCounter {
    counter: usize,
}

impl AtomicCounter {
    pub closed spec fn value(&self) -> usize {
        self.counter
    }

    pub fn new() -> (c: AtomicCounter)
        ensures
            c.value() == 0,
    {
        AtomicCounter { counter: 0 }
    }

    /// Adds one (the count wraps as an atomic counter does).
    pub fn inc(&mut self)
        ensures
            final(self).value() == old(self).value().wrapping_add(1),
    {
        self.counter = self.counter.wrapping_add(1);
    }

    /// Takes one away (the count wraps as an atomic counter does).
    pub fn dec(&mut self)
        ensures
            final(self).value() == old(self).value().wrapping_sub(1),
    {
        self.counter = self.counter.wrapping_sub(1);
    }

    pub fn get(&self) -> (r: usize)
        ensures
            r == self.value(),
    {
        self.counter
    }
}

/// Going up by one and down by one leaves a counter where it was.
pub proof fn law_inc_dec_round_trip(v: usize)
    ensures
        v.wrapping_add(1).wrapping_sub(1) == v,
        v.wrapping_sub(1).wrapping_add(1) == v,
{
}

/// Runs an action at most once.
pub struct Once {
    done: bool,
}

impl Once {
    pub closed spec fn spec_done(&self) -> bool {
        self.done
    }

    pub fn new() -> (o: Once)
        ensures
            !o.spec_done(),
    {
        Once { done: false }
    }

    /// Claims the right to run the action: true the first time only.
    pub fn begin(&mut self) -> (first: bool)
        ensures
            first == !old(self).spec_done(),
            final(self).spec_done(),
    {
        if self.done {
            false
        } else {
            self.done = true;
            true
        }
    }

    /// Runs `f` if no action has run yet; afterwards the `Once` is completed. On a completed
    /// `Once`, `f` is not called, so nothing is asked of it there.
    pub fn call_once<F: FnOnce()>(&mut self, f: F) -> (ran: bool)
        requires
            !old(self).spec_done() ==> f.requires(()),
        ensures
            (final(self).spec_done(), ran) == once_call_result(old(self).spec_done()),
            ran ==> f.ensures((), ()),
    {
        if self.begin() {
            f();
            true
        } else {
            false
        }
    }

    pub fn is_completed(&self) -> (b: bool)
        ensures
            b == self.spec_done(),
    {
        self.done
    }
}

impl Default for Once {
    fn default() -> (o: Once)
        ensures
            !o.spec_done(),
    {
        Once::new()
    }
}

/// A call of `call_once` on a `Once` that is `done` or not: whether it is done afterwards, and
/// whether the call ran its action.
pub open spec fn once_call_result(done: bool) -> (bool, bool) {
    (true, !done)
}

/// Only the first `call_once` runs its action: after any call the `Once` is completed, and a
/// call on a completed `Once` runs nothing.
pub proof fn law_once_runs_once(done: bool)
    ensures
        once_call_result(once_call_result(done).0) == (true, false),
        once_call_result(false).1,
{
}

/// A pool of reusable values, refilled by a factory when empty and holding at most `max_size`.
pub struct Pool<T, F> {
    items: VecDeque<T>,
    factory: F,
    max_size: usize,
}

impl<T, F: Fn() -> T> Pool<T, F> {
    /// The pooled values, oldest first.
    pub closed spec fn spec_items(&self) -> Seq<T> {
        self.items@
    }

    pub closed spec fn spec_max_size(&self) -> usize {
        self.max_size
    }

    pub closed spec fn spec_factory(&self) -> F {
        self.factory
    }

    /// The pool holds at most `max_size` values and its factory may always be called.
    pub open spec fn wf(&self) -> bool {
        &&& self.spec_items().len() <= self.spec_max_size()
        &&& self.spec_factory().requires(())
    }

    pub fn new(factory: F, max_size: usize) -> (p: Self)
        requires
            factory.requires(()),
        ensures
            p.wf(),
            p.spec_items() == Seq::<T>::empty(),
            p.spec_max_size() == max_size,
            p.spec_factory() == factory,
    {
        Pool { items: VecDeque::with_capacity(max_size), factory, max_size }
    }

    /// Takes the oldest pooled value, or makes a new one when the pool is empty.
    pub fn get(&mut self) -> (item: T)
        requires
            old(self).wf(),
        ensures
            final(self).wf(),
            final(self).spec_max_size() == old(self).spec_max_size(),
            final(self).spec_factory() == old(self).spec_factory(),
            old(self).spec_items().len() > 0 ==> item == old(self).spec_items()[0] && final(self).spec_items()
                == old(self).spec_items().subrange(1, old(self).spec_items().len() as int),
            old(self).spec_items().len() == 0 ==> old(self).spec_factory().ensures((), item) && final(self).spec_items() == old(self).spec_items(),
    {
        match self.items.pop_front() {
            Some(item) => item,
            None => (self.factory)(),
        }
    }

    /// Returns a value to the pool; a full pool drops it.
    pub fn put(&mut self, item: T)
        requires
            old(self).wf(),
        ensures
            final(self).wf(),
            final(self).spec_max_size() == old(self).spec_max_size(),
            final(self).spec_factory() == old(self).spec_factory(),
            old(self).spec_items().len() < old(self).spec_max_size() ==> final(self).spec_items() == old(self).spec_items().push(item),
            old(self).spec_items().len() >= old(self).spec_max_size() ==> final(self).spec_items() == old(self).spec_items(),
    {
        if self.items.len() < self.max_size {
            self.items.push_back(item);
        }
    }

    pub fn len(&self) -> (n: usize)
        ensures
            n == self.spec_items().len(),
    {
        self.items.len()
    }

    pub fn is_empty(&self) -> (b: bool)
        ensures
            b == (self.spec_items().len() == 0),
    {
        self.len() == 0
    }
}

/// How a context is ended by its canceller.
#[derive(Debug, Clone, Copy, PartialEq, Eq, Structural)]
pub enum CancelReason {
    Canceled,
    DeadlineExceeded,
}

/// The text a context reports once it is ended for `r`.
pub open spec fn cancel_message(r: CancelReason) -> Seq<char> {
    match r {
        CancelReason::Canceled => "context canceled"@,
        CancelReason::DeadlineExceeded => "context deadline exceeded"@,
    }
}

/// The abstract state of a context: whether it is done, its error text, its deadline
/// (milliseconds on a monotonic clock) and what its canceller does (a background context has
/// no canceller).
pub struct ContextView {
    pub done: bool,
    pub err: Option<Seq<char>>,
    pub deadline: Option<u64>,
    pub reason: Option<CancelReason>,
}

/// Running the canceller: the first run ends the context and records why; later runs, and
/// contexts without a canceller, are not affected.
pub open spec fn cancel_step(v: ContextView) -> ContextView {
    if !v.done && v.reason is Some {
        ContextView { done: true, err: Some(cancel_message(v.reason->0)), ..v }
    } else {
        v
    }
}

/// Cancelling twice is cancelling once.
pub proof fn law_cancel_idempotent(v: ContextView)
    ensures
        cancel_step(cancel_step(v)) == cancel_step(v),
{
}

/// A fresh cancellable context ends with "context canceled" when its canceller runs, and a
/// timed one with "context deadline exceeded".
pub proof fn law_cancel_reports_reason(deadline: Option<u64>)
    ensures
        cancel_step(ContextView { done: false, err: None, deadline, reason: Some(CancelReason::Canceled) })
            == (ContextView { done: true, err: Some("context canceled"@), deadline, reason: Some(CancelReason::Canceled) }),
        cancel_step(ContextView { done: false, err: None, deadline, reason: Some(CancelReason::DeadlineExceeded) })
            == (ContextView {
            done: true,
            err: Some("context deadline exceeded"@),
            deadline,
            reason: Some(CancelReason::DeadlineExceeded),
        }),
{
}

/// A cancellation context.
pub struct Context {
    done: bool,
    deadline: Option<u64>,
    err: Option<String>,
    reason: Option<CancelReason>,
}

impl Context {
    pub closed spec fn model(&self) -> ContextView {
        ContextView {
            done: self.done,
            err: match self.err {
                Some(s) => Some(s@),
                None => None,
            },
            deadline: self.deadline,
            reason: self.reason,
        }
    }
}

impl View for Context {
    type V = ContextView;

    open spec fn view(&self) -> ContextView {
        self.model()
    }
}

impl Context {
    /// The root context: never done, no deadline, no canceller.
    pub fn background() -> (c: Context)
        ensures
            c@ == (ContextView { done: false, err: None, deadline: None, reason: None }),
    {
        Context { done: false, deadline: None, err: None, reason: None }
    }

    /// A child context with a deadline `timeout` milliseconds after `now`; its canceller ends it
    /// with "context deadline exceeded".
    pub fn with_timeout(_parent: Context, now: u64, timeout: u64) -> (c: Context)
        requires
            now + timeout <= u64::MAX,
        ensures
            c@ == (ContextView {
                done: false,
                err: None,
                deadline: Some((now + timeout) as u64),
                reason: Some(CancelReason::DeadlineExceeded),
            }),
    {
        Context { done: false, deadline: Some(now + timeout), err: None, reason: Some(CancelReason::DeadlineExceeded) }
    }

    /// A child context without a deadline; its canceller ends it with "context canceled".
    pub fn with_cancel(_parent: Context) -> (c: Context)
        ensures
            c@ == (ContextView { done: false, err: None, deadline: None, reason: Some(CancelReason::Canceled) }),
    {
        Context { done: false, deadline: None, err: None, reason: Some(CancelReason::Canceled) }
    }

    /// Runs the context's canceller (see `cancel_step`).
    pub fn cancel(&mut self)
        ensures
            final(self)@ == cancel_step(old(self)@),
    {
        if !self.done {
            match self.reason {
                Some(CancelReason::Canceled) => {
                    self.done = true;
                    self.err = Some("context canceled".to_owned());
                },
                Some(CancelReason::DeadlineExceeded) => {
                    self.done = true;
                    self.err = Some("context deadline exceeded".to_owned());
                },
                None => {},
            }
        }
    }

    pub fn done(&self) -> (b: bool)
        ensures
            b == self@.done,
    {
        self.done
    }

    /// The error text, if the context has been ended.
    pub fn err(&self) -> (e: Option<String>)
        ensures
            match e {
                Some(s) => self@.err == Some(s@),
                None => self@.err is None,
            },
    {
        match &self.err {
            Some(s) => Some(s.clone()),
            None => None,
        }
    }

    pub fn deadline(&self) -> (d: Option<u64>)
        ensures
            d == self@.deadline,
    {
        self.deadline
    }

    /// Whether the deadline, if any, has been reached at `now`.
    pub fn is_expired(&self, now: u64) -> (b: bool)
        ensures
            b == (match self@.deadline {
                Some(d) => now >= d,
                None => false,
            }),
    {
        match self.deadline {
            Some(d) => now >= d,
            None => false,
        }
    }
}

/// The id of the task running on this thread: no task id is ever assigned, so it is 0.
pub fn current_task_id() -> (id: usize)
    ensures
        id == 0,
{
    0
}

} // verus!
