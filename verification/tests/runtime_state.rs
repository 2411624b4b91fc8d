use gorust::channel::{unbounded, BoundedQueue, Channel, RecvError, RecvStep, SendError, SendStep, TryRecvError};
use gorust::context::Context as Regs;
use gorust::g_select::{Select, SelectOutcome};
use gorust::go_runtime::Runtime;
use gorust::netpoller::{Command, CommandOutcome, Netpoller};
use gorust::scheduler::{GStatus, GoBatch, Scheduler, WorkerStep, YieldAction};
use gorust::stack::{StackAllocator, StackGuard, STACK_INITIAL_SIZE, STACK_MAX_SIZE};
use gorust::sync::{current_task_id, WaitGroup, WaitStep};
use gorust::timer::{SleepAction, Timer, TimerAction};

fn scheduler_and_runtime_with(n: usize) -> (Scheduler, Runtime, Vec<usize>) {
    let mut sched = Scheduler::new();
    let mut rt = Runtime::new(0);
    sched.init_with_cpus(4);
    let mut batch = GoBatch::new();
    let mut ids = Vec::new();
    for _ in 0..n {
        ids.push(sched.go(&mut rt, &mut batch).id);
    }
    (sched, rt, ids)
}

fn scheduler_with(n: usize) -> (Scheduler, Vec<usize>) {
    let (sched, _, ids) = scheduler_and_runtime_with(n);
    (sched, ids)
}

fn shut_down(sched: &mut Scheduler) {
    sched.shutdown(&mut Timer::new(), &mut Netpoller::new());
}

#[test]
fn status_codes_round_trip() {
    for s in [GStatus::Idle, GStatus::Runnable, GStatus::Running, GStatus::Waiting, GStatus::Dead] {
        assert_eq!(GStatus::from(s.as_u8()), s);
    }
    assert_eq!(GStatus::from(3u8), GStatus::Waiting);
    assert_eq!(GStatus::from(200u8), GStatus::Dead);
}

#[test]
fn init_uses_at_least_two_workers_once() {
    let mut sched = Scheduler::new();
    assert_eq!(sched.init_with_cpus(1), 2);
    assert_eq!(sched.init_with_cpus(8), 0);
    let mut other = Scheduler::new();
    assert_eq!(other.init_with_cpus(8), 8);
    let mut real = Scheduler::new();
    assert!(real.init() >= 2);
    assert_eq!(real.init(), 0);
}

#[test]
fn go_ids_start_at_one_and_goroutines_are_queued_at_once() {
    let mut sched = Scheduler::new();
    let mut rt = Runtime::new(0);
    sched.init_with_cpus(3);
    let mut batch = GoBatch::new();
    let first = sched.go(&mut rt, &mut batch);
    assert_eq!(first.id, 1);
    assert_eq!(first.notify, 1);
    assert_eq!(sched.pending_goroutines(), 1);
    assert_eq!(batch.len(), 0);
    let second = sched.go(&mut rt, &mut batch);
    assert_eq!(second.id, 2);
    assert_eq!(second.notify, 0);
    assert_eq!(sched.pending_goroutines(), 2);
    assert_eq!(sched.status(2), GStatus::Runnable);
    assert!(!sched.is_completed(2));
    assert_eq!(rt.active_goroutines(), 2);
    assert_eq!(rt.total_goroutines(), 2);
}

#[test]
fn flush_of_an_empty_batch_does_nothing() {
    let mut sched = Scheduler::new();
    let mut rt = Runtime::new(0);
    sched.init_with_cpus(4);
    let mut batch = GoBatch::new();
    sched.go(&mut rt, &mut batch);
    sched.go(&mut rt, &mut batch);
    assert_eq!(sched.flush_go_batch(&mut batch), 0);
    assert_eq!(sched.pending_goroutines(), 2);
}

#[test]
fn workers_take_goroutines_in_order() {
    let (mut sched, ids) = scheduler_with(2);
    assert_eq!(sched.worker_next(), WorkerStep::Run { id: ids[0], notify_other: true });
    assert_eq!(sched.status(ids[0]), GStatus::Running);
    assert_eq!(sched.worker_next(), WorkerStep::Run { id: ids[1], notify_other: false });
    assert_eq!(sched.worker_next(), WorkerStep::Wait);
    shut_down(&mut sched);
    assert_eq!(sched.worker_next(), WorkerStep::Exit);
    assert!(!sched.is_running());
}

#[test]
fn yielding_goroutine_is_requeued_at_back() {
    let (mut sched, ids) = scheduler_with(2);
    let WorkerStep::Run { id, .. } = sched.worker_next() else { panic!("expected a goroutine") };
    assert_eq!(sched.yield_now(Some(id)), YieldAction::SwitchToScheduler);
    assert_eq!(sched.status(id), GStatus::Runnable);
    assert!(sched.worker_after_run(id));
    assert_eq!(sched.worker_next(), WorkerStep::Run { id: ids[1], notify_other: true });
    assert_eq!(sched.worker_next(), WorkerStep::Run { id: ids[0], notify_other: false });
    assert_eq!(sched.yield_now(None), YieldAction::ThreadYield);
}

#[test]
fn waiting_goroutine_is_queued_once_when_woken() {
    let (mut sched, ids) = scheduler_with(1);
    let WorkerStep::Run { id, .. } = sched.worker_next() else { panic!("expected a goroutine") };
    assert_eq!(id, ids[0]);
    sched.set_status(id, GStatus::Waiting);
    assert!(!sched.worker_after_run(id));
    assert_eq!(sched.pending_goroutines(), 0);
    assert!(sched.wake_g(id));
    assert!(!sched.wake_g(id));
    assert_eq!(sched.pending_goroutines(), 1);
    assert_eq!(sched.status(id), GStatus::Runnable);
    assert!(!sched.wake_g(999));
}

#[test]
fn batch_wake_counts_ids_and_skips_non_waiting() {
    let (mut sched, ids) = scheduler_with(3);
    for _ in 0..3 {
        sched.worker_next();
    }
    sched.set_status(ids[0], GStatus::Waiting);
    sched.set_status(ids[2], GStatus::Waiting);
    let notify = sched.wake_g_batch(vec![ids[0], ids[1], ids[2], ids[0]]);
    assert_eq!(notify, 4);
    assert_eq!(sched.pending_goroutines(), 2);
    assert_eq!(sched.worker_next(), WorkerStep::Run { id: ids[0], notify_other: true });
    shut_down(&mut sched);
    sched.set_status(ids[1], GStatus::Waiting);
    assert_eq!(sched.wake_g_batch(vec![ids[1]]), 0);
}

#[test]
fn finished_goroutine_is_dead_and_completed() {
    let (mut sched, mut rt, ids) = scheduler_and_runtime_with(2);
    sched.worker_next();
    assert!(!sched.finish(&mut rt, ids[0]));
    assert_eq!(rt.active_goroutines(), 1);
    assert!(!sched.finish(&mut rt, ids[0]));
    assert_eq!(rt.active_goroutines(), 1);
    assert!(sched.finish(&mut rt, ids[1]));
    assert_eq!(rt.active_goroutines(), 0);
    assert_eq!(rt.total_goroutines(), 2);
    assert_eq!(sched.status(ids[0]), GStatus::Dead);
    assert!(sched.is_completed(ids[0]));
    assert!(!sched.worker_after_run(ids[0]));
}

#[test]
fn runtime_counts_goroutines() {
    let mut rt = Runtime::new(100);
    let mut sched = Scheduler::new();
    let mut timer = Timer::new();
    let mut np = Netpoller::new();
    assert!(np.start());
    let mut batch = GoBatch::new();
    rt.track_goroutine();
    rt.track_goroutine();
    assert_eq!(rt.active_goroutines(), 2);
    assert!(!rt.untrack_goroutine());
    assert!(rt.untrack_goroutine());
    assert_eq!(rt.active_goroutines(), 0);
    assert_eq!(rt.total_goroutines(), 2);
    assert_eq!(rt.uptime(250), 150);
    assert_eq!(rt.uptime(50), 0);
    assert!(!rt.is_shutting_down());
    rt.shutdown();
    assert!(rt.is_shutting_down());
    let g = sched.go(&mut rt, &mut batch);
    assert_eq!(rt.total_goroutines(), 3);
    let r = rt.wait_and_shutdown(&mut sched, &mut timer, &mut np, &mut batch);
    assert!(!r.done);
    assert_eq!(r.notify, 0);
    assert!(sched.is_running());
    assert!(np.is_running());
    assert!(sched.finish(&mut rt, g.id));
    assert!(rt.wait_and_shutdown(&mut sched, &mut timer, &mut np, &mut batch).done);
    assert!(!sched.is_running());
    assert!(!np.is_running());
    assert!(matches!(timer.timer_step(0), TimerAction::Exit));
    assert_eq!(rt.total_goroutines(), 3);
}

#[test]
fn timer_wakes_due_sleepers_earliest_first() {
    let (mut sched, ids) = scheduler_with(3);
    let mut timer = Timer::new();
    for &id in &ids {
        sched.worker_next();
        let _ = id;
    }
    let a = timer.sleep(&mut sched, Some(ids[0]), 10, 50);
    assert!(a.start_timer_thread);
    assert_eq!(a.action, SleepAction::Parked);
    assert_eq!(sched.status(ids[0]), GStatus::Waiting);
    let b = timer.sleep(&mut sched, Some(ids[1]), 10, 20);
    assert!(!b.start_timer_thread);
    timer.sleep(&mut sched, Some(ids[2]), 10, 90);
    assert_eq!(timer.pending_timer_count(), 3);

    match timer.timer_step(25) {
        TimerAction::WaitFor(ms) => assert_eq!(ms, 5),
        other => panic!("unexpected {:?}", other),
    }
    match timer.timer_step(60) {
        TimerAction::Wake(woken) => assert_eq!(woken, vec![ids[1], ids[0]]),
        other => panic!("unexpected {:?}", other),
    }
    assert_eq!(timer.pending_timer_count(), 1);
    match timer.timer_step(100) {
        TimerAction::Wake(woken) => assert_eq!(woken, vec![ids[2]]),
        other => panic!("unexpected {:?}", other),
    }
    assert!(matches!(timer.timer_step(100), TimerAction::WaitForever));
    timer.shutdown_timer();
    assert!(matches!(timer.timer_step(100), TimerAction::Exit));
}

#[test]
fn zero_sleep_only_yields() {
    let (mut sched, ids) = scheduler_with(1);
    sched.worker_next();
    let mut timer = Timer::new();
    let r = timer.sleep(&mut sched, Some(ids[0]), 0, 0);
    assert_eq!(r.action, SleepAction::Yield(YieldAction::SwitchToScheduler));
    assert!(!r.start_timer_thread);
    assert_eq!(sched.status(ids[0]), GStatus::Runnable);
    assert_eq!(timer.pending_timer_count(), 0);
}

#[test]
fn equal_deadlines_wake_in_arrival_order() {
    let (mut sched, ids) = scheduler_with(3);
    let mut timer = Timer::new();
    timer.sleep(&mut sched, Some(ids[2]), 0, 5);
    timer.sleep(&mut sched, Some(ids[0]), 0, 5);
    timer.sleep(&mut sched, Some(ids[1]), 0, 5);
    match timer.timer_step(5) {
        TimerAction::Wake(woken) => assert_eq!(woken, vec![ids[2], ids[0], ids[1]]),
        other => panic!("unexpected {:?}", other),
    }
}

#[test]
fn stack_grows_and_shrinks_within_bounds() {
    let mut alloc = StackAllocator::new();
    assert!(alloc.allocate(0).is_err());
    assert_eq!(alloc.allocate(0).unwrap_err(), "Failed to allocate stack");
    let mut stack = alloc.allocate(0x10000).unwrap();
    assert_eq!(alloc.stats(), (1, STACK_INITIAL_SIZE, 0));
    assert_eq!(stack.capacity(), STACK_INITIAL_SIZE);
    assert_eq!(stack.top(), 0x10000 + STACK_INITIAL_SIZE);
    assert_eq!(stack.bottom(), 0x10000);

    stack.update_used(stack.top() - 1900);
    assert_eq!(stack.used(), 1900);
    assert!(stack.needs_grow());
    stack.update_used(0x5);
    assert_eq!(stack.used(), 1900);

    assert_eq!(stack.grow(0).unwrap_err(), "Failed to grow stack");
    assert_eq!(stack.grow_capacity(), Some(4096));
    assert!(stack.grow(0x20000).is_ok());
    assert_eq!(stack.capacity(), 4096);
    assert_eq!(stack.bottom(), 0x20000);
    assert!(!stack.needs_grow());
    stack.update_used(stack.top() - (4096 - 256));
    assert!(!stack.needs_grow());
    stack.update_used(stack.top() - (4096 - 255));
    assert!(stack.needs_grow());
    stack.update_used(stack.top() - 1900);
    assert_eq!(stack.used(), 1900);

    assert_eq!(stack.shrink_capacity(), None);
    assert!(stack.shrink(0x30000).is_ok());
    assert_eq!(stack.capacity(), 4096);
    stack.update_used(stack.top() - 100);
    assert_eq!(stack.shrink(0).unwrap_err(), "Failed to shrink stack");
    assert!(stack.shrink(0x30000).is_ok());
    assert_eq!(stack.capacity(), STACK_INITIAL_SIZE);
    assert!(stack.shrink(0x40000).is_ok());
    assert_eq!(stack.capacity(), STACK_INITIAL_SIZE);

    while stack.capacity() < STACK_MAX_SIZE {
        assert!(stack.grow(0x50000).is_ok());
    }
    assert_eq!(stack.grow(0x60000).unwrap_err(), "Stack size limit reached");
    assert_eq!(stack.capacity(), STACK_MAX_SIZE);
}

#[test]
fn stack_guard_checks_marker() {
    let guard = StackGuard::new();
    assert!(guard.check(0, 0xDE));
    assert!(!guard.check(0, 0x00));
}

#[test]
fn initial_context_points_below_aligned_top() {
    let (ctx, write) = Regs::make_initial(0x1000_0007, 0xABCD);
    assert_eq!(ctx.rsp, 0x0FFF_FFF0);
    assert_eq!(write.addr, 0x0FFF_FFF0);
    assert_eq!(write.value, 0xABCD);
    assert_eq!(ctx.rbp, 0);
    let empty = Regs::new_empty();
    assert_eq!(empty.rsp, 0);
}

#[test]
fn netpoller_fires_each_registration_once() {
    let mut np = Netpoller::new();
    assert!(np.start());
    assert!(!np.start());
    assert_eq!(np.process_command(Command::Register { fd: 7 }), CommandOutcome::Registered { token: 1, fd: 7 });
    assert_eq!(np.register(9), 2);
    assert_eq!(np.on_event(0), None);
    assert_eq!(np.on_event(1), Some(7));
    assert_eq!(np.on_event(1), None);
    assert_eq!(np.process_command(Command::Unregister { token: 2 }), CommandOutcome::Unregistered(Some(9)));
    assert_eq!(np.process_command(Command::Unregister { token: 2 }), CommandOutcome::Unregistered(None));
    assert_eq!(np.process_command(Command::Shutdown), CommandOutcome::Stop);
    assert!(np.stop());
    assert!(!np.stop());
}

#[test]
fn send_to_buffered_channel_wakes_parked_receiver() {
    let mut ch = Channel::<u32>::new(2);
    assert!(matches!(ch.recv(Some(5)), RecvStep::Parked));
    assert!(matches!(ch.recv(Some(6)), RecvStep::Parked));
    assert!(matches!(ch.send(10, None), SendStep::Sent(Some(5))));
    assert!(matches!(ch.try_send(11), Ok(Some(6))));
    assert!(matches!(ch.send(12, None), SendStep::Failed(SendError::Full(12))));
    assert!(matches!(ch.recv(None), RecvStep::Received(10, None)));
    assert_eq!(ch.len(), 1);
}

#[test]
fn unbuffered_channel_parks_sender_until_received() {
    let mut ch = Channel::<u32>::new(0);
    assert!(matches!(ch.try_send(1), Err(SendError::Full(1))));
    assert!(matches!(ch.send(1, Some(3)), SendStep::Parked));
    assert!(matches!(ch.send(2, None), SendStep::Retry(2)));
    assert!(matches!(ch.recv(None), RecvStep::Received(1, Some(3))));
    assert!(matches!(ch.recv(None), RecvStep::Retry));
    assert!(matches!(ch.recv(Some(4)), RecvStep::Parked));
    assert!(matches!(ch.send(2, None), SendStep::Sent(Some(4))));
    assert!(matches!(ch.recv(None), RecvStep::Received(2, None)));
}

#[test]
fn close_wakes_parked_receivers_once() {
    let mut ch = Channel::<u32>::new(1);
    ch.recv(Some(1));
    ch.recv(Some(2));
    assert_eq!(ch.close(), vec![1, 2]);
    assert!(ch.close().is_empty());
    assert!(matches!(ch.try_send(3), Err(SendError::Disconnected(3))));
    assert!(matches!(ch.recv(Some(9)), RecvStep::Failed(RecvError::Disconnected)));
}

#[test]
fn error_messages() {
    assert_eq!(SendError::Full(1).message(), "channel full");
    assert_eq!(SendError::Disconnected(1).message(), "channel disconnected");
    assert_eq!(RecvError::Disconnected.message(), "channel disconnected");
    assert_eq!(RecvError::Empty.message(), "channel empty");
    assert_eq!(TryRecvError::Empty.message(), "channel empty");
    assert_eq!(TryRecvError::Disconnected.message(), "channel disconnected");
}

#[test]
fn unbounded_channel_never_refuses_until_closed() {
    let mut ch = unbounded::<u32>();
    assert!(matches!(ch.recv(Some(8)), RecvStep::Parked));
    for i in 0..1000 {
        let r = ch.send(i);
        assert!(r.is_ok());
        if i == 0 {
            assert_eq!(r.unwrap(), Some(8));
        }
    }
    assert!(ch.has_data());
    assert!(matches!(ch.try_recv(), Ok(0)));
    assert!(ch.close().is_empty());
    assert!(matches!(ch.send(5), Err(SendError::Disconnected(5))));
    assert!(matches!(ch.recv(None), RecvStep::Received(1, None)));
    let mut empty = unbounded::<u32>();
    assert!(matches!(empty.recv(None), RecvStep::Retry));
    assert!(matches!(empty.try_recv(), Err(TryRecvError::Empty)));
}

#[test]
fn bounded_queue_refuses_beyond_capacity() {
    let mut q = BoundedQueue::new(2);
    assert!(q.is_empty());
    assert_eq!(q.push(1), Ok(()));
    assert_eq!(q.push(2), Ok(()));
    assert_eq!(q.push(3), Err(3));
    assert_eq!(q.len(), 2);
    assert_eq!(q.pop(), Some(1));
    assert_eq!(q.pop(), Some(2));
    assert_eq!(q.pop(), None);
}

#[test]
fn select_takes_first_ready_case() {
    let mut a = Channel::<u8>::new(1);
    let mut b = Channel::<u8>::new(1);
    a.send(1, None);
    b.send(2, None);
    let mut s = Select::new().timeout(10).recv(a).recv(b);
    match s.execute() {
        SelectOutcome::Received(case_id, v) => {
            assert_eq!(case_id, 1);
            assert_eq!(v, 1);
        }
        _ => panic!("expected a value"),
    }
    let out = s.execute();
    assert!(out.is_received());
    assert_eq!(out.get_value(), Some(2));
    assert!(matches!(s.execute(), SelectOutcome::Pending));
    let (id, v) = {
        let mut c = Channel::<u8>::new(1);
        c.send(7, None);
        Select::new().recv(c).with_default().execute().unwrap_received()
    };
    assert_eq!((id, v), (0, 7));
    assert!(SelectOutcome::<u8>::Timeout(3).is_timeout());
}

#[test]
fn wait_group_timed_wait_steps() {
    let mut wg = WaitGroup::new();
    assert!(wg.is_empty());
    wg.add(2);
    assert_eq!(wg.len(), 2);
    assert_eq!(wg.wait_timeout(30, 100), WaitStep::WaitFor(70));
    assert_eq!(wg.wait_timeout(100, 100), WaitStep::TimedOut);
    assert!(!wg.done());
    assert!(wg.done());
    assert_eq!(wg.wait_timeout(500, 100), WaitStep::Done);
    assert_eq!(current_task_id(), 0);
}

#[test]
fn a_parked_receiver_is_woken_by_a_send() {
    let (mut sched, _rt, ids) = scheduler_and_runtime_with(1);
    let g = ids[0];
    assert_eq!(sched.worker_next(), WorkerStep::Run { id: g, notify_other: false });
    let mut ch = Channel::<i32>::new(1);
    assert!(matches!(ch.recv_parking(&mut sched, Some(g)), RecvStep::Parked));
    assert_eq!(sched.status(g), GStatus::Waiting);
    assert!(!sched.worker_after_run(g));
    match ch.send_parking(&mut sched, 42, None) {
        SendStep::Sent(w) => assert_eq!(w, Some(g)),
        _ => panic!("the send goes through"),
    }
    assert!(sched.wake_g(g));
    assert_eq!(sched.worker_next(), WorkerStep::Run { id: g, notify_other: false });
    match ch.recv_parking(&mut sched, Some(g)) {
        RecvStep::Received(v, _) => assert_eq!(v, 42),
        _ => panic!("the value is there"),
    }
    assert_eq!(sched.status(g), GStatus::Running);
}

#[test]
fn a_completed_once_calls_no_later_closure() {
    let mut once = gorust::sync::Once::new();
    assert!(!once.is_completed());
    let calls = std::cell::Cell::new(0usize);
    assert!(once.call_once(|| calls.set(calls.get() + 1)));
    assert!(once.is_completed());
    assert!(!once.call_once(|| calls.set(calls.get() + 10)));
    assert!(!once.call_once(|| panic!("a completed Once calls nothing")));
    assert_eq!(calls.get(), 1);
    assert!(once.is_completed());
}
