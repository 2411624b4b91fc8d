use gorust::channel::{Channel, RecvError, RecvStep, SendError, SendStep, TryRecvError};
use gorust::g_select::{Select, SelectOutcome};
use gorust::go_runtime::Runtime;
use gorust::netpoller::Netpoller;
use gorust::scheduler::{GoBatch, Scheduler};
use gorust::select_parse::{
    case_kinds, plan_select, CaseHead, SelectCaseKind, SelectPlan, SelectSyntax, SelectSyntaxError, Span,
};
use gorust::sync::{AtomicCounter, Context, Once, Pool, WaitGroup};
use gorust::timer::{sleep, sleep_ms, SleepAction, Timer};
use std::cell::Cell;

fn started_runtime() -> (Runtime, Scheduler, GoBatch) {
    let rt = Runtime::new(0);
    let mut sched = Scheduler::new();
    let workers = Runtime::init(&mut sched);
    assert!(workers >= 2);
    (rt, sched, GoBatch::new())
}

fn received<T>(step: RecvStep<T>) -> T {
    match step {
        RecvStep::Received(v, _) => v,
        _ => panic!("no value received"),
    }
}

#[test]
fn test_unbuffered_channel() {
    let (rt, mut sched, mut batch) = started_runtime();

    let mut ch = Channel::<i32>::new(0);
    let wg_sender = WaitGroup::new();
    let mut wg = wg_sender;
    wg.add(1);

    assert!(matches!(ch.send(42, None), SendStep::Sent(None)));
    assert!(wg.done());

    let value = received(ch.recv(None));
    assert_eq!(value, 42);

    assert!(wg.wait());
    assert!(rt.wait_and_shutdown(&mut sched, &mut Timer::new(), &mut Netpoller::new(), &mut batch).done);
}

#[test]
fn test_buffered_channel() {
    let (rt, mut sched, mut batch) = started_runtime();

    let mut ch = Channel::<String>::new(10);

    assert!(matches!(ch.send("hello".to_string(), None), SendStep::Sent(None)));
    assert!(matches!(ch.send("world".to_string(), None), SendStep::Sent(None)));

    assert_eq!(received(ch.recv(None)), "hello");
    assert_eq!(received(ch.recv(None)), "world");

    assert!(rt.wait_and_shutdown(&mut sched, &mut Timer::new(), &mut Netpoller::new(), &mut batch).done);
}

#[test]
fn test_channel_close() {
    let (rt, mut sched, mut batch) = started_runtime();

    let mut ch = Channel::<i32>::new(0);
    let woken = ch.close();
    assert!(woken.is_empty());

    assert!(ch.is_closed());

    let result = ch.send(1, None);
    assert!(matches!(result, SendStep::Failed(SendError::Disconnected(_))));

    assert!(rt.wait_and_shutdown(&mut sched, &mut Timer::new(), &mut Netpoller::new(), &mut batch).done);
}

#[test]
fn test_recv_from_closed_channel() {
    let (rt, mut sched, mut batch) = started_runtime();

    let mut ch = Channel::<i32>::new(1);
    assert!(matches!(ch.send(1, None), SendStep::Sent(None)));
    ch.close();

    assert_eq!(received(ch.recv(None)), 1);

    let result = ch.recv(None);
    assert!(matches!(result, RecvStep::Failed(RecvError::Disconnected)));

    assert!(rt.wait_and_shutdown(&mut sched, &mut Timer::new(), &mut Netpoller::new(), &mut batch).done);
}

#[test]
fn test_try_send_full() {
    let (rt, mut sched, mut batch) = started_runtime();

    let mut ch = Channel::<i32>::new(1);
    assert!(matches!(ch.send(1, None), SendStep::Sent(None)));

    let result = ch.try_send(2);
    assert!(matches!(result, Err(SendError::Full(2))));

    assert!(rt.wait_and_shutdown(&mut sched, &mut Timer::new(), &mut Netpoller::new(), &mut batch).done);
}

#[test]
fn test_multiple_senders_receivers() {
    let (rt, mut sched, mut batch) = started_runtime();

    let mut ch = Channel::<i32>::new(100);
    let mut counter = 0usize;
    let mut wg = WaitGroup::new();

    for i in 0..10 {
        wg.add(1);
        for j in 0..10 {
            assert!(matches!(ch.send(i * 10 + j, None), SendStep::Sent(None)));
            counter += 1;
        }
        wg.done();
    }

    assert!(wg.wait());

    let mut received = 0;
    while received < 100 {
        if let Ok(_) = ch.try_recv() {
            received += 1;
        }
    }

    assert_eq!(received, 100);
    assert_eq!(counter, 100);

    assert!(rt.wait_and_shutdown(&mut sched, &mut Timer::new(), &mut Netpoller::new(), &mut batch).done);
}

#[test]
fn test_waitgroup() {
    let mut wg = WaitGroup::new();
    let mut counter = 0usize;

    for i in 0..5 {
        wg.add(1);
        counter += i;
        wg.done();
    }

    assert!(wg.wait());
    assert_eq!(counter, 10);
}

#[test]
fn test_pool() {
    let mut pool = Pool::new(|| String::from("default"), 10);

    let s1 = pool.get();
    assert_eq!(s1, "default");
    pool.put(s1);

    assert_eq!(pool.len(), 1);
}

#[test]
fn test_context_background() {
    let ctx = Context::background();
    assert!(!ctx.done());
    assert!(ctx.err().is_none());
    assert!(ctx.deadline().is_none());
}

#[test]
fn test_context_with_cancel() {
    let parent = Context::background();
    let mut child = Context::with_cancel(parent);

    assert!(!child.done());

    child.cancel();

    assert!(child.done());
    assert_eq!(child.err().unwrap(), "context canceled");
}

#[test]
fn test_context_with_timeout() {
    let parent = Context::background();
    let start = 1_000u64;
    let child = Context::with_timeout(parent, start, 50);

    assert!(!child.done());
    assert!(child.deadline().is_some());

    let after_sleep = start + 100;

    assert!(child.is_expired(after_sleep));
}

#[test]
fn test_atomic_counter() {
    let mut counter = AtomicCounter::new();

    counter.inc();
    counter.inc();
    counter.dec();

    assert_eq!(counter.get(), 1);
}

#[test]
fn test_once() {
    let mut once = Once::new();
    let counter = Cell::new(0usize);

    for _ in 0..10 {
        once.call_once(|| {
            counter.set(counter.get() + 1);
        });
    }

    assert_eq!(counter.get(), 1);
}

#[test]
fn test_sleep_ms() {
    let (rt, mut sched, mut batch) = started_runtime();
    let mut timer = Timer::new();

    let start = 0u64;
    let outcome = sleep_ms(&mut timer, &mut sched, None, start, 50);

    assert_eq!(outcome.action, SleepAction::ThreadSleep(50));

    assert!(rt.wait_and_shutdown(&mut sched, &mut Timer::new(), &mut Netpoller::new(), &mut batch).done);
}

#[test]
fn test_sleep_duration() {
    let (rt, mut sched, mut batch) = started_runtime();
    let mut timer = Timer::new();

    let start = 0u64;
    let outcome = sleep(&mut timer, &mut sched, None, start, 100);

    assert_eq!(outcome.action, SleepAction::ThreadSleep(100));

    assert!(rt.wait_and_shutdown(&mut sched, &mut Timer::new(), &mut Netpoller::new(), &mut batch).done);
}

#[test]
fn test_select_non_blocking() {
    let (rt, mut sched, mut batch) = started_runtime();

    let mut ch1 = Channel::<i32>::new(1);
    let ch2 = Channel::<i32>::new(1);

    assert!(matches!(ch1.send(42, None), SendStep::Sent(None)));

    let mut select = Select::new().recv(ch1).recv(ch2).with_default();
    let result = select.execute();

    assert!(result.is_received());

    assert!(rt.wait_and_shutdown(&mut sched, &mut Timer::new(), &mut Netpoller::new(), &mut batch).done);
}

#[test]
fn test_select_default() {
    let (rt, mut sched, mut batch) = started_runtime();

    let ch1 = Channel::<i32>::new(1);
    let ch2 = Channel::<i32>::new(1);

    let mut select = Select::new().recv(ch1).recv(ch2).with_default();
    let result = select.execute();

    assert!(result.is_default());

    assert!(rt.wait_and_shutdown(&mut sched, &mut Timer::new(), &mut Netpoller::new(), &mut batch).done);
}

fn is_blocking(plan: &SelectPlan) -> bool {
    matches!(plan, SelectPlan::Blocking { .. })
}

fn parse_select(input: &str) -> Result<SelectSyntax, SelectSyntaxError> {
    gorust::select_parse::parse_select(input.as_bytes())
}

fn text<'a>(input: &'a str, span: Span) -> &'a str {
    &input[span.start..span.end]
}

#[test]
fn test_parse_select_basic() {
    let input = r#"
            val <- ch1 => {
                println!("Got: {}", val);
            }
        "#;

    let result = parse_select(input);
    assert!(result.is_ok());
    let sx = result.unwrap();
    assert_eq!(sx.cases.len(), 1);
    match sx.cases[0].head {
        CaseHead::Recv { pat, chan } => {
            assert_eq!(text(input, pat), "val");
            assert_eq!(text(input, chan), "ch1");
        }
        _ => panic!("a receive case"),
    }
    assert!(text(input, sx.cases[0].body).starts_with('{'));
    assert!(text(input, sx.cases[0].body).ends_with('}'));
    assert!(is_blocking(&sx.plan));
}

#[test]
fn test_parse_select_with_send() {
    let input = r#"
            ch2.send(42) => {
                println!("Sent!");
            }
        "#;

    let result = parse_select(input);
    assert!(result.is_ok());
    let sx = result.unwrap();
    match sx.cases[0].head {
        CaseHead::Send { chan, value } => {
            assert_eq!(text(input, chan), "ch2");
            assert_eq!(text(input, value), "42");
        }
        _ => panic!("a send case"),
    }
    assert!(is_blocking(&sx.plan));
}

#[test]
fn test_parse_select_with_default() {
    let input = r#"
            val <- ch1 => {
                println!("Got: {}", val);
            },
            default => {
                println!("No op");
            }
        "#;

    let result = parse_select(input);
    assert!(result.is_ok());
    let sx = result.unwrap();
    assert_eq!(case_kinds(&sx.cases), vec![SelectCaseKind::Recv, SelectCaseKind::Default]);
    match sx.plan {
        SelectPlan::NonBlocking { checks, default_case } => {
            assert_eq!(checks, vec![0]);
            assert_eq!(default_case, Some(1));
        }
        _ => panic!("a select with a default must not block"),
    }
}

#[test]
fn test_parse_select_multiple_cases() {
    let input = r#"
            val1 <- ch1 => {
                println!("From ch1: {}", val1);
            },
            val2 <- ch2 => {
                println!("From ch2: {}", val2);
            },
            ch3.send(42) => {
                println!("Sent to ch3");
            }
        "#;

    let result = parse_select(input);
    assert!(result.is_ok());
    let sx = result.unwrap();
    assert_eq!(
        case_kinds(&sx.cases),
        vec![SelectCaseKind::Recv, SelectCaseKind::Recv, SelectCaseKind::Send]
    );
    match sx.plan {
        SelectPlan::Blocking { spawn_order } => assert_eq!(spawn_order, vec![0, 1, 2]),
        _ => panic!("a select without a default blocks"),
    }
}

#[test]
fn test_parse_select_with_timeout() {
    let input = r#"
            val <- ch1 => {
                println!("Got: {}", val);
            },
            timeout!(std::time::Duration::from_secs(2)) => {
                println!("超时！取消等待");
            }
        "#;

    let result = parse_select(input);
    assert!(result.is_ok());
    let sx = result.unwrap();
    match sx.cases[1].head {
        CaseHead::Timeout { duration } => {
            assert_eq!(text(input, duration), "std::time::Duration::from_secs(2)");
        }
        _ => panic!("a timeout case"),
    }
    match sx.plan {
        SelectPlan::Blocking { spawn_order } => assert_eq!(spawn_order, vec![0, 1]),
        _ => panic!("a select without a default blocks"),
    }
}

#[test]
fn plan_select_orders_receives_sends_then_timeouts() {
    let plan = plan_select(&vec![
        SelectCaseKind::Timeout,
        SelectCaseKind::Send,
        SelectCaseKind::Recv,
        SelectCaseKind::Send,
    ]);
    match plan {
        SelectPlan::Blocking { spawn_order } => assert_eq!(spawn_order, vec![2, 1, 3, 0]),
        _ => panic!("a select without a default blocks"),
    }
}

#[test]
fn try_recv_reports_empty_then_disconnected() {
    let mut ch = Channel::<u8>::new(2);
    assert!(matches!(ch.try_recv(), Err(TryRecvError::Empty)));
    ch.close();
    assert!(matches!(ch.try_recv(), Err(TryRecvError::Disconnected)));
}
