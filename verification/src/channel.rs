use crate::scheduler::{GStatus, Scheduler, SchedulerView, valid_id};
use std::collections::VecDeque;
use vstd::prelude::*;

verus! {

/// Why a send did not go through; the value that was not sent comes back.
#[derive(Debug, Clone, Copy, PartialEq, Eq)]
pub enum SendError<T> {
    Disconnected(T),
    Full(T),
}

impl<T> SendError<T> {
    /// The text that describes the error.
    pub fn message(&self) -> (s: &'static str)
        ensures
            s@ == (match self {
                SendError::Disconnected(_) => "channel disconnected"@,
                SendError::Full(_) => "channel full"@,
            }),
    {
        match self {
            SendError::Disconnected(_) => "channel disconnected",
            SendError::Full(_) => "channel full",
        }
    }
}

/// Why a blocking receive did not produce a value.
#[derive(Debug, Clone, Copy, PartialEq, Eq, Structural)]
pub enum RecvError {
    Disconnected,
    Empty,
}

impl RecvError {
    /// The text that describes the error.
    pub fn message(&self) -> (s: &'static str)
        ensures
            s@ == (match self {
                RecvError::Disconnected => "channel disconnected"@,
                RecvError::Empty => "channel empty"@,
            }),
    {
        match self {
            RecvError::Disconnected => "channel disconnected",
            RecvError::Empty => "channel empty",
        }
    }
}

/// Why a non-blocking receive did not produce a value.
#[derive(Debug, Clone, Copy, PartialEq, Eq, Structural)]
pub enum TryRecvError {
    Empty,
    Disconnected,
}

impl TryRecvError {
    /// The text that describes the error.
    pub fn message(&self) -> (s: &'static str)
        ensures
            s@ == (match self {
                TryRecvError::Empty => "channel empty"@,
                TryRecvError::Disconnected => "channel disconnected"@,
            }),
    {
        match self {
            TryRecvError::Empty => "channel empty",
            TryRecvError::Disconnected => "channel disconnected",
        }
    }
}

/// What one attempt of a blocking send did.
///
/// `Sent(w)`: the value is in the channel; `w` is the waiting receiver to wake, if any.
/// `Parked`: the value was handed to the channel and the current goroutine was queued as a
/// waiting sender; it must wait until a receiver wakes it.
/// `Retry(v)`: the hand-off slot of an unbuffered channel is still taken; try again later with `v`.
/// `Failed(e)`: the send failed and will not succeed by retrying.
#[derive(Debug)]
pub enum SendStep<T> {
    Sent(Option<usize>),
    Parked,
    Retry(T),
    Failed(SendError<T>),
}

/// What one attempt of a blocking receive did.
///
/// `Received(v, w)`: `v` was taken; `w` is the waiting sender to wake, if any.
/// `Parked`: the current goroutine was queued as a waiting receiver.
/// `Retry`: nothing to take and no goroutine to park; try again later.
/// `Failed(e)`: the channel is closed and drained.
#[derive(Debug)]
pub enum RecvStep<T> {
    Received(T, Option<usize>),
    Parked,
    Retry,
    Failed(RecvError),
}

/// The first element of a queue of goroutine ids, if any.
pub open spec fn queue_front(q: Seq<usize>) -> Option<usize> {
    if q.len() > 0 {
        Some(q[0])
    } else {
        None
    }
}

/// A queue of goroutine ids with its first element taken off (unchanged when empty).
pub open spec fn queue_rest(q: Seq<usize>) -> Seq<usize> {
    if q.len() > 0 {
        q.subrange(1, q.len() as int)
    } else {
        q
    }
}

/// The abstract state of a channel.
///
/// `buffer` holds the values sent and not yet received, oldest first; `pending` is the
/// hand-off slot of an unbuffered channel (capacity zero); `send_waiters` and `recv_waiters`
/// are the ids of the goroutines parked on the channel, in the order they arrived.
#[verifier::ext_equal]
pub struct ChannelView<T> {
    pub buffer: Seq<T>,
    pub capacity: nat,
    pub closed: bool,
    pub pending: Option<T>,
    pub send_waiters: Seq<usize>,
    pub recv_waiters: Seq<usize>,
}

impl<T> ChannelView<T> {
    /// The states that the operations keep: a buffered channel never holds more than its
    /// capacity and never uses the hand-off slot; an unbuffered one keeps nothing in its buffer
    /// and has at most one parked sender, whose value sits in the slot.
    pub open spec fn valid(self) -> bool {
        &&& self.capacity > 0 ==> self.buffer.len() <= self.capacity
        &&& self.capacity == 0 ==> self.buffer.len() == 0
        &&& self.pending is Some ==> self.capacity == 0
        &&& self.send_waiters.len() <= 1
        &&& self.send_waiters.len() == 1 ==> self.pending is Some
    }

    pub open spec fn with_buffer(self, buffer: Seq<T>) -> Self {
        ChannelView { buffer, ..self }
    }

    pub open spec fn with_pending(self, pending: Option<T>) -> Self {
        ChannelView { pending, ..self }
    }

    pub open spec fn with_send_waiters(self, send_waiters: Seq<usize>) -> Self {
        ChannelView { send_waiters, ..self }
    }

    pub open spec fn with_recv_waiters(self, recv_waiters: Seq<usize>) -> Self {
        ChannelView { recv_waiters, ..self }
    }

    /// A buffered channel with room takes the value at the back of its buffer and wakes the
    /// oldest parked receiver.
    pub open spec fn buffered_push(self, value: T) -> (Self, Option<usize>) {
        (
            self.with_buffer(self.buffer.push(value)).with_recv_waiters(queue_rest(self.recv_waiters)),
            queue_front(self.recv_waiters),
        )
    }

    /// A non-blocking send: it fails on a closed channel, and on a channel that has no room in
    /// its buffer (an unbuffered channel never has room).
    pub open spec fn try_send_result(self, value: T) -> (Self, Result<Option<usize>, SendError<T>>) {
        if self.closed {
            (self, Err(SendError::Disconnected(value)))
        } else if self.capacity > 0 && self.buffer.len() < self.capacity {
            let (s, w) = self.buffered_push(value);
            (s, Ok(w))
        } else {
            (self, Err(SendError::Full(value)))
        }
    }

    /// One attempt of a blocking send by `current` (the running goroutine, if any).
    ///
    /// A buffered channel behaves as `try_send_result`. An unbuffered channel puts the value in
    /// its hand-off slot when the slot is free: it then wakes the oldest parked receiver, or
    /// parks `current` as a sender, or (no goroutine to park) leaves the value for the next
    /// receiver. While the slot is taken the sender has to retry.
    pub open spec fn send_result(self, value: T, current: Option<usize>) -> (Self, SendStep<T>) {
        if self.closed {
            (self, SendStep::Failed(SendError::Disconnected(value)))
        } else if self.capacity > 0 {
            if self.buffer.len() < self.capacity {
                let (s, w) = self.buffered_push(value);
                (s, SendStep::Sent(w))
            } else {
                (self, SendStep::Failed(SendError::Full(value)))
            }
        } else if self.pending is Some {
            (self, SendStep::Retry(value))
        } else if self.recv_waiters.len() > 0 {
            (
                self.with_pending(Some(value)).with_recv_waiters(queue_rest(self.recv_waiters)),
                SendStep::Sent(queue_front(self.recv_waiters)),
            )
        } else {
            match current {
                Some(g) => (
                    self.with_pending(Some(value)).with_send_waiters(self.send_waiters.push(g)),
                    SendStep::Parked,
                ),
                None => (self.with_pending(Some(value)), SendStep::Sent(None)),
            }
        }
    }

    /// One attempt of a blocking receive by `current`.
    ///
    /// The oldest buffered value comes first; a closed channel with an empty buffer fails; then
    /// the value in the hand-off slot is taken (waking the sender parked with it); otherwise
    /// `current` parks as a receiver, or, with no goroutine to park, the receiver retries.
    pub open spec fn recv_result(self, current: Option<usize>) -> (Self, RecvStep<T>) {
        if self.buffer.len() > 0 {
            (
                self.with_buffer(self.buffer.subrange(1, self.buffer.len() as int)).with_send_waiters(
                    queue_rest(self.send_waiters),
                ),
                RecvStep::Received(self.buffer[0], queue_front(self.send_waiters)),
            )
        } else if self.closed {
            (self, RecvStep::Failed(RecvError::Disconnected))
        } else if self.pending is Some {
            (
                self.with_pending(None).with_send_waiters(queue_rest(self.send_waiters)),
                RecvStep::Received(self.pending->0, queue_front(self.send_waiters)),
            )
        } else {
            match current {
                Some(g) => (self.with_recv_waiters(self.recv_waiters.push(g)), RecvStep::Parked),
                None => (self, RecvStep::Retry),
            }
        }
    }

    /// A non-blocking receive: it only looks at the buffer.
    pub open spec fn try_recv_result(self) -> (Self, Result<T, TryRecvError>) {
        if self.buffer.len() > 0 {
            (
                self.with_buffer(self.buffer.subrange(1, self.buffer.len() as int)).with_send_waiters(
                    queue_rest(self.send_waiters),
                ),
                Ok(self.buffer[0]),
            )
        } else if self.closed {
            (self, Err(TryRecvError::Disconnected))
        } else {
            (self, Err(TryRecvError::Empty))
        }
    }

    /// Closing marks the channel closed and wakes every parked receiver, oldest first; closing
    /// a closed channel does nothing.
    pub open spec fn close_result(self) -> (Self, Seq<usize>) {
        if self.closed {
            (self, Seq::empty())
        } else {
            (ChannelView { closed: true, recv_waiters: Seq::empty(), ..self }, self.recv_waiters)
        }
    }
}

/// A channel: a buffer of `capacity` values (or, with capacity zero, a single hand-off slot),
/// a closed flag, and the goroutines parked on it.
pub struct Channel<T> {
    buffer: VecDeque<T>,
    capacity: usize,
    closed: bool,
    send_waiters: VecDeque<usize>,
    recv_waiters: VecDeque<usize>,
    pending_value: Option<T>,
}

impl<T> Channel<T> {
    pub closed spec fn model(&self) -> ChannelView<T> {
        ChannelView {
            buffer: self.buffer@,
            capacity: self.capacity as nat,
            closed: self.closed,
            pending: self.pending_value,
            send_waiters: self.send_waiters@,
            recv_waiters: self.recv_waiters@,
        }
    }
}

impl<T> View for Channel<T> {
    type V = ChannelView<T>;

    open spec fn view(&self) -> ChannelView<T> {
        self.model()
    }
}

/// The scheduler after goroutine `current` parked on a channel: it is marked waiting (an
/// unknown id, or a caller outside goroutines, changes nothing).
pub open spec fn parked(s: SchedulerView, current: Option<usize>) -> SchedulerView {
    match current {
        Some(g) => if valid_id(s, g as int) {
            s.with_status(g as int, GStatus::Waiting)
        } else {
            s
        },
        None => s,
    }
}

fn mark_parked(sched: &mut Scheduler, current: Option<usize>)
    requires
        old(sched).wf(),
    ensures
        final(sched).wf(),
        final(sched)@ == parked(old(sched)@, current),
{
    match current {
        Some(g) => sched.set_status(g, GStatus::Waiting),
        None => {},
    }
}

/// Moves every id out of a queue, oldest first.
fn drain_ids(q: &mut VecDeque<usize>) -> (out: Vec<usize>)
    ensures
        out@ == old(q)@,
        final(q)@ == Seq::<usize>::empty(),
{
    let mut out: Vec<usize> = Vec::new();
    loop
        invariant
            out@ + q@ == old(q)@,
        ensures
            out@ == old(q)@,
            q@ == Seq::<usize>::empty(),
        decreases q@.len(),
    {
        match q.pop_front() {
            Some(w) => {
                out.push(w);
                assert(out@ + q@ =~= old(q)@);
            },
            None => {
                assert(out@ =~= out@ + q@);
                break ;
            },
        }
    }
    out
}

impl<T> Channel<T> {
    /// A new open, empty channel; capacity zero makes it unbuffered.
    pub fn new(capacity: usize) -> (c: Self)
        ensures
            c@.valid(),
            c@ == (ChannelView::<T> {
                buffer: Seq::empty(),
                capacity: capacity as nat,
                closed: false,
                pending: None,
                send_waiters: Seq::empty(),
                recv_waiters: Seq::empty(),
            }),
    {
        let c = Channel {
            buffer: VecDeque::with_capacity(capacity),
            capacity,
            closed: false,
            send_waiters: VecDeque::new(),
            recv_waiters: VecDeque::new(),
            pending_value: None,
        };
        assert(c@ =~= ChannelView::<T> {
            buffer: Seq::empty(),
            capacity: capacity as nat,
            closed: false,
            pending: None,
            send_waiters: Seq::empty(),
            recv_waiters: Seq::empty(),
        });
        c
    }

    /// Puts `value` in the buffer at once, or fails; it never waits.
    pub fn try_send(&mut self, value: T) -> (r: Result<Option<usize>, SendError<T>>)
        requires
            old(self)@.valid(),
        ensures
            final(self)@.valid(),
            final(self)@ == old(self)@.try_send_result(value).0,
            r == old(self)@.try_send_result(value).1,
    {
        if self.closed {
            return Err(SendError::Disconnected(value));
        }
        if self.capacity > 0 && self.buffer.len() < self.capacity {
            self.buffer.push_back(value);
            let w = self.recv_waiters.pop_front();
            assert(self@ =~= old(self)@.try_send_result(value).0);
            Ok(w)
        } else {
            Err(SendError::Full(value))
        }
    }

    /// One attempt of a blocking send by the goroutine `current` (`None` outside goroutines).
    pub fn send(&mut self, value: T, current: Option<usize>) -> (r: SendStep<T>)
        requires
            old(self)@.valid(),
        ensures
            final(self)@.valid(),
            final(self)@ == old(self)@.send_result(value, current).0,
            r == old(self)@.send_result(value, current).1,
    {
        if self.closed {
            return SendStep::Failed(SendError::Disconnected(value));
        }
        if self.capacity > 0 {
            if self.buffer.len() < self.capacity {
                self.buffer.push_back(value);
                let w = self.recv_waiters.pop_front();
                assert(self@ =~= old(self)@.send_result(value, current).0);
                return SendStep::Sent(w);
            } else {
                return SendStep::Failed(SendError::Full(value));
            }
        }
        if self.pending_value.is_some() {
            return SendStep::Retry(value);
        }
        match self.recv_waiters.pop_front() {
            Some(w) => {
                self.pending_value = Some(value);
                assert(self@ =~= old(self)@.send_result(value, current).0);
                SendStep::Sent(Some(w))
            },
            None => {
                self.pending_value = Some(value);
                match current {
                    Some(g) => {
                        self.send_waiters.push_back(g);
                        assert(self@ =~= old(self)@.send_result(value, current).0);
                        SendStep::Parked
                    },
                    None => {
                        assert(self@ =~= old(self)@.send_result(value, current).0);
                        SendStep::Sent(None)
                    },
                }
            },
        }
    }

    /// One attempt of a blocking receive by the goroutine `current` (`None` outside goroutines).
    pub fn recv(&mut self, current: Option<usize>) -> (r: RecvStep<T>)
        requires
            old(self)@.valid(),
        ensures
            final(self)@.valid(),
            final(self)@ == old(self)@.recv_result(current).0,
            r == old(self)@.recv_result(current).1,
    {
        match self.buffer.pop_front() {
            Some(v) => {
                let w = self.send_waiters.pop_front();
                assert(self@ =~= old(self)@.recv_result(current).0);
                return RecvStep::Received(v, w);
            },
            None => {},
        }
        if self.closed {
            return RecvStep::Failed(RecvError::Disconnected);
        }
        match self.pending_value.take() {
            Some(v) => {
                let w = self.send_waiters.pop_front();
                assert(self@ =~= old(self)@.recv_result(current).0);
                RecvStep::Received(v, w)
            },
            None => match current {
                Some(g) => {
                    self.recv_waiters.push_back(g);
                    assert(self@ =~= old(self)@.recv_result(current).0);
                    RecvStep::Parked
                },
                None => {
                    assert(self@ =~= old(self)@.recv_result(current).0);
                    RecvStep::Retry
                },
            },
        }
    }

    /// `send` together with the scheduler, both under one lock: a goroutine that parks as a
    /// sender is marked waiting in the same step, so that the receiver's wake finds it waiting.
    pub fn send_parking(&mut self, sched: &mut Scheduler, value: T, current: Option<usize>) -> (r: SendStep<T>)
        requires
            old(self)@.valid(),
            old(sched).wf(),
        ensures
            final(self)@.valid(),
            final(self)@ == old(self)@.send_result(value, current).0,
            r == old(self)@.send_result(value, current).1,
            final(sched).wf(),
            final(sched)@ == (if r is Parked { parked(old(sched)@, current) } else { old(sched)@ }),
    {
        let r = self.send(value, current);
        if let SendStep::Parked = r {
            mark_parked(sched, current);
        }
        r
    }

    /// `recv` together with the scheduler, both under one lock: a goroutine that parks as a
    /// receiver is marked waiting in the same step, so that the sender's wake finds it waiting.
    pub fn recv_parking(&mut self, sched: &mut Scheduler, current: Option<usize>) -> (r: RecvStep<T>)
        requires
            old(self)@.valid(),
            old(sched).wf(),
        ensures
            final(self)@.valid(),
            final(self)@ == old(self)@.recv_result(current).0,
            r == old(self)@.recv_result(current).1,
            final(sched).wf(),
            final(sched)@ == (if r is Parked { parked(old(sched)@, current) } else { old(sched)@ }),
    {
        let r = self.recv(current);
        if let RecvStep::Parked = r {
            mark_parked(sched, current);
        }
        r
    }

    /// Takes the oldest buffered value, or says why there is none; it never waits.
    pub fn try_recv(&mut self) -> (r: Result<T, TryRecvError>)
        requires
            old(self)@.valid(),
        ensures
            final(self)@.valid(),
            final(self)@ == old(self)@.try_recv_result().0,
            r == old(self)@.try_recv_result().1,
    {
        match self.buffer.pop_front() {
            Some(v) => {
                let _w = self.send_waiters.pop_front();
                assert(self@ =~= old(self)@.try_recv_result().0);
                Ok(v)
            },
            None => {
                if self.closed {
                    Err(TryRecvError::Disconnected)
                } else {
                    Err(TryRecvError::Empty)
                }
            },
        }
    }

    /// Closes the channel; the result lists the parked receivers to wake.
    pub fn close(&mut self) -> (woken: Vec<usize>)
        requires
            old(self)@.valid(),
        ensures
            final(self)@.valid(),
            final(self)@ == old(self)@.close_result().0,
            woken@ == old(self)@.close_result().1,
    {
        if !self.closed {
            self.closed = true;
            let woken = drain_ids(&mut self.recv_waiters);
            assert(self@ =~= old(self)@.close_result().0);
            woken
        } else {
            Vec::new()
        }
    }

    pub fn is_closed(&self) -> (r: bool)
        ensures
            r == self@.closed,
    {
        self.closed
    }

    /// Whether the buffer holds a value (the hand-off slot does not count).
    pub fn has_data(&self) -> (r: bool)
        ensures
            r == (self@.buffer.len() > 0),
    {
        self.buffer.len() > 0
    }

    pub fn capacity(&self) -> (r: usize)
        ensures
            r == self@.capacity,
    {
        self.capacity
    }

    /// The number of buffered values.
    pub fn len(&self) -> (r: usize)
        ensures
            r == self@.buffer.len(),
    {
        self.buffer.len()
    }
}

/// What a select can ask of a channel end.
pub trait Selectable {
    /// Whether a receive would find a value now.
    fn can_recv(&self) -> bool;

    /// Whether a send could be attempted.
    fn can_send(&self) -> bool;
}

impl<T> Selectable for Channel<T> {
    fn can_recv(&self) -> (r: bool)
        ensures
            r == (self@.buffer.len() > 0 && !self@.closed),
    {
        self.has_data() && !self.is_closed()
    }

    fn can_send(&self) -> (r: bool)
        ensures
            r == !self@.closed,
    {
        !self.is_closed()
    }
}


/// The abstract state of an unbounded channel.
#[verifier::ext_equal]
pub struct UnboundedView<T> {
    pub buffer: Seq<T>,
    pub closed: bool,
    pub recv_waiters: Seq<usize>,
}

/// A channel without a capacity limit: sends never wait.
pub struct UnboundedChannel<T> {
    buffer: VecDeque<T>,
    closed: bool,
    recv_waiters: VecDeque<usize>,
}

impl<T> UnboundedChannel<T> {
    pub closed spec fn model(&self) -> UnboundedView<T> {
        UnboundedView { buffer: self.buffer@, closed: self.closed, recv_waiters: self.recv_waiters@ }
    }
}

impl<T> View for UnboundedChannel<T> {
    type V = UnboundedView<T>;

    open spec fn view(&self) -> UnboundedView<T> {
        self.model()
    }
}

/// A new open, empty unbounded channel.
pub fn unbounded<T>() -> (c: UnboundedChannel<T>)
    ensures
        c@ == (UnboundedView::<T> { buffer: Seq::empty(), closed: false, recv_waiters: Seq::empty() }),
{
    let c = UnboundedChannel { buffer: VecDeque::new(), closed: false, recv_waiters: VecDeque::new() };
    assert(c@ =~= UnboundedView::<T> { buffer: Seq::empty(), closed: false, recv_waiters: Seq::empty() });
    c
}

impl<T> UnboundedChannel<T> {
    /// Appends `value` unless the channel is closed; the result names the oldest parked
    /// receiver, which is to be woken.
    pub fn send(&mut self, value: T) -> (r: Result<Option<usize>, SendError<T>>)
        ensures
            old(self)@.closed ==> final(self)@ == old(self)@ && r == Err::<Option<usize>, SendError<T>>(
                SendError::Disconnected(value),
            ),
            !old(self)@.closed ==> final(self)@ == (UnboundedView {
                buffer: old(self)@.buffer.push(value),
                closed: false,
                recv_waiters: queue_rest(old(self)@.recv_waiters),
            }) && r == Ok::<Option<usize>, SendError<T>>(queue_front(old(self)@.recv_waiters)),
    {
        if self.closed {
            return Err(SendError::Disconnected(value));
        }
        self.buffer.push_back(value);
        let w = self.recv_waiters.pop_front();
        assert(self@ =~= UnboundedView {
            buffer: old(self)@.buffer.push(value),
            closed: false,
            recv_waiters: queue_rest(old(self)@.recv_waiters),
        });
        Ok(w)
    }

    /// Closes the channel; the result lists the parked receivers to wake.
    pub fn close(&mut self) -> (woken: Vec<usize>)
        ensures
            old(self)@.closed ==> final(self)@ == old(self)@ && woken@ == Seq::<usize>::empty(),
            !old(self)@.closed ==> final(self)@ == (UnboundedView {
                buffer: old(self)@.buffer,
                closed: true,
                recv_waiters: Seq::<usize>::empty(),
            }) && woken@ == old(self)@.recv_waiters,
    {
        if !self.closed {
            self.closed = true;
            let woken = drain_ids(&mut self.recv_waiters);
            assert(self@ =~= UnboundedView {
                buffer: old(self)@.buffer,
                closed: true,
                recv_waiters: Seq::<usize>::empty(),
            });
            woken
        } else {
            Vec::new()
        }
    }

    /// One attempt of a blocking receive by the goroutine `current`: the oldest value, else
    /// `Disconnected` once closed, else park `current`, else retry.
    pub fn recv(&mut self, current: Option<usize>) -> (r: RecvStep<T>)
        ensures
            old(self)@.buffer.len() > 0 ==> final(self)@ == (UnboundedView {
                buffer: old(self)@.buffer.subrange(1, old(self)@.buffer.len() as int),
                ..old(self)@
            }) && r == RecvStep::Received(old(self)@.buffer[0], None),
            old(self)@.buffer.len() == 0 && old(self)@.closed ==> final(self)@ == old(self)@ && r
                == RecvStep::<T>::Failed(RecvError::Disconnected),
            old(self)@.buffer.len() == 0 && !old(self)@.closed ==> match current {
                Some(g) => final(self)@ == (UnboundedView {
                    recv_waiters: old(self)@.recv_waiters.push(g),
                    ..old(self)@
                }) && r == RecvStep::<T>::Parked,
                None => final(self)@ == old(self)@ && r == RecvStep::<T>::Retry,
            },
    {
        match self.buffer.pop_front() {
            Some(v) => {
                assert(self@ =~= UnboundedView {
                    buffer: old(self)@.buffer.subrange(1, old(self)@.buffer.len() as int),
                    ..old(self)@
                });
                return RecvStep::Received(v, None);
            },
            None => {},
        }
        if self.closed {
            return RecvStep::Failed(RecvError::Disconnected);
        }
        match current {
            Some(g) => {
                self.recv_waiters.push_back(g);
                assert(self@ =~= UnboundedView {
                    recv_waiters: old(self)@.recv_waiters.push(g),
                    ..old(self)@
                });
                RecvStep::Parked
            },
            None => RecvStep::Retry,
        }
    }

    /// `recv` together with the scheduler, both under one lock: a goroutine that parks is
    /// marked waiting in the same step, so that the sender's wake finds it waiting.
    pub fn recv_parking(&mut self, sched: &mut Scheduler, current: Option<usize>) -> (r: RecvStep<T>)
        requires
            old(sched).wf(),
        ensures
            old(self)@.buffer.len() > 0 ==> final(self)@ == (UnboundedView {
                buffer: old(self)@.buffer.subrange(1, old(self)@.buffer.len() as int),
                ..old(self)@
            }) && r == RecvStep::Received(old(self)@.buffer[0], None),
            old(self)@.buffer.len() == 0 && old(self)@.closed ==> final(self)@ == old(self)@ && r
                == RecvStep::<T>::Failed(RecvError::Disconnected),
            old(self)@.buffer.len() == 0 && !old(self)@.closed ==> match current {
                Some(g) => final(self)@ == (UnboundedView {
                    recv_waiters: old(self)@.recv_waiters.push(g),
                    ..old(self)@
                }) && r == RecvStep::<T>::Parked,
                None => final(self)@ == old(self)@ && r == RecvStep::<T>::Retry,
            },
            final(sched).wf(),
            final(sched)@ == (if r is Parked { parked(old(sched)@, current) } else { old(sched)@ }),
    {
        let r = self.recv(current);
        if let RecvStep::Parked = r {
            mark_parked(sched, current);
        }
        r
    }

    /// Takes the oldest value, or says why there is none; it never waits.
    pub fn try_recv(&mut self) -> (r: Result<T, TryRecvError>)
        ensures
            old(self)@.buffer.len() > 0 ==> final(self)@ == (UnboundedView {
                buffer: old(self)@.buffer.subrange(1, old(self)@.buffer.len() as int),
                ..old(self)@
            }) && r == Ok::<T, TryRecvError>(old(self)@.buffer[0]),
            old(self)@.buffer.len() == 0 ==> final(self)@ == old(self)@ && r == (if old(self)@.closed {
                Err::<T, TryRecvError>(TryRecvError::Disconnected)
            } else {
                Err::<T, TryRecvError>(TryRecvError::Empty)
            }),
    {
        match self.buffer.pop_front() {
            Some(v) => {
                assert(self@ =~= UnboundedView {
                    buffer: old(self)@.buffer.subrange(1, old(self)@.buffer.len() as int),
                    ..old(self)@
                });
                Ok(v)
            },
            None => {
                if self.closed {
                    Err(TryRecvError::Disconnected)
                } else {
                    Err(TryRecvError::Empty)
                }
            },
        }
    }

    pub fn is_closed(&self) -> (r: bool)
        ensures
            r == self@.closed,
    {
        self.closed
    }

    pub fn has_data(&self) -> (r: bool)
        ensures
            r == (self@.buffer.len() > 0),
    {
        self.buffer.len() > 0
    }
}

/// A FIFO queue that refuses values beyond its capacity.
pub struct BoundedQueue<T> {
    queue: VecDeque<T>,
    capacity: usize,
}

impl<T> BoundedQueue<T> {
    /// The values in the queue, oldest first.
    pub closed spec fn items(&self) -> Seq<T> {
        self.queue@
    }

    pub closed spec fn limit(&self) -> nat {
        self.capacity as nat
    }

    pub open spec fn valid(&self) -> bool {
        self.items().len() <= self.limit()
    }

    pub fn new(capacity: usize) -> (q: Self)
        ensures
            q.valid(),
            q.items() == Seq::<T>::empty(),
            q.limit() == capacity,
    {
        BoundedQueue { queue: VecDeque::with_capacity(capacity), capacity }
    }

    /// Appends `value` if the queue is not full; a full queue hands it back.
    pub fn push(&mut self, value: T) -> (r: Result<(), T>)
        requires
            old(self).valid(),
        ensures
            final(self).valid(),
            final(self).limit() == old(self).limit(),
            old(self).items().len() >= old(self).limit() ==> r == Err::<(), T>(value) && final(self).items() == old(self).items(),
            old(self).items().len() < old(self).limit() ==> r == Ok::<(), T>(()) && final(self).items() == old(self).items().push(value),
    {
        if self.queue.len() >= self.capacity {
            return Err(value);
        }
        self.queue.push_back(value);
        Ok(())
    }

    /// Takes the oldest value, if any.
    pub fn pop(&mut self) -> (r: Option<T>)
        ensures
            final(self).limit() == old(self).limit(),
            old(self).items().len() == 0 ==> r == None::<T> && final(self).items() == old(self).items(),
            old(self).items().len() > 0 ==> r == Some(old(self).items()[0]) && final(self).items()
                == old(self).items().subrange(1, old(self).items().len() as int),
    {
        self.queue.pop_front()
    }

    pub fn len(&self) -> (r: usize)
        ensures
            r == self.items().len(),
    {
        self.queue.len()
    }

    pub fn is_empty(&self) -> (r: bool)
        ensures
            r == (self.items().len() == 0),
    {
        self.len() == 0
    }
}


/// The state after sending each value of `xs` in turn, outside goroutines.
pub open spec fn send_all<T>(v: ChannelView<T>, xs: Seq<T>) -> ChannelView<T>
    decreases xs.len(),
{
    if xs.len() == 0 {
        v
    } else {
        send_all(v.send_result(xs[0], None).0, xs.subrange(1, xs.len() as int))
    }
}

/// The values obtained by `n` receive attempts in turn, outside goroutines.
pub open spec fn recv_n<T>(v: ChannelView<T>, n: nat) -> Seq<T>
    decreases n,
{
    if n == 0 {
        Seq::empty()
    } else {
        let (v1, r) = v.recv_result(None);
        match r {
            RecvStep::Received(x, _) => seq![x] + recv_n(v1, (n - 1) as nat),
            _ => recv_n(v1, (n - 1) as nat),
        }
    }
}

proof fn lemma_send_all_appends<T>(v: ChannelView<T>, xs: Seq<T>)
    requires
        v.valid(),
        !v.closed,
        v.capacity > 0,
        v.buffer.len() + xs.len() <= v.capacity,
    ensures
        send_all(v, xs).valid(),
        !send_all(v, xs).closed,
        send_all(v, xs).capacity == v.capacity,
        send_all(v, xs).buffer == v.buffer + xs,
    decreases xs.len(),
{
    if xs.len() == 0 {
        assert(v.buffer + xs =~= v.buffer);
    } else {
        let v1 = v.send_result(xs[0], None).0;
        let rest = xs.subrange(1, xs.len() as int);
        lemma_send_all_appends(v1, rest);
        assert(v1.buffer + rest =~= v.buffer + xs);
    }
}

proof fn lemma_recv_n_takes_prefix<T>(w: ChannelView<T>, n: nat)
    requires
        w.valid(),
        w.capacity > 0,
        n <= w.buffer.len(),
    ensures
        recv_n(w, n) == w.buffer.subrange(0, n as int),
    decreases n,
{
    if n == 0 {
        assert(w.buffer.subrange(0, 0) =~= Seq::<T>::empty());
    } else {
        let w1 = w.recv_result(None).0;
        lemma_recv_n_takes_prefix(w1, (n - 1) as nat);
        assert(seq![w.buffer[0]] + w1.buffer.subrange(0, n - 1) =~= w.buffer.subrange(0, n as int));
    }
}

/// Values leave a buffered channel in the order they entered it: after sending `xs` in turn to
/// an open channel with room for them, receiving as many times as there are values yields the
/// values that were already buffered followed by `xs`.
pub proof fn law_buffered_fifo<T>(v: ChannelView<T>, xs: Seq<T>)
    requires
        v.valid(),
        !v.closed,
        v.capacity > 0,
        v.buffer.len() + xs.len() <= v.capacity,
    ensures
        recv_n(send_all(v, xs), v.buffer.len() + xs.len()) == v.buffer + xs,
{
    lemma_send_all_appends(v, xs);
    let w = send_all(v, xs);
    lemma_recv_n_takes_prefix(w, (v.buffer.len() + xs.len()) as nat);
    assert(w.buffer.subrange(0, w.buffer.len() as int) =~= w.buffer);
}

/// A non-blocking send to an open buffered channel with room always succeeds: the value joins
/// the back of the buffer, the oldest parked receiver (if any) is the one to wake, and the
/// channel stays open with the same capacity.
pub proof fn law_try_send_with_room_succeeds<T>(v: ChannelView<T>, x: T)
    requires
        !v.closed,
        0 < v.capacity,
        v.buffer.len() < v.capacity,
    ensures
        v.try_send_result(x).1 == Ok::<Option<usize>, SendError<T>>(queue_front(v.recv_waiters)),
        v.try_send_result(x).0.buffer == v.buffer.push(x),
        !v.try_send_result(x).0.closed,
        v.try_send_result(x).0.capacity == v.capacity,
        v.recv_waiters.len() > 0 ==> v.try_send_result(x).1 == Ok::<Option<usize>, SendError<T>>(
            Some(v.recv_waiters[0]),
        ),
{
}

/// A closed channel whose buffer is empty fails every receive, whatever its capacity and
/// whoever receives (a goroutine or not): nothing changes and the receiver is not parked.
pub proof fn law_closed_empty_recv_fails<T>(v: ChannelView<T>, current: Option<usize>)
    requires
        v.closed,
        v.buffer.len() == 0,
    ensures
        v.recv_result(current) == (v, RecvStep::<T>::Failed(RecvError::Disconnected)),
        v.try_recv_result() == (v, Err::<T, TryRecvError>(TryRecvError::Disconnected)),
{
}

/// A closed channel refuses every send, hands the value back and does not change.
pub proof fn law_closed_refuses_sends<T>(v: ChannelView<T>, x: T, current: Option<usize>)
    requires
        v.closed,
    ensures
        v.send_result(x, current) == (v, SendStep::Failed(SendError::Disconnected(x))),
        v.try_send_result(x) == (v, Err::<Option<usize>, SendError<T>>(SendError::Disconnected(x))),
{
}

/// A closed channel still yields its buffered values, oldest first, and then reports
/// `Disconnected` for ever.
pub proof fn law_closed_drains<T>(v: ChannelView<T>)
    requires
        v.valid(),
        v.closed,
        v.capacity > 0,
    ensures
        recv_n(v, v.buffer.len()) == v.buffer,
        ({
            let (drained, _) = v.recv_result(None);
            v.buffer.len() == 0 ==> drained == v && v.recv_result(None).1 == RecvStep::<T>::Failed(
                RecvError::Disconnected,
            )
        }),
        v.buffer.len() == 0 ==> v.try_recv_result() == (v, Err::<T, TryRecvError>(TryRecvError::Disconnected)),
{
    lemma_recv_n_takes_prefix(v, v.buffer.len());
    assert(v.buffer.subrange(0, v.buffer.len() as int) =~= v.buffer);
}

/// Closing twice is closing once: the second close changes nothing and wakes nobody.
pub proof fn law_close_idempotent<T>(v: ChannelView<T>)
    ensures
        v.close_result().0.close_result() == (v.close_result().0, Seq::<usize>::empty()),
        v.close_result().0.closed,
{
}

/// Closing an open channel wakes every receiver parked on it, oldest first, leaves none parked,
/// and keeps the buffered values for later receives.
pub proof fn law_close_wakes_all_receivers<T>(v: ChannelView<T>)
    requires
        !v.closed,
    ensures
        v.close_result().1 == v.recv_waiters,
        v.close_result().0.recv_waiters.len() == 0,
        v.close_result().0.buffer == v.buffer,
        v.close_result().0.closed,
{
}

/// On an unbuffered channel with nobody waiting, a send outside goroutines leaves the value in
/// the hand-off slot, and the next receive gets it and restores the channel.
pub proof fn law_unbuffered_handoff<T>(v: ChannelView<T>, x: T, current: Option<usize>)
    requires
        v.valid(),
        v.capacity == 0,
        !v.closed,
        v.pending is None,
        v.recv_waiters.len() == 0,
    ensures
        v.send_result(x, None).1 == SendStep::<T>::Sent(None),
        v.send_result(x, None).0.recv_result(current) == (v, RecvStep::Received(x, None)),
{
    let v1 = v.send_result(x, None).0;
    assert(v1.recv_result(current).0 =~= v);
}

/// A non-blocking send to a full buffered channel, or to any open unbuffered one, fails with
/// `Full`, hands the value back and changes nothing.
pub proof fn law_try_send_full<T>(v: ChannelView<T>, x: T)
    requires
        !v.closed,
        v.buffer.len() >= v.capacity,
    ensures
        v.try_send_result(x) == (v, Err::<Option<usize>, SendError<T>>(SendError::Full(x))),
{
}


/// A send to a buffered channel that has room wakes the oldest receiver parked on it: the
/// scheduler makes that goroutine runnable and queues it behind those already queued.
pub proof fn law_send_wakes_parked_receiver<T>(v: ChannelView<T>, s: SchedulerView, x: T, current: Option<usize>)
    requires
        v.valid(),
        !v.closed,
        0 < v.capacity,
        v.buffer.len() < v.capacity,
        v.recv_waiters.len() > 0,
        s.valid(),
        !s.shutdown,
        valid_id(s, v.recv_waiters[0] as int),
        s.status_of(v.recv_waiters[0] as int) == GStatus::Waiting,
    ensures
        v.send_result(x, current).1 == SendStep::<T>::Sent(Some(v.recv_waiters[0])),
        v.send_result(x, current).0.buffer == v.buffer.push(x),
        s.wake_result(v.recv_waiters[0] as int).1,
        s.wake_result(v.recv_waiters[0] as int).0.run_queue == s.run_queue.push(v.recv_waiters[0]),
        s.wake_result(v.recv_waiters[0] as int).0.status_of(v.recv_waiters[0] as int) == GStatus::Runnable,
{
}

} // verus!
