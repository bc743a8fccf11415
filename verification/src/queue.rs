//! FIFO queues of the `sync` module's channels. Pushing and popping are
//! polled by the runtime: each poll either completes or leaves the polling
//! task waiting, and tells which waiting task to wake. Tasks are named by
//! identifiers that the runtime maps to its wakers.
use std::collections::VecDeque;

use vstd::prelude::*;

use crate::sync::QueueError;

verus! {

/// Outcome of polling a push into a buffered queue.
#[derive(Debug)]
pub enum PushPoll<T> {
    /// The push completed with this result; the task to wake, if any.
    Done(Result<(), QueueError>, Option<u64>),
    /// The pushing task waits; the value to push again.
    Blocked(T),
}

/// Outcome of polling a pop.
#[derive(Debug)]
pub enum PopPoll<T> {
    /// The pop completed with this result; the task to wake, if any.
    Done(Result<T, QueueError>, Option<u64>),
    /// The popping task waits.
    Blocked,
}

/// State of a buffered queue: idle, full with pushers waiting, or empty
/// with poppers waiting.
pub enum QueueState {
    Idle,
    WaitingForWrite,
    WaitingForRead,
}

/// Waiting tasks without their oldest one, and that one, if any.
pub open spec fn wake_one(waitlist: Seq<u64>) -> (Seq<u64>, Option<u64>) {
    if waitlist.len() == 0 {
        (waitlist, None)
    } else {
        (waitlist.drop_first(), Some(waitlist[0]))
    }
}

/// Takes the oldest waiting task out of `waitlist`.
fn take_waiter(waitlist: &mut VecDeque<u64>) -> (r: Option<u64>)
    ensures
        (final(waitlist)@, r) == wake_one(old(waitlist)@),
{
    let w = waitlist.pop_front();
    proof {
        if old(waitlist)@.len() > 0 {
            assert(waitlist@ =~= old(waitlist)@.drop_first());
        }
    }
    w
}

/// BufferedQueue define a queue with a fixed size internal buffer. Pushing
/// and popping are blocking if buffer is respectively full or empty.
#[derive(Debug)]
pub struct BufferedQueue<T> {
    queue: VecDeque<T>,
    capacity: usize,
    waitlist: VecDeque<u64>,
    closed: bool,
}

impl<T> BufferedQueue<T> {
    /// Values in the queue, oldest first.
    pub closed spec fn values(&self) -> Seq<T> {
        self.queue@
    }

    /// Number of values that fill the queue.
    pub closed spec fn cap(&self) -> nat {
        self.capacity as nat
    }

    /// Waiting tasks, oldest first.
    pub closed spec fn waiting(&self) -> Seq<u64> {
        self.waitlist@
    }

    /// Whether the queue is closed.
    pub closed spec fn is_closed_spec(&self) -> bool {
        self.closed
    }

    /// The queue never holds more values than its capacity.
    pub open spec fn wf(&self) -> bool {
        &&& self.cap() > 0
        &&& self.values().len() <= self.cap()
    }

    /// State of the queue: empty with waiting tasks (they pop), full (the
    /// waiting tasks push), or idle.
    pub open spec fn state_of(&self) -> QueueState {
        if self.values().len() == 0 && self.waiting().len() > 0 {
            QueueState::WaitingForWrite
        } else if self.values().len() == self.cap() {
            QueueState::WaitingForRead
        } else {
            QueueState::Idle
        }
    }

    /// Creates an empty, open queue that holds `cap` values; `cap` must not
    /// be zero.
    pub fn new(cap: usize) -> (r: BufferedQueue<T>)
        requires
            cap > 0,
        ensures
            r.wf(),
            r.values() == Seq::<T>::empty(),
            r.cap() == cap,
            r.waiting() == Seq::<u64>::empty(),
            !r.is_closed_spec(),
    {
        BufferedQueue {
            queue: VecDeque::with_capacity(cap),
            capacity: cap,
            waitlist: VecDeque::new(),
            closed: false,
        }
    }

    /// State of the queue ([Self::state_of]).
    fn state(&self) -> (r: QueueState)
        ensures
            r == self.state_of(),
    {
        if self.queue.len() == 0 && self.waitlist.len() > 0 {
            QueueState::WaitingForWrite
        } else if self.queue.len() == self.capacity {
            QueueState::WaitingForRead
        } else {
            QueueState::Idle
        }
    }

    /// Polls a push of `value` by task `task`: a closed queue refuses it; a
    /// full queue makes the task wait; otherwise the value is appended and,
    /// if tasks waited for a value, the oldest of them is to be woken.
    pub fn poll_push(&mut self, task: u64, value: T) -> (r: PushPoll<T>)
        requires
            old(self).wf(),
        ensures
            final(self).wf(),
            final(self).cap() == old(self).cap(),
            final(self).is_closed_spec() == old(self).is_closed_spec(),
            old(self).is_closed_spec() ==> r == PushPoll::<T>::Done(Err(QueueError::Closed), None)
                && final(self).values() == old(self).values() && final(self).waiting() == old(self).waiting(),
            !old(self).is_closed_spec() ==> match old(self).state_of() {
                QueueState::Idle => r == PushPoll::<T>::Done(Ok(()), None) && final(self).values()
                    == old(self).values().push(value) && final(self).waiting() == old(self).waiting(),
                QueueState::WaitingForWrite => r == PushPoll::<T>::Done(
                    Ok(()),
                    wake_one(old(self).waiting()).1,
                ) && final(self).values() == old(self).values().push(value) && final(self).waiting() == wake_one(old(self).waiting()).0,
                QueueState::WaitingForRead => r == PushPoll::<T>::Blocked(value) && final(self).values() == old(self).values() && final(self).waiting() == old(self).waiting().push(task),
            },
    {
        if self.closed {
            return PushPoll::Done(Err(QueueError::Closed), None);
        }
        match self.state() {
            QueueState::Idle => {
                self.queue.push_back(value);
                PushPoll::Done(Ok(()), None)
            },
            QueueState::WaitingForWrite => {
                self.queue.push_back(value);
                let woken = take_waiter(&mut self.waitlist);
                PushPoll::Done(Ok(()), woken)
            },
            QueueState::WaitingForRead => {
                self.waitlist.push_back(task);
                PushPoll::Blocked(value)
            },
        }
    }

    /// Polls a pop by task `task`: the oldest value is taken, and when the
    /// queue was full the oldest waiting task is to be woken; an empty queue
    /// makes the task wait unless the queue is closed, and a queue that
    /// tasks already wait on makes the task wait too.
    pub fn poll_pop(&mut self, task: u64) -> (r: PopPoll<T>)
        requires
            old(self).wf(),
        ensures
            final(self).wf(),
            final(self).cap() == old(self).cap(),
            final(self).is_closed_spec() == old(self).is_closed_spec(),
            match old(self).state_of() {
                QueueState::Idle => if old(self).values().len() > 0 {
                    r == PopPoll::<T>::Done(Ok(old(self).values()[0]), None) && final(self).values()
                        == old(self).values().drop_first() && final(self).waiting() == old(self).waiting()
                } else if old(self).is_closed_spec() {
                    r == PopPoll::<T>::Done(Err(QueueError::Closed), None) && final(self).values()
                        == old(self).values() && final(self).waiting() == old(self).waiting()
                } else {
                    r == PopPoll::<T>::Blocked && final(self).values() == old(self).values()
                        && final(self).waiting() == old(self).waiting().push(task)
                },
                QueueState::WaitingForRead => r == PopPoll::<T>::Done(
                    Ok(old(self).values()[0]),
                    wake_one(old(self).waiting()).1,
                ) && final(self).values() == old(self).values().drop_first() && final(self).waiting() == wake_one(old(self).waiting()).0,
                QueueState::WaitingForWrite => r == PopPoll::<T>::Blocked && final(self).values()
                    == old(self).values() && final(self).waiting() == old(self).waiting().push(task),
            },
    {
        match self.state() {
            QueueState::Idle => {
                if self.queue.len() > 0 {
                    let value = self.queue.pop_front();
                    assert(self.queue@ =~= old(self).queue@.drop_first());
                    match value {
                        Some(v) => PopPoll::Done(Ok(v), None),
                        None => PopPoll::Blocked,
                    }
                } else if self.closed {
                    PopPoll::Done(Err(QueueError::Closed), None)
                } else {
                    self.waitlist.push_back(task);
                    PopPoll::Blocked
                }
            },
            QueueState::WaitingForRead => {
                let value = self.queue.pop_front();
                assert(self.queue@ =~= old(self).queue@.drop_first());
                let woken = take_waiter(&mut self.waitlist);
                match value {
                    Some(v) => PopPoll::Done(Ok(v), woken),
                    None => PopPoll::Blocked,
                }
            },
            QueueState::WaitingForWrite => {
                self.waitlist.push_back(task);
                PopPoll::Blocked
            },
        }
    }

    /// Closes the queue; returns whether it was already closed and the
    /// waiting tasks, oldest first, all to be woken.
    pub fn close(&mut self) -> (r: (bool, VecDeque<u64>))
        requires
            old(self).wf(),
        ensures
            final(self).wf(),
            final(self).is_closed_spec(),
            r.0 == old(self).is_closed_spec(),
            r.1@ == old(self).waiting(),
            final(self).waiting() == Seq::<u64>::empty(),
            final(self).values() == old(self).values(),
            final(self).cap() == old(self).cap(),
    {
        let was_closed = self.closed;
        self.closed = true;
        let mut woken: VecDeque<u64> = VecDeque::new();
        std::mem::swap(&mut woken, &mut self.waitlist);
        (was_closed, woken)
    }

    /// Whether the queue is closed.
    pub fn is_closed(&self) -> (r: bool)
        ensures
            r == self.is_closed_spec(),
    {
        self.closed
    }

    /// Number of values in the queue.
    pub fn len(&self) -> (r: usize)
        ensures
            r == self.values().len(),
    {
        self.queue.len()
    }
}

/// State of a push into an unbuffered queue: the value still to place, or
/// placed and waiting for a pop.
#[derive(Debug)]
pub enum PushState<T> {
    Holding(T),
    Placed,
}

/// Outcome of polling a push into an unbuffered queue.
#[derive(Debug)]
pub struct UnbufferedPush<T> {
    /// The result when the push completed.
    pub done: Option<Result<(), QueueError>>,
    /// The state to poll the push with next.
    pub state: PushState<T>,
    /// The task to wake, if any.
    pub woken: Option<u64>,
}

/// State of an unbuffered queue: the value waiting in the slot with the
/// task that pushed it, the waiting tasks (oldest first), and whether the
/// queue is closed.
pub type UnbufferedState<T> = (Option<(T, u64)>, Seq<u64>, bool);

/// A poll of a push by task `task` in state `state`: a closed queue refuses
/// it; a placed value completes the push and the oldest waiting task is to
/// be woken; a value still held is placed when the slot is free, and
/// otherwise the task waits behind the others; either way the oldest
/// waiting task is to be woken.
pub open spec fn unbuffered_push<T>(q: UnbufferedState<T>, task: u64, state: PushState<T>) -> (
    UnbufferedState<T>,
    UnbufferedPush<T>,
) {
    let (slot, waiting, closed) = q;
    if closed {
        (q, UnbufferedPush { done: Some(Err(QueueError::Closed)), state, woken: None })
    } else {
        match state {
            PushState::Placed => (
                (slot, wake_one(waiting).0, closed),
                UnbufferedPush { done: Some(Ok(())), state: PushState::Placed, woken: wake_one(waiting).1 },
            ),
            PushState::Holding(v) => if slot is Some {
                (
                    (slot, wake_one(waiting.push(task)).0, closed),
                    UnbufferedPush {
                        done: None,
                        state: PushState::Holding(v),
                        woken: wake_one(waiting.push(task)).1,
                    },
                )
            } else {
                (
                    (Some((v, task)), wake_one(waiting).0, closed),
                    UnbufferedPush { done: None, state: PushState::Placed, woken: wake_one(waiting).1 },
                )
            },
        }
    }
}

/// A poll of a pop by task `task`: a closed queue refuses it; a value in the
/// slot is taken and its pushing task is to be woken; otherwise the task
/// waits.
pub open spec fn unbuffered_pop<T>(q: UnbufferedState<T>, task: u64) -> (UnbufferedState<T>, PopPoll<T>) {
    let (slot, waiting, closed) = q;
    if closed {
        (q, PopPoll::Done(Err(QueueError::Closed), None))
    } else {
        match slot {
            Some((v, pusher)) => ((None, waiting, closed), PopPoll::Done(Ok(v), Some(pusher))),
            None => ((None, waiting.push(task), closed), PopPoll::Blocked),
        }
    }
}

/// Closing: whether the queue was closed, and the tasks to wake: the
/// waiting tasks, oldest first, then the task whose value was in the slot,
/// which is dropped.
pub open spec fn unbuffered_close<T>(q: UnbufferedState<T>) -> (UnbufferedState<T>, (bool, Seq<u64>)) {
    let (slot, waiting, closed) = q;
    (
        (None, Seq::<u64>::empty(), true),
        (
            closed,
            match slot {
                Some((v, pusher)) => waiting.push(pusher),
                None => waiting,
            },
        ),
    )
}

/// UnbufferedQueue define a queue that always block: a pushed value waits
/// in a single slot, with its pushing task, until a task pops it.
#[derive(Debug)]
pub struct UnbufferedQueue<T> {
    slot: Option<(T, u64)>,
    waitlist: VecDeque<u64>,
    closed: bool,
}

impl<T> UnbufferedQueue<T> {
    /// Value waiting to be popped, with the task that pushed it.
    pub closed spec fn slot_of(&self) -> Option<(T, u64)> {
        self.slot
    }

    /// Waiting tasks, oldest first.
    pub closed spec fn waiting(&self) -> Seq<u64> {
        self.waitlist@
    }

    /// Whether the queue is closed.
    pub closed spec fn is_closed_spec(&self) -> bool {
        self.closed
    }

    /// State of the queue: the slot, the waiting tasks and whether it is
    /// closed.
    pub open spec fn model(&self) -> UnbufferedState<T> {
        (self.slot_of(), self.waiting(), self.is_closed_spec())
    }

    /// Creates an empty, open queue.
    pub fn new() -> (r: UnbufferedQueue<T>)
        ensures
            r.slot_of() is None,
            r.waiting() == Seq::<u64>::empty(),
            !r.is_closed_spec(),
    {
        UnbufferedQueue { slot: None, waitlist: VecDeque::new(), closed: false }
    }

    /// Polls a push by task `task` in state `state`: a closed queue refuses
    /// it; a placed value completes the push and the oldest waiting task is
    /// to be woken; a value still held is placed when the slot is free, and
    /// otherwise the task waits behind the others; either way the oldest
    /// waiting task is to be woken.
    pub fn poll_push(&mut self, task: u64, state: PushState<T>) -> (r: UnbufferedPush<T>)
        ensures
            (final(self).model(), r) == unbuffered_push(old(self).model(), task, state),
    {
        if self.closed {
            return UnbufferedPush { done: Some(Err(QueueError::Closed)), state, woken: None };
        }
        match state {
            PushState::Placed => {
                let woken = take_waiter(&mut self.waitlist);
                UnbufferedPush { done: Some(Ok(())), state: PushState::Placed, woken }
            },
            PushState::Holding(v) => {
                if self.slot.is_some() {
                    self.waitlist.push_back(task);
                    let woken = take_waiter(&mut self.waitlist);
                    UnbufferedPush { done: None, state: PushState::Holding(v), woken }
                } else {
                    self.slot = Some((v, task));
                    let woken = take_waiter(&mut self.waitlist);
                    UnbufferedPush { done: None, state: PushState::Placed, woken }
                }
            },
        }
    }

    /// Polls a pop by task `task`: a closed queue refuses it; a value in the
    /// slot is taken and its pushing task is to be woken; otherwise the task
    /// waits.
    pub fn poll_pop(&mut self, task: u64) -> (r: PopPoll<T>)
        ensures
            (final(self).model(), r) == unbuffered_pop(old(self).model(), task),
    {
        if self.closed {
            return PopPoll::Done(Err(QueueError::Closed), None);
        }
        match self.slot.take() {
            Some((value, pusher)) => PopPoll::Done(Ok(value), Some(pusher)),
            None => {
                self.waitlist.push_back(task);
                PopPoll::Blocked
            },
        }
    }

    /// Closes the queue; returns whether it was already closed and the tasks
    /// to wake: the waiting tasks, oldest first, then the task whose value
    /// was in the slot, which is dropped.
    pub fn close(&mut self) -> (r: (bool, VecDeque<u64>))
        ensures
            (final(self).model(), (r.0, r.1@)) == unbuffered_close(old(self).model()),
    {
        let was_closed = self.closed;
        self.closed = true;
        let mut woken: VecDeque<u64> = VecDeque::new();
        std::mem::swap(&mut woken, &mut self.waitlist);
        match self.slot.take() {
            Some((_, pusher)) => woken.push_back(pusher),
            None => {},
        }
        (was_closed, woken)
    }

    /// Whether the queue is closed.
    pub fn is_closed(&self) -> (r: bool)
        ensures
            r == self.is_closed_spec(),
    {
        self.closed
    }
}

/// Kind of queue behind a channel made by `sync.channel(cap)`.
#[derive(Debug, Clone, Copy, PartialEq, Eq, Structural)]
pub enum ChannelKind {
    /// A buffered queue of this capacity.
    Buffered(usize),
    /// An unbuffered queue.
    Unbuffered,
}

/// Kind of channel that `sync.channel(cap)` makes: buffered when a
/// capacity above zero is given, unbuffered otherwise.
pub fn channel_kind(cap: Option<usize>) -> (k: ChannelKind)
    ensures
        k == (match cap {
            Some(c) => if c > 0 {
                ChannelKind::Buffered(c)
            } else {
                ChannelKind::Unbuffered
            },
            None => ChannelKind::Unbuffered,
        }),
{
    match cap {
        Some(c) => if c > 0 {
            ChannelKind::Buffered(c)
        } else {
            ChannelKind::Unbuffered
        },
        None => ChannelKind::Unbuffered,
    }
}

/// State of an unbuffered queue after polls of pushes, each by a task in a
/// push state, in order.
pub open spec fn after_pushes<T>(q: UnbufferedState<T>, polls: Seq<(u64, PushState<T>)>) -> UnbufferedState<T>
    decreases polls.len(),
{
    if polls.len() == 0 {
        q
    } else {
        after_pushes(unbuffered_push(q, polls[0].0, polls[0].1).0, polls.drop_first())
    }
}

/// Polls of pushes leave a value waiting in the slot of an open queue where
/// it is.
proof fn lemma_pushes_keep_slot<T>(q: UnbufferedState<T>, polls: Seq<(u64, PushState<T>)>)
    requires
        q.0 is Some,
        !q.2,
    ensures
        after_pushes(q, polls).0 == q.0,
        !after_pushes(q, polls).2,
    decreases polls.len(),
{
    if polls.len() > 0 {
        lemma_pushes_keep_slot(unbuffered_push(q, polls[0].0, polls[0].1).0, polls.drop_first());
    }
}

/// Hand-off through an unbuffered queue: a value pushed into the free slot
/// of an open queue stays there, with its pushing task, through any polls
/// of pushes of any tasks; the next pop takes exactly that value and wakes
/// that task, whose push then completes.
pub proof fn law_unbuffered_hand_off<T>(
    q: UnbufferedState<T>,
    t: u64,
    v: T,
    polls: Seq<(u64, PushState<T>)>,
    u: u64,
)
    requires
        q.0 is None,
        !q.2,
    ensures
        ({
            let (q1, r1) = unbuffered_push(q, t, PushState::Holding(v));
            let q2 = after_pushes(q1, polls);
            let (q3, r3) = unbuffered_pop(q2, u);
            &&& r1.done is None
            &&& r1.state == PushState::<T>::Placed
            &&& q2.0 == Some((v, t))
            &&& r3 == PopPoll::<T>::Done(Ok(v), Some(t))
            &&& q3.0 is None
            &&& unbuffered_push(q3, t, PushState::<T>::Placed).1.done == Some(Ok::<(), QueueError>(()))
        }),
{
    let (q1, r1) = unbuffered_push(q, t, PushState::Holding(v));
    lemma_pushes_keep_slot(q1, polls);
}

/// Closing an unbuffered queue while a value waits in its slot drops the
/// value and wakes its pushing task last; that task's next poll, and every
/// later pop, fails because the queue is closed.
pub proof fn law_unbuffered_close_drops_value<T>(q: UnbufferedState<T>, t: u64, v: T, u: u64)
    requires
        q.0 == Some((v, t)),
    ensures
        ({
            let (q1, (was_closed, woken)) = unbuffered_close(q);
            &&& was_closed == q.2
            &&& woken == q.1.push(t)
            &&& q1.0 is None
            &&& unbuffered_push(q1, t, PushState::<T>::Placed).1.done == Some(
                Err::<(), QueueError>(QueueError::Closed),
            )
            &&& unbuffered_pop(q1, u).1 == PopPoll::<T>::Done(Err(QueueError::Closed), None)
        }),
{
}

} // verus!
