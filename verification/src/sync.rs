//! Synchronization primitives of the `sync` module: the wait group's
//! counter and waiting tasks, and the error of closed queues.
use vstd::prelude::*;

verus! {

/// LuaWaitGroup counts pending tasks and keeps the tasks that wait for the
/// count to reach zero, in the order they started waiting. Waiting tasks are
/// named by identifiers that the runtime maps to its wakers.
#[derive(Debug)]
pub struct LuaWaitGroup {
    counter: usize,
    waiters: Vec<u64>,
}

impl LuaWaitGroup {
    /// Number of pending tasks.
    pub closed spec fn counter_of(&self) -> nat {
        self.counter as nat
    }

    /// Tasks waiting for the count to reach zero, oldest first.
    pub closed spec fn waiters_of(&self) -> Seq<u64> {
        self.waiters@
    }

    /// Tasks only wait while some task is pending.
    pub closed spec fn wf(&self) -> bool {
        self.counter == 0 ==> self.waiters@.len() == 0
    }

    /// Creates a wait group without pending tasks.
    pub fn new() -> (r: LuaWaitGroup)
        ensures
            r.wf(),
            r.counter_of() == 0,
            r.waiters_of() == Seq::<u64>::empty(),
    {
        LuaWaitGroup { counter: 0, waiters: Vec::new() }
    }

    /// Number of pending tasks.
    pub fn count(&self) -> (r: usize)
        ensures
            r == self.counter_of(),
    {
        self.counter
    }

    /// Adds `n` pending tasks; the count must fit in `usize`.
    pub fn add(&mut self, n: usize)
        requires
            old(self).wf(),
            old(self).counter_of() + n <= usize::MAX,
        ensures
            final(self).wf(),
            final(self).counter_of() == old(self).counter_of() + n,
            final(self).waiters_of() == old(self).waiters_of(),
    {
        self.counter = self.counter + n;
    }

    /// Marks one pending task done; there must be one. When none is left,
    /// every waiting task is returned, oldest first, to be woken.
    pub fn done(&mut self) -> (woken: Vec<u64>)
        requires
            old(self).wf(),
            old(self).counter_of() > 0,
        ensures
            final(self).wf(),
            final(self).counter_of() == old(self).counter_of() - 1,
            final(self).counter_of() == 0 ==> woken@ == old(self).waiters_of()
                && final(self).waiters_of() == Seq::<u64>::empty(),
            final(self).counter_of() != 0 ==> woken@ == Seq::<u64>::empty()
                && final(self).waiters_of() == old(self).waiters_of(),
    {
        self.counter = self.counter - 1;
        if self.counter == 0 {
            let mut woken: Vec<u64> = Vec::new();
            std::mem::swap(&mut woken, &mut self.waiters);
            woken
        } else {
            Vec::new()
        }
    }

    /// Polls the wait of task `task`: ready when no task is pending,
    /// otherwise the task is added to the waiting tasks.
    pub fn poll_wait(&mut self, task: u64) -> (ready: bool)
        requires
            old(self).wf(),
        ensures
            final(self).wf(),
            ready == (old(self).counter_of() == 0),
            final(self).counter_of() == old(self).counter_of(),
            ready ==> final(self).waiters_of() == old(self).waiters_of(),
            !ready ==> final(self).waiters_of() == old(self).waiters_of().push(task),
    {
        if self.counter == 0 {
            return true;
        }
        self.waiters.push(task);
        false
    }
}

/// QueueError enumerates errors of queue operations.
#[derive(Debug, PartialEq, Eq, Structural, Clone, Copy)]
pub enum QueueError {
    Closed,
}

impl QueueError {
    /// Message of the error.
    pub fn message(&self) -> (r: &'static str)
        ensures
            r@ == "queue is closed"@,
    {
        match self {
            QueueError::Closed => "queue is closed",
        }
    }
}

} // verus!
