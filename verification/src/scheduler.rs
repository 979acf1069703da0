//! The pluggable scheduler interface and the default round-robin FIFO
//! scheduler.
//!
//! A scheduler decides what happens to a coroutine handed to it: resume it
//! at once, retain it for later, migrate it to another thread, or kill it.
//! The decision is returned as a [`SchedAction`] and carried out by the
//! thread's handler; each implementation pins its behaviour through the
//! spec functions of the trait.

use vstd::prelude::*;

use std::collections::VecDeque;

use crate::CoroutineControl;

verus! {

/// What a scheduler decided to do with a coroutine that was offered to it.
pub enum SchedAction {
    /// Resume it now on this thread.
    Resumed(CoroutineControl),
    /// Move it to the thread with the given index.
    Migrated(CoroutineControl, usize),
    /// The scheduler kept the handle to act on it later.
    Retained,
    /// Drop the coroutine: it is killed.
    Killed(CoroutineControl),
}

/// Per-thread half of a scheduler.  One instance runs on each worker
/// thread; the handler consults it whenever a coroutine is spawned or
/// becomes runnable, and once per notifier batch.
pub trait SchedulerThread: Sized {
    /// Invariant the instance maintains across calls.
    spec fn inv(self) -> bool;

    /// What `spawned` does, pinned by each implementation.
    spec fn spawned_spec(pre: Self, ctrl: CoroutineControl, post: Self, action: SchedAction) -> bool;

    /// What `ready` does, pinned by each implementation.
    spec fn ready_spec(pre: Self, ctrl: CoroutineControl, post: Self, action: SchedAction) -> bool;

    /// What `tick` does, pinned by each implementation.
    spec fn tick_spec(pre: Self, post: Self, run: Seq<CoroutineControl>) -> bool;

    /// A newly created coroutine is offered.
    fn spawned(&mut self, ctrl: CoroutineControl) -> (action: SchedAction)
        requires
            old(self).inv(),
        ensures
            final(self).inv(),
            Self::spawned_spec(*old(self), ctrl, *final(self), action),
    ;

    /// An existing coroutine became runnable.
    fn ready(&mut self, ctrl: CoroutineControl) -> (action: SchedAction)
        requires
            old(self).inv(),
        ensures
            final(self).inv(),
            Self::ready_spec(*old(self), ctrl, *final(self), action),
    ;

    /// A notifier batch completed; the returned coroutines are resumed now,
    /// in order.
    fn tick(&mut self) -> (run: Vec<CoroutineControl>)
        requires
            old(self).inv(),
        ensures
            final(self).inv(),
            Self::tick_spec(*old(self), *final(self), run@),
    ;
}

/// Process-wide half of a scheduler: spawns the per-thread instances.
pub trait Scheduler: Sized {
    /// The per-thread scheduler this spawns.
    type Thread: SchedulerThread;

    /// Spawn the scheduler of one worker thread.  `thread_num` is the
    /// number of worker threads of the instance.
    fn spawn_thread(&mut self, thread_num: usize) -> (r: Self::Thread)
        requires
            thread_num >= 1,
        ensures
            r.inv(),
    ;
}

/// The default scheduler: newly spawned coroutines are spread round-robin
/// across threads; runnable coroutines resume at once in FIFO order, except
/// that yielders are deferred to the end of the current notifier batch.
pub struct FifoScheduler {
    /// How many per-thread instances have been spawned.
    pub threads_spawned: usize,
}

impl FifoScheduler {
    /// A new default scheduler.
    pub fn new() -> (r: Self)
        ensures
            r.threads_spawned == 0,
    {
        FifoScheduler { threads_spawned: 0 }
    }
}

impl Scheduler for FifoScheduler {
    type Thread = FifoSchedulerThread;

    /// Count the spawned instance and hand out a per-thread scheduler at
    /// round-robin position zero with an empty deferred queue.
    fn spawn_thread(&mut self, thread_num: usize) -> (r: Self::Thread)
        ensures
            final(self).threads_spawned == if old(self).threads_spawned < usize::MAX {
                old(self).threads_spawned + 1
            } else {
                old(self).threads_spawned as int
            },
            r.thread_i == 0,
            r.thread_num == thread_num,
            r.delayed@.len() == 0,
    {
        if self.threads_spawned < usize::MAX {
            self.threads_spawned = self.threads_spawned + 1;
        }
        FifoSchedulerThread { thread_i: 0, thread_num, delayed: VecDeque::new() }
    }
}

/// Per-thread state of the default FIFO scheduler.
pub struct FifoSchedulerThread {
    /// Round-robin position: the thread the last spawn was sent to.
    pub thread_i: usize,
    /// Number of worker threads of the instance.
    pub thread_num: usize,
    /// Yielded coroutines deferred to the end of the current batch.
    pub delayed: VecDeque<CoroutineControl>,
}

impl FifoSchedulerThread {
    /// Advance the round-robin position and return it.
    pub fn thread_next_i(&mut self) -> (r: usize)
        requires
            old(self).thread_num >= 1,
            old(self).thread_i < old(self).thread_num,
        ensures
            r == if old(self).thread_i + 1 >= old(self).thread_num {
                0int
            } else {
                old(self).thread_i + 1
            },
            *final(self) == (FifoSchedulerThread { thread_i: r, ..*old(self) }),
            final(self).thread_i < final(self).thread_num,
    {
        self.thread_i = self.thread_i + 1;
        if self.thread_i >= self.thread_num {
            self.thread_i = 0;
        }
        self.thread_i
    }

    /// Number of worker threads this scheduler spreads spawns over.
    pub fn thread_num(&self) -> (r: usize)
        ensures
            r == self.thread_num,
    {
        self.thread_num
    }
}

impl SchedulerThread for FifoSchedulerThread {
    open spec fn inv(self) -> bool {
        &&& self.thread_num >= 1
        &&& self.thread_i < self.thread_num
    }

    /// A new coroutine migrates to the next thread round-robin.
    open spec fn spawned_spec(
        pre: Self,
        ctrl: CoroutineControl,
        post: Self,
        action: SchedAction,
    ) -> bool {
        &&& post.thread_i == (if pre.thread_i + 1 >= pre.thread_num {
            0int
        } else {
            pre.thread_i + 1
        })
        &&& post.thread_num == pre.thread_num
        &&& post.delayed == pre.delayed
        &&& action == SchedAction::Migrated(ctrl, post.thread_i)
        &&& post.thread_i < pre.thread_num
    }

    /// A yielder is deferred to the end of the batch; anything else resumes
    /// at once.
    open spec fn ready_spec(
        pre: Self,
        ctrl: CoroutineControl,
        post: Self,
        action: SchedAction,
    ) -> bool {
        if ctrl.is_yielding {
            &&& post.delayed@ == pre.delayed@.push(ctrl)
            &&& post.thread_i == pre.thread_i
            &&& post.thread_num == pre.thread_num
            &&& action is Retained
        } else {
            &&& post == pre
            &&& action == SchedAction::Resumed(ctrl)
        }
    }

    /// The deferred yielders resume in the order they yielded; none stays
    /// behind.
    open spec fn tick_spec(pre: Self, post: Self, run: Seq<CoroutineControl>) -> bool {
        &&& run == pre.delayed@
        &&& post.delayed@.len() == 0
        &&& post.thread_i == pre.thread_i
        &&& post.thread_num == pre.thread_num
    }

    fn spawned(&mut self, ctrl: CoroutineControl) -> (action: SchedAction) {
        let thread_i = self.thread_next_i();
        SchedAction::Migrated(ctrl, thread_i)
    }

    fn ready(&mut self, ctrl: CoroutineControl) -> (action: SchedAction) {
        if ctrl.is_yielding() {
            self.delayed.push_back(ctrl);
            SchedAction::Retained
        } else {
            SchedAction::Resumed(ctrl)
        }
    }

    fn tick(&mut self) -> (run: Vec<CoroutineControl>) {
        let mut run: Vec<CoroutineControl> = Vec::new();
        let len = self.delayed.len();
        let mut k: usize = 0;
        while k < len
            invariant
                k <= len,
                len == old(self).delayed@.len(),
                run@ + self.delayed@ =~= old(self).delayed@,
                run@.len() == k,
                self.thread_i == old(self).thread_i,
                self.thread_num == old(self).thread_num,
            decreases len - k,
        {
            let ctrl = match self.delayed.pop_front() {
                Some(c) => c,
                None => {
                    proof {
                        assert(false);
                    }
                    CoroutineControl { co_id: crate::coroutine::CoroutineId(0), is_yielding: false }
                },
            };
            run.push(ctrl);
            k = k + 1;
        }
        proof {
            assert(run@ =~= old(self).delayed@);
        }
        run
    }
}

/// Yield fairness of the default scheduler: while a yielder sits in the
/// deferred queue, every non-yielding coroutine offered to the scheduler is
/// resumed at once, ahead of it; the yielder itself runs no earlier than
/// the end of the batch, behind every coroutine that yielded before it.
pub proof fn lemma_fifo_yield_fairness(
    s0: FifoSchedulerThread,
    yielder: CoroutineControl,
    s1: FifoSchedulerThread,
    a1: SchedAction,
    other: CoroutineControl,
    s2: FifoSchedulerThread,
    a2: SchedAction,
    s3: FifoSchedulerThread,
    run: Seq<CoroutineControl>,
)
    requires
        yielder.is_yielding,
        !other.is_yielding,
        // the yielder is offered, then another ready coroutine, then the
        // batch ends
        FifoSchedulerThread::ready_spec(s0, yielder, s1, a1),
        FifoSchedulerThread::ready_spec(s1, other, s2, a2),
        FifoSchedulerThread::tick_spec(s2, s3, run),
    ensures
        // the yielder is not resumed when offered, the other one is
        a1 is Retained,
        a2 == SchedAction::Resumed(other),
        // the yielder leaves the scheduler only at the tick, after every
        // earlier yielder
        run == s0.delayed@.push(yielder),
        run[run.len() - 1] == yielder,
{
    assert(run =~= s0.delayed@.push(yielder));
}

} // verus!
