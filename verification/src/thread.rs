//! Per-thread runtime state: the modeled readiness notifier, the shared
//! handler state, the inter-thread message protocol, and the event-loop
//! handler that demultiplexes events to coroutines.

use vstd::prelude::*;

use std::collections::VecDeque;

use crate::coroutine::{
    lemma_count_live_pos, CoroCtx, Coroutine, CoroutineBody, CoroutineId, CoroutineSlab,
    EntryOutcome, EventSource, ExitStatus, SourceKind, State,
};
use crate::mail::MailboxPool;
use crate::scheduler::{SchedAction, SchedulerThread};
use crate::{
    token_from_ids, CoroutineControl, RW, COROUTINE_ID_MAX, EVENT_SOURCE_TOKEN_SPAN,
};

verus! {

/// Why a run of the instance stopped short.
#[derive(Copy, Clone, Debug, Eq, PartialEq, Structural)]
pub enum RunError {
    /// A scheduler resumed a coroutine that was not `Ready`, or named a
    /// thread that does not exist.
    SchedulerMisuse,
    /// A cross-thread message queue stayed full.
    QueueFull,
    /// A coroutine id outgrew the token bit budget, or the live counter its
    /// machine word.
    TooManyCoroutines,
    /// A panic of an uncontained coroutine reached thread 0 and was
    /// re-raised.
    PropagatedPanic,
    /// The step budget of the deterministic run was exhausted.
    StepLimit,
}

/// How a resumption of a coroutine ended.
#[derive(Copy, Clone, Debug, Eq, PartialEq, Structural)]
pub enum ResumeKind {
    /// The entry returned (or panicked): the coroutine is gone.
    Finished,
    /// The coroutine suspended, blocked on event sources.
    Blocked,
    /// The coroutine yielded and was re-queued ready for the scheduler.
    Yielded,
}

/// Inter-thread wire message.
pub enum Message<B> {
    /// A mailbox of the coroutine with this token received something.
    MailboxMsg(usize),
    /// A coroutine migrates to this thread.
    Migration(Coroutine<B>),
    /// A coroutine with panic containment off panicked; thread 0 re-raises.
    PropagatePanic,
}

/// Number of coroutines travelling in a message sequence.
pub open spec fn count_migrations<B>(q: Seq<Message<B>>) -> nat
    decreases q.len(),
{
    if q.len() == 0 {
        0
    } else {
        count_migrations(q.drop_last()) + (if q.last() is Migration {
            1nat
        } else {
            0nat
        })
    }
}

/// Number of coroutines travelling in an outbox of routed messages.
pub open spec fn count_outbox_migrations<B>(q: Seq<(usize, Message<B>)>) -> nat
    decreases q.len(),
{
    if q.len() == 0 {
        0
    } else {
        count_outbox_migrations(q.drop_last()) + (if q.last().1 is Migration {
            1nat
        } else {
            0nat
        })
    }
}

/// Appending a message adds its migration count.
pub proof fn lemma_count_migrations_push<B>(q: Seq<Message<B>>, m: Message<B>)
    ensures
        count_migrations(q.push(m)) == count_migrations(q) + (if m is Migration {
            1nat
        } else {
            0nat
        }),
{
    assert(q.push(m).drop_last() =~= q);
}

/// Appending a routed message adds its migration count.
pub proof fn lemma_count_outbox_migrations_push<B>(q: Seq<(usize, Message<B>)>, m: (usize, Message<B>))
    ensures
        count_outbox_migrations(q.push(m)) == count_outbox_migrations(q) + (if m.1 is Migration {
            1nat
        } else {
            0nat
        }),
{
    assert(q.push(m).drop_last() =~= q);
}

/// Taking the front message removes its migration count.
pub proof fn lemma_count_migrations_pop<B>(q: Seq<Message<B>>)
    requires
        q.len() > 0,
    ensures
        count_migrations(q) == count_migrations(q.drop_first()) + (if q.first() is Migration {
            1nat
        } else {
            0nat
        }),
    decreases q.len(),
{
    if q.len() == 1 {
        assert(q.drop_first() =~= Seq::<Message<B>>::empty());
        assert(q.first() == q.last());
        assert(count_migrations(q.drop_first()) == 0);
        assert(count_migrations(q.drop_last()) == 0);
        assert(count_migrations(q) == count_migrations(q.drop_last()) + (if q.last() is Migration {
            1nat
        } else {
            0nat
        }));
    } else {
        lemma_count_migrations_pop(q.drop_last());
        assert(q.drop_last().drop_first() =~= q.drop_first().drop_last());
        assert(q.drop_last().first() == q.first());
        assert(q.drop_first().last() == q.last());
        assert(q.drop_first().len() > 0);
        assert(count_migrations(q.drop_first()) == count_migrations(q.drop_first().drop_last()) + (
        if q.drop_first().last() is Migration {
            1nat
        } else {
            0nat
        }));
    }
}

/// Configuration handed to each thread's notifier.
#[derive(Copy, Clone, Debug, Eq, PartialEq, Structural)]
pub struct EventLoopConfig {
    /// Capacity of the inbound cross-thread message queue.
    pub notify_capacity: usize,
    /// Granularity of the notifier's timer wheel, in milliseconds.
    pub timer_tick_ms: u64,
}

impl EventLoopConfig {
    /// The default notifier configuration.
    pub fn new() -> (r: Self)
        ensures
            r.notify_capacity == 4096,
            r.timer_tick_ms == 100,
    {
        EventLoopConfig { notify_capacity: 4096, timer_tick_ms: 100 }
    }
}

/// Deterministic model of one thread's readiness notifier: a bounded
/// inbound message queue, a set of scheduled one-shot timers, and a
/// shutdown flag.  A native implementation is an OS-backed service; its
/// contract — register, a blocking `run_once`, timer scheduling,
/// cross-thread notification, shutdown — is what this model keeps.
pub struct EventLoop<B> {
    /// Still running; `shutdown` clears it and `run_once` then returns.
    pub running: bool,
    /// Inbound cross-thread messages, in arrival order.
    pub queue: VecDeque<Message<B>>,
    /// Capacity of `queue`; a send to a full queue fails.
    pub notify_capacity: usize,
    /// Scheduled one-shot timers: token and absolute deadline.
    pub timeouts: Vec<(usize, u64)>,
    /// Granularity of the timer wheel, in milliseconds.
    pub timer_tick_ms: u64,
}

impl<B> EventLoop<B> {
    /// A fresh notifier.
    pub fn configured(config: EventLoopConfig) -> (r: Self)
        ensures
            r.running,
            r.queue@.len() == 0,
            r.notify_capacity == config.notify_capacity,
            r.timeouts@.len() == 0,
            r.timer_tick_ms == config.timer_tick_ms,
    {
        EventLoop {
            running: true,
            queue: VecDeque::new(),
            notify_capacity: config.notify_capacity,
            timeouts: Vec::new(),
            timer_tick_ms: config.timer_tick_ms,
        }
    }

    /// Whether the loop still runs.
    pub fn is_running(&self) -> (r: bool)
        ensures
            r == self.running,
    {
        self.running
    }

    /// Stop the loop; `run_once` will not be entered again.
    pub fn shutdown(&mut self)
        ensures
            *final(self) == (EventLoop { running: false, ..*old(self) }),
    {
        self.running = false;
    }

    /// Schedule a one-shot timer for `token` at absolute time `at_ms`.
    pub fn timeout_ms(&mut self, token: usize, at_ms: u64)
        ensures
            *final(self) == (EventLoop { timeouts: final(self).timeouts, ..*old(self) }),
            final(self).timeouts@ == old(self).timeouts@.push((token, at_ms)),
    {
        self.timeouts.push((token, at_ms));
    }
}

/// Deliver `msg` to the notifier's inbound queue, as a sender in another
/// thread would.  A native channel can report a transient full queue, which
/// the sender retries with a backoff for a long while; in this sequential
/// model no receiver drains the queue concurrently, so a full queue is
/// final and reported at once.
pub fn sender_retry<B>(target: &mut EventLoop<B>, msg: Message<B>) -> (r: Result<(), RunError>)
    ensures
        old(target).queue@.len() < old(target).notify_capacity <==> r is Ok,
        r is Ok ==> final(target).queue@ == old(target).queue@.push(msg)
            && *final(target) == (EventLoop { queue: final(target).queue, ..*old(target) }),
        r is Err ==> *final(target) == *old(target) && r == Err::<(), RunError>(
            RunError::QueueFull,
        ),
{
    if target.queue.len() < target.notify_capacity {
        target.queue.push_back(msg);
        Ok(())
    } else {
        Err(RunError::QueueFull)
    }
}

/// State shared between all threads of an instance: the startup consensus
/// flag, the global live-coroutine count, and the thread count.  In a
/// native implementation these are atomics; in this sequential model they
/// are plain counters with the same transitions.
pub struct HandlerThreadShared {
    /// Startup consensus: 0 until the first coroutine is spawned, then 1.
    pub mioco_started: usize,
    /// Number of live coroutines across all threads.
    pub coroutines_num: usize,
    /// Number of worker threads; read-only after creation.
    pub thread_num: usize,
}

impl HandlerThreadShared {
    /// Fresh shared state for `thread_num` threads.
    pub fn new(thread_num: usize) -> (r: Self)
        ensures
            r.mioco_started == 0,
            r.coroutines_num == 0,
            r.thread_num == thread_num,
    {
        HandlerThreadShared { mioco_started: 0, coroutines_num: 0, thread_num }
    }
}

/// Data belonging to one thread's handler, referenced and manipulated by
/// the coroutines belonging to it.
pub struct HandlerShared<B> {
    /// The thread's coroutine table.
    pub coroutines: CoroutineSlab<B>,
    /// Default stack size for new coroutines.
    pub stack_size: usize,
    /// Newly spawned coroutines awaiting delivery to the scheduler.
    pub spawned: Vec<CoroutineControl>,
    /// Coroutines made ready, awaiting delivery to the scheduler.
    pub ready: Vec<CoroutineControl>,
    /// This thread's index.
    pub thread_id: usize,
}

impl<B> HandlerShared<B> {
    /// The table is consistent with this thread.
    pub open spec fn wf(self) -> bool {
        self.coroutines.wf(self.thread_id)
    }

    /// Fresh per-thread state.
    pub fn new(stack_size: usize, thread_id: usize) -> (r: Self)
        ensures
            r.wf(),
            r.coroutines.slots@.len() == 0,
            r.coroutines.live() == 0,
            r.spawned@.len() == 0,
            r.ready@.len() == 0,
            r.stack_size == stack_size,
            r.thread_id == thread_id,
    {
        HandlerShared {
            coroutines: CoroutineSlab::new(),
            stack_size,
            spawned: Vec::new(),
            ready: Vec::new(),
            thread_id,
        }
    }

    /// Queue a newly spawned coroutine for the scheduler.
    pub fn add_spawned(&mut self, coroutine_ctrl: CoroutineControl)
        ensures
            *final(self) == (HandlerShared { spawned: final(self).spawned, ..*old(self) }),
            final(self).spawned@ == old(self).spawned@.push(coroutine_ctrl),
    {
        self.spawned.push(coroutine_ctrl);
    }

    /// Queue a coroutine that became ready for the scheduler.
    pub fn add_ready(&mut self, coroutine_ctrl: CoroutineControl)
        ensures
            *final(self) == (HandlerShared { ready: final(self).ready, ..*old(self) }),
            final(self).ready@ == old(self).ready@.push(coroutine_ctrl),
    {
        self.ready.push(coroutine_ctrl);
    }

    /// Release the startup barrier: all threads may enter their notifier
    /// loops.
    pub fn signal_start_all(&self, global: &mut HandlerThreadShared)
        ensures
            *final(global) == (HandlerThreadShared { mioco_started: 1, ..*old(global) }),
    {
        global.mioco_started = 1;
    }

    /// Whether the startup barrier is released.  A native thread spins on
    /// the flag; in this sequential model the check is immediate.
    pub fn wait_for_start_all(&self, global: &HandlerThreadShared) -> (r: bool)
        ensures
            r == (global.mioco_started == 1),
    {
        global.mioco_started == 1
    }

    /// The global live count.
    pub fn coroutines_num(&self, global: &HandlerThreadShared) -> (r: usize)
        ensures
            r == global.coroutines_num,
    {
        global.coroutines_num
    }

    /// Count one coroutine birth.
    pub fn coroutines_inc(&self, global: &mut HandlerThreadShared)
        requires
            old(global).coroutines_num < usize::MAX,
        ensures
            *final(global) == (HandlerThreadShared {
                coroutines_num: (old(global).coroutines_num + 1) as usize,
                ..*old(global)
            }),
    {
        global.coroutines_num = global.coroutines_num + 1;
    }

    /// Count one coroutine death.
    pub fn coroutines_dec(&self, global: &mut HandlerThreadShared)
        requires
            old(global).coroutines_num > 0,
        ensures
            *final(global) == (HandlerThreadShared {
                coroutines_num: (old(global).coroutines_num - 1) as usize,
                ..*old(global)
            }),
    {
        global.coroutines_num = global.coroutines_num - 1;
    }

    /// Number of worker threads.
    pub fn thread_num(&self, global: &HandlerThreadShared) -> (r: usize)
        ensures
            r == global.thread_num,
    {
        global.thread_num
    }

    /// Home a coroutine on this thread: give it a slot in the table and its
    /// slot index as id.  Fails when the table outgrew the token bit
    /// budget.  The birth count is the spawner's business: migration also
    /// attaches, and must not count.
    pub fn attach(&mut self, co: Coroutine<B>) -> (r: Result<
        CoroutineId,
        RunError,
    >)
        requires
            old(self).wf(),
            co.wf(),
            co.body is Some,
            co.children@.len() == 0,
            !(co.state is Running),
            !(co.state is Finished),
        ensures
            final(self).thread_id == old(self).thread_id,
            final(self).stack_size == old(self).stack_size,
            final(self).spawned == old(self).spawned,
            final(self).ready == old(self).ready,
            final(self).wf(),
            match r {
                Ok(id) => {
                    &&& final(self).coroutines.live() == old(self).coroutines.live() + 1
                    &&& id.0 < final(self).coroutines.slots@.len()
                    &&& final(self).coroutines.slots@[id.0 as int] == Some(
                        Coroutine { id, thread_id: old(self).thread_id, ..co },
                    )
                    &&& final(self).coroutines.slots@.len() >= old(self).coroutines.slots@.len()
                    &&& forall|j: int|
                        0 <= j < old(self).coroutines.slots@.len() && j != id.0
                            ==> final(self).coroutines.slots@[j] == old(self).coroutines.slots@[j]
                    &&& (id.0 >= old(self).coroutines.slots@.len()
                        ==> final(self).coroutines.slots@.len() == old(self).coroutines.slots@.len() + 1)
                    &&& (id.0 < old(self).coroutines.slots@.len()
                        ==> final(self).coroutines.slots@.len() == old(self).coroutines.slots@.len() && old(self).coroutines.slots@[id.0 as int] is None)
                },
                Err(e) => {
                    &&& *final(self) == *old(self)
                    &&& e == RunError::TooManyCoroutines
                    &&& old(self).coroutines.slots@.len() >= COROUTINE_ID_MAX
                },
            },
    {
        let mut co = co;
        co.thread_id = self.thread_id;
        match self.coroutines.insert(co) {
            Ok(id) => Ok(id),
            Err(_) => Err(RunError::TooManyCoroutines),
        }
    }
}


/// A migrating coroutine travels in a fit state: well formed, suspended,
/// carrying its entry, children drained, and with notificators the pool
/// knows.
pub open spec fn message_wf<B>(m: Message<B>, pool: MailboxPool) -> bool {
    m matches Message::Migration(c) ==> {
        &&& c.wf()
        &&& c.body is Some
        &&& c.children@.len() == 0
        &&& !(c.state is Running)
        &&& !(c.state is Finished)
        &&& c.notifs_valid(pool)
    }
}

/// Every message of a queue is fit.
pub open spec fn msgs_wf<B>(q: Seq<Message<B>>, pool: MailboxPool) -> bool {
    forall|i: int| 0 <= i < q.len() ==> message_wf(#[trigger] q[i], pool)
}

/// Every routed message of an outbox is fit.
pub open spec fn outbox_wf<B>(q: Seq<(usize, Message<B>)>, pool: MailboxPool) -> bool {
    forall|i: int| 0 <= i < q.len() ==> message_wf((#[trigger] q[i]).1, pool)
}

/// The one-shot timer registrations that registering the staged waits
/// `blocked[..upto]` of a coroutine with sources `sources` and id `co_id`
/// makes, in order: one per staged timer wait, with its token, at its
/// deadline clamped to no earlier than `now_ms`.
pub open spec fn timer_regs(
    blocked: Seq<(crate::EventSourceId, RW)>,
    sources: Seq<Option<EventSource>>,
    co_id: CoroutineId,
    upto: int,
    now_ms: u64,
) -> Seq<(usize, u64)>
    decreases upto,
{
    if upto <= 0 {
        Seq::empty()
    } else {
        let prev = timer_regs(blocked, sources, co_id, upto - 1, now_ms);
        let sid = blocked[upto - 1].0;
        if 0 <= sid.0 < sources.len() && sources[sid.0 as int] is Some {
            match sources[sid.0 as int]->Some_0.kind {
                SourceKind::Timer { deadline_ms } => prev.push(
                    (
                        (co_id.0 * EVENT_SOURCE_TOKEN_SPAN + sid.0) as usize,
                        if deadline_ms <= now_ms {
                            now_ms
                        } else {
                            deadline_ms
                        },
                    ),
                ),
                SourceKind::Mailbox { .. } => prev,
            }
        } else {
            prev
        }
    }
}

/// A staged wait at position `k` is on a mailbox source.
pub open spec fn staged_mailbox<B>(co: Coroutine<B>, k: int) -> bool {
    &&& 0 <= k < co.blocked_on@.len()
    &&& co.blocked_on@[k].0.0 < co.event_sources@.len()
    &&& co.event_sources@[co.blocked_on@[k].0.0 as int] is Some
    &&& co.event_sources@[co.blocked_on@[k].0.0 as int]->Some_0.kind is Mailbox
}

/// Walk the coroutine's staged waits and register each with the notifier:
/// a timer source gets a one-shot timeout at its deadline (or now, for one
/// already due); a mailbox source that is already readable gets an
/// immediate wakeup message posted to this thread's own queue.
fn register_all<B>(
    co: &Coroutine<B>,
    event_loop: &mut EventLoop<B>,
    pool: &mut MailboxPool,
    now_ms: u64,
) -> (r: Result<(), RunError>)
    requires
        co.wf(),
        co.id.0 <= COROUTINE_ID_MAX,
        co.notifs_valid(*old(pool)),
    ensures
        final(pool).boxes@.len() == old(pool).boxes@.len(),
        forall|i: int| 0 <= i < old(pool).boxes@.len()
            ==> (#[trigger] final(pool).boxes@[i]).queue == old(pool).boxes@[i].queue,
        final(event_loop).running == old(event_loop).running,
        final(event_loop).notify_capacity == old(event_loop).notify_capacity,
        final(event_loop).timer_tick_ms == old(event_loop).timer_tick_ms,
        count_migrations(final(event_loop).queue@) == count_migrations(old(event_loop).queue@),
        msgs_wf(old(event_loop).queue@, *old(pool)) ==> msgs_wf(final(event_loop).queue@, *final(pool)),
        final(event_loop).queue@.len() >= old(event_loop).queue@.len(),
        final(event_loop).timeouts@.len() >= old(event_loop).timeouts@.len(),
        forall|t: int| 0 <= t < old(event_loop).timeouts@.len()
            ==> final(event_loop).timeouts@[t] == old(event_loop).timeouts@[t],
        // every timer registration that was appended carries this
        // coroutine's id in its token and fires no earlier than now
        forall|t: int| old(event_loop).timeouts@.len() <= t < final(event_loop).timeouts@.len()
            ==> (#[trigger] final(event_loop).timeouts@[t]).0 as int / (EVENT_SOURCE_TOKEN_SPAN as int)
                == co.id.0 && final(event_loop).timeouts@[t].1 >= now_ms,
        // exactly one registration per staged timer wait, at its clamped
        // deadline, in staging order
        r is Ok ==> final(event_loop).timeouts@ == old(event_loop).timeouts@ + timer_regs(
            co.blocked_on@,
            co.event_sources@,
            co.id,
            co.blocked_on@.len() as int,
            now_ms,
        ),
        // every staged mailbox has this coroutine registered as its waiter
        r is Ok ==> forall|k: int|
            staged_mailbox(*co, k) ==> ((#[trigger] final(pool).boxes@[
            co.event_sources@[co.blocked_on@[k].0.0 as int]->Some_0.kind->mailbox_id as int].waiter)
                matches Some((wtid, wtok)) && wtid == co.thread_id && wtok as int / (
            EVENT_SOURCE_TOKEN_SPAN as int) == co.id.0),
        r matches Err(e) ==> e == RunError::QueueFull,
{
    let n = co.blocked_on.len();
    let mut k: usize = 0;
    while k < n
        invariant
            co.wf(),
            co.id.0 <= COROUTINE_ID_MAX,
            co.notifs_valid(*pool),
            pool.boxes@.len() == old(pool).boxes@.len(),
            forall|i: int| 0 <= i < old(pool).boxes@.len()
                ==> (#[trigger] pool.boxes@[i]).queue == old(pool).boxes@[i].queue,
            n == co.blocked_on@.len(),
            k <= n,
            event_loop.running == old(event_loop).running,
            event_loop.notify_capacity == old(event_loop).notify_capacity,
            event_loop.timer_tick_ms == old(event_loop).timer_tick_ms,
            count_migrations(event_loop.queue@) == count_migrations(old(event_loop).queue@),
            msgs_wf(old(event_loop).queue@, *old(pool)) ==> msgs_wf(event_loop.queue@, *pool),
            event_loop.queue@.len() >= old(event_loop).queue@.len(),
            event_loop.timeouts@.len() >= old(event_loop).timeouts@.len(),
            forall|t: int| 0 <= t < old(event_loop).timeouts@.len()
                ==> event_loop.timeouts@[t] == old(event_loop).timeouts@[t],
            forall|t: int| old(event_loop).timeouts@.len() <= t < event_loop.timeouts@.len()
                ==> (#[trigger] event_loop.timeouts@[t]).0 as int / (EVENT_SOURCE_TOKEN_SPAN as int)
                    == co.id.0 && event_loop.timeouts@[t].1 >= now_ms,
            event_loop.timeouts@ == old(event_loop).timeouts@ + timer_regs(
                co.blocked_on@,
                co.event_sources@,
                co.id,
                k as int,
                now_ms,
            ),
            forall|j: int|
                0 <= j < k && staged_mailbox(*co, j) ==> ((#[trigger] pool.boxes@[
                co.event_sources@[co.blocked_on@[j].0.0 as int]->Some_0.kind->mailbox_id as int].waiter)
                    matches Some((wtid, wtok)) && wtid == co.thread_id && wtok as int / (
                EVENT_SOURCE_TOKEN_SPAN as int) == co.id.0),
        decreases n - k,
    {
        let (sid, _dir) = co.blocked_on[k];
        let token = token_from_ids(co.id, sid);
        let ghost pre_timeouts = event_loop.timeouts@;
        match &co.event_sources[sid.0] {
            Some(src) => {
                match src.kind {
                    SourceKind::Timer { deadline_ms } => {
                        let at = if deadline_ms <= now_ms {
                            now_ms
                        } else {
                            deadline_ms
                        };
                        event_loop.timeout_ms(token, at);
                        proof {
                            let new_t = pre_timeouts.len() as int;
                            assert((co.id.0 * 1024 + sid.0) / 1024 == co.id.0 && co.id.0 * 1024
                                + sid.0 <= usize::MAX) by (nonlinear_arith)
                                requires
                                    sid.0 <= 1023,
                                    co.id.0 <= usize::MAX / 1024,
                            ;
                            assert(event_loop.timeouts@[new_t] == (token, at));
                            assert(token == (co.id.0 * EVENT_SOURCE_TOKEN_SPAN + sid.0) as usize);
                            assert(timer_regs(
                                co.blocked_on@,
                                co.event_sources@,
                                co.id,
                                k as int + 1,
                                now_ms,
                            ) == timer_regs(
                                co.blocked_on@,
                                co.event_sources@,
                                co.id,
                                k as int,
                                now_ms,
                            ).push((token, at)));
                            assert(event_loop.timeouts@ =~= old(event_loop).timeouts@
                                + timer_regs(
                                co.blocked_on@,
                                co.event_sources@,
                                co.id,
                                k as int + 1,
                                now_ms,
                            ));
                        }
                    },
                    SourceKind::Mailbox { mailbox_id } => {
                        proof {
                            assert((co.id.0 * 1024 + sid.0) / 1024 == co.id.0 && co.id.0 * 1024
                                + sid.0 <= usize::MAX) by (nonlinear_arith)
                                requires
                                    sid.0 <= 1023,
                                    co.id.0 <= usize::MAX / 1024,
                            ;
                            assert(timer_regs(
                                co.blocked_on@,
                                co.event_sources@,
                                co.id,
                                k as int + 1,
                                now_ms,
                            ) == timer_regs(
                                co.blocked_on@,
                                co.event_sources@,
                                co.id,
                                k as int,
                                now_ms,
                            ));
                        }
                        let ghost pre_pool_boxes = pool.boxes@;
                        pool.set_waiter(mailbox_id, co.thread_id, token);
                        proof {
                            assert forall|j: int|
                                0 <= j < k + 1 && staged_mailbox(*co, j) implies ((
                            #[trigger] pool.boxes@[co.event_sources@[co.blocked_on@[j].0.0 as int]->Some_0.kind->mailbox_id as int].waiter)
                                matches Some((wtid, wtok)) && wtid == co.thread_id && wtok as int
                                / (EVENT_SOURCE_TOKEN_SPAN as int) == co.id.0) by {
                                let mb_j = co.event_sources@[co.blocked_on@[j].0.0 as int]->Some_0.kind->mailbox_id as int;
                                if mb_j == mailbox_id {
                                } else {
                                    assert(pool.boxes@[mb_j] == pre_pool_boxes[mb_j]);
                                }
                            }
                        }
                        let due = pool.should_resume(mailbox_id) || src.latched;
                        if due {
                            let ghost pre_queue = event_loop.queue@;
                            match sender_retry(event_loop, Message::MailboxMsg(token)) {
                                Ok(()) => {
                                    proof {
                                        lemma_count_migrations_push(
                                            pre_queue,
                                            Message::<B>::MailboxMsg(token),
                                        );
                                    }
                                },
                                Err(e) => {
                                    return Err(e);
                                },
                            }
                        }
                    },
                }
            },
            None => {
                proof {
                    assert(false);
                }
            },
        }
        k = k + 1;
    }
    Ok(())
}

/// Drain the children a coroutine spawned during a resumption: home each
/// on this thread, count its birth, and queue it for the scheduler, in
/// spawn order.
fn start_children<B>(
    children: &mut Vec<Coroutine<B>>,
    shared: &mut HandlerShared<B>,
    global: &mut HandlerThreadShared,
    Ghost(pool): Ghost<MailboxPool>,
) -> (r: Result<(), RunError>)
    requires
        forall|i: int| 0 <= i < old(children)@.len() ==> (#[trigger] old(children)@[i]).is_fresh(),
        forall|i: int, j: int|
            0 <= i < old(children)@.len() && 0 <= j
                < old(children)@[i].exit_notificators@.len() ==> (#[trigger] old(children)@[i].exit_notificators@[j]) < pool.boxes@.len(),
        old(shared).wf(),
        old(shared).coroutines.notifs_valid(pool),
    ensures
        final(shared).wf(),
        final(shared).coroutines.notifs_valid(pool),
        final(shared).thread_id == old(shared).thread_id,
        final(shared).stack_size == old(shared).stack_size,
        final(shared).ready == old(shared).ready,
        final(shared).spawned@.len() >= old(shared).spawned@.len(),
        forall|i: int| 0 <= i < old(shared).spawned@.len()
            ==> final(shared).spawned@[i] == old(shared).spawned@[i],
        final(global).thread_num == old(global).thread_num,
        final(global).mioco_started == old(global).mioco_started,
        final(global).coroutines_num as int - old(global).coroutines_num as int == final(shared).coroutines.live() as int - old(shared).coroutines.live() as int,
        final(shared).coroutines.live() >= old(shared).coroutines.live(),
        // children only take vacant slots: occupied ones keep their
        // coroutines, and every newly occupied slot holds a fresh child
        final(shared).coroutines.slots@.len() >= old(shared).coroutines.slots@.len(),
        forall|j: int| 0 <= j < old(shared).coroutines.slots@.len() && old(
            shared,
        ).coroutines.slots@[j] is Some ==> final(shared).coroutines.slots@[j] == old(
            shared,
        ).coroutines.slots@[j],
        forall|j: int| 0 <= j < final(shared).coroutines.slots@.len() && (
        #[trigger] final(shared).coroutines.slots@[j]) is Some && (j >= old(
            shared,
        ).coroutines.slots@.len() || old(shared).coroutines.slots@[j] is None)
            ==> final(shared).coroutines.slots@[j]->Some_0.is_fresh(),
        r is Ok ==> final(children)@.len() == 0,
        // every child is homed in a fresh slot and its control queued for
        // the scheduler, in spawn order
        r is Ok ==> final(shared).spawned@.len() == old(shared).spawned@.len() + old(
            children,
        )@.len(),
        r is Ok ==> forall|i: int|
            0 <= i < old(children)@.len() ==> ({
                let ctrl = #[trigger] final(shared).spawned@[old(shared).spawned@.len() + i];
                &&& !ctrl.is_yielding
                &&& ctrl.co_id.0 < final(shared).coroutines.slots@.len()
                &&& final(shared).coroutines.slots@[ctrl.co_id.0 as int] == Some(
                    Coroutine {
                        id: ctrl.co_id,
                        thread_id: old(shared).thread_id,
                        ..old(children)@[i]
                    },
                )
            }),
        r matches Err(e) ==> e == RunError::TooManyCoroutines,
{
    let ghost total = old(children)@.len() as int;
    loop
        invariant
            forall|i: int| 0 <= i < children@.len() ==> (#[trigger] children@[i]).is_fresh(),
            forall|i: int, j: int|
                0 <= i < children@.len() && 0 <= j < children@[i].exit_notificators@.len() ==> (
                #[trigger] children@[i].exit_notificators@[j]) < pool.boxes@.len(),
            shared.wf(),
            shared.coroutines.notifs_valid(pool),
            shared.thread_id == old(shared).thread_id,
            shared.stack_size == old(shared).stack_size,
            shared.ready == old(shared).ready,
            shared.spawned@.len() >= old(shared).spawned@.len(),
            forall|i: int| 0 <= i < old(shared).spawned@.len()
                ==> shared.spawned@[i] == old(shared).spawned@[i],
            global.thread_num == old(global).thread_num,
            global.mioco_started == old(global).mioco_started,
            global.coroutines_num as int - old(global).coroutines_num as int
                == shared.coroutines.live() as int - old(shared).coroutines.live() as int,
            shared.coroutines.live() >= old(shared).coroutines.live(),
            shared.coroutines.slots@.len() >= old(shared).coroutines.slots@.len(),
            forall|j: int| 0 <= j < old(shared).coroutines.slots@.len() && old(
                shared,
            ).coroutines.slots@[j] is Some ==> shared.coroutines.slots@[j] == old(
                shared,
            ).coroutines.slots@[j],
            forall|j: int| 0 <= j < shared.coroutines.slots@.len() && (
            #[trigger] shared.coroutines.slots@[j]) is Some && (j >= old(
                shared,
            ).coroutines.slots@.len() || old(shared).coroutines.slots@[j] is None)
                ==> shared.coroutines.slots@[j]->Some_0.is_fresh(),
            total == old(children)@.len(),
            children@.len() <= total,
            forall|i: int| 0 <= i < children@.len() ==> #[trigger] children@[i] == old(
                children,
            )@[total - children@.len() + i],
            shared.spawned@.len() == old(shared).spawned@.len() + (total - children@.len()),
            forall|i: int|
                0 <= i < total - children@.len() ==> ({
                    let ctrl = #[trigger] shared.spawned@[old(shared).spawned@.len() + i];
                    &&& !ctrl.is_yielding
                    &&& ctrl.co_id.0 < shared.coroutines.slots@.len()
                    &&& shared.coroutines.slots@[ctrl.co_id.0 as int] == Some(
                        Coroutine {
                            id: ctrl.co_id,
                            thread_id: old(shared).thread_id,
                            ..old(children)@[i]
                        },
                    )
                }),
        decreases children@.len(),
    {
        if children.len() == 0 {
            return Ok(());
        }
        if global.coroutines_num == usize::MAX {
            return Err(RunError::TooManyCoroutines);
        }
        let ghost pre_children = children@;
        let ghost p = total - pre_children.len();
        let child = children.remove(0);
        proof {
            assert(children@ =~= pre_children.drop_first());
            assert(child == pre_children[0]);
            assert(pre_children[0] == old(children)@[p]);
            assert forall|i: int| 0 <= i < children@.len() implies #[trigger] children@[i] == old(
                children,
            )@[p + 1 + i] by {
                assert(children@[i] == pre_children[i + 1]);
                assert(pre_children[i + 1] == old(children)@[p + 1 + i]);
            }
            assert(child.is_fresh());
            assert forall|i: int| 0 <= i < children@.len() implies
                (#[trigger] children@[i]).is_fresh() by {
                assert(children@[i] == pre_children[i + 1]);
            }
            assert forall|i: int, j: int|
                0 <= i < children@.len() && 0 <= j
                    < children@[i].exit_notificators@.len() implies (
                #[trigger] children@[i].exit_notificators@[j]) < pool.boxes@.len() by {
                assert(children@[i] == pre_children[i + 1]);
            }
        }
        let ghost pre_table = shared.coroutines;
        match shared.attach(child) {
            Ok(id) => {
                proof {
                    let stored = Coroutine { id, thread_id: shared.thread_id, ..child };
                    assert(stored.notifs_valid(pool));
                    assert forall|i: int|
                        0 <= i < shared.coroutines.slots@.len() && shared.coroutines.slots@[i]
                            is Some implies (
                        #[trigger] shared.coroutines.slots@[i])->Some_0.notifs_valid(pool) by {
                        if i == id.0 {
                        } else if i < pre_table.slots@.len() {
                            assert(shared.coroutines.slots@[i] == pre_table.slots@[i]);
                        }
                    }
                }
                shared.coroutines_inc(global);
                let ghost pre_spawned = shared.spawned@;
                let ghost pre_slots = shared.coroutines.slots@;
                shared.add_spawned(CoroutineControl::new(id));
                proof {
                    assert forall|i: int|
                        0 <= i < total - children@.len() implies ({
                        let ctrl = #[trigger] shared.spawned@[old(shared).spawned@.len() + i];
                        &&& !ctrl.is_yielding
                        &&& ctrl.co_id.0 < shared.coroutines.slots@.len()
                        &&& shared.coroutines.slots@[ctrl.co_id.0 as int] == Some(
                            Coroutine {
                                id: ctrl.co_id,
                                thread_id: old(shared).thread_id,
                                ..old(children)@[i]
                            },
                        )
                    }) by {
                        if i < p {
                            let ctrl = pre_spawned[old(shared).spawned@.len() + i];
                            assert(shared.spawned@[old(shared).spawned@.len() + i] == ctrl);
                            assert(pre_table.slots@[ctrl.co_id.0 as int] == Some(
                                Coroutine {
                                    id: ctrl.co_id,
                                    thread_id: old(shared).thread_id,
                                    ..old(children)@[i]
                                },
                            ));
                            assert(shared.coroutines.slots@[ctrl.co_id.0 as int]
                                == pre_table.slots@[ctrl.co_id.0 as int]);
                        } else {
                            assert(i == p);
                            assert(shared.spawned@[old(shared).spawned@.len() + i]
                                == CoroutineControl { co_id: id, is_yielding: false });
                        }
                    }
                }
            },
            Err(e) => {
                return Err(e);
            },
        }
    }
}

/// Post a mailbox wakeup for every collected waiter: thread and token
/// pairs become wakeup messages on the wire.
fn push_wakeups<B>(
    outbox: &mut Vec<(usize, Message<B>)>,
    wakeups: &Vec<(usize, usize)>,
)
    ensures
        count_outbox_migrations(final(outbox)@) == count_outbox_migrations(old(outbox)@),
        final(outbox)@.len() >= old(outbox)@.len(),
        forall|i: int| 0 <= i < old(outbox)@.len() ==> final(outbox)@[i] == old(outbox)@[i],
        forall|i: int| old(outbox)@.len() <= i < final(outbox)@.len()
            ==> !((#[trigger] final(outbox)@[i]).1 is Migration),
{
    let n = wakeups.len();
    let mut k: usize = 0;
    while k < n
        invariant
            k <= n,
            n == wakeups@.len(),
            count_outbox_migrations(outbox@) == count_outbox_migrations(old(outbox)@),
            outbox@.len() >= old(outbox)@.len(),
            forall|i: int| 0 <= i < old(outbox)@.len() ==> outbox@[i] == old(outbox)@[i],
            forall|i: int| old(outbox)@.len() <= i < outbox@.len()
                ==> !((#[trigger] outbox@[i]).1 is Migration),
        decreases n - k,
    {
        let (tid, token) = wakeups[k];
        let ghost pre = outbox@;
        outbox.push((tid, Message::MailboxMsg(token)));
        proof {
            lemma_count_outbox_migrations_push(pre, (tid, Message::<B>::MailboxMsg(token)));
        }
        k = k + 1;
    }
}

impl CoroutineControl {
    /// Resume the controlled coroutine: run one resumption of its entry,
    /// then carry out what the entry left behind — register its staged
    /// waits with the notifier, start its children, hand a yielder back to
    /// the ready queue, or retire it with exit delivery if it finished.
    ///
    /// Fails with `SchedulerMisuse` if the coroutine is not `Ready` (the
    /// native runtime aborts there), and with the fatal errors of
    /// registration and spawning.
    pub fn resume<B: CoroutineBody>(
        self,
        shared: &mut HandlerShared<B>,
        event_loop: &mut EventLoop<B>,
        global: &mut HandlerThreadShared,
        pool: &mut MailboxPool,
        outbox: &mut Vec<(usize, Message<B>)>,
        now_ms: u64,
    ) -> (r: Result<ResumeKind, RunError>)
        requires
            old(shared).wf(),
            old(shared).coroutines.notifs_valid(*old(pool)),
            old(global).thread_num >= 1,
            old(global).coroutines_num >= old(shared).coroutines.live(),
        ensures
            final(shared).wf(),
            final(shared).coroutines.notifs_valid(*final(pool)),
            final(shared).thread_id == old(shared).thread_id,
            final(shared).stack_size == old(shared).stack_size,
            final(shared).spawned@.len() >= old(shared).spawned@.len(),
            final(shared).ready@.len() >= old(shared).ready@.len(),
            final(global).thread_num == old(global).thread_num,
            final(global).mioco_started == old(global).mioco_started,
            final(global).coroutines_num as int - old(global).coroutines_num as int == final(shared).coroutines.live() as int - old(shared).coroutines.live() as int,
            final(pool).boxes@.len() >= old(pool).boxes@.len(),
            final(event_loop).running == old(event_loop).running,
            final(event_loop).notify_capacity == old(event_loop).notify_capacity,
            final(event_loop).timer_tick_ms == old(event_loop).timer_tick_ms,
            final(event_loop).timeouts@.len() >= old(event_loop).timeouts@.len(),
            forall|i: int| 0 <= i < old(event_loop).timeouts@.len()
                ==> final(event_loop).timeouts@[i] == old(event_loop).timeouts@[i],
            count_migrations(final(event_loop).queue@) == count_migrations(
                old(event_loop).queue@,
            ),
            msgs_wf(old(event_loop).queue@, *old(pool)) ==> msgs_wf(
                final(event_loop).queue@,
                *final(pool),
            ),
            final(event_loop).queue@.len() >= old(event_loop).queue@.len(),
            count_outbox_migrations(final(outbox)@) == count_outbox_migrations(old(outbox)@),
            outbox_wf(old(outbox)@, *old(pool)) ==> outbox_wf(final(outbox)@, *final(pool)),
            final(outbox)@.len() >= old(outbox)@.len(),
            old(global).coroutines_num == 0 ==> final(global).coroutines_num == 0,
            // the scheduler-misuse abort comes exactly on resuming a
            // coroutine that is not parked ready
            r == Err::<ResumeKind, RunError>(RunError::SchedulerMisuse) <==> !(self.co_id.0 < old(shared).coroutines.slots@.len()
                && old(shared).coroutines.slots@[self.co_id.0 as int] is Some
                && old(shared).coroutines.slots@[self.co_id.0 as int]->Some_0.state is Ready),
            // queued work is only appended, never dropped — and what was
            // appended to the spawned queue is exactly the controls of
            // freshly homed children
            forall|i: int| 0 <= i < old(shared).spawned@.len()
                ==> final(shared).spawned@[i] == old(shared).spawned@[i],
            r is Ok ==> forall|i: int|
                old(shared).spawned@.len() <= i < final(shared).spawned@.len() ==> ({
                    let ctrl = #[trigger] final(shared).spawned@[i];
                    &&& !ctrl.is_yielding
                    &&& ctrl.co_id.0 < final(shared).coroutines.slots@.len()
                    &&& final(shared).coroutines.slots@[ctrl.co_id.0 as int] is Some
                    &&& final(shared).coroutines.slots@[ctrl.co_id.0 as int]->Some_0.is_fresh()
                    &&& final(shared).coroutines.slots@[ctrl.co_id.0 as int]->Some_0.id
                        == ctrl.co_id
                }),
            forall|i: int| 0 <= i < old(shared).ready@.len()
                ==> final(shared).ready@[i] == old(shared).ready@[i],
            r is Ok ==> self.co_id.0 < final(shared).coroutines.slots@.len(),
            // the result reports how the resumption ended.  Finished: the
            // slot is freed and the death counted (a newly started child
            // may re-use the slot at once)
            r == Ok::<ResumeKind, RunError>(ResumeKind::Finished) ==> (final(shared).coroutines.slots@[self.co_id.0 as int] is None
                || final(shared).coroutines.slots@[self.co_id.0 as int]->Some_0.is_fresh())
                && final(shared).ready@ == old(shared).ready@,
            // Blocked: the coroutine is parked on its staged sources
            r == Ok::<ResumeKind, RunError>(ResumeKind::Blocked) ==> final(shared).coroutines.slots@[self.co_id.0 as int] is Some
                && final(shared).coroutines.slots@[self.co_id.0 as int]->Some_0.state is Blocked
                && final(shared).ready@ == old(shared).ready@,
            // Yielded: the coroutine is parked ready and re-queued exactly
            // once, as a control marked yielding
            r == Ok::<ResumeKind, RunError>(ResumeKind::Yielded) ==> final(shared).coroutines.slots@[self.co_id.0 as int] is Some
                && final(shared).coroutines.slots@[self.co_id.0 as int]->Some_0.state is Ready
                && final(shared).ready@ == old(shared).ready@.push(
                CoroutineControl { co_id: self.co_id, is_yielding: true },
            ),
            // the staged waits of a blocked park reach the notifier:
            // exactly one registration per staged timer wait, at its
            // clamped deadline, and this coroutine registered as the
            // waiter of every staged mailbox; any other outcome leaves
            // the timer list unchanged
            r == Ok::<ResumeKind, RunError>(ResumeKind::Blocked) ==> ({
                let parked = final(shared).coroutines.slots@[self.co_id.0 as int]->Some_0;
                &&& final(event_loop).timeouts@ == old(event_loop).timeouts@ + timer_regs(
                    parked.blocked_on@,
                    parked.event_sources@,
                    parked.id,
                    parked.blocked_on@.len() as int,
                    now_ms,
                )
                &&& forall|k: int|
                    staged_mailbox(parked, k) ==> ((#[trigger] final(pool).boxes@[
                    parked.event_sources@[parked.blocked_on@[k].0.0 as int]->Some_0.kind->mailbox_id as int].waiter)
                        matches Some((wtid, wtok)) && wtid == parked.thread_id && wtok as int / (
                    EVENT_SOURCE_TOKEN_SPAN as int) == parked.id.0)
            }),
            (r == Ok::<ResumeKind, RunError>(ResumeKind::Yielded) || r == Ok::<
                ResumeKind,
                RunError,
            >(ResumeKind::Finished)) ==> final(event_loop).timeouts@ == old(event_loop).timeouts@,
    {
        let id = self.co_id;
        let ready = id.0 < shared.coroutines.slots.len() && (match &shared.coroutines.slots[id.0] {
            Some(c) => matches!(c.state, State::Ready),
            None => false,
        });
        if !ready {
            return Err(RunError::SchedulerMisuse);
        }
        proof {
            lemma_count_live_pos(shared.coroutines.slots@, id.0 as int);
        }
        let ghost pre_pool = *pool;
        let mut co = shared.coroutines.take(id);
        co.state = State::Running;
        let body_opt = co.body.take();
        let mut body = body_opt.unwrap();
        let ev = co.last_event;
        let thread_n = global.thread_num;
        let mut local_pool = MailboxPool::new();
        std::mem::swap(pool, &mut local_pool);
        let this_thread = shared.thread_id;
        let mut cx = CoroCtx {
            co,
            pool: local_pool,
            now_ms,
            thread_id: this_thread,
            thread_num: thread_n,
        };
        let verdict = body.resume(&mut cx, ev);
        let CoroCtx { co: co_back, pool: pool_back, now_ms: _, thread_id: _, thread_num: _ } = cx;
        let mut co = co_back;
        let mut local_pool = pool_back;
        std::mem::swap(pool, &mut local_pool);
        co.body = Some(body);
        if co.state.is_running() {
            // the entry returned: the coroutine finished
            let status = match verdict {
                EntryOutcome::Return(success) => ExitStatus::Exit(success),
                EntryOutcome::Panic => ExitStatus::Panic,
            };
            let propagate = matches!(verdict, EntryOutcome::Panic) && !co.catch_panics;
            let mut wakeups: Vec<(usize, usize)> = Vec::new();
            co.finish(status, pool, &mut wakeups);
            push_wakeups(outbox, &wakeups);
            if propagate {
                let ghost pre_outbox = outbox@;
                outbox.push((0usize, Message::PropagatePanic));
                proof {
                    lemma_count_outbox_migrations_push(
                        pre_outbox,
                        (0usize, Message::<B>::PropagatePanic),
                    );
                }
            }
            shared.coroutines_dec(global);
            let mut children = Vec::new();
            std::mem::swap(&mut children, &mut co.children);
            let ghost kids = children@;
            let ghost pre_spawned_len = shared.spawned@.len() as int;
            let r = start_children(&mut children, shared, global, Ghost(*pool));
            proof {
                lemma_msgs_wf_grow_all(old(event_loop).queue@, pre_pool, *pool);
                if r is Ok {
                    assert forall|i: int|
                        pre_spawned_len <= i < shared.spawned@.len() implies ({
                        let ctrl = #[trigger] shared.spawned@[i];
                        &&& !ctrl.is_yielding
                        &&& ctrl.co_id.0 < shared.coroutines.slots@.len()
                        &&& shared.coroutines.slots@[ctrl.co_id.0 as int] is Some
                        &&& shared.coroutines.slots@[ctrl.co_id.0 as int]->Some_0.is_fresh()
                        &&& shared.coroutines.slots@[ctrl.co_id.0 as int]->Some_0.id
                            == ctrl.co_id
                    }) by {
                        let j = i - pre_spawned_len;
                        assert(kids[j].is_fresh());
                        assert(shared.spawned@[pre_spawned_len + j] == shared.spawned@[i]);
                    }
                }
            }
            match r {
                Ok(()) => Ok(ResumeKind::Finished),
                Err(e) => Err(e),
            }
        } else {
            // the coroutine suspended: blocked on sources, or yielding
            let r1 = register_all(&co, event_loop, pool, now_ms);
            let yielding = co.state.is_yielding();
            if yielding {
                // take it out of the yield state so the scheduler can
                // resume it at the coming tick
                co.state = State::Ready;
            }
            let mut children = Vec::new();
            std::mem::swap(&mut children, &mut co.children);
            let ghost parked = co;
            let ghost pre_table = shared.coroutines;
            shared.coroutines.put(id, co);
            proof {
                assert forall|i: int|
                    0 <= i < shared.coroutines.slots@.len() && shared.coroutines.slots@[i]
                        is Some implies {
                    let c = (#[trigger] shared.coroutines.slots@[i])->Some_0;
                    &&& c.wf()
                    &&& c.id == CoroutineId(i as usize)
                    &&& c.thread_id == shared.thread_id
                    &&& c.body is Some
                    &&& c.children@.len() == 0
                    &&& !(c.state is Running)
                    &&& !(c.state is Finished)
                    &&& c.notifs_valid(*pool)
                } by {
                    if i == id.0 {
                        assert(shared.coroutines.slots@[i] == Some(parked));
                    } else {
                        assert(shared.coroutines.slots@[i] == pre_table.slots@[i]);
                        lemma_co_notifs_grow(pre_table.slots@[i]->Some_0, pre_pool, *pool);
                    }
                }
            }
            let ghost kids = children@;
            let ghost pre_spawned_len = shared.spawned@.len() as int;
            let r2 = start_children(&mut children, shared, global, Ghost(*pool));
            proof {
                if r2 is Ok {
                    assert forall|i: int|
                        pre_spawned_len <= i < shared.spawned@.len() implies ({
                        let ctrl = #[trigger] shared.spawned@[i];
                        &&& !ctrl.is_yielding
                        &&& ctrl.co_id.0 < shared.coroutines.slots@.len()
                        &&& shared.coroutines.slots@[ctrl.co_id.0 as int] is Some
                        &&& shared.coroutines.slots@[ctrl.co_id.0 as int]->Some_0.is_fresh()
                        &&& shared.coroutines.slots@[ctrl.co_id.0 as int]->Some_0.id
                            == ctrl.co_id
                    }) by {
                        let j = i - pre_spawned_len;
                        assert(kids[j].is_fresh());
                        assert(shared.spawned@[pre_spawned_len + j] == shared.spawned@[i]);
                    }
                }
            }
            if yielding {
                let mut coroutine_ctrl = CoroutineControl::new(id);
                coroutine_ctrl.set_is_yielding();
                shared.add_ready(coroutine_ctrl);
            }
            proof {
                lemma_msgs_wf_grow_all(old(event_loop).queue@, pre_pool, *pool);
            }
            match r1 {
                Ok(()) => match r2 {
                    Ok(()) => Ok(
                        if yielding {
                            ResumeKind::Yielded
                        } else {
                            ResumeKind::Blocked
                        },
                    ),
                    Err(e) => Err(e),
                },
                Err(e) => Err(e),
            }
        }
    }

    /// Kill the controlled coroutine: force it into `Finished(Killed)`,
    /// deliver its exit notifications, release its slot and count its
    /// death.  In a native runtime this is the drop path of a control
    /// handle that no scheduler acted on.
    pub fn kill<B>(
        self,
        shared: &mut HandlerShared<B>,
        global: &mut HandlerThreadShared,
        pool: &mut MailboxPool,
        outbox: &mut Vec<(usize, Message<B>)>,
    )
        requires
            old(shared).wf(),
            old(shared).coroutines.notifs_valid(*old(pool)),
            old(global).coroutines_num >= old(shared).coroutines.live(),
            outbox_wf(old(outbox)@, *old(pool)),
        ensures
            outbox_wf(final(outbox)@, *final(pool)),
            count_outbox_migrations(final(outbox)@) == count_outbox_migrations(old(outbox)@),
            final(outbox)@.len() >= old(outbox)@.len(),
            final(shared).wf(),
            final(shared).coroutines.notifs_valid(*final(pool)),
            final(shared).thread_id == old(shared).thread_id,
            final(shared).stack_size == old(shared).stack_size,
            final(shared).spawned == old(shared).spawned,
            final(shared).ready == old(shared).ready,
            final(global).thread_num == old(global).thread_num,
            final(global).mioco_started == old(global).mioco_started,
            final(global).coroutines_num as int - old(global).coroutines_num as int == final(shared).coroutines.live() as int - old(shared).coroutines.live() as int,
            final(pool).boxes@.len() == old(pool).boxes@.len(),
            old(global).coroutines_num == 0 ==> final(global).coroutines_num == 0,
            // a handle naming no live coroutine kills nothing
            !(self.co_id.0 < old(shared).coroutines.slots@.len() && old(shared).coroutines.slots@[self.co_id.0 as int] is Some) ==> *final(shared) == *old(shared)
                && *final(global) == *old(global) && *final(pool) == *old(pool) && final(outbox)@
                == old(outbox)@,
            // killing a live coroutine frees its slot, counts its death,
            // and delivers one Killed status to each registered
            // notificator
            self.co_id.0 < old(shared).coroutines.slots@.len() && old(shared).coroutines.slots@[self.co_id.0 as int] is Some ==> {
                let victim = old(shared).coroutines.slots@[self.co_id.0 as int]->Some_0;
                &&& final(shared).coroutines.slots@ == old(shared).coroutines.slots@.update(
                    self.co_id.0 as int,
                    None::<Coroutine<B>>,
                )
                &&& final(shared).coroutines.live() + 1 == old(shared).coroutines.live()
                &&& final(global).coroutines_num + 1 == old(global).coroutines_num
                &&& forall|i: int|
                    0 <= i < victim.exit_notificators@.len() ==> final(pool).boxes@[(
                    #[trigger] victim.exit_notificators@[i]) as int].queue@ == old(pool).boxes@[
                    victim.exit_notificators@[i] as int].queue@ + crate::coroutine::count_sends(
                        victim.exit_notificators@,
                        victim.exit_notificators@[i],
                        ExitStatus::Killed,
                    )
            },
    {
        let id = self.co_id;
        if !shared.coroutines.contains(id) {
            return ;
        }
        proof {
            lemma_count_live_pos(shared.coroutines.slots@, id.0 as int);
        }
        let ghost pre_pool = *pool;
        let mut co = shared.coroutines.take(id);
        if !co.state.is_finished() {
            let mut wakeups: Vec<(usize, usize)> = Vec::new();
            co.finish(ExitStatus::Killed, pool, &mut wakeups);
            push_wakeups(outbox, &wakeups);
        }
        shared.coroutines_dec(global);
        proof {
            assert forall|i: int|
                0 <= i < shared.coroutines.slots@.len() && shared.coroutines.slots@[i]
                    is Some implies (
                #[trigger] shared.coroutines.slots@[i])->Some_0.notifs_valid(*pool) by {
                assert(shared.coroutines.slots@[i] == old(shared).coroutines.slots@[i]);
            }
        }
    }

    /// Move the controlled coroutine to the thread `thread_id`: detach it
    /// from this thread's table and notifier and put it on the wire as a
    /// migration message.  Its state, stack and sources travel untouched;
    /// only its local id is given up.
    pub fn migrate<B>(
        self,
        shared: &mut HandlerShared<B>,
        outbox: &mut Vec<(usize, Message<B>)>,
        thread_id: usize,
        Ghost(pool): Ghost<MailboxPool>,
    ) -> (r: Result<(), RunError>)
        requires
            old(shared).wf(),
            old(shared).coroutines.notifs_valid(pool),
            outbox_wf(old(outbox)@, pool),
        ensures
            final(shared).wf(),
            final(shared).coroutines.notifs_valid(pool),
            final(shared).thread_id == old(shared).thread_id,
            final(shared).stack_size == old(shared).stack_size,
            final(shared).spawned == old(shared).spawned,
            final(shared).ready == old(shared).ready,
            outbox_wf(final(outbox)@, pool),
            // migration succeeds exactly when the handle names a live
            // coroutine; the source slot is then vacated and exactly one
            // migration message carrying the identical coroutine is routed
            // to the target thread
            r is Ok <==> self.co_id.0 < old(shared).coroutines.slots@.len() && old(shared).coroutines.slots@[self.co_id.0 as int] is Some,
            r is Ok ==> {
                &&& final(shared).coroutines.slots@ == old(shared).coroutines.slots@.update(
                    self.co_id.0 as int,
                    None::<Coroutine<B>>,
                )
                &&& final(shared).coroutines.live() + 1 == old(shared).coroutines.live()
                &&& count_outbox_migrations(final(outbox)@) == count_outbox_migrations(
                    old(outbox)@,
                ) + 1
                &&& final(outbox)@ == old(outbox)@.push(
                    (thread_id, Message::Migration(
                        old(shared).coroutines.slots@[self.co_id.0 as int]->Some_0,
                    )),
                )
            },
            r is Err ==> *final(shared) == *old(shared) && final(outbox)@ == old(outbox)@
                && count_outbox_migrations(final(outbox)@) == count_outbox_migrations(
                old(outbox)@,
            ) && r == Err::<(), RunError>(RunError::SchedulerMisuse),
    {
        let id = self.co_id;
        if !shared.coroutines.contains(id) {
            return Err(RunError::SchedulerMisuse);
        }
        let co = shared.coroutines.remove(id);
        let ghost pre_outbox = outbox@;
        outbox.push((thread_id, Message::Migration(co)));
        proof {
            lemma_count_outbox_migrations_push(
                pre_outbox,
                final(outbox)@.last(),
            );
            assert forall|i: int|
                0 <= i < shared.coroutines.slots@.len() && shared.coroutines.slots@[i]
                    is Some implies (
                #[trigger] shared.coroutines.slots@[i])->Some_0.notifs_valid(pool) by {
                assert(shared.coroutines.slots@[i] == old(shared).coroutines.slots@[i]);
            }
        }
        Ok(())
    }
}

impl CoroutineControl {
    /// User data of the controlled coroutine, if it is live and any was
    /// set.
    pub fn get_userdata<B>(&self, shared: &HandlerShared<B>) -> (r: Option<u64>)
        ensures
            r == if self.co_id.0 < shared.coroutines.slots@.len()
                && shared.coroutines.slots@[self.co_id.0 as int] is Some {
                shared.coroutines.slots@[self.co_id.0 as int]->Some_0.user_data
            } else {
                None
            },
    {
        if self.co_id.0 < shared.coroutines.slots.len() {
            match &shared.coroutines.slots[self.co_id.0] {
                Some(co) => co.user_data,
                None => None,
            }
        } else {
            None
        }
    }
}

/// Finish a migration: home the travelling coroutine on this thread under
/// a fresh local id and hand back a control handle for it.  Everything but
/// its id and owning thread is as it left the source thread.
pub fn reattach_to<B>(co: Coroutine<B>, shared: &mut HandlerShared<B>, Ghost(pool): Ghost<
    MailboxPool,
>) -> (r: Result<CoroutineControl, RunError>)
    requires
        co.wf(),
        co.body is Some,
        co.children@.len() == 0,
        !(co.state is Running),
        !(co.state is Finished),
        co.notifs_valid(pool),
        old(shared).wf(),
        old(shared).coroutines.notifs_valid(pool),
    ensures
        final(shared).wf(),
        final(shared).coroutines.notifs_valid(pool),
        final(shared).thread_id == old(shared).thread_id,
        final(shared).stack_size == old(shared).stack_size,
        final(shared).spawned == old(shared).spawned,
        final(shared).ready == old(shared).ready,
        match r {
            Ok(ctrl) => {
                &&& final(shared).coroutines.live() == old(shared).coroutines.live() + 1
                &&& ctrl.co_id.0 < final(shared).coroutines.slots@.len()
                &&& final(shared).coroutines.slots@[ctrl.co_id.0 as int] == Some(
                    Coroutine { id: ctrl.co_id, thread_id: old(shared).thread_id, ..co },
                )
                &&& !ctrl.is_yielding
            },
            Err(e) => {
                &&& *final(shared) == *old(shared)
                &&& e == RunError::TooManyCoroutines
                &&& old(shared).coroutines.slots@.len() >= COROUTINE_ID_MAX
            },
        },
{
    let ghost pre_table = shared.coroutines;
    match shared.attach(co) {
        Ok(id) => {
            proof {
                let stored = Coroutine { id, thread_id: shared.thread_id, ..co };
                assert(stored.notifs_valid(pool));
                assert forall|i: int|
                    0 <= i < shared.coroutines.slots@.len() && shared.coroutines.slots@[i]
                        is Some implies (
                    #[trigger] shared.coroutines.slots@[i])->Some_0.notifs_valid(pool) by {
                    if i == id.0 {
                    } else if i < pre_table.slots@.len() {
                        assert(shared.coroutines.slots@[i] == pre_table.slots@[i]);
                    }
                }
            }
            Ok(CoroutineControl::new(id))
        },
        Err(e) => Err(e),
    }
}

/// A coroutine's notificator validity survives pool growth.
pub proof fn lemma_co_notifs_grow<B>(c: Coroutine<B>, pre: MailboxPool, post: MailboxPool)
    requires
        c.notifs_valid(pre),
        post.boxes@.len() >= pre.boxes@.len(),
    ensures
        c.notifs_valid(post),
{
}

/// Message fitness of a whole queue survives pool growth.
pub proof fn lemma_msgs_wf_grow_all<B>(q: Seq<Message<B>>, pre: MailboxPool, post: MailboxPool)
    requires
        post.boxes@.len() >= pre.boxes@.len(),
    ensures
        msgs_wf(q, pre) ==> msgs_wf(q, post),
{
    if msgs_wf(q, pre) {
        assert forall|i: int| 0 <= i < q.len() implies message_wf(#[trigger] q[i], post) by {
            assert(message_wf(q[i], pre));
            if q[i] is Migration {
                lemma_co_notifs_grow(q[i]->Migration_0, pre, post);
            }
        }
    }
}


/// One observable step a handler took: a readiness delivery into a
/// coroutine of its table, or a call into its scheduler.
pub enum Dispatch<B, S> {
    /// Readiness was delivered to a parked coroutine, per
    /// `Coroutine::event_step`.
    Delivered {
        /// The coroutine before the delivery.
        pre: Coroutine<B>,
        /// The coroutine after the delivery.
        post: Coroutine<B>,
        /// The source the readiness was for.
        src: crate::EventSourceId,
        /// The delivered direction(s).
        rw: RW,
        /// Whether the coroutine woke.
        woken: bool,
    },
    /// A newly spawned coroutine was offered to the scheduler.
    Spawned {
        /// Scheduler before the call.
        pre: S,
        /// The offered control handle.
        ctrl: CoroutineControl,
        /// Scheduler after the call.
        post: S,
        /// What the scheduler decided.
        action: SchedAction,
    },
    /// A runnable coroutine was offered to the scheduler.
    Ready {
        /// Scheduler before the call.
        pre: S,
        /// The offered control handle.
        ctrl: CoroutineControl,
        /// Scheduler after the call.
        post: S,
        /// What the scheduler decided.
        action: SchedAction,
    },
    /// A coroutine of the scheduler's tick batch was resumed.
    Resumed {
        /// The control handle that was resumed.
        ctrl: CoroutineControl,
    },
    /// The scheduler was given its end-of-batch tick.
    Tick {
        /// Scheduler before the call.
        pre: S,
        /// Scheduler after the call.
        post: S,
        /// The deferred coroutines it handed back to resume, in order.
        run: Seq<CoroutineControl>,
    },
}

/// The scheduler state a dispatch leaves behind, starting from `s0`.
pub open spec fn dispatch_post<B, S>(d: Dispatch<B, S>, s0: S) -> S {
    match d {
        Dispatch::Delivered { .. } => s0,
        Dispatch::Resumed { .. } => s0,
        Dispatch::Spawned { post, .. } => post,
        Dispatch::Ready { post, .. } => post,
        Dispatch::Tick { post, .. } => post,
    }
}

/// Whether one dispatch is a lawful step from scheduler state `s0`.
pub open spec fn dispatch_step<B, S: SchedulerThread>(d: Dispatch<B, S>, s0: S) -> bool {
    match d {
        Dispatch::Delivered { pre, post, src, rw, woken } => Coroutine::event_step(
            pre,
            post,
            src,
            rw,
            woken,
        ),
        Dispatch::Resumed { .. } => true,
        Dispatch::Spawned { pre, ctrl, post, action } => pre == s0 && S::spawned_spec(
            pre,
            ctrl,
            post,
            action,
        ),
        Dispatch::Ready { pre, ctrl, post, action } => pre == s0 && S::ready_spec(
            pre,
            ctrl,
            post,
            action,
        ),
        Dispatch::Tick { pre, post, run } => pre == s0 && S::tick_spec(pre, post, run),
    }
}

/// Whether a sequence of dispatches is a lawful evolution of the
/// scheduler from `s0` to `s1`.
pub open spec fn trace_valid<B, S: SchedulerThread>(t: Seq<Dispatch<B, S>>, s0: S, s1: S) -> bool
    decreases t.len(),
{
    if t.len() == 0 {
        s0 == s1
    } else {
        dispatch_step(t.first(), s0) && trace_valid(
            t.drop_first(),
            dispatch_post(t.first(), s0),
            s1,
        )
    }
}

/// Lawful traces compose.
pub proof fn lemma_trace_valid_concat<B, S: SchedulerThread>(
    a: Seq<Dispatch<B, S>>,
    b: Seq<Dispatch<B, S>>,
    s0: S,
    s1: S,
    s2: S,
)
    requires
        trace_valid(a, s0, s1),
        trace_valid(b, s1, s2),
    ensures
        trace_valid(a + b, s0, s2),
    decreases a.len(),
{
    if a.len() == 0 {
        assert(a + b =~= b);
    } else {
        assert((a + b).first() == a.first());
        assert((a + b).drop_first() =~= a.drop_first() + b);
        lemma_trace_valid_concat(a.drop_first(), b, dispatch_post(a.first(), s0), s1, s2);
    }
}

/// Appending one lawful step keeps a trace lawful.
pub proof fn lemma_trace_valid_snoc<B, S: SchedulerThread>(
    t: Seq<Dispatch<B, S>>,
    d: Dispatch<B, S>,
    s0: S,
    s1: S,
)
    requires
        trace_valid(t, s0, s1),
        dispatch_step(d, s1),
    ensures
        trace_valid(t.push(d), s0, dispatch_post(d, s1)),
{
    let single = seq![d];
    assert(single.first() == d);
    assert(single.drop_first() =~= Seq::<Dispatch<B, S>>::empty());
    assert(trace_valid(single.drop_first(), dispatch_post(d, s1), dispatch_post(d, s1)));
    assert(trace_valid(single, s1, dispatch_post(d, s1)));
    lemma_trace_valid_concat(t, single, s0, s1, dispatch_post(d, s1));
    assert(t.push(d) =~= t + single);
}

/// Scheduled timers are kept: a handler step only appends registrations,
/// it never takes one away.  (Only the notifier's own wait, `run_once`,
/// consumes timers — and only those already due.)
pub open spec fn timeouts_kept<B>(pre_el: EventLoop<B>, post_el: EventLoop<B>) -> bool {
    &&& post_el.timeouts@.len() >= pre_el.timeouts@.len()
    &&& forall|i: int| 0 <= i < pre_el.timeouts@.len() ==> post_el.timeouts@[i] == pre_el.timeouts@[i]
}

/// The bookkeeping identity every handler step preserves: coroutines are
/// only created against the global count, and only leave it by dying;
/// one travelling in a message is live, merely in flight.
pub open spec fn books_balanced<B>(
    pre_live: nat,
    post_live: nat,
    pre_num: nat,
    post_num: nat,
    pre_in_flight: nat,
    post_in_flight: nat,
) -> bool {
    post_num + pre_live + pre_in_flight == pre_num + post_live + post_in_flight
}

/// One thread's event-loop handler: demultiplexes readiness events,
/// timeouts and inter-thread messages to the coroutines of its table, and
/// cooperates with its scheduler.
pub struct Handler<B, S> {
    /// State shared with the coroutines of this thread.
    pub shared: HandlerShared<B>,
    /// The per-thread scheduler.
    pub scheduler: S,
    /// Everything this handler did to its coroutines and its scheduler,
    /// in order — the specification-level record the contracts of the
    /// driver functions speak of.
    pub trace: Ghost<Seq<Dispatch<B, S>>>,
}

/// What every handler step guarantees of the record: the existing trace
/// is kept, and what was appended is a lawful evolution of the scheduler
/// from its old state to its final one.
pub open spec fn trace_ens<B, S: SchedulerThread>(pre_h: Handler<B, S>, post_h: Handler<B, S>) -> bool {
    &&& post_h.trace@.len() >= pre_h.trace@.len()
    &&& forall|i: int| 0 <= i < pre_h.trace@.len() ==> post_h.trace@[i] == pre_h.trace@[i]
    &&& trace_valid(
        post_h.trace@.skip(pre_h.trace@.len() as int),
        pre_h.scheduler,
        post_h.scheduler,
    )
}

/// The trace guarantee composes across steps.
pub proof fn lemma_trace_ens_trans<B, S: SchedulerThread>(
    h0: Handler<B, S>,
    h1: Handler<B, S>,
    h2: Handler<B, S>,
)
    requires
        trace_ens(h0, h1),
        trace_ens(h1, h2),
    ensures
        trace_ens(h0, h2),
{
    let l0 = h0.trace@.len() as int;
    let l1 = h1.trace@.len() as int;
    let a = h1.trace@.skip(l0);
    let b = h2.trace@.skip(l1);
    assert(h2.trace@.skip(l0) =~= a + b);
    lemma_trace_valid_concat(a, b, h0.scheduler, h1.scheduler, h2.scheduler);
}

/// An untouched handler meets the trace guarantee.
pub proof fn lemma_trace_ens_refl<B, S: SchedulerThread>(h: Handler<B, S>)
    ensures
        trace_ens(h, h),
{
    assert(h.trace@.skip(h.trace@.len() as int) =~= Seq::<Dispatch<B, S>>::empty());
    assert(trace_valid(Seq::<Dispatch<B, S>>::empty(), h.scheduler, h.scheduler));
}

/// Carry out what a scheduler decided for one coroutine.
fn process_action<B: CoroutineBody>(
    action: SchedAction,
    shared: &mut HandlerShared<B>,
    event_loop: &mut EventLoop<B>,
    global: &mut HandlerThreadShared,
    pool: &mut MailboxPool,
    outbox: &mut Vec<(usize, Message<B>)>,
    now_ms: u64,
) -> (r: Result<(), RunError>)
    requires
        old(shared).wf(),
        old(shared).coroutines.notifs_valid(*old(pool)),
        old(global).thread_num >= 1,
        old(global).coroutines_num >= old(shared).coroutines.live(),
        outbox_wf(old(outbox)@, *old(pool)),
    ensures
        final(shared).wf(),
        final(shared).coroutines.notifs_valid(*final(pool)),
        final(shared).thread_id == old(shared).thread_id,
        final(shared).stack_size == old(shared).stack_size,
        final(global).thread_num == old(global).thread_num,
        final(global).mioco_started == old(global).mioco_started,
        final(pool).boxes@.len() >= old(pool).boxes@.len(),
        final(event_loop).running == old(event_loop).running,
        final(event_loop).notify_capacity == old(event_loop).notify_capacity,
        final(event_loop).timer_tick_ms == old(event_loop).timer_tick_ms,
        final(event_loop).timeouts@.len() >= old(event_loop).timeouts@.len(),
        forall|i: int| 0 <= i < old(event_loop).timeouts@.len()
            ==> final(event_loop).timeouts@[i] == old(event_loop).timeouts@[i],
        msgs_wf(old(event_loop).queue@, *old(pool)) ==> msgs_wf(
            final(event_loop).queue@,
            *final(pool),
        ),
        outbox_wf(final(outbox)@, *final(pool)),
        final(outbox)@.len() >= old(outbox)@.len(),
        count_outbox_migrations(final(outbox)@) >= count_outbox_migrations(old(outbox)@),
        final(event_loop).running == old(event_loop).running,
        old(global).coroutines_num == 0 ==> final(global).coroutines_num == 0,
        books_balanced::<B>(
            old(shared).coroutines.live(),
            final(shared).coroutines.live(),
            old(global).coroutines_num as nat,
            final(global).coroutines_num as nat,
            count_migrations(old(event_loop).queue@) + count_outbox_migrations(old(outbox)@),
            count_migrations(final(event_loop).queue@) + count_outbox_migrations(final(outbox)@),
        ),
    {
    let ghost pre_pool = *pool;
    let ghost pre_outbox = outbox@;
    match action {
        SchedAction::Resumed(ctrl) => {
            let r = ctrl.resume(shared, event_loop, global, pool, outbox, now_ms);
            match r {
                Ok(_) => Ok(()),
                Err(e) => Err(e),
            }
        },
        SchedAction::Migrated(ctrl, thread_id) => {
            let r = ctrl.migrate(shared, outbox, thread_id, Ghost(*pool));
            match r {
                Ok(()) => Ok(()),
                Err(e) => Err(e),
            }
        },
        SchedAction::Retained => Ok(()),
        SchedAction::Killed(ctrl) => {
            ctrl.kill(shared, global, pool, outbox);
            Ok(())
        },
    }
}

/// An outbox stays fit when only fit messages were appended and the pool
/// only grew.
proof fn lemma_outbox_wf_weak<B>(
    pre: Seq<(usize, Message<B>)>,
    post: Seq<(usize, Message<B>)>,
    pre_pool: MailboxPool,
    post_pool: MailboxPool,
)
    requires
        outbox_wf(pre, pre_pool),
        post_pool.boxes@.len() >= pre_pool.boxes@.len(),
        post.len() >= pre.len(),
        forall|i: int| 0 <= i < pre.len() ==> post[i] == pre[i],
        forall|i: int| pre.len() <= i < post.len() ==> !((#[trigger] post[i]).1 is Migration),
    ensures
        outbox_wf(post, post_pool),
{
    assert forall|i: int| 0 <= i < post.len() implies message_wf((#[trigger] post[i]).1, post_pool)
        by {
        if i < pre.len() {
            assert(message_wf(pre[i].1, pre_pool));
            if pre[i].1 is Migration {
                lemma_co_notifs_grow(pre[i].1->Migration_0, pre_pool, post_pool);
            }
        }
    }
}


/// What every handler step requires of its surroundings.
pub open spec fn handler_req<B, S: SchedulerThread>(
    h: Handler<B, S>,
    g: HandlerThreadShared,
    el: EventLoop<B>,
    pool: MailboxPool,
    ob: Seq<(usize, Message<B>)>,
) -> bool {
    &&& h.shared.wf()
    &&& h.shared.coroutines.notifs_valid(pool)
    &&& h.scheduler.inv()
    &&& g.thread_num >= 1
    &&& g.coroutines_num >= h.shared.coroutines.live() + count_migrations(el.queue@)
    &&& outbox_wf(ob, pool)
    &&& msgs_wf(el.queue@, pool)
}

/// What every handler step ensures of its surroundings, books aside.
pub open spec fn handler_frame<B, S: SchedulerThread>(
    pre_h: Handler<B, S>,
    post_h: Handler<B, S>,
    pre_g: HandlerThreadShared,
    post_g: HandlerThreadShared,
    pre_el: EventLoop<B>,
    post_el: EventLoop<B>,
    pre_pool: MailboxPool,
    post_pool: MailboxPool,
    pre_ob: Seq<(usize, Message<B>)>,
    post_ob: Seq<(usize, Message<B>)>,
) -> bool {
    &&& post_h.shared.wf()
    &&& post_h.shared.coroutines.notifs_valid(post_pool)
    &&& post_h.scheduler.inv()
    &&& post_h.shared.thread_id == pre_h.shared.thread_id
    &&& post_h.shared.stack_size == pre_h.shared.stack_size
    &&& post_g.thread_num == pre_g.thread_num
    &&& post_g.mioco_started == pre_g.mioco_started
    &&& post_pool.boxes@.len() >= pre_pool.boxes@.len()
    &&& post_el.notify_capacity == pre_el.notify_capacity
    &&& post_el.timer_tick_ms == pre_el.timer_tick_ms
    &&& msgs_wf(post_el.queue@, post_pool)
    &&& outbox_wf(post_ob, post_pool)
    &&& post_ob.len() >= pre_ob.len()
    &&& count_outbox_migrations(post_ob) >= count_outbox_migrations(pre_ob)
    &&& (!pre_el.running ==> !post_el.running)
    &&& post_g.coroutines_num >= post_h.shared.coroutines.live() + count_migrations(
        post_el.queue@,
    )
    &&& (pre_g.coroutines_num == 0 ==> post_g.coroutines_num == 0)
}

/// What every handler step ensures of its surroundings: the frame, and the
/// books.
pub open spec fn handler_ens<B, S: SchedulerThread>(
    pre_h: Handler<B, S>,
    post_h: Handler<B, S>,
    pre_g: HandlerThreadShared,
    post_g: HandlerThreadShared,
    pre_el: EventLoop<B>,
    post_el: EventLoop<B>,
    pre_pool: MailboxPool,
    post_pool: MailboxPool,
    pre_ob: Seq<(usize, Message<B>)>,
    post_ob: Seq<(usize, Message<B>)>,
) -> bool {
    &&& handler_frame(pre_h, post_h, pre_g, post_g, pre_el, post_el, pre_pool, post_pool, pre_ob, post_ob)
    &&& books_balanced::<B>(
        pre_h.shared.coroutines.live(),
        post_h.shared.coroutines.live(),
        pre_g.coroutines_num as nat,
        post_g.coroutines_num as nat,
        count_migrations(pre_el.queue@) + count_outbox_migrations(pre_ob),
        count_migrations(post_el.queue@) + count_outbox_migrations(post_ob),
    )
}

impl<B: CoroutineBody, S: SchedulerThread> Handler<B, S> {
    /// Create a handler from the thread's shared state and scheduler.
    pub fn new(shared: HandlerShared<B>, scheduler: S) -> (r: Self)
        ensures
            r.shared == shared,
            r.scheduler == scheduler,
            r.trace@.len() == 0,
    {
        Handler { shared, scheduler, trace: Ghost(Seq::empty()) }
    }

    /// The state shared with this thread's coroutines.
    pub fn shared(&self) -> (r: &HandlerShared<B>)
        ensures
            r == &self.shared,
    {
        &self.shared
    }

    /// Drain the spawned and ready buffers into the scheduler, repeating
    /// until a pass leaves both empty: a resumed coroutine can spawn or
    /// re-ready others, and delivering here instead of recursing bounds the
    /// stack.  `fuel` bounds the number of passes of this deterministic
    /// model.
    /// Offer one batch to the scheduler: every spawned control, then
    /// every ready control, in order, carrying out each decision.  Each
    /// offer is recorded on the trace.
    fn deliver_pass(
        &mut self,
        spawned: Vec<CoroutineControl>,
        ready: Vec<CoroutineControl>,
        event_loop: &mut EventLoop<B>,
        global: &mut HandlerThreadShared,
        pool: &mut MailboxPool,
        outbox: &mut Vec<(usize, Message<B>)>,
        now_ms: u64,
    ) -> (r: Result<(), RunError>)
        requires
            handler_req(*old(self), *old(global), *old(event_loop), *old(pool), old(outbox)@),
        ensures
            handler_ens(
                *old(self),
                *final(self),
                *old(global),
                *final(global),
                *old(event_loop),
                *final(event_loop),
                *old(pool),
                *final(pool),
                old(outbox)@,
                final(outbox)@,
            ),
            final(event_loop).running == old(event_loop).running,
            timeouts_kept(*old(event_loop), *final(event_loop)),
            trace_ens(*old(self), *final(self)),
            // every control of the batch was offered to the scheduler,
            // spawned ones first, each exactly once and in order
            r is Ok ==> final(self).trace@.len() == old(self).trace@.len() + spawned@.len()
                + ready@.len(),
            r is Ok ==> forall|i: int|
                0 <= i < spawned@.len() ==> ((#[trigger] final(self).trace@[old(self).trace@.len()
                    + i]) matches Dispatch::Spawned { ctrl, .. } && ctrl == spawned@[i]),
            r is Ok ==> forall|j: int|
                0 <= j < ready@.len() ==> ((#[trigger] final(self).trace@[old(self).trace@.len()
                    + spawned@.len() + j]) matches Dispatch::Ready { ctrl, .. } && ctrl
                    == ready@[j]),
    {
        let n_spawned = spawned.len();
        let mut k: usize = 0;
        while k < n_spawned
            invariant
                k <= n_spawned,
                n_spawned == spawned@.len(),
                handler_req(*self, *global, *event_loop, *pool, outbox@),
                handler_ens(
                    *old(self),
                    *self,
                    *old(global),
                    *global,
                    *old(event_loop),
                    *event_loop,
                    *old(pool),
                    *pool,
                    old(outbox)@,
                    outbox@,
                ),
                event_loop.running == old(event_loop).running,
                timeouts_kept(*old(event_loop), *event_loop),
                trace_ens(*old(self), *self),
                self.trace@.len() == old(self).trace@.len() + k,
                forall|i: int|
                    0 <= i < k ==> ((#[trigger] self.trace@[old(self).trace@.len() + i]) matches
                        Dispatch::Spawned { ctrl, .. } && ctrl == spawned@[i]),
            decreases n_spawned - k,
        {
            let ctrl = CoroutineControl {
                co_id: spawned[k].co_id,
                is_yielding: spawned[k].is_yielding,
            };
            let ghost ctrl_g = ctrl;
            let ghost pre_sched = self.scheduler;
            let ghost pre_trace = self.trace@;
            let action = self.scheduler.spawned(ctrl);
            let ghost d = Dispatch::Spawned {
                pre: pre_sched,
                ctrl: ctrl_g,
                post: self.scheduler,
                action,
            };
            self.trace = Ghost(self.trace@.push(d));
            proof {
                lemma_trace_valid_snoc(
                    pre_trace.skip(old(self).trace@.len() as int),
                    d,
                    old(self).scheduler,
                    pre_sched,
                );
                assert(self.trace@.skip(old(self).trace@.len() as int) =~= pre_trace.skip(
                    old(self).trace@.len() as int,
                ).push(d));
            }
            let rr = process_action(
                action,
                &mut self.shared,
                event_loop,
                global,
                pool,
                outbox,
                now_ms,
            );
            match rr {
                Ok(()) => {},
                Err(e) => {
                    return Err(e);
                },
            }
            k = k + 1;
        }
        let n_ready = ready.len();
        let mut k: usize = 0;
        while k < n_ready
            invariant
                k <= n_ready,
                n_ready == ready@.len(),
                n_spawned == spawned@.len(),
                handler_req(*self, *global, *event_loop, *pool, outbox@),
                handler_ens(
                    *old(self),
                    *self,
                    *old(global),
                    *global,
                    *old(event_loop),
                    *event_loop,
                    *old(pool),
                    *pool,
                    old(outbox)@,
                    outbox@,
                ),
                event_loop.running == old(event_loop).running,
                timeouts_kept(*old(event_loop), *event_loop),
                trace_ens(*old(self), *self),
                self.trace@.len() == old(self).trace@.len() + n_spawned + k,
                forall|i: int|
                    0 <= i < n_spawned ==> ((#[trigger] self.trace@[old(self).trace@.len() + i])
                        matches Dispatch::Spawned { ctrl, .. } && ctrl == spawned@[i]),
                forall|j: int|
                    0 <= j < k ==> ((#[trigger] self.trace@[old(self).trace@.len() + n_spawned
                        + j]) matches Dispatch::Ready { ctrl, .. } && ctrl == ready@[j]),
            decreases n_ready - k,
        {
            let ctrl = CoroutineControl { co_id: ready[k].co_id, is_yielding: ready[k].is_yielding };
            let ghost ctrl_g = ctrl;
            let ghost pre_sched = self.scheduler;
            let ghost pre_trace = self.trace@;
            let action = self.scheduler.ready(ctrl);
            let ghost d = Dispatch::Ready {
                pre: pre_sched,
                ctrl: ctrl_g,
                post: self.scheduler,
                action,
            };
            self.trace = Ghost(self.trace@.push(d));
            proof {
                lemma_trace_valid_snoc(
                    pre_trace.skip(old(self).trace@.len() as int),
                    d,
                    old(self).scheduler,
                    pre_sched,
                );
                assert(self.trace@.skip(old(self).trace@.len() as int) =~= pre_trace.skip(
                    old(self).trace@.len() as int,
                ).push(d));
            }
            let rr = process_action(
                action,
                &mut self.shared,
                event_loop,
                global,
                pool,
                outbox,
                now_ms,
            );
            match rr {
                Ok(()) => {},
                Err(e) => {
                    return Err(e);
                },
            }
            k = k + 1;
        }
        Ok(())
    }

    /// Drain the spawned and ready buffers into the scheduler, repeating
    /// until a pass leaves both empty: a resumed coroutine can spawn or
    /// re-ready others, and delivering here instead of recursing bounds the
    /// stack.  `fuel` bounds the number of passes of this deterministic
    /// model.  The controls buffered when the call was made are offered
    /// first, spawned before ready, in order; later passes offer what the
    /// callbacks re-enqueued.
    pub fn deliver_to_scheduler(
        &mut self,
        event_loop: &mut EventLoop<B>,
        global: &mut HandlerThreadShared,
        pool: &mut MailboxPool,
        outbox: &mut Vec<(usize, Message<B>)>,
        now_ms: u64,
        fuel: u64,
    ) -> (r: Result<(), RunError>)
        requires
            handler_req(*old(self), *old(global), *old(event_loop), *old(pool), old(outbox)@),
        ensures
            handler_ens(
                *old(self),
                *final(self),
                *old(global),
                *final(global),
                *old(event_loop),
                *final(event_loop),
                *old(pool),
                *final(pool),
                old(outbox)@,
                final(outbox)@,
            ),
            final(event_loop).running == old(event_loop).running,
            timeouts_kept(*old(event_loop), *final(event_loop)),
            trace_ens(*old(self), *final(self)),
            r is Ok ==> final(self).shared.spawned@.len() == 0 && final(self).shared.ready@.len() == 0,
            // every control that was buffered was offered to the
            // scheduler, spawned before ready, in insertion order
            r is Ok ==> final(self).trace@.len() >= old(self).trace@.len() + old(
                self,
            ).shared.spawned@.len() + old(self).shared.ready@.len(),
            r is Ok ==> forall|i: int|
                0 <= i < old(self).shared.spawned@.len() ==> ((#[trigger] final(self).trace@[
                old(self).trace@.len() + i]) matches Dispatch::Spawned { ctrl, .. } && ctrl == old(self).shared.spawned@[i]),
            r is Ok ==> forall|j: int|
                0 <= j < old(self).shared.ready@.len() ==> ((#[trigger] final(self).trace@[
                old(self).trace@.len() + old(self).shared.spawned@.len() + j]) matches Dispatch::Ready { ctrl, .. } && ctrl == old(self).shared.ready@[j]),
    {
        let mut spawned: Vec<CoroutineControl> = Vec::new();
        let mut ready: Vec<CoroutineControl> = Vec::new();
        std::mem::swap(&mut spawned, &mut self.shared.spawned);
        std::mem::swap(&mut ready, &mut self.shared.ready);
        let r0 = self.deliver_pass(spawned, ready, event_loop, global, pool, outbox, now_ms);
        match r0 {
            Ok(()) => {},
            Err(e) => {
                return Err(e);
            },
        }
        let ghost base_len = old(self).trace@.len() as int;
        let ghost s_len = old(self).shared.spawned@.len() as int;
        let ghost r_len = old(self).shared.ready@.len() as int;
        let mut fuel = fuel;
        loop
            invariant
                handler_req(*self, *global, *event_loop, *pool, outbox@),
                handler_ens(
                    *old(self),
                    *self,
                    *old(global),
                    *global,
                    *old(event_loop),
                    *event_loop,
                    *old(pool),
                    *pool,
                    old(outbox)@,
                    outbox@,
                ),
                event_loop.running == old(event_loop).running,
                timeouts_kept(*old(event_loop), *event_loop),
                trace_ens(*old(self), *self),
                base_len == old(self).trace@.len(),
                s_len == old(self).shared.spawned@.len(),
                r_len == old(self).shared.ready@.len(),
                self.trace@.len() >= base_len + s_len + r_len,
                forall|i: int|
                    0 <= i < s_len ==> ((#[trigger] self.trace@[base_len + i]) matches
                        Dispatch::Spawned { ctrl, .. } && ctrl == old(self).shared.spawned@[i]),
                forall|j: int|
                    0 <= j < r_len ==> ((#[trigger] self.trace@[base_len + s_len + j]) matches
                        Dispatch::Ready { ctrl, .. } && ctrl == old(self).shared.ready@[j]),
            decreases fuel,
        {
            if self.shared.spawned.len() == 0 && self.shared.ready.len() == 0 {
                return Ok(());
            }
            if fuel == 0 {
                return Err(RunError::StepLimit);
            }
            fuel = fuel - 1;
            let mut spawned: Vec<CoroutineControl> = Vec::new();
            let mut ready: Vec<CoroutineControl> = Vec::new();
            std::mem::swap(&mut spawned, &mut self.shared.spawned);
            std::mem::swap(&mut ready, &mut self.shared.ready);
            let ghost h_pre = *self;
            let ghost g_pre = *global;
            let ghost el_pre = *event_loop;
            let ghost pool_pre = *pool;
            let ghost ob_pre = outbox@;
            let rr = self.deliver_pass(spawned, ready, event_loop, global, pool, outbox, now_ms);
            proof {
                lemma_trace_ens_trans(*old(self), h_pre, *self);
            }
            match rr {
                Ok(()) => {},
                Err(e) => {
                    return Err(e);
                },
            }
        }
    }

    /// Readiness arrived from the notifier: decode the token, deliver the
    /// event to the coroutine it names — silently ignoring a token whose
    /// coroutine is gone, as after a migration — and, if the coroutine
    /// woke, hand it to the scheduler.
    pub fn ready(
        &mut self,
        event_loop: &mut EventLoop<B>,
        global: &mut HandlerThreadShared,
        pool: &mut MailboxPool,
        outbox: &mut Vec<(usize, Message<B>)>,
        token: usize,
        events: RW,
        now_ms: u64,
        fuel: u64,
    ) -> (r: Result<(), RunError>)
        requires
            handler_req(*old(self), *old(global), *old(event_loop), *old(pool), old(outbox)@),
        ensures
            handler_ens(
                *old(self),
                *final(self),
                *old(global),
                *final(global),
                *old(event_loop),
                *final(event_loop),
                *old(pool),
                *final(pool),
                old(outbox)@,
                final(outbox)@,
            ),
            final(event_loop).running == old(event_loop).running,
            timeouts_kept(*old(event_loop), *final(event_loop)),
            trace_ens(*old(self), *final(self)),
            // readiness for a token whose coroutine is gone — migrated or
            // dead — is silently ignored
            (token as int / (EVENT_SOURCE_TOKEN_SPAN as int) >= old(self).shared.coroutines.slots@.len()
                || old(self).shared.coroutines.slots@[token as int / (
                EVENT_SOURCE_TOKEN_SPAN as int)] is None) ==> r is Ok && *final(self) == *old(self)
                && *final(global) == *old(global) && *final(event_loop) == *old(event_loop)
                && *final(pool) == *old(pool) && final(outbox)@ == old(outbox)@,
            // for a token naming a live coroutine, the event delivery is
            // recorded per the coroutine's event relation — and a woken
            // coroutine is offered to the scheduler at once
            (token as int / (EVENT_SOURCE_TOKEN_SPAN as int) < old(self).shared.coroutines.slots@.len()
                && old(self).shared.coroutines.slots@[token as int / (
                EVENT_SOURCE_TOKEN_SPAN as int)] is Some) ==> final(self).trace@.len() > old(
                self,
            ).trace@.len() && ((#[trigger] final(self).trace@[old(self).trace@.len() as int])
                matches Dispatch::Delivered { pre, post, src, rw, woken }
                && pre == old(self).shared.coroutines.slots@[token as int / (
                EVENT_SOURCE_TOKEN_SPAN as int)]->Some_0
                && src == crate::EventSourceId((token as int % (EVENT_SOURCE_TOKEN_SPAN as int)) as usize)
                && rw == events
                && (woken ==> final(self).trace@.len() > old(self).trace@.len() + 1
                    && ((#[trigger] final(self).trace@[old(self).trace@.len() as int + 1]) matches
                    Dispatch::Ready { ctrl, .. } && ctrl == (CoroutineControl {
                        co_id: CoroutineId((token as int / (EVENT_SOURCE_TOKEN_SPAN as int)) as usize),
                        is_yielding: false,
                    })))),
            // for a live token, the call ends with the buffers drained
            // into the scheduler (an ignored token returns untouched)
            r is Ok && token as int / (EVENT_SOURCE_TOKEN_SPAN as int) < old(self).shared.coroutines.slots@.len()
                && old(self).shared.coroutines.slots@[token as int / (
                EVENT_SOURCE_TOKEN_SPAN as int)] is Some ==> final(self).shared.spawned@.len() == 0
                && final(self).shared.ready@.len() == 0,
    {
        let (co_id, src_id) = crate::token_to_ids(token);
        let present = co_id.0 < self.shared.coroutines.slots.len() && (match &self
            .shared
            .coroutines
            .slots[co_id.0] {
            Some(_) => true,
            None => false,
        });
        if !present {
            // unknown coroutine: migrated away or dead; ignored
            return Ok(());
        }
        let ghost pre_table = self.shared.coroutines;
        let mut co = self.shared.coroutines.take(co_id);
        let ghost pre_co = co;
        let woken = co.event(src_id, events);
        let ghost parked = co;
        let ghost d_ev = Dispatch::<B, S>::Delivered {
            pre: pre_co,
            post: parked,
            src: src_id,
            rw: events,
            woken,
        };
        self.trace = Ghost(self.trace@.push(d_ev));
        proof {
            assert(old(self).trace@.skip(old(self).trace@.len() as int) =~= Seq::<
                Dispatch<B, S>,
            >::empty());
            lemma_trace_valid_snoc(
                Seq::<Dispatch<B, S>>::empty(),
                d_ev,
                old(self).scheduler,
                old(self).scheduler,
            );
            assert(self.trace@.skip(old(self).trace@.len() as int) =~= Seq::<
                Dispatch<B, S>,
            >::empty().push(d_ev));
        }
        self.shared.coroutines.put(co_id, co);
        proof {
            assert forall|i: int|
                0 <= i < self.shared.coroutines.slots@.len() && self.shared.coroutines.slots@[i]
                    is Some implies {
                let c = (#[trigger] self.shared.coroutines.slots@[i])->Some_0;
                &&& c.wf()
                &&& c.id == CoroutineId(i as usize)
                &&& c.thread_id == self.shared.thread_id
                &&& c.body is Some
                &&& c.children@.len() == 0
                &&& !(c.state is Running)
                &&& !(c.state is Finished)
                &&& c.notifs_valid(*pool)
            } by {
                if i == co_id.0 {
                    assert(self.shared.coroutines.slots@[i] == Some(parked));
                    assert(parked.notifs_valid(*pool));
                } else {
                    assert(self.shared.coroutines.slots@[i] == pre_table.slots@[i]);
                }
            }
        }
        if woken {
            let ctrl = CoroutineControl::new(co_id);
            let ghost ctrl_g = ctrl;
            let ghost pre_sched = self.scheduler;
            let ghost pre_trace = self.trace@;
            let action = self.scheduler.ready(ctrl);
            let ghost d_of = Dispatch::Ready {
                pre: pre_sched,
                ctrl: ctrl_g,
                post: self.scheduler,
                action,
            };
            self.trace = Ghost(self.trace@.push(d_of));
            proof {
                lemma_trace_valid_snoc(
                    pre_trace.skip(old(self).trace@.len() as int),
                    d_of,
                    old(self).scheduler,
                    pre_sched,
                );
                assert(self.trace@.skip(old(self).trace@.len() as int) =~= pre_trace.skip(
                    old(self).trace@.len() as int,
                ).push(d_of));
            }
            let rr = process_action(
                action,
                &mut self.shared,
                event_loop,
                global,
                pool,
                outbox,
                now_ms,
            );
            match rr {
                Ok(()) => {},
                Err(e) => {
                    return Err(e);
                },
            }
        }
        let ghost h_mid = *self;
        let r_del = self.deliver_to_scheduler(event_loop, global, pool, outbox, now_ms, fuel);
        proof {
            lemma_trace_ens_trans(*old(self), h_mid, *self);
        }
        r_del
    }

    /// A one-shot timer fired: deliver read readiness for its token.
    pub fn timeout(
        &mut self,
        event_loop: &mut EventLoop<B>,
        global: &mut HandlerThreadShared,
        pool: &mut MailboxPool,
        outbox: &mut Vec<(usize, Message<B>)>,
        token: usize,
        now_ms: u64,
        fuel: u64,
    ) -> (r: Result<(), RunError>)
        requires
            handler_req(*old(self), *old(global), *old(event_loop), *old(pool), old(outbox)@),
        ensures
            handler_ens(
                *old(self),
                *final(self),
                *old(global),
                *final(global),
                *old(event_loop),
                *final(event_loop),
                *old(pool),
                *final(pool),
                old(outbox)@,
                final(outbox)@,
            ),
            final(event_loop).running == old(event_loop).running,
            timeouts_kept(*old(event_loop), *final(event_loop)),
            trace_ens(*old(self), *final(self)),
            // a timer firing is exactly read-readiness for its token
            (token as int / (EVENT_SOURCE_TOKEN_SPAN as int) >= old(self).shared.coroutines.slots@.len()
                || old(self).shared.coroutines.slots@[token as int / (
                EVENT_SOURCE_TOKEN_SPAN as int)] is None) ==> r is Ok && *final(self) == *old(self)
                && *final(global) == *old(global) && *final(event_loop) == *old(event_loop)
                && *final(pool) == *old(pool) && final(outbox)@ == old(outbox)@,
            (token as int / (EVENT_SOURCE_TOKEN_SPAN as int) < old(self).shared.coroutines.slots@.len()
                && old(self).shared.coroutines.slots@[token as int / (
                EVENT_SOURCE_TOKEN_SPAN as int)] is Some) ==> final(self).trace@.len() > old(self).trace@.len() && ((#[trigger] final(self).trace@[old(self).trace@.len() as int])
                matches Dispatch::Delivered { pre, post, src, rw, woken }
                && pre == old(self).shared.coroutines.slots@[token as int / (
                EVENT_SOURCE_TOKEN_SPAN as int)]->Some_0
                && src == crate::EventSourceId((token as int % (EVENT_SOURCE_TOKEN_SPAN as int)) as usize)
                && rw == (RW { read: true, write: false })),
            r is Ok && token as int / (EVENT_SOURCE_TOKEN_SPAN as int) < old(self).shared.coroutines.slots@.len()
                && old(self).shared.coroutines.slots@[token as int / (
                EVENT_SOURCE_TOKEN_SPAN as int)] is Some ==> final(self).shared.spawned@.len() == 0
                && final(self).shared.ready@.len() == 0,
    {
        self.ready(event_loop, global, pool, outbox, token, RW::read(), now_ms, fuel)
    }

    /// An inter-thread message arrived.
    pub fn notify(
        &mut self,
        event_loop: &mut EventLoop<B>,
        global: &mut HandlerThreadShared,
        pool: &mut MailboxPool,
        outbox: &mut Vec<(usize, Message<B>)>,
        msg: Message<B>,
        now_ms: u64,
        fuel: u64,
    ) -> (r: Result<(), RunError>)
        requires
            handler_req(*old(self), *old(global), *old(event_loop), *old(pool), old(outbox)@),
            message_wf(msg, *old(pool)),
            msg is Migration ==> old(global).coroutines_num >= old(self).shared.coroutines.live() + count_migrations(old(event_loop).queue@) + 1,
        ensures
            r is Ok ==> handler_ens(
                *old(self),
                *final(self),
                *old(global),
                *final(global),
                *old(event_loop),
                *final(event_loop),
                *old(pool),
                *final(pool),
                old(outbox)@,
                final(outbox)@,
            ) || (msg is Migration && books_balanced::<B>(
                old(self).shared.coroutines.live() + 1,
                final(self).shared.coroutines.live(),
                old(global).coroutines_num as nat,
                final(global).coroutines_num as nat,
                count_migrations(old(event_loop).queue@) + count_outbox_migrations(old(outbox)@),
                count_migrations(final(event_loop).queue@) + count_outbox_migrations(
                    final(outbox)@,
                ),
            )),
            final(self).shared.wf(),
            final(self).shared.coroutines.notifs_valid(*final(pool)),
            final(self).scheduler.inv(),
            final(self).shared.thread_id == old(self).shared.thread_id,
            final(self).shared.stack_size == old(self).shared.stack_size,
            final(global).thread_num == old(global).thread_num,
            final(global).mioco_started == old(global).mioco_started,
            final(pool).boxes@.len() >= old(pool).boxes@.len(),
            final(event_loop).notify_capacity == old(event_loop).notify_capacity,
            final(event_loop).timer_tick_ms == old(event_loop).timer_tick_ms,
            msgs_wf(final(event_loop).queue@, *final(pool)),
            outbox_wf(final(outbox)@, *final(pool)),
            final(outbox)@.len() >= old(outbox)@.len(),
            count_outbox_migrations(final(outbox)@) >= count_outbox_migrations(old(outbox)@),
            old(global).coroutines_num == 0 ==> final(global).coroutines_num == 0,
            final(global).coroutines_num >= final(self).shared.coroutines.live() + count_migrations(final(event_loop).queue@),
            final(event_loop).running == old(event_loop).running,
            r is Ok && msg is Migration ==> books_balanced::<B>(
                old(self).shared.coroutines.live() + 1,
                final(self).shared.coroutines.live(),
                old(global).coroutines_num as nat,
                final(global).coroutines_num as nat,
                count_migrations(old(event_loop).queue@) + count_outbox_migrations(old(outbox)@),
                count_migrations(final(event_loop).queue@) + count_outbox_migrations(
                    final(outbox)@,
                ),
            ),
            r is Ok && !(msg is Migration) ==> books_balanced::<B>(
                old(self).shared.coroutines.live(),
                final(self).shared.coroutines.live(),
                old(global).coroutines_num as nat,
                final(global).coroutines_num as nat,
                count_migrations(old(event_loop).queue@) + count_outbox_migrations(old(outbox)@),
                count_migrations(final(event_loop).queue@) + count_outbox_migrations(
                    final(outbox)@,
                ),
            ),
            r is Ok && msg is Migration ==> final(global).coroutines_num >= final(self).shared.coroutines.live() + count_migrations(final(event_loop).queue@),
            r is Ok && !(msg is Migration) ==> final(global).coroutines_num >= final(self).shared.coroutines.live() + count_migrations(final(event_loop).queue@),
            // a propagated panic re-raises on arrival, collapsing the run
            // with nothing else done
            timeouts_kept(*old(event_loop), *final(event_loop)),
            trace_ens(*old(self), *final(self)),
            // a mailbox wakeup has exactly the effect of read-readiness
            // for its token
            msg matches Message::MailboxMsg(token) ==> ((token as int / (
            EVENT_SOURCE_TOKEN_SPAN as int) >= old(self).shared.coroutines.slots@.len() || old(
                self,
            ).shared.coroutines.slots@[token as int / (EVENT_SOURCE_TOKEN_SPAN as int)] is None)
                ==> r is Ok && *final(self) == *old(self) && *final(global) == *old(global)
                && *final(event_loop) == *old(event_loop) && *final(pool) == *old(pool)
                && final(outbox)@ == old(outbox)@),
            msg matches Message::MailboxMsg(token) ==> ((token as int / (
            EVENT_SOURCE_TOKEN_SPAN as int) < old(self).shared.coroutines.slots@.len() && old(
                self,
            ).shared.coroutines.slots@[token as int / (EVENT_SOURCE_TOKEN_SPAN as int)] is Some)
                ==> final(self).trace@.len() > old(self).trace@.len() && ((
            #[trigger] final(self).trace@[old(self).trace@.len() as int]) matches
                Dispatch::Delivered { pre, src, rw, .. }
                && pre == old(self).shared.coroutines.slots@[token as int / (
                EVENT_SOURCE_TOKEN_SPAN as int)]->Some_0
                && src == crate::EventSourceId((token as int % (EVENT_SOURCE_TOKEN_SPAN as int)) as usize)
                && rw == (RW { read: true, write: false }))),
            // an arriving migration is reattached and offered to the
            // scheduler as a non-yielding ready control
            msg is Migration ==> (r is Ok ==> final(self).trace@.len() > old(self).trace@.len()
                && ((#[trigger] final(self).trace@[old(self).trace@.len() as int]) matches
                Dispatch::Ready { ctrl, .. } && !ctrl.is_yielding)),
            msg is PropagatePanic ==> r == Err::<(), RunError>(RunError::PropagatedPanic)
                && *final(self) == *old(self) && *final(global) == *old(global) && *final(event_loop) == *old(event_loop) && *final(pool) == *old(pool) && final(outbox)@ == old(outbox)@,
    {
        match msg {
            Message::MailboxMsg(token) => {
                self.ready(event_loop, global, pool, outbox, token, RW::read(), now_ms, fuel)
            },
            Message::Migration(co) => {
                let rr = reattach_to(co, &mut self.shared, Ghost(*pool));
                let ctrl = match rr {
                    Ok(ctrl) => ctrl,
                    Err(e) => {
                        proof {
                            lemma_trace_ens_refl(*self);
                        }
                        return Err(e);
                    },
                };
                let ghost ctrl_g = ctrl;
                let ghost pre_sched = self.scheduler;
                let action = self.scheduler.ready(ctrl);
                let ghost d_of = Dispatch::Ready {
                    pre: pre_sched,
                    ctrl: ctrl_g,
                    post: self.scheduler,
                    action,
                };
                self.trace = Ghost(self.trace@.push(d_of));
                proof {
                    assert(old(self).trace@.skip(old(self).trace@.len() as int) =~= Seq::<
                        Dispatch<B, S>,
                    >::empty());
                    lemma_trace_valid_snoc(
                        Seq::<Dispatch<B, S>>::empty(),
                        d_of,
                        old(self).scheduler,
                        pre_sched,
                    );
                    assert(self.trace@.skip(old(self).trace@.len() as int) =~= Seq::<
                        Dispatch<B, S>,
                    >::empty().push(d_of));
                }
                let r2 = process_action(
                    action,
                    &mut self.shared,
                    event_loop,
                    global,
                    pool,
                    outbox,
                    now_ms,
                );
                match r2 {
                    Ok(()) => {},
                    Err(e) => {
                        return Err(e);
                    },
                }
                let ghost h_mid = *self;
                let r_del = self.deliver_to_scheduler(
                    event_loop,
                    global,
                    pool,
                    outbox,
                    now_ms,
                    fuel,
                );
                proof {
                    lemma_trace_ens_trans(*old(self), h_mid, *self);
                }
                r_del
            },
            Message::PropagatePanic => {
                proof {
                    lemma_trace_ens_refl(*self);
                }
                Err(RunError::PropagatedPanic)
            },
        }
    }

    /// A notifier batch ended.  Shut the loop down when no coroutine is
    /// left anywhere, give the scheduler its tick — resuming, in order,
    /// what it defers to batch ends — and deliver what accumulated.
    pub fn tick(
        &mut self,
        event_loop: &mut EventLoop<B>,
        global: &mut HandlerThreadShared,
        pool: &mut MailboxPool,
        outbox: &mut Vec<(usize, Message<B>)>,
        now_ms: u64,
        fuel: u64,
    ) -> (r: Result<(), RunError>)
        requires
            handler_req(*old(self), *old(global), *old(event_loop), *old(pool), old(outbox)@),
        ensures
            handler_ens(
                *old(self),
                *final(self),
                *old(global),
                *final(global),
                *old(event_loop),
                *final(event_loop),
                *old(pool),
                *final(pool),
                old(outbox)@,
                final(outbox)@,
            ),
            // shutdown consensus: a batch that sees no coroutine left
            // anywhere stops this thread's notifier — and only such a
            // batch stops it
            old(global).coroutines_num == 0 ==> !final(event_loop).running,
            old(event_loop).running && !final(event_loop).running ==> final(global).coroutines_num == 0,
            timeouts_kept(*old(event_loop), *final(event_loop)),
            trace_ens(*old(self), *final(self)),
            // the scheduler got its tick — the recorded call pins, per its
            // tick contract, the deferred batch that was handed back to be
            // resumed — and the buffers are drained before returning
            final(self).trace@.len() > old(self).trace@.len() && ((
            #[trigger] final(self).trace@[old(self).trace@.len() as int]) matches Dispatch::Tick {
                pre,
                ..
            } && pre == old(self).scheduler),
            // every coroutine of the batch the scheduler handed back was
            // resumed, in order
            r is Ok ==> ((#[trigger] final(self).trace@[old(self).trace@.len() as int]) matches
                Dispatch::Tick { run, .. } && final(self).trace@.len() > old(self).trace@.len()
                + run.len() && (forall|j: int|
                0 <= j < run.len() ==> ((#[trigger] final(self).trace@[old(self).trace@.len() + 1
                    + j]) matches Dispatch::Resumed { ctrl } && ctrl == run[j]))),
            r is Ok ==> final(self).shared.spawned@.len() == 0 && final(self).shared.ready@.len() == 0,
    {
        let coroutines_num = self.shared.coroutines_num(global);
        if coroutines_num == 0 {
            event_loop.shutdown();
        }
        let ghost running_now = event_loop.running;
        let ghost num_now = global.coroutines_num;
        let ghost pre_sched = self.scheduler;
        let run = self.scheduler.tick();
        let ghost d_tick = Dispatch::<B, S>::Tick { pre: pre_sched, post: self.scheduler, run: run@ };
        self.trace = Ghost(self.trace@.push(d_tick));
        proof {
            assert(old(self).trace@.skip(old(self).trace@.len() as int) =~= Seq::<
                Dispatch<B, S>,
            >::empty());
            lemma_trace_valid_snoc(
                Seq::<Dispatch<B, S>>::empty(),
                d_tick,
                old(self).scheduler,
                old(self).scheduler,
            );
            assert(self.trace@.skip(old(self).trace@.len() as int) =~= Seq::<
                Dispatch<B, S>,
            >::empty().push(d_tick));
        }
        let n = run.len();
        let mut k: usize = 0;
        while k < n
            invariant
                k <= n,
                n == run@.len(),
                handler_req(*self, *global, *event_loop, *pool, outbox@),
                handler_ens(
                    *old(self),
                    *self,
                    *old(global),
                    *global,
                    *old(event_loop),
                    *event_loop,
                    *old(pool),
                    *pool,
                    old(outbox)@,
                    outbox@,
                ),
                event_loop.running == running_now,
                timeouts_kept(*old(event_loop), *event_loop),
                old(global).coroutines_num == 0 ==> !event_loop.running,
                num_now == 0 ==> global.coroutines_num == 0,
                old(event_loop).running && !running_now ==> num_now == 0,
                trace_ens(*old(self), *self),
                self.trace@.len() == old(self).trace@.len() + 1 + k,
                (#[trigger] self.trace@[old(self).trace@.len() as int]) matches Dispatch::Tick {
                    pre,
                    run: r0,
                    ..
                } && pre == old(self).scheduler && r0 == run@,
                forall|j: int|
                    0 <= j < k ==> ((#[trigger] self.trace@[old(self).trace@.len() + 1 + j])
                        matches Dispatch::Resumed { ctrl } && ctrl == run@[j]),
            decreases n - k,
        {
            let ctrl = CoroutineControl { co_id: run[k].co_id, is_yielding: run[k].is_yielding };
            let ghost ctrl_g = ctrl;
            let ghost pre_trace = self.trace@;
            let ghost d_res = Dispatch::<B, S>::Resumed { ctrl: ctrl_g };
            self.trace = Ghost(self.trace@.push(d_res));
            proof {
                lemma_trace_valid_snoc(
                    pre_trace.skip(old(self).trace@.len() as int),
                    d_res,
                    old(self).scheduler,
                    self.scheduler,
                );
                assert(self.trace@.skip(old(self).trace@.len() as int) =~= pre_trace.skip(
                    old(self).trace@.len() as int,
                ).push(d_res));
            }
            let rr = process_action(
                SchedAction::Resumed(ctrl),
                &mut self.shared,
                event_loop,
                global,
                pool,
                outbox,
                now_ms,
            );
            match rr {
                Ok(()) => {},
                Err(e) => {
                    return Err(e);
                },
            }
            k = k + 1;
        }
        let ghost h_mid = *self;
        let r = self.deliver_to_scheduler(event_loop, global, pool, outbox, now_ms, fuel);
        proof {
            lemma_trace_ens_trans(*old(self), h_mid, *self);
        }
        r
    }
}


/// One blocking wait of the notifier, at the model's explicit clock: take
/// in the inter-thread messages that had arrived, fire the one-shot timers
/// that are due at `now_ms`, and end the batch with a tick.  A native
/// notifier sleeps here until something happens or a cap of about a second
/// passes; the caller advances the clock instead.
pub fn run_once<B: CoroutineBody, S: SchedulerThread>(
    handler: &mut Handler<B, S>,
    event_loop: &mut EventLoop<B>,
    global: &mut HandlerThreadShared,
    pool: &mut MailboxPool,
    outbox: &mut Vec<(usize, Message<B>)>,
    now_ms: u64,
    fuel: u64,
) -> (r: Result<(), RunError>)
    requires
        handler_req(*old(handler), *old(global), *old(event_loop), *old(pool), old(outbox)@),
    ensures
        handler_frame(
            *old(handler),
            *final(handler),
            *old(global),
            *final(global),
            *old(event_loop),
            *final(event_loop),
            *old(pool),
            *final(pool),
            old(outbox)@,
            final(outbox)@,
        ),
        r is Ok ==> handler_ens(
            *old(handler),
            *final(handler),
            *old(global),
            *final(global),
            *old(event_loop),
            *final(event_loop),
            *old(pool),
            *final(pool),
            old(outbox)@,
            final(outbox)@,
        ),
        // shutdown: a batch begun with no coroutine left anywhere leaves
        // none and stops this thread's notifier
        r is Ok && old(global).coroutines_num == 0 ==> !final(event_loop).running && final(global).coroutines_num == 0,
        r is Ok && old(event_loop).running && !final(event_loop).running ==> final(global).coroutines_num == 0,
        trace_ens(*old(handler), *final(handler)),
        // timers never fire early: a registration not yet due is still
        // pending when the batch ends
        r is Ok ==> forall|i: int|
            0 <= i < old(event_loop).timeouts@.len() && (#[trigger] old(
                event_loop,
            ).timeouts@[i]).1 > now_ms ==> final(event_loop).timeouts@.contains(
                old(event_loop).timeouts@[i],
            ),
{
    proof {
        lemma_trace_ens_refl(*handler);
    }
    // deliver the messages that had arrived before this batch; ones posted
    // during it wait for the next
    let n_msgs = event_loop.queue.len();
    let mut k: usize = 0;
    while k < n_msgs
        invariant
            k <= n_msgs,
            handler_req(*handler, *global, *event_loop, *pool, outbox@),
            handler_ens(
                *old(handler),
                *handler,
                *old(global),
                *global,
                *old(event_loop),
                *event_loop,
                *old(pool),
                *pool,
                old(outbox)@,
                outbox@,
            ),
            event_loop.running == old(event_loop).running,
            timeouts_kept(*old(event_loop), *event_loop),
            trace_ens(*old(handler), *handler),
        decreases n_msgs - k,
    {
        let ghost h_pre = *handler;
        let ghost pre_queue = event_loop.queue@;
        let msg = match event_loop.queue.pop_front() {
            Some(m) => m,
            None => {
                break ;
            },
        };
        proof {
            lemma_count_migrations_pop(pre_queue);
            assert(event_loop.queue@ =~= pre_queue.drop_first());
            assert(message_wf(msg, *pool));
            assert forall|i: int| 0 <= i < event_loop.queue@.len() implies message_wf(
                #[trigger] event_loop.queue@[i],
                *pool,
            ) by {
                assert(event_loop.queue@[i] == pre_queue[i + 1]);
            }
        }
        let rr = handler.notify(event_loop, global, pool, outbox, msg, now_ms, fuel);
        proof {
            lemma_trace_ens_trans(*old(handler), h_pre, *handler);
        }
        match rr {
            Ok(()) => {},
            Err(e) => {
                return Err(e);
            },
        }
        k = k + 1;
    }
    // fire the timers that are due
    let mut pending: Vec<(usize, u64)> = Vec::new();
    std::mem::swap(&mut pending, &mut event_loop.timeouts);
    let ghost pending0 = pending@;
    let mut kept: Vec<(usize, u64)> = Vec::new();
    let n_timers = pending.len();
    let mut k: usize = 0;
    while k < n_timers
        invariant
            k <= n_timers,
            n_timers == pending@.len(),
            pending@ == pending0,
            forall|i: int|
                0 <= i < k && (#[trigger] pending0[i]).1 > now_ms ==> kept@.contains(pending0[i]),
            handler_req(*handler, *global, *event_loop, *pool, outbox@),
            handler_ens(
                *old(handler),
                *handler,
                *old(global),
                *global,
                *old(event_loop),
                *event_loop,
                *old(pool),
                *pool,
                old(outbox)@,
                outbox@,
            ),
            event_loop.running == old(event_loop).running,
            trace_ens(*old(handler), *handler),
        decreases n_timers - k,
    {
        let (token, at) = pending[k];
        if at <= now_ms {
            let ghost h_pre = *handler;
            let rr = handler.timeout(event_loop, global, pool, outbox, token, now_ms, fuel);
            proof {
                lemma_trace_ens_trans(*old(handler), h_pre, *handler);
            }
            match rr {
                Ok(()) => {},
                Err(e) => {
                    return Err(e);
                },
            }
        } else {
            let ghost pre_kept = kept@;
            kept.push((token, at));
            proof {
                assert(kept@[pre_kept.len() as int] == (token, at));
                assert forall|i: int|
                    0 <= i < k + 1 && (#[trigger] pending0[i]).1 > now_ms implies kept@.contains(
                    pending0[i],
                ) by {
                    if i < k {
                        let w = choose|w: int| 0 <= w < pre_kept.len() && pre_kept[w] == pending0[i];
                        assert(kept@[w] == pending0[i]);
                    } else {
                        assert(kept@[pre_kept.len() as int] == pending0[i]);
                    }
                }
            }
        }
        k = k + 1;
    }
    let ghost appended = event_loop.timeouts@;
    let ghost kept0 = kept@;
    event_loop.timeouts.append(&mut kept);
    proof {
        assert forall|i: int|
            0 <= i < old(event_loop).timeouts@.len() && (#[trigger] old(
                event_loop,
            ).timeouts@[i]).1 > now_ms implies event_loop.timeouts@.contains(
            old(event_loop).timeouts@[i],
        ) by {
            assert(pending0[i] == old(event_loop).timeouts@[i]);
            let w = choose|w: int| 0 <= w < kept0.len() && kept0[w] == pending0[i];
            assert(event_loop.timeouts@[appended.len() + w] == pending0[i]);
        }
    }
    let ghost el_mid = *event_loop;
    let ghost h_mid = *handler;
    let r_tick = handler.tick(event_loop, global, pool, outbox, now_ms, fuel);
    proof {
        lemma_trace_ens_trans(*old(handler), h_mid, *handler);
        assert forall|i: int|
            0 <= i < old(event_loop).timeouts@.len() && (#[trigger] old(
                event_loop,
            ).timeouts@[i]).1 > now_ms implies event_loop.timeouts@.contains(
            old(event_loop).timeouts@[i],
        ) by {
            let w = choose|w: int|
                0 <= w < el_mid.timeouts@.len() && el_mid.timeouts@[w] == old(
                    event_loop,
                ).timeouts@[i];
            assert(event_loop.timeouts@[w] == old(event_loop).timeouts@[i]);
        }
    }
    r_tick
}


/// Taking the front routed message removes its migration count.
pub proof fn lemma_count_outbox_migrations_pop<B>(q: Seq<(usize, Message<B>)>)
    requires
        q.len() > 0,
    ensures
        count_outbox_migrations(q) == count_outbox_migrations(q.drop_first()) + (if q.first().1
            is Migration {
            1nat
        } else {
            0nat
        }),
    decreases q.len(),
{
    if q.len() == 1 {
        assert(q.drop_first() =~= Seq::<(usize, Message<B>)>::empty());
        assert(q.first() == q.last());
        assert(count_outbox_migrations(q.drop_first()) == 0);
        assert(count_outbox_migrations(q.drop_last()) == 0);
    } else {
        lemma_count_outbox_migrations_pop(q.drop_last());
        assert(q.drop_last().drop_first() =~= q.drop_first().drop_last());
        assert(q.drop_last().first() == q.first());
        assert(q.drop_first().last() == q.last());
        assert(q.drop_first().len() > 0);
        assert(count_outbox_migrations(q.drop_first()) == count_outbox_migrations(
            q.drop_first().drop_last(),
        ) + (if q.drop_first().last().1 is Migration {
            1nat
        } else {
            0nat
        }));
    }
}

/// Live coroutines in the tables of all threads, plus those in flight in
/// their inbound queues.
pub open spec fn threads_ledger<B, S: SchedulerThread>(
    hs: Seq<Handler<B, S>>,
    els: Seq<EventLoop<B>>,
) -> nat
    decreases hs.len(),
{
    if hs.len() == 0 || els.len() == 0 {
        0
    } else {
        threads_ledger(hs.drop_last(), els.drop_last())
            + hs.last().shared.coroutines.live() + count_migrations(els.last().queue@)
    }
}

/// Replacing one thread's state changes the ledger by that thread's
/// difference.
pub proof fn lemma_threads_ledger_update<B, S: SchedulerThread>(
    hs: Seq<Handler<B, S>>,
    els: Seq<EventLoop<B>>,
    t: int,
    h2: Handler<B, S>,
    e2: EventLoop<B>,
)
    requires
        hs.len() == els.len(),
        0 <= t < hs.len(),
    ensures
        threads_ledger(hs.update(t, h2), els.update(t, e2)) + hs[t].shared.coroutines.live()
            + count_migrations(els[t].queue@) == threads_ledger(hs, els)
            + h2.shared.coroutines.live() + count_migrations(e2.queue@),
    decreases hs.len(),
{
    let hs2 = hs.update(t, h2);
    let els2 = els.update(t, e2);
    if t == hs.len() - 1 {
        assert(hs2.drop_last() =~= hs.drop_last());
        assert(els2.drop_last() =~= els.drop_last());
    } else {
        assert(hs2.drop_last() =~= hs.drop_last().update(t, h2));
        assert(els2.drop_last() =~= els.drop_last().update(t, e2));
        assert(hs2.last() == hs.last());
        assert(els2.last() == els.last());
        lemma_threads_ledger_update(hs.drop_last(), els.drop_last(), t, h2, e2);
    }
}

/// The ledger dominates each single thread's share.
pub proof fn lemma_threads_ledger_component<B, S: SchedulerThread>(
    hs: Seq<Handler<B, S>>,
    els: Seq<EventLoop<B>>,
    t: int,
)
    requires
        hs.len() == els.len(),
        0 <= t < hs.len(),
    ensures
        threads_ledger(hs, els) >= hs[t].shared.coroutines.live() + count_migrations(
            els[t].queue@,
        ),
    decreases hs.len(),
{
    if t == hs.len() - 1 {
    } else {
        lemma_threads_ledger_component(hs.drop_last(), els.drop_last(), t);
    }
}

/// Appending a thread adds its share to the ledger.
pub proof fn lemma_threads_ledger_push<B, S: SchedulerThread>(
    hs: Seq<Handler<B, S>>,
    els: Seq<EventLoop<B>>,
    h: Handler<B, S>,
    e: EventLoop<B>,
)
    requires
        hs.len() == els.len(),
    ensures
        threads_ledger(hs.push(h), els.push(e)) == threads_ledger(hs, els)
            + h.shared.coroutines.live() + count_migrations(e.queue@),
{
    assert(hs.push(h).drop_last() =~= hs);
    assert(els.push(e).drop_last() =~= els);
}

/// A mutable borrow of one vector element.
pub(crate) fn vec_at_mut<T>(v: &mut Vec<T>, i: usize) -> (element: &mut T)
    requires
        i < old(v)@.len(),
    ensures
        *element == old(v)@[i as int],
        final(v)@ == old(v)@.update(i as int, *final(element)),
{
    &mut v[i]
}

/// The invariant of a whole running instance.  Its last clause is the
/// global liveness count: at every step boundary, the live coroutines in
/// all tables plus those in flight between threads equal the shared
/// counter — and each table holds only coroutines homed on its own thread.
pub open spec fn mioco_inv<B, S: SchedulerThread>(
    hs: Seq<Handler<B, S>>,
    els: Seq<EventLoop<B>>,
    g: HandlerThreadShared,
    pool: MailboxPool,
) -> bool {
    &&& hs.len() == els.len()
    &&& hs.len() >= 1
    &&& g.thread_num >= 1
    &&& forall|t: int|
        0 <= t < hs.len() ==> {
            &&& (#[trigger] hs[t]).shared.wf()
            &&& hs[t].shared.coroutines.notifs_valid(pool)
            &&& hs[t].scheduler.inv()
            &&& hs[t].shared.thread_id == t
            &&& msgs_wf(els[t].queue@, pool)
        }
    &&& g.coroutines_num == threads_ledger(hs, els)
}

/// Single-thread ownership: under the instance invariant, a coroutine
/// parked in a thread's table is homed on exactly that thread and keyed by
/// exactly its own slot — so the table of one thread, and no other, refers
/// to it.
pub proof fn lemma_single_thread_ownership<B, S: SchedulerThread>(
    hs: Seq<Handler<B, S>>,
    els: Seq<EventLoop<B>>,
    g: HandlerThreadShared,
    pool: MailboxPool,
    t: int,
    i: int,
)
    requires
        mioco_inv(hs, els, g, pool),
        0 <= t < hs.len(),
        0 <= i < hs[t].shared.coroutines.slots@.len(),
        hs[t].shared.coroutines.slots@[i] is Some,
    ensures
        hs[t].shared.coroutines.slots@[i]->Some_0.thread_id == t,
        hs[t].shared.coroutines.slots@[i]->Some_0.id == CoroutineId(i as usize),
{
}

/// Run one thread's notifier for one batch and route the messages it
/// produced to their destination threads.  Preserves the instance
/// invariant — the global liveness count among it.
pub fn step_thread<B: CoroutineBody, S: SchedulerThread>(
    handlers: &mut Vec<Handler<B, S>>,
    loops: &mut Vec<EventLoop<B>>,
    global: &mut HandlerThreadShared,
    pool: &mut MailboxPool,
    t: usize,
    now_ms: u64,
    fuel: u64,
) -> (r: Result<(), RunError>)
    requires
        mioco_inv(old(handlers)@, old(loops)@, *old(global), *old(pool)),
        t < old(handlers)@.len(),
    ensures
        r is Ok ==> mioco_inv(final(handlers)@, final(loops)@, *final(global), *final(pool)),
        final(handlers)@.len() == old(handlers)@.len(),
        final(loops)@.len() == old(loops)@.len(),
        final(global).thread_num == old(global).thread_num,
        final(global).mioco_started == old(global).mioco_started,
        final(pool).boxes@.len() >= old(pool).boxes@.len(),
        forall|u: int|
            0 <= u < old(loops)@.len() ==> ((#[trigger] final(loops)@[u]).running ==> old(loops)@[u].running),
        forall|u: int|
            0 <= u < old(loops)@.len() && u != t ==> (#[trigger] final(loops)@[u]).running == old(loops)@[u].running,
        forall|u: int|
            0 <= u < old(loops)@.len() ==> (#[trigger] final(loops)@[u]).notify_capacity == old(loops)@[u].notify_capacity && final(loops)@[u].timer_tick_ms == old(loops)@[u].timer_tick_ms,
        r is Ok && old(global).coroutines_num == 0 ==> !final(loops)@[t as int].running && final(global).coroutines_num == 0,
        // a notifier that stopped during this step saw the count at zero,
        // and it stays there
        r is Ok && old(loops)@[t as int].running && !final(loops)@[t as int].running
            ==> final(global).coroutines_num == 0,
{
    let ghost hs0 = handlers@;
    let ghost els0 = loops@;
    let ghost g0 = *global;
    let ghost pool0 = *pool;
    let mut outbox: Vec<(usize, Message<B>)> = Vec::new();
    proof {
        lemma_threads_ledger_component(hs0, els0, t as int);
    }
    let h = vec_at_mut(handlers, t);
    let el = vec_at_mut(loops, t);
    let rr = run_once(h, el, global, pool, &mut outbox, now_ms, fuel);
    proof {
        lemma_threads_ledger_update(hs0, els0, t as int, handlers@[t as int], loops@[t as int]);
        assert(handlers@ =~= hs0.update(t as int, handlers@[t as int]));
        assert(loops@ =~= els0.update(t as int, loops@[t as int]));
        assert forall|u: int|
            0 <= u < handlers@.len() && u != t implies (#[trigger] handlers@[u]) == hs0[u]
            && loops@[u] == els0[u] by {}
    }
    match rr {
        Ok(()) => {},
        Err(e) => {
            return Err(e);
        },
    }
    let ghost num1 = global.coroutines_num;
    let ghost running1 = loops@[t as int].running;
    proof {
        assert forall|u: int|
            0 <= u < handlers@.len() implies {
            &&& (#[trigger] handlers@[u]).shared.wf()
            &&& handlers@[u].shared.coroutines.notifs_valid(*pool)
            &&& handlers@[u].scheduler.inv()
            &&& handlers@[u].shared.thread_id == u
            &&& msgs_wf(loops@[u].queue@, *pool)
        } by {
            if u == t {
            } else {
                assert(handlers@[u] == hs0[u]);
                assert(loops@[u] == els0[u]);
                assert forall|i: int|
                    0 <= i < handlers@[u].shared.coroutines.slots@.len()
                        && handlers@[u].shared.coroutines.slots@[i] is Some implies (
                    #[trigger] handlers@[u].shared.coroutines.slots@[i])->Some_0.notifs_valid(
                    *pool,
                ) by {
                    lemma_co_notifs_grow(
                        handlers@[u].shared.coroutines.slots@[i]->Some_0,
                        pool0,
                        *pool,
                    );
                }
                lemma_msgs_wf_grow_all(els0[u].queue@, pool0, *pool);
            }
        }
    }
    // route what this batch sent to the other threads
    while outbox.len() > 0
        invariant
            handlers@.len() == loops@.len(),
            handlers@.len() >= 1,
            global.thread_num >= 1,
            forall|u: int|
                0 <= u < handlers@.len() ==> {
                    &&& (#[trigger] handlers@[u]).shared.wf()
                    &&& handlers@[u].shared.coroutines.notifs_valid(*pool)
                    &&& handlers@[u].scheduler.inv()
                    &&& handlers@[u].shared.thread_id == u
                    &&& msgs_wf(loops@[u].queue@, *pool)
                },
            global.coroutines_num == threads_ledger(handlers@, loops@)
                + count_outbox_migrations(outbox@),
            outbox_wf(outbox@, *pool),
            handlers@.len() == old(handlers)@.len(),
            loops@.len() == old(loops)@.len(),
            global.thread_num == old(global).thread_num,
            global.mioco_started == old(global).mioco_started,
            pool.boxes@.len() >= old(pool).boxes@.len(),
            t < loops@.len(),
            forall|u: int|
                0 <= u < loops@.len() ==> ((#[trigger] loops@[u]).running ==> old(loops)@[u].running),
            forall|u: int|
                0 <= u < loops@.len() && u != t ==> (#[trigger] loops@[u]).running == old(loops)@[u].running,
            forall|u: int|
                0 <= u < loops@.len() ==> (#[trigger] loops@[u]).notify_capacity == old(loops)@[u].notify_capacity && loops@[u].timer_tick_ms == old(loops)@[u].timer_tick_ms,
            old(global).coroutines_num == 0 ==> !loops@[t as int].running
                && global.coroutines_num == 0,
            global.coroutines_num == num1,
            loops@[t as int].running == running1,
            old(loops)@[t as int].running && !running1 ==> num1 == 0,
        decreases outbox@.len(),
    {
        let ghost pre_outbox = outbox@;
        let (tid, msg) = outbox.remove(0);
        proof {
            lemma_count_outbox_migrations_pop(pre_outbox);
            assert(outbox@ =~= pre_outbox.drop_first());
            assert(message_wf(msg, *pool));
            assert forall|i: int| 0 <= i < outbox@.len() implies message_wf(
                (#[trigger] outbox@[i]).1,
                *pool,
            ) by {
                assert(outbox@[i] == pre_outbox[i + 1]);
            }
        }
        if tid >= loops.len() {
            return Err(RunError::SchedulerMisuse);
        }
        let ghost hs1 = handlers@;
        let ghost els1 = loops@;
        let dest = vec_at_mut(loops, tid);
        let ghost msg_mig: nat = if msg is Migration {
            1nat
        } else {
            0nat
        };
        let sr = sender_retry(dest, msg);
        proof {
            assert(loops@ =~= els1.update(tid as int, loops@[tid as int]));
            assert(handlers@ =~= hs1.update(tid as int, handlers@[tid as int]));
            lemma_threads_ledger_update(
                hs1,
                els1,
                tid as int,
                handlers@[tid as int],
                loops@[tid as int],
            );
        }
        match sr {
            Ok(()) => {
                proof {
                    lemma_count_migrations_push(els1[tid as int].queue@, pre_outbox.first().1);
                    assert forall|u: int|
                        0 <= u < handlers@.len() implies {
                        &&& (#[trigger] handlers@[u]).shared.wf()
                        &&& handlers@[u].shared.coroutines.notifs_valid(*pool)
                        &&& handlers@[u].scheduler.inv()
                        &&& handlers@[u].shared.thread_id == u
                        &&& msgs_wf(loops@[u].queue@, *pool)
                    } by {
                        if u == tid {
                            assert(loops@[u].queue@ == els1[u].queue@.push(
                                pre_outbox.first().1,
                            ));
                            assert forall|i: int| 0 <= i < loops@[u].queue@.len() implies
                                message_wf(#[trigger] loops@[u].queue@[i], *pool) by {
                                if i < els1[u].queue@.len() {
                                    assert(loops@[u].queue@[i] == els1[u].queue@[i]);
                                } else {
                                    assert(loops@[u].queue@[i] == pre_outbox.first().1);
                                }
                            }
                        } else {
                            assert(handlers@[u] == hs1[u]);
                            assert(loops@[u] == els1[u]);
                        }
                    }
                }
            },
            Err(e) => {
                return Err(e);
            },
        }
    }
    proof {
        assert(outbox@.len() == 0);
        assert(count_outbox_migrations(outbox@) == 0);
    }
    Ok(())
}

} // verus!
