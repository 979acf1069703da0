//! A cooperative, coroutine-based multiplexing runtime core.
//!
//! The crate models an M:N green-thread runtime: worker threads each own an
//! event-loop handler that demultiplexes readiness events to coroutines,
//! cooperating with a pluggable scheduler.  Coroutine bodies are supplied
//! through the [`coroutine::CoroutineBody`] trait and re-entered at every
//! resumption; all bookkeeping — coroutine lifecycle, blocking, yielding,
//! migration between threads, exit notification and shutdown consensus — is
//! carried out by verified code.  The stackful context switch and the
//! operating-system readiness notifier are the unverified outside edge: here
//! the notifier is a deterministic model driven by an explicit clock and a
//! step budget.

use vstd::prelude::*;

pub mod coroutine;
pub mod mail;
pub mod scheduler;
pub mod thread;
pub mod timer;

use coroutine::{CoroCtx, Coroutine, CoroutineBody, CoroutineId, EventSource, SourceKind, State};
use mail::{MailboxInnerEnd, MailboxPool};
use scheduler::{FifoScheduler, Scheduler, SchedulerThread};
use thread::{
    lemma_threads_ledger_push, lemma_threads_ledger_update, mioco_inv, step_thread, threads_ledger,
    EventLoop, EventLoopConfig, Handler, HandlerShared, HandlerThreadShared, RunError,
};

verus! {

/// Read/Write/Both/None interest or readiness direction.
#[derive(Copy, Clone, Debug, Eq, PartialEq, Structural)]
pub struct RW {
    /// Read direction.
    pub read: bool,
    /// Write direction.
    pub write: bool,
}

impl RW {
    /// Read.
    pub fn read() -> (r: Self)
        ensures
            r == (RW { read: true, write: false }),
    {
        RW { read: true, write: false }
    }

    /// Write.
    pub fn write() -> (r: Self)
        ensures
            r == (RW { read: false, write: true }),
    {
        RW { read: false, write: true }
    }

    /// Read + Write.
    pub fn both() -> (r: Self)
        ensures
            r == (RW { read: true, write: true }),
    {
        RW { read: true, write: true }
    }

    /// Neither direction.
    pub fn none() -> (r: Self)
        ensures
            r == (RW { read: false, write: false }),
    {
        RW { read: false, write: false }
    }

    /// Both directions as a pair.
    pub fn as_tuple(&self) -> (r: (bool, bool))
        ensures
            r == (self.read, self.write),
    {
        (self.read, self.write)
    }

    /// Was the read direction requested/delivered?
    pub fn has_read(&self) -> (r: bool)
        ensures
            r == self.read,
    {
        self.read
    }

    /// Was the write direction requested/delivered?
    pub fn has_write(&self) -> (r: bool)
        ensures
            r == self.write,
    {
        self.write
    }

    /// Do two directions overlap (some direction set in both)?
    pub open spec fn spec_overlaps(self, other: RW) -> bool {
        (self.read && other.read) || (self.write && other.write)
    }

    /// Whether some direction is set in both `self` and `other`.
    pub fn overlaps(&self, other: &RW) -> (r: bool)
        ensures
            r == self.spec_overlaps(*other),
    {
        (self.read && other.read) || (self.write && other.write)
    }
}

/// Id of an event source, unique within its owning coroutine.
#[derive(Copy, Clone, Debug, Eq, PartialEq, Hash, Structural)]
pub struct EventSourceId(pub usize);

impl EventSourceId {
    /// The id as a plain index.
    pub fn as_usize(&self) -> (r: usize)
        ensures
            r == self.0,
    {
        self.0
    }

    /// An id from a plain index.
    pub fn from_usize(i: usize) -> (r: Self)
        ensures
            r == EventSourceId(i),
    {
        EventSourceId(i)
    }
}

/// Event delivered to a coroutine: a direction plus the id of the source
/// that became ready.
#[derive(Copy, Clone, Debug, Eq, PartialEq, Structural)]
pub struct Event {
    /// Id of the event source the event came from.
    pub id: EventSourceId,
    /// Direction(s) that became ready.
    pub rw: RW,
}

impl Event {
    /// Index of the event source the event came from.
    pub fn id(&self) -> (r: EventSourceId)
        ensures
            r == self.id,
    {
        self.id
    }

    /// Was the event a read?
    pub fn has_read(&self) -> (r: bool)
        ensures
            r == self.rw.read,
    {
        self.rw.has_read()
    }

    /// Was the event a write?
    pub fn has_write(&self) -> (r: bool)
        ensures
            r == self.rw.write,
    {
        self.rw.has_write()
    }
}

/// The notifier accepts one opaque integer token per registration; the
/// runtime packs a coroutine id and an event-source id into it.  The low
/// `EVENT_SOURCE_TOKEN_SHIFT` bits carry the event-source id.
pub const EVENT_SOURCE_TOKEN_SHIFT: usize = 10;

/// Number of distinct event-source ids a token can carry.
pub const EVENT_SOURCE_TOKEN_SPAN: usize = 1024;

/// Largest event-source id that fits in a token.
pub const EVENT_SOURCE_TOKEN_MASK: usize = 1023;

/// Largest coroutine id that fits in a token.
pub const COROUTINE_ID_MAX: usize = usize::MAX / 1024;

/// Convert a token back to the pair of ids it was built from.
pub fn token_to_ids(token: usize) -> (r: (CoroutineId, EventSourceId))
    ensures
        r.0 == CoroutineId(token / EVENT_SOURCE_TOKEN_SPAN),
        r.1 == EventSourceId(token % EVENT_SOURCE_TOKEN_SPAN),
{
    (CoroutineId(token / EVENT_SOURCE_TOKEN_SPAN), EventSourceId(token % EVENT_SOURCE_TOKEN_SPAN))
}

/// Convert a pair of ids to a token.
pub fn token_from_ids(co_id: CoroutineId, io_id: EventSourceId) -> (r: usize)
    requires
        io_id.0 <= EVENT_SOURCE_TOKEN_MASK,
        co_id.0 <= COROUTINE_ID_MAX,
    ensures
        r == co_id.0 * EVENT_SOURCE_TOKEN_SPAN + io_id.0,
{
    proof {
        assert(co_id.0 * 1024 + io_id.0 <= (usize::MAX / 1024) * 1024 + 1023) by (nonlinear_arith)
            requires
                io_id.0 <= 1023,
                co_id.0 <= usize::MAX / 1024,
        ;
    }
    co_id.0 * EVENT_SOURCE_TOKEN_SPAN + io_id.0
}

/// Composing a token from a pair of ids within their bit budgets and taking
/// it apart again yields the pair it was built from.
pub proof fn lemma_token_round_trip(co_id: CoroutineId, io_id: EventSourceId)
    requires
        io_id.0 <= EVENT_SOURCE_TOKEN_MASK,
        co_id.0 <= COROUTINE_ID_MAX,
    ensures
        (co_id.0 * EVENT_SOURCE_TOKEN_SPAN + io_id.0) / (EVENT_SOURCE_TOKEN_SPAN as int) == co_id.0,
        (co_id.0 * EVENT_SOURCE_TOKEN_SPAN + io_id.0) % (EVENT_SOURCE_TOKEN_SPAN as int) == io_id.0,
{
    let c = co_id.0 as int;
    let s = io_id.0 as int;
    assert((c * 1024 + s) / 1024 == c && (c * 1024 + s) % 1024 == s) by (nonlinear_arith)
        requires
            0 <= s <= 1023,
            0 <= c,
    ;
}


/// Handle to a coroutine spawned during the current resumption; an index
/// into the spawner's `children` list.  It is valid until the spawner next
/// suspends, when the children are handed to the scheduler.
#[derive(Copy, Clone, Debug, Eq, PartialEq, Structural)]
pub struct CoroutineHandle {
    /// Index of the child in the spawner's `children` list.
    pub child_index: usize,
}

impl CoroutineHandle {
    /// Create an exit notificator: a mailbox that will receive the child's
    /// `ExitStatus` exactly once when it finishes — immediately, were the
    /// child already finished.
    pub fn exit_notificator<B>(&self, cx: &mut CoroCtx<B>) -> (r: MailboxInnerEnd)
        requires
            self.child_index < old(cx).co.children@.len(),
        ensures
            r.id == old(cx).pool.boxes@.len(),
            final(cx).pool.boxes@.len() == old(cx).pool.boxes@.len() + 1,
            forall|i: int| 0 <= i < old(cx).pool.boxes@.len()
                ==> final(cx).pool.boxes@[i] == old(cx).pool.boxes@[i],
            // an unfinished child has the new mailbox registered; a finished
            // one had its status delivered to it at once
            !(old(cx).co.children@[self.child_index as int].state is Finished) ==> {
                &&& final(cx).pool.boxes@[r.id as int].queue@ =~= Seq::<
                    coroutine::ExitStatus,
                >::empty()
                &&& final(cx).co.children@[self.child_index as int].exit_notificators@ == old(cx).co.children@[self.child_index as int].exit_notificators@.push(r.id)
            },
            old(cx).co.children@[self.child_index as int].state matches State::Finished(st) ==> {
                &&& final(cx).pool.boxes@[r.id as int].queue@ =~= seq![st]
                &&& final(cx).co.children@[self.child_index as int] == old(cx).co.children@[
                    self.child_index as int]
            },
            forall|j: int| 0 <= j < old(cx).co.children@.len() && j != self.child_index
                ==> final(cx).co.children@[j] == old(cx).co.children@[j],
            final(cx).co.children@.len() == old(cx).co.children@.len(),
            final(cx).co == (Coroutine { children: final(cx).co.children, ..old(cx).co }),
            final(cx).now_ms == old(cx).now_ms,
            final(cx).thread_id == old(cx).thread_id,
            final(cx).thread_num == old(cx).thread_num,
    {
        let inner = cx.pool.mailbox();
        let child = &mut cx.co.children[self.child_index];
        let finished = child.state.is_finished();
        if finished {
            let st = match child.state {
                State::Finished(st) => st,
                _ => coroutine::ExitStatus::Killed,
            };
            let _waiter = cx.pool.send(inner.id, st);
            proof {
                assert(final(cx).co.children@ =~= old(cx).co.children@.update(
                    self.child_index as int,
                    *final(child),
                ));
                assert(final(cx).co.children@ =~= old(cx).co.children@);
            }
        } else {
            child.exit_notificators.push(inner.id);
            proof {
                assert(final(cx).co.children@ =~= old(cx).co.children@.update(
                    self.child_index as int,
                    *final(child),
                ));
            }
        }
        inner
    }
}

/// Spawn a coroutine as a child of the current one.
///
/// The child inherits the spawner's inheritable user data and panic
/// containment; it is handed to the scheduler when the spawner next
/// suspends.  Returns a handle for requesting an exit notificator.
pub fn spawn_ext<B>(cx: &mut CoroCtx<B>, body: B) -> (r: CoroutineHandle)
    requires
        old(cx).co.state is Running,
    ensures
        r.child_index == old(cx).co.children@.len(),
        final(cx).co.children@.len() == old(cx).co.children@.len() + 1,
        forall|j: int| 0 <= j < old(cx).co.children@.len()
            ==> final(cx).co.children@[j] == old(cx).co.children@[j],
        final(cx).co.children@.last().is_fresh(),
        final(cx).co.children@.last().user_data == old(cx).co.inherited_user_data,
        final(cx).co.children@.last().inherited_user_data == old(cx).co.inherited_user_data,
        final(cx).co.children@.last().catch_panics == old(cx).co.catch_panics,
        final(cx).co.children@.last().exit_notificators@.len() == 0,
        final(cx).co == (Coroutine { children: final(cx).co.children, ..old(cx).co }),
        final(cx).pool == old(cx).pool,
        final(cx).now_ms == old(cx).now_ms,
        final(cx).thread_id == old(cx).thread_id,
        final(cx).thread_num == old(cx).thread_num,
{
    let index = cx.co.children.len();
    let child = Coroutine::new(body, cx.co.inherited_user_data, cx.co.catch_panics);
    cx.co.children.push(child);
    CoroutineHandle { child_index: index }
}

/// Attach an event source to the current coroutine, returning its id: the
/// lowest vacant slot is reused, as the native runtime's source table does
/// after a deregistration; only when none is vacant does the table grow.
/// A `one_shot` source gives up its slot again when its event wakes the
/// coroutine.
pub fn attach_source<B>(cx: &mut CoroCtx<B>, kind: SourceKind, one_shot: bool) -> (r:
    EventSourceId)
    requires
        old(cx).co.has_source_room(),
        kind matches SourceKind::Mailbox { mailbox_id } ==> mailbox_id
            < old(cx).pool.boxes@.len(),
    ensures
        r.0 < final(cx).co.event_sources@.len(),
        final(cx).co.event_sources@[r.0 as int] == Some(
            EventSource { kind, latched: false, one_shot },
        ),
        r.0 < old(cx).co.event_sources@.len() ==> old(cx).co.event_sources@[r.0 as int] is None
            && final(cx).co.event_sources@ == old(cx).co.event_sources@.update(r.0 as int, Some(
            EventSource { kind, latched: false, one_shot },
        )),
        r.0 >= old(cx).co.event_sources@.len() ==> r.0 == old(cx).co.event_sources@.len()
            && final(cx).co.event_sources@ == old(cx).co.event_sources@.push(Some(
            EventSource { kind, latched: false, one_shot },
        )),
        final(cx).co == (Coroutine { event_sources: final(cx).co.event_sources, ..old(cx).co }),
        final(cx).pool == old(cx).pool,
        final(cx).now_ms == old(cx).now_ms,
        final(cx).thread_id == old(cx).thread_id,
        final(cx).thread_num == old(cx).thread_num,
{
    let n = cx.co.event_sources.len();
    let mut i: usize = 0;
    while i < n
        invariant
            n == cx.co.event_sources@.len(),
            i <= n,
            *cx == *old(cx),
            kind matches SourceKind::Mailbox { mailbox_id } ==> mailbox_id
                < cx.pool.boxes@.len(),
            forall|j: int| 0 <= j < i ==> (#[trigger] cx.co.event_sources@[j]) is Some,
        decreases n - i,
    {
        if cx.co.event_sources[i].is_none() {
            let slot = thread::vec_at_mut(&mut cx.co.event_sources, i);
            *slot = Some(EventSource { kind, latched: false, one_shot });
            return EventSourceId(i);
        }
        i = i + 1;
    }
    proof {
        assert(cx.co.event_sources@.len() < EVENT_SOURCE_TOKEN_SPAN);
    }
    cx.co.event_sources.push(Some(EventSource { kind, latched: false, one_shot }));
    EventSourceId(n)
}

/// Detach an event source the coroutine no longer needs: its slot is
/// vacated for reuse.  A source still being waited on cannot be detached.
pub fn detach_source<B>(cx: &mut CoroCtx<B>, src_id: EventSourceId)
    requires
        src_id.0 < old(cx).co.event_sources@.len(),
        forall|i: int| 0 <= i < old(cx).co.blocked_on@.len() ==> (
        #[trigger] old(cx).co.blocked_on@[i]).0 != src_id,
    ensures
        final(cx).co.event_sources@ == old(cx).co.event_sources@.update(
            src_id.0 as int,
            None::<EventSource>,
        ),
        final(cx).co == (Coroutine { event_sources: final(cx).co.event_sources, ..old(cx).co }),
        final(cx).pool == old(cx).pool,
        final(cx).now_ms == old(cx).now_ms,
        final(cx).thread_id == old(cx).thread_id,
        final(cx).thread_num == old(cx).thread_num,
{
    let slot = thread::vec_at_mut(&mut cx.co.event_sources, src_id.0);
    *slot = None;
}

/// Stage a wait on an attached source in the given direction, ahead of
/// `select_wait`.
pub fn select_add<B>(cx: &mut CoroCtx<B>, src_id: EventSourceId, rw: RW)
    requires
        old(cx).co.state is Running,
        src_id.0 < old(cx).co.event_sources@.len(),
        old(cx).co.event_sources@[src_id.0 as int] is Some,
    ensures
        final(cx).co.blocked_on@ == old(cx).co.blocked_on@.push((src_id, rw)),
        final(cx).co == (Coroutine { blocked_on: final(cx).co.blocked_on, ..old(cx).co }),
        final(cx).pool == old(cx).pool,
        final(cx).now_ms == old(cx).now_ms,
        final(cx).thread_id == old(cx).thread_id,
        final(cx).thread_num == old(cx).thread_num,
{
    cx.co.blocked_on.push((src_id, rw));
}

/// Wait until one of the staged sources is ready.
///
/// The coroutine becomes `Blocked`; the entry then returns, and the event
/// that ends the wait is the one handed to its next resumption.
pub fn select_wait<B>(cx: &mut CoroCtx<B>)
    requires
        old(cx).co.state is Running,
        old(cx).co.blocked_on@.len() > 0,
    ensures
        final(cx).co == (Coroutine { state: State::Blocked, ..old(cx).co }),
        final(cx).pool == old(cx).pool,
        final(cx).now_ms == old(cx).now_ms,
        final(cx).thread_id == old(cx).thread_id,
        final(cx).thread_num == old(cx).thread_num,
{
    cx.co.state = State::Blocked;
}

/// Yield execution: let the scheduler run other ready coroutines before
/// resuming this one.
pub fn yield_now<B>(cx: &mut CoroCtx<B>)
    requires
        old(cx).co.state is Running,
        old(cx).co.blocked_on@.len() == 0,
    ensures
        final(cx).co == (Coroutine { state: State::Yielding, ..old(cx).co }),
        final(cx).pool == old(cx).pool,
        final(cx).now_ms == old(cx).now_ms,
        final(cx).thread_id == old(cx).thread_id,
        final(cx).thread_num == old(cx).thread_num,
{
    cx.co.state = State::Yielding;
}

/// Block the coroutine for `time_ms` milliseconds: attach a one-shot
/// timer due at `now + time_ms` and wait on it.  The timer's slot is
/// vacated again when it fires.
pub fn sleep<B>(cx: &mut CoroCtx<B>, time_ms: u64)
    requires
        old(cx).co.state is Running,
        old(cx).co.blocked_on@.len() == 0,
        old(cx).co.has_source_room(),
        old(cx).now_ms + time_ms <= u64::MAX,
    ensures
        final(cx).co.state is Blocked,
        final(cx).co.blocked_on@.len() == 1,
        ({
            let sid = final(cx).co.blocked_on@[0].0;
            &&& final(cx).co.blocked_on@[0].1 == (RW { read: true, write: false })
            &&& sid.0 < final(cx).co.event_sources@.len()
            &&& final(cx).co.event_sources@[sid.0 as int] == Some(
                EventSource {
                    kind: SourceKind::Timer { deadline_ms: (old(cx).now_ms + time_ms) as u64 },
                    latched: false,
                    one_shot: true,
                },
            )
            &&& (sid.0 < old(cx).co.event_sources@.len() ==> old(cx).co.event_sources@[
                sid.0 as int] is None && final(cx).co.event_sources@ == old(
                cx,
            ).co.event_sources@.update(sid.0 as int, final(cx).co.event_sources@[sid.0 as int]))
            &&& (sid.0 >= old(cx).co.event_sources@.len() ==> sid.0 == old(
                cx,
            ).co.event_sources@.len() && final(cx).co.event_sources@ == old(
                cx,
            ).co.event_sources@.push(final(cx).co.event_sources@[sid.0 as int]))
        }),
        final(cx).co == (Coroutine {
            state: State::Blocked,
            event_sources: final(cx).co.event_sources,
            blocked_on: final(cx).co.blocked_on,
            ..old(cx).co
        }),
        final(cx).pool == old(cx).pool,
        final(cx).now_ms == old(cx).now_ms,
        final(cx).thread_id == old(cx).thread_id,
        final(cx).thread_num == old(cx).thread_num,
{
    let deadline = cx.now_ms + time_ms;
    let sid = attach_source(cx, SourceKind::Timer { deadline_ms: deadline }, true);
    select_add(cx, sid, RW::read());
    select_wait(cx);
}

/// Stage the coroutine side of `sync`: allocate a one-shot mailbox,
/// attach it, and block on it; the caller runs the blocking closure
/// off-thread and delivers to the mailbox on completion, waking the
/// coroutine while its peers keep running.
pub fn sync_wait<B>(cx: &mut CoroCtx<B>) -> (r: MailboxInnerEnd)
    requires
        old(cx).co.state is Running,
        old(cx).co.blocked_on@.len() == 0,
        old(cx).co.has_source_room(),
    ensures
        r.id == old(cx).pool.boxes@.len(),
        final(cx).pool.boxes@.len() == old(cx).pool.boxes@.len() + 1,
        forall|i: int| 0 <= i < old(cx).pool.boxes@.len()
            ==> final(cx).pool.boxes@[i] == old(cx).pool.boxes@[i],
        final(cx).co.state is Blocked,
        final(cx).co.blocked_on@.len() == 1,
        ({
            let sid = final(cx).co.blocked_on@[0].0;
            &&& final(cx).co.blocked_on@[0].1 == (RW { read: true, write: false })
            &&& sid.0 < final(cx).co.event_sources@.len()
            &&& final(cx).co.event_sources@[sid.0 as int] == Some(
                EventSource {
                    kind: SourceKind::Mailbox { mailbox_id: r.id },
                    latched: false,
                    one_shot: true,
                },
            )
        }),
        final(cx).co == (Coroutine {
            state: State::Blocked,
            event_sources: final(cx).co.event_sources,
            blocked_on: final(cx).co.blocked_on,
            ..old(cx).co
        }),
        final(cx).now_ms == old(cx).now_ms,
        final(cx).thread_id == old(cx).thread_id,
        final(cx).thread_num == old(cx).thread_num,
{
    let inner = cx.pool.mailbox();
    let sid = attach_source(cx, SourceKind::Mailbox { mailbox_id: inner.id }, true);
    select_add(cx, sid, RW::read());
    select_wait(cx);
    inner
}

/// Whether this thread is currently executing a coroutine: its
/// current-coroutine slot (the model of the per-native-thread pointer a
/// stackful implementation keeps) is occupied.
pub fn in_coroutine(current: &Option<CoroutineId>) -> (r: bool)
    ensures
        r == (*current is Some),
{
    current.is_some()
}

/// User data of the current coroutine, if any was set.
pub fn get_userdata<B>(cx: &CoroCtx<B>) -> (r: Option<u64>)
    ensures
        r == cx.co.user_data,
{
    cx.co.user_data
}

/// Set the user data of the current coroutine.
pub fn set_userdata<B>(cx: &mut CoroCtx<B>, data: u64)
    ensures
        final(cx).co == (Coroutine { user_data: Some(data), ..old(cx).co }),
        final(cx).pool == old(cx).pool,
        final(cx).now_ms == old(cx).now_ms,
        final(cx).thread_id == old(cx).thread_id,
        final(cx).thread_num == old(cx).thread_num,
{
    cx.co.user_data = Some(data);
}

/// Set the user data that coroutines spawned from here on will inherit;
/// `None` clears it.
pub fn set_children_userdata<B>(cx: &mut CoroCtx<B>, data: Option<u64>)
    ensures
        final(cx).co == (Coroutine { inherited_user_data: data, ..old(cx).co }),
        final(cx).pool == old(cx).pool,
        final(cx).now_ms == old(cx).now_ms,
        final(cx).thread_id == old(cx).thread_id,
        final(cx).thread_num == old(cx).thread_num,
{
    cx.co.inherited_user_data = data;
}

/// Number of threads of the running instance, for load balancing.
pub fn thread_num<B>(cx: &CoroCtx<B>) -> (r: usize)
    ensures
        r == cx.thread_num,
{
    cx.thread_num
}


/// Control handle through which the scheduler resumes, migrates or kills a
/// suspended coroutine.
pub struct CoroutineControl {
    /// Id of the coroutine in its thread's table.
    pub co_id: CoroutineId,
    /// Whether the coroutine became ready by yielding.
    pub is_yielding: bool,
}

impl CoroutineControl {
    /// A handle for the coroutine `co_id`.
    pub fn new(co_id: CoroutineId) -> (r: Self)
        ensures
            r.co_id == co_id,
            !r.is_yielding,
    {
        CoroutineControl { co_id, is_yielding: false }
    }

    /// Id of the controlled coroutine.
    pub fn id(&self) -> (r: CoroutineId)
        ensures
            r == self.co_id,
    {
        self.co_id
    }

    /// Mark the handle as stemming from a yield.
    pub fn set_is_yielding(&mut self)
        ensures
            *final(self) == (CoroutineControl { is_yielding: true, ..*old(self) }),
    {
        self.is_yielding = true;
    }

    /// Is this coroutine ready because it yielded?
    pub fn is_yielding(&self) -> (r: bool)
        ensures
            r == self.is_yielding,
    {
        self.is_yielding
    }
}


/// Relies on num_cpus::get: the number of available logical CPUs, which its
/// documentation promises to be at least 1.
#[verifier::external_body]
fn num_cpus_get() -> (r: usize)
    ensures
        r >= 1,
{
    num_cpus::get()
}

/// Configuration of an instance.
pub struct Config<S> {
    /// Number of worker threads.
    pub thread_num: usize,
    /// The process-wide scheduler.
    pub scheduler: S,
    /// Configuration handed to each thread's notifier.
    pub event_loop_config: EventLoopConfig,
    /// Stack size for coroutines, in bytes.
    pub stack_size: usize,
    /// User data of the first coroutine.
    pub user_data: Option<u64>,
    /// Whether a panic within a coroutine is contained.
    pub catch_panics: bool,
}

impl Config<FifoScheduler> {
    /// The default configuration: one thread per CPU, the FIFO scheduler,
    /// two-mebibyte stacks, panics contained.
    pub fn new() -> (r: Self)
        ensures
            r.thread_num >= 1,
            r.scheduler.threads_spawned == 0,
            r.event_loop_config == (EventLoopConfig { notify_capacity: 4096, timer_tick_ms: 100 }),
            r.stack_size == 2 * 1024 * 1024,
            r.user_data is None,
            r.catch_panics,
    {
        Config {
            thread_num: num_cpus_get(),
            scheduler: FifoScheduler::new(),
            event_loop_config: EventLoopConfig::new(),
            stack_size: 2 * 1024 * 1024,
            user_data: None,
            catch_panics: true,
        }
    }
}

impl<S> Config<S> {
    /// Set the number of threads to run with.
    pub fn set_thread_num(&mut self, thread_num: usize) -> (r: &mut Self)
        ensures
            *r == (Config { thread_num, ..*old(self) }),
            *final(self) == *final(r),
    {
        self.thread_num = thread_num;
        self
    }

    /// Set the stack size in bytes; it should be a power of two.
    pub fn set_stack_size(&mut self, stack_size: usize) -> (r: &mut Self)
        ensures
            *r == (Config { stack_size, ..*old(self) }),
            *final(self) == *final(r),
    {
        self.stack_size = stack_size;
        self
    }

    /// Set the user data of the first spawned coroutine.
    pub fn set_userdata(&mut self, data: u64) -> (r: &mut Self)
        ensures
            *r == (Config { user_data: Some(data), ..*old(self) }),
            *final(self) == *final(r),
    {
        self.user_data = Some(data);
        self
    }

    /// Configure the notifier of every thread.
    pub fn even_loop(&mut self) -> (r: &mut EventLoopConfig)
        ensures
            *r == old(self).event_loop_config,
            *final(self) == (Config { event_loop_config: *final(r), ..*old(self) }),
    {
        &mut self.event_loop_config
    }

    /// Set whether panics within coroutines are contained.
    pub fn set_catch_panics(&mut self, catch_panics: bool) -> (r: &mut Self)
        ensures
            *r == (Config { catch_panics, ..*old(self) }),
            *final(self) == *final(r),
    {
        self.catch_panics = catch_panics;
        self
    }

    /// Use a custom scheduler.
    pub fn set_scheduler<S2>(self, scheduler: S2) -> (r: Config<S2>)
        ensures
            r.thread_num == self.thread_num,
            r.event_loop_config == self.event_loop_config,
            r.stack_size == self.stack_size,
            r.user_data == self.user_data,
            r.catch_panics == self.catch_panics,
            r.scheduler == scheduler,
    {
        Config {
            thread_num: self.thread_num,
            scheduler,
            event_loop_config: self.event_loop_config,
            stack_size: self.stack_size,
            user_data: self.user_data,
            catch_panics: self.catch_panics,
        }
    }
}

/// What a run left behind, for specification: the final global live
/// count, each thread notifier's running flag, and the first coroutine as
/// it entered thread 0's table.
pub struct RunSummary<B> {
    /// The live-coroutine counter when the run ended.
    pub coroutines_num: nat,
    /// Whether each thread's notifier was still running.
    pub running: Seq<bool>,
    /// The first coroutine, as homed on thread 0 at the start of the run:
    /// it carries the user entry, the configured user data and panic
    /// containment.
    pub first: Coroutine<B>,
    /// The id thread 0's table gave the first coroutine.
    pub first_id: CoroutineId,
}

/// An instance of the runtime.
pub struct Mioco<S> {
    /// The configuration it runs with.
    pub config: Config<S>,
}

impl Mioco<FifoScheduler> {
    /// A new instance with the default configuration.
    pub fn new() -> (r: Self)
        ensures
            r.config.thread_num >= 1,
            r.config.catch_panics,
    {
        Mioco::new_configured(Config::new())
    }
}

impl<S: Scheduler> Mioco<S> {
    /// A new instance with the given configuration.
    pub fn new_configured(config: Config<S>) -> (r: Self)
        ensures
            r.config == config,
    {
        Mioco { config }
    }

    /// Run the instance until every coroutine has finished: start one
    /// notifier per thread, pin the first coroutine — running `f` — onto
    /// thread 0, and drive the threads round-robin at an explicit clock
    /// that advances to the next timer deadline, or by the one-second cap a
    /// native notifier sleeps at most.  Returns when every thread's
    /// notifier has shut down; `max_rounds` bounds this deterministic run,
    /// standing in for the unbounded blocking loop of a native runtime.
    pub fn start<B: CoroutineBody>(&mut self, f: B, max_rounds: u64) -> (r: (
        Result<(), RunError>,
        Ghost<RunSummary<B>>,
    ))
        ensures
            // one notifier per configured thread (at least one)
            r.1@.running.len() == if old(self).config.thread_num == 0 {
                1int
            } else {
                old(self).config.thread_num as int
            },
            r.1@.running.len() >= 1,
            // the run began with the user entry as the first coroutine,
            // freshly homed on thread 0 under its table id, carrying the
            // configured user data and panic containment
            r.1@.first.is_fresh(),
            r.1@.first.body == Some(f),
            r.1@.first.thread_id == 0,
            r.1@.first.id == r.1@.first_id,
            r.1@.first.user_data == old(self).config.user_data,
            r.1@.first.catch_panics == old(self).config.catch_panics,
            // a completed run has every notifier shut down and no
            // coroutine left anywhere; an empty budget ends at once with
            // the step limit
            r.0 is Ok ==> forall|t: int| 0 <= t < r.1@.running.len() ==> !r.1@.running[t],
            r.0 is Ok ==> r.1@.coroutines_num == 0,
            max_rounds == 0 ==> r.0 == Err::<(), RunError>(RunError::StepLimit),
    {
        let thread_num = if self.config.thread_num == 0 {
            1
        } else {
            self.config.thread_num
        };
        let mut global = HandlerThreadShared::new(thread_num);
        let mut pool = MailboxPool::new();
        let mut handlers: Vec<Handler<B, S::Thread>> = Vec::new();
        let mut loops: Vec<EventLoop<B>> = Vec::new();
        let mut i: usize = 0;
        while i < thread_num
            invariant
                1 <= thread_num,
                i <= thread_num,
                handlers@.len() == i,
                loops@.len() == i,
                pool.boxes@.len() == 0,
                threads_ledger(handlers@, loops@) == 0,
                forall|t: int|
                    0 <= t < i ==> {
                        &&& (#[trigger] handlers@[t]).shared.wf()
                        &&& handlers@[t].shared.coroutines.notifs_valid(pool)
                        &&& handlers@[t].scheduler.inv()
                        &&& handlers@[t].shared.thread_id == t
                        &&& handlers@[t].shared.coroutines.slots@.len() == 0
                        &&& handlers@[t].shared.spawned@.len() == 0
                        &&& thread::msgs_wf(loops@[t].queue@, pool)
                        &&& loops@[t].queue@.len() == 0
                    },
                forall|t: int| 0 <= t < i ==> (#[trigger] loops@[t]).running,
                self.config.user_data == old(self).config.user_data,
                self.config.catch_panics == old(self).config.catch_panics,
            decreases thread_num - i,
        {
            let ghost hs0 = handlers@;
            let ghost els0 = loops@;
            let sched_thread = self.config.scheduler.spawn_thread(thread_num);
            let shared = HandlerShared::new(self.config.stack_size, i);
            handlers.push(Handler::new(shared, sched_thread));
            loops.push(EventLoop::configured(self.config.event_loop_config));
            proof {
                lemma_threads_ledger_push(hs0, els0, handlers@.last(), loops@.last());
            }
            i = i + 1;
        }
        // the first coroutine, carrying the user entry, goes to thread 0
        let ghost f_g = f;
        let mut first = Coroutine::new(f, None, self.config.catch_panics);
        first.user_data = self.config.user_data;
        let ghost first_pre = first;
        let ghost hs1 = handlers@;
        let ghost els1 = loops@;
        let h0 = thread::vec_at_mut(&mut handlers, 0);
        let attached = h0.shared.attach(first);
        let ghost first_id = CoroutineId(0);
        let ghost first_g = first_pre;
        match attached {
            Ok(id) => {
                proof {
                    first_id = id;
                    first_g = Coroutine { id, thread_id: 0, ..first_pre };
                }
                h0.shared.coroutines_inc(&mut global);
                h0.shared.add_spawned(CoroutineControl::new(id));
            },
            Err(_) => {
                // an empty table is far below the id budget: attaching the
                // first coroutine cannot fail
                proof {
                    assert(false);
                }
                return (
                    Err(RunError::TooManyCoroutines),
                    Ghost(
                        RunSummary {
                            coroutines_num: global.coroutines_num as nat,
                            running: Seq::new(loops@.len() as nat, |i: int| loops@[i].running),
                            first: first_g,
                            first_id,
                        },
                    ),
                );
            },
        }
        // release the startup barrier only now, so that no thread observes
        // an empty coroutine set and shuts down before the first spawn
        h0.shared.signal_start_all(&mut global);
        let started = h0.shared.wait_for_start_all(&global);
        proof {
            assert(started);
            assert(handlers@ =~= hs1.update(0, handlers@[0]));
            assert(loops@ =~= els1.update(0, loops@[0]));
            lemma_threads_ledger_update(hs1, els1, 0, handlers@[0], loops@[0]);
            assert forall|t: int|
                0 <= t < handlers@.len() implies {
                &&& (#[trigger] handlers@[t]).shared.wf()
                &&& handlers@[t].shared.coroutines.notifs_valid(pool)
                &&& handlers@[t].scheduler.inv()
                &&& handlers@[t].shared.thread_id == t
                &&& thread::msgs_wf(loops@[t].queue@, pool)
            } by {
                if t != 0 {
                    assert(handlers@[t] == hs1[t]);
                    assert(loops@[t] == els1[t]);
                }
            }
            assert(mioco_inv(handlers@, loops@, global, pool));
        }
        // drive the notifiers until all have shut down
        let mut now_ms: u64 = 0;
        let mut rounds: u64 = max_rounds;
        proof {
            assert forall|u: int| 0 <= u < thread_num implies loops@[u].running by {}
        }
        loop
            invariant
                mioco_inv(handlers@, loops@, global, pool),
                handlers@.len() == thread_num,
                loops@.len() == thread_num,
                thread_num == if old(self).config.thread_num == 0 {
                    1int
                } else {
                    old(self).config.thread_num as int
                },
                f_g == f,
                first_g.is_fresh(),
                first_g.body == Some(f_g),
                first_g.thread_id == 0,
                first_g.id == first_id,
                first_g.user_data == old(self).config.user_data,
                first_g.catch_panics == old(self).config.catch_panics,
                (exists|u: int| 0 <= u < thread_num && !loops@[u].running)
                    ==> global.coroutines_num == 0,
                rounds <= max_rounds,
                max_rounds == 0 ==> rounds == 0 && (forall|u: int|
                    0 <= u < thread_num ==> (#[trigger] loops@[u]).running),
            decreases rounds,
        {
            let mut any_running = false;
            let mut t: usize = 0;
            while t < thread_num
                invariant
                    t <= thread_num,
                    loops@.len() == thread_num,
                    !any_running ==> forall|u: int| 0 <= u < t ==> !(
                    #[trigger] loops@[u]).running,
                    (exists|u: int| 0 <= u < t && (#[trigger] loops@[u]).running)
                        ==> any_running,
                decreases thread_num - t,
            {
                if loops[t].is_running() {
                    any_running = true;
                }
                t = t + 1;
            }
            if !any_running {
                proof {
                    assert(!loops@[0].running);
                }
                return (
                    Ok(()),
                    Ghost(
                        RunSummary {
                            coroutines_num: global.coroutines_num as nat,
                            running: Seq::new(loops@.len() as nat, |i: int| loops@[i].running),
                            first: first_g,
                            first_id,
                        },
                    ),
                );
            }
            if rounds == 0 {
                return (
                    Err(RunError::StepLimit),
                    Ghost(
                        RunSummary {
                            coroutines_num: global.coroutines_num as nat,
                            running: Seq::new(loops@.len() as nat, |i: int| loops@[i].running),
                            first: first_g,
                            first_id,
                        },
                    ),
                );
            }
            rounds = rounds - 1;
            let mut t: usize = 0;
            while t < thread_num
                invariant
                    t <= thread_num,
                    mioco_inv(handlers@, loops@, global, pool),
                    handlers@.len() == thread_num,
                    loops@.len() == thread_num,
                    thread_num == if old(self).config.thread_num == 0 {
                    1int
                } else {
                    old(self).config.thread_num as int
                },
                    f_g == f,
                    first_g.is_fresh(),
                    first_g.body == Some(f_g),
                    first_g.thread_id == 0,
                    first_g.id == first_id,
                    first_g.user_data == old(self).config.user_data,
                    first_g.catch_panics == old(self).config.catch_panics,
                    max_rounds > 0,
                    (exists|u: int| 0 <= u < thread_num && !loops@[u].running)
                        ==> global.coroutines_num == 0,
                decreases thread_num - t,
            {
                let run_it = loops[t].is_running();
                if run_it {
                    let ghost pre_loops = loops@;
                    let ghost pre_num = global.coroutines_num;
                    let stepped = step_thread(
                        &mut handlers,
                        &mut loops,
                        &mut global,
                        &mut pool,
                        t,
                        now_ms,
                        max_rounds,
                    );
                    match stepped {
                        Ok(()) => {
                            proof {
                                assert forall|u: int|
                                    0 <= u < thread_num && !loops@[u].running implies
                                    global.coroutines_num == 0 by {
                                    if pre_loops[u].running {
                                        assert(u == t);
                                    } else {
                                        assert(pre_num == 0);
                                    }
                                }
                            }
                        },
                        Err(e) => {
                            return (
                                Err(e),
                                Ghost(
                                    RunSummary {
                                        coroutines_num: global.coroutines_num as nat,
                                        running: Seq::new(
                                            loops@.len() as nat,
                                            |i: int| loops@[i].running,
                                        ),
                                        first: first_g,
                                        first_id,
                                    },
                                ),
                            );
                        },
                    }
                }
                t = t + 1;
            }
            now_ms = next_wake(&loops, now_ms);
        }
    }
}

/// The next time the clock advances to: now itself while any thread still
/// has undelivered messages (a native notifier wakes at once on a notify),
/// else the earliest pending timer deadline after `now_ms`, capped at
/// about a second — the longest a native notifier sleeps before
/// re-checking for shutdown.
fn next_wake<B>(loops: &Vec<EventLoop<B>>, now_ms: u64) -> (r: u64)
    ensures
        r >= now_ms,
        now_ms <= u64::MAX - 1000 ==> r <= now_ms + 1000,
{
    let mut next: u64 = if now_ms >= u64::MAX - 1000 {
        u64::MAX
    } else {
        now_ms + 1000
    };
    let n = loops.len();
    let mut t: usize = 0;
    while t < n
        invariant
            t <= n,
            n == loops@.len(),
        decreases n - t,
    {
        if loops[t].queue.len() > 0 {
            return now_ms;
        }
        t = t + 1;
    }
    let mut t: usize = 0;
    while t < n
        invariant
            t <= n,
            n == loops@.len(),
            next >= now_ms,
            now_ms <= u64::MAX - 1000 ==> next <= now_ms + 1000,
        decreases n - t,
    {
        let m = loops[t].timeouts.len();
        let mut k: usize = 0;
        while k < m
            invariant
                k <= m,
                t < n,
                n == loops@.len(),
                m == loops@[t as int].timeouts@.len(),
                next >= now_ms,
                now_ms <= u64::MAX - 1000 ==> next <= now_ms + 1000,
            decreases m - k,
        {
            let (_token, at) = loops[t].timeouts[k];
            if at > now_ms && at < next {
                next = at;
            }
            k = k + 1;
        }
        t = t + 1;
    }
    next
}

/// Start an instance with the default settings and run it to completion.
pub fn start<B: CoroutineBody>(f: B, max_rounds: u64) -> (r: (
    Result<(), RunError>,
    Ghost<RunSummary<B>>,
))
    ensures
        r.1@.running.len() >= 1,
        r.1@.first.is_fresh(),
        r.1@.first.body == Some(f),
        r.1@.first.thread_id == 0,
        r.0 is Ok ==> forall|t: int| 0 <= t < r.1@.running.len() ==> !r.1@.running[t],
        r.0 is Ok ==> r.1@.coroutines_num == 0,
{
    Mioco::new().start(f, max_rounds)
}

/// Start an instance with the given number of threads and run it to
/// completion.
pub fn start_threads<B: CoroutineBody>(thread_num: usize, f: B, max_rounds: u64) -> (r: (
    Result<(), RunError>,
    Ghost<RunSummary<B>>,
))
    ensures
        r.1@.running.len() >= 1,
        thread_num >= 1 ==> r.1@.running.len() == thread_num,
        r.1@.first.is_fresh(),
        r.1@.first.body == Some(f),
        r.1@.first.thread_id == 0,
        r.0 is Ok ==> forall|t: int| 0 <= t < r.1@.running.len() ==> !r.1@.running[t],
        r.0 is Ok ==> r.1@.coroutines_num == 0,
{
    let mut config = Config::new();
    config.set_thread_num(thread_num);
    Mioco::new_configured(config).start(f, max_rounds)
}



} // verus!
