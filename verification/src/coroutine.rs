//! The coroutine model: lifecycle state machine, attached event sources,
//! children, exit notification, and the per-thread coroutine table.
//!
//! A coroutine's user code is supplied through [`CoroutineBody`]: the body is
//! re-entered at every resumption and suspends by driving the public API
//! (yielding, blocking on event sources, spawning children) through the
//! [`CoroCtx`] capability it is handed.  The stackful context switch of a
//! native implementation is thereby replaced by an explicit resumption
//! protocol; every transition of the lifecycle state machine is verified.

use vstd::prelude::*;

use crate::mail::MailboxPool;
use crate::{Event, EventSourceId, RW, COROUTINE_ID_MAX, EVENT_SOURCE_TOKEN_SPAN};

verus! {

/// Id of a coroutine, dense and unique within its owning thread's table;
/// reused after death.
#[derive(Copy, Clone, Debug, Eq, PartialEq, Hash, Structural)]
pub struct CoroutineId(pub usize);

impl CoroutineId {
    /// The id as a plain index.
    pub fn as_usize(&self) -> (r: usize)
        ensures
            r == self.0,
    {
        self.0
    }
}

/// Status with which a coroutine finished.
#[derive(Copy, Clone, Debug, Eq, PartialEq, Structural)]
pub enum ExitStatus {
    /// The entry returned; the payload is true on success.
    Exit(bool),
    /// The entry panicked and the panic was contained.
    Panic,
    /// The coroutine was killed by its scheduler.
    Killed,
}

/// Lifecycle state of a coroutine.
#[derive(Copy, Clone, Debug, Eq, PartialEq, Structural)]
pub enum State {
    /// Runnable, waiting to be resumed.
    Ready,
    /// Currently executing on its thread.
    Running,
    /// Suspended on a non-empty set of event sources.
    Blocked,
    /// Suspended voluntarily; runnable again at the next tick.
    Yielding,
    /// Terminal.
    Finished(ExitStatus),
}

impl State {
    /// Is this `Ready`?
    pub fn is_ready(&self) -> (r: bool)
        ensures
            r == (*self is Ready),
    {
        matches!(self, State::Ready)
    }

    /// Is this `Running`?
    pub fn is_running(&self) -> (r: bool)
        ensures
            r == (*self is Running),
    {
        matches!(self, State::Running)
    }

    /// Is this `Blocked`?
    pub fn is_blocked(&self) -> (r: bool)
        ensures
            r == (*self is Blocked),
    {
        matches!(self, State::Blocked)
    }

    /// Is this `Yielding`?
    pub fn is_yielding(&self) -> (r: bool)
        ensures
            r == (*self is Yielding),
    {
        matches!(self, State::Yielding)
    }

    /// Is this `Finished`?
    pub fn is_finished(&self) -> (r: bool)
        ensures
            r == (*self is Finished),
    {
        matches!(self, State::Finished(_))
    }
}

/// What a registrable event source is.
#[derive(Copy, Clone, Debug, Eq, PartialEq, Structural)]
pub enum SourceKind {
    /// A one-shot timer firing at an absolute time in milliseconds.
    Timer {
        /// Absolute deadline in milliseconds.
        deadline_ms: u64,
    },
    /// The receiving end of a mailbox; ready while the mailbox is non-empty.
    Mailbox {
        /// Index of the mailbox in the runtime's pool.
        mailbox_id: usize,
    },
}

/// An event source attached to a coroutine.
#[derive(Copy, Clone, Debug, Eq, PartialEq, Structural)]
pub struct EventSource {
    /// What the source is.
    pub kind: SourceKind,
    /// Unread readiness: the source became ready while the coroutine was not
    /// waiting on it.
    pub latched: bool,
    /// A source for a single wait: its slot is vacated when its event wakes
    /// the coroutine, the way a native runtime drops and deregisters the
    /// temporary source of a `sleep` or a one-shot read.
    pub one_shot: bool,
}

/// What the user entry reports when it returns instead of suspending.
#[derive(Copy, Clone, Debug, Eq, PartialEq, Structural)]
pub enum EntryOutcome {
    /// The entry returned; the payload is true on success.
    Return(bool),
    /// The entry unwound with a panic; the panic barrier caught it.
    Panic,
}

/// A single stackful green task.
pub struct Coroutine<B> {
    /// Id within the owning thread's coroutine table.
    pub id: CoroutineId,
    /// Index of the owning thread (back-reference to its handler).
    pub thread_id: usize,
    /// Lifecycle state.
    pub state: State,
    /// The user entry; absent only while the entry itself is executing.
    pub body: Option<B>,
    /// Attached event sources, indexed by `EventSourceId`.
    pub event_sources: Vec<Option<EventSource>>,
    /// Sources the coroutine currently waits on, each with a direction.
    pub blocked_on: Vec<(EventSourceId, RW)>,
    /// The event delivered by the most recent wake.
    pub last_event: Event,
    /// Children spawned during the current resumption, not yet handed to the
    /// scheduler.
    pub children: Vec<Coroutine<B>>,
    /// Mailboxes awaiting this coroutine's exit status.
    pub exit_notificators: Vec<usize>,
    /// User data of this coroutine.
    pub user_data: Option<u64>,
    /// User data copied into newly spawned children.
    pub inherited_user_data: Option<u64>,
    /// Whether a panic of the entry is contained.
    pub catch_panics: bool,
}

impl<B> Coroutine<B> {
    /// A freshly spawned coroutine: runnable, with nothing attached yet.
    pub open spec fn is_fresh(self) -> bool {
        &&& self.state is Ready
        &&& self.body is Some
        &&& self.event_sources@.len() == 0
        &&& self.blocked_on@.len() == 0
        &&& self.children@.len() == 0
    }

    /// Well-formedness: a coroutine is `Blocked` only when it waits on at
    /// least one source, and waits on none in any state but `Blocked` or
    /// `Running` (a running coroutine stages its waits before suspending);
    /// every source waited on is attached; children are freshly spawned.
    pub open spec fn wf(self) -> bool {
        &&& self.event_sources@.len() <= EVENT_SOURCE_TOKEN_SPAN
        &&& (self.state is Blocked ==> self.blocked_on@.len() > 0)
        &&& (self.state is Ready || self.state is Yielding || self.state is Finished
            ==> self.blocked_on@.len() == 0)
        &&& forall|i: int|
            0 <= i < self.blocked_on@.len() ==> (#[trigger] self.blocked_on@[i]).0.0
                < self.event_sources@.len() && self.event_sources@[self.blocked_on@[i].0.0 as int]
                is Some
        &&& forall|i: int|
            0 <= i < self.children@.len() ==> (#[trigger] self.children@[i]).is_fresh()
    }

    /// Whether another event source can be attached: a slot is vacant, or
    /// the token bit budget still has room for a new one.
    pub open spec fn has_source_room(self) -> bool {
        ||| self.event_sources@.len() < EVENT_SOURCE_TOKEN_SPAN
        ||| exists|i: int| 0 <= i < self.event_sources@.len() && self.event_sources@[i] is None
    }

    /// All mailboxes recorded by this coroutine or its children exist in the
    /// pool.
    pub open spec fn notifs_valid(self, pool: MailboxPool) -> bool {
        &&& forall|i: int|
            0 <= i < self.exit_notificators@.len() ==> (#[trigger] self.exit_notificators@[i])
                < pool.boxes@.len()
        &&& forall|i: int, j: int|
            0 <= i < self.children@.len() && 0 <= j
                < self.children@[i].exit_notificators@.len() ==> (
            #[trigger] self.children@[i].exit_notificators@[j]) < pool.boxes@.len()
        &&& forall|i: int|
            0 <= i < self.event_sources@.len() && self.event_sources@[i] is Some
                && (#[trigger] self.event_sources@[i])->Some_0.kind is Mailbox
                ==> self.event_sources@[i]->Some_0.kind->mailbox_id < pool.boxes@.len()
    }

    /// A new coroutine about to be attached to thread `thread_id`.
    ///
    /// The child's user data is the spawning context's inheritable data, as
    /// is its own inheritable data.
    pub fn new(body: B, inherited: Option<u64>, catch_panics: bool) -> (r: Self)
        ensures
            r.is_fresh(),
            r.body == Some(body),
            r.wf(),
            r.id == CoroutineId(0usize),
            r.thread_id == 0,
            r.exit_notificators@.len() == 0,
            r.user_data == inherited,
            r.inherited_user_data == inherited,
            r.catch_panics == catch_panics,
    {
        Coroutine {
            id: CoroutineId(0),
            thread_id: 0,
            state: State::Ready,
            body: Some(body),
            event_sources: Vec::new(),
            blocked_on: Vec::new(),
            last_event: Event { id: EventSourceId(0), rw: RW { read: false, write: false } },
            children: Vec::new(),
            exit_notificators: Vec::new(),
            user_data: inherited,
            inherited_user_data: inherited,
            catch_panics,
        }
    }

    /// The lifecycle state.
    pub fn state(&self) -> (r: State)
        ensures
            r == self.state,
    {
        self.state
    }

    /// The relation `event` establishes between the coroutine before and
    /// after a readiness delivery.
    pub open spec fn event_step(pre: Self, post: Self, src_id: EventSourceId, rw: RW, woken: bool) -> bool {
        &&& woken == (pre.state is Blocked && exists|i: int|
            0 <= i < pre.blocked_on@.len() && (#[trigger] pre.blocked_on@[i]).0 == src_id
                && rw.spec_overlaps(pre.blocked_on@[i].1))
        &&& (woken ==> post.state is Ready && post.blocked_on@.len() == 0 && post.last_event.id
            == src_id && rw.spec_overlaps(post.last_event.rw))
        &&& (!woken ==> post.state == pre.state && post.blocked_on == pre.blocked_on
            && post.last_event == pre.last_event)
        &&& post.id == pre.id
        &&& post.thread_id == pre.thread_id
        &&& post.body == pre.body
        &&& post.children == pre.children
        &&& post.exit_notificators == pre.exit_notificators
        &&& post.event_sources@.len() == pre.event_sources@.len()
    }

    /// Deliver readiness for source `src_id` in directions `rw`.
    ///
    /// If the coroutine waits on that source in an overlapping direction, it
    /// records the event, becomes `Ready` and stops waiting on anything;
    /// the call returns true and the caller hands the coroutine to the
    /// scheduler.  Otherwise the readiness is latched on the source (if it is
    /// attached) and false is returned: the event was spurious.
    pub fn event(&mut self, src_id: EventSourceId, rw: RW) -> (woken: bool)
        requires
            old(self).wf(),
        ensures
            final(self).wf(),
            woken == (old(self).state is Blocked && exists|i: int|
                0 <= i < old(self).blocked_on@.len() && (#[trigger] old(self).blocked_on@[i]).0
                    == src_id && rw.spec_overlaps(old(self).blocked_on@[i].1)),
            woken ==> final(self).state is Ready && final(self).blocked_on@.len() == 0
                && final(self).last_event.id == src_id
                && rw.spec_overlaps(final(self).last_event.rw),
            !woken ==> final(self).state == old(self).state && final(self).blocked_on
                == old(self).blocked_on && final(self).last_event == old(self).last_event,
            final(self).id == old(self).id,
            final(self).thread_id == old(self).thread_id,
            final(self).body == old(self).body,
            final(self).children == old(self).children,
            final(self).exit_notificators == old(self).exit_notificators,
            final(self).event_sources@.len() == old(self).event_sources@.len(),
            // a wake through a one-shot source vacates its slot, as the
            // native runtime drops the temporary source of a one-shot wait;
            // any other source keeps its slot
            woken && src_id.0 < old(self).event_sources@.len() && old(self).event_sources@[
                src_id.0 as int] is Some && old(self).event_sources@[src_id.0 as int]
                ->Some_0.one_shot ==> final(self).event_sources@ == old(
                self,
            ).event_sources@.update(src_id.0 as int, None::<EventSource>),
            woken && !(src_id.0 < old(self).event_sources@.len() && old(self).event_sources@[
                src_id.0 as int] is Some && old(self).event_sources@[src_id.0 as int]
                ->Some_0.one_shot) ==> final(self).event_sources@ == old(self).event_sources@,
            !woken ==> forall|i: int|
                0 <= i < old(self).event_sources@.len() ==> (
                #[trigger] final(self).event_sources@[i]) is Some == (old(self).event_sources@[i] is Some)
                && (final(self).event_sources@[i] is Some
                    ==> final(self).event_sources@[i]->Some_0.kind
                        == old(self).event_sources@[i]->Some_0.kind
                        && final(self).event_sources@[i]->Some_0.one_shot
                        == old(self).event_sources@[i]->Some_0.one_shot),
            Self::event_step(*old(self), *final(self), src_id, rw, woken),
    {
        let mut waiting: bool = false;
        let mut dir = RW::none();
        let blocked = self.state.is_blocked();
        if blocked {
            let n = self.blocked_on.len();
            let mut k: usize = 0;
            while k < n
                invariant
                    n == self.blocked_on@.len(),
                    k <= n,
                    !waiting ==> forall|i: int|
                        0 <= i < k ==> !((#[trigger] self.blocked_on@[i]).0 == src_id
                            && rw.spec_overlaps(self.blocked_on@[i].1)),
                    waiting ==> exists|i: int|
                        0 <= i < n && (#[trigger] self.blocked_on@[i]).0 == src_id
                            && rw.spec_overlaps(self.blocked_on@[i].1) && self.blocked_on@[i].1
                            == dir,
                decreases n - k,
            {
                let (sid, srw) = self.blocked_on[k];
                if sid == src_id && rw.overlaps(&srw) {
                    waiting = true;
                    dir = srw;
                }
                k = k + 1;
            }
        }
        if waiting {
            self.last_event = Event { id: src_id, rw: dir };
            self.state = State::Ready;
            self.blocked_on = Vec::new();
            let free_it = match &self.event_sources[src_id.0] {
                Some(src) => src.one_shot,
                None => false,
            };
            if free_it {
                let slot = &mut self.event_sources[src_id.0];
                *slot = None;
                proof {
                    assert(final(self).event_sources@ =~= old(self).event_sources@.update(
                        src_id.0 as int,
                        None::<EventSource>,
                    ));
                }
            } else {
                proof {
                    assert(final(self).event_sources@ =~= old(self).event_sources@);
                }
            }
            true
        } else {
            if src_id.0 < self.event_sources.len() {
                match &mut self.event_sources[src_id.0] {
                    Some(src) => {
                        src.latched = true;
                    },
                    None => {},
                }
            }
            proof {
                assert(final(self).event_sources@.len() == old(self).event_sources@.len());
            }
            false
        }
    }

    /// Enter the terminal state and deliver the exit status to every
    /// registered notificator mailbox, exactly once each; collect the
    /// thread and token of every waiter to wake.
    pub fn finish(
        &mut self,
        status: ExitStatus,
        pool: &mut MailboxPool,
        wakeups: &mut Vec<(usize, usize)>,
    )
        requires
            !(old(self).state is Finished),
            old(self).notifs_valid(*old(pool)),
        ensures
            final(self).state == State::Finished(status),
            final(self).exit_notificators@.len() == 0,
            final(self).blocked_on@.len() == 0,
            final(pool).boxes@.len() == old(pool).boxes@.len(),
            final(wakeups)@.len() >= old(wakeups)@.len(),
            // each previously registered notificator received exactly this
            // one status on top of what it had
            forall|i: int|
                0 <= i < old(self).exit_notificators@.len() ==> final(pool).boxes@[(
                #[trigger] old(self).exit_notificators@[i]) as int].queue@ == old(pool).boxes@[old(self).exit_notificators@[i] as int].queue@ + count_sends(
                    old(self).exit_notificators@,
                    old(self).exit_notificators@[i],
                    status,
                ),
            // mailboxes not registered are untouched
            forall|m: int|
                0 <= m < old(pool).boxes@.len() && !old(self).exit_notificators@.contains(m as usize)
                    ==> final(pool).boxes@[m] == old(pool).boxes@[m],
            final(self).id == old(self).id,
            final(self).thread_id == old(self).thread_id,
            final(self).body == old(self).body,
            final(self).children == old(self).children,
            final(self).user_data == old(self).user_data,
            final(self).event_sources == old(self).event_sources,
    {
        self.state = State::Finished(status);
        self.blocked_on = Vec::new();
        let n = self.exit_notificators.len();
        let mut k: usize = 0;
        while k < n
            invariant
                n == old(self).exit_notificators@.len(),
                self.exit_notificators == old(self).exit_notificators,
                k <= n,
                pool.boxes@.len() == old(pool).boxes@.len(),
                wakeups@.len() >= old(wakeups)@.len(),
                forall|i: int|
                    0 <= i < n ==> (#[trigger] self.exit_notificators@[i]) < pool.boxes@.len(),
                forall|m: int|
                    0 <= m < old(pool).boxes@.len() && !self.exit_notificators@.subrange(0, k as int)
                        .contains(m as usize) ==> pool.boxes@[m] == old(pool).boxes@[m],
                forall|i: int|
                    0 <= i < n ==> pool.boxes@[(#[trigger] self.exit_notificators@[i]) as int].queue@
                        == old(pool).boxes@[self.exit_notificators@[i] as int].queue@ + count_sends(
                        self.exit_notificators@.subrange(0, k as int),
                        self.exit_notificators@[i],
                        status,
                    ),
                self.state == State::Finished(status),
                self.blocked_on@.len() == 0,
                self.id == old(self).id,
                self.thread_id == old(self).thread_id,
                self.body == old(self).body,
                self.children == old(self).children,
                self.user_data == old(self).user_data,
                self.inherited_user_data == old(self).inherited_user_data,
                self.catch_panics == old(self).catch_panics,
                self.event_sources == old(self).event_sources,
            decreases n - k,
        {
            let ghost pre_pool = pool.boxes@;
            let mb = self.exit_notificators[k];
            let waiter = pool.send(mb, status);
            match waiter {
                Some((tid, token)) => {
                    wakeups.push((tid, token));
                },
                None => {},
            }
            proof {
                let pre = self.exit_notificators@.subrange(0, k as int);
                let post = self.exit_notificators@.subrange(0, k as int + 1);
                assert(post.drop_last() =~= pre);
                assert(post.last() == mb);
                assert forall|i: int|
                    0 <= i < n implies pool.boxes@[(#[trigger] self.exit_notificators@[i]) as int].queue@
                    == old(pool).boxes@[self.exit_notificators@[i] as int].queue@ + count_sends(
                    post,
                    self.exit_notificators@[i],
                    status,
                ) by {
                    lemma_count_sends_step(pre, post, self.exit_notificators@[i], status);
                    let nf = self.exit_notificators@[i];
                    if nf == mb {
                        assert(pool.boxes@[nf as int].queue@ == pre_pool[nf as int].queue@.push(
                            status,
                        ));
                    } else {
                        assert(pool.boxes@[nf as int].queue@ == pre_pool[nf as int].queue@);
                    }
                }
                assert forall|m: int|
                    0 <= m < old(pool).boxes@.len() && !post.contains(m as usize) implies
                    pool.boxes@[m] == old(pool).boxes@[m] by {
                    assert(!pre.contains(m as usize));
                    assert(pre_pool[m] == old(pool).boxes@[m]);
                    assert(m != mb);
                }
            }
            k = k + 1;
        }
        proof {
            assert(self.exit_notificators@.subrange(0, n as int) =~= self.exit_notificators@);
        }
        self.exit_notificators = Vec::new();
    }

    /// Re-home the coroutine: same state, stack and sources, but owned by a
    /// new thread under a new local id.  This is the receiving half of
    /// migration.
    pub fn attach_to(&mut self, thread_id: usize, new_id: CoroutineId)
        ensures
            *final(self) == (Coroutine { id: new_id, thread_id, ..*old(self) }),
    {
        self.id = new_id;
        self.thread_id = thread_id;
    }
}

/// The statuses that draining `notifs` sends to mailbox `mb`: one copy of
/// `status` for each occurrence of `mb` in the list.
pub open spec fn count_sends(notifs: Seq<usize>, mb: usize, status: ExitStatus) -> Seq<ExitStatus>
    decreases notifs.len(),
{
    if notifs.len() == 0 {
        Seq::empty()
    } else if notifs.last() == mb {
        count_sends(notifs.drop_last(), mb, status).push(status)
    } else {
        count_sends(notifs.drop_last(), mb, status)
    }
}

proof fn lemma_count_sends_step(pre: Seq<usize>, post: Seq<usize>, mb: usize, status: ExitStatus)
    requires
        post.drop_last() =~= pre,
        post.len() == pre.len() + 1,
    ensures
        post.last() == mb ==> count_sends(post, mb, status) == count_sends(pre, mb, status).push(
            status,
        ),
        post.last() != mb ==> count_sends(post, mb, status) == count_sends(pre, mb, status),
{
}

/// A mailbox registered exactly once receives exactly one status.
pub proof fn lemma_count_sends_single(notifs: Seq<usize>, mb: usize, status: ExitStatus)
    requires
        notifs.len() == 1,
        notifs[0] == mb,
    ensures
        count_sends(notifs, mb, status) =~= seq![status],
{
    let e = Seq::<usize>::empty();
    assert(notifs.drop_last() =~= e);
    assert(count_sends(e, mb, status) =~= Seq::<ExitStatus>::empty());
    assert(count_sends(notifs, mb, status) == count_sends(notifs.drop_last(), mb, status).push(
        status,
    ));
}


/// Number of live coroutines in a table.
pub open spec fn count_live<B>(s: Seq<Option<Coroutine<B>>>) -> nat
    decreases s.len(),
{
    if s.len() == 0 {
        0
    } else {
        count_live(s.drop_last()) + (if s.last() is Some {
            1nat
        } else {
            0nat
        })
    }
}

/// Replacing one slot changes the live count by the difference of the two
/// occupancies.
pub proof fn lemma_count_live_update<B>(s: Seq<Option<Coroutine<B>>>, i: int, v: Option<
    Coroutine<B>,
>)
    requires
        0 <= i < s.len(),
    ensures
        count_live(s.update(i, v)) + (if s[i] is Some {
            1nat
        } else {
            0nat
        }) == count_live(s) + (if v is Some {
            1nat
        } else {
            0nat
        }),
    decreases s.len(),
{
    let t = s.update(i, v);
    if i == s.len() - 1 {
        assert(t.drop_last() =~= s.drop_last());
    } else {
        assert(t.drop_last() =~= s.drop_last().update(i, v));
        assert(t.last() == s.last());
        lemma_count_live_update(s.drop_last(), i, v);
    }
}

/// Appending a slot adds its occupancy to the live count.
pub proof fn lemma_count_live_push<B>(s: Seq<Option<Coroutine<B>>>, v: Option<Coroutine<B>>)
    ensures
        count_live(s.push(v)) == count_live(s) + (if v is Some {
            1nat
        } else {
            0nat
        }),
{
    assert(s.push(v).drop_last() =~= s);
    assert(s.push(v).last() == v);
}


/// Suspension exclusivity: outside its running window, a coroutine is
/// `Blocked` exactly when it waits on at least one source; in every other
/// parked state it waits on none.
pub proof fn lemma_suspension_exclusivity<B>(c: Coroutine<B>)
    requires
        c.wf(),
        !(c.state is Running),
    ensures
        c.state is Blocked <==> c.blocked_on@.len() > 0,
{
}

/// An occupied slot makes the live count positive.
pub proof fn lemma_count_live_pos<B>(s: Seq<Option<Coroutine<B>>>, i: int)
    requires
        0 <= i < s.len(),
        s[i] is Some,
    ensures
        count_live(s) >= 1,
    decreases s.len(),
{
    if i == s.len() - 1 {
    } else {
        lemma_count_live_pos(s.drop_last(), i);
    }
}

/// The per-thread coroutine table: an arena keyed by `CoroutineId`, with ids
/// reused after death (the lowest vacant slot is taken first).
pub struct CoroutineSlab<B> {
    /// The slots; index is the coroutine id.
    pub slots: Vec<Option<Coroutine<B>>>,
}

impl<B> CoroutineSlab<B> {
    /// Number of live coroutines on this thread.
    pub open spec fn live(self) -> nat {
        count_live(self.slots@)
    }

    /// Every parked coroutine is well formed, knows its own slot and owning
    /// thread, holds its entry, has drained its children, and is neither
    /// running nor finished.
    pub open spec fn wf(self, thread_id: usize) -> bool {
        &&& self.slots@.len() <= COROUTINE_ID_MAX
        &&& forall|i: int|
            0 <= i < self.slots@.len() && self.slots@[i] is Some ==> {
                let c = (#[trigger] self.slots@[i])->Some_0;
                &&& c.wf()
                &&& c.id == CoroutineId(i as usize)
                &&& c.thread_id == thread_id
                &&& c.body is Some
                &&& c.children@.len() == 0
                &&& !(c.state is Running)
                &&& !(c.state is Finished)
            }
    }

    /// Every mailbox recorded by a parked coroutine exists in the pool.
    pub open spec fn notifs_valid(self, pool: MailboxPool) -> bool {
        forall|i: int|
            0 <= i < self.slots@.len() && self.slots@[i] is Some ==> (
            #[trigger] self.slots@[i])->Some_0.notifs_valid(pool)
    }

    /// An empty table.
    pub fn new() -> (r: Self)
        ensures
            r.slots@.len() == 0,
            r.live() == 0,
    {
        CoroutineSlab { slots: Vec::new() }
    }

    /// Whether `id` names a live coroutine.
    pub fn contains(&self, id: CoroutineId) -> (r: bool)
        ensures
            r == (id.0 < self.slots@.len() && self.slots@[id.0 as int] is Some),
    {
        id.0 < self.slots.len() && self.slots[id.0].is_some()
    }

    /// Take the coroutine `id` out of its slot, leaving the slot allocated
    /// but vacant.  The live count drops until the coroutine is put back.
    pub fn take(&mut self, id: CoroutineId) -> (r: Coroutine<B>)
        requires
            id.0 < old(self).slots@.len(),
            old(self).slots@[id.0 as int] is Some,
        ensures
            r == old(self).slots@[id.0 as int]->Some_0,
            final(self).slots@ == old(self).slots@.update(id.0 as int, None::<Coroutine<B>>),
            final(self).live() + 1 == old(self).live(),
    {
        let slot = &mut self.slots[id.0];
        let r = slot.take().unwrap();
        proof {
            assert(final(self).slots@ =~= old(self).slots@.update(id.0 as int, None::<
                Coroutine<B>,
            >));
            lemma_count_live_update(old(self).slots@, id.0 as int, None::<Coroutine<B>>);
        }
        r
    }

    /// Put a coroutine back into its (vacant) slot.
    pub fn put(&mut self, id: CoroutineId, co: Coroutine<B>)
        requires
            id.0 < old(self).slots@.len(),
            old(self).slots@[id.0 as int] is None,
        ensures
            final(self).slots@ == old(self).slots@.update(id.0 as int, Some(co)),
            final(self).live() == old(self).live() + 1,
    {
        let slot = &mut self.slots[id.0];
        *slot = Some(co);
        proof {
            assert(final(self).slots@ =~= old(self).slots@.update(id.0 as int, Some(co)));
            lemma_count_live_update(old(self).slots@, id.0 as int, Some(co));
        }
    }

    /// Free a slot for reuse, returning what it held.
    pub fn remove(&mut self, id: CoroutineId) -> (r: Coroutine<B>)
        requires
            id.0 < old(self).slots@.len(),
            old(self).slots@[id.0 as int] is Some,
        ensures
            r == old(self).slots@[id.0 as int]->Some_0,
            final(self).slots@ == old(self).slots@.update(id.0 as int, None::<Coroutine<B>>),
            final(self).live() + 1 == old(self).live(),
    {
        self.take(id)
    }

    /// Insert a coroutine into the lowest vacant slot, assigning it the
    /// slot's index as its id.  Fails — handing the coroutine back — only
    /// when the table has grown past the largest id a token can carry.
    pub fn insert(&mut self, co: Coroutine<B>) -> (r: Result<CoroutineId, Coroutine<B>>)
        requires
            old(self).slots@.len() <= COROUTINE_ID_MAX,
        ensures
            match r {
                Ok(id) => {
                    &&& id.0 < final(self).slots@.len()
                    &&& final(self).live() == old(self).live() + 1
                    &&& final(self).slots@[id.0 as int] == Some(
                        Coroutine { id, ..co },
                    )
                    &&& (id.0 < old(self).slots@.len() ==> old(self).slots@[id.0 as int] is None
                        && final(self).slots@ == old(self).slots@.update(id.0 as int, Some(
                        Coroutine { id, ..co },
                    )))
                    &&& (id.0 >= old(self).slots@.len() ==> id.0 == old(self).slots@.len()
                        && final(self).slots@ == old(self).slots@.push(Some(
                        Coroutine { id, ..co },
                    )))
                    &&& final(self).slots@.len() <= COROUTINE_ID_MAX
                },
                Err(back) => {
                    &&& back == co
                    &&& *final(self) == *old(self)
                    &&& old(self).slots@.len() >= COROUTINE_ID_MAX
                },
            },
    {
        let n = self.slots.len();
        let mut i: usize = 0;
        while i < n
            invariant
                n == self.slots@.len(),
                i <= n,
                *self == *old(self),
                self.slots@.len() <= COROUTINE_ID_MAX,
                forall|j: int| 0 <= j < i ==> (#[trigger] self.slots@[j]) is Some,
            decreases n - i,
        {
            if self.slots[i].is_none() {
                let mut co = co;
                co.id = CoroutineId(i);
                let id = co.id;
                let ghost stored = co;
                self.put(CoroutineId(i), co);
                proof {
                    assert(stored == (Coroutine { id, ..stored }));
                }
                return Ok(id);
            }
            i = i + 1;
        }
        if n >= COROUTINE_ID_MAX {
            return Err(co);
        }
        let mut co = co;
        co.id = CoroutineId(n);
        let id = co.id;
        self.slots.push(Some(co));
        proof {
            lemma_count_live_push(old(self).slots@, final(self).slots@.last());
        }
        Ok(id)
    }
}

/// The capability a resumed entry holds on its runtime: the coroutine
/// itself (taken out of its table for the duration of the resumption), the
/// mailbox pool, the notifier's clock, and the thread count.  The public
/// API functions of the crate root operate on it; it stands in for the
/// per-native-thread current-coroutine pointer of a stackful
/// implementation.
pub struct CoroCtx<B> {
    /// The coroutine being resumed; its `body` field is vacant, because the
    /// body itself is executing.
    pub co: Coroutine<B>,
    /// The runtime's mailbox pool.
    pub pool: MailboxPool,
    /// The notifier's clock, in milliseconds.
    pub now_ms: u64,
    /// Index of the thread the coroutine runs on.
    pub thread_id: usize,
    /// Number of threads of the running instance.
    pub thread_num: usize,
}

impl<B> CoroCtx<B> {
    /// What the runtime hands to an entry and what every API call
    /// preserves.
    pub open spec fn inv(self) -> bool {
        &&& self.co.wf()
        &&& self.co.body is None
        &&& self.co.notifs_valid(self.pool)
        &&& self.thread_num >= 1
    }

    /// How a context looks when an entry returns, relative to the context
    /// it was handed: still well formed, suspended or running, the same
    /// coroutine identity, and a pool that has only gained mailboxes.
    pub open spec fn follows(self, pre: Self) -> bool {
        &&& self.inv()
        &&& self.co.state is Running || self.co.state is Blocked || self.co.state is Yielding
        &&& self.co.id == pre.co.id
        &&& self.co.thread_id == pre.co.thread_id
        &&& self.co.catch_panics == pre.co.catch_panics
        &&& self.thread_num == pre.thread_num
        &&& self.thread_id == pre.thread_id
        &&& self.now_ms == pre.now_ms
        &&& self.pool.boxes@.len() >= pre.pool.boxes@.len()
    }
}

/// A user entry.  The runtime re-enters `resume` at every resumption of the
/// coroutine; an implementation keeps its own progress between resumptions
/// in `self`.  It suspends by driving the crate's public API on the given
/// context (yielding, blocking on sources, spawning children) and then
/// returning; if it leaves the coroutine `Running`, the returned value is
/// its exit.
///
/// The contract is the discipline that the public API enforces; it is what
/// the verified runtime relies on of user code, which is outside the reach
/// of verification — as the user entry of any runtime is.
pub trait CoroutineBody: Sized {
    /// One resumption.  `ev` is the event that woke the coroutine; at the
    /// first resumption it is a zeroed placeholder.
    fn resume(&mut self, cx: &mut CoroCtx<Self>, ev: Event) -> (r: EntryOutcome)
        requires
            old(cx).inv(),
            old(cx).co.state is Running,
        ensures
            final(cx).follows(*old(cx)),
    ;
}

} // verus!
