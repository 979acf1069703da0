//! In-process one-shot mailboxes used for coroutine exit notification.
//!
//! Mailboxes live in a pool owned by the runtime so that a sender registered
//! on one thread can be filled when its coroutine finishes on another.

use vstd::prelude::*;

use crate::coroutine::{CoroCtx, Coroutine, ExitStatus, SourceKind, State};
use crate::{attach_source, select_add, select_wait, EventSourceId, RW};

verus! {

/// Receiving end of a mailbox; an index into the runtime's pool.
#[derive(Copy, Clone, Debug, Eq, PartialEq, Structural)]
pub struct MailboxInnerEnd {
    /// Index of the mailbox in the pool.
    pub id: usize,
}

impl MailboxInnerEnd {
    /// The pool index this end reads from.
    pub fn id(&self) -> (r: usize)
        ensures
            r == self.id,
    {
        self.id
    }

    /// Attach this receiving end to the current coroutine as an event
    /// source, so that a `select` can wait on it.  The source persists
    /// across wakes until it is detached.
    pub fn attach<B>(&self, cx: &mut CoroCtx<B>) -> (r: EventSourceId)
        requires
            old(cx).co.has_source_room(),
            self.id < old(cx).pool.boxes@.len(),
        ensures
            r.0 < final(cx).co.event_sources@.len(),
            final(cx).co.event_sources@[r.0 as int] == Some(
                crate::coroutine::EventSource {
                    kind: SourceKind::Mailbox { mailbox_id: self.id },
                    latched: false,
                    one_shot: false,
                },
            ),
            r.0 < old(cx).co.event_sources@.len() ==> old(cx).co.event_sources@[r.0 as int]
                is None && final(cx).co.event_sources@ == old(cx).co.event_sources@.update(
                r.0 as int,
                final(cx).co.event_sources@[r.0 as int],
            ),
            r.0 >= old(cx).co.event_sources@.len() ==> r.0 == old(cx).co.event_sources@.len()
                && final(cx).co.event_sources@ == old(cx).co.event_sources@.push(
                final(cx).co.event_sources@[r.0 as int],
            ),
            final(cx).co == (Coroutine {
                event_sources: final(cx).co.event_sources,
                ..old(cx).co
            }),
            final(cx).pool == old(cx).pool,
            final(cx).now_ms == old(cx).now_ms,
            final(cx).thread_id == old(cx).thread_id,
            final(cx).thread_num == old(cx).thread_num,
    {
        attach_source(cx, SourceKind::Mailbox { mailbox_id: self.id }, false)
    }

    /// Try reading: the oldest undelivered status, if there is one.
    pub fn try_read<B>(&self, cx: &mut CoroCtx<B>) -> (r: Option<ExitStatus>)
        requires
            self.id < old(cx).pool.boxes@.len(),
        ensures
            old(cx).pool.boxes@[self.id as int].queue@.len() == 0 ==> r is None && final(cx).pool.boxes@ == old(cx).pool.boxes@ && final(cx).co == old(cx).co && final(cx).now_ms == old(cx).now_ms && final(cx).thread_id == old(cx).thread_id && final(cx).thread_num == old(cx).thread_num,
            old(cx).pool.boxes@[self.id as int].queue@.len() > 0 ==> {
                &&& r == Some(old(cx).pool.boxes@[self.id as int].queue@[0])
                &&& final(cx).pool.boxes@[self.id as int].queue@ == old(cx).pool.boxes@[
                    self.id as int].queue@.drop_first()
                &&& final(cx).pool.boxes@.len() == old(cx).pool.boxes@.len()
                &&& forall|i: int|
                    0 <= i < old(cx).pool.boxes@.len() && i != self.id ==> final(cx).pool.boxes@[i] == old(cx).pool.boxes@[i]
                &&& final(cx).co == old(cx).co
                &&& final(cx).now_ms == old(cx).now_ms
                &&& final(cx).thread_id == old(cx).thread_id
                &&& final(cx).thread_num == old(cx).thread_num
            },
    {
        cx.pool.take_front(self.id)
    }

    /// Read, blocking the coroutine until a status arrives.
    ///
    /// If one is already queued it comes back at once.  Otherwise the
    /// mailbox is attached as an event source and waited on; the entry
    /// then returns, and its next resumption is the wake.
    pub fn read<B>(&self, cx: &mut CoroCtx<B>) -> (r: Option<ExitStatus>)
        requires
            self.id < old(cx).pool.boxes@.len(),
            old(cx).co.state is Running,
            old(cx).co.blocked_on@.len() == 0,
            old(cx).co.has_source_room(),
        ensures
            old(cx).pool.boxes@[self.id as int].queue@.len() > 0 ==> {
                &&& r == Some(old(cx).pool.boxes@[self.id as int].queue@[0])
                &&& final(cx).pool.boxes@[self.id as int].queue@ == old(cx).pool.boxes@[
                    self.id as int].queue@.drop_first()
                &&& final(cx).pool.boxes@.len() == old(cx).pool.boxes@.len()
                &&& forall|i: int|
                    0 <= i < old(cx).pool.boxes@.len() && i != self.id ==> final(cx).pool.boxes@[i] == old(cx).pool.boxes@[i]
                &&& final(cx).co == old(cx).co
                &&& final(cx).now_ms == old(cx).now_ms
                &&& final(cx).thread_id == old(cx).thread_id
                &&& final(cx).thread_num == old(cx).thread_num
            },
            old(cx).pool.boxes@[self.id as int].queue@.len() == 0 ==> {
                &&& r is None
                &&& final(cx).co.state is Blocked
                &&& final(cx).co.blocked_on@.len() == 1
                &&& ({
                    let sid = final(cx).co.blocked_on@[0].0;
                    &&& final(cx).co.blocked_on@[0].1 == (RW { read: true, write: false })
                    &&& sid.0 < final(cx).co.event_sources@.len()
                    &&& final(cx).co.event_sources@[sid.0 as int] == Some(
                        crate::coroutine::EventSource {
                            kind: SourceKind::Mailbox { mailbox_id: self.id },
                            latched: false,
                            one_shot: true,
                        },
                    )
                    &&& (sid.0 < old(cx).co.event_sources@.len() ==> old(cx).co.event_sources@[
                        sid.0 as int] is None && final(cx).co.event_sources@ == old(
                        cx,
                    ).co.event_sources@.update(
                        sid.0 as int,
                        final(cx).co.event_sources@[sid.0 as int],
                    ))
                    &&& (sid.0 >= old(cx).co.event_sources@.len() ==> sid.0 == old(
                        cx,
                    ).co.event_sources@.len() && final(cx).co.event_sources@ == old(
                        cx,
                    ).co.event_sources@.push(final(cx).co.event_sources@[sid.0 as int]))
                })
                &&& final(cx).co == (Coroutine {
                    state: State::Blocked,
                    event_sources: final(cx).co.event_sources,
                    blocked_on: final(cx).co.blocked_on,
                    ..old(cx).co
                })
                &&& final(cx).pool.boxes@ == old(cx).pool.boxes@
                &&& final(cx).now_ms == old(cx).now_ms
                &&& final(cx).thread_id == old(cx).thread_id
                &&& final(cx).thread_num == old(cx).thread_num
            },
    {
        let got = self.try_read(cx);
        match got {
            Some(status) => Some(status),
            None => {
                let sid = attach_source(
                    cx,
                    SourceKind::Mailbox { mailbox_id: self.id },
                    true,
                );
                select_add(cx, sid, RW::read());
                select_wait(cx);
                None
            },
        }
    }
}

/// One mailbox: its queued statuses and, if a coroutine currently waits
/// on it, the thread and token to wake when something arrives.
pub struct Mailbox {
    /// Queued statuses, in arrival order.
    pub queue: Vec<ExitStatus>,
    /// The registered waiter: destination thread and token.
    pub waiter: Option<(usize, usize)>,
}

/// Pool of mailboxes carrying coroutine exit statuses.
pub struct MailboxPool {
    /// The mailboxes.
    pub boxes: Vec<Mailbox>,
}

impl MailboxPool {
    /// An empty pool.
    pub fn new() -> (r: Self)
        ensures
            r.boxes@ =~= Seq::<Mailbox>::empty(),
    {
        MailboxPool { boxes: Vec::new() }
    }

    /// Allocate a fresh, empty mailbox and hand back its receiving end.
    pub fn mailbox(&mut self) -> (r: MailboxInnerEnd)
        ensures
            r.id == old(self).boxes@.len(),
            final(self).boxes@.len() == old(self).boxes@.len() + 1,
            forall|i: int| 0 <= i < old(self).boxes@.len()
                ==> final(self).boxes@[i] == old(self).boxes@[i],
            final(self).boxes@[r.id as int].queue@ =~= Seq::<ExitStatus>::empty(),
            final(self).boxes@[r.id as int].waiter is None,
    {
        let id = self.boxes.len();
        self.boxes.push(Mailbox { queue: Vec::new(), waiter: None });
        MailboxInnerEnd { id }
    }

    /// Deliver one status to a mailbox, and learn who to wake.
    pub fn send(&mut self, id: usize, status: ExitStatus) -> (waiter: Option<(usize, usize)>)
        requires
            id < old(self).boxes@.len(),
        ensures
            final(self).boxes@.len() == old(self).boxes@.len(),
            final(self).boxes@[id as int].queue@ == old(self).boxes@[id as int].queue@.push(
                status,
            ),
            final(self).boxes@[id as int].waiter == old(self).boxes@[id as int].waiter,
            waiter == old(self).boxes@[id as int].waiter,
            forall|i: int| 0 <= i < old(self).boxes@.len() && i != id
                ==> final(self).boxes@[i] == old(self).boxes@[i],
    {
        let slot = &mut self.boxes[id];
        slot.queue.push(status);
        let waiter = slot.waiter;
        proof {
            assert(final(self).boxes@ =~= old(self).boxes@.update(id as int, *final(slot)));
        }
        waiter
    }

    /// Register the waiter to wake when this mailbox next receives.
    pub fn set_waiter(&mut self, id: usize, thread_id: usize, token: usize)
        requires
            id < old(self).boxes@.len(),
        ensures
            final(self).boxes@.len() == old(self).boxes@.len(),
            final(self).boxes@[id as int].queue == old(self).boxes@[id as int].queue,
            final(self).boxes@[id as int].waiter == Some((thread_id, token)),
            forall|i: int| 0 <= i < old(self).boxes@.len() && i != id
                ==> final(self).boxes@[i] == old(self).boxes@[i],
    {
        let slot = &mut self.boxes[id];
        slot.waiter = Some((thread_id, token));
        proof {
            assert(final(self).boxes@ =~= old(self).boxes@.update(id as int, *final(slot)));
        }
    }

    /// Number of statuses a mailbox has received so far.
    pub fn len_of(&self, id: usize) -> (r: usize)
        requires
            id < self.boxes@.len(),
        ensures
            r == self.boxes@[id as int].queue@.len(),
    {
        self.boxes[id].queue.len()
    }

    /// Read the `i`-th status a mailbox received.
    pub fn get(&self, id: usize, i: usize) -> (r: ExitStatus)
        requires
            id < self.boxes@.len(),
            i < self.boxes@[id as int].queue@.len(),
        ensures
            r == self.boxes@[id as int].queue@[i as int],
    {
        self.boxes[id].queue[i]
    }

    /// Take the oldest undelivered status of a mailbox, if any.
    pub fn take_front(&mut self, id: usize) -> (r: Option<ExitStatus>)
        requires
            id < old(self).boxes@.len(),
        ensures
            old(self).boxes@[id as int].queue@.len() == 0 ==> r is None && final(self).boxes@
                == old(self).boxes@,
            old(self).boxes@[id as int].queue@.len() > 0 ==> {
                &&& r == Some(old(self).boxes@[id as int].queue@[0])
                &&& final(self).boxes@[id as int].queue@ == old(self).boxes@[
                    id as int].queue@.drop_first()
                &&& final(self).boxes@.len() == old(self).boxes@.len()
                &&& forall|i: int|
                    0 <= i < old(self).boxes@.len() && i != id ==> final(self).boxes@[i] == old(self).boxes@[i]
            },
    {
        let slot = &mut self.boxes[id];
        if slot.queue.len() == 0 {
            proof {
                assert(final(self).boxes@ =~= old(self).boxes@.update(id as int, *final(slot)));
                assert(final(self).boxes@ =~= old(self).boxes@);
            }
            None
        } else {
            let status = slot.queue.remove(0);
            proof {
                assert(final(self).boxes@ =~= old(self).boxes@.update(id as int, *final(slot)));
                assert(final(slot).queue@ =~= old(self).boxes@[id as int].queue@.drop_first());
            }
            Some(status)
        }
    }

    /// Whether a mailbox is non-empty, i.e. its receiver would resume.
    pub fn should_resume(&self, id: usize) -> (r: bool)
        requires
            id < self.boxes@.len(),
        ensures
            r == (self.boxes@[id as int].queue@.len() > 0),
    {
        self.boxes[id].queue.len() > 0
    }
}

} // verus!
