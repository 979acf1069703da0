//! A one-shot timer event source.
//!
//! A timer can block a coroutine or bound the wait of a `select`.  Time is
//! the notifier's explicit clock in milliseconds; what a native
//! implementation reads from a monotonic system clock is here handed in by
//! the runtime.

use vstd::prelude::*;

use crate::coroutine::{CoroCtx, Coroutine, SourceKind, State};
use crate::{attach_source, select_add, select_wait, RW};

verus! {

/// A timer generating one event at an absolute time.
#[derive(Copy, Clone, Debug, Eq, PartialEq, Structural)]
pub struct Timer {
    /// The absolute time the timer fires at, in milliseconds.
    pub timeout_abs_ms: u64,
}

impl Timer {
    /// A new timer, due immediately.
    pub fn new(now_ms: u64) -> (r: Timer)
        ensures
            r.timeout_abs_ms == now_ms,
    {
        Timer { timeout_abs_ms: now_ms }
    }

    /// Whether the timer is due: its deadline has passed.
    pub fn should_resume(&self, now_ms: u64) -> (r: bool)
        ensures
            r == (self.timeout_abs_ms <= now_ms),
    {
        self.timeout_abs_ms <= now_ms
    }

    /// Whether the timer is done.
    pub fn is_done(&self, now_ms: u64) -> (r: bool)
        ensures
            r == (self.timeout_abs_ms <= now_ms),
    {
        self.should_resume(now_ms)
    }

    /// How long a registration made now would wait: nothing if the
    /// deadline has passed, else the time left to it.
    pub fn register_delay(&self, now_ms: u64) -> (r: u64)
        ensures
            r == if self.timeout_abs_ms <= now_ms {
                0u64
            } else {
                (self.timeout_abs_ms - now_ms) as u64
            },
    {
        if self.timeout_abs_ms <= now_ms {
            0
        } else {
            self.timeout_abs_ms - now_ms
        }
    }

    /// Make the timer fire `delay_ms` from now.
    pub fn set_timeout(&mut self, delay_ms: u64, now_ms: u64)
        requires
            now_ms + delay_ms <= u64::MAX,
        ensures
            final(self).timeout_abs_ms == now_ms + delay_ms,
    {
        self.timeout_abs_ms = now_ms + delay_ms;
    }

    /// Make the timer fire at an absolute time.
    pub fn set_timeout_absolute(&mut self, timeout_ms: u64)
        ensures
            final(self).timeout_abs_ms == timeout_ms,
    {
        self.timeout_abs_ms = timeout_ms;
    }

    /// The absolute time the timer fires at.
    pub fn get_timeout_absolute(&self) -> (r: u64)
        ensures
            r == self.timeout_abs_ms,
    {
        self.timeout_abs_ms
    }

    /// Try reading the timer: the current time if it is done, nothing
    /// otherwise.
    pub fn try_read(&self, now_ms: u64) -> (r: Option<u64>)
        ensures
            self.timeout_abs_ms <= now_ms ==> r == Some(now_ms),
            self.timeout_abs_ms > now_ms ==> r is None,
    {
        if self.is_done(now_ms) {
            Some(now_ms)
        } else {
            None
        }
    }

    /// Read the timer, blocking the coroutine until it is done.
    ///
    /// If the timer is already due, the current time comes back at once.
    /// Otherwise the timer is attached as an event source and waited on;
    /// the entry then returns, and its next resumption is the wake.
    pub fn read<B>(&self, cx: &mut CoroCtx<B>) -> (r: Option<u64>)
        requires
            old(cx).co.state is Running,
            old(cx).co.blocked_on@.len() == 0,
            old(cx).co.has_source_room(),
        ensures
            self.timeout_abs_ms <= old(cx).now_ms ==> r == Some(old(cx).now_ms) && *final(cx)
                == *old(cx),
            self.timeout_abs_ms > old(cx).now_ms ==> {
                &&& r is None
                &&& final(cx).co.state is Blocked
                &&& final(cx).co.blocked_on@.len() == 1
                &&& ({
                    let sid = final(cx).co.blocked_on@[0].0;
                    &&& final(cx).co.blocked_on@[0].1 == (RW { read: true, write: false })
                    &&& sid.0 < final(cx).co.event_sources@.len()
                    &&& final(cx).co.event_sources@[sid.0 as int] == Some(
                        crate::coroutine::EventSource {
                            kind: SourceKind::Timer { deadline_ms: self.timeout_abs_ms },
                            latched: false,
                            one_shot: true,
                        },
                    )
                    &&& (sid.0 < old(cx).co.event_sources@.len() ==> old(cx).co.event_sources@[
                        sid.0 as int] is None && final(cx).co.event_sources@ == old(
                        cx,
                    ).co.event_sources@.update(
                        sid.0 as int,
                        final(cx).co.event_sources@[sid.0 as int],
                    ))
                    &&& (sid.0 >= old(cx).co.event_sources@.len() ==> sid.0 == old(
                        cx,
                    ).co.event_sources@.len() && final(cx).co.event_sources@ == old(
                        cx,
                    ).co.event_sources@.push(final(cx).co.event_sources@[sid.0 as int]))
                })
                &&& final(cx).co == (Coroutine {
                    state: State::Blocked,
                    event_sources: final(cx).co.event_sources,
                    blocked_on: final(cx).co.blocked_on,
                    ..old(cx).co
                })
                &&& final(cx).pool == old(cx).pool
                &&& final(cx).now_ms == old(cx).now_ms
                &&& final(cx).thread_id == old(cx).thread_id
                &&& final(cx).thread_num == old(cx).thread_num
            },
    {
        if let Some(t) = self.try_read(cx.now_ms) {
            return Some(t);
        }
        let sid = attach_source(cx, SourceKind::Timer { deadline_ms: self.timeout_abs_ms }, true);
        select_add(cx, sid, RW::read());
        select_wait(cx);
        None
    }
}

} // verus!
