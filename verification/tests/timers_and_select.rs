use std::cell::RefCell;
use std::rc::Rc;

use mioco::coroutine::{CoroCtx, CoroutineBody, EntryOutcome, SourceKind};
use mioco::timer::Timer;
use mioco::Event;
use mioco::RW;

struct Sleeper {
    phase: usize,
    log: Rc<RefCell<Vec<u64>>>,
}

impl CoroutineBody for Sleeper {
    fn resume(&mut self, cx: &mut CoroCtx<Self>, _ev: Event) -> EntryOutcome {
        if self.phase == 0 {
            self.phase = 1;
            self.log.borrow_mut().push(cx.now_ms);
            mioco::sleep(cx, 100);
            EntryOutcome::Return(true)
        } else {
            self.log.borrow_mut().push(cx.now_ms);
            EntryOutcome::Return(true)
        }
    }
}

/// `sleep(100)` wakes the coroutine once the clock reaches the deadline:
/// at least 100 ms later, and well before the half-second mark.
#[test]
fn sleep_wakes_at_the_deadline() {
    let log: Rc<RefCell<Vec<u64>>> = Rc::new(RefCell::new(Vec::new()));
    let (outcome, _) = mioco::start_threads(1, Sleeper { phase: 0, log: log.clone() }, 10_000);
    assert!(outcome.is_ok());
    let log = log.borrow();
    assert_eq!(log.len(), 2);
    let delta = log[1] - log[0];
    assert!(delta >= 100);
    assert!(delta < 500);
}

enum Role {
    Root,
    Child,
}

struct Selector {
    role: Role,
    phase: usize,
    mailbox_source: usize,
    log: Rc<RefCell<Vec<usize>>>,
}

impl CoroutineBody for Selector {
    fn resume(&mut self, cx: &mut CoroCtx<Self>, ev: Event) -> EntryOutcome {
        match &self.role {
            Role::Root => {
                if self.phase == 0 {
                    self.phase = 1;
                    let child = Selector {
                        role: Role::Child,
                        phase: 0,
                        mailbox_source: 0,
                        log: self.log.clone(),
                    };
                    let handle = mioco::spawn_ext(cx, child);
                    let mailbox = handle.exit_notificator(cx);
                    // wait on whichever is first: a 50 ms timer, or the
                    // child's exit (due at about 10 ms)
                    let deadline = cx.now_ms + 50;
                    let timer_source = mioco::attach_source(
                        cx,
                        SourceKind::Timer { deadline_ms: deadline },
                        false,
                    );
                    let mailbox_source = mailbox.attach(cx);
                    self.mailbox_source = mailbox_source.as_usize();
                    mioco::select_add(cx, timer_source, RW::read());
                    mioco::select_add(cx, mailbox_source, RW::read());
                    mioco::select_wait(cx);
                    EntryOutcome::Return(true)
                } else {
                    self.log.borrow_mut().push(ev.id().as_usize());
                    assert!(ev.has_read());
                    EntryOutcome::Return(true)
                }
            }
            Role::Child => {
                if self.phase == 0 {
                    self.phase = 1;
                    mioco::sleep(cx, 10);
                    EntryOutcome::Return(true)
                } else {
                    EntryOutcome::Return(true)
                }
            }
        }
    }
}

/// A select over a 50 ms timer and a mailbox that fires at about 10 ms
/// wakes on the mailbox, and exactly one event is delivered.
#[test]
fn select_wakes_on_the_earlier_source() {
    let log: Rc<RefCell<Vec<usize>>> = Rc::new(RefCell::new(Vec::new()));
    let body = Selector { role: Role::Root, phase: 0, mailbox_source: 0, log: log.clone() };
    let (outcome, _) = mioco::start_threads(1, body, 10_000);
    assert!(outcome.is_ok());
    // the root attached the timer first, the mailbox second
    assert_eq!(*log.borrow(), vec![1]);
}

struct TimerReader {
    phase: usize,
    log: Rc<RefCell<Vec<u64>>>,
}

impl CoroutineBody for TimerReader {
    fn resume(&mut self, cx: &mut CoroCtx<Self>, _ev: Event) -> EntryOutcome {
        if self.phase == 0 {
            self.phase = 1;
            let mut timer = Timer::new(cx.now_ms);
            timer.set_timeout(30, cx.now_ms);
            assert_eq!(timer.get_timeout_absolute(), cx.now_ms + 30);
            match timer.read(cx) {
                Some(now) => {
                    // only possible for an already-due timer
                    self.log.borrow_mut().push(now);
                    EntryOutcome::Return(true)
                }
                None => EntryOutcome::Return(true),
            }
        } else {
            self.log.borrow_mut().push(cx.now_ms);
            EntryOutcome::Return(true)
        }
    }
}

/// Reading a timer with a 30 ms timeout blocks the coroutine and wakes it
/// once the deadline passes.
#[test]
fn timer_read_blocks_until_due() {
    let log: Rc<RefCell<Vec<u64>>> = Rc::new(RefCell::new(Vec::new()));
    let (outcome, _) = mioco::start_threads(1, TimerReader { phase: 0, log: log.clone() }, 10_000);
    assert!(outcome.is_ok());
    let log = log.borrow();
    assert_eq!(log.len(), 1);
    assert!(log[0] >= 30);
    assert!(log[0] < 500);
}

struct RepeatSleeper {
    rounds_left: usize,
    slots_seen: Rc<RefCell<Vec<usize>>>,
}

impl CoroutineBody for RepeatSleeper {
    fn resume(&mut self, cx: &mut CoroCtx<Self>, _ev: Event) -> EntryOutcome {
        self.slots_seen.borrow_mut().push(cx.co.event_sources.len());
        if self.rounds_left > 0 {
            self.rounds_left -= 1;
            mioco::sleep(cx, 5);
        }
        EntryOutcome::Return(true)
    }
}

/// A coroutine that sleeps over and over reuses one source slot: the
/// one-shot timer's slot is vacated at each wake, so the source table
/// never grows past one entry no matter how often it blocks.
#[test]
fn repeated_sleeps_reuse_the_source_slot() {
    let slots_seen: Rc<RefCell<Vec<usize>>> = Rc::new(RefCell::new(Vec::new()));
    let body = RepeatSleeper { rounds_left: 5, slots_seen: slots_seen.clone() };
    let (outcome, _) = mioco::start_threads(1, body, 10_000);
    assert!(outcome.is_ok());
    // first resumption sees no sources; each later one sees exactly the
    // single slot, re-filled and re-vacated per sleep
    assert_eq!(*slots_seen.borrow(), vec![0, 1, 1, 1, 1, 1]);
}
