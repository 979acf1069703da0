use std::cell::RefCell;
use std::rc::Rc;

use mioco::coroutine::{CoroCtx, CoroutineBody, EntryOutcome};
use mioco::Event;

enum Role {
    Root,
    Worker(&'static str),
}

struct Body {
    role: Role,
    yields_left: usize,
    log: Rc<RefCell<Vec<String>>>,
}

impl CoroutineBody for Body {
    fn resume(&mut self, cx: &mut CoroCtx<Self>, _ev: Event) -> EntryOutcome {
        match &self.role {
            Role::Root => {
                mioco::spawn_ext(
                    cx,
                    Body { role: Role::Worker("A"), yields_left: 1, log: self.log.clone() },
                );
                mioco::spawn_ext(
                    cx,
                    Body { role: Role::Worker("B"), yields_left: 1, log: self.log.clone() },
                );
                EntryOutcome::Return(true)
            }
            Role::Worker(tag) => {
                let tag = *tag;
                self.log.borrow_mut().push(tag.to_string());
                if self.yields_left > 0 {
                    self.yields_left -= 1;
                    mioco::yield_now(cx);
                }
                EntryOutcome::Return(true)
            }
        }
    }
}

/// Two coroutines on one thread that alternate writes through `yield_now`
/// interleave strictly: after a yield, the other ready coroutine runs
/// before the yielder resumes.
#[test]
fn yield_now_alternates_fifo() {
    let log: Rc<RefCell<Vec<String>>> = Rc::new(RefCell::new(Vec::new()));
    let body = Body { role: Role::Root, yields_left: 0, log: log.clone() };
    let (outcome, _) = mioco::start_threads(1, body, 10_000);
    assert!(outcome.is_ok());
    assert_eq!(*log.borrow(), vec!["A", "B", "A", "B"]);
}

struct Spinner {
    log: Rc<RefCell<Vec<u64>>>,
}

impl CoroutineBody for Spinner {
    fn resume(&mut self, cx: &mut CoroCtx<Self>, _ev: Event) -> EntryOutcome {
        self.log.borrow_mut().push(cx.now_ms);
        mioco::yield_now(cx);
        EntryOutcome::Return(true)
    }
}

/// A coroutine that yields forever exhausts the run's step budget instead
/// of completing.
#[test]
fn endless_yielder_hits_step_limit() {
    let log = Rc::new(RefCell::new(Vec::new()));
    let (outcome, _) = mioco::start_threads(1, Spinner { log }, 50);
    assert_eq!(outcome, Err(mioco::thread::RunError::StepLimit));
}
