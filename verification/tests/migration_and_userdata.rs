use std::cell::RefCell;
use std::rc::Rc;

use mioco::coroutine::{CoroCtx, CoroutineBody, EntryOutcome};
use mioco::Event;

enum Role {
    Root,
    Worker,
}

struct Body {
    role: Role,
    workers: usize,
    threads_seen: Rc<RefCell<Vec<usize>>>,
}

impl CoroutineBody for Body {
    fn resume(&mut self, cx: &mut CoroCtx<Self>, _ev: Event) -> EntryOutcome {
        match &self.role {
            Role::Root => {
                assert_eq!(mioco::thread_num(cx), 4);
                let mut k = 0;
                while k < self.workers {
                    mioco::spawn_ext(
                        cx,
                        Body {
                            role: Role::Worker,
                            workers: 0,
                            threads_seen: self.threads_seen.clone(),
                        },
                    );
                    k += 1;
                }
                EntryOutcome::Return(true)
            }
            Role::Worker => {
                self.threads_seen.borrow_mut().push(cx.thread_id);
                EntryOutcome::Return(true)
            }
        }
    }
}

/// With four threads, eight spawned coroutines land two on each thread:
/// the default scheduler migrates spawns round-robin, and migration
/// carries each coroutine to the thread it then runs on.
#[test]
fn spawns_spread_round_robin_over_threads() {
    let threads_seen: Rc<RefCell<Vec<usize>>> = Rc::new(RefCell::new(Vec::new()));
    let body = Body { role: Role::Root, workers: 8, threads_seen: threads_seen.clone() };
    let (outcome, _) = mioco::start_threads(4, body, 10_000);
    assert!(outcome.is_ok());
    let mut seen = threads_seen.borrow().clone();
    assert_eq!(seen.len(), 8);
    seen.sort();
    assert_eq!(seen, vec![0, 0, 1, 1, 2, 2, 3, 3]);
}

struct DataBody {
    is_root: bool,
    log: Rc<RefCell<Vec<Option<u64>>>>,
}

impl CoroutineBody for DataBody {
    fn resume(&mut self, cx: &mut CoroCtx<Self>, _ev: Event) -> EntryOutcome {
        if self.is_root {
            // the root carries the configured user data
            self.log.borrow_mut().push(mioco::get_userdata(cx));
            mioco::set_userdata(cx, 7);
            self.log.borrow_mut().push(mioco::get_userdata(cx));
            mioco::set_children_userdata(cx, Some(9));
            mioco::spawn_ext(cx, DataBody { is_root: false, log: self.log.clone() });
            EntryOutcome::Return(true)
        } else {
            // the child inherits what was set for children
            self.log.borrow_mut().push(mioco::get_userdata(cx));
            EntryOutcome::Return(true)
        }
    }
}

/// User data: the first coroutine carries the configured blob, `set` then
/// `get` round-trips, and children inherit the inheritable data.
#[test]
fn userdata_is_carried_and_inherited() {
    let log: Rc<RefCell<Vec<Option<u64>>>> = Rc::new(RefCell::new(Vec::new()));
    let mut config = mioco::Config::new();
    config.set_thread_num(1);
    config.set_userdata(3);
    let mut instance = mioco::Mioco::new_configured(config);
    let (outcome, _) = instance.start(DataBody { is_root: true, log: log.clone() }, 10_000);
    assert!(outcome.is_ok());
    assert_eq!(*log.borrow(), vec![Some(3), Some(7), Some(9)]);
}

struct Quick;

impl CoroutineBody for Quick {
    fn resume(&mut self, _cx: &mut CoroCtx<Self>, _ev: Event) -> EntryOutcome {
        EntryOutcome::Return(true)
    }
}

/// When the last coroutine finishes, every thread's notifier shuts down
/// and `start` returns promptly.
#[test]
fn shutdown_drains_all_threads() {
    let (outcome, _) = mioco::start_threads(3, Quick, 100);
    assert!(outcome.is_ok());
}

/// The default instance runs with at least one thread and completes.
#[test]
fn default_start_runs_to_completion() {
    let (outcome, _) = mioco::start(Quick, 10_000);
    assert!(outcome.is_ok());
}
