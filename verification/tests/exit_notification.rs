use std::cell::RefCell;
use std::rc::Rc;

use mioco::coroutine::{CoroCtx, CoroutineBody, EntryOutcome, ExitStatus};
use mioco::mail::MailboxInnerEnd;
use mioco::Event;

enum Role {
    Root,
    Child(EntryOutcome),
    Peer,
}

struct Body {
    role: Role,
    phase: usize,
    mailbox: Option<MailboxInnerEnd>,
    child_exit: EntryOutcome,
    spawn_peer: bool,
    log: Rc<RefCell<Vec<ExitStatus>>>,
    peer_ran: Rc<RefCell<bool>>,
}

impl Body {
    fn child(&self, exit: EntryOutcome) -> Body {
        Body {
            role: Role::Child(exit),
            phase: 0,
            mailbox: None,
            child_exit: EntryOutcome::Return(true),
            spawn_peer: false,
            log: self.log.clone(),
            peer_ran: self.peer_ran.clone(),
        }
    }

    fn peer(&self) -> Body {
        Body {
            role: Role::Peer,
            phase: 0,
            mailbox: None,
            child_exit: EntryOutcome::Return(true),
            spawn_peer: false,
            log: self.log.clone(),
            peer_ran: self.peer_ran.clone(),
        }
    }
}

impl CoroutineBody for Body {
    fn resume(&mut self, cx: &mut CoroCtx<Self>, _ev: Event) -> EntryOutcome {
        match &self.role {
            Role::Root => {
                if self.phase == 0 {
                    self.phase = 1;
                    let child = self.child(self.child_exit);
                    let handle = mioco::spawn_ext(cx, child);
                    let mailbox = handle.exit_notificator(cx);
                    self.mailbox = Some(mailbox);
                    if self.spawn_peer {
                        let peer = self.peer();
                        mioco::spawn_ext(cx, peer);
                    }
                    match mailbox.read(cx) {
                        Some(status) => {
                            self.log.borrow_mut().push(status);
                            EntryOutcome::Return(true)
                        }
                        None => EntryOutcome::Return(true),
                    }
                } else {
                    let mailbox = self.mailbox.unwrap();
                    match mailbox.try_read(cx) {
                        Some(status) => {
                            self.log.borrow_mut().push(status);
                        }
                        None => panic!("woken without a status"),
                    }
                    EntryOutcome::Return(true)
                }
            }
            Role::Child(exit) => *exit,
            Role::Peer => {
                *self.peer_ran.borrow_mut() = true;
                EntryOutcome::Return(true)
            }
        }
    }
}

fn run(child_exit: EntryOutcome, spawn_peer: bool, catch_panics: bool) -> (
    Result<(), mioco::thread::RunError>,
    Vec<ExitStatus>,
    bool,
) {
    let log = Rc::new(RefCell::new(Vec::new()));
    let peer_ran = Rc::new(RefCell::new(false));
    let body = Body {
        role: Role::Root,
        phase: 0,
        mailbox: None,
        child_exit,
        spawn_peer,
        log: log.clone(),
        peer_ran: peer_ran.clone(),
    };
    let mut config = mioco::Config::new();
    config.set_thread_num(1);
    config.set_catch_panics(catch_panics);
    let mut instance = mioco::Mioco::new_configured(config);
    let (outcome, _) = instance.start(body, 10_000);
    let statuses = log.borrow().clone();
    let ran = *peer_ran.borrow();
    (outcome, statuses, ran)
}

/// A coroutine that finishes with an error sends exactly one
/// `Exit(false)` to its notificator.
#[test]
fn error_exit_is_delivered_once() {
    let (outcome, statuses, _) = run(EntryOutcome::Return(false), false, true);
    assert!(outcome.is_ok());
    assert_eq!(statuses, vec![ExitStatus::Exit(false)]);
}

/// A successful coroutine delivers `Exit(true)`.
#[test]
fn ok_exit_is_delivered_once() {
    let (outcome, statuses, _) = run(EntryOutcome::Return(true), false, true);
    assert!(outcome.is_ok());
    assert_eq!(statuses, vec![ExitStatus::Exit(true)]);
}

/// With panics contained, a panicking coroutine delivers
/// `ExitStatus::Panic`, its peers keep running, and the instance drains.
#[test]
fn contained_panic_is_delivered_and_peers_continue() {
    let (outcome, statuses, peer_ran) = run(EntryOutcome::Panic, true, true);
    assert!(outcome.is_ok());
    assert_eq!(statuses, vec![ExitStatus::Panic]);
    assert!(peer_ran);
}

/// With containment off, a panic propagates to thread 0 and collapses the
/// instance.
#[test]
fn uncontained_panic_collapses_the_instance() {
    let (outcome, _, _) = run(EntryOutcome::Panic, false, false);
    assert_eq!(outcome, Err(mioco::thread::RunError::PropagatedPanic));
}
