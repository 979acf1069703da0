use mioco::coroutine::{CoroutineId, ExitStatus, State};
use mioco::scheduler::FifoScheduler;
use mioco::thread::{sender_retry, EventLoop, EventLoopConfig, HandlerThreadShared, Message, RunError};
use mioco::timer::Timer;
use mioco::{
    in_coroutine, token_from_ids, token_to_ids, CoroutineControl, Event, EventSourceId, RW,
};

#[test]
fn rw_directions() {
    let r = RW::read();
    assert!(r.has_read());
    assert!(!r.has_write());
    let w = RW::write();
    assert!(!w.has_read());
    assert!(w.has_write());
    let b = RW::both();
    assert_eq!(b.as_tuple(), (true, true));
    let n = RW::none();
    assert_eq!(n.as_tuple(), (false, false));
    assert!(r.overlaps(&b));
    assert!(!r.overlaps(&w));
}

#[test]
fn event_accessors() {
    let ev = Event { id: EventSourceId(7), rw: RW::read() };
    assert_eq!(ev.id(), EventSourceId(7));
    assert!(ev.has_read());
    assert!(!ev.has_write());
}

#[test]
fn event_source_id_round_trip() {
    let id = EventSourceId::from_usize(12);
    assert_eq!(id.as_usize(), 12);
}

#[test]
fn token_round_trip() {
    let token = token_from_ids(CoroutineId(5), EventSourceId(3));
    assert_eq!(token, 5 * 1024 + 3);
    let (co, src) = token_to_ids(token);
    assert_eq!(co, CoroutineId(5));
    assert_eq!(src, EventSourceId(3));

    let token = token_from_ids(CoroutineId(0), EventSourceId(1023));
    let (co, src) = token_to_ids(token);
    assert_eq!(co, CoroutineId(0));
    assert_eq!(src, EventSourceId(1023));
}

#[test]
fn timer_deadlines() {
    let mut t = Timer::new(40);
    assert_eq!(t.get_timeout_absolute(), 40);
    assert!(t.is_done(40));
    t.set_timeout(60, 40);
    assert_eq!(t.get_timeout_absolute(), 100);
    assert!(!t.should_resume(99));
    assert!(t.should_resume(100));
    assert_eq!(t.register_delay(40), 60);
    assert_eq!(t.register_delay(200), 0);
    assert_eq!(t.try_read(99), None);
    assert_eq!(t.try_read(150), Some(150));
    t.set_timeout_absolute(7);
    assert_eq!(t.get_timeout_absolute(), 7);
}

#[test]
fn control_handle_yield_flag() {
    let mut ctrl = CoroutineControl::new(CoroutineId(4));
    assert_eq!(ctrl.id(), CoroutineId(4));
    assert!(!ctrl.is_yielding());
    ctrl.set_is_yielding();
    assert!(ctrl.is_yielding());
}

#[test]
fn shared_counters() {
    let shared = HandlerThreadShared::new(3);
    assert_eq!(shared.mioco_started, 0);
    assert_eq!(shared.coroutines_num, 0);
    assert_eq!(shared.thread_num, 3);
}

#[test]
fn fifo_scheduler_new() {
    let sched = FifoScheduler::new();
    assert_eq!(sched.threads_spawned, 0);
}

#[test]
fn full_queue_is_reported() {
    let config = EventLoopConfig { notify_capacity: 1, timer_tick_ms: 100 };
    let mut el: EventLoop<()> = EventLoop::configured(config);
    assert!(el.is_running());
    assert!(sender_retry(&mut el, Message::MailboxMsg(9)).is_ok());
    let refused = sender_retry(&mut el, Message::MailboxMsg(10));
    assert_eq!(refused, Err(RunError::QueueFull));
    el.shutdown();
    assert!(!el.is_running());
}

#[test]
fn in_coroutine_mirrors_current_slot() {
    assert!(!in_coroutine(&None));
    assert!(in_coroutine(&Some(CoroutineId(0))));
}

#[test]
fn states_and_exits() {
    assert!(State::Ready.is_ready());
    assert!(State::Running.is_running());
    assert!(State::Blocked.is_blocked());
    assert!(State::Yielding.is_yielding());
    assert!(State::Finished(ExitStatus::Killed).is_finished());
    assert!(!State::Ready.is_finished());
    assert_eq!(ExitStatus::Exit(true), ExitStatus::Exit(true));
    assert_ne!(ExitStatus::Exit(true), ExitStatus::Exit(false));
}

#[test]
fn config_defaults() {
    let config = mioco::Config::new();
    assert!(config.thread_num >= 1);
    assert_eq!(config.stack_size, 2 * 1024 * 1024);
    assert!(config.user_data.is_none());
    assert!(config.catch_panics);
    assert_eq!(config.event_loop_config.notify_capacity, 4096);
}
