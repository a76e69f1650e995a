use kthreads::scheduler::{
    get_thread_to_run, make_runnable, reap_threads, runnable_count, spawn_thread, thread_state,
};
use kthreads::sleep_object::{
    is_sleep_object, new_sleep_object, pending_events, post, wait_any, AnyOutcome, SleepObject,
    SleepOutcome, WaitError,
};
use kthreads::wait_queue::{has_waiter, is_wait_queue, new_wait_queue, wake_all, wake_one, WaitQueue};
use kthreads::worker_thread::{is_worker, JoinStep, WorkerThread};
use kthreads::{
    get_thread_id, init, reschedule, terminate_thread, yield_time, RunState, Scheduler, Switch,
};

fn start(s: &mut Scheduler, name: &str) -> u32 {
    let thread = spawn_thread(s, name, 0).unwrap();
    let tid = thread.get_tid();
    make_runnable(s, thread);
    tid
}

#[test]
fn new_wait_queue_is_empty() {
    let mut s = init();
    assert!(!is_wait_queue(&s, 0));
    let q = new_wait_queue(&mut s).unwrap();
    assert_eq!(q, 0);
    assert!(is_wait_queue(&s, q));
    assert!(!has_waiter(&s, q));
    assert_eq!(new_wait_queue(&mut s), Some(1));
    let lone = WaitQueue::new();
    assert!(!lone.has_waiter());
}

#[test]
fn waiting_thread_is_not_runnable() {
    let mut s = init();
    let q = new_wait_queue(&mut s).unwrap();
    let a = start(&mut s, "a");
    assert_eq!(kthreads::wait_queue::wait(&mut s, q), Switch::To(a));
    assert_eq!(thread_state(&s, 0), Some(RunState::ListWait(q)));
    assert!(has_waiter(&s, q));
    assert_eq!(runnable_count(&s), 0);
    // Yielding never brings the waiter back.
    assert_eq!(yield_time(&mut s), Switch::ToSelfThenIdle(a));
    assert_eq!(get_thread_id(&s), a);
}

#[test]
fn wait_with_nothing_runnable_goes_idle() {
    let mut s = init();
    let q = new_wait_queue(&mut s).unwrap();
    assert_eq!(kthreads::wait_queue::wait(&mut s, q), Switch::ToIdle(1));
    assert_eq!(get_thread_id(&s), 1);
    assert!(wake_one(&mut s, q));
    assert_eq!(reschedule(&mut s), Switch::To(0));
}

#[test]
fn wake_one_shows_the_waiter_to_the_next_pop_once() {
    let mut s = init();
    let q = new_wait_queue(&mut s).unwrap();
    let a = start(&mut s, "a");
    kthreads::wait_queue::wait(&mut s, q);
    assert_eq!(get_thread_id(&s), a);
    assert!(wake_one(&mut s, q));
    assert!(!has_waiter(&s, q));
    assert_eq!(thread_state(&s, 0), Some(RunState::Runnable));
    assert_eq!(runnable_count(&s), 1);
    let popped = get_thread_to_run(&mut s).unwrap();
    assert_eq!(popped.get_tid(), 0);
    assert!(get_thread_to_run(&mut s).is_none());
    // A second wake finds nobody.
    assert!(!wake_one(&mut s, q));
    assert_eq!(runnable_count(&s), 0);
    make_runnable(&mut s, popped);
}

#[test]
fn waiters_wake_in_the_order_they_blocked() {
    let mut s = init();
    let q = new_wait_queue(&mut s).unwrap();
    let a = start(&mut s, "a");
    let b = start(&mut s, "b");
    let c = start(&mut s, "c");
    kthreads::wait_queue::wait(&mut s, q); // thread 0 blocks, a runs
    kthreads::wait_queue::wait(&mut s, q); // a blocks, b runs
    kthreads::wait_queue::wait(&mut s, q); // b blocks, c runs
    assert_eq!(get_thread_id(&s), c);
    assert!(wake_one(&mut s, q));
    assert_eq!(thread_state(&s, 0), Some(RunState::Runnable));
    assert_eq!(thread_state(&s, a), Some(RunState::ListWait(q)));
    wake_all(&mut s, q);
    assert!(!has_waiter(&s, q));
    assert_eq!(thread_state(&s, a), Some(RunState::Runnable));
    assert_eq!(thread_state(&s, b), Some(RunState::Runnable));
    assert_eq!(yield_time(&mut s), Switch::To(0));
    assert_eq!(yield_time(&mut s), Switch::To(a));
    assert_eq!(yield_time(&mut s), Switch::To(b));
    assert_eq!(yield_time(&mut s), Switch::To(c));
}

#[test]
fn wait_queues_are_independent() {
    let mut s = init();
    let q0 = new_wait_queue(&mut s).unwrap();
    let q1 = new_wait_queue(&mut s).unwrap();
    let a = start(&mut s, "a");
    kthreads::wait_queue::wait(&mut s, q1);
    assert_eq!(get_thread_id(&s), a);
    assert!(!has_waiter(&s, q0));
    assert!(has_waiter(&s, q1));
    assert!(!wake_one(&mut s, q0));
    wake_all(&mut s, q0);
    assert_eq!(thread_state(&s, 0), Some(RunState::ListWait(q1)));
    assert!(wake_one(&mut s, q1));
}

#[test]
fn new_sleep_object_has_nothing_pending() {
    let mut s = init();
    assert!(!is_sleep_object(&s, 0));
    let k = new_sleep_object(&mut s, "rx").unwrap();
    assert_eq!(k, 0);
    assert!(is_sleep_object(&s, k));
    assert_eq!(pending_events(&s, k), 0);
    let lone = SleepObject::new("lone");
    assert_eq!(lone.pending(), 0);
    assert_eq!(lone.get_name(), "lone");
}

#[test]
fn post_before_wait_is_not_missed() {
    let mut s = init();
    let k = new_sleep_object(&mut s, "rx").unwrap();
    assert!(!post(&mut s, k, 0b0100));
    assert!(!post(&mut s, k, 0b0001));
    assert_eq!(pending_events(&s, k), 0b0101);
    assert_eq!(
        kthreads::sleep_object::wait(&mut s, k),
        Ok(SleepOutcome::Ready(0b0101))
    );
    assert_eq!(pending_events(&s, k), 0);
    assert_eq!(get_thread_id(&s), 0);
}

#[test]
fn wait_then_post_wakes_the_sleeper() {
    let mut s = init();
    let k = new_sleep_object(&mut s, "rx").unwrap();
    let a = start(&mut s, "a");
    assert_eq!(
        kthreads::sleep_object::wait(&mut s, k),
        Ok(SleepOutcome::Blocked(Switch::To(a)))
    );
    assert_eq!(thread_state(&s, 0), Some(RunState::Sleep(k)));
    assert_eq!(runnable_count(&s), 0);
    // A post without an event wakes nobody.
    assert!(!post(&mut s, k, 0));
    assert_eq!(thread_state(&s, 0), Some(RunState::Sleep(k)));
    assert!(post(&mut s, k, 0b10));
    assert_eq!(thread_state(&s, 0), Some(RunState::Runnable));
    assert_eq!(runnable_count(&s), 1);
    assert_eq!(yield_time(&mut s), Switch::To(0));
    // Awake again, the thread collects what was posted.
    assert_eq!(kthreads::sleep_object::wait(&mut s, k), Ok(SleepOutcome::Ready(0b10)));
    assert_eq!(pending_events(&s, k), 0);
}

#[test]
fn posts_after_the_wake_are_kept_for_the_sleeper() {
    let mut s = init();
    let k = new_sleep_object(&mut s, "rx").unwrap();
    let a = start(&mut s, "a");
    kthreads::sleep_object::wait(&mut s, k).unwrap();
    assert_eq!(get_thread_id(&s), a);
    assert!(post(&mut s, k, 0b01));
    assert!(!post(&mut s, k, 0b10));
    assert_eq!(runnable_count(&s), 1);
    yield_time(&mut s);
    assert_eq!(kthreads::sleep_object::wait(&mut s, k), Ok(SleepOutcome::Ready(0b11)));
}

#[test]
fn second_sleeper_is_refused() {
    let mut s = init();
    let k = new_sleep_object(&mut s, "rx").unwrap();
    let a = start(&mut s, "a");
    kthreads::sleep_object::wait(&mut s, k).unwrap();
    assert_eq!(get_thread_id(&s), a);
    assert_eq!(kthreads::sleep_object::wait(&mut s, k), Err(WaitError::WaiterPresent));
    assert_eq!(get_thread_id(&s), a);
    assert_eq!(thread_state(&s, a), Some(RunState::Runnable));
    assert_eq!(wait_any(&mut s, &vec![k]), Err(WaitError::WaiterPresent));
}

#[test]
fn wait_any_takes_the_first_object_with_events() {
    let mut s = init();
    let k0 = new_sleep_object(&mut s, "zero").unwrap();
    let k1 = new_sleep_object(&mut s, "one").unwrap();
    let k2 = new_sleep_object(&mut s, "two").unwrap();
    post(&mut s, k2, 4);
    post(&mut s, k1, 2);
    assert_eq!(
        wait_any(&mut s, &vec![k0, k1, k2]),
        Ok(AnyOutcome::Ready { which: 1, events: 2 })
    );
    assert_eq!(pending_events(&s, k1), 0);
    assert_eq!(pending_events(&s, k2), 4);
    assert_eq!(
        wait_any(&mut s, &vec![k0, k1, k2]),
        Ok(AnyOutcome::Ready { which: 2, events: 4 })
    );
}

#[test]
fn wait_any_without_objects_is_refused() {
    let mut s = init();
    assert_eq!(wait_any(&mut s, &vec![]), Err(WaitError::NoObject));
    assert_eq!(get_thread_id(&s), 0);
    assert_eq!(thread_state(&s, 0), Some(RunState::Runnable));
}

#[test]
fn wait_any_sleeps_until_any_object_is_posted() {
    let mut s = init();
    let k0 = new_sleep_object(&mut s, "zero").unwrap();
    let k1 = new_sleep_object(&mut s, "one").unwrap();
    let a = start(&mut s, "a");
    assert_eq!(
        wait_any(&mut s, &vec![k0, k1]),
        Ok(AnyOutcome::Blocked(Switch::To(a)))
    );
    assert_eq!(thread_state(&s, 0), Some(RunState::Sleep(k0)));
    // Thread a cannot sleep on either object meanwhile.
    assert_eq!(kthreads::sleep_object::wait(&mut s, k1), Err(WaitError::WaiterPresent));
    assert!(post(&mut s, k1, 8));
    assert_eq!(thread_state(&s, 0), Some(RunState::Runnable));
    // The sleeper has left both objects: a post to the other wakes nobody,
    // and thread a may sleep there once its events are consumed.
    assert!(!post(&mut s, k0, 1));
    assert_eq!(yield_time(&mut s), Switch::To(0));
    assert_eq!(
        wait_any(&mut s, &vec![k0, k1]),
        Ok(AnyOutcome::Ready { which: 0, events: 1 })
    );
    assert_eq!(
        wait_any(&mut s, &vec![k0, k1]),
        Ok(AnyOutcome::Ready { which: 1, events: 8 })
    );
}

/// Lets the running worker post to its object and end.
fn work_and_end(s: &mut Scheduler, object: usize) -> Switch {
    post(s, object, 1);
    terminate_thread(s)
}

#[test]
fn spawner_waits_for_three_workers() {
    let mut s = init();
    let ka = new_sleep_object(&mut s, "a done").unwrap();
    let kb = new_sleep_object(&mut s, "b done").unwrap();
    let kc = new_sleep_object(&mut s, "c done").unwrap();
    let a = WorkerThread::new(&mut s, "a").unwrap();
    let b = WorkerThread::new(&mut s, "b").unwrap();
    let c = WorkerThread::new(&mut s, "c").unwrap();
    // The spawner lets two workers run before it begins to wait.
    assert_eq!(yield_time(&mut s), Switch::To(a.get_tid()));
    assert_eq!(work_and_end(&mut s, ka), Switch::To(b.get_tid()));
    assert_eq!(work_and_end(&mut s, kb), Switch::To(c.get_tid()));
    // Worker c gives way before it has posted.
    assert_eq!(yield_time(&mut s), Switch::To(0));
    // Both early posts are found.
    assert_eq!(kthreads::sleep_object::wait(&mut s, ka), Ok(SleepOutcome::Ready(1)));
    assert_eq!(kthreads::sleep_object::wait(&mut s, kb), Ok(SleepOutcome::Ready(1)));
    // The third has not been posted: the spawner sleeps and c runs.
    assert_eq!(
        kthreads::sleep_object::wait(&mut s, kc),
        Ok(SleepOutcome::Blocked(Switch::To(c.get_tid())))
    );
    assert_eq!(thread_state(&s, 0), Some(RunState::Sleep(kc)));
    assert_eq!(work_and_end(&mut s, kc), Switch::To(0));
    assert_eq!(kthreads::sleep_object::wait(&mut s, kc), Ok(SleepOutcome::Ready(1)));
    assert_eq!(get_thread_id(&s), 0);
    assert_eq!(a.wait(&mut s), Ok(JoinStep::Joined));
    assert_eq!(b.wait(&mut s), Ok(JoinStep::Joined));
    assert_eq!(c.wait(&mut s), Ok(JoinStep::Joined));
}

#[test]
fn worker_is_joined_after_it_ends() {
    let mut s = init();
    let w = WorkerThread::new(&mut s, "w").unwrap();
    let tid = w.get_tid();
    assert_eq!(tid, 2);
    assert_eq!(thread_state(&s, tid), Some(RunState::Runnable));
    assert_eq!(runnable_count(&s), 1);
    // Not ended: the caller yields, and the worker runs.
    assert_eq!(w.wait(&mut s), Ok(JoinStep::Pending(Switch::To(tid))));
    assert_eq!(get_thread_id(&s), tid);
    assert_eq!(terminate_thread(&mut s), Switch::To(0));
    assert_eq!(w.wait(&mut s), Ok(JoinStep::Joined));
    assert_eq!(get_thread_id(&s), 0);
    // Destroyed, the worker still counts as ended.
    assert!(reap_threads(&mut s));
    assert_eq!(thread_state(&s, tid), None);
    assert_eq!(w.wait(&mut s), Ok(JoinStep::Joined));
}

#[test]
fn worker_of_another_scheduler_is_not_found() {
    let mut busy = init();
    let _first = WorkerThread::new(&mut busy, "first").unwrap();
    let second = WorkerThread::new(&mut busy, "second").unwrap();
    assert_eq!(second.get_tid(), 3);
    let mut fresh = init();
    assert!(is_worker(&busy, second.get_tid()));
    assert!(!is_worker(&fresh, second.get_tid()));
    assert!(is_worker(&fresh, 1));
    assert!(second.wait(&mut fresh).is_err());
    assert_eq!(get_thread_id(&fresh), 0);
    assert_eq!(runnable_count(&fresh), 0);
}
