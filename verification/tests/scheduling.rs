use kthreads::scheduler::{
    exit_status, get_cur_thread, mark_process_exit, queue_for_reaping, get_idle_thread_id, get_thread_to_run, has_process,
    is_cur_thread_taken, make_runnable, process_thread_count, reap_threads, reapable_count,
    rel_cur_thread, runnable_count, spawn_process, spawn_thread, switch_to, thread_process,
    thread_state, with_cur_thread, would_reap_current,
};
use kthreads::{
    exit_process, get_process_id, get_thread_id, idle_thread, init, reschedule, terminate_thread,
    yield_time, yield_to, IdleStep, RunState, Scheduler, SpawnError, Switch, Thread, ThreadList,
};

/// Starts a thread of process 0 and leaves it at the back of the run queue.
fn start(s: &mut Scheduler, name: &str) -> u32 {
    let thread = spawn_thread(s, name, 0).unwrap();
    let tid = thread.get_tid();
    make_runnable(s, thread);
    tid
}

#[test]
fn init_runs_thread_zero_with_an_idle_thread() {
    let s = init();
    assert_eq!(get_thread_id(&s), 0);
    assert_eq!(get_process_id(&s), 0);
    assert_eq!(get_idle_thread_id(&s), 1);
    assert_eq!(thread_state(&s, 0), Some(RunState::Runnable));
    assert_eq!(thread_state(&s, 1), Some(RunState::Runnable));
    assert_eq!(thread_state(&s, 2), None);
    assert_eq!(process_thread_count(&s, 0), 2);
    assert_eq!(runnable_count(&s), 0);
    assert_eq!(reapable_count(&s), 0);
    assert!(!is_cur_thread_taken(&s));
}

#[test]
fn thread_control_block_accessors() {
    let mut t = Thread::new(7, "worker", 3);
    assert_eq!(t.get_tid(), 7);
    assert_eq!(t.get_name(), "worker");
    assert_eq!(t.get_process_info(), 3);
    assert_eq!(t.get_state(), RunState::Runnable);
    t.set_state(RunState::Dead(9));
    assert_eq!(t.get_state(), RunState::Dead(9));
    assert_eq!(t.get_tid(), 7);
    assert_eq!(t.get_process_info(), 3);
}

#[test]
fn lone_thread_yields_to_itself() {
    let mut s = init();
    let switch = yield_time(&mut s);
    assert_eq!(switch, Switch::ToSelfThenIdle(0));
    assert_eq!(get_thread_id(&s), 0);
    assert_eq!(runnable_count(&s), 0);
    assert!(!is_cur_thread_taken(&s));
    assert_eq!(thread_state(&s, 0), Some(RunState::Runnable));
}

#[test]
fn thread_list_is_fifo() {
    let mut s = init();
    let a = spawn_thread(&mut s, "a", 0).unwrap();
    let b = spawn_thread(&mut s, "b", 0).unwrap();
    let c = spawn_thread(&mut s, "c", 0).unwrap();
    let (ta, tb, tc) = (a.get_tid(), b.get_tid(), c.get_tid());
    let mut list = ThreadList::new();
    assert!(list.empty());
    list.push(a);
    assert!(!list.empty());
    list.push(b);
    assert_eq!(list.pop().unwrap().get_tid(), ta);
    list.push(c);
    assert_eq!(list.len(), 2);
    assert!(list.contains(tb));
    assert!(!list.contains(ta));
    assert_eq!(list.pop().unwrap().get_tid(), tb);
    assert_eq!(list.pop().unwrap().get_tid(), tc);
    assert!(list.empty());
    assert!(list.pop().is_none());
    assert!(list.empty());
}

#[test]
fn run_queue_hands_threads_out_in_arrival_order() {
    let mut s = init();
    let a = start(&mut s, "a");
    let b = start(&mut s, "b");
    let c = start(&mut s, "c");
    assert_eq!((a, b, c), (2, 3, 4));
    assert_eq!(runnable_count(&s), 3);
    let first = get_thread_to_run(&mut s).unwrap();
    assert_eq!(first.get_tid(), a);
    let second = get_thread_to_run(&mut s).unwrap();
    assert_eq!(second.get_tid(), b);
    make_runnable(&mut s, first);
    let third = get_thread_to_run(&mut s).unwrap();
    assert_eq!(third.get_tid(), c);
    let fourth = get_thread_to_run(&mut s).unwrap();
    assert_eq!(fourth.get_tid(), a);
    assert!(get_thread_to_run(&mut s).is_none());
    assert_eq!(runnable_count(&s), 0);
}

#[test]
fn yield_rotates_the_run_queue() {
    let mut s = init();
    let a = start(&mut s, "a");
    let b = start(&mut s, "b");
    assert_eq!(yield_time(&mut s), Switch::To(a));
    assert_eq!(get_thread_id(&s), a);
    assert_eq!(runnable_count(&s), 2);
    assert_eq!(yield_time(&mut s), Switch::To(b));
    assert_eq!(yield_time(&mut s), Switch::To(0));
    assert_eq!(yield_time(&mut s), Switch::To(a));
    assert_eq!(get_thread_id(&s), a);
}

#[test]
fn yield_to_runs_the_given_thread_at_once() {
    let mut s = init();
    let a = start(&mut s, "a");
    let b = spawn_thread(&mut s, "b", 0).unwrap();
    let tb = b.get_tid();
    assert_eq!(yield_to(&mut s, b), Switch::To(tb));
    assert_eq!(get_thread_id(&s), tb);
    assert_eq!(runnable_count(&s), 2);
    // The run queue holds a, then thread 0.
    assert_eq!(yield_time(&mut s), Switch::To(a));
    assert_eq!(yield_time(&mut s), Switch::To(0));
}

#[test]
fn current_thread_handle_leaves_and_returns() {
    let mut s = init();
    let handle = get_cur_thread(&mut s);
    assert_eq!(handle.get_tid(), 0);
    assert!(is_cur_thread_taken(&s));
    rel_cur_thread(&mut s, handle);
    assert!(!is_cur_thread_taken(&s));
    assert_eq!(get_thread_id(&s), 0);
}

#[test]
fn switch_to_installs_the_thread() {
    let mut s = init();
    let a = spawn_thread(&mut s, "a", 0).unwrap();
    let ta = a.get_tid();
    let me = get_cur_thread(&mut s);
    make_runnable(&mut s, me);
    switch_to(&mut s, a);
    assert_eq!(get_thread_id(&s), ta);
    assert!(!is_cur_thread_taken(&s));
    assert_eq!(runnable_count(&s), 1);
}

#[test]
fn with_cur_thread_reads_the_running_threads_block() {
    let mut s = init();
    let a = start(&mut s, "a");
    yield_time(&mut s);
    let tid = with_cur_thread(&s, |t: &Thread| t.get_tid());
    assert_eq!(tid, a);
}

#[test]
fn terminate_marks_dead_and_queues_for_reaping() {
    let mut s = init();
    let a = start(&mut s, "a");
    assert_eq!(yield_time(&mut s), Switch::To(a));
    assert_eq!(terminate_thread(&mut s), Switch::To(0));
    assert_eq!(get_thread_id(&s), 0);
    assert_eq!(thread_state(&s, a), Some(RunState::Dead(0)));
    assert_eq!(reapable_count(&s), 1);
    assert_eq!(runnable_count(&s), 0);
    assert!(!would_reap_current(&s));
}

#[test]
fn terminate_with_nothing_runnable_switches_to_idle() {
    let mut s = init();
    let a = spawn_thread(&mut s, "a", 0).unwrap();
    let ta = a.get_tid();
    yield_to(&mut s, a);
    // Thread 0 is runnable; take it off so that nothing is.
    let zero = get_thread_to_run(&mut s).unwrap();
    assert_eq!(terminate_thread(&mut s), Switch::ToIdle(1));
    assert_eq!(get_thread_id(&s), 1);
    assert_eq!(thread_state(&s, ta), Some(RunState::Dead(0)));
    make_runnable(&mut s, zero);
    assert_eq!(reschedule(&mut s), Switch::To(0));
}

#[test]
fn reaper_never_meets_the_running_thread() {
    let mut s = init();
    let a = start(&mut s, "a");
    let b = start(&mut s, "b");
    yield_time(&mut s);
    assert_eq!(get_thread_id(&s), a);
    terminate_thread(&mut s);
    assert_eq!(get_thread_id(&s), b);
    assert!(!would_reap_current(&s));
    assert!(reap_threads(&mut s));
    assert_eq!(thread_state(&s, a), None);
    assert_eq!(thread_state(&s, b), Some(RunState::Runnable));
    assert_eq!(get_thread_id(&s), b);
    assert!(!reap_threads(&mut s));
}

#[test]
fn yield_reaps_dead_threads() {
    let mut s = init();
    let a = start(&mut s, "a");
    yield_time(&mut s);
    terminate_thread(&mut s);
    assert_eq!(process_thread_count(&s, 0), 3);
    assert_eq!(yield_time(&mut s), Switch::ToSelfThenIdle(0));
    assert_eq!(thread_state(&s, a), None);
    assert_eq!(reapable_count(&s), 0);
    assert_eq!(process_thread_count(&s, 0), 2);
}

#[test]
fn thread_identities_are_not_used_twice() {
    let mut s = init();
    let a = start(&mut s, "a");
    yield_time(&mut s);
    terminate_thread(&mut s);
    reap_threads(&mut s);
    let b = start(&mut s, "b");
    assert_eq!(a, 2);
    assert_eq!(b, 3);
    assert_eq!(thread_state(&s, a), None);
}

#[test]
fn idle_reschedule_with_nothing_runnable_stays() {
    let mut s = init();
    let a = spawn_thread(&mut s, "a", 0).unwrap();
    let ta = a.get_tid();
    yield_to(&mut s, a);
    let zero = get_thread_to_run(&mut s).unwrap();
    terminate_thread(&mut s);
    assert_eq!(get_thread_id(&s), 1);
    // The idle thread asks, and nothing is runnable.
    assert_eq!(reschedule(&mut s), Switch::Stay);
    assert_eq!(get_thread_id(&s), 1);
    assert!(!is_cur_thread_taken(&s));
    assert_eq!(runnable_count(&s), 0);
    assert_eq!(reapable_count(&s), 1);
    assert_eq!(thread_state(&s, 0), Some(RunState::Runnable));
    assert_eq!(thread_state(&s, 1), Some(RunState::Runnable));
    assert_eq!(thread_state(&s, ta), Some(RunState::Dead(0)));
    assert_eq!(process_thread_count(&s, 0), 3);
    make_runnable(&mut s, zero);
    assert_eq!(runnable_count(&s), 1);
}

#[test]
fn reschedule_runs_the_front_of_the_run_queue() {
    let mut s = init();
    let a = start(&mut s, "a");
    let b = start(&mut s, "b");
    let me = get_cur_thread(&mut s);
    make_runnable(&mut s, me);
    assert_eq!(reschedule(&mut s), Switch::To(a));
    assert_eq!(get_thread_id(&s), a);
    assert_eq!(runnable_count(&s), 2);
    let _ = b;
}

#[test]
fn idle_pass_halts_only_with_nothing_to_do() {
    let mut s = init();
    let a = spawn_thread(&mut s, "a", 0).unwrap();
    let ta = a.get_tid();
    yield_to(&mut s, a);
    let zero = get_thread_to_run(&mut s).unwrap();
    terminate_thread(&mut s);
    assert_eq!(get_thread_id(&s), 1);
    // A dead thread waits: the pass reaps it and reschedules.
    assert_eq!(idle_thread(&mut s), IdleStep::Switched(Switch::Stay));
    assert_eq!(thread_state(&s, ta), None);
    // Nothing to reap, nothing to run.
    assert_eq!(idle_thread(&mut s), IdleStep::Halt);
    assert_eq!(get_thread_id(&s), 1);
    // A thread became runnable.
    make_runnable(&mut s, zero);
    assert_eq!(idle_thread(&mut s), IdleStep::Switched(Switch::To(0)));
    assert_eq!(get_thread_id(&s), 0);
}

#[test]
fn spawn_into_a_missing_process_is_refused() {
    let mut s = init();
    assert_eq!(spawn_thread(&mut s, "a", 5).err(), Some(SpawnError::NoSuchProcess));
    assert_eq!(thread_state(&s, 2), None);
    assert_eq!(process_thread_count(&s, 0), 2);
}

#[test]
fn new_process_has_one_thread() {
    let mut s = init();
    let main = spawn_process(&mut s, "main").unwrap();
    let tid = main.get_tid();
    assert_eq!(tid, 2);
    assert_eq!(thread_process(&s, tid), Some(1));
    assert!(has_process(&s, 1));
    assert_eq!(process_thread_count(&s, 1), 1);
    assert_eq!(exit_status(&s, 1), None);
    yield_to(&mut s, main);
    assert_eq!(get_process_id(&s), 1);
}

#[test]
fn exit_status_is_written_once() {
    let mut s = init();
    let main = spawn_process(&mut s, "main").unwrap();
    let second = spawn_thread(&mut s, "second", 1).unwrap();
    let t2 = second.get_tid();
    make_runnable(&mut s, second);
    yield_to(&mut s, main);
    // The run queue holds the second thread, then thread 0.
    assert_eq!(exit_process(&mut s, 7), Ok(Switch::To(t2)));
    assert_eq!(exit_status(&s, 1), Some(7));
    assert_eq!(get_thread_id(&s), t2);
    // The second thread of the process loses the race.
    assert!(exit_process(&mut s, 9).is_err());
    assert_eq!(exit_status(&s, 1), Some(7));
    assert_eq!(get_thread_id(&s), t2);
    assert_eq!(thread_state(&s, t2), Some(RunState::Runnable));
}

#[test]
fn process_goes_with_its_last_thread() {
    let mut s = init();
    let main = spawn_process(&mut s, "main").unwrap();
    let tm = main.get_tid();
    let second = spawn_thread(&mut s, "second", 1).unwrap();
    let t2 = second.get_tid();
    make_runnable(&mut s, second);
    yield_to(&mut s, main);
    assert_eq!(process_thread_count(&s, 1), 2);
    assert_eq!(exit_process(&mut s, 3), Ok(Switch::To(t2)));
    assert!(reap_threads(&mut s));
    assert_eq!(thread_state(&s, tm), None);
    assert!(has_process(&s, 1));
    assert_eq!(process_thread_count(&s, 1), 1);
    assert_eq!(exit_status(&s, 1), Some(3));
    assert_eq!(terminate_thread(&mut s), Switch::To(0));
    assert!(reap_threads(&mut s));
    assert!(!has_process(&s, 1));
    assert_eq!(exit_status(&s, 1), None);
    assert!(has_process(&s, 0));
    assert_eq!(process_thread_count(&s, 0), 2);
}

#[test]
fn self_reap_is_seen_before_it_happens() {
    let mut s = init();
    let a = start(&mut s, "a");
    yield_time(&mut s);
    assert_eq!(get_thread_id(&s), a);
    // The running thread queues itself for reaping and has not switched yet.
    let me = get_cur_thread(&mut s);
    queue_for_reaping(&mut s, me, 3);
    assert_eq!(thread_state(&s, a), Some(RunState::Dead(3)));
    assert!(would_reap_current(&s));
    // Once another thread runs, the reaper may work.
    assert_eq!(reschedule(&mut s), Switch::To(0));
    assert!(!would_reap_current(&s));
    assert!(reap_threads(&mut s));
    assert_eq!(thread_state(&s, a), None);
}

#[test]
fn thread_zero_is_never_destroyed() {
    let mut s = init();
    let a = start(&mut s, "a");
    yield_time(&mut s);
    assert_eq!(get_thread_id(&s), a);
    // Thread a takes thread 0 off the run queue and sends it to the reaper.
    let zero = get_thread_to_run(&mut s).unwrap();
    assert_eq!(zero.get_tid(), 0);
    queue_for_reaping(&mut s, zero, 1);
    assert_eq!(reapable_count(&s), 1);
    assert!(reap_threads(&mut s));
    assert_eq!(reapable_count(&s), 0);
    // The control block is still there; the thread counts for its process.
    assert_eq!(thread_state(&s, 0), Some(RunState::Dead(1)));
    assert_eq!(process_thread_count(&s, 0), 3);
}

#[test]
fn reaper_destroys_one_thread_per_pass_oldest_first() {
    let mut s = init();
    let a = start(&mut s, "a");
    let b = start(&mut s, "b");
    yield_time(&mut s);
    assert_eq!(get_thread_id(&s), a);
    assert_eq!(terminate_thread(&mut s), Switch::To(b));
    assert_eq!(terminate_thread(&mut s), Switch::To(0));
    assert_eq!(reapable_count(&s), 2);
    assert_eq!(process_thread_count(&s, 0), 4);
    // The first pass takes the thread that died first, and no other.
    assert!(reap_threads(&mut s));
    assert_eq!(thread_state(&s, a), None);
    assert_eq!(thread_state(&s, b), Some(RunState::Dead(0)));
    assert_eq!(reapable_count(&s), 1);
    assert_eq!(process_thread_count(&s, 0), 3);
    assert!(reap_threads(&mut s));
    assert_eq!(thread_state(&s, b), None);
    assert_eq!(reapable_count(&s), 0);
    assert_eq!(process_thread_count(&s, 0), 2);
    assert!(!reap_threads(&mut s));
}

#[test]
fn yield_and_idle_pass_reap_one_thread_each() {
    let mut s = init();
    let a = start(&mut s, "a");
    let b = start(&mut s, "b");
    yield_time(&mut s);
    terminate_thread(&mut s);
    terminate_thread(&mut s);
    assert_eq!(get_thread_id(&s), 0);
    assert_eq!(reapable_count(&s), 2);
    assert_eq!(yield_time(&mut s), Switch::ToSelfThenIdle(0));
    assert_eq!(thread_state(&s, a), None);
    assert_eq!(thread_state(&s, b), Some(RunState::Dead(0)));
    assert_eq!(reapable_count(&s), 1);
    // Switch to the idle thread and let it make a pass.
    let zero = get_cur_thread(&mut s);
    make_runnable(&mut s, zero);
    let zero = get_thread_to_run(&mut s).unwrap();
    assert_eq!(reschedule(&mut s), Switch::ToIdle(1));
    assert_eq!(idle_thread(&mut s), IdleStep::Switched(Switch::Stay));
    assert_eq!(thread_state(&s, b), None);
    assert_eq!(reapable_count(&s), 0);
    assert_eq!(idle_thread(&mut s), IdleStep::Halt);
    make_runnable(&mut s, zero);
}

#[test]
fn exit_status_of_the_kernel_process_is_written_once_too() {
    let mut s = init();
    // Thread 0 may write the status of its process, though it cannot exit.
    assert!(mark_process_exit(&mut s, 11).is_ok());
    assert_eq!(exit_status(&s, 0), Some(11));
    assert!(mark_process_exit(&mut s, 12).is_err());
    assert_eq!(exit_status(&s, 0), Some(11));
    assert_eq!(get_thread_id(&s), 0);
    assert_eq!(thread_state(&s, 0), Some(RunState::Runnable));
}
