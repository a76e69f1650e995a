use kthreads::process::{ExitRace, LocalSlot, Process};
use kthreads::scheduler::{make_runnable, spawn_process, spawn_thread};
use kthreads::{get_process_local, init, yield_time, yield_to};

#[test]
fn new_process_is_blank() {
    let p = Process::new(4);
    assert_eq!(p.get_pid(), 4);
    assert_eq!(p.get_exit_status(), None);
    assert_eq!(p.thread_count(), 0);
    assert_eq!(p.find_local(1), None);
    assert_eq!(Process::new_pid0().get_pid(), 0);
}

#[test]
fn mark_exit_succeeds_once() {
    let mut p = Process::new(1);
    assert_eq!(p.mark_exit(5), Ok(()));
    assert_eq!(p.get_exit_status(), Some(5));
    assert_eq!(p.mark_exit(6), Err(ExitRace));
    assert_eq!(p.get_exit_status(), Some(5));
    assert_eq!(p.mark_exit(5), Err(ExitRace));
}

#[test]
fn cache_gives_each_type_one_slot() {
    let mut p = Process::new(1);
    assert_eq!(p.find_or_create_local(70), LocalSlot { index: 0, created: true });
    assert_eq!(p.find_or_create_local(30), LocalSlot { index: 1, created: true });
    assert_eq!(p.find_or_create_local(70), LocalSlot { index: 0, created: false });
    assert_eq!(p.find_local(30), Some(1));
    assert_eq!(p.find_local(70), Some(0));
    assert_eq!(p.find_local(31), None);
    assert_eq!(p.find_or_create_local(31), LocalSlot { index: 2, created: true });
}

#[test]
fn two_threads_of_a_process_share_one_instance() {
    let mut s = init();
    let a = spawn_thread(&mut s, "a", 0).unwrap();
    make_runnable(&mut s, a);
    // What the caller keeps beside the cache: one value per slot.
    let mut instances: Vec<u32> = Vec::new();
    let first = get_process_local(&mut s, 0xfeed);
    assert!(first.created);
    instances.push(0);
    yield_time(&mut s);
    let second = get_process_local(&mut s, 0xfeed);
    assert!(!second.created);
    assert_eq!(first.index, second.index);
    // A change made through one answer is seen through the other.
    instances[first.index] = 41;
    instances[second.index] += 1;
    assert_eq!(instances[first.index], 42);
    assert_eq!(instances.len(), 1);
}

#[test]
fn caches_of_two_processes_are_apart() {
    let mut s = init();
    assert_eq!(get_process_local(&mut s, 9), LocalSlot { index: 0, created: true });
    assert_eq!(get_process_local(&mut s, 8), LocalSlot { index: 1, created: true });
    let main = spawn_process(&mut s, "main").unwrap();
    yield_to(&mut s, main);
    assert_eq!(get_process_local(&mut s, 8), LocalSlot { index: 0, created: true });
    assert_eq!(get_process_local(&mut s, 8), LocalSlot { index: 0, created: false });
    yield_time(&mut s);
    assert_eq!(get_process_local(&mut s, 8), LocalSlot { index: 1, created: false });
}
