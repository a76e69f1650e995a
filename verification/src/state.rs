//! The mathematical model of the scheduler: what its state is, when a state
//! is well formed, and what each step makes of it.

use vstd::prelude::*;
use crate::process::ProcessView;
use crate::thread::{ProcessID, RunState, ThreadID, ThreadView};

verus! {

/// A set of wait events, one bit each.
pub type EventMask = u32;

/// Mathematical value of a sleep object.
pub struct SleepObjectView {
    pub name: Seq<char>,
    /// Events that were posted and not yet consumed.
    pub events: EventMask,
    /// The thread blocked on the object, if any.
    pub waiter: Option<ThreadID>,
}

/// The state of the threading core.
///
/// Threads and processes live in arenas indexed by their identity; a slot is
/// `None` once its occupant has been destroyed, and is never used again.
/// Queues hold thread identities. `held` is the set of threads whose handle
/// is in the hands of running code rather than in a queue or the CPU slot.
pub struct State {
    /// The thread control blocks, by thread identity.
    pub threads: Seq<Option<ThreadView>>,
    /// The process control blocks, by process identity.
    pub processes: Seq<Option<ProcessView>>,
    /// The threads that are ready to run, the next one first.
    pub run_queue: Seq<ThreadID>,
    /// The dead threads that wait to be destroyed.
    pub reap_queue: Seq<ThreadID>,
    /// The wait queues, by handle; each lists its waiters, the one that has
    /// waited longest first.
    pub wait_queues: Seq<Seq<ThreadID>>,
    /// The sleep objects, by handle.
    pub sleep_objects: Seq<SleepObjectView>,
    /// The thread that is executing.
    pub current: ThreadID,
    /// True while the executing thread's handle is out of the CPU slot.
    pub taken: bool,
    /// The thread that runs when no other can.
    pub idle: ThreadID,
    /// The threads whose handle running code holds. A handle that a switch
    /// overwrote in the CPU slot stays here for ever: the thread is
    /// forgotten.
    pub held: Set<ThreadID>,
}

/// What the caller has to do to the CPU after a scheduling decision.
#[derive(Clone, Copy, Debug, PartialEq, Eq, Structural)]
pub enum Switch {
    /// Switch to this thread.
    To(ThreadID),
    /// The thread picked is the one already executing: switch to it, then
    /// run the machine's idle wait, which returns with interrupts enabled.
    ToSelfThenIdle(ThreadID),
    /// Nothing is runnable: switch to the idle thread, which this names.
    ToIdle(ThreadID),
    /// Nothing is runnable and the idle thread is executing: stay.
    Stay,
}

/// The number of live threads in `threads` that belong to process `pid`.
pub open spec fn member_count(threads: Seq<Option<ThreadView>>, pid: ProcessID) -> nat
    decreases threads.len(),
{
    if threads.len() == 0 {
        0
    } else {
        member_count(threads.drop_last(), pid) + is_member(threads.last(), pid)
    }
}

/// 1 for a live thread of process `pid`, 0 otherwise.
pub open spec fn is_member(slot: Option<ThreadView>, pid: ProcessID) -> nat {
    match slot {
        Some(t) => if t.process == pid {
            1
        } else {
            0
        },
        None => 0,
    }
}

/// Replacing one slot changes a process's thread count by what left and what
/// came.
pub proof fn lemma_member_count_update(
    threads: Seq<Option<ThreadView>>,
    i: int,
    slot: Option<ThreadView>,
    pid: ProcessID,
)
    requires
        0 <= i < threads.len(),
    ensures
        member_count(threads.update(i, slot), pid) + is_member(threads[i], pid) == member_count(
            threads,
            pid,
        ) + is_member(slot, pid),
    decreases threads.len(),
{
    let updated = threads.update(i, slot);
    if i == threads.len() - 1 {
        assert(updated.drop_last() =~= threads.drop_last());
    } else {
        lemma_member_count_update(threads.drop_last(), i, slot, pid);
        assert(updated.drop_last() =~= threads.drop_last().update(i, slot));
    }
}

/// A new slot adds its occupant to the count of the occupant's process.
pub proof fn lemma_member_count_push(
    threads: Seq<Option<ThreadView>>,
    slot: Option<ThreadView>,
    pid: ProcessID,
)
    ensures
        member_count(threads.push(slot), pid) == member_count(threads, pid) + is_member(slot, pid),
{
    assert(threads.push(slot).drop_last() =~= threads);
}

/// A process has at most as many threads as the arena has slots.
pub proof fn lemma_member_count_bound(threads: Seq<Option<ThreadView>>, pid: ProcessID)
    ensures
        member_count(threads, pid) <= threads.len(),
    decreases threads.len(),
{
    if threads.len() > 0 {
        lemma_member_count_bound(threads.drop_last(), pid);
    }
}

/// A process with a live thread has a positive thread count.
pub proof fn lemma_member_count_positive(
    threads: Seq<Option<ThreadView>>,
    i: int,
    pid: ProcessID,
)
    requires
        0 <= i < threads.len(),
        is_member(threads[i], pid) == 1,
    ensures
        member_count(threads, pid) >= 1,
    decreases threads.len(),
{
    if i < threads.len() - 1 {
        lemma_member_count_positive(threads.drop_last(), i, pid);
    }
}

/// The slot of `tid` is occupied.
pub open spec fn is_live(threads: Seq<Option<ThreadView>>, tid: ThreadID) -> bool {
    (tid as int) < threads.len() && threads[tid as int] is Some
}

/// The slot of `pid` is occupied.
pub open spec fn is_proc_live(processes: Seq<Option<ProcessView>>, pid: ProcessID) -> bool {
    (pid as int) < processes.len() && processes[pid as int] is Some
}

/// Every live thread sits in the slot of its identity and belongs to a live
/// process.
pub open spec fn threads_ok(
    threads: Seq<Option<ThreadView>>,
    processes: Seq<Option<ProcessView>>,
) -> bool {
    &&& threads.len() <= u32::MAX
    &&& forall|tid: ThreadID| #[trigger]
        is_live(threads, tid) ==> threads[tid as int]->0.tid == tid && is_proc_live(
            processes,
            threads[tid as int]->0.process,
        )
}

/// Every live process sits in the slot of its identity, caches one instance
/// per type, and counts the live threads that belong to it. Process 0
/// always exists; any other exists only while it has threads.
pub open spec fn processes_ok(
    processes: Seq<Option<ProcessView>>,
    threads: Seq<Option<ThreadView>>,
) -> bool {
    &&& processes.len() <= u32::MAX
    &&& is_proc_live(processes, 0)
    &&& forall|pid: ProcessID| #[trigger]
        is_proc_live(processes, pid) ==> {
            &&& processes[pid as int]->0.pid == pid
            &&& processes[pid as int]->0.wf()
            &&& processes[pid as int]->0.refs == member_count(threads, pid)
            &&& pid != 0 ==> processes[pid as int]->0.refs > 0
        }
}

/// A queue lists live threads whose handle nobody holds, each once.
pub open spec fn listed_ok(
    threads: Seq<Option<ThreadView>>,
    held: Set<ThreadID>,
    q: Seq<ThreadID>,
) -> bool {
    &&& q.no_duplicates()
    &&& forall|i: int| 0 <= i < q.len() ==> is_live(threads, #[trigger] q[i]) && !held.contains(q[i])
}

/// The run queue lists runnable threads.
pub open spec fn run_queue_ok(
    threads: Seq<Option<ThreadView>>,
    held: Set<ThreadID>,
    q: Seq<ThreadID>,
) -> bool {
    &&& listed_ok(threads, held, q)
    &&& forall|i: int|
        0 <= i < q.len() ==> threads[(#[trigger] q[i]) as int]->0.run_state == RunState::Runnable
}

/// The reap queue lists dead threads.
pub open spec fn reap_queue_ok(
    threads: Seq<Option<ThreadView>>,
    held: Set<ThreadID>,
    q: Seq<ThreadID>,
) -> bool {
    &&& listed_ok(threads, held, q)
    &&& forall|i: int| 0 <= i < q.len() ==> threads[(#[trigger] q[i]) as int]->0.run_state is Dead
}

/// Wait queue `k` lists threads that are blocked on wait queue `k`.
pub open spec fn wait_queue_ok(
    threads: Seq<Option<ThreadView>>,
    held: Set<ThreadID>,
    q: Seq<ThreadID>,
    k: int,
) -> bool {
    &&& listed_ok(threads, held, q)
    &&& forall|i: int|
        0 <= i < q.len() ==> threads[(#[trigger] q[i]) as int]->0.run_state == RunState::ListWait(
            k as usize,
        )
}

/// Every wait queue lists threads that are blocked on it.
pub open spec fn wait_queues_ok(
    threads: Seq<Option<ThreadView>>,
    held: Set<ThreadID>,
    wait_queues: Seq<Seq<ThreadID>>,
) -> bool {
    &&& wait_queues.len() <= usize::MAX
    &&& forall|k: int|
        0 <= k < wait_queues.len() ==> wait_queue_ok(threads, held, #[trigger] wait_queues[k], k)
}

/// The waiter of a sleep object, if it has one, is a sleeping thread, and no
/// event is pending: a post wakes the waiter. A thread may sleep on several
/// objects at once; its run state names the first of them.
pub open spec fn sleep_object_ok(
    threads: Seq<Option<ThreadView>>,
    held: Set<ThreadID>,
    object: SleepObjectView,
    k: int,
) -> bool {
    object.waiter is Some ==> {
        let t = object.waiter->0;
        &&& is_live(threads, t)
        &&& !held.contains(t)
        &&& threads[t as int]->0.run_state is Sleep
        &&& object.events == 0
    }
}

/// The waiter of every sleep object is a sleeping thread.
pub open spec fn sleep_objects_ok(
    threads: Seq<Option<ThreadView>>,
    held: Set<ThreadID>,
    sleep_objects: Seq<SleepObjectView>,
) -> bool {
    &&& sleep_objects.len() <= usize::MAX
    &&& forall|k: int|
        0 <= k < sleep_objects.len() ==> sleep_object_ok(
            threads,
            held,
            #[trigger] sleep_objects[k],
            k,
        )
}

impl State {
    /// Thread `tid` exists.
    pub open spec fn live(self, tid: ThreadID) -> bool {
        is_live(self.threads, tid)
    }

    /// The control block of thread `tid`.
    pub open spec fn tcb(self, tid: ThreadID) -> ThreadView {
        self.threads[tid as int]->0
    }

    /// Process `pid` exists.
    pub open spec fn proc_live(self, pid: ProcessID) -> bool {
        is_proc_live(self.processes, pid)
    }

    /// The control block of process `pid`.
    pub open spec fn pcb(self, pid: ProcessID) -> ProcessView {
        self.processes[pid as int]->0
    }

    /// Thread `tid` is in the place that its run state names: the run queue,
    /// its wait queue, its sleep object, or the reap queue. A dead thread 0
    /// is never destroyed and may be in no queue at all.
    pub open spec fn placed(self, tid: ThreadID) -> bool {
        match self.tcb(tid).run_state {
            RunState::Runnable => self.run_queue.contains(tid),
            RunState::ListWait(k) => k < self.wait_queues.len() && self.wait_queues[k as int].contains(
                tid,
            ),
            RunState::Sleep(k) => k < self.sleep_objects.len() && self.sleep_objects[k as int].waiter
                == Some(tid),
            RunState::Dead(_) => self.reap_queue.contains(tid) || tid == 0,
        }
    }

    /// The handle of thread `tid` is where a handle can be: in the CPU slot,
    /// in the hands of running code, or in the place that the thread's run
    /// state names. The idle thread alone needs no place.
    pub open spec fn accounted(self, tid: ThreadID) -> bool {
        ||| tid == self.current && !self.taken
        ||| tid == self.idle
        ||| self.held.contains(tid)
        ||| self.placed(tid)
    }

    /// No thread is lost, and only live threads have a handle.
    pub open spec fn placement_wf(self) -> bool {
        &&& forall|tid: ThreadID| self.held.contains(tid) ==> #[trigger] is_live(self.threads, tid)
        &&& forall|tid: ThreadID| #[trigger] is_live(self.threads, tid) ==> self.accounted(tid)
    }

    /// The CPU slot and the idle thread. While the running thread's handle
    /// is in the slot, the thread is runnable and in no queue. The idle
    /// thread is always runnable, never queued, and its handle is never
    /// taken.
    pub open spec fn cpu_wf(self) -> bool {
        &&& self.live(self.current)
        &&& self.live(self.idle)
        &&& self.idle != 0
        &&& self.tcb(self.idle).run_state == RunState::Runnable
        &&& !self.run_queue.contains(self.idle)
        &&& !self.held.contains(self.idle)
        &&& self.current == self.idle ==> !self.taken
        &&& !self.taken ==> {
            &&& self.tcb(self.current).run_state == RunState::Runnable
            &&& !self.run_queue.contains(self.current)
            &&& !self.held.contains(self.current)
        }
    }

    /// The state is well formed.
    pub open spec fn wf(self) -> bool {
        &&& threads_ok(self.threads, self.processes)
        &&& processes_ok(self.processes, self.threads)
        &&& run_queue_ok(self.threads, self.held, self.run_queue)
        &&& reap_queue_ok(self.threads, self.held, self.reap_queue)
        &&& wait_queues_ok(self.threads, self.held, self.wait_queues)
        &&& sleep_objects_ok(self.threads, self.held, self.sleep_objects)
        &&& self.placement_wf()
        &&& self.cpu_wf()
    }

    /// A thread is in at most one place: of the run queue, the reap queue,
    /// the wait queues and the sleep objects, at most one names it, and
    /// then the running code does not hold its handle.
    pub proof fn lemma_one_place(self, tid: ThreadID)
        requires
            self.wf(),
        ensures
            self.run_queue.contains(tid) ==> !self.reap_queue.contains(tid) && !self.held.contains(
                tid,
            ),
            self.reap_queue.contains(tid) ==> !self.held.contains(tid),
            forall|k: int|
                0 <= k < self.wait_queues.len() && (#[trigger] self.wait_queues[k]).contains(tid)
                    ==> {
                    &&& !self.run_queue.contains(tid)
                    &&& !self.reap_queue.contains(tid)
                    &&& !self.held.contains(tid)
                    &&& forall|j: int|
                        0 <= j < self.wait_queues.len() && j != k ==> !(
                        #[trigger] self.wait_queues[j]).contains(tid)
                },
            forall|k: int|
                0 <= k < self.sleep_objects.len() && (#[trigger] self.sleep_objects[k]).waiter
                    == Some(tid) ==> {
                    &&& !self.run_queue.contains(tid)
                    &&& !self.reap_queue.contains(tid)
                    &&& !self.held.contains(tid)
                    &&& forall|j: int|
                        0 <= j < self.wait_queues.len() ==> !(#[trigger] self.wait_queues[j]).contains(
                            tid,
                        )
                },
            !self.taken ==> {
                &&& !self.run_queue.contains(self.current)
                &&& !self.reap_queue.contains(self.current)
                &&& !self.held.contains(self.current)
                &&& forall|j: int|
                    0 <= j < self.wait_queues.len() ==> !(#[trigger] self.wait_queues[j]).contains(
                        self.current,
                    )
                &&& forall|j: int|
                    0 <= j < self.sleep_objects.len() ==> (#[trigger] self.sleep_objects[j]).waiter
                        != Some(self.current)
            },
    {
    }

    /// Thread `tid` is in `next` what it is here: it has the same control
    /// block, and its handle is held in both states or in neither.
    pub open spec fn untouched(self, next: State, tid: ThreadID) -> bool {
        &&& (tid as int) < next.threads.len()
        &&& next.threads[tid as int] == self.threads[tid as int]
        &&& next.held.contains(tid) == self.held.contains(tid)
    }

    /// Frame: a step after which every thread is live that was live or
    /// whose handle is held, and every thread that was accounted for still
    /// is, loses no thread.
    pub proof fn lemma_accounted_frame(self, next: State)
        requires
            self.placement_wf(),
            forall|t: ThreadID| next.held.contains(t) ==> #[trigger] is_live(next.threads, t),
            forall|t: ThreadID| #[trigger]
                is_live(next.threads, t) ==> is_live(self.threads, t) && (self.accounted(t)
                    ==> next.accounted(t)),
        ensures
            next.placement_wf(),
    {
        assert forall|t: ThreadID| #[trigger] is_live(next.threads, t) implies next.accounted(t) by {
            assert(is_live(self.threads, t));
            assert(self.accounted(t));
        }
    }

    /// Frame: a step that leaves the wait queues as they are, and touches no
    /// thread that waits on one, leaves them well formed.
    pub proof fn lemma_waiters_frame(self, next: State)
        requires
            wait_queues_ok(self.threads, self.held, self.wait_queues),
            next.wait_queues == self.wait_queues,
            forall|k: int, i: int|
                0 <= k < self.wait_queues.len() && 0 <= i < self.wait_queues[k].len()
                    ==> self.untouched(next, #[trigger] self.wait_queues[k][i]),
        ensures
            wait_queues_ok(next.threads, next.held, next.wait_queues),
    {
        assert forall|k: int| 0 <= k < next.wait_queues.len() implies wait_queue_ok(
            next.threads,
            next.held,
            #[trigger] next.wait_queues[k],
            k,
        ) by {
            assert(wait_queue_ok(self.threads, self.held, self.wait_queues[k], k));
        }
    }

    /// Frame: a step that leaves the sleep objects as they are, and touches
    /// no thread that sleeps on one, leaves them well formed.
    pub proof fn lemma_sleepers_frame(self, next: State)
        requires
            sleep_objects_ok(self.threads, self.held, self.sleep_objects),
            next.sleep_objects == self.sleep_objects,
            forall|k: int|
                0 <= k < self.sleep_objects.len() && (#[trigger] self.sleep_objects[k]).waiter
                    is Some ==> self.untouched(next, self.sleep_objects[k].waiter->0),
        ensures
            sleep_objects_ok(next.threads, next.held, next.sleep_objects),
    {
        assert forall|k: int| 0 <= k < next.sleep_objects.len() implies sleep_object_ok(
            next.threads,
            next.held,
            #[trigger] next.sleep_objects[k],
            k,
        ) by {
            assert(sleep_object_ok(self.threads, self.held, self.sleep_objects[k], k));
        }
    }

    /// Frame: a step that leaves the wait queues and the sleep objects as
    /// they are, and touches no thread that waits or sleeps, leaves them
    /// well formed.
    pub proof fn lemma_blocked_frame(self, next: State)
        requires
            wait_queues_ok(self.threads, self.held, self.wait_queues),
            sleep_objects_ok(self.threads, self.held, self.sleep_objects),
            next.wait_queues == self.wait_queues,
            next.sleep_objects == self.sleep_objects,
            forall|k: int, i: int|
                0 <= k < self.wait_queues.len() && 0 <= i < self.wait_queues[k].len()
                    ==> self.untouched(next, #[trigger] self.wait_queues[k][i]),
            forall|k: int|
                0 <= k < self.sleep_objects.len() && (#[trigger] self.sleep_objects[k]).waiter
                    is Some ==> self.untouched(next, self.sleep_objects[k].waiter->0),
        ensures
            wait_queues_ok(next.threads, next.held, next.wait_queues),
            sleep_objects_ok(next.threads, next.held, next.sleep_objects),
    {
        self.lemma_waiters_frame(next);
        self.lemma_sleepers_frame(next);
    }

    /// Thread `tid` with its run state replaced.
    pub open spec fn with_run_state(self, tid: ThreadID, state: RunState) -> State {
        State {
            threads: self.threads.update(
                tid as int,
                Some(ThreadView { run_state: state, ..self.tcb(tid) }),
            ),
            ..self
        }
    }

    /// The running thread's handle leaves the CPU slot for the running code.
    pub open spec fn take_current(self) -> State {
        State { taken: true, held: self.held.insert(self.current), ..self }
    }

    /// The running thread's handle goes back into the CPU slot.
    pub open spec fn release_current(self) -> State {
        State { taken: false, held: self.held.remove(self.current), ..self }
    }

    /// A held handle goes to the back of the run queue.
    pub open spec fn enqueue_runnable(self, tid: ThreadID) -> State {
        State { run_queue: self.run_queue.push(tid), held: self.held.remove(tid), ..self }
    }

    /// A held handle goes to the back of the reap queue.
    pub open spec fn enqueue_reap(self, tid: ThreadID) -> State {
        State { reap_queue: self.reap_queue.push(tid), held: self.held.remove(tid), ..self }
    }

    /// A held handle goes to the back of wait queue `q`.
    pub open spec fn enqueue_wait(self, q: int, tid: ThreadID) -> State {
        State {
            wait_queues: self.wait_queues.update(q, self.wait_queues[q].push(tid)),
            held: self.held.remove(tid),
            ..self
        }
    }

    /// The thread at the front of the run queue, if any.
    pub open spec fn next_runnable(self) -> Option<ThreadID> {
        if self.run_queue.len() == 0 {
            None
        } else {
            Some(self.run_queue[0])
        }
    }

    /// The front of the run queue, if any, leaves the queue for the running
    /// code.
    pub open spec fn pop_runnable(self) -> State {
        if self.run_queue.len() == 0 {
            self
        } else {
            State {
                run_queue: self.run_queue.drop_first(),
                held: self.held.insert(self.run_queue[0]),
                ..self
            }
        }
    }

    /// True when a switch away from the running thread loses its handle: the
    /// handle is still in the CPU slot, and the thread is not the idle
    /// thread, whose handle the machine layer keeps.
    pub open spec fn switch_forgets_current(self) -> bool {
        !self.taken && self.current != self.idle
    }

    /// The handles in the hands of running code once the CPU slot has been
    /// overwritten: a forgotten handle counts as held for ever.
    pub open spec fn held_after_switch(self) -> Set<ThreadID> {
        if self.switch_forgets_current() {
            self.held.insert(self.current)
        } else {
            self.held
        }
    }

    /// A held handle goes into the CPU slot and its thread becomes the
    /// running thread.
    pub open spec fn switched_to(self, tid: ThreadID) -> State {
        State {
            current: tid,
            taken: false,
            held: self.held_after_switch().remove(tid),
            ..self
        }
    }

    /// The idle thread becomes the running thread.
    pub open spec fn switched_to_idle(self) -> State {
        State { current: self.idle, taken: false, held: self.held_after_switch(), ..self }
    }

    /// The state after a reschedule: the front of the run queue runs; with
    /// an empty run queue the idle thread runs.
    pub open spec fn rescheduled(self) -> State {
        if self.run_queue.len() > 0 {
            self.pop_runnable().switched_to(self.run_queue[0])
        } else if self.current != self.idle {
            self.switched_to_idle()
        } else {
            self
        }
    }

    /// What a reschedule asks of the caller.
    pub open spec fn reschedule_switch(self) -> Switch {
        if self.run_queue.len() > 0 {
            if self.run_queue[0] == self.current {
                Switch::ToSelfThenIdle(self.run_queue[0])
            } else {
                Switch::To(self.run_queue[0])
            }
        } else if self.current != self.idle {
            Switch::ToIdle(self.idle)
        } else {
            Switch::Stay
        }
    }

    /// Changing the run state of a held thread keeps the state well formed.
    pub proof fn lemma_with_run_state_wf(self, tid: ThreadID, state: RunState)
        requires
            self.wf(),
            self.held.contains(tid),
        ensures
            self.with_run_state(tid, state).wf(),
    {
        let next = self.with_run_state(tid, state);
        assert(is_live(self.threads, tid));
        assert forall|pid: ProcessID| member_count(next.threads, pid) == member_count(
            self.threads,
            pid,
        ) by {
            lemma_member_count_update(self.threads, tid as int, next.threads[tid as int], pid);
        }
        assert forall|t: ThreadID| is_live(next.threads, t) == is_live(self.threads, t) by {}
        self.lemma_accounted_frame(next);
    }

    /// Taking the running thread's handle keeps the state well formed.
    pub proof fn lemma_take_current_wf(self)
        requires
            self.wf(),
            !self.taken,
            self.current != self.idle,
        ensures
            self.take_current().wf(),
    {
        let next = self.take_current();
        self.lemma_one_place(self.current);
        self.lemma_accounted_frame(next);
    }

    /// Putting the running thread's handle back keeps the state well formed.
    pub proof fn lemma_release_current_wf(self)
        requires
            self.wf(),
            self.taken,
            self.held.contains(self.current),
            self.tcb(self.current).run_state == RunState::Runnable,
        ensures
            self.release_current().wf(),
    {
        let next = self.release_current();
        self.lemma_one_place(self.current);
        self.lemma_accounted_frame(next);
    }

    /// Queueing a held runnable thread keeps the state well formed.
    pub proof fn lemma_enqueue_runnable_wf(self, tid: ThreadID)
        requires
            self.wf(),
            self.held.contains(tid),
            self.tcb(tid).run_state == RunState::Runnable,
        ensures
            self.enqueue_runnable(tid).wf(),
            self.enqueue_runnable(tid).placed(tid),
    {
        let next = self.enqueue_runnable(tid);
        assert(is_live(self.threads, tid));
        lemma_push_fresh(self.run_queue, tid);
        self.lemma_accounted_frame(next);
    }

    /// Queueing a held dead thread for reaping keeps the state well formed.
    pub proof fn lemma_enqueue_reap_wf(self, tid: ThreadID)
        requires
            self.wf(),
            self.held.contains(tid),
            self.tcb(tid).run_state is Dead,
        ensures
            self.enqueue_reap(tid).wf(),
            self.enqueue_reap(tid).placed(tid),
    {
        let next = self.enqueue_reap(tid);
        assert(is_live(self.threads, tid));
        lemma_push_fresh(self.reap_queue, tid);
        self.lemma_accounted_frame(next);
    }

    /// Queueing a held thread on the wait queue that its run state names
    /// keeps the state well formed.
    pub proof fn lemma_enqueue_wait_wf(self, q: int, tid: ThreadID)
        requires
            self.wf(),
            0 <= q < self.wait_queues.len(),
            self.held.contains(tid),
            self.tcb(tid).run_state == RunState::ListWait(q as usize),
        ensures
            self.enqueue_wait(q, tid).wf(),
            self.enqueue_wait(q, tid).placed(tid),
    {
        let next = self.enqueue_wait(q, tid);
        assert(is_live(self.threads, tid));
        lemma_push_fresh(self.wait_queues[q], tid);
        assert forall|k: int| 0 <= k < next.wait_queues.len() implies wait_queue_ok(
            next.threads,
            next.held,
            #[trigger] next.wait_queues[k],
            k,
        ) by {
            assert(wait_queue_ok(self.threads, self.held, self.wait_queues[k], k));
        }
        self.lemma_sleepers_frame(next);
        assert forall|t: ThreadID| #[trigger] is_live(next.threads, t) implies next.accounted(t) by {
            assert(self.accounted(t));
            if t != tid && self.placed(t) {
                match self.tcb(t).run_state {
                    RunState::ListWait(k) => {
                        if k as int == q {
                            lemma_push_keeps(self.wait_queues[q], tid, t);
                        }
                    },
                    _ => {},
                }
            }
        }
    }

    /// Taking the front of the run queue keeps the state well formed.
    pub proof fn lemma_pop_runnable_wf(self)
        requires
            self.wf(),
        ensures
            self.pop_runnable().wf(),
            self.run_queue.len() > 0 ==> {
                &&& self.pop_runnable().held.contains(self.run_queue[0])
                &&& self.pop_runnable().tcb(self.run_queue[0]).run_state == RunState::Runnable
                &&& self.run_queue[0] != self.idle
                &&& self.taken || self.run_queue[0] != self.current
            },
    {
        if self.run_queue.len() > 0 {
            let next = self.pop_runnable();
            let front = self.run_queue[0];
            lemma_drop_first_contains(self.run_queue);
            self.lemma_one_place(front);
            assert(self.run_queue.contains(front));
            self.lemma_blocked_frame(next);
            self.lemma_accounted_frame(next);
        }
    }

    /// Switching to a held runnable thread keeps the state well formed.
    pub proof fn lemma_switched_to_wf(self, tid: ThreadID)
        requires
            self.wf(),
            self.held.contains(tid),
            self.tcb(tid).run_state == RunState::Runnable,
        ensures
            self.switched_to(tid).wf(),
    {
        let next = self.switched_to(tid);
        assert(is_live(self.threads, tid));
        self.lemma_one_place(tid);
        self.lemma_one_place(self.current);
        self.lemma_held_in_no_queue(tid);
        self.lemma_blocked_frame(next);
        self.lemma_accounted_frame(next);
    }

    /// Switching to the idle thread keeps the state well formed.
    pub proof fn lemma_switched_to_idle_wf(self)
        requires
            self.wf(),
        ensures
            self.switched_to_idle().wf(),
    {
        let next = self.switched_to_idle();
        self.lemma_one_place(self.current);
        self.lemma_blocked_frame(next);
        self.lemma_accounted_frame(next);
    }

    /// A held thread is in no queue and no sleep object.
    pub proof fn lemma_held_in_no_queue(self, tid: ThreadID)
        requires
            self.wf(),
            self.held.contains(tid),
        ensures
            !self.run_queue.contains(tid),
            !self.reap_queue.contains(tid),
            forall|k: int|
                0 <= k < self.wait_queues.len() ==> !(#[trigger] self.wait_queues[k]).contains(tid),
            forall|k: int|
                0 <= k < self.sleep_objects.len() ==> (#[trigger] self.sleep_objects[k]).waiter
                    != Some(tid),
    {
        assert forall|k: int| 0 <= k < self.wait_queues.len() implies !(
        #[trigger] self.wait_queues[k]).contains(tid) by {
            assert(wait_queue_ok(self.threads, self.held, self.wait_queues[k], k));
        }
        assert forall|k: int| 0 <= k < self.sleep_objects.len() implies (
        #[trigger] self.sleep_objects[k]).waiter != Some(tid) by {
            assert(sleep_object_ok(self.threads, self.held, self.sleep_objects[k], k));
        }
    }

    /// A reschedule keeps the state well formed and leaves the handle of the
    /// thread it picked in the CPU slot.
    pub proof fn lemma_rescheduled_wf(self)
        requires
            self.wf(),
        ensures
            self.rescheduled().wf(),
            !self.rescheduled().taken,
    {
        if self.run_queue.len() > 0 {
            self.lemma_pop_runnable_wf();
            self.pop_runnable().lemma_switched_to_wf(self.run_queue[0]);
        } else if self.current != self.idle {
            self.lemma_switched_to_idle_wf();
        }
    }
}

/// Appending a value that a duplicate-free list lacks keeps it duplicate-free.
pub proof fn lemma_push_fresh(q: Seq<ThreadID>, tid: ThreadID)
    requires
        q.no_duplicates(),
        !q.contains(tid),
    ensures
        q.push(tid).no_duplicates(),
        q.push(tid).contains(tid),
        forall|t: ThreadID| q.contains(t) ==> #[trigger] q.push(tid).contains(t),
        forall|t: ThreadID| #[trigger] q.push(tid).contains(t) ==> q.contains(t) || t == tid,
{
    let p = q.push(tid);
    assert(p[q.len() as int] == tid);
    assert forall|i: int, j: int| 0 <= i < p.len() && 0 <= j < p.len() && i != j implies p[i]
        != p[j] by {
        if i < q.len() {
            assert(q.contains(q[i]));
        }
        if j < q.len() {
            assert(q.contains(q[j]));
        }
    }
    assert forall|t: ThreadID| q.contains(t) implies #[trigger] p.contains(t) by {
        lemma_push_keeps(q, tid, t);
    }
}

/// Appending a type that a cache lacks keeps the cache free of duplicates.
pub proof fn lemma_push_fresh_token(types: Seq<u64>, token: u64)
    requires
        types.no_duplicates(),
        !types.contains(token),
    ensures
        types.push(token).no_duplicates(),
{
    let p = types.push(token);
    assert forall|i: int, j: int| 0 <= i < p.len() && 0 <= j < p.len() && i != j implies p[i]
        != p[j] by {
        if i < types.len() {
            assert(types.contains(types[i]));
        }
        if j < types.len() {
            assert(types.contains(types[j]));
        }
    }
}

/// Appending to a list keeps what it listed.
pub proof fn lemma_push_keeps(q: Seq<ThreadID>, tid: ThreadID, t: ThreadID)
    requires
        q.contains(t),
    ensures
        q.push(tid).contains(t),
{
    let i = choose|i: int| 0 <= i < q.len() && q[i] == t;
    assert(q.push(tid)[i] == t);
}

/// Dropping the front of a duplicate-free list removes the front and nothing
/// else.
pub proof fn lemma_drop_first_contains(q: Seq<ThreadID>)
    requires
        q.len() > 0,
        q.no_duplicates(),
    ensures
        q.drop_first().no_duplicates(),
        !q.drop_first().contains(q[0]),
        forall|t: ThreadID| #[trigger] q.drop_first().contains(t) ==> q.contains(t),
        forall|t: ThreadID| q.contains(t) && t != q[0] ==> #[trigger] q.drop_first().contains(t),
{
    let d = q.drop_first();
    assert forall|t: ThreadID| #[trigger] d.contains(t) implies q.contains(t) && t != q[0] by {
        let i = choose|i: int| 0 <= i < d.len() && d[i] == t;
        assert(q[i + 1] == t);
    }
    assert forall|t: ThreadID| q.contains(t) && t != q[0] implies #[trigger] d.contains(t) by {
        let i = choose|i: int| 0 <= i < q.len() && q[i] == t;
        assert(d[i - 1] == t);
    }
}

} // verus!
