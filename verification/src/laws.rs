//! What holds of every run of the scheduler: laws that relate a state to
//! the states that come after it, and laws that relate several operations.

use vstd::prelude::*;
use crate::process::ProcessView;
use crate::state::{State, Switch};
use crate::thread::{RunState, SleepObjectID, ThreadID, ThreadView, WaitQueueID};

verus! {

/// A thread slot may become what `next` is after having been what `prev`
/// was: a destroyed thread stays destroyed, a thread keeps its identity,
/// name and process, and a dead thread stays dead with its exit code.
pub open spec fn thread_may_become(prev: Option<ThreadView>, next: Option<ThreadView>) -> bool {
    match (prev, next) {
        (None, _) => next is None,
        (Some(_), None) => true,
        (Some(a), Some(b)) => {
            &&& b.tid == a.tid
            &&& b.name == a.name
            &&& b.process == a.process
            &&& a.run_state is Dead ==> b.run_state == a.run_state
        },
    }
}

/// A process slot may become what `next` is after having been what `prev`
/// was: a destroyed process stays destroyed, a process keeps its identity,
/// an exit status that was written stays as it was written, and the cache
/// keeps its instances in their slots.
pub open spec fn process_may_become(prev: Option<ProcessView>, next: Option<ProcessView>) -> bool {
    match (prev, next) {
        (None, _) => next is None,
        (Some(_), None) => true,
        (Some(a), Some(b)) => {
            &&& b.pid == a.pid
            &&& a.exit_status is Some ==> b.exit_status == a.exit_status
            &&& a.local_types.is_prefix_of(b.local_types)
        },
    }
}

impl State {
    /// Nothing has posted between this state and `next`, but perhaps to
    /// sleep object `posted_to`: every thread that sleeps here, other than
    /// the waiter of that object, sleeps in `next` as it sleeps here, and no
    /// other sleep object has an event pending in `next` that was not
    /// pending here.
    pub open spec fn quiet_but(self, next: State, posted_to: Option<SleepObjectID>) -> bool {
        &&& forall|t: int|
            0 <= t < self.threads.len() && (#[trigger] self.threads[t]) is Some
                && self.threads[t]->0.run_state is Sleep && !(posted_to is Some
                && posted_to->0 < self.sleep_objects.len() && self.sleep_objects[posted_to->0 as int].waiter
                == Some(t as ThreadID)) ==> t < next.threads.len() && next.threads[t]
                == self.threads[t]
        &&& forall|k: int|
            0 <= k < self.sleep_objects.len() && k < next.sleep_objects.len() && (
            #[trigger] next.sleep_objects[k]).events != 0 && posted_to != Some(k as usize)
                ==> self.sleep_objects[k].events != 0
        &&& forall|k: int|
            self.sleep_objects.len() <= k < next.sleep_objects.len() ==> (
            #[trigger] next.sleep_objects[k]).events == 0
    }

    /// Nothing has posted between this state and `next`: every thread that
    /// sleeps here still sleeps, and no sleep object has gained an event.
    /// Only a post ends a sleep, and only a post lets a wait pass.
    pub open spec fn quiet(self, next: State) -> bool {
        self.quiet_but(next, None)
    }

    /// A thread that sleeps or waits does not run: while the handle of the
    /// running thread is in the CPU slot, the thread is runnable, and it is
    /// on no wait queue and no sleep object.
    pub proof fn lemma_blocked_thread_does_not_run(self)
        requires
            self.wf(),
            !self.taken,
        ensures
            self.tcb(self.current).run_state == RunState::Runnable,
            forall|k: int|
                0 <= k < self.sleep_objects.len() ==> (#[trigger] self.sleep_objects[k]).waiter
                    != Some(self.current),
            forall|q: int|
                0 <= q < self.wait_queues.len() ==> !(#[trigger] self.wait_queues[q]).contains(
                    self.current,
                ),
    {
        self.lemma_one_place(self.current);
    }

    /// A reschedule never picks a thread that sleeps: whoever asks for it,
    /// the thread that runs afterwards is runnable, and every sleeping
    /// thread is left asleep and off the run queue.
    pub proof fn lemma_reschedule_passes_sleepers_by(self, t: ThreadID)
        requires
            self.wf(),
            self.live(t),
            self.tcb(t).run_state is Sleep,
        ensures
            self.rescheduled().current != t,
            self.rescheduled().tcb(t) == self.tcb(t),
            !self.rescheduled().run_queue.contains(t),
            self.quiet(self.rescheduled()),
    {
        self.lemma_rescheduled_wf();
        self.lemma_pop_runnable_wf();
        if self.run_queue.contains(t) {
            let i = choose|i: int| 0 <= i < self.run_queue.len() && self.run_queue[i] == t;
            assert(self.tcb(self.run_queue[i]).run_state == RunState::Runnable);
        }
        if self.run_queue.len() > 0 {
            crate::state::lemma_drop_first_contains(self.run_queue);
        }
    }

    /// `next` may come after this state: the arenas only grow, and every
    /// slot may become what it is in `next`. No step brings a dead thread
    /// back, uses an identity twice or writes an exit status over.
    pub open spec fn precedes(self, next: State) -> bool {
        &&& self.idle == next.idle
        &&& self.threads.len() <= next.threads.len()
        &&& forall|t: int|
            0 <= t < self.threads.len() ==> thread_may_become(
                self.threads[t],
                #[trigger] next.threads[t],
            )
        &&& self.processes.len() <= next.processes.len()
        &&& forall|p: int|
            0 <= p < self.processes.len() ==> process_may_become(
                self.processes[p],
                #[trigger] next.processes[p],
            )
    }

    /// A state may come after itself.
    pub proof fn lemma_precedes_itself(self)
        ensures
            self.precedes(self),
    {
    }

    /// What may come after a later state may come after an earlier one.
    pub proof fn lemma_precedes_chain(self, mid: State, last: State)
        requires
            self.precedes(mid),
            mid.precedes(last),
        ensures
            self.precedes(last),
    {
        assert forall|t: int| 0 <= t < self.threads.len() implies thread_may_become(
            self.threads[t],
            #[trigger] last.threads[t],
        ) by {
            assert(thread_may_become(self.threads[t], mid.threads[t]));
            assert(thread_may_become(mid.threads[t], last.threads[t]));
        }
        assert forall|p: int| 0 <= p < self.processes.len() implies process_may_become(
            self.processes[p],
            #[trigger] last.processes[p],
        ) by {
            assert(process_may_become(self.processes[p], mid.processes[p]));
            assert(process_may_become(mid.processes[p], last.processes[p]));
        }
    }

    /// Reaping brings no thread back and reuses no identity.
    pub proof fn lemma_reaped_precedes(self)
        requires
            self.wf(),
            self.reap_is_safe(),
        ensures
            self.precedes(self.reaped()),
    {
        self.lemma_reaped_wf();
        if self.reap_queue.len() > 0 {
            let tid = self.reap_queue[0];
            let after = self.reaped();
            assert(self.reap_queue.contains(tid));
            assert(self.live(tid));
            assert forall|t: int| 0 <= t < self.threads.len() implies thread_may_become(
                self.threads[t],
                #[trigger] after.threads[t],
            ) by {
                assert(after.threads[t as ThreadID as int] == after.threads[t]);
            }
            assert forall|p: int| 0 <= p < self.processes.len() implies process_may_become(
                self.processes[p],
                #[trigger] after.processes[p],
            ) by {}
        }
    }

    /// A reschedule creates no thread and destroys none: the arenas stay as
    /// they are, and every live thread's handle is still in exactly one
    /// place.
    pub proof fn lemma_reschedule_conserves_threads(self)
        requires
            self.wf(),
        ensures
            self.rescheduled().threads == self.threads,
            self.rescheduled().processes == self.processes,
            self.rescheduled().reap_queue == self.reap_queue,
            self.rescheduled().wait_queues == self.wait_queues,
            self.rescheduled().sleep_objects == self.sleep_objects,
            self.rescheduled().wf(),
            self.precedes(self.rescheduled()),
    {
        self.lemma_rescheduled_wf();
    }

    /// A reschedule with an empty run queue, asked for by the idle thread,
    /// changes nothing at all: no handle is lost, none appears twice.
    pub proof fn lemma_idle_reschedule_changes_nothing(self)
        requires
            self.run_queue.len() == 0,
            self.current == self.idle,
        ensures
            self.rescheduled() == self,
            self.reschedule_switch() == Switch::Stay,
    {
    }

    /// A reschedule loses a handle in one case only: the running thread's
    /// handle was still in the CPU slot, the thread is not the idle thread,
    /// and another thread was switched to. Then that one handle is lost.
    pub proof fn lemma_reschedule_forgets_at_most_current(self)
        requires
            self.wf(),
        ensures
            self.rescheduled().held == (if self.switch_forgets_current() {
                self.held.insert(self.current)
            } else {
                self.held
            }),
    {
        self.lemma_pop_runnable_wf();
        if self.run_queue.len() > 0 {
            let front = self.run_queue[0];
            assert(!self.held.contains(front));
            if self.switch_forgets_current() {
                assert(self.rescheduled().held =~= self.held.insert(self.current));
            } else {
                assert(self.rescheduled().held =~= self.held);
            }
        }
    }

    /// While the running thread's handle is in the CPU slot, the thread is
    /// not in the reap queue: a thread never reaps itself.
    pub proof fn lemma_no_self_reap(self)
        requires
            self.wf(),
            !self.taken,
        ensures
            !self.reap_queue.contains(self.current),
            self.reap_is_safe(),
    {
        self.lemma_one_place(self.current);
        if self.reap_queue.len() > 0 {
            assert(self.reap_queue.contains(self.reap_queue[0]));
        }
    }

    /// The reaper spares the running thread: a pass that is safe destroys
    /// no thread but the one at the front of the reap queue, which is dead
    /// and not the one executing, and never thread 0.
    pub proof fn lemma_reaper_spares_running_thread(self)
        requires
            self.wf(),
            self.reap_is_safe(),
        ensures
            self.reaped().live(self.current),
            self.reaped().tcb(self.current) == self.tcb(self.current),
            self.reaped().live(0) == self.live(0),
            forall|t: ThreadID|
                self.live(t) && !#[trigger] self.reaped().live(t) ==> {
                    &&& self.reap_queue.len() > 0
                    &&& t == self.reap_queue[0]
                    &&& self.tcb(t).run_state is Dead
                    &&& t != self.current
                    &&& t != 0
                },
    {
        self.lemma_reaped_wf();
        if self.reap_queue.len() > 0 {
            assert(self.reap_queue.contains(self.reap_queue[0]));
            assert(self.live(self.reap_queue[0]));
        }
        assert(self.reaped().threads[self.current as int] == self.threads[self.current as int]);
    }

    /// A thread on a wait queue is not in the run queue, and not on any
    /// other wait queue.
    pub proof fn lemma_waiter_is_not_runnable(self, q: WaitQueueID, tid: ThreadID)
        requires
            self.wf(),
            self.is_wait_queue(q),
            self.wait_queues[q as int].contains(tid),
        ensures
            !self.run_queue.contains(tid),
            !self.reap_queue.contains(tid),
            tid != self.current || self.taken,
            forall|j: int|
                0 <= j < self.wait_queues.len() && j != q ==> !(
                #[trigger] self.wait_queues[j]).contains(tid),
    {
        self.lemma_one_place(tid);
        self.lemma_one_place(self.current);
    }

    /// A wake moves the thread that has waited longest from its wait queue
    /// to the run queue: afterwards the wait queue does not hold it, the
    /// run queue holds it once, behind what it held before, so that the
    /// thread is the answer to the pop that follows the pops of those.
    pub proof fn lemma_wake_shows_waiter_once(self, q: WaitQueueID)
        requires
            self.wf(),
            self.is_wait_queue(q),
            self.wait_queues[q as int].len() > 0,
        ensures
            ({
                let t = self.wait_queues[q as int][0];
                let after = self.woken_one(q);
                &&& !self.run_queue.contains(t)
                &&& !after.wait_queues[q as int].contains(t)
                &&& after.run_queue == self.run_queue.push(t)
                &&& after.run_queue.no_duplicates()
                &&& after.run_queue[self.run_queue.len() as int] == t
                &&& self.run_queue.len() == 0 ==> after.next_runnable() == Some(t)
                &&& self.run_queue.len() == 0 ==> !after.pop_runnable().run_queue.contains(t)
            }),
    {
        self.lemma_woken_one_wf(q);
        let t = self.wait_queues[q as int][0];
        let after = self.woken_one(q);
        if self.run_queue.len() == 0 {
            assert(after.pop_runnable().run_queue =~= Seq::<ThreadID>::empty());
        }
    }

    /// One exit wins: of two writes of the exit status of one process, by
    /// whatever threads of it and in whatever order, the first succeeds and
    /// the second is refused; the status is the first writer's, and the
    /// second write changes nothing.
    pub proof fn lemma_one_exit_wins(self, first: u32, second: u32)
        requires
            self.wf(),
            self.pcb(self.current_process()).exit_status is None,
        ensures
            !self.pcb(self.current_process()).exit_refused(),
            self.exit_marked(first).pcb(self.current_process()).exit_status == Some(first),
            forall|later: State|
                #![trigger later.pcb(self.current_process())]
                self.exit_marked(first).precedes(later) && later.proc_live(self.current_process())
                    ==> later.pcb(self.current_process()).exit_refused() && later.pcb(
                    self.current_process(),
                ).exit_written(second) == later.pcb(self.current_process()) && later.pcb(
                    self.current_process(),
                ).exit_status == Some(first),
    {
        let pid = self.current_process();
        assert(self.live(self.current));
        assert(self.proc_live(pid));
        let marked = self.exit_marked(first);
        assert forall|later: State|
            #![trigger later.pcb(pid)]
            marked.precedes(later) && later.proc_live(pid) implies later.pcb(pid).exit_refused()
                && later.pcb(pid).exit_written(second) == later.pcb(pid) && later.pcb(
                pid,
            ).exit_status == Some(first) by {
            assert(process_may_become(marked.processes[pid as int], later.processes[pid as int]));
        }
    }

    /// An exit holds for the whole process: once a thread has exited its
    /// process with a status, the process keeps that status in every later
    /// state, for as long as it exists, so that the exit of any other
    /// thread of the process is refused.
    pub proof fn lemma_exit_sticks(self, status: u32, later: State)
        requires
            self.wf(),
            !self.taken,
            self.current != 0,
            self.current != self.idle,
            self.pcb(self.current_process()).exit_status is None,
            self.with_exit_status(self.current_process(), status).terminated().precedes(later),
            later.proc_live(self.current_process()),
        ensures
            later.pcb(self.current_process()).exit_status == Some(status),
            later.pcb(self.current_process()).exit_refused(),
    {
        let pid = self.current_process();
        assert(self.live(self.current));
        assert(self.proc_live(pid));
        let exited = self.with_exit_status(pid, status).terminated();
        assert(exited.processes == self.with_exit_status(pid, status).processes);
        assert(crate::laws::process_may_become(
            exited.processes[pid as int],
            later.processes[pid as int],
        ));
    }
}

} // verus!
