//! Deferred destruction of dead threads, in the model.
//!
//! A dying thread cannot free its own control block: it queues itself for
//! reaping, and another thread destroys it later.

use vstd::prelude::*;
use crate::process::ProcessView;
use crate::state::{
    is_live, is_member, is_proc_live, lemma_drop_first_contains, lemma_member_count_positive,
    lemma_member_count_update, member_count, State,
};
use crate::thread::{ProcessID, ThreadID};

verus! {

/// The process table after one thread of process `pid` has gone: the process
/// counts one thread less, and is destroyed with its last thread. Process 0
/// is never destroyed.
pub open spec fn released(processes: Seq<Option<ProcessView>>, pid: ProcessID) -> Seq<
    Option<ProcessView>,
> {
    let p = processes[pid as int]->0;
    if p.refs == 1 && pid != 0 {
        processes.update(pid as int, None)
    } else {
        processes.update(pid as int, Some(ProcessView { refs: (p.refs - 1) as nat, ..p }))
    }
}

impl State {
    /// The state after the thread at the front of the reap queue has been
    /// reaped. Thread 0 cannot be destroyed: its handle is dropped and its
    /// control block stays. Any other thread's slot is emptied and its
    /// process released.
    pub open spec fn reap_front(self) -> State {
        let tid = self.reap_queue[0];
        if tid == 0 {
            State { reap_queue: self.reap_queue.drop_first(), ..self }
        } else {
            State {
                reap_queue: self.reap_queue.drop_first(),
                threads: self.threads.update(tid as int, None),
                processes: released(self.processes, self.tcb(tid).process),
                ..self
            }
        }
    }

    /// Reaping is safe: the thread at the front of the reap queue, if there
    /// is one, is not the thread that is executing.
    pub open spec fn reap_is_safe(self) -> bool {
        self.reap_queue.len() > 0 ==> self.reap_queue[0] != self.current
    }

    /// The state after one pass of the reaper: the thread that has waited
    /// longest in the reap queue is reaped, and the others stay queued. With
    /// an empty queue nothing changes.
    pub open spec fn reaped(self) -> State {
        if self.reap_queue.len() > 0 {
            self.reap_front()
        } else {
            self
        }
    }

    /// Reaping the front of the reap queue keeps the state well formed,
    /// unless the thread to reap is the one executing.
    pub proof fn lemma_reap_front_wf(self)
        requires
            self.wf(),
            self.reap_queue.len() > 0,
            self.reap_queue[0] != self.current,
        ensures
            self.reap_front().wf(),
            self.reap_front().reap_queue == self.reap_queue.drop_first(),
            self.reap_front().current == self.current,
            self.reap_front().taken == self.taken,
            !self.reap_front().reap_queue.contains(self.reap_queue[0]),
            forall|t: ThreadID| #[trigger]
                self.reap_front().reap_queue.contains(t) ==> self.reap_queue.contains(t),
    {
        let next = self.reap_front();
        let tid = self.reap_queue[0];
        lemma_drop_first_contains(self.reap_queue);
        self.lemma_one_place(tid);
        assert(self.reap_queue.contains(tid));
        assert(is_live(self.threads, tid));
        if tid == 0 {
            self.lemma_accounted_frame(next);
        } else {
            let pid = self.tcb(tid).process;
            assert(is_proc_live(self.processes, pid));
            assert forall|p: ProcessID|
                member_count(next.threads, p) + is_member(self.threads[tid as int], p)
                    == member_count(self.threads, p) by {
                lemma_member_count_update(self.threads, tid as int, None, p);
            }
            lemma_member_count_positive(self.threads, tid as int, pid);
            assert forall|t: ThreadID| #[trigger] is_live(next.threads, t) implies next.threads[t as int]->0.tid
                == t && is_proc_live(next.processes, next.threads[t as int]->0.process) by {
                assert(is_live(self.threads, t));
                let tp = self.threads[t as int]->0.process;
                if tp == pid {
                    lemma_member_count_positive(next.threads, t as int, pid);
                }
            }
            assert forall|p: ProcessID| #[trigger] is_proc_live(next.processes, p) implies {
                &&& next.processes[p as int]->0.pid == p
                &&& next.processes[p as int]->0.wf()
                &&& next.processes[p as int]->0.refs == member_count(next.threads, p)
                &&& p != 0 ==> next.processes[p as int]->0.refs > 0
            } by {
                assert(is_proc_live(self.processes, p));
            }
            self.lemma_blocked_frame(next);
            assert forall|t: ThreadID| #[trigger] is_live(next.threads, t) implies next.accounted(
                t,
            ) by {
                assert(is_live(self.threads, t));
                assert(self.accounted(t));
            }
            assert forall|t: ThreadID| next.held.contains(t) implies #[trigger] is_live(
                next.threads,
                t,
            ) by {
                assert(is_live(self.threads, t));
            }
        }
    }

    /// One pass of the reaper keeps the state well formed. It touches the
    /// front of the reap queue, that thread's slot and the slot of its
    /// process, and nothing else.
    pub proof fn lemma_reaped_wf(self)
        requires
            self.wf(),
            self.reap_is_safe(),
        ensures
            self.reaped().wf(),
            self.reaped().run_queue == self.run_queue,
            self.reaped().wait_queues == self.wait_queues,
            self.reaped().sleep_objects == self.sleep_objects,
            self.reaped().current == self.current,
            self.reaped().taken == self.taken,
            self.reaped().idle == self.idle,
            self.reaped().held == self.held,
            self.reaped().threads.len() == self.threads.len(),
            self.reaped().processes.len() == self.processes.len(),
            self.reap_queue.len() > 0 ==> self.reaped().reap_queue == self.reap_queue.drop_first(),
            forall|t: ThreadID|
                (t as int) < self.threads.len() ==> #[trigger] self.reaped().threads[t as int] == (
                if self.reap_queue.len() > 0 && t == self.reap_queue[0] && t != 0 {
                    None
                } else {
                    self.threads[t as int]
                }),
    {
        if self.reap_queue.len() > 0 {
            self.lemma_reap_front_wf();
        }
    }
}

} // verus!
