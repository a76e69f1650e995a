//! Worker threads: kernel threads that run one task to its end.

use vstd::prelude::*;
use crate::scheduler::{make_runnable, spawn_thread, yield_time, Scheduler, SpawnError};
use crate::state::{State, Switch};
use crate::thread::{RunState, ThreadID};

verus! {

/// The handle by which the creator of a worker thread waits for its end.
#[derive(Debug)]
pub struct WorkerThread {
    tid: ThreadID,
}

/// One step of waiting for a worker.
#[derive(Clone, Copy, Debug, PartialEq, Eq, Structural)]
pub enum JoinStep {
    /// The worker has ended.
    Joined,
    /// The worker has not ended yet: the caller has yielded, performs the
    /// switch, and waits again when it runs again.
    Pending(Switch),
}

/// The scheduler never had the thread that a worker handle names.
#[derive(Clone, Copy, Debug, PartialEq, Eq, Structural)]
pub struct WorkerNotFound;

impl State {
    /// The scheduler has, or had, a thread `tid`.
    pub open spec fn worker_found(self, tid: ThreadID) -> bool {
        (tid as int) < self.threads.len()
    }

    /// Thread `tid` has ended: it is dead, or destroyed already.
    pub open spec fn worker_ended(self, tid: ThreadID) -> bool {
        self.threads[tid as int] is None || self.tcb(tid).run_state is Dead
    }

    /// The state after a worker named `name` has been created: a new
    /// thread of process 0, at the back of the run queue.
    pub open spec fn with_worker(self, name: Seq<char>) -> State {
        self.spawned(name, 0).enqueue_runnable(self.threads.len() as ThreadID)
    }
}

/// True when the scheduler has, or had, a thread `tid`, so that a worker
/// handle that names it can be waited for.
pub fn is_worker(s: &Scheduler, tid: ThreadID) -> (found: bool)
    ensures
        found == s@.worker_found(tid),
{
    (tid as usize) < s.threads.len()
}

impl WorkerThread {
    /// The worker's thread.
    pub closed spec fn id(&self) -> ThreadID {
        self.tid
    }

    /// The worker's thread.
    pub fn get_tid(&self) -> (tid: ThreadID)
        ensures
            tid == self.id(),
    {
        self.tid
    }

    /// Creates a worker: a thread of process 0 that is ready to run. The
    /// caller keeps what the thread is to run under the thread's identity;
    /// when the task is done the thread terminates like any other.
    pub fn new(s: &mut Scheduler, name: &str) -> (r: Result<WorkerThread, SpawnError>)
        requires
            old(s)@.wf(),
        ensures
            final(s)@.wf(),
            old(s)@.precedes(final(s)@),
            old(s)@.quiet(final(s)@),
            match r {
                Ok(worker) => {
                    &&& old(s)@.threads.len() < u32::MAX
                    &&& worker.id() == old(s)@.threads.len()
                    &&& final(s)@ == old(s)@.with_worker(name@)
                    &&& final(s)@.run_queue == old(s)@.run_queue.push(worker.id())
                    &&& final(s)@.held == old(s)@.held
                },
                Err(e) => {
                    &&& old(s)@.threads.len() >= u32::MAX
                    &&& e == SpawnError::TooManyThreads
                    &&& final(s)@ == old(s)@
                },
            },
    {
        match spawn_thread(s, name, 0) {
            Ok(thread) => {
                let tid = thread.get_tid();
                make_runnable(s, thread);
                proof {
                    assert(!old(s)@.live(tid));
                    assert(s@.held =~= old(s)@.held);
                }
                Ok(WorkerThread { tid })
            },
            Err(e) => Err(e),
        }
    }

    /// Waits for the worker's end, one step at a time. When the worker has
    /// ended the caller goes on; otherwise the caller yields the CPU and
    /// asks again when it runs again. A handle that names no thread of this
    /// scheduler is an error.
    pub fn wait(&self, s: &mut Scheduler) -> (r: Result<JoinStep, WorkerNotFound>)
        requires
            old(s)@.wf(),
            !old(s)@.taken,
            old(s)@.current != old(s)@.idle,
        ensures
            final(s)@.wf(),
            old(s)@.precedes(final(s)@),
            old(s)@.quiet(final(s)@),
            !final(s)@.taken,
            match r {
                Err(_) => !old(s)@.worker_found(self.id()) && final(s)@ == old(s)@,
                Ok(JoinStep::Joined) => {
                    &&& old(s)@.worker_found(self.id())
                    &&& old(s)@.worker_ended(self.id())
                    &&& final(s)@ == old(s)@
                },
                Ok(JoinStep::Pending(switch)) => {
                    &&& old(s)@.worker_found(self.id())
                    &&& !old(s)@.worker_ended(self.id())
                    &&& final(s)@ == old(s)@.yielded()
                    &&& switch == old(s)@.yield_switch()
                },
            },
    {
        if self.tid as usize >= s.threads.len() {
            return Err(WorkerNotFound);
        }
        let ended = match &s.threads[self.tid as usize] {
            Some(t) => match t.get_state() {
                RunState::Dead(_) => true,
                _ => false,
            },
            None => true,
        };
        if ended {
            Ok(JoinStep::Joined)
        } else {
            Ok(JoinStep::Pending(yield_time(s)))
        }
    }
}

} // verus!
