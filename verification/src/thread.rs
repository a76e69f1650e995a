//! Thread control blocks.

use vstd::prelude::*;

verus! {

/// Numeric identity of a thread. Thread 0 is the bootstrap thread.
pub type ThreadID = u32;

/// Numeric identity of a process. Process 0 is the kernel's own process.
pub type ProcessID = u32;

/// Handle of a wait queue registered with the scheduler.
pub type WaitQueueID = usize;

/// Handle of a sleep object registered with the scheduler.
pub type SleepObjectID = usize;

/// What a thread is doing when it is not the one executing.
///
/// There is no variant for "running": the running thread is the one the CPU
/// slot names, and it keeps the state `Runnable`.
#[derive(Clone, Copy, Debug, PartialEq, Eq, Structural)]
pub enum RunState {
    /// Ready to execute.
    Runnable,
    /// Blocked on the wait queue with the given handle.
    ListWait(WaitQueueID),
    /// Asleep on one sleep object or on several; the handle is that of the
    /// one, or of the first of the several.
    Sleep(SleepObjectID),
    /// Terminated with the given exit code; never leaves this state.
    Dead(u32),
}

/// Owning handle of a thread.
///
/// A handle is neither copied nor made from a number by callers: the
/// scheduler hands one out when a thread leaves a queue or the CPU slot, and
/// takes it back when the thread is queued or switched to. At any instant a
/// live thread's handle is therefore in exactly one place.
#[derive(Debug)]
pub struct ThreadPtr {
    tid: ThreadID,
}

impl ThreadPtr {
    /// The thread that the handle stands for.
    pub closed spec fn id(&self) -> ThreadID {
        self.tid
    }

    /// The handle of thread `tid`, for the scheduler to hand out.
    pub(crate) fn from_tid(tid: ThreadID) -> (p: ThreadPtr)
        ensures
            p.id() == tid,
    {
        ThreadPtr { tid }
    }

    /// The thread that the handle stands for.
    pub fn get_tid(&self) -> (tid: ThreadID)
        ensures
            tid == self.id(),
    {
        self.tid
    }
}

/// Mathematical value of a thread control block.
pub struct ThreadView {
    pub tid: ThreadID,
    pub name: Seq<char>,
    pub run_state: RunState,
    pub process: ProcessID,
}

/// A thread control block: identity, name, run state and owning process.
///
/// A control block is not synchronised internally. It is only ever touched by
/// the one context that owns it at the time.
pub struct Thread {
    tid: ThreadID,
    name: String,
    run_state: RunState,
    process: ProcessID,
}

impl View for Thread {
    type V = ThreadView;

    closed spec fn view(&self) -> ThreadView {
        ThreadView {
            tid: self.tid,
            name: self.name@,
            run_state: self.run_state,
            process: self.process,
        }
    }
}

impl Thread {
    /// Builds the control block of a thread that is ready to run.
    pub fn new(tid: ThreadID, name: &str, process: ProcessID) -> (t: Thread)
        ensures
            t@ == (ThreadView { tid, name: name@, run_state: RunState::Runnable, process }),
    {
        Thread { tid, name: name.to_string(), run_state: RunState::Runnable, process }
    }

    /// The thread's identity.
    pub fn get_tid(&self) -> (tid: ThreadID)
        ensures
            tid == self@.tid,
    {
        self.tid
    }

    /// The thread's name.
    pub fn get_name(&self) -> (name: &str)
        ensures
            name@ == self@.name,
    {
        self.name.as_str()
    }

    /// The process that the thread belongs to.
    pub fn get_process_info(&self) -> (pid: ProcessID)
        ensures
            pid == self@.process,
    {
        self.process
    }

    /// The thread's current run state.
    pub fn get_state(&self) -> (state: RunState)
        ensures
            state == self@.run_state,
    {
        self.run_state
    }

    /// Replaces the run state and nothing else.
    pub fn set_state(&mut self, state: RunState)
        ensures
            final(self)@ == (ThreadView { run_state: state, ..old(self)@ }),
    {
        self.run_state = state;
    }
}

} // verus!
