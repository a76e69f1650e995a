//! The scheduler: the run queue, the reap queue, the CPU slot, and the
//! operations that move threads between them.

use vstd::prelude::*;
use vstd::pervasive::unreached;
use crate::process::{
    cache_after_request, is_local_index, ExitRace, LocalSlot, Process, ProcessView, TypeToken,
};
use crate::reaper::released;
use crate::sleep_object::SleepObject;
use crate::state::{
    is_live, is_member, is_proc_live, lemma_member_count_bound, lemma_member_count_push,
    member_count, State, Switch,
};
use crate::thread::{ProcessID, RunState, Thread, ThreadID, ThreadPtr, ThreadView};
use crate::thread_list::ThreadList;
use crate::wait_queue::WaitQueue;

verus! {

/// The threading core of one CPU.
pub struct Scheduler {
    pub(crate) threads: Vec<Option<Thread>>,
    pub(crate) processes: Vec<Option<Process>>,
    pub(crate) run_queue: ThreadList,
    pub(crate) reap_queue: ThreadList,
    pub(crate) wait_queues: Vec<WaitQueue>,
    pub(crate) sleep_objects: Vec<SleepObject>,
    pub(crate) current: ThreadID,
    pub(crate) taken: bool,
    pub(crate) idle: ThreadID,
    pub(crate) held: Ghost<Set<ThreadID>>,
}

/// Why a thread could not be created.
#[derive(Clone, Copy, Debug, PartialEq, Eq, Structural)]
pub enum SpawnError {
    /// The process that the thread was to join does not exist.
    NoSuchProcess,
    /// Every thread identity has been used.
    TooManyThreads,
    /// Every process identity has been used.
    TooManyProcesses,
}

/// The value of a thread slot.
pub open spec fn thread_slot_view(slot: Option<Thread>) -> Option<ThreadView> {
    match slot {
        Some(t) => Some(t@),
        None => None,
    }
}

/// The value of a process slot.
pub open spec fn process_slot_view(slot: Option<Process>) -> Option<ProcessView> {
    match slot {
        Some(p) => Some(p@),
        None => None,
    }
}

impl View for Scheduler {
    type V = State;

    open(crate) spec fn view(&self) -> State {
        State {
            threads: self.threads@.map_values(|slot: Option<Thread>| thread_slot_view(slot)),
            processes: self.processes@.map_values(|slot: Option<Process>| process_slot_view(slot)),
            run_queue: self.run_queue@,
            reap_queue: self.reap_queue@,
            wait_queues: self.wait_queues@.map_values(|q: WaitQueue| q@),
            sleep_objects: self.sleep_objects@.map_values(|o: SleepObject| o@),
            current: self.current,
            taken: self.taken,
            idle: self.idle,
            held: self.held@,
        }
    }
}

impl Scheduler {
    /// Replaces the run state of a thread whose handle the caller holds.
    pub(crate) fn set_run_state(&mut self, thread: &ThreadPtr, state: RunState)
        requires
            old(self)@.wf(),
            old(self)@.held.contains(thread.id()),
        ensures
            final(self)@ == old(self)@.with_run_state(thread.id(), state),
            final(self)@.wf(),
    {
        let tid = thread.get_tid();
        proof {
            old(self)@.lemma_with_run_state_wf(tid, state);
            assert(old(self)@.live(tid));
        }
        match &mut self.threads[tid as usize] {
            Some(t) => {
                t.set_state(state);
            },
            None => unreached(),
        }
        assert(self@.threads =~= old(self)@.with_run_state(tid, state).threads);
    }
}

/// Takes the running thread's handle out of the CPU slot.
///
/// The slot holds the handle, and the thread is not the idle thread: the
/// machine layer keeps the idle thread's handle, and nobody else gets it.
pub fn get_cur_thread(s: &mut Scheduler) -> (thread: ThreadPtr)
    requires
        old(s)@.wf(),
        !old(s)@.taken,
        old(s)@.current != old(s)@.idle,
    ensures
        thread.id() == old(s)@.current,
        final(s)@ == old(s)@.take_current(),
        final(s)@.wf(),
        old(s)@.precedes(final(s)@),
        old(s)@.quiet(final(s)@),
{
    proof {
        s@.lemma_take_current_wf();
    }
    s.taken = true;
    s.held = Ghost(s.held@.insert(s.current));
    ThreadPtr::from_tid(s.current)
}

/// Puts the running thread's handle back into the CPU slot.
pub fn rel_cur_thread(s: &mut Scheduler, thread: ThreadPtr)
    requires
        old(s)@.wf(),
        old(s)@.taken,
        thread.id() == old(s)@.current,
        old(s)@.held.contains(thread.id()),
        old(s)@.tcb(thread.id()).run_state == RunState::Runnable,
    ensures
        final(s)@ == old(s)@.release_current(),
        final(s)@.wf(),
        old(s)@.precedes(final(s)@),
        old(s)@.quiet(final(s)@),
{
    proof {
        s@.lemma_release_current_wf();
    }
    s.taken = false;
    s.held = Ghost(s.held@.remove(s.current));
}

/// Takes the next thread to run off the run queue; `None` when no thread is
/// runnable.
pub fn get_thread_to_run(s: &mut Scheduler) -> (thread: Option<ThreadPtr>)
    requires
        old(s)@.wf(),
    ensures
        final(s)@ == old(s)@.pop_runnable(),
        final(s)@.wf(),
        old(s)@.precedes(final(s)@),
        old(s)@.quiet(final(s)@),
        match thread {
            Some(t) => Some(t.id()),
            None => None,
        } == old(s)@.next_runnable(),
{
    proof {
        s@.lemma_pop_runnable_wf();
    }
    if s.run_queue.empty() {
        None
    } else {
        let thread = s.run_queue.pop();
        proof {
            s.held@ = s.held@.insert(thread->0.id());
        }
        thread
    }
}

/// Makes a thread the running thread: its handle goes into the CPU slot.
/// A handle that was still in the slot is lost, unless it is the idle
/// thread's.
pub fn switch_to(s: &mut Scheduler, thread: ThreadPtr)
    requires
        old(s)@.wf(),
        old(s)@.held.contains(thread.id()),
        old(s)@.tcb(thread.id()).run_state == RunState::Runnable,
    ensures
        final(s)@ == old(s)@.switched_to(thread.id()),
        final(s)@.wf(),
        old(s)@.precedes(final(s)@),
        old(s)@.quiet(final(s)@),
{
    proof {
        s@.lemma_switched_to_wf(thread.id());
        s.held@ = s@.held_after_switch().remove(thread.id());
    }
    s.current = thread.get_tid();
    s.taken = false;
}

/// Picks the next thread to run and makes it the running thread.
///
/// The front of the run queue runs next. When it is the thread that is
/// already executing, the caller switches to it and then idles the machine.
/// With an empty run queue the idle thread runs; when it is the idle thread
/// that asks, nothing changes. A reschedule never blocks a thread: the
/// caller has queued the running thread where it belongs beforehand. A
/// running thread whose handle is still in the CPU slot is forgotten by the
/// switch, unless it is the idle thread.
pub fn reschedule(s: &mut Scheduler) -> (switch: Switch)
    requires
        old(s)@.wf(),
    ensures
        final(s)@ == old(s)@.rescheduled(),
        switch == old(s)@.reschedule_switch(),
        final(s)@.wf(),
        old(s)@.precedes(final(s)@),
        old(s)@.quiet(final(s)@),
        !final(s)@.taken,
{
    proof {
        s@.lemma_rescheduled_wf();
        s@.lemma_pop_runnable_wf();
    }
    let running = s.current;
    match get_thread_to_run(s) {
        Some(thread) => {
            let tid = thread.get_tid();
            switch_to(s, thread);
            if tid == running {
                Switch::ToSelfThenIdle(tid)
            } else {
                Switch::To(tid)
            }
        },
        None => {
            let idle = s.idle;
            if idle != running {
                proof {
                    s@.lemma_switched_to_idle_wf();
                    s.held@ = s@.held_after_switch();
                }
                s.current = idle;
                s.taken = false;
                Switch::ToIdle(idle)
            } else {
                Switch::Stay
            }
        },
    }
}

impl Scheduler {
    /// The process of a live thread.
    pub(crate) fn process_of(&self, tid: ThreadID) -> (pid: ProcessID)
        requires
            self@.live(tid),
        ensures
            pid == self@.tcb(tid).process,
    {
        match &self.threads[tid as usize] {
            Some(t) => t.get_process_info(),
            None => unreached(),
        }
    }

    /// Takes one thread off the count of a live process, and destroys the
    /// process with its last thread.
    pub(crate) fn release_process(&mut self, pid: ProcessID)
        requires
            old(self)@.proc_live(pid),
            old(self)@.pcb(pid).refs > 0,
        ensures
            final(self)@ == (State {
                processes: released(old(self)@.processes, pid),
                ..old(self)@
            }),
    {
        let last = match &self.processes[pid as usize] {
            Some(p) => p.thread_count() == 1,
            None => unreached(),
        };
        if last && pid != 0 {
            self.processes[pid as usize] = None;
        } else {
            match &mut self.processes[pid as usize] {
                Some(p) => {
                    p.drop_ref();
                },
                None => unreached(),
            }
        }
        assert(self@.processes =~= released(old(self)@.processes, pid));
    }

    /// Destroys the thread at the front of the reap queue.
    pub(crate) fn reap_front(&mut self)
        requires
            old(self)@.wf(),
            old(self)@.reap_queue.len() > 0,
            old(self)@.reap_queue[0] != old(self)@.current,
        ensures
            final(self)@ == old(self)@.reap_front(),
            final(self)@.wf(),
    {
        proof {
            self@.lemma_reap_front_wf();
            assert(self@.live(self@.reap_queue[0]));
        }
        let thread = self.reap_queue.pop();
        let tid = match thread {
            Some(t) => t.get_tid(),
            None => unreached(),
        };
        if tid != 0 {
            let pid = self.process_of(tid);
            proof {
                assert(self@.proc_live(pid));
                crate::state::lemma_member_count_positive(self@.threads, tid as int, pid);
            }
            self.threads[tid as usize] = None;
            assert(self@.threads =~= old(self)@.threads.update(tid as int, None));
            self.release_process(pid);
        }
    }
}

/// One pass of the reaper: destroys the dead thread that has waited
/// longest in the reap queue, and returns whether there was one. The others
/// stay queued for later passes.
///
/// A thread is never reaped by itself: its control block would go while its
/// code still runs. The caller makes sure that the thread to reap is not the
/// one executing; while the executing thread's handle is in the CPU slot it
/// never is. Thread 0 cannot be destroyed: when it turns up its handle is
/// dropped and its control block stays.
pub fn reap_threads(s: &mut Scheduler) -> (reaped: bool)
    requires
        old(s)@.wf(),
        old(s)@.reap_queue.len() > 0 ==> old(s)@.reap_queue[0] != old(s)@.current,
    ensures
        reaped == (old(s)@.reap_queue.len() > 0),
        final(s)@ == (if old(s)@.reap_queue.len() > 0 {
            old(s)@.reap_front()
        } else {
            old(s)@
        }),
        final(s)@.wf(),
        old(s)@.precedes(final(s)@),
        old(s)@.quiet(final(s)@),
{
    proof {
        s@.lemma_reaped_precedes();
        s@.lemma_reaped_wf();
    }
    if s.reap_queue.empty() {
        false
    } else {
        s.reap_front();
        true
    }
}

impl State {
    /// The state right after start-up: thread 0 runs, the idle thread is
    /// thread 1, both belong to process 0, and nothing is queued.
    pub open spec fn initial() -> State {
        State {
            threads: seq![
                Some(
                    ThreadView {
                        tid: 0,
                        name: "ThreadZero"@,
                        run_state: RunState::Runnable,
                        process: 0,
                    },
                ),
                Some(
                    ThreadView {
                        tid: 1,
                        name: "Idle#0"@,
                        run_state: RunState::Runnable,
                        process: 0,
                    },
                ),
            ],
            processes: seq![
                Some(
                    ProcessView { pid: 0, exit_status: None, local_types: Seq::empty(), refs: 2 },
                ),
            ],
            run_queue: Seq::empty(),
            reap_queue: Seq::empty(),
            wait_queues: Seq::empty(),
            sleep_objects: Seq::empty(),
            current: 0,
            taken: false,
            idle: 1,
            held: Set::empty(),
        }
    }

    /// The start-up state is well formed.
    pub proof fn lemma_initial_wf()
        ensures
            State::initial().wf(),
    {
        let s = State::initial();
        let none = Seq::<Option<ThreadView>>::empty();
        assert(s.threads =~= none.push(s.threads[0]).push(s.threads[1]));
        assert forall|pid: ProcessID| member_count(s.threads, pid) == (if pid == 0 {
            2nat
        } else {
            0nat
        }) by {
            lemma_member_count_push(none, s.threads[0], pid);
            lemma_member_count_push(none.push(s.threads[0]), s.threads[1], pid);
        }
    }

    /// A thread can join process `pid`: the process exists and a thread
    /// identity is left.
    pub open spec fn spawn_error(self, pid: ProcessID) -> Option<SpawnError> {
        if !self.proc_live(pid) {
            Some(SpawnError::NoSuchProcess)
        } else if self.threads.len() >= u32::MAX {
            Some(SpawnError::TooManyThreads)
        } else {
            None
        }
    }

    /// The state after a thread named `name` has been created in process
    /// `pid`: it takes the next free slot, is runnable, and the running code
    /// holds its handle.
    pub open spec fn spawned(self, name: Seq<char>, pid: ProcessID) -> State {
        let tid = self.threads.len() as ThreadID;
        State {
            threads: self.threads.push(
                Some(ThreadView { tid, name, run_state: RunState::Runnable, process: pid }),
            ),
            processes: self.processes.update(
                pid as int,
                Some(ProcessView { refs: self.pcb(pid).refs + 1, ..self.pcb(pid) }),
            ),
            held: self.held.insert(tid),
            ..self
        }
    }

    /// The state after a process has been created: it takes the next free
    /// slot, and no thread belongs to it yet.
    pub open spec fn with_new_process(self) -> State {
        State {
            processes: self.processes.push(
                Some(
                    ProcessView {
                        pid: self.processes.len() as ProcessID,
                        exit_status: None,
                        local_types: Seq::empty(),
                        refs: 0,
                    },
                ),
            ),
            ..self
        }
    }

    /// Creating a thread keeps the state well formed. A process that got
    /// its slot a moment ago, and has no thread yet, is as good as a
    /// process of a well-formed state.
    pub proof fn lemma_spawned_wf(self, before: State, name: Seq<char>, pid: ProcessID)
        requires
            before.wf(),
            self == before || (self == before.with_new_process() && pid
                == before.processes.len() && before.processes.len() < u32::MAX),
            self.proc_live(pid),
            self.threads.len() < u32::MAX,
        ensures
            self.spawned(name, pid).wf(),
            self.spawned(name, pid).tcb(self.threads.len() as ThreadID).run_state
                == RunState::Runnable,
            self.pcb(pid).refs < self.threads.len() + 1,
    {
        let next = self.spawned(name, pid);
        let tid = self.threads.len() as ThreadID;
        let slot = next.threads[tid as int];
        lemma_member_count_bound(before.threads, pid);
        assert forall|p: ProcessID| member_count(next.threads, p) == member_count(self.threads, p)
            + is_member(slot, p) by {
            lemma_member_count_push(self.threads, slot, p);
        }
        if self != before {
            assert(!is_proc_live(before.processes, pid));
            assert(member_count(before.threads, pid) == 0) by {
                if member_count(before.threads, pid) != 0 {
                    lemma_first_member(before.threads, pid);
                    let i = choose|i: int|
                        0 <= i < before.threads.len() && is_member(before.threads[i], pid) == 1;
                    assert(is_live(before.threads, i as ThreadID));
                }
            }
        }
        assert forall|p: ProcessID| #[trigger] is_proc_live(next.processes, p) implies {
            &&& next.processes[p as int]->0.pid == p
            &&& next.processes[p as int]->0.wf()
            &&& next.processes[p as int]->0.refs == member_count(next.threads, p)
            &&& p != 0 ==> next.processes[p as int]->0.refs > 0
        } by {
            if p != pid {
                assert(is_proc_live(before.processes, p));
            } else if self == before {
                assert(is_proc_live(before.processes, p));
            }
        }
        assert forall|t: ThreadID| #[trigger] is_live(next.threads, t) implies next.threads[t as int]->0.tid
            == t && is_proc_live(next.processes, next.threads[t as int]->0.process) by {
            if t != tid {
                assert(is_live(before.threads, t));
            }
        }
        before.lemma_blocked_frame(next);
        assert forall|t: ThreadID| #[trigger] is_live(next.threads, t) implies next.accounted(t) by {
            if t != tid {
                assert(is_live(before.threads, t));
                assert(before.accounted(t));
            }
        }
        assert forall|t: ThreadID| next.held.contains(t) implies #[trigger] is_live(
            next.threads,
            t,
        ) by {
            if t != tid {
                assert(is_live(before.threads, t));
            }
        }
    }
}

/// A process with a positive thread count has a live thread in the arena.
pub proof fn lemma_first_member(threads: Seq<Option<ThreadView>>, pid: ProcessID)
    requires
        member_count(threads, pid) > 0,
    ensures
        exists|i: int| 0 <= i < threads.len() && is_member(#[trigger] threads[i], pid) == 1,
    decreases threads.len(),
{
    if is_member(threads.last(), pid) == 1 {
        assert(is_member(threads[threads.len() - 1], pid) == 1);
    } else {
        lemma_first_member(threads.drop_last(), pid);
        let i = choose|i: int|
            0 <= i < threads.drop_last().len() && is_member(
                #[trigger] threads.drop_last()[i],
                pid,
            ) == 1;
        assert(is_member(threads[i], pid) == 1);
    }
}

/// What one pass of the idle routine asks of the caller.
#[derive(Clone, Copy, Debug, PartialEq, Eq, Structural)]
pub enum IdleStep {
    /// The pass made a scheduling decision: perform the switch, and run
    /// another pass when the idle thread executes again.
    Switched(Switch),
    /// Nothing was reaped and nothing is runnable: idle the machine, with
    /// interrupts enabled when the wait ends.
    Halt,
}

impl State {
    /// The state with the running thread queued at the back of the run
    /// queue, as a thread that gives up the CPU leaves it.
    pub open spec fn current_requeued(self) -> State {
        self.take_current().enqueue_runnable(self.current)
    }

    /// The state after the running thread has yielded.
    pub open spec fn yielded(self) -> State {
        self.reaped().current_requeued().rescheduled()
    }

    /// What a yield asks of the caller.
    pub open spec fn yield_switch(self) -> Switch {
        self.reaped().current_requeued().reschedule_switch()
    }

    /// The state after the running thread has yielded to thread `tid`.
    pub open spec fn yielded_to(self, tid: ThreadID) -> State {
        self.current_requeued().switched_to(tid)
    }

    /// The state with the running thread dead and queued for reaping.
    pub open spec fn current_retired(self) -> State {
        self.take_current().with_run_state(self.current, RunState::Dead(0)).enqueue_reap(
            self.current,
        )
    }

    /// The state after the running thread has terminated.
    pub open spec fn terminated(self) -> State {
        self.current_retired().rescheduled()
    }

    /// What a termination asks of the caller.
    pub open spec fn terminate_switch(self) -> Switch {
        self.current_retired().reschedule_switch()
    }

    /// The process of the running thread.
    pub open spec fn current_process(self) -> ProcessID {
        self.tcb(self.current).process
    }

    /// The state after a write of the exit status of the running thread's
    /// process: the first write stays, a later one changes nothing.
    pub open spec fn exit_marked(self, status: u32) -> State {
        State {
            processes: self.processes.update(
                self.current_process() as int,
                Some(self.pcb(self.current_process()).exit_written(status)),
            ),
            ..self
        }
    }

    /// The state with `status` written as the exit status of process `pid`.
    pub open spec fn with_exit_status(self, pid: ProcessID, status: u32) -> State {
        State {
            processes: self.processes.update(
                pid as int,
                Some(ProcessView { exit_status: Some(status), ..self.pcb(pid) }),
            ),
            ..self
        }
    }

    /// The state after a request for the instance of type `token` in
    /// process `pid`.
    pub open spec fn with_local_request(self, pid: ProcessID, token: TypeToken) -> State {
        State {
            processes: self.processes.update(
                pid as int,
                Some(
                    ProcessView {
                        local_types: cache_after_request(self.pcb(pid).local_types, token),
                        ..self.pcb(pid)
                    },
                ),
            ),
            ..self
        }
    }

    /// The state after one pass of the idle routine.
    pub open spec fn idle_pass(self) -> State {
        if self.reap_queue.len() > 0 {
            self.reaped().rescheduled()
        } else if self.run_queue.len() > 0 {
            self.pop_runnable().switched_to(self.run_queue[0])
        } else {
            self
        }
    }

    /// What one pass of the idle routine asks of the caller.
    pub open spec fn idle_step(self) -> IdleStep {
        if self.reap_queue.len() > 0 {
            IdleStep::Switched(self.reaped().reschedule_switch())
        } else if self.run_queue.len() > 0 {
            IdleStep::Switched(Switch::To(self.run_queue[0]))
        } else {
            IdleStep::Halt
        }
    }

    /// Changing what a process caches or how it exited keeps the state well
    /// formed, as long as the cache holds one instance per type.
    pub proof fn lemma_process_update_wf(self, pid: ProcessID, p: ProcessView)
        requires
            self.wf(),
            self.proc_live(pid),
            p.pid == pid,
            p.refs == self.pcb(pid).refs,
            p.wf(),
        ensures
            (State { processes: self.processes.update(pid as int, Some(p)), ..self }).wf(),
    {
        let next = State { processes: self.processes.update(pid as int, Some(p)), ..self };
        assert forall|q: ProcessID| #[trigger] is_proc_live(next.processes, q) implies {
            &&& next.processes[q as int]->0.pid == q
            &&& next.processes[q as int]->0.wf()
            &&& next.processes[q as int]->0.refs == member_count(next.threads, q)
            &&& q != 0 ==> next.processes[q as int]->0.refs > 0
        } by {
            assert(is_proc_live(self.processes, q));
        }
        assert forall|t: ThreadID| #[trigger] is_live(next.threads, t) implies is_proc_live(
            next.processes,
            next.threads[t as int]->0.process,
        ) by {
            assert(is_proc_live(self.processes, self.threads[t as int]->0.process));
        }
        self.lemma_accounted_frame(next);
    }
}

impl Scheduler {
    /// Appends a held runnable thread to the run queue.
    pub(crate) fn push_runnable(&mut self, thread: ThreadPtr)
        requires
            old(self)@.wf(),
            old(self)@.held.contains(thread.id()),
            old(self)@.tcb(thread.id()).run_state == RunState::Runnable,
        ensures
            final(self)@ == old(self)@.enqueue_runnable(thread.id()),
            final(self)@.wf(),
    {
        proof {
            self@.lemma_enqueue_runnable_wf(thread.id());
            self.held@ = self.held@.remove(thread.id());
        }
        self.run_queue.push(thread);
    }

    /// Appends a held dead thread to the reap queue.
    pub(crate) fn push_reap(&mut self, thread: ThreadPtr)
        requires
            old(self)@.wf(),
            old(self)@.held.contains(thread.id()),
            old(self)@.tcb(thread.id()).run_state is Dead,
        ensures
            final(self)@ == old(self)@.enqueue_reap(thread.id()),
            final(self)@.wf(),
    {
        proof {
            self@.lemma_enqueue_reap_wf(thread.id());
            self.held@ = self.held@.remove(thread.id());
        }
        self.reap_queue.push(thread);
    }

    /// Queues the running thread at the back of the run queue.
    pub(crate) fn requeue_current(&mut self)
        requires
            old(self)@.wf(),
            !old(self)@.taken,
            old(self)@.current != old(self)@.idle,
        ensures
            final(self)@ == old(self)@.current_requeued(),
            final(self)@.wf(),
    {
        let this_thread = get_cur_thread(self);
        self.push_runnable(this_thread);
    }

    /// A new control block in the next free slot, for a live process.
    pub(crate) fn add_thread(&mut self, name: &str, pid: ProcessID, Ghost(before): Ghost<State>) -> (thread:
        ThreadPtr)
        requires
            before.wf(),
            old(self)@ == before || (old(self)@ == before.with_new_process() && pid
                == before.processes.len() && before.processes.len() < u32::MAX),
            old(self)@.proc_live(pid),
            old(self)@.threads.len() < u32::MAX,
        ensures
            final(self)@ == old(self)@.spawned(name@, pid),
            final(self)@.wf(),
            thread.id() == old(self)@.threads.len(),
    {
        proof {
            self@.lemma_spawned_wf(before, name@, pid);
        }
        let tid = self.threads.len() as ThreadID;
        self.threads.push(Some(Thread::new(tid, name, pid)));
        match &mut self.processes[pid as usize] {
            Some(p) => {
                p.add_ref();
            },
            None => unreached(),
        }
        proof {
            self.held@ = self.held@.insert(tid);
            assert(self@.threads =~= old(self)@.spawned(name@, pid).threads);
            assert(self@.processes =~= old(self)@.spawned(name@, pid).processes);
        }
        ThreadPtr::from_tid(tid)
    }
}

/// Sets the threading core up: thread 0, which is the caller, and the idle
/// thread, both in process 0. This comes before anything else.
pub fn init() -> (s: Scheduler)
    ensures
        s@ == State::initial(),
        s@.wf(),
{
    let mut pid0 = Process::new_pid0();
    pid0.add_ref();
    pid0.add_ref();
    let mut threads: Vec<Option<Thread>> = Vec::new();
    threads.push(Some(Thread::new(0, "ThreadZero", 0)));
    threads.push(Some(Thread::new(1, "Idle#0", 0)));
    let mut processes: Vec<Option<Process>> = Vec::new();
    processes.push(Some(pid0));
    let s = Scheduler {
        threads,
        processes,
        run_queue: ThreadList::new(),
        reap_queue: ThreadList::new(),
        wait_queues: Vec::new(),
        sleep_objects: Vec::new(),
        current: 0,
        taken: false,
        idle: 1,
        held: Ghost(Set::empty()),
    };
    proof {
        State::lemma_initial_wf();
        assert(s@.threads =~= State::initial().threads);
        assert(s@.processes =~= State::initial().processes);
        assert(s@.wait_queues =~= State::initial().wait_queues);
        assert(s@.sleep_objects =~= State::initial().sleep_objects);
    }
    s
}

/// Creates a thread in an existing process and hands its handle to the
/// caller. The thread is runnable and in no queue.
pub fn spawn_thread(s: &mut Scheduler, name: &str, pid: ProcessID) -> (r: Result<
    ThreadPtr,
    SpawnError,
>)
    requires
        old(s)@.wf(),
    ensures
        final(s)@.wf(),
        old(s)@.precedes(final(s)@),
        old(s)@.quiet(final(s)@),
        match r {
            Ok(thread) => {
                &&& old(s)@.spawn_error(pid) is None
                &&& thread.id() == old(s)@.threads.len()
                &&& final(s)@ == old(s)@.spawned(name@, pid)
            },
            Err(e) => old(s)@.spawn_error(pid) == Some(e) && final(s)@ == old(s)@,
        },
{
    if pid as usize >= s.processes.len() || s.processes[pid as usize].is_none() {
        return Err(SpawnError::NoSuchProcess);
    }
    if s.threads.len() >= u32::MAX as usize {
        return Err(SpawnError::TooManyThreads);
    }
    Ok(s.add_thread(name, pid, Ghost(s@)))
}

/// Creates a process together with its first thread, and hands the
/// thread's handle to the caller.
pub fn spawn_process(s: &mut Scheduler, name: &str) -> (r: Result<ThreadPtr, SpawnError>)
    requires
        old(s)@.wf(),
    ensures
        final(s)@.wf(),
        old(s)@.precedes(final(s)@),
        old(s)@.quiet(final(s)@),
        match r {
            Ok(thread) => {
                &&& old(s)@.processes.len() < u32::MAX
                &&& old(s)@.threads.len() < u32::MAX
                &&& thread.id() == old(s)@.threads.len()
                &&& final(s)@ == old(s)@.with_new_process().spawned(
                    name@,
                    old(s)@.processes.len() as ProcessID,
                )
            },
            Err(e) => {
                &&& final(s)@ == old(s)@
                &&& e == (if old(s)@.processes.len() >= u32::MAX {
                    SpawnError::TooManyProcesses
                } else {
                    SpawnError::TooManyThreads
                })
                &&& old(s)@.processes.len() >= u32::MAX || old(s)@.threads.len() >= u32::MAX
            },
        },
{
    if s.processes.len() >= u32::MAX as usize {
        return Err(SpawnError::TooManyProcesses);
    }
    if s.threads.len() >= u32::MAX as usize {
        return Err(SpawnError::TooManyThreads);
    }
    let ghost before = s@;
    let pid = s.processes.len() as ProcessID;
    s.processes.push(Some(Process::new(pid)));
    assert(s@.processes =~= before.with_new_process().processes);
    Ok(s.add_thread(name, pid, Ghost(before)))
}

/// Queues a thread whose handle the caller holds at the back of the run
/// queue.
pub fn make_runnable(s: &mut Scheduler, thread: ThreadPtr)
    requires
        old(s)@.wf(),
        old(s)@.held.contains(thread.id()),
        old(s)@.tcb(thread.id()).run_state == RunState::Runnable,
    ensures
        final(s)@ == old(s)@.enqueue_runnable(thread.id()),
        final(s)@.wf(),
        old(s)@.precedes(final(s)@),
        old(s)@.quiet(final(s)@),
{
    s.push_runnable(thread);
}

/// Ends a thread whose handle the caller holds: the thread becomes dead
/// with the given exit code and goes to the back of the reap queue, where
/// it waits until another thread destroys it.
pub fn queue_for_reaping(s: &mut Scheduler, thread: ThreadPtr, exit_code: u32)
    requires
        old(s)@.wf(),
        old(s)@.held.contains(thread.id()),
        !(old(s)@.tcb(thread.id()).run_state is Dead),
    ensures
        final(s)@ == old(s)@.with_run_state(thread.id(), RunState::Dead(exit_code)).enqueue_reap(
            thread.id(),
        ),
        final(s)@.wf(),
        old(s)@.precedes(final(s)@),
        !(old(s)@.tcb(thread.id()).run_state is Sleep) ==> old(s)@.quiet(final(s)@),
        final(s)@.reap_queue == old(s)@.reap_queue.push(thread.id()),
        final(s)@.tcb(thread.id()).run_state == RunState::Dead(exit_code),
{
    proof {
        assert(s@.live(thread.id()));
    }
    s.set_run_state(&thread, RunState::Dead(exit_code));
    s.push_reap(thread);
}

/// Gives the CPU up for a while: the running thread goes to the back of
/// the run queue and the front of the queue runs.
///
/// One dead thread is reaped on the way. When nothing else is runnable the
/// thread picks itself: the caller switches to it and idles the machine
/// until the next interrupt, and control is back with the thread.
///
/// The idle thread does not yield: it reschedules.
pub fn yield_time(s: &mut Scheduler) -> (switch: Switch)
    requires
        old(s)@.wf(),
        !old(s)@.taken,
        old(s)@.current != old(s)@.idle,
    ensures
        final(s)@ == old(s)@.yielded(),
        switch == old(s)@.yield_switch(),
        final(s)@.wf(),
        old(s)@.precedes(final(s)@),
        old(s)@.quiet(final(s)@),
        !final(s)@.taken,
        final(s)@.current == old(s)@.run_queue.push(old(s)@.current)[0],
        final(s)@.run_queue == old(s)@.run_queue.push(old(s)@.current).drop_first(),
        final(s)@.held == old(s)@.held,
        final(s)@.threads == old(s)@.reaped().threads,
        final(s)@.processes == old(s)@.reaped().processes,
        final(s)@.reap_queue == old(s)@.reaped().reap_queue,
        switch == (if old(s)@.run_queue.len() == 0 {
            Switch::ToSelfThenIdle(old(s)@.current)
        } else {
            Switch::To(old(s)@.run_queue[0])
        }),
{
    proof {
        s@.lemma_one_place(s@.current);
        if s@.reap_queue.len() > 0 {
            assert(s@.reap_queue.contains(s@.reap_queue[0]));
        }
        s@.lemma_reaped_wf();
        let reaped = s@.reaped();
        reaped.lemma_take_current_wf();
        reaped.take_current().lemma_enqueue_runnable_wf(reaped.current);
        reaped.current_requeued().lemma_pop_runnable_wf();
        assert(reaped.current_requeued().rescheduled().held =~= s@.held);
    }
    reap_threads(s);
    s.requeue_current();
    reschedule(s)
}

/// Gives the CPU to a thread whose handle the caller holds: the running
/// thread goes to the back of the run queue and the given thread runs.
///
/// The idle thread does not yield: it reschedules.
pub fn yield_to(s: &mut Scheduler, thread: ThreadPtr) -> (switch: Switch)
    requires
        old(s)@.wf(),
        !old(s)@.taken,
        old(s)@.current != old(s)@.idle,
        old(s)@.held.contains(thread.id()),
        old(s)@.tcb(thread.id()).run_state == RunState::Runnable,
    ensures
        final(s)@ == old(s)@.yielded_to(thread.id()),
        switch == Switch::To(thread.id()),
        final(s)@.wf(),
        old(s)@.precedes(final(s)@),
        old(s)@.quiet(final(s)@),
        !final(s)@.taken,
        final(s)@.current == thread.id(),
        final(s)@.run_queue == old(s)@.run_queue.push(old(s)@.current),
        final(s)@.held == old(s)@.held.remove(thread.id()),
{
    proof {
        s@.lemma_take_current_wf();
        s@.take_current().lemma_enqueue_runnable_wf(s@.current);
        assert(s@.yielded_to(thread.id()).held =~= s@.held.remove(thread.id()));
    }
    let tid = thread.get_tid();
    s.requeue_current();
    switch_to(s, thread);
    Switch::To(tid)
}

/// Ends the running thread: it becomes dead, goes to the reap queue, and
/// another thread runs. Control never comes back to the thread.
///
/// Thread 0 never terminates, and neither does the idle thread.
pub fn terminate_thread(s: &mut Scheduler) -> (switch: Switch)
    requires
        old(s)@.wf(),
        !old(s)@.taken,
        old(s)@.current != 0,
        old(s)@.current != old(s)@.idle,
    ensures
        final(s)@ == old(s)@.terminated(),
        switch == old(s)@.terminate_switch(),
        final(s)@.wf(),
        old(s)@.precedes(final(s)@),
        old(s)@.quiet(final(s)@),
        !final(s)@.taken,
        final(s)@.threads == old(s)@.threads.update(
            old(s)@.current as int,
            Some(ThreadView { run_state: RunState::Dead(0), ..old(s)@.tcb(old(s)@.current) }),
        ),
        final(s)@.reap_queue == old(s)@.reap_queue.push(old(s)@.current),
        final(s)@.held == old(s)@.held,
        final(s)@.current != old(s)@.current,
        old(s)@.run_queue.len() > 0 ==> {
            &&& switch == Switch::To(old(s)@.run_queue[0])
            &&& final(s)@.current == old(s)@.run_queue[0]
            &&& final(s)@.run_queue == old(s)@.run_queue.drop_first()
        },
        old(s)@.run_queue.len() == 0 ==> {
            &&& switch == Switch::ToIdle(old(s)@.idle)
            &&& final(s)@.current == old(s)@.idle
            &&& final(s)@.run_queue == old(s)@.run_queue
        },
{
    proof {
        s@.lemma_one_place(s@.current);
        s@.lemma_take_current_wf();
        assert(s@.terminated().held =~= s@.held);
    }
    let this_thread = get_cur_thread(s);
    queue_for_reaping(s, this_thread, 0);
    reschedule(s)
}

/// Writes the exit status of the running thread's process, once. The first
/// writer succeeds; every later one gets `ExitRace` and changes nothing.
pub fn mark_process_exit(s: &mut Scheduler, status: u32) -> (r: Result<(), ExitRace>)
    requires
        old(s)@.wf(),
    ensures
        r is Err <==> old(s)@.pcb(old(s)@.current_process()).exit_refused(),
        final(s)@ == old(s)@.exit_marked(status),
        r is Err ==> final(s)@ == old(s)@,
        r is Ok ==> final(s)@ == old(s)@.with_exit_status(old(s)@.current_process(), status),
        final(s)@.wf(),
        old(s)@.precedes(final(s)@),
        old(s)@.quiet(final(s)@),
{
    let pid = s.process_of(s.current);
    proof {
        assert(s@.live(s@.current));
        assert(s@.proc_live(pid));
        s@.lemma_process_update_wf(pid, s@.pcb(pid).exit_written(status));
    }
    let marked = match &mut s.processes[pid as usize] {
        Some(p) => p.mark_exit(status),
        None => unreached(),
    };
    assert(s@.processes =~= old(s)@.exit_marked(status).processes);
    proof {
        if marked is Err {
            assert(s@.processes =~= old(s)@.processes);
        }
    }
    marked
}

/// Ends the process of the running thread, as far as this thread goes:
/// writes the exit status and terminates the thread. The other threads of
/// the process go on until they terminate themselves.
///
/// The status is written once. When another thread has written it before,
/// nothing changes and the caller gets `ExitRace`.
pub fn exit_process(s: &mut Scheduler, status: u32) -> (r: Result<Switch, ExitRace>)
    requires
        old(s)@.wf(),
        !old(s)@.taken,
        old(s)@.current != 0,
        old(s)@.current != old(s)@.idle,
    ensures
        final(s)@.wf(),
        old(s)@.precedes(final(s)@),
        old(s)@.quiet(final(s)@),
        !final(s)@.taken,
        match r {
            Ok(switch) => {
                &&& old(s)@.pcb(old(s)@.current_process()).exit_status is None
                &&& final(s)@ == old(s)@.with_exit_status(
                    old(s)@.current_process(),
                    status,
                ).terminated()
                &&& switch == old(s)@.terminate_switch()
                &&& final(s)@.pcb(old(s)@.current_process()).exit_status == Some(status)
                &&& final(s)@.tcb(old(s)@.current).run_state == RunState::Dead(0)
                &&& final(s)@.reap_queue == old(s)@.reap_queue.push(old(s)@.current)
            },
            Err(_) => {
                &&& old(s)@.pcb(old(s)@.current_process()).exit_status is Some
                &&& final(s)@ == old(s)@
            },
        },
{
    proof {
        assert(s@.live(s@.current));
        assert(s@.proc_live(s@.current_process()));
    }
    match mark_process_exit(s, status) {
        Ok(_) => {
            proof {
                old(s)@.lemma_precedes_chain(s@, s@.terminated());
            }
            let ghost marked = s@;
            let switch = terminate_thread(s);
            proof {
                old(s)@.lemma_precedes_chain(marked, s@);
            }
            Ok(switch)
        },
        Err(e) => Err(e),
    }
}

/// Runs `fcn` on the control block of the running thread.
pub fn with_cur_thread<T, F: FnOnce(&Thread) -> T>(s: &Scheduler, fcn: F) -> (r: T)
    requires
        s@.wf(),
        forall|t: &Thread| t@ == s@.tcb(s@.current) ==> fcn.requires((t,)),
    ensures
        exists|t: &Thread| t@ == s@.tcb(s@.current) && fcn.ensures((t,), r),
{
    proof {
        assert(s@.live(s@.current));
    }
    match &s.threads[s.current as usize] {
        Some(t) => fcn(t),
        None => unreached(),
    }
}

/// The identity of the running thread.
pub fn get_thread_id(s: &Scheduler) -> (tid: ThreadID)
    ensures
        tid == s@.current,
{
    s.current
}

/// The identity of the running thread's process.
pub fn get_process_id(s: &Scheduler) -> (pid: ProcessID)
    requires
        s@.wf(),
    ensures
        pid == s@.current_process(),
{
    let read_process = |cur: &Thread| -> (pid: ProcessID)
        ensures
            pid == cur@.process,
        { cur.get_process_info() };
    with_cur_thread(s, read_process)
}

/// True while the running thread's handle is out of the CPU slot.
pub fn is_cur_thread_taken(s: &Scheduler) -> (taken: bool)
    ensures
        taken == s@.taken,
{
    s.taken
}

/// The identity of the idle thread.
pub fn get_idle_thread_id(s: &Scheduler) -> (tid: ThreadID)
    ensures
        tid == s@.idle,
{
    s.idle
}

/// True when the thread to reap next is the running thread, so that a
/// pass of the reaper now would destroy the thread that asks for it.
pub fn would_reap_current(s: &Scheduler) -> (found: bool)
    ensures
        found == !s@.reap_is_safe(),
{
    match s.reap_queue.front() {
        Some(tid) => tid == s.current,
        None => false,
    }
}

/// The run state of thread `tid`; `None` when there is no such thread.
pub fn thread_state(s: &Scheduler, tid: ThreadID) -> (state: Option<RunState>)
    ensures
        state == (if s@.live(tid) {
            Some(s@.tcb(tid).run_state)
        } else {
            None
        }),
{
    if tid as usize >= s.threads.len() {
        return None;
    }
    match &s.threads[tid as usize] {
        Some(t) => Some(t.get_state()),
        None => None,
    }
}

/// The process of thread `tid`; `None` when there is no such thread.
pub fn thread_process(s: &Scheduler, tid: ThreadID) -> (pid: Option<ProcessID>)
    ensures
        pid == (if s@.live(tid) {
            Some(s@.tcb(tid).process)
        } else {
            None
        }),
{
    if tid as usize >= s.threads.len() {
        return None;
    }
    match &s.threads[tid as usize] {
        Some(t) => Some(t.get_process_info()),
        None => None,
    }
}

/// True when process `pid` exists.
pub fn has_process(s: &Scheduler, pid: ProcessID) -> (live: bool)
    ensures
        live == s@.proc_live(pid),
{
    (pid as usize) < s.processes.len() && s.processes[pid as usize].is_some()
}

/// The exit status of process `pid`, if the process exists and a status
/// has been written.
pub fn exit_status(s: &Scheduler, pid: ProcessID) -> (status: Option<u32>)
    ensures
        status == (if s@.proc_live(pid) {
            s@.pcb(pid).exit_status
        } else {
            None
        }),
{
    if pid as usize >= s.processes.len() {
        return None;
    }
    match &s.processes[pid as usize] {
        Some(p) => p.get_exit_status(),
        None => None,
    }
}

/// The number of threads that process `pid` has; 0 when there is no such
/// process.
pub fn process_thread_count(s: &Scheduler, pid: ProcessID) -> (n: usize)
    ensures
        n == (if s@.proc_live(pid) {
            s@.pcb(pid).refs
        } else {
            0
        }),
{
    if pid as usize >= s.processes.len() {
        return 0;
    }
    match &s.processes[pid as usize] {
        Some(p) => p.thread_count(),
        None => 0,
    }
}

/// The number of threads in the run queue.
pub fn runnable_count(s: &Scheduler) -> (n: usize)
    ensures
        n == s@.run_queue.len(),
{
    s.run_queue.len()
}

/// The number of threads in the reap queue.
pub fn reapable_count(s: &Scheduler) -> (n: usize)
    ensures
        n == s@.reap_queue.len(),
{
    s.reap_queue.len()
}

/// Finds the instance of a type in the cache of the running thread's
/// process, and makes room for one when the process has none.
///
/// The lookup has two phases: a scan that changes nothing, and, when that
/// finds nothing, a scan that appends a slot if it still finds nothing.
/// However often a type is asked for, the process has one instance of it.
pub fn get_process_local(s: &mut Scheduler, token: TypeToken) -> (slot: LocalSlot)
    requires
        old(s)@.wf(),
    ensures
        final(s)@ == old(s)@.with_local_request(old(s)@.current_process(), token),
        final(s)@.wf(),
        old(s)@.precedes(final(s)@),
        old(s)@.quiet(final(s)@),
        is_local_index(
            old(s)@.pcb(old(s)@.current_process()).local_types,
            token,
            slot.index as int,
        ),
        slot.created == !old(s)@.pcb(old(s)@.current_process()).local_types.contains(token),
        final(s)@.pcb(old(s)@.current_process()).local_types[slot.index as int] == token,
{
    let pid = s.process_of(s.current);
    proof {
        assert(s@.live(s@.current));
        assert(s@.proc_live(pid));
        let p = s@.pcb(pid);
        let after = cache_after_request(p.local_types, token);
        if !p.local_types.contains(token) {
            crate::state::lemma_push_fresh_token(p.local_types, token);
        }
        s@.lemma_process_update_wf(pid, ProcessView { local_types: after, ..p });
    }
    let found = match &s.processes[pid as usize] {
        Some(p) => p.find_local(token),
        None => unreached(),
    };
    let slot = match found {
        Some(index) => LocalSlot { index, created: false },
        None => match &mut s.processes[pid as usize] {
            Some(p) => p.find_or_create_local(token),
            None => unreached(),
        },
    };
    assert(s@.processes =~= old(s)@.with_local_request(pid, token).processes);
    slot
}

/// One pass of the idle routine: reap one dead thread and reschedule; with
/// nothing to reap, run the next runnable thread; with nothing runnable
/// either, idle the machine.
pub fn idle_thread(s: &mut Scheduler) -> (step: IdleStep)
    requires
        old(s)@.wf(),
        old(s)@.reap_is_safe(),
    ensures
        final(s)@ == old(s)@.idle_pass(),
        step == old(s)@.idle_step(),
        final(s)@.wf(),
        old(s)@.precedes(final(s)@),
        old(s)@.quiet(final(s)@),
        step is Halt <==> old(s)@.reap_queue.len() == 0 && old(s)@.run_queue.len() == 0,
        step is Halt ==> final(s)@ == old(s)@,
        final(s)@.threads == old(s)@.reaped().threads,
        final(s)@.processes == old(s)@.reaped().processes,
        final(s)@.reap_queue == old(s)@.reaped().reap_queue,
{
    proof {
        s@.lemma_reaped_wf();
        s@.lemma_pop_runnable_wf();
    }
    if !reap_threads(s) {
        match get_thread_to_run(s) {
            Some(thread) => {
                let tid = thread.get_tid();
                switch_to(s, thread);
                IdleStep::Switched(Switch::To(tid))
            },
            None => IdleStep::Halt,
        }
    } else {
        IdleStep::Switched(reschedule(s))
    }
}

} // verus!
