//! Wait queues: threads blocked on a condition, woken first come, first
//! served.

use vstd::prelude::*;
use vstd::pervasive::unreached;
use crate::scheduler::{get_cur_thread, reschedule, Scheduler};
use crate::state::{is_live, lemma_drop_first_contains, wait_queue_ok, State, Switch};
use crate::thread::{RunState, ThreadID, ThreadPtr, ThreadView, WaitQueueID};
use crate::thread_list::ThreadList;

verus! {

/// The threads blocked on one condition, in the order in which they blocked.
pub struct WaitQueue {
    pub(crate) list: ThreadList,
}

impl View for WaitQueue {
    type V = Seq<ThreadID>;

    open(crate) spec fn view(&self) -> Seq<ThreadID> {
        self.list@
    }
}

impl WaitQueue {
    /// A wait queue with no waiter.
    pub fn new() -> (q: WaitQueue)
        ensures
            q@ == Seq::<ThreadID>::empty(),
    {
        WaitQueue { list: ThreadList::new() }
    }

    /// True when a thread is blocked on the queue.
    pub fn has_waiter(&self) -> (w: bool)
        ensures
            w == (self@.len() > 0),
    {
        !self.list.empty()
    }
}

impl State {
    /// `q` is the handle of a wait queue.
    pub open spec fn is_wait_queue(self, q: WaitQueueID) -> bool {
        q < self.wait_queues.len()
    }

    /// The state with one more wait queue, which is empty.
    pub open spec fn with_wait_queue(self) -> State {
        State { wait_queues: self.wait_queues.push(Seq::empty()), ..self }
    }

    /// The state with the running thread blocked on wait queue `q`, at the
    /// back of the queue.
    pub open spec fn current_parked(self, q: WaitQueueID) -> State {
        self.take_current().with_run_state(self.current, RunState::ListWait(q)).enqueue_wait(
            q as int,
            self.current,
        )
    }

    /// The state after the running thread has begun to wait on wait queue
    /// `q`.
    pub open spec fn waited(self, q: WaitQueueID) -> State {
        self.current_parked(q).rescheduled()
    }

    /// What the beginning of a wait asks of the caller.
    pub open spec fn wait_switch(self, q: WaitQueueID) -> Switch {
        self.current_parked(q).reschedule_switch()
    }

    /// The front of wait queue `q` leaves the queue for the running code.
    pub open spec fn dequeue_wait(self, q: WaitQueueID) -> State {
        State {
            wait_queues: self.wait_queues.update(
                q as int,
                self.wait_queues[q as int].drop_first(),
            ),
            held: self.held.insert(self.wait_queues[q as int][0]),
            ..self
        }
    }

    /// The state after the thread that has waited longest on wait queue `q`
    /// has been woken: it is runnable and at the back of the run queue. With
    /// no waiter nothing changes.
    pub open spec fn woken_one(self, q: WaitQueueID) -> State {
        if !self.is_wait_queue(q) || self.wait_queues[q as int].len() == 0 {
            self
        } else {
            let t = self.wait_queues[q as int][0];
            self.dequeue_wait(q).with_run_state(t, RunState::Runnable).enqueue_runnable(t)
        }
    }

    /// The state after every thread on wait queue `q` has been woken, the
    /// one that has waited longest first.
    pub open spec fn woken_all(self, q: WaitQueueID) -> State
        decreases (if self.is_wait_queue(q) {
            self.wait_queues[q as int].len()
        } else {
            0
        }),
    {
        if !self.is_wait_queue(q) || self.wait_queues[q as int].len() == 0 {
            self
        } else {
            self.woken_one(q).woken_all(q)
        }
    }

    /// `after` is this state with every waiter of wait queue `q` woken: the
    /// queue is empty, its threads are runnable and follow, in their order,
    /// what the run queue held. Nothing else differs.
    pub open spec fn is_woken_all(self, q: WaitQueueID, after: State) -> bool {
        let waiters = self.wait_queues[q as int];
        &&& after.wait_queues == self.wait_queues.update(q as int, Seq::empty())
        &&& after.run_queue == self.run_queue + waiters
        &&& after.threads.len() == self.threads.len()
        &&& forall|t: ThreadID|
            (t as int) < self.threads.len() ==> #[trigger] after.threads[t as int] == (
            if waiters.contains(t) {
                Some(ThreadView { run_state: RunState::Runnable, ..self.tcb(t) })
            } else {
                self.threads[t as int]
            })
        &&& after.processes == self.processes
        &&& after.reap_queue == self.reap_queue
        &&& after.sleep_objects == self.sleep_objects
        &&& after.current == self.current
        &&& after.taken == self.taken
        &&& after.idle == self.idle
        &&& after.held == self.held
    }

    /// A new wait queue keeps the state well formed.
    pub proof fn lemma_with_wait_queue_wf(self)
        requires
            self.wf(),
            self.wait_queues.len() < usize::MAX,
        ensures
            self.with_wait_queue().wf(),
    {
        let next = self.with_wait_queue();
        assert forall|k: int| 0 <= k < next.wait_queues.len() implies wait_queue_ok(
            next.threads,
            next.held,
            #[trigger] next.wait_queues[k],
            k,
        ) by {
            if k < self.wait_queues.len() {
                assert(wait_queue_ok(self.threads, self.held, self.wait_queues[k], k));
            }
        }
        self.lemma_accounted_frame(next);
    }

    /// Parking the running thread on a wait queue keeps the state well
    /// formed, and the thread is then on that queue and not in the run
    /// queue.
    pub proof fn lemma_current_parked_wf(self, q: WaitQueueID)
        requires
            self.wf(),
            !self.taken,
            self.current != self.idle,
            self.is_wait_queue(q),
        ensures
            self.current_parked(q).wf(),
            self.current_parked(q).wait_queues[q as int] == self.wait_queues[q as int].push(
                self.current,
            ),
            !self.current_parked(q).run_queue.contains(self.current),
            self.current_parked(q).run_queue == self.run_queue,
            self.current_parked(q).held == self.held,
    {
        self.lemma_take_current_wf();
        let a = self.take_current();
        a.lemma_with_run_state_wf(self.current, RunState::ListWait(q));
        let b = a.with_run_state(self.current, RunState::ListWait(q));
        assert(is_live(self.threads, self.current));
        b.lemma_enqueue_wait_wf(q as int, self.current);
        assert(self.current_parked(q).held =~= self.held);
    }

    /// Taking the front of a wait queue keeps the state well formed.
    pub proof fn lemma_dequeue_wait_wf(self, q: WaitQueueID)
        requires
            self.wf(),
            self.is_wait_queue(q),
            self.wait_queues[q as int].len() > 0,
        ensures
            self.dequeue_wait(q).wf(),
            self.live(self.wait_queues[q as int][0]),
            self.wait_queues[q as int][0] != self.idle,
            !self.run_queue.contains(self.wait_queues[q as int][0]),
    {
        let next = self.dequeue_wait(q);
        let queue = self.wait_queues[q as int];
        let front = queue[0];
        assert(wait_queue_ok(self.threads, self.held, queue, q as int));
        assert(queue.contains(front));
        lemma_drop_first_contains(queue);
        self.lemma_one_place(front);
        assert forall|k: int| 0 <= k < next.wait_queues.len() implies wait_queue_ok(
            next.threads,
            next.held,
            #[trigger] next.wait_queues[k],
            k,
        ) by {
            assert(wait_queue_ok(self.threads, self.held, self.wait_queues[k], k));
        }
        self.lemma_sleepers_frame(next);
        self.lemma_accounted_frame(next);
    }

    /// Waking one waiter keeps the state well formed. The thread leaves the
    /// wait queue and appears in the run queue, once.
    pub proof fn lemma_woken_one_wf(self, q: WaitQueueID)
        requires
            self.wf(),
            self.is_wait_queue(q),
        ensures
            self.woken_one(q).wf(),
            self.woken_one(q).held == self.held,
            self.wait_queues[q as int].len() > 0 ==> {
                let t = self.wait_queues[q as int][0];
                &&& !self.run_queue.contains(t)
                &&& self.woken_one(q).run_queue == self.run_queue.push(t)
                &&& self.woken_one(q).run_queue.no_duplicates()
                &&& self.woken_one(q).wait_queues == self.wait_queues.update(
                    q as int,
                    self.wait_queues[q as int].drop_first(),
                )
                &&& !self.woken_one(q).wait_queues[q as int].contains(t)
                &&& self.woken_one(q).threads == self.threads.update(
                    t as int,
                    Some(ThreadView { run_state: RunState::Runnable, ..self.tcb(t) }),
                )
            },
    {
        if self.wait_queues[q as int].len() > 0 {
            let t = self.wait_queues[q as int][0];
            self.lemma_dequeue_wait_wf(q);
            lemma_drop_first_contains(self.wait_queues[q as int]);
            assert(wait_queue_ok(self.threads, self.held, self.wait_queues[q as int], q as int));
            let a = self.dequeue_wait(q);
            a.lemma_with_run_state_wf(t, RunState::Runnable);
            let b = a.with_run_state(t, RunState::Runnable);
            b.lemma_enqueue_runnable_wf(t);
            assert(self.woken_one(q).held =~= self.held);
        }
    }

    /// Waking every waiter keeps the state well formed and does what
    /// `is_woken_all` says.
    pub proof fn lemma_woken_all_wf(self, q: WaitQueueID)
        requires
            self.wf(),
            self.is_wait_queue(q),
        ensures
            self.woken_all(q).wf(),
            self.is_woken_all(q, self.woken_all(q)),
        decreases self.wait_queues[q as int].len(),
    {
        let waiters = self.wait_queues[q as int];
        let after = self.woken_all(q);
        if waiters.len() == 0 {
            assert(waiters =~= Seq::empty());
            assert(after.wait_queues =~= self.wait_queues.update(q as int, Seq::empty()));
            assert(after.run_queue =~= self.run_queue + waiters);
            assert forall|t: ThreadID| (t as int) < self.threads.len() implies !waiters.contains(
                t,
            ) by {}
        } else {
            let t = waiters[0];
            let next = self.woken_one(q);
            self.lemma_woken_one_wf(q);
            next.lemma_woken_all_wf(q);
            lemma_drop_first_contains(waiters);
            assert(wait_queue_ok(self.threads, self.held, waiters, q as int));
            assert(waiters.contains(t));
            assert(after.wait_queues =~= self.wait_queues.update(q as int, Seq::empty()));
            assert(after.run_queue =~= self.run_queue + waiters) by {
                assert(self.run_queue.push(t) + waiters.drop_first() =~= self.run_queue
                    + waiters);
            }
            assert forall|u: ThreadID| (u as int) < self.threads.len() implies #[trigger] after.threads[u as int]
                == (if waiters.contains(u) {
                Some(ThreadView { run_state: RunState::Runnable, ..self.tcb(u) })
            } else {
                self.threads[u as int]
            }) by {
                if waiters.drop_first().contains(u) {
                    assert(waiters.contains(u));
                }
                if waiters.contains(u) && u != t {
                    assert(waiters.drop_first().contains(u));
                }
            }
        }
    }
}

impl Scheduler {
    /// Appends a held thread to the wait queue that its run state names.
    pub(crate) fn push_wait(&mut self, q: WaitQueueID, thread: ThreadPtr)
        requires
            old(self)@.wf(),
            old(self)@.is_wait_queue(q),
            old(self)@.held.contains(thread.id()),
            old(self)@.tcb(thread.id()).run_state == RunState::ListWait(q),
        ensures
            final(self)@ == old(self)@.enqueue_wait(q as int, thread.id()),
            final(self)@.wf(),
    {
        proof {
            self@.lemma_enqueue_wait_wf(q as int, thread.id());
            self.held@ = self.held@.remove(thread.id());
        }
        self.wait_queues[q].list.push(thread);
        assert(self@.wait_queues =~= old(self)@.enqueue_wait(q as int, thread.id()).wait_queues);
    }

    /// Takes the front of a wait queue that has a waiter.
    pub(crate) fn pop_wait(&mut self, q: WaitQueueID) -> (thread: ThreadPtr)
        requires
            old(self)@.wf(),
            old(self)@.is_wait_queue(q),
            old(self)@.wait_queues[q as int].len() > 0,
        ensures
            final(self)@ == old(self)@.dequeue_wait(q),
            final(self)@.wf(),
            thread.id() == old(self)@.wait_queues[q as int][0],
    {
        proof {
            self@.lemma_dequeue_wait_wf(q);
            self.held@ = self.held@.insert(self@.wait_queues[q as int][0]);
        }
        let front = self.wait_queues[q].list.pop();
        assert(self@.wait_queues =~= old(self)@.dequeue_wait(q).wait_queues);
        match front {
            Some(thread) => thread,
            None => unreached(),
        }
    }
}

/// Registers a new, empty wait queue and returns its handle; `None` when
/// no handle is left.
pub fn new_wait_queue(s: &mut Scheduler) -> (q: Option<WaitQueueID>)
    requires
        old(s)@.wf(),
    ensures
        final(s)@.wf(),
        old(s)@.precedes(final(s)@),
        old(s)@.quiet(final(s)@),
        match q {
            Some(q) => {
                &&& old(s)@.wait_queues.len() < usize::MAX
                &&& q == old(s)@.wait_queues.len()
                &&& final(s)@ == old(s)@.with_wait_queue()
            },
            None => old(s)@.wait_queues.len() >= usize::MAX && final(s)@ == old(s)@,
        },
{
    let q = s.wait_queues.len();
    if q == usize::MAX {
        return None;
    }
    proof {
        s@.lemma_with_wait_queue_wf();
    }
    s.wait_queues.push(WaitQueue::new());
    assert(s@.wait_queues =~= old(s)@.with_wait_queue().wait_queues);
    Some(q)
}

/// True when `q` is the handle of a wait queue.
pub fn is_wait_queue(s: &Scheduler, q: WaitQueueID) -> (valid: bool)
    ensures
        valid == s@.is_wait_queue(q),
{
    q < s.wait_queues.len()
}

/// True when a thread is blocked on wait queue `q`.
pub fn has_waiter(s: &Scheduler, q: WaitQueueID) -> (w: bool)
    requires
        s@.is_wait_queue(q),
    ensures
        w == (s@.wait_queues[q as int].len() > 0),
{
    s.wait_queues[q].has_waiter()
}

/// Blocks the running thread on a wait queue: it goes to the back of the
/// queue, not to the run queue, and another thread runs. The thread runs
/// again only after a wake.
///
/// The idle thread never blocks.
pub fn wait(s: &mut Scheduler, q: WaitQueueID) -> (switch: Switch)
    requires
        old(s)@.wf(),
        !old(s)@.taken,
        old(s)@.current != old(s)@.idle,
        old(s)@.is_wait_queue(q),
    ensures
        final(s)@ == old(s)@.waited(q),
        switch == old(s)@.wait_switch(q),
        final(s)@.wf(),
        old(s)@.precedes(final(s)@),
        old(s)@.quiet(final(s)@),
        !final(s)@.taken,
        final(s)@.wait_queues == old(s)@.wait_queues.update(
            q as int,
            old(s)@.wait_queues[q as int].push(old(s)@.current),
        ),
        final(s)@.tcb(old(s)@.current).run_state == RunState::ListWait(q),
        !final(s)@.run_queue.contains(old(s)@.current),
        final(s)@.current != old(s)@.current,
        final(s)@.held == old(s)@.held,
        old(s)@.run_queue.len() > 0 ==> {
            &&& switch == Switch::To(old(s)@.run_queue[0])
            &&& final(s)@.current == old(s)@.run_queue[0]
            &&& final(s)@.run_queue == old(s)@.run_queue.drop_first()
        },
        old(s)@.run_queue.len() == 0 ==> {
            &&& switch == Switch::ToIdle(old(s)@.idle)
            &&& final(s)@.current == old(s)@.idle
            &&& final(s)@.run_queue == old(s)@.run_queue
        },
{
    proof {
        s@.lemma_one_place(s@.current);
        s@.lemma_current_parked_wf(q);
        let parked = s@.current_parked(q);
        parked.lemma_rescheduled_wf();
        if s@.run_queue.len() > 0 {
            lemma_drop_first_contains(s@.run_queue);
        }
        assert(parked.rescheduled().held =~= s@.held);
    }
    let this_thread = get_cur_thread(s);
    s.set_run_state(&this_thread, RunState::ListWait(q));
    s.push_wait(q, this_thread);
    reschedule(s)
}

/// Wakes the thread that has waited longest on a wait queue: it becomes
/// runnable and goes to the back of the run queue. Returns whether there
/// was a waiter.
pub fn wake_one(s: &mut Scheduler, q: WaitQueueID) -> (woken: bool)
    requires
        old(s)@.wf(),
        old(s)@.is_wait_queue(q),
    ensures
        final(s)@ == old(s)@.woken_one(q),
        final(s)@.wf(),
        old(s)@.precedes(final(s)@),
        old(s)@.quiet(final(s)@),
        woken == (old(s)@.wait_queues[q as int].len() > 0),
        final(s)@.held == old(s)@.held,
        woken ==> {
            let t = old(s)@.wait_queues[q as int][0];
            &&& !old(s)@.run_queue.contains(t)
            &&& final(s)@.run_queue == old(s)@.run_queue.push(t)
            &&& final(s)@.run_queue.no_duplicates()
            &&& final(s)@.wait_queues == old(s)@.wait_queues.update(
                q as int,
                old(s)@.wait_queues[q as int].drop_first(),
            )
            &&& !final(s)@.wait_queues[q as int].contains(t)
            &&& final(s)@.threads == old(s)@.threads.update(
                t as int,
                Some(ThreadView { run_state: RunState::Runnable, ..old(s)@.tcb(t) }),
            )
        },
{
    proof {
        s@.lemma_woken_one_wf(q);
    }
    if !s.wait_queues[q].has_waiter() {
        return false;
    }
    let thread = s.pop_wait(q);
    s.set_run_state(&thread, RunState::Runnable);
    s.push_runnable(thread);
    true
}

/// Wakes every thread on a wait queue, the one that has waited longest
/// first.
pub fn wake_all(s: &mut Scheduler, q: WaitQueueID)
    requires
        old(s)@.wf(),
        old(s)@.is_wait_queue(q),
    ensures
        final(s)@ == old(s)@.woken_all(q),
        old(s)@.is_woken_all(q, final(s)@),
        final(s)@.wf(),
        old(s)@.precedes(final(s)@),
        old(s)@.quiet(final(s)@),
{
    proof {
        s@.lemma_woken_all_wf(q);
    }
    while s.wait_queues[q].has_waiter()
        invariant
            s@.wf(),
            s@.is_wait_queue(q),
            s@.woken_all(q) == old(s)@.woken_all(q),
        decreases s@.wait_queues[q as int].len(),
    {
        proof {
            s@.lemma_woken_one_wf(q);
        }
        wake_one(s, q);
    }
}

} // verus!
