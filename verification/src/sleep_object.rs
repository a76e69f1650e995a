//! Sleep objects: events posted from any context, consumed by one waiter.

use vstd::prelude::*;

use crate::scheduler::{get_cur_thread, reschedule, Scheduler};
use crate::state::{is_live, sleep_object_ok, EventMask, SleepObjectView, State, Switch};
use crate::thread::{RunState, SleepObjectID, ThreadID, ThreadPtr};

verus! {

/// A named point at which one thread sleeps until an event is posted.
pub struct SleepObject {
    pub(crate) name: String,
    pub(crate) events: EventMask,
    pub(crate) waiter: Option<ThreadID>,
}

/// What a wait on a sleep object came to.
#[derive(Clone, Copy, Debug, PartialEq, Eq, Structural)]
pub enum SleepOutcome {
    /// Events were pending: they are consumed and handed to the caller,
    /// who goes on running.
    Ready(EventMask),
    /// Nothing was pending: the thread sleeps, and the caller performs the
    /// switch. The thread waits again once it runs again.
    Blocked(Switch),
}

/// What a wait on several sleep objects came to.
#[derive(Clone, Copy, Debug, PartialEq, Eq, Structural)]
pub enum AnyOutcome {
    /// The object at position `which` of the list had events pending: they
    /// are consumed and handed to the caller, who goes on running.
    Ready { which: usize, events: EventMask },
    /// Nothing was pending on any of the objects: the thread sleeps on all
    /// of them, and the caller performs the switch.
    Blocked(Switch),
}

/// Why a wait was refused.
#[derive(Clone, Copy, Debug, PartialEq, Eq, Structural)]
pub enum WaitError {
    /// The list of objects to wait on is empty: nothing could end the wait.
    NoObject,
    /// Another thread sleeps on the object, or on one of the objects.
    WaiterPresent,
}

impl View for SleepObject {
    type V = SleepObjectView;

    open(crate) spec fn view(&self) -> SleepObjectView {
        SleepObjectView { name: self.name@, events: self.events, waiter: self.waiter }
    }
}

impl SleepObject {
    /// A sleep object with no event posted and no waiter.
    pub fn new(name: &str) -> (object: SleepObject)
        ensures
            object@ == (SleepObjectView { name: name@, events: 0, waiter: None }),
    {
        SleepObject { name: name.to_string(), events: 0, waiter: None }
    }

    /// The object's name.
    pub fn get_name(&self) -> (name: &str)
        ensures
            name@ == self@.name,
    {
        self.name.as_str()
    }

    /// The events that were posted and not yet consumed.
    pub fn pending(&self) -> (events: EventMask)
        ensures
            events == self@.events,
    {
        self.events
    }
}

/// The sleep objects with thread `t` off every object that it sleeps on.
pub open spec fn without_waiter(objects: Seq<SleepObjectView>, t: ThreadID) -> Seq<
    SleepObjectView,
> {
    Seq::new(
        objects.len(),
        |j: int|
            if objects[j].waiter == Some(t) {
                SleepObjectView { waiter: None, ..objects[j] }
            } else {
                objects[j]
            },
    )
}

/// The sleep objects with thread `t` asleep on each object that `on` lists.
pub open spec fn with_waiter_on(
    objects: Seq<SleepObjectView>,
    on: Seq<SleepObjectID>,
    t: ThreadID,
) -> Seq<SleepObjectView> {
    Seq::new(
        objects.len(),
        |j: int|
            if on.contains(j as usize) {
                SleepObjectView { waiter: Some(t), ..objects[j] }
            } else {
                objects[j]
            },
    )
}

impl State {
    /// `k` is the handle of a sleep object.
    pub open spec fn is_sleep_object(self, k: SleepObjectID) -> bool {
        k < self.sleep_objects.len()
    }

    /// Every entry of `on` is the handle of a sleep object.
    pub open spec fn are_sleep_objects(self, on: Seq<SleepObjectID>) -> bool {
        forall|i: int| 0 <= i < on.len() ==> self.is_sleep_object(#[trigger] on[i])
    }

    /// The state with one more sleep object, which has no event and no
    /// waiter.
    pub open spec fn with_sleep_object(self, name: Seq<char>) -> State {
        State {
            sleep_objects: self.sleep_objects.push(
                SleepObjectView { name, events: 0, waiter: None },
            ),
            ..self
        }
    }

    /// Sleep object `k` with other events pending.
    pub open spec fn with_events(self, k: SleepObjectID, events: EventMask) -> State {
        State {
            sleep_objects: self.sleep_objects.update(
                k as int,
                SleepObjectView { events, ..self.sleep_objects[k as int] },
            ),
            ..self
        }
    }

    /// True when a post of `events` to sleep object `k` wakes a thread: a
    /// thread sleeps on the object, and the post brings an event.
    pub open spec fn post_wakes(self, k: SleepObjectID, events: EventMask) -> bool {
        self.sleep_objects[k as int].waiter is Some && events != 0
    }

    /// The state with the sleeper `t` taken off every object that it sleeps
    /// on, into the hands of the running code.
    pub open spec fn sleeper_taken(self, t: ThreadID) -> State {
        State {
            sleep_objects: without_waiter(self.sleep_objects, t),
            held: self.held.insert(t),
            ..self
        }
    }

    /// The state after `events` have been posted to sleep object `k`. The
    /// events join those pending. A thread that sleeps on the object wakes:
    /// it leaves every object that it sleeps on, is runnable, at the back
    /// of the run queue, and finds the events when it runs.
    pub open spec fn posted(self, k: SleepObjectID, events: EventMask) -> State {
        let object = self.sleep_objects[k as int];
        let pending = object.events | events;
        if self.post_wakes(k, events) {
            let t = object.waiter->0;
            self.with_events(k, pending).sleeper_taken(t).with_run_state(
                t,
                RunState::Runnable,
            ).enqueue_runnable(t)
        } else {
            self.with_events(k, pending)
        }
    }

    /// The state with the running thread asleep on the objects that `on`
    /// lists. Its run state names the first of them.
    pub open spec fn current_asleep_on(self, on: Seq<SleepObjectID>) -> State {
        let cur = self.current;
        let parked = self.take_current().with_run_state(cur, RunState::Sleep(on[0]));
        State {
            sleep_objects: with_waiter_on(parked.sleep_objects, on, cur),
            held: parked.held.remove(cur),
            ..parked
        }
    }

    /// The position in `on` of the first object with an event pending, or
    /// the length of `on` when none has one.
    pub open spec fn first_ready(self, on: Seq<SleepObjectID>) -> int
        decreases on.len(),
    {
        if on.len() == 0 {
            0
        } else if self.sleep_objects[on[0] as int].events != 0 {
            0
        } else {
            1 + self.first_ready(on.drop_first())
        }
    }

    /// A thread sleeps on one of the objects that `on` lists.
    pub open spec fn any_busy(self, on: Seq<SleepObjectID>) -> bool {
        exists|i: int| 0 <= i < on.len() && (#[trigger] self.sleep_objects[on[i] as int]).waiter
            is Some
    }

    /// The state after the running thread has waited on the objects that
    /// `on` lists: the events of the first object that has any are
    /// consumed; with none pending anywhere, and no other thread asleep on
    /// any of the objects, the thread sleeps on all of them and another
    /// thread runs. A refused wait changes nothing.
    pub open spec fn slept_any(self, on: Seq<SleepObjectID>) -> State {
        let i = self.first_ready(on);
        if i < on.len() {
            self.with_events(on[i], 0)
        } else if on.len() == 0 || self.any_busy(on) {
            self
        } else {
            self.current_asleep_on(on).rescheduled()
        }
    }

    /// What a wait on the objects that `on` lists comes to.
    pub open spec fn any_outcome(self, on: Seq<SleepObjectID>) -> Result<AnyOutcome, WaitError> {
        let i = self.first_ready(on);
        if i < on.len() {
            Ok(
                AnyOutcome::Ready {
                    which: i as usize,
                    events: self.sleep_objects[on[i] as int].events,
                },
            )
        } else if on.len() == 0 {
            Err(WaitError::NoObject)
        } else if self.any_busy(on) {
            Err(WaitError::WaiterPresent)
        } else {
            Ok(AnyOutcome::Blocked(self.current_asleep_on(on).reschedule_switch()))
        }
    }

    /// The state after the running thread has waited on sleep object `k`:
    /// pending events are consumed; with none pending, and no other thread
    /// asleep on the object, the thread sleeps and another runs.
    pub open spec fn slept(self, k: SleepObjectID) -> State {
        let object = self.sleep_objects[k as int];
        if object.events != 0 {
            self.with_events(k, 0)
        } else if object.waiter is Some {
            self
        } else {
            self.current_asleep_on(seq![k]).rescheduled()
        }
    }

    /// What a wait on sleep object `k` comes to.
    pub open spec fn sleep_outcome(self, k: SleepObjectID) -> Result<SleepOutcome, WaitError> {
        let object = self.sleep_objects[k as int];
        if object.events != 0 {
            Ok(SleepOutcome::Ready(object.events))
        } else if object.waiter is Some {
            Err(WaitError::WaiterPresent)
        } else {
            Ok(SleepOutcome::Blocked(self.current_asleep_on(seq![k]).reschedule_switch()))
        }
    }

    /// The first object with an event pending is at position `i` when no
    /// object before it has one, and it has one or is the end of the list.
    pub proof fn lemma_first_ready(self, on: Seq<SleepObjectID>, i: int)
        requires
            0 <= i <= on.len(),
            forall|j: int| 0 <= j < i ==> (#[trigger] self.sleep_objects[on[j] as int]).events == 0,
            i < on.len() ==> self.sleep_objects[on[i] as int].events != 0,
        ensures
            self.first_ready(on) == i,
        decreases on.len(),
    {
        if on.len() > 0 && i > 0 {
            assert(self.sleep_objects[on[0] as int].events == 0);
            let rest = on.drop_first();
            assert forall|j: int| 0 <= j < i - 1 implies (
            #[trigger] self.sleep_objects[rest[j] as int]).events == 0 by {
                assert(rest[j] == on[j + 1]);
                assert(self.sleep_objects[on[j + 1] as int].events == 0);
            }
            self.lemma_first_ready(rest, i - 1);
        }
    }

    /// A wait on one object is a wait on the list of that object.
    pub proof fn lemma_slept_is_slept_any(self, k: SleepObjectID)
        ensures
            self.slept(k) == self.slept_any(seq![k]),
            self.sleep_outcome(k) == (match self.any_outcome(seq![k]) {
                Ok(AnyOutcome::Ready { which, events }) => Ok(SleepOutcome::Ready(events)),
                Ok(AnyOutcome::Blocked(switch)) => Ok(SleepOutcome::Blocked(switch)),
                Err(e) => Err(e),
            }),
    {
        let on = seq![k];
        let object = self.sleep_objects[k as int];
        if object.events != 0 {
            self.lemma_first_ready(on, 0);
        } else {
            self.lemma_first_ready(on, 1);
            if object.waiter is Some {
                assert(self.sleep_objects[on[0] as int].waiter is Some);
            }
        }
    }

    /// A new sleep object keeps the state well formed.
    pub proof fn lemma_with_sleep_object_wf(self, name: Seq<char>)
        requires
            self.wf(),
            self.sleep_objects.len() < usize::MAX,
        ensures
            self.with_sleep_object(name).wf(),
    {
        let next = self.with_sleep_object(name);
        assert forall|k: int| 0 <= k < next.sleep_objects.len() implies sleep_object_ok(
            next.threads,
            next.held,
            #[trigger] next.sleep_objects[k],
            k,
        ) by {
            if k < self.sleep_objects.len() {
                assert(sleep_object_ok(self.threads, self.held, self.sleep_objects[k], k));
            }
        }
        self.lemma_accounted_frame(next);
    }

    /// Changing the pending events of a sleep object keeps the state well
    /// formed, as long as a waiter is left with no event pending.
    pub proof fn lemma_with_events_wf(self, k: SleepObjectID, events: EventMask)
        requires
            self.wf(),
            self.is_sleep_object(k),
            self.sleep_objects[k as int].waiter is Some ==> events == 0,
        ensures
            self.with_events(k, events).wf(),
    {
        let next = self.with_events(k, events);
        assert forall|j: int| 0 <= j < next.sleep_objects.len() implies sleep_object_ok(
            next.threads,
            next.held,
            #[trigger] next.sleep_objects[j],
            j,
        ) by {
            assert(sleep_object_ok(self.threads, self.held, self.sleep_objects[j], j));
        }
        self.lemma_accounted_frame(next);
    }

    /// Taking a sleeper off its objects, with the events of the object that
    /// woke it set, keeps the state well formed.
    pub proof fn lemma_sleeper_taken_wf(self, k: SleepObjectID, events: EventMask)
        requires
            self.wf(),
            self.is_sleep_object(k),
            self.sleep_objects[k as int].waiter is Some,
        ensures
            self.with_events(k, events).sleeper_taken(self.sleep_objects[k as int].waiter->0).wf(),
            self.live(self.sleep_objects[k as int].waiter->0),
            !self.run_queue.contains(self.sleep_objects[k as int].waiter->0),
            !self.held.contains(self.sleep_objects[k as int].waiter->0),
    {
        let t = self.sleep_objects[k as int].waiter->0;
        let next = self.with_events(k, events).sleeper_taken(t);
        assert(sleep_object_ok(self.threads, self.held, self.sleep_objects[k as int], k as int));
        self.lemma_one_place(t);
        self.lemma_waiters_frame(next);
        assert forall|j: int| 0 <= j < next.sleep_objects.len() implies sleep_object_ok(
            next.threads,
            next.held,
            #[trigger] next.sleep_objects[j],
            j,
        ) by {
            assert(sleep_object_ok(self.threads, self.held, self.sleep_objects[j], j));
        }
        assert forall|u: ThreadID| #[trigger] is_live(next.threads, u) implies next.accounted(u) by {
            assert(self.accounted(u));
            if u != t && self.placed(u) {
                match self.tcb(u).run_state {
                    RunState::Sleep(j) => {
                        assert(next.sleep_objects[j as int].waiter == Some(u));
                    },
                    _ => {},
                }
            }
        }
    }

    /// A post keeps the state well formed. A thread that it wakes sleeps on
    /// no object any longer and appears in the run queue, once.
    pub proof fn lemma_posted_wf(self, k: SleepObjectID, events: EventMask)
        requires
            self.wf(),
            self.is_sleep_object(k),
        ensures
            self.posted(k, events).wf(),
            self.posted(k, events).held == self.held,
            self.posted(k, events).sleep_objects.len() == self.sleep_objects.len(),
            self.posted(k, events).sleep_objects[k as int].events == self.sleep_objects[k as int].events
                | events,
            self.post_wakes(k, events) ==> {
                let t = self.sleep_objects[k as int].waiter->0;
                &&& !self.run_queue.contains(t)
                &&& self.posted(k, events).run_queue == self.run_queue.push(t)
                &&& self.posted(k, events).tcb(t).run_state == RunState::Runnable
                &&& forall|j: int|
                    0 <= j < self.sleep_objects.len() ==> (#[trigger] self.posted(
                        k,
                        events,
                    ).sleep_objects[j]).waiter != Some(t)
            },
            !self.post_wakes(k, events) ==> self.posted(k, events) == self.with_events(
                k,
                self.sleep_objects[k as int].events | events,
            ),
    {
        let object = self.sleep_objects[k as int];
        let pending = object.events | events;
        assert(sleep_object_ok(self.threads, self.held, object, k as int));
        let before = object.events;
        assert(events == 0 && before == 0 ==> pending == 0) by (bit_vector)
            requires
                pending == before | events,
        ;
        if self.post_wakes(k, events) {
            let t = object.waiter->0;
            self.lemma_sleeper_taken_wf(k, pending);
            let a = self.with_events(k, pending).sleeper_taken(t);
            a.lemma_with_run_state_wf(t, RunState::Runnable);
            a.with_run_state(t, RunState::Runnable).lemma_enqueue_runnable_wf(t);
            assert(self.posted(k, events).held =~= self.held);
        } else {
            self.lemma_with_events_wf(k, pending);
        }
    }

    /// Putting the running thread to sleep on objects without a waiter and
    /// without a pending event keeps the state well formed.
    pub proof fn lemma_current_asleep_on_wf(self, on: Seq<SleepObjectID>)
        requires
            self.wf(),
            !self.taken,
            self.current != self.idle,
            on.len() > 0,
            self.are_sleep_objects(on),
            !self.any_busy(on),
            self.first_ready(on) == on.len(),
        ensures
            self.current_asleep_on(on).wf(),
            self.current_asleep_on(on).held == self.held,
            self.current_asleep_on(on).run_queue == self.run_queue,
            self.current_asleep_on(on).placed(self.current),
            self.current_asleep_on(on).taken,
            self.current_asleep_on(on).current == self.current,
            self.current_asleep_on(on).idle == self.idle,
            self.current_asleep_on(on).tcb(self.current).run_state == RunState::Sleep(on[0]),
            !self.run_queue.contains(self.current),
            forall|j: int|
                0 <= j < on.len() ==> (#[trigger] self.current_asleep_on(on).sleep_objects[on[j] as int]).waiter
                    == Some(self.current),
            self.current_asleep_on(on).rescheduled().held == self.held,
    {
        let cur = self.current;
        self.lemma_take_current_wf();
        let a = self.take_current();
        a.lemma_with_run_state_wf(cur, RunState::Sleep(on[0]));
        let b = a.with_run_state(cur, RunState::Sleep(on[0]));
        let next = self.current_asleep_on(on);
        assert(is_live(self.threads, cur));
        b.lemma_held_in_no_queue(cur);
        assert(next.held =~= self.held);
        assert(self.is_sleep_object(on[0]));
        assert(on.contains(on[0]));
        assert forall|j: int| 0 <= j < on.len() implies (
        #[trigger] next.sleep_objects[on[j] as int]).waiter == Some(cur) by {
            assert(self.is_sleep_object(on[j]));
            assert(on.contains(on[j]));
        }
        assert(next.rescheduled().held =~= self.held) by {
            self.lemma_one_place(cur);
            if next.run_queue.len() > 0 {
                assert(self.run_queue.contains(self.run_queue[0]));
                self.lemma_one_place(self.run_queue[0]);
            }
        }
        assert forall|i: int| 0 <= i < on.len() implies (
        #[trigger] self.sleep_objects[on[i] as int]).events == 0 by {
            self.lemma_none_ready(on, i);
        }
        b.lemma_waiters_frame(next);
        assert forall|j: int| 0 <= j < next.sleep_objects.len() implies sleep_object_ok(
            next.threads,
            next.held,
            #[trigger] next.sleep_objects[j],
            j,
        ) by {
            assert(sleep_object_ok(b.threads, b.held, b.sleep_objects[j], j));
            if on.contains(j as usize) {
                let i = choose|i: int| 0 <= i < on.len() && on[i] == j as usize;
                assert(self.sleep_objects[on[i] as int].events == 0);
            }
        }
        assert forall|u: ThreadID| #[trigger] is_live(next.threads, u) implies next.accounted(u) by {
            assert(b.accounted(u));
            if u != cur && b.placed(u) {
                match b.tcb(u).run_state {
                    RunState::Sleep(j) => {
                        if on.contains(j) {
                            let i = choose|i: int| 0 <= i < on.len() && on[i] == j;
                            assert(self.sleep_objects[on[i] as int].waiter is Some);
                        }
                    },
                    _ => {},
                }
            }
        }
    }

    /// When no object of a list has an event pending, none has.
    pub proof fn lemma_none_ready(self, on: Seq<SleepObjectID>, i: int)
        requires
            self.first_ready(on) == on.len(),
            0 <= i < on.len(),
        ensures
            self.sleep_objects[on[i] as int].events == 0,
        decreases on.len(),
    {
        self.lemma_first_ready_bound(on.drop_first());
        if i > 0 {
            self.lemma_none_ready(on.drop_first(), i - 1);
        }
    }

    /// The first object with an event pending is within the list or at its
    /// end.
    pub proof fn lemma_first_ready_bound(self, on: Seq<SleepObjectID>)
        ensures
            0 <= self.first_ready(on) <= on.len(),
        decreases on.len(),
    {
        if on.len() > 0 {
            self.lemma_first_ready_bound(on.drop_first());
        }
    }

    /// The first object with an event pending has one, and no object
    /// before it has.
    pub proof fn lemma_first_ready_is_first(self, on: Seq<SleepObjectID>)
        ensures
            0 <= self.first_ready(on) <= on.len(),
            self.first_ready(on) < on.len() ==> self.sleep_objects[on[self.first_ready(
                on,
            )] as int].events != 0,
            forall|j: int|
                0 <= j < self.first_ready(on) ==> (#[trigger] self.sleep_objects[on[j] as int]).events
                    == 0,
        decreases on.len(),
    {
        if on.len() > 0 && self.sleep_objects[on[0] as int].events == 0 {
            let rest = on.drop_first();
            let r = self.first_ready(rest);
            self.lemma_first_ready_is_first(rest);
            assert(self.first_ready(on) == 1 + r);
            if r < rest.len() {
                assert(on[r + 1] == rest[r]);
            }
            assert forall|j: int| 0 <= j < 1 + r implies (
            #[trigger] self.sleep_objects[on[j] as int]).events == 0 by {
                if j > 0 {
                    assert(on[j] == rest[j - 1]);
                    assert(self.sleep_objects[rest[j - 1] as int].events == 0);
                }
            }
        }
    }

    /// A wait on several objects keeps the state well formed.
    pub proof fn lemma_slept_any_wf(self, on: Seq<SleepObjectID>)
        requires
            self.wf(),
            !self.taken,
            self.current != self.idle,
            self.are_sleep_objects(on),
        ensures
            self.slept_any(on).wf(),
            !self.slept_any(on).taken,
    {
        self.lemma_first_ready_is_first(on);
        let i = self.first_ready(on);
        if i < on.len() {
            self.lemma_with_events_wf(on[i], 0);
        } else if on.len() > 0 && !self.any_busy(on) {
            self.lemma_current_asleep_on_wf(on);
            self.current_asleep_on(on).lemma_rescheduled_wf();
        }
    }

    /// A wait on one object keeps the state well formed.
    pub proof fn lemma_slept_wf(self, k: SleepObjectID)
        requires
            self.wf(),
            !self.taken,
            self.current != self.idle,
            self.is_sleep_object(k),
        ensures
            self.slept(k).wf(),
            !self.slept(k).taken,
    {
        self.lemma_slept_is_slept_any(k);
        self.lemma_slept_any_wf(seq![k]);
    }
}

impl Scheduler {
    /// Takes thread `tid` off every sleep object that it sleeps on.
    pub(crate) fn clear_waiter(&mut self, tid: ThreadID)
        ensures
            final(self)@ == (State {
                sleep_objects: without_waiter(old(self)@.sleep_objects, tid),
                ..old(self)@
            }),
    {
        let n = self.sleep_objects.len();
        let mut j: usize = 0;
        while j < n
            invariant
                0 <= j <= n,
                n == old(self)@.sleep_objects.len(),
                self@.sleep_objects.len() == n,
                forall|i: int|
                    0 <= i < j ==> #[trigger] self@.sleep_objects[i] == without_waiter(
                        old(self)@.sleep_objects,
                        tid,
                    )[i],
                forall|i: int|
                    j <= i < n ==> #[trigger] self@.sleep_objects[i] == old(self)@.sleep_objects[i],
                self@ == (State { sleep_objects: self@.sleep_objects, ..old(self)@ }),
            decreases n - j,
        {
            let ghost prev = self@.sleep_objects;
            let sleeps_here = match self.sleep_objects[j].waiter {
                Some(t) => t == tid,
                None => false,
            };
            if sleeps_here {
                self.sleep_objects[j].waiter = None;
                assert(self@.sleep_objects =~= prev.update(
                    j as int,
                    SleepObjectView { waiter: None, ..prev[j as int] },
                ));
            }
            j += 1;
        }
        assert(self@.sleep_objects =~= without_waiter(old(self)@.sleep_objects, tid));
    }

    /// Puts thread `tid` to sleep on each object that `on` lists.
    pub(crate) fn set_waiter_on(&mut self, on: &Vec<SleepObjectID>, tid: ThreadID)
        requires
            old(self)@.are_sleep_objects(on@),
        ensures
            final(self)@ == (State {
                sleep_objects: with_waiter_on(old(self)@.sleep_objects, on@, tid),
                ..old(self)@
            }),
    {
        let ghost before = self@.sleep_objects;
        let n = self.sleep_objects.len();
        assert(with_waiter_on(before, on@.subrange(0, 0), tid) =~= before);
        let mut i: usize = 0;
        while i < on.len()
            invariant
                0 <= i <= on@.len(),
                before == old(self)@.sleep_objects,
                self@.sleep_objects.len() == before.len(),
                before.len() <= usize::MAX,
                forall|m: int| 0 <= m < on@.len() ==> (#[trigger] on@[m]) < before.len(),
                self@.sleep_objects == with_waiter_on(before, on@.subrange(0, i as int), tid),
                self@ == (State { sleep_objects: self@.sleep_objects, ..old(self)@ }),
            decreases on@.len() - i,
        {
            let ghost prev = self@.sleep_objects;
            let k = on[i];
            self.sleep_objects[k].waiter = Some(tid);
            proof {
                assert(self@.sleep_objects =~= prev.update(
                    k as int,
                    SleepObjectView { waiter: Some(tid), ..prev[k as int] },
                ));
                let done = on@.subrange(0, i as int);
                let more = on@.subrange(0, i + 1);
                assert forall|j: int| 0 <= j < before.len() implies #[trigger] self@.sleep_objects[j]
                    == with_waiter_on(before, more, tid)[j] by {
                    if more.contains(j as usize) {
                        let m = choose|m: int| 0 <= m < more.len() && more[m] == j as usize;
                        if m < i {
                            assert(done[m] == j as usize);
                        }
                    }
                    if done.contains(j as usize) {
                        let m = choose|m: int| 0 <= m < done.len() && done[m] == j as usize;
                        assert(more[m] == j as usize);
                    }
                    if j == k {
                        assert(more[i as int] == k);
                    }
                }
                assert(self@.sleep_objects =~= with_waiter_on(before, more, tid));
            }
            i += 1;
        }
        assert(on@.subrange(0, i as int) =~= on@);
    }
}

/// Registers a new sleep object and returns its handle; `None` when no
/// handle is left.
pub fn new_sleep_object(s: &mut Scheduler, name: &str) -> (k: Option<SleepObjectID>)
    requires
        old(s)@.wf(),
    ensures
        final(s)@.wf(),
        old(s)@.precedes(final(s)@),
        old(s)@.quiet(final(s)@),
        match k {
            Some(k) => {
                &&& old(s)@.sleep_objects.len() < usize::MAX
                &&& k == old(s)@.sleep_objects.len()
                &&& final(s)@ == old(s)@.with_sleep_object(name@)
            },
            None => old(s)@.sleep_objects.len() >= usize::MAX && final(s)@ == old(s)@,
        },
{
    let k = s.sleep_objects.len();
    if k == usize::MAX {
        return None;
    }
    proof {
        s@.lemma_with_sleep_object_wf(name@);
    }
    s.sleep_objects.push(SleepObject::new(name));
    assert(s@.sleep_objects =~= old(s)@.with_sleep_object(name@).sleep_objects);
    Some(k)
}

/// True when `k` is the handle of a sleep object.
pub fn is_sleep_object(s: &Scheduler, k: SleepObjectID) -> (valid: bool)
    ensures
        valid == s@.is_sleep_object(k),
{
    k < s.sleep_objects.len()
}

/// The events that were posted to a sleep object and not yet consumed.
pub fn pending_events(s: &Scheduler, k: SleepObjectID) -> (events: EventMask)
    requires
        s@.is_sleep_object(k),
    ensures
        events == s@.sleep_objects[k as int].events,
{
    s.sleep_objects[k].pending()
}

/// Posts events to a sleep object, from whatever context. The events join
/// those pending; a thread asleep on the object wakes, leaves every object
/// that it sleeps on, and goes to the back of the run queue. Returns
/// whether a thread woke.
pub fn post(s: &mut Scheduler, k: SleepObjectID, events: EventMask) -> (woken: bool)
    requires
        old(s)@.wf(),
        old(s)@.is_sleep_object(k),
    ensures
        final(s)@ == old(s)@.posted(k, events),
        woken == old(s)@.post_wakes(k, events),
        final(s)@.wf(),
        old(s)@.precedes(final(s)@),
        old(s)@.quiet_but(final(s)@, Some(k)),
        final(s)@.held == old(s)@.held,
        final(s)@.sleep_objects.len() == old(s)@.sleep_objects.len(),
        final(s)@.sleep_objects[k as int].events == old(s)@.sleep_objects[k as int].events
            | events,
        woken ==> {
            let t = old(s)@.sleep_objects[k as int].waiter->0;
            &&& !old(s)@.run_queue.contains(t)
            &&& final(s)@.run_queue == old(s)@.run_queue.push(t)
            &&& final(s)@.tcb(t).run_state == RunState::Runnable
            &&& forall|j: int|
                0 <= j < old(s)@.sleep_objects.len() ==> (#[trigger] final(s)@.sleep_objects[j]).waiter
                    != Some(t)
        },
        !woken ==> final(s)@ == old(s)@.with_events(
            k,
            old(s)@.sleep_objects[k as int].events | events,
        ),
{
    proof {
        s@.lemma_posted_wf(k, events);
    }
    let pending = s.sleep_objects[k].events | events;
    s.sleep_objects[k].events = pending;
    assert(s@.sleep_objects =~= old(s)@.with_events(k, pending).sleep_objects);
    if events == 0 {
        return false;
    }
    match s.sleep_objects[k].waiter {
        Some(tid) => {
            proof {
                old(s)@.lemma_sleeper_taken_wf(k, pending);
            }
            s.clear_waiter(tid);
            proof {
                s.held@ = s.held@.insert(tid);
            }
            let thread = ThreadPtr::from_tid(tid);
            s.set_run_state(&thread, RunState::Runnable);
            s.push_runnable(thread);
            true
        },
        None => false,
    }
}

/// Waits on a sleep object. Pending events are consumed and returned at
/// once. With nothing pending the running thread goes to sleep on the
/// object and another thread runs; a post wakes it, and it waits again to
/// collect the events. A sleep object has one waiter: while another thread
/// sleeps on it, the wait is refused with `WaiterPresent`.
///
/// The idle thread never sleeps.
pub fn wait(s: &mut Scheduler, k: SleepObjectID) -> (r: Result<SleepOutcome, WaitError>)
    requires
        old(s)@.wf(),
        !old(s)@.taken,
        old(s)@.current != old(s)@.idle,
        old(s)@.is_sleep_object(k),
    ensures
        final(s)@ == old(s)@.slept(k),
        r == old(s)@.sleep_outcome(k),
        final(s)@.wf(),
        old(s)@.precedes(final(s)@),
        old(s)@.quiet(final(s)@),
        !final(s)@.taken,
        match r {
            Ok(SleepOutcome::Ready(events)) => {
                &&& events != 0
                &&& events == old(s)@.sleep_objects[k as int].events
                &&& final(s)@ == old(s)@.with_events(k, 0)
            },
            Ok(SleepOutcome::Blocked(switch)) => {
                &&& old(s)@.sleep_objects[k as int].events == 0
                &&& old(s)@.sleep_objects[k as int].waiter is None
                &&& final(s)@.sleep_objects[k as int].waiter == Some(old(s)@.current)
                &&& final(s)@.sleep_objects[k as int].events == 0
                &&& final(s)@.tcb(old(s)@.current).run_state == RunState::Sleep(k)
                &&& !final(s)@.run_queue.contains(old(s)@.current)
                &&& final(s)@.current != old(s)@.current
                &&& final(s)@.held == old(s)@.held
                &&& switch == (if old(s)@.run_queue.len() > 0 {
                    Switch::To(old(s)@.run_queue[0])
                } else {
                    Switch::ToIdle(old(s)@.idle)
                })
            },
            Err(e) => {
                &&& e == WaitError::WaiterPresent
                &&& old(s)@.sleep_objects[k as int].events == 0
                &&& old(s)@.sleep_objects[k as int].waiter is Some
                &&& final(s)@ == old(s)@
            },
        },
{
    proof {
        s@.lemma_slept_wf(k);
    }
    let pending = s.sleep_objects[k].events;
    if pending != 0 {
        s.sleep_objects[k].events = 0;
        assert(s@.sleep_objects =~= old(s)@.slept(k).sleep_objects);
        return Ok(SleepOutcome::Ready(pending));
    }
    if s.sleep_objects[k].waiter.is_some() {
        return Err(WaitError::WaiterPresent);
    }
    proof {
        let on = seq![k];
        s@.lemma_first_ready(on, 1);
        assert(!s@.any_busy(on)) by {
            if s@.any_busy(on) {
                let i = choose|i: int|
                    0 <= i < on.len() && (#[trigger] s@.sleep_objects[on[i] as int]).waiter
                        is Some;
                assert(on[i] == k);
            }
        }
        s@.lemma_current_asleep_on_wf(on);
        s@.lemma_take_current_wf();
    }
    let this_thread = get_cur_thread(s);
    let tid = this_thread.get_tid();
    s.set_run_state(&this_thread, RunState::Sleep(k));
    proof {
        s.held@ = s.held@.remove(tid);
    }
    s.sleep_objects[k].waiter = Some(tid);
    assert(s@.sleep_objects =~= old(s)@.current_asleep_on(seq![k]).sleep_objects) by {
        let want = old(s)@.current_asleep_on(seq![k]).sleep_objects;
        assert forall|j: int| 0 <= j < want.len() implies s@.sleep_objects[j] == want[j] by {
            if seq![k].contains(j as usize) {
                let m = choose|m: int| 0 <= m < 1 && seq![k][m] == j as usize;
            }
            if j == k {
                assert(seq![k][0] == k);
            }
        }
    }
    Ok(SleepOutcome::Blocked(reschedule(s)))
}

/// Waits on several sleep objects at once. The events of the first object
/// in the list that has any are consumed and returned with its position.
/// With nothing pending on any of them the running thread goes to sleep on
/// all of them and another thread runs; a post to any one wakes it, and it
/// waits again to collect the events.
///
/// An empty list is refused with `NoObject`, and a list with an object that
/// another thread sleeps on with `WaiterPresent`.
///
/// The idle thread never sleeps.
pub fn wait_any(s: &mut Scheduler, on: &Vec<SleepObjectID>) -> (r: Result<AnyOutcome, WaitError>)
    requires
        old(s)@.wf(),
        !old(s)@.taken,
        old(s)@.current != old(s)@.idle,
        old(s)@.are_sleep_objects(on@),
    ensures
        final(s)@ == old(s)@.slept_any(on@),
        r == old(s)@.any_outcome(on@),
        final(s)@.wf(),
        old(s)@.precedes(final(s)@),
        old(s)@.quiet(final(s)@),
        !final(s)@.taken,
        match r {
            Ok(AnyOutcome::Ready { which, events }) => {
                &&& which < on@.len()
                &&& events != 0
                &&& events == old(s)@.sleep_objects[on@[which as int] as int].events
                &&& forall|j: int|
                    0 <= j < which ==> (#[trigger] old(s)@.sleep_objects[on@[j] as int]).events == 0
                &&& final(s)@ == old(s)@.with_events(on@[which as int], 0)
            },
            Ok(AnyOutcome::Blocked(switch)) => {
                &&& on@.len() > 0
                &&& forall|j: int|
                    0 <= j < on@.len() ==> (#[trigger] final(s)@.sleep_objects[on@[j] as int]).waiter
                        == Some(old(s)@.current)
                &&& final(s)@.tcb(old(s)@.current).run_state == RunState::Sleep(on@[0])
                &&& !final(s)@.run_queue.contains(old(s)@.current)
                &&& final(s)@.current != old(s)@.current
                &&& final(s)@.held == old(s)@.held
                &&& switch == (if old(s)@.run_queue.len() > 0 {
                    Switch::To(old(s)@.run_queue[0])
                } else {
                    Switch::ToIdle(old(s)@.idle)
                })
            },
            Err(WaitError::NoObject) => on@.len() == 0 && final(s)@ == old(s)@,
            Err(WaitError::WaiterPresent) => {
                &&& on@.len() > 0
                &&& old(s)@.any_busy(on@)
                &&& final(s)@ == old(s)@
            },
        },
{
    proof {
        s@.lemma_slept_any_wf(on@);
    }
    let mut i: usize = 0;
    while i < on.len()
        invariant
            0 <= i <= on@.len(),
            s@ == old(s)@,
            s@.are_sleep_objects(on@),
            s@.slept_any(on@).wf(),
            !s@.slept_any(on@).taken,
            forall|j: int| 0 <= j < i ==> (#[trigger] s@.sleep_objects[on@[j] as int]).events == 0,
        decreases on@.len() - i,
    {
        let k = on[i];
        let pending = s.sleep_objects[k].events;
        if pending != 0 {
            proof {
                s@.lemma_first_ready(on@, i as int);
            }
            s.sleep_objects[k].events = 0;
            assert(s@.sleep_objects =~= old(s)@.slept_any(on@).sleep_objects);
            return Ok(AnyOutcome::Ready { which: i, events: pending });
        }
        i += 1;
    }
    proof {
        s@.lemma_first_ready(on@, on@.len() as int);
    }
    if on.len() == 0 {
        return Err(WaitError::NoObject);
    }
    let mut i: usize = 0;
    while i < on.len()
        invariant
            0 <= i <= on@.len(),
            s@ == old(s)@,
            s@.are_sleep_objects(on@),
            s@.slept_any(on@).wf(),
            !s@.slept_any(on@).taken,
            s@.first_ready(on@) == on@.len(),
            on@.len() > 0,
            forall|j: int| 0 <= j < i ==> (#[trigger] s@.sleep_objects[on@[j] as int]).waiter is None,
        decreases on@.len() - i,
    {
        if s.sleep_objects[on[i]].waiter.is_some() {
            assert(s@.sleep_objects[on@[i as int] as int].waiter is Some);
            assert(s@.any_busy(on@));
            return Err(WaitError::WaiterPresent);
        }
        i += 1;
    }
    proof {
        assert(!s@.any_busy(on@)) by {
            if s@.any_busy(on@) {
                let i = choose|i: int|
                    0 <= i < on@.len() && (#[trigger] s@.sleep_objects[on@[i] as int]).waiter
                        is Some;
                assert(s@.sleep_objects[on@[i] as int].waiter is None);
            }
        }
        s@.lemma_current_asleep_on_wf(on@);
        s@.lemma_take_current_wf();
    }
    let this_thread = get_cur_thread(s);
    let tid = this_thread.get_tid();
    s.set_run_state(&this_thread, RunState::Sleep(on[0]));
    proof {
        s.held@ = s.held@.remove(tid);
    }
    s.set_waiter_on(on, tid);
    Ok(AnyOutcome::Blocked(reschedule(s)))
}

} // verus!
